//! The account-flavored projection: one projector per account number holding
//! a balance, and a registry that creates each projector the first time its
//! account is seen and routes every later event to that same instance.
//!
//! The registry's abstract view is a map from account number to balance;
//! `apply_event` is one atomic get-or-create-and-fold step on that map, so
//! no account can ever race into two live projectors and no event is lost.

use vstd::prelude::*;
use crate::keyed::KeyTable;

verus! {

#[derive(Debug, Clone)]
pub enum EventType {
    AmountWithdrawn,
    AmountDeposited,
    FeeApplied,
}

#[derive(Debug, Clone)]
pub struct Event {
    pub account_number: String,
    pub event_type: EventType,
    pub value: i64,
}

#[derive(Debug, Clone)]
pub struct ProjectorState {
    balance: i64,
    account_number: String,
}

/// Owns the mutable state for exactly one account; state is replaced, not
/// mutated in place, on every fold.
pub struct Projector {
    state: ProjectorState,
}

/// The balance that folding `event` into balance `b` yields, unbounded:
/// deposits add the amount, withdrawals and fees subtract it.
pub open spec fn spec_fold(b: int, event: Event) -> int {
    match event.event_type {
        EventType::AmountWithdrawn => b - event.value,
        EventType::AmountDeposited => b + event.value,
        EventType::FeeApplied => b - event.value,
    }
}

/// The folded balance stays representable (a machine limit, not a policy).
pub open spec fn fold_fits(b: int, event: Event) -> bool {
    i64::MIN <= spec_fold(b, event) <= i64::MAX
}

impl Projector {
    pub closed spec fn balance(self) -> int {
        self.state.balance as int
    }

    pub closed spec fn account(self) -> Seq<char> {
        self.state.account_number@
    }

    /// A fresh projector for one account starts from a zero balance.
    pub fn new(account_number: String) -> (s: Self)
        ensures
            s.balance() == 0,
            s.account() == account_number@,
    {
        Projector { state: ProjectorState { balance: 0, account_number } }
    }

    /// The fold: replaces the state with the state after the event.
    fn handle_event(state: ProjectorState, event: Event) -> (r: ProjectorState)
        requires
            fold_fits(state.balance as int, event),
        ensures
            r.balance as int == spec_fold(state.balance as int, event),
            r.account_number@ == state.account_number@,
    {
        let mut state = state;
        match event.event_type {
            EventType::AmountWithdrawn => {
                state.balance = state.balance - event.value;
            },
            EventType::AmountDeposited => {
                state.balance = state.balance + event.value;
            },
            EventType::FeeApplied => {
                state.balance = state.balance - event.value;
            },
        }
        state
    }

    /// Folds one event into this projector's state.
    pub fn apply_event(&mut self, event: Event)
        requires
            fold_fits(old(self).balance(), event),
        ensures
            final(self).balance() == spec_fold(old(self).balance(), event),
            final(self).account() == old(self).account(),
    {
        let mut taken = ProjectorState { balance: 0, account_number: String::new() };
        core::mem::swap(&mut taken, &mut self.state);
        let next = Self::handle_event(taken, event);
        self.state = next;
    }

    /// A point-in-time snapshot of the balance; the sequential projector is
    /// always available, so the reply is always `Some`.
    pub fn get_balance(&self) -> (r: Option<i64>)
        ensures
            r matches Some(b) && b as int == self.balance(),
    {
        Some(self.state.balance)
    }
}

/// The balance a registry view holds for a key: zero before any event, since
/// a projector is created on the first event with a zero starting balance.
pub open spec fn balance_of(m: Map<Seq<char>, int>, k: Seq<char>) -> int {
    if m.contains_key(k) {
        m[k]
    } else {
        0
    }
}

/// What one routed event does to the registry view: the key's balance is
/// replaced by the fold of the event into its previous balance (zero on
/// first sight), and no other key changes.
pub open spec fn reg_after(m: Map<Seq<char>, int>, event: Event) -> Map<Seq<char>, int> {
    m.insert(event.account_number@, spec_fold(balance_of(m, event.account_number@), event))
}

pub open spec fn reg_after_seq(m: Map<Seq<char>, int>, events: Seq<Event>) -> Map<Seq<char>, int>
    decreases events.len(),
{
    if events.len() == 0 {
        m
    } else {
        reg_after(reg_after_seq(m, events.drop_last()), events.last())
    }
}

pub open spec fn fold_seq(b: int, events: Seq<Event>) -> int
    decreases events.len(),
{
    if events.len() == 0 {
        b
    } else {
        spec_fold(fold_seq(b, events.drop_last()), events.last())
    }
}

/// Maps account number to the running projector for that account; its view
/// is the map from account number to balance.
pub struct ProjectorRegistry {
    projectors: KeyTable<Projector>,
}

impl View for ProjectorRegistry {
    type V = Map<Seq<char>, int>;

    closed spec fn view(&self) -> Map<Seq<char>, int> {
        self.projectors@.map_values(|p: Projector| p.balance())
    }
}

impl ProjectorRegistry {
    pub fn new() -> (s: Self)
        ensures
            s@ == Map::<Seq<char>, int>::empty(),
    {
        let s = ProjectorRegistry { projectors: KeyTable::new() };
        proof {
            assert(s@ =~= Map::<Seq<char>, int>::empty());
        }
        s
    }

    /// Routes one event: if the account's projector exists the event is
    /// forwarded to it, otherwise the projector is created and receives the
    /// event at once. Creation and forwarding are one step on the abstract
    /// map, so two first-time events for one account can never build two
    /// projectors, and neither event is dropped.
    pub fn apply_event(&mut self, event: Event)
        requires
            fold_fits(balance_of(old(self)@, event.account_number@), event),
        ensures
            final(self)@ == reg_after(old(self)@, event),
    {
        let key = event.account_number.clone();
        let prior: i64 = match self.projectors.get(key.as_str()) {
            Some(p) => {
                let b = p.get_balance();
                match b {
                    Some(b) => b,
                    None => 0,
                }
            },
            None => 0,
        };
        proof {
            assert(prior as int == balance_of(self@, event.account_number@));
        }
        let next: i64 = match event.event_type {
            EventType::AmountWithdrawn => prior - event.value,
            EventType::AmountDeposited => prior + event.value,
            EventType::FeeApplied => prior - event.value,
        };
        let projector = Projector {
            state: ProjectorState { balance: next, account_number: key.clone() },
        };
        self.projectors.set(key, projector);
        proof {
            assert(final(self)@ =~= reg_after(old(self)@, event));
        }
    }

    /// Answers a balance query: an account with no projector is reported as
    /// `unknown_account`, distinct from a projector that cannot reply.
    pub fn lookup_balance(&self, account_number: &str) -> (r: Result<i64, String>)
        ensures
            self@.contains_key(account_number@) ==> (r matches Ok(b) && b as int
                == self@[account_number@]),
            !self@.contains_key(account_number@) ==> (r matches Err(m) && m@
                == "unknown_account"@),
    {
        match self.projectors.get(account_number) {
            Some(projector) => match projector.get_balance() {
                Some(b) => Ok(b),
                None => Err("Failed to get balance".to_owned()),
            },
            None => Err("unknown_account".to_owned()),
        }
    }
}

/// Ordering: the balance a query observes after a sequence of events for one
/// account equals the fold of the initial balance over exactly that
/// sequence, in order.
pub proof fn lemma_ordering(m: Map<Seq<char>, int>, events: Seq<Event>, k: Seq<char>)
    requires
        forall|i: int| 0 <= i < events.len() ==> (#[trigger] events[i]).account_number@ == k,
    ensures
        balance_of(reg_after_seq(m, events), k) == fold_seq(balance_of(m, k), events),
    decreases events.len(),
{
    if events.len() > 0 {
        lemma_ordering(m, events.drop_last(), k);
    }
}

/// The subsequence of events addressed to one account, in order.
pub open spec fn events_for(events: Seq<Event>, k: Seq<char>) -> Seq<Event> {
    events.filter(|e: Event| e.account_number@ == k)
}

/// Ordering under interleaving: whatever other keys were active, the
/// balance observed under `k` after any sequence of routed events equals
/// the fold of exactly `k`'s own subsequence, in order.
pub proof fn lemma_ordering_interleaved(m: Map<Seq<char>, int>, events: Seq<Event>, k: Seq<char>)
    ensures
        balance_of(reg_after_seq(m, events), k) == fold_seq(
            balance_of(m, k),
            events_for(events, k),
        ),
    decreases events.len(),
{
    reveal(Seq::filter);
    if events.len() > 0 {
        lemma_ordering_interleaved(m, events.drop_last(), k);
        let prev = events_for(events.drop_last(), k);
        if events.last().account_number@ == k {
            assert(events_for(events, k) == prev.push(events.last()));
            assert(prev.push(events.last()).drop_last() =~= prev);
        } else {
            assert(events_for(events, k) == prev);
        }
    }
}

/// Isolation: events for other accounts never change the balance observed
/// under key `k`.
pub proof fn lemma_isolation(m: Map<Seq<char>, int>, events: Seq<Event>, k: Seq<char>)
    requires
        forall|i: int| 0 <= i < events.len() ==> (#[trigger] events[i]).account_number@ != k,
    ensures
        balance_of(reg_after_seq(m, events), k) == balance_of(m, k),
        reg_after_seq(m, events).contains_key(k) == m.contains_key(k),
    decreases events.len(),
{
    if events.len() > 0 {
        lemma_isolation(m, events.drop_last(), k);
    }
}

/// No double creation: a burst of first-time events for one unseen account
/// leaves exactly one binding for that account, whose balance reflects every
/// event in the burst, none lost and none duplicated.
pub proof fn lemma_no_double_creation(m: Map<Seq<char>, int>, events: Seq<Event>, k: Seq<char>)
    requires
        !m.contains_key(k),
        events.len() > 0,
        forall|i: int| 0 <= i < events.len() ==> (#[trigger] events[i]).account_number@ == k,
    ensures
        reg_after_seq(m, events).contains_key(k),
        reg_after_seq(m, events)[k] == fold_seq(0, events),
    decreases events.len(),
{
    lemma_ordering(m, events, k);
    if events.len() == 1 {
    } else {
        lemma_no_double_creation(m, events.drop_last(), k);
    }
}

} // verus!
