//! The leaderboard-flavored projection: one projector folding kill events
//! into per-attacker scores and keeping a ranking of the ten best.
//!
//! The ranking is sorted by score descending, every listed entry carries
//! that attacker's true score, and no attacker is listed twice.

use vstd::prelude::*;
use crate::keyed::KeyTable;
use crate::keyed::keys_unique;
use crate::keyed::lemma_map_of_contains;
use crate::keyed::lemma_map_of_index;
use crate::keyed::lemma_map_of_len;
use crate::keyed::map_of;

verus! {

#[derive(Debug, Clone)]
pub enum EventType {
    ZombieKilled { attacker: String },
}

/// A score bump saturates at the counter's ceiling instead of failing: the
/// fold must be total.
pub open spec fn bump(x: int) -> int {
    if x < u64::MAX {
        x + 1
    } else {
        x
    }
}

/// The score a scoreboard holds for an attacker: zero before any kill.
pub open spec fn score_of(m: Map<Seq<char>, u64>, k: Seq<char>) -> int {
    if m.contains_key(k) {
        m[k] as int
    } else {
        0
    }
}

/// What the ranking promises of itself: as many entries as there are
/// attackers, up to ten; sorted by score descending; every entry carries
/// that attacker's true score; no attacker is listed twice.
pub open spec fn ranked(scores: Map<Seq<char>, u64>, top: Seq<(String, u64)>) -> bool {
    &&& top.len() == if scores.dom().len() < 10 {
        scores.dom().len()
    } else {
        10
    }
    &&& forall|i: int, j: int| 0 <= i < j < top.len() ==> top[i].1 >= top[j].1
    &&& forall|i: int|
        0 <= i < top.len() ==> scores.contains_key((#[trigger] top[i]).0@)
            && scores[top[i].0@] == top[i].1
    &&& keys_unique(top)
}

/// Per-attacker kill counts and the derived top-ten ranking.
pub struct ProjectorState {
    scores: KeyTable<u64>,
    top10: Vec<(String, u64)>,
}

impl ProjectorState {
    #[verifier::type_invariant]
    closed spec fn wf(self) -> bool {
        ranked(self.scores@, self.top10@)
    }

    pub closed spec fn spec_scores(self) -> Map<Seq<char>, u64> {
        self.scores@
    }

    fn new() -> (s: Self)
        ensures
            s.spec_scores() == Map::<Seq<char>, u64>::empty(),
    {
        let scores: KeyTable<u64> = KeyTable::new();
        let top10: Vec<(String, u64)> = Vec::new();
        proof {
            assert(scores@.dom() =~= Set::<Seq<char>>::empty());
        }
        ProjectorState { scores, top10 }
    }

    /// Recomputes the ranking: a descending sort of every score entry,
    /// cut to the ten best.
    #[verifier::rlimit(100)]
    fn rerank(scores: &KeyTable<u64>) -> (top: Vec<(String, u64)>)
        ensures
            ranked(scores@, top@),
    {
        let pairs = scores.pairs();
        let n = pairs.len();
        let mut sorted: Vec<(String, u64)> = Vec::new();
        let mut i: usize = 0;
        while i < n
            invariant
                n == pairs@.len(),
                map_of(pairs@) == scores@,
                keys_unique(pairs@),
                0 <= i <= n,
                sorted@.len() == i,
                forall|x: int, y: int| 0 <= x < y < i ==> sorted@[x].1 >= sorted@[y].1,
                forall|x: int|
                    0 <= x < i ==> exists|j: int| 0 <= j < i && pairs@[j] == #[trigger] sorted@[x],
                keys_unique(sorted@),
            decreases n - i,
        {
            let p = (pairs[i].0.clone(), pairs[i].1);
            assert(p == pairs@[i as int]);
            let mut pos: usize = 0;
            while pos < sorted.len() && sorted[pos].1 >= p.1
                invariant
                    0 <= pos <= sorted@.len(),
                    forall|x: int| 0 <= x < pos ==> sorted@[x].1 >= p.1,
                decreases sorted@.len() - pos,
            {
                pos = pos + 1;
            }
            proof {
                lemma_insert_step(sorted@, pairs@, i as int, pos as int, p);
            }
            sorted.insert(pos, p);
            i = i + 1;
        }
        let ghost full = sorted@;
        sorted.truncate(10);
        proof {
            if full.len() > 10 {
                assert(sorted@ =~= full.subrange(0, 10));
            } else {
                assert(sorted@ =~= full);
            }
            lemma_rank_cut(full, pairs@, scores@, sorted@);
        }
        sorted
    }
}

/// One step of the descending insertion sort: inserting the next pair at
/// its position keeps the order, the one-to-one correspondence with the
/// processed prefix, and the distinctness of names.
#[verifier::rlimit(100)]
proof fn lemma_insert_step(
    before: Seq<(String, u64)>,
    pairs: Seq<(String, u64)>,
    i: int,
    pos: int,
    p: (String, u64),
)
    requires
        keys_unique(pairs),
        0 <= i < pairs.len(),
        before.len() == i,
        p == pairs[i],
        0 <= pos <= i,
        forall|x: int, y: int| 0 <= x < y < i ==> before[x].1 >= before[y].1,
        forall|x: int| 0 <= x < pos ==> before[x].1 >= p.1,
        pos < i ==> before[pos].1 < p.1,
        forall|x: int|
            0 <= x < i ==> exists|j: int| 0 <= j < i && pairs[j] == #[trigger] before[x],
        keys_unique(before),
    ensures
        before.insert(pos, p).len() == i + 1,
        forall|x: int, y: int|
            0 <= x < y < i + 1 ==> before.insert(pos, p)[x].1 >= before.insert(pos, p)[y].1,
        forall|x: int|
            0 <= x < i + 1 ==> exists|j: int|
                0 <= j < i + 1 && pairs[j] == #[trigger] before.insert(pos, p)[x],
        keys_unique(before.insert(pos, p)),
{
    let t = before.insert(pos, p);
    before.insert_ensures(pos, p);
    assert forall|x: int| 0 <= x < i + 1 implies exists|j: int|
        0 <= j < i + 1 && pairs[j] == #[trigger] t[x] by {
        if x == pos {
            assert(pairs[i] == t[x]);
        } else if x < pos {
            assert(t[x] == before[x]);
        } else {
            assert(t[x] == before[x - 1]);
        }
    }
    assert forall|x: int, y: int| 0 <= x < y < i + 1 implies t[x].1 >= t[y].1 by {
        if x < pos {
            assert(t[x] == before[x]);
        } else if x > pos {
            assert(t[x] == before[x - 1]);
        }
        if y < pos {
            assert(t[y] == before[y]);
        } else if y > pos {
            assert(t[y] == before[y - 1]);
        }
        if x == pos && y > pos {
            if pos < y - 1 {
                assert(before[pos].1 >= before[y - 1].1);
            }
            assert(before[pos].1 < p.1);
        }
    }
    assert forall|x: int, y: int| 0 <= x < y < i + 1 implies t[x].0@ != t[y].0@ by {
        if x != pos && y != pos {
        } else {
            let o: int = if x == pos {
                y
            } else {
                x
            };
            let oi: int = if o < pos {
                o
            } else {
                o - 1
            };
            assert(t[o] == before[oi]);
            let j0 = choose|j0: int| 0 <= j0 < i && pairs[j0] == before[oi];
            assert(pairs[j0].0@ != pairs[i].0@);
        }
    }
}

/// Cutting a full descending ranking of all score entries to its first ten
/// yields the top-ten ranking.
proof fn lemma_rank_cut(
    full: Seq<(String, u64)>,
    pairs: Seq<(String, u64)>,
    m: Map<Seq<char>, u64>,
    cut: Seq<(String, u64)>,
)
    requires
        map_of(pairs) == m,
        keys_unique(pairs),
        full.len() == pairs.len(),
        forall|x: int, y: int| 0 <= x < y < full.len() ==> full[x].1 >= full[y].1,
        forall|x: int|
            0 <= x < full.len() ==> exists|j: int|
                0 <= j < pairs.len() && pairs[j] == #[trigger] full[x],
        keys_unique(full),
        cut == if full.len() <= 10 {
            full
        } else {
            full.subrange(0, 10)
        },
    ensures
        ranked(m, cut),
{
    lemma_map_of_len(pairs);
    assert forall|x: int|
        0 <= x < cut.len() implies m.contains_key((#[trigger] cut[x]).0@) && m[cut[x].0@]
        == cut[x].1 by {
        assert(cut[x] == full[x]);
        let j = choose|j: int| 0 <= j < pairs.len() && pairs[j] == full[x];
        lemma_map_of_index(pairs, j);
    }
}

/// Owns the scoreboard for one leaderboard instance; every mutation goes
/// through its single fold.
pub struct Projector {
    state: ProjectorState,
}

impl Projector {
    pub closed spec fn spec_scores(self) -> Map<Seq<char>, u64> {
        self.state.spec_scores()
    }

    /// Starts a projector with an empty scoreboard.
    pub fn start_link() -> (s: Self)
        ensures
            s.spec_scores() == Map::<Seq<char>, u64>::empty(),
    {
        Projector { state: ProjectorState::new() }
    }

    /// Folds one kill event: the attacker's score rises by one (saturating
    /// at the counter's ceiling) and the ranking is rebuilt.
    pub fn apply_event(&mut self, event: EventType)
        ensures
            final(self).spec_scores() == match event {
                EventType::ZombieKilled { attacker } => old(self).spec_scores().insert(
                    attacker@,
                    bump(score_of(old(self).spec_scores(), attacker@)) as u64,
                ),
            },
    {
        let mut taken = ProjectorState::new();
        core::mem::swap(&mut taken, &mut self.state);
        let ProjectorState { mut scores, top10: _ } = taken;
        match event {
            EventType::ZombieKilled { attacker } => {
                let prior: u64 = match scores.get(attacker.as_str()) {
                    Some(v) => *v,
                    None => 0,
                };
                let next: u64 = if prior < u64::MAX {
                    prior + 1
                } else {
                    prior
                };
                scores.set(attacker, next);
            },
        }
        let top10 = ProjectorState::rerank(&scores);
        self.state = ProjectorState { scores, top10 };
    }

    /// Clears every score at the end of a week; the ranking empties with it.
    pub fn week_completed(&mut self)
        ensures
            final(self).spec_scores() == Map::<Seq<char>, u64>::empty(),
    {
        self.state = ProjectorState::new();
    }

    /// A snapshot of the ranking: sorted by score descending, accurate,
    /// duplicate-free, and dominating everything it leaves out.
    pub fn get_top10(&self) -> (top: Vec<(String, u64)>)
        ensures
            ranked(self.spec_scores(), top@),
    {
        proof {
            use_type_invariant(&self.state);
        }
        let n = self.state.top10.len();
        let mut out: Vec<(String, u64)> = Vec::new();
        let mut i: usize = 0;
        while i < n
            invariant
                n == self.state.top10@.len(),
                0 <= i <= n,
                out@.len() == i,
                forall|j: int| 0 <= j < i ==> out@[j] == self.state.top10@[j],
            decreases n - i,
        {
            let entry = (self.state.top10[i].0.clone(), self.state.top10[i].1);
            out.push(entry);
            i = i + 1;
        }
        proof {
            assert(out@ =~= self.state.top10@);
        }
        out
    }

    /// The score recorded for one attacker; zero when none is recorded.
    pub fn get_score(&self, attacker: String) -> (score: u64)
        ensures
            score as int == score_of(self.spec_scores(), attacker@),
    {
        match self.state.scores.get(attacker.as_str()) {
            Some(v) => *v,
            None => 0,
        }
    }
}

} // verus!
