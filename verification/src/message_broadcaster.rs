//! The fan-out bus, modeled sequentially: every published message is
//! appended to every subscriber's own queue, so each subscriber receives
//! every message independently of how fast the others drain theirs.
//!
//! A subscriber sees only messages published after it subscribed. When a
//! subscriber's queue is full the oldest unread message is dropped and the
//! subscriber is owed a lag signal, a non-fatal condition it recovers from
//! by resuming with the next available message. Publishing with no
//! subscribers succeeds as a no-op.

use vstd::prelude::*;

verus! {

struct Subscriber {
    queue: Vec<String>,
    lagged: u64,
}

/// What a subscriber's next receive yields.
#[derive(Debug)]
pub enum RecvOutcome {
    /// The oldest unread message.
    Message(String),
    /// How many messages were dropped while the subscriber lagged; the
    /// subscriber resumes from the next available message.
    Lagged(u64),
    /// Nothing published yet beyond what was already read.
    Empty,
}

/// Fans every published message out to every subscriber's queue.
pub struct MessageBroadcaster {
    capacity: usize,
    subscribers: Vec<Subscriber>,
}

impl MessageBroadcaster {
    pub closed spec fn spec_capacity(self) -> int {
        self.capacity as int
    }

    pub closed spec fn subscriber_count(self) -> int {
        self.subscribers@.len() as int
    }

    pub closed spec fn queue_of(self, i: int) -> Seq<String> {
        self.subscribers@[i].queue@
    }

    pub closed spec fn lag_of(self, i: int) -> int {
        self.subscribers@[i].lagged as int
    }

    /// A bus with room for `capacity` unread messages per subscriber.
    pub fn new(capacity: usize) -> (s: Self)
        requires
            capacity >= 1,
        ensures
            s.subscriber_count() == 0,
            s.spec_capacity() == capacity,
    {
        MessageBroadcaster { capacity, subscribers: Vec::new() }
    }

    /// Registers a fresh subscriber; it starts with an empty queue, so it
    /// observes only messages published after this call.
    pub fn subscribe(&mut self) -> (id: usize)
        ensures
            id == old(self).subscriber_count(),
            final(self).subscriber_count() == old(self).subscriber_count() + 1,
            final(self).queue_of(id as int) == Seq::<String>::empty(),
            final(self).lag_of(id as int) == 0,
            final(self).spec_capacity() == old(self).spec_capacity(),
            forall|i: int|
                0 <= i < old(self).subscriber_count() ==> final(self).queue_of(i)
                    == old(self).queue_of(i) && final(self).lag_of(i) == old(self).lag_of(i),
    {
        let id = self.subscribers.len();
        self.subscribers.push(Subscriber { queue: Vec::new(), lagged: 0 });
        id
    }

    /// Delivers a message to every subscriber: appended to each queue, and
    /// where a queue is already full the oldest unread message is dropped
    /// and that subscriber's lag count rises. Never blocks the publisher
    /// and never fails: with no subscribers it is a no-op success.
    pub fn broadcast_event(&mut self, event_json: String) -> (r: Result<(), String>)
        ensures
            r is Ok,
            final(self).subscriber_count() == old(self).subscriber_count(),
            final(self).spec_capacity() == old(self).spec_capacity(),
            forall|i: int|
                0 <= i < old(self).subscriber_count() ==> {
                    if old(self).queue_of(i).len() < old(self).spec_capacity() || old(self).queue_of(i).len() == 0 {
                        (#[trigger] final(self).queue_of(i)) == old(self).queue_of(i).push(
                            event_json,
                        ) && final(self).lag_of(i) == old(self).lag_of(i)
                    } else {
                        (#[trigger] final(self).queue_of(i)) == old(self).queue_of(i).remove(
                            0,
                        ).push(event_json) && final(self).lag_of(i) == if old(self).lag_of(i)
                            < u64::MAX {
                            old(self).lag_of(i) + 1
                        } else {
                            old(self).lag_of(i)
                        }
                    }
                },
    {
        let n = self.subscribers.len();
        let mut i: usize = 0;
        while i < n
            invariant
                n == self.subscribers@.len(),
                0 <= i <= n,
                self.capacity == old(self).capacity,
                forall|j: int| i <= j < n ==> self.subscribers@[j] == old(self).subscribers@[j],
                forall|j: int|
                    0 <= j < i ==> {
                        if old(self).queue_of(j).len() < old(self).spec_capacity() || old(self).queue_of(j).len() == 0 {
                            (#[trigger] self.subscribers@[j]).queue@ == old(self).queue_of(
                                j,
                            ).push(event_json) && self.subscribers@[j].lagged == old(
                                self,
                            ).subscribers@[j].lagged
                        } else {
                            (#[trigger] self.subscribers@[j]).queue@ == old(self).queue_of(
                                j,
                            ).remove(0).push(event_json) && self.subscribers@[j].lagged as int
                                == if old(self).lag_of(j) < u64::MAX {
                                old(self).lag_of(j) + 1
                            } else {
                                old(self).lag_of(j)
                            }
                        }
                    },
            decreases n - i,
        {
            let sub = &mut self.subscribers[i];
            if sub.queue.len() >= self.capacity && sub.queue.len() > 0 {
                sub.queue.remove(0);
                if sub.lagged < u64::MAX {
                    sub.lagged = sub.lagged + 1;
                }
            }
            sub.queue.push(event_json.clone());
            i = i + 1;
        }
        Ok(())
    }

    /// One receive step for a subscriber: a pending lag signal comes first
    /// and is then cleared; otherwise the oldest unread message is handed
    /// out; an empty queue yields `Empty`.
    pub fn recv(&mut self, id: usize) -> (r: RecvOutcome)
        requires
            0 <= id < old(self).subscriber_count(),
        ensures
            final(self).subscriber_count() == old(self).subscriber_count(),
            final(self).spec_capacity() == old(self).spec_capacity(),
            forall|i: int|
                0 <= i < old(self).subscriber_count() && i != id ==> final(self).queue_of(i)
                    == old(self).queue_of(i) && final(self).lag_of(i) == old(self).lag_of(i),
            old(self).lag_of(id as int) > 0 ==> ((r matches RecvOutcome::Lagged(n) && n as int
                == old(self).lag_of(id as int)) && final(self).lag_of(id as int) == 0
                && final(self).queue_of(id as int) == old(self).queue_of(id as int)),
            old(self).lag_of(id as int) == 0 && old(self).queue_of(id as int).len() > 0 ==> ((
            r matches RecvOutcome::Message(m) && m == old(self).queue_of(id as int)[0])
                && final(self).queue_of(id as int) == old(self).queue_of(id as int).remove(0)
                && final(self).lag_of(id as int) == 0),
            old(self).lag_of(id as int) == 0 && old(self).queue_of(id as int).len() == 0 ==> ((
            r matches RecvOutcome::Empty) && final(self).queue_of(id as int) == old(self).queue_of(
                id as int,
            ) && final(self).lag_of(id as int) == 0),
    {
        let sub = &mut self.subscribers[id];
        if sub.lagged > 0 {
            let n = sub.lagged;
            sub.lagged = 0;
            RecvOutcome::Lagged(n)
        } else if sub.queue.len() > 0 {
            let m = sub.queue.remove(0);
            RecvOutcome::Message(m)
        } else {
            RecvOutcome::Empty
        }
    }
}

} // verus!
