//! The mathematical model of an expiring queue.
//!
//! Time is a natural number of nanoseconds counted from the moment the queue
//! was created. The contents of a queue are a multiset of entries; which
//! entries survive an access is decided by their age alone.

use vstd::prelude::*;
use vstd::multiset::Multiset;
use std::time::Duration;
use std::time::Instant;
use crate::std_specs::duration_nanos;

verus! {

/// One insertion: when it happened and what was inserted.
pub struct Entry<T> {
    pub time: nat,
    pub value: T,
}

/// Time elapsed at `now` since `time`. A reading taken before `time` counts
/// as no time elapsed.
pub open spec fn age(now: nat, time: nat) -> nat {
    if time <= now {
        (now - time) as nat
    } else {
        0
    }
}

/// An entry inserted at `time` is expired at `now` when its age exceeds
/// `max_age`. An entry exactly `max_age` old is still live.
pub open spec fn expired(now: nat, time: nat, max_age: nat) -> bool {
    age(now, time) > max_age
}

/// The entries of `m` that are not expired at `now`, each as often as in `m`.
pub open spec fn live<T>(m: Multiset<Entry<T>>, now: nat, max_age: nat) -> Multiset<Entry<T>> {
    m.filter(|e: Entry<T>| !expired(now, e.time, max_age))
}

/// `e` is in `m` and no entry of `m` was inserted earlier.
pub open spec fn is_oldest<T>(m: Multiset<Entry<T>>, e: Entry<T>) -> bool {
    &&& m.contains(e)
    &&& forall|o: Entry<T>| #[trigger] m.contains(o) ==> e.time <= o.time
}

/// The abstract state of an `ExpiringQueue`.
pub struct QueueView<T> {
    /// The entries held, live or not yet found expired.
    pub entries: Multiset<Entry<T>>,
    /// The maximum age, as configured.
    pub max_age: Duration,
    /// The instant from which the queue counts time.
    pub origin: Instant,
}

impl<T> QueueView<T> {
    /// The maximum age in nanoseconds.
    pub open spec fn limit(self) -> nat {
        duration_nanos(self.max_age)
    }

    /// The state after the expired entries have been discarded at `now`.
    pub open spec fn evict(self, now: nat) -> Self {
        QueueView { entries: live(self.entries, now, self.limit()), ..self }
    }

    /// The state after an insertion of `value` at `now`: expired entries go
    /// first, then the new entry is added with `now` as its time.
    pub open spec fn push(self, now: nat, value: T) -> Self {
        QueueView {
            entries: self.evict(now).entries.insert(Entry { time: now, value }),
            ..self
        }
    }

    /// The state with one occurrence of `e` taken out.
    pub open spec fn without(self, e: Entry<T>) -> Self {
        QueueView { entries: self.entries.remove(e), ..self }
    }

    /// The state with no entries.
    pub open spec fn cleared(self) -> Self {
        QueueView { entries: Multiset::empty(), ..self }
    }

    /// `e` is an entry of this state that no other entry precedes in time.
    pub open spec fn oldest(self, e: Entry<T>) -> bool {
        is_oldest(self.entries, e)
    }

    /// Number of entries held.
    pub open spec fn len(self) -> nat {
        self.entries.len()
    }

    /// What an access at `now` that asks for the oldest value may answer,
    /// and the state `post` it leaves: the expired entries are gone, and the
    /// answer is the value of an oldest entry left, or nothing where none is
    /// left.
    pub open spec fn peeks(self, now: nat, answer: Option<&T>, post: Self) -> bool {
        &&& post == self.evict(now)
        &&& match answer {
            Some(value) => post.oldest_value(*value),
            None => post.len() == 0,
        }
    }

    /// `value` is the value of an entry of this state that no other entry
    /// precedes in time.
    pub open spec fn oldest_value(self, value: T) -> bool {
        exists|time: nat| #[trigger] self.oldest(Entry { time, value })
    }

    /// What an access at `now` that takes the oldest value out may answer,
    /// and the state `post` it leaves: the expired entries are gone, and so
    /// is one oldest entry of those left, whose value is the answer; where
    /// none is left the answer is nothing.
    pub open spec fn pops(self, now: nat, answer: Option<T>, post: Self) -> bool {
        match answer {
            Some(value) => self.evict(now).gives(value, post),
            None => self.evict(now).len() == 0 && post == self.evict(now),
        }
    }

    /// `post` is this state less one of its oldest entries, and `value` is
    /// the value of that entry.
    pub open spec fn gives(self, value: T, post: Self) -> bool {
        exists|time: nat|
            {
                &&& #[trigger] self.oldest(Entry { time, value })
                &&& post == self.without(Entry { time, value })
            }
    }
}

/// Whether an entry inserted at `time` is expired at `now` under `max_age`.
pub fn is_expired(now: u128, time: u128, max_age: u128) -> (b: bool)
    ensures
        b == expired(now as nat, time as nat, max_age as nat),
{
    if time <= now {
        now - time > max_age
    } else {
        false
    }
}

/// Of two entries, the one inserted earlier is at least as old at any time.
pub proof fn lemma_age_antitone(now: nat, earlier: nat, later: nat)
    requires
        earlier <= later,
    ensures
        age(now, later) <= age(now, earlier),
{
}

/// Taking an expired entry out changes nothing of what is live.
pub proof fn lemma_live_without_expired<T>(
    m: Multiset<Entry<T>>,
    e: Entry<T>,
    now: nat,
    max_age: nat,
)
    requires
        expired(now, e.time, max_age),
    ensures
        live(m.remove(e), now, max_age) == live(m, now, max_age),
{
    broadcast use vstd::multiset::group_multiset_axioms;

    assert(live(m.remove(e), now, max_age) =~= live(m, now, max_age));
}

/// Where nothing is expired, everything is live.
pub proof fn lemma_live_all<T>(m: Multiset<Entry<T>>, now: nat, max_age: nat)
    requires
        forall|e: Entry<T>| #[trigger] m.contains(e) ==> !expired(now, e.time, max_age),
    ensures
        live(m, now, max_age) == m,
{
    broadcast use vstd::multiset::group_multiset_axioms;

    assert forall|e: Entry<T>| live(m, now, max_age).count(e) == m.count(e) by {
        if !m.contains(e) {
            assert(m.count(e) == 0);
        }
    }
    assert(live(m, now, max_age) =~= m);
}

/// Where the oldest entry is not expired, none is.
pub proof fn lemma_live_from_oldest<T>(
    m: Multiset<Entry<T>>,
    oldest: Entry<T>,
    now: nat,
    max_age: nat,
)
    requires
        is_oldest(m, oldest),
        !expired(now, oldest.time, max_age),
    ensures
        live(m, now, max_age) == m,
{
    assert forall|e: Entry<T>| #[trigger] m.contains(e) implies !expired(now, e.time, max_age) by {
        lemma_age_antitone(now, oldest.time, e.time);
    }
    lemma_live_all(m, now, max_age);
}

} // verus!
