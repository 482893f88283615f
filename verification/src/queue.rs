//! The expiring queue itself.

use vstd::prelude::*;
use vstd::multiset::Multiset;
use std::time::Duration;
use std::time::Instant;
use crate::heap::TimeHeap;
use crate::model::Entry;
use crate::model::QueueView;
use crate::model::is_expired;
use crate::model::is_oldest;
use crate::model::lemma_live_all;
use crate::model::lemma_live_from_oldest;
use crate::model::lemma_live_without_expired;
use crate::model::live;
use crate::std_specs::as_nanos;
use crate::std_specs::elapsed_between;
use crate::std_specs::now;

verus! {

/// A queue that serves its values oldest first and forgets those older than
/// a fixed maximum age.
///
/// Nothing runs in the background. Every operation that reads or changes
/// the content (`push`, `pop`, `peek`, `len`, `is_empty`) first discards the
/// entries that have expired by then, which is why all of them take
/// `&mut self`.
///
/// Each of these operations reads the monotonic clock once. Beside each
/// stands a twin whose name ends in `_at` and which takes the reading as an
/// argument, in nanoseconds since the queue was created.
pub struct ExpiringQueue<T> {
    heap: TimeHeap<T>,
    max_age: Duration,
    origin: Instant,
}

impl<T> View for ExpiringQueue<T> {
    type V = QueueView<T>;

    closed spec fn view(&self) -> QueueView<T> {
        QueueView { entries: self.heap@, max_age: self.max_age, origin: self.origin }
    }
}

impl<T> ExpiringQueue<T> {
    /// An empty queue whose entries expire once they are older than
    /// `max_age_duration`. No storage is reserved.
    pub fn new(max_age_duration: Duration) -> (queue: Self)
        ensures
            queue@.entries == Multiset::<Entry<T>>::empty(),
            queue@.max_age == max_age_duration,
    {
        ExpiringQueue { heap: TimeHeap::new(), max_age: max_age_duration, origin: now() }
    }

    /// Like `new`, with storage reserved for `capacity` entries. The
    /// reservation is a hint and no bound.
    pub fn with_capacity(max_age_duration: Duration, capacity: usize) -> (queue: Self)
        ensures
            queue@.entries == Multiset::<Entry<T>>::empty(),
            queue@.max_age == max_age_duration,
    {
        ExpiringQueue {
            heap: TimeHeap::with_capacity(capacity),
            max_age: max_age_duration,
            origin: now(),
        }
    }

    /// Nanoseconds on the monotonic clock since this queue was created.
    fn timestamp(&self) -> (t: u128) {
        let reading = now();
        let since_origin = elapsed_between(&reading, &self.origin);
        as_nanos(&since_origin)
    }

    /// Discards the entries that are expired at `now`.
    ///
    /// Only the oldest entry is ever looked at: once it is within the
    /// maximum age, so are all the others.
    pub fn clear_oldest(&mut self, now: u128)
        ensures
            final(self)@ == old(self)@.evict(now as nat),
    {
        let limit: u128 = as_nanos(&self.max_age);
        loop
            invariant
                self@.max_age == old(self)@.max_age,
                self@.origin == old(self)@.origin,
                limit == self@.limit(),
                live(self@.entries, now as nat, limit as nat) == live(
                    old(self)@.entries,
                    now as nat,
                    limit as nat,
                ),
            ensures
                self@ == old(self)@.evict(now as nat),
            decreases self@.entries.len(),
        {
            let oldest: Option<u128> = match self.heap.peek() {
                Some((time, _)) => Some(time),
                None => None,
            };
            match oldest {
                Some(time) => {
                    let ghost before = self.heap@;
                    let ghost seen = choose|e: Entry<T>| is_oldest(before, e) && e.time == time;
                    if is_expired(now, time, limit) {
                        let popped = self.heap.pop();
                        proof {
                            let (t, v) = popped.unwrap();
                            let gone = Entry { time: t as nat, value: v };
                            assert(gone.time == seen.time);
                            lemma_live_without_expired(before, gone, now as nat, limit as nat);
                        }
                    } else {
                        proof {
                            lemma_live_from_oldest(before, seen, now as nat, limit as nat);
                        }
                        break;
                    }
                },
                None => {
                    proof {
                        lemma_live_all(self.heap@, now as nat, limit as nat);
                    }
                    break;
                },
            }
        }
    }

    /// Inserts `value` with `now` as its insertion time, after discarding
    /// the entries that are expired at `now`. Returns the number of entries
    /// then held, the new one included.
    pub fn push_at(&mut self, now: u128, value: T) -> (n: usize)
        ensures
            final(self)@ == old(self)@.push(now as nat, value),
            n == final(self)@.len(),
    {
        self.clear_oldest(now);
        self.heap.push(now, value);
        self.heap.len()
    }

    /// Inserts `value`, stamped with the current time. The clock is read
    /// once, and the same reading decides which entries are discarded first,
    /// so the new entry is never judged against a later reading. Returns the
    /// number of entries then held.
    pub fn push(&mut self, value: T) -> (n: usize)
        ensures
            exists|now: nat| final(self)@ == #[trigger] old(self)@.push(now, value),
            n == final(self)@.len(),
    {
        let now: u128 = self.timestamp();
        self.push_at(now, value)
    }

    /// Removes every entry, expired or not. The maximum age stays.
    pub fn clear(&mut self)
        ensures
            final(self)@ == old(self)@.cleared(),
    {
        self.heap.clear();
    }

    /// Number of entries that are live at `now`. The expired ones are
    /// discarded on the way.
    pub fn len_at(&mut self, now: u128) -> (n: usize)
        ensures
            final(self)@ == old(self)@.evict(now as nat),
            n == final(self)@.len(),
    {
        self.clear_oldest(now);
        self.heap.len()
    }

    /// Number of live entries. The expired ones are discarded on the way,
    /// so this is no pure read.
    pub fn len(&mut self) -> (n: usize)
        ensures
            exists|now: nat| final(self)@ == #[trigger] old(self)@.evict(now),
            n == final(self)@.len(),
    {
        let now: u128 = self.timestamp();
        self.len_at(now)
    }

    /// Whether no entry is live at `now`. The expired ones are discarded on
    /// the way.
    pub fn is_empty_at(&mut self, now: u128) -> (b: bool)
        ensures
            final(self)@ == old(self)@.evict(now as nat),
            b == (final(self)@.len() == 0),
    {
        self.len_at(now) == 0
    }

    /// Whether no entry is live. The expired ones are discarded on the way.
    pub fn is_empty(&mut self) -> (b: bool)
        ensures
            exists|now: nat| final(self)@ == #[trigger] old(self)@.evict(now),
            b == (final(self)@.len() == 0),
    {
        self.len() == 0
    }

    /// Number of entries the queue can hold without reallocating. It says
    /// nothing of how many are live, and discards nothing.
    pub fn capacity(&self) -> (c: usize)
        ensures
            c >= self@.len(),
    {
        self.heap.capacity()
    }

    /// The maximum age that the queue was created with.
    pub fn max_age(&self) -> (d: Duration)
        ensures
            d == self@.max_age,
    {
        self.max_age
    }

    /// The value of the oldest entry that is live at `now`, if there is one.
    /// The expired entries are discarded on the way; the entry itself stays.
    pub fn peek_at(&mut self, now: u128) -> (r: Option<&T>)
        ensures
            old(self)@.peeks(now as nat, r, final(self)@),
    {
        self.clear_oldest(now);
        match self.heap.peek() {
            Some((time, value)) => {
                assert(self@.oldest(Entry { time: time as nat, value: *value }));
                Some(value)
            },
            None => None,
        }
    }

    /// The value of the oldest live entry, if there is one. The expired
    /// entries are discarded on the way; the entry itself stays.
    pub fn peek(&mut self) -> (r: Option<&T>)
        ensures
            exists|now: nat| #[trigger] old(self)@.peeks(now, r, final(self)@),
    {
        let now: u128 = self.timestamp();
        self.peek_at(now)
    }

    /// Takes out the oldest entry that is live at `now` and returns its
    /// value, if there is one. The expired entries are discarded first.
    pub fn pop_at(&mut self, now: u128) -> (r: Option<T>)
        ensures
            old(self)@.pops(now as nat, r, final(self)@),
    {
        self.clear_oldest(now);
        match self.heap.pop() {
            Some((time, value)) => {
                assert(old(self)@.evict(now as nat).gives(value, self@)) by {
                    let e = Entry { time: time as nat, value };
                    assert(old(self)@.evict(now as nat).oldest(e));
                    assert(self@ == old(self)@.evict(now as nat).without(e));
                }
                Some(value)
            },
            None => None,
        }
    }

    /// Takes out the oldest live entry and returns its value, if there is
    /// one. The expired entries are discarded first. What comes out is the
    /// entry inserted first, not the one inserted last.
    pub fn pop(&mut self) -> (r: Option<T>)
        ensures
            exists|now: nat| #[trigger] old(self)@.pops(now, r, final(self)@),
    {
        let now: u128 = self.timestamp();
        self.pop_at(now)
    }
}

} // verus!
