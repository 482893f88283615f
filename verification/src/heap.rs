//! A binary min-heap keyed by insertion time.
//!
//! The heap keeps its elements in a vector laid out as a complete binary
//! tree: the parent of position `i > 0` is position `(i - 1) / 2`, and no
//! element is older than its parent. The element at position 0 is therefore
//! the oldest of all.

use vstd::prelude::*;
use vstd::multiset::Multiset;
use vstd::multiset::lemma_multiset_empty_len;
use vstd::seq_lib::to_multiset_build;
use vstd::seq_lib::to_multiset_contains;
use vstd::seq_lib::to_multiset_len;
use vstd::seq_lib::to_multiset_remove;
use vstd::seq_lib::to_multiset_update;
use crate::model::Entry;
use crate::model::is_oldest;
use crate::std_specs::capacity_of;

verus! {

/// A value together with the time of its insertion.
struct QueueElement<T> {
    time: u128,
    value: T,
}

impl<T> QueueElement<T> {
    /// The entry that this element stands for in the model.
    spec fn entry(self) -> Entry<T> {
        Entry { time: self.time as nat, value: self.value }
    }

    /// The order of the heap: an element comes before another when it was
    /// inserted strictly earlier. The payload takes no part in it.
    fn is_older_than(&self, other: &Self) -> (b: bool)
        ensures
            b == (self.time < other.time),
    {
        self.time < other.time
    }
}

/// The entries that the elements of `s` stand for, position by position.
spec fn entries<T>(s: Seq<QueueElement<T>>) -> Seq<Entry<T>> {
    Seq::new(s.len(), |i: int| s[i].entry())
}

/// The entries of `s` as a multiset.
spec fn bag<T>(s: Seq<QueueElement<T>>) -> Multiset<Entry<T>> {
    entries(s).to_multiset()
}

/// Position of the parent of position `i` in the tree layout.
spec fn parent(i: int) -> int {
    (i - 1) / 2
}

/// No element of `s` is older than its parent.
spec fn heap_ordered<T>(s: Seq<QueueElement<T>>) -> bool {
    forall|i: int| 0 < i < s.len() ==> s[parent(i)].time <= (#[trigger] s[i]).time
}

/// `heap_ordered`, except that the element at `k` may be older than its
/// parent.
spec fn ordered_except<T>(s: Seq<QueueElement<T>>, k: int) -> bool {
    forall|i: int| 0 < i < s.len() && i != k ==> s[parent(i)].time <= (#[trigger] s[i]).time
}

/// `heap_ordered`, except that the element at `k` may be younger than its
/// children.
spec fn ordered_except_below<T>(s: Seq<QueueElement<T>>, k: int) -> bool {
    forall|i: int|
        0 < i < s.len() && parent(i) != k ==> s[parent(i)].time <= (#[trigger] s[i]).time
}

/// The children of `k` are no older than the parent of `k`: taking the
/// element at `k` out of the way would leave the order intact.
spec fn bridged<T>(s: Seq<QueueElement<T>>, k: int) -> bool {
    forall|i: int|
        0 < k && 0 < i < s.len() && parent(i) == k ==> s[parent(k)].time <= (#[trigger] s[i]).time
}

/// A sequence without elements has an empty bag.
proof fn lemma_empty_bag<T>(s: Seq<QueueElement<T>>)
    requires
        s.len() == 0,
    ensures
        bag(s) == Multiset::<Entry<T>>::empty(),
{
    to_multiset_len(entries(s));
    lemma_multiset_empty_len(bag(s));
}

/// Exchanging two elements changes the order of a sequence, not its content.
proof fn lemma_swap_keeps_bag<T>(s: Seq<QueueElement<T>>, a: int, b: int)
    requires
        0 <= a < s.len(),
        0 <= b < s.len(),
    ensures
        bag(s.update(a, s[b]).update(b, s[a])) == bag(s),
{
    let e = entries(s);
    let mid = e.update(a, e[b]);
    assert(entries(s.update(a, s[b]).update(b, s[a])) =~= mid.update(b, e[a]));
    to_multiset_update(e, a, e[b]);
    to_multiset_update(mid, b, e[a]);
    to_multiset_contains(e, e[a]);
    to_multiset_contains(e, e[b]);
    assert(e.contains(e[a]));
    assert(e.contains(e[b]));
    assert(mid.update(b, e[a]).to_multiset() =~= e.to_multiset());
}

/// In a heap-ordered sequence the first element is the oldest.
proof fn lemma_root_is_oldest<T>(s: Seq<QueueElement<T>>, i: int)
    requires
        heap_ordered(s),
        0 <= i < s.len(),
    ensures
        s[0].time <= s[i].time,
    decreases i,
{
    if i > 0 {
        lemma_root_is_oldest(s, parent(i));
    }
}

/// The first element of a non-empty heap-ordered sequence stands for an
/// oldest entry of its bag.
proof fn lemma_first_is_oldest<T>(s: Seq<QueueElement<T>>)
    requires
        heap_ordered(s),
        s.len() > 0,
    ensures
        is_oldest(bag(s), s[0].entry()),
{
    let e = entries(s);
    assert(e[0] == s[0].entry());
    assert(e.contains(e[0]));
    to_multiset_contains(e, e[0]);
    assert forall|o: Entry<T>| #[trigger]
        bag(s).contains(o) implies s[0].entry().time <= o.time by {
        to_multiset_contains(e, o);
        let i = choose|i: int| 0 <= i < e.len() && e[i] == o;
        lemma_root_is_oldest(s, i);
    }
}

/// Overwriting the first element with the last and dropping the last takes
/// exactly the first element out of the bag, and leaves the order intact
/// everywhere but below the new first element.
proof fn lemma_displace_first<T>(s: Seq<QueueElement<T>>)
    requires
        heap_ordered(s),
        s.len() > 0,
    ensures
        bag(s.update(0, s.last()).drop_last()) == bag(s).remove(s[0].entry()),
        ordered_except_below(s.update(0, s.last()).drop_last(), 0),
        bridged(s.update(0, s.last()).drop_last(), 0),
{
    let n = s.len() as int;
    let swapped = s.update(0, s[n - 1]).update(n - 1, s[0]);
    lemma_swap_keeps_bag(s, 0, n - 1);
    assert(entries(s.update(0, s.last()).drop_last()) =~= entries(swapped).remove(n - 1));
    to_multiset_remove(entries(swapped), n - 1);
}

/// Moves the element at `start` towards the root until its parent is no
/// younger than it.
fn sift_up<T>(items: &mut Vec<QueueElement<T>>, start: usize)
    requires
        start < old(items)@.len(),
        ordered_except(old(items)@, start as int),
        bridged(old(items)@, start as int),
    ensures
        final(items)@.len() == old(items)@.len(),
        heap_ordered(final(items)@),
        bag(final(items)@) == bag(old(items)@),
{
    let mut k: usize = start;
    while k > 0
        invariant
            k < items@.len(),
            items@.len() == old(items)@.len(),
            ordered_except(items@, k as int),
            bridged(items@, k as int),
            bag(items@) == bag(old(items)@),
        ensures
            items@.len() == old(items)@.len(),
            heap_ordered(items@),
            bag(items@) == bag(old(items)@),
        decreases k,
    {
        let p: usize = (k - 1) / 2;
        if !items[k].is_older_than(&items[p]) {
            break;
        }
        proof {
            lemma_swap_keeps_bag(items@, p as int, k as int);
        }
        items.swap(p, k);
        k = p;
    }
}

/// Moves the element at `start` away from the root until neither of its
/// children is older than it.
fn sift_down<T>(items: &mut Vec<QueueElement<T>>, start: usize)
    requires
        start < old(items)@.len(),
        ordered_except_below(old(items)@, start as int),
        bridged(old(items)@, start as int),
    ensures
        final(items)@.len() == old(items)@.len(),
        heap_ordered(final(items)@),
        bag(final(items)@) == bag(old(items)@),
{
    let n: usize = items.len();
    let mut k: usize = start;
    while k < n / 2
        invariant
            k < n,
            n == items@.len(),
            items@.len() == old(items)@.len(),
            ordered_except_below(items@, k as int),
            bridged(items@, k as int),
            bag(items@) == bag(old(items)@),
        ensures
            items@.len() == old(items)@.len(),
            heap_ordered(items@),
            bag(items@) == bag(old(items)@),
        decreases n - k,
    {
        let left: usize = 2 * k + 1;
        let right: usize = left + 1;
        let mut child: usize = left;
        if right < n && items[right].is_older_than(&items[left]) {
            child = right;
        }
        proof {
            // The children of `k` are `left` and `right`, and `child` is the
            // older of the two.
            assert forall|i: int| 0 < i < n && parent(i) == k implies
                items@[child as int].time <= (#[trigger] items@[i]).time by {
                assert(i == left || i == right);
            }
        }
        if !items[child].is_older_than(&items[k]) {
            break;
        }
        proof {
            lemma_swap_keeps_bag(items@, k as int, child as int);
        }
        items.swap(k, child);
        k = child;
    }
}

/// A min-heap of values keyed by the time of their insertion.
///
/// Its view is the multiset of the entries it holds. Entries with equal
/// times come out in no particular order.
pub struct TimeHeap<T> {
    items: Vec<QueueElement<T>>,
}

impl<T> View for TimeHeap<T> {
    type V = Multiset<Entry<T>>;

    closed spec fn view(&self) -> Multiset<Entry<T>> {
        bag(self.items@)
    }
}

impl<T> TimeHeap<T> {
    #[verifier::type_invariant]
    spec fn well_formed(&self) -> bool {
        heap_ordered(self.items@)
    }

    /// An empty heap that has reserved no storage.
    pub fn new() -> (heap: Self)
        ensures
            heap@ == Multiset::<Entry<T>>::empty(),
    {
        let heap = TimeHeap { items: Vec::new() };
        proof {
            lemma_empty_bag(heap.items@);
        }
        heap
    }

    /// An empty heap with storage reserved for `capacity` elements. The
    /// reservation is a hint: the heap grows beyond it as needed.
    pub fn with_capacity(capacity: usize) -> (heap: Self)
        ensures
            heap@ == Multiset::<Entry<T>>::empty(),
    {
        let heap = TimeHeap { items: Vec::with_capacity(capacity) };
        proof {
            lemma_empty_bag(heap.items@);
        }
        heap
    }

    /// Number of entries held.
    pub fn len(&self) -> (n: usize)
        ensures
            n == self@.len(),
    {
        proof {
            to_multiset_len(entries(self.items@));
        }
        self.items.len()
    }

    /// Whether the heap holds no entry.
    pub fn is_empty(&self) -> (b: bool)
        ensures
            b == (self@.len() == 0),
    {
        self.len() == 0
    }

    /// Number of entries the heap can hold without reallocating.
    pub fn capacity(&self) -> (c: usize)
        ensures
            c >= self@.len(),
    {
        proof {
            to_multiset_len(entries(self.items@));
        }
        capacity_of(&self.items)
    }

    /// Removes every entry.
    pub fn clear(&mut self)
        ensures
            final(self)@ == Multiset::<Entry<T>>::empty(),
    {
        let mut items: Vec<QueueElement<T>> = Vec::new();
        core::mem::swap(&mut items, &mut self.items);
        items.clear();
        proof {
            lemma_empty_bag(items@);
        }
        self.items = items;
    }

    /// Adds `value` with `time` as its insertion time.
    pub fn push(&mut self, time: u128, value: T)
        ensures
            final(self)@ == old(self)@.insert(Entry { time: time as nat, value }),
    {
        proof {
            use_type_invariant(&*self);
        }
        let mut items: Vec<QueueElement<T>> = Vec::new();
        core::mem::swap(&mut items, &mut self.items);
        let last: usize = items.len();
        let element = QueueElement { time, value };
        proof {
            assert(entries(items@.push(element)) =~= entries(items@).push(element.entry()));
            to_multiset_build(entries(items@), element.entry());
        }
        items.push(element);
        sift_up(&mut items, last);
        self.items = items;
    }

    /// The oldest entry, if there is one: its time and a reference to its
    /// value. The heap is left as it is.
    pub fn peek(&self) -> (r: Option<(u128, &T)>)
        ensures
            (match r {
                Some((time, value)) => is_oldest(self@, Entry { time: time as nat, value: *value }),
                None => self@.len() == 0,
            }),
    {
        proof {
            use_type_invariant(self);
            to_multiset_len(entries(self.items@));
        }
        if self.items.len() == 0 {
            None
        } else {
            proof {
                lemma_first_is_oldest(self.items@);
            }
            let root = &self.items[0];
            Some((root.time, &root.value))
        }
    }

    /// Removes and returns the oldest entry, if there is one.
    pub fn pop(&mut self) -> (r: Option<(u128, T)>)
        ensures
            (match r {
                Some((time, value)) => {
                    &&& is_oldest(old(self)@, Entry { time: time as nat, value })
                    &&& final(self)@ == old(self)@.remove(Entry { time: time as nat, value })
                },
                None => old(self)@.len() == 0 && final(self)@ == old(self)@,
            }),
    {
        proof {
            use_type_invariant(&*self);
            to_multiset_len(entries(self.items@));
        }
        if self.items.len() == 0 {
            return None;
        }
        let mut items: Vec<QueueElement<T>> = Vec::new();
        core::mem::swap(&mut items, &mut self.items);
        proof {
            lemma_first_is_oldest(items@);
            lemma_displace_first(items@);
        }
        let root = items.swap_remove(0);
        if items.len() > 0 {
            sift_down(&mut items, 0);
        }
        self.items = items;
        Some((root.time, root.value))
    }
}

} // verus!
