//! What holds of every expiring queue, whatever was done to it.
//!
//! Each statement is over the model: `QueueView::evict` is what every access
//! does first, `QueueView::push` is an insertion, and `QueueView::peeks` and
//! `QueueView::pops` relate the state before an access to its answer.

use vstd::prelude::*;
use crate::model::Entry;
use crate::model::QueueView;
use crate::model::age;
use crate::model::expired;
use crate::model::lemma_age_antitone;
use crate::model::lemma_live_all;

verus! {

/// The answer of a peek is the value of an entry that is live at the time of
/// the peek, and no entry live at that time was inserted before it.
pub proof fn law_peek_answers_oldest_live<T>(
    q: QueueView<T>,
    now: nat,
    value: &T,
    post: QueueView<T>,
)
    requires
        q.peeks(now, Some(value), post),
    ensures
        exists|time: nat|
            ({
                &&& #[trigger] q.entries.contains(Entry { time, value: *value })
                &&& !expired(now, time, q.limit())
                &&& forall|e: Entry<T>|
                    q.entries.contains(e) && !expired(now, e.time, q.limit()) ==> time <= e.time
            }),
{
    broadcast use vstd::multiset::group_multiset_axioms;

    let time = choose|time: nat| #[trigger] post.oldest(Entry { time, value: *value });
    let found = Entry { time, value: *value };
    assert(q.entries.contains(found));
    assert forall|e: Entry<T>|
        q.entries.contains(e) && !expired(now, e.time, q.limit()) implies time <= e.time by {
        assert(post.entries.contains(e));
    }
}

/// The answer of a pop is the value of an entry that is live at the time of
/// the pop, and no entry live at that time was inserted before it. Exactly
/// that entry and the expired ones are gone afterwards.
pub proof fn law_pop_answers_oldest_live<T>(
    q: QueueView<T>,
    now: nat,
    value: T,
    post: QueueView<T>,
)
    requires
        q.pops(now, Some(value), post),
    ensures
        exists|time: nat|
            ({
                &&& #[trigger] q.entries.contains(Entry { time, value })
                &&& !expired(now, time, q.limit())
                &&& forall|e: Entry<T>|
                    q.entries.contains(e) && !expired(now, e.time, q.limit()) ==> time <= e.time
                &&& post == q.evict(now).without(Entry { time, value })
            }),
{
    broadcast use vstd::multiset::group_multiset_axioms;

    let mid = q.evict(now);
    let time = choose|time: nat|
        {
            &&& #[trigger] mid.oldest(Entry { time, value })
            &&& post == mid.without(Entry { time, value })
        };
    let found = Entry { time, value };
    assert(q.entries.contains(found));
    assert forall|e: Entry<T>|
        q.entries.contains(e) && !expired(now, e.time, q.limit()) implies time <= e.time by {
        assert(mid.entries.contains(e));
    }
}

/// An access at `now` keeps an entry as often as it was held if the entry
/// is within the maximum age at `now`, and not at all if it is beyond it.
/// An entry is never partly there.
pub proof fn law_entry_whole_or_gone<T>(q: QueueView<T>, e: Entry<T>, now: nat)
    ensures
        expired(now, e.time, q.limit()) ==> q.evict(now).entries.count(e) == 0,
        !expired(now, e.time, q.limit()) ==> q.evict(now).entries.count(e) == q.entries.count(e),
        q.evict(now).entries.count(e) == q.entries.count(e) || q.evict(now).entries.count(e) == 0,
{
    broadcast use vstd::multiset::group_multiset_axioms;

}

/// An entry that is beyond the maximum age at `now` is not counted by an
/// access at `now`, and is not the answer of a peek or a pop at `now`.
pub proof fn law_expired_is_unobservable<T>(q: QueueView<T>, e: Entry<T>, now: nat)
    requires
        expired(now, e.time, q.limit()),
    ensures
        !q.evict(now).entries.contains(e),
        !q.evict(now).oldest(e),
        q.evict(now).len() <= q.len(),
        q.entries.contains(e) ==> q.evict(now).len() < q.len(),
{
    broadcast use vstd::multiset::group_multiset_axioms;

    law_entry_whole_or_gone(q, e, now);
    law_access_only_discards(q, now);
    if q.entries.contains(e) {
        let rest = q.without(e);
        assert(q.entries =~= rest.entries.insert(e));
        assert(q.evict(now).entries =~= rest.evict(now).entries);
        law_access_only_discards(rest, now);
    }
}

/// A value inserted at `inserted` and looked for at `queried`: it is still
/// in the queue if its age is within the maximum age then, and gone if its
/// age is beyond it.
pub proof fn law_pushed_entry_expires_on_time<T>(
    q: QueueView<T>,
    inserted: nat,
    value: T,
    queried: nat,
)
    ensures
        q.push(inserted, value).evict(queried).entries.contains(Entry { time: inserted, value })
            <==> age(queried, inserted) <= q.limit(),
{
    broadcast use vstd::multiset::group_multiset_axioms;

    let e = Entry { time: inserted, value };
    assert(q.push(inserted, value).entries.contains(e));
    law_entry_whole_or_gone(q.push(inserted, value), e, queried);
}

/// Two pops in a row, with no insertion between them: the entry that the
/// second takes out was not inserted before the one that the first took
/// out, whenever the two pops happen.
pub proof fn law_drain_is_monotone<T>(
    q: QueueView<T>,
    first_at: nat,
    first: Entry<T>,
    second_at: nat,
    second: Entry<T>,
)
    requires
        q.evict(first_at).oldest(first),
        q.evict(first_at).without(first).evict(second_at).oldest(second),
    ensures
        first.time <= second.time,
{
    broadcast use vstd::multiset::group_multiset_axioms;

    assert(q.evict(first_at).without(first).entries.contains(second));
    assert(q.evict(first_at).entries.contains(second));
}

/// The same of the answers themselves: where two pops in a row both answer,
/// the entries that account for the two answers were inserted in that order
/// or at the same time.
pub proof fn law_successive_pops_are_monotone<T>(
    q: QueueView<T>,
    first_at: nat,
    first: T,
    mid: QueueView<T>,
    second_at: nat,
    second: T,
    post: QueueView<T>,
)
    requires
        q.pops(first_at, Some(first), mid),
        mid.pops(second_at, Some(second), post),
    ensures
        exists|t1: nat, t2: nat|
            ({
                &&& #[trigger] q.evict(first_at).oldest(Entry { time: t1, value: first })
                &&& mid == q.evict(first_at).without(Entry { time: t1, value: first })
                &&& #[trigger] mid.evict(second_at).oldest(Entry { time: t2, value: second })
                &&& post == mid.evict(second_at).without(Entry { time: t2, value: second })
                &&& t1 <= t2
            }),
{
    let t1 = choose|t1: nat|
        {
            &&& #[trigger] q.evict(first_at).oldest(Entry { time: t1, value: first })
            &&& mid == q.evict(first_at).without(Entry { time: t1, value: first })
        };
    let t2 = choose|t2: nat|
        {
            &&& #[trigger] mid.evict(second_at).oldest(Entry { time: t2, value: second })
            &&& post == mid.evict(second_at).without(Entry { time: t2, value: second })
        };
    law_drain_is_monotone(
        q,
        first_at,
        Entry { time: t1, value: first },
        second_at,
        Entry { time: t2, value: second },
    );
}

/// Once an access at `now` is over, nothing that is left is beyond the
/// maximum age at `now`. That holds after an insertion at `now` too: the
/// new entry is there, whatever the maximum age, for it has no age yet.
pub proof fn law_nothing_expired_remains<T>(q: QueueView<T>, now: nat, value: T, e: Entry<T>)
    ensures
        q.evict(now).entries.contains(e) ==> !expired(now, e.time, q.limit()),
        q.push(now, value).entries.contains(e) ==> !expired(now, e.time, q.limit()),
        q.push(now, value).entries.contains(Entry { time: now, value }),
        q.push(now, value).len() == q.evict(now).len() + 1,
{
    broadcast use vstd::multiset::group_multiset_axioms;

}

/// An access repeated at the same time finds nothing more to discard.
pub proof fn law_access_is_idempotent<T>(q: QueueView<T>, now: nat)
    ensures
        q.evict(now).evict(now) == q.evict(now),
        q.evict(now).evict(now).len() == q.evict(now).len(),
{
    broadcast use vstd::multiset::group_multiset_axioms;

    lemma_live_all(q.evict(now).entries, now, q.limit());
}

/// An access repeated later, while none of the entries left by the first
/// has gone beyond the maximum age, leaves the queue as the first left it:
/// the same entries, the same length, the same emptiness.
pub proof fn law_access_is_stable<T>(q: QueueView<T>, first_at: nat, second_at: nat)
    requires
        forall|e: Entry<T>| #[trigger]
            q.evict(first_at).entries.contains(e) ==> !expired(second_at, e.time, q.limit()),
    ensures
        q.evict(first_at).evict(second_at) == q.evict(first_at),
        q.evict(first_at).evict(second_at).len() == q.evict(first_at).len(),
{
    lemma_live_all(q.evict(first_at).entries, second_at, q.limit());
}

/// It is enough for that to look at the oldest entry left: while it is
/// within the maximum age, all are.
pub proof fn law_access_is_stable_by_oldest<T>(
    q: QueueView<T>,
    first_at: nat,
    second_at: nat,
    oldest: Entry<T>,
)
    requires
        q.evict(first_at).oldest(oldest),
        !expired(second_at, oldest.time, q.limit()),
    ensures
        q.evict(first_at).evict(second_at) == q.evict(first_at),
{
    assert forall|e: Entry<T>| #[trigger]
        q.evict(first_at).entries.contains(e) implies !expired(second_at, e.time, q.limit()) by {
        lemma_age_antitone(second_at, oldest.time, e.time);
    }
    law_access_is_stable(q, first_at, second_at);
}

/// Accesses compose: what an access leaves that came after an earlier
/// access is what it would have left without the earlier one. An entry that
/// is live now was live at every earlier reading, so no access on the way
/// can have discarded it.
pub proof fn law_accesses_compose<T>(q: QueueView<T>, earlier: nat, later: nat)
    requires
        earlier <= later,
    ensures
        q.evict(earlier).evict(later) == q.evict(later),
{
    broadcast use vstd::multiset::group_multiset_axioms;

    assert forall|e: Entry<T>|
        q.evict(earlier).evict(later).entries.count(e) == q.evict(later).entries.count(e) by {
        assert(age(earlier, e.time) <= age(later, e.time));
    }
    assert(q.evict(earlier).evict(later).entries =~= q.evict(later).entries);
}

/// An access discards entries and adds none.
pub proof fn law_access_only_discards<T>(q: QueueView<T>, now: nat)
    ensures
        q.evict(now).entries.subset_of(q.entries),
        q.evict(now).len() <= q.len(),
{
    broadcast use vstd::multiset::group_multiset_axioms;

    let kept = q.evict(now).entries;
    assert(kept.subset_of(q.entries));
    assert(q.entries =~= kept.add(q.entries.sub(kept)));
}

} // verus!
