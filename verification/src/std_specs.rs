//! What this library takes on trust from the standard library.
//!
//! Nothing in this file is proved. Each item names the std item it stands
//! for and says what is claimed of it.

use vstd::prelude::*;
use std::time::Duration;
use std::time::Instant;

verus! {

/// `std::time::Instant`, a reading of the monotonic clock. Nothing is known
/// of what a value holds; it is only carried around and handed back to std.
#[verifier::external_type_specification]
#[verifier::external_body]
pub struct ExInstant(Instant);

/// The length of a `Duration` in whole nanoseconds: the value that
/// `Duration::as_nanos` returns for it.
pub uninterp spec fn duration_nanos(d: Duration) -> nat;

/// `Instant::now`: a reading of the monotonic clock. Nothing is claimed of
/// the reading.
#[verifier::external_body]
pub(crate) fn now() -> (t: Instant) {
    Instant::now()
}

/// `Instant::saturating_duration_since`: the time from `earlier` to `later`,
/// zero where `earlier` is the later of the two. It does not panic. Nothing
/// is claimed of the result.
#[verifier::external_body]
pub(crate) fn elapsed_between(later: &Instant, earlier: &Instant) -> (d: Duration) {
    later.saturating_duration_since(*earlier)
}

/// `Duration::as_nanos`: the whole duration in nanoseconds, which always
/// fits in a `u128`. The claim is only that the result is a function of the
/// duration, named `duration_nanos`.
#[verifier::external_body]
pub(crate) fn as_nanos(d: &Duration) -> (n: u128)
    ensures
        n == duration_nanos(*d),
{
    d.as_nanos()
}

/// `<[T]>::swap`: exchanges the elements at two positions of a slice and
/// leaves the others as they are. It panics on a position out of bounds,
/// which `requires` excludes.
pub assume_specification<E>[ <[E]>::swap ](s: &mut [E], a: usize, b: usize)
    requires
        a < old(s)@.len(),
        b < old(s)@.len(),
    ensures
        final(s)@ == old(s)@.update(a as int, old(s)@[b as int]).update(
            b as int,
            old(s)@[a as int],
        ),
;

/// `Vec::capacity`: the number of elements the vector can hold without
/// reallocating, which is never less than the number it holds.
#[verifier::external_body]
pub(crate) fn capacity_of<T>(v: &Vec<T>) -> (c: usize)
    ensures
        c >= v@.len(),
{
    v.capacity()
}

} // verus!
