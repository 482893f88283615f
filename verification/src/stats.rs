//! Summary figures over the values of a queue.

use vstd::prelude::*;
use std::ops::Add;

verus! {

/// Smallest, largest and total of a collection of values, and how many
/// there are. The three figures are absent where there is no value.
#[verifier::reject_recursive_types(T)]
pub struct QueueStats<T: Ord + Add<Output = T>> {
    pub min: Option<T>,
    pub max: Option<T>,
    pub sum: Option<T>,
    pub len: usize,
}

} // verus!
