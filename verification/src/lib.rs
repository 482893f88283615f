//! A priority queue whose entries expire.
//!
//! Every entry is stamped with the time of its insertion. The oldest entry
//! is served first, and an entry older than the queue's maximum age is
//! discarded the next time the queue is touched: there is no timer and no
//! background sweep.
//!
//! - [`queue`] holds `ExpiringQueue`, the type to use.
//! - [`heap`] holds the min-heap by insertion time that the queue is built on.
//! - [`model`] says what a queue is, mathematically: a multiset of entries
//!   and a maximum age.
//! - [`laws`] proves what follows for every queue.
//! - [`std_specs`] lists what is taken on trust from the standard library:
//!   the clock, the length of a duration, and two operations on vectors.

pub mod heap;
pub mod laws;
pub mod model;
pub mod queue;
pub mod stats;
pub mod std_specs;

pub use heap::TimeHeap;
pub use queue::ExpiringQueue;
pub use stats::QueueStats;
