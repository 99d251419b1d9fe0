//! Queues that give their memory back once they are drained.

use std::collections::VecDeque;
use vstd::prelude::*;

verus! {

/// An empty queue that still has room for more than this many items releases
/// its memory.
pub const EMPTY_QUEUE_SHRINK_THRESHOLD: usize = 100;

/// `VecDeque::capacity`: how many items the queue can hold without allocating
/// anew. That is at least as many as it holds; how many more is up to the
/// allocator.
#[verifier::external_body]
pub(crate) fn queue_capacity<T>(queue: &VecDeque<T>) -> (capacity: usize)
    ensures
        capacity >= queue@.len(),
{
    queue.capacity()
}

/// `VecDeque::shrink_to_fit`: gives back room that the queue does not use.
/// What the queue holds stays as it is.
#[verifier::external_body]
pub(crate) fn queue_shrink_to_fit<T>(queue: &mut VecDeque<T>)
    ensures
        final(queue)@ == old(queue)@,
{
    queue.shrink_to_fit()
}

/// Whether a drained queue with room for `capacity` items is to release it.
pub fn exceeds_shrink_threshold(capacity: usize) -> (b: bool)
    ensures
        b == (capacity > EMPTY_QUEUE_SHRINK_THRESHOLD),
{
    capacity > EMPTY_QUEUE_SHRINK_THRESHOLD
}

/// Releases the room of a queue whose capacity is over the threshold. What the
/// queue holds stays as it is.
pub fn shrink_if_oversized<T>(queue: &mut VecDeque<T>)
    ensures
        final(queue)@ == old(queue)@,
{
    if exceeds_shrink_threshold(queue_capacity(queue)) {
        queue_shrink_to_fit(queue);
    }
}

} // verus!
