//! The keyboard's side of the event queue.

use crate::task::queue::{EventQueue, QueueState};
use crate::task::ReadySet;
use vstd::prelude::*;

verus! {

/// The number of scancodes that the keyboard queue holds.
pub const SCANCODE_QUEUE_CAPACITY: usize = 100;

/// The empty queue for the keyboard's scancodes.
pub fn scancode_queue() -> (queue: EventQueue)
    ensures
        queue.wf(),
        queue@ == QueueState::empty(100),
{
    EventQueue::new(SCANCODE_QUEUE_CAPACITY)
}

/// Queues a scancode on behalf of the keyboard interrupt handler and wakes
/// the task that waits for one. Returns `false` where the queue was full and
/// the scancode was dropped.
pub fn add_scancode(queue: &mut EventQueue, ready: &mut ReadySet, scancode: u8) -> (stored: bool)
    requires
        old(queue).wf(),
        old(ready).wf(),
    ensures
        final(queue).wf(),
        final(ready).wf(),
        stored == old(queue)@.accepts(),
        final(queue)@ == old(queue)@.push(scancode),
        final(ready)@ == old(queue)@.ready_after_push(old(ready)@),
{
    queue.try_push(scancode, ready)
}

} // verus!
