//! The event queue between interrupt handlers and the task that consumes
//! their events: a bounded FIFO that never blocks and never grows, with one
//! slot for the waker of the consumer that waits on it.
//!
//! A full queue drops the event that arrives: the events already queued are
//! the ones that stay.

use crate::task::{ready_insert, Poll, ReadySet, TaskId, Waker};
use vstd::prelude::*;

verus! {

/// What an event queue holds: the queued events, oldest first, the capacity
/// it was made with and the registered waker, if any.
pub struct QueueState {
    pub events: Seq<u8>,
    pub capacity: nat,
    pub waker: Option<Waker>,
}

impl QueueState {
    /// The queue holds no more events than its capacity.
    pub open spec fn wf(self) -> bool {
        self.events.len() <= self.capacity
    }

    /// An empty queue of the given capacity with no waker registered.
    pub open spec fn empty(capacity: nat) -> QueueState {
        QueueState { events: Seq::empty(), capacity, waker: None }
    }

    /// Whether a push is accepted: whether there is room for one more event.
    pub open spec fn accepts(self) -> bool {
        self.events.len() < self.capacity
    }

    /// The waker that a push invokes: the registered one, where the push is
    /// accepted and finds the queue empty.
    pub open spec fn woken_by_push(self) -> Option<Waker> {
        if self.accepts() && self.events.len() == 0 {
            self.waker
        } else {
            None
        }
    }

    /// The queue after a push of `event`. A full queue is unchanged. Else
    /// the event is the newest, and a push into an empty queue consumes the
    /// registered waker.
    pub open spec fn push(self, event: u8) -> QueueState {
        if self.accepts() {
            QueueState {
                events: self.events.push(event),
                capacity: self.capacity,
                waker: if self.events.len() == 0 {
                    None
                } else {
                    self.waker
                },
            }
        } else {
            self
        }
    }

    /// The ready sequence after a push into this queue.
    pub open spec fn ready_after_push(self, ready: Seq<TaskId>) -> Seq<TaskId> {
        match self.woken_by_push() {
            Some(waker) => ready_insert(ready, waker.task),
            None => ready,
        }
    }

    /// The event that a pop returns: the oldest, if there is one.
    pub open spec fn front(self) -> Option<u8> {
        if self.events.len() > 0 {
            Some(self.events[0])
        } else {
            None
        }
    }

    /// The queue after a pop.
    pub open spec fn pop(self) -> QueueState {
        if self.events.len() > 0 {
            QueueState { events: self.events.drop_first(), ..self }
        } else {
            self
        }
    }

    /// The queue after `waker` was registered.
    pub open spec fn register(self, waker: Waker) -> QueueState {
        QueueState { waker: Some(waker), ..self }
    }

    /// What a request for the next event returns.
    pub open spec fn next_event(self) -> Poll<u8> {
        match self.front() {
            Some(event) => Poll::Ready(event),
            None => Poll::Pending,
        }
    }

    /// The queue after a request for the next event by the task that
    /// `waker` wakes: the oldest event is gone, or, in an empty queue, the
    /// waker is registered.
    pub open spec fn poll_next(self, waker: Waker) -> QueueState {
        if self.events.len() > 0 {
            self.pop()
        } else {
            self.register(waker)
        }
    }

    /// The queue after each of `events` was pushed in turn.
    pub open spec fn push_all(self, events: Seq<u8>) -> QueueState
        decreases events.len(),
    {
        if events.len() == 0 {
            self
        } else {
            self.push_all(events.drop_last()).push(events.last())
        }
    }

    /// Whether the push of `events[i]` is accepted when `events` are pushed
    /// in turn.
    pub open spec fn accepts_nth(self, events: Seq<u8>, i: int) -> bool {
        self.push_all(events.take(i)).accepts()
    }

    /// The events that `n` pops in a row return, in the order of the pops.
    pub open spec fn drained(self, n: nat) -> Seq<u8>
        decreases n,
    {
        if n == 0 || self.events.len() == 0 {
            Seq::empty()
        } else {
            seq![self.events[0]] + self.pop().drained((n - 1) as nat)
        }
    }
}

/// The first `capacity` of `events`, or all of them where they are fewer.
pub open spec fn first_that_fit(events: Seq<u8>, capacity: nat) -> Seq<u8> {
    if events.len() <= capacity {
        events
    } else {
        events.take(capacity as int)
    }
}

/// Pushing `events` in turn keeps, of what was queued and what was pushed,
/// the oldest that fit: later events are dropped, nothing is reordered and
/// the capacity stays.
pub proof fn lemma_push_all(q: QueueState, events: Seq<u8>)
    requires
        q.wf(),
    ensures
        q.push_all(events).wf(),
        q.push_all(events).capacity == q.capacity,
        q.push_all(events).events == first_that_fit(q.events + events, q.capacity),
    decreases events.len(),
{
    if events.len() == 0 {
        assert(q.events + events =~= q.events);
    } else {
        let init = events.drop_last();
        lemma_push_all(q, init);
        let before = q.push_all(init);
        assert((q.events + init).push(events.last()) =~= q.events + events);
        if before.accepts() {
            assert(before.events == q.events + init);
        } else {
            assert(before.events =~= (q.events + events).take(q.capacity as int));
        }
    }
}

/// `n` pops return the oldest `n` events in the order in which they were
/// pushed, or all events where they are fewer.
pub proof fn lemma_drained(q: QueueState, n: nat)
    ensures
        q.drained(n) == first_that_fit(q.events, n),
    decreases n,
{
    if n == 0 || q.events.len() == 0 {
        assert(q.drained(n) =~= first_that_fit(q.events, n));
    } else {
        lemma_drained(q.pop(), (n - 1) as nat);
        assert(q.drained(n) =~= first_that_fit(q.events, n));
    }
}

/// FIFO delivery: events that are pushed into an empty queue with room for
/// all of them are all accepted and come out in the order of the pushes.
pub proof fn lemma_fifo_delivery(capacity: nat, events: Seq<u8>)
    requires
        events.len() <= capacity,
    ensures
        forall|i: int| 0 <= i < events.len() ==> QueueState::empty(capacity).accepts_nth(events, i),
        QueueState::empty(capacity).push_all(events).events == events,
        QueueState::empty(capacity).push_all(events).drained(events.len()) == events,
{
    let q = QueueState::empty(capacity);
    lemma_push_all(q, events);
    assert(q.events + events =~= events);
    lemma_drained(q.push_all(events), events.len());
    assert forall|i: int| 0 <= i < events.len() implies q.accepts_nth(events, i) by {
        lemma_push_all(q, events.take(i));
        assert(q.events + events.take(i) =~= events.take(i));
    }
}

/// Overflow policy: of events pushed into an empty queue without a pop in
/// between, the first `capacity` are accepted and retained, in order, and
/// every later push is refused.
pub proof fn lemma_overflow_drops_newest(capacity: nat, events: Seq<u8>)
    ensures
        forall|i: int|
            0 <= i < events.len() ==> QueueState::empty(capacity).accepts_nth(events, i) == (i
                < capacity),
        QueueState::empty(capacity).push_all(events).events == first_that_fit(events, capacity),
        events.len() >= capacity ==> QueueState::empty(capacity).push_all(events).events.len()
            == capacity,
{
    let q = QueueState::empty(capacity);
    lemma_push_all(q, events);
    assert(q.events + events =~= events);
    assert forall|i: int| 0 <= i < events.len() implies q.accepts_nth(events, i) == (i
        < capacity) by {
        lemma_push_all(q, events.take(i));
        assert(q.events + events.take(i) =~= events.take(i));
    }
}

/// No lost wakeup, part one: a consumer that was told `Pending` left its
/// waker registered on an empty queue, so the next accepted push marks its
/// task ready and the event is what the consumer gets when it asks again.
pub proof fn lemma_pending_consumer_is_woken(
    q: QueueState,
    waker: Waker,
    event: u8,
    ready: Seq<TaskId>,
)
    requires
        q.wf(),
        q.capacity > 0,
        q.next_event() == Poll::<u8>::Pending,
    ensures
        q.poll_next(waker).events.len() == 0,
        q.poll_next(waker).waker == Some(waker),
        q.poll_next(waker).accepts(),
        q.poll_next(waker).ready_after_push(ready).contains(waker.task),
        q.poll_next(waker).push(event).next_event() == Poll::Ready(event),
        q.poll_next(waker).push(event).waker is None,
{
    let waiting = q.poll_next(waker);
    assert(waiting.events =~= Seq::<u8>::empty());
    let woken = ready_insert(ready, waker.task);
    if !ready.contains(waker.task) {
        assert(woken[woken.len() - 1] == waker.task);
    }
    assert(waiting.push(event).events[0] == event);
}

/// No lost wakeup, part two: whatever is pushed after the consumer found
/// the queue empty, be it before the consumer registered its waker or
/// between the registration and the second look, the second look finds the
/// first of these events, so the consumer does not suspend with an event
/// queued.
pub proof fn lemma_recheck_sees_racing_push(
    q: QueueState,
    waker: Waker,
    before: Seq<u8>,
    after: Seq<u8>,
)
    requires
        q.wf(),
        q.capacity > 0,
        q.front() is None,
        before.len() + after.len() > 0,
    ensures
        q.push_all(before).register(waker).push_all(after).front() == Some((before + after)[0]),
        q.push_all(before).register(waker).push_all(after).next_event() == Poll::Ready(
            (before + after)[0],
        ),
{
    assert(q.events =~= Seq::<u8>::empty());
    lemma_push_all(q, before);
    assert(q.events + before =~= before);
    let registered = q.push_all(before).register(waker);
    lemma_push_all(registered, after);
    let seen = registered.push_all(after).events;
    assert(seen == first_that_fit(first_that_fit(before, q.capacity) + after, q.capacity));
    if before.len() > 0 {
        assert(first_that_fit(before, q.capacity)[0] == before[0]);
    }
    assert(seen[0] == (before + after)[0]);
}

/// A bounded ring buffer of events with one waker slot.
pub struct EventQueue {
    slots: Vec<u8>,
    head: usize,
    len: usize,
    waker: Option<Waker>,
}

impl View for EventQueue {
    type V = QueueState;

    closed spec fn view(&self) -> QueueState {
        QueueState {
            events: Seq::new(self.len as nat, |i: int| self.slots@[self.slot_of(i)]),
            capacity: self.slots@.len(),
            waker: self.waker,
        }
    }
}

impl EventQueue {
    /// The slot that holds the event at position `i` from the oldest.
    closed spec fn slot_of(&self, i: int) -> int {
        if self.head + i < self.slots@.len() {
            self.head + i
        } else {
            self.head + i - self.slots@.len()
        }
    }

    /// The ring's indices are in range.
    pub closed spec fn ring_ok(&self) -> bool {
        &&& self.len <= self.slots@.len()
        &&& self.head < self.slots@.len() || (self.head == 0 && self.slots@.len() == 0)
    }

    /// The queue holds no more events than its capacity, and its ring is in
    /// order.
    pub open spec fn wf(&self) -> bool {
        self@.wf() && self.ring_ok()
    }

    /// An empty queue with room for `capacity` events. The capacity never
    /// changes afterwards.
    pub fn new(capacity: usize) -> (queue: EventQueue)
        ensures
            queue.wf(),
            queue@ == QueueState::empty(capacity as nat),
    {
        let mut slots: Vec<u8> = Vec::new();
        let mut i: usize = 0;
        while i < capacity
            invariant
                i <= capacity,
                slots@.len() == i,
            decreases capacity - i,
        {
            slots.push(0);
            i += 1;
        }
        let queue = EventQueue { slots, head: 0, len: 0, waker: None };
        assert(queue@.events =~= Seq::<u8>::empty());
        queue
    }

    /// The number of events that the queue can hold.
    pub fn capacity(&self) -> (capacity: usize)
        ensures
            capacity == self@.capacity,
    {
        self.slots.len()
    }

    /// The number of queued events.
    pub fn len(&self) -> (len: usize)
        ensures
            len == self@.events.len(),
    {
        self.len
    }

    /// Whether no event is queued.
    pub fn is_empty(&self) -> (empty: bool)
        ensures
            empty == (self@.events.len() == 0),
    {
        self.len == 0
    }

    /// Whether the queue would drop the next event.
    pub fn is_full(&self) -> (full: bool)
        ensures
            full == !self@.accepts(),
    {
        self.len >= self.slots.len()
    }

    /// The waker of the consumer that waits on the queue, if one does.
    pub fn registered_waker(&self) -> (waker: Option<Waker>)
        ensures
            waker == self@.waker,
    {
        self.waker
    }

    /// Queues `event`, for an interrupt handler: it never blocks. A full
    /// queue drops the event and returns `false`. A push into an empty queue
    /// invokes the registered waker, if there is one, and clears the slot.
    pub fn try_push(&mut self, event: u8, ready: &mut ReadySet) -> (accepted: bool)
        requires
            old(self).wf(),
            old(ready).wf(),
        ensures
            final(self).wf(),
            final(ready).wf(),
            accepted == old(self)@.accepts(),
            final(self)@ == old(self)@.push(event),
            final(ready)@ == old(self)@.ready_after_push(old(ready)@),
    {
        let capacity: usize = self.slots.len();
        if self.len >= capacity {
            return false;
        }
        let tail: usize = if self.head < capacity - self.len {
            self.head + self.len
        } else {
            self.head - (capacity - self.len)
        };
        let was_empty: bool = self.len == 0;
        self.slots.set(tail, event);
        self.len += 1;
        if was_empty {
            match self.waker {
                Some(waker) => {
                    waker.wake(ready);
                    self.waker = None;
                },
                None => {},
            }
        }
        assert(self@.events =~= old(self)@.events.push(event));
        true
    }

    /// Takes the oldest queued event, if any, for the consumer: it never
    /// blocks.
    pub fn poll_pop(&mut self) -> (event: Option<u8>)
        requires
            old(self).wf(),
        ensures
            final(self).wf(),
            event == old(self)@.front(),
            final(self)@ == old(self)@.pop(),
    {
        if self.len == 0 {
            return None;
        }
        let event: u8 = self.slots[self.head];
        self.head = if self.head < self.slots.len() - 1 {
            self.head + 1
        } else {
            0
        };
        self.len -= 1;
        assert(self@.events =~= old(self)@.events.drop_first());
        Some(event)
    }

    /// Registers `waker` as the waker of the consumer that is about to wait.
    /// One consumer is supported: a waker registered before is replaced.
    pub fn register_waker(&mut self, waker: Waker)
        requires
            old(self).wf(),
        ensures
            final(self).wf(),
            final(self)@ == old(self)@.register(waker),
    {
        self.waker = Some(waker);
        assert(self@.events =~= old(self)@.events);
    }

    /// Clears the waker slot.
    pub fn take_waker(&mut self) -> (waker: Option<Waker>)
        requires
            old(self).wf(),
        ensures
            final(self).wf(),
            waker == old(self)@.waker,
            final(self)@ == (QueueState { waker: None, ..old(self)@ }),
    {
        let waker: Option<Waker> = self.waker;
        self.waker = None;
        assert(self@.events =~= old(self)@.events);
        waker
    }

    /// Asks for the next event on behalf of the task that `waker` wakes.
    /// Where an event is queued it is returned at once. Else the waker is
    /// registered first and the queue is looked at once more, so that an
    /// event that arrived in between is not missed; only if the queue is
    /// still empty is the answer `Pending`, and the task may then suspend:
    /// the next accepted push wakes it.
    pub fn poll_next(&mut self, waker: Waker) -> (next: Poll<u8>)
        requires
            old(self).wf(),
        ensures
            final(self).wf(),
            next == old(self)@.next_event(),
            final(self)@ == old(self)@.poll_next(waker),
    {
        match self.poll_pop() {
            Some(event) => {
                return Poll::Ready(event);
            },
            None => {},
        }
        self.register_waker(waker);
        match self.poll_pop() {
            Some(event) => {
                self.take_waker();
                Poll::Ready(event)
            },
            None => Poll::Pending,
        }
    }
}

} // verus!
