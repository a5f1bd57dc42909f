//! Cooperative tasks: identifiers, wakers and the ready set that the executor
//! drains and that interrupt handlers fill through wakers.

use std::collections::VecDeque;
use vstd::prelude::*;

pub mod executor;
pub mod keyboard;
pub mod queue;

verus! {

/// The identifier of a task: unique among the tasks of one executor, and
/// larger than that of every task spawned before it.
#[derive(Debug, Clone, Copy, PartialEq, Eq, Structural)]
pub struct TaskId(pub u64);

/// What a request for progress gave: a value, or nothing yet.
#[derive(Debug, PartialEq, Eq, Structural)]
pub enum Poll<T> {
    Ready(T),
    Pending,
}

/// The ready sequence after `id` was marked ready: unchanged where `id` is
/// already in it, else with `id` at its end.
pub open spec fn ready_insert(ready: Seq<TaskId>, id: TaskId) -> Seq<TaskId> {
    if ready.contains(id) {
        ready
    } else {
        ready.push(id)
    }
}

/// The ready sequence after `id` was marked ready `n` times in a row.
pub open spec fn ready_insert_times(ready: Seq<TaskId>, id: TaskId, n: nat) -> Seq<TaskId>
    decreases n,
{
    if n == 0 {
        ready
    } else {
        ready_insert(ready_insert_times(ready, id, (n - 1) as nat), id)
    }
}

/// The identifiers of the tasks that are believed runnable, in the order in
/// which they became so. No identifier is in it twice.
pub struct ReadySet {
    queue: VecDeque<TaskId>,
}

impl View for ReadySet {
    type V = Seq<TaskId>;

    closed spec fn view(&self) -> Seq<TaskId> {
        self.queue@
    }
}

impl ReadySet {
    /// No identifier occurs twice.
    pub open spec fn wf(&self) -> bool {
        self@.no_duplicates()
    }

    /// An empty ready set.
    pub fn new() -> (ready: ReadySet)
        ensures
            ready.wf(),
            ready@ == Seq::<TaskId>::empty(),
    {
        ReadySet { queue: VecDeque::new() }
    }

    /// The number of ready tasks.
    pub fn len(&self) -> (n: usize)
        ensures
            n == self@.len(),
    {
        self.queue.len()
    }

    /// Whether no task is ready.
    pub fn is_empty(&self) -> (empty: bool)
        ensures
            empty == (self@.len() == 0),
    {
        self.queue.len() == 0
    }

    /// Whether `id` is ready.
    pub fn contains(&self, id: TaskId) -> (found: bool)
        ensures
            found == self@.contains(id),
    {
        let mut i: usize = 0;
        while i < self.queue.len()
            invariant
                i <= self@.len(),
                forall|j: int| 0 <= j < i ==> self@[j] != id,
            decreases self@.len() - i,
        {
            if self.queue[i] == id {
                return true;
            }
            i += 1;
        }
        false
    }

    /// Marks `id` ready. A task that is already ready stays where it is:
    /// waking it again changes nothing. Returns whether `id` was added.
    pub fn insert(&mut self, id: TaskId) -> (added: bool)
        requires
            old(self).wf(),
        ensures
            final(self).wf(),
            added == !old(self)@.contains(id),
            final(self)@ == ready_insert(old(self)@, id),
    {
        if self.contains(id) {
            false
        } else {
            self.queue.push_back(id);
            true
        }
    }

    /// Takes the task that has been ready longest, if any.
    pub fn pop(&mut self) -> (first: Option<TaskId>)
        requires
            old(self).wf(),
        ensures
            final(self).wf(),
            first == if old(self)@.len() > 0 {
                Some(old(self)@[0])
            } else {
                None
            },
            final(self)@ == if old(self)@.len() > 0 {
                old(self)@.drop_first()
            } else {
                old(self)@
            },
    {
        self.queue.pop_front()
    }
}

/// The capability to mark one task ready again. It may be invoked from an
/// interrupt handler, and invoking it more than once is harmless.
#[derive(Debug, Clone, Copy, PartialEq, Eq, Structural)]
pub struct Waker {
    pub task: TaskId,
}

impl Waker {
    /// The waker of `task`.
    pub fn new(task: TaskId) -> (waker: Waker)
        ensures
            waker.task == task,
    {
        Waker { task }
    }

    /// Marks the waker's task ready.
    pub fn wake(&self, ready: &mut ReadySet)
        requires
            old(ready).wf(),
        ensures
            final(ready).wf(),
            final(ready)@ == ready_insert(old(ready)@, self.task),
    {
        ready.insert(self.task);
    }
}

/// Waking is idempotent: a task that is woken any number of times, once or
/// more, is in the ready set exactly once, at the place the first wake gave
/// it, and no other entry moves.
pub proof fn lemma_wake_idempotent(ready: Seq<TaskId>, id: TaskId, n: nat)
    requires
        ready.no_duplicates(),
        n >= 1,
    ensures
        ready_insert_times(ready, id, n) == ready_insert(ready, id),
        ready_insert_times(ready, id, n).no_duplicates(),
        ready_insert_times(ready, id, n).contains(id),
        ready_insert_times(ready, id, n).filter(|t: TaskId| t == id).len() == 1,
    decreases n,
{
    let once = ready_insert(ready, id);
    lemma_insert_once(ready, id);
    if n > 1 {
        lemma_wake_idempotent(ready, id, (n - 1) as nat);
    } else {
        assert(ready_insert_times(ready, id, 0) == ready);
    }
}

/// One wake leaves the ready sequence without duplicates and with exactly
/// one entry for the woken task.
pub proof fn lemma_insert_once(ready: Seq<TaskId>, id: TaskId)
    requires
        ready.no_duplicates(),
    ensures
        ready_insert(ready, id).no_duplicates(),
        ready_insert(ready, id).contains(id),
        ready_insert(ready, id).filter(|t: TaskId| t == id).len() == 1,
{
    let r = ready_insert(ready, id);
    if !ready.contains(id) {
        assert(r[r.len() - 1] == id);
    }
    lemma_count_one(r, id);
}

/// In a sequence without duplicates, an entry that occurs occurs once.
proof fn lemma_count_one(s: Seq<TaskId>, id: TaskId)
    requires
        s.no_duplicates(),
        s.contains(id),
    ensures
        s.filter(|t: TaskId| t == id).len() == 1,
    decreases s.len(),
{
    let pred = |t: TaskId| t == id;
    reveal(Seq::filter);
    if s.len() > 0 {
        let init = s.drop_last();
        if s.last() == id {
            assert(!init.contains(id)) by {
                if init.contains(id) {
                    let k = choose|k: int| 0 <= k < init.len() && init[k] == id;
                    assert(s[k] == id && s[s.len() - 1] == id);
                }
            }
            lemma_count_zero(init, id);
        } else {
            let k = choose|k: int| 0 <= k < s.len() && s[k] == id;
            assert(init[k] == id);
            lemma_count_one(init, id);
        }
    }
}

/// An entry that does not occur is counted zero times.
proof fn lemma_count_zero(s: Seq<TaskId>, id: TaskId)
    requires
        !s.contains(id),
    ensures
        s.filter(|t: TaskId| t == id).len() == 0,
    decreases s.len(),
{
    reveal(Seq::filter);
    if s.len() > 0 {
        let init = s.drop_last();
        assert(s[s.len() - 1] != id);
        assert(!init.contains(id)) by {
            if init.contains(id) {
                let k = choose|k: int| 0 <= k < init.len() && init[k] == id;
                assert(s[k] == id);
            }
        }
        lemma_count_zero(init, id);
    }
}

} // verus!
