//! The cooperative executor: the table of suspended tasks, the ready set and
//! the decisions of the scheduling loop. The executor decides which task is
//! resumed next and when the processor may halt; the program around it
//! resumes the task and reports how the resumption ended.

use crate::task::{ready_insert, ReadySet, TaskId};
use vstd::prelude::*;

verus! {

/// What the idle path does once interrupts are disabled and the ready set
/// has been looked at again.
#[derive(Debug, Clone, Copy, PartialEq, Eq, Structural)]
pub enum IdleAction {
    /// Nothing is ready: enable interrupts and halt in one step, so that an
    /// interrupt that arrives after the look wakes the halted processor.
    EnableInterruptsAndHalt,
    /// A task became ready in the meantime: enable interrupts and go on.
    EnableInterrupts,
}

/// What the idle path does with the ready sequence that it sees once
/// interrupts are disabled: it halts if and only if nothing is ready.
pub open spec fn idle_action(ready: Seq<TaskId>) -> IdleAction {
    if ready.len() == 0 {
        IdleAction::EnableInterruptsAndHalt
    } else {
        IdleAction::EnableInterrupts
    }
}

/// The idle path halts on an empty ready set, and a wake ends the idling:
/// once a task was woken, whatever else is ready, the idle path does not
/// halt before the task was taken out.
pub proof fn lemma_idle_until_woken(ready: Seq<TaskId>, id: TaskId)
    ensures
        idle_action(Seq::<TaskId>::empty()) == IdleAction::EnableInterruptsAndHalt,
        idle_action(ready_insert(ready, id)) == IdleAction::EnableInterrupts,
{
    if ready.contains(id) {
        assert(ready.len() > 0);
    }
}

/// What an executor holds: the suspended state of each stored task, the
/// task that is being resumed and the number that the next task gets. The
/// ready set is a value of its own, which the executor shares with the
/// wakers.
pub struct ExecutorState<T> {
    pub tasks: Map<TaskId, T>,
    pub running: Option<TaskId>,
    pub next_id: nat,
}

/// The position in `ready` of the first identifier that `live` holds, or the
/// length of `ready` where it holds none of them.
pub open spec fn first_live(ready: Seq<TaskId>, live: Set<TaskId>) -> int
    decreases ready.len(),
{
    if ready.len() == 0 {
        0
    } else if live.contains(ready[0]) {
        0
    } else {
        1 + first_live(ready.drop_first(), live)
    }
}

/// `first_live` is a position in `ready` or its length; the entry there is in
/// `live`, and no entry before it is.
pub proof fn lemma_first_live(ready: Seq<TaskId>, live: Set<TaskId>)
    ensures
        0 <= first_live(ready, live) <= ready.len(),
        first_live(ready, live) < ready.len() ==> live.contains(ready[first_live(ready, live)]),
        forall|i: int| 0 <= i < first_live(ready, live) ==> !live.contains(#[trigger] ready[i]),
    decreases ready.len(),
{
    if ready.len() > 0 && !live.contains(ready[0]) {
        let rest = ready.drop_first();
        lemma_first_live(rest, live);
        assert forall|i: int| 0 <= i < first_live(ready, live) implies !live.contains(
            #[trigger] ready[i],
        ) by {
            if i > 0 {
                assert(ready[i] == rest[i - 1]);
            }
        }
    }
}

impl<T> ExecutorState<T> {
    /// The task that is resumed next: the one that has been ready longest
    /// among the stored tasks. Ready entries of tasks that are gone are
    /// passed over.
    pub open spec fn next_task(self, ready: Seq<TaskId>) -> Option<TaskId> {
        let k = first_live(ready, self.tasks.dom());
        if k < ready.len() {
            Some(ready[k])
        } else {
            None
        }
    }

    /// The state after the next task was taken out to be resumed.
    pub open spec fn dispatch(self, ready: Seq<TaskId>) -> ExecutorState<T> {
        match self.next_task(ready) {
            Some(id) => ExecutorState {
                tasks: self.tasks.remove(id),
                running: Some(id),
                next_id: self.next_id,
            },
            None => self,
        }
    }

    /// The ready sequence after the next task was taken out: the entry of
    /// that task and every entry before it are gone.
    pub open spec fn ready_after_dispatch(self, ready: Seq<TaskId>) -> Seq<TaskId> {
        let k = first_live(ready, self.tasks.dom());
        if k < ready.len() {
            ready.skip(k + 1)
        } else {
            Seq::empty()
        }
    }
}

/// A wake is not lost on the way to the executor: once a stored task was
/// woken, the executor finds a task to resume, and the tasks that it
/// resumes before the woken one are stored tasks that were ready before it.
pub proof fn lemma_woken_task_is_found<T>(state: ExecutorState<T>, ready: Seq<TaskId>, id: TaskId)
    requires
        state.tasks.dom().contains(id),
    ensures
        state.next_task(ready_insert(ready, id)) is Some,
        state.tasks.dom().contains(state.next_task(ready_insert(ready, id))->0),
        !ready.contains(id) && state.next_task(ready) is None ==> state.next_task(
            ready_insert(ready, id),
        ) == Some(id),
{
    let woken = ready_insert(ready, id);
    let live = state.tasks.dom();
    lemma_first_live(woken, live);
    if !ready.contains(id) {
        assert(woken[ready.len() as int] == id);
        lemma_first_live(ready, live);
        if state.next_task(ready) is None {
            assert forall|i: int| 0 <= i < ready.len() implies !live.contains(woken[i]) by {
                assert(woken[i] == ready[i]);
            }
        }
    } else {
        let k = choose|k: int| 0 <= k < ready.len() && ready[k] == id;
        assert(woken[k] == id);
    }
}

struct Slot<T> {
    id: TaskId,
    task: T,
}

/// The slots and the map of stored tasks say the same: each stored task has
/// one slot, no identifier has two, and every identifier is below `next_id`.
spec fn table_ok<T>(slots: Seq<Slot<T>>, stored: Map<TaskId, T>, next_id: u64) -> bool {
    &&& stored.dom().finite()
    &&& stored.dom().len() == slots.len()
    &&& forall|i: int|
        0 <= i < slots.len() ==> stored.dom().contains(#[trigger] slots[i].id) && stored[slots[i].id]
            == slots[i].task
    &&& forall|id: TaskId| #[trigger]
        stored.dom().contains(id) ==> exists|i: int| 0 <= i < slots.len() && #[trigger] slots[i].id == id
    &&& forall|i: int, j: int|
        0 <= i < j < slots.len() ==> #[trigger] slots[i].id != #[trigger] slots[j].id
    &&& forall|id: TaskId| #[trigger] stored.dom().contains(id) ==> id.0 < next_id
}

/// Taking a slot out takes its task out of the map.
proof fn lemma_remove_slot<T>(slots: Seq<Slot<T>>, stored: Map<TaskId, T>, next_id: u64, i: int)
    requires
        table_ok(slots, stored, next_id),
        0 <= i < slots.len(),
    ensures
        table_ok(slots.remove(i), stored.remove(slots[i].id), next_id),
{
    let id = slots[i].id;
    let rest = slots.remove(i);
    let left = stored.remove(id);
    assert(stored.dom().contains(slots[i].id));
    assert(left.dom() =~= stored.dom().remove(id));
    assert forall|j: int| 0 <= j < rest.len() implies left.dom().contains(#[trigger] rest[j].id)
        && left[rest[j].id] == rest[j].task by {
        let k = if j < i {
            j
        } else {
            j + 1
        };
        assert(rest[j] == slots[k]);
        assert(slots[k].id != slots[i].id);
    }
    assert forall|t: TaskId| #[trigger] left.dom().contains(t) implies exists|j: int|
        0 <= j < rest.len() && #[trigger] rest[j].id == t by {
        let k = choose|k: int| 0 <= k < slots.len() && #[trigger] slots[k].id == t;
        if k < i {
            assert(rest[k].id == t);
        } else {
            assert(rest[k - 1].id == t);
        }
    }
    assert forall|a: int, b: int| 0 <= a < b < rest.len() implies #[trigger] rest[a].id
        != #[trigger] rest[b].id by {
        let ka = if a < i {
            a
        } else {
            a + 1
        };
        let kb = if b < i {
            b
        } else {
            b + 1
        };
        assert(rest[a] == slots[ka]);
        assert(rest[b] == slots[kb]);
    }
}

/// A new slot for a fresh identifier adds its task to the map.
proof fn lemma_push_slot<T>(slots: Seq<Slot<T>>, stored: Map<TaskId, T>, next_id: u64, slot: Slot<T>)
    requires
        table_ok(slots, stored, next_id),
        !stored.dom().contains(slot.id),
        slot.id.0 < next_id,
    ensures
        table_ok(slots.push(slot), stored.insert(slot.id, slot.task), next_id),
{
    let more = slots.push(slot);
    let all = stored.insert(slot.id, slot.task);
    assert(all.dom() =~= stored.dom().insert(slot.id));
    assert forall|j: int| 0 <= j < more.len() implies all.dom().contains(#[trigger] more[j].id)
        && all[more[j].id] == more[j].task by {
        if j < slots.len() {
            assert(more[j] == slots[j]);
            assert(stored.dom().contains(slots[j].id));
        }
    }
    assert forall|t: TaskId| #[trigger] all.dom().contains(t) implies exists|j: int|
        0 <= j < more.len() && #[trigger] more[j].id == t by {
        if t == slot.id {
            assert(more[slots.len() as int].id == t);
        } else {
            let k = choose|k: int| 0 <= k < slots.len() && #[trigger] slots[k].id == t;
            assert(more[k].id == t);
        }
    }
    assert forall|a: int, b: int| 0 <= a < b < more.len() implies #[trigger] more[a].id
        != #[trigger] more[b].id by {
        assert(more[a] == slots[a]);
        assert(stored.dom().contains(slots[a].id));
        if b < slots.len() {
            assert(more[b] == slots[b]);
        }
    }
}

/// A single-threaded executor of cooperative tasks.
pub struct Executor<T> {
    slots: Vec<Slot<T>>,
    stored: Ghost<Map<TaskId, T>>,
    running: Option<TaskId>,
    next_id: u64,
}

impl<T> View for Executor<T> {
    type V = ExecutorState<T>;

    closed spec fn view(&self) -> ExecutorState<T> {
        ExecutorState {
            tasks: self.stored@,
            running: self.running,
            next_id: self.next_id as nat,
        }
    }
}

impl<T> Executor<T> {
    /// The table is in order: each stored task has one place in it.
    pub closed spec fn table_ok(&self) -> bool {
        table_ok(self.slots@, self.stored@, self.next_id)
    }

    /// The table is in order, every identifier in use was handed out by
    /// this executor, and the task that is being resumed is not stored.
    pub open spec fn wf(&self) -> bool {
        &&& self.table_ok()
        &&& self@.tasks.dom().finite()
        &&& forall|id: TaskId| #[trigger] self@.tasks.dom().contains(id) ==> id.0 < self@.next_id
        &&& match self@.running {
            Some(id) => id.0 < self@.next_id && !self@.tasks.dom().contains(id),
            None => true,
        }
    }

    /// An executor without tasks.
    pub fn new() -> (executor: Executor<T>)
        ensures
            executor.wf(),
            executor@.tasks == Map::<TaskId, T>::empty(),
            executor@.running is None,
            executor@.next_id == 0,
    {
        Executor {
            slots: Vec::new(),
            stored: Ghost(Map::empty()),
            running: None,
            next_id: 0,
        }
    }

    /// The number of stored tasks; the task that is being resumed is not
    /// counted.
    pub fn task_count(&self) -> (count: usize)
        requires
            self.wf(),
        ensures
            count == self@.tasks.dom().len(),
    {
        self.slots.len()
    }

    /// The task that is being resumed, if one is.
    pub fn running(&self) -> (running: Option<TaskId>)
        ensures
            running == self@.running,
    {
        self.running
    }

    /// Whether there is an identifier left for one more task.
    pub fn can_spawn(&self) -> (yes: bool)
        ensures
            yes == (self@.next_id < u64::MAX),
    {
        self.next_id < u64::MAX
    }

    /// Stores `task` under a fresh identifier and marks it ready.
    pub fn spawn(&mut self, task: T, ready: &mut ReadySet) -> (id: TaskId)
        requires
            old(self).wf(),
            old(ready).wf(),
            old(self)@.next_id < u64::MAX,
        ensures
            final(self).wf(),
            final(ready).wf(),
            id.0 == old(self)@.next_id,
            !old(self)@.tasks.dom().contains(id),
            final(self)@.tasks == old(self)@.tasks.insert(id, task),
            final(ready)@ == ready_insert(old(ready)@, id),
            final(self)@.running == old(self)@.running,
            final(self)@.next_id == old(self)@.next_id + 1,
    {
        let id: TaskId = TaskId(self.next_id);
        self.next_id += 1;
        proof {
            lemma_push_slot(self.slots@, self.stored@, self.next_id, Slot { id, task });
            self.stored@ = self.stored@.insert(id, task);
        }
        self.slots.push(Slot { id, task });
        ready.insert(id);
        id
    }

    /// Takes the next task out of the table to be resumed: the stored task
    /// that has been ready longest. Returns it with its identifier, for
    /// which the caller makes the waker, or `None` where no stored task is
    /// ready. The ready set loses the returned entry and every entry before
    /// it.
    pub fn next_ready(&mut self, ready: &mut ReadySet) -> (next: Option<(TaskId, T)>)
        requires
            old(self).wf(),
            old(ready).wf(),
            old(self)@.running is None,
        ensures
            final(self).wf(),
            final(ready).wf(),
            final(self)@ == old(self)@.dispatch(old(ready)@),
            final(ready)@ == old(self)@.ready_after_dispatch(old(ready)@),
            match next {
                Some((id, task)) => old(self)@.next_task(old(ready)@) == Some(id) && old(self)@.tasks[id]
                    == task,
                None => old(self)@.next_task(old(ready)@) is None,
            },
    {
        loop
            invariant
                self.wf(),
                ready.wf(),
                self@ == old(self)@,
                self@.next_task(ready@) == old(self)@.next_task(old(ready)@),
                self@.ready_after_dispatch(ready@) == old(self)@.ready_after_dispatch(old(ready)@),
            decreases ready@.len(),
        {
            let ghost before = ready@;
            match ready.pop() {
                None => {
                    assert(ready@ =~= Seq::<TaskId>::empty());
                    return None;
                },
                Some(id) => {
                    proof {
                        assert(before.drop_first() =~= before.skip(1));
                    }
                    match self.position(id) {
                        Some(i) => {
                            proof {
                                lemma_remove_slot(self.slots@, self.stored@, self.next_id, i as int);
                            }
                            let slot: Slot<T> = self.slots.remove(i);
                            proof {
                                self.stored@ = self.stored@.remove(id);
                            }
                            self.running = Some(id);
                            return Some((slot.id, slot.task));
                        },
                        None => {
                            proof {
                                let k = first_live(ready@, self@.tasks.dom());
                                lemma_first_live(ready@, self@.tasks.dom());
                                assert(first_live(before, self@.tasks.dom()) == k + 1);
                                if k < ready@.len() {
                                    assert(before[k + 1] == ready@[k]);
                                    assert(before.skip(k + 2) =~= ready@.skip(k + 1));
                                }
                            }
                        },
                    }
                },
            }
        }
    }

    /// Puts the task that was being resumed back into the table: it has
    /// suspended again and becomes ready only through its waker.
    pub fn suspend(&mut self, task: T)
        requires
            old(self).wf(),
            old(self)@.running is Some,
        ensures
            final(self).wf(),
            final(self)@.tasks == old(self)@.tasks.insert(old(self)@.running->0, task),
            final(self)@.running is None,
            final(self)@.next_id == old(self)@.next_id,
    {
        match self.running {
            Some(id) => {
                self.running = None;
                proof {
                    lemma_push_slot(self.slots@, self.stored@, self.next_id, Slot { id, task });
                    self.stored@ = self.stored@.insert(id, task);
                }
                self.slots.push(Slot { id, task });
            },
            None => {},
        }
    }

    /// Records that the task that was being resumed ran to completion: it is
    /// gone for good, and a wake that still names it is passed over.
    pub fn complete(&mut self)
        requires
            old(self).wf(),
            old(self)@.running is Some,
        ensures
            final(self).wf(),
            final(self)@.tasks == old(self)@.tasks,
            final(self)@.running is None,
            final(self)@.next_id == old(self)@.next_id,
    {
        self.running = None;
    }

    /// Decides what the idle path does. It is asked with interrupts
    /// disabled, so that no wake can fall between the answer and the halt.
    pub fn sleep_if_idle(&self, ready: &ReadySet) -> (action: IdleAction)
        ensures
            action == idle_action(ready@),
    {
        if ready.is_empty() {
            IdleAction::EnableInterruptsAndHalt
        } else {
            IdleAction::EnableInterrupts
        }
    }

    /// The slot that holds the task `id`, if it is stored.
    fn position(&self, id: TaskId) -> (found: Option<usize>)
        requires
            self.wf(),
        ensures
            match found {
                Some(i) => i < self.slots@.len() && self.slots@[i as int].id == id
                    && self.stored@.dom().contains(id),
                None => !self.stored@.dom().contains(id),
            },
    {
        let mut i: usize = 0;
        while i < self.slots.len()
            invariant
                self.wf(),
                i <= self.slots@.len(),
                forall|j: int| 0 <= j < i ==> self.slots@[j].id != id,
            decreases self.slots@.len() - i,
        {
            if self.slots[i].id == id {
                return Some(i);
            }
            i += 1;
        }
        None
    }
}

} // verus!
