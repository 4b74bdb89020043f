//! The scheduler's registry: which tasks are live, under which names, and
//! which wait loop serves each.
//!
//! A wait loop is known here by its handle, a number that is given out
//! once. Whoever runs the loops starts one for every handle that the
//! registry arms and stops the loops whose handles it cancels.

use vstd::prelude::*;
use crate::store::time_task::TimeTask;

verus! {

/// A request to the scheduler.
#[derive(Debug, Clone, PartialEq, Eq)]
pub enum TimerEvent {
    AddTask(TimeTask),
    RemoveTask(String),
}

/// Why the scheduler cannot take a task.
#[derive(Debug, Clone, Copy, PartialEq, Eq, Structural)]
pub enum TimerError {
    /// Every handle has been given out.
    HandlesExhausted,
}

/// A registered task and the handle of its wait loop, once it has one.
#[derive(Debug)]
pub struct Slot {
    pub task: TimeTask,
    pub handle: Option<u64>,
}

/// A task that was just armed.
#[derive(Debug)]
pub struct Armed {
    /// The handle of the wait loop to start.
    pub handle: u64,
    /// The task that the loop serves.
    pub task: TimeTask,
    /// The handles of the wait loops to stop first: those that served the
    /// name until now.
    pub cancelled: Vec<u64>,
}

/// What the scheduler asks of whoever runs the wait loops.
#[derive(Debug)]
pub enum TimerAction {
    /// Stop the cancelled loops, then start one for the armed task.
    Spawn(Armed),
    /// Stop these loops.
    Cancel(Vec<u64>),
}

/// The slots of `slots` under other names than `name`, in their order.
pub open spec fn without(slots: Seq<Slot>, name: Seq<char>) -> Seq<Slot>
    decreases slots.len(),
{
    if slots.len() == 0 {
        Seq::empty()
    } else if slots.last().task.name@ == name {
        without(slots.drop_last(), name)
    } else {
        without(slots.drop_last(), name).push(slots.last())
    }
}

/// The handles of the wait loops that serve `name`, in the order of their
/// slots.
pub open spec fn armed_under(slots: Seq<Slot>, name: Seq<char>) -> Seq<u64>
    decreases slots.len(),
{
    if slots.len() == 0 {
        Seq::empty()
    } else if slots.last().task.name@ == name && slots.last().handle is Some {
        armed_under(slots.drop_last(), name).push(slots.last().handle.unwrap())
    } else {
        armed_under(slots.drop_last(), name)
    }
}

/// The slots of `slots` that wait loop `handle` does not serve, in their
/// order.
pub open spec fn without_handle(slots: Seq<Slot>, handle: u64) -> Seq<Slot>
    decreases slots.len(),
{
    if slots.len() == 0 {
        Seq::empty()
    } else if slots.last().handle == Some(handle) {
        without_handle(slots.drop_last(), handle)
    } else {
        without_handle(slots.drop_last(), handle).push(slots.last())
    }
}

/// The number of slots under `name`.
pub open spec fn count_named(slots: Seq<Slot>, name: Seq<char>) -> nat
    decreases slots.len(),
{
    if slots.len() == 0 {
        0
    } else if slots.last().task.name@ == name {
        count_named(slots.drop_last(), name) + 1
    } else {
        count_named(slots.drop_last(), name)
    }
}

/// The tasks of `tasks`, each in a slot without a wait loop.
pub open spec fn unarmed(tasks: Seq<TimeTask>) -> Seq<Slot> {
    Seq::new(tasks.len(), |i: int| Slot { task: tasks[i], handle: None })
}

/// The tasks of `slots`, in their order.
pub open spec fn tasks_of(slots: Seq<Slot>) -> Seq<TimeTask> {
    Seq::new(slots.len(), |i: int| slots[i].task)
}

/// What a scheduler's registry is, as plain values.
pub ghost struct Registry {
    /// The live tasks, oldest registration first.
    pub slots: Seq<Slot>,
    /// The handle that is given out next.
    pub next_handle: u64,
}

impl Registry {
    /// Every handle in use was given out before.
    pub open spec fn wf(self) -> bool {
        forall|i: int|
            0 <= i < self.slots.len() ==> ((#[trigger] self.slots[i]).handle matches Some(h)
                ==> h < self.next_handle)
    }

    /// The registry without the tasks under `name`.
    pub open spec fn removed(self, name: Seq<char>) -> Registry {
        Registry { slots: without(self.slots, name), ..self }
    }

    /// Whether a handle is left to give out.
    pub open spec fn can_arm(self) -> bool {
        self.next_handle < u64::MAX
    }

    /// The registry after `task` was registered: whatever stood under its
    /// name is gone, and `task` stands last, served by a new wait loop.
    pub open spec fn added(self, task: TimeTask) -> Registry {
        Registry {
            slots: without(self.slots, task.name@).push(
                Slot { task, handle: Some(self.next_handle) },
            ),
            next_handle: (self.next_handle + 1) as u64,
        }
    }

    /// The registry after each of `tasks` was registered, in order.
    pub open spec fn added_all(self, tasks: Seq<TimeTask>) -> Registry
        decreases tasks.len(),
    {
        if tasks.len() == 0 {
            self
        } else {
            self.added_all(tasks.drop_last()).added(tasks.last())
        }
    }
}

/// Removing a name keeps the other slots, each as it was, and none under
/// the name.
pub proof fn lemma_without_keeps_others(slots: Seq<Slot>, name: Seq<char>)
    ensures
        without(slots, name).len() <= slots.len(),
        forall|j: int|
            0 <= j < without(slots, name).len() ==> slots.contains(
                #[trigger] without(slots, name)[j],
            ) && without(slots, name)[j].task.name@ != name,
        count_named(without(slots, name), name) == 0,
        armed_under(without(slots, name), name) == Seq::<u64>::empty(),
        without(without(slots, name), name) == without(slots, name),
        forall|other: Seq<char>|
            #![trigger count_named(without(slots, name), other)]
            other != name ==> count_named(without(slots, name), other) == count_named(
                slots,
                other,
            ),
    decreases slots.len(),
{
    if slots.len() != 0 {
        let head = slots.drop_last();
        lemma_without_keeps_others(head, name);
        let w = without(slots, name);
        let wh = without(head, name);
        assert forall|j: int| 0 <= j < w.len() implies slots.contains(#[trigger] w[j])
            && w[j].task.name@ != name by {
            if j < wh.len() {
                assert(w[j] == wh[j]);
                assert(head.contains(wh[j]));
                let i = choose|i: int| 0 <= i < head.len() && head[i] == wh[j];
                assert(slots[i] == wh[j]);
            } else {
                assert(w[j] == slots.last());
                assert(slots[slots.len() - 1] == w[j]);
            }
        }
        if slots.last().task.name@ != name {
            assert(w.drop_last() =~= wh);
            assert(w.last() == slots.last());
        }
        assert forall|other: Seq<char>| other != name implies count_named(
            without(slots, name),
            other,
        ) == count_named(slots, other) by {
            assert(count_named(wh, other) == count_named(head, other));
            if slots.last().task.name@ != name {
                assert(w.drop_last() =~= wh);
            }
        }
    }
}

/// Retiring a wait loop keeps the other slots, each as it was, and none
/// that the loop served.
pub proof fn lemma_without_handle_keeps_others(slots: Seq<Slot>, handle: u64)
    ensures
        without_handle(slots, handle).len() <= slots.len(),
        forall|j: int|
            0 <= j < without_handle(slots, handle).len() ==> slots.contains(
                #[trigger] without_handle(slots, handle)[j],
            ) && without_handle(slots, handle)[j].handle != Some(handle),
    decreases slots.len(),
{
    if slots.len() != 0 {
        let head = slots.drop_last();
        lemma_without_handle_keeps_others(head, handle);
        let w = without_handle(slots, handle);
        let wh = without_handle(head, handle);
        assert forall|j: int| 0 <= j < w.len() implies slots.contains(#[trigger] w[j])
            && w[j].handle != Some(handle) by {
            if j < wh.len() {
                assert(w[j] == wh[j]);
                assert(head.contains(wh[j]));
                let i = choose|i: int| 0 <= i < head.len() && head[i] == wh[j];
                assert(slots[i] == wh[j]);
            } else {
                assert(w[j] == slots.last());
                assert(slots[slots.len() - 1] == w[j]);
            }
        }
    }
}

/// After a task was registered, exactly one slot stands under its name:
/// the last, holding that task and served by the wait loop armed for it.
/// Tasks under other names are as they were.
pub proof fn lemma_added_is_alone(m: Registry, task: TimeTask)
    ensures
        m.wf() && m.can_arm() ==> m.added(task).wf(),
        count_named(m.added(task).slots, task.name@) == 1,
        m.added(task).slots.last() == (Slot { task, handle: Some(m.next_handle) }),
        armed_under(m.added(task).slots, task.name@) == seq![m.next_handle],
        without(m.added(task).slots, task.name@) == without(m.slots, task.name@),
        forall|other: Seq<char>|
            #![trigger count_named(m.added(task).slots, other)]
            other != task.name@ ==> count_named(m.added(task).slots, other) == count_named(
                m.slots,
                other,
            ),
{
    let name = task.name@;
    let w = without(m.slots, name);
    let after = m.added(task).slots;
    lemma_without_keeps_others(m.slots, name);
    assert(after.drop_last() =~= w);
    assert(armed_under(after, name) =~= seq![m.next_handle]);
    assert forall|other: Seq<char>| other != name implies count_named(after, other)
        == count_named(m.slots, other) by {
        assert(count_named(w, other) == count_named(m.slots, other));
    }
    if m.wf() && m.can_arm() {
        assert forall|i: int| 0 <= i < after.len() implies ((#[trigger] after[i]).handle matches Some(
            h,
        ) ==> h < m.added(task).next_handle) by {
            if i < w.len() {
                assert(after[i] == w[i]);
                assert(m.slots.contains(w[i]));
            }
        }
    }
}

/// Every name in `slots` stands there once: a name is a key.
pub open spec fn distinct_names(slots: Seq<Slot>) -> bool {
    forall|i: int|
        0 <= i < slots.len() ==> count_named(slots, (#[trigger] slots[i]).task.name@) == 1
}

/// Registering a task keeps names distinct.
pub proof fn lemma_add_keeps_names_distinct(m: Registry, task: TimeTask)
    requires
        distinct_names(m.slots),
    ensures
        distinct_names(m.added(task).slots),
{
    let after = m.added(task).slots;
    let w = without(m.slots, task.name@);
    lemma_without_keeps_others(m.slots, task.name@);
    lemma_added_is_alone(m, task);
    assert forall|i: int| 0 <= i < after.len() implies count_named(
        after,
        (#[trigger] after[i]).task.name@,
    ) == 1 by {
        if i < w.len() {
            assert(after[i] == w[i]);
            assert(m.slots.contains(w[i]));
            let k = choose|k: int| 0 <= k < m.slots.len() && m.slots[k] == w[i];
            assert(count_named(m.slots, m.slots[k].task.name@) == 1);
            assert(count_named(after, w[i].task.name@) == count_named(m.slots, w[i].task.name@));
        }
    }
}

/// Clearing a name keeps names distinct.
pub proof fn lemma_remove_keeps_names_distinct(m: Registry, name: Seq<char>)
    requires
        distinct_names(m.slots),
    ensures
        distinct_names(m.removed(name).slots),
{
    let w = without(m.slots, name);
    lemma_without_keeps_others(m.slots, name);
    assert forall|i: int| 0 <= i < w.len() implies count_named(w, (#[trigger] w[i]).task.name@)
        == 1 by {
        assert(m.slots.contains(w[i]));
        let k = choose|k: int| 0 <= k < m.slots.len() && m.slots[k] == w[i];
        assert(count_named(m.slots, m.slots[k].task.name@) == 1);
        assert(count_named(w, w[i].task.name@) == count_named(m.slots, w[i].task.name@));
    }
}

/// After a run of registrations, a slot either stands alone under its name
/// or was there before and bears a name that none of the run registered.
pub proof fn lemma_added_all_names(m: Registry, tasks: Seq<TimeTask>)
    ensures
        forall|i: int|
            0 <= i < m.added_all(tasks).slots.len() ==> {
                let s = #[trigger] m.added_all(tasks).slots[i];
                ||| count_named(m.added_all(tasks).slots, s.task.name@) == 1
                ||| (m.slots.contains(s) && forall|j: int|
                    0 <= j < tasks.len() ==> (#[trigger] tasks[j]).name@ != s.task.name@)
            },
    decreases tasks.len(),
{
    if tasks.len() == 0 {
        assert forall|i: int| 0 <= i < m.slots.len() implies m.slots.contains(
            #[trigger] m.slots[i],
        ) by {}
    } else {
        let head = tasks.drop_last();
        let task = tasks.last();
        let cur = m.added_all(head);
        let after = cur.added(task).slots;
        let w = without(cur.slots, task.name@);
        lemma_added_all_names(m, head);
        lemma_without_keeps_others(cur.slots, task.name@);
        lemma_added_is_alone(cur, task);
        assert forall|i: int| 0 <= i < after.len() implies ({
            let s = #[trigger] after[i];
            ||| count_named(after, s.task.name@) == 1
            ||| (m.slots.contains(s) && forall|j: int|
                0 <= j < tasks.len() ==> (#[trigger] tasks[j]).name@ != s.task.name@)
        }) by {
            if i < w.len() {
                let s = after[i];
                assert(s == w[i]);
                assert(cur.slots.contains(s));
                let k = choose|k: int| 0 <= k < cur.slots.len() && cur.slots[k] == s;
                assert(count_named(after, s.task.name@) == count_named(cur.slots, s.task.name@));
                if count_named(cur.slots, cur.slots[k].task.name@) != 1 {
                    assert forall|j: int| 0 <= j < tasks.len() implies (#[trigger] tasks[j]).name@
                        != s.task.name@ by {
                        if j < head.len() {
                            assert(head[j] == tasks[j]);
                        }
                    }
                }
            }
        }
    }
}

/// Arming every task of a registry anew leaves its names distinct, however
/// often a name stood in it before.
pub proof fn lemma_run_makes_names_distinct(m: Registry)
    ensures
        distinct_names(m.added_all(tasks_of(m.slots)).slots),
{
    let tasks = tasks_of(m.slots);
    let after = m.added_all(tasks).slots;
    lemma_added_all_names(m, tasks);
    assert forall|i: int| 0 <= i < after.len() implies count_named(
        after,
        (#[trigger] after[i]).task.name@,
    ) == 1 by {
        let s = after[i];
        if count_named(after, s.task.name@) != 1 {
            assert(m.slots.contains(s));
            let k = choose|k: int| 0 <= k < m.slots.len() && m.slots[k] == s;
            assert(tasks[k].name@ == s.task.name@);
        }
    }
}

/// Registering twice under one name leaves exactly one task under it, the
/// second; the wait loop of the first is the one that the second
/// registration cancels, and the loop armed for the second is another.
pub proof fn lemma_add_twice_replaces(m: Registry, first: TimeTask, second: TimeTask)
    requires
        m.wf(),
        first.name@ == second.name@,
        m.next_handle < u64::MAX - 1,
    ensures
        ({
            let one = m.added(first);
            let two = one.added(second);
            &&& count_named(two.slots, second.name@) == 1
            &&& two.slots.last() == (Slot { task: second, handle: Some(one.next_handle) })
            &&& armed_under(one.slots, second.name@) == seq![m.next_handle]
            &&& armed_under(two.slots, second.name@) == seq![one.next_handle]
            &&& one.next_handle != m.next_handle
            &&& two.slots == without(m.slots, second.name@).push(two.slots.last())
        }),
{
    let one = m.added(first);
    lemma_added_is_alone(m, first);
    lemma_added_is_alone(one, second);
    lemma_without_keeps_others(m.slots, second.name@);
}

/// The scheduler's registry of live tasks.
#[derive(Debug)]
pub struct TimeTaskManager {
    slots: Vec<Slot>,
    next_handle: u64,
}

impl View for TimeTaskManager {
    type V = Registry;

    closed spec fn view(&self) -> Registry {
        Registry { slots: self.slots@, next_handle: self.next_handle }
    }
}

impl TimeTaskManager {
    /// A registry that holds `tasks`, none of them served yet.
    pub fn new(tasks: Vec<TimeTask>) -> (m: TimeTaskManager)
        ensures
            m@.slots == unarmed(tasks@),
            m@.next_handle == 0,
            m@.wf(),
    {
        Self::with_first_handle(tasks, 0)
    }

    /// A registry that holds `tasks`, none of them served yet, and gives
    /// out handles from `first_handle` on.
    pub fn with_first_handle(tasks: Vec<TimeTask>, first_handle: u64) -> (m: TimeTaskManager)
        ensures
            m@.slots == unarmed(tasks@),
            m@.next_handle == first_handle,
            m@.wf(),
    {
        let mut slots: Vec<Slot> = Vec::new();
        let mut i: usize = 0;
        while i < tasks.len()
            invariant
                i <= tasks@.len(),
                slots@ == unarmed(tasks@.take(i as int)),
            decreases tasks@.len() - i,
        {
            slots.push(Slot { task: tasks[i].duplicate(), handle: None });
            i += 1;
            assert(slots@ =~= unarmed(tasks@.take(i as int)));
        }
        assert(tasks@.take(i as int) =~= tasks@);
        TimeTaskManager { slots, next_handle: first_handle }
    }

    /// The live tasks, oldest registration first.
    pub fn tasks(&self) -> (out: Vec<TimeTask>)
        ensures
            out@ == tasks_of(self@.slots),
    {
        let mut out: Vec<TimeTask> = Vec::new();
        let mut i: usize = 0;
        while i < self.slots.len()
            invariant
                i <= self.slots@.len(),
                out@ == tasks_of(self.slots@.take(i as int)),
            decreases self.slots@.len() - i,
        {
            out.push(self.slots[i].task.duplicate());
            i += 1;
            assert(out@ =~= tasks_of(self.slots@.take(i as int)));
        }
        assert(self.slots@.take(i as int) =~= self.slots@);
        out
    }

    /// Takes every task under `name` out of the registry and hands back the
    /// handles of the wait loops to stop. Nothing happens where no task
    /// stands under the name.
    pub fn abort(&mut self, name: &str) -> (cancelled: Vec<u64>)
        requires
            old(self)@.wf(),
        ensures
            final(self)@ == old(self)@.removed(name@),
            cancelled@ == armed_under(old(self)@.slots, name@),
            final(self)@.wf(),
    {
        let key = name.to_owned();
        let mut cancelled: Vec<u64> = Vec::new();
        let mut i: usize = 0;
        let ghost mut seen: int = 0;
        let ghost before = self.slots@;
        while i < self.slots.len()
            invariant
                0 <= seen <= before.len(),
                i <= self.slots@.len(),
                key@ == name@,
                self.slots@.take(i as int) == without(before.take(seen), name@),
                self.slots@.skip(i as int) == before.skip(seen),
                cancelled@ == armed_under(before.take(seen), name@),
                self.next_handle == old(self).next_handle,
            decreases before.len() - seen,
        {
            assert(self.slots@.skip(i as int).len() == before.skip(seen).len());
            assert(self.slots@[i as int] == self.slots@.skip(i as int)[0]);
            assert(before.take(seen + 1).drop_last() =~= before.take(seen));
            assert(before.take(seen + 1).last() == before[seen]);
            let ghost prev = self.slots@;
            assert forall|k: int| 0 <= k < prev.len() - i - 1 implies #[trigger] prev.skip(
                i + 1,
            )[k] == before.skip(seen + 1)[k] by {
                assert(prev.skip(i as int)[k + 1] == before.skip(seen)[k + 1]);
            }
            assert(prev.skip(i + 1) =~= before.skip(seen + 1));
            if self.slots[i].task.name == key {
                let slot = self.slots.remove(i);
                if let Some(h) = slot.handle {
                    cancelled.push(h);
                }
                assert(self.slots@.take(i as int) =~= prev.take(i as int));
                assert(self.slots@.skip(i as int) =~= prev.skip(i + 1));
            } else {
                i += 1;
                assert(self.slots@.take(i as int) =~= prev.take(i - 1).push(prev[i - 1]));
                assert(self.slots@.skip(i as int) =~= before.skip(seen + 1));
            }
            proof {
                seen = seen + 1;
            }
        }
        proof {
            assert(self.slots@.skip(i as int).len() == 0);
            assert(before.take(seen) =~= before);
            assert(self.slots@.take(i as int) =~= self.slots@);
            lemma_without_keeps_others(before, name@);
        }
        cancelled
    }

    /// Registers `task`: whatever stood under its name is taken out and its
    /// wait loops are to be stopped; `task` is appended and a wait loop is
    /// armed for it under a new handle.
    pub fn add_task(&mut self, task: TimeTask) -> (r: Result<Armed, TimerError>)
        requires
            old(self)@.wf(),
        ensures
            final(self)@.wf(),
            match r {
                Ok(armed) => {
                    &&& old(self)@.can_arm()
                    &&& final(self)@ == old(self)@.added(task)
                    &&& armed.handle == old(self)@.next_handle
                    &&& armed.task == task
                    &&& armed.cancelled@ == armed_under(old(self)@.slots, task.name@)
                },
                Err(e) => {
                    &&& !old(self)@.can_arm()
                    &&& e == TimerError::HandlesExhausted
                    &&& final(self)@ == old(self)@
                },
            },
    {
        if self.next_handle == u64::MAX {
            return Err(TimerError::HandlesExhausted);
        }
        let cancelled = self.abort(task.name.as_str());
        let handle = self.next_handle;
        let copy = task.duplicate();
        self.slots.push(Slot { task, handle: Some(handle) });
        self.next_handle = handle + 1;
        proof {
            lemma_added_is_alone(old(self)@, task);
        }
        Ok(Armed { handle, task: copy, cancelled })
    }

    /// Takes out the task that wait loop `handle` served, once that loop has
    /// ended by itself: a task that fires once is over when it has fired.
    /// A task that was replaced meanwhile is served by another loop, and
    /// stays.
    pub fn complete(&mut self, handle: u64)
        requires
            old(self)@.wf(),
        ensures
            final(self)@ == (Registry {
                slots: without_handle(old(self)@.slots, handle),
                ..old(self)@
            }),
            final(self)@.wf(),
    {
        let mut i: usize = 0;
        let ghost mut seen: int = 0;
        let ghost before = self.slots@;
        while i < self.slots.len()
            invariant
                0 <= seen <= before.len(),
                i <= self.slots@.len(),
                self.slots@.take(i as int) == without_handle(before.take(seen), handle),
                self.slots@.skip(i as int) == before.skip(seen),
                self.next_handle == old(self).next_handle,
            decreases before.len() - seen,
        {
            assert(self.slots@.skip(i as int).len() == before.skip(seen).len());
            assert(self.slots@[i as int] == self.slots@.skip(i as int)[0]);
            assert(before.take(seen + 1).drop_last() =~= before.take(seen));
            assert(before.take(seen + 1).last() == before[seen]);
            let ghost prev = self.slots@;
            assert forall|k: int| 0 <= k < prev.len() - i - 1 implies #[trigger] prev.skip(
                i + 1,
            )[k] == before.skip(seen + 1)[k] by {
                assert(prev.skip(i as int)[k + 1] == before.skip(seen)[k + 1]);
            }
            assert(prev.skip(i + 1) =~= before.skip(seen + 1));
            let served = match self.slots[i].handle {
                Some(h) => h == handle,
                None => false,
            };
            if served {
                let _ = self.slots.remove(i);
                assert(self.slots@.take(i as int) =~= prev.take(i as int));
                assert(self.slots@.skip(i as int) =~= prev.skip(i + 1));
            } else {
                i += 1;
                assert(self.slots@.take(i as int) =~= prev.take(i - 1).push(prev[i - 1]));
                assert(self.slots@.skip(i as int) =~= before.skip(seen + 1));
            }
            proof {
                seen = seen + 1;
            }
        }
        proof {
            assert(self.slots@.skip(i as int).len() == 0);
            assert(before.take(seen) =~= before);
            assert(self.slots@.take(i as int) =~= self.slots@);
            lemma_without_handle_keeps_others(before, handle);
        }
    }

    /// Arms every task of the registry, oldest first, as if each were
    /// registered anew: used at startup for the tasks that were kept. Where
    /// the handles left do not suffice for all of them, nothing happens.
    pub fn run(&mut self) -> (r: Result<Vec<Armed>, TimerError>)
        requires
            old(self)@.wf(),
        ensures
            final(self)@.wf(),
            match r {
                Ok(armed) => {
                    let tasks = tasks_of(old(self)@.slots);
                    &&& old(self)@.next_handle + tasks.len() <= u64::MAX
                    &&& final(self)@ == old(self)@.added_all(tasks)
                    &&& armed@.len() == tasks.len()
                    &&& forall|i: int|
                        0 <= i < tasks.len() ==> {
                            &&& (#[trigger] armed@[i]).handle == old(self)@.next_handle + i
                            &&& armed@[i].task == tasks[i]
                            &&& armed@[i].cancelled@ == armed_under(
                                old(self)@.added_all(tasks.take(i)).slots,
                                tasks[i].name@,
                            )
                        }
                },
                Err(e) => {
                    &&& old(self)@.next_handle + old(self)@.slots.len() > u64::MAX
                    &&& e == TimerError::HandlesExhausted
                    &&& final(self)@ == old(self)@
                },
            },
    {
        let snapshot = self.tasks();
        let n = snapshot.len();
        if n as u64 > u64::MAX - self.next_handle {
            return Err(TimerError::HandlesExhausted);
        }
        let ghost tasks = snapshot@;
        let ghost start = self@;
        let mut armed: Vec<Armed> = Vec::new();
        let mut i: usize = 0;
        while i < n
            invariant
                n == snapshot@.len(),
                tasks == snapshot@,
                i <= n,
                start.next_handle + n <= u64::MAX,
                self@.wf(),
                self@ == start.added_all(tasks.take(i as int)),
                self@.next_handle == start.next_handle + i,
                armed@.len() == i,
                forall|j: int|
                    0 <= j < i ==> {
                        &&& (#[trigger] armed@[j]).handle == start.next_handle + j
                        &&& armed@[j].task == tasks[j]
                        &&& armed@[j].cancelled@ == armed_under(
                            start.added_all(tasks.take(j)).slots,
                            tasks[j].name@,
                        )
                    },
            decreases n - i,
        {
            assert(tasks.take(i + 1).drop_last() =~= tasks.take(i as int));
            assert(tasks.take(i + 1).last() == tasks[i as int]);
            match self.add_task(snapshot[i].duplicate()) {
                Ok(one) => {
                    armed.push(one);
                },
                Err(e) => {
                    assert(false);
                    return Err(e);
                },
            }
            i += 1;
        }
        assert(tasks.take(i as int) =~= tasks);
        Ok(armed)
    }

    /// Applies one request: a task to register, or a name to clear.
    pub fn handle_event(&mut self, event: TimerEvent) -> (r: Result<TimerAction, TimerError>)
        requires
            old(self)@.wf(),
        ensures
            final(self)@.wf(),
            match event {
                TimerEvent::AddTask(task) => match r {
                    Ok(TimerAction::Spawn(armed)) => {
                        &&& old(self)@.can_arm()
                        &&& final(self)@ == old(self)@.added(task)
                        &&& armed.handle == old(self)@.next_handle
                        &&& armed.task == task
                        &&& armed.cancelled@ == armed_under(old(self)@.slots, task.name@)
                    },
                    Ok(TimerAction::Cancel(_)) => false,
                    Err(e) => !old(self)@.can_arm() && final(self)@ == old(self)@,
                },
                TimerEvent::RemoveTask(name) => match r {
                    Ok(TimerAction::Cancel(cancelled)) => {
                        &&& final(self)@ == old(self)@.removed(name@)
                        &&& cancelled@ == armed_under(old(self)@.slots, name@)
                    },
                    _ => false,
                },
            },
    {
        match event {
            TimerEvent::AddTask(task) => match self.add_task(task) {
                Ok(armed) => Ok(TimerAction::Spawn(armed)),
                Err(e) => Err(e),
            },
            TimerEvent::RemoveTask(name) => Ok(TimerAction::Cancel(self.abort(name.as_str()))),
        }
    }
}

} // verus!
