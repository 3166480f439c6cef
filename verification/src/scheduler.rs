//! The time-driven task scheduler: deadlines, overlap policies, and the task
//! table.
//!
//! The table decides which tasks are due and when to wake up next; the
//! executions themselves run elsewhere and report back when they finish.
//! Tasks are periodic: registration triggers immediately once, then every
//! period. Triggers that arrive while a previous execution is still running
//! follow the task's [`OverlapPolicy`].
//!
//! Times are nanoseconds on one monotonic clock, periods are nanoseconds.

use vstd::prelude::*;

use crate::text::Text;

verus! {

/// The longest duration, in nanoseconds: `u64::MAX` seconds and all but one
/// nanosecond of another. Clock readings stay within it too.
pub const MAX_NANOS: u128 = 18446744073709551615999999999;

/// How long to wait when no task is registered, in nanoseconds: an hour.
pub const IDLE_WAIT: u128 = 3600000000000;

/// How a periodic task handles a trigger that arrives while its previous
/// execution is still running.
#[derive(Debug, Clone, Copy, PartialEq, Eq, Hash, Structural)]
pub enum OverlapPolicy {
    /// Drop the trigger (the next one comes at the next period).
    Skip,
    /// Submit every trigger; executions may overlap.
    Concurrent,
    /// Keep at most one deferred run: when an execution completes, it runs
    /// once more if any trigger arrived meanwhile.
    Queue,
}

/// A task's recurrence rule: a fixed period.
#[derive(Debug, Clone, Copy, PartialEq, Eq, Structural)]
pub struct Schedule {
    period: u128,
}

impl Schedule {
    /// The recurrence period, in nanoseconds.
    pub closed spec fn nanos(&self) -> u128 {
        self.period
    }

    /// The period is a duration, and not zero.
    pub open spec fn wf(&self) -> bool {
        0 < self.nanos() <= MAX_NANOS
    }

    /// Fires immediately on registration, then every `period` nanoseconds.
    pub fn every(period: u128) -> (schedule: Self)
        requires
            0 < period <= MAX_NANOS,
        ensures
            schedule.nanos() == period,
            schedule.wf(),
    {
        Schedule { period }
    }

    /// The recurrence period, in nanoseconds.
    pub fn period(&self) -> (period: u128)
        ensures
            period == self.nanos(),
    {
        self.period
    }
}

/// Read-only information about one registered task.
#[derive(Debug, PartialEq)]
pub struct TaskInfo {
    /// The registration id (unique within the scheduler).
    pub id: u64,
    /// The task's name, when it has one.
    pub name: Option<String>,
    /// The recurrence rule.
    pub schedule: Schedule,
    /// The overlap policy.
    pub policy: OverlapPolicy,
    /// Nanoseconds until the next trigger.
    pub next_in: u128,
    /// Whether an execution is currently in flight.
    pub running: bool,
}

/// What a [`TaskInfo`] holds.
pub ghost struct TaskInfoView {
    pub id: u64,
    pub name: Option<Seq<char>>,
    pub period: u128,
    pub policy: OverlapPolicy,
    pub next_in: u128,
    pub running: bool,
}

impl DeepView for TaskInfo {
    type V = TaskInfoView;

    open spec fn deep_view(&self) -> TaskInfoView {
        TaskInfoView {
            id: self.id,
            name: self.name.deep_view(),
            period: self.schedule.nanos(),
            policy: self.policy,
            next_in: self.next_in,
            running: self.running,
        }
    }
}

/// A handle to one scheduled task: its identity.
#[derive(Debug, Clone, Copy, PartialEq, Eq, Structural)]
pub struct TaskHandle {
    id: u64,
}

impl TaskHandle {
    /// The task's registration id.
    pub closed spec fn task(&self) -> u64 {
        self.id
    }

    /// The task's registration id.
    pub fn id(&self) -> (id: u64)
        ensures
            id == self.task(),
    {
        self.id
    }
}

/// How many periods a deadline moves: to the first one past `now`.
pub open spec fn catch_up_steps(deadline: int, period: int, now: int) -> int {
    (now - deadline) / (if period > 0 {
        period
    } else {
        1
    }) + 1
}

/// The deadline after a trigger: at a fixed rate, past `now` instead of one
/// for every missed period.
pub open spec fn advanced(deadline: int, period: int, now: int) -> int {
    if deadline > now {
        deadline
    } else {
        deadline + period * catch_up_steps(deadline, period, now)
    }
}

/// Advances a due deadline at a fixed rate with catch-up protection: after a
/// stall, however long, the deadline jumps past `now` instead of firing
/// every missed period.
pub fn advance(deadline: u128, period: u128, now: u128) -> (next: u128)
    requires
        period <= MAX_NANOS,
        now <= MAX_NANOS,
        deadline <= 2 * MAX_NANOS,
    ensures
        next == advanced(deadline as int, period as int, now as int),
        next <= 2 * MAX_NANOS,
        period > 0 ==> next > now,
{
    if deadline > now {
        return deadline;
    }
    if period == 0 {
        proof {
            let steps = catch_up_steps(deadline as int, 0, now as int);
            assert(0 * steps == 0) by (nonlinear_arith);
        }
        return deadline;
    }
    proof {
        advance_lands_just_past_now(deadline as int, period as int, now as int);
    }
    let behind: u128 = now - deadline;
    let ghost quotient = behind as int / period as int;
    proof {
        assert(0 <= quotient <= behind as int) by (nonlinear_arith)
            requires
                behind >= 0,
                period > 0,
                quotient == behind as int / period as int,
        ;
    }
    let steps: u128 = behind / period + 1;
    deadline + period * steps
}

/// A due deadline lands just past `now`, however long the stall: at most one
/// period ahead, and a whole number of periods from where it was.
pub proof fn advance_lands_just_past_now(deadline: int, period: int, now: int)
    requires
        deadline <= now,
        0 < period,
    ensures
        now < advanced(deadline, period, now) <= now + period,
        (advanced(deadline, period, now) - deadline) % period == 0,
{
    let behind = now - deadline;
    let steps = behind / period + 1;
    assert(period * (behind / period) <= behind < period * (behind / period) + period)
        by (nonlinear_arith)
        requires
            period > 0,
            behind >= 0,
    ;
    assert(period * steps == period * (behind / period) + period) by (nonlinear_arith)
        requires
            steps == behind / period + 1,
    ;
    assert((period * steps) % period == 0) by (nonlinear_arith)
        requires
            period > 0,
    ;
}

/// A deadline that is not due does not move.
pub proof fn future_deadlines_stay(deadline: int, period: int, now: int)
    requires
        deadline > now,
    ensures
        advanced(deadline, period, now) == deadline,
{
}

/// One registered task.
#[derive(Debug)]
struct TaskEntry {
    id: u64,
    name: Option<String>,
    period: u128,
    next_deadline: u128,
    policy: OverlapPolicy,
    /// Executions currently in flight.
    inflight: usize,
    /// A trigger arrived while running (the queue policy's catch-up slot).
    pending: bool,
    /// Future triggers are cancelled; executions in flight still finish.
    cancelled: bool,
}

/// What a registered task holds.
pub ghost struct TaskView {
    pub id: u64,
    pub name: Option<Seq<char>>,
    pub period: u128,
    pub next_deadline: u128,
    pub policy: OverlapPolicy,
    pub inflight: usize,
    pub pending: bool,
    pub cancelled: bool,
}

impl DeepView for TaskEntry {
    type V = TaskView;

    closed spec fn deep_view(&self) -> TaskView {
        TaskView {
            id: self.id,
            name: self.name.deep_view(),
            period: self.period,
            next_deadline: self.next_deadline,
            policy: self.policy,
            inflight: self.inflight,
            pending: self.pending,
            cancelled: self.cancelled,
        }
    }
}

/// The task table.
#[derive(Debug)]
pub struct Scheduler {
    tasks: Vec<TaskEntry>,
    next_id: u64,
}

/// What a [`Scheduler`] holds.
#[verifier::ext_equal]
pub ghost struct SchedulerView {
    /// The tasks in registration order; a cancelled one stays until its
    /// executions have finished.
    pub tasks: Seq<TaskView>,
    /// The id given out last.
    pub next_id: u64,
}

impl DeepView for Scheduler {
    type V = SchedulerView;

    closed spec fn deep_view(&self) -> SchedulerView {
        SchedulerView { tasks: self.tasks.deep_view(), next_id: self.next_id }
    }
}

/// What holds of every task: its period is a duration, its deadline a
/// reading not too far off, and only the concurrent policy lets executions
/// overlap.
pub open spec fn task_valid(task: TaskView) -> bool {
    &&& 0 < task.period <= MAX_NANOS
    &&& task.next_deadline <= 2 * MAX_NANOS
    &&& task.policy != OverlapPolicy::Concurrent ==> task.inflight <= 1
    &&& task.policy != OverlapPolicy::Queue ==> !task.pending
}

/// What holds of every table: its tasks are valid, and registration order is
/// id order.
pub open spec fn table_valid(table: SchedulerView) -> bool {
    &&& forall|i: int| 0 <= i < table.tasks.len() ==> task_valid(#[trigger] table.tasks[i])
    &&& forall|i: int| 0 <= i < table.tasks.len() ==> (#[trigger] table.tasks[i]).id <= table.next_id
    &&& forall|i: int, j: int|
        0 <= i < j < table.tasks.len() ==> (#[trigger] table.tasks[i]).id < (
        #[trigger] table.tasks[j]).id
}

/// Whether a task is due: not cancelled, and its deadline reached.
pub open spec fn is_due(task: TaskView, now: u128) -> bool {
    !task.cancelled && task.next_deadline <= now
}

/// Whether a due task is submitted: its policy decides.
pub open spec fn is_submitted(task: TaskView, now: u128) -> bool {
    is_due(task, now) && (task.policy == OverlapPolicy::Concurrent || task.inflight == 0)
}

/// A task after the clock reads `now`: a due one moves its deadline; when it
/// is submitted an execution is in flight; when it is not, the queue policy
/// remembers the trigger and the skip policy drops it.
pub open spec fn fired(task: TaskView, now: u128) -> TaskView {
    if !is_due(task, now) {
        task
    } else {
        let next_deadline = advanced(
            task.next_deadline as int,
            task.period as int,
            now as int,
        ) as u128;
        if is_submitted(task, now) {
            TaskView { next_deadline, inflight: (task.inflight + 1) as usize, ..task }
        } else if task.policy == OverlapPolicy::Queue {
            TaskView { next_deadline, pending: true, ..task }
        } else {
            TaskView { next_deadline, ..task }
        }
    }
}

/// The tasks after the clock reads `now`.
pub open spec fn all_fired(tasks: Seq<TaskView>, now: u128) -> Seq<TaskView> {
    Seq::new(tasks.len(), |i: int| fired(tasks[i], now))
}

/// The ids of the tasks submitted at `now`, in registration order.
pub open spec fn submitted(tasks: Seq<TaskView>, now: u128) -> Seq<u64>
    decreases tasks.len(),
{
    if tasks.len() == 0 {
        Seq::empty()
    } else {
        let earlier = submitted(tasks.drop_last(), now);
        if is_submitted(tasks.last(), now) {
            earlier.push(tasks.last().id)
        } else {
            earlier
        }
    }
}

/// The nearest deadline of the tasks that are not cancelled.
pub open spec fn nearest(tasks: Seq<TaskView>) -> Option<u128>
    decreases tasks.len(),
{
    if tasks.len() == 0 {
        None
    } else {
        let earlier = nearest(tasks.drop_last());
        let last = tasks.last();
        if last.cancelled {
            earlier
        } else {
            match earlier {
                Some(wake) if wake <= last.next_deadline => Some(wake),
                _ => Some(last.next_deadline),
            }
        }
    }
}

/// Whether another execution of every task can be counted.
pub open spec fn countable(tasks: Seq<TaskView>) -> bool {
    forall|i: int| 0 <= i < tasks.len() ==> (#[trigger] tasks[i]).inflight < usize::MAX
}

/// What a look at the clock decides.
#[derive(Debug)]
pub struct Tick {
    /// The tasks to submit now, in registration order.
    pub due: Vec<u64>,
    /// The nearest deadline, if any task is registered.
    pub next_wake: Option<u128>,
}

/// How long to wait: until the nearest deadline, or [`IDLE_WAIT`] when there
/// is none.
pub fn wait_until(next_wake: Option<u128>, now: u128) -> (wait: u128)
    ensures
        wait == (match next_wake {
            Some(deadline) => if deadline > now {
                deadline - now
            } else {
                0
            },
            None => IDLE_WAIT as int,
        }),
{
    match next_wake {
        Some(deadline) => if deadline > now {
            deadline - now
        } else {
            0
        },
        None => IDLE_WAIT,
    }
}

/// The task registered under an id.
pub open spec fn task_at(tasks: Seq<TaskView>, id: u64, i: int) -> bool {
    0 <= i < tasks.len() && tasks[i].id == id
}

/// An execution of a task ended. After a regular end the queue policy runs
/// the task once more, keeping its slot, when a trigger arrived meanwhile;
/// otherwise the slot is released. A panic releases the slot in any case.
pub open spec fn runs_again(task: TaskView, panicked: bool) -> bool {
    !panicked && task.policy == OverlapPolicy::Queue && task.pending
}

/// A task after one of its executions ended.
pub open spec fn released(task: TaskView, panicked: bool) -> TaskView {
    if runs_again(task, panicked) {
        TaskView { pending: false, ..task }
    } else if task.inflight > 0 {
        TaskView { inflight: (task.inflight - 1) as usize, ..task }
    } else {
        task
    }
}

impl Scheduler {
    /// The table is in order.
    pub closed spec fn wf(&self) -> bool {
        table_valid(self.deep_view())
    }

    /// A table that is in order is valid.
    pub proof fn wf_is_valid(&self)
        requires
            self.wf(),
        ensures
            table_valid(self.deep_view()),
    {
    }

    /// An empty table.
    pub fn new() -> (scheduler: Self)
        ensures
            scheduler.wf(),
            scheduler.deep_view() == (SchedulerView { tasks: Seq::empty(), next_id: 0 }),
    {
        let scheduler = Scheduler { tasks: Vec::new(), next_id: 0 };
        assert(scheduler.deep_view().tasks =~= Seq::<TaskView>::empty());
        scheduler
    }

    /// Registers a periodic task: it is due at once, then every period.
    pub fn schedule(&mut self, schedule: Schedule, policy: OverlapPolicy, now: u128) -> (handle:
        TaskHandle)
        requires
            old(self).wf(),
            schedule.wf(),
            now <= MAX_NANOS,
            old(self).deep_view().next_id < u64::MAX,
        ensures
            final(self).wf(),
            handle.task() == old(self).deep_view().next_id + 1,
            final(self).deep_view() == registered(
                old(self).deep_view(),
                None,
                schedule.nanos(),
                policy,
                now,
            ),
    {
        self.schedule_inner(None, schedule, policy, now)
    }

    /// Registers a named periodic task.
    pub fn schedule_named(
        &mut self,
        name: impl Text,
        schedule: Schedule,
        policy: OverlapPolicy,
        now: u128,
    ) -> (handle: TaskHandle)
        requires
            old(self).wf(),
            schedule.wf(),
            now <= MAX_NANOS,
            old(self).deep_view().next_id < u64::MAX,
        ensures
            final(self).wf(),
            handle.task() == old(self).deep_view().next_id + 1,
            final(self).deep_view() == registered(
                old(self).deep_view(),
                Some(name.text()),
                schedule.nanos(),
                policy,
                now,
            ),
    {
        self.schedule_inner(Some(name.into_text()), schedule, policy, now)
    }

    fn schedule_inner(
        &mut self,
        name: Option<String>,
        schedule: Schedule,
        policy: OverlapPolicy,
        now: u128,
    ) -> (handle: TaskHandle)
        requires
            old(self).wf(),
            schedule.wf(),
            now <= MAX_NANOS,
            old(self).deep_view().next_id < u64::MAX,
        ensures
            final(self).wf(),
            handle.task() == old(self).deep_view().next_id + 1,
            final(self).deep_view() == registered(
                old(self).deep_view(),
                name.deep_view(),
                schedule.nanos(),
                policy,
                now,
            ),
    {
        let ghost before = self.deep_view();
        self.next_id = self.next_id + 1;
        let id: u64 = self.next_id;
        self.tasks.push(
            TaskEntry {
                id,
                name,
                period: schedule.period,
                next_deadline: now,
                policy,
                inflight: 0,
                pending: false,
                cancelled: false,
            },
        );
        proof {
            let now_view = self.deep_view();
            assert(now_view.tasks =~= registered(
                before,
                name.deep_view(),
                schedule.nanos(),
                policy,
                now,
            ).tasks);
            assert forall|i: int, j: int| 0 <= i < j < now_view.tasks.len() implies (
            #[trigger] now_view.tasks[i]).id < (#[trigger] now_view.tasks[j]).id by {
                assert(now_view.tasks[i] == before.tasks[i]);
                if j < before.tasks.len() {
                    assert(now_view.tasks[j] == before.tasks[j]);
                }
            }
            assert forall|i: int| 0 <= i < now_view.tasks.len() implies task_valid(
                #[trigger] now_view.tasks[i],
            ) && now_view.tasks[i].id <= now_view.next_id by {
                if i < before.tasks.len() {
                    assert(now_view.tasks[i] == before.tasks[i]);
                }
            }
        }
        TaskHandle { id }
    }

    /// The timing decision: moves the deadlines of all due tasks and returns
    /// which to submit and when to wake up next.
    pub fn tick(&mut self, now: u128) -> (tick: Tick)
        requires
            old(self).wf(),
            now <= MAX_NANOS,
            countable(old(self).deep_view().tasks),
        ensures
            final(self).wf(),
            final(self).deep_view() == (SchedulerView {
                tasks: all_fired(old(self).deep_view().tasks, now),
                ..old(self).deep_view()
            }),
            tick.due@ == submitted(old(self).deep_view().tasks, now),
            tick.next_wake == nearest(final(self).deep_view().tasks),
            tick.next_wake matches Some(wake) ==> now < wake,
            forall|i: int|
                0 <= i < final(self).deep_view().tasks.len() && !(
                #[trigger] final(self).deep_view().tasks[i]).cancelled ==> tick.next_wake is Some
                    && tick.next_wake->0 <= final(self).deep_view().tasks[i].next_deadline,
            tick.next_wake matches Some(wake) ==> exists|i: int|
                0 <= i < final(self).deep_view().tasks.len() && !(
                #[trigger] final(self).deep_view().tasks[i]).cancelled
                    && final(self).deep_view().tasks[i].next_deadline == wake,
    {
        let ghost before = self.deep_view();
        let ghost goal = all_fired(before.tasks, now);
        let mut due: Vec<u64> = Vec::new();
        let mut next_wake: Option<u128> = None;
        let mut i: usize = 0;
        while i < self.tasks.len()
            invariant
                i <= self.tasks@.len(),
                self.tasks@.len() == before.tasks.len(),
                self.next_id == before.next_id,
                table_valid(before),
                countable(before.tasks),
                now <= MAX_NANOS,
                goal == all_fired(before.tasks, now),
                forall|k: int| 0 <= k < i ==> (#[trigger] self.tasks@[k]).deep_view() == goal[k],
                forall|k: int|
                    i <= k < before.tasks.len() ==> (#[trigger] self.tasks@[k]).deep_view()
                        == before.tasks[k],
                due@ == submitted(before.tasks.take(i as int), now),
                next_wake == nearest(goal.take(i as int)),
            decreases self.tasks@.len() - i,
        {
            let ghost task = before.tasks[i as int];
            assert(self.tasks@[i as int].deep_view() == task);
            assert(task_valid(task));
            assert(before.tasks.take(i + 1).drop_last() =~= before.tasks.take(i as int));
            assert(before.tasks.take(i + 1).last() == task);
            assert(goal.take(i + 1).drop_last() =~= goal.take(i as int));
            assert(goal.take(i + 1).last() == goal[i as int]);
            if !self.tasks[i].cancelled {
                if self.tasks[i].next_deadline <= now {
                    let next_deadline: u128 = advance(
                        self.tasks[i].next_deadline,
                        self.tasks[i].period,
                        now,
                    );
                    let submit = match self.tasks[i].policy {
                        OverlapPolicy::Concurrent => true,
                        _ => self.tasks[i].inflight == 0,
                    };
                    let entry = &mut self.tasks[i];
                    entry.next_deadline = next_deadline;
                    if submit {
                        entry.inflight = entry.inflight + 1;
                        due.push(entry.id);
                    } else if entry.policy == OverlapPolicy::Queue {
                        entry.pending = true;
                    }
                }
                let deadline: u128 = self.tasks[i].next_deadline;
                next_wake = match next_wake {
                    Some(wake) => if wake <= deadline {
                        Some(wake)
                    } else {
                        Some(deadline)
                    },
                    None => Some(deadline),
                };
            }
            assert(self.tasks@[i as int].deep_view() == goal[i as int]);
            i += 1;
        }
        proof {
            assert(before.tasks.take(i as int) =~= before.tasks);
            assert(goal.take(i as int) =~= goal);
            assert(self.deep_view().tasks =~= goal);
            firing_keeps_valid(before, now);
            the_wake_up_is_the_least_deadline(goal);
            if goal.len() > 0 {
                nothing_is_due_before_the_wake_up(before, now, now, 0);
            }
        }
        Tick { due, next_wake }
    }
}

/// The table with one more task, due at once.
pub open spec fn registered(
    table: SchedulerView,
    name: Option<Seq<char>>,
    period: u128,
    policy: OverlapPolicy,
    now: u128,
) -> SchedulerView {
    let id = (table.next_id + 1) as u64;
    SchedulerView {
        tasks: table.tasks.push(
            TaskView {
                id,
                name,
                period,
                next_deadline: now,
                policy,
                inflight: 0,
                pending: false,
                cancelled: false,
            },
        ),
        next_id: id,
    }
}

/// Looking at the clock keeps the table valid: in particular the skip and
/// queue policies never let executions of a task overlap.
pub proof fn firing_keeps_valid(table: SchedulerView, now: u128)
    requires
        table_valid(table),
        countable(table.tasks),
        now <= MAX_NANOS,
    ensures
        table_valid(SchedulerView { tasks: all_fired(table.tasks, now), ..table }),
{
    let after = SchedulerView { tasks: all_fired(table.tasks, now), ..table };
    assert forall|i: int| 0 <= i < after.tasks.len() implies task_valid(
        #[trigger] after.tasks[i],
    ) by {
        let task = table.tasks[i];
        assert(task_valid(task));
        if is_due(task, now) {
            advanced_stays_in_range(
                task.next_deadline as int,
                task.period as int,
                now as int,
            );
        }
    }
    assert forall|i: int, j: int| 0 <= i < j < after.tasks.len() implies (
    #[trigger] after.tasks[i]).id < (#[trigger] after.tasks[j]).id by {
        assert(table.tasks[i].id < table.tasks[j].id);
    }
    assert forall|i: int| 0 <= i < after.tasks.len() implies (#[trigger] after.tasks[i]).id
        <= after.next_id by {
        assert(table.tasks[i].id <= table.next_id);
    }
}

proof fn advanced_stays_in_range(deadline: int, period: int, now: int)
    requires
        0 <= deadline <= now <= MAX_NANOS,
        0 < period <= MAX_NANOS,
    ensures
        0 <= advanced(deadline, period, now) <= 2 * MAX_NANOS,
{
    advance_lands_just_past_now(deadline, period, now);
}

/// A task after its future triggers were cancelled.
pub open spec fn cancelled(task: TaskView) -> TaskView {
    TaskView { cancelled: true, ..task }
}

/// Whether nothing is left of a task: it is cancelled and no execution is in
/// flight.
pub open spec fn is_gone(task: TaskView) -> bool {
    task.cancelled && task.inflight == 0
}

/// The tasks with the one at `i` changed; a task of which nothing is left
/// leaves the table.
pub open spec fn replaced(tasks: Seq<TaskView>, i: int, task: TaskView) -> Seq<TaskView> {
    if is_gone(task) {
        tasks.remove(i)
    } else {
        tasks.update(i, task)
    }
}

/// The snapshot of one task.
pub open spec fn info_of(task: TaskView, now: u128) -> TaskInfoView {
    TaskInfoView {
        id: task.id,
        name: task.name,
        period: task.period,
        policy: task.policy,
        next_in: if task.next_deadline > now {
            (task.next_deadline - now) as u128
        } else {
            0
        },
        running: task.inflight > 0,
    }
}

/// The snapshot of the registered tasks: all that are not cancelled, in
/// registration order.
pub open spec fn infos_of(tasks: Seq<TaskView>, now: u128) -> Seq<TaskInfoView>
    decreases tasks.len(),
{
    if tasks.len() == 0 {
        Seq::empty()
    } else {
        let earlier = infos_of(tasks.drop_last(), now);
        if tasks.last().cancelled {
            earlier
        } else {
            earlier.push(info_of(tasks.last(), now))
        }
    }
}

impl Scheduler {
    fn find(&self, id: u64) -> (found: Option<usize>)
        ensures
            match found {
                Some(i) => task_at(self.deep_view().tasks, id, i as int),
                None => forall|i: int| !task_at(self.deep_view().tasks, id, i),
            },
    {
        let ghost tasks = self.deep_view().tasks;
        let mut i: usize = 0;
        while i < self.tasks.len()
            invariant
                i <= self.tasks@.len(),
                tasks == self.deep_view().tasks,
                forall|k: int| 0 <= k < i ==> !task_at(tasks, id, k),
            decreases self.tasks@.len() - i,
        {
            assert(tasks[i as int] == self.tasks@[i as int].deep_view());
            if self.tasks[i].id == id {
                return Some(i);
            }
            i += 1;
        }
        None
    }

    /// Puts a changed task in its place, or takes it out when it is gone.
    fn put_back(&mut self, i: usize, entry: TaskEntry)
        requires
            old(self).wf(),
            i < old(self).deep_view().tasks.len(),
            entry.deep_view().id == old(self).deep_view().tasks[i as int].id,
            task_valid(entry.deep_view()),
        ensures
            final(self).wf(),
            final(self).deep_view() == (SchedulerView {
                tasks: replaced(old(self).deep_view().tasks, i as int, entry.deep_view()),
                ..old(self).deep_view()
            }),
    {
        let ghost before = self.deep_view();
        if entry.cancelled && entry.inflight == 0 {
            self.tasks.remove(i);
            proof {
                assert(self.deep_view().tasks =~= before.tasks.remove(i as int));
                removing_keeps_valid(before, i as int);
            }
        } else {
            self.tasks.set(i, entry);
            proof {
                assert(self.deep_view().tasks =~= before.tasks.update(
                    i as int,
                    entry.deep_view(),
                ));
                updating_keeps_valid(before, i as int, entry.deep_view());
            }
        }
    }

    fn copy_entry(&self, i: usize) -> (entry: TaskEntry)
        requires
            i < self.deep_view().tasks.len(),
        ensures
            entry.deep_view() == self.deep_view().tasks[i as int],
    {
        let task = &self.tasks[i];
        TaskEntry {
            id: task.id,
            name: task.name.clone(),
            period: task.period,
            next_deadline: task.next_deadline,
            policy: task.policy,
            inflight: task.inflight,
            pending: task.pending,
            cancelled: task.cancelled,
        }
    }

    /// Cancels future triggers of a task (executions in flight are not
    /// stopped). Cancelling an unknown task changes nothing.
    pub fn cancel(&mut self, handle: TaskHandle)
        requires
            old(self).wf(),
        ensures
            final(self).wf(),
            forall|i: int| #[trigger]
                task_at(old(self).deep_view().tasks, handle.task(), i) ==> final(self).deep_view()
                    == (SchedulerView {
                    tasks: replaced(
                        old(self).deep_view().tasks,
                        i,
                        cancelled(old(self).deep_view().tasks[i]),
                    ),
                    ..old(self).deep_view()
                }),
            (forall|i: int| !#[trigger] task_at(old(self).deep_view().tasks, handle.task(), i))
                ==> final(self).deep_view() == old(self).deep_view(),
    {
        let ghost before = self.deep_view();
        if let Some(i) = self.find(handle.id) {
            proof {
                assert(task_valid(before.tasks[i as int]));
                ids_are_unique(before, handle.task(), i as int);
            }
            let mut entry = self.copy_entry(i);
            entry.cancelled = true;
            self.put_back(i, entry);
        }
    }

    /// Takes note that an execution of a task ended, and returns whether it
    /// is to run once more in the same slot. An unknown task never does.
    pub fn finished(&mut self, id: u64, panicked: bool) -> (again: bool)
        requires
            old(self).wf(),
        ensures
            final(self).wf(),
            forall|i: int| #[trigger]
                task_at(old(self).deep_view().tasks, id, i) ==> final(self).deep_view() == (
                SchedulerView {
                    tasks: replaced(
                        old(self).deep_view().tasks,
                        i,
                        released(old(self).deep_view().tasks[i], panicked),
                    ),
                    ..old(self).deep_view()
                }) && again == runs_again(old(self).deep_view().tasks[i], panicked),
            (forall|i: int| !#[trigger] task_at(old(self).deep_view().tasks, id, i)) ==> !again
                && final(self).deep_view() == old(self).deep_view(),
    {
        let ghost before = self.deep_view();
        match self.find(id) {
            Some(i) => {
                proof {
                    assert(task_valid(before.tasks[i as int]));
                    ids_are_unique(before, id, i as int);
                }
                let mut entry = self.copy_entry(i);
                let again = !panicked && entry.policy == OverlapPolicy::Queue && entry.pending;
                if again {
                    entry.pending = false;
                } else if entry.inflight > 0 {
                    entry.inflight = entry.inflight - 1;
                }
                self.put_back(i, entry);
                again
            },
            None => false,
        }
    }

    /// A read-only snapshot of the registered tasks.
    pub fn tasks(&self, now: u128) -> (infos: Vec<TaskInfo>)
        ensures
            infos.deep_view() == infos_of(self.deep_view().tasks, now),
    {
        let ghost all = self.deep_view().tasks;
        let mut infos: Vec<TaskInfo> = Vec::new();
        let mut i: usize = 0;
        assert(infos.deep_view() =~= infos_of(all.take(0), now));
        while i < self.tasks.len()
            invariant
                i <= self.tasks@.len(),
                all == self.deep_view().tasks,
                infos.deep_view() == infos_of(all.take(i as int), now),
            decreases self.tasks@.len() - i,
        {
            let ghost before = infos.deep_view();
            let task = &self.tasks[i];
            assert(all[i as int] == task.deep_view());
            assert(all.take(i + 1).drop_last() =~= all.take(i as int));
            assert(all.take(i + 1).last() == all[i as int]);
            if !task.cancelled {
                let next_in: u128 = if task.next_deadline > now {
                    task.next_deadline - now
                } else {
                    0
                };
                let info = TaskInfo {
                    id: task.id,
                    name: task.name.clone(),
                    schedule: Schedule { period: task.period },
                    policy: task.policy,
                    next_in,
                    running: task.inflight > 0,
                };
                infos.push(info);
                assert(infos.deep_view() =~= before.push(info.deep_view()));
            }
            i += 1;
        }
        assert(all.take(i as int) =~= all);
        infos
    }

    /// Whether another execution of every task can be counted, as
    /// [`Scheduler::tick`] needs.
    pub fn is_countable(&self) -> (can: bool)
        ensures
            can == countable(self.deep_view().tasks),
    {
        let ghost all = self.deep_view().tasks;
        let mut i: usize = 0;
        while i < self.tasks.len()
            invariant
                i <= self.tasks@.len(),
                all == self.deep_view().tasks,
                forall|k: int| 0 <= k < i ==> (#[trigger] all[k]).inflight < usize::MAX,
            decreases self.tasks@.len() - i,
        {
            assert(all[i as int] == self.tasks@[i as int].deep_view());
            if self.tasks[i].inflight == usize::MAX {
                return false;
            }
            i += 1;
        }
        true
    }
}

proof fn ids_are_unique(table: SchedulerView, id: u64, at: int)
    requires
        table_valid(table),
        task_at(table.tasks, id, at),
    ensures
        forall|i: int| #[trigger] task_at(table.tasks, id, i) ==> i == at,
{
    assert forall|i: int| #[trigger] task_at(table.tasks, id, i) implies i == at by {
        if i < at {
            assert(table.tasks[i].id < table.tasks[at].id);
        } else if at < i {
            assert(table.tasks[at].id < table.tasks[i].id);
        }
    }
}

/// Taking a task out keeps the table valid.
proof fn removing_keeps_valid(table: SchedulerView, at: int)
    requires
        table_valid(table),
        0 <= at < table.tasks.len(),
    ensures
        table_valid(SchedulerView { tasks: table.tasks.remove(at), ..table }),
{
    let after = SchedulerView { tasks: table.tasks.remove(at), ..table };
    assert forall|i: int, j: int| 0 <= i < j < after.tasks.len() implies (
    #[trigger] after.tasks[i]).id < (#[trigger] after.tasks[j]).id by {
        let p = if i < at {
            i
        } else {
            i + 1
        };
        let q = if j < at {
            j
        } else {
            j + 1
        };
        assert(table.tasks[p].id < table.tasks[q].id);
    }
    assert forall|i: int| 0 <= i < after.tasks.len() implies task_valid(#[trigger] after.tasks[i])
        && after.tasks[i].id <= after.next_id by {
        let p = if i < at {
            i
        } else {
            i + 1
        };
        assert(task_valid(table.tasks[p]));
        assert(table.tasks[p].id <= table.next_id);
    }
}

/// Replacing a task by a valid one of the same id keeps the table valid.
proof fn updating_keeps_valid(table: SchedulerView, at: int, task: TaskView)
    requires
        table_valid(table),
        0 <= at < table.tasks.len(),
        task.id == table.tasks[at].id,
        task_valid(task),
    ensures
        table_valid(SchedulerView { tasks: table.tasks.update(at, task), ..table }),
{
    let after = SchedulerView { tasks: table.tasks.update(at, task), ..table };
    assert forall|i: int, j: int| 0 <= i < j < after.tasks.len() implies (
    #[trigger] after.tasks[i]).id < (#[trigger] after.tasks[j]).id by {
        assert(table.tasks[i].id < table.tasks[j].id);
    }
    assert forall|i: int| 0 <= i < after.tasks.len() implies task_valid(#[trigger] after.tasks[i])
        && after.tasks[i].id <= after.next_id by {
        assert(task_valid(table.tasks[i]));
        assert(table.tasks[i].id <= table.next_id);
    }
}

/// Registration triggers immediately once: looking at the clock right after
/// submits the new task, whatever its policy, and not a second time until
/// its period has passed.
pub proof fn registration_fires_at_once(
    table: SchedulerView,
    name: Option<Seq<char>>,
    period: u128,
    policy: OverlapPolicy,
    now: u128,
    later: u128,
)
    requires
        table_valid(table),
        0 < period <= MAX_NANOS,
        now <= later < now + period,
        now <= MAX_NANOS,
    ensures
        ({
            let tasks = registered(table, name, period, policy, now).tasks;
            let id = registered(table, name, period, policy, now).next_id;
            &&& submitted(tasks, now) == submitted(table.tasks, now).push(id)
            &&& all_fired(tasks, now).last().next_deadline == now + period
            &&& !is_due(all_fired(tasks, now).last(), later)
        }),
{
    let tasks = registered(table, name, period, policy, now).tasks;
    assert(tasks.drop_last() =~= table.tasks);
    assert(period as int * 1 == period as int);
    assert((now - now) / period as int == 0) by (nonlinear_arith)
        requires
            period > 0,
    ;
}

/// A cancelled task is never submitted again.
pub proof fn cancelled_tasks_never_fire(task: TaskView, now: u128)
    ensures
        !is_submitted(cancelled(task), now),
        fired(cancelled(task), now) == cancelled(task),
{
}

/// A task after the clock was looked at so many times.
pub open spec fn fired_over(task: TaskView, readings: Seq<u128>) -> TaskView
    decreases readings.len(),
{
    if readings.len() == 0 {
        task
    } else {
        fired(fired_over(task, readings.drop_last()), readings.last())
    }
}

/// Whether any of the readings triggers a task.
pub open spec fn triggered_over(task: TaskView, readings: Seq<u128>) -> bool
    decreases readings.len(),
{
    readings.len() > 0 && (triggered_over(task, readings.drop_last()) || is_due(
        fired_over(task, readings.drop_last()),
        readings.last(),
    ))
}

/// Whether any of the readings submits a task.
pub open spec fn submitted_over(task: TaskView, readings: Seq<u128>) -> bool
    decreases readings.len(),
{
    readings.len() > 0 && (submitted_over(task, readings.drop_last()) || is_submitted(
        fired_over(task, readings.drop_last()),
        readings.last(),
    ))
}

/// Missed triggers of a queued task merge into one catch-up run: whenever
/// the clock is looked at during an execution, and however often, nothing is
/// submitted, and what is remembered is whether any trigger came. If one
/// did, the task runs once more in its slot, with nothing remembered;
/// otherwise the slot is released.
pub proof fn queued_triggers_merge(task: TaskView, readings: Seq<u128>)
    requires
        task_valid(task),
        task.policy == OverlapPolicy::Queue,
        task.inflight == 1,
    ensures
        ({
            let end = fired_over(task, readings);
            &&& !submitted_over(task, readings)
            &&& end.policy == OverlapPolicy::Queue
            &&& end.inflight == 1
            &&& end.pending == (task.pending || triggered_over(task, readings))
            &&& runs_again(end, false) == end.pending
            &&& released(end, false).inflight == (if end.pending {
                1usize
            } else {
                0usize
            })
            &&& !released(end, false).pending
            &&& !runs_again(released(end, false), false)
        }),
    decreases readings.len(),
{
    if readings.len() > 0 {
        queued_triggers_merge(task, readings.drop_last());
    }
}

/// A trigger that finds a skipping task running is dropped: nothing is
/// submitted and nothing is remembered.
pub proof fn skipped_triggers_are_dropped(task: TaskView, now: u128)
    requires
        task.policy == OverlapPolicy::Skip,
        task.inflight > 0,
    ensures
        !is_submitted(task, now),
        fired(task, now).inflight == task.inflight,
        fired(task, now).pending == task.pending,
{
}

/// The next wake-up is the least deadline: there is none exactly when every
/// task is cancelled; otherwise it is the deadline of a task that is not
/// cancelled, and none of those comes before it.
pub proof fn the_wake_up_is_the_least_deadline(tasks: Seq<TaskView>)
    ensures
        nearest(tasks) is None <==> forall|i: int|
            0 <= i < tasks.len() ==> (#[trigger] tasks[i]).cancelled,
        nearest(tasks) matches Some(wake) ==> {
            &&& exists|i: int|
                0 <= i < tasks.len() && !(#[trigger] tasks[i]).cancelled && tasks[i].next_deadline
                    == wake
            &&& forall|i: int|
                0 <= i < tasks.len() && !(#[trigger] tasks[i]).cancelled ==> wake
                    <= tasks[i].next_deadline
        },
    decreases tasks.len(),
{
    if tasks.len() > 0 {
        let earlier = tasks.drop_last();
        the_wake_up_is_the_least_deadline(earlier);
        let last = tasks.len() - 1;
        assert(tasks[last] == tasks.last());
        assert forall|i: int| 0 <= i < earlier.len() implies #[trigger] earlier[i] == tasks[i] by {}
        assert forall|i: int| 0 <= i < last implies #[trigger] tasks[i] == earlier[i] by {}
        if let Some(wake) = nearest(earlier) {
            let i = choose|i: int|
                0 <= i < earlier.len() && !(#[trigger] earlier[i]).cancelled
                    && earlier[i].next_deadline == wake;
            assert(!tasks[i].cancelled && tasks[i].next_deadline == wake);
        }
        if !tasks.last().cancelled {
            assert(!tasks[last].cancelled);
        } else if forall|i: int| 0 <= i < earlier.len() ==> (#[trigger] earlier[i]).cancelled {
            assert forall|i: int| 0 <= i < tasks.len() implies (#[trigger] tasks[i]).cancelled by {
                if i < last {
                    assert(earlier[i].cancelled);
                }
            }
        } else {
            let i = choose|i: int| 0 <= i < earlier.len() && !(#[trigger] earlier[i]).cancelled;
            assert(!tasks[i].cancelled);
        }
    }
}

/// What a trigger does to one task. A cancelled task and one whose deadline
/// is ahead are left alone. A due deadline moves just past the reading, by
/// whole periods. A due task starts one more execution when its policy lets
/// executions overlap or none is running; otherwise nothing starts, and only
/// the queue policy remembers the trigger.
pub proof fn triggers_follow_the_policy(task: TaskView, now: u128)
    requires
        task_valid(task),
        task.inflight < usize::MAX,
        now <= MAX_NANOS,
    ensures
        task.cancelled || task.next_deadline > now ==> fired(task, now) == task && !is_submitted(
            task,
            now,
        ),
        !task.cancelled && task.next_deadline <= now ==> {
            let next = fired(task, now);
            let free = task.policy == OverlapPolicy::Concurrent || task.inflight == 0;
            &&& now < next.next_deadline <= now + task.period
            &&& (next.next_deadline - task.next_deadline) % task.period as int == 0
            &&& is_submitted(task, now) == free
            &&& next.inflight == task.inflight + (if free {
                1int
            } else {
                0int
            })
            &&& next.pending == (task.pending || (!free && task.policy == OverlapPolicy::Queue))
            &&& next.id == task.id && next.name == task.name && next.period == task.period
            &&& next.policy == task.policy && !next.cancelled
        },
{
    if task.next_deadline <= now {
        advance_lands_just_past_now(
            task.next_deadline as int,
            task.period as int,
            now as int,
        );
        advanced_stays_in_range(
            task.next_deadline as int,
            task.period as int,
            now as int,
        );
    }
}

/// A look at the clock submits each task that is to start, once and in
/// registration order, and no other.
pub proof fn submissions_join(
    tasks: Seq<TaskView>,
    more: Seq<TaskView>,
    task: TaskView,
    now: u128,
)
    ensures
        submitted(tasks + more, now) == submitted(tasks, now) + submitted(more, now),
        submitted(seq![task], now) == (if !task.cancelled && task.next_deadline <= now && (
        task.policy == OverlapPolicy::Concurrent || task.inflight == 0) {
            seq![task.id]
        } else {
            Seq::empty()
        }),
    decreases more.len(),
{
    reveal_with_fuel(submitted, 2);
    assert(seq![task].drop_last() =~= Seq::<TaskView>::empty());
    assert(Seq::<u64>::empty().push(task.id) =~= seq![task.id]);
    if more.len() == 0 {
        assert(tasks + more =~= tasks);
        assert(submitted(tasks, now) + submitted(more, now) =~= submitted(tasks, now));
    } else {
        submissions_join(tasks, more.drop_last(), task, now);
        assert((tasks + more).drop_last() =~= tasks + more.drop_last());
        assert((tasks + more).last() == more.last());
        assert(submitted(tasks + more, now) =~= submitted(tasks, now) + submitted(more, now));
    }
}

/// Nothing is missed by sleeping until the next wake-up: after a look at the
/// clock it lies ahead, no task becomes due strictly before it, and without
/// one no task becomes due at all.
pub proof fn nothing_is_due_before_the_wake_up(
    table: SchedulerView,
    now: u128,
    later: u128,
    i: int,
)
    requires
        table_valid(table),
        countable(table.tasks),
        now <= MAX_NANOS,
        0 <= i < table.tasks.len(),
    ensures
        ({
            let tasks = all_fired(table.tasks, now);
            &&& nearest(tasks) matches Some(wake) ==> now < wake && (later < wake ==> !is_due(
                tasks[i],
                later,
            ))
            &&& nearest(tasks) is None ==> !is_due(tasks[i], later)
        }),
{
    let tasks = all_fired(table.tasks, now);
    the_wake_up_is_the_least_deadline(tasks);
    assert(tasks[i] == fired(table.tasks[i], now));
    if let Some(wake) = nearest(tasks) {
        let k = choose|k: int|
            0 <= k < tasks.len() && !(#[trigger] tasks[k]).cancelled && tasks[k].next_deadline
                == wake;
        assert(task_valid(table.tasks[k]));
        triggers_follow_the_policy(table.tasks[k], now);
    }
}

/// An execution that ends gives its slot back, unless the task runs once
/// more in it: that is so exactly when a trigger was remembered and the
/// execution did not panic, and the remembered trigger is used up by it.
pub proof fn ended_executions_free_their_slot(task: TaskView, panicked: bool)
    requires
        task_valid(task),
        task.inflight > 0,
    ensures
        runs_again(task, panicked) == (task.pending && !panicked),
        released(task, panicked).inflight + (if task.pending && !panicked {
            0int
        } else {
            1int
        }) == task.inflight,
        released(task, panicked).pending == (task.pending && panicked),
        released(task, panicked) == (TaskView {
            inflight: released(task, panicked).inflight,
            pending: released(task, panicked).pending,
            ..task
        }),
{
}

/// Changing one task leaves every other where it was: the changed one stays
/// in its place, and only one that is cancelled with nothing running leaves.
pub proof fn other_tasks_are_untouched(tasks: Seq<TaskView>, i: int, task: TaskView)
    requires
        0 <= i < tasks.len(),
    ensures
        replaced(tasks, i, task) == tasks.take(i) + (if task.cancelled && task.inflight == 0 {
            Seq::empty()
        } else {
            seq![task]
        }) + tasks.skip(i + 1),
{
    assert(replaced(tasks, i, task) =~= tasks.take(i) + (if task.cancelled && task.inflight == 0 {
        Seq::empty()
    } else {
        seq![task]
    }) + tasks.skip(i + 1));
}

/// The snapshot shows every task that is not cancelled, in registration
/// order, with the time left until its deadline and whether it runs.
pub proof fn snapshots_join(
    tasks: Seq<TaskView>,
    more: Seq<TaskView>,
    task: TaskView,
    now: u128,
)
    ensures
        infos_of(tasks + more, now) == infos_of(tasks, now) + infos_of(more, now),
        task.cancelled ==> infos_of(seq![task], now) == Seq::<TaskInfoView>::empty(),
        !task.cancelled ==> {
            let infos = infos_of(seq![task], now);
            &&& infos.len() == 1
            &&& infos[0].id == task.id && infos[0].name == task.name
            &&& infos[0].period == task.period && infos[0].policy == task.policy
            &&& infos[0].running == (task.inflight != 0)
            &&& task.next_deadline >= now ==> now + infos[0].next_in == task.next_deadline
            &&& task.next_deadline < now ==> infos[0].next_in == 0
        },
    decreases more.len(),
{
    reveal_with_fuel(infos_of, 2);
    assert(seq![task].drop_last() =~= Seq::<TaskView>::empty());
    if more.len() == 0 {
        assert(tasks + more =~= tasks);
        assert(infos_of(tasks, now) + infos_of(more, now) =~= infos_of(tasks, now));
    } else {
        snapshots_join(tasks, more.drop_last(), task, now);
        assert((tasks + more).drop_last() =~= tasks + more.drop_last());
        assert((tasks + more).last() == more.last());
        assert(infos_of(tasks + more, now) =~= infos_of(tasks, now) + infos_of(more, now));
    }
}

/// Registering adds one task behind the others, as it was asked for and
/// under an id that no task has, and leaves the others alone; cancelling
/// changes nothing of a task but that it is cancelled.
pub proof fn registration_keeps_what_was_asked(
    table: SchedulerView,
    name: Option<Seq<char>>,
    period: u128,
    policy: OverlapPolicy,
    now: u128,
    i: int,
)
    requires
        table_valid(table),
        table.next_id < u64::MAX,
    ensures
        ({
            let after = registered(table, name, period, policy, now);
            let task = after.tasks.last();
            &&& after.tasks.len() == table.tasks.len() + 1
            &&& after.tasks.drop_last() == table.tasks
            &&& 0 <= i < table.tasks.len() ==> table.tasks[i].id != task.id
            &&& task.id == after.next_id
            &&& task.name == name && task.period == period && task.policy == policy
            &&& task.next_deadline == now
            &&& task.inflight == 0 && !task.pending && !task.cancelled
            &&& cancelled(task) == (TaskView { cancelled: true, ..task })
        }),
        0 <= i < table.tasks.len() ==> {
            let task = table.tasks[i];
            &&& cancelled(task).cancelled
            &&& cancelled(task).id == task.id && cancelled(task).inflight == task.inflight
            &&& cancelled(task).pending == task.pending
        },
{
    let after = registered(table, name, period, policy, now);
    assert(after.tasks.drop_last() =~= table.tasks);
    if 0 <= i < table.tasks.len() {
        assert(table.tasks[i].id <= table.next_id);
    }
}

} // verus!
