//! What holds of the work queue over any course of operations.
use crate::model;
use crate::model::{Metrics, QueueModel, StateModel, WorkerHealthData};
use crate::task;
use crate::task::{Priority, RunResult, Task, TaskId, TaskPayload};
use std::time::Instant;
use vstd::prelude::*;

verus! {

/// Something that is done to the queue.
pub enum Operation {
    /// A task is submitted.
    Submit(Task),
    /// A task is cancelled.
    CancelTask(TaskId),
    /// The queue is shut down.
    Shutdown,
    /// A worker starts.
    StartWorker(usize, Instant),
    /// A worker asks what to do next.
    NextAction(usize),
    /// A worker takes up a task.
    BeginTask(usize, Instant),
    /// A worker reports that it dropped a cancelled task.
    FinishCancelled(TaskId),
    /// A worker reports what came of a task.
    FinishTask(Task, usize, RunResult),
}

/// The operation can be done to the queue: a submitted task is new, and no number
/// grows beyond what the machine can hold.
pub open spec fn possible(queue: QueueModel, op: Operation) -> bool {
    match op {
        Operation::Submit(task) => {
            &&& task.id == queue.next_task_id
            &&& task.metadata.retry_count == 0
            &&& queue.state.queued() < usize::MAX
        },
        Operation::FinishTask(task, worker_id, result) => {
            if task::failure_message(result) is None {
                queue.state.can_count(worker_id)
            } else {
                &&& queue.state.can_fail(task)
                &&& queue.state.dead_letters.len() < u64::MAX
            }
        },
        _ => true,
    }
}

/// The queue after one operation.
pub open spec fn after(queue: QueueModel, op: Operation) -> QueueModel {
    let state = queue.state;
    match op {
        Operation::Submit(task) => queue.submitted(task),
        Operation::CancelTask(id) => QueueModel { state: state.marked_cancelled(id), ..queue },
        Operation::Shutdown => QueueModel { state: state.shut_down(), ..queue },
        Operation::StartWorker(worker_id, now) => QueueModel {
            state: state.worker_joined(worker_id, now),
            ..queue
        },
        Operation::NextAction(worker_id) => QueueModel {
            state: state.asked(worker_id),
            ..queue
        },
        Operation::BeginTask(worker_id, now) => QueueModel {
            state: state.heartbeat(worker_id, now),
            ..queue
        },
        Operation::FinishCancelled(id) => QueueModel { state: state.task_cancelled(id), ..queue },
        Operation::FinishTask(task, worker_id, result) => QueueModel {
            state: state.task_finished(task, worker_id, result),
            ..queue
        },
    }
}

/// The queue after a course of operations.
pub open spec fn run(queue: QueueModel, ops: Seq<Operation>) -> QueueModel
    decreases ops.len(),
{
    if ops.len() == 0 {
        queue
    } else {
        after(run(queue, ops.drop_last()), ops.last())
    }
}

/// Every operation of the course can be done when its turn comes.
pub open spec fn all_possible(queue: QueueModel, ops: Seq<Operation>) -> bool
    decreases ops.len(),
{
    ops.len() > 0 ==> {
        &&& all_possible(queue, ops.drop_last())
        &&& possible(run(queue, ops.drop_last()), ops.last())
    }
}

/// The tasks that one operation submits.
pub open spec fn submitted_by(op: Operation) -> Seq<Task> {
    match op {
        Operation::Submit(task) => seq![task],
        _ => Seq::empty(),
    }
}

/// The tasks that one operation puts back to be tried again, as they then wait.
pub open spec fn retried_by(op: Operation) -> Seq<Task> {
    match op {
        Operation::FinishTask(task, _, result) => if task::failure_message(result) is Some
            && task.has_retries_left() {
            seq![task.retried()]
        } else {
            Seq::empty()
        },
        _ => Seq::empty(),
    }
}

/// The tasks that one operation hands to a worker.
pub open spec fn handed_by(queue: QueueModel, op: Operation) -> Seq<Task> {
    match (op, queue.state.front()) {
        (Operation::NextAction(_), Some(task)) => seq![task],
        _ => Seq::empty(),
    }
}

/// The tasks that a course of operations submits, in order.
pub open spec fn submissions(ops: Seq<Operation>) -> Seq<Task>
    decreases ops.len(),
{
    if ops.len() == 0 {
        Seq::empty()
    } else {
        submissions(ops.drop_last()) + submitted_by(ops.last())
    }
}

/// How many tasks a course of operations puts back to be tried again.
pub open spec fn retries(ops: Seq<Operation>) -> nat
    decreases ops.len(),
{
    if ops.len() == 0 {
        0
    } else {
        retries(ops.drop_last()) + retried_by(ops.last()).len()
    }
}

/// The tasks that come to wait in a course of operations, in order: those that are
/// submitted and those that are put back to be tried again.
pub open spec fn arrivals(ops: Seq<Operation>) -> Seq<Task>
    decreases ops.len(),
{
    if ops.len() == 0 {
        Seq::empty()
    } else {
        arrivals(ops.drop_last()) + submitted_by(ops.last()) + retried_by(ops.last())
    }
}

/// The tasks that a course of operations hands to workers, in order.
pub open spec fn handed_out(queue: QueueModel, ops: Seq<Operation>) -> Seq<Task>
    decreases ops.len(),
{
    if ops.len() == 0 {
        Seq::empty()
    } else {
        handed_out(queue, ops.drop_last()) + handed_by(run(queue, ops.drop_last()), ops.last())
    }
}

/// One report, where the operation is one.
pub open spec fn report_of(op: Operation) -> nat {
    if op is FinishCancelled || op is FinishTask {
        1
    } else {
        0
    }
}

/// How many reports a course of operations makes, of tasks that were dropped, were
/// completed or failed.
pub open spec fn reports(ops: Seq<Operation>) -> nat
    decreases ops.len(),
{
    if ops.len() == 0 {
        0
    } else {
        reports(ops.drop_last()) + report_of(ops.last())
    }
}

/// The next task is the first of the schedule, and taking it out leaves the rest
/// of the schedule as it was.
pub proof fn law_next_task_heads_the_schedule(state: StateModel)
    requires
        state.wf(),
    ensures
        state.front() is Some <==> state.schedule().len() > 0,
        state.front() matches Some(task) ==> {
            &&& task == state.schedule()[0]
            &&& state.popped().schedule() == state.schedule().drop_first()
            &&& state.popped().wf()
        },
        state.schedule().len() == state.queued(),
{
}

/// In the schedule no task comes before one of a higher priority.
pub proof fn law_higher_priority_comes_first(state: StateModel)
    requires
        state.wf(),
    ensures
        forall|i: int, j: int|
            #![trigger state.schedule()[i], state.schedule()[j]]
            0 <= i < j < state.schedule().len() ==> state.schedule()[i].priority.level()
                <= state.schedule()[j].priority.level(),
{
    let (high, medium) = (state.queues[0].len(), state.queues[1].len());
    assert forall|i: int| 0 <= i < state.schedule().len() implies (
    #[trigger] state.schedule()[i]).priority.level() == (if i < high {
        0int
    } else if i < high + medium {
        1
    } else {
        2
    }) by {
        if i >= high + medium {
            assert(state.schedule()[i] == state.queues[2][i - high - medium]);
        }
    }
}

/// How many waiting tasks have a given priority or a higher one.
pub open spec fn ahead_of_new(state: StateModel, priority: Priority) -> int {
    match priority {
        Priority::High => state.queues[0].len() as int,
        Priority::Medium => (state.queues[0].len() + state.queues[1].len()) as int,
        Priority::Low => state.queued() as int,
    }
}

/// A new task is scheduled behind the waiting tasks of its own priority and of
/// higher ones, before those of lower ones, and moves none of them.
pub proof fn law_new_task_waits_its_turn(state: StateModel, task: Task)
    requires
        state.wf(),
    ensures
        state.enqueued(task).schedule() == state.schedule().insert(
            ahead_of_new(state, task.priority),
            task,
        ),
        forall|i: int|
            0 <= i < state.schedule().len() ==> (i < ahead_of_new(state, task.priority) <==> (
            #[trigger] state.schedule()[i]).priority.level() <= task.priority.level()),
{
    assert(state.enqueued(task).schedule() =~= state.schedule().insert(
        ahead_of_new(state, task.priority),
        task,
    ));
}

/// A task that is put back is scheduled as a new one would be, behind the waiting
/// tasks of its own priority and of higher ones.
pub proof fn law_retried_task_waits_its_turn(state: StateModel, task: Task)
    requires
        state.wf(),
    ensures
        state.task_retried(task).schedule() == state.schedule().insert(
            ahead_of_new(state, task.priority),
            task.retried(),
        ),
{
    assert(state.task_retried(task).schedule() =~= state.schedule().insert(
        ahead_of_new(state, task.priority),
        task.retried(),
    ));
}

/// One operation keeps the state well-formed.
proof fn lemma_after_wf(queue: QueueModel, op: Operation)
    requires
        queue.wf(),
        possible(queue, op),
    ensures
        after(queue, op).wf(),
{
    law_next_task_heads_the_schedule(queue.state);
}

/// The state stays well-formed whatever is done to the queue: every waiting task
/// stands at the level of its priority and has not been tried more often than it may
/// be, every failed attempt led to a retry or to a dead letter, and the counter of dead
/// letters agrees with their number.
pub proof fn law_always_well_formed(queue: QueueModel, ops: Seq<Operation>)
    requires
        queue.wf(),
        all_possible(queue, ops),
    ensures
        run(queue, ops).wf(),
    decreases ops.len(),
{
    if ops.len() > 0 {
        law_always_well_formed(queue, ops.drop_last());
        lemma_after_wf(run(queue, ops.drop_last()), ops.last());
    }
}

/// Putting a task into a sequence adds it to the tasks that are there.
proof fn lemma_insert_adds(tasks: Seq<Task>, at: int, task: Task)
    requires
        0 <= at <= tasks.len(),
    ensures
        tasks.insert(at, task).to_multiset() == tasks.to_multiset().add(seq![task].to_multiset()),
{
    broadcast use vstd::multiset::group_multiset_axioms;
    broadcast use vstd::seq_lib::group_to_multiset_ensures;

    let (front, back) = (tasks.take(at), tasks.skip(at));
    assert(tasks.insert(at, task) =~= front + seq![task] + back);
    assert(tasks =~= front + back);
    vstd::seq_lib::lemma_multiset_commutative(front, back);
    vstd::seq_lib::lemma_multiset_commutative(front, seq![task]);
    vstd::seq_lib::lemma_multiset_commutative(front + seq![task], back);
    assert(tasks.insert(at, task).to_multiset() =~= tasks.to_multiset().add(
        seq![task].to_multiset(),
    ));
}

/// What one operation does to the schedule.
proof fn lemma_step_schedule(queue: QueueModel, op: Operation)
    requires
        queue.wf(),
        possible(queue, op),
    ensures
        ({
            let (waiting, left) = (queue.state.schedule(), after(queue, op).state.schedule());
            if op is Submit {
                let task = op->Submit_0;
                let at = ahead_of_new(queue.state, task.priority);
                0 <= at <= waiting.len() && left == waiting.insert(at, task)
            } else if retried_by(op).len() > 0 {
                let task = op->FinishTask_0;
                let at = ahead_of_new(queue.state, task.priority);
                0 <= at <= waiting.len() && left == waiting.insert(at, task.retried())
            } else {
                handed_by(queue, op) + left == waiting
            }
        }),
{
    let (waiting, left) = (queue.state.schedule(), after(queue, op).state.schedule());
    law_next_task_heads_the_schedule(queue.state);
    if op is Submit {
        law_new_task_waits_its_turn(queue.state, op->Submit_0);
    } else if retried_by(op).len() > 0 {
        law_retried_task_waits_its_turn(queue.state, op->FinishTask_0);
    } else if handed_by(queue, op).len() > 0 {
        assert(waiting =~= seq![waiting[0]] + waiting.drop_first());
    } else {
        assert(left =~= waiting);
        assert(handed_by(queue, op) + left =~= waiting);
    }
}

/// What one operation hands out and leaves waiting is what was waiting and what came.
proof fn lemma_step_keeps_tasks(queue: QueueModel, op: Operation)
    requires
        queue.wf(),
        possible(queue, op),
    ensures
        handed_by(queue, op).to_multiset().add(after(queue, op).state.schedule().to_multiset())
            == queue.state.schedule().to_multiset().add(
            (submitted_by(op) + retried_by(op)).to_multiset(),
        ),
{
    broadcast use vstd::multiset::group_multiset_axioms;
    broadcast use vstd::seq_lib::group_to_multiset_ensures;

    let (waiting, left) = (queue.state.schedule(), after(queue, op).state.schedule());
    let (out, new) = (handed_by(queue, op), submitted_by(op) + retried_by(op));
    lemma_step_schedule(queue, op);
    if op is Submit {
        let task = op->Submit_0;
        lemma_insert_adds(waiting, ahead_of_new(queue.state, task.priority), task);
        assert(new =~= seq![task]);
    } else if retried_by(op).len() > 0 {
        let task = op->FinishTask_0;
        lemma_insert_adds(waiting, ahead_of_new(queue.state, task.priority), task.retried());
        assert(new =~= seq![task.retried()]);
    } else {
        vstd::seq_lib::lemma_multiset_commutative(out, left);
        assert(new =~= Seq::<Task>::empty());
    }
    assert(out.to_multiset().add(left.to_multiset()) =~= waiting.to_multiset().add(
        new.to_multiset(),
    ));
}

/// No task is lost and none is handed out more often than it came to wait: what has
/// been handed out and what is waiting is together what was waiting at first, what was
/// submitted and what was put back.
pub proof fn law_each_task_is_handed_out_once(queue: QueueModel, ops: Seq<Operation>)
    requires
        queue.wf(),
        all_possible(queue, ops),
    ensures
        handed_out(queue, ops).to_multiset().add(run(queue, ops).state.schedule().to_multiset())
            == queue.state.schedule().to_multiset().add(arrivals(ops).to_multiset()),
        handed_out(queue, ops).len() + run(queue, ops).state.queued() == queue.state.queued()
            + arrivals(ops).len(),
    decreases ops.len(),
{
    broadcast use vstd::multiset::group_multiset_axioms;
    broadcast use vstd::seq_lib::group_to_multiset_ensures;

    let left = handed_out(queue, ops).to_multiset().add(
        run(queue, ops).state.schedule().to_multiset(),
    );
    let right = queue.state.schedule().to_multiset().add(arrivals(ops).to_multiset());
    if ops.len() > 0 {
        let before = ops.drop_last();
        let mid = run(queue, before);
        let op = ops.last();
        let new = submitted_by(op) + retried_by(op);
        law_each_task_is_handed_out_once(queue, before);
        law_always_well_formed(queue, before);
        lemma_step_keeps_tasks(mid, op);
        vstd::seq_lib::lemma_multiset_commutative(handed_out(queue, before), handed_by(mid, op));
        vstd::seq_lib::lemma_multiset_commutative(arrivals(before), new);
        assert(arrivals(ops) =~= arrivals(before) + new);
        let waiting = mid.state.schedule().to_multiset();
        let waiting_now = run(queue, ops).state.schedule().to_multiset();
        assert forall|task: Task| #[trigger] left.count(task) == right.count(task) by {
            assert(handed_by(mid, op).to_multiset().add(waiting_now).count(task) == waiting.add(
                new.to_multiset(),
            ).count(task));
            assert(handed_out(queue, before).to_multiset().add(waiting).count(task)
                == queue.state.schedule().to_multiset().add(arrivals(before).to_multiset()).count(
                task,
            ));
        }
    }
    assert(left =~= right);
    law_always_well_formed(queue, ops);
    law_next_task_heads_the_schedule(queue.state);
    law_next_task_heads_the_schedule(run(queue, ops).state);
    assert(left.len() == right.len());
}

/// While no task comes to wait, the waiting tasks are handed out in the order of the
/// schedule, whatever else is done meanwhile.
pub proof fn law_schedule_is_followed(queue: QueueModel, ops: Seq<Operation>)
    requires
        queue.wf(),
        all_possible(queue, ops),
        arrivals(ops).len() == 0,
    ensures
        handed_out(queue, ops) + run(queue, ops).state.schedule() == queue.state.schedule(),
    decreases ops.len(),
{
    if ops.len() > 0 {
        let before = ops.drop_last();
        let mid = run(queue, before);
        let left = run(queue, ops).state.schedule();
        law_schedule_is_followed(queue, before);
        law_always_well_formed(queue, before);
        lemma_step_schedule(mid, ops.last());
        assert(handed_out(queue, ops) + left =~= handed_out(queue, before) + (handed_by(
            mid,
            ops.last(),
        ) + left));
    }
}

/// How often workers ask what to do next.
pub open spec fn asks(ops: Seq<Operation>) -> nat
    decreases ops.len(),
{
    if ops.len() == 0 {
        0
    } else {
        asks(ops.drop_last()) + (match ops.last() {
            Operation::NextAction(_) => 1nat,
            _ => 0nat,
        })
    }
}

/// While no task comes to wait, every time a worker asks it gets a task, until none
/// is waiting any more.
pub proof fn law_asking_empties_the_queue(queue: QueueModel, ops: Seq<Operation>)
    requires
        queue.wf(),
        all_possible(queue, ops),
        arrivals(ops).len() == 0,
    ensures
        handed_out(queue, ops).len() == if asks(ops) < queue.state.queued() {
            asks(ops)
        } else {
            queue.state.queued()
        },
        run(queue, ops).state.queued() + handed_out(queue, ops).len() == queue.state.queued(),
    decreases ops.len(),
{
    law_schedule_is_followed(queue, ops);
    law_always_well_formed(queue, ops);
    law_next_task_heads_the_schedule(queue.state);
    law_next_task_heads_the_schedule(run(queue, ops).state);
    if ops.len() > 0 {
        let before = ops.drop_last();
        law_asking_empties_the_queue(queue, before);
        law_always_well_formed(queue, before);
        law_next_task_heads_the_schedule(run(queue, before).state);
    }
}

/// A queue that is shut down stays shut down.
pub proof fn law_shutdown_is_final(queue: QueueModel, ops: Seq<Operation>)
    requires
        queue.state.shutdown,
    ensures
        run(queue, ops).state.shutdown,
    decreases ops.len(),
{
    if ops.len() > 0 {
        law_shutdown_is_final(queue, ops.drop_last());
    }
}

/// A shutdown takes effect in whatever state the queue is and whatever is done to it then:
/// the queue is shut down, and a worker that finds no waiting task stops.
pub proof fn law_shutdown_takes_effect(queue: QueueModel, ops: Seq<Operation>, worker_id: usize)
    requires
        exists|i: int| 0 <= i < ops.len() && #[trigger] ops[i] == Operation::Shutdown,
    ensures
        run(queue, ops).state.shutdown,
        ({
            let (now, asked) = (
                run(queue, ops).state,
                after(run(queue, ops), Operation::NextAction(worker_id)).state,
            );
            now.queues[0].len() == 0 && now.queues[1].len() == 0 && now.queues[2].len() == 0 ==> {
                &&& now.front() is None
                &&& !asked.health.contains_key(worker_id)
                &&& now.active_workers > 0 ==> asked.active_workers == now.active_workers - 1
            }
        }),
    decreases ops.len(),
{
    let at = choose|i: int| 0 <= i < ops.len() && #[trigger] ops[i] == Operation::Shutdown;
    if at < ops.len() - 1 {
        assert(ops.drop_last()[at] == Operation::Shutdown);
        law_shutdown_takes_effect(queue, ops.drop_last(), worker_id);
    }
}

/// Shutdown is graceful: when a worker of a queue that is shut down finds nothing to
/// do and stops, every task that was waiting, was submitted or was put back meanwhile
/// has been handed out. If none came, they were handed out in the order of the schedule.
pub proof fn law_shutdown_is_graceful(queue: QueueModel, ops: Seq<Operation>, worker_id: usize)
    requires
        queue.wf(),
        queue.state.shutdown,
        all_possible(queue, ops),
        run(queue, ops).state.front() is None,
    ensures
        handed_out(queue, ops).to_multiset() == queue.state.schedule().to_multiset().add(
            arrivals(ops).to_multiset(),
        ),
        arrivals(ops).len() == 0 ==> handed_out(queue, ops) == queue.state.schedule(),
        run(queue, ops).state.queued() == 0,
        after(run(queue, ops), Operation::NextAction(worker_id)).state == run(
            queue,
            ops,
        ).state.worker_left(worker_id),
{
    broadcast use vstd::multiset::group_multiset_axioms;
    broadcast use vstd::seq_lib::group_to_multiset_ensures;

    law_each_task_is_handed_out_once(queue, ops);
    law_always_well_formed(queue, ops);
    law_next_task_heads_the_schedule(run(queue, ops).state);
    law_shutdown_is_final(queue, ops);
    assert(run(queue, ops).state.schedule() =~= Seq::<Task>::empty());
    assert(handed_out(queue, ops).to_multiset() =~= handed_out(queue, ops).to_multiset().add(
        run(queue, ops).state.schedule().to_multiset(),
    ));
    if arrivals(ops).len() == 0 {
        law_schedule_is_followed(queue, ops);
        assert(handed_out(queue, ops) + run(queue, ops).state.schedule() =~= handed_out(
            queue,
            ops,
        ));
    }
}

/// The submitted tasks and the retries are together the attempts that were completed,
/// that failed and that were cancelled, with the waiting tasks and a given number of tasks
/// in progress, as far as the counters tell before they start again from zero.
pub open spec fn balanced(state: StateModel, in_progress: int) -> bool {
    (state.metrics.tasks_submitted + state.metrics.tasks_retried - state.metrics.tasks_completed
        - state.metrics.tasks_failed - state.metrics.tasks_cancelled - state.queued() - in_progress)
        % model::counter_range() == 0
}

/// One operation keeps the counters balanced.
proof fn lemma_step_keeps_balance(queue: QueueModel, op: Operation, in_progress: int)
    requires
        queue.wf(),
        possible(queue, op),
        balanced(queue.state, in_progress),
    ensures
        balanced(
            after(queue, op).state,
            in_progress + handed_by(queue, op).len() - report_of(op),
        ),
{
    let (state, now) = (queue.state, after(queue, op).state);
    law_next_task_heads_the_schedule(state);
    match op {
        Operation::Submit(task) => {
            assert(now.queued() == state.queued() + 1);
        },
        Operation::FinishTask(task, worker_id, result) => {
            if retried_by(op).len() > 0 {
                assert(now.queued() == state.queued() + 1);
            } else {
                assert(now.queues == state.queues);
            }
        },
        Operation::NextAction(_) => {
            assert(now.queued() == state.queued() - handed_by(queue, op).len());
        },
        _ => {
            assert(now.queues == state.queues);
        },
    }
}

/// The counters account for every attempt: what has been handed out and not been
/// reported is in progress, and everything else is counted or waiting.
pub proof fn law_counters_balance(queue: QueueModel, ops: Seq<Operation>, in_progress: int)
    requires
        queue.wf(),
        all_possible(queue, ops),
        balanced(queue.state, in_progress),
    ensures
        balanced(
            run(queue, ops).state,
            in_progress + handed_out(queue, ops).len() - reports(ops),
        ),
    decreases ops.len(),
{
    if ops.len() > 0 {
        let before = ops.drop_last();
        law_counters_balance(queue, before, in_progress);
        law_always_well_formed(queue, before);
        lemma_step_keeps_balance(
            run(queue, before),
            ops.last(),
            in_progress + handed_out(queue, before).len() - reports(before),
        );
    }
}

/// Once no task is waiting and every task that was handed out has been reported, the
/// attempts that were completed, failed or cancelled are together the submitted tasks and
/// the retries.
pub proof fn law_finished_work_is_counted(ops: Seq<Operation>)
    requires
        all_possible(QueueModel::empty(), ops),
        run(QueueModel::empty(), ops).state.queued() == 0,
        handed_out(QueueModel::empty(), ops).len() == reports(ops),
    ensures
        ({
            let metrics = run(QueueModel::empty(), ops).state.metrics;
            (metrics.tasks_submitted + metrics.tasks_retried) % model::counter_range() == (
            metrics.tasks_completed + metrics.tasks_failed + metrics.tasks_cancelled)
                % model::counter_range()
        }),
{
    law_counters_balance(QueueModel::empty(), ops, 0);
}

/// Each report makes exactly one of the counters of completed, failed and cancelled tasks
/// grow, by one: that of cancelled tasks if the task was dropped, that of failed ones if
/// its run failed, retries left or not. The counter of dead letters grows with the dead
/// letters.
pub proof fn law_each_report_counts_once(
    state: StateModel,
    task: Task,
    worker_id: usize,
    result: RunResult,
)
    requires
        state.wf(),
        task::failure_message(result) is Some && !task.has_retries_left()
            ==> state.dead_letters.len() < u64::MAX,
    ensures
        ({
            let (before, dropped) = (state.metrics, state.task_cancelled(task.id).metrics);
            &&& dropped.tasks_cancelled == model::count_up(before.tasks_cancelled)
            &&& dropped.tasks_completed == before.tasks_completed
            &&& dropped.tasks_failed == before.tasks_failed
            &&& state.task_cancelled(task.id).dead_letters == state.dead_letters
            &&& dropped.tasks_dead_lettered == before.tasks_dead_lettered
        }),
        ({
            let (before, now) = (state.metrics, state.task_finished(task, worker_id, result).metrics);
            let failed = task::failure_message(result) is Some;
            &&& now.tasks_cancelled == before.tasks_cancelled
            &&& now.tasks_completed == if failed {
                before.tasks_completed
            } else {
                model::count_up(before.tasks_completed)
            }
            &&& now.tasks_failed == if failed {
                model::count_up(before.tasks_failed)
            } else {
                before.tasks_failed
            }
            &&& now.tasks_dead_lettered - before.tasks_dead_lettered == state.task_finished(
                task,
                worker_id,
                result,
            ).dead_letters.len() - state.dead_letters.len()
        }),
{
}

/// The counters of submitted and of retried tasks count the submissions and the
/// retries.
pub proof fn law_submissions_are_counted(queue: QueueModel, ops: Seq<Operation>)
    ensures
        run(queue, ops).state.metrics.tasks_retried == (queue.state.metrics.tasks_retried + retries(
            ops,
        )) % model::counter_range(),
        run(queue, ops).state.metrics.tasks_submitted == (queue.state.metrics.tasks_submitted
            + submissions(ops).len()) % model::counter_range(),
        run(queue, ops).next_task_id == (queue.next_task_id + submissions(ops).len())
            % model::counter_range(),
    decreases ops.len(),
{
    if ops.len() > 0 {
        law_submissions_are_counted(queue, ops.drop_last());
    }
}

/// The tasks of one priority, in order.
#[verifier::opaque]
pub open spec fn of_priority(tasks: Seq<Task>, priority: Priority) -> Seq<Task> {
    tasks.filter(|task: Task| task.priority == priority)
}

/// The tasks of one priority in a sequence of at most one task.
proof fn lemma_of_priority_one(tasks: Seq<Task>, priority: Priority)
    requires
        tasks.len() <= 1,
    ensures
        of_priority(tasks, priority) == (if tasks.len() == 1 && tasks[0].priority == priority {
            tasks
        } else {
            Seq::empty()
        }),
{
    reveal(of_priority);
    reveal_with_fuel(Seq::filter, 2);
    if tasks.len() == 1 {
        assert(tasks.drop_last() =~= Seq::empty());
        assert(tasks =~= Seq::empty().push(tasks[0]));
    }
}

/// One operation takes the tasks of one priority out at the front of their queue and
/// puts them in at its end.
proof fn lemma_step_is_first_in_first_out(queue: QueueModel, op: Operation, priority: Priority)
    requires
        queue.wf(),
        possible(queue, op),
    ensures
        of_priority(handed_by(queue, op), priority) + after(
            queue,
            op,
        ).state.queues[priority.level()] == queue.state.queues[priority.level()] + of_priority(
            submitted_by(op) + retried_by(op),
            priority,
        ),
{
    let level = priority.level();
    let (out, new) = (handed_by(queue, op), submitted_by(op) + retried_by(op));
    let waiting = queue.state.queues[level];
    lemma_of_priority_one(out, priority);
    lemma_of_priority_one(new, priority);
    let waiting_now = after(queue, op).state.queues[level];
    if out.len() == 1 {
        let first = queue.state.first_level();
        assert(out[0] == queue.state.queues[first][0]);
        if first == level {
            assert(out + waiting_now =~= waiting);
        } else {
            assert(waiting_now =~= waiting);
        }
    } else if new.len() == 1 && new[0].priority == priority {
        assert(waiting_now =~= waiting + new);
    } else {
        assert(waiting_now =~= waiting);
    }
}

/// First in, first out: the tasks of one priority are handed out in the order in which
/// they came to wait, and those that are left are the ones that came last.
pub proof fn law_first_in_first_out(queue: QueueModel, ops: Seq<Operation>, priority: Priority)
    requires
        queue.wf(),
        all_possible(queue, ops),
    ensures
        of_priority(handed_out(queue, ops), priority) + run(
            queue,
            ops,
        ).state.queues[priority.level()] == queue.state.queues[priority.level()] + of_priority(
            arrivals(ops),
            priority,
        ),
    decreases ops.len(),
{
    if ops.len() == 0 {
        lemma_of_priority_one(Seq::empty(), priority);
    } else {
        let before = ops.drop_last();
        let mid = run(queue, before);
        let op = ops.last();
        let pred = |task: Task| task.priority == priority;
        let (out, new) = (handed_by(mid, op), submitted_by(op) + retried_by(op));
        law_first_in_first_out(queue, before, priority);
        law_always_well_formed(queue, before);
        lemma_step_is_first_in_first_out(mid, op, priority);
        assert(of_priority(handed_out(queue, before) + out, priority) == of_priority(
            handed_out(queue, before),
            priority,
        ) + of_priority(out, priority) && of_priority(arrivals(before) + new, priority)
            == of_priority(arrivals(before), priority) + of_priority(new, priority)) by {
            reveal(of_priority);
            Seq::filter_distributes_over_add(handed_out(queue, before), out, pred);
            Seq::filter_distributes_over_add(arrivals(before), new, pred);
        }
        assert(arrivals(ops) =~= arrivals(before) + new);
        lemma_regroup(
            of_priority(handed_out(queue, before), priority),
            mid.state.queues[priority.level()],
            queue.state.queues[priority.level()],
            of_priority(arrivals(before), priority),
            of_priority(out, priority),
            run(queue, ops).state.queues[priority.level()],
            of_priority(new, priority),
        );
    }
}

/// Joins what held before an operation and what holds of it.
proof fn lemma_regroup(
    out: Seq<Task>,
    waiting: Seq<Task>,
    first: Seq<Task>,
    came: Seq<Task>,
    out_now: Seq<Task>,
    waiting_now: Seq<Task>,
    new: Seq<Task>,
)
    requires
        out + waiting == first + came,
        out_now + waiting_now == waiting + new,
    ensures
        (out + out_now) + waiting_now == first + (came + new),
{
    assert((out + out_now) + waiting_now =~= out + (out_now + waiting_now));
    assert(out + (waiting + new) =~= (out + waiting) + new);
    assert((first + came) + new =~= first + (came + new));
}

/// Of two tasks of one priority that have not been tried, the one that comes first has
/// the smaller id.
#[verifier::opaque]
spec fn ids_in_order(tasks: Seq<Task>) -> bool {
    forall|i: int, j: int|
        {
            &&& 0 <= i < j < tasks.len()
            &&& (#[trigger] tasks[i]).priority == (#[trigger] tasks[j]).priority
            &&& tasks[i].metadata.retry_count == 0
            &&& tasks[j].metadata.retry_count == 0
        } ==> tasks[i].id < tasks[j].id
}

/// Every task that has not been tried has an id that was given out already.
#[verifier::opaque]
spec fn ids_given(tasks: Seq<Task>, next_task_id: TaskId) -> bool {
    forall|i: int|
        0 <= i < tasks.len() && (#[trigger] tasks[i]).metadata.retry_count == 0 ==> tasks[i].id
            < next_task_id
}

/// Ids count the submissions from one, so later submissions get greater ids, no two share
/// one, and the next submission gets the next number; and of two tasks of one priority the
/// one that was submitted first is handed out first for its first attempt. All of this
/// holds as long as fewer tasks have been submitted than there are ids.
pub proof fn law_ids_follow_submission(ops: Seq<Operation>)
    requires
        all_possible(QueueModel::empty(), ops),
        submissions(ops).len() < u64::MAX,
    ensures
        forall|k: int|
            0 <= k < submissions(ops).len() ==> (#[trigger] submissions(ops)[k]).id == k + 1,
        forall|i: int, j: int|
            0 <= i < j < submissions(ops).len() ==> (#[trigger] submissions(ops)[i]).id < (
            #[trigger] submissions(ops)[j]).id,
        run(QueueModel::empty(), ops).next_task_id == submissions(ops).len() + 1,
        forall|i: int, j: int|
            #![trigger handed_out(QueueModel::empty(), ops)[i], handed_out(
                QueueModel::empty(),
                ops,
            )[j]]
            {
                let tasks = handed_out(QueueModel::empty(), ops);
                0 <= i < j < tasks.len() && tasks[i].priority == tasks[j].priority
                    && tasks[i].metadata.retry_count == 0 && tasks[j].metadata.retry_count == 0
                    ==> tasks[i].id < tasks[j].id
            },
{
    reveal(ids_in_order);
    lemma_ids_count_submissions(ops);
    lemma_ids(ops);
    law_submissions_are_counted(QueueModel::empty(), ops);
    let out = handed_out(QueueModel::empty(), ops);
    let all = out + run(QueueModel::empty(), ops).state.schedule();
    assert forall|i: int, j: int|
        #![trigger out[i], out[j]]
        0 <= i < j < out.len() && out[i].priority == out[j].priority
            && out[i].metadata.retry_count == 0 && out[j].metadata.retry_count == 0 implies out[i].id
        < out[j].id by {
        assert(all[i] == out[i] && all[j] == out[j]);
    }
}

/// Ids count the submissions from one.
proof fn lemma_ids_count_submissions(ops: Seq<Operation>)
    requires
        all_possible(QueueModel::empty(), ops),
        submissions(ops).len() < u64::MAX,
    ensures
        forall|k: int|
            0 <= k < submissions(ops).len() ==> (#[trigger] submissions(ops)[k]).id == k + 1,
    decreases ops.len(),
{
    if ops.len() > 0 {
        lemma_ids_count_submissions(ops.drop_last());
        law_submissions_are_counted(QueueModel::empty(), ops.drop_last());
    }
}

/// A task with a new id, with no task of its priority behind it, keeps ids in order.
proof fn lemma_insert_keeps_ids(tasks: Seq<Task>, place: int, task: Task)
    requires
        0 <= place <= tasks.len(),
        ids_in_order(tasks),
        ids_given(tasks, task.id),
        task.id < u64::MAX,
        forall|i: int|
            place <= i < tasks.len() ==> (#[trigger] tasks[i]).priority != task.priority,
    ensures
        ids_in_order(tasks.insert(place, task)),
        ids_given(tasks.insert(place, task), (task.id + 1) as u64),
{
    reveal(ids_in_order);
    reveal(ids_given);
    let all = tasks.insert(place, task);
    assert forall|i: int| 0 <= i < all.len() implies #[trigger] all[i] == (if i < place {
        tasks[i]
    } else if i == place {
        task
    } else {
        tasks[i - 1]
    }) by {}
}

/// A task that has been tried keeps ids in order, wherever it stands.
proof fn lemma_insert_tried_keeps_ids(tasks: Seq<Task>, place: int, task: Task, next: TaskId)
    requires
        0 <= place <= tasks.len(),
        ids_in_order(tasks),
        ids_given(tasks, next),
        task.metadata.retry_count > 0,
    ensures
        ids_in_order(tasks.insert(place, task)),
        ids_given(tasks.insert(place, task), next),
{
    reveal(ids_in_order);
    reveal(ids_given);
    let all = tasks.insert(place, task);
    assert forall|i: int| 0 <= i < all.len() implies #[trigger] all[i] == (if i < place {
        tasks[i]
    } else if i == place {
        task
    } else {
        tasks[i - 1]
    }) by {}
}

/// One operation keeps ids in order, over what was handed out and what is waiting.
proof fn lemma_step_keeps_ids(queue: QueueModel, out: Seq<Task>, op: Operation)
    requires
        queue.wf(),
        possible(queue, op),
        op is Submit ==> queue.next_task_id < u64::MAX,
        ids_in_order(out + queue.state.schedule()),
        ids_given(out + queue.state.schedule(), queue.next_task_id),
    ensures
        ids_in_order((out + handed_by(queue, op)) + after(queue, op).state.schedule()),
        ids_given(
            (out + handed_by(queue, op)) + after(queue, op).state.schedule(),
            after(queue, op).next_task_id,
        ),
{
    let waiting = queue.state.schedule();
    let (gone, left) = (handed_by(queue, op), after(queue, op).state.schedule());
    lemma_step_schedule(queue, op);
    if op is Submit {
        let task = op->Submit_0;
        law_new_task_waits_its_turn(queue.state, task);
        lemma_arrival_keeps_ids(out, waiting, ahead_of_new(queue.state, task.priority), task);
        assert(out + gone =~= out);
    } else if retried_by(op).len() > 0 {
        let task = op->FinishTask_0;
        let at = ahead_of_new(queue.state, task.priority);
        let all = out + waiting;
        lemma_insert_tried_keeps_ids(all, out.len() + at, task.retried(), queue.next_task_id);
        assert(out + gone =~= out);
        assert(out + waiting.insert(at, task.retried()) =~= all.insert(
            out.len() + at,
            task.retried(),
        ));
    } else {
        assert((out + gone) + left =~= out + (gone + left));
    }
}

/// A new task in its place among the waiting tasks keeps ids in order.
proof fn lemma_arrival_keeps_ids(out: Seq<Task>, waiting: Seq<Task>, at: int, task: Task)
    requires
        0 <= at <= waiting.len(),
        ids_in_order(out + waiting),
        ids_given(out + waiting, task.id),
        task.id < u64::MAX,
        forall|i: int| at <= i < waiting.len() ==> (#[trigger] waiting[i]).priority != task.priority,
    ensures
        ids_in_order(out + waiting.insert(at, task)),
        ids_given(out + waiting.insert(at, task), (task.id + 1) as u64),
{
    let all = out + waiting;
    assert forall|i: int| out.len() + at <= i < all.len() implies (#[trigger] all[i]).priority
        != task.priority by {
        assert(all[i] == waiting[i - out.len()]);
    }
    lemma_insert_keeps_ids(all, out.len() + at, task);
    assert(out + waiting.insert(at, task) =~= all.insert(out.len() + at, task));
}

/// What was handed out, followed by what is waiting, has its ids in order.
proof fn lemma_ids(ops: Seq<Operation>)
    requires
        all_possible(QueueModel::empty(), ops),
        submissions(ops).len() < u64::MAX,
    ensures
        ids_in_order(
            handed_out(QueueModel::empty(), ops) + run(QueueModel::empty(), ops).state.schedule(),
        ),
        ids_given(
            handed_out(QueueModel::empty(), ops) + run(QueueModel::empty(), ops).state.schedule(),
            run(QueueModel::empty(), ops).next_task_id,
        ),
    decreases ops.len(),
{
    let start = QueueModel::empty();
    if ops.len() == 0 {
        reveal(ids_in_order);
        reveal(ids_given);
    } else {
        let before = ops.drop_last();
        lemma_ids(before);
        law_always_well_formed(start, before);
        law_submissions_are_counted(start, before);
        lemma_step_keeps_ids(run(start, before), handed_out(start, before), ops.last());
    }
}

/// A task that was cancelled stays marked until a worker reports that it dropped it,
/// so a worker that takes it up before is told to cancel it.
pub proof fn law_cancellation_is_remembered(queue: QueueModel, ops: Seq<Operation>, id: TaskId)
    requires
        queue.state.cancelled.contains(id),
        forall|i: int| 0 <= i < ops.len() ==> #[trigger] ops[i] != Operation::FinishCancelled(id),
    ensures
        run(queue, ops).state.cancelled.contains(id),
    decreases ops.len(),
{
    if ops.len() > 0 {
        law_cancellation_is_remembered(queue, ops.drop_last(), id);
    }
}

/// A task is marked as cancelled, whatever was done before, from the moment that someone
/// cancels it until a worker reports that it dropped it.
pub proof fn law_cancellation_takes_effect(
    queue: QueueModel,
    ops: Seq<Operation>,
    id: TaskId,
    at: int,
)
    requires
        0 <= at < ops.len(),
        ops[at] == Operation::CancelTask(id),
        forall|i: int| at < i < ops.len() ==> #[trigger] ops[i] != Operation::FinishCancelled(id),
    ensures
        run(queue, ops).state.cancelled.contains(id),
    decreases ops.len(),
{
    if at < ops.len() - 1 {
        law_cancellation_takes_effect(queue, ops.drop_last(), id, at);
    }
}

/// A task that nobody cancels is never taken for a cancelled one.
pub proof fn law_only_cancelled_tasks_are_marked(
    queue: QueueModel,
    ops: Seq<Operation>,
    id: TaskId,
)
    requires
        !queue.state.cancelled.contains(id),
        forall|i: int| 0 <= i < ops.len() ==> #[trigger] ops[i] != Operation::CancelTask(id),
    ensures
        !run(queue, ops).state.cancelled.contains(id),
    decreases ops.len(),
{
    if ops.len() > 0 {
        law_only_cancelled_tasks_are_marked(queue, ops.drop_last(), id);
    }
}

/// Cancelling a task and then reporting that it was dropped leaves no mark behind, so
/// the set of marks does not grow for ever; and cancelling twice is cancelling once.
pub proof fn law_cancellation_is_forgotten_once_done(state: StateModel, id: TaskId)
    ensures
        !state.task_cancelled(id).cancelled.contains(id),
        !state.cancelled.contains(id) ==> state.marked_cancelled(id).task_cancelled(id).cancelled
            == state.cancelled,
        state.marked_cancelled(id).marked_cancelled(id) == state.marked_cancelled(id),
{
}

/// What came of a task, a panic included, changes nothing for which tasks are
/// cancelled, for which workers are running, and for the order of the waiting tasks: at
/// most the task itself comes to wait again, behind the others of its priority.
pub proof fn law_failures_are_contained(
    state: StateModel,
    task: Task,
    worker_id: usize,
    result: RunResult,
)
    ensures
        ({
            let now = state.task_finished(task, worker_id, result);
            let level = task.priority.level();
            &&& now.queues == state.queues || now.queues == state.queues.update(
                level,
                state.queues[level].push(task.retried()),
            )
            &&& now.cancelled == state.cancelled
            &&& now.shutdown == state.shutdown
            &&& now.active_workers == state.active_workers
            &&& now.health.dom() == state.health.dom()
        }),
{
    assert(state.task_finished(task, worker_id, result).health.dom() =~= state.health.dom());
}

/// A dead letter is written for a task exactly if it failed and has no retries left:
/// the dead letters are the final destination of tasks that failed after all their
/// retries. A task that has retries left is counted as failed and as retried and put back,
/// and the letter of one that was never tried too often tells of one attempt more than
/// it had retries.
pub proof fn law_dead_letters_come_after_all_retries(
    state: StateModel,
    task: Task,
    worker_id: usize,
    result: RunResult,
)
    requires
        state.wf(),
    ensures
        ({
            let now = state.task_finished(task, worker_id, result);
            let failed = task::failure_message(result) is Some;
            &&& now.dead_letters.len() == state.dead_letters.len() + if failed
                && task.metadata.retry_count >= task.metadata.max_retries {
                1int
            } else {
                0
            }
            &&& failed && task.metadata.retry_count < task.metadata.max_retries ==> {
                &&& now.dead_letters == state.dead_letters
                &&& now.metrics.tasks_dead_lettered == state.metrics.tasks_dead_lettered
                &&& now.metrics.tasks_failed == model::count_up(state.metrics.tasks_failed)
                &&& now.metrics.tasks_retried == model::count_up(state.metrics.tasks_retried)
                &&& now.queues[task.priority.level()].last() == task.retried()
            }
            &&& failed && task.metadata.retry_count == task.metadata.max_retries
                && task.metadata.retry_count < usize::MAX ==> {
                &&& now.dead_letters.last().id == task.id
                &&& now.dead_letters.last().attempts == task.metadata.max_retries + 1
            }
        }),
{
}

/// A task is never handed out to be tried again more often than it may be.
pub proof fn law_retries_are_limited(queue: QueueModel, ops: Seq<Operation>)
    requires
        queue.wf(),
        all_possible(queue, ops),
    ensures
        forall|i: int|
            0 <= i < handed_out(queue, ops).len() ==> (#[trigger] handed_out(
                queue,
                ops,
            )[i]).metadata.retry_count <= handed_out(queue, ops)[i].metadata.max_retries,
    decreases ops.len(),
{
    if ops.len() > 0 {
        let before = ops.drop_last();
        let state = run(queue, before).state;
        law_retries_are_limited(queue, before);
        law_always_well_formed(queue, before);
        if state.front() is Some {
            assert(state.queues[state.first_level()][0] == state.front()->0);
        }
    }
}

/// Submitting a payload is submitting it with no retries: two equal queues, of which one
/// took a payload by the one way and the other by the other, differ in nothing but the
/// moment at which the task was created. Both have it as the last task of its priority,
/// count one submission more, and are otherwise as before.
pub proof fn law_submit_means_no_retries(
    queue: QueueModel,
    priority: Priority,
    payload: Box<dyn TaskPayload>,
    after_submit: QueueModel,
    after_submit_with_retries: QueueModel,
)
    requires
        queue.wf(),
        exists|task: Task|
            {
                &&& after_submit == #[trigger] queue.submitted(task)
                &&& task.is_new(queue.next_task_id, priority, 0)
                &&& task.payload == payload
            },
        exists|task: Task|
            {
                &&& after_submit_with_retries == #[trigger] queue.submitted(task)
                &&& task.is_new(queue.next_task_id, priority, 0)
                &&& task.payload == payload
            },
    ensures
        exists|task: Task, moment: Instant|
            {
                &&& after_submit_with_retries == #[trigger] queue.submitted(task)
                &&& after_submit == queue.submitted(#[trigger] task.created_at(moment))
                &&& task.is_new(queue.next_task_id, priority, 0)
                &&& task.payload == payload
                &&& after_submit_with_retries.state.queues[priority.level()].last() == task
                &&& after_submit.state.queues[priority.level()].last() == task.created_at(moment)
            },
        after_submit.next_task_id == after_submit_with_retries.next_task_id,
        after_submit.state == (StateModel {
            queues: after_submit.state.queues,
            ..after_submit_with_retries.state
        }),
        after_submit.state == (StateModel {
            queues: after_submit.state.queues,
            metrics: Metrics {
                tasks_submitted: model::count_up(queue.state.metrics.tasks_submitted),
                ..queue.state.metrics
            },
            ..queue.state
        }),
{
    let one = choose|task: Task|
        {
            &&& after_submit == #[trigger] queue.submitted(task)
            &&& task.is_new(queue.next_task_id, priority, 0)
            &&& task.payload == payload
        };
    let other = choose|task: Task|
        {
            &&& after_submit_with_retries == #[trigger] queue.submitted(task)
            &&& task.is_new(queue.next_task_id, priority, 0)
            &&& task.payload == payload
        };
    assert(one == other.created_at(one.metadata.creation_time));
}

/// Dead letters are kept: none is changed or taken away.
pub proof fn law_dead_letters_are_kept(queue: QueueModel, ops: Seq<Operation>)
    ensures
        queue.state.dead_letters.is_prefix_of(run(queue, ops).state.dead_letters),
    decreases ops.len(),
{
    if ops.len() > 0 {
        law_dead_letters_are_kept(queue, ops.drop_last());
    }
}

/// The number of running workers is the number of health records.
pub open spec fn workers_tracked(state: StateModel) -> bool {
    state.active_workers == state.health.dom().len()
}

/// A worker starts under a number that no running worker has, and only running
/// workers ask what to do.
pub open spec fn orderly(state: StateModel, op: Operation) -> bool {
    match op {
        Operation::StartWorker(worker_id, _) => {
            &&& !state.health.contains_key(worker_id)
            &&& state.active_workers < usize::MAX
        },
        Operation::NextAction(worker_id) => state.health.contains_key(worker_id),
        _ => true,
    }
}

/// Every operation of the course is orderly when its turn comes.
pub open spec fn all_orderly(queue: QueueModel, ops: Seq<Operation>) -> bool
    decreases ops.len(),
{
    ops.len() > 0 ==> {
        &&& all_orderly(queue, ops.drop_last())
        &&& orderly(run(queue, ops.drop_last()).state, ops.last())
    }
}

/// The workers that run after a course of operations: those that ran before, with
/// those that started, and without those that were told to stop.
pub open spec fn running(queue: QueueModel, ops: Seq<Operation>) -> Set<usize>
    decreases ops.len(),
{
    if ops.len() == 0 {
        queue.state.health.dom()
    } else {
        let before = running(queue, ops.drop_last());
        let state = run(queue, ops.drop_last()).state;
        match ops.last() {
            Operation::StartWorker(worker_id, _) => before.insert(worker_id),
            Operation::NextAction(worker_id) => if state.front() is None && state.shutdown {
                before.remove(worker_id)
            } else {
                before
            },
            _ => before,
        }
    }
}

/// Every running worker has a health record, and nothing else has.
pub proof fn law_workers_have_records(queue: QueueModel, ops: Seq<Operation>)
    ensures
        run(queue, ops).state.health.dom() == running(queue, ops),
    decreases ops.len(),
{
    if ops.len() > 0 {
        law_workers_have_records(queue, ops.drop_last());
        assert(run(queue, ops).state.health.dom() =~= running(queue, ops));
    }
}

/// Nothing but a worker that ran at first or was started has a health record.
pub proof fn law_records_name_started_workers(
    queue: QueueModel,
    ops: Seq<Operation>,
    worker_id: usize,
)
    requires
        run(queue, ops).state.health.contains_key(worker_id),
    ensures
        queue.state.health.contains_key(worker_id) || exists|i: int|
            0 <= i < ops.len() && (#[trigger] ops[i] matches Operation::StartWorker(started, _)
                && started == worker_id),
    decreases ops.len(),
{
    if ops.len() > 0 {
        let before = ops.drop_last();
        if run(queue, before).state.health.contains_key(worker_id) {
            law_records_name_started_workers(queue, before, worker_id);
            if !queue.state.health.contains_key(worker_id) {
                let i = choose|i: int|
                    0 <= i < before.len() && (
                    #[trigger] before[i] matches Operation::StartWorker(started, _) && started
                        == worker_id);
                assert(ops[i] == before[i]);
            }
        } else {
            assert(ops[ops.len() - 1] == ops.last());
        }
    }
}

/// How many workers a course of operations starts.
pub open spec fn starts(ops: Seq<Operation>) -> nat
    decreases ops.len(),
{
    if ops.len() == 0 {
        0
    } else {
        starts(ops.drop_last()) + if ops.last() is StartWorker {
            1nat
        } else {
            0
        }
    }
}

/// The operation tells a worker to stop.
pub open spec fn is_exit(state: StateModel, op: Operation) -> bool {
    op is NextAction && state.front() is None && state.shutdown
}

/// How many workers a course of operations tells to stop.
pub open spec fn exits(queue: QueueModel, ops: Seq<Operation>) -> nat
    decreases ops.len(),
{
    if ops.len() == 0 {
        0
    } else {
        exits(queue, ops.drop_last()) + if is_exit(run(queue, ops.drop_last()).state, ops.last()) {
            1nat
        } else {
            0
        }
    }
}

/// One step up or down within the numbers below a bound.
proof fn lemma_mod_step(n: int, bound: int)
    requires
        bound > 1,
    ensures
        (n + 1) % bound == if n % bound == bound - 1 {
            0
        } else {
            n % bound + 1
        },
        (n - 1) % bound == if n % bound == 0 {
            bound - 1
        } else {
            n % bound - 1
        },
{
    let rest = n % bound;
    vstd::arithmetic::div_mod::lemma_mod_bound(n, bound);
    vstd::arithmetic::div_mod::lemma_add_mod_noop_right(1, n, bound);
    vstd::arithmetic::div_mod::lemma_add_mod_noop_right(-1, n, bound);
    vstd::arithmetic::div_mod::lemma_mod_self_0(bound);
    vstd::arithmetic::div_mod::lemma_mod_add_multiples_vanish(-1, bound);
    vstd::arithmetic::div_mod::lemma_small_mod((bound - 1) as nat, bound as nat);
    if rest < bound - 1 {
        vstd::arithmetic::div_mod::lemma_small_mod((rest + 1) as nat, bound as nat);
    }
    if rest > 0 {
        vstd::arithmetic::div_mod::lemma_small_mod((rest - 1) as nat, bound as nat);
    }
}

/// The count of running workers is the number of workers that started without those
/// that were told to stop, whatever numbers they run under, as far as the counter tells
/// before it starts again.
pub proof fn law_workers_are_counted(queue: QueueModel, ops: Seq<Operation>)
    ensures
        run(queue, ops).state.active_workers == (queue.state.active_workers + starts(ops) - exits(
            queue,
            ops,
        )) % (usize::MAX + 1),
    decreases ops.len(),
{
    if ops.len() == 0 {
        vstd::arithmetic::div_mod::lemma_small_mod(
            queue.state.active_workers as nat,
            (usize::MAX + 1) as nat,
        );
    } else {
        let before = ops.drop_last();
        law_workers_are_counted(queue, before);
        lemma_mod_step(
            queue.state.active_workers + starts(before) - exits(queue, before),
            usize::MAX + 1,
        );
    }
}

/// There are as many health records as running workers, as long as no two workers run
/// under one number.
pub proof fn law_records_match_the_count(queue: QueueModel, ops: Seq<Operation>)
    requires
        queue.wf(),
        workers_tracked(queue.state),
        all_possible(queue, ops),
        all_orderly(queue, ops),
    ensures
        workers_tracked(run(queue, ops).state),
        run(queue, ops).state.active_workers == running(queue, ops).len(),
    decreases ops.len(),
{
    law_workers_have_records(queue, ops);
    if ops.len() > 0 {
        law_records_match_the_count(queue, ops.drop_last());
        law_always_well_formed(queue, ops.drop_last());
        law_workers_have_records(queue, ops.drop_last());
    }
}

/// How many tasks the running workers with numbers below a bound have completed.
pub open spec fn completed_below(health: Map<usize, WorkerHealthData>, bound: nat) -> nat
    decreases bound,
{
    if bound == 0 {
        0
    } else {
        let worker_id = (bound - 1) as usize;
        completed_below(health, (bound - 1) as nat) + if health.contains_key(worker_id) {
            health[worker_id].tasks_completed as nat
        } else {
            0
        }
    }
}

/// How many tasks the running workers have completed.
pub open spec fn completed_by_all(health: Map<usize, WorkerHealthData>) -> nat {
    completed_below(health, (usize::MAX + 1) as nat)
}

/// How many tasks one worker has completed.
pub open spec fn completed_by(health: Map<usize, WorkerHealthData>, worker_id: usize) -> int {
    if health.contains_key(worker_id) {
        health[worker_id].tasks_completed as int
    } else {
        0
    }
}

/// A change of one worker's record changes the sum by as much.
proof fn lemma_sum_of_changed(
    old_health: Map<usize, WorkerHealthData>,
    health: Map<usize, WorkerHealthData>,
    worker_id: usize,
    bound: nat,
)
    requires
        bound <= usize::MAX + 1,
        forall|other: usize|
            other != worker_id ==> #[trigger] completed_by(health, other) == completed_by(
                old_health,
                other,
            ),
    ensures
        completed_below(health, bound) - completed_below(old_health, bound) == if worker_id
            < bound {
            completed_by(health, worker_id) - completed_by(old_health, worker_id)
        } else {
            0
        },
    decreases bound,
{
    if bound > 0 {
        let last = (bound - 1) as usize;
        lemma_sum_of_changed(old_health, health, worker_id, (bound - 1) as nat);
        assert(last == worker_id || completed_by(health, last) == completed_by(old_health, last));
    }
}

/// No worker stops, none starts under the number of a running one, and only running
/// workers complete tasks.
pub open spec fn all_staying(queue: QueueModel, ops: Seq<Operation>) -> bool
    decreases ops.len(),
{
    ops.len() > 0 ==> {
        let state = run(queue, ops.drop_last()).state;
        &&& all_staying(queue, ops.drop_last())
        &&& !is_exit(state, ops.last())
        &&& match ops.last() {
            Operation::StartWorker(worker_id, _) => !state.health.contains_key(worker_id),
            Operation::FinishTask(_, worker_id, result) => task::failure_message(result) is None
                ==> state.health.contains_key(worker_id),
            _ => true,
        }
    }
}

/// While no worker has stopped, the workers' counts add up to the counter of completed
/// tasks: failed and cancelled tasks do not count.
pub proof fn law_worker_counts_add_up(queue: QueueModel, ops: Seq<Operation>)
    requires
        all_possible(queue, ops),
        all_staying(queue, ops),
        queue.state.metrics.tasks_completed == completed_by_all(queue.state.health)
            % (model::counter_range() as nat),
    ensures
        run(queue, ops).state.metrics.tasks_completed == completed_by_all(
            run(queue, ops).state.health,
        ) % (model::counter_range() as nat),
    decreases ops.len(),
{
    if ops.len() > 0 {
        let old_health = run(queue, ops.drop_last()).state.health;
        let health = run(queue, ops).state.health;
        law_worker_counts_add_up(queue, ops.drop_last());
        match ops.last() {
            Operation::StartWorker(worker_id, _) | Operation::BeginTask(worker_id, _)
            | Operation::FinishTask(_, worker_id, _) => {
                lemma_sum_of_changed(
                    old_health,
                    health,
                    worker_id,
                    (usize::MAX + 1) as nat,
                );
            },
            _ => {},
        }
    }
}

/// The same from the start: until a worker stops, the workers' counts add up to the
/// counter of completed tasks.
pub proof fn law_worker_counts_add_up_from_the_start(ops: Seq<Operation>)
    requires
        all_possible(QueueModel::empty(), ops),
        all_staying(QueueModel::empty(), ops),
    ensures
        run(QueueModel::empty(), ops).state.metrics.tasks_completed == completed_by_all(
            run(QueueModel::empty(), ops).state.health,
        ) % (model::counter_range() as nat),
{
    lemma_nothing_below(StateModel::empty().health, (usize::MAX + 1) as nat);
    law_worker_counts_add_up(QueueModel::empty(), ops);
}

/// Without health records there is nothing to add up.
proof fn lemma_nothing_below(health: Map<usize, WorkerHealthData>, bound: nat)
    requires
        forall|worker_id: usize| !#[trigger] health.contains_key(worker_id),
    ensures
        completed_below(health, bound) == 0,
    decreases bound,
{
    if bound > 0 {
        lemma_nothing_below(health, (bound - 1) as nat);
    }
}

/// No task is dropped and no run fails.
pub open spec fn only_successes(ops: Seq<Operation>) -> bool {
    forall|i: int|
        0 <= i < ops.len() ==> {
            &&& !(#[trigger] ops[i] is FinishCancelled)
            &&& ops[i] matches Operation::FinishTask(_, _, result) ==> task::failure_message(result)
                is None
        }
}

/// Where no task is dropped and no run fails, nothing counts as such.
proof fn lemma_only_successes(ops: Seq<Operation>)
    requires
        only_successes(ops),
    ensures
        ({
            let state = run(QueueModel::empty(), ops).state;
            &&& state.metrics.tasks_failed == 0
            &&& state.metrics.tasks_cancelled == 0
            &&& state.metrics.tasks_retried == 0
            &&& state.dead_letters.len() == 0
        }),
        arrivals(ops) == submissions(ops),
    decreases ops.len(),
{
    if ops.len() > 0 {
        let before = ops.drop_last();
        assert forall|i: int| 0 <= i < before.len() implies {
            &&& !(#[trigger] before[i] is FinishCancelled)
            &&& before[i] matches Operation::FinishTask(_, _, result) ==> task::failure_message(
                result,
            ) is None
        } by {
            assert(before[i] == ops[i]);
        }
        lemma_only_successes(before);
        assert(ops[ops.len() - 1] == ops.last());
        assert(retried_by(ops.last()) =~= Seq::<Task>::empty());
        assert(arrivals(ops) =~= submissions(ops));
    }
}

/// When the last worker stops, all work is done: if no task was dropped, no run failed,
/// and the workers reported every task that they got, then as many tasks are completed as
/// were submitted, each submitted task has been handed out once, none is waiting, and no
/// worker is counted or has a record.
pub proof fn law_all_work_is_done_at_the_end(ops: Seq<Operation>)
    requires
        all_possible(QueueModel::empty(), ops),
        all_orderly(QueueModel::empty(), ops),
        only_successes(ops),
        handed_out(QueueModel::empty(), ops).len() == reports(ops),
        ops.len() > 0,
        is_exit(run(QueueModel::empty(), ops.drop_last()).state, ops.last()),
        starts(ops) == exits(QueueModel::empty(), ops),
    ensures
        ({
            let state = run(QueueModel::empty(), ops).state;
            &&& state.metrics.tasks_completed == submissions(ops).len() % (
            model::counter_range() as nat)
            &&& state.metrics.tasks_failed == 0
            &&& state.metrics.tasks_cancelled == 0
            &&& state.dead_letters.len() == 0
            &&& state.queued() == 0
            &&& state.active_workers == 0
            &&& state.health.dom() == Set::<usize>::empty()
        }),
        handed_out(QueueModel::empty(), ops).to_multiset() == submissions(ops).to_multiset(),
        handed_out(QueueModel::empty(), ops).len() == submissions(ops).len(),
{
    broadcast use vstd::multiset::group_multiset_axioms;
    broadcast use vstd::seq_lib::group_to_multiset_ensures;

    let start = QueueModel::empty();
    let state = run(start, ops).state;
    law_always_well_formed(start, ops.drop_last());
    law_next_task_heads_the_schedule(run(start, ops.drop_last()).state);
    law_always_well_formed(start, ops);
    law_next_task_heads_the_schedule(state);
    lemma_only_successes(ops);
    law_submissions_are_counted(start, ops);
    law_finished_work_is_counted(ops);
    law_each_task_is_handed_out_once(start, ops);
    assert(state.schedule() =~= Seq::<Task>::empty());
    assert(start.state.schedule() =~= Seq::<Task>::empty());
    let (out, came) = (handed_out(start, ops).to_multiset(), submissions(ops).to_multiset());
    assert(out =~= out.add(state.schedule().to_multiset()));
    assert(came =~= start.state.schedule().to_multiset().add(came));
    law_workers_are_counted(start, ops);
    vstd::arithmetic::div_mod::lemma_small_mod(0, (usize::MAX + 1) as nat);
    law_records_match_the_count(start, ops);
    assert(state.health.dom() =~= Set::<usize>::empty());
}

} // verus!
