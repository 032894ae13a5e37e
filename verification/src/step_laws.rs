//! What each operation on the work queue does, told by the parts of the state that it
//! changes and by those that it leaves as they were.
use crate::model;
use crate::model::{Metrics, QueueModel, StateModel};
use crate::task;
use crate::task::{PanicMessage, Priority, RunResult, Task, TaskError, TaskId, TaskMetadata};
use crate::text;
use std::time::Instant;
use vstd::prelude::*;

verus! {

/// The three priorities have the three levels, the higher priority the smaller level.
pub proof fn law_levels_order_priorities(priority: Priority)
    ensures
        0 <= priority.level() < 3,
        Priority::High.level() < Priority::Medium.level() < Priority::Low.level(),
{
}

/// Counting adds one, modulo the number of values of the counter.
pub proof fn law_counting_adds_one(n: u64)
    ensures
        model::count_up(n) == (n + 1) % 0x1_0000_0000_0000_0000,
        n < u64::MAX ==> model::count_up(n) == n + 1,
        model::counter_range() == u64::MAX + 1,
{
}

/// A worker more and a worker less undo each other, and are one more and one less as long
/// as the counter can tell.
pub proof fn law_counting_workers(n: usize)
    ensures
        n < usize::MAX ==> model::workers_up(n) == n + 1,
        n > 0 ==> model::workers_down(n) == n - 1,
        model::workers_up(usize::MAX) == 0,
        model::workers_down(model::workers_up(n)) == n,
        model::workers_up(model::workers_down(n)) == n,
{
}

/// A task is new if it has the id, the priority and the number of retries that it was
/// given and has not been tried.
pub proof fn law_new_tasks(task: Task, id: TaskId, priority: Priority, max_retries: usize)
    ensures
        task.is_new(id, priority, max_retries) <==> task.id == id && task.priority == priority
            && task.metadata.max_retries == max_retries && task.metadata.retry_count == 0,
{
}

/// A task has retries left as long as it has been tried again fewer times than it may be.
pub proof fn law_retries_left(task: Task)
    ensures
        task.has_retries_left() <==> task.metadata.max_retries - task.metadata.retry_count >= 1,
{
}

/// A task that is put back has been tried once more, and is otherwise the same task: id,
/// priority, payload, limit of retries and moment of creation are as they were.
pub proof fn law_put_back_task_is_the_same(task: Task)
    requires
        task.metadata.retry_count < task.metadata.max_retries,
    ensures
        task.retried().metadata.retry_count == task.metadata.retry_count + 1,
        task.retried().metadata.max_retries == task.metadata.max_retries,
        task.retried().metadata.creation_time == task.metadata.creation_time,
        task.retried().id == task.id,
        task.retried().priority == task.priority,
        task.retried().payload == task.payload,
{
}

/// Only the moment of creation tells a task from the same task created at another moment.
pub proof fn law_created_at_another_moment(task: Task, moment: Instant)
    ensures
        task.created_at(moment).metadata.creation_time == moment,
        task.created_at(moment).metadata.retry_count == task.metadata.retry_count,
        task.created_at(moment).metadata.max_retries == task.metadata.max_retries,
        task.created_at(moment).id == task.id,
        task.created_at(moment).priority == task.priority,
        task.created_at(moment).payload == task.payload,
{
}

/// A run failed unless its payload returned a success: every error and every panic is a
/// failure, whatever its text.
pub proof fn law_only_success_is_no_failure(result: RunResult)
    ensures
        task::failure_message(result) is None <==> (result matches Ok(Ok(_))),
{
}

/// The message of a panic with a text is `Panic: ` and the whole text.
pub proof fn law_panic_message_holds_the_text(words: String)
    ensures
        ({
            let message = PanicMessage::Text(words).message();
            &&& message.len() == words@.len() + 7
            &&& message.take(7) == seq!['P', 'a', 'n', 'i', 'c', ':', ' ']
            &&& message.skip(7) == words@
        }),
        PanicMessage::Unknown.message() == "Panic with unknown type"@,
{
    reveal_strlit("Panic: ");
    let message = PanicMessage::Text(words).message();
    assert(message.take(7) =~= seq!['P', 'a', 'n', 'i', 'c', ':', ' ']);
    assert(message.skip(7) =~= words@);
}

/// The debug form of an error is the name of its variant, with the quoted reason in
/// brackets where it has one.
pub proof fn law_debug_form_of_errors(reason: String)
    ensures
        TaskError::Cancelled.debug_text() == "Cancelled"@,
        TaskError::ExecutionFailed(reason).debug_text() == "ExecutionFailed("@ + text::quoted(
            reason@,
        ) + ")"@,
        TaskError::Panic(reason).debug_text() == "Panic("@ + text::quoted(reason@) + ")"@,
{
    reveal_strlit("ExecutionFailed");
    reveal_strlit("ExecutionFailed(");
    reveal_strlit("Panic");
    reveal_strlit("Panic(");
    reveal_strlit("(");
    assert("ExecutionFailed"@ + "("@ =~= "ExecutionFailed("@);
    assert("Panic"@ + "("@ =~= "Panic("@);
}

/// The message of a failed run is `Task error: ` and the debug form of the error, or the
/// message of the panic.
pub proof fn law_failure_messages(error: TaskError, panic: PanicMessage)
    ensures
        task::failure_message(Ok(Err(error))) == Some("Task error: "@ + error.debug_text()),
        task::failure_message(Err(panic)) == Some(panic.message()),
{
}

/// In a new queue nothing is waiting, nothing is counted and no worker is running; the
/// first id is one.
pub proof fn law_new_queue_is_empty()
    ensures
        ({
            let state = StateModel::empty();
            &&& state.queues.len() == 3
            &&& forall|level: int| 0 <= level < 3 ==> (#[trigger] state.queues[level]).len() == 0
            &&& forall|id: TaskId| !#[trigger] state.cancelled.contains(id)
            &&& state.dead_letters.len() == 0
            &&& !state.shutdown
            &&& state.metrics.tasks_submitted == 0
            &&& state.metrics.tasks_completed == 0
            &&& state.metrics.tasks_failed == 0
            &&& state.metrics.tasks_cancelled == 0
            &&& state.metrics.tasks_retried == 0
            &&& state.metrics.tasks_dead_lettered == 0
            &&& state.active_workers == 0
            &&& forall|worker_id: usize| !#[trigger] state.health.contains_key(worker_id)
        }),
        QueueModel::empty().state == StateModel::empty(),
        QueueModel::empty().next_task_id == 1,
{
}

/// What is asked of the state of a queue is this and no more.
pub proof fn law_what_is_asked_of_a_state(queue: QueueModel, task: Task, worker_id: usize)
    ensures
        ({
            let state = queue.state;
            queue.wf() <==> {
                &&& state.queues.len() == 3
                &&& state.queues[0].len() + state.queues[1].len() + state.queues[2].len()
                    <= usize::MAX
                &&& forall|level: int, i: int|
                    0 <= level < 3 && 0 <= i < state.queues[level].len() ==> (
                    #[trigger] state.queues[level][i]).priority.level() == level
                        && state.queues[level][i].metadata.retry_count
                        <= state.queues[level][i].metadata.max_retries
                &&& (state.metrics.tasks_failed - state.metrics.tasks_retried
                    - state.dead_letters.len()) % 0x1_0000_0000_0000_0000 == 0
                &&& state.metrics.tasks_dead_lettered == state.dead_letters.len()
                &&& state.health.dom().finite()
            }
        }),
        queue.wf() <==> queue.state.wf(),
        queue.state.can_count(worker_id) <==> (queue.state.health.contains_key(worker_id)
            ==> queue.state.health[worker_id].tasks_completed != u64::MAX),
        queue.state.can_fail(task) <==> (if task.metadata.retry_count
            < task.metadata.max_retries {
            queue.state.queues[0].len() + queue.state.queues[1].len()
                + queue.state.queues[2].len() < usize::MAX
        } else {
            task.metadata.retry_count < usize::MAX
        }),
{
}

/// The number of waiting tasks is the sum over the levels.
pub proof fn law_waiting_tasks_are_those_of_all_levels(state: StateModel)
    ensures
        state.queued() == state.queues[0].len() + state.queues[1].len() + state.queues[2].len(),
        state.schedule() == state.queues[0] + (state.queues[1] + state.queues[2]),
{
    assert(state.schedule() =~= state.queues[0] + (state.queues[1] + state.queues[2]));
}

/// The task whose turn it is stands first at its level, and nothing is waiting at the
/// levels above. It is no one's turn exactly if nothing is waiting at all.
pub proof fn law_whose_turn_it_is(state: StateModel)
    requires
        state.queues.len() == 3,
    ensures
        state.front() is None <==> forall|level: int|
            0 <= level < 3 ==> (#[trigger] state.queues[level]).len() == 0,
        forall|level: int|
            0 <= level < 3 && (#[trigger] state.queues[level]).len() > 0 && (forall|above: int|
                0 <= above < level ==> (#[trigger] state.queues[above]).len() == 0)
                ==> state.front() == Some(state.queues[level][0]),
{
    assert(state.queues[0].len() >= 0 && state.queues[1].len() >= 0 && state.queues[2].len() >= 0);
    if state.front() is None {
        assert forall|level: int| 0 <= level < 3 implies (#[trigger] state.queues[level]).len()
            == 0 by {
            assert(level == 0 || level == 1 || level == 2);
        }
    }
    assert forall|level: int|
        0 <= level < 3 && (#[trigger] state.queues[level]).len() > 0 && (forall|above: int|
            0 <= above < level ==> (#[trigger] state.queues[above]).len() == 0) implies state.front()
        == Some(state.queues[level][0]) by {
        assert(level == 0 || level == 1 || level == 2);
    }
}

/// Taking out the task whose turn it is moves the others of its level up by one and
/// changes nothing else.
pub proof fn law_taking_a_task_out(state: StateModel, level: int)
    requires
        state.queues.len() == 3,
        0 <= level < 3,
        state.queues[level].len() > 0,
        forall|above: int| 0 <= above < level ==> (#[trigger] state.queues[above]).len() == 0,
    ensures
        ({
            let now = state.popped();
            &&& now == (StateModel { queues: now.queues, ..state })
            &&& now.queues.len() == 3
            &&& now.queues[level].len() == state.queues[level].len() - 1
            &&& forall|i: int|
                0 <= i < now.queues[level].len() ==> #[trigger] now.queues[level][i]
                    == state.queues[level][i + 1]
            &&& forall|other: int|
                0 <= other < 3 && other != level ==> #[trigger] now.queues[other]
                    == state.queues[other]
        }),
{
    assert(level == 0 || level == 1 || level == 2);
    assert(level > 0 ==> state.queues[0].len() == 0);
    assert(level > 1 ==> state.queues[1].len() == 0);
}

/// A worker that asks takes the task whose turn it is. If there is none it leaves the
/// state as it is, unless the queue is shut down: then it is counted out and its record
/// goes.
pub proof fn law_asking(state: StateModel, worker_id: usize)
    requires
        state.queues.len() == 3,
    ensures
        state.front() is Some ==> state.asked(worker_id) == state.popped(),
        state.front() is None && !state.shutdown ==> state.asked(worker_id) == state,
        state.front() is None && state.shutdown ==> {
            let now = state.asked(worker_id);
            &&& now == (StateModel {
                active_workers: now.active_workers,
                health: now.health,
                ..state
            })
            &&& state.active_workers > 0 ==> now.active_workers == state.active_workers - 1
            &&& state.active_workers == 0 ==> now.active_workers == usize::MAX
            &&& forall|other: usize| #[trigger]
                now.health.contains_key(other) <==> other != worker_id
                    && state.health.contains_key(other)
            &&& forall|other: usize| #[trigger]
                now.health.contains_key(other) ==> now.health[other] == state.health[other]
        },
{
}

/// A submitted task is the last of its priority afterwards, with the others before it as
/// they were; one submission more is counted, the next id is one more, and nothing else
/// changes.
pub proof fn law_submitting(queue: QueueModel, task: Task)
    requires
        queue.state.queues.len() == 3,
    ensures
        ({
            let (state, now) = (queue.state, queue.submitted(task).state);
            let level = task.priority.level();
            &&& now == state.enqueued(task)
            &&& queue.submitted(task).next_task_id == (queue.next_task_id + 1)
                % 0x1_0000_0000_0000_0000
            &&& now == (StateModel { queues: now.queues, metrics: now.metrics, ..state })
            &&& now.queues.len() == 3
            &&& now.queues[level].len() == state.queues[level].len() + 1
            &&& now.queues[level].last() == task
            &&& forall|i: int|
                0 <= i < state.queues[level].len() ==> #[trigger] now.queues[level][i]
                    == state.queues[level][i]
            &&& forall|other: int|
                0 <= other < 3 && other != level ==> #[trigger] now.queues[other]
                    == state.queues[other]
            &&& now.metrics == (Metrics {
                tasks_submitted: now.metrics.tasks_submitted,
                ..state.metrics
            })
            &&& now.metrics.tasks_submitted == (state.metrics.tasks_submitted + 1)
                % 0x1_0000_0000_0000_0000
        }),
{
}

/// Cancelling a task marks it, whatever else is marked, and marks and unmarks no other; it
/// changes nothing else.
pub proof fn law_cancelling_marks_the_task(state: StateModel, id: TaskId)
    ensures
        ({
            let now = state.marked_cancelled(id);
            &&& now == (StateModel { cancelled: now.cancelled, ..state })
            &&& now.cancelled.contains(id)
            &&& forall|other: TaskId|
                other != id ==> (#[trigger] now.cancelled.contains(other)
                    <==> state.cancelled.contains(other))
        }),
{
}

/// Shutting down sets the flag in every state and changes nothing else.
pub proof fn law_shutting_down_sets_the_flag(state: StateModel)
    ensures
        state.shut_down().shutdown,
        state.shut_down() == (StateModel { shutdown: state.shut_down().shutdown, ..state }),
{
}

/// After a shutdown, a worker that finds nothing waiting stops, from whatever state: its
/// record goes and, where workers are counted, one less is.
pub proof fn law_after_shutdown_workers_stop(state: StateModel, worker_id: usize)
    requires
        state.queues.len() == 3,
        forall|level: int| 0 <= level < 3 ==> (#[trigger] state.queues[level]).len() == 0,
    ensures
        state.shut_down().shutdown,
        state.shut_down().front() is None,
        !state.shut_down().asked(worker_id).health.contains_key(worker_id),
        state.active_workers > 0 ==> state.shut_down().asked(worker_id).active_workers
            == state.active_workers - 1,
{
    law_whose_turn_it_is(state.shut_down());
}

/// A worker that starts is counted and gets a record with no completed tasks and the
/// moment of its start; the other records and everything else stay.
pub proof fn law_starting_a_worker(state: StateModel, worker_id: usize, now: Instant)
    ensures
        ({
            let after = state.worker_joined(worker_id, now);
            &&& after == (StateModel {
                active_workers: after.active_workers,
                health: after.health,
                ..state
            })
            &&& state.active_workers < usize::MAX ==> after.active_workers == state.active_workers
                + 1
            &&& state.active_workers == usize::MAX ==> after.active_workers == 0
            &&& after.health.contains_key(worker_id)
            &&& after.health[worker_id].tasks_completed == 0
            &&& after.health[worker_id].last_heartbeat == now
            &&& forall|other: usize|
                other != worker_id ==> (#[trigger] after.health.contains_key(other)
                    <==> state.health.contains_key(other))
            &&& forall|other: usize|
                other != worker_id && #[trigger] after.health.contains_key(other)
                    ==> after.health[other] == state.health[other]
        }),
{
}

/// A worker that takes up a task has its heartbeat moved and keeps its count; a worker
/// without a record stays without, and everything else stays.
pub proof fn law_heartbeat_moves(state: StateModel, worker_id: usize, now: Instant)
    ensures
        ({
            let after = state.heartbeat(worker_id, now);
            &&& after == (StateModel { health: after.health, ..state })
            &&& forall|other: usize| #[trigger]
                after.health.contains_key(other) <==> state.health.contains_key(other)
            &&& state.health.contains_key(worker_id) ==> {
                &&& after.health[worker_id].last_heartbeat == now
                &&& after.health[worker_id].tasks_completed
                    == state.health[worker_id].tasks_completed
            }
            &&& forall|other: usize|
                other != worker_id && #[trigger] after.health.contains_key(other)
                    ==> after.health[other] == state.health[other]
        }),
{
}

/// Dropping a cancelled task takes its mark away and no other, counts one cancelled task
/// more, and changes nothing else.
pub proof fn law_dropping_a_cancelled_task(state: StateModel, id: TaskId)
    ensures
        ({
            let now = state.task_cancelled(id);
            &&& now == (StateModel { cancelled: now.cancelled, metrics: now.metrics, ..state })
            &&& forall|other: TaskId| #[trigger]
                now.cancelled.contains(other) <==> other != id && state.cancelled.contains(other)
            &&& now.metrics == (Metrics {
                tasks_cancelled: now.metrics.tasks_cancelled,
                ..state.metrics
            })
            &&& now.metrics.tasks_cancelled == (state.metrics.tasks_cancelled + 1)
                % 0x1_0000_0000_0000_0000
        }),
{
}

/// A run that succeeded counts one completed task more, in all and for the worker if it
/// has a record, and changes nothing else.
pub proof fn law_success_is_counted(
    state: StateModel,
    task: Task,
    worker_id: usize,
    result: RunResult,
)
    requires
        result matches Ok(Ok(_)),
        state.health.contains_key(worker_id) ==> state.health[worker_id].tasks_completed
            < u64::MAX,
    ensures
        ({
            let now = state.task_finished(task, worker_id, result);
            &&& now == state.task_completed(worker_id)
            &&& now == (StateModel { metrics: now.metrics, health: now.health, ..state })
            &&& now.metrics == (Metrics {
                tasks_completed: now.metrics.tasks_completed,
                ..state.metrics
            })
            &&& now.metrics.tasks_completed == (state.metrics.tasks_completed + 1)
                % 0x1_0000_0000_0000_0000
            &&& forall|other: usize| #[trigger]
                now.health.contains_key(other) <==> state.health.contains_key(other)
            &&& state.health.contains_key(worker_id) ==> {
                &&& now.health[worker_id].tasks_completed == state.health[worker_id].tasks_completed
                    + 1
                &&& now.health[worker_id].last_heartbeat == state.health[worker_id].last_heartbeat
            }
            &&& forall|other: usize|
                other != worker_id && #[trigger] now.health.contains_key(other)
                    ==> now.health[other] == state.health[other]
        }),
{
}

/// A run that returned an error or panicked, of a task that has been tried again fewer
/// times than it may be, counts one failed task and one retry more and puts the task back
/// as the last of its priority, tried once more. No task counts as completed, no worker's
/// record changes, no dead letter is written, and nothing else changes.
pub proof fn law_failure_with_retries_left(
    state: StateModel,
    task: Task,
    worker_id: usize,
    result: RunResult,
)
    requires
        state.queues.len() == 3,
        !(result matches Ok(Ok(_))),
        task.metadata.retry_count < task.metadata.max_retries,
    ensures
        ({
            let now = state.task_finished(task, worker_id, result);
            let level = task.priority.level();
            &&& now == (StateModel { queues: now.queues, metrics: now.metrics, ..state })
            &&& now.queues.len() == 3
            &&& now.queues[level].len() == state.queues[level].len() + 1
            &&& now.queues[level].last() == (Task {
                metadata: TaskMetadata {
                    retry_count: (task.metadata.retry_count + 1) as usize,
                    ..task.metadata
                },
                ..task
            })
            &&& forall|i: int|
                0 <= i < state.queues[level].len() ==> #[trigger] now.queues[level][i]
                    == state.queues[level][i]
            &&& forall|other: int|
                0 <= other < 3 && other != level ==> #[trigger] now.queues[other]
                    == state.queues[other]
            &&& now.metrics == (Metrics {
                tasks_failed: now.metrics.tasks_failed,
                tasks_retried: now.metrics.tasks_retried,
                ..state.metrics
            })
            &&& now.metrics.tasks_failed == (state.metrics.tasks_failed + 1)
                % 0x1_0000_0000_0000_0000
            &&& now.metrics.tasks_retried == (state.metrics.tasks_retried + 1)
                % 0x1_0000_0000_0000_0000
        }),
{
}

/// A run that returned an error or panicked, of a task that has been tried again as often
/// as it may be, counts one failed task and one dead letter more and writes a dead letter,
/// behind the others, with the id of the task, what went wrong, and one attempt more than
/// it had been tried again. No task counts as completed, no worker's record changes, no
/// task is put back, and nothing else changes.
pub proof fn law_failure_without_retries_left(
    state: StateModel,
    task: Task,
    worker_id: usize,
    result: RunResult,
)
    requires
        !(result matches Ok(Ok(_))),
        task.metadata.max_retries <= task.metadata.retry_count < usize::MAX,
    ensures
        ({
            let now = state.task_finished(task, worker_id, result);
            &&& now == (StateModel {
                dead_letters: now.dead_letters,
                metrics: now.metrics,
                ..state
            })
            &&& now.dead_letters.len() == state.dead_letters.len() + 1
            &&& forall|i: int|
                0 <= i < state.dead_letters.len() ==> #[trigger] now.dead_letters[i]
                    == state.dead_letters[i]
            &&& now.dead_letters.last().id == task.id
            &&& now.dead_letters.last().attempts == task.metadata.retry_count + 1
            &&& match result {
                Ok(Err(TaskError::Cancelled)) => now.dead_letters.last().error
                    == "Task error: Cancelled"@,
                Ok(Err(TaskError::ExecutionFailed(reason))) => now.dead_letters.last().error
                    == "Task error: ExecutionFailed("@ + text::quoted(reason@) + ")"@,
                Ok(Err(TaskError::Panic(reason))) => now.dead_letters.last().error
                    == "Task error: Panic("@ + text::quoted(reason@) + ")"@,
                Err(PanicMessage::Text(words)) => now.dead_letters.last().error == "Panic: "@
                    + words@,
                Err(PanicMessage::Unknown) => now.dead_letters.last().error
                    == "Panic with unknown type"@,
                Ok(Ok(_)) => false,
            }
            &&& now.metrics == (Metrics {
                tasks_failed: now.metrics.tasks_failed,
                tasks_dead_lettered: now.metrics.tasks_dead_lettered,
                ..state.metrics
            })
            &&& now.metrics.tasks_failed == (state.metrics.tasks_failed + 1)
                % 0x1_0000_0000_0000_0000
            &&& now.metrics.tasks_dead_lettered == (state.metrics.tasks_dead_lettered + 1)
                % 0x1_0000_0000_0000_0000
        }),
{
    reveal_strlit("Task error: ");
    reveal_strlit("Cancelled");
    reveal_strlit("ExecutionFailed");
    reveal_strlit("Panic");
    reveal_strlit("(");
    reveal_strlit("Task error: Cancelled");
    reveal_strlit("Task error: ExecutionFailed(");
    reveal_strlit("Task error: Panic(");
    assert("Task error: "@ + "Cancelled"@ =~= "Task error: Cancelled"@);
    assert("Task error: "@ + "ExecutionFailed"@ + "("@ =~= "Task error: ExecutionFailed("@);
    assert("Task error: "@ + "Panic"@ + "("@ =~= "Task error: Panic("@);
    if let Ok(Err(error)) = result {
        match error {
            TaskError::ExecutionFailed(reason) => {
                assert("Task error: "@ + error.debug_text() =~= "Task error: ExecutionFailed("@
                    + text::quoted(reason@) + ")"@);
            },
            TaskError::Panic(reason) => {
                assert("Task error: "@ + error.debug_text() =~= "Task error: Panic("@
                    + text::quoted(reason@) + ")"@);
            },
            TaskError::Cancelled => {},
        }
    }
}

/// A failed attempt has the same outcome by whichever way its message is reported, but for
/// that message.
pub proof fn law_failed_attempts(state: StateModel, task: Task, error: Seq<char>)
    requires
        state.queues.len() == 3,
        task.metadata.retry_count < usize::MAX,
    ensures
        task.metadata.retry_count < task.metadata.max_retries ==> state.attempt_failed(task, error)
            == state.task_finished(task, 0, Err(PanicMessage::Unknown)),
        task.metadata.retry_count >= task.metadata.max_retries ==> {
            let now = state.attempt_failed(task, error);
            &&& now.dead_letters.len() == state.dead_letters.len() + 1
            &&& now.dead_letters.last().error == error
            &&& now.dead_letters.last().id == task.id
            &&& now.dead_letters.last().attempts == task.metadata.retry_count + 1
            &&& now == (StateModel {
                dead_letters: now.dead_letters,
                ..state.task_finished(task, 0, Err(PanicMessage::Unknown))
            })
            &&& now.dead_letters.drop_last() == state.dead_letters
        },
{
    assert(state.attempt_failed(task, error).dead_letters.len() > 0
        && task.metadata.retry_count >= task.metadata.max_retries
        ==> state.attempt_failed(task, error).dead_letters.drop_last() =~= state.dead_letters);
}

} // verus!
