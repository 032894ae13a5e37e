//! The work queue as mathematics: what its state is, and what each operation
//! makes of it.
use crate::task;
use crate::task::{RunResult, Task, TaskId};
use std::time::Instant;
use vstd::prelude::*;

verus! {

/// Counters of what has happened to tasks so far. A counter that is full starts
/// again from zero.
#[derive(Debug, Clone, Copy)]
pub struct Metrics {
    pub tasks_submitted: u64,
    pub tasks_completed: u64,
    pub tasks_failed: u64,
    pub tasks_cancelled: u64,
    pub tasks_retried: u64,
    pub tasks_dead_lettered: u64,
}

impl Default for Metrics {
    fn default() -> (metrics: Self)
        ensures
            metrics == StateModel::empty().metrics,
    {
        Metrics {
            tasks_submitted: 0,
            tasks_completed: 0,
            tasks_failed: 0,
            tasks_cancelled: 0,
            tasks_retried: 0,
            tasks_dead_lettered: 0,
        }
    }
}

/// What is known of a running worker: when it last took up a task, and how many
/// tasks it has completed.
pub struct WorkerHealthData {
    pub last_heartbeat: Instant,
    pub tasks_completed: u64,
}

/// The record of a task that failed for good.
#[verifier::ext_equal]
pub struct DeadLetter {
    pub id: TaskId,
    pub error: Seq<char>,
    pub attempts: usize,
}

/// The state that workers and submitters share.
#[verifier::ext_equal]
pub struct StateModel {
    /// The waiting tasks, by level of priority, each level in order of submission.
    pub queues: Seq<Seq<Task>>,
    /// The tasks that were cancelled and that no worker has come upon since.
    pub cancelled: Set<TaskId>,
    /// The tasks that failed, in order of failure.
    pub dead_letters: Seq<DeadLetter>,
    /// Whether the workers are to stop once no task is waiting.
    pub shutdown: bool,
    pub metrics: Metrics,
    pub active_workers: usize,
    /// The running workers, by number.
    pub health: Map<usize, WorkerHealthData>,
}

/// The queue that tasks are submitted to.
#[verifier::ext_equal]
pub struct QueueModel {
    pub state: StateModel,
    /// The id of the next task.
    pub next_task_id: TaskId,
}

/// One more, starting again from zero after the largest value.
pub open spec fn count_up(n: u64) -> u64 {
    if n == u64::MAX {
        0
    } else {
        (n + 1) as u64
    }
}

/// The number of values that a counter can take.
pub open spec fn counter_range() -> int {
    0x1_0000_0000_0000_0000
}

/// One worker more, starting again from zero after the largest value.
pub open spec fn workers_up(n: usize) -> usize {
    if n == usize::MAX {
        0
    } else {
        (n + 1) as usize
    }
}

/// One worker less, with the largest value below zero.
pub open spec fn workers_down(n: usize) -> usize {
    if n == 0 {
        usize::MAX
    } else {
        (n - 1) as usize
    }
}

impl StateModel {
    /// A queue that nothing has happened to.
    pub open spec fn empty() -> StateModel {
        StateModel {
            queues: seq![Seq::empty(), Seq::empty(), Seq::empty()],
            cancelled: Set::empty(),
            dead_letters: Seq::empty(),
            shutdown: false,
            metrics: Metrics {
                tasks_submitted: 0,
                tasks_completed: 0,
                tasks_failed: 0,
                tasks_cancelled: 0,
                tasks_retried: 0,
                tasks_dead_lettered: 0,
            },
            active_workers: 0,
            health: Map::empty(),
        }
    }

    /// How many tasks are waiting.
    pub open spec fn queued(self) -> nat {
        self.queues[0].len() + self.queues[1].len() + self.queues[2].len()
    }

    /// The waiting tasks in the order in which they will be handed out.
    pub open spec fn schedule(self) -> Seq<Task> {
        self.queues[0] + self.queues[1] + self.queues[2]
    }

    /// Every waiting task stands at the level of its priority and has not been tried
    /// more often than it may be.
    pub open spec fn levels_sorted(self) -> bool {
        forall|level: int, i: int|
            0 <= level < 3 && 0 <= i < self.queues[level].len() ==> {
                &&& (#[trigger] self.queues[level][i]).priority.level() == level
                &&& self.queues[level][i].metadata.retry_count
                    <= self.queues[level][i].metadata.max_retries
            }
    }

    /// Every failed attempt led to a retry or to a dead letter, as far as the counters
    /// tell before they start again from zero.
    pub open spec fn failures_recorded(self) -> bool {
        &&& (self.metrics.tasks_failed - self.metrics.tasks_retried - self.dead_letters.len())
            % counter_range() == 0
        &&& self.metrics.tasks_dead_lettered == self.dead_letters.len()
    }

    /// What holds of the state at every time.
    pub open spec fn wf(self) -> bool {
        &&& self.queues.len() == 3
        &&& self.queued() <= usize::MAX
        &&& self.levels_sorted()
        &&& self.failures_recorded()
        &&& self.health.dom().finite()
    }

    /// The highest level at which a task is waiting, or the lowest of all.
    pub open spec fn first_level(self) -> int {
        if self.queues[0].len() > 0 {
            0
        } else if self.queues[1].len() > 0 {
            1
        } else {
            2
        }
    }

    /// The task whose turn it is: the oldest one of the highest priority.
    pub open spec fn front(self) -> Option<Task> {
        let queue = self.queues[self.first_level()];
        if queue.len() > 0 {
            Some(queue[0])
        } else {
            None
        }
    }

    /// After the task whose turn it is has been taken out.
    pub open spec fn popped(self) -> StateModel {
        let level = self.first_level();
        StateModel { queues: self.queues.update(level, self.queues[level].drop_first()), ..self }
    }

    /// After a task has joined the tasks of its priority.
    pub open spec fn enqueued(self, task: Task) -> StateModel {
        let level = task.priority.level();
        StateModel {
            queues: self.queues.update(level, self.queues[level].push(task)),
            metrics: Metrics {
                tasks_submitted: count_up(self.metrics.tasks_submitted),
                ..self.metrics
            },
            ..self
        }
    }

    /// After a task has been marked as cancelled.
    pub open spec fn marked_cancelled(self, id: TaskId) -> StateModel {
        StateModel { cancelled: self.cancelled.insert(id), ..self }
    }

    /// After the workers have been told to stop.
    pub open spec fn shut_down(self) -> StateModel {
        StateModel { shutdown: true, ..self }
    }

    /// After a worker has started.
    pub open spec fn worker_joined(self, worker_id: usize, now: Instant) -> StateModel {
        StateModel {
            active_workers: workers_up(self.active_workers),
            health: self.health.insert(
                worker_id,
                WorkerHealthData { last_heartbeat: now, tasks_completed: 0 },
            ),
            ..self
        }
    }

    /// After a worker has stopped.
    pub open spec fn worker_left(self, worker_id: usize) -> StateModel {
        StateModel {
            active_workers: workers_down(self.active_workers),
            health: self.health.remove(worker_id),
            ..self
        }
    }

    /// After a worker has asked what to do next: it gets the task whose turn it is;
    /// if there is none, it stops where the queue is shut down.
    pub open spec fn asked(self, worker_id: usize) -> StateModel {
        if self.front() is Some {
            self.popped()
        } else if self.shutdown {
            self.worker_left(worker_id)
        } else {
            self
        }
    }

    /// After a worker has shown that it is alive. A worker that is not known stays
    /// unknown.
    pub open spec fn heartbeat(self, worker_id: usize, now: Instant) -> StateModel {
        if self.health.contains_key(worker_id) {
            StateModel {
                health: self.health.insert(
                    worker_id,
                    WorkerHealthData { last_heartbeat: now, ..self.health[worker_id] },
                ),
                ..self
            }
        } else {
            self
        }
    }

    /// After a task that was cancelled has been dropped.
    pub open spec fn task_cancelled(self, id: TaskId) -> StateModel {
        StateModel {
            cancelled: self.cancelled.remove(id),
            metrics: Metrics {
                tasks_cancelled: count_up(self.metrics.tasks_cancelled),
                ..self.metrics
            },
            ..self
        }
    }

    /// The worker can count one more completed task.
    pub open spec fn can_count(self, worker_id: usize) -> bool {
        self.health.contains_key(worker_id) ==> self.health[worker_id].tasks_completed < u64::MAX
    }

    /// After a worker has completed a task.
    pub open spec fn task_completed(self, worker_id: usize) -> StateModel {
        StateModel {
            metrics: Metrics {
                tasks_completed: count_up(self.metrics.tasks_completed),
                ..self.metrics
            },
            health: if self.health.contains_key(worker_id) {
                self.health.insert(
                    worker_id,
                    WorkerHealthData {
                        tasks_completed: (self.health[worker_id].tasks_completed + 1) as u64,
                        ..self.health[worker_id]
                    },
                )
            } else {
                self.health
            },
            ..self
        }
    }

    /// After a task has failed for good.
    pub open spec fn task_failed(self, letter: DeadLetter) -> StateModel {
        StateModel {
            dead_letters: self.dead_letters.push(letter),
            metrics: Metrics {
                tasks_failed: count_up(self.metrics.tasks_failed),
                tasks_dead_lettered: count_up(self.metrics.tasks_dead_lettered),
                ..self.metrics
            },
            ..self
        }
    }

    /// After an attempt at a task has failed and the task has joined the tasks of its priority again.
    pub open spec fn task_retried(self, task: Task) -> StateModel {
        let level = task.priority.level();
        StateModel {
            queues: self.queues.update(level, self.queues[level].push(task.retried())),
            metrics: Metrics {
                tasks_failed: count_up(self.metrics.tasks_failed),
                tasks_retried: count_up(self.metrics.tasks_retried),
                ..self.metrics
            },
            ..self
        }
    }

    /// After an attempt at a task has failed: the task is tried again if it has
    /// retries left, and ends in the dead letters if not.
    pub open spec fn attempt_failed(self, task: Task, error: Seq<char>) -> StateModel {
        if task.has_retries_left() {
            self.task_retried(task)
        } else {
            self.task_failed(
                DeadLetter {
                    id: task.id,
                    error,
                    attempts: (task.metadata.retry_count + 1) as usize,
                },
            )
        }
    }

    /// There is room for what a failed attempt at a task leaves behind: the task in its
    /// queue, or the number of attempts in a dead letter.
    pub open spec fn can_fail(self, task: Task) -> bool {
        if task.has_retries_left() {
            self.queued() < usize::MAX
        } else {
            task.metadata.retry_count < usize::MAX
        }
    }

    /// After a worker has run the payload of a task.
    pub open spec fn task_finished(
        self,
        task: Task,
        worker_id: usize,
        result: RunResult,
    ) -> StateModel {
        match task::failure_message(result) {
            None => self.task_completed(worker_id),
            Some(error) => self.attempt_failed(task, error),
        }
    }
}

impl QueueModel {
    /// A queue that nothing has happened to. Ids start from one.
    pub open spec fn empty() -> QueueModel {
        QueueModel { state: StateModel::empty(), next_task_id: 1 }
    }

    /// What holds of the queue at every time.
    pub open spec fn wf(self) -> bool {
        self.state.wf()
    }

    /// After a task has been submitted.
    pub open spec fn submitted(self, task: Task) -> QueueModel {
        QueueModel {
            state: self.state.enqueued(task),
            next_task_id: count_up(self.next_task_id),
        }
    }
}

} // verus!
