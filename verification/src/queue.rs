//! The work queue: tasks go in by priority, and workers ask what to do next.
//!
//! A worker starts with [`SharedState::start_worker`] and then asks
//! [`SharedState::next_action`] over and over. For each task that it gets it asks
//! [`SharedState::begin_task`] whether to run it, and reports what came of it with
//! [`SharedState::finish_task`] or [`SharedState::finish_cancelled`].
use crate::model;
use crate::model::{DeadLetter, Metrics, QueueModel, StateModel, WorkerHealthData};
use crate::task;
use crate::task::{Priority, RunResult, Task, TaskId, TaskPayload};
use std::collections::{HashMap, HashSet, VecDeque};
use std::time::Instant;
use vstd::prelude::*;

verus! {

/// A task that failed for good.
pub struct FailedTaskInfo {
    pub id: TaskId,
    pub error: String,
    pub attempts: usize,
}

impl View for FailedTaskInfo {
    type V = DeadLetter;

    open spec fn view(&self) -> DeadLetter {
        DeadLetter { id: self.id, error: self.error@, attempts: self.attempts }
    }
}

/// The shared state of the whole work queue system.
pub struct SharedState {
    /// The waiting tasks: one queue per priority, so that tasks of one priority
    /// stay in order of submission.
    queues: Vec<VecDeque<Task>>,
    cancelled_tasks: HashSet<TaskId>,
    dead_letter_queue: Vec<FailedTaskInfo>,
    shutdown: bool,
    metrics: Metrics,
    active_workers: usize,
    worker_health: HashMap<usize, WorkerHealthData>,
}

/// What a worker does next.
pub enum WorkerAction {
    /// Take up a task.
    Process(Task),
    /// Sleep until new work arrives or the queue is shut down.
    Wait,
    /// Stop: the queue is shut down and no task is waiting.
    Exit,
}

/// What a worker does with a task.
#[derive(Debug, Clone, Copy, PartialEq, Eq, Structural)]
pub enum TaskAction {
    /// Run the payload.
    Execute,
    /// Give the payload a chance to clean up, and drop the task.
    Cancel,
}

/// Counts one more.
fn count_up(n: u64) -> (next: u64)
    ensures
        next == model::count_up(n),
{
    n.wrapping_add(1)
}

impl View for SharedState {
    type V = StateModel;

    closed spec fn view(&self) -> StateModel {
        StateModel {
            queues: self.queues@.map_values(|queue: VecDeque<Task>| queue@),
            cancelled: self.cancelled_tasks@,
            dead_letters: self.dead_letter_queue@.map_values(|info: FailedTaskInfo| info@),
            shutdown: self.shutdown,
            metrics: self.metrics,
            active_workers: self.active_workers,
            health: self.worker_health@,
        }
    }
}

impl SharedState {
    /// Creates the state of a queue that nothing has happened to.
    pub fn new() -> (state: Self)
        ensures
            state@ == StateModel::empty(),
            state@.wf(),
    {
        let mut queues: Vec<VecDeque<Task>> = Vec::new();
        queues.push(VecDeque::new());
        queues.push(VecDeque::new());
        queues.push(VecDeque::new());
        let state = SharedState {
            queues,
            cancelled_tasks: HashSet::new(),
            dead_letter_queue: Vec::new(),
            shutdown: false,
            metrics: Metrics::default(),
            active_workers: 0,
            worker_health: HashMap::new(),
        };
        state
    }

    /// Whether the queue is shut down.
    pub fn is_shutdown(&self) -> (down: bool)
        ensures
            down == self@.shutdown,
    {
        self.shutdown
    }

    /// Scans the queues from the highest priority to the lowest and takes out the
    /// first task that it finds, the oldest one of its priority.
    pub fn pop_highest_priority(&mut self) -> (task: Option<Task>)
        requires
            old(self)@.wf(),
        ensures
            task == old(self)@.front(),
            task is Some ==> final(self)@ == old(self)@.popped(),
            task is None ==> final(self)@ == old(self)@,
            final(self)@.wf(),
    {
        let priorities = Priority::all();
        let mut next: usize = 0;
        while next < 3
            invariant
                next <= 3,
                self@ == old(self)@,
                self@.wf(),
                self.queues@.len() == 3,
                forall|i: int| 0 <= i < 3 ==> (#[trigger] priorities@[i]).level() == i,
                forall|level: int| 0 <= level < next ==> (#[trigger] self@.queues[level]).len() == 0,
            decreases 3 - next,
        {
            let level = priorities[next].as_usize();
            if let Some(task) = self.queues[level].pop_front() {
                proof {
                    let queue = old(self)@.queues[level as int];
                    assert(queue.drop_first() =~= queue.subrange(1, queue.len() as int));
                }
                return Some(task);
            }
            next = next + 1;
        }
        None
    }

    /// Decides what a worker does next. A waiting task comes first, also after a
    /// shutdown; a worker that is told to exit is no longer counted.
    pub fn next_action(&mut self, worker_id: usize) -> (action: WorkerAction)
        requires
            old(self)@.wf(),
        ensures
            match action {
                WorkerAction::Process(task) => old(self)@.front() == Some(task),
                WorkerAction::Wait => old(self)@.front() is None && !old(self)@.shutdown,
                WorkerAction::Exit => old(self)@.front() is None && old(self)@.shutdown,
            },
            final(self)@ == old(self)@.asked(worker_id),
            final(self)@.wf(),
    {
        if let Some(task) = self.pop_highest_priority() {
            return WorkerAction::Process(task);
        }
        if self.is_shutdown() {
            self.active_workers = self.active_workers.wrapping_sub(1);
            self.worker_health.remove(&worker_id);
            WorkerAction::Exit
        } else {
            WorkerAction::Wait
        }
    }

    /// Enters a worker that starts at a given moment.
    pub fn start_worker_at(&mut self, worker_id: usize, now: Instant)
        requires
            old(self)@.wf(),
        ensures
            final(self)@ == old(self)@.worker_joined(worker_id, now),
            final(self)@.wf(),
    {
        self.active_workers = self.active_workers.wrapping_add(1);
        self.worker_health.insert(
            worker_id,
            WorkerHealthData { last_heartbeat: now, tasks_completed: 0 },
        );
    }

    /// Enters a worker that starts now.
    pub fn start_worker(&mut self, worker_id: usize)
        requires
            old(self)@.wf(),
        ensures
            exists|now: Instant|
                {
                    &&& final(self)@ == #[trigger] old(self)@.worker_joined(worker_id, now)
                    &&& call_ensures(Instant::now, (), now)
                },
            final(self)@.wf(),
    {
        let now = Instant::now();
        self.start_worker_at(worker_id, now);
    }

    /// Notes that a worker takes up a task at a given moment, and decides whether
    /// the task is run or was cancelled.
    pub fn begin_task_at(&mut self, id: TaskId, worker_id: usize, now: Instant) -> (action:
        TaskAction)
        requires
            old(self)@.wf(),
        ensures
            action == TaskAction::Cancel <==> old(self)@.cancelled.contains(id),
            final(self)@ == old(self)@.heartbeat(worker_id, now),
            final(self)@.wf(),
    {
        let completed = self.tasks_completed_by(worker_id);
        if let Some(tasks_completed) = completed {
            self.worker_health.insert(
                worker_id,
                WorkerHealthData { last_heartbeat: now, tasks_completed },
            );
        }
        if self.cancelled_tasks.contains(&id) {
            TaskAction::Cancel
        } else {
            TaskAction::Execute
        }
    }

    /// Notes that a worker takes up a task now, and decides whether the task is run
    /// or was cancelled.
    pub fn begin_task(&mut self, id: TaskId, worker_id: usize) -> (action: TaskAction)
        requires
            old(self)@.wf(),
        ensures
            action == TaskAction::Cancel <==> old(self)@.cancelled.contains(id),
            exists|now: Instant|
                {
                    &&& final(self)@ == #[trigger] old(self)@.heartbeat(worker_id, now)
                    &&& call_ensures(Instant::now, (), now)
                },
            final(self)@.wf(),
    {
        let now = Instant::now();
        self.begin_task_at(id, worker_id, now)
    }

    /// Records that a cancelled task was dropped. Its id is forgotten, so that the
    /// set of cancelled tasks does not grow for ever.
    pub fn finish_cancelled(&mut self, id: TaskId)
        requires
            old(self)@.wf(),
        ensures
            final(self)@ == old(self)@.task_cancelled(id),
            final(self)@.wf(),
    {
        self.metrics.tasks_cancelled = count_up(self.metrics.tasks_cancelled);
        self.cancelled_tasks.remove(&id);
    }

    /// Records that a worker completed a task.
    pub fn record_success(&mut self, worker_id: usize)
        requires
            old(self)@.wf(),
            old(self)@.can_count(worker_id),
        ensures
            final(self)@ == old(self)@.task_completed(worker_id),
            final(self)@.wf(),
    {
        self.metrics.tasks_completed = count_up(self.metrics.tasks_completed);
        if let Some(data) = self.worker_health.get(&worker_id) {
            let last_heartbeat = data.last_heartbeat;
            let tasks_completed: u64 = data.tasks_completed + 1;
            self.worker_health.insert(
                worker_id,
                WorkerHealthData { last_heartbeat, tasks_completed },
            );
        }
    }

    /// Puts a task that failed behind the waiting tasks of its priority.
    fn requeue(&mut self, task: Task)
        requires
            old(self)@.wf(),
            old(self)@.queued() < usize::MAX,
            task.has_retries_left(),
        ensures
            final(self)@ == old(self)@.task_retried(task),
            final(self)@.wf(),
    {
        let mut again = task;
        again.metadata.retry_count = again.metadata.retry_count + 1;
        assert(again == task.retried());
        self.queues[again.priority.as_usize()].push_back(again);
        self.metrics.tasks_failed = count_up(self.metrics.tasks_failed);
        self.metrics.tasks_retried = count_up(self.metrics.tasks_retried);
        assert(self@.queues =~= old(self)@.task_retried(task).queues);
    }

    /// Records that a task failed for good, with the message that says why.
    fn record_failure(&mut self, task: &Task, error: String)
        requires
            old(self)@.wf(),
            task.metadata.retry_count < usize::MAX,
        ensures
            final(self)@ == old(self)@.task_failed(
                (DeadLetter {
                    id: task.id,
                    error: error@,
                    attempts: (task.metadata.retry_count + 1) as usize,
                }),
            ),
            final(self)@.wf(),
    {
        self.metrics.tasks_failed = count_up(self.metrics.tasks_failed);
        self.metrics.tasks_dead_lettered = count_up(self.metrics.tasks_dead_lettered);
        let info = FailedTaskInfo { id: task.id, error, attempts: task.metadata.retry_count + 1 };
        self.dead_letter_queue.push(info);
        assert(self.dead_letter_queue.len() == self@.dead_letters.len());
    }

    /// Records that an attempt at a task failed, with the message that says why. A task
    /// that has retries left waits again, behind the others of its priority; any other
    /// one ends in the dead letters. Tells whether the task waits again.
    pub fn fail_task(&mut self, task: Task, error: String) -> (waits_again: bool)
        requires
            old(self)@.wf(),
            old(self)@.can_fail(task),
        ensures
            waits_again == task.has_retries_left(),
            waits_again <==> task.metadata.retry_count < task.metadata.max_retries,
            final(self)@ == old(self)@.attempt_failed(task, error@),
            final(self)@.wf(),
    {
        if task.metadata.retry_count < task.metadata.max_retries {
            self.requeue(task);
            true
        } else {
            self.record_failure(&task, error);
            false
        }
    }

    /// Records what came of running the payload of a task. A run that returned an
    /// error and a run that panicked are both failed attempts; neither changes which
    /// workers are running. Tells whether the task waits to be tried again.
    pub fn finish_task(&mut self, task: Task, worker_id: usize, result: RunResult) -> (waits_again:
        bool)
        requires
            old(self)@.wf(),
            result matches Ok(Ok(_)) ==> old(self)@.can_count(worker_id),
            !(result matches Ok(Ok(_))) ==> old(self)@.can_fail(task),
        ensures
            waits_again == (task::failure_message(result) is Some && task.has_retries_left()),
            waits_again <==> !(result matches Ok(Ok(_))) && task.metadata.retry_count
                < task.metadata.max_retries,
            final(self)@ == old(self)@.task_finished(task, worker_id, result),
            final(self)@.wf(),
    {
        match result {
            Ok(Ok(_)) => {
                self.record_success(worker_id);
                false
            },
            Ok(Err(error)) => {
                let debug_form = error.to_debug_string();
                self.fail_task(task, task::error_message(debug_form.as_str()))
            },
            Err(panic) => self.fail_task(task, panic.to_message()),
        }
    }

    /// How many tasks a worker has completed, if it is running.
    pub fn tasks_completed_by(&self, worker_id: usize) -> (count: Option<u64>)
        ensures
            count is Some <==> self@.health.contains_key(worker_id),
            count matches Some(n) ==> n == self@.health[worker_id].tasks_completed,
    {
        match self.worker_health.get(&worker_id) {
            Some(data) => Some(data.tasks_completed),
            None => None,
        }
    }
}

/// The queue that tasks are submitted to.
pub struct WorkQueue {
    pub state: SharedState,
    /// The id of the next task.
    pub next_task_id: TaskId,
}

impl View for WorkQueue {
    type V = QueueModel;

    open spec fn view(&self) -> QueueModel {
        QueueModel { state: self.state@, next_task_id: self.next_task_id }
    }
}

impl WorkQueue {
    /// Creates a queue that nothing has happened to.
    pub fn new() -> (queue: Self)
        ensures
            queue@ == QueueModel::empty(),
            queue@.wf(),
    {
        WorkQueue { state: SharedState::new(), next_task_id: 1 }
    }

    /// Submits a task that is tried once.
    pub fn submit(&mut self, priority: Priority, payload: Box<dyn TaskPayload>) -> (id: TaskId)
        requires
            old(self)@.wf(),
            old(self)@.state.queued() < usize::MAX,
        ensures
            id == old(self)@.next_task_id,
            exists|task: Task|
                {
                    &&& final(self)@ == #[trigger] old(self)@.submitted(task)
                    &&& task.is_new(id, priority, 0)
                    &&& task.payload == payload
                    &&& call_ensures(Instant::now, (), task.metadata.creation_time)
                },
            final(self)@.wf(),
    {
        let task = Task::new(self.next_task_id, priority, payload, 0, Instant::now());
        self.enqueue(task)
    }

    /// Submits a task that is tried again, if it fails, as often as it says.
    pub fn submit_with_retries(
        &mut self,
        priority: Priority,
        payload: Box<dyn TaskPayload>,
        max_retries: usize,
    ) -> (id: TaskId)
        requires
            old(self)@.wf(),
            old(self)@.state.queued() < usize::MAX,
        ensures
            id == old(self)@.next_task_id,
            exists|task: Task|
                {
                    &&& final(self)@ == #[trigger] old(self)@.submitted(task)
                    &&& task.is_new(id, priority, max_retries)
                    &&& task.payload == payload
                    &&& call_ensures(Instant::now, (), task.metadata.creation_time)
                },
            final(self)@.wf(),
    {
        let task = Task::new(self.next_task_id, priority, payload, max_retries, Instant::now());
        self.enqueue(task)
    }

    /// Submits a task that was created at a given moment.
    pub fn submit_at(
        &mut self,
        priority: Priority,
        payload: Box<dyn TaskPayload>,
        max_retries: usize,
        creation_time: Instant,
    ) -> (id: TaskId)
        requires
            old(self)@.wf(),
            old(self)@.state.queued() < usize::MAX,
        ensures
            id == old(self)@.next_task_id,
            exists|task: Task|
                {
                    &&& final(self)@ == #[trigger] old(self)@.submitted(task)
                    &&& task.is_new(id, priority, max_retries)
                    &&& task.payload == payload
                    &&& task.metadata.creation_time == creation_time
                },
            final(self)@.wf(),
    {
        let task = Task::new(self.next_task_id, priority, payload, max_retries, creation_time);
        self.enqueue(task)
    }

    /// Adds a new task behind the waiting tasks of its priority.
    fn enqueue(&mut self, task: Task) -> (id: TaskId)
        requires
            old(self)@.wf(),
            old(self)@.state.queued() < usize::MAX,
            task.id == old(self)@.next_task_id,
            task.metadata.retry_count == 0,
        ensures
            id == task.id,
            final(self)@ == old(self)@.submitted(task),
            final(self)@.wf(),
    {
        let id = task.id;
        self.next_task_id = count_up(id);
        self.state.queues[task.priority.as_usize()].push_back(task);
        self.state.metrics.tasks_submitted = count_up(self.state.metrics.tasks_submitted);
        id
    }

    /// Cancels a task. It is not taken out of its queue: the worker that gets it
    /// drops it instead of running it.
    pub fn cancel_task(&mut self, id: TaskId)
        requires
            old(self)@.wf(),
        ensures
            final(self)@ == (QueueModel {
                state: old(self)@.state.marked_cancelled(id),
                ..old(self)@
            }),
            forall|other: TaskId| #[trigger]
                final(self)@.state.cancelled.contains(other) <==> other == id
                    || old(self)@.state.cancelled.contains(other),
            final(self)@.wf(),
    {
        self.state.cancelled_tasks.insert(id);
    }

    /// Tells the workers to stop once no task is waiting.
    pub fn shutdown(&mut self)
        requires
            old(self)@.wf(),
        ensures
            final(self)@ == (QueueModel { state: old(self)@.state.shut_down(), ..old(self)@ }),
            final(self)@.state.shutdown,
            final(self)@.wf(),
    {
        self.state.shutdown = true;
    }

    /// The number of tasks that are waiting, over all priorities.
    pub fn queue_size(&self) -> (size: usize)
        requires
            self@.wf(),
        ensures
            size == self@.state.queued(),
    {
        let queues = &self.state.queues;
        queues[0].len() + queues[1].len() + queues[2].len()
    }

    /// The counters: tasks submitted, completed, failed, cancelled, retried and
    /// dead-lettered.
    pub fn metrics_snapshot(&self) -> (counts: (u64, u64, u64, u64, u64, u64))
        ensures
            counts == (
                self@.state.metrics.tasks_submitted,
                self@.state.metrics.tasks_completed,
                self@.state.metrics.tasks_failed,
                self@.state.metrics.tasks_cancelled,
                self@.state.metrics.tasks_retried,
                self@.state.metrics.tasks_dead_lettered,
            ),
    {
        let metrics = &self.state.metrics;
        (
            metrics.tasks_submitted,
            metrics.tasks_completed,
            metrics.tasks_failed,
            metrics.tasks_cancelled,
            metrics.tasks_retried,
            metrics.tasks_dead_lettered,
        )
    }

    /// The number of running workers.
    pub fn active_worker_count(&self) -> (count: usize)
        ensures
            count == self@.state.active_workers,
    {
        self.state.active_workers
    }

    /// The number of tasks that failed for good.
    pub fn dead_letter_queue_size(&self) -> (count: usize)
        ensures
            count == self@.state.dead_letters.len(),
    {
        self.state.dead_letter_queue.len()
    }

    /// The tasks that failed for good, in order of failure: id, message and number
    /// of attempts of each.
    pub fn get_dead_letters(&self) -> (letters: Vec<(TaskId, String, usize)>)
        ensures
            letters@.len() == self@.state.dead_letters.len(),
            forall|i: int|
                0 <= i < letters@.len() ==> {
                    &&& (#[trigger] letters@[i]).0 == self@.state.dead_letters[i].id
                    &&& letters@[i].1@ == self@.state.dead_letters[i].error
                    &&& letters@[i].2 == self@.state.dead_letters[i].attempts
                },
    {
        let infos = &self.state.dead_letter_queue;
        let mut letters: Vec<(TaskId, String, usize)> = Vec::new();
        let count = infos.len();
        for i in 0..count
            invariant
                count == infos@.len(),
                letters@.len() == i,
                forall|j: int|
                    0 <= j < i ==> {
                        &&& (#[trigger] letters@[j]).0 == infos@[j].id
                        &&& letters@[j].1@ == infos@[j].error@
                        &&& letters@[j].2 == infos@[j].attempts
                    },
        {
            let info = &infos[i];
            letters.push((info.id, info.error.clone(), info.attempts));
        }
        letters
    }

    /// The running workers: last heartbeat and number of completed tasks of each.
    pub fn worker_health_snapshot(&self) -> (records: HashMap<usize, (Instant, u64)>)
        ensures
            records@.dom() == self@.state.health.dom(),
            forall|worker_id: usize|
                records@.contains_key(worker_id) ==> {
                    &&& (#[trigger] records@[worker_id]).0
                        == self@.state.health[worker_id].last_heartbeat
                    &&& records@[worker_id].1 == self@.state.health[worker_id].tasks_completed
                },
    {
        let mut records: HashMap<usize, (Instant, u64)> = HashMap::new();
        let ghost health = self.state.worker_health@;
        for item in entries: self.state.worker_health.iter()
            invariant
                health == self.state.worker_health@,
                forall|i: int|
                    0 <= i < entries.seq().len() ==> {
                        &&& health.contains_key(*(#[trigger] entries.seq()[i]).0)
                        &&& health[*entries.seq()[i].0] == *entries.seq()[i].1
                    },
                forall|k: usize|
                    health.contains_key(k) ==> #[trigger] entries.seq().contains((&k, &health[k])),
                forall|k: usize| #[trigger]
                    records@.contains_key(k) ==> health.contains_key(k) && records@[k] == (
                        health[k].last_heartbeat,
                        health[k].tasks_completed,
                    ),
                forall|i: int|
                    0 <= i < entries.index() ==> records@.contains_key(
                        *(#[trigger] entries.seq()[i]).0,
                    ),
        {
            records.insert(*item.0, (item.1.last_heartbeat, item.1.tasks_completed));
        }
        records
    }
}

/// What is said of a queue is said of the state that its workers share and of the id that
/// it gives next.
pub proof fn law_queue_is_its_state_and_next_id(queue: WorkQueue)
    ensures
        queue@.state == queue.state@,
        queue@.next_task_id == queue.next_task_id,
{
}

/// What is said of a task that failed for good is its id, its whole message and its number
/// of attempts.
pub proof fn law_dead_letter_tells_all(info: FailedTaskInfo)
    ensures
        info@.id == info.id,
        info@.error == info.error@,
        info@.attempts == info.attempts,
{
}

} // verus!
