//! Tasks, their priorities, and what comes of running one.
use crate::text;
use std::time::Instant;
use vstd::prelude::*;

verus! {

/// A moment of the monotonic clock. Values of this type are only stored and
/// handed back.
#[verifier::external_type_specification]
#[verifier::external_body]
pub struct ExInstant(std::time::Instant);

/// Specifies `std::time::Instant::now`. It reads the clock, so nothing is claimed
/// of the moment that comes back.
pub assume_specification[ std::time::Instant::now ]() -> std::time::Instant;

/// Names one submitted task.
pub type TaskId = u64;

/// Task priority levels, which determine execution order.
#[derive(Debug, Clone, Copy, PartialEq, Eq, PartialOrd, Ord, Hash, Structural)]
pub enum Priority {
    High,
    Medium,
    Low,
}

impl Priority {
    /// The place of a priority in execution order, from zero for the highest.
    pub open spec fn level(self) -> int {
        match self {
            Priority::High => 0,
            Priority::Medium => 1,
            Priority::Low => 2,
        }
    }

    /// Maps a priority to the index of its queue.
    pub fn as_usize(&self) -> (index: usize)
        ensures
            index == self.level(),
    {
        match self {
            Priority::High => 0,
            Priority::Medium => 1,
            Priority::Low => 2,
        }
    }

    /// All priorities in execution order, highest first.
    pub fn all() -> (priorities: [Priority; 3])
        ensures
            priorities@ == seq![Priority::High, Priority::Medium, Priority::Low],
            forall|i: int| 0 <= i < 3 ==> (#[trigger] priorities@[i]).level() == i,
    {
        [Priority::High, Priority::Medium, Priority::Low]
    }
}

/// What is kept about a task's lifecycle and retry attempts.
#[derive(Debug)]
pub struct TaskMetadata {
    pub creation_time: Instant,
    pub retry_count: usize,
    pub max_retries: usize,
}

impl Clone for TaskMetadata {
    fn clone(&self) -> (copy: Self)
        ensures
            copy == *self,
    {
        TaskMetadata {
            creation_time: self.creation_time,
            retry_count: self.retry_count,
            max_retries: self.max_retries,
        }
    }
}

/// A unit of work in the queue. Its payload is a boxed one unless another type is
/// named.
pub struct Task<P = Box<dyn TaskPayload>> {
    pub id: TaskId,
    pub priority: Priority,
    pub payload: P,
    pub metadata: TaskMetadata,
}

impl<P> Task<P> {
    /// The task is as it was submitted.
    pub open spec fn is_new(self, id: TaskId, priority: Priority, max_retries: usize) -> bool {
        &&& self.id == id
        &&& self.priority == priority
        &&& self.metadata.retry_count == 0
        &&& self.metadata.max_retries == max_retries
    }

    /// The task may be tried again if it fails.
    pub open spec fn has_retries_left(self) -> bool {
        self.metadata.retry_count < self.metadata.max_retries
    }

    /// The task as it waits to be tried again.
    pub open spec fn retried(self) -> Task<P> {
        Task {
            metadata: TaskMetadata {
                retry_count: (self.metadata.retry_count + 1) as usize,
                ..self.metadata
            },
            ..self
        }
    }

    /// The same task, had it been created at another moment.
    pub open spec fn created_at(self, moment: Instant) -> Task<P> {
        Task { metadata: TaskMetadata { creation_time: moment, ..self.metadata }, ..self }
    }

    /// Makes a task that has not been tried.
    pub fn new(
        id: TaskId,
        priority: Priority,
        payload: P,
        max_retries: usize,
        creation_time: Instant,
    ) -> (task: Self)
        ensures
            task.is_new(id, priority, max_retries),
            task.payload == payload,
            task.metadata.creation_time == creation_time,
    {
        let metadata = TaskMetadata { creation_time, retry_count: 0, max_retries };
        Task { id, priority, payload, metadata }
    }
}

/// Work that can be submitted to the queue. A payload crosses thread boundaries,
/// so it is sendable and holds no borrowed data.
pub trait TaskPayload: Send + 'static {
    /// Does the work.
    fn execute(&mut self) -> Result<TaskResult, TaskError>;

    /// Cleans up when the task is cancelled before execution.
    fn cancel(&mut self) -> (done: Result<(), TaskError>)
        default_ensures
            done is Ok,
            &*final(self) == &*old(self),
    {
        Ok(())
    }
}

/// What a task that succeeded gives back.
#[derive(Debug)]
pub enum TaskResult {
    Success,
}

/// Why a task did not succeed.
#[derive(Debug)]
pub enum TaskError {
    Cancelled,
    ExecutionFailed(String),
    Panic(String),
}

impl Clone for TaskError {
    fn clone(&self) -> (copy: Self)
        ensures
            copy == *self,
    {
        match self {
            TaskError::Cancelled => TaskError::Cancelled,
            TaskError::ExecutionFailed(reason) => TaskError::ExecutionFailed(reason.clone()),
            TaskError::Panic(reason) => TaskError::Panic(reason.clone()),
        }
    }
}

impl TaskError {
    /// The debug form of an error.
    pub open spec fn debug_text(self) -> Seq<char> {
        match self {
            TaskError::Cancelled => "Cancelled"@,
            TaskError::ExecutionFailed(reason) => "ExecutionFailed"@ + "("@ + text::quoted(reason@)
                + ")"@,
            TaskError::Panic(reason) => "Panic"@ + "("@ + text::quoted(reason@) + ")"@,
        }
    }

    /// Writes the error in its debug form.
    pub fn to_debug_string(&self) -> (written: String)
        ensures
            written@ == self.debug_text(),
    {
        match self {
            TaskError::Cancelled => "Cancelled".to_string(),
            TaskError::ExecutionFailed(reason) => text::variant_with_string(
                "ExecutionFailed",
                reason.as_str(),
            ),
            TaskError::Panic(reason) => text::variant_with_string("Panic", reason.as_str()),
        }
    }
}

/// The message that a dead letter carries for a task that returned an error,
/// from the debug form of that error.
pub fn error_message(debug_form: &str) -> (message: String)
    ensures
        message@ == "Task error: "@ + debug_form@,
{
    let mut message = "Task error: ".to_string();
    message.append(debug_form);
    message
}

/// What a panic left behind: its text, or a value that is no text.
#[derive(Debug)]
pub enum PanicMessage {
    Text(String),
    Unknown,
}

impl PanicMessage {
    /// The message that a dead letter carries for a task that panicked.
    pub open spec fn message(self) -> Seq<char> {
        match self {
            PanicMessage::Text(words) => "Panic: "@ + words@,
            PanicMessage::Unknown => "Panic with unknown type"@,
        }
    }

    /// Writes the message for a task that panicked.
    pub fn to_message(&self) -> (message: String)
        ensures
            message@ == self.message(),
    {
        match self {
            PanicMessage::Text(words) => {
                let mut message = "Panic: ".to_string();
                message.append(words.as_str());
                message
            },
            PanicMessage::Unknown => "Panic with unknown type".to_string(),
        }
    }
}

/// What came of running a payload: it returned, with or without an error, or it
/// panicked.
pub type RunResult = Result<Result<TaskResult, TaskError>, PanicMessage>;

/// The message for a run that failed, none where it succeeded.
pub open spec fn failure_message(result: RunResult) -> Option<Seq<char>> {
    match result {
        Ok(Ok(_)) => None,
        Ok(Err(error)) => Some("Task error: "@ + error.debug_text()),
        Err(panic) => Some(panic.message()),
    }
}

/// The line that reports a caught panic.
pub fn panic_report(worker_id: usize, task_id: TaskId, message: &str) -> (line: String)
    ensures
        line@ == "Worker "@ + text::decimal(worker_id as nat) + " caught panic in task "@
            + text::decimal(task_id as nat) + ": "@ + message@,
{
    let mut line = "Worker ".to_string();
    line.append(text::decimal_string(worker_id as u64).as_str());
    line.append(" caught panic in task ");
    line.append(text::decimal_string(task_id).as_str());
    line.append(": ");
    line.append(message);
    line
}

/// The name of a worker's thread.
pub fn worker_name(worker_id: usize) -> (name: String)
    ensures
        name@ == "worker-"@ + text::decimal(worker_id as nat),
{
    let mut name = "worker-".to_string();
    name.append(text::decimal_string(worker_id as u64).as_str());
    name
}

} // verus!
