//! The work queue, driven by workers that take turns on one thread.
use coursework::queue::{TaskAction, WorkQueue, WorkerAction};
use coursework::simple_payload::{SimplePayload, Simulation};
use coursework::task::{
    panic_report, worker_name, PanicMessage, Priority, RunResult, Task, TaskError, TaskPayload,
    TaskResult,
};
use std::sync::{Arc, Mutex};
use std::time::{Duration, Instant};

/// Counts how often it is run and how often it is cancelled.
struct CountingPayload {
    counter: Arc<Mutex<usize>>,
    cancelled: Arc<Mutex<usize>>,
}

impl TaskPayload for CountingPayload {
    fn execute(&mut self) -> Result<TaskResult, TaskError> {
        *self.counter.lock().unwrap() += 1;
        Ok(TaskResult::Success)
    }

    fn cancel(&mut self) -> Result<(), TaskError> {
        *self.cancelled.lock().unwrap() += 1;
        Err(TaskError::Cancelled)
    }
}

fn counting(counter: &Arc<Mutex<usize>>) -> Box<dyn TaskPayload> {
    Box::new(CountingPayload {
        counter: counter.clone(),
        cancelled: Arc::new(Mutex::new(0)),
    })
}

/// Returns what it is told to.
struct ReturningPayload {
    result: Option<Result<TaskResult, TaskError>>,
}

impl TaskPayload for ReturningPayload {
    fn execute(&mut self) -> Result<TaskResult, TaskError> {
        self.result.take().unwrap()
    }
}

fn returning(result: Result<TaskResult, TaskError>) -> Box<dyn TaskPayload> {
    Box::new(ReturningPayload {
        result: Some(result),
    })
}

fn succeeding() -> Box<dyn TaskPayload> {
    returning(Ok(TaskResult::Success))
}

/// Runs the payload of a task that does not panic.
fn run_payload(task: &mut Task) -> RunResult {
    Ok(task.payload.execute())
}

fn start(queue: &mut WorkQueue, workers: usize) {
    for id in 0..workers {
        queue.state.start_worker(id);
    }
}

/// What a worker did in its turn.
#[derive(PartialEq)]
enum Turn {
    Worked,
    Waited,
    Stopped,
}

/// Lets one worker take one turn.
fn turn(queue: &mut WorkQueue, id: usize, run: &mut dyn FnMut(&mut Task) -> RunResult) -> Turn {
    match queue.state.next_action(id) {
        WorkerAction::Process(mut task) => {
            match queue.state.begin_task(task.id, id) {
                TaskAction::Execute => {
                    let result = run(&mut task);
                    queue.state.finish_task(task, id, result);
                }
                TaskAction::Cancel => {
                    let _ = task.payload.cancel();
                    queue.state.finish_cancelled(task.id);
                }
            }
            Turn::Worked
        }
        WorkerAction::Wait => Turn::Waited,
        WorkerAction::Exit => Turn::Stopped,
    }
}

/// Lets the workers take turns until each of them waits or has stopped.
fn work(queue: &mut WorkQueue, workers: usize, run: &mut dyn FnMut(&mut Task) -> RunResult) {
    let mut busy = true;
    let mut stopped = vec![false; workers];
    while busy {
        busy = false;
        for id in 0..workers {
            if !stopped[id] {
                let done = turn(queue, id, run);
                busy = busy || done == Turn::Worked;
                stopped[id] = done == Turn::Stopped;
            }
        }
    }
}

fn next_task(queue: &mut WorkQueue, id: usize) -> Task {
    match queue.state.next_action(id) {
        WorkerAction::Process(task) => task,
        _ => panic!("a task was expected"),
    }
}

#[test]
fn test_basic_submission_and_completion() {
    let mut queue = WorkQueue::new();
    start(&mut queue, 2);
    let counter = Arc::new(Mutex::new(0));

    for _ in 0..10 {
        queue.submit(Priority::Medium, counting(&counter));
    }

    work(&mut queue, 2, &mut run_payload);
    queue.shutdown();
    work(&mut queue, 2, &mut run_payload);

    assert_eq!(*counter.lock().unwrap(), 10);
    let (_, comp, _, _, _, _) = queue.metrics_snapshot();
    assert_eq!(comp, 10);
}

struct TrackingPayload {
    id: u64,
    prio: Priority,
    list: Arc<Mutex<Vec<(u64, Priority)>>>,
}

impl TaskPayload for TrackingPayload {
    fn execute(&mut self) -> Result<TaskResult, TaskError> {
        self.list.lock().unwrap().push((self.id, self.prio));
        Ok(TaskResult::Success)
    }
}

#[test]
fn test_priorities() {
    let mut queue = WorkQueue::new();
    let execution_order = Arc::new(Mutex::new(Vec::new()));

    // Submit Low then High
    let id_low = queue.submit(
        Priority::Low,
        Box::new(TrackingPayload { id: 1, prio: Priority::Low, list: execution_order.clone() }),
    );
    let id_high = queue.submit(
        Priority::High,
        Box::new(TrackingPayload { id: 2, prio: Priority::High, list: execution_order.clone() }),
    );

    start(&mut queue, 1);
    work(&mut queue, 1, &mut run_payload);
    queue.shutdown();
    work(&mut queue, 1, &mut run_payload);

    let list = execution_order.lock().unwrap();
    assert_eq!(list.len(), 2);
    // High priority should start first even if submitted later
    assert_eq!(list[0], (id_high, Priority::High));
    assert_eq!(list[1], (id_low, Priority::Low));
}

/// Runs a simulated payload without its sleep, and tells of a panic instead of
/// panicking.
fn run_simulated(payload: &SimplePayload) -> RunResult {
    match payload.simulate() {
        Simulation::Panic(message) => Err(PanicMessage::Text(message.to_string())),
        Simulation::Finish(result) => Ok(result),
    }
}

#[test]
fn test_worker_panic_recovery() {
    let mut queue = WorkQueue::new();
    start(&mut queue, 1);
    let counter = Arc::new(Mutex::new(0));

    // 1. Submit panicking task
    let panicking = SimplePayload { duration: Duration::ZERO, should_panic: true, should_fail: false };
    let panicking_id = queue.submit(Priority::High, succeeding());
    // 2. Submit normal task
    queue.submit(Priority::High, counting(&counter));

    let mut run = |task: &mut Task| {
        if task.id == panicking_id {
            run_simulated(&panicking)
        } else {
            run_payload(task)
        }
    };
    work(&mut queue, 1, &mut run);
    assert_eq!(queue.active_worker_count(), 1);
    queue.shutdown();
    work(&mut queue, 1, &mut run);

    // The normal task should have completed despite the panic in the previous task
    assert_eq!(*counter.lock().unwrap(), 1);
    let (_, _, fail, _, _, _) = queue.metrics_snapshot();
    assert_eq!(fail, 1);
}

#[test]
fn test_task_cancellation() {
    let mut queue = WorkQueue::new();
    start(&mut queue, 2);
    let counter = Arc::new(Mutex::new(0));
    let cancelled = Arc::new(Mutex::new(0));

    let id = queue.submit(
        Priority::High,
        Box::new(CountingPayload { counter: counter.clone(), cancelled: cancelled.clone() }),
    );
    // Cancel before it might execute
    queue.cancel_task(id);

    work(&mut queue, 2, &mut run_payload);
    queue.shutdown();
    work(&mut queue, 2, &mut run_payload);

    let (_, _, _, canc, _, _) = queue.metrics_snapshot();
    assert!(canc >= 1, "Expected at least 1 cancelled task");
    assert_eq!(*counter.lock().unwrap(), 0);
    assert_eq!(*cancelled.lock().unwrap(), 1);
}

#[test]
fn test_dead_letter_queue() {
    let mut queue = WorkQueue::new();
    start(&mut queue, 1);

    // Send failing task
    let payload = SimplePayload { duration: Duration::ZERO, should_panic: true, should_fail: false };
    queue.submit(Priority::High, succeeding());

    let mut run = |_: &mut Task| run_simulated(&payload);
    work(&mut queue, 1, &mut run);
    queue.shutdown();
    work(&mut queue, 1, &mut run);

    let (_, _, fail, _, _, dlq) = queue.metrics_snapshot();
    assert_eq!(fail, 1);
    assert_eq!(dlq, 1);
    assert_eq!(queue.dead_letter_queue_size(), 1);

    let dead_letters = queue.get_dead_letters();
    assert_eq!(dead_letters.len(), 1);
    assert!(dead_letters[0].1.contains("Panic"));
    assert_eq!(
        dead_letters[0],
        (1, "Panic: Simulated panic initiated!".to_string(), 1)
    );
}

#[test]
fn test_stress_1000_tasks() {
    let mut queue = WorkQueue::new();
    start(&mut queue, 4);
    let counter = Arc::new(Mutex::new(0));

    // Submit 1000 tasks
    for _ in 0..1000 {
        queue.submit(Priority::Medium, counting(&counter));
    }

    work(&mut queue, 4, &mut run_payload);
    queue.shutdown();
    work(&mut queue, 4, &mut run_payload);

    assert_eq!(*counter.lock().unwrap(), 1000);
    let (sub, comp, _, _, _, _) = queue.metrics_snapshot();
    assert_eq!(sub, 1000);
    assert_eq!(comp, 1000);
}

#[test]
fn test_concurrent_workers_health() {
    let mut queue = WorkQueue::new();
    start(&mut queue, 8);
    let counter = Arc::new(Mutex::new(0));

    // Submit 80 tasks
    for _ in 0..80 {
        queue.submit(Priority::Medium, counting(&counter));
    }

    work(&mut queue, 8, &mut run_payload);

    // Check health snapshot before shutdown
    let health = queue.worker_health_snapshot();
    assert_eq!(health.len(), 8, "All 8 workers should be tracked");
    for id in 0..8 {
        assert_eq!(health[&id].1, 10);
        assert_eq!(queue.state.tasks_completed_by(id), Some(10));
    }
    assert_eq!(queue.active_worker_count(), 8);

    queue.shutdown();
    work(&mut queue, 8, &mut run_payload);

    assert_eq!(*counter.lock().unwrap(), 80);
    assert_eq!(queue.worker_health_snapshot().len(), 0);
    assert_eq!(queue.active_worker_count(), 0);
}

#[test]
fn test_mixed_priorities_execution() {
    let mut queue = WorkQueue::new();
    let execution_order = Arc::new(Mutex::new(Vec::new()));

    // Submit in order: Medium, Low, High, Low, Medium, High
    let order = [
        Priority::Medium,
        Priority::Low,
        Priority::High,
        Priority::Low,
        Priority::Medium,
        Priority::High,
    ];
    for prio in order {
        queue.submit(
            prio,
            Box::new(TrackingPayload { id: 0, prio, list: execution_order.clone() }),
        );
    }

    start(&mut queue, 1);
    work(&mut queue, 1, &mut run_payload);
    queue.shutdown();
    work(&mut queue, 1, &mut run_payload);

    let list = execution_order.lock().unwrap();
    // All High priority should come first, then Medium, then Low
    let mut high_count = 0;
    let mut medium_start = None;
    let mut low_start = None;

    for (i, &(_, prio)) in list.iter().enumerate() {
        if prio == Priority::High {
            high_count += 1;
        } else if prio == Priority::Medium && medium_start.is_none() {
            medium_start = Some(i);
        } else if prio == Priority::Low && low_start.is_none() {
            low_start = Some(i);
        }
    }

    assert_eq!(high_count, 2, "Both high priority tasks should execute");
    assert!(medium_start.is_some() && low_start.is_some());
    assert!(high_count > 0);
    assert_eq!(medium_start, Some(2));
    assert_eq!(low_start, Some(4));
}

#[test]
fn test_queue_size_monitoring() {
    let mut queue = WorkQueue::new();
    start(&mut queue, 1);
    let counter = Arc::new(Mutex::new(0));

    // Submit 10 tasks
    for _ in 0..10 {
        queue.submit(Priority::Medium, counting(&counter));
    }

    let size = queue.queue_size();
    assert!(size <= 10 && size > 0, "Queue should have tasks pending");
    assert_eq!(size, 10);

    work(&mut queue, 1, &mut run_payload);
    queue.shutdown();
    work(&mut queue, 1, &mut run_payload);

    assert_eq!(queue.queue_size(), 0, "Queue should be empty after shutdown");
}

#[test]
fn test_graceful_shutdown() {
    let mut queue = WorkQueue::new();
    start(&mut queue, 2);
    let counter = Arc::new(Mutex::new(0));

    for _ in 0..20 {
        queue.submit(Priority::Medium, counting(&counter));
    }

    // Let some process
    for _ in 0..3 {
        turn(&mut queue, 0, &mut run_payload);
    }
    assert_eq!(queue.queue_size(), 17);

    // Graceful shutdown
    queue.shutdown();
    work(&mut queue, 2, &mut run_payload);

    // All queued tasks should have been processed
    let completed = *counter.lock().unwrap();
    assert_eq!(completed, 20, "All tasks should complete during graceful shutdown");
}

#[test]
fn test_high_throughput() {
    let start_time = Instant::now();
    let mut queue = WorkQueue::new();
    start(&mut queue, 8);
    let counter = Arc::new(Mutex::new(0));

    // Submit 5000 fast tasks
    for _ in 0..5000 {
        queue.submit(Priority::Medium, counting(&counter));
    }

    work(&mut queue, 8, &mut run_payload);
    queue.shutdown();
    work(&mut queue, 8, &mut run_payload);

    let elapsed = start_time.elapsed();
    let completed = *counter.lock().unwrap();
    let throughput = completed as f64 / elapsed.as_secs_f64();

    println!("High throughput test: {:.0} tasks/sec (5000 tasks in {:?})", throughput, elapsed);
    assert_eq!(completed, 5000);
    // Should handle at least 1000 tasks/sec with 8 workers
    assert!(throughput >= 1000.0, "Throughput {} is below 1000 tasks/sec", throughput);
}

#[test]
fn new_queue_is_empty() {
    let queue = WorkQueue::new();
    assert_eq!(queue.queue_size(), 0);
    assert_eq!(queue.metrics_snapshot(), (0, 0, 0, 0, 0, 0));
    assert_eq!(queue.active_worker_count(), 0);
    assert_eq!(queue.dead_letter_queue_size(), 0);
    assert!(queue.get_dead_letters().is_empty());
    assert!(queue.worker_health_snapshot().is_empty());
    assert!(!queue.state.is_shutdown());
}

#[test]
fn ids_count_from_one() {
    let mut queue = WorkQueue::new();
    for expected in 1..=5 {
        assert_eq!(queue.submit(Priority::Low, succeeding()), expected);
    }
}

#[test]
fn ids_start_again_after_the_last() {
    let mut queue = WorkQueue::new();
    queue.next_task_id = u64::MAX;
    assert_eq!(queue.submit(Priority::Low, succeeding()), u64::MAX);
    assert_eq!(queue.submit(Priority::Low, succeeding()), 0);
}

#[test]
fn equal_priorities_are_first_in_first_out() {
    let mut queue = WorkQueue::new();
    start(&mut queue, 1);
    let first = queue.submit(Priority::Medium, succeeding());
    let second = queue.submit(Priority::Medium, succeeding());
    let urgent = queue.submit(Priority::High, succeeding());
    assert_eq!(next_task(&mut queue, 0).id, urgent);
    assert_eq!(next_task(&mut queue, 0).id, first);
    let third = queue.submit(Priority::Medium, succeeding());
    assert_eq!(next_task(&mut queue, 0).id, second);
    assert_eq!(next_task(&mut queue, 0).id, third);
    assert!(matches!(queue.state.next_action(0), WorkerAction::Wait));
}

#[test]
fn popping_takes_the_highest_priority() {
    let mut queue = WorkQueue::new();
    assert!(queue.state.pop_highest_priority().is_none());
    queue.submit(Priority::Low, succeeding());
    queue.submit(Priority::Medium, succeeding());
    let task = queue.state.pop_highest_priority().unwrap();
    assert_eq!(task.priority, Priority::Medium);
    assert_eq!(queue.queue_size(), 1);
}

#[test]
fn submission_keeps_the_retry_limit_and_the_moment() {
    let mut queue = WorkQueue::new();
    let now = Instant::now();
    queue.submit_at(Priority::High, succeeding(), 7, now);
    let task = next_task(&mut queue, 0);
    assert_eq!(task.metadata.retry_count, 0);
    assert_eq!(task.metadata.max_retries, 7);
    assert_eq!(task.metadata.creation_time, now);
    let copy = task.metadata.clone();
    assert_eq!(copy.max_retries, 7);

    queue.submit_with_retries(Priority::High, succeeding(), 3);
    let task = next_task(&mut queue, 0);
    assert_eq!(task.metadata.max_retries, 3);
    assert!(task.metadata.creation_time >= now);

    queue.submit(Priority::High, succeeding());
    assert_eq!(next_task(&mut queue, 0).metadata.max_retries, 0);
}

#[test]
fn workers_wait_and_exit() {
    let mut queue = WorkQueue::new();
    start(&mut queue, 1);
    assert!(matches!(queue.state.next_action(0), WorkerAction::Wait));
    assert_eq!(queue.active_worker_count(), 1);
    queue.submit(Priority::Low, succeeding());
    queue.shutdown();
    assert!(queue.state.is_shutdown());
    assert!(matches!(queue.state.next_action(0), WorkerAction::Process(_)));
    assert!(matches!(queue.state.next_action(0), WorkerAction::Exit));
    assert_eq!(queue.active_worker_count(), 0);
    assert!(queue.worker_health_snapshot().is_empty());
}

#[test]
fn heartbeats_are_kept_per_worker() {
    let mut queue = WorkQueue::new();
    let started = Instant::now();
    let later = started + Duration::from_secs(5);
    queue.state.start_worker_at(3, started);
    queue.state.start_worker_at(4, started);
    queue.state.record_success(3);
    assert_eq!(queue.state.begin_task_at(1, 3, later), TaskAction::Execute);
    let health = queue.worker_health_snapshot();
    assert_eq!(health[&3], (later, 1));
    assert_eq!(health[&4], (started, 0));

    // A worker that is not known stays unknown.
    queue.state.begin_task_at(1, 9, later);
    queue.state.record_success(9);
    assert_eq!(queue.worker_health_snapshot().len(), 2);
    assert_eq!(queue.state.tasks_completed_by(9), None);
    assert_eq!(queue.metrics_snapshot().1, 2);
}

#[test]
fn a_dropped_task_is_forgotten() {
    let mut queue = WorkQueue::new();
    queue.cancel_task(42);
    queue.cancel_task(42);
    assert_eq!(queue.state.begin_task(42, 0), TaskAction::Cancel);
    assert_eq!(queue.state.begin_task(41, 0), TaskAction::Execute);
    queue.state.finish_cancelled(42);
    assert_eq!(queue.state.begin_task(42, 0), TaskAction::Execute);
    assert_eq!(queue.metrics_snapshot(), (0, 0, 0, 1, 0, 0));
}

#[test]
fn failures_end_in_dead_letters() {
    let mut queue = WorkQueue::new();
    start(&mut queue, 1);
    queue.submit(Priority::High, returning(Err(TaskError::Cancelled)));
    queue.submit(
        Priority::High,
        returning(Err(TaskError::ExecutionFailed("Simulated \"failure\"\n".to_string()))),
    );
    queue.submit(Priority::High, returning(Err(TaskError::Panic("late".to_string()))));
    work(&mut queue, 1, &mut run_payload);
    let mut run = |_: &mut Task| Err(PanicMessage::Unknown);
    queue.submit(Priority::High, succeeding());
    work(&mut queue, 1, &mut run);

    assert_eq!(queue.metrics_snapshot(), (4, 0, 4, 0, 0, 4));
    assert_eq!(
        queue.get_dead_letters(),
        vec![
            (1, "Task error: Cancelled".to_string(), 1),
            (2, "Task error: ExecutionFailed(\"Simulated \\\"failure\\\"\\n\")".to_string(), 1),
            (3, "Task error: Panic(\"late\")".to_string(), 1),
            (4, "Panic with unknown type".to_string(), 1),
        ]
    );
}

#[test]
fn failed_tasks_are_tried_again() {
    let mut queue = WorkQueue::new();
    start(&mut queue, 2);
    let id = queue.submit_with_retries(Priority::High, succeeding(), 2);

    // Two failed attempts, one of them a panic, and then a success.
    let task = next_task(&mut queue, 0);
    assert!(queue.state.finish_task(task, 0, Err(PanicMessage::Unknown)));
    assert_eq!(queue.metrics_snapshot(), (1, 0, 1, 0, 1, 0));
    assert_eq!(queue.dead_letter_queue_size(), 0);
    assert_eq!(queue.queue_size(), 1);
    let task = next_task(&mut queue, 1);
    assert_eq!((task.id, task.metadata.retry_count, task.metadata.max_retries), (id, 1, 2));
    assert!(queue.state.finish_task(task, 1, Ok(Err(TaskError::Cancelled))));
    let task = next_task(&mut queue, 0);
    assert_eq!(task.metadata.retry_count, 2);
    assert!(!queue.state.finish_task(task, 0, Ok(Ok(TaskResult::Success))));

    assert_eq!(queue.metrics_snapshot(), (1, 1, 2, 0, 2, 0));
    assert_eq!(queue.queue_size(), 0);
    assert!(queue.get_dead_letters().is_empty());
}

#[test]
fn each_report_counts_once() {
    let mut queue = WorkQueue::new();
    start(&mut queue, 1);
    for _ in 0..3 {
        queue.submit_with_retries(Priority::Low, succeeding(), 1);
    }
    let dropped = next_task(&mut queue, 0).id;
    queue.state.finish_cancelled(dropped);
    assert_eq!(queue.metrics_snapshot(), (3, 0, 0, 1, 0, 0));
    let task = next_task(&mut queue, 0);
    queue.state.finish_task(task, 0, Ok(Ok(TaskResult::Success)));
    assert_eq!(queue.metrics_snapshot(), (3, 1, 0, 1, 0, 0));
    let task = next_task(&mut queue, 0);
    queue.state.finish_task(task, 0, Ok(Err(TaskError::Cancelled)));
    assert_eq!(queue.metrics_snapshot(), (3, 1, 1, 1, 1, 0));
    let task = next_task(&mut queue, 0);
    queue.state.finish_task(task, 0, Ok(Err(TaskError::Cancelled)));
    assert_eq!(queue.metrics_snapshot(), (3, 1, 2, 1, 1, 1));
    assert_eq!(queue.dead_letter_queue_size(), 1);
}

#[test]
fn all_work_is_done_at_the_end() {
    for (tasks, workers) in [(10, 2), (20, 3), (80, 8), (10, 1), (0, 1)] {
        let mut queue = WorkQueue::new();
        start(&mut queue, workers);
        for _ in 0..tasks {
            queue.submit(Priority::Medium, succeeding());
        }
        queue.shutdown();
        work(&mut queue, workers, &mut run_payload);
        assert_eq!(queue.metrics_snapshot(), (tasks, tasks, 0, 0, 0, 0));
        assert_eq!(queue.queue_size(), 0);
        assert_eq!(queue.active_worker_count(), 0);
        assert!(queue.worker_health_snapshot().is_empty());
    }
}

#[test]
fn dead_letters_come_after_all_retries() {
    let mut queue = WorkQueue::new();
    start(&mut queue, 1);
    let mut run = |_: &mut Task| Err(PanicMessage::Text("again".to_string()));
    queue.submit_with_retries(Priority::Low, succeeding(), 3);
    work(&mut queue, 1, &mut run);
    assert_eq!(queue.metrics_snapshot(), (1, 0, 4, 0, 3, 1));
    assert_eq!(queue.get_dead_letters(), vec![(1, "Panic: again".to_string(), 4)]);
}

#[test]
fn a_failed_attempt_takes_its_message_as_given() {
    let mut queue = WorkQueue::new();
    queue.submit(Priority::Low, succeeding());
    queue.submit_with_retries(Priority::Low, succeeding(), 1);
    let (first, second) = (next_task(&mut queue, 0), next_task(&mut queue, 0));
    assert!(!queue.state.fail_task(first, "broken".to_string()));
    assert!(queue.state.fail_task(second, "broken too".to_string()));
    assert_eq!(queue.get_dead_letters(), vec![(1, "broken".to_string(), 1)]);
    assert_eq!(queue.queue_size(), 1);
}

#[test]
fn a_retried_task_waits_behind_its_own_priority() {
    let mut queue = WorkQueue::new();
    start(&mut queue, 1);
    let failing = queue.submit_with_retries(Priority::Medium, succeeding(), 1);
    let other = queue.submit(Priority::Medium, succeeding());
    let low = queue.submit(Priority::Low, succeeding());
    let task = next_task(&mut queue, 0);
    assert_eq!(task.id, failing);
    queue.state.finish_task(task, 0, Err(PanicMessage::Unknown));
    assert_eq!(next_task(&mut queue, 0).id, other);
    assert_eq!(next_task(&mut queue, 0).id, failing);
    assert_eq!(next_task(&mut queue, 0).id, low);
}

#[test]
fn shutdown_waits_for_retries() {
    let mut queue = WorkQueue::new();
    start(&mut queue, 1);
    queue.submit_with_retries(Priority::High, succeeding(), 1);
    queue.shutdown();
    let task = next_task(&mut queue, 0);
    queue.state.finish_task(task, 0, Err(PanicMessage::Unknown));
    assert!(matches!(queue.state.next_action(0), WorkerAction::Process(_)));
    assert!(matches!(queue.state.next_action(0), WorkerAction::Exit));
}

#[test]
fn a_task_cancelled_between_attempts_is_dropped() {
    let mut queue = WorkQueue::new();
    start(&mut queue, 1);
    let id = queue.submit_with_retries(Priority::High, succeeding(), 5);
    let task = next_task(&mut queue, 0);
    queue.cancel_task(id);
    queue.state.finish_task(task, 0, Err(PanicMessage::Unknown));
    work(&mut queue, 1, &mut run_payload);
    assert_eq!(queue.metrics_snapshot(), (1, 0, 1, 1, 1, 0));
}

#[test]
fn workers_under_one_number_are_all_counted() {
    let mut queue = WorkQueue::new();
    start(&mut queue, 2);
    start(&mut queue, 2);
    assert_eq!(queue.active_worker_count(), 4);
    assert_eq!(queue.worker_health_snapshot().len(), 2);
    queue.shutdown();
    assert!(matches!(queue.state.next_action(0), WorkerAction::Exit));
    assert_eq!(queue.active_worker_count(), 3);
}

#[test]
fn worker_counts_add_up_to_the_completed_tasks() {
    let mut queue = WorkQueue::new();
    start(&mut queue, 3);
    for _ in 0..7 {
        queue.submit(Priority::Medium, succeeding());
    }
    queue.submit(Priority::High, returning(Err(TaskError::Cancelled)));
    let id = queue.submit(Priority::Low, succeeding());
    queue.cancel_task(id);
    work(&mut queue, 3, &mut run_payload);
    let sum: u64 = queue.worker_health_snapshot().values().map(|record| record.1).sum();
    assert_eq!(sum, 7);
    assert_eq!(sum, queue.metrics_snapshot().1);
}

#[test]
fn submitting_is_submitting_without_retries() {
    let (mut one, mut other) = (WorkQueue::new(), WorkQueue::new());
    let id = one.submit(Priority::Low, succeeding());
    assert_eq!(id, other.submit_with_retries(Priority::Low, succeeding(), 0));
    assert_eq!(one.metrics_snapshot(), other.metrics_snapshot());
    let (a, b) = (next_task(&mut one, 0), next_task(&mut other, 0));
    assert_eq!((a.id, a.priority), (b.id, b.priority));
    assert_eq!(a.metadata.retry_count, b.metadata.retry_count);
    assert_eq!(a.metadata.max_retries, b.metadata.max_retries);
}

#[test]
fn errors_read_like_their_debug_form() {
    let errors = vec![
        TaskError::Cancelled,
        TaskError::ExecutionFailed("tab\there, caf\u{e9} and \u{200b}".to_string()),
        TaskError::Panic("it's \"quoted\" \\ \u{0}".to_string()),
    ];
    for error in errors {
        assert_eq!(error.to_debug_string(), format!("{:?}", error));
        assert_eq!(error.clone().to_debug_string(), error.to_debug_string());
    }
}

#[test]
fn finished_work_adds_up() {
    let mut queue = WorkQueue::new();
    start(&mut queue, 3);
    for _ in 0..4 {
        queue.submit(Priority::Low, succeeding());
    }
    queue.submit(Priority::High, returning(Err(TaskError::Cancelled)));
    let id = queue.submit(Priority::Medium, succeeding());
    queue.cancel_task(id);
    work(&mut queue, 3, &mut run_payload);
    let (sub, comp, fail, canc, retried, dlq) = queue.metrics_snapshot();
    assert_eq!((sub, comp, fail, canc, retried, dlq), (6, 4, 1, 1, 0, 1));
    assert_eq!(sub + retried, comp + fail + canc);
}

#[test]
fn priorities_map_to_levels() {
    let all = Priority::all();
    assert_eq!(all, [Priority::High, Priority::Medium, Priority::Low]);
    for (i, priority) in all.iter().enumerate() {
        assert_eq!(priority.as_usize(), i);
    }
    assert!(Priority::High < Priority::Low);
}

#[test]
fn simulated_payloads() {
    let duration = Duration::from_millis(10);
    let fine = SimplePayload { duration, should_panic: false, should_fail: false };
    assert!(matches!(fine.simulate(), Simulation::Finish(Ok(TaskResult::Success))));
    let failing = SimplePayload { duration, should_panic: false, should_fail: true };
    match failing.simulate() {
        Simulation::Finish(Err(error)) => {
            assert_eq!(error.to_debug_string(), "ExecutionFailed(\"Simulated failure\")");
        }
        _ => panic!("a failure was expected"),
    }
    let panicking = SimplePayload { duration, should_panic: true, should_fail: true };
    assert!(matches!(panicking.simulate(), Simulation::Panic("Simulated panic initiated!")));
}

#[test]
fn default_cancel_does_nothing() {
    assert!(succeeding().cancel().is_ok());
}

#[test]
fn lines_about_workers() {
    assert_eq!(worker_name(0), "worker-0");
    assert_eq!(worker_name(12), "worker-12");
    assert_eq!(
        panic_report(3, 17, "Panic: oh"),
        "Worker 3 caught panic in task 17: Panic: oh"
    );
}
