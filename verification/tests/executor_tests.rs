use my_os::executor::Executor;
use my_os::simple_executor::{dummy_waker, SimpleExecutor};
use my_os::task::{Context, Future, Poll, Task, TaskId, TaskIdGen};

/// A task for exercising the schedulers: either completes at once,
/// or stays pending until its second poll — the shape of a task that
/// suspends once and is woken by an external event.
enum TestFuture {
    Immediate,
    WaitsForWake { polled: bool },
}

impl Future for TestFuture {
    type Output = ();

    fn poll(&mut self, _cx: &mut Context) -> Poll<()> {
        match self {
            TestFuture::Immediate => Poll::Ready(()),
            TestFuture::WaitsForWake { polled } => {
                if *polled {
                    Poll::Ready(())
                } else {
                    *polled = true;
                    Poll::Pending
                }
            },
        }
    }
}

#[test]
fn task_ids_are_unique_and_increasing() {
    let mut ids = TaskIdGen::new();
    let a = TaskId::new(&mut ids);
    let b = TaskId::new(&mut ids);
    let c = TaskId::new(&mut ids);
    assert_eq!(a, TaskId(0));
    assert_eq!(b, TaskId(1));
    assert_eq!(c, TaskId(2));
}

#[test]
fn executor_three_task_scenario() {
    let mut ids = TaskIdGen::new();
    let mut executor: Executor<TestFuture> = Executor::new();

    let task_a = Task::new(&mut ids, TestFuture::WaitsForWake { polled: false });
    let a_id = task_a.task_id();
    let task_b = Task::new(&mut ids, TestFuture::Immediate);
    let b_id = task_b.task_id();

    executor.spawn(task_a);
    executor.spawn(task_b);
    assert_eq!(executor.ready_len(), 2);

    // run_ready_tasks terminates once the ready queue is empty
    executor.run_ready_tasks();
    assert_eq!(executor.ready_len(), 0);

    // B completed on its first poll and left the task table
    assert!(!executor.contains_task(b_id));
    // A is pending: still owned, absent from the ready queue, with
    // its waker cached for the next poll
    assert!(executor.contains_task(a_id));
    assert!(executor.has_cached_waker(a_id));

    // C spawns after B completed
    let task_c = Task::new(&mut ids, TestFuture::Immediate);
    let c_id = task_c.task_id();
    executor.spawn(task_c);
    executor.run_ready_tasks();
    assert!(!executor.contains_task(c_id));

    // A was never re-polled: no wake has named it
    assert!(executor.contains_task(a_id));
    assert_eq!(executor.ready_len(), 0);

    // the simulated external event wakes A; it completes on the next
    // poll and its cached waker is dropped with it
    executor.wake(a_id);
    assert_eq!(executor.ready_len(), 1);
    executor.run_ready_tasks();
    assert!(!executor.contains_task(a_id));
    assert!(!executor.has_cached_waker(a_id));
    assert_eq!(executor.ready_len(), 0);
}

#[test]
fn stale_wake_of_finished_task_is_skipped() {
    let mut ids = TaskIdGen::new();
    let mut executor: Executor<TestFuture> = Executor::new();
    let task = Task::new(&mut ids, TestFuture::Immediate);
    let id = task.task_id();
    // a suspended bystander whose cached waker must survive the
    // stale-wake pass untouched
    let bystander = Task::new(&mut ids, TestFuture::WaitsForWake { polled: false });
    let bystander_id = bystander.task_id();
    executor.spawn(task);
    executor.spawn(bystander);
    executor.run_ready_tasks();
    assert!(!executor.contains_task(id));
    assert!(executor.has_cached_waker(bystander_id));
    // a duplicate wake of the completed task must be harmless: no
    // poll, no change to the table or the waker cache
    executor.wake(id);
    executor.run_ready_tasks();
    assert_eq!(executor.ready_len(), 0);
    assert!(!executor.contains_task(id));
    assert!(!executor.has_cached_waker(id));
    assert!(executor.contains_task(bystander_id));
    assert!(executor.has_cached_waker(bystander_id));
}

#[test]
fn executor_idle_check_reads_ready_queue() {
    let mut ids = TaskIdGen::new();
    let mut executor: Executor<TestFuture> = Executor::new();
    assert!(executor.ready_queue_is_empty());
    let task = Task::new(&mut ids, TestFuture::Immediate);
    executor.spawn(task);
    assert!(!executor.ready_queue_is_empty());
    executor.run_ready_tasks();
    assert!(executor.ready_queue_is_empty());
}

#[test]
fn simple_executor_drains_all_tasks() {
    let mut ids = TaskIdGen::new();
    let mut executor: SimpleExecutor<TestFuture> = SimpleExecutor::new();
    executor.spawn(Task::new(&mut ids, TestFuture::Immediate));
    executor.spawn(Task::new(&mut ids, TestFuture::WaitsForWake { polled: false }));
    executor.spawn(Task::new(&mut ids, TestFuture::Immediate));
    assert_eq!(executor.queued(), 3);
    // the polling executor re-queues the pending task and finishes
    // it on the second round
    let done = executor.run(10);
    assert!(done);
    assert_eq!(executor.queued(), 0);
}

#[test]
fn simple_executor_budget_can_run_out() {
    let mut ids = TaskIdGen::new();
    let mut executor: SimpleExecutor<TestFuture> = SimpleExecutor::new();
    executor.spawn(Task::new(&mut ids, TestFuture::WaitsForWake { polled: false }));
    // one poll is not enough: the task went back to the queue
    let done = executor.run(1);
    assert!(!done);
    assert_eq!(executor.queued(), 1);
    assert!(executor.run(1));
}

#[test]
fn dummy_waker_names_nobody() {
    let c = dummy_waker();
    assert_eq!(c.waker, TaskId(u64::MAX));
}
