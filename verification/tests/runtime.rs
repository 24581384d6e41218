use taskpool::job::{JobSlot, PollStatus};
use taskpool::reactor::{Interest, Reactor};
use taskpool::scheduler::{RunOutcome, Scheduler, SpawnError};
use taskpool::threadpool::{PoolBuildError, ThreadPoolConfig, DEFAULT_QUEUE_SIZE, DEFAULT_STACK_SIZE};
use taskpool::worker::{worker_step, WorkerAction, WorkerEvent, WorkerPhase};

#[test]
fn construct_pool() {
    let pool = ThreadPoolConfig::builder()
        .thread_count(4)
        .stack_size(16 * 1024 * 1024)
        .queue_size(1024)
        .build()
        .unwrap();

    assert_eq!(pool.workers.len(), 4);
}

#[test]
fn pool_workers_are_numbered() {
    let pool = ThreadPoolConfig::builder().thread_count(3).build().unwrap();
    for (i, w) in pool.workers.iter().enumerate() {
        assert_eq!(w.id, i);
        assert_eq!(w.stack_size, DEFAULT_STACK_SIZE);
    }
}

#[test]
fn pool_defaults() {
    let pool = ThreadPoolConfig::builder().build().unwrap();
    assert_eq!(pool.workers.len(), 1);
    assert_eq!(pool.stack_size, DEFAULT_STACK_SIZE);
    assert_eq!(pool.queue_size, DEFAULT_QUEUE_SIZE);
}

#[test]
fn zero_thread_count_fails() {
    let r = ThreadPoolConfig::builder().thread_count(0).build();
    assert!(matches!(r, Err(PoolBuildError::ZeroThreadCount)));
}

#[test]
fn task_completes_after_k_polls() {
    let mut s = Scheduler::new(1024);
    let id = s.spawn(7, 0).unwrap();
    let outcome = s.run_until_blocked();
    assert_eq!(outcome, RunOutcome::Terminated);
    assert!(s.jobs[id].done);
    // the side effect is observed exactly once
    assert_eq!(s.completions, vec![id]);
}

#[test]
fn scenario_many_pure_tasks() {
    // 128 independent pure-computation tasks all complete, each exactly once.
    let mut s = Scheduler::new(1024);
    for i in 0..128u64 {
        let polls = (i % 5 + 1) as usize;
        s.spawn(polls, i).unwrap();
    }
    let outcome = s.run_until_blocked();
    assert_eq!(outcome, RunOutcome::Terminated);
    assert_eq!(s.completions.len(), 128);
    let mut seen = vec![false; 128];
    for &id in &s.completions {
        assert!(!seen[id], "job {} completed twice", id);
        seen[id] = true;
    }
    assert!(seen.iter().all(|&b| b));
    assert!(s.queue.is_empty());
}

#[test]
fn spawn_blocking_returns_value() {
    let mut s = Scheduler::new(1024);
    assert_eq!(s.spawn_blocking(42), Ok(42));
}

#[test]
fn queue_full_refuses_spawn() {
    let mut s = Scheduler::new(2);
    s.spawn(1, 0).unwrap();
    s.spawn(1, 1).unwrap();
    assert_eq!(s.spawn(1, 2), Err(SpawnError::QueueFull));
}

#[test]
fn first_submissions_complete_in_fifo_order() {
    let mut s = Scheduler::new(16);
    let a = s.spawn(1, 0).unwrap();
    let b = s.spawn(1, 1).unwrap();
    let c = s.spawn(1, 2).unwrap();
    let outcome = s.run_until_blocked();
    assert_eq!(outcome, RunOutcome::Terminated);
    assert_eq!(s.completions, vec![a, b, c]);
}

#[test]
fn scenario_io_wakeup() {
    // A task registers read-interest, suspends, and completes after the
    // resource becomes ready.
    let mut s = Scheduler::new(16);
    let key = 5u64;
    let id = s.spawn_io(1, key, 9).unwrap();
    let outcome = s.run_until_blocked();
    assert_eq!(outcome, RunOutcome::WaitingForIo);
    assert!(!s.jobs[id].done);
    s.io_ready(key);
    let outcome = s.run_until_blocked();
    assert_eq!(outcome, RunOutcome::Terminated);
    assert!(s.jobs[id].done);
    assert_eq!(s.completions, vec![id]);
}

#[test]
fn scenario_two_ready_tasks() {
    // Two already-ready tasks back to back: both complete, and neither is
    // ever polled again afterwards.
    let mut s = Scheduler::new(16);
    let a = s.spawn(1, 0).unwrap();
    let b = s.spawn(1, 1).unwrap();
    let outcome = s.run_until_blocked();
    assert_eq!(outcome, RunOutcome::Terminated);
    assert_eq!(s.completions, vec![a, b]);
    assert!(!s.jobs[a].try_begin_poll());
    assert!(!s.jobs[b].try_begin_poll());
}

#[test]
fn poll_lock_refuses_concurrent_poll() {
    let mut j = JobSlot::new(2, None, 0);
    assert!(j.try_begin_poll());
    // while the poll is in progress, a second attempt is refused
    assert!(!j.try_begin_poll());
    let status = j.finish_poll();
    assert_eq!(status, PollStatus::Pending);
    assert!(j.try_begin_poll());
}

#[test]
fn completed_job_never_polled_again() {
    let mut j = JobSlot::new(1, None, 7);
    assert!(j.try_begin_poll());
    assert_eq!(j.finish_poll(), PollStatus::Ready);
    assert!(j.done);
    assert!(!j.try_begin_poll());
}

#[test]
fn reactor_one_shot_delivery() {
    let mut r: Reactor<u32> = Reactor::new();
    assert!(!r.waiting_on_events());
    assert_eq!(r.get_interest(3), Interest::Nothing);
    assert_eq!(r.wake_on_readable(3, 7), Interest::Readable);
    assert!(r.waiting_on_events());
    let wakers = r.drain(&vec![3]);
    assert_eq!(wakers, vec![7]);
    assert!(!r.waiting_on_events());
    // the entry was one-shot: a second drain hands out nothing
    let wakers = r.drain(&vec![3]);
    assert!(wakers.is_empty());
}

#[test]
fn reactor_interest_masks() {
    let mut r: Reactor<u32> = Reactor::new();
    assert_eq!(r.wake_on_writable(9, 1), Interest::Writable);
    assert_eq!(r.wake_on_readable(9, 2), Interest::All);
    let wakers = r.drain(&vec![9]);
    assert_eq!(wakers, vec![2, 1]);
}

#[test]
fn reactor_deregister_drops_pending() {
    let mut r: Reactor<u32> = Reactor::new();
    r.wake_on_readable(4, 11);
    r.wake_on_writable(4, 12);
    r.deregister(4);
    assert!(!r.waiting_on_events());
    assert!(r.drain(&vec![4]).is_empty());
}

#[test]
fn worker_exits_only_on_idle_reactor() {
    let (phase, action) = worker_step(WorkerPhase::CheckingReactor, WorkerEvent::ReactorStatus(false));
    assert_eq!(phase, WorkerPhase::Stopped);
    assert_eq!(action, WorkerAction::Exit);
    let (phase, action) = worker_step(WorkerPhase::CheckingReactor, WorkerEvent::ReactorStatus(true));
    assert_eq!(phase, WorkerPhase::Waiting);
    assert_eq!(action, WorkerAction::WaitForEvents);
}

#[test]
fn worker_resubmits_pending_jobs() {
    let (phase, action) = worker_step(WorkerPhase::Polling, WorkerEvent::Polled(PollStatus::Pending));
    assert_eq!(phase, WorkerPhase::CheckingReactor);
    assert_eq!(action, WorkerAction::ResubmitJob);
    let (phase, action) = worker_step(WorkerPhase::Polling, WorkerEvent::Polled(PollStatus::Ready));
    assert_eq!(phase, WorkerPhase::Draining);
    assert_eq!(action, WorkerAction::DiscardJob);
}

#[test]
fn reactor_drains_batch_in_order() {
    let mut r: Reactor<u32> = Reactor::new();
    r.wake_on_readable(1, 10);
    r.wake_on_readable(2, 20);
    r.wake_on_readable(1, 11);
    let wakers = r.drain(&vec![2, 1]);
    assert_eq!(wakers, vec![20, 10, 11]);
}

#[test]
fn io_task_needs_polls_after_readiness() {
    let mut s = Scheduler::new(16);
    let id = s.spawn_io(3, 8, 0).unwrap();
    assert_eq!(s.run_until_blocked(), RunOutcome::WaitingForIo);
    s.io_ready(8);
    assert_eq!(s.run_until_blocked(), RunOutcome::Terminated);
    assert!(s.jobs[id].done);
    assert_eq!(s.completions, vec![id]);
}

#[test]
fn mixed_pure_and_io_tasks() {
    let mut s = Scheduler::new(64);
    let pure_a = s.spawn(2, 0).unwrap();
    let io = s.spawn_io(1, 3, 0).unwrap();
    let pure_b = s.spawn(1, 0).unwrap();
    assert_eq!(s.run_until_blocked(), RunOutcome::WaitingForIo);
    s.io_ready(3);
    assert_eq!(s.run_until_blocked(), RunOutcome::Terminated);
    assert_eq!(s.completions.len(), 3);
    assert!(s.completions.contains(&pure_a));
    assert!(s.completions.contains(&pure_b));
    assert!(s.completions.contains(&io));
}

#[test]
fn io_ready_wakes_only_its_resource() {
    let mut s = Scheduler::new(16);
    let a = s.spawn_io(1, 1, 0).unwrap();
    let b = s.spawn_io(1, 2, 0).unwrap();
    assert_eq!(s.run_until_blocked(), RunOutcome::WaitingForIo);
    s.io_ready(1);
    assert!(s.jobs[a].io_observed);
    // the job waiting on the other resource is left exactly as it was
    assert!(!s.jobs[b].io_observed);
    assert_eq!(s.run_until_blocked(), RunOutcome::WaitingForIo);
    s.io_ready(2);
    assert_eq!(s.run_until_blocked(), RunOutcome::Terminated);
    assert!(s.jobs[a].done && s.jobs[b].done);
}
