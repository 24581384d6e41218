//! The worker thread's control loop as an explicit state machine.
//!
//! A worker alternates between draining the shared task queue and servicing
//! its thread-local reactor. The loop's decisions are pure and live here;
//! the surrounding runtime owns the OS thread, performs each `WorkerAction`
//! (dequeue, poll, block on the OS poller) and feeds the observation back
//! as the next `WorkerEvent`.
//!
//! The policy: a job that polls `Pending` is resubmitted to the shared
//! queue at once and the drain pauses for this cycle (duplicate delivery is tolerated — the job's poll lock and
//! completion flag make a duplicate a no-op); the worker exits permanently
//! exactly when its reactor has no pending waker left.

use vstd::prelude::*;

use crate::job::PollStatus;

verus! {

/// Where the worker stands in its loop.
#[derive(Clone, Copy, Debug, PartialEq, Eq, Structural)]
pub enum WorkerPhase {
    /// Taking jobs off the shared queue one by one.
    Draining,
    /// A job was dequeued and its poll is in progress.
    Polling,
    /// Deciding between blocking on the reactor and exiting.
    CheckingReactor,
    /// Blocked in the OS poller until a resource is ready.
    Waiting,
    /// The loop has terminated; the worker never runs again.
    Stopped,
}

/// What the worker observed since its last decision.
#[derive(Clone, Copy, Debug, PartialEq, Eq, Structural)]
pub enum WorkerEvent {
    /// The shared queue handed out a job.
    JobDequeued,
    /// The shared queue is empty right now.
    QueueEmpty,
    /// The poll of the dequeued job finished with this status.
    Polled(PollStatus),
    /// The reactor reported whether any waker is still pending.
    ReactorStatus(bool),
    /// The OS poller returned a batch and its wakers were all invoked.
    EventsDelivered,
}

/// What the runtime must do next.
#[derive(Clone, Copy, Debug, PartialEq, Eq, Structural)]
pub enum WorkerAction {
    /// Try to take the next job off the shared queue.
    TryDequeue,
    /// Poll the dequeued job once, with a waker that resubmits it.
    PollJob,
    /// Discard the job reference; the job is complete.
    DiscardJob,
    /// Resubmit the job to the shared queue, then ask the reactor.
    ResubmitJob,
    /// Ask the reactor whether any waker is still pending.
    QueryReactor,
    /// Block on the OS poller, then drain and invoke the wakers.
    WaitForEvents,
    /// Terminate the loop; the OS thread returns.
    Exit,
}

/// The worker loop's transition table: from the current phase and the
/// latest observation to the next phase and the action to perform.
pub open spec fn spec_worker_step(phase: WorkerPhase, event: WorkerEvent) -> (
    WorkerPhase,
    WorkerAction,
) {
    match (phase, event) {
        (WorkerPhase::Draining, WorkerEvent::JobDequeued) => (
            WorkerPhase::Polling,
            WorkerAction::PollJob,
        ),
        (WorkerPhase::Draining, WorkerEvent::QueueEmpty) => (
            WorkerPhase::CheckingReactor,
            WorkerAction::QueryReactor,
        ),
        (WorkerPhase::Polling, WorkerEvent::Polled(PollStatus::Ready)) => (
            WorkerPhase::Draining,
            WorkerAction::DiscardJob,
        ),
        (WorkerPhase::Polling, WorkerEvent::Polled(PollStatus::Pending)) => (
            WorkerPhase::CheckingReactor,
            WorkerAction::ResubmitJob,
        ),
        (WorkerPhase::CheckingReactor, WorkerEvent::ReactorStatus(true)) => (
            WorkerPhase::Waiting,
            WorkerAction::WaitForEvents,
        ),
        (WorkerPhase::CheckingReactor, WorkerEvent::ReactorStatus(false)) => (
            WorkerPhase::Stopped,
            WorkerAction::Exit,
        ),
        (WorkerPhase::Waiting, WorkerEvent::EventsDelivered) => (
            WorkerPhase::Draining,
            WorkerAction::TryDequeue,
        ),
        // An observation that cannot arise in the current phase changes
        // nothing; the worker keeps draining the queue.
        (_, _) => (WorkerPhase::Draining, WorkerAction::TryDequeue),
    }
}

/// Executable form of the transition table.
pub fn worker_step(phase: WorkerPhase, event: WorkerEvent) -> (r: (WorkerPhase, WorkerAction))
    ensures
        r == spec_worker_step(phase, event),
{
    match (phase, event) {
        (WorkerPhase::Draining, WorkerEvent::JobDequeued) => (
            WorkerPhase::Polling,
            WorkerAction::PollJob,
        ),
        (WorkerPhase::Draining, WorkerEvent::QueueEmpty) => (
            WorkerPhase::CheckingReactor,
            WorkerAction::QueryReactor,
        ),
        (WorkerPhase::Polling, WorkerEvent::Polled(PollStatus::Ready)) => (
            WorkerPhase::Draining,
            WorkerAction::DiscardJob,
        ),
        (WorkerPhase::Polling, WorkerEvent::Polled(PollStatus::Pending)) => (
            WorkerPhase::CheckingReactor,
            WorkerAction::ResubmitJob,
        ),
        (WorkerPhase::CheckingReactor, WorkerEvent::ReactorStatus(true)) => (
            WorkerPhase::Waiting,
            WorkerAction::WaitForEvents,
        ),
        (WorkerPhase::CheckingReactor, WorkerEvent::ReactorStatus(false)) => (
            WorkerPhase::Stopped,
            WorkerAction::Exit,
        ),
        (WorkerPhase::Waiting, WorkerEvent::EventsDelivered) => (
            WorkerPhase::Draining,
            WorkerAction::TryDequeue,
        ),
        (_, _) => (WorkerPhase::Draining, WorkerAction::TryDequeue),
    }
}

/// Law: the worker terminates only on seeing its reactor empty — no queue
/// observation and no poll result ever makes it exit, so a worker with a
/// pending I/O registration keeps blocking rather than stopping.
pub proof fn lemma_exit_only_on_idle_reactor(phase: WorkerPhase, event: WorkerEvent)
    ensures
        spec_worker_step(phase, event).1 == WorkerAction::Exit ==> phase
            == WorkerPhase::CheckingReactor && event == WorkerEvent::ReactorStatus(false),
{
}

/// Law: a pending poll never discards the job — it is resubmitted to the
/// shared queue at once, so a suspended job stays reachable.
pub proof fn lemma_pending_resubmits()
    ensures
        spec_worker_step(WorkerPhase::Polling, WorkerEvent::Polled(PollStatus::Pending)).1
            == WorkerAction::ResubmitJob,
{
}

} // verus!
