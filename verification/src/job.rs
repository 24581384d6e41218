//! Per-job state: the single-poll-at-a-time lock and the completion flag.
//!
//! A job owns a suspendable computation that is polled until it reports
//! completion. Two guards protect it: the poll lock serializes concurrent
//! poll attempts, and the completion flag makes a poll of an already
//! finished job a no-op, so a duplicate queue entry for the same job is
//! harmless extra scheduling work rather than an error.
//!
//! The computation itself is modelled by a small script: the job needs
//! `remaining_polls` further polls to complete, and, if `io_key` is set, it
//! first registers read-interest on that resource and suspends until the
//! readiness wake has been observed. On completion it delivers `payload`.

use vstd::prelude::*;

verus! {

/// What one poll of a job's computation reported.
#[derive(Clone, Copy, Debug, PartialEq, Eq, Structural)]
pub enum PollStatus {
    /// The computation finished; the job must never be polled again.
    Ready,
    /// The computation suspended and arranged its own wake-up.
    Pending,
}

/// One job's bookkeeping and behaviour script.
#[derive(Clone, Copy, Debug)]
pub struct JobSlot {
    /// Further polls needed before the job completes (not counting polls
    /// spent waiting for I/O readiness).
    pub remaining_polls: usize,
    /// Resource key the job waits on before it makes progress, if any.
    pub io_key: Option<u64>,
    /// True once the readiness wake for `io_key` has been observed.
    pub io_observed: bool,
    /// The poll lock: true while a poll of this job is in progress.
    pub polling: bool,
    /// True once a poll returned `PollStatus::Ready`.
    pub done: bool,
    /// The value the job delivers when it completes.
    pub payload: u64,
}

impl JobSlot {
    /// A fresh poll attempt may enter only when no other poll is in
    /// progress and the job has not already completed.
    pub open spec fn can_begin_poll(self) -> bool {
        !self.polling && !self.done
    }

    /// The job's next poll would register I/O interest and suspend.
    pub open spec fn needs_io(self) -> bool {
        self.io_key is Some && !self.io_observed
    }

    /// A job that needs `polls_needed` polls of pure computation, or, with
    /// `io_key` set, first waits for readiness of that resource and then
    /// needs `polls_needed` further polls.
    pub fn new(polls_needed: usize, io_key: Option<u64>, payload: u64) -> (j: JobSlot)
        requires
            polls_needed >= 1,
        ensures
            j == (JobSlot {
                remaining_polls: polls_needed,
                io_key,
                io_observed: false,
                polling: false,
                done: false,
                payload,
            }),
    {
        JobSlot {
            remaining_polls: polls_needed,
            io_key,
            io_observed: false,
            polling: false,
            done: false,
            payload,
        }
    }

    /// Try to take the poll lock. The attempt is refused while another poll
    /// is in progress (the lock serializes concurrent polls) and after the
    /// job has completed (a finished computation is never polled again).
    pub fn try_begin_poll(&mut self) -> (acquired: bool)
        ensures
            acquired == old(self).can_begin_poll(),
            acquired ==> *final(self) == (JobSlot { polling: true, ..*old(self) }),
            !acquired ==> *final(self) == *old(self),
    {
        if !self.polling && !self.done {
            self.polling = true;
            true
        } else {
            false
        }
    }

    /// One poll of the job's computation, with the lock held: a job waiting
    /// for unobserved I/O suspends again; otherwise one computation step is
    /// consumed and the job completes when it was the last one. The lock is
    /// released in every case.
    pub fn finish_poll(&mut self) -> (status: PollStatus)
        requires
            old(self).polling,
            !old(self).done,
            old(self).remaining_polls >= 1,
        ensures
            !final(self).polling,
            final(self).io_key == old(self).io_key,
            final(self).io_observed == old(self).io_observed,
            final(self).payload == old(self).payload,
            old(self).needs_io() ==> {
                &&& status == PollStatus::Pending
                &&& *final(self) == (JobSlot { polling: false, ..*old(self) })
            },
            !old(self).needs_io() && old(self).remaining_polls > 1 ==> {
                &&& status == PollStatus::Pending
                &&& *final(self) == (JobSlot {
                    polling: false,
                    remaining_polls: (old(self).remaining_polls - 1) as usize,
                    ..*old(self)
                })
            },
            !old(self).needs_io() && old(self).remaining_polls == 1 ==> {
                &&& status == PollStatus::Ready
                &&& *final(self) == (JobSlot {
                    polling: false,
                    remaining_polls: 0,
                    done: true,
                    ..*old(self)
                })
            },
    {
        self.polling = false;
        let waiting_for_io = match self.io_key {
            Some(_) => !self.io_observed,
            None => false,
        };
        if waiting_for_io {
            PollStatus::Pending
        } else if self.remaining_polls > 1 {
            self.remaining_polls = self.remaining_polls - 1;
            PollStatus::Pending
        } else {
            self.remaining_polls = 0;
            self.done = true;
            PollStatus::Ready
        }
    }

    /// Whether the next poll would register I/O interest and suspend.
    pub fn needs_io_now(&self) -> (b: bool)
        ensures
            b == self.needs_io(),
    {
        match self.io_key {
            Some(_) => !self.io_observed,
            None => false,
        }
    }

    /// The resource key this job waits on.
    pub fn io_key_value(&self) -> (k: u64)
        requires
            self.io_key is Some,
        ensures
            self.io_key == Some(k),
    {
        match self.io_key {
            Some(k) => k,
            None => 0,
        }
    }

    /// Record that the readiness wake for this job's resource was
    /// delivered: the next poll makes progress instead of suspending.
    pub fn observe_io_ready(&mut self)
        ensures
            *final(self) == (JobSlot { io_observed: true, ..*old(self) }),
    {
        self.io_observed = true;
    }

    /// Law: the poll lock serializes polls — while a poll of this job is in
    /// progress, no second poll can begin, so no job's computation is ever
    /// polled by two threads concurrently.
    pub proof fn lemma_poll_lock_serializes(j: JobSlot)
        ensures
            j.polling ==> !j.can_begin_poll(),
    {
    }

    /// Law: a completed job is never polled again — once a poll has
    /// returned `PollStatus::Ready`, every later poll attempt is refused.
    pub proof fn lemma_done_never_polled(j: JobSlot)
        ensures
            j.done ==> !j.can_begin_poll(),
    {
    }
}

} // verus!
