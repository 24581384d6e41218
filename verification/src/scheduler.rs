//! The pool's scheduling semantics in one piece: one worker's view of the shared queue,
//! the job table and the thread-local reactor, advanced step by step under
//! the drain-poll-resubmit policy of the worker loop.
//!
//! The runtime runs this policy on N OS threads against a shared channel;
//! here the same decisions act on one explicit state, which makes the
//! scheduling guarantees provable: every spawned job completes exactly
//! once, a completed job is never polled again, a job woken by I/O
//! readiness is re-enqueued with the wake recorded, and a run whose jobs
//! wait on no unobserved I/O terminates with an empty queue rather than
//! deadlocking.

use vstd::prelude::*;

use crate::job::{JobSlot, PollStatus};
use crate::reactor::{pending, spec_drain, Reactor};

verus! {

/// Total number of polls the jobs still need: the run loop's termination
/// measure decreases with every productive poll.
pub open spec fn sum_remaining(jobs: Seq<JobSlot>) -> nat
    decreases jobs.len(),
{
    if jobs.len() == 0 {
        0
    } else {
        (jobs[0].remaining_polls + sum_remaining(jobs.skip(1))) as nat
    }
}

proof fn lemma_sum_remaining_update(jobs: Seq<JobSlot>, i: int, v: JobSlot)
    requires
        0 <= i < jobs.len(),
    ensures
        sum_remaining(jobs.update(i, v)) + jobs[i].remaining_polls == sum_remaining(jobs)
            + v.remaining_polls,
    decreases i,
{
    if i == 0 {
        assert(jobs.update(0, v).skip(1) =~= jobs.skip(1));
        assert(jobs.update(0, v)[0] == v);
    } else {
        lemma_sum_remaining_update(jobs.skip(1), i - 1, v);
        assert(jobs.update(i, v).skip(1) =~= jobs.skip(1).update(i - 1, v));
        assert(jobs.update(i, v)[0] == jobs[0]);
    }
}

proof fn lemma_registered_transfer(a: Scheduler, b: Scheduler, id: usize)
    requires
        a.registered(id),
        b.reactor.readers() == a.reactor.readers(),
    ensures
        b.registered(id),
{
    let k = choose|k: u64| a.registered_on(k, id);
    assert(b.registered_on(k, id));
}

/// The set of the first `n` job ids is finite and has exactly `n` members.
proof fn lemma_usize_range_is_finite(n: nat)
    requires
        n <= usize::MAX,
    ensures
        Set::new(|id: usize| (id as nat) < n).finite(),
        Set::new(|id: usize| (id as nat) < n).len() == n,
    decreases n,
{
    if n == 0 {
        assert(Set::new(|id: usize| (id as nat) < 0) =~= Set::<usize>::empty());
    } else {
        lemma_usize_range_is_finite((n - 1) as nat);
        let prev = Set::new(|id: usize| (id as nat) < n - 1);
        assert(Set::new(|id: usize| (id as nat) < n) =~= prev.insert(((n - 1) as usize)));
        assert(!prev.contains((n - 1) as usize));
    }
}

/// Spawning fails when the bounded queue is at capacity (the runtime
/// blocks the submitter instead; the model reports it).
#[derive(Clone, Copy, Debug, PartialEq, Eq, Structural)]
pub enum SpawnError {
    QueueFull,
}

/// How a run ended: the worker either terminated because nothing was
/// queued and no waker was pending, or it would now block in the OS
/// poller until some registered resource becomes ready.
#[derive(Clone, Copy, Debug, PartialEq, Eq, Structural)]
pub enum RunOutcome {
    Terminated,
    WaitingForIo,
}

/// The pool's scheduling state: the job table, the shared FIFO queue of
/// job ids, the reactor (whose stored waker for a job is simply its id —
/// waking a job means re-enqueueing it), and the completion record.
pub struct Scheduler {
    pub jobs: Vec<JobSlot>,
    pub queue: Vec<usize>,
    pub queue_size: usize,
    pub reactor: Reactor<usize>,
    pub completions: Vec<usize>,
}

impl Scheduler {
    /// Job `id` has a waker stored under resource `key`.
    pub open spec fn registered_on(self, key: u64, id: usize) -> bool {
        self.reactor.readers().contains_key(key) && self.reactor.readers()[key].contains(id)
    }

    /// Job `id` has a waker stored under some resource.
    pub open spec fn registered(self, id: usize) -> bool {
        exists|key: u64| self.registered_on(key, id)
    }

    /// No job still waits on an unobserved readiness wake.
    pub open spec fn no_pending_io(self) -> bool {
        forall|id: int| 0 <= id < self.jobs@.len() ==> !(#[trigger] self.jobs@[id]).needs_io()
    }

    /// The state invariant. Key clauses: the completion record lists
    /// exactly the completed jobs, each once; no poll is in progress
    /// between steps; every job that is not yet complete is reachable —
    /// it sits in the queue or has a waker registered in the reactor (a job
    /// exists in queued, being-polled or reactor-pending form, never in
    /// none of them); and a stored waker always belongs to a live job that
    /// waits, unobserved, on exactly the resource it is stored under.
    pub open spec fn well_formed(self) -> bool {
        &&& forall|i: int|
            0 <= i < self.queue@.len() ==> (#[trigger] self.queue@[i]) < self.jobs@.len()
        &&& forall|id: usize|
            id < self.jobs@.len() ==> !(#[trigger] self.jobs@[id as int]).polling
        &&& forall|id: usize|
            id < self.jobs@.len() ==> (#[trigger] self.jobs@[id as int]).done
                || self.jobs@[id as int].remaining_polls >= 1
        &&& forall|id: usize|
            id < self.jobs@.len() ==> ((#[trigger] self.jobs@[id as int]).done
                <==> self.completions@.contains(id))
        &&& forall|i: int|
            0 <= i < self.completions@.len() ==> (#[trigger] self.completions@[i])
                < self.jobs@.len()
        &&& self.completions@.no_duplicates()
        &&& forall|id: usize|
            id < self.jobs@.len() && !(#[trigger] self.jobs@[id as int]).done
                ==> self.queue@.contains(id) || self.registered(id)
        &&& forall|key: u64, i: int|
            #![trigger self.reactor.readers()[key][i]]
            self.reactor.readers().contains_key(key) && 0 <= i
                < self.reactor.readers()[key].len() ==> {
                let id = self.reactor.readers()[key][i];
                &&& id < self.jobs@.len()
                &&& self.jobs@[id as int].io_key == Some(key)
                &&& !self.jobs@[id as int].io_observed
                &&& !self.jobs@[id as int].done
            }
        &&& forall|key: u64|
            #[trigger] self.reactor.readers().contains_key(key)
                ==> self.reactor.readers()[key].len() > 0
        &&& self.reactor.writers().is_empty()
    }

    /// Law: a well-formed pool whose jobs wait on no unobserved I/O has an
    /// idle reactor — every stored waker belongs to a job that still waits,
    /// so once all wakes are observed nothing is left to block on.
    pub proof fn lemma_no_pending_io_means_idle(self)
        requires
            self.well_formed(),
            self.no_pending_io(),
        ensures
            !self.reactor.spec_waiting(),
    {
        if !self.reactor.readers().is_empty() {
            assert(exists|key: u64| self.reactor.readers().dom().contains(key)) by {
                if !(exists|key: u64| self.reactor.readers().dom().contains(key)) {
                    assert(self.reactor.readers().dom() =~= Set::<u64>::empty());
                }
            }
            let key = choose|key: u64| self.reactor.readers().dom().contains(key);
            assert(self.reactor.readers()[key].len() > 0);
            let id = self.reactor.readers()[key][0];
            assert(self.jobs@[id as int].needs_io());
            assert(false);
        }
    }

    /// Law: a waiting reactor always waits on behalf of a job — it names a
    /// live job that is registered on exactly the resource its script
    /// waits on, still unobserved. (A readiness report for that resource
    /// therefore re-enqueues the job with its wake recorded.)
    pub proof fn lemma_waiting_names_a_waiter(self) -> (r: (u64, usize))
        requires
            self.well_formed(),
            self.reactor.spec_waiting(),
        ensures
            r.1 < self.jobs@.len(),
            self.jobs@[r.1 as int].io_key == Some(r.0),
            !self.jobs@[r.1 as int].io_observed,
            !self.jobs@[r.1 as int].done,
            self.registered_on(r.0, r.1),
    {
        assert(!self.reactor.readers().is_empty());
        assert(exists|key: u64| self.reactor.readers().dom().contains(key)) by {
            if !(exists|key: u64| self.reactor.readers().dom().contains(key)) {
                assert(self.reactor.readers().dom() =~= Set::<u64>::empty());
            }
        }
        let key = choose|key: u64| self.reactor.readers().dom().contains(key);
        assert(self.reactor.readers()[key].len() > 0);
        let id = self.reactor.readers()[key][0];
        assert(self.reactor.readers()[key].contains(id));
        (key, id)
    }

    /// An empty pool with the given queue capacity.
    pub fn new(queue_size: usize) -> (s: Scheduler)
        ensures
            s.well_formed(),
            s.jobs@.len() == 0,
            s.queue@.len() == 0,
            s.completions@.len() == 0,
            s.queue_size == queue_size,
            !s.reactor.spec_waiting(),
            s.no_pending_io(),
    {
        let s = Scheduler {
            jobs: Vec::new(),
            queue: Vec::new(),
            queue_size,
            reactor: Reactor::new(),
            completions: Vec::new(),
        };
        proof {
            assert(s.reactor.readers().dom() =~= Set::<u64>::empty());
            assert(s.reactor.writers().dom() =~= Set::<u64>::empty());
        }
        s
    }

    /// Submit a job that needs `polls_needed` polls of pure computation and
    /// delivers `payload`. First submissions enter the queue at the tail in
    /// FIFO order; a full queue refuses the job.
    pub fn spawn(&mut self, polls_needed: usize, payload: u64) -> (r: Result<usize, SpawnError>)
        requires
            old(self).well_formed(),
            polls_needed >= 1,
        ensures
            final(self).well_formed(),
            final(self).queue_size == old(self).queue_size,
            final(self).reactor == old(self).reactor,
            final(self).completions == old(self).completions,
            r is Err <==> old(self).queue@.len() >= old(self).queue_size,
            r matches Err(e) ==> e == SpawnError::QueueFull && *final(self) == *old(self),
            r matches Ok(id) ==> {
                &&& id == old(self).jobs@.len()
                &&& final(self).jobs@ == old(self).jobs@.push(
                    JobSlot {
                        remaining_polls: polls_needed,
                        io_key: None,
                        io_observed: false,
                        polling: false,
                        done: false,
                        payload,
                    },
                )
                &&& final(self).queue@ == old(self).queue@.push(id)
            },
    {
        self.enqueue_job(JobSlot::new(polls_needed, None, payload))
    }

    /// Submit a job that first registers read-interest on `key`, suspends
    /// until that resource's readiness wake is observed, and then needs
    /// `polls_needed` further polls.
    pub fn spawn_io(&mut self, polls_needed: usize, key: u64, payload: u64) -> (r: Result<
        usize,
        SpawnError,
    >)
        requires
            old(self).well_formed(),
            polls_needed >= 1,
        ensures
            final(self).well_formed(),
            final(self).queue_size == old(self).queue_size,
            final(self).reactor == old(self).reactor,
            final(self).completions == old(self).completions,
            r is Err <==> old(self).queue@.len() >= old(self).queue_size,
            r matches Err(e) ==> e == SpawnError::QueueFull && *final(self) == *old(self),
            r matches Ok(id) ==> {
                &&& id == old(self).jobs@.len()
                &&& final(self).jobs@ == old(self).jobs@.push(
                    JobSlot {
                        remaining_polls: polls_needed,
                        io_key: Some(key),
                        io_observed: false,
                        polling: false,
                        done: false,
                        payload,
                    },
                )
                &&& final(self).queue@ == old(self).queue@.push(id)
            },
    {
        self.enqueue_job(JobSlot::new(polls_needed, Some(key), payload))
    }

    /// Shared admission path: bounded-queue check, then job table append
    /// and tail enqueue.
    fn enqueue_job(&mut self, slot: JobSlot) -> (r: Result<usize, SpawnError>)
        requires
            old(self).well_formed(),
            !slot.polling,
            !slot.done,
            slot.remaining_polls >= 1,
        ensures
            final(self).well_formed(),
            final(self).queue_size == old(self).queue_size,
            final(self).reactor == old(self).reactor,
            final(self).completions == old(self).completions,
            r is Err <==> old(self).queue@.len() >= old(self).queue_size,
            r matches Err(e) ==> e == SpawnError::QueueFull && *final(self) == *old(self),
            r matches Ok(id) ==> {
                &&& id == old(self).jobs@.len()
                &&& final(self).jobs@ == old(self).jobs@.push(slot)
                &&& final(self).queue@ == old(self).queue@.push(id)
            },
    {
        if self.queue.len() >= self.queue_size {
            return Err(SpawnError::QueueFull);
        }
        let id = self.jobs.len();
        self.jobs.push(slot);
        self.queue.push(id);
        proof {
            assert(!old(self).completions@.contains(id));
            assert forall|j: usize|
                j < self.jobs@.len() && !(#[trigger] self.jobs@[j as int]).done implies self.queue@.contains(
                j,
            ) || self.registered(j) by {
                if j == id {
                    assert(self.queue@[self.queue@.len() - 1] == j);
                } else {
                    assert(self.jobs@[j as int] == old(self).jobs@[j as int]);
                    assert(old(self).queue@.contains(j) || old(self).registered(j));
                    if old(self).queue@.contains(j) {
                        let i = choose|i: int|
                            0 <= i < old(self).queue@.len() && old(self).queue@[i] == j;
                        assert(self.queue@[i] == j);
                    } else {
                        lemma_registered_transfer(*old(self), *self, j);
                    }
                }
            }
            assert forall|key: u64, i: int|
                #![trigger self.reactor.readers()[key][i]]
                self.reactor.readers().contains_key(key) && 0 <= i
                    < self.reactor.readers()[key].len() implies {
                let jid = self.reactor.readers()[key][i];
                &&& jid < self.jobs@.len()
                &&& self.jobs@[jid as int].io_key == Some(key)
                &&& !self.jobs@[jid as int].io_observed
                &&& !self.jobs@[jid as int].done
            } by {
                let jid = self.reactor.readers()[key][i];
                assert(old(self).reactor.readers()[key][i] == jid);
                assert(jid < old(self).jobs@.len());
                assert(self.jobs@[jid as int] == old(self).jobs@[jid as int]);
            }
        }
        Ok(id)
    }

    /// Drain the queue under the worker policy until the worker would
    /// either exit (nothing queued, no waker pending — every job is then
    /// complete) or block in the OS poller (some waker is pending). A pool
    /// whose jobs wait on no unobserved I/O always terminates.
    ///
    /// Every completion is recorded exactly once: the completion record is
    /// duplicate-free and lists precisely the jobs whose poll returned
    /// ready, in completion order.
    #[verifier::loop_isolation(false)]
    pub fn run_until_blocked(&mut self) -> (outcome: RunOutcome)
        requires
            old(self).well_formed(),
        ensures
            final(self).well_formed(),
            final(self).queue_size == old(self).queue_size,
            final(self).jobs@.len() == old(self).jobs@.len(),
            forall|id: usize|
                id < old(self).jobs@.len() ==> {
                    &&& (#[trigger] final(self).jobs@[id as int]).io_key == old(
                        self,
                    ).jobs@[id as int].io_key
                    &&& final(self).jobs@[id as int].payload == old(self).jobs@[id as int].payload
                    &&& final(self).jobs@[id as int].io_observed == old(
                        self,
                    ).jobs@[id as int].io_observed
                    &&& (old(self).jobs@[id as int].done ==> final(self).jobs@[id as int].done)
                },
            old(self).completions@.is_prefix_of(final(self).completions@),
            outcome == RunOutcome::WaitingForIo ==> final(self).reactor.spec_waiting(),
            outcome == RunOutcome::Terminated ==> {
                &&& final(self).queue@.len() == 0
                &&& !final(self).reactor.spec_waiting()
                &&& forall|id: usize|
                    id < final(self).jobs@.len() ==> (#[trigger] final(self).jobs@[id as int]).done
            },
            old(self).no_pending_io() ==> outcome == RunOutcome::Terminated,
    {
        loop
            invariant
                self.well_formed(),
                self.queue_size == old(self).queue_size,
                self.jobs@.len() == old(self).jobs@.len(),
                forall|id: usize|
                    id < old(self).jobs@.len() ==> {
                        &&& (#[trigger] self.jobs@[id as int]).io_key == old(
                            self,
                        ).jobs@[id as int].io_key
                        &&& self.jobs@[id as int].payload == old(self).jobs@[id as int].payload
                        &&& self.jobs@[id as int].io_observed == old(
                            self,
                        ).jobs@[id as int].io_observed
                        &&& (old(self).jobs@[id as int].done ==> self.jobs@[id as int].done)
                    },
                old(self).completions@.is_prefix_of(self.completions@),
            decreases 2 * sum_remaining(self.jobs@) + self.queue@.len(),
        {
            if self.queue.len() == 0 {
                if self.reactor.waiting_on_events() {
                    proof {
                        if old(self).no_pending_io() {
                            vstd::std_specs::vec::axiom_spec_len(&self.jobs);
                            assert forall|id2: int|
                                0 <= id2 < self.jobs@.len() implies !(
                                #[trigger] self.jobs@[id2]).needs_io() by {
                                let u = id2 as usize;
                                assert(self.jobs@[u as int].io_key == old(
                                    self,
                                ).jobs@[u as int].io_key);
                                assert(self.jobs@[u as int].io_observed == old(
                                    self,
                                ).jobs@[u as int].io_observed);
                                assert(!old(self).jobs@[id2].needs_io());
                            }
                            Self::lemma_no_pending_io_means_idle(*self);
                            assert(false);
                        }
                    }
                    return RunOutcome::WaitingForIo;
                } else {
                    proof {
                        assert forall|id: usize| id < self.jobs@.len() implies (#[trigger] self
                            .jobs@[id as int]).done by {
                            if !self.jobs@[id as int].done {
                                assert(self.queue@.contains(id) || self.registered(id));
                                if self.registered(id) {
                                    let key = choose|key: u64| self.registered_on(key, id);
                                    assert(self.reactor.readers().dom().contains(key));
                                    assert(false);
                                }
                                assert(false);
                            }
                        }
                    }
                    return RunOutcome::Terminated;
                }
            }
            let ghost prev = *self;
            let id = self.queue.remove(0);
            proof {
                assert(prev.queue@[0] == id);
                assert forall|j: usize|
                    j < self.jobs@.len() && !(#[trigger] self.jobs@[j as int]).done && j
                        != id implies self.queue@.contains(j) || self.registered(j) by {
                    assert(prev.queue@.contains(j) || prev.registered(j));
                    if prev.queue@.contains(j) {
                        let i = choose|i: int| 0 <= i < prev.queue@.len() && prev.queue@[i] == j;
                        assert(i != 0);
                        assert(self.queue@[i - 1] == j);
                    } else {
                        lemma_registered_transfer(prev, *self, j);
                    }
                }
            }
            let mut slot = self.jobs[id];
            if !slot.try_begin_poll() {
                // The job already completed; this was a harmless duplicate
                // queue entry and the reference is simply dropped.
                proof {
                    assert(self.jobs@[id as int].done);
                }
                continue ;
            }
            let status = slot.finish_poll();
            let needs_io = slot.needs_io_now();
            self.jobs[id] = slot;
            proof {
                lemma_sum_remaining_update(prev.jobs@, id as int, slot);
            }
            match status {
                PollStatus::Ready => {
                    proof {
                        assert(!prev.completions@.contains(id));
                    }
                    self.completions.push(id);
                    proof {
                        let c = self.completions@;
                        assert(c.drop_last() =~= prev.completions@);
                        assert(c.no_duplicates()) by {
                            assert forall|x: int, y: int|
                                0 <= x < c.len() && 0 <= y < c.len() && x != y implies c[x]
                                != c[y] by {
                                if x < c.len() - 1 && y < c.len() - 1 {
                                    assert(prev.completions@[x] == c[x]);
                                    assert(prev.completions@[y] == c[y]);
                                } else if x == c.len() - 1 {
                                    assert(c[x] == id);
                                    assert(prev.completions@[y] == c[y]);
                                    assert(prev.completions@.contains(c[y]));
                                } else {
                                    assert(c[y] == id);
                                    assert(prev.completions@[x] == c[x]);
                                    assert(prev.completions@.contains(c[x]));
                                }
                            }
                        }
                        assert(old(self).completions@.is_prefix_of(c)) by {
                            assert(c.subrange(0, old(self).completions@.len() as int)
                                =~= prev.completions@.subrange(
                                0,
                                old(self).completions@.len() as int,
                            ));
                        }
                        assert forall|id2: usize|
                            id2 < self.jobs@.len() implies ((#[trigger] self
                            .jobs@[id2 as int]).done <==> c.contains(id2)) by {
                            if id2 == id {
                                assert(c[c.len() - 1] == id);
                                assert(c.contains(id));
                            } else {
                                assert(self.jobs@[id2 as int] == prev.jobs@[id2 as int]);
                                if c.contains(id2) {
                                    let i = choose|i: int| 0 <= i < c.len() && c[i] == id2;
                                    assert(i < c.len() - 1);
                                    assert(prev.completions@[i] == id2);
                                    assert(prev.completions@.contains(id2));
                                }
                                if prev.completions@.contains(id2) {
                                    let i = choose|i: int|
                                        0 <= i < prev.completions@.len() && prev.completions@[i]
                                            == id2;
                                    assert(c[i] == id2);
                                }
                            }
                        }
                        assert forall|j: usize|
                            j < self.jobs@.len() && !(#[trigger] self.jobs@[j as int]).done implies self.queue@.contains(
                            j,
                        ) || self.registered(j) by {
                            assert(j != id);
                            assert(self.jobs@[j as int] == prev.jobs@[j as int]);
                            assert(prev.queue@.contains(j) || prev.registered(j));
                            if prev.queue@.contains(j) {
                                let i = choose|i: int|
                                    0 <= i < prev.queue@.len() && prev.queue@[i] == j;
                                assert(i != 0);
                                assert(self.queue@[i - 1] == j);
                            } else {
                                lemma_registered_transfer(prev, *self, j);
                            }
                        }
                        assert forall|key2: u64, i2: int|
                            #![trigger self.reactor.readers()[key2][i2]]
                            self.reactor.readers().contains_key(key2) && 0 <= i2
                                < self.reactor.readers()[key2].len() implies {
                            let jid = self.reactor.readers()[key2][i2];
                            &&& jid < self.jobs@.len()
                            &&& self.jobs@[jid as int].io_key == Some(key2)
                            &&& !self.jobs@[jid as int].io_observed
                            &&& !self.jobs@[jid as int].done
                        } by {
                            let jid = self.reactor.readers()[key2][i2];
                            assert(prev.reactor.readers()[key2][i2] == jid);
                            assert(jid != id) by {
                                if jid == id {
                                    assert(prev.jobs@[id as int].needs_io());
                                }
                            }
                            assert(self.jobs@[jid as int] == prev.jobs@[jid as int]);
                        }
                    }
                },
                PollStatus::Pending => {
                    if needs_io {
                        let key = slot.io_key_value();
                        let ghost readers_before = self.reactor.readers();
                        let _interest = self.reactor.wake_on_readable(key, id);
                        self.queue.push(id);
                        proof {
                            assert(slot == prev.jobs@[id as int]);
                            assert(self.jobs@ =~= prev.jobs@);
                            assert(self.reactor.readers().dom().contains(key));
                            assert(!self.reactor.readers().is_empty());
                            assert(self.reactor.spec_waiting());
                            assert forall|j: usize|
                                j < self.jobs@.len() && !(
                                #[trigger] self.jobs@[j as int]).done implies self.queue@.contains(
                                j,
                            ) || self.registered(j) by {
                                if j == id {
                                    assert(self.queue@[self.queue@.len() - 1] == id);
                                } else {
                                    assert(self.jobs@[j as int] == prev.jobs@[j as int]);
                                    assert(prev.queue@.contains(j) || prev.registered(j));
                                    if prev.queue@.contains(j) {
                                        let i = choose|i: int|
                                            0 <= i < prev.queue@.len() && prev.queue@[i] == j;
                                        assert(i != 0);
                                        assert(self.queue@[i - 1] == j);
                                    } else {
                                        assert(prev.registered(j));
                                        let k2 = choose|k2: u64| prev.registered_on(k2, j);
                                        if k2 == key {
                                            let i = choose|i: int|
                                                0 <= i < readers_before[key].len()
                                                    && readers_before[key][i] == j;
                                            assert(self.reactor.readers()[key][i] == j);
                                            assert(self.registered_on(key, j));
                                        } else {
                                            assert(self.reactor.readers()[k2]
                                                == readers_before[k2]);
                                            assert(self.registered_on(k2, j));
                                        }
                                    }
                                }
                            }
                            assert forall|key2: u64, i2: int|
                                #![trigger self.reactor.readers()[key2][i2]]
                                self.reactor.readers().contains_key(key2) && 0 <= i2
                                    < self.reactor.readers()[key2].len() implies {
                                let jid = self.reactor.readers()[key2][i2];
                                &&& jid < self.jobs@.len()
                                &&& self.jobs@[jid as int].io_key == Some(key2)
                                &&& !self.jobs@[jid as int].io_observed
                                &&& !self.jobs@[jid as int].done
                            } by {
                                let jid = self.reactor.readers()[key2][i2];
                                if key2 == key {
                                    let l = pending(readers_before, key);
                                    if i2 < l.len() {
                                        assert(readers_before.contains_key(key));
                                        assert(readers_before[key][i2] == l[i2]);
                                        assert(prev.reactor.readers()[key][i2] == jid);
                                    } else {
                                        assert(self.reactor.readers()[key2][i2] == id);
                                        assert(prev.jobs@[id as int].io_key == Some(key));
                                        assert(!prev.jobs@[id as int].io_observed);
                                        assert(!prev.jobs@[id as int].done);
                                    }
                                } else {
                                    assert(self.reactor.readers()[key2] == readers_before[key2]);
                                    assert(prev.reactor.readers()[key2][i2] == jid);
                                }
                            }
                            assert forall|key2: u64|
                                #[trigger] self.reactor.readers().contains_key(
                                key2,
                            ) implies self.reactor.readers()[key2].len() > 0 by {
                                if key2 == key {
                                    assert(self.reactor.readers()[key].len() == pending(
                                        readers_before,
                                        key,
                                    ).len() + 1);
                                } else {
                                    assert(readers_before.contains_key(key2));
                                    assert(self.reactor.readers()[key2] == readers_before[key2]);
                                }
                            }
                            if old(self).no_pending_io() {
                                assert(prev.jobs@[id as int].needs_io());
                                assert(prev.jobs@[id as int].io_key == old(
                                    self,
                                ).jobs@[id as int].io_key);
                                assert(prev.jobs@[id as int].io_observed == old(
                                    self,
                                ).jobs@[id as int].io_observed);
                                assert(false);
                            }
                        }
                        return RunOutcome::WaitingForIo;
                    } else {
                        self.queue.push(id);
                        proof {
                            assert forall|j: usize|
                                j < self.jobs@.len() && !(
                                #[trigger] self.jobs@[j as int]).done implies self.queue@.contains(
                                j,
                            ) || self.registered(j) by {
                                if j == id {
                                    assert(self.queue@[self.queue@.len() - 1] == id);
                                } else {
                                    assert(self.jobs@[j as int] == prev.jobs@[j as int]);
                                    assert(prev.queue@.contains(j) || prev.registered(j));
                                    if prev.queue@.contains(j) {
                                        let i = choose|i: int|
                                            0 <= i < prev.queue@.len() && prev.queue@[i] == j;
                                        assert(i != 0);
                                        assert(self.queue@[i - 1] == j);
                                    } else {
                                        lemma_registered_transfer(prev, *self, j);
                                    }
                                }
                            }
                            assert forall|key2: u64, i2: int|
                                #![trigger self.reactor.readers()[key2][i2]]
                                self.reactor.readers().contains_key(key2) && 0 <= i2
                                    < self.reactor.readers()[key2].len() implies {
                                let jid = self.reactor.readers()[key2][i2];
                                &&& jid < self.jobs@.len()
                                &&& self.jobs@[jid as int].io_key == Some(key2)
                                &&& !self.jobs@[jid as int].io_observed
                                &&& !self.jobs@[jid as int].done
                            } by {
                                let jid = self.reactor.readers()[key2][i2];
                                assert(prev.reactor.readers()[key2][i2] == jid);
                                assert(jid != id) by {
                                    if jid == id {
                                        assert(prev.jobs@[id as int].needs_io());
                                    }
                                }
                                assert(self.jobs@[jid as int] == prev.jobs@[jid as int]);
                            }
                        }
                        if self.reactor.waiting_on_events() {
                            proof {
                                if old(self).no_pending_io() {
                                    vstd::std_specs::vec::axiom_spec_len(&self.jobs);
                                    assert forall|id2: int|
                                        0 <= id2 < self.jobs@.len() implies !(
                                    #[trigger] self.jobs@[id2]).needs_io() by {
                                        let u = id2 as usize;
                                        assert(self.jobs@[u as int].io_key == old(
                                            self,
                                        ).jobs@[u as int].io_key);
                                        assert(self.jobs@[u as int].io_observed == old(
                                            self,
                                        ).jobs@[u as int].io_observed);
                                        assert(!old(self).jobs@[id2].needs_io());
                                    }
                                    Self::lemma_no_pending_io_means_idle(*self);
                                    assert(false);
                                }
                            }
                            return RunOutcome::WaitingForIo;
                        }
                    }
                },
            }
        }
    }

    /// The OS reported resource `key` ready: every waker pending on it is
    /// invoked, which marks its job's readiness as observed and re-enqueues
    /// the job; the resource's reactor entry is removed (one-shot). Jobs
    /// not woken here are left exactly as they were.
    #[verifier::loop_isolation(false)]
    pub fn io_ready(&mut self, key: u64)
        requires
            old(self).well_formed(),
        ensures
            final(self).well_formed(),
            final(self).queue_size == old(self).queue_size,
            final(self).jobs@.len() == old(self).jobs@.len(),
            final(self).completions == old(self).completions,
            final(self).queue@ == old(self).queue@ + pending(old(self).reactor.readers(), key),
            final(self).reactor.readers() == old(self).reactor.readers().remove(key),
            // a woken job differs only in its wake being recorded; every
            // other job is untouched
            forall|id: usize|
                #![trigger final(self).jobs@[id as int]]
                id < old(self).jobs@.len() ==> if pending(
                    old(self).reactor.readers(),
                    key,
                ).contains(id) {
                    final(self).jobs@[id as int] == (JobSlot {
                        io_observed: true,
                        ..old(self).jobs@[id as int]
                    })
                } else {
                    final(self).jobs@[id as int] == old(self).jobs@[id as int]
                },
            // every job that was waiting on `key` is re-enqueued with its
            // wake observed
            forall|id: usize|
                old(self).registered_on(key, id) ==> final(self).queue@.contains(id)
                    && final(self).jobs@[id as int].io_observed,
    {
        let mut events: Vec<u64> = Vec::new();
        events.push(key);
        let ghost readers0 = self.reactor.readers();
        let ghost writers0 = self.reactor.writers();
        let wakers = self.reactor.drain(&events);
        proof {
            assert(events@[0] == key);
            assert(events@.skip(1) =~= Seq::<u64>::empty());
            assert(spec_drain(
                readers0.remove(key),
                writers0.remove(key),
                events@.skip(1),
            ) =~= Seq::<usize>::empty());
            assert(!writers0.contains_key(key));
            assert(pending(writers0, key) =~= Seq::<usize>::empty());
            assert(wakers@ =~= pending(readers0, key));
            assert(events@.to_set() =~= Set::<u64>::empty().insert(key));
            assert(self.reactor.readers() =~= readers0.remove(key));
            assert(self.reactor.writers() =~= writers0.remove_keys(events@.to_set()));
            assert(self.reactor.writers().dom() =~= Set::<u64>::empty());
        }
        let ghost mid = *self;
        let mut i: usize = 0;
        while i < wakers.len()
            invariant
                i <= wakers@.len(),
                self.queue_size == mid.queue_size,
                self.completions == mid.completions,
                self.reactor == mid.reactor,
                self.jobs@.len() == mid.jobs@.len(),
                self.queue@ == mid.queue@ + wakers@.take(i as int),
                forall|id2: usize|
                    #![trigger self.jobs@[id2 as int]]
                    id2 < self.jobs@.len() ==> if wakers@.take(i as int).contains(id2) {
                        self.jobs@[id2 as int] == (JobSlot {
                            io_observed: true,
                            ..mid.jobs@[id2 as int]
                        })
                    } else {
                        self.jobs@[id2 as int] == mid.jobs@[id2 as int]
                    },
            decreases wakers@.len() - i,
        {
            let id = wakers[i];
            proof {
                assert(readers0.contains_key(key));
                assert(pending(readers0, key)[i as int] == readers0[key][i as int]);
                assert(readers0[key][i as int] < old(self).jobs@.len());
            }
            let ghost before = self.jobs@;
            let mut slot = self.jobs[id];
            slot.observe_io_ready();
            self.jobs[id] = slot;
            self.queue.push(id);
            proof {
                assert(wakers@.take(i as int + 1) =~= wakers@.take(i as int).push(id));
                assert(self.queue@ =~= mid.queue@ + wakers@.take(i as int + 1));
                assert forall|id2: usize|
                    id2 < self.jobs@.len() implies if wakers@.take(i as int + 1).contains(id2) {
                    (#[trigger] self.jobs@[id2 as int]) == (JobSlot {
                        io_observed: true,
                        ..mid.jobs@[id2 as int]
                    })
                } else {
                    self.jobs@[id2 as int] == mid.jobs@[id2 as int]
                } by {
                    if id2 == id {
                        assert(wakers@.take(i as int + 1)[i as int] == id);
                        assert(wakers@.take(i as int + 1).contains(id));
                    } else {
                        assert(self.jobs@[id2 as int] == before[id2 as int]);
                        let t1 = wakers@.take(i as int + 1);
                        let t0 = wakers@.take(i as int);
                        if t1.contains(id2) {
                            let w = choose|w: int| 0 <= w < t1.len() && t1[w] == id2;
                            assert(w < i as int);
                            assert(t0[w] == id2);
                            assert(t0.contains(id2));
                        } else {
                            if t0.contains(id2) {
                                let w = choose|w: int| 0 <= w < t0.len() && t0[w] == id2;
                                assert(t1[w] == id2);
                            }
                        }
                    }
                }
            }
            i = i + 1;
        }
        proof {
            assert(wakers@.take(wakers@.len() as int) =~= wakers@);
            assert(self.queue@ =~= old(self).queue@ + pending(readers0, key));
            assert forall|id: usize|
                old(self).registered_on(key, id) implies self.queue@.contains(id) && self
                .jobs@[id as int].io_observed by {
                let j = choose|j: int| 0 <= j < readers0[key].len() && readers0[key][j] == id;
                assert(self.queue@[old(self).queue@.len() + j] == id);
                assert(pending(readers0, key).contains(id));
            }
            assert forall|i2: int|
                0 <= i2 < self.queue@.len() implies (#[trigger] self.queue@[i2])
                < self.jobs@.len() by {
                if i2 < old(self).queue@.len() {
                    assert(self.queue@[i2] == old(self).queue@[i2]);
                } else {
                    assert(self.queue@[i2] == readers0[key][i2 - old(self).queue@.len()]);
                }
            }
            assert forall|key2: u64, i2: int|
                #![trigger self.reactor.readers()[key2][i2]]
                self.reactor.readers().contains_key(key2) && 0 <= i2
                    < self.reactor.readers()[key2].len() implies {
                let jid = self.reactor.readers()[key2][i2];
                &&& jid < self.jobs@.len()
                &&& self.jobs@[jid as int].io_key == Some(key2)
                &&& !self.jobs@[jid as int].io_observed
                &&& !self.jobs@[jid as int].done
            } by {
                let jid = self.reactor.readers()[key2][i2];
                assert(key2 != key);
                assert(self.reactor.readers()[key2] == readers0[key2]);
                assert(old(self).reactor.readers()[key2][i2] == jid);
                assert(old(self).jobs@[jid as int].io_key == Some(key2));
                assert(self.jobs@[jid as int] == old(self).jobs@[jid as int]) by {
                    if pending(readers0, key).contains(jid) {
                        let w = choose|w: int|
                            0 <= w < readers0[key].len() && readers0[key][w] == jid;
                        assert(old(self).reactor.readers()[key][w] == jid);
                        assert(old(self).jobs@[jid as int].io_key == Some(key));
                    }
                }
            }
            assert forall|key2: u64|
                #[trigger] self.reactor.readers().contains_key(
                key2,
            ) implies self.reactor.readers()[key2].len() > 0 by {
                assert(key2 != key);
                assert(self.reactor.readers()[key2] == readers0[key2]);
                assert(old(self).reactor.readers().contains_key(key2));
            }
            assert forall|j: usize|
                j < self.jobs@.len() && !(#[trigger] self.jobs@[j as int]).done implies self.queue@.contains(
                j,
            ) || self.registered(j) by {
                assert(!old(self).jobs@[j as int].done);
                assert(old(self).queue@.contains(j) || old(self).registered(j));
                if old(self).queue@.contains(j) {
                    let i2 = choose|i2: int|
                        0 <= i2 < old(self).queue@.len() && old(self).queue@[i2] == j;
                    assert(self.queue@[i2] == j);
                } else {
                    let k2 = choose|k2: u64| old(self).registered_on(k2, j);
                    if k2 == key {
                        assert(self.queue@.contains(j));
                    } else {
                        assert(self.reactor.readers()[k2] == readers0[k2]);
                        assert(self.registered_on(k2, j));
                    }
                }
            }
        }
    }

    /// Law: every completion is recorded exactly once — once every job has
    /// completed, the completion record holds exactly one entry per job.
    pub proof fn lemma_each_completion_recorded_once(self)
        requires
            self.well_formed(),
            forall|id: usize|
                id < self.jobs@.len() ==> (#[trigger] self.jobs@[id as int]).done,
        ensures
            self.completions@.len() == self.jobs@.len(),
    {
        let n = self.jobs@.len();
        vstd::std_specs::vec::axiom_spec_len(&self.jobs);
        self.completions@.unique_seq_to_set();
        lemma_usize_range_is_finite(n);
        assert(self.completions@.to_set() =~= Set::new(|id: usize| (id as nat) < n)) by {
            assert forall|id: usize| (id as nat) < n implies self.completions@.to_set().contains(
                id,
            ) by {
                assert(self.jobs@[id as int].done);
                assert(self.completions@.contains(id));
            }
        }
        assert(self.completions@.to_set().len() == n);
    }

    /// Schedule a one-poll job carrying `payload` and run the pool until
    /// it delivers: the caller gets exactly the value the job produced.
    /// Guaranteed to deliver on a pool whose jobs wait on no unobserved
    /// I/O (an I/O-blocked pool would leave the caller waiting).
    pub fn spawn_blocking(&mut self, payload: u64) -> (r: Result<u64, SpawnError>)
        requires
            old(self).well_formed(),
            old(self).no_pending_io(),
        ensures
            final(self).well_formed(),
            r is Err <==> old(self).queue@.len() >= old(self).queue_size,
            r matches Ok(v) ==> v == payload,
            r is Ok ==> forall|id: usize|
                id < final(self).jobs@.len() ==> (#[trigger] final(self).jobs@[id as int]).done,
    {
        let id = match self.spawn(1, payload) {
            Ok(id) => id,
            Err(e) => {
                return Err(e);
            },
        };
        let ghost spawned = *self;
        proof {
            assert(spawned.no_pending_io()) by {
                assert forall|j: int| 0 <= j < spawned.jobs@.len() implies !(#[trigger] spawned
                    .jobs@[j]).needs_io() by {
                    if j < old(self).jobs@.len() {
                        assert(spawned.jobs@[j] == old(self).jobs@[j]);
                    } else {
                        assert(spawned.jobs@[j].io_key is None);
                    }
                }
            }
        }
        let outcome = self.run_until_blocked();
        proof {
            assert(outcome == RunOutcome::Terminated);
            assert(self.jobs@[id as int].payload == spawned.jobs@[id as int].payload);
        }
        let v = self.jobs[id].payload;
        Ok(v)
    }
}

} // verus!
