//! Pool configuration and the build-time plan for a fixed-size worker pool.
//!
//! A `ThreadPoolConfig` is built once through its builder methods and then
//! consumed by `build`, which validates the configuration and lays out one
//! `WorkerSpec` per worker thread. The surrounding runtime spawns one OS
//! thread per spec; the plan itself is pure data.

use vstd::prelude::*;

verus! {

/// Default worker stack size in bytes (16 MiB).
pub const DEFAULT_STACK_SIZE: usize = 16 * 1024 * 1024;

/// Default capacity of the shared bounded task queue.
pub const DEFAULT_QUEUE_SIZE: usize = 1024;

/// Immutable pool configuration: worker count, per-worker stack size and
/// shared queue capacity. `None` means "use the default".
pub struct ThreadPoolConfig {
    pub thread_count: usize,
    pub stack_size: Option<usize>,
    pub queue_size: Option<usize>,
}

/// Building a pool from a configuration with no workers is refused.
#[derive(Debug, PartialEq, Eq, Structural)]
pub enum PoolBuildError {
    ZeroThreadCount,
}

/// What one worker thread is created from: its id and its stack size.
pub struct WorkerSpec {
    pub id: usize,
    pub stack_size: usize,
}

/// The validated layout of a pool: one spec per worker, plus the effective
/// stack and queue sizes with defaults filled in.
pub struct PoolPlan {
    pub workers: Vec<WorkerSpec>,
    pub stack_size: usize,
    pub queue_size: usize,
}

impl ThreadPoolConfig {
    /// The stack size that `build` gives every worker.
    pub open spec fn spec_stack_size(self) -> usize {
        match self.stack_size {
            Some(s) => s,
            None => DEFAULT_STACK_SIZE,
        }
    }

    /// The queue capacity that `build` gives the shared task queue.
    pub open spec fn spec_queue_size(self) -> usize {
        match self.queue_size {
            Some(s) => s,
            None => DEFAULT_QUEUE_SIZE,
        }
    }

    /// Starting configuration: one worker, defaults everywhere else.
    pub fn builder() -> (c: ThreadPoolConfig)
        ensures
            c.thread_count == 1,
            c.stack_size is None,
            c.queue_size is None,
    {
        ThreadPoolConfig { thread_count: 1, stack_size: None, queue_size: None }
    }

    pub fn thread_count(self, thread_count: usize) -> (c: Self)
        ensures
            c.thread_count == thread_count,
            c.stack_size == self.stack_size,
            c.queue_size == self.queue_size,
    {
        ThreadPoolConfig { thread_count, ..self }
    }

    pub fn stack_size(self, stack_size: usize) -> (c: Self)
        ensures
            c.thread_count == self.thread_count,
            c.stack_size == Some(stack_size),
            c.queue_size == self.queue_size,
    {
        ThreadPoolConfig { stack_size: Some(stack_size), ..self }
    }

    pub fn queue_size(self, queue_size: usize) -> (c: Self)
        ensures
            c.thread_count == self.thread_count,
            c.stack_size == self.stack_size,
            c.queue_size == Some(queue_size),
    {
        ThreadPoolConfig { queue_size: Some(queue_size), ..self }
    }

    /// Validates the configuration and lays out the pool: exactly
    /// `thread_count` workers with ids `0..thread_count`, each with the
    /// effective stack size; a configuration with no workers fails fast.
    pub fn build(self) -> (r: Result<PoolPlan, PoolBuildError>)
        ensures
            r is Err <==> self.thread_count == 0,
            r matches Err(e) ==> e == PoolBuildError::ZeroThreadCount,
            r matches Ok(p) ==> {
                &&& p.workers@.len() == self.thread_count
                &&& forall|i: int|
                    0 <= i < p.workers@.len() ==> {
                        &&& (#[trigger] p.workers@[i]).id == i
                        &&& p.workers@[i].stack_size == self.spec_stack_size()
                    }
                &&& p.stack_size == self.spec_stack_size()
                &&& p.queue_size == self.spec_queue_size()
            },
    {
        if self.thread_count == 0 {
            return Err(PoolBuildError::ZeroThreadCount);
        }
        let stack_size = match self.stack_size {
            Some(s) => s,
            None => DEFAULT_STACK_SIZE,
        };
        let queue_size = match self.queue_size {
            Some(s) => s,
            None => DEFAULT_QUEUE_SIZE,
        };
        let mut workers: Vec<WorkerSpec> = Vec::new();
        let mut id: usize = 0;
        while id < self.thread_count
            invariant
                id <= self.thread_count,
                workers@.len() == id,
                forall|i: int|
                    0 <= i < workers@.len() ==> {
                        &&& (#[trigger] workers@[i]).id == i
                        &&& workers@[i].stack_size == stack_size
                    },
            decreases self.thread_count - id,
        {
            workers.push(WorkerSpec { id, stack_size });
            id = id + 1;
        }
        Ok(PoolPlan { workers, stack_size, queue_size })
    }
}

} // verus!
