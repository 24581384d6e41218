//! Core of a small user-space task-scheduling runtime: a fixed-size pool of
//! worker threads that execute cooperatively-suspending tasks, driven by a
//! per-thread I/O readiness reactor and a wake-notification handle.
//!
//! This crate holds the verified logic of the runtime — pool configuration,
//! the reactor's bookkeeping of pending wakers, the per-job poll lock and
//! completion state, and the worker loop's scheduling decisions — together
//! with the plain-data side of the application around it: application
//! settings, queue family indices, material errors and DAZ scene
//! references. The thin layer that owns OS threads, the OS poller,
//! type-erased futures and files drives these functions from outside.

use vstd::prelude::*;

pub mod context;
pub mod daz;
pub mod dsf;
pub mod duf;
pub mod job;
pub mod material;
pub mod reactor;
pub mod scheduler;
pub mod sim;
pub mod threadpool;
pub mod worker;

verus! {

/// A handle-carrying resource: a single raw handle, and optionally a list
/// of them.
pub trait Resource<T> {
    fn handle(&self) -> T;

    fn handles(&self) -> Option<&Vec<T>>;
}

/// Application-level settings: window name and resolution.
#[derive(Clone, Debug)]
pub struct AppSettings {
    pub name: String,
    pub resolution: [u32; 2],
}

impl Default for AppSettings {
    /// The default window: named "App", 1280 by 720.
    fn default() -> (s: AppSettings)
        ensures
            s.name@ == "App"@,
            s.resolution@ == seq![1280u32, 720u32],
    {
        let s = AppSettings { name: String::from_str("App"), resolution: [1280, 720] };
        proof {
            assert(s.resolution@ =~= seq![1280u32, 720u32]);
        }
        s
    }
}

} // verus!
