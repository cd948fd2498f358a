//! Task registry and supervision rules of a process supervisor daemon.
//!
//! The library holds the task model, the store with its lifecycle state
//! machine, and the monitor's firing decisions. Spawning processes, clocks,
//! transports and metrics live in the daemon around it.
use vstd::prelude::*;

pub mod task;
pub mod store;
pub mod clock;
pub mod monitor;
