//! The optimization engine of a session performance-mode daemon, with the
//! wire protocol its client speaks and the CPU bookkeeping it relies on.
//!
//! The daemon tracks workloads announced over a local socket, tunes the
//! machine and the workloads (cpufreq governor, nice value, I/O priority,
//! CPU affinity) while any are alive, and restores every captured prior
//! value when they are released, die, or the daemon shuts down. The engine
//! here is pure: it consumes observations and produces actions; the host
//! around it performs the reads and writes.

use vstd::prelude::*;

pub mod cfg;
pub mod cpu;
pub mod io;
pub mod laws;
pub mod optimizer;
pub mod proto;
pub mod service;

verus! {

} // verus!
