//! Core logic of a job-execution worker: leasing decisions, argument
//! resolution, sandboxed-child supervision bookkeeping, log capping,
//! timeout and cancellation rules, and completion planning.
//!
//! Everything here is pure decision logic over plain values; the
//! surrounding process (database, child processes, timers) drives it
//! from outside and performs the actions these functions prescribe.

pub mod args;
pub mod deps;
pub mod dispatch;
pub mod json;
pub mod model;
pub mod outcome;
pub mod runner;
pub mod supervisor;
pub mod text;
pub mod zombie;
