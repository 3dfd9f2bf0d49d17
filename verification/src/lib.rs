//! Fleet Warden: the decision logic of a disk cleanup daemon for development
//! machines, verified with Verus.
//!
//! The library holds what the daemon decides and computes: the circuit
//! breaker that guards cleanups, the persistent cleanup state, disk budget
//! and growth-rate arithmetic, the parsing of tool output, the selection of
//! what a cleanup run touches, and the steps of a watch cycle. Reading the
//! disk, running processes and printing stay with the caller.

pub mod circuit_breaker;
pub mod text;
pub mod state;
pub mod budget;
pub mod scanner;
pub mod cleaner;
pub mod watcher;
pub mod history;
pub mod anomaly;

pub use watcher::cmd_watch;
