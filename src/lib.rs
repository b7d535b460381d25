//! Detached background jobs: the decisions of the worker that runs a command
//! and of the waiter that tails its artifacts, each stated and proved.

pub mod text;
pub mod control;
pub mod merge;
pub mod style;
pub mod watch;
pub mod interleave;
pub mod summary;
pub mod naming;
pub mod size;
pub mod clean;
