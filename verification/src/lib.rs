//! Watches the running-process list for names that contain a pattern and
//! decides, on each poll, which configured command (if any) must run.
//!
//! The crate holds the decision logic only: reducing a process snapshot to a
//! boolean "target present" signal, tracking that signal across polls, and
//! firing the launch action exactly once per rising edge and the closing
//! action exactly once per falling edge. Enumerating processes and spawning
//! commands are left to the caller.

pub mod action;
pub mod controller;
pub mod pattern;
pub mod snapshot;
