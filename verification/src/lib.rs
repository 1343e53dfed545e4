//! Core of a debugger for periodically ticked, hot-swappable workloads.
//!
//! A background scheduler owns a swappable "auto splitter" unit, drives it at
//! the rate the unit reports, and measures per-tick latency.  A control
//! context can replace the unit, edit its settings, and read statistics
//! concurrently.  This crate holds the verified decision logic of that core:
//! tick pacing, the bounded wait-then-interrupt replacement policy, the
//! latency recorder, the compare-and-swap settings updater, the timer state
//! driven by the unit, and the file-name filters used when picking files.
//! The thread, lock and I/O plumbing around these decisions lives outside.

pub mod assoc;
pub mod control;
pub mod duration;
pub mod namefilter;
pub mod pattern;
pub mod recorder;
pub mod scheduler;
pub mod search;
pub mod settings;
pub mod swap;
pub mod text;
pub mod timefmt;
pub mod timer;
