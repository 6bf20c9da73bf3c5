//! Planning and parsing for a frame-interpolation job: the decisions behind a
//! pipeline that probes a video, extracts its frames, runs an interpolation
//! engine over them and assembles the result. Everything here is a function of
//! plain values; running processes and touching the file system is the caller's
//! part.

pub mod framework;
pub mod monitor;
pub mod pattern;
pub mod pipeline;
pub mod planner;
pub mod probe;
pub mod rate;
pub mod text;
pub mod toolkit;
