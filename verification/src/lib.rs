//! A pomodoro timer library.
//!
//! The heart of the library is the phase engine: a pure function that, given
//! the moment a pomodoro was started, the current time and the configured
//! schedule, decides whether the session is idle, working, resting or done,
//! and how many seconds remain in the current phase. Around it stand the
//! renderer, which turns a phase into the exact status string, and the codec,
//! which reads and writes the persisted configuration and session records.
//! All time is kept in whole seconds since the epoch.

pub mod codec;
pub mod config;
pub mod digits;
pub mod display;
pub mod phase;
pub mod session;
