//! Attendance tracking: a small state machine for working / on-break state,
//! a cooperative ticker that accumulates elapsed working time, and an
//! `HH:MM:SS` duration formatter.

pub mod duration;
pub mod session;
pub mod ticker;
