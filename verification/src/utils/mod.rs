//! Helpers around the collectors: the rotating trace buffer and the grouping
//! of processes.

pub mod psutils;
pub mod trace_rotation;
