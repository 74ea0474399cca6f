//! The collectors: one for the hardware energy counters, and two that
//! measure nothing yet.

pub mod dummy;
pub mod nvidia_gpu;
pub mod rapl;
