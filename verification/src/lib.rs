//! Host-level energy telemetry: reading hardware energy counters, attributing
//! the energy to processes, and keeping a bounded trace of the measurements.
//!
//! The library holds the rules and does no input or output of its own. A
//! caller reads the host once per tick (the counter files, the processor and
//! memory figures) and hands the readings over as a [`sample::TickSample`]; the
//! library turns them into records. It likewise decides what a sampling task
//! does next ([`energy_group::MonitoringLoop`]) and leaves running the task to
//! the caller.
//!
//! Quantities are whole numbers: energy in microjoules, processor usage and
//! utilization in thousandths of a percent, sampling rates in thousandths of
//! a hertz. A share of a quantity is a fraction of integers
//! ([`attribution::Ratio`]), and a divided amount is rounded down.
//!
//! - [`collectors`]: the counter readers, the discovery of the domains, and
//!   the collectors.
//! - [`attribution`]: processor and memory shares and how amounts are divided.
//! - [`energy_group`]: the records, the collector capability and the
//!   orchestrator.
//! - [`utils`]: the rotating trace buffer and the grouping of processes.
//! - [`table`]: the table of named columns that traces are kept in.
//! - [`text`]: parsing and writing numbers, trimming and searching text.
//! - [`clock`]: the time of the system clock in whole seconds.

pub mod attribution;
pub mod clock;
pub mod collectors;
pub mod energy_group;
pub mod errors;
pub mod sample;
pub mod table;
pub mod text;
pub mod utils;
