//! Snapshots of Linux kernel-exposed state: decoders for the fixed-format
//! pseudo-files under `/proc`, derived rate metrics over paired snapshots,
//! and the process enumeration subsystem.
//!
//! Every decoder works on bytes already read from the kernel file; the
//! caller performs the reads and hands the contents in, so the decoding and
//! derivation logic is verified end to end.

mod error;
pub mod cpu;
pub mod kernel;
pub mod load_average;
pub mod memory;
pub mod network;
pub mod process;
pub mod rate;
pub mod rtc_time;
pub mod scan;
pub mod text;
pub mod uptime;
pub mod volume;

pub use error::ProbeError;
