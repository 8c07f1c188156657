//! Verified core of a background network-latency monitor.
//!
//! Once per second the surrounding program measures the round-trip time to a
//! fixed host. This library holds everything about that monitor that can be
//! stated and proved: the sample type, the bounded history of recent samples,
//! the text formats of the log file and of the exported snapshot, and the
//! decisions of the sampling loop.

pub mod buffer;
pub mod cadence;
pub mod decimal;
pub mod entry;
pub mod history;
pub mod json;
pub mod logline;
pub mod sampler;
pub mod timestamp;
