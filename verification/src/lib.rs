//! Verified core of a WebSocket round-trip benchmark: workload sizing,
//! the decisions taken by each phase of a run, the in-memory loopback
//! stream the runs talk over, and the ordering of the final report.

pub mod workload;
pub mod report;
pub mod stream;
pub mod session;
pub mod reassembly;
