//! Orchestration layer of a trace-file conversion tool.
//!
//! The library owns the logic that turns a stream of trace events and a
//! selected command into derived output: command dispatch, timestamp
//! normalization for the columnar export, row filtering and chunking, and
//! the aggregation of partial failures into diagnostics, a structured error
//! artifact and a process exit status. File access, the trace-format parser
//! and the columnar encoder are collaborators that live outside the library
//! and hand it plain values.

pub mod command;
pub mod export;
pub mod json;
pub mod normalize;
pub mod outcome;
pub mod report;
