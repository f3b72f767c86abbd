//! Snapshot-based regression testing, split into three verified parts:
//! a parser for test-runner transcripts, a snapshot store keyed by
//! module path and test function, and the state machine that drives an
//! interactive update run.

pub mod grammar;
pub mod json;
pub mod orchestrator;
pub mod parse;
pub mod store;
pub mod transcript;
pub mod util;
