//! A line-delimited JSON-RPC tool server ("Model Context Protocol" pattern)
//! that exposes two version-control helpers, `get_staged_diff` and
//! `execute_commit`, to a calling agent process.
//!
//! This crate holds the verified protocol engine: the JSON codec, the
//! request decoder, the tool catalog, the dispatcher and the tool-result
//! envelope. The concrete version-control backend is an external
//! collaborator; the engine only shapes what goes over the wire.

pub mod catalog;
pub mod chars;
pub mod dispatch;
pub mod git;
pub mod jparse;
pub mod laws;
pub mod json;
pub mod protocol;
pub mod roundtrip;
