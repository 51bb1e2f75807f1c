//! Core logic of a page server's write-ahead-log machinery: replaying WAL
//! records onto page images, framing requests for the external replay
//! process, choosing which safekeeper to stream WAL from, and the decision
//! rules of the background-process supervisor.
//!
//! Everything here is pure logic over plain values; the process, pipe and
//! clock work that surrounds it lives outside this crate.

pub mod bytecodec;
pub mod connection_manager;
pub mod key;
pub mod lsn;
pub mod redo_io;
pub mod redo_laws;
pub mod redo_plan;
pub mod redo_proto;
pub mod supervisor;
pub mod walrecord;
pub mod walredo;
