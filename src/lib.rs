//! A seekable, mode-gated file handle over a byte-stream backend.
//!
//! The handle enforces its access mode on every call, keeps the stream
//! position well defined after chunked line scanning, and turns backend
//! faults into a caller-facing error taxonomy.

pub mod errors;
pub mod file;
pub mod find;
pub mod lines;
pub mod mode;
pub mod namespace;
pub mod stream;
