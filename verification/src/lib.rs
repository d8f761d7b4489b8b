//! Fan-out copy-and-verify engine: the verified models and logic for copying
//! a directory tree to several destinations at once and checking, by content
//! hash, that every copy is byte-identical to its source.
//!
//! - `tree`: the captured directory tree and its flattening into relative
//!   file paths, the keys joining a source file with its copies.
//! - `copier`: the controller of the double-buffered fan-out copy pipeline
//!   for one file.
//! - `hasher`: streaming XXH3-64 content hashing of a file's bytes.
//! - `progress`: the snapshot one phase publishes to its observers.
//! - `orchestrator`: the bookkeeping of a whole copy run and a whole
//!   verification run over the flattened file list.
//! - `report`, `export`: the consistency report and its tabular text form.

pub mod copier;
pub mod export;
pub mod hasher;
pub mod orchestrator;
pub mod progress;
pub mod report;
pub mod tree;
