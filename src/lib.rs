//! Barrel-file generation: locate an `@index(...)` directive, classify its
//! glob patterns, resolve them against a snapshot of the directory tree and
//! re-emit the file body as export statements.

pub mod text;
pub mod error;
pub mod locate;
pub mod classify;
pub mod template;
pub mod paths;
pub mod resolve;
pub mod pipeline;
pub mod laws;
