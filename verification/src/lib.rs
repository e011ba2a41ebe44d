//! A code-statistics library: classifies files by programming language,
//! counts code, comment and blank lines with a single-pass heuristic
//! classifier, and aggregates the results into per-language totals.
//!
//! Paths, file contents and language labels are handled as raw bytes;
//! callers do the file system walking and reading and hand the contents
//! in, so every rule in this crate is ordinary verified logic.

pub mod text;
pub mod stats;
pub mod classifier;
pub mod config;
pub mod detector;
pub mod analyzer;
pub mod error;
