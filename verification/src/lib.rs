//! Repository hygiene analysis for Rust code bases: structural facts about
//! source files, the heuristics that turn them into findings, and the
//! renderings of a report.
pub mod text;
pub mod types;
pub mod canonical;
pub mod cli;
pub mod paths;
pub mod parsing;
pub mod discovery;
pub mod heuristics;
pub mod graph;
pub mod reporting;
pub mod analysis;
