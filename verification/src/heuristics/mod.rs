//! The heuristics: each turns the facts about a file (or about all files) into
//! findings.
pub mod common;
pub mod context_bombs;
pub mod deep_nesting;
pub mod type_complexity;
pub mod dangerous_pattern;
pub mod error_swallow;
pub mod stringly_typed;
pub mod test_utils;
pub mod branch_density;
pub mod implicit_control;
pub mod comment_ratio;
pub mod reexport_entropy;
pub mod platform_density;
pub mod coupling;
pub mod dead_weight;
pub mod import_diversity;
pub mod unused_imports;
pub mod naming_entropy;
pub mod duplication;
