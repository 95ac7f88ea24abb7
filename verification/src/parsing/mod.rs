//! Structural facts extracted from Rust source files.
pub mod extractor;
pub mod root_layout;
pub mod use_tree;
pub mod visitor;
pub mod events;
pub mod syntax;
pub mod source_text;
