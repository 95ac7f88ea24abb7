//! Renderings of a report.
pub mod llm;
pub mod markdown;
pub mod terminal;
