//! Which source files an analysis looks at.
pub mod files;
pub mod workspace;
