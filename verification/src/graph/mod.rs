//! The module-level import graph of a workspace.
pub mod import_graph;
