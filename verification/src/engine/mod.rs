//! Engine: index registry and the parallel per-component arrays.

pub mod slot;
pub mod arrays;
pub mod registry;
pub mod flex_node;
pub mod flex_node_registry;
