//! Primitive components' plain data: input history and configuration.

pub mod types;
pub mod control_flow;
pub mod input;
pub mod box_primitive;
pub mod text;
