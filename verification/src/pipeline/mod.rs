//! The render pipeline's data: frame results, hit regions and mounting.

pub mod frame_buffer_derived;
pub mod mount;
pub mod render;
