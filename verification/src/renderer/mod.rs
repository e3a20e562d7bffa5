//! Frame buffers and the diff of consecutive frames.

pub mod buffer;
pub mod diff;
