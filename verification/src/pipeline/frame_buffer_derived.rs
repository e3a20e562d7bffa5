//! The result of rendering a frame: the buffer and the hit regions.

use vstd::prelude::*;
use crate::renderer::buffer::FrameBuffer;

verus! {

/// A screen rectangle that belongs to a component, for mouse hit testing.
#[derive(Debug, Clone, Copy, PartialEq, Eq, Structural)]
pub struct HitRegion {
    pub x: u16,
    pub y: u16,
    pub width: u16,
    pub height: u16,
    pub component_index: usize,
}

/// A rendered frame.
#[derive(Debug)]
pub struct FrameBufferResult {
    pub buffer: FrameBuffer,
    /// Hit regions, in drawing order.
    pub hit_regions: Vec<HitRegion>,
    /// Terminal size (width, height) when the frame was rendered.
    pub terminal_size: (u16, u16),
}

} // verus!
