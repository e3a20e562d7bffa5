//! Mounting: the hit grid kept in step with each frame, and the handle that
//! stops rendering.

use vstd::prelude::*;
use crate::pipeline::frame_buffer_derived::HitRegion;
pub use crate::state::mouse::HitGrid;
use crate::state::mouse::{in_rect, written_cell};

verus! {

/// The component a frame's hit regions put at (x, y): the last region
/// drawn there, if any, within the first `n` regions.
pub open spec fn region_owner(regions: Seq<HitRegion>, n: int, x: int, y: int) -> Option<usize>
    decreases n,
{
    if n <= 0 {
        None
    } else {
        let r = regions[n - 1];
        if in_rect(r.x as int, r.y as int, r.width as int, r.height as int, x, y) {
            written_cell(r.component_index)
        } else {
            region_owner(regions, n - 1, x, y)
        }
    }
}

/// Bring the hit grid in step with a frame: resized to the terminal size
/// (or cleared when the size is unchanged), then each region filled in
/// drawing order, later regions on top.
pub fn apply_hit_regions(grid: &mut HitGrid, terminal_size: (u16, u16), regions: &Vec<HitRegion>)
    ensures
        final(grid).width_spec() == terminal_size.0,
        final(grid).height_spec() == terminal_size.1,
        forall|x: int, y: int|
            #[trigger] final(grid).cell(x, y) == if 0 <= x < terminal_size.0 && 0 <= y < terminal_size.1 {
                region_owner(regions@, regions@.len() as int, x, y)
            } else {
                None
            },
{
    let (tw, th) = terminal_size;
    if grid.width() != tw || grid.height() != th {
        grid.resize(tw, th);
    } else {
        grid.clear();
    }
    let mut k: usize = 0;
    while k < regions.len()
        invariant
            k <= regions@.len(),
            grid.width_spec() == tw,
            grid.height_spec() == th,
            forall|x: int, y: int|
                #[trigger] grid.cell(x, y) == if 0 <= x < tw && 0 <= y < th {
                    region_owner(regions@, k as int, x, y)
                } else {
                    None
                },
        decreases regions.len() - k,
    {
        let r = regions[k];
        grid.fill_rect(r.x, r.y, r.width, r.height, r.component_index);
        k = k + 1;
    }
}

/// The handle of a mounted application. `S` stops the render effect.
pub struct MountHandle<S> {
    stop_effect: Option<S>,
    running: bool,
}

impl<S: FnOnce()> MountHandle<S> {
    /// Whether rendering runs.
    pub closed spec fn running_spec(&self) -> bool {
        self.running
    }

    /// The function that stops the render effect, if still held.
    pub closed spec fn stop_spec(&self) -> Option<S> {
        self.stop_effect
    }

    /// The stop function, if still held, may be called.
    pub open spec fn stop_callable(&self) -> bool {
        self.stop_spec() matches Some(f) ==> call_requires(f, ())
    }

    /// A running mount whose render effect `stop` ends.
    pub fn new(stop: S) -> (h: MountHandle<S>)
        requires
            call_requires(stop, ()),
        ensures
            h.running_spec(),
            h.stop_spec() == Some(stop),
    {
        MountHandle { stop_effect: Some(stop), running: true }
    }

    /// Stop rendering: the running flag clears and the effect is stopped.
    pub fn unmount(self)
        requires
            self.stop_callable(),
        ensures
            self.stop_spec() matches Some(f) ==> call_ensures(f, (), ()),
    {
        let mut h = self;
        h.running = false;
        match h.stop_effect {
            Some(stop) => {
                stop();
            },
            None => {},
        }
    }

    /// Whether rendering still runs.
    pub fn is_running(&self) -> (b: bool)
        ensures
            b == self.running_spec(),
    {
        self.running
    }
}

/// Unmount an application.
pub fn unmount<S: FnOnce()>(handle: MountHandle<S>)
    requires
        handle.stop_callable(),
    ensures
        handle.stop_spec() matches Some(f) ==> call_ensures(f, (), ()),
{
    handle.unmount();
}

} // verus!
