use spark_tui::pipeline::frame_buffer_derived::HitRegion;
use spark_tui::pipeline::mount::{apply_hit_regions, HitGrid, MountHandle};
use spark_tui::renderer::buffer::FrameBuffer;
use spark_tui::renderer::diff::{cells_equal, DiffRenderer};
use spark_tui::types::{Attr, Cell, Rgba};
use std::cell::Cell as StdCell;
use std::rc::Rc;

#[test]
fn test_hit_grid() {
    let mut grid = HitGrid::new(10, 10);
    assert_eq!(grid.get(5, 5), None);
    grid.fill_rect(2, 2, 4, 4, 42);
    assert_eq!(grid.get(3, 3), Some(42));
    assert_eq!(grid.get(5, 5), Some(42));
    assert_eq!(grid.get(0, 0), None);
    assert_eq!(grid.get(8, 8), None);
    grid.clear();
    assert_eq!(grid.get(3, 3), None);
}

#[test]
fn mount_test_hit_grid_resize() {
    let mut grid = HitGrid::new(10, 10);
    grid.fill_rect(0, 0, 5, 5, 1);
    grid.resize(20, 20);
    assert_eq!(grid.get(2, 2), None);
}

#[test]
fn later_hit_regions_cover_earlier_ones() {
    let mut grid = HitGrid::new(4, 4);
    let regions = vec![
        HitRegion { x: 0, y: 0, width: 10, height: 10, component_index: 1 },
        HitRegion { x: 1, y: 1, width: 2, height: 2, component_index: 2 },
    ];
    apply_hit_regions(&mut grid, (6, 5), &regions);
    assert_eq!((grid.width(), grid.height()), (6, 5));
    assert_eq!(grid.get(0, 0), Some(1));
    assert_eq!(grid.get(2, 2), Some(2));
    assert_eq!(grid.get(3, 3), Some(1));
    assert_eq!(grid.get(5, 4), Some(1));
    assert_eq!(grid.get(6, 4), None);
}

#[test]
fn unmount_stops_the_render_effect() {
    let stopped = Rc::new(StdCell::new(false));
    let s = stopped.clone();
    let handle = MountHandle::new(move || s.set(true));
    assert!(handle.is_running());
    handle.unmount();
    assert!(stopped.get());
}

#[test]
fn test_diff_renderer_creation() {
    let renderer = DiffRenderer::new();
    assert!(!renderer.has_previous());
}

#[test]
fn test_cells_equal() {
    let a = Cell { char: 'X' as u32, fg: Rgba::WHITE(), bg: Rgba::BLACK(), attrs: Attr::BOLD() };
    let b = a;
    assert!(cells_equal(&a, &b));
    let c = Cell { char: 'Y' as u32, ..a };
    assert!(!cells_equal(&a, &c));
}

#[test]
fn test_invalidate() {
    let mut renderer = DiffRenderer::new();
    let buffer = FrameBuffer::new(10, 10);
    renderer.render(&buffer);
    assert!(renderer.has_previous());
    renderer.invalidate();
    assert!(!renderer.has_previous());
}

#[test]
fn second_render_lists_only_changed_cells() {
    let mut renderer = DiffRenderer::new();
    let mut buffer = FrameBuffer::new(3, 2);
    let first = renderer.render(&buffer);
    assert_eq!(first, vec![(0, 0), (1, 0), (2, 0), (0, 1), (1, 1), (2, 1)]);
    let unchanged = renderer.render(&buffer);
    assert!(unchanged.is_empty());
    let cell = Cell { char: 'Z' as u32, fg: Rgba::RED(), bg: Rgba::BLACK(), attrs: Attr::NONE() };
    buffer.set(2, 1, cell);
    buffer.set(0, 0, cell);
    assert_eq!(renderer.render(&buffer), vec![(0, 0), (2, 1)]);
    let bigger = FrameBuffer::new(2, 1);
    assert_eq!(renderer.render(&bigger), vec![(0, 0), (1, 0)]);
    assert_eq!(renderer.render_full(&bigger).len(), 2);
}
