use reratui::batch::StateBatch;
use reratui::context_stack::ContextStack;
use reratui::fiber::FiberId;
use reratui::fiber_tree::FiberTree;
use reratui::hooks::layout::{
    try_use_area, use_area, use_frame_info, use_media_query, use_resize, ComponentArea, FrameInfo,
};
use reratui::input::Rect;
use reratui::hooks::mouse::use_mouse_position;

fn setup_test_fiber() -> (FiberTree, StateBatch, FiberId) {
    let mut tree = FiberTree::new();
    let fiber_id = tree.mount(None, None);
    tree.begin_render(fiber_id);
    (tree, StateBatch::new(), fiber_id)
}

fn apply_batch_and_rerender(tree: &mut FiberTree, batch: &mut StateBatch, fiber_id: FiberId) {
    tree.end_render();
    batch.end_batch(tree);
    tree.begin_render(fiber_id);
}

#[test]
fn test_frame_info_creation() {
    let now = 5_000_000u64;
    let info = FrameInfo::new(42, 16_000_000, now);

    assert_eq!(info.count, 42);
    assert_eq!(info.delta_nanos, 16_000_000);
    assert_eq!(info.timestamp, now);
}

#[test]
fn test_frame_info_delta_conversions() {
    let info = FrameInfo::new(1, 16_000_000, 0);
    assert_eq!(info.delta_millis(), 16);
}

#[test]
fn test_frame_info_is_first_frame() {
    let frame0 = FrameInfo::new(0, 16_000_000, 0);
    let frame1 = FrameInfo::new(1, 16_000_000, 0);

    assert!(frame0.is_first_frame());
    assert!(!frame1.is_first_frame());
}

#[test]
fn test_frame_info_default() {
    let info = FrameInfo::default();
    assert_eq!(info.count, 0);
    assert_eq!(info.delta_nanos, 0);
    assert!(info.is_first_frame());
}

#[test]
fn frame_info_from_context() {
    let contexts = ContextStack::new();
    assert_eq!(use_frame_info(&contexts), FrameInfo::default());
    let mut contexts = ContextStack::new();
    contexts.push_context(FiberId(1), FrameInfo::new(3, 20_000_000, 60_000_000));
    assert_eq!(use_frame_info(&contexts), FrameInfo::new(3, 20_000_000, 60_000_000));
}

#[test]
fn test_use_resize_default() {
    let (mut tree, mut batch, _fiber_id) = setup_test_fiber();

    let (width, height) = use_resize(&mut tree, &mut batch, None);

    assert_eq!(width, 0);
    assert_eq!(height, 0);
}

#[test]
fn test_use_resize_updates_on_event() {
    let (mut tree, mut batch, fiber_id) = setup_test_fiber();

    let size = use_resize(&mut tree, &mut batch, Some((120, 40)));
    assert_eq!(size, (0, 0));

    apply_batch_and_rerender(&mut tree, &mut batch, fiber_id);

    let (width, height) = use_resize(&mut tree, &mut batch, None);
    assert_eq!(width, 120);
    assert_eq!(height, 40);
}

#[test]
fn test_use_media_query_default() {
    let (mut tree, mut batch, _fiber_id) = setup_test_fiber();

    let is_narrow = use_media_query(&mut tree, &mut batch, None, |(w, _): (u16, u16)| w < 80);

    assert!(!is_narrow);
}

#[test]
fn test_use_media_query_evaluates_predicate() {
    let (mut tree, mut batch, fiber_id) = setup_test_fiber();

    let is_narrow = use_media_query(&mut tree, &mut batch, Some((60, 40)), |(w, _): (u16, u16)| w < 80);
    assert!(!is_narrow);

    apply_batch_and_rerender(&mut tree, &mut batch, fiber_id);

    let is_narrow = use_media_query(&mut tree, &mut batch, None, |(w, _): (u16, u16)| w < 80);
    assert!(is_narrow);
}

#[test]
fn test_use_mouse_position_default() {
    let (mut tree, mut batch, _fiber_id) = setup_test_fiber();

    let (x, y) = use_mouse_position(&mut tree, &mut batch, None);

    assert_eq!(x, 0);
    assert_eq!(y, 0);
}

#[test]
fn test_use_mouse_position() {
    let (mut tree, mut batch, fiber_id) = setup_test_fiber();

    let _ = use_mouse_position(&mut tree, &mut batch, Some((42, 24)));
    apply_batch_and_rerender(&mut tree, &mut batch, fiber_id);

    let (x, y) = use_mouse_position(&mut tree, &mut batch, None);
    assert_eq!(x, 42);
    assert_eq!(y, 24);

    apply_batch_and_rerender(&mut tree, &mut batch, fiber_id);
    let _ = use_mouse_position(&mut tree, &mut batch, Some((42, 24)));
    assert!(!batch.has_pending_updates());
}

#[test]
fn test_component_area_deref() {
    let area = ComponentArea(Rect::new(10, 20, 100, 50));
    assert_eq!(area.width, 100);
    assert_eq!(area.height, 50);
    assert_eq!(area.x, 10);
    assert_eq!(area.y, 20);
}

#[test]
fn test_component_area_default() {
    let area = ComponentArea::default();
    assert_eq!(area.width, 0);
    assert_eq!(area.height, 0);
}

#[test]
fn test_use_area_with_context() {
    let (_tree, _batch, fiber_id) = setup_test_fiber();
    let mut contexts = ContextStack::new();

    let test_area = ComponentArea(Rect::new(10, 20, 100, 50));
    contexts.push_context(fiber_id, test_area);

    let area = use_area(&contexts);
    assert_eq!(area.width, 100);
    assert_eq!(area.height, 50);
}

#[test]
fn test_try_use_area_without_context() {
    let (_tree, _batch, _fiber_id) = setup_test_fiber();
    let contexts = ContextStack::new();

    let area = try_use_area(&contexts);
    assert!(area.is_none());
}

#[test]
fn nearest_area_wins() {
    let mut contexts = ContextStack::new();
    contexts.push_context(FiberId(1), ComponentArea(Rect::new(0, 0, 80, 24)));
    contexts.push_context(FiberId(2), ComponentArea(Rect::new(5, 5, 10, 4)));
    assert_eq!(use_area(&contexts), ComponentArea(Rect::new(5, 5, 10, 4)));
}
