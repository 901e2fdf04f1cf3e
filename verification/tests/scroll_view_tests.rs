use reratui::batch::StateBatch;
use reratui::fiber::FiberId;
use reratui::fiber_tree::FiberTree;
use reratui::input::{Key, KeyPress, Rect};
use reratui::scroll_view::{
    content_area, copy_extent, max_offset, more_above, more_below, scrollbar_plan, use_scroll_view,
    view_key_offset, visible_count, ScrollIndicator, ScrollbarPlan,
};

fn setup_test_fiber() -> (FiberTree, StateBatch, FiberId) {
    let mut tree = FiberTree::new();
    let fiber_id = tree.mount(None, None);
    tree.begin_render(fiber_id);
    (tree, StateBatch::new(), fiber_id)
}

fn apply_batch_and_rerender(tree: &mut FiberTree, batch: &mut StateBatch, fiber_id: FiberId) {
    tree.end_render();
    batch.end_batch(tree);
    tree.begin_render(fiber_id);
}

fn key(k: Key) -> KeyPress {
    KeyPress { key: k, ctrl: false }
}

#[test]
fn indicator_defaults() {
    let ind = ScrollIndicator::default();
    assert!(ind.show_scrollbar && ind.show_more_above && ind.show_more_below);
}

#[test]
fn content_area_reserves_scrollbar_column() {
    let inner = Rect::new(2, 3, 40, 10);
    assert_eq!(content_area(inner, true), Rect::new(2, 3, 39, 10));
    assert_eq!(content_area(inner, false), inner);
    assert_eq!(content_area(Rect::new(0, 0, 0, 5), true), Rect::new(0, 0, 0, 5));
}

#[test]
fn key_offsets() {
    let max = max_offset(100, 10);
    assert_eq!(max, 90);
    assert_eq!(view_key_offset(5, 3, 10, max, key(Key::Char('j')), true), Some(8));
    assert_eq!(view_key_offset(89, 3, 10, max, key(Key::Down), true), Some(90));
    assert_eq!(view_key_offset(2, 3, 10, max, key(Key::Char('k')), true), Some(0));
    assert_eq!(view_key_offset(50, 3, 10, max, key(Key::Home), true), Some(0));
    assert_eq!(view_key_offset(50, 3, 10, max, key(Key::Char('G')), true), Some(90));
    assert_eq!(view_key_offset(50, 3, 10, max, key(Key::PageDown), true), Some(59));
    assert_eq!(view_key_offset(50, 3, 10, max, key(Key::PageUp), true), Some(41));
    let ctrl_d = KeyPress { key: Key::Char('d'), ctrl: true };
    let ctrl_u = KeyPress { key: Key::Char('u'), ctrl: true };
    assert_eq!(view_key_offset(50, 3, 10, max, ctrl_d, true), Some(55));
    assert_eq!(view_key_offset(50, 3, 10, max, ctrl_u, true), Some(45));
    assert_eq!(view_key_offset(50, 3, 10, max, ctrl_d, false), None);
    assert_eq!(view_key_offset(50, 3, 10, max, key(Key::Char('d')), true), None);
    assert_eq!(view_key_offset(50, 3, 10, max, key(Key::Enter), true), None);
}

#[test]
fn scroll_view_offset_clamps_and_moves() {
    let (mut tree, mut batch, fiber_id) = setup_test_fiber();

    let offset = use_scroll_view(&mut tree, &mut batch, 95, 100, 10, true, 1, true, None);
    assert_eq!(offset, 90);
    apply_batch_and_rerender(&mut tree, &mut batch, fiber_id);

    let offset = use_scroll_view(&mut tree, &mut batch, 95, 100, 10, true, 1, true, Some(key(Key::Char('k'))));
    assert_eq!(offset, 90);
    apply_batch_and_rerender(&mut tree, &mut batch, fiber_id);

    let offset = use_scroll_view(&mut tree, &mut batch, 95, 100, 10, false, 1, true, Some(key(Key::Home)));
    assert_eq!(offset, 89);
    assert!(!batch.has_pending_updates());
}

#[test]
fn visible_items() {
    assert_eq!(visible_count(10, 100, 0), 10);
    assert_eq!(visible_count(10, 100, 95), 5);
    assert_eq!(visible_count(10, 3, 5), 0);
}

#[test]
fn scrollbar_layout() {
    let inner = Rect::new(1, 1, 20, 10);
    assert_eq!(scrollbar_plan(inner, true, 5, 10, 0), None);
    assert_eq!(scrollbar_plan(inner, false, 50, 10, 0), None);
    assert_eq!(
        scrollbar_plan(inner, true, 50, 10, 7),
        Some(ScrollbarPlan { area: Rect::new(20, 1, 1, 10), content_length: 40, position: 7 })
    );
    assert_eq!(
        scrollbar_plan(inner, true, 11, 10, 1),
        Some(ScrollbarPlan { area: Rect::new(20, 1, 1, 10), content_length: 1, position: 1 })
    );
}

#[test]
fn more_markers() {
    let area = Rect::new(0, 0, 20, 10);
    assert_eq!(more_above(area, true, 0), None);
    assert_eq!(more_above(area, true, 3), Some((18, 0)));
    assert_eq!(more_above(area, false, 3), None);
    assert_eq!(more_below(area, true, 3, 3), None);
    assert_eq!(more_below(area, true, 2, 3), Some((18, 9)));
}

#[test]
fn copied_rows_and_columns() {
    let target = Rect::new(5, 5, 30, 10);
    assert_eq!(copy_extent(40, 100, target, 0), (10, 30));
    assert_eq!(copy_extent(20, 100, target, 95), (5, 20));
    assert_eq!(copy_extent(20, 3, target, 7), (0, 20));
}
