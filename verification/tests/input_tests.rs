use reratui::batch::StateBatch;
use reratui::fiber::FiberId;
use reratui::fiber_tree::FiberTree;
use reratui::hooks::mouse::{
    double_click_step, drag_step, use_double_click, use_mouse_drag, use_mouse_hover, DragInfo,
};
use reratui::hooks::scroll::use_scroll_keyboard;
use reratui::input::{Key, KeyPress, MouseAction, MouseButton, MouseInput, Rect};
use std::cell::Cell;

fn setup_test_fiber() -> (FiberTree, StateBatch, FiberId) {
    let mut tree = FiberTree::new();
    let fiber_id = tree.mount(None, None);
    tree.begin_render(fiber_id);
    (tree, StateBatch::new(), fiber_id)
}

fn apply_batch_and_rerender(tree: &mut FiberTree, batch: &mut StateBatch, fiber_id: FiberId) {
    tree.end_render();
    batch.end_batch(tree);
    tree.begin_render(fiber_id);
}

fn mouse(action: MouseAction, column: u16, row: u16) -> MouseInput {
    MouseInput { action, column, row }
}

fn press(key: Key) -> KeyPress {
    KeyPress { key, ctrl: false }
}

#[test]
fn test_drag_info_default() {
    let info = DragInfo::default();
    assert_eq!(info.button, None);
    assert_eq!(info.start, (0, 0));
    assert_eq!(info.current, (0, 0));
    assert!(!info.is_dragging);
    assert!(!info.is_start);
    assert!(!info.is_end);
}

#[test]
fn test_use_mouse_hover_inside_area() {
    let (mut tree, mut batch, fiber_id) = setup_test_fiber();
    let area = Rect::new(10, 5, 20, 10);

    let is_hovering = use_mouse_hover(&mut tree, &mut batch, Some((15, 7)), area);
    assert!(!is_hovering);

    apply_batch_and_rerender(&mut tree, &mut batch, fiber_id);

    let is_hovering = use_mouse_hover(&mut tree, &mut batch, None, area);
    assert!(is_hovering);
}

#[test]
fn test_use_mouse_hover_outside_area() {
    let (mut tree, mut batch, _fiber_id) = setup_test_fiber();
    let area = Rect::new(10, 5, 20, 10);

    let is_hovering = use_mouse_hover(&mut tree, &mut batch, Some((5, 3)), area);
    assert!(!is_hovering);
    assert!(!batch.has_pending_updates());
}

#[test]
fn hover_edges() {
    let area = Rect::new(10, 5, 20, 10);
    assert!(area.contains(10, 5));
    assert!(area.contains(29, 14));
    assert!(!area.contains(30, 14));
    assert!(!area.contains(29, 15));
    assert!(!area.contains(9, 5));
}

#[test]
fn drag_start_move_end() {
    let (info, anchor) = drag_step(None, mouse(MouseAction::Down(MouseButton::Left), 3, 4));
    let info = info.unwrap();
    assert!(info.is_start && info.is_dragging && !info.is_end);
    assert_eq!(info.start, (3, 4));
    assert_eq!(anchor, Some((MouseButton::Left, (3, 4))));

    let (info, anchor) = drag_step(anchor, mouse(MouseAction::Drag(MouseButton::Left), 8, 9));
    let info = info.unwrap();
    assert!(!info.is_start && info.is_dragging);
    assert_eq!(info.start, (3, 4));
    assert_eq!(info.current, (8, 9));

    let (info, anchor) = drag_step(anchor, mouse(MouseAction::Up(MouseButton::Left), 10, 11));
    let info = info.unwrap();
    assert!(info.is_end && !info.is_dragging);
    assert_eq!(info.start, (3, 4));
    assert_eq!(info.current, (10, 11));
    assert_eq!(anchor, None);
}

#[test]
fn drag_of_other_button_is_ignored() {
    let anchor = Some((MouseButton::Left, (1, 1)));
    let (info, next) = drag_step(anchor, mouse(MouseAction::Drag(MouseButton::Right), 5, 5));
    assert!(info.is_none());
    assert_eq!(next, anchor);
    let (info, next) = drag_step(anchor, mouse(MouseAction::Up(MouseButton::Middle), 5, 5));
    assert!(info.is_none());
    assert_eq!(next, anchor);
    let (info, next) = drag_step(None, mouse(MouseAction::Moved, 5, 5));
    assert!(info.is_none());
    assert_eq!(next, None);
}

#[test]
fn use_mouse_drag_tracks_and_resets() {
    let (mut tree, mut batch, fiber_id) = setup_test_fiber();

    let (info, _reset) =
        use_mouse_drag(&mut tree, &mut batch, Some(mouse(MouseAction::Down(MouseButton::Left), 2, 3)));
    assert_eq!(info, DragInfo::default());
    apply_batch_and_rerender(&mut tree, &mut batch, fiber_id);

    let (info, _reset) =
        use_mouse_drag(&mut tree, &mut batch, Some(mouse(MouseAction::Drag(MouseButton::Left), 6, 7)));
    assert!(info.is_start);
    assert_eq!(info.start, (2, 3));
    apply_batch_and_rerender(&mut tree, &mut batch, fiber_id);

    let (info, reset) = use_mouse_drag(&mut tree, &mut batch, None);
    assert!(info.is_dragging && !info.is_start);
    assert_eq!(info.current, (6, 7));
    reset.reset(&mut tree, &mut batch);
    apply_batch_and_rerender(&mut tree, &mut batch, fiber_id);

    let (info, _reset) =
        use_mouse_drag(&mut tree, &mut batch, Some(mouse(MouseAction::Up(MouseButton::Left), 9, 9)));
    assert_eq!(info, DragInfo::default());
    assert!(!batch.has_pending_updates());
}

#[test]
fn drag_start_flag_lasts_one_frame() {
    let (mut tree, mut batch, fiber_id) = setup_test_fiber();

    let (_info, _reset) =
        use_mouse_drag(&mut tree, &mut batch, Some(mouse(MouseAction::Down(MouseButton::Left), 2, 3)));
    apply_batch_and_rerender(&mut tree, &mut batch, fiber_id);

    let (info, _reset) = use_mouse_drag(&mut tree, &mut batch, None);
    assert_eq!(
        info,
        DragInfo {
            button: Some(MouseButton::Left),
            start: (2, 3),
            current: (2, 3),
            is_dragging: true,
            is_start: true,
            is_end: false,
        }
    );
    apply_batch_and_rerender(&mut tree, &mut batch, fiber_id);

    let (info, _reset) = use_mouse_drag(&mut tree, &mut batch, None);
    assert!(!info.is_start && !info.is_end);
    assert!(info.is_dragging);
    assert_eq!(info.start, (2, 3));
    apply_batch_and_rerender(&mut tree, &mut batch, fiber_id);

    let (_info, _reset) =
        use_mouse_drag(&mut tree, &mut batch, Some(mouse(MouseAction::Up(MouseButton::Left), 4, 4)));
    apply_batch_and_rerender(&mut tree, &mut batch, fiber_id);
    let (info, _reset) = use_mouse_drag(&mut tree, &mut batch, None);
    assert!(info.is_end && !info.is_dragging);
    apply_batch_and_rerender(&mut tree, &mut batch, fiber_id);
    let (info, _reset) = use_mouse_drag(&mut tree, &mut batch, None);
    assert!(!info.is_end && !info.is_start);
}

#[test]
fn double_click_within_delay() {
    let down = mouse(MouseAction::Down(MouseButton::Left), 4, 4);
    let (fired, last) = double_click_step(None, down, 1_000, 500);
    assert!(!fired);
    let (fired, last) = double_click_step(last, down, 1_400, 500);
    assert!(fired);
    assert_eq!(last, None);
    let (fired, _last) = double_click_step(last, down, 1_450, 500);
    assert!(!fired);
}

#[test]
fn double_click_needs_same_button_cell_and_time() {
    let first = mouse(MouseAction::Down(MouseButton::Left), 4, 4);
    let (_, last) = double_click_step(None, first, 1_000, 500);
    let (fired, _) = double_click_step(last, mouse(MouseAction::Down(MouseButton::Right), 4, 4), 1_100, 500);
    assert!(!fired);
    let (fired, _) = double_click_step(last, mouse(MouseAction::Down(MouseButton::Left), 5, 4), 1_100, 500);
    assert!(!fired);
    let (fired, next) = double_click_step(last, first, 1_501, 500);
    assert!(!fired);
    assert_eq!(next, Some((MouseButton::Left, ((4, 4), 1_501))));
    let (fired, next) = double_click_step(last, mouse(MouseAction::Moved, 4, 4), 1_100, 500);
    assert!(!fired);
    assert_eq!(next, last);
}

#[test]
fn use_double_click_calls_handler() {
    let (mut tree, _batch, fiber_id) = setup_test_fiber();
    let calls = Cell::new(0);
    let down = mouse(MouseAction::Down(MouseButton::Left), 1, 2);

    let fired = use_double_click(&mut tree, Some(down), 10, 500, |_, _, _| calls.set(calls.get() + 1));
    assert!(!fired);
    tree.end_render();
    tree.begin_render(fiber_id);

    let fired = use_double_click(&mut tree, Some(down), 300, 500, |b, x, y| {
        assert_eq!((b, x, y), (MouseButton::Left, 1, 2));
        calls.set(calls.get() + 1)
    });
    assert!(fired);
    assert_eq!(calls.get(), 1);
}

#[test]
fn scroll_keyboard_bindings() {
    let (mut tree, mut batch, fiber_id) = setup_test_fiber();

    let scroll = use_scroll_keyboard(&mut tree, &mut batch, 100, 10, Some(press(Key::Char('j'))));
    assert_eq!(scroll.offset, 0);
    apply_batch_and_rerender(&mut tree, &mut batch, fiber_id);

    let scroll = use_scroll_keyboard(&mut tree, &mut batch, 100, 10, Some(press(Key::PageDown)));
    assert_eq!(scroll.offset, 1);
    apply_batch_and_rerender(&mut tree, &mut batch, fiber_id);

    let scroll = use_scroll_keyboard(&mut tree, &mut batch, 100, 10, Some(press(Key::End)));
    assert_eq!(scroll.offset, 10);
    apply_batch_and_rerender(&mut tree, &mut batch, fiber_id);

    let scroll =
        use_scroll_keyboard(&mut tree, &mut batch, 100, 10, Some(KeyPress { key: Key::Char('u'), ctrl: true }));
    assert_eq!(scroll.offset, 90);
    apply_batch_and_rerender(&mut tree, &mut batch, fiber_id);

    let scroll = use_scroll_keyboard(&mut tree, &mut batch, 100, 10, Some(press(Key::Char('x'))));
    assert_eq!(scroll.offset, 81);
    assert!(!batch.has_pending_updates());

    let scroll2 = use_scroll_keyboard(&mut tree, &mut batch, 100, 10, Some(press(Key::Char('u'))));
    assert_eq!(scroll2.offset, 0);
    assert!(!batch.has_pending_updates());
}

#[test]
fn scroll_keyboard_home_and_top() {
    let (mut tree, mut batch, fiber_id) = setup_test_fiber();
    let _ = use_scroll_keyboard(&mut tree, &mut batch, 50, 10, Some(press(Key::Char('G'))));
    apply_batch_and_rerender(&mut tree, &mut batch, fiber_id);
    let scroll = use_scroll_keyboard(&mut tree, &mut batch, 50, 10, Some(press(Key::Char('g'))));
    assert_eq!(scroll.offset, 40);
    apply_batch_and_rerender(&mut tree, &mut batch, fiber_id);
    let scroll = use_scroll_keyboard(&mut tree, &mut batch, 50, 10, Some(press(Key::Up)));
    assert_eq!(scroll.offset, 0);
}
