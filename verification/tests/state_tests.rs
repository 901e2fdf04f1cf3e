use reratui::batch::StateBatch;
use reratui::fiber::FiberId;
use reratui::fiber_tree::FiberTree;
use reratui::hooks::state::use_state;

fn setup_test_fiber() -> (FiberTree, StateBatch, FiberId) {
    let mut tree = FiberTree::new();
    let fiber_id = tree.mount(None, None);
    tree.begin_render(fiber_id);
    (tree, StateBatch::new(), fiber_id)
}

#[test]
fn test_use_state_initial_value() {
    let (mut tree, _batch, _fiber_id) = setup_test_fiber();

    let (value, _setter) = use_state(&mut tree, || 42i32);
    assert_eq!(value, 42);
}

#[test]
fn test_use_state_returns_same_value_on_rerender() {
    let (mut tree, _batch, fiber_id) = setup_test_fiber();

    let (value1, _setter1) = use_state(&mut tree, || 100i32);
    assert_eq!(value1, 100);

    tree.end_render();
    tree.begin_render(fiber_id);

    let (value2, _setter2) = use_state(&mut tree, || 999i32);
    assert_eq!(value2, 100);
}

#[test]
fn test_state_setter_set_queues_update() {
    let (mut tree, mut batch, fiber_id) = setup_test_fiber();

    let (_value, setter) = use_state(&mut tree, || 0i32);

    setter.set(&mut batch, 42);

    assert!(batch.has_pending_updates());
    assert!(batch.is_fiber_dirty(fiber_id));
}

#[test]
fn test_state_setter_update_queues_functional_update() {
    let (mut tree, mut batch, fiber_id) = setup_test_fiber();

    let (_value, setter) = use_state(&mut tree, || 10i32);

    setter.update(&tree, &mut batch, |n| n + 5);

    assert!(batch.has_pending_updates());
    assert!(batch.is_fiber_dirty(fiber_id));
}

#[test]
fn test_multiple_state_hooks() {
    let (mut tree, _batch, _fiber_id) = setup_test_fiber();

    let (count, _set_count) = use_state(&mut tree, || 0i32);
    let (name, _set_name) = use_state(&mut tree, || "Alice".to_string());
    let (active, _set_active) = use_state(&mut tree, || true);

    assert_eq!(count, 0);
    assert_eq!(name, "Alice");
    assert!(active);
}

#[test]
fn test_state_setter_is_copy() {
    let (mut tree, _batch, _fiber_id) = setup_test_fiber();

    let (_value, setter) = use_state(&mut tree, || 0i32);

    let setter_copy = setter;
    let _setter_copy2 = setter_copy;
    let _setter_copy3 = setter;
}

#[test]
fn test_batched_updates_applied_correctly() {
    let (mut tree, mut batch, fiber_id) = setup_test_fiber();

    let (_value, setter) = use_state(&mut tree, || 0i32);

    setter.set(&mut batch, 10);
    setter.update(&tree, &mut batch, |n| n + 5);
    setter.update(&tree, &mut batch, |n| n * 2);

    tree.end_render();
    let dirty = batch.end_batch(&mut tree);
    assert!(dirty.contains(&fiber_id));

    let fiber = tree.get(fiber_id).unwrap();
    assert_eq!(fiber.get_hook::<i32>(0), Some(30));
}

#[test]
fn test_functional_updates_receive_latest_state() {
    let (mut tree, mut batch, fiber_id) = setup_test_fiber();

    let (_value, setter) = use_state(&mut tree, || 0i32);

    for _ in 0..5 {
        setter.update(&tree, &mut batch, |n| n + 1);
    }

    tree.end_render();
    batch.end_batch(&mut tree);

    let fiber = tree.get(fiber_id).unwrap();
    assert_eq!(fiber.get_hook::<i32>(0), Some(5));
}

#[test]
fn test_state_setter_debug() {
    let (mut tree, _batch, _fiber_id) = setup_test_fiber();

    let (_value, setter) = use_state(&mut tree, || 0i32);

    let debug_str = format!("{:?}", setter);
    assert!(debug_str.contains("StateSetter"));
}

#[test]
fn set_if_changed_skips_equal_value() {
    let (mut tree, mut batch, _fiber_id) = setup_test_fiber();
    let (_value, setter) = use_state(&mut tree, || 5i32);
    setter.set_if_changed(&tree, &mut batch, 5);
    assert!(!batch.has_pending_updates());
    setter.set_if_changed(&tree, &mut batch, 6);
    assert!(batch.has_pending_updates());
}

#[test]
fn last_write_wins_after_commit() {
    let (mut tree, mut batch, fiber_id) = setup_test_fiber();
    let (_value, setter) = use_state(&mut tree, || 1i32);
    setter.set(&mut batch, 2);
    setter.set(&mut batch, 3);
    let dirty = batch.end_batch(&mut tree);
    assert_eq!(dirty, vec![fiber_id]);
    assert_eq!(tree.get(fiber_id).unwrap().get_hook::<i32>(0), Some(3));
    tree.end_render();
    tree.begin_render(fiber_id);
    let (value, _setter) = use_state(&mut tree, || 0i32);
    assert_eq!(value, 3);
}
