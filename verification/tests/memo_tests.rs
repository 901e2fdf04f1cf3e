use reratui::hook_list::HookList;
use reratui::fiber::FiberId;
use reratui::fiber_tree::FiberTree;
use reratui::hooks::memo::{use_callback, use_memo, CallbackStore};
use std::sync::atomic::{AtomicUsize, Ordering};
use std::sync::Arc;

fn setup_test_fiber() -> (FiberTree, FiberId) {
    let mut tree = FiberTree::new();
    let fiber_id = tree.mount(None, None);
    tree.begin_render(fiber_id);
    (tree, fiber_id)
}

fn rerender(tree: &mut FiberTree, fiber_id: FiberId) {
    tree.end_render();
    tree.begin_render(fiber_id);
}

#[test]
fn test_use_callback_basic() {
    let (mut tree, _fiber_id) = setup_test_fiber();
    let mut store = CallbackStore::new();

    let callback = use_callback(&mut tree, &mut store, |x: i32| x * 2, None::<()>);
    assert_eq!(callback(5), 10);
}

#[test]
fn test_use_callback_stable_with_none_deps() {
    let (mut tree, fiber_id) = setup_test_fiber();
    let mut store = CallbackStore::new();

    fn add_one(x: i32) -> i32 {
        x + 1
    }

    let callback1 = use_callback(&mut tree, &mut store, add_one, None::<()>);
    let ptr1 = Arc::as_ptr(&callback1);

    rerender(&mut tree, fiber_id);

    let callback2 = use_callback(&mut tree, &mut store, add_one, None::<()>);
    let ptr2 = Arc::as_ptr(&callback2);

    assert_eq!(ptr1, ptr2, "Callback with None deps should be stable");
    assert_eq!(callback2(5), 6);
}

#[test]
fn test_use_callback_recreated_on_dep_change() {
    let (mut tree, fiber_id) = setup_test_fiber();
    let mut store = CallbackStore::new();

    fn multiply(x: i32) -> i32 {
        x * 2
    }

    let callback1 = use_callback(&mut tree, &mut store, multiply, Some(1i32));
    let ptr1 = Arc::as_ptr(&callback1);

    rerender(&mut tree, fiber_id);

    let callback2 = use_callback(&mut tree, &mut store, multiply, Some(2i32));
    let ptr2 = Arc::as_ptr(&callback2);

    assert_ne!(ptr1, ptr2, "Callback should be recreated when deps change");
}

#[test]
fn test_use_callback_stable_with_same_deps() {
    let (mut tree, fiber_id) = setup_test_fiber();
    let mut store = CallbackStore::new();

    fn double(x: i32) -> i32 {
        x * 2
    }

    let callback1 = use_callback(&mut tree, &mut store, double, Some(42i32));
    let ptr1 = Arc::as_ptr(&callback1);

    rerender(&mut tree, fiber_id);

    let callback2 = use_callback(&mut tree, &mut store, double, Some(42i32));
    let ptr2 = Arc::as_ptr(&callback2);

    assert_eq!(ptr1, ptr2, "Callback should be stable when deps unchanged");
    assert_eq!(callback2(5), 10);
}

#[test]
fn test_use_callback_with_tuple_deps() {
    let (mut tree, fiber_id) = setup_test_fiber();
    let mut store = CallbackStore::new();

    fn noop(_: ()) -> i32 {
        1
    }

    let callback1 = use_callback(&mut tree, &mut store, noop, Some((1i32, "hello".to_string())));
    let ptr1 = Arc::as_ptr(&callback1);

    rerender(&mut tree, fiber_id);

    let callback2 = use_callback(&mut tree, &mut store, noop, Some((1i32, "hello".to_string())));
    let ptr2 = Arc::as_ptr(&callback2);

    assert_eq!(ptr1, ptr2, "Same tuple deps should be stable");

    rerender(&mut tree, fiber_id);

    let callback3 = use_callback(&mut tree, &mut store, noop, Some((2i32, "hello".to_string())));
    let ptr3 = Arc::as_ptr(&callback3);

    assert_ne!(ptr2, ptr3, "Different tuple deps should recreate");
}

#[test]
fn test_multiple_callbacks() {
    let (mut tree, _fiber_id) = setup_test_fiber();
    let mut store1 = CallbackStore::new();
    let mut store2 = CallbackStore::new();
    let mut store3 = CallbackStore::new();

    let cb1 = use_callback(&mut tree, &mut store1, |x: i32| x + 1, None::<()>);
    let cb2 = use_callback(&mut tree, &mut store2, |x: i32| x * 2, None::<()>);
    let cb3 = use_callback(&mut tree, &mut store3, |s: &str| s.len(), None::<()>);

    assert_eq!(cb1(5), 6);
    assert_eq!(cb2(5), 10);
    assert_eq!(cb3("hello"), 5);
}

#[test]
fn test_use_memo_basic() {
    let (mut tree, _fiber_id) = setup_test_fiber();

    let value = use_memo(&mut tree, || 42i32, None::<()>);
    assert_eq!(value, 42);
}

#[test]
fn test_use_memo_stable_with_none_deps() {
    let (mut tree, fiber_id) = setup_test_fiber();
    let compute_count = Arc::new(AtomicUsize::new(0));

    let cc1 = compute_count.clone();
    let value1 = use_memo(
        &mut tree,
        move || {
            cc1.fetch_add(1, Ordering::SeqCst);
            100i32
        },
        None::<()>,
    );

    assert_eq!(value1, 100);
    assert_eq!(compute_count.load(Ordering::SeqCst), 1);

    rerender(&mut tree, fiber_id);

    let cc2 = compute_count.clone();
    let value2 = use_memo(
        &mut tree,
        move || {
            cc2.fetch_add(1, Ordering::SeqCst);
            200i32
        },
        None::<()>,
    );

    assert_eq!(value2, 100);
    assert_eq!(compute_count.load(Ordering::SeqCst), 1);
}

#[test]
fn test_use_memo_recomputes_on_dep_change() {
    let (mut tree, fiber_id) = setup_test_fiber();

    let value1 = use_memo(&mut tree, || "first".to_string(), Some(1i32));
    assert_eq!(value1, "first");

    rerender(&mut tree, fiber_id);

    let value2 = use_memo(&mut tree, || "second".to_string(), Some(2i32));
    assert_eq!(value2, "second");
}

#[test]
fn test_use_memo_stable_with_same_deps() {
    let (mut tree, fiber_id) = setup_test_fiber();

    let _value1 = use_memo(&mut tree, || HookList::from_vec(vec![1i32, 2, 3]), Some("key".to_string()));

    rerender(&mut tree, fiber_id);

    let value2 = use_memo(&mut tree, || HookList::from_vec(vec![4i32, 5, 6]), Some("key".to_string()));

    assert_eq!(value2.into_vec(), vec![1, 2, 3]);
}

#[test]
fn list_state_round_trips_through_a_hook() {
    let (mut tree, fiber_id) = setup_test_fiber();
    let first = use_memo(&mut tree, || HookList::from_vec(vec![String::from("a"), String::from("b")]), None::<i32>);
    assert_eq!(first.into_vec(), vec!["a".to_string(), "b".to_string()]);
    rerender(&mut tree, fiber_id);
    let again = use_memo(&mut tree, || HookList::from_vec(vec![String::from("c")]), None::<i32>);
    assert_eq!(again.into_vec(), vec!["a".to_string(), "b".to_string()]);
    let (mut other, _other_id) = setup_test_fiber();
    let empty = use_memo(&mut other, || HookList::<i32>::from_vec(Vec::new()), None::<i32>);
    assert_eq!(empty.into_vec(), Vec::<i32>::new());
}
