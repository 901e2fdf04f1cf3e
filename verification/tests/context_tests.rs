use reratui::context_stack::ContextStack;
use reratui::fiber::FiberId;
use reratui::fiber_tree::FiberTree;
use reratui::hooks::context::{try_use_context_v2, use_context_provider_v2, use_context_v2};
use reratui::slot::HookValue;

fn setup_test_fiber() -> (FiberTree, ContextStack, FiberId) {
    let mut tree = FiberTree::new();
    let fiber_id = tree.mount(None, None);
    tree.begin_render(fiber_id);
    (tree, ContextStack::new(), fiber_id)
}

#[test]
fn test_use_context_provider_v2_creates_value() {
    let (mut tree, mut contexts, _fiber_id) = setup_test_fiber();

    let value = use_context_provider_v2(&mut tree, &mut contexts, || 42i32);
    assert_eq!(value, 42);
}

#[test]
fn test_use_context_provider_v2_returns_same_value_on_rerender() {
    let (mut tree, mut contexts, fiber_id) = setup_test_fiber();

    let value1 = use_context_provider_v2(&mut tree, &mut contexts, || 100i32);
    assert_eq!(value1, 100);

    tree.end_render();
    tree.begin_render(fiber_id);

    let value2 = use_context_provider_v2(&mut tree, &mut contexts, || 999i32);
    assert_eq!(value2, 100);
}

#[test]
fn test_use_context_provider_v2_pushes_to_context_stack() {
    let (mut tree, mut contexts, _fiber_id) = setup_test_fiber();

    use_context_provider_v2(&mut tree, &mut contexts, || "test-value".to_string());

    let value = contexts.get_context::<String>();
    assert_eq!(value, Some("test-value".to_string()));
}

#[test]
fn test_use_context_provider_v2_tracks_provided_contexts() {
    let (mut tree, mut contexts, fiber_id) = setup_test_fiber();

    use_context_provider_v2(&mut tree, &mut contexts, || 42i32);
    use_context_provider_v2(&mut tree, &mut contexts, || "hello".to_string());

    let fiber = tree.get(fiber_id).unwrap();
    assert!(fiber.provided_contexts.contains(&<i32 as HookValue>::type_tag()));
    assert!(fiber.provided_contexts.contains(&<String as HookValue>::type_tag()));
}

#[test]
fn test_try_use_context_v2_returns_value() {
    let (mut tree, mut contexts, _fiber_id) = setup_test_fiber();

    use_context_provider_v2(&mut tree, &mut contexts, || 42i32);

    let value = try_use_context_v2::<i32>(&contexts);
    assert_eq!(value, Some(42));
}

#[test]
fn test_try_use_context_v2_returns_none_without_provider() {
    let contexts = ContextStack::new();

    let value = try_use_context_v2::<i32>(&contexts);
    assert_eq!(value, None);
}

#[test]
fn test_use_context_v2_returns_value() {
    let (mut tree, mut contexts, _fiber_id) = setup_test_fiber();

    use_context_provider_v2(&mut tree, &mut contexts, || "context-value".to_string());

    let value = use_context_v2::<String>(&contexts);
    assert_eq!(value, "context-value");
}

#[test]
#[should_panic(expected = "No provider found for context type")]
fn test_use_context_v2_panics_without_provider() {
    let contexts = ContextStack::new();
    let _ = use_context_v2::<i32>(&contexts);
}

#[test]
fn test_nested_providers_shadow() {
    let mut tree = FiberTree::new();
    let mut contexts = ContextStack::new();
    let outer_fiber = tree.mount(None, None);
    let inner_fiber = tree.mount(Some(outer_fiber), None);

    tree.begin_render(outer_fiber);
    use_context_provider_v2(&mut tree, &mut contexts, || "outer".to_string());
    tree.end_render();

    tree.begin_render(inner_fiber);
    use_context_provider_v2(&mut tree, &mut contexts, || "inner".to_string());

    let value = use_context_v2::<String>(&contexts);
    assert_eq!(value, "inner");
}

#[test]
fn test_multiple_context_types() {
    let (mut tree, mut contexts, _fiber_id) = setup_test_fiber();

    use_context_provider_v2(&mut tree, &mut contexts, || 42i32);
    use_context_provider_v2(&mut tree, &mut contexts, || "hello".to_string());
    use_context_provider_v2(&mut tree, &mut contexts, || true);

    assert_eq!(use_context_v2::<i32>(&contexts), 42);
    assert_eq!(use_context_v2::<String>(&contexts), "hello");
    assert!(use_context_v2::<bool>(&contexts));
}

// A theme as a (name, dark mode) pair: values kept in hook cells and on
// the context stack are encodable library values.
#[test]
fn test_context_with_custom_type() {
    let (mut tree, mut contexts, _fiber_id) = setup_test_fiber();

    let provided_theme: (String, bool) =
        use_context_provider_v2(&mut tree, &mut contexts, || ("default".to_string(), true));

    assert_eq!(provided_theme.0, "default");
    assert!(provided_theme.1);

    let consumed_theme = use_context_v2::<(String, bool)>(&contexts);
    assert_eq!(consumed_theme, provided_theme);
}

#[test]
fn unmount_removes_provided_contexts() {
    let mut contexts = ContextStack::new();
    contexts.push_context(FiberId(1), 1i32);
    contexts.push_context(FiberId(2), 2i32);
    assert_eq!(contexts.get_context::<i32>(), Some(2));
    contexts.pop_context_for_fiber(FiberId(2));
    assert_eq!(contexts.get_context::<i32>(), Some(1));
    assert_eq!(contexts.len(), 1);
    contexts.clear();
    assert_eq!(contexts.get_context::<i32>(), None);
}
