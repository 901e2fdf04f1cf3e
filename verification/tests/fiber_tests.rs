use reratui::effect_queue::EffectQueue;
use reratui::fiber::{AsyncPendingEffect, Fiber, FiberId, HookOrderWarning, PendingEffect};
use std::sync::atomic::{AtomicBool, Ordering};
use std::sync::Arc;

type Cleanup = Box<dyn FnOnce()>;

#[test]
fn test_fiber_creation() {
    let fiber = Fiber::new(FiberId(1), None, None);
    assert_eq!(fiber.id, FiberId(1));
    assert_eq!(fiber.hook_index, 0);
    assert!(fiber.hooks.is_empty());
    assert!(fiber.parent.is_none());
    assert!(fiber.children.is_empty());
    assert!(fiber.dirty);
}

#[test]
fn test_fiber_with_parent_and_key() {
    let fiber = Fiber::new(FiberId(2), Some(FiberId(1)), Some("my-key".to_string()));
    assert_eq!(fiber.id, FiberId(2));
    assert_eq!(fiber.parent, Some(FiberId(1)));
    assert_eq!(fiber.key, Some("my-key".to_string()));
}

#[test]
fn test_next_hook_index() {
    let mut fiber = Fiber::new(FiberId(1), None, None);
    assert_eq!(fiber.next_hook_index(), 0);
    assert_eq!(fiber.next_hook_index(), 1);
    assert_eq!(fiber.next_hook_index(), 2);
    assert_eq!(fiber.hook_index, 3);
}

#[test]
fn test_reset_hook_index() {
    let mut fiber = Fiber::new(FiberId(1), None, None);
    fiber.next_hook_index();
    fiber.next_hook_index();
    assert_eq!(fiber.hook_index, 2);

    fiber.reset_hook_index();
    assert_eq!(fiber.hook_index, 0);
}

#[test]
fn test_get_or_init_hook() {
    let mut fiber = Fiber::new(FiberId(1), None, None);

    let value: i32 = fiber.get_or_init_hook(0, || 42);
    assert_eq!(value, 42);

    let value: i32 = fiber.get_or_init_hook(0, || 100);
    assert_eq!(value, 42);
}

#[test]
fn test_set_and_get_hook() {
    let mut fiber = Fiber::new(FiberId(1), None, None);

    fiber.set_hook_value(0, 42i32);
    assert_eq!(fiber.get_hook::<i32>(0), Some(42));

    fiber.set_hook_value(0, 100i32);
    assert_eq!(fiber.get_hook::<i32>(0), Some(100));
}

#[test]
fn hook_read_at_another_type_is_none() {
    let mut fiber = Fiber::new(FiberId(1), None, None);
    fiber.set_hook_value(0, 42i32);
    assert_eq!(fiber.get_hook::<String>(0), None);
    assert_eq!(fiber.get_hook::<i64>(0), None);
    assert_eq!(fiber.get_hook::<Option<i32>>(0), None);
    assert_eq!(fiber.get_hook::<i32>(0), Some(42));
    assert_eq!(fiber.get_hook::<i32>(1), None);
}

#[test]
fn test_fiber_id_traits() {
    let id1 = FiberId(1);
    let id2 = FiberId(1);
    let id3 = FiberId(2);

    let id1_clone = id1;
    assert_eq!(id1, id1_clone);

    assert_eq!(id1, id2);
    assert_ne!(id1, id3);

    let debug_str = format!("{:?}", id1);
    assert!(debug_str.contains("FiberId"));
}

#[test]
fn test_pending_effect_creation() {
    let effect: PendingEffect<Box<dyn FnOnce() -> Option<Cleanup>>> = PendingEffect {
        effect: Box::new(|| None),
        hook_index: 0,
    };
    assert_eq!(effect.hook_index, 0);
}

#[test]
fn test_pending_effect_with_cleanup() {
    let cleanup_called = Arc::new(AtomicBool::new(false));
    let cleanup_called_clone = cleanup_called.clone();

    let effect: PendingEffect<Box<dyn FnOnce() -> Option<Cleanup>>> = PendingEffect {
        effect: Box::new(move || {
            Some(Box::new(move || {
                cleanup_called_clone.store(true, Ordering::SeqCst);
            }) as Cleanup)
        }),
        hook_index: 1,
    };

    let cleanup = (effect.effect)();
    assert!(cleanup.is_some());

    cleanup.unwrap()();
    assert!(cleanup_called.load(Ordering::SeqCst));
}

#[test]
fn test_async_pending_effect_creation() {
    let effect: AsyncPendingEffect<Box<dyn FnOnce() -> Option<Cleanup>>> = AsyncPendingEffect {
        effect: Box::new(|| None),
        hook_index: 0,
    };
    assert_eq!(effect.hook_index, 0);
}

#[test]
fn test_hook_order_detection() {
    let mut fiber = Fiber::new(FiberId(1), None, None);

    fiber.track_hook_call("use_state");
    fiber.track_hook_call("use_effect");
    fiber.track_hook_call("use_state");

    fiber.reset_hook_index();

    fiber.track_hook_call("use_state");
    fiber.track_hook_call("use_effect");
    fiber.track_hook_call("use_state");

    let warnings = fiber.check_hook_order();
    assert!(warnings.is_empty());

    assert_eq!(fiber.current_hook_types.len(), 3);
    assert_eq!(fiber.previous_hook_types.len(), 3);
}

#[test]
fn test_hook_count_change_detection() {
    let mut fiber = Fiber::new(FiberId(1), None, None);

    fiber.track_hook_call("use_state");
    fiber.track_hook_call("use_effect");

    fiber.reset_hook_index();

    fiber.track_hook_call("use_state");
    fiber.track_hook_call("use_effect");
    fiber.track_hook_call("use_state");

    let warnings = fiber.check_hook_order();
    assert!(matches!(
        warnings[0],
        HookOrderWarning::CountChanged { previous_count: 2, current_count: 3 }
    ));

    assert_eq!(fiber.previous_hook_types.len(), 2);
    assert_eq!(fiber.current_hook_types.len(), 3);
}

#[test]
fn test_hook_order_change_detection() {
    let mut fiber = Fiber::new(FiberId(1), None, None);

    fiber.track_hook_call("use_state");
    fiber.track_hook_call("use_effect");

    fiber.reset_hook_index();

    fiber.track_hook_call("use_effect");
    fiber.track_hook_call("use_state");

    let warnings = fiber.check_hook_order();
    assert_eq!(warnings.len(), 2);

    assert_eq!(fiber.previous_hook_types[0], "use_state");
    assert_eq!(fiber.current_hook_types[0], "use_effect");
}

#[test]
fn pending_effects_queue_in_order() {
    let mut queue: EffectQueue<Box<dyn FnOnce() -> Option<Cleanup>>, Cleanup> = EffectQueue::new();
    assert!(!queue.has_pending_effects());
    queue.queue_effect(FiberId(3), PendingEffect { effect: Box::new(|| None), hook_index: 7 });
    assert!(queue.has_pending_effects());
    assert_eq!(queue.effects[0].0, FiberId(3));
    assert_eq!(queue.effects[0].1.hook_index, 7);
}
