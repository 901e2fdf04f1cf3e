use reratui::component::{generate_stable_component_id, reset_component_position_counter, PositionCounter};
use reratui::effect_queue::{EffectQueue, FlushStep};
use reratui::event::{clear_current_event, get_current_event, set_current_event, stop_event_propagation, EventState};
use reratui::fiber::{FiberId, PendingEffect};
use reratui::fiber_tree::FiberTree;
use reratui::render_context::{
    clear_render_context, init_render_context, is_render_context_initialized, RenderContext,
};
use reratui::runtime::{
    is_in_render_phase, request_exit, reset_exit, set_render_phase, should_exit,
    warn_if_effect_during_render, RenderOptions, RuntimeFlags,
};
use std::sync::{Arc, Mutex};

type Cleanup = Box<dyn FnOnce()>;
type Effect = Box<dyn FnOnce() -> Option<Cleanup>>;

fn setup_test_environment() -> (FiberTree, FiberId) {
    let mut tree = FiberTree::new();
    let fiber_id = tree.mount(None, None);
    (tree, fiber_id)
}

#[test]
fn test_render_options_default() {
    let options = RenderOptions::default();
    assert_eq!(options.frame_interval_ms, 16);
    assert!(!options.strict_mode);
}

#[test]
fn test_exit_flag_operations() {
    let mut flags = RuntimeFlags::new();
    reset_exit(&mut flags);
    assert!(!should_exit(&flags));

    request_exit(&mut flags);
    assert!(should_exit(&flags));

    reset_exit(&mut flags);
    assert!(!should_exit(&flags));
}

#[test]
fn test_render_phase_flag() {
    let mut flags = RuntimeFlags::new();
    assert!(!is_in_render_phase(&flags));

    set_render_phase(&mut flags, true);
    assert!(is_in_render_phase(&flags));

    set_render_phase(&mut flags, false);
    assert!(!is_in_render_phase(&flags));
}

#[test]
fn test_render_phase_isolation() {
    let mut flags = RuntimeFlags::new();
    set_render_phase(&mut flags, false);
    assert!(!is_in_render_phase(&flags));

    set_render_phase(&mut flags, true);
    assert!(is_in_render_phase(&flags));

    set_render_phase(&mut flags, false);
    assert!(!is_in_render_phase(&flags));
}

#[test]
fn test_warn_if_effect_during_render_outside_render() {
    let mut flags = RuntimeFlags::new();
    set_render_phase(&mut flags, false);
    assert!(!warn_if_effect_during_render(&flags, "test_effect"));
}

#[test]
fn test_warn_if_effect_during_render_inside_render() {
    let mut flags = RuntimeFlags::new();
    set_render_phase(&mut flags, true);
    assert!(warn_if_effect_during_render(&flags, "test_effect"));
    set_render_phase(&mut flags, false);
}

#[test]
fn test_prepare_for_render_resets_hook_indices() {
    let (mut tree, fiber_id) = setup_test_environment();

    tree.begin_render(fiber_id);
    let fiber = tree.get_mut(fiber_id).unwrap();
    fiber.next_hook_index();
    fiber.next_hook_index();
    fiber.next_hook_index();
    tree.end_render();

    assert_eq!(tree.get(fiber_id).unwrap().hook_index, 3);

    tree.prepare_for_render();

    assert_eq!(tree.get(fiber_id).unwrap().hook_index, 0);
}

#[test]
fn test_effect_execution_timing_after_commit() {
    let (_tree, fiber_id) = setup_test_environment();
    let mut queue: EffectQueue<Effect, Cleanup> = EffectQueue::new();
    let execution_order = Arc::new(Mutex::new(Vec::new()));

    let order_clone = execution_order.clone();
    queue.queue_effect(
        fiber_id,
        PendingEffect {
            effect: Box::new(move || {
                order_clone.lock().unwrap().push("effect");
                None
            }),
            hook_index: 0,
        },
    );

    execution_order.lock().unwrap().push("commit");

    queue.flush();

    let order = execution_order.lock().unwrap();
    assert_eq!(order.len(), 2);
    assert_eq!(order[0], "commit");
    assert_eq!(order[1], "effect");
}

#[test]
fn test_cleanup_runs_before_new_effects() {
    let (_tree, fiber_id) = setup_test_environment();
    let mut queue: EffectQueue<Effect, Cleanup> = EffectQueue::new();
    let execution_order = Arc::new(Mutex::new(Vec::new()));

    let order_clone = execution_order.clone();
    queue.queue_cleanup(Box::new(move || {
        order_clone.lock().unwrap().push("cleanup");
    }));

    let order_clone = execution_order.clone();
    queue.queue_effect(
        fiber_id,
        PendingEffect {
            effect: Box::new(move || {
                order_clone.lock().unwrap().push("new_effect");
                None
            }),
            hook_index: 0,
        },
    );

    let steps = queue.flush();

    let order = execution_order.lock().unwrap();
    assert_eq!(order.len(), 2);
    assert_eq!(order[0], "cleanup");
    assert_eq!(order[1], "new_effect");
    assert_eq!(steps, vec![FlushStep::Cleanup(0), FlushStep::Effect(fiber_id, 0)]);
}

#[test]
fn test_multiple_cleanups_run_in_reverse_order() {
    let mut queue: EffectQueue<Effect, Cleanup> = EffectQueue::new();
    let execution_order = Arc::new(Mutex::new(Vec::new()));

    for i in 1..=3 {
        let order_clone = execution_order.clone();
        queue.queue_cleanup(Box::new(move || {
            order_clone.lock().unwrap().push(i);
        }));
    }

    queue.flush();

    let order = execution_order.lock().unwrap();
    assert_eq!(*order, vec![3, 2, 1]);
}

#[test]
fn test_effects_run_in_declaration_order() {
    let (_tree, fiber_id) = setup_test_environment();
    let mut queue: EffectQueue<Effect, Cleanup> = EffectQueue::new();
    let execution_order = Arc::new(Mutex::new(Vec::new()));

    for i in 1..=3 {
        let order_clone = execution_order.clone();
        queue.queue_effect(
            fiber_id,
            PendingEffect {
                effect: Box::new(move || {
                    order_clone.lock().unwrap().push(i);
                    None
                }),
                hook_index: i,
            },
        );
    }

    queue.flush();

    let order = execution_order.lock().unwrap();
    assert_eq!(*order, vec![1, 2, 3]);
}

#[test]
fn test_runtime_resets_position_counter() {
    let mut counter = PositionCounter::new();
    let mut first_ids = Vec::new();
    for _frame in 0..3 {
        reset_component_position_counter(&mut counter);
        assert_eq!(counter.next, 0);
        let id = generate_stable_component_id(&mut counter, 11);
        first_ids.push(id);
    }
    assert!(first_ids.iter().all(|id| *id == first_ids[0]));
}

#[test]
fn test_use_event_available_during_render_phase() {
    let mut events: EventState<&'static str> = EventState::new();
    set_current_event(&mut events, Some("key a"));
    assert_eq!(get_current_event(&events, Some(FiberId(1))), Some(&"key a"));
    assert_eq!(get_current_event(&events, Some(FiberId(2))), Some(&"key a"));
    stop_event_propagation(&mut events, Some(FiberId(1)));
    assert_eq!(get_current_event(&events, Some(FiberId(1))), Some(&"key a"));
    assert_eq!(get_current_event(&events, Some(FiberId(2))), None);
    clear_current_event(&mut events);
    assert_eq!(get_current_event(&events, Some(FiberId(1))), None);
}

#[test]
fn render_context_lifecycle() {
    let mut holder: Option<RenderContext<&'static str, Effect, Cleanup, Effect, Cleanup>> = None;
    assert!(!is_render_context_initialized(&holder));
    init_render_context(&mut holder);
    assert!(is_render_context_initialized(&holder));
    {
        let ctx = holder.as_mut().unwrap();
        let fiber_id = ctx.fiber_tree.mount(None, None);
        ctx.fiber_tree.begin_render(fiber_id);
        ctx.context_stack.push_context(fiber_id, 5i32);
        ctx.fiber_tree.end_render();
        ctx.fiber_tree.schedule_unmount(fiber_id);
        let unmounted = ctx.process_unmounts();
        assert_eq!(unmounted, vec![fiber_id]);
        assert_eq!(ctx.context_stack.len(), 0);
        assert!(ctx.fiber_tree.get(fiber_id).is_none());
        ctx.set_event(Some("resize"));
        assert!(ctx.event_state.has_event());
        ctx.clear_event();
        assert!(!ctx.event_state.has_event());
    }
    clear_render_context(&mut holder);
    assert!(!is_render_context_initialized(&holder));
}

#[test]
fn unmount_releases_cleanups_by_fiber_then_hook_order() {
    let mut ctx: RenderContext<&'static str, Effect, u32, Effect, u32> = RenderContext::new();
    let a = ctx.fiber_tree.mount(None, None);
    let b = ctx.fiber_tree.mount(None, None);
    let c = ctx.fiber_tree.mount(None, None);
    ctx.effect_queue.register_cleanup(a, 0, 10);
    ctx.effect_queue.register_cleanup(b, 1, 21);
    ctx.effect_queue.register_cleanup(a, 2, 12);
    ctx.effect_queue.register_cleanup(c, 0, 30);
    ctx.effect_queue.register_cleanup(b, 0, 20);
    ctx.async_effect_queue.register_cleanup(a, 3, 13);
    ctx.async_effect_queue.register_cleanup(b, 4, 24);
    ctx.async_effect_queue.register_cleanup(a, 5, 15);
    ctx.fiber_tree.schedule_unmount(b);
    ctx.fiber_tree.schedule_unmount(a);
    let unmounted = ctx.process_unmounts();
    assert_eq!(unmounted, vec![b, a]);
    assert_eq!(ctx.effect_queue.cleanups, vec![21, 20, 12, 10]);
    assert_eq!(ctx.effect_queue.registered.len(), 1);
    assert_eq!(ctx.effect_queue.registered[0].cleanup, 30);
    assert_eq!(ctx.async_effect_queue.cleanups, vec![24, 15, 13]);
    assert!(ctx.async_effect_queue.registered.is_empty());
    assert!(ctx.fiber_tree.get(c).is_some());
}

#[test]
fn async_work_is_taken_cleanups_last_first_then_effects() {
    let mut ctx: RenderContext<&'static str, u32, u32, u32, u32> = RenderContext::new();
    let a = ctx.fiber_tree.mount(None, None);
    ctx.async_effect_queue.cleanups.push(1);
    ctx.async_effect_queue.cleanups.push(2);
    ctx.async_effect_queue.queue_effect(a, PendingEffect { effect: 7, hook_index: 0 });
    ctx.async_effect_queue.queue_effect(a, PendingEffect { effect: 8, hook_index: 1 });
    ctx.effect_queue.queue_effect(a, PendingEffect { effect: 9, hook_index: 2 });
    let (cleanups, effects) = ctx.take_async_effects();
    assert_eq!(cleanups, vec![2, 1]);
    assert_eq!(effects.iter().map(|(f, p)| (*f, p.effect, p.hook_index)).collect::<Vec<_>>(), vec![(a, 7, 0), (a, 8, 1)]);
    assert!(ctx.async_effect_queue.effects.is_empty());
    assert_eq!(ctx.effect_queue.effects.len(), 1);
    ctx.register_async_cleanup(a, 1, 5);
    assert_eq!(ctx.async_effect_queue.registered.len(), 1);
}
