use reratui::batch::StateBatch;
use reratui::event::EventState;
use reratui::fiber::FiberId;
use reratui::fiber_tree::FiberTree;
use reratui::hooks::effect_event::use_effect_event;
use reratui::hooks::memo::CallbackStore;
use std::sync::atomic::{AtomicI32, Ordering};
use std::sync::Arc;
use reratui::hooks::event::{peek_event, stop_propagation, use_event};
use reratui::hooks::history::use_history;
use reratui::hooks::id::use_id;
use reratui::hooks::reducer::use_reducer;
use reratui::hooks::ref_hook::use_ref;
use reratui::hooks::scroll::use_scroll;
use reratui::hooks::timing::{
    interval_step, timeout_step, IntervalHandle, TimeoutHandle, TimerRegistry, TimerStep,
};

fn setup() -> (FiberTree, StateBatch, FiberId) {
    let mut tree = FiberTree::new();
    let fiber_id = tree.mount(None, None);
    tree.begin_render(fiber_id);
    (tree, StateBatch::new(), fiber_id)
}

fn commit_and_rerender(tree: &mut FiberTree, batch: &mut StateBatch, fiber_id: FiberId) {
    tree.end_render();
    batch.end_batch(tree);
    tree.begin_render(fiber_id);
}

#[test]
fn history_undo_redo_round_trip() {
    let (mut tree, mut batch, _fiber_id) = setup();
    let history = use_history(&mut tree, || 1i32);
    assert_eq!(history.current(&tree), 1);
    assert!(!history.can_undo(&tree));

    history.set(&mut tree, &mut batch, 2);
    history.set(&mut tree, &mut batch, 3);
    assert_eq!(history.current(&tree), 3);
    assert_eq!(history.past_count(&tree), 2);

    assert!(history.undo(&mut tree, &mut batch));
    assert_eq!(history.current(&tree), 2);
    assert!(history.can_redo(&tree));
    assert!(history.redo(&mut tree, &mut batch));
    assert_eq!(history.current(&tree), 3);

    assert_eq!(history.go_back(&mut tree, &mut batch, 5), 2);
    assert_eq!(history.current(&tree), 1);
    assert_eq!(history.future_count(&tree), 2);

    history.set(&mut tree, &mut batch, 9);
    assert_eq!(history.future_count(&tree), 0);
    assert!(!history.redo(&mut tree, &mut batch));

    history.clear_history(&mut tree, &mut batch);
    assert_eq!(history.past_count(&tree), 0);
    assert_eq!(history.current(&tree), 9);
}

#[test]
fn ref_changes_without_rerender() {
    let (mut tree, batch, fiber_id) = setup();
    let counter = use_ref(&mut tree, || 0i32);
    counter.set(&mut tree, 5);
    assert_eq!(counter.get(&tree), 5);
    assert_eq!(counter.replace(&mut tree, 7), 5);
    assert_eq!(counter.take(&mut tree), 7);
    assert_eq!(counter.get(&tree), 0);
    assert!(!batch.has_pending_updates());
    tree.end_render();
    tree.begin_render(fiber_id);
    let again = use_ref(&mut tree, || 100i32);
    assert_eq!(again.get(&tree), 0);
}

#[test]
fn reducer_dispatch_applies_after_commit() {
    let (mut tree, mut batch, fiber_id) = setup();
    let reducer = |state: &i32, action: i32| state + action;
    let (state, dispatch) = use_reducer(&mut tree, reducer, 10i32);
    assert_eq!(state, 10);
    dispatch.dispatch(&tree, &mut batch, 5);
    dispatch.dispatch(&tree, &mut batch, 1);
    commit_and_rerender(&mut tree, &mut batch, fiber_id);
    let (state, _dispatch) = use_reducer(&mut tree, reducer, 0i32);
    assert_eq!(state, 16);
}

#[test]
fn ids_of_hooks_of_different_fibers_differ() {
    let mut tree = FiberTree::new();
    let fibers: Vec<FiberId> = (0..12).map(|_| tree.mount(None, None)).collect();
    let mut seen: Vec<String> = Vec::new();
    for &fiber in &[fibers[0], fibers[10]] {
        tree.begin_render(fiber);
        for _ in 0..12 {
            seen.push(use_id(&mut tree));
        }
        tree.end_render();
    }
    assert_eq!(seen[0], format!(":r{}h0:", fibers[0].0));
    for i in 0..seen.len() {
        for j in (i + 1)..seen.len() {
            assert_ne!(seen[i], seen[j]);
        }
    }
}

#[test]
fn history_of_another_type_starts_afresh() {
    let (mut tree, mut batch, fiber_id) = setup();
    let history = use_history(&mut tree, || 1i32);
    history.set(&mut tree, &mut batch, 2);
    assert_eq!(history.past_count(&tree), 1);
    tree.end_render();
    tree.begin_render(fiber_id);
    let text = use_history(&mut tree, || String::from("fresh"));
    assert_eq!(text.current(&tree), "fresh");
    assert!(!text.can_undo(&tree));
    tree.end_render();
    tree.begin_render(fiber_id);
    let again = use_history(&mut tree, || String::from("other"));
    assert_eq!(again.current(&tree), "fresh");
}

#[test]
fn reducer_dispatch_marks_fiber_dirty_once() {
    let (mut tree, mut batch, _fiber_id) = setup();
    let reducer = |state: &i32, action: i32| state * action;
    let (_state, dispatch) = use_reducer(&mut tree, reducer, 3i32);
    dispatch.dispatch(&tree, &mut batch, 2);
    dispatch.dispatch(&tree, &mut batch, 5);
    tree.end_render();
    let dirty = batch.end_batch(&mut tree);
    assert_eq!(dirty, vec![dispatch.fiber_id]);
}

#[test]
fn history_survives_commit_and_clear_stays() {
    let (mut tree, mut batch, fiber_id) = setup();
    let history = use_history(&mut tree, || 1i32);
    history.set(&mut tree, &mut batch, 2);
    history.set(&mut tree, &mut batch, 3);
    commit_and_rerender(&mut tree, &mut batch, fiber_id);
    let history = use_history(&mut tree, || 100i32);
    assert_eq!(history.current(&tree), 3);
    assert_eq!(history.past_count(&tree), 2);
    history.set(&mut tree, &mut batch, 4);
    history.clear_history(&mut tree, &mut batch);
    commit_and_rerender(&mut tree, &mut batch, fiber_id);
    let history = use_history(&mut tree, || 100i32);
    assert_eq!(history.current(&tree), 4);
    assert_eq!(history.past_count(&tree), 0);
    assert!(!history.can_redo(&tree));
}

#[test]
fn id_is_stable_and_distinct() {
    let (mut tree, _batch, fiber_id) = setup();
    let a = use_id(&mut tree);
    let b = use_id(&mut tree);
    assert_ne!(a, b);
    tree.end_render();
    tree.begin_render(fiber_id);
    assert_eq!(use_id(&mut tree), a);
    assert_eq!(use_id(&mut tree), b);
}

#[test]
fn effect_event_calls_latest_handler() {
    let (mut tree, _batch, fiber_id) = setup();
    let mut store: CallbackStore<Box<dyn Fn(i32) -> i32>> = CallbackStore::new();
    let factor = 3;
    let event = use_effect_event(&mut tree, &mut store, Box::new(move |x: i32| x * factor) as Box<dyn Fn(i32) -> i32>);
    assert_eq!(event.call(&store, 4), 12);

    tree.end_render();
    tree.begin_render(fiber_id);
    let second = use_effect_event(&mut tree, &mut store, Box::new(|x: i32| x + 100) as Box<dyn Fn(i32) -> i32>);
    assert_eq!(second, event);
    assert_eq!(event.call(&store, 4), 104);
    assert_eq!(store.entries.len(), 1);
}

#[test]
fn test_effect_event_handler_updated_each_render() {
    let (mut tree, _batch, fiber_id) = setup();
    let mut store: CallbackStore<Box<dyn Fn(()) -> i32>> = CallbackStore::new();

    let call_count = Arc::new(AtomicI32::new(0));

    let cc1 = call_count.clone();
    let effect_event = use_effect_event(
        &mut tree,
        &mut store,
        Box::new(move |_: ()| {
            cc1.fetch_add(1, Ordering::SeqCst);
            1
        }) as Box<dyn Fn(()) -> i32>,
    );

    assert_eq!(effect_event.call(&store, ()), 1);
    assert_eq!(call_count.load(Ordering::SeqCst), 1);

    tree.end_render();
    tree.begin_render(fiber_id);

    let cc2 = call_count.clone();
    let _effect_event2 = use_effect_event(
        &mut tree,
        &mut store,
        Box::new(move |_: ()| {
            cc2.fetch_add(1, Ordering::SeqCst);
            2
        }) as Box<dyn Fn(()) -> i32>,
    );

    assert_eq!(effect_event.call(&store, ()), 2);
    assert_eq!(call_count.load(Ordering::SeqCst), 2);
}

#[test]
fn event_hooks_follow_propagation() {
    let mut tree = FiberTree::new();
    let a = tree.mount(None, None);
    let b = tree.mount(None, None);
    let mut events: EventState<char> = EventState::new();
    events.event = Some('x');
    tree.begin_render(a);
    assert_eq!(use_event(&events, &tree), Some(&'x'));
    stop_propagation(&mut events, &tree);
    assert_eq!(use_event(&events, &tree), Some(&'x'));
    tree.end_render();
    tree.begin_render(b);
    assert_eq!(use_event(&events, &tree), None);
    assert_eq!(peek_event(&events), Some(&'x'));
}

#[test]
fn scroll_clamps_to_content() {
    let (mut tree, mut batch, fiber_id) = setup();
    let scroll = use_scroll(&mut tree, &mut batch, 100, 10);
    assert_eq!(scroll.offset, 0);
    assert_eq!(scroll.max_offset(), 90);
    assert!(scroll.has_overflow());
    assert!(!scroll.can_scroll_up());
    assert!(scroll.can_scroll_down());
    scroll.scroll_down(&mut batch, 200);
    commit_and_rerender(&mut tree, &mut batch, fiber_id);

    let scroll = use_scroll(&mut tree, &mut batch, 100, 10);
    assert_eq!(scroll.offset, 90);
    scroll.page_up(&mut batch);
    commit_and_rerender(&mut tree, &mut batch, fiber_id);

    let scroll = use_scroll(&mut tree, &mut batch, 100, 10);
    assert_eq!(scroll.offset, 81);
    scroll.scroll_up(&mut batch, 1000);
    commit_and_rerender(&mut tree, &mut batch, fiber_id);

    let scroll = use_scroll(&mut tree, &mut batch, 100, 10);
    assert_eq!(scroll.offset, 0);
    scroll.scroll_to_bottom(&mut batch);
    commit_and_rerender(&mut tree, &mut batch, fiber_id);

    let scroll = use_scroll(&mut tree, &mut batch, 50, 10);
    assert_eq!(scroll.offset, 90);
    assert!(batch.has_pending_updates());
    commit_and_rerender(&mut tree, &mut batch, fiber_id);
    let scroll = use_scroll(&mut tree, &mut batch, 50, 10);
    assert_eq!(scroll.offset, 40);
}

#[test]
fn timers_follow_their_flags() {
    let mut registry = TimerRegistry::new();
    let timeout = TimeoutHandle { timer: registry.register() };
    let interval = IntervalHandle { timer: registry.register() };

    assert!(!timeout.is_cancelled(&registry));
    assert_eq!(timeout_step(&registry, timeout.timer), TimerStep::Fire);
    timeout.cancel(&mut registry);
    assert!(timeout.is_cancelled(&registry));
    assert_eq!(timeout_step(&registry, timeout.timer), TimerStep::Stop);

    assert_eq!(interval_step(&registry, interval.timer), TimerStep::Fire);
    interval.pause(&mut registry);
    assert!(interval.is_paused(&registry));
    assert_eq!(interval_step(&registry, interval.timer), TimerStep::Skip);
    interval.resume(&mut registry);
    assert!(!interval.is_paused(&registry));
    assert_eq!(interval_step(&registry, interval.timer), TimerStep::Fire);
    interval.cancel(&mut registry);
    interval.resume(&mut registry);
    assert!(interval.is_cancelled(&registry));
    assert_eq!(interval_step(&registry, interval.timer), TimerStep::Stop);
}
