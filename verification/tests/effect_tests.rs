use reratui::effect_queue::EffectQueue;
use reratui::fiber::FiberId;
use reratui::fiber_tree::FiberTree;
use reratui::hooks::effect::{use_async_effect_once, use_effect, use_effect_once};
use std::sync::atomic::{AtomicUsize, Ordering};
use std::sync::Arc;

type Cleanup = Box<dyn FnOnce()>;
type Effect = Box<dyn FnOnce() -> Option<Cleanup>>;

fn setup_test_fiber() -> (FiberTree, EffectQueue<Effect, Cleanup>, FiberId) {
    let mut tree = FiberTree::new();
    let fiber_id = tree.mount(None, None);
    tree.begin_render(fiber_id);
    (tree, EffectQueue::new(), fiber_id)
}

fn counting_effect(executed: &Arc<AtomicUsize>) -> Effect {
    let executed_clone = executed.clone();
    Box::new(move || {
        executed_clone.fetch_add(1, Ordering::SeqCst);
        None
    })
}

#[test]
fn test_effect_queued_not_executed_immediately() {
    let (mut tree, mut queue, _fiber_id) = setup_test_fiber();
    let executed = Arc::new(AtomicUsize::new(0));

    use_effect(&mut tree, &mut queue, counting_effect(&executed), Some(()));

    assert_eq!(executed.load(Ordering::SeqCst), 0);
    assert!(queue.has_pending_effects());
}

#[test]
fn test_effect_runs_on_flush() {
    let (mut tree, mut queue, _fiber_id) = setup_test_fiber();
    let executed = Arc::new(AtomicUsize::new(0));

    use_effect(&mut tree, &mut queue, counting_effect(&executed), Some(()));

    tree.end_render();
    queue.flush();

    assert_eq!(executed.load(Ordering::SeqCst), 1);
}

#[test]
fn test_effect_with_empty_deps_runs_once() {
    let (mut tree, mut queue, fiber_id) = setup_test_fiber();
    let executed = Arc::new(AtomicUsize::new(0));

    use_effect(&mut tree, &mut queue, counting_effect(&executed), Some(()));
    tree.end_render();
    queue.flush();
    assert_eq!(executed.load(Ordering::SeqCst), 1);

    tree.begin_render(fiber_id);
    use_effect(&mut tree, &mut queue, counting_effect(&executed), Some(()));
    tree.end_render();
    queue.flush();

    assert_eq!(executed.load(Ordering::SeqCst), 1);
}

#[test]
fn test_effect_with_none_deps_runs_every_render() {
    let (mut tree, mut queue, fiber_id) = setup_test_fiber();
    let executed = Arc::new(AtomicUsize::new(0));

    use_effect(&mut tree, &mut queue, counting_effect(&executed), None::<()>);
    tree.end_render();
    queue.flush();
    assert_eq!(executed.load(Ordering::SeqCst), 1);

    tree.begin_render(fiber_id);
    use_effect(&mut tree, &mut queue, counting_effect(&executed), None::<()>);
    tree.end_render();
    queue.flush();

    assert_eq!(executed.load(Ordering::SeqCst), 2);
}

#[test]
fn test_effect_with_changing_deps() {
    let (mut tree, mut queue, fiber_id) = setup_test_fiber();
    let executed = Arc::new(AtomicUsize::new(0));

    use_effect(&mut tree, &mut queue, counting_effect(&executed), Some(1i32));
    tree.end_render();
    queue.flush();
    assert_eq!(executed.load(Ordering::SeqCst), 1);

    tree.begin_render(fiber_id);
    use_effect(&mut tree, &mut queue, counting_effect(&executed), Some(1i32));
    tree.end_render();
    queue.flush();
    assert_eq!(executed.load(Ordering::SeqCst), 1);

    tree.begin_render(fiber_id);
    use_effect(&mut tree, &mut queue, counting_effect(&executed), Some(2i32));
    tree.end_render();
    queue.flush();
    assert_eq!(executed.load(Ordering::SeqCst), 2);
}

#[test]
fn test_use_effect_once() {
    let (mut tree, mut queue, fiber_id) = setup_test_fiber();
    let executed = Arc::new(AtomicUsize::new(0));

    use_effect_once(&mut tree, &mut queue, counting_effect(&executed));
    tree.end_render();
    queue.flush();
    assert_eq!(executed.load(Ordering::SeqCst), 1);

    tree.begin_render(fiber_id);
    use_effect_once(&mut tree, &mut queue, counting_effect(&executed));
    tree.end_render();
    queue.flush();
    assert_eq!(executed.load(Ordering::SeqCst), 1);
}

#[test]
fn test_use_async_effect_once() {
    let (mut tree, mut queue, _fiber_id) = setup_test_fiber();
    let executed = Arc::new(AtomicUsize::new(0));

    use_async_effect_once(&mut tree, &mut queue, counting_effect(&executed));

    assert!(queue.has_pending_effects());
}

#[test]
fn effect_cleanup_runs_before_rerun() {
    let (mut tree, mut queue, fiber_id) = setup_test_fiber();
    let log = Arc::new(std::sync::Mutex::new(Vec::<&'static str>::new()));
    for _ in 0..2 {
        let l1 = log.clone();
        let effect: Effect = Box::new(move || {
            l1.lock().unwrap().push("effect");
            let l2 = l1.clone();
            Some(Box::new(move || l2.lock().unwrap().push("cleanup")) as Cleanup)
        });
        use_effect(&mut tree, &mut queue, effect, None::<()>);
        tree.end_render();
        queue.flush();
        tree.begin_render(fiber_id);
    }
    assert_eq!(*log.lock().unwrap(), vec!["effect", "cleanup", "effect"]);
}
