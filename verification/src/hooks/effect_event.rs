//! Effect events: a handler that effects can call and that always is the
//! one passed in the latest render.
//!
//! The handlers live in a `CallbackStore`, one cell per fiber and hook;
//! every render replaces the cell's handler, and an `EffectEvent`, whatever
//! render made it, calls the handler in its cell.
use crate::fiber::FiberId;
use crate::fiber_tree::{same_except_fiber, FiberTree};
use crate::hooks::memo::CallbackStore;
use vstd::prelude::*;

verus! {

/// The handler cell of an effect event: its fiber and hook.
#[derive(Clone, Copy, Debug, PartialEq, Eq, Structural)]
pub struct EffectEvent {
    pub fiber_id: FiberId,
    pub hook_index: usize,
}

impl EffectEvent {
    /// Call the latest handler stored in the event's cell.
    pub fn call<F: Fn(IN) -> OUT, IN, OUT>(&self, store: &CallbackStore<F>, input: IN) -> (r: OUT)
        requires
            store.kept(self.fiber_id, self.hook_index) is Some,
            call_requires(store.kept(self.fiber_id, self.hook_index)->0, (input,)),
        ensures
            call_ensures(store.kept(self.fiber_id, self.hook_index)->0, (input,), r),
    {
        let handler = store.find(self.fiber_id, self.hook_index).unwrap();
        (*handler)(input)
    }
}

/// Reserve the current component's next hook for an event handler that
/// the component calls itself; nothing is stored.
pub(crate) fn effect_event_slot(tree: &mut FiberTree) -> (r: (FiberId, usize))
    requires
        old(tree).wf(),
        old(tree).hook_room(1),
    ensures
        final(tree).wf(),
        r.0 == old(tree).current().unwrap(),
        r.1 == old(tree).current_hook_index(),
        same_except_fiber(*old(tree), *final(tree), r.0),
        final(tree).fibers@[r.0.0].hook_index == r.1 + 1,
        final(tree).fibers@[r.0.0].hooks@.len() >= old(tree).fibers@[r.0.0].hooks@.len(),
        forall|j: int|
            0 <= j < old(tree).fibers@[r.0.0].hooks@.len() && j != r.1
                ==> #[trigger] final(tree).fibers@[r.0.0].hooks@[j] == old(tree).fibers@[r.0.0].hooks@[j],
{
    let (id, idx) = tree.next_hook_untracked();
    let _marker: () = tree.hook_get_or_insert(id, idx, ());
    (id, idx)
}

/// Register `handler` as this render's effect event handler: it replaces
/// the handler of the same hook stored by earlier renders, so every event
/// of this hook, also one kept from an earlier render, calls it.
pub fn use_effect_event<F>(tree: &mut FiberTree, store: &mut CallbackStore<F>, handler: F) -> (r: EffectEvent)
    requires
        old(tree).wf(),
        old(tree).hook_room(1),
    ensures
        final(tree).wf(),
        r.fiber_id == old(tree).current().unwrap(),
        r.hook_index == old(tree).current_hook_index(),
        final(store).kept(r.fiber_id, r.hook_index) == Some(handler),
        forall|f: FiberId, h: usize|
            !(f == r.fiber_id && h == r.hook_index) ==> #[trigger] final(store).kept(f, h) == old(store).kept(f, h),
        same_except_fiber(*old(tree), *final(tree), r.fiber_id),
        final(tree).fibers@[r.fiber_id.0].hook_index == r.hook_index + 1,
        final(tree).fibers@[r.fiber_id.0].hooks@.len() >= old(tree).fibers@[r.fiber_id.0].hooks@.len(),
        forall|j: int|
            0 <= j < old(tree).fibers@[r.fiber_id.0].hooks@.len() && j != r.hook_index
                ==> #[trigger] final(tree).fibers@[r.fiber_id.0].hooks@[j] == old(
                tree,
            ).fibers@[r.fiber_id.0].hooks@[j],
{
    let (id, idx) = effect_event_slot(tree);
    store.put(id, idx, handler);
    EffectEvent { fiber_id: id, hook_index: idx }
}

/// An event kept from an earlier render of a hook and the event of its
/// latest render are one and the same cell: once the latest render stored
/// `handler`, calling the kept event calls `handler`.
pub proof fn lemma_kept_event_calls_latest<F>(
    kept: EffectEvent,
    latest: EffectEvent,
    store: CallbackStore<F>,
    handler: F,
)
    requires
        kept.fiber_id == latest.fiber_id,
        kept.hook_index == latest.hook_index,
        store.kept(latest.fiber_id, latest.hook_index) == Some(handler),
    ensures
        kept == latest,
        store.kept(kept.fiber_id, kept.hook_index) == Some(handler),
{
}

} // verus!
