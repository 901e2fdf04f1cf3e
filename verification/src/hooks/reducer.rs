//! Reducer hook: state changed by dispatching actions to a reducer.
use crate::batch::{PendingUpdate, StateBatch};
use crate::fiber::FiberId;
use crate::fiber_tree::{same_except_fiber, FiberTree};
use crate::slot::HookValue;
use std::marker::PhantomData;
use vstd::prelude::*;

verus! {

/// Dispatches actions to the reducer of one state cell.
pub struct Dispatch<S, A, R> {
    pub fiber_id: FiberId,
    pub hook_index: usize,
    pub reducer: R,
    pub marker: PhantomData<(S, A)>,
}

impl<S: HookValue, A, R: Fn(&S, A) -> S> Dispatch<S, A, R> {
    /// The cell's latest value, as an `S`.
    pub open spec fn latest(&self, batch: StateBatch, tree: FiberTree) -> Option<S> {
        match batch.latest(tree, self.fiber_id, self.hook_index) {
            Some(s) => S::decoded(s),
            None => None,
        }
    }

    /// Queue the state the reducer computes from the latest state and the
    /// action; the component re-renders once the batch ends.
    pub fn dispatch(&self, tree: &FiberTree, batch: &mut StateBatch, action: A)
        requires
            self.latest(*old(batch), *tree) is Some,
            call_requires(self.reducer, (&self.latest(*old(batch), *tree)->0, action)),
        ensures
            final(batch).updates@.len() == old(batch).updates@.len() + 1,
            final(batch).updates@.drop_last() == old(batch).updates@,
            final(batch).updates@.last().fiber_id == self.fiber_id,
            final(batch).updates@.last().hook_index == self.hook_index,
            S::decoded(final(batch).updates@.last().value) is Some,
            call_ensures(
                self.reducer,
                (&self.latest(*old(batch), *tree)->0, action),
                S::decoded(final(batch).updates@.last().value)->0,
            ),
            final(batch).updates@.last().value == S::decoded(
                final(batch).updates@.last().value,
            )->0.encoded(),
            final(batch).dirty@ == (if old(batch).dirty@.contains(self.fiber_id) {
                old(batch).dirty@
            } else {
                old(batch).dirty@.push(self.fiber_id)
            }),
            final(batch).batching == old(batch).batching,
    {
        let cur_slot = batch.latest_value(tree, self.fiber_id, self.hook_index).unwrap();
        let current = S::decode(&cur_slot).unwrap();
        let next = (self.reducer)(&current, action);
        batch.queue_value(self.fiber_id, self.hook_index, next.encode());
        proof {
            S::lemma_decode_encode(next);
            assert(batch.updates@.drop_last() =~= old(batch).updates@);
        }
    }
}

/// State managed by a reducer: the current state (initialized on the first
/// render) and a dispatcher. The hook takes two hook indices: a marker cell
/// and the state cell.
pub fn use_reducer<S: HookValue, A, R: Fn(&S, A) -> S>(tree: &mut FiberTree, reducer: R, initial_state: S) -> (r: (S, Dispatch<S, A, R>))
    requires
        old(tree).wf(),
        old(tree).hook_room(2),
    ensures
        final(tree).wf(),
        r.1.fiber_id == old(tree).current().unwrap(),
        r.1.hook_index == old(tree).current_hook_index() + 1,
        r.1.reducer == reducer,
        same_except_fiber(*old(tree), *final(tree), r.1.fiber_id),
        old(tree).fibers@[r.1.fiber_id.0].existing_hook::<S>(r.1.hook_index as int) is Some ==> r.0
            == old(tree).fibers@[r.1.fiber_id.0].existing_hook::<S>(r.1.hook_index as int)->0,
        old(tree).fibers@[r.1.fiber_id.0].existing_hook::<S>(r.1.hook_index as int) is None ==> r.0
            == initial_state,
        final(tree).fibers@[r.1.fiber_id.0].hook_value::<S>(r.1.hook_index as int) == Some(r.0),
        final(tree).fibers@[r.1.fiber_id.0].hook_index == r.1.hook_index + 1,
{
    let (id, marker_index) = tree.next_hook_untracked();
    let _marker: () = tree.hook_get_or_insert(id, marker_index, ());
    let (_, idx) = tree.next_hook_untracked();
    let state = tree.hook_get_or_insert(id, idx, initial_state);
    (state, Dispatch { fiber_id: id, hook_index: idx, reducer, marker: PhantomData })
}

} // verus!
