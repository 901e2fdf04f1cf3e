//! State hook with batching.
//!
//! `use_state` returns the current value of a state cell and a setter. The
//! setter queues new values in the state batch; they are written when the
//! batch ends, and multiple updates in one event phase cause one re-render.
use crate::batch::StateBatch;
use crate::fiber::FiberId;
use crate::fiber_tree::{same_except_fiber, FiberTree};
use crate::slot::{HookValue, Slot};
use std::marker::PhantomData;
use vstd::prelude::*;

verus! {

/// Queues updates of one state cell.
#[derive(Debug)]
pub struct StateSetter<T> {
    pub fiber_id: FiberId,
    pub hook_index: usize,
    pub marker: PhantomData<T>,
}

impl<T> Clone for StateSetter<T> {
    fn clone(&self) -> (r: Self)
        ensures
            r == *self,
    {
        StateSetter { fiber_id: self.fiber_id, hook_index: self.hook_index, marker: PhantomData }
    }
}

impl<T> Copy for StateSetter<T> {
}

/// The setter of the state cell `hook_index` of the fiber `fiber_id`.
pub open spec fn setter_for<T>(fiber_id: FiberId, hook_index: usize) -> StateSetter<T> {
    StateSetter { fiber_id, hook_index, marker: PhantomData }
}

impl<T: HookValue> StateSetter<T> {
    /// `after` is `before` with `value` queued for this cell: the update is
    /// appended and the fiber is marked dirty once.
    pub open spec fn queued(&self, before: StateBatch, after: StateBatch, value: T) -> bool {
        &&& after.updates@ == before.updates@.push(
            crate::batch::PendingUpdate {
                fiber_id: self.fiber_id,
                hook_index: self.hook_index,
                value: value.encoded(),
            },
        )
        &&& after.dirty@ == (if before.dirty@.contains(self.fiber_id) {
            before.dirty@
        } else {
            before.dirty@.push(self.fiber_id)
        })
        &&& after.batching == before.batching
    }

    /// The cell's latest value, as a `T`.
    pub open spec fn latest(&self, batch: StateBatch, tree: FiberTree) -> Option<T> {
        match batch.latest(tree, self.fiber_id, self.hook_index) {
            Some(s) => T::decoded(s),
            None => None,
        }
    }

    /// `after` is `before` after an update of this cell to `v` that is
    /// dropped when `v` has the same content as the cell's latest content
    /// `cur`, and queued otherwise.
    pub open spec fn updated_if_changed(&self, before: StateBatch, after: StateBatch, cur: Slot, v: T) -> bool {
        if cur.same(v.encoded()) {
            after == before
        } else {
            self.queued(before, after, v)
        }
    }

    /// Set the state to a new value (queued for batching).
    pub fn set(&self, batch: &mut StateBatch, new_value: T)
        ensures
            final(batch).updates@ == old(batch).updates@.push(
                crate::batch::PendingUpdate {
                    fiber_id: self.fiber_id,
                    hook_index: self.hook_index,
                    value: new_value.encoded(),
                },
            ),
            final(batch).dirty@ == (if old(batch).dirty@.contains(self.fiber_id) {
                old(batch).dirty@
            } else {
                old(batch).dirty@.push(self.fiber_id)
            }),
            final(batch).batching == old(batch).batching,
    {
        batch.queue_value(self.fiber_id, self.hook_index, new_value.encode());
    }

    /// Update the state from its latest value (queued for batching).
    pub fn update<F: FnOnce(&T) -> T>(&self, tree: &FiberTree, batch: &mut StateBatch, updater: F)
        requires
            self.latest(*old(batch), *tree) is Some,
            call_requires(updater, (&self.latest(*old(batch), *tree)->0,)),
        ensures
            final(batch).updates@.len() == old(batch).updates@.len() + 1,
            final(batch).updates@.drop_last() == old(batch).updates@,
            final(batch).updates@.last().fiber_id == self.fiber_id,
            final(batch).updates@.last().hook_index == self.hook_index,
            T::decoded(final(batch).updates@.last().value) is Some,
            call_ensures(
                updater,
                (&self.latest(*old(batch), *tree)->0,),
                T::decoded(final(batch).updates@.last().value)->0,
            ),
            final(batch).updates@.last().value == T::decoded(
                final(batch).updates@.last().value,
            )->0.encoded(),
            final(batch).dirty@ == (if old(batch).dirty@.contains(self.fiber_id) {
                old(batch).dirty@
            } else {
                old(batch).dirty@.push(self.fiber_id)
            }),
            final(batch).batching == old(batch).batching,
    {
        let cur_slot = batch.latest_value(tree, self.fiber_id, self.hook_index).unwrap();
        let current = T::decode(&cur_slot).unwrap();
        let next = updater(&current);
        batch.queue_value(self.fiber_id, self.hook_index, next.encode());
        proof {
            T::lemma_decode_encode(next);
            assert(batch.updates@.drop_last() =~= old(batch).updates@);
        }
    }

    /// Set the state to a new value only when it differs from the latest
    /// value; an equal value queues nothing and marks nothing.
    pub fn set_if_changed(&self, tree: &FiberTree, batch: &mut StateBatch, new_value: T)
        ensures
            (old(batch).latest(*tree, self.fiber_id, self.hook_index) matches Some(cur)
                && cur.same(new_value.encoded())) ==> *final(batch) == *old(batch),
            !(old(batch).latest(*tree, self.fiber_id, self.hook_index) matches Some(cur)
                && cur.same(new_value.encoded())) ==> final(batch).updates@ == old(batch).updates@.push(
                crate::batch::PendingUpdate {
                    fiber_id: self.fiber_id,
                    hook_index: self.hook_index,
                    value: new_value.encoded(),
                },
            ) && final(batch).dirty@.contains(self.fiber_id),
    {
        batch.queue_value_if_changed(tree, self.fiber_id, self.hook_index, new_value.encode());
    }

    /// Update the state from its latest value, only when the result differs
    /// from it.
    pub fn update_if_changed<F: FnOnce(&T) -> T>(&self, tree: &FiberTree, batch: &mut StateBatch, updater: F)
        requires
            self.latest(*old(batch), *tree) is Some,
            call_requires(updater, (&self.latest(*old(batch), *tree)->0,)),
        ensures
            *final(batch) != *old(batch) ==> final(batch).updates@.len() == old(
                batch,
            ).updates@.len() + 1,
            *final(batch) != *old(batch) ==> final(batch).updates@.drop_last() == old(
                batch,
            ).updates@,
            *final(batch) != *old(batch) ==> final(batch).updates@.last().fiber_id == self.fiber_id,
            *final(batch) != *old(batch) ==> final(batch).updates@.last().hook_index
                == self.hook_index,
            *final(batch) != *old(batch) ==> final(batch).dirty@.contains(self.fiber_id),
            *final(batch) != *old(batch) ==> !old(batch).latest(
                *tree,
                self.fiber_id,
                self.hook_index,
            )->0.same(final(batch).updates@.last().value),
            *final(batch) != *old(batch) ==> T::decoded(final(batch).updates@.last().value) is Some,
            *final(batch) != *old(batch) ==> call_ensures(
                updater,
                (&self.latest(*old(batch), *tree)->0,),
                T::decoded(final(batch).updates@.last().value)->0,
            ),
            *final(batch) != *old(batch) ==> final(batch).updates@.last().value == T::decoded(
                final(batch).updates@.last().value,
            )->0.encoded(),
            exists|v: T|
                call_ensures(updater, (&self.latest(*old(batch), *tree)->0,), v)
                    && #[trigger] self.updated_if_changed(
                    *old(batch),
                    *final(batch),
                    old(batch).latest(*tree, self.fiber_id, self.hook_index)->0,
                    v,
                ),
    {
        let cur_slot = batch.latest_value(tree, self.fiber_id, self.hook_index).unwrap();
        let current = T::decode(&cur_slot).unwrap();
        let next = updater(&current);
        batch.queue_value_if_changed(tree, self.fiber_id, self.hook_index, next.encode());
        proof {
            T::lemma_decode_encode(next);
            if *batch != *old(batch) {
                assert(batch.updates@.drop_last() =~= old(batch).updates@);
            }
            assert(self.updated_if_changed(*old(batch), *batch, cur_slot, next));
        }
    }
}

/// Local component state: the cell's value (initialized on the first
/// render) and a setter for it.
pub fn use_state<T: HookValue, F: FnOnce() -> T>(tree: &mut FiberTree, initializer: F) -> (r: (T, StateSetter<T>))
    requires
        old(tree).wf(),
        old(tree).hook_room(1),
        call_requires(initializer, ()),
    ensures
        final(tree).wf(),
        r.1.fiber_id == old(tree).current().unwrap(),
        r.1.hook_index == old(tree).current_hook_index(),
        same_except_fiber(*old(tree), *final(tree), r.1.fiber_id),
        old(tree).fibers@[r.1.fiber_id.0].existing_hook::<T>(r.1.hook_index as int) is Some ==> r.0
            == old(tree).fibers@[r.1.fiber_id.0].existing_hook::<T>(r.1.hook_index as int)->0,
        old(tree).fibers@[r.1.fiber_id.0].existing_hook::<T>(r.1.hook_index as int) is None
            ==> call_ensures(initializer, (), r.0),
        final(tree).fibers@[r.1.fiber_id.0].hook_value::<T>(r.1.hook_index as int) == Some(r.0),
        final(tree).fibers@[r.1.fiber_id.0].hook_index == r.1.hook_index + 1,
        final(tree).fibers@[r.1.fiber_id.0].hooks@.len() == (if r.1.hook_index < old(
            tree,
        ).fibers@[r.1.fiber_id.0].hooks@.len() {
            old(tree).fibers@[r.1.fiber_id.0].hooks@.len() as int
        } else {
            r.1.hook_index + 1
        }),
        forall|j: int|
            0 <= j < old(tree).fibers@[r.1.fiber_id.0].hooks@.len() && j != r.1.hook_index
                ==> #[trigger] final(tree).fibers@[r.1.fiber_id.0].hooks@[j] == old(
                tree,
            ).fibers@[r.1.fiber_id.0].hooks@[j],
{
    let (id, idx) = tree.next_hook("use_state");
    let value = tree.hook_get_or_init(id, idx, initializer);
    (value, StateSetter { fiber_id: id, hook_index: idx, marker: PhantomData })
}

} // verus!
