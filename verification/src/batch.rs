//! Batched state updates.
//!
//! State setters do not write hook cells directly: they queue the new cell
//! content here, and `end_batch` writes everything at once and reports which
//! fibers need a re-render. Queued content is computed when the update is
//! queued, from the latest value of the cell (the latest queued content, or
//! else the committed one), so a chain of functional updates sees each
//! previous result, exactly as if they were applied in order at the end.
use crate::fiber::{Fiber, FiberId};
use crate::fiber_tree::FiberTree;
use crate::slot::Slot;
use vstd::prelude::*;

verus! {

broadcast use vstd::std_specs::hash::group_hash_axioms;

/// One queued write of a hook cell.
pub struct PendingUpdate {
    pub fiber_id: FiberId,
    pub hook_index: usize,
    pub value: Slot,
}

/// The queue of state updates of one event phase.
pub struct StateBatch {
    /// Queued writes, in queue order; a later write of a cell wins.
    pub updates: Vec<PendingUpdate>,
    /// Fibers that need a re-render, without repetition, in marking order.
    pub dirty: Vec<FiberId>,
    /// Whether an event phase is running.
    pub batching: bool,
}

/// The content last queued for a cell, if any.
pub open spec fn queued_value(updates: Seq<PendingUpdate>, fiber_id: FiberId, hook_index: usize) -> Option<Slot>
    decreases updates.len(),
{
    if updates.len() == 0 {
        None
    } else if updates.last().fiber_id == fiber_id && updates.last().hook_index == hook_index {
        Some(updates.last().value)
    } else {
        queued_value(updates.drop_last(), fiber_id, hook_index)
    }
}

/// The committed content of a cell, if the fiber is mounted and has it.
pub open spec fn committed_value(tree: FiberTree, fiber_id: FiberId, hook_index: usize) -> Option<Slot> {
    if tree.fibers@.contains_key(fiber_id.0) && hook_index < tree.fibers@[fiber_id.0].hooks@.len() {
        Some(tree.fibers@[fiber_id.0].hooks@[hook_index as int])
    } else {
        None
    }
}

/// The cells of a fiber after writing, in order, the queued updates that
/// name it.
pub open spec fn apply_updates(hooks: Seq<Slot>, updates: Seq<PendingUpdate>, fiber_id: FiberId) -> Seq<Slot>
    decreases updates.len(),
{
    if updates.len() == 0 {
        hooks
    } else {
        let before = apply_updates(hooks, updates.drop_last(), fiber_id);
        let u = updates.last();
        if u.fiber_id == fiber_id && u.hook_index < usize::MAX {
            Fiber::hooks_after_write(before, u.hook_index as int, u.value)
        } else {
            before
        }
    }
}

impl StateBatch {
    /// The latest content of a cell: the last queued one, else the
    /// committed one.
    pub open spec fn latest(&self, tree: FiberTree, fiber_id: FiberId, hook_index: usize) -> Option<Slot> {
        match queued_value(self.updates@, fiber_id, hook_index) {
            Some(v) => Some(v),
            None => committed_value(tree, fiber_id, hook_index),
        }
    }

    /// An empty batch.
    pub fn new() -> (b: Self)
        ensures
            b.updates@.len() == 0,
            b.dirty@.len() == 0,
            !b.batching,
    {
        StateBatch { updates: Vec::new(), dirty: Vec::new(), batching: false }
    }

    /// Start an event phase.
    pub fn begin_batch(&mut self)
        ensures
            final(self).batching,
            final(self).updates == old(self).updates,
            final(self).dirty == old(self).dirty,
    {
        self.batching = true;
    }

    /// Whether updates are queued.
    pub fn has_pending_updates(&self) -> (r: bool)
        ensures
            r == (self.updates@.len() > 0),
    {
        self.updates.len() > 0
    }

    /// Whether a fiber is marked for re-render.
    pub fn is_fiber_dirty(&self, fiber_id: FiberId) -> (r: bool)
        ensures
            r == self.dirty@.contains(fiber_id),
    {
        let mut i: usize = 0;
        while i < self.dirty.len()
            invariant
                0 <= i <= self.dirty@.len(),
                forall|j: int| 0 <= j < i ==> self.dirty@[j] != fiber_id,
            decreases self.dirty@.len() - i,
        {
            if self.dirty[i] == fiber_id {
                return true;
            }
            i = i + 1;
        }
        false
    }

    /// Mark a fiber for re-render.
    pub fn mark_fiber_dirty(&mut self, fiber_id: FiberId)
        ensures
            final(self).dirty@.contains(fiber_id),
            final(self).dirty@ == (if old(self).dirty@.contains(fiber_id) {
                old(self).dirty@
            } else {
                old(self).dirty@.push(fiber_id)
            }),
            final(self).updates == old(self).updates,
            final(self).batching == old(self).batching,
    {
        if !self.is_fiber_dirty(fiber_id) {
            self.dirty.push(fiber_id);
            proof {
                assert(self.dirty@.last() == fiber_id);
            }
        }
    }

    /// Whether an update of the cell is queued.
    pub fn has_queued(&self, fiber_id: FiberId, hook_index: usize) -> (r: bool)
        ensures
            r == queued_value(self.updates@, fiber_id, hook_index) is Some,
    {
        let mut i = self.updates.len();
        proof {
            assert(self.updates@.take(i as int) =~= self.updates@);
        }
        while i > 0
            invariant
                0 <= i <= self.updates@.len(),
                queued_value(self.updates@, fiber_id, hook_index) == queued_value(
                    self.updates@.take(i as int),
                    fiber_id,
                    hook_index,
                ),
            decreases i,
        {
            let u = &self.updates[i - 1];
            proof {
                assert(self.updates@.take(i as int).drop_last() =~= self.updates@.take(i - 1));
            }
            if u.fiber_id == fiber_id && u.hook_index == hook_index {
                return true;
            }
            i = i - 1;
        }
        proof {
            assert(self.updates@.take(0) =~= Seq::<PendingUpdate>::empty());
        }
        false
    }

    /// The latest content of a cell.
    pub fn latest_value(&self, tree: &FiberTree, fiber_id: FiberId, hook_index: usize) -> (r: Option<Slot>)
        ensures
            r == self.latest(*tree, fiber_id, hook_index),
    {
        let mut i = self.updates.len();
        proof {
            assert(self.updates@.take(i as int) =~= self.updates@);
        }
        while i > 0
            invariant
                0 <= i <= self.updates@.len(),
                queued_value(self.updates@, fiber_id, hook_index) == queued_value(
                    self.updates@.take(i as int),
                    fiber_id,
                    hook_index,
                ),
            decreases i,
        {
            let u = &self.updates[i - 1];
            proof {
                assert(self.updates@.take(i as int).drop_last() =~= self.updates@.take(i - 1));
            }
            if u.fiber_id == fiber_id && u.hook_index == hook_index {
                return Some(u.value.duplicate());
            }
            i = i - 1;
        }
        match tree.get(fiber_id) {
            Some(f) => {
                if hook_index < f.hooks.len() {
                    Some(f.hooks[hook_index].duplicate())
                } else {
                    None
                }
            },
            None => None,
        }
    }

    /// Queue new content for a cell and mark its fiber for re-render.
    pub fn queue_value(&mut self, fiber_id: FiberId, hook_index: usize, value: Slot)
        ensures
            final(self).dirty@.contains(fiber_id),
            final(self).updates@ == old(self).updates@.push(
                PendingUpdate { fiber_id, hook_index, value },
            ),
            final(self).dirty@ == (if old(self).dirty@.contains(fiber_id) {
                old(self).dirty@
            } else {
                old(self).dirty@.push(fiber_id)
            }),
            final(self).batching == old(self).batching,
    {
        self.updates.push(PendingUpdate { fiber_id, hook_index, value });
        self.mark_fiber_dirty(fiber_id);
    }

    /// Queue new content for a cell only when it differs from the cell's
    /// latest content; otherwise nothing changes.
    pub fn queue_value_if_changed(&mut self, tree: &FiberTree, fiber_id: FiberId, hook_index: usize, value: Slot)
        ensures
            (old(self).latest(*tree, fiber_id, hook_index) matches Some(cur) && cur.same(value))
                ==> *final(self) == *old(self),
            !(old(self).latest(*tree, fiber_id, hook_index) matches Some(cur) && cur.same(value))
                ==> final(self).updates@ == old(self).updates@.push(
                PendingUpdate { fiber_id, hook_index, value },
            ) && final(self).dirty@ == (if old(self).dirty@.contains(fiber_id) {
                old(self).dirty@
            } else {
                old(self).dirty@.push(fiber_id)
            }) && final(self).batching == old(self).batching && final(self).dirty@.contains(fiber_id),
    {
        let unchanged = match self.latest_value(tree, fiber_id, hook_index) {
            Some(cur) => cur.same_as(&value),
            None => false,
        };
        if !unchanged {
            self.queue_value(fiber_id, hook_index, value);
        }
    }

    /// End the event phase: every queued write is applied in queue order to
    /// the mounted fibers, the marked fibers are marked dirty in the tree,
    /// the batch is emptied, and the marked fibers are returned.
    pub fn end_batch(&mut self, tree: &mut FiberTree) -> (dirty: Vec<FiberId>)
        requires
            old(tree).wf(),
        ensures
            final(tree).wf(),
            dirty@ == old(self).dirty@,
            final(self).updates@.len() == 0,
            final(self).dirty@.len() == 0,
            !final(self).batching,
            final(tree).fibers@.dom() == old(tree).fibers@.dom(),
            forall|k: u64|
                #![trigger final(tree).fibers@[k]]
                old(tree).fibers@.contains_key(k) ==> {
                    &&& final(tree).fibers@[k].hooks@ == apply_updates(
                        old(tree).fibers@[k].hooks@,
                        old(self).updates@,
                        FiberId(k),
                    )
                    &&& final(tree).fibers@[k].dirty == (old(tree).fibers@[k].dirty
                        || old(self).dirty@.contains(FiberId(k)))
                    &&& final(tree).fibers@[k].id == old(tree).fibers@[k].id
                    &&& final(tree).fibers@[k].hook_index == old(tree).fibers@[k].hook_index
                    &&& final(tree).fibers@[k].parent == old(tree).fibers@[k].parent
                    &&& final(tree).fibers@[k].children == old(tree).fibers@[k].children
                    &&& final(tree).fibers@[k].key == old(tree).fibers@[k].key
                    &&& final(tree).fibers@[k].provided_contexts == old(
                        tree,
                    ).fibers@[k].provided_contexts
                },
            final(tree).order == old(tree).order,
            final(tree).root == old(tree).root,
            final(tree).next_id == old(tree).next_id,
            final(tree).render_stack == old(tree).render_stack,
            final(tree).pending_unmount == old(tree).pending_unmount,
            final(tree).component_id_to_fiber == old(tree).component_id_to_fiber,
            final(tree).fiber_to_component_id == old(tree).fiber_to_component_id,
            final(tree).seen_this_render == old(tree).seen_this_render,
    {
        let mut updates: Vec<PendingUpdate> = Vec::new();
        std::mem::swap(&mut updates, &mut self.updates);
        let mut dirty: Vec<FiberId> = Vec::new();
        std::mem::swap(&mut dirty, &mut self.dirty);
        self.batching = false;
        let n = updates.len();
        let mut i: usize = 0;
        while i < n
            invariant
                tree.wf(),
                n == updates@.len(),
                0 <= i <= n,
                tree.fibers@.dom() == old(tree).fibers@.dom(),
                forall|k: u64|
                    #![trigger tree.fibers@[k]]
                    old(tree).fibers@.contains_key(k) ==> {
                        &&& tree.fibers@[k].hooks@ == apply_updates(
                            old(tree).fibers@[k].hooks@,
                            updates@.take(i as int),
                            FiberId(k),
                        )
                        &&& tree.fibers@[k].dirty == old(tree).fibers@[k].dirty
                        &&& tree.fibers@[k].id == old(tree).fibers@[k].id
                        &&& tree.fibers@[k].hook_index == old(tree).fibers@[k].hook_index
                        &&& tree.fibers@[k].parent == old(tree).fibers@[k].parent
                        &&& tree.fibers@[k].children == old(tree).fibers@[k].children
                        &&& tree.fibers@[k].key == old(tree).fibers@[k].key
                        &&& tree.fibers@[k].provided_contexts == old(
                            tree,
                        ).fibers@[k].provided_contexts
                    },
                tree.order == old(tree).order,
                tree.root == old(tree).root,
                tree.next_id == old(tree).next_id,
                tree.render_stack == old(tree).render_stack,
                tree.pending_unmount == old(tree).pending_unmount,
                tree.component_id_to_fiber == old(tree).component_id_to_fiber,
                tree.fiber_to_component_id == old(tree).fiber_to_component_id,
                tree.seen_this_render == old(tree).seen_this_render,
            decreases n - i,
        {
            let fid = updates[i].fiber_id;
            let idx = updates[i].hook_index;
            let value = updates[i].value.duplicate();
            proof {
                assert(updates@.take(i + 1).drop_last() =~= updates@.take(i as int));
            }
            let ghost before = tree.fibers@;
            if idx < usize::MAX {
                match tree.get_mut(fid) {
                    Some(f) => {
                        f.set_slot(idx, value);
                    },
                    None => {},
                }
            }
            proof {
                assert(tree.fibers@.dom() =~= before.dom());
            }
            i = i + 1;
        }
        proof {
            assert(updates@.take(n as int) =~= updates@);
        }
        let m = dirty.len();
        let mut j: usize = 0;
        while j < m
            invariant
                tree.wf(),
                m == dirty@.len(),
                0 <= j <= m,
                tree.fibers@.dom() == old(tree).fibers@.dom(),
                forall|k: u64|
                    #![trigger tree.fibers@[k]]
                    old(tree).fibers@.contains_key(k) ==> {
                        &&& tree.fibers@[k].hooks@ == apply_updates(
                            old(tree).fibers@[k].hooks@,
                            updates@,
                            FiberId(k),
                        )
                        &&& tree.fibers@[k].dirty == (old(tree).fibers@[k].dirty
                            || dirty@.take(j as int).contains(FiberId(k)))
                        &&& tree.fibers@[k].id == old(tree).fibers@[k].id
                        &&& tree.fibers@[k].hook_index == old(tree).fibers@[k].hook_index
                        &&& tree.fibers@[k].parent == old(tree).fibers@[k].parent
                        &&& tree.fibers@[k].children == old(tree).fibers@[k].children
                        &&& tree.fibers@[k].key == old(tree).fibers@[k].key
                        &&& tree.fibers@[k].provided_contexts == old(
                            tree,
                        ).fibers@[k].provided_contexts
                    },
                tree.order == old(tree).order,
                tree.root == old(tree).root,
                tree.next_id == old(tree).next_id,
                tree.render_stack == old(tree).render_stack,
                tree.pending_unmount == old(tree).pending_unmount,
                tree.component_id_to_fiber == old(tree).component_id_to_fiber,
                tree.fiber_to_component_id == old(tree).fiber_to_component_id,
                tree.seen_this_render == old(tree).seen_this_render,
            decreases m - j,
        {
            let fid = dirty[j];
            tree.mark_dirty(fid);
            proof {
                broadcast use vstd::seq_lib::group_seq_properties;

                assert(dirty@.take(j + 1) =~= dirty@.take(j as int).push(fid));
            }
            j = j + 1;
        }
        proof {
            assert(dirty@.take(m as int) =~= dirty@);
        }
        dirty
    }
}

/// What writing a cell does to the other cells: earlier cells keep their
/// content, and the cell list does not shrink.
proof fn lemma_write_keeps_others(hooks: Seq<Slot>, index: int, slot: Slot, j: int)
    requires
        0 <= index,
        0 <= j < hooks.len(),
        j != index,
    ensures
        Fiber::hooks_after_write(hooks, index, slot)[j] == hooks[j],
        Fiber::hooks_after_write(hooks, index, slot).len() >= hooks.len(),
{
}

/// Writing a cell does not shrink the cell list, and the written cell
/// holds the content.
proof fn lemma_write_len(hooks: Seq<Slot>, index: int, slot: Slot)
    requires
        0 <= index,
    ensures
        Fiber::hooks_after_write(hooks, index, slot).len() >= hooks.len(),
        index < Fiber::hooks_after_write(hooks, index, slot).len(),
        Fiber::hooks_after_write(hooks, index, slot)[index] == slot,
{
}

/// Committing the queued updates of a fiber leaves in each cell the
/// content that `latest` reads before the commit: the last queued content
/// of the cell, or its committed content when none is queued.
pub proof fn lemma_commit_gives_latest(hooks: Seq<Slot>, updates: Seq<PendingUpdate>, fiber_id: FiberId, hook_index: usize)
    requires
        hook_index < usize::MAX,
    ensures
        apply_updates(hooks, updates, fiber_id).len() >= hooks.len(),
        queued_value(updates, fiber_id, hook_index) is Some ==> hook_index < apply_updates(
            hooks,
            updates,
            fiber_id,
        ).len() && apply_updates(hooks, updates, fiber_id)[hook_index as int] == queued_value(
            updates,
            fiber_id,
            hook_index,
        )->0,
        queued_value(updates, fiber_id, hook_index) is None && hook_index < hooks.len() ==> apply_updates(
            hooks,
            updates,
            fiber_id,
        )[hook_index as int] == hooks[hook_index as int],
    decreases updates.len(),
{
    if updates.len() > 0 {
        let before = apply_updates(hooks, updates.drop_last(), fiber_id);
        lemma_commit_gives_latest(hooks, updates.drop_last(), fiber_id, hook_index);
        let u = updates.last();
        if u.fiber_id == fiber_id && u.hook_index < usize::MAX {
            lemma_write_len(before, u.hook_index as int, u.value);
            if u.hook_index != hook_index && hook_index < before.len() {
                lemma_write_keeps_others(before, u.hook_index as int, u.value, hook_index as int);
            }
        }
    }
}

/// A state update read back: after queueing content for a cell of a
/// mounted fiber and committing the batch, the cell holds that content.
pub proof fn lemma_set_then_commit(tree: FiberTree, batch: StateBatch, fiber_id: FiberId, hook_index: usize, value: Slot)
    requires
        tree.fibers@.contains_key(fiber_id.0),
        hook_index < usize::MAX,
    ensures
        ({
            let updates = batch.updates@.push(PendingUpdate { fiber_id, hook_index, value });
            let cells = apply_updates(tree.fibers@[fiber_id.0].hooks@, updates, fiber_id);
            hook_index < cells.len() && cells[hook_index as int] == value
        }),
{
    let updates = batch.updates@.push(PendingUpdate { fiber_id, hook_index, value });
    lemma_commit_gives_latest(tree.fibers@[fiber_id.0].hooks@, updates, fiber_id, hook_index);
}

} // verus!
