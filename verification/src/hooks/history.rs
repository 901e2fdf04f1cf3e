//! Undo/redo history of a value.
//!
//! The history cell holds the values before the present one (most recent
//! first), the present value, and the values undone since the last `set`
//! (next first). Changes of the present value mark the component for
//! re-render.
use crate::batch::{queued_value, PendingUpdate, StateBatch};
use crate::fiber::FiberId;
use crate::fiber_tree::{same_except_fiber, FiberTree};
use crate::slot::{HookValue, Slot};
use std::marker::PhantomData;
use vstd::prelude::*;

verus! {

/// The tag of history cells.
pub const HISTORY_TAG: u64 = 0x4849_5354_4f52_5900;

/// The elements of a cell list (`Nil`/`Cons`), head first.
pub open spec fn list_seq(s: Slot) -> Option<Seq<Slot>>
    decreases s,
{
    match s {
        Slot::Nil => Some(Seq::empty()),
        Slot::Cons(h, t) => match list_seq(*t) {
            Some(rest) => Some(seq![*h] + rest),
            None => None,
        },
        _ => None,
    }
}

/// A history: past values (most recent first), the present value, and
/// future values (next first).
pub struct HistoryModel {
    pub past: Seq<Slot>,
    pub present: Slot,
    pub future: Seq<Slot>,
}

/// The history a cell holds, if it holds one.
pub open spec fn history_of(s: Slot) -> Option<HistoryModel> {
    match s {
        Slot::Tagged(t, b) => if t == HISTORY_TAG {
            match *b {
                Slot::Pair(p, rest) => match *rest {
                    Slot::Pair(present, f) => match (list_seq(*p), list_seq(*f)) {
                        (Some(past), Some(future)) => Some(
                            HistoryModel { past, present: *present, future },
                        ),
                        _ => None,
                    },
                    _ => None,
                },
                _ => None,
            }
        } else {
            None
        },
        _ => None,
    }
}

/// Every value of a history is a `T`.
pub open spec fn history_decodes<T: HookValue>(h: HistoryModel) -> bool {
    &&& T::decoded(h.present) is Some
    &&& forall|i: int| 0 <= i < h.past.len() ==> T::decoded(#[trigger] h.past[i]) is Some
    &&& forall|i: int| 0 <= i < h.future.len() ==> T::decoded(#[trigger] h.future[i]) is Some
}

/// The history after `k` steps back.
pub open spec fn stepped_back(h: HistoryModel, k: int) -> HistoryModel {
    let full = seq![h.present] + h.past;
    HistoryModel { past: full.skip(k + 1), present: full[k], future: full.take(k).reverse() + h.future }
}

/// The history after `k` steps forward.
pub open spec fn stepped_forward(h: HistoryModel, k: int) -> HistoryModel {
    let full = seq![h.present] + h.future;
    HistoryModel { past: full.take(k).reverse() + h.past, present: full[k], future: full.skip(k + 1) }
}

/// The history after `set(v)`: the present moves to the past and the
/// future is dropped.
pub open spec fn after_set(h: HistoryModel, v: Slot) -> HistoryModel {
    HistoryModel { past: seq![h.present] + h.past, present: v, future: Seq::empty() }
}

/// The history after one undo.
pub open spec fn undone(h: HistoryModel) -> HistoryModel {
    HistoryModel { past: h.past.drop_first(), present: h.past[0], future: seq![h.present] + h.future }
}

/// The history after one redo.
pub open spec fn redone(h: HistoryModel) -> HistoryModel {
    HistoryModel { past: seq![h.present] + h.past, present: h.future[0], future: h.future.drop_first() }
}

/// Undoing a `set` brings back the value before it, with the set value
/// as the only redo step.
pub proof fn lemma_undo_after_set(h: HistoryModel, v: Slot)
    ensures
        undone(after_set(h, v)) == (HistoryModel { past: h.past, present: h.present, future: seq![v] }),
{
    assert((seq![h.present] + h.past).drop_first() =~= h.past);
    assert(seq![v] + Seq::<Slot>::empty() =~= seq![v]);
}

/// Redo undoes an undo.
pub proof fn lemma_redo_after_undo(h: HistoryModel)
    requires
        h.past.len() > 0,
    ensures
        redone(undone(h)) == h,
{
    assert(seq![h.past[0]] + h.past.drop_first() =~= h.past);
    assert((seq![h.present] + h.future).drop_first() =~= h.future);
}

/// Undo undoes a redo.
pub proof fn lemma_undo_after_redo(h: HistoryModel)
    requires
        h.future.len() > 0,
    ensures
        undone(redone(h)) == h,
{
    assert(seq![h.future[0]] + h.future.drop_first() =~= h.future);
    assert((seq![h.present] + h.past).drop_first() =~= h.past);
}

/// A `set` leaves nothing to redo and one more step to undo.
pub proof fn lemma_set_clears_future(h: HistoryModel, v: Slot)
    ensures
        after_set(h, v).future.len() == 0,
        after_set(h, v).past.len() == h.past.len() + 1,
        after_set(h, v).present == v,
{
}

/// The cell holding a history.
pub open spec fn history_cell(past: Slot, present: Slot, future: Slot) -> Slot {
    Slot::Tagged(
        HISTORY_TAG,
        Box::new(Slot::Pair(Box::new(past), Box::new(Slot::Pair(Box::new(present), Box::new(future))))),
    )
}

fn make_history_cell(past: Slot, present: Slot, future: Slot) -> (r: Slot)
    ensures
        r == history_cell(past, present, future),
{
    Slot::Tagged(
        HISTORY_TAG,
        Box::new(Slot::Pair(Box::new(past), Box::new(Slot::Pair(Box::new(present), Box::new(future))))),
    )
}

/// Whether a cell is a well-formed cell list.
fn is_list(s: &Slot) -> (r: bool)
    ensures
        r == list_seq(*s) is Some,
    decreases s,
{
    match s {
        Slot::Nil => true,
        Slot::Cons(_, t) => is_list(&**t),
        _ => false,
    }
}

/// Every item of a cell list is a `T`.
pub open spec fn list_decodes<T: HookValue>(items: Seq<Slot>) -> bool {
    forall|i: int| 0 <= i < items.len() ==> T::decoded(#[trigger] items[i]) is Some
}

/// Whether every item of a cell list is a `T`.
fn list_all_decode<T: HookValue>(s: &Slot) -> (r: bool)
    requires
        list_seq(*s) is Some,
    ensures
        r == list_decodes::<T>(list_seq(*s)->0),
    decreases s,
{
    match s {
        Slot::Nil => true,
        Slot::Cons(h, t) => {
            let ok = T::decode(&**h).is_some();
            let rest = list_all_decode::<T>(&**t);
            proof {
                let tail = list_seq(**t)->0;
                let full = list_seq(*s)->0;
                assert(full == seq![**h] + tail);
                if ok && rest {
                    assert forall|i: int| 0 <= i < full.len() implies T::decoded(#[trigger] full[i]) is Some by {
                        if i > 0 {
                            assert(full[i] == tail[i - 1]);
                        }
                    }
                }
                if !ok {
                    assert(full[0] == **h);
                }
                if ok && !rest {
                    let i = choose|i: int| 0 <= i < tail.len() && T::decoded(#[trigger] tail[i]) is None;
                    assert(full[i + 1] == tail[i]);
                }
            }
            ok && rest
        },
        _ => false,
    }
}

/// Split a history cell into its past list, present value and future list.
fn split_history(s: &Slot) -> (r: Option<(Slot, Slot, Slot)>)
    ensures
        history_of(*s) is Some <==> r is Some,
        history_of(*s) is Some ==> *s == history_cell(r.unwrap().0, r.unwrap().1, r.unwrap().2),
        history_of(*s) is Some ==> list_seq(r.unwrap().0) == Some(history_of(*s)->0.past),
        history_of(*s) is Some ==> r.unwrap().1 == history_of(*s)->0.present,
        history_of(*s) is Some ==> list_seq(r.unwrap().2) == Some(history_of(*s)->0.future),
{
    match s {
        Slot::Tagged(t, b) => {
            if *t != HISTORY_TAG {
                return None;
            }
            match &**b {
                Slot::Pair(p, rest) => match &**rest {
                    Slot::Pair(present, f) => {
                        if is_list(&**p) && is_list(&**f) {
                            Some(((**p).duplicate(), (**present).duplicate(), (**f).duplicate()))
                        } else {
                            None
                        }
                    },
                    _ => None,
                },
                _ => None,
            }
        },
        _ => None,
    }
}

/// The number of elements of a cell list.
fn list_len(s: &Slot) -> (r: usize)
    requires
        list_seq(*s) is Some,
        list_seq(*s)->0.len() < usize::MAX,
    ensures
        r == list_seq(*s)->0.len(),
    decreases s,
{
    match s {
        Slot::Cons(_, t) => 1 + list_len(&**t),
        _ => 0,
    }
}

/// A handle to the history cell of a fiber.
pub struct HistoryHandle<T> {
    pub fiber_id: FiberId,
    pub hook_index: usize,
    pub marker: PhantomData<T>,
}

impl<T> Clone for HistoryHandle<T> {
    fn clone(&self) -> (r: Self)
        ensures
            r == *self,
    {
        HistoryHandle { fiber_id: self.fiber_id, hook_index: self.hook_index, marker: PhantomData }
    }
}

impl<T: HookValue> HistoryHandle<T> {
    /// The history cell exists and holds a history whose present value is a
    /// `T`.
    pub open spec fn valid(&self, tree: FiberTree) -> bool {
        &&& tree.wf()
        &&& self.hook_index < usize::MAX
        &&& tree.fibers@.contains_key(self.fiber_id.0)
        &&& self.hook_index < tree.fibers@[self.fiber_id.0].hooks@.len()
        &&& history_of(tree.fibers@[self.fiber_id.0].hooks@[self.hook_index as int]) is Some
        &&& T::decoded(self.model(tree).present) is Some
        &&& forall|i: int|
            0 <= i < self.model(tree).past.len() ==> T::decoded(#[trigger] self.model(tree).past[i]) is Some
        &&& forall|i: int|
            0 <= i < self.model(tree).future.len() ==> T::decoded(#[trigger] self.model(tree).future[i]) is Some
    }

    /// The history held by the cell.
    pub open spec fn model(&self, tree: FiberTree) -> HistoryModel {
        history_of(tree.fibers@[self.fiber_id.0].hooks@[self.hook_index as int])->0
    }

    /// `after` is `before` with the cell holding `h`; with `mark`, the new
    /// content is also queued in the batch as the last update, which marks
    /// the component for re-render, so the history survives when the batch
    /// applies; without `mark` the batch is unchanged.
    pub open spec fn stored(
        &self,
        before: FiberTree,
        after: FiberTree,
        b0: StateBatch,
        b1: StateBatch,
        h: HistoryModel,
        mark: bool,
    ) -> bool {
        &&& after.wf()
        &&& same_except_fiber(before, after, self.fiber_id)
        &&& after.fibers@[self.fiber_id.0].hooks@.len() == before.fibers@[self.fiber_id.0].hooks@.len()
        &&& forall|j: int|
            0 <= j < before.fibers@[self.fiber_id.0].hooks@.len() && j != self.hook_index
                ==> #[trigger] after.fibers@[self.fiber_id.0].hooks@[j]
                == before.fibers@[self.fiber_id.0].hooks@[j]
        &&& history_of(after.fibers@[self.fiber_id.0].hooks@[self.hook_index as int]) == Some(h)
        &&& mark ==> {
            &&& b1.updates@ == b0.updates@.push(
                PendingUpdate {
                    fiber_id: self.fiber_id,
                    hook_index: self.hook_index,
                    value: after.fibers@[self.fiber_id.0].hooks@[self.hook_index as int],
                },
            )
            &&& b1.dirty@ == (if b0.dirty@.contains(self.fiber_id) {
                b0.dirty@
            } else {
                b0.dirty@.push(self.fiber_id)
            })
            &&& b1.dirty@.contains(self.fiber_id)
            &&& b1.batching == b0.batching
        }
        &&& !mark ==> b1 == b0
    }

    fn store(&self, tree: &mut FiberTree, batch: &mut StateBatch, past: Slot, present: Slot, future: Slot, mark: bool)
        requires
            self.valid(*old(tree)),
            list_seq(past) is Some,
            list_seq(future) is Some,
        ensures
            self.stored(
                *old(tree),
                *final(tree),
                *old(batch),
                *final(batch),
                HistoryModel { past: list_seq(past)->0, present, future: list_seq(future)->0 },
                mark,
            ),
    {
        let cell = make_history_cell(past, present, future);
        if mark {
            batch.queue_value(self.fiber_id, self.hook_index, cell.duplicate());
        }
        tree.hook_write(self.fiber_id, self.hook_index, cell);
    }

    /// The present value.
    pub fn current(&self, tree: &FiberTree) -> (r: T)
        requires
            self.valid(*tree),
        ensures
            Some(r) == T::decoded(self.model(*tree).present),
    {
        let f = tree.get(self.fiber_id).unwrap();
        let (_, present, _) = split_history(&f.hooks[self.hook_index]).unwrap();
        T::decode(&present).unwrap()
    }

    /// Make `value` the present value; the previous present value becomes
    /// the most recent past value and the future is dropped.
    pub fn set(&self, tree: &mut FiberTree, batch: &mut StateBatch, value: T)
        requires
            self.valid(*old(tree)),
        ensures
            self.valid(*final(tree)),
            self.stored(
                *old(tree),
                *final(tree),
                *old(batch),
                *final(batch),
                after_set(self.model(*old(tree)), value.encoded()),
                true,
            ),
    {
        let f = tree.get(self.fiber_id).unwrap();
        let (past, present, _) = split_history(&f.hooks[self.hook_index]).unwrap();
        let new_past = Slot::Cons(Box::new(present), Box::new(past));
        self.store(tree, batch, new_past, value.encode(), Slot::Nil, true);
        proof {
            T::lemma_decode_encode(value);
        }
    }

    /// Step back: the most recent past value becomes the present value and
    /// the present value becomes the next future value. Returns whether
    /// there was a past value; without one nothing changes.
    pub fn undo(&self, tree: &mut FiberTree, batch: &mut StateBatch) -> (r: bool)
        requires
            self.valid(*old(tree)),
        ensures
            r == (self.model(*old(tree)).past.len() > 0),
            !r ==> *final(tree) == *old(tree) && *final(batch) == *old(batch),
            r ==> self.stored(
                *old(tree),
                *final(tree),
                *old(batch),
                *final(batch),
                undone(self.model(*old(tree))),
                true,
            ),
            self.valid(*final(tree)),
    {
        let f = tree.get(self.fiber_id).unwrap();
        let (past, present, future) = split_history(&f.hooks[self.hook_index]).unwrap();
        match past {
            Slot::Cons(h, t) => {
                let new_future = Slot::Cons(Box::new(present), Box::new(future));
                proof {
                    assert(list_seq(*t)->0 =~= self.model(*old(tree)).past.drop_first());
                    assert(T::decoded(self.model(*old(tree)).past[0]) is Some);
                }
                self.store(tree, batch, *t, *h, new_future, true);
                true
            },
            _ => false,
        }
    }

    /// Step forward: the next future value becomes the present value and the
    /// present value becomes the most recent past value. Returns whether
    /// there was a future value; without one nothing changes.
    pub fn redo(&self, tree: &mut FiberTree, batch: &mut StateBatch) -> (r: bool)
        requires
            self.valid(*old(tree)),
        ensures
            r == (self.model(*old(tree)).future.len() > 0),
            !r ==> *final(tree) == *old(tree) && *final(batch) == *old(batch),
            r ==> self.stored(
                *old(tree),
                *final(tree),
                *old(batch),
                *final(batch),
                redone(self.model(*old(tree))),
                true,
            ),
            self.valid(*final(tree)),
    {
        let f = tree.get(self.fiber_id).unwrap();
        let (past, present, future) = split_history(&f.hooks[self.hook_index]).unwrap();
        match future {
            Slot::Cons(h, t) => {
                let new_past = Slot::Cons(Box::new(present), Box::new(past));
                proof {
                    assert(list_seq(*t)->0 =~= self.model(*old(tree)).future.drop_first());
                    assert(T::decoded(self.model(*old(tree)).future[0]) is Some);
                }
                self.store(tree, batch, new_past, *h, *t, true);
                true
            },
            _ => false,
        }
    }

    /// Step back up to `steps` times, stopping when there is no past value.
    /// Returns the number of steps taken.
    pub fn go_back(&self, tree: &mut FiberTree, batch: &mut StateBatch, steps: usize) -> (r: usize)
        requires
            self.valid(*old(tree)),
        ensures
            self.valid(*final(tree)),
            r as int == (if steps < self.model(*old(tree)).past.len() {
                steps as int
            } else {
                self.model(*old(tree)).past.len() as int
            }),
            self.model(*final(tree)) == stepped_back(self.model(*old(tree)), r as int),
            same_except_fiber(*old(tree), *final(tree), self.fiber_id),
            r == 0 ==> *final(batch) == *old(batch),
            r > 0 ==> final(batch).dirty@.contains(self.fiber_id),
    {
        let ghost h0 = self.model(*tree);
        let mut taken: usize = 0;
        proof {
            assert(stepped_back(h0, 0) =~= h0) by {
                assert((seq![h0.present] + h0.past).skip(1) =~= h0.past);
                assert((seq![h0.present] + h0.past).take(0).reverse() + h0.future =~= h0.future);
            }
        }
        while taken < steps
            invariant
                self.valid(*tree),
                0 <= taken <= steps,
                taken <= h0.past.len(),
                self.model(*tree) == stepped_back(h0, taken as int),
                same_except_fiber(*old(tree), *tree, self.fiber_id),
                taken == 0 ==> *batch == *old(batch),
                taken > 0 ==> batch.dirty@.contains(self.fiber_id),
            ensures
                self.valid(*tree),
                self.model(*tree) == stepped_back(h0, taken as int),
                same_except_fiber(*old(tree), *tree, self.fiber_id),
                taken as int == (if steps < h0.past.len() { steps as int } else { h0.past.len() as int }),
                taken == 0 ==> *batch == *old(batch),
                taken > 0 ==> batch.dirty@.contains(self.fiber_id),
            decreases steps - taken,
        {
            let ghost before = *tree;
            if !self.undo(tree, batch) {
                break;
            }
            proof {
                let full = seq![h0.present] + h0.past;
                let k = taken as int;
                assert(self.model(*tree).past =~= full.skip(k + 2));
                assert(self.model(*tree).future =~= full.take(k + 1).reverse() + h0.future) by {
                    assert(full.take(k + 1) =~= full.take(k).push(full[k]));
                }
            }
            taken = taken + 1;
        }
        taken
    }

    /// Step forward up to `steps` times, stopping when there is no future
    /// value. Returns the number of steps taken.
    pub fn go_forward(&self, tree: &mut FiberTree, batch: &mut StateBatch, steps: usize) -> (r: usize)
        requires
            self.valid(*old(tree)),
        ensures
            self.valid(*final(tree)),
            r as int == (if steps < self.model(*old(tree)).future.len() {
                steps as int
            } else {
                self.model(*old(tree)).future.len() as int
            }),
            self.model(*final(tree)) == stepped_forward(self.model(*old(tree)), r as int),
            same_except_fiber(*old(tree), *final(tree), self.fiber_id),
            r == 0 ==> *final(batch) == *old(batch),
            r > 0 ==> final(batch).dirty@.contains(self.fiber_id),
    {
        let ghost h0 = self.model(*tree);
        let mut taken: usize = 0;
        proof {
            assert(stepped_forward(h0, 0) =~= h0) by {
                assert((seq![h0.present] + h0.future).skip(1) =~= h0.future);
                assert((seq![h0.present] + h0.future).take(0).reverse() + h0.past =~= h0.past);
            }
        }
        while taken < steps
            invariant
                self.valid(*tree),
                0 <= taken <= steps,
                taken <= h0.future.len(),
                self.model(*tree) == stepped_forward(h0, taken as int),
                same_except_fiber(*old(tree), *tree, self.fiber_id),
                taken == 0 ==> *batch == *old(batch),
                taken > 0 ==> batch.dirty@.contains(self.fiber_id),
            ensures
                self.valid(*tree),
                self.model(*tree) == stepped_forward(h0, taken as int),
                same_except_fiber(*old(tree), *tree, self.fiber_id),
                taken as int == (if steps < h0.future.len() { steps as int } else { h0.future.len() as int }),
                taken == 0 ==> *batch == *old(batch),
                taken > 0 ==> batch.dirty@.contains(self.fiber_id),
            decreases steps - taken,
        {
            if !self.redo(tree, batch) {
                break;
            }
            proof {
                let full = seq![h0.present] + h0.future;
                let k = taken as int;
                assert(self.model(*tree).future =~= full.skip(k + 2));
                assert(self.model(*tree).past =~= full.take(k + 1).reverse() + h0.past) by {
                    assert(full.take(k + 1) =~= full.take(k).push(full[k]));
                }
            }
            taken = taken + 1;
        }
        taken
    }

    /// Whether there is a past value to step back to.
    pub fn can_undo(&self, tree: &FiberTree) -> (r: bool)
        requires
            self.valid(*tree),
        ensures
            r == (self.model(*tree).past.len() > 0),
    {
        let f = tree.get(self.fiber_id).unwrap();
        let (past, _, _) = split_history(&f.hooks[self.hook_index]).unwrap();
        match past {
            Slot::Cons(_, _) => true,
            _ => false,
        }
    }

    /// Whether there is a future value to step forward to.
    pub fn can_redo(&self, tree: &FiberTree) -> (r: bool)
        requires
            self.valid(*tree),
        ensures
            r == (self.model(*tree).future.len() > 0),
    {
        let f = tree.get(self.fiber_id).unwrap();
        let (_, _, future) = split_history(&f.hooks[self.hook_index]).unwrap();
        match future {
            Slot::Cons(_, _) => true,
            _ => false,
        }
    }

    /// The number of past values.
    pub fn past_count(&self, tree: &FiberTree) -> (r: usize)
        requires
            self.valid(*tree),
            self.model(*tree).past.len() < usize::MAX,
        ensures
            r == self.model(*tree).past.len(),
    {
        let f = tree.get(self.fiber_id).unwrap();
        let (past, _, _) = split_history(&f.hooks[self.hook_index]).unwrap();
        list_len(&past)
    }

    /// The number of future values.
    pub fn future_count(&self, tree: &FiberTree) -> (r: usize)
        requires
            self.valid(*tree),
            self.model(*tree).future.len() < usize::MAX,
        ensures
            r == self.model(*tree).future.len(),
    {
        let f = tree.get(self.fiber_id).unwrap();
        let (_, _, future) = split_history(&f.hooks[self.hook_index]).unwrap();
        list_len(&future)
    }

    /// Drop the past and the future, keeping the present value. The
    /// component is not marked for re-render by this alone; when an update
    /// of the history is already queued, the cleared history is queued
    /// after it, so the clear stays when the batch applies.
    pub fn clear_history(&self, tree: &mut FiberTree, batch: &mut StateBatch)
        requires
            self.valid(*old(tree)),
        ensures
            self.valid(*final(tree)),
            self.stored(
                *old(tree),
                *final(tree),
                *old(batch),
                *final(batch),
                HistoryModel {
                    past: Seq::empty(),
                    present: self.model(*old(tree)).present,
                    future: Seq::empty(),
                },
                queued_value(old(batch).updates@, self.fiber_id, self.hook_index) is Some,
            ),
    {
        let f = tree.get(self.fiber_id).unwrap();
        let (_, present, _) = split_history(&f.hooks[self.hook_index]).unwrap();
        let pending = batch.has_queued(self.fiber_id, self.hook_index);
        self.store(tree, batch, Slot::Nil, present, Slot::Nil, pending);
    }
}

/// A history of values starting at the initializer's value on the first
/// render; a cell that does not hold a history of `T` values starts afresh.
pub fn use_history<T: HookValue, F: FnOnce() -> T>(tree: &mut FiberTree, initializer: F) -> (r: HistoryHandle<T>)
    requires
        old(tree).wf(),
        old(tree).hook_room(1),
        call_requires(initializer, ()),
    ensures
        final(tree).wf(),
        r.fiber_id == old(tree).current().unwrap(),
        r.hook_index == old(tree).current_hook_index(),
        same_except_fiber(*old(tree), *final(tree), r.fiber_id),
        r.valid(*final(tree)),
        final(tree).fibers@[r.fiber_id.0].hook_index == r.hook_index + 1,
        ({
            let c = old(tree).current().unwrap().0;
            let i = r.hook_index as int;
            let kept = 0 <= i < old(tree).fibers@[c].hooks@.len() && history_of(old(tree).fibers@[c].hooks@[i])
                is Some && history_decodes::<T>(history_of(old(tree).fibers@[c].hooks@[i])->0);
            &&& kept ==> r.model(*final(tree)) == history_of(old(tree).fibers@[c].hooks@[i])->0
            &&& !kept ==> r.model(*final(tree)).past.len() == 0 && r.model(*final(tree)).future.len() == 0
                && T::decoded(r.model(*final(tree)).present) is Some && call_ensures(initializer, (), T::decoded(r.model(*final(tree)).present).unwrap())
        }),
{
    let (id, idx) = tree.next_hook_untracked();
    let f = tree.get(id).unwrap();
    let present_history = if idx < f.hooks.len() {
        split_history(&f.hooks[idx])
    } else {
        None
    };
    let reusable = match &present_history {
        Some(parts) => T::decode(&parts.1).is_some() && list_all_decode::<T>(&parts.0) && list_all_decode::<T>(
            &parts.2,
        ),
        None => false,
    };
    match reusable {
        true => {},
        false => {
            let v = initializer();
            let cell = make_history_cell(Slot::Nil, v.encode(), Slot::Nil);
            proof {
                T::lemma_decode_encode(v);
                assert(list_seq(Slot::Nil) == Some(Seq::<Slot>::empty()));
                assert(history_of(cell) == Some(
                    HistoryModel { past: Seq::empty(), present: v.encoded(), future: Seq::empty() },
                ));
            }
            tree.hook_write(id, idx, cell);
        },
    }
    HistoryHandle { fiber_id: id, hook_index: idx, marker: PhantomData }
}

/// Through a handle: `set(v)` and then `undo()` leave the history as it was
/// before the set, with `v` as the only value to redo; `current` gives back
/// the value from before the set.
pub proof fn lemma_handle_set_then_undo<T: HookValue>(
    h: HistoryHandle<T>,
    t0: FiberTree,
    t1: FiberTree,
    t2: FiberTree,
    b0: StateBatch,
    b1: StateBatch,
    b2: StateBatch,
    v: T,
)
    requires
        h.valid(t0),
        h.stored(t0, t1, b0, b1, after_set(h.model(t0), v.encoded()), true),
        h.stored(t1, t2, b1, b2, undone(h.model(t1)), true),
    ensures
        h.model(t2) == (HistoryModel { past: h.model(t0).past, present: h.model(t0).present, future: seq![v.encoded()] }),
        h.model(t2).present == h.model(t0).present,
{
    lemma_undo_after_set(h.model(t0), v.encoded());
}

/// Through a handle: an `undo()` that succeeds followed by `redo()` brings
/// the history back as it was, so `current`, `past_count` and
/// `future_count` read as before.
pub proof fn lemma_handle_undo_then_redo<T: HookValue>(
    h: HistoryHandle<T>,
    t0: FiberTree,
    t1: FiberTree,
    t2: FiberTree,
    b0: StateBatch,
    b1: StateBatch,
    b2: StateBatch,
)
    requires
        h.valid(t0),
        h.model(t0).past.len() > 0,
        h.stored(t0, t1, b0, b1, undone(h.model(t0)), true),
        h.stored(t1, t2, b1, b2, redone(h.model(t1)), true),
    ensures
        h.model(t2) == h.model(t0),
{
    lemma_redo_after_undo(h.model(t0));
}

/// Through a handle: after `set(v)` the present is `v`, the past grows by
/// the old present and nothing is left to redo.
pub proof fn lemma_handle_set<T: HookValue>(
    h: HistoryHandle<T>,
    t0: FiberTree,
    t1: FiberTree,
    b0: StateBatch,
    b1: StateBatch,
    v: T,
)
    requires
        h.valid(t0),
        h.stored(t0, t1, b0, b1, after_set(h.model(t0), v.encoded()), true),
    ensures
        T::decoded(h.model(t1).present) == Some(v),
        h.model(t1).past == seq![h.model(t0).present] + h.model(t0).past,
        h.model(t1).future.len() == 0,
        b1.dirty@.contains(h.fiber_id),
{
    T::lemma_decode_encode(v);
}

} // verus!
