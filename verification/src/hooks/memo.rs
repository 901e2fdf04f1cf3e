//! Memoization.
//!
//! `use_memo` keeps a computed value with the dependencies it was computed
//! for, and recomputes it only when the dependencies change.
use crate::fiber::FiberId;
use crate::fiber_tree::{same_except_fiber, FiberTree};
use std::sync::Arc;
use crate::slot::HookValue;
use vstd::prelude::*;

verus! {

/// Whether dependencies changed between two renders: no dependencies on
/// either side means stable; one side without means changed; otherwise the
/// values are compared.
pub open spec fn deps_changed_spec<D: HookValue>(prev: Option<D>, curr: Option<D>) -> bool {
    match (prev, curr) {
        (None, None) => false,
        (Some(p), Some(c)) => !p.encoded().same(c.encoded()),
        _ => true,
    }
}

/// Unchanged dependencies (equal values, or none on both renders) never
/// count as changed, so a memoized value or callback is kept.
pub proof fn lemma_same_deps_stable<D: HookValue>(deps: Option<D>)
    ensures
        !deps_changed_spec(deps, deps),
{
    if let Some(d) = deps {
        crate::slot::lemma_same_refl(d.encoded());
    }
}

/// Dependencies that appear or disappear always count as changed.
pub proof fn lemma_deps_presence_change<D: HookValue>(d: D)
    ensures
        deps_changed_spec(Some(d), None),
        deps_changed_spec(None, Some(d)),
{
}

/// For dependencies compared by value, dependencies given on both renders
/// changed exactly when they differ.
pub proof fn lemma_deps_changed_iff_differ<D: HookValue>(previous: D, current: D)
    requires
        crate::slot::compared_by_value::<D>(),
    ensures
        deps_changed_spec(Some(previous), Some(current)) <==> previous != current,
{
    assert(previous.encoded().same(current.encoded()) <==> previous == current);
}

/// Text dependencies changed exactly when their characters differ.
pub proof fn lemma_text_deps_changed_iff_differ(previous: String, current: String)
    ensures
        deps_changed_spec(Some(previous), Some(current)) <==> previous@ != current@,
{
    crate::slot::lemma_text_compared_by_content(previous, current);
}

/// A stored value can be reused for these dependencies.
pub open spec fn memo_hit<T, D: HookValue>(stored: Option<(T, Option<D>)>, deps: Option<D>) -> bool {
    &&& stored is Some
    &&& !deps_changed_spec(stored.unwrap().1, deps)
}

/// Decide whether dependencies changed.
pub fn deps_changed<D: HookValue>(prev: &Option<D>, curr: &Option<D>) -> (r: bool)
    ensures
        r == deps_changed_spec(*prev, *curr),
{
    match (prev, curr) {
        (None, None) => false,
        (Some(p), Some(c)) => !p.encode().same_as(&c.encode()),
        _ => true,
    }
}

/// A value computed by `compute`, recomputed only when `deps` change.
pub fn use_memo<T: HookValue, D: HookValue, F: FnOnce() -> T>(tree: &mut FiberTree, compute: F, deps: Option<D>) -> (r: T)
    requires
        old(tree).wf(),
        old(tree).hook_room(1),
        call_requires(compute, ()),
    ensures
        final(tree).wf(),
        same_except_fiber(*old(tree), *final(tree), old(tree).current().unwrap()),
        final(tree).fibers@[old(tree).current().unwrap().0].hook_index == old(
            tree,
        ).current_hook_index() + 1,
        ({
            let stored = old(tree).fibers@[old(tree).current().unwrap().0].hook_value::<(T, Option<D>)>(
                old(tree).current_hook_index() as int,
            );
            &&& memo_hit(stored, deps) ==> r == stored.unwrap().0
            &&& !memo_hit(stored, deps) ==> call_ensures(
                compute,
                (),
                r,
            )
        }),
        final(tree).fibers@[old(tree).current().unwrap().0].hook_value::<(T, Option<D>)>(
            old(tree).current_hook_index() as int,
        ) is Some,
        final(tree).fibers@[old(tree).current().unwrap().0].hook_value::<(T, Option<D>)>(
            old(tree).current_hook_index() as int,
        ).unwrap().0 == r,
        !memo_hit(
            old(tree).fibers@[old(tree).current().unwrap().0].hook_value::<(T, Option<D>)>(
                old(tree).current_hook_index() as int,
            ),
            deps,
        ) ==> final(tree).fibers@[old(tree).current().unwrap().0].hook_value::<(T, Option<D>)>(
            old(tree).current_hook_index() as int,
        ) == Some((r, deps)),
        memo_hit(
            old(tree).fibers@[old(tree).current().unwrap().0].hook_value::<(T, Option<D>)>(
                old(tree).current_hook_index() as int,
            ),
            deps,
        ) ==> final(tree).fibers@[old(tree).current().unwrap().0].hooks
            == old(tree).fibers@[old(tree).current().unwrap().0].hooks,
{
    let (id, idx) = tree.next_hook_untracked();
    let existing: Option<(T, Option<D>)> = tree.get(id).unwrap().get_hook(idx);
    match existing {
        Some(storage) => {
            if deps_changed(&storage.1, &deps) {
                let value = compute();
                let fresh = (value, deps);
                tree.hook_write(id, idx, fresh.encode());
                proof {
                    <(T, Option<D>)>::lemma_decode_encode(fresh);
                }
                fresh.0
            } else {
                storage.0
            }
        },
        None => {
            let value = compute();
            let fresh = (value, deps);
            tree.hook_write(id, idx, fresh.encode());
            proof {
                <(T, Option<D>)>::lemma_decode_encode(fresh);
            }
            fresh.0
        },
    }
}

/// Calls `<Arc<F> as Clone>::clone`. Trusted: the clone points to the same
/// value.
#[verifier::external_body]
fn share<F>(a: &Arc<F>) -> (r: Arc<F>)
    ensures
        *r == **a,
{
    Arc::clone(a)
}

/// The callbacks kept by `use_callback` for one kind of callback, by
/// fiber and hook.
pub struct CallbackStore<F> {
    pub entries: Vec<(FiberId, usize, Arc<F>)>,
}

/// The callback kept for a hook, if any (the last one stored).
pub open spec fn kept_callback<F>(entries: Seq<(FiberId, usize, Arc<F>)>, fiber_id: FiberId, hook_index: usize) -> Option<F>
    decreases entries.len(),
{
    if entries.len() == 0 {
        None
    } else if entries.last().0 == fiber_id && entries.last().1 == hook_index {
        Some(*entries.last().2)
    } else {
        kept_callback(entries.drop_last(), fiber_id, hook_index)
    }
}

/// Replacing the last entry of a hook makes it the hook's callback and
/// keeps the callbacks of the other hooks.
proof fn lemma_kept_after_replace<F>(
    s: Seq<(FiberId, usize, Arc<F>)>,
    i: int,
    e: (FiberId, usize, Arc<F>),
    fiber_id: FiberId,
    hook_index: usize,
)
    requires
        0 <= i < s.len(),
        s[i].0 == e.0 && s[i].1 == e.1,
        forall|j: int| i < j < s.len() ==> !(#[trigger] s[j].0 == e.0 && s[j].1 == e.1),
    ensures
        (fiber_id == e.0 && hook_index == e.1) ==> kept_callback(s.update(i, e), fiber_id, hook_index) == Some(*e.2),
        !(fiber_id == e.0 && hook_index == e.1) ==> kept_callback(s.update(i, e), fiber_id, hook_index)
            == kept_callback(s, fiber_id, hook_index),
    decreases s.len(),
{
    let u = s.update(i, e);
    if i == s.len() - 1 {
        assert(u.drop_last() =~= s.drop_last());
    } else {
        assert(u.drop_last() =~= s.drop_last().update(i, e));
        assert(u.last() == s.last());
        assert(!(s.last().0 == e.0 && s.last().1 == e.1));
        lemma_kept_after_replace(s.drop_last(), i, e, fiber_id, hook_index);
    }
}

impl<F> CallbackStore<F> {
    /// Keep `callback` for a hook, in place of the one kept before.
    pub fn put(&mut self, fiber_id: FiberId, hook_index: usize, callback: F)
        ensures
            final(self).kept(fiber_id, hook_index) == Some(callback),
            forall|f: FiberId, h: usize|
                !(f == fiber_id && h == hook_index) ==> #[trigger] final(self).kept(f, h) == old(self).kept(f, h),
    {
        let mut i: usize = self.entries.len();
        while i > 0
            invariant
                i <= self.entries@.len(),
                self.entries@ == old(self).entries@,
                forall|j: int| i <= j < self.entries@.len() ==> !(#[trigger] self.entries@[j].0 == fiber_id
                    && self.entries@[j].1 == hook_index),
            decreases i,
        {
            if self.entries[i - 1].0 == fiber_id && self.entries[i - 1].1 == hook_index {
                let e = (fiber_id, hook_index, Arc::new(callback));
                let ghost s = self.entries@;
                self.entries.set(i - 1, e);
                proof {
                    assert forall|f: FiberId, h: usize| #[trigger] kept_callback(self.entries@, f, h) == (if f == fiber_id && h
                        == hook_index {
                        Some(*e.2)
                    } else {
                        kept_callback(s, f, h)
                    }) by {
                        lemma_kept_after_replace(s, i - 1, e, f, h);
                    }
                }
                return;
            }
            i = i - 1;
        }
        let ghost s = self.entries@;
        self.entries.push((fiber_id, hook_index, Arc::new(callback)));
        proof {
            assert(self.entries@.drop_last() =~= s);
        }
    }

    /// No callbacks.
    pub fn new() -> (r: Self)
        ensures
            r.entries@.len() == 0,
    {
        CallbackStore { entries: Vec::new() }
    }

    /// The callback kept for a hook.
    pub open spec fn kept(&self, fiber_id: FiberId, hook_index: usize) -> Option<F> {
        kept_callback(self.entries@, fiber_id, hook_index)
    }

    /// The callback kept for a hook, shared.
    pub fn find(&self, fiber_id: FiberId, hook_index: usize) -> (r: Option<Arc<F>>)
        ensures
            match r {
                Some(a) => self.kept(fiber_id, hook_index) == Some(*a),
                None => self.kept(fiber_id, hook_index) is None,
            },
    {
        let mut i: usize = self.entries.len();
        proof {
            assert(self.entries@.take(i as int) =~= self.entries@);
        }
        while i > 0
            invariant
                i <= self.entries@.len(),
                kept_callback(self.entries@, fiber_id, hook_index) == kept_callback(
                    self.entries@.take(i as int),
                    fiber_id,
                    hook_index,
                ),
            decreases i,
        {
            proof {
                assert(self.entries@.take(i as int).drop_last() =~= self.entries@.take(i - 1));
            }
            let e = &self.entries[i - 1];
            if e.0 == fiber_id && e.1 == hook_index {
                return Some(share(&e.2));
            }
            i = i - 1;
        }
        proof {
            assert(self.entries@.take(0) =~= Seq::<(FiberId, usize, Arc<F>)>::empty());
        }
        None
    }
}

/// A callback kept across renders: the one stored before while `deps` are
/// unchanged, otherwise `callback`, which is stored with `deps`.
pub fn use_callback<F, D: HookValue>(
    tree: &mut FiberTree,
    store: &mut CallbackStore<F>,
    callback: F,
    deps: Option<D>,
) -> (r: Arc<F>)
    requires
        old(tree).wf(),
        old(tree).hook_room(1),
    ensures
        final(tree).wf(),
        same_except_fiber(*old(tree), *final(tree), old(tree).current().unwrap()),
        ({
            let id = old(tree).current().unwrap();
            let idx = old(tree).current_hook_index();
            let prev = old(tree).fibers@[id.0].hook_value::<Option<D>>(idx as int);
            let kept = old(store).kept(id, idx);
            let hit = prev is Some && kept is Some && !deps_changed_spec(prev->0, deps);
            &&& final(tree).fibers@[id.0].hook_index == idx + 1
            &&& hit ==> *r == kept->0 && *final(store) == *old(store)
            &&& !hit ==> *r == callback && final(store).kept(id, idx) == Some(callback)
                && final(tree).fibers@[id.0].hook_value::<Option<D>>(idx as int) == Some(deps)
        }),
{
    let (id, idx) = tree.next_hook_untracked();
    let prev: Option<Option<D>> = tree.get(id).unwrap().get_hook(idx);
    let kept = store.find(id, idx);
    let hit = match (&prev, &kept) {
        (Some(p), Some(_)) => !deps_changed(p, &deps),
        _ => false,
    };
    if hit {
        kept.unwrap()
    } else {
        let slot = deps.encode();
        tree.hook_write(id, idx, slot);
        proof {
            <Option<D>>::lemma_decode_encode(deps);
        }
        let fresh = Arc::new(callback);
        let ghost before = store.entries@;
        store.entries.push((id, idx, share(&fresh)));
        proof {
            assert(store.entries@.drop_last() =~= before);
        }
        fresh
    }
}

} // verus!
