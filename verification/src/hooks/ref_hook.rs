//! Ref hook: a mutable cell that persists across renders.
//!
//! Reading or writing a ref goes straight to its hook cell and never marks
//! the component for re-render.
use crate::fiber::{Fiber, FiberId};
use crate::fiber_tree::{same_except_fiber, FiberTree};
use crate::slot::HookValue;
use std::marker::PhantomData;
use vstd::prelude::*;

verus! {

/// A handle to a ref cell of a fiber.
#[derive(Debug)]
pub struct Ref<T> {
    pub fiber_id: FiberId,
    pub hook_index: usize,
    pub marker: PhantomData<T>,
}

impl<T> Clone for Ref<T> {
    fn clone(&self) -> (r: Self)
        ensures
            r == *self,
    {
        Ref { fiber_id: self.fiber_id, hook_index: self.hook_index, marker: PhantomData }
    }
}

impl<T: HookValue> Ref<T> {
    /// The ref's cell exists and holds a `T`.
    pub open spec fn valid(&self, tree: FiberTree) -> bool {
        &&& tree.wf()
        &&& tree.fibers@.contains_key(self.fiber_id.0)
        &&& tree.fibers@[self.fiber_id.0].hook_value::<T>(self.hook_index as int) is Some
        &&& self.hook_index < usize::MAX
    }

    /// The current value of the ref.
    pub open spec fn value(&self, tree: FiberTree) -> T {
        tree.fibers@[self.fiber_id.0].hook_value::<T>(self.hook_index as int)->0
    }

    /// `after` is `before` with the ref holding `v`; nothing else changed,
    /// and in particular nothing is marked for re-render.
    pub open spec fn written(&self, before: FiberTree, after: FiberTree, v: T) -> bool {
        &&& after.wf()
        &&& same_except_fiber(before, after, self.fiber_id)
        &&& after.fibers@[self.fiber_id.0].hooks@ == before.fibers@[self.fiber_id.0].hooks@.update(
            self.hook_index as int,
            v.encoded(),
        )
        &&& after.fibers@[self.fiber_id.0] == (Fiber {
            hooks: after.fibers@[self.fiber_id.0].hooks,
            ..before.fibers@[self.fiber_id.0]
        })
    }

    fn write(&self, tree: &mut FiberTree, value: T)
        requires
            self.valid(*old(tree)),
        ensures
            self.written(*old(tree), *final(tree), value),
            self.valid(*final(tree)),
            self.value(*final(tree)) == value,
    {
        let f = tree.get_mut(self.fiber_id).unwrap();
        f.set_slot(self.hook_index, value.encode());
        proof {
            T::lemma_decode_encode(value);
            assert(tree.fibers@.dom() =~= old(tree).fibers@.dom());
        }
    }

    /// Get the current value.
    pub fn get(&self, tree: &FiberTree) -> (r: T)
        requires
            self.valid(*tree),
        ensures
            r == self.value(*tree),
    {
        let f = tree.get(self.fiber_id).unwrap();
        f.get_hook::<T>(self.hook_index).unwrap()
    }

    /// Set the value; the component is not re-rendered.
    pub fn set(&self, tree: &mut FiberTree, value: T)
        requires
            self.valid(*old(tree)),
        ensures
            self.written(*old(tree), *final(tree), value),
            self.valid(*final(tree)),
            self.value(*final(tree)) == value,
    {
        self.write(tree, value);
    }

    /// Update the value in place with `f`.
    pub fn update<F: FnOnce(&mut T)>(&self, tree: &mut FiberTree, f: F)
        requires
            self.valid(*old(tree)),
            forall|v: &mut T| call_requires(f, (v,)),
        ensures
            self.valid(*final(tree)),
            exists|v: T|
                #[trigger] self.written(*old(tree), *final(tree), v) && exists|m: &mut T|
                    *m == self.value(*old(tree)) && *final(m) == v && call_ensures(f, (m,), ()),
    {
        let mut v = self.get(tree);
        f(&mut v);
        self.write(tree, v);
    }

    /// Run `f` on the value and return its result.
    pub fn with<F: FnOnce(&T) -> R, R>(&self, tree: &FiberTree, f: F) -> (r: R)
        requires
            self.valid(*tree),
            call_requires(f, (&self.value(*tree),)),
        ensures
            call_ensures(f, (&self.value(*tree),), r),
    {
        let v = self.get(tree);
        f(&v)
    }

    /// Run `f` on the value with write access and return its result; what
    /// `f` leaves in the value is stored.
    pub fn with_mut<F: FnOnce(&mut T) -> R, R>(&self, tree: &mut FiberTree, f: F) -> (r: R)
        requires
            self.valid(*old(tree)),
            forall|v: &mut T| call_requires(f, (v,)),
        ensures
            self.valid(*final(tree)),
            exists|v: T|
                #[trigger] self.written(*old(tree), *final(tree), v) && exists|m: &mut T|
                    *m == self.value(*old(tree)) && *final(m) == v && call_ensures(f, (m,), r),
    {
        let mut v = self.get(tree);
        let r = f(&mut v);
        self.write(tree, v);
        r
    }

    /// Store a new value and return the previous one.
    pub fn replace(&self, tree: &mut FiberTree, new_value: T) -> (r: T)
        requires
            self.valid(*old(tree)),
        ensures
            r == self.value(*old(tree)),
            self.written(*old(tree), *final(tree), new_value),
            self.valid(*final(tree)),
    {
        let old_value = self.get(tree);
        self.write(tree, new_value);
        old_value
    }

    /// Take the value, leaving the default value of `T` in its place.
    pub fn take(&self, tree: &mut FiberTree) -> (r: T) where T: Default
        requires
            self.valid(*old(tree)),
        ensures
            r == self.value(*old(tree)),
            self.valid(*final(tree)),
            exists|v: T| #[trigger] self.written(*old(tree), *final(tree), v) && call_ensures(T::default, (), v),
    {
        let old_value = self.get(tree);
        self.write(tree, T::default());
        old_value
    }
}

/// A ref cell that persists across renders, initialized on the first render.
pub fn use_ref<T: HookValue, F: FnOnce() -> T>(tree: &mut FiberTree, initializer: F) -> (r: Ref<T>)
    requires
        old(tree).wf(),
        old(tree).hook_room(1),
        call_requires(initializer, ()),
    ensures
        final(tree).wf(),
        r.fiber_id == old(tree).current().unwrap(),
        r.hook_index == old(tree).current_hook_index(),
        same_except_fiber(*old(tree), *final(tree), r.fiber_id),
        r.valid(*final(tree)),
        old(tree).fibers@[r.fiber_id.0].existing_hook::<T>(r.hook_index as int) is Some ==> r.value(
            *final(tree),
        ) == old(tree).fibers@[r.fiber_id.0].existing_hook::<T>(r.hook_index as int)->0,
        old(tree).fibers@[r.fiber_id.0].existing_hook::<T>(r.hook_index as int) is None
            ==> call_ensures(initializer, (), r.value(*final(tree))),
        final(tree).fibers@[r.fiber_id.0].hook_index == r.hook_index + 1,
        final(tree).fibers@[r.fiber_id.0].hooks@.len() == (if r.hook_index < old(
            tree,
        ).fibers@[r.fiber_id.0].hooks@.len() {
            old(tree).fibers@[r.fiber_id.0].hooks@.len() as int
        } else {
            r.hook_index + 1
        }),
        forall|j: int|
            0 <= j < old(tree).fibers@[r.fiber_id.0].hooks@.len() && j != r.hook_index
                ==> #[trigger] final(tree).fibers@[r.fiber_id.0].hooks@[j] == old(
                tree,
            ).fibers@[r.fiber_id.0].hooks@[j],
{
    let (id, idx) = tree.next_hook_untracked();
    let _value = tree.hook_get_or_init(id, idx, initializer);
    Ref { fiber_id: id, hook_index: idx, marker: PhantomData }
}

} // verus!
