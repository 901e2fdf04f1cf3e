//! Fiber node representing a mounted component instance.
//!
//! Each fiber keeps its own hook cells, the names of the hooks called in the
//! current and the previous render, and its place in the tree.
use crate::slot::{HookValue, Slot};
use vstd::prelude::*;

verus! {

/// Unique identifier for a component instance.
#[derive(Clone, Copy, PartialEq, Eq, Hash, Debug, Structural)]
pub struct FiberId(pub u64);

/// A pending effect to be executed after commit.
pub struct PendingEffect<E> {
    /// The effect to execute.
    pub effect: E,
    /// Index of this effect within the fiber's hooks.
    pub hook_index: usize,
}

/// A pending asynchronous effect to be executed after commit.
pub struct AsyncPendingEffect<E> {
    /// The asynchronous effect to execute.
    pub effect: E,
    /// Index of this effect within the fiber's hooks.
    pub hook_index: usize,
}

/// A difference between the hooks called in two consecutive renders.
#[derive(Debug)]
pub enum HookOrderWarning {
    /// A different number of hooks was called.
    CountChanged { previous_count: usize, current_count: usize },
    /// The hook at `hook_index` is of another kind than in the previous render.
    OrderChanged { hook_index: usize, previous_hook: String, current_hook: String },
}

/// A mounted component instance with its own hook state.
pub struct Fiber {
    /// Unique identifier for this instance.
    pub id: FiberId,
    /// One cell per hook, in call order.
    pub hooks: Vec<Slot>,
    /// Index of the next hook during a render.
    pub hook_index: usize,
    /// Tags of the context types this component provides.
    pub provided_contexts: Vec<u64>,
    /// Parent fiber.
    pub parent: Option<FiberId>,
    /// Child fibers.
    pub children: Vec<FiberId>,
    /// Whether this component needs a re-render.
    pub dirty: bool,
    /// Component key for reconciliation.
    pub key: Option<String>,
    /// Names of the hooks called in the previous render.
    pub previous_hook_types: Vec<String>,
    /// Names of the hooks called in the current render.
    pub current_hook_types: Vec<String>,
}

/// The warnings that comparing two renders' hook names produces.
pub open spec fn hook_order_warnings(previous: Seq<Seq<char>>, current: Seq<Seq<char>>) -> Seq<(int, Seq<char>, Seq<char>)> {
    Seq::new(previous.len(), |i: int| (i, previous[i], current[i])).filter(
        |w: (int, Seq<char>, Seq<char>)| w.1 != w.2,
    )
}

/// A render that calls the same hooks in the same order as the previous
/// one produces no warning.
pub proof fn lemma_same_hooks_no_warning(names: Seq<Seq<char>>)
    ensures
        hook_order_warnings(names, names).len() == 0,
{
    let all = Seq::new(names.len(), |i: int| (i, names[i], names[i]));
    let pred = |w: (int, Seq<char>, Seq<char>)| w.1 != w.2;
    assert(all.filter(pred) =~= Seq::<(int, Seq<char>, Seq<char>)>::empty()) by {
        if all.filter(pred).len() > 0 {
            let w = all.filter(pred)[0];
            assert(all.filter(pred).contains(w));
            all.lemma_filter_contains_rev(pred, w);
        }
    }
}

/// The hook names of a list of names.
pub open spec fn names(v: Seq<String>) -> Seq<Seq<char>> {
    v.map_values(|s: String| s@)
}

impl Fiber {
    /// The cell at `index` read as a `T`, if the cell exists and holds a `T`.
    pub open spec fn hook_value<T: HookValue>(&self, index: int) -> Option<T> {
        if 0 <= index < self.hooks@.len() {
            T::decoded(self.hooks@[index])
        } else {
            None
        }
    }

    /// What `get_or_init_hook` finds at `index`: the cell read as a `T`, or,
    /// past the end, the unit placeholder read as a `T`.
    pub open spec fn existing_hook<T: HookValue>(&self, index: int) -> Option<T> {
        if 0 <= index < self.hooks@.len() {
            T::decoded(self.hooks@[index])
        } else {
            T::decoded(Slot::Unit)
        }
    }

    /// The cells after writing `slot` at `index`, with unit placeholders
    /// filling any gap.
    pub open spec fn hooks_after_write(hooks: Seq<Slot>, index: int, slot: Slot) -> Seq<Slot> {
        if index < hooks.len() {
            hooks.update(index, slot)
        } else {
            hooks + Seq::new((index - hooks.len()) as nat, |i: int| Slot::Unit) + seq![slot]
        }
    }

    /// Create a new fiber with the given ID.
    pub fn new(id: FiberId, parent: Option<FiberId>, key: Option<String>) -> (f: Self)
        ensures
            f.id == id,
            f.parent == parent,
            f.key == key,
            f.hooks@.len() == 0,
            f.hook_index == 0,
            f.provided_contexts@.len() == 0,
            f.children@.len() == 0,
            f.dirty,
            f.previous_hook_types@.len() == 0,
            f.current_hook_types@.len() == 0,
    {
        Fiber {
            id,
            hooks: Vec::new(),
            hook_index: 0,
            provided_contexts: Vec::new(),
            parent,
            children: Vec::new(),
            dirty: true,
            key,
            previous_hook_types: Vec::new(),
            current_hook_types: Vec::new(),
        }
    }

    /// Get the next hook index and increment the counter.
    pub fn next_hook_index(&mut self) -> (index: usize)
        requires
            old(self).hook_index < usize::MAX,
        ensures
            index == old(self).hook_index,
            final(self).hook_index == old(self).hook_index + 1,
            final(self).id == old(self).id,
            final(self).hooks == old(self).hooks,
            final(self).provided_contexts == old(self).provided_contexts,
            final(self).parent == old(self).parent,
            final(self).children == old(self).children,
            final(self).dirty == old(self).dirty,
            final(self).key == old(self).key,
            final(self).previous_hook_types == old(self).previous_hook_types,
            final(self).current_hook_types == old(self).current_hook_types,
    {
        let index = self.hook_index;
        self.hook_index = self.hook_index + 1;
        index
    }

    /// Reset the hook index for a new render pass; the names of this
    /// render's hooks become the previous render's.
    pub fn reset_hook_index(&mut self)
        ensures
            final(self).hook_index == 0,
            final(self).previous_hook_types == old(self).current_hook_types,
            final(self).current_hook_types@.len() == 0,
            final(self).id == old(self).id,
            final(self).hooks == old(self).hooks,
            final(self).provided_contexts == old(self).provided_contexts,
            final(self).parent == old(self).parent,
            final(self).children == old(self).children,
            final(self).dirty == old(self).dirty,
            final(self).key == old(self).key,
    {
        self.hook_index = 0;
        let mut current: Vec<String> = Vec::new();
        std::mem::swap(&mut current, &mut self.current_hook_types);
        self.previous_hook_types = current;
    }

    /// Record the name of a hook called during the current render.
    pub fn track_hook_call(&mut self, hook_name: &str)
        ensures
            names(final(self).current_hook_types@) == names(old(self).current_hook_types@).push(
                hook_name@,
            ),
            final(self).current_hook_types@.len() == old(self).current_hook_types@.len() + 1,
            final(self).hook_index == old(self).hook_index,
            final(self).previous_hook_types == old(self).previous_hook_types,
            final(self).id == old(self).id,
            final(self).hooks == old(self).hooks,
            final(self).provided_contexts == old(self).provided_contexts,
            final(self).parent == old(self).parent,
            final(self).children == old(self).children,
            final(self).dirty == old(self).dirty,
            final(self).key == old(self).key,
    {
        let name = hook_name.to_owned();
        self.current_hook_types.push(name);
        proof {
            assert(names(self.current_hook_types@) =~= names(old(self).current_hook_types@).push(
                hook_name@,
            ));
        }
    }

    /// Compare the hooks called in this render with those of the previous
    /// one. Nothing is reported on a first render; a change of count is
    /// reported alone; otherwise each position whose hook changed is
    /// reported, in order.
    pub fn check_hook_order(&self) -> (warnings: Vec<HookOrderWarning>)
        ensures
            self.previous_hook_types@.len() == 0 ==> warnings@.len() == 0,
            self.previous_hook_types@.len() != 0 && self.current_hook_types@.len()
                != self.previous_hook_types@.len() ==> warnings@ == seq![
                HookOrderWarning::CountChanged {
                    previous_count: self.previous_hook_types@.len() as usize,
                    current_count: self.current_hook_types@.len() as usize,
                },
            ],
            self.previous_hook_types@.len() != 0 && self.current_hook_types@.len()
                == self.previous_hook_types@.len() ==> {
                &&& warnings@.len() == hook_order_warnings(
                    names(self.previous_hook_types@),
                    names(self.current_hook_types@),
                ).len()
                &&& forall|k: int|
                    0 <= k < warnings@.len() ==> match #[trigger] warnings@[k] {
                        HookOrderWarning::OrderChanged {
                            hook_index,
                            previous_hook,
                            current_hook,
                        } => {
                            let w = hook_order_warnings(
                                names(self.previous_hook_types@),
                                names(self.current_hook_types@),
                            )[k];
                            hook_index == w.0 && previous_hook@ == w.1 && current_hook@ == w.2
                        },
                        _ => false,
                    }
            },
    {
        let mut warnings: Vec<HookOrderWarning> = Vec::new();
        let n = self.previous_hook_types.len();
        if n == 0 {
            return warnings;
        }
        if self.current_hook_types.len() != n {
            warnings.push(
                HookOrderWarning::CountChanged {
                    previous_count: n,
                    current_count: self.current_hook_types.len(),
                },
            );
            return warnings;
        }
        let ghost prev = names(self.previous_hook_types@);
        let ghost cur = names(self.current_hook_types@);
        let ghost all = Seq::new(prev.len(), |i: int| (i, prev[i], cur[i]));
        let ghost pred = |w: (int, Seq<char>, Seq<char>)| w.1 != w.2;
        let mut i: usize = 0;
        while i < n
            invariant
                n == self.previous_hook_types@.len(),
                n == self.current_hook_types@.len(),
                0 <= i <= n,
                prev == names(self.previous_hook_types@),
                cur == names(self.current_hook_types@),
                all == Seq::new(prev.len(), |i: int| (i, prev[i], cur[i])),
                pred == (|w: (int, Seq<char>, Seq<char>)| w.1 != w.2),
                warnings@.len() == all.take(i as int).filter(pred).len(),
                forall|k: int|
                    0 <= k < warnings@.len() ==> match #[trigger] warnings@[k] {
                        HookOrderWarning::OrderChanged {
                            hook_index,
                            previous_hook,
                            current_hook,
                        } => {
                            let w = all.take(i as int).filter(pred)[k];
                            hook_index == w.0 && previous_hook@ == w.1 && current_hook@ == w.2
                        },
                        _ => false,
                    },
            decreases n - i,
        {
            proof {
                assert(all.take(i + 1) =~= all.take(i as int).push(all[i as int]));
                all.take(i as int).lemma_filter_push(all[i as int], pred);
            }
            let current = &self.current_hook_types[i];
            let previous = &self.previous_hook_types[i];
            if *current != *previous {
                warnings.push(
                    HookOrderWarning::OrderChanged {
                        hook_index: i,
                        previous_hook: previous.clone(),
                        current_hook: current.clone(),
                    },
                );
            }
            i = i + 1;
        }
        proof {
            assert(all.take(n as int) =~= all);
        }
        warnings
    }

    /// Get the value of the hook at `index`, if the cell holds a `T`.
    pub fn get_hook<T: HookValue>(&self, index: usize) -> (r: Option<T>)
        ensures
            r == self.hook_value::<T>(index as int),
    {
        if index < self.hooks.len() {
            T::decode(&self.hooks[index])
        } else {
            None
        }
    }

    /// Write a cell, growing the cell list with unit placeholders as needed.
    pub fn set_slot(&mut self, index: usize, slot: Slot)
        requires
            index < usize::MAX,
        ensures
            final(self).hooks@ == Self::hooks_after_write(old(self).hooks@, index as int, slot),
            final(self).hook_index == old(self).hook_index,
            final(self).id == old(self).id,
            final(self).provided_contexts == old(self).provided_contexts,
            final(self).parent == old(self).parent,
            final(self).children == old(self).children,
            final(self).dirty == old(self).dirty,
            final(self).key == old(self).key,
            final(self).previous_hook_types == old(self).previous_hook_types,
            final(self).current_hook_types == old(self).current_hook_types,
    {
        let mut hooks: Vec<Slot> = Vec::new();
        std::mem::swap(&mut hooks, &mut self.hooks);
        write_cell(&mut hooks, index, slot);
        self.hooks = hooks;
    }

    /// Set the value of the hook at `index`.
    pub fn set_hook_value<T: HookValue>(&mut self, index: usize, value: T)
        requires
            index < usize::MAX,
        ensures
            final(self).hooks@ == Self::hooks_after_write(
                old(self).hooks@,
                index as int,
                value.encoded(),
            ),
            final(self).hook_value::<T>(index as int) == Some(value),
            final(self).hook_index == old(self).hook_index,
            final(self).id == old(self).id,
            final(self).provided_contexts == old(self).provided_contexts,
            final(self).parent == old(self).parent,
            final(self).children == old(self).children,
            final(self).dirty == old(self).dirty,
            final(self).key == old(self).key,
            final(self).previous_hook_types == old(self).previous_hook_types,
            final(self).current_hook_types == old(self).current_hook_types,
    {
        let slot = value.encode();
        self.set_slot(index, slot);
        proof {
            T::lemma_decode_encode(value);
        }
    }

    /// Get the value of the hook at `index`, storing `value` when the cell
    /// does not hold a `T`.
    pub fn get_or_insert_hook<T: HookValue>(&mut self, index: usize, value: T) -> (r: T)
        requires
            index < usize::MAX,
        ensures
            old(self).existing_hook::<T>(index as int) is Some ==> {
                &&& r == old(self).existing_hook::<T>(index as int)->0
                &&& final(self).hooks@ == if index < old(self).hooks@.len() {
                    old(self).hooks@
                } else {
                    Self::hooks_after_write(old(self).hooks@, index as int, Slot::Unit)
                }
            },
            old(self).existing_hook::<T>(index as int) is None ==> {
                &&& r == value
                &&& final(self).hooks@ == Self::hooks_after_write(
                    old(self).hooks@,
                    index as int,
                    value.encoded(),
                )
            },
            final(self).hook_value::<T>(index as int) == Some(r),
            final(self).hook_index == old(self).hook_index,
            final(self).id == old(self).id,
            final(self).provided_contexts == old(self).provided_contexts,
            final(self).parent == old(self).parent,
            final(self).children == old(self).children,
            final(self).dirty == old(self).dirty,
            final(self).key == old(self).key,
            final(self).previous_hook_types == old(self).previous_hook_types,
            final(self).current_hook_types == old(self).current_hook_types,
    {
        if index >= self.hooks.len() {
            self.set_slot(index, Slot::Unit);
        }
        match T::decode(&self.hooks[index]) {
            Some(v) => v,
            None => {
                let slot = value.encode();
                self.hooks.set(index, slot);
                proof {
                    T::lemma_decode_encode(value);
                }
                value
            },
        }
    }

    /// Get the value of the hook at `index`, initializing the cell when it
    /// does not hold a `T`.
    pub fn get_or_init_hook<T: HookValue, F: FnOnce() -> T>(&mut self, index: usize, initializer: F) -> (r: T)
        requires
            index < usize::MAX,
            call_requires(initializer, ()),
        ensures
            old(self).existing_hook::<T>(index as int) is Some ==> {
                &&& r == old(self).existing_hook::<T>(index as int)->0
                &&& final(self).hooks@ == if index < old(self).hooks@.len() {
                    old(self).hooks@
                } else {
                    Self::hooks_after_write(old(self).hooks@, index as int, Slot::Unit)
                }
            },
            old(self).existing_hook::<T>(index as int) is None ==> {
                &&& call_ensures(initializer, (), r)
                &&& final(self).hooks@ == Self::hooks_after_write(
                    old(self).hooks@,
                    index as int,
                    r.encoded(),
                )
            },
            final(self).hook_value::<T>(index as int) == Some(r),
            final(self).hook_index == old(self).hook_index,
            final(self).id == old(self).id,
            final(self).provided_contexts == old(self).provided_contexts,
            final(self).parent == old(self).parent,
            final(self).children == old(self).children,
            final(self).dirty == old(self).dirty,
            final(self).key == old(self).key,
            final(self).previous_hook_types == old(self).previous_hook_types,
            final(self).current_hook_types == old(self).current_hook_types,
    {
        if index >= self.hooks.len() {
            self.set_slot(index, Slot::Unit);
        }
        match T::decode(&self.hooks[index]) {
            Some(v) => v,
            None => {
                let v = initializer();
                let slot = v.encode();
                self.hooks.set(index, slot);
                proof {
                    T::lemma_decode_encode(v);
                }
                v
            },
        }
    }
}

/// Writes `slot` at `index`, growing the list with unit placeholders.
fn write_cell(hooks: &mut Vec<Slot>, index: usize, slot: Slot)
    requires
        index < usize::MAX,
    ensures
        final(hooks)@ == Fiber::hooks_after_write(old(hooks)@, index as int, slot),
{
    if index < hooks.len() {
        hooks.set(index, slot);
    } else {
        let ghost start = hooks@;
        while hooks.len() < index
            invariant
                start.len() <= hooks@.len() <= index,
                hooks@ == start + Seq::new((hooks@.len() - start.len()) as nat, |i: int| Slot::Unit),
            decreases index - hooks@.len(),
        {
            hooks.push(Slot::Unit);
            proof {
                assert(hooks@ =~= start + Seq::new(
                    (hooks@.len() - start.len()) as nat,
                    |i: int| Slot::Unit,
                ));
            }
        }
        hooks.push(slot);
    }
}

} // verus!
