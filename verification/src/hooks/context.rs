//! Context hooks: a component provides a value of some type, and the
//! components rendered below it read the most recently provided value of
//! that type.
use crate::context_stack::{context_of, entry_of, ContextStack};
use crate::fiber_tree::{same_except_fiber, FiberTree};
use crate::slot::HookValue;
use vstd::prelude::*;

verus! {

/// Provide a value of type `T` from the current component. The first
/// render creates the value, stores it in a hook cell, pushes it on the
/// context stack and records the type among the fiber's provided contexts;
/// later renders return the stored value and change nothing else.
pub fn use_context_provider_v2<T: HookValue, F: FnOnce() -> T>(
    tree: &mut FiberTree,
    contexts: &mut ContextStack,
    create_value: F,
) -> (r: T)
    requires
        old(tree).wf(),
        old(tree).hook_room(1),
        call_requires(create_value, ()),
    ensures
        final(tree).wf(),
        same_except_fiber(*old(tree), *final(tree), old(tree).current().unwrap()),
        ({
            let id = old(tree).current().unwrap();
            let idx = old(tree).current_hook_index();
            let before = old(tree).fibers@[id.0];
            let after = final(tree).fibers@[id.0];
            &&& after.hook_index == idx + 1
            &&& after.hook_value::<T>(idx as int) == Some(r)
            &&& before.hook_value::<T>(idx as int) is Some ==> {
                &&& r == before.hook_value::<T>(idx as int)->0
                &&& after.hooks == before.hooks
                &&& after.provided_contexts == before.provided_contexts
                &&& *final(contexts) == *old(contexts)
            }
            &&& before.hook_value::<T>(idx as int) is None ==> {
                &&& call_ensures(create_value, (), r)
                &&& final(contexts).entries@ == old(contexts).entries@.push(entry_of(id, r))
                &&& after.provided_contexts@ == (if before.provided_contexts@.contains(T::tag()) {
                    before.provided_contexts@
                } else {
                    before.provided_contexts@.push(T::tag())
                })
            }
        }),
{
    let (id, idx) = tree.next_hook_untracked();
    let existing: Option<T> = tree.get(id).unwrap().get_hook::<T>(idx);
    match existing {
        Some(v) => v,
        None => {
            let value = create_value();
            let slot = value.encode();
            tree.hook_write(id, idx, slot);
            proof {
                T::lemma_decode_encode(value);
            }
            let copy = T::decode(&value.encode()).unwrap();
            contexts.push_context(id, copy);
            tree.note_provided_context(id, T::type_tag());
            value
        },
    }
}

/// The most recently provided value of type `T`; a provider must exist.
pub fn use_context_v2<T: HookValue>(contexts: &ContextStack) -> (r: T)
    requires
        context_of::<T>(contexts.entries@) is Some,
    ensures
        r == context_of::<T>(contexts.entries@)->0,
{
    contexts.get_context::<T>().expect("No provider found for context type")
}

/// The most recently provided value of type `T`, if any.
pub fn try_use_context_v2<T: HookValue>(contexts: &ContextStack) -> (r: Option<T>)
    ensures
        r == context_of::<T>(contexts.entries@),
{
    contexts.get_context::<T>()
}

/// Provide an already made value of type `T` from the current component,
/// as `use_context_provider_v2` provides a created one.
pub(crate) fn provide_value<T: HookValue>(tree: &mut FiberTree, contexts: &mut ContextStack, value: T) -> (r: T)
    requires
        old(tree).wf(),
        old(tree).hook_room(1),
    ensures
        final(tree).wf(),
        same_except_fiber(*old(tree), *final(tree), old(tree).current().unwrap()),
        ({
            let id = old(tree).current().unwrap();
            let idx = old(tree).current_hook_index();
            let before = old(tree).fibers@[id.0];
            let after = final(tree).fibers@[id.0];
            &&& after.hook_index == idx + 1
            &&& after.hook_value::<T>(idx as int) == Some(r)
            &&& forall|j: int| 0 <= j < before.hooks@.len() && j != idx ==> #[trigger] after.hooks@[j] == before.hooks@[j]
            &&& after.hooks@.len() >= before.hooks@.len()
            &&& before.hook_value::<T>(idx as int) is Some ==> {
                &&& r == before.hook_value::<T>(idx as int)->0
                &&& *final(contexts) == *old(contexts)
            }
            &&& before.hook_value::<T>(idx as int) is None ==> {
                &&& r == value
                &&& final(contexts).entries@ == old(contexts).entries@.push(entry_of(id, value))
            }
        }),
{
    let (id, idx) = tree.next_hook_untracked();
    let existing: Option<T> = tree.get(id).unwrap().get_hook::<T>(idx);
    match existing {
        Some(v) => v,
        None => {
            let slot = value.encode();
            tree.hook_write(id, idx, slot);
            proof {
                T::lemma_decode_encode(value);
            }
            let copy = T::decode(&value.encode()).unwrap();
            contexts.push_context(id, copy);
            tree.note_provided_context(id, T::type_tag());
            value
        },
    }
}

} // verus!
