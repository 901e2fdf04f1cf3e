//! Effect hooks.
//!
//! An effect is queued during render and runs in the effect phase. It runs
//! on the first render, on every render when no dependencies are given, and
//! otherwise when the dependencies differ from those of the previous render.
//! Before a re-run, the cleanup the hook's previous run returned is queued.
use crate::effect_queue::{released_for, EffectQueue};
use crate::fiber::{FiberId, PendingEffect};
use crate::fiber_tree::{same_except_fiber, FiberTree};
use crate::slot::HookValue;
use vstd::prelude::*;

verus! {

/// Whether an effect runs, given this render's dependencies and what the
/// hook's cell held (the previous render's dependencies, if any render
/// stored them).
pub open spec fn effect_should_run<D: HookValue>(deps: Option<D>, prev: Option<Option<D>>) -> bool {
    match (deps, prev) {
        (None, _) => true,
        (Some(_), None) => true,
        (Some(c), Some(Some(p))) => !c.encoded().same(p.encoded()),
        (Some(_), Some(None)) => true,
    }
}

/// An effect without dependencies runs on every render; one whose
/// dependencies equal those of its last run does not run again.
pub proof fn lemma_effect_run_rules<D: HookValue>(prev: Option<Option<D>>, d: D)
    ensures
        effect_should_run(None::<D>, prev),
        effect_should_run(Some(d), None),
        !effect_should_run(Some(d), Some(Some(d))),
{
    crate::slot::lemma_same_refl(d.encoded());
}

/// For dependencies compared by value, an effect given dependencies runs
/// exactly when they differ from those the previous render stored.
pub proof fn lemma_effect_runs_iff_deps_differ<D: HookValue>(current: D, previous: D)
    requires
        crate::slot::compared_by_value::<D>(),
    ensures
        effect_should_run(Some(current), Some(Some(previous))) <==> current != previous,
{
    assert(current.encoded().same(previous.encoded()) <==> current == previous);
}

/// Text dependencies are compared by their characters: an effect given
/// text dependencies runs again exactly when the text differs from the
/// previous render's.
pub proof fn lemma_effect_runs_iff_text_differs(current: String, previous: String)
    ensures
        effect_should_run(Some(current), Some(Some(previous))) <==> current@ != previous@,
{
    crate::slot::lemma_text_compared_by_content(current, previous);
}

/// Decide whether an effect runs.
pub fn should_run_effect<D: HookValue>(deps: &Option<D>, prev: &Option<Option<D>>) -> (r: bool)
    ensures
        r == effect_should_run(*deps, *prev),
{
    match (deps, prev) {
        (None, _) => true,
        (Some(_), None) => true,
        (Some(c), Some(Some(p))) => !c.encode().same_as(&p.encode()),
        (Some(_), Some(None)) => true,
    }
}

fn effect_hook<D: HookValue, E, C>(
    tree: &mut FiberTree,
    queue: &mut EffectQueue<E, C>,
    effect: E,
    deps: Option<D>,
    name: &str,
) -> (r: (FiberId, usize, bool))
    requires
        old(tree).wf(),
        old(tree).hook_room(1),
        old(queue).wf(),
    ensures
        final(tree).wf(),
        final(queue).wf(),
        r.0 == old(tree).current().unwrap(),
        r.1 == old(tree).current_hook_index(),
        r.2 == effect_should_run(deps, old(tree).fibers@[r.0.0].hook_value::<Option<D>>(r.1 as int)),
        same_except_fiber(*old(tree), *final(tree), r.0),
        final(tree).fibers@[r.0.0].hook_value::<Option<D>>(r.1 as int) == Some(deps),
        final(tree).fibers@[r.0.0].hook_index == r.1 + 1,
        r.2 ==> final(queue).effects@ == old(queue).effects@.push(
            (r.0, PendingEffect { effect, hook_index: r.1 }),
        ),
        r.2 ==> released_for(*old(queue), *final(queue), r.0, r.1),
        !r.2 ==> *final(queue) == *old(queue),
        forall|j: int|
            0 <= j < old(tree).fibers@[r.0.0].hooks@.len() && j != r.1
                ==> #[trigger] final(tree).fibers@[r.0.0].hooks@[j] == old(tree).fibers@[r.0.0].hooks@[j],
{
    let (id, idx) = tree.next_hook(name);
    let prev: Option<Option<D>> = tree.get(id).unwrap().get_hook(idx);
    let run = should_run_effect(&deps, &prev);
    if run {
        queue.release_cleanup(id, idx);
        queue.queue_effect(id, PendingEffect { effect, hook_index: idx });
    }
    tree.hook_write(id, idx, deps.encode());
    proof {
        Option::<D>::lemma_decode_encode(deps);
    }
    (id, idx, run)
}

/// Queue `effect` to run after commit when `deps` call for it.
pub fn use_effect<D: HookValue, E, C>(
    tree: &mut FiberTree,
    queue: &mut EffectQueue<E, C>,
    effect: E,
    deps: Option<D>,
)
    requires
        old(tree).wf(),
        old(tree).hook_room(1),
        old(queue).wf(),
    ensures
        final(tree).wf(),
        final(queue).wf(),
        same_except_fiber(*old(tree), *final(tree), old(tree).current().unwrap()),
        final(tree).fibers@[old(tree).current().unwrap().0].hook_value::<Option<D>>(
            old(tree).current_hook_index() as int,
        ) == Some(deps),
        final(tree).fibers@[old(tree).current().unwrap().0].hook_index == old(tree).current_hook_index() + 1,
        effect_should_run(
            deps,
            old(tree).fibers@[old(tree).current().unwrap().0].hook_value::<Option<D>>(
                old(tree).current_hook_index() as int,
            ),
        ) ==> final(queue).effects@ == old(queue).effects@.push(
            (
                old(tree).current().unwrap(),
                PendingEffect { effect, hook_index: old(tree).current_hook_index() },
            ),
        ),
        effect_should_run(
            deps,
            old(tree).fibers@[old(tree).current().unwrap().0].hook_value::<Option<D>>(
                old(tree).current_hook_index() as int,
            ),
        ) ==> released_for(
            *old(queue),
            *final(queue),
            old(tree).current().unwrap(),
            old(tree).current_hook_index(),
        ),
        !effect_should_run(
            deps,
            old(tree).fibers@[old(tree).current().unwrap().0].hook_value::<Option<D>>(
                old(tree).current_hook_index() as int,
            ),
        ) ==> *final(queue) == *old(queue),
        forall|j: int|
            0 <= j < old(tree).fibers@[old(tree).current().unwrap().0].hooks@.len() && j
                != old(tree).current_hook_index()
                ==> #[trigger] final(tree).fibers@[old(tree).current().unwrap().0].hooks@[j]
                == old(tree).fibers@[old(tree).current().unwrap().0].hooks@[j],
{
    effect_hook(tree, queue, effect, deps, "use_effect");
}

/// Queue `effect` to run once, after the first commit.
pub fn use_effect_once<E, C>(tree: &mut FiberTree, queue: &mut EffectQueue<E, C>, effect: E)
    requires
        old(tree).wf(),
        old(tree).hook_room(1),
        old(queue).wf(),
    ensures
        final(tree).wf(),
        final(queue).wf(),
        same_except_fiber(*old(tree), *final(tree), old(tree).current().unwrap()),
        final(tree).fibers@[old(tree).current().unwrap().0].hook_index == old(tree).current_hook_index() + 1,
        (old(tree).fibers@[old(tree).current().unwrap().0].hook_value::<Option<()>>(
            old(tree).current_hook_index() as int,
        ) == Some(Some(()))) ==> *final(queue) == *old(queue),
        (old(tree).fibers@[old(tree).current().unwrap().0].hook_value::<Option<()>>(
            old(tree).current_hook_index() as int,
        ) != Some(Some(()))) ==> final(queue).effects@ == old(queue).effects@.push(
            (
                old(tree).current().unwrap(),
                PendingEffect { effect, hook_index: old(tree).current_hook_index() },
            ),
        ) && released_for(
            *old(queue),
            *final(queue),
            old(tree).current().unwrap(),
            old(tree).current_hook_index(),
        ),
{
    effect_hook(tree, queue, effect, Some(()), "use_effect");
}

/// Queue an effect that starts asynchronous work to run after commit
/// when `deps` call for it; it keeps the same place in the effect queue,
/// and the same cleanup rules, as any effect.
pub fn use_async_effect<D: HookValue, E, C>(
    tree: &mut FiberTree,
    queue: &mut EffectQueue<E, C>,
    effect: E,
    deps: Option<D>,
)
    requires
        old(tree).wf(),
        old(tree).hook_room(1),
        old(queue).wf(),
    ensures
        final(tree).wf(),
        final(queue).wf(),
        same_except_fiber(*old(tree), *final(tree), old(tree).current().unwrap()),
        final(tree).fibers@[old(tree).current().unwrap().0].hook_value::<Option<D>>(
            old(tree).current_hook_index() as int,
        ) == Some(deps),
        final(tree).fibers@[old(tree).current().unwrap().0].hook_index == old(tree).current_hook_index() + 1,
        effect_should_run(
            deps,
            old(tree).fibers@[old(tree).current().unwrap().0].hook_value::<Option<D>>(
                old(tree).current_hook_index() as int,
            ),
        ) ==> final(queue).effects@ == old(queue).effects@.push(
            (
                old(tree).current().unwrap(),
                PendingEffect { effect, hook_index: old(tree).current_hook_index() },
            ),
        ),
        effect_should_run(
            deps,
            old(tree).fibers@[old(tree).current().unwrap().0].hook_value::<Option<D>>(
                old(tree).current_hook_index() as int,
            ),
        ) ==> released_for(
            *old(queue),
            *final(queue),
            old(tree).current().unwrap(),
            old(tree).current_hook_index(),
        ),
        !effect_should_run(
            deps,
            old(tree).fibers@[old(tree).current().unwrap().0].hook_value::<Option<D>>(
                old(tree).current_hook_index() as int,
            ),
        ) ==> *final(queue) == *old(queue),
{
    effect_hook(tree, queue, effect, deps, "use_async_effect");
}

/// Queue an asynchronous effect to run once, after the first commit.
pub fn use_async_effect_once<E, C>(tree: &mut FiberTree, queue: &mut EffectQueue<E, C>, effect: E)
    requires
        old(tree).wf(),
        old(tree).hook_room(1),
        old(queue).wf(),
    ensures
        final(tree).wf(),
        final(queue).wf(),
        same_except_fiber(*old(tree), *final(tree), old(tree).current().unwrap()),
        final(tree).fibers@[old(tree).current().unwrap().0].hook_index == old(tree).current_hook_index() + 1,
        (old(tree).fibers@[old(tree).current().unwrap().0].hook_value::<Option<()>>(
            old(tree).current_hook_index() as int,
        ) == Some(Some(()))) ==> *final(queue) == *old(queue),
        (old(tree).fibers@[old(tree).current().unwrap().0].hook_value::<Option<()>>(
            old(tree).current_hook_index() as int,
        ) != Some(Some(()))) ==> final(queue).effects@ == old(queue).effects@.push(
            (
                old(tree).current().unwrap(),
                PendingEffect { effect, hook_index: old(tree).current_hook_index() },
            ),
        ) && released_for(
            *old(queue),
            *final(queue),
            old(tree).current().unwrap(),
            old(tree).current_hook_index(),
        ),
{
    effect_hook(tree, queue, effect, Some(()), "use_async_effect");
}

} // verus!
