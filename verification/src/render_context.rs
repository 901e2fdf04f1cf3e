//! All state of a render loop in one value, and the phases of a frame.
use crate::batch::StateBatch;
use crate::component::{reset_component_position_counter, PositionCounter};
use crate::context_stack::{ContextEntry, ContextStack};
use crate::effect_queue::{registered_after, released_in_order, EffectQueue, FlushStep, flush_order};
use crate::event::{set_current_event, EventState};
use crate::fiber::{FiberId, PendingEffect};
use crate::fiber_tree::FiberTree;
use crate::runtime::RuntimeFlags;
use vstd::prelude::*;

verus! {

/// The state of a render loop: fibers, pending state updates, effects,
/// provided contexts, the frame's event, the loop's flags and the position
/// counter of component identity.
pub struct RenderContext<Ev, E, C, AE, AC> {
    pub fiber_tree: FiberTree,
    pub state_batch: StateBatch,
    pub effect_queue: EffectQueue<E, C>,
    /// Asynchronous effects and their cleanups, run after the others.
    pub async_effect_queue: EffectQueue<AE, AC>,
    pub context_stack: ContextStack,
    pub event_state: EventState<Ev>,
    pub flags: RuntimeFlags,
    pub positions: PositionCounter,
}

/// Entries not provided by any of `fibers`.
pub open spec fn from_none_of(fibers: Seq<FiberId>) -> spec_fn(ContextEntry) -> bool {
    |e: ContextEntry| !fibers.contains(e.fiber_id)
}

/// Filtering twice is filtering once by both conditions.
proof fn lemma_filter_twice(
    s: Seq<ContextEntry>,
    p: spec_fn(ContextEntry) -> bool,
    q: spec_fn(ContextEntry) -> bool,
    r: spec_fn(ContextEntry) -> bool,
)
    requires
        forall|x: ContextEntry| #[trigger] r(x) == (p(x) && q(x)),
    ensures
        s.filter(p).filter(q) == s.filter(r),
    decreases s.len(),
{
    if s.len() == 0 {
        assert(s.filter(p) =~= Seq::<ContextEntry>::empty());
        assert(s.filter(r) =~= Seq::<ContextEntry>::empty());
        assert(s.filter(p).filter(q) =~= Seq::<ContextEntry>::empty());
    } else {
        let t = s.drop_last();
        let x = s.last();
        assert(s =~= t.push(x));
        lemma_filter_twice(t, p, q, r);
        t.lemma_filter_push(x, p);
        t.lemma_filter_push(x, r);
        t.filter(p).lemma_filter_push(x, q);
    }
}

impl<Ev, E, C, AE, AC> RenderContext<Ev, E, C, AE, AC> {
    /// The fiber tree and the effect queues are well formed.
    pub open spec fn wf(&self) -> bool {
        &&& self.fiber_tree.wf()
        &&& self.effect_queue.wf()
        &&& self.async_effect_queue.wf()
    }

    /// Fresh state: no fibers, no updates, no effects, no contexts, no
    /// event, flags clear.
    pub fn new() -> (r: Self)
        ensures
            r.wf(),
            r.fiber_tree.fibers@.len() == 0,
            r.fiber_tree.render_stack@.len() == 0,
            r.state_batch.updates@.len() == 0,
            !r.state_batch.batching,
            r.effect_queue.effects@.len() == 0,
            r.effect_queue.cleanups@.len() == 0,
            r.async_effect_queue.effects@.len() == 0,
            r.async_effect_queue.cleanups@.len() == 0,
            r.context_stack.entries@.len() == 0,
            r.event_state.event is None,
            !r.flags.exit_requested,
            !r.flags.in_render_phase,
            r.positions.next == 0,
    {
        RenderContext {
            fiber_tree: FiberTree::new(),
            state_batch: StateBatch::new(),
            effect_queue: EffectQueue::new(),
            async_effect_queue: EffectQueue::new(),
            context_stack: ContextStack::new(),
            event_state: EventState::new(),
            flags: RuntimeFlags::new(),
            positions: PositionCounter::new(),
        }
    }

    /// Prepare a render pass: every fiber starts again at hook 0 and
    /// component positions count from 0.
    pub fn prepare_for_render(&mut self)
        requires
            old(self).wf(),
        ensures
            final(self).wf(),
            final(self).fiber_tree.fibers@.dom() == old(self).fiber_tree.fibers@.dom(),
            forall|k: u64|
                #![trigger final(self).fiber_tree.fibers@[k]]
                old(self).fiber_tree.fibers@.contains_key(k) ==> crate::fiber_tree::reset_for_render(
                    old(self).fiber_tree.fibers@[k],
                    final(self).fiber_tree.fibers@[k],
                ),
            final(self).positions.next == 0,
            final(self).state_batch == old(self).state_batch,
            final(self).context_stack == old(self).context_stack,
    {
        self.fiber_tree.prepare_for_render();
        reset_component_position_counter(&mut self.positions);
    }

    /// Set the frame's event, with propagation open.
    pub fn set_event(&mut self, event: Option<Ev>)
        ensures
            final(self).event_state.event == event,
            !final(self).event_state.propagation_stopped,
            final(self).event_state.stopped_by_fiber is None,
            final(self).fiber_tree == old(self).fiber_tree,
    {
        set_current_event(&mut self.event_state, event);
    }

    /// Remove the frame's event.
    pub fn clear_event(&mut self)
        ensures
            final(self).event_state.event is None,
            final(self).fiber_tree == old(self).fiber_tree,
    {
        self.event_state.event = None;
    }

    /// Start grouping state updates.
    pub fn begin_batch(&mut self)
        ensures
            final(self).state_batch.batching,
            final(self).state_batch.updates == old(self).state_batch.updates,
            final(self).state_batch.dirty == old(self).state_batch.dirty,
            final(self).fiber_tree == old(self).fiber_tree,
    {
        self.state_batch.begin_batch();
    }

    /// Apply the grouped updates; the fibers they touched are returned.
    pub fn end_batch(&mut self) -> (dirty: Vec<FiberId>)
        requires
            old(self).wf(),
        ensures
            final(self).wf(),
            dirty@ == old(self).state_batch.dirty@,
            final(self).state_batch.updates@.len() == 0,
            !final(self).state_batch.batching,
            final(self).fiber_tree.fibers@.dom() == old(self).fiber_tree.fibers@.dom(),
            forall|k: u64|
                #![trigger final(self).fiber_tree.fibers@[k]]
                old(self).fiber_tree.fibers@.contains_key(k) ==> final(self).fiber_tree.fibers@[k].hooks@
                    == crate::batch::apply_updates(
                    old(self).fiber_tree.fibers@[k].hooks@,
                    old(self).state_batch.updates@,
                    FiberId(k),
                ),
    {
        self.state_batch.end_batch(&mut self.fiber_tree)
    }

    /// Run the queued cleanups, most recent first, then the queued effects
    /// in order; the steps are returned as they ran.
    pub fn flush_effects(&mut self) -> (steps: Vec<FlushStep>)
        where E: FnOnce() -> Option<C>, C: FnOnce(),
        requires
            old(self).wf(),
            forall|e: E| call_requires(e, ()),
            forall|c: C| call_requires(c, ()),
        ensures
            final(self).wf(),
            steps@ == flush_order(
                old(self).effect_queue.cleanups@.len(),
                old(self).effect_queue.effects@,
            ),
            final(self).effect_queue.effects@.len() == 0,
            final(self).effect_queue.cleanups@.len() == 0,
            exists|outs: Seq<Option<C>>|
                {
                    &&& outs.len() == old(self).effect_queue.effects@.len()
                    &&& forall|j: int|
                        0 <= j < outs.len() ==> call_ensures(
                            old(self).effect_queue.effects@[j].1.effect,
                            (),
                            #[trigger] outs[j],
                        )
                    &&& final(self).effect_queue.registered@ == registered_after(
                        old(self).effect_queue.registered@,
                        old(self).effect_queue.effects@,
                        outs,
                    )
                },
            final(self).async_effect_queue == old(self).async_effect_queue,
            final(self).fiber_tree == old(self).fiber_tree,
    {
        self.effect_queue.flush()
    }

    /// Schedule the unmount of component fibers not rendered this frame.
    pub fn mark_unseen_for_unmount(&mut self)
        requires
            old(self).wf(),
        ensures
            final(self).wf(),
            final(self).fiber_tree.pending_unmount@ == old(self).fiber_tree.pending_unmount@
                + crate::fiber_tree::ids_of(
                old(self).fiber_tree.order@.filter(
                    |k: u64|
                        old(self).fiber_tree.fiber_to_component_id@.contains_key(k)
                            && !old(self).fiber_tree.seen_this_render@.contains(k),
                ),
            ),
            final(self).fiber_tree.fibers == old(self).fiber_tree.fibers,
    {
        self.fiber_tree.mark_unseen_for_unmount();
    }

    /// Unmount the fibers scheduled for unmount: their contexts leave the
    /// context stack, their kept effect cleanups are queued to run (in each
    /// queue fiber by fiber, each fiber's from its highest hook index down),
    /// and they leave the tree. The unmounted fibers are returned.
    pub fn process_unmounts(&mut self) -> (unmounted: Vec<FiberId>)
        requires
            old(self).wf(),
        ensures
            final(self).wf(),
            unmounted@ == old(self).fiber_tree.pending_unmount@,
            final(self).fiber_tree.pending_unmount@.len() == 0,
            final(self).context_stack.entries@ == old(self).context_stack.entries@.filter(
                from_none_of(unmounted@),
            ),
            forall|k: u64|
                #![trigger final(self).fiber_tree.fibers@.contains_key(k)]
                final(self).fiber_tree.fibers@.contains_key(k) <==> (old(
                    self,
                ).fiber_tree.fibers@.contains_key(k) && !unmounted@.map_values(|f: FiberId| f.0).contains(
                    k,
                )),
            forall|j: int|
                0 <= j < final(self).effect_queue.registered@.len() ==> !unmounted@.contains(
                    #[trigger] final(self).effect_queue.registered@[j].fiber_id,
                ),
            final(self).effect_queue.effects == old(self).effect_queue.effects,
            final(self).effect_queue.cleanups@.len() >= old(self).effect_queue.cleanups@.len(),
            final(self).effect_queue.cleanups@.take(old(self).effect_queue.cleanups@.len() as int)
                == old(self).effect_queue.cleanups@,
            released_in_order(
                old(self).effect_queue.registered@,
                unmounted@,
                final(self).effect_queue.cleanups@.skip(old(self).effect_queue.cleanups@.len() as int),
            ),
            forall|j: int|
                0 <= j < final(self).async_effect_queue.registered@.len() ==> !unmounted@.contains(
                    #[trigger] final(self).async_effect_queue.registered@[j].fiber_id,
                ),
            final(self).async_effect_queue.effects == old(self).async_effect_queue.effects,
            final(self).async_effect_queue.cleanups@.len() >= old(self).async_effect_queue.cleanups@.len(),
            final(self).async_effect_queue.cleanups@.take(
                old(self).async_effect_queue.cleanups@.len() as int,
            ) == old(self).async_effect_queue.cleanups@,
            released_in_order(
                old(self).async_effect_queue.registered@,
                unmounted@,
                final(self).async_effect_queue.cleanups@.skip(
                    old(self).async_effect_queue.cleanups@.len() as int,
                ),
            ),
    {
        let n = self.fiber_tree.pending_unmount.len();
        let ghost pending = self.fiber_tree.pending_unmount@;
        let ghost entries0 = self.context_stack.entries@;
        proof {
            assert(entries0.filter(from_none_of(pending.take(0))) =~= entries0) by {
                assert forall|x: ContextEntry| #[trigger] from_none_of(pending.take(0))(x) by {}
                lemma_filter_all(entries0, from_none_of(pending.take(0)));
            }
        }
        let mut i: usize = 0;
        while i < n
            invariant
                0 <= i <= n,
                n == pending.len(),
                self.fiber_tree == old(self).fiber_tree,
                self.effect_queue == old(self).effect_queue,
                self.async_effect_queue == old(self).async_effect_queue,
                pending == old(self).fiber_tree.pending_unmount@,
                entries0 == old(self).context_stack.entries@,
                self.context_stack.entries@ == entries0.filter(from_none_of(pending.take(i as int))),
            decreases n - i,
        {
            let f = self.fiber_tree.pending_unmount[i];
            self.context_stack.pop_context_for_fiber(f);
            proof {
                let p = from_none_of(pending.take(i as int));
                let q = crate::context_stack::not_from(f);
                let r = from_none_of(pending.take(i + 1));
                assert(pending.take(i + 1) =~= pending.take(i as int).push(f));
                assert forall|x: ContextEntry| #[trigger] r(x) == (p(x) && q(x)) by {
                    broadcast use vstd::seq_lib::group_seq_properties;
                    assert(pending.take(i + 1).contains(x.fiber_id) <==> (pending.take(i as int).contains(
                        x.fiber_id,
                    ) || x.fiber_id == f));
                }
                lemma_filter_twice(entries0, p, q, r);
            }
            i = i + 1;
        }
        proof {
            assert(pending.take(n as int) =~= pending);
        }
        self.effect_queue.release_fibers_cleanups(&self.fiber_tree.pending_unmount);
        self.async_effect_queue.release_fibers_cleanups(&self.fiber_tree.pending_unmount);
        self.fiber_tree.process_unmounts()
    }

    /// Take the asynchronous work of this frame out of its queue, for the
    /// runner that awaits it after the other effects: the cleanups, last
    /// queued first, then the effects in queue order. A cleanup that an
    /// awaited effect returns is kept with `register_async_cleanup`.
    pub fn take_async_effects(&mut self) -> (work: (Vec<AC>, Vec<(FiberId, PendingEffect<AE>)>))
        requires
            old(self).wf(),
        ensures
            final(self).wf(),
            work.0@ == old(self).async_effect_queue.cleanups@.reverse(),
            work.1@ == old(self).async_effect_queue.effects@,
            final(self).async_effect_queue.cleanups@.len() == 0,
            final(self).async_effect_queue.effects@.len() == 0,
            final(self).async_effect_queue.registered == old(self).async_effect_queue.registered,
            final(self).effect_queue == old(self).effect_queue,
            final(self).fiber_tree == old(self).fiber_tree,
    {
        self.async_effect_queue.take_work()
    }

    /// Keep the cleanup an awaited asynchronous effect of hook `hook_index`
    /// of `fiber_id` returned, replacing one kept before.
    pub fn register_async_cleanup(&mut self, fiber_id: FiberId, hook_index: usize, cleanup: AC)
        requires
            old(self).wf(),
        ensures
            final(self).wf(),
            final(self).async_effect_queue.registered@.last() == (crate::effect_queue::RegisteredCleanup {
                fiber_id,
                hook_index,
                cleanup,
            }),
            final(self).effect_queue == old(self).effect_queue,
            final(self).fiber_tree == old(self).fiber_tree,
    {
        self.async_effect_queue.register_cleanup(fiber_id, hook_index, cleanup);
    }

    /// Back to fresh state.
    pub fn clear(&mut self)
        ensures
            final(self).wf(),
            final(self).fiber_tree.fibers@.len() == 0,
            final(self).state_batch.updates@.len() == 0,
            final(self).effect_queue.effects@.len() == 0,
            final(self).effect_queue.cleanups@.len() == 0,
            final(self).async_effect_queue.effects@.len() == 0,
            final(self).async_effect_queue.cleanups@.len() == 0,
            final(self).context_stack.entries@.len() == 0,
            final(self).event_state.event is None,
    {
        *self = RenderContext::new();
    }
}

/// A filter that keeps every element is the identity.
proof fn lemma_filter_all(s: Seq<ContextEntry>, p: spec_fn(ContextEntry) -> bool)
    requires
        forall|x: ContextEntry| #[trigger] p(x),
    ensures
        s.filter(p) == s,
    decreases s.len(),
{
    if s.len() == 0 {
        assert(s.filter(p) =~= s);
    } else {
        let t = s.drop_last();
        assert(s =~= t.push(s.last()));
        lemma_filter_all(t, p);
        t.lemma_filter_push(s.last(), p);
    }
}

/// Start a render loop's state in `holder`.
pub fn init_render_context<Ev, E, C, AE, AC>(holder: &mut Option<RenderContext<Ev, E, C, AE, AC>>)
    ensures
        *final(holder) is Some,
        (*final(holder))->0.wf(),
        (*final(holder))->0.fiber_tree.fibers@.len() == 0,
        (*final(holder))->0.context_stack.entries@.len() == 0,
        (*final(holder))->0.event_state.event is None,
{
    *holder = Some(RenderContext::new());
}

/// Whether `holder` holds a render loop's state.
pub fn is_render_context_initialized<Ev, E, C, AE, AC>(holder: &Option<RenderContext<Ev, E, C, AE, AC>>) -> (r: bool)
    ensures
        r == holder is Some,
{
    holder.is_some()
}

/// Drop the render loop's state.
pub fn clear_render_context<Ev, E, C, AE, AC>(holder: &mut Option<RenderContext<Ev, E, C, AE, AC>>)
    ensures
        *final(holder) is None,
{
    *holder = None;
}

/// Apply `f` to the render loop's state, if there is one.
pub fn with_render_context<Ev, E, C, AE, AC, R, F: FnOnce(&RenderContext<Ev, E, C, AE, AC>) -> R>(
    holder: &Option<RenderContext<Ev, E, C, AE, AC>>,
    f: F,
) -> (r: Option<R>)
    requires
        holder is Some ==> call_requires(f, (&holder->0,)),
    ensures
        holder is None ==> r is None,
        holder is Some ==> r is Some && call_ensures(f, (&holder->0,), r->0),
{
    match holder {
        Some(ctx) => Some(f(ctx)),
        None => None,
    }
}

/// Apply `f` to the render loop's state with write access, if there is one.
pub fn with_render_context_mut<Ev, E, C, AE, AC, R, F: FnOnce(&mut RenderContext<Ev, E, C, AE, AC>) -> R>(
    holder: &mut Option<RenderContext<Ev, E, C, AE, AC>>,
    f: F,
) -> (r: Option<R>)
    requires
        forall|m: &mut RenderContext<Ev, E, C, AE, AC>| call_requires(f, (m,)),
    ensures
        *old(holder) is None ==> r is None && *final(holder) == *old(holder),
        *old(holder) is Some ==> r is Some && *final(holder) is Some,
{
    match holder {
        Some(ctx) => Some(f(ctx)),
        None => None,
    }
}

} // verus!
