//! Effect scheduling.
//!
//! Effects are queued during render and run after commit. Before the new
//! effects run, the cleanups queued for this flush run, the most recently
//! queued first. An effect may return a cleanup, which is kept for its hook
//! and queued when the hook's effect runs again or its fiber unmounts.
use crate::fiber::{FiberId, PendingEffect};
use vstd::prelude::*;

verus! {

/// A cleanup kept for one hook of one fiber.
pub struct RegisteredCleanup<C> {
    pub fiber_id: FiberId,
    pub hook_index: usize,
    pub cleanup: C,
}

/// One step of a flush, in the order in which it ran.
#[derive(Clone, Copy, Debug, PartialEq, Eq, Structural)]
pub enum FlushStep {
    /// The queued cleanup at this position of the cleanup queue ran.
    Cleanup(usize),
    /// The effect of this fiber and hook ran.
    Effect(FiberId, usize),
}

/// Queues of effects and cleanups waiting for the effect phase.
pub struct EffectQueue<E, C> {
    /// Effects to run, in queue order.
    pub effects: Vec<(FiberId, PendingEffect<E>)>,
    /// Cleanups to run before the effects, in queue order.
    pub cleanups: Vec<C>,
    /// Cleanups kept for hooks whose effects have run.
    pub registered: Vec<RegisteredCleanup<C>>,
}

/// The steps of a flush of `c` queued cleanups and the given effects:
/// the cleanups from the last queued to the first, then the effects in
/// queue order.
pub open spec fn flush_order<E>(c: nat, effects: Seq<(FiberId, PendingEffect<E>)>) -> Seq<FlushStep> {
    Seq::new(c, |i: int| FlushStep::Cleanup((c - 1 - i) as usize)) + effects.map_values(
        |e: (FiberId, PendingEffect<E>)| FlushStep::Effect(e.0, e.1.hook_index),
    )
}

/// The hooks that have a kept cleanup.
pub open spec fn registered_keys<C>(r: Seq<RegisteredCleanup<C>>) -> Seq<(FiberId, usize)> {
    r.map_values(|x: RegisteredCleanup<C>| (x.fiber_id, x.hook_index))
}

/// The kept cleanups of fibers other than `fiber_id`, in order.
pub open spec fn kept_for_others<C>(r: Seq<RegisteredCleanup<C>>, fiber_id: FiberId) -> Seq<RegisteredCleanup<C>>
    decreases r.len(),
{
    if r.len() == 0 {
        Seq::empty()
    } else if r.last().fiber_id != fiber_id {
        kept_for_others(r.drop_last(), fiber_id).push(r.last())
    } else {
        kept_for_others(r.drop_last(), fiber_id)
    }
}

/// `r` with `cleanup` kept for hook `hook_index` of `fiber_id`: the one
/// kept for that hook before, if any, leaves, and the new one comes last.
pub open spec fn with_registered<C>(
    r: Seq<RegisteredCleanup<C>>,
    fiber_id: FiberId,
    hook_index: usize,
    cleanup: C,
) -> Seq<RegisteredCleanup<C>> {
    let keys = registered_keys(r);
    let base = if keys.contains((fiber_id, hook_index)) {
        r.remove(keys.index_of((fiber_id, hook_index)))
    } else {
        r
    };
    base.push(RegisteredCleanup { fiber_id, hook_index, cleanup })
}

/// The kept cleanups after running `effects` in order, where the run of
/// `effects[j]` returned `outs[j]`: each returned cleanup is kept for the
/// effect's hook.
pub open spec fn registered_after<E, C>(
    r: Seq<RegisteredCleanup<C>>,
    effects: Seq<(FiberId, PendingEffect<E>)>,
    outs: Seq<Option<C>>,
) -> Seq<RegisteredCleanup<C>>
    decreases effects.len(),
{
    if effects.len() == 0 {
        r
    } else {
        let prev = registered_after(r, effects.drop_last(), outs.drop_last());
        match outs.last() {
            Some(c) => with_registered(prev, effects.last().0, effects.last().1.hook_index, c),
            None => prev,
        }
    }
}

/// `c` is the cleanup kept for some hook of `fiber_id`.
pub open spec fn kept_by<C>(r: Seq<RegisteredCleanup<C>>, fiber_id: FiberId, c: C) -> bool {
    exists|j: int| 0 <= j < r.len() && r[j].fiber_id == fiber_id && #[trigger] r[j].cleanup == c
}

/// `added` are the cleanups of the entries `es` of `fiber_id`, taken from
/// `r`, with strictly falling hook indices.
pub open spec fn hook_order_witness<C>(
    r: Seq<RegisteredCleanup<C>>,
    fiber_id: FiberId,
    added: Seq<C>,
    es: Seq<RegisteredCleanup<C>>,
) -> bool {
    &&& es.len() == added.len()
    &&& forall|k: int|
        0 <= k < es.len() ==> r.contains(#[trigger] es[k]) && es[k].fiber_id == fiber_id && added[k]
            == es[k].cleanup
    &&& forall|k: int, l: int| 0 <= k < l < es.len() ==> #[trigger] es[k].hook_index > #[trigger] es[l].hook_index
}

/// `added` are cleanups of hooks of `fiber_id` in `r`, from the highest
/// hook index down.
pub open spec fn in_hook_order<C>(r: Seq<RegisteredCleanup<C>>, fiber_id: FiberId, added: Seq<C>) -> bool {
    exists|es: Seq<RegisteredCleanup<C>>| #[trigger] hook_order_witness(r, fiber_id, added, es)
}

/// `added` is made of one run of cleanups per fiber of `ids`, in the order
/// of `ids`, each run holding that fiber's cleanups of `r` from the highest
/// hook index down.
pub open spec fn released_in_order<C>(r: Seq<RegisteredCleanup<C>>, ids: Seq<FiberId>, added: Seq<C>) -> bool {
    exists|runs: Seq<Seq<C>>|
        {
            &&& runs.len() == ids.len()
            &&& #[trigger] runs.flatten_alt() == added
            &&& forall|j: int| 0 <= j < ids.len() ==> in_hook_order(r, ids[j], #[trigger] runs[j])
        }
}

/// Hook order over fewer registered cleanups holds over more.
pub(crate) proof fn lemma_in_hook_order_widen<C>(
    small: Seq<RegisteredCleanup<C>>,
    big: Seq<RegisteredCleanup<C>>,
    fiber_id: FiberId,
    added: Seq<C>,
)
    requires
        in_hook_order(small, fiber_id, added),
        forall|j: int| 0 <= j < small.len() ==> big.contains(#[trigger] small[j]),
    ensures
        in_hook_order(big, fiber_id, added),
{
    let es = choose|es: Seq<RegisteredCleanup<C>>| #[trigger] hook_order_witness(small, fiber_id, added, es);
    assert forall|k: int| 0 <= k < es.len() implies big.contains(#[trigger] es[k]) by {
        assert(small.contains(es[k]));
        let m = choose|m: int| 0 <= m < small.len() && small[m] == es[k];
        assert(big.contains(small[m]));
    }
    assert(hook_order_witness(big, fiber_id, added, es));
}

/// Removing a cleanup of `fiber_id` keeps those of the other fibers.
proof fn lemma_remove_keeps_others<C>(r: Seq<RegisteredCleanup<C>>, i: int, fiber_id: FiberId)
    requires
        0 <= i < r.len(),
        r[i].fiber_id == fiber_id,
    ensures
        kept_for_others(r.remove(i), fiber_id) == kept_for_others(r, fiber_id),
    decreases r.len(),
{
    if i == r.len() - 1 {
        assert(r.remove(i) =~= r.drop_last());
    } else {
        let r1 = r.drop_last();
        lemma_remove_keeps_others(r1, i, fiber_id);
        assert(r.remove(i).drop_last() =~= r1.remove(i));
        assert(r.remove(i).last() == r.last());
    }
}

/// Without cleanups of `fiber_id`, all are kept.
proof fn lemma_none_of_fiber<C>(r: Seq<RegisteredCleanup<C>>, fiber_id: FiberId)
    requires
        forall|j: int| 0 <= j < r.len() ==> #[trigger] r[j].fiber_id != fiber_id,
    ensures
        kept_for_others(r, fiber_id) == r,
    decreases r.len(),
{
    if r.len() > 0 {
        lemma_none_of_fiber(r.drop_last(), fiber_id);
        assert(r.drop_last().push(r.last()) =~= r);
    }
}

/// `after` is `before` with the cleanup kept for hook `hook_index` of
/// `fiber_id`, if any, moved from the kept cleanups to the end of the
/// cleanup queue; nothing else of the cleanups changed.
pub open spec fn released_for<E, C>(before: EffectQueue<E, C>, after: EffectQueue<E, C>, fiber_id: FiberId, hook_index: usize) -> bool {
    let keys = registered_keys(before.registered@);
    &&& !registered_keys(after.registered@).contains((fiber_id, hook_index))
    &&& keys.contains((fiber_id, hook_index)) ==> {
        let i = keys.index_of((fiber_id, hook_index));
        &&& after.cleanups@ == before.cleanups@.push(before.registered@[i].cleanup)
        &&& after.registered@ == before.registered@.remove(i)
    }
    &&& !keys.contains((fiber_id, hook_index)) ==> {
        &&& after.cleanups == before.cleanups
        &&& after.registered == before.registered
    }
}

impl<E, C> EffectQueue<E, C> {
    /// Kept cleanups are unique per hook.
    pub open spec fn wf(&self) -> bool {
        registered_keys(self.registered@).no_duplicates()
    }

    /// Empty queues.
    pub fn new() -> (q: Self)
        ensures
            q.wf(),
            q.effects@.len() == 0,
            q.cleanups@.len() == 0,
            q.registered@.len() == 0,
    {
        EffectQueue { effects: Vec::new(), cleanups: Vec::new(), registered: Vec::new() }
    }

    /// Take the queued work out of the queue, for a runner that has to
    /// wait on each step: the cleanups, from the last queued to the first,
    /// and the effects in queue order. The kept cleanups stay.
    pub fn take_work(&mut self) -> (work: (Vec<C>, Vec<(FiberId, PendingEffect<E>)>))
        requires
            old(self).wf(),
        ensures
            final(self).wf(),
            work.0@ == old(self).cleanups@.reverse(),
            work.1@ == old(self).effects@,
            final(self).cleanups@.len() == 0,
            final(self).effects@.len() == 0,
            final(self).registered == old(self).registered,
    {
        let mut effects: Vec<(FiberId, PendingEffect<E>)> = Vec::new();
        std::mem::swap(&mut effects, &mut self.effects);
        let ghost c0 = self.cleanups@;
        let mut out: Vec<C> = Vec::new();
        proof {
            assert(c0.skip(c0.len() as int).reverse() =~= out@);
            assert(c0.take(c0.len() as int) =~= c0);
        }
        while self.cleanups.len() > 0
            invariant
                self.wf(),
                self.registered == old(self).registered,
                self.effects@.len() == 0,
                c0 == old(self).cleanups@,
                self.cleanups@.len() <= c0.len(),
                self.cleanups@ == c0.take(self.cleanups@.len() as int),
                out@ == c0.skip(self.cleanups@.len() as int).reverse(),
            decreases self.cleanups@.len(),
        {
            let ghost m = self.cleanups@.len() as int;
            proof {
                assert(self.cleanups@[m - 1] == c0[m - 1]);
            }
            let c = self.cleanups.pop().unwrap();
            proof {
                assert(c == c0[m - 1]);
                assert(self.cleanups@ =~= c0.take(m - 1));
            }
            out.push(c);
            proof {
                assert(out@ =~= c0.skip(m - 1).reverse());
            }
        }
        proof {
            assert(c0.skip(0) =~= c0);
        }
        (out, effects)
    }

    /// Queue an effect.
    pub fn queue_effect(&mut self, fiber_id: FiberId, effect: PendingEffect<E>)
        ensures
            final(self).effects@ == old(self).effects@.push((fiber_id, effect)),
            final(self).cleanups == old(self).cleanups,
            final(self).registered == old(self).registered,
    {
        self.effects.push((fiber_id, effect));
    }

    /// Queue a cleanup.
    pub fn queue_cleanup(&mut self, cleanup: C)
        ensures
            final(self).cleanups@ == old(self).cleanups@.push(cleanup),
            final(self).effects == old(self).effects,
            final(self).registered == old(self).registered,
    {
        self.cleanups.push(cleanup);
    }

    /// Whether effects are queued.
    pub fn has_pending_effects(&self) -> (r: bool)
        ensures
            r == (self.effects@.len() > 0),
    {
        self.effects.len() > 0
    }

    /// The position of the kept cleanup of a hook, if any.
    pub fn find_registered(&self, fiber_id: FiberId, hook_index: usize) -> (r: Option<usize>)
        ensures
            r matches Some(i) ==> i < self.registered@.len() && registered_keys(self.registered@)[i as int]
                == (fiber_id, hook_index),
            r is None ==> !registered_keys(self.registered@).contains((fiber_id, hook_index)),
    {
        let mut i: usize = 0;
        while i < self.registered.len()
            invariant
                0 <= i <= self.registered@.len(),
                forall|j: int|
                    0 <= j < i ==> registered_keys(self.registered@)[j] != (fiber_id, hook_index),
            decreases self.registered@.len() - i,
        {
            if self.registered[i].fiber_id == fiber_id && self.registered[i].hook_index == hook_index {
                return Some(i);
            }
            i = i + 1;
        }
        None
    }

    /// Move the kept cleanup of a hook, if any, to the cleanup queue.
    pub fn release_cleanup(&mut self, fiber_id: FiberId, hook_index: usize)
        requires
            old(self).wf(),
        ensures
            final(self).wf(),
            !registered_keys(final(self).registered@).contains((fiber_id, hook_index)),
            final(self).effects == old(self).effects,
            registered_keys(old(self).registered@).contains((fiber_id, hook_index)) ==> {
                let i = registered_keys(old(self).registered@).index_of((fiber_id, hook_index));
                &&& final(self).cleanups@ == old(self).cleanups@.push(old(self).registered@[i].cleanup)
                &&& final(self).registered@ == old(self).registered@.remove(i)
            },
            !registered_keys(old(self).registered@).contains((fiber_id, hook_index)) ==> {
                &&& final(self).cleanups == old(self).cleanups
                &&& final(self).registered == old(self).registered
            },
    {
        match self.find_registered(fiber_id, hook_index) {
            Some(i) => {
                let entry = self.registered.remove(i);
                self.cleanups.push(entry.cleanup);
                proof {
                    let keys = registered_keys(old(self).registered@);
                    keys.index_of_first_ensures((fiber_id, hook_index));
                    assert(registered_keys(self.registered@) =~= keys.remove(i as int));
                    lemma_remove_no_dup(keys, i as int);
                }
            },
            None => {},
        }
    }


    /// The position of the kept cleanup of a fiber with the highest hook
    /// index, if the fiber has any.
    fn find_last_hook(&self, fiber_id: FiberId) -> (r: Option<usize>)
        ensures
            r matches Some(i) ==> i < self.registered@.len() && self.registered@[i as int].fiber_id
                == fiber_id && forall|j: int|
                0 <= j < self.registered@.len() && self.registered@[j].fiber_id == fiber_id
                    ==> #[trigger] self.registered@[j].hook_index <= self.registered@[i as int].hook_index,
            r is None ==> forall|j: int|
                0 <= j < self.registered@.len() ==> #[trigger] self.registered@[j].fiber_id != fiber_id,
    {
        let mut best: Option<usize> = None;
        let mut i: usize = 0;
        while i < self.registered.len()
            invariant
                0 <= i <= self.registered@.len(),
                best matches Some(b) ==> b < i && self.registered@[b as int].fiber_id == fiber_id
                    && forall|j: int|
                    0 <= j < i && self.registered@[j].fiber_id == fiber_id
                        ==> #[trigger] self.registered@[j].hook_index <= self.registered@[b as int].hook_index,
                best is None ==> forall|j: int|
                    0 <= j < i ==> #[trigger] self.registered@[j].fiber_id != fiber_id,
            decreases self.registered@.len() - i,
        {
            if self.registered[i].fiber_id == fiber_id {
                match best {
                    Some(b) => {
                        if self.registered[i].hook_index > self.registered[b].hook_index {
                            best = Some(i);
                        }
                    },
                    None => {
                        best = Some(i);
                    },
                }
            }
            i = i + 1;
        }
        best
    }

    /// Move every cleanup kept for a fiber to the cleanup queue, highest
    /// hook index first.
    pub fn release_fiber_cleanups(&mut self, fiber_id: FiberId)
        requires
            old(self).wf(),
        ensures
            final(self).wf(),
            forall|j: int|
                0 <= j < final(self).registered@.len() ==> #[trigger] final(self).registered@[j].fiber_id
                    != fiber_id,
            final(self).cleanups@.len() >= old(self).cleanups@.len(),
            final(self).cleanups@.subrange(0, old(self).cleanups@.len() as int) == old(self).cleanups@,
            final(self).cleanups@.len() - old(self).cleanups@.len() + final(self).registered@.len()
                == old(self).registered@.len(),
            final(self).effects == old(self).effects,
            final(self).registered@ == kept_for_others(old(self).registered@, fiber_id),
            in_hook_order(
                old(self).registered@,
                fiber_id,
                final(self).cleanups@.skip(old(self).cleanups@.len() as int),
            ),
            forall|j: int|
                0 <= j < final(self).registered@.len() ==> old(self).registered@.contains(
                    #[trigger] final(self).registered@[j],
                ),
            forall|k: int|
                old(self).cleanups@.len() <= k < final(self).cleanups@.len() ==> kept_by(
                    old(self).registered@,
                    fiber_id,
                    #[trigger] final(self).cleanups@[k],
                ),
    {
        let ghost mut es: Seq<RegisteredCleanup<C>> = Seq::empty();
        loop
            invariant
                self.wf(),
                es.len() == self.cleanups@.len() - old(self).cleanups@.len(),
                forall|k: int|
                    0 <= k < es.len() ==> old(self).registered@.contains(#[trigger] es[k]) && es[k].fiber_id
                        == fiber_id && self.cleanups@[old(self).cleanups@.len() + k] == es[k].cleanup,
                forall|k: int, l: int|
                    0 <= k < l < es.len() ==> #[trigger] es[k].hook_index > #[trigger] es[l].hook_index,
                forall|k: int, j: int|
                    0 <= k < es.len() && 0 <= j < self.registered@.len() && self.registered@[j].fiber_id
                        == fiber_id ==> #[trigger] es[k].hook_index > #[trigger] self.registered@[j].hook_index,

                kept_for_others(self.registered@, fiber_id) == kept_for_others(old(self).registered@, fiber_id),
                forall|k: int|
                    old(self).cleanups@.len() <= k < self.cleanups@.len() ==> kept_by(
                        old(self).registered@,
                        fiber_id,
                        #[trigger] self.cleanups@[k],
                    ),
                forall|j: int|
                    0 <= j < self.registered@.len() ==> old(self).registered@.contains(
                        #[trigger] self.registered@[j],
                    ),
                self.effects == old(self).effects,
                self.cleanups@.len() >= old(self).cleanups@.len(),
                self.cleanups@.subrange(0, old(self).cleanups@.len() as int) == old(self).cleanups@,
                self.cleanups@.len() - old(self).cleanups@.len() + self.registered@.len()
                    == old(self).registered@.len(),
            ensures
                self.wf(),
                es.len() == self.cleanups@.len() - old(self).cleanups@.len(),
                forall|k: int|
                    0 <= k < es.len() ==> old(self).registered@.contains(#[trigger] es[k]) && es[k].fiber_id
                        == fiber_id && self.cleanups@[old(self).cleanups@.len() + k] == es[k].cleanup,
                forall|k: int, l: int|
                    0 <= k < l < es.len() ==> #[trigger] es[k].hook_index > #[trigger] es[l].hook_index,
                forall|k: int, j: int|
                    0 <= k < es.len() && 0 <= j < self.registered@.len() && self.registered@[j].fiber_id
                        == fiber_id ==> #[trigger] es[k].hook_index > #[trigger] self.registered@[j].hook_index,
                forall|j: int|
                    0 <= j < self.registered@.len() ==> #[trigger] self.registered@[j].fiber_id
                        != fiber_id,
                kept_for_others(self.registered@, fiber_id) == kept_for_others(old(self).registered@, fiber_id),
                forall|k: int|
                    old(self).cleanups@.len() <= k < self.cleanups@.len() ==> kept_by(
                        old(self).registered@,
                        fiber_id,
                        #[trigger] self.cleanups@[k],
                    ),
                self.effects == old(self).effects,
                self.cleanups@.len() >= old(self).cleanups@.len(),
                self.cleanups@.subrange(0, old(self).cleanups@.len() as int) == old(self).cleanups@,
                self.cleanups@.len() - old(self).cleanups@.len() + self.registered@.len()
                    == old(self).registered@.len(),
                forall|j: int|
                    0 <= j < self.registered@.len() ==> old(self).registered@.contains(
                        #[trigger] self.registered@[j],
                    ),
            decreases self.registered@.len(),
        {
            match self.find_last_hook(fiber_id) {
                Some(i) => {
                    let ghost before = self.registered@;
                    let ghost before_cleanups = self.cleanups@;
                    let entry = self.registered.remove(i);
                    self.cleanups.push(entry.cleanup);
                    proof {
                        let e = before[i as int];
                        let es0 = es;
                        es = es.push(e);
                        let base = old(self).cleanups@.len() as int;
                        assert(self.cleanups@[base + es0.len()] == e.cleanup);
                        assert forall|k: int| 0 <= k < es.len() implies old(self).registered@.contains(#[trigger] es[k])
                            && es[k].fiber_id == fiber_id && self.cleanups@[base + k] == es[k].cleanup by {
                            if k < es0.len() {
                                assert(es[k] == es0[k]);
                                assert(self.cleanups@[base + k] == before_cleanups[base + k]);
                            }
                        }
                        assert forall|k: int, l: int|
                            0 <= k < l < es.len() implies #[trigger] es[k].hook_index > #[trigger] es[l].hook_index by {
                            if l == es0.len() {
                                assert(es0[k].hook_index > before[i as int].hook_index);
                            } else {
                                assert(es[k] == es0[k] && es[l] == es0[l]);
                            }
                        }
                        assert forall|k: int, j: int|
                            0 <= k < es.len() && 0 <= j < self.registered@.len() && self.registered@[j].fiber_id
                                == fiber_id implies #[trigger] es[k].hook_index > #[trigger] self.registered@[j].hook_index by {
                            let j0 = if j < i { j } else { j + 1 };
                            assert(self.registered@[j] == before[j0]);
                            assert(j0 != i);
                            assert(before[j0].hook_index <= before[i as int].hook_index);
                            assert(registered_keys(before)[j0] == (before[j0].fiber_id, before[j0].hook_index));
                            assert(registered_keys(before)[i as int] == (before[i as int].fiber_id, before[i as int].hook_index));
                            assert(before[j0].hook_index != before[i as int].hook_index);
                            if k < es0.len() {
                                assert(es[k] == es0[k]);
                                assert(es0[k].hook_index > before[j0].hook_index);
                            }
                        }
                        lemma_remove_keeps_others(before, i as int, fiber_id);
                        assert(old(self).registered@.contains(before[i as int]));
                        let n = self.cleanups@.len() - 1;
                        assert forall|k: int|
                            old(self).cleanups@.len() <= k < self.cleanups@.len() implies kept_by(
                                old(self).registered@,
                                fiber_id,
                                #[trigger] self.cleanups@[k],
                            ) by {
                            if k < n {
                                assert(self.cleanups@[k] == before_cleanups[k]);
                            } else {
                                let j0 = choose|j: int| 0 <= j < old(self).registered@.len()
                                    && old(self).registered@[j] == before[i as int];
                                assert(old(self).registered@[j0].cleanup == self.cleanups@[k]);
                            }
                        }
                        assert(registered_keys(self.registered@) =~= registered_keys(before).remove(
                            i as int,
                        ));
                        lemma_remove_no_dup(registered_keys(before), i as int);
                        assert(self.cleanups@.subrange(0, old(self).cleanups@.len() as int)
                            =~= before_cleanups.subrange(0, old(self).cleanups@.len() as int));
                        assert forall|j: int| 0 <= j < self.registered@.len() implies old(self).registered@.contains(
                            #[trigger] self.registered@[j],
                        ) by {
                            if j < i {
                                assert(self.registered@[j] == before[j]);
                            } else {
                                assert(self.registered@[j] == before[j + 1]);
                            }
                        }
                    }
                },
                None => {
                    break;
                },
            }
        }
        proof {
            lemma_none_of_fiber(self.registered@, fiber_id);
            let added = self.cleanups@.skip(old(self).cleanups@.len() as int);
            assert(hook_order_witness(old(self).registered@, fiber_id, added, es));
        }
    }

    /// Move every cleanup kept for the fibers `ids` to the cleanup queue:
    /// fiber by fiber in the order of `ids`, each fiber's cleanups from its
    /// highest hook index down.
    pub fn release_fibers_cleanups(&mut self, ids: &Vec<FiberId>)
        requires
            old(self).wf(),
        ensures
            final(self).wf(),
            final(self).effects == old(self).effects,
            final(self).cleanups@.len() >= old(self).cleanups@.len(),
            final(self).cleanups@.take(old(self).cleanups@.len() as int) == old(self).cleanups@,
            released_in_order(
                old(self).registered@,
                ids@,
                final(self).cleanups@.skip(old(self).cleanups@.len() as int),
            ),
            forall|j: int|
                0 <= j < final(self).registered@.len() ==> !ids@.contains(
                    #[trigger] final(self).registered@[j].fiber_id,
                ),
            forall|j: int|
                0 <= j < final(self).registered@.len() ==> old(self).registered@.contains(
                    #[trigger] final(self).registered@[j],
                ),
    {
        let ghost reg0 = self.registered@;
        let ghost c0 = self.cleanups@;
        let ghost mut runs: Seq<Seq<C>> = Seq::empty();
        let n = ids.len();
        let mut i: usize = 0;
        while i < n
            invariant
                self.wf(),
                0 <= i <= n,
                n == ids@.len(),
                reg0 == old(self).registered@,
                c0 == old(self).cleanups@,
                self.effects == old(self).effects,
                self.cleanups@.len() >= c0.len(),
                self.cleanups@.take(c0.len() as int) == c0,
                runs.len() == i,
                runs.flatten_alt() == self.cleanups@.skip(c0.len() as int),
                forall|j: int| 0 <= j < i ==> in_hook_order(reg0, ids@[j], #[trigger] runs[j]),
                forall|j: int|
                    0 <= j < self.registered@.len() ==> reg0.contains(#[trigger] self.registered@[j]),
                forall|j: int|
                    0 <= j < self.registered@.len() ==> !ids@.take(i as int).contains(
                        #[trigger] self.registered@[j].fiber_id,
                    ),
            decreases n - i,
        {
            let f = ids[i];
            let ghost before = self.registered@;
            let ghost cb = self.cleanups@;
            self.release_fiber_cleanups(f);
            proof {
                let run = self.cleanups@.skip(cb.len() as int);
                lemma_in_hook_order_widen(before, reg0, f, run);
                let runs2 = runs.push(run);
                assert(runs2.drop_last() =~= runs);
                assert(runs2.flatten_alt() == runs.flatten_alt() + run);
                let all = self.cleanups@;
                assert(all.take(cb.len() as int) =~= cb) by {
                    assert(all.subrange(0, cb.len() as int) == cb);
                }
                assert(all.take(c0.len() as int) =~= c0) by {
                    assert(cb.take(c0.len() as int) == c0);
                }
                assert(all.skip(c0.len() as int) =~= cb.skip(c0.len() as int) + run);
                assert forall|j: int| 0 <= j < i + 1 implies in_hook_order(reg0, ids@[j], #[trigger] runs2[j]) by {
                    if j < i {
                        assert(runs2[j] == runs[j]);
                    }
                }
                runs = runs2;
                assert(ids@.take(i + 1) =~= ids@.take(i as int).push(f));
                assert forall|j: int| 0 <= j < self.registered@.len() implies reg0.contains(
                    #[trigger] self.registered@[j],
                ) && !ids@.take(i + 1).contains(self.registered@[j].fiber_id) by {
                    broadcast use vstd::seq_lib::group_seq_properties;
                    let e = self.registered@[j];
                    assert(before.contains(e));
                    let m = choose|m: int| 0 <= m < before.len() && before[m] == e;
                    assert(reg0.contains(before[m]));
                    assert(!ids@.take(i as int).contains(before[m].fiber_id));
                }
            }
            i = i + 1;
        }
        proof {
            assert(ids@.take(n as int) =~= ids@);
            assert(runs.flatten_alt() == self.cleanups@.skip(c0.len() as int));
        }
    }

    /// Keep a cleanup for a hook, replacing one kept before.
    pub fn register_cleanup(&mut self, fiber_id: FiberId, hook_index: usize, cleanup: C)
        requires
            old(self).wf(),
        ensures
            final(self).wf(),
            registered_keys(final(self).registered@).contains((fiber_id, hook_index)),
            final(self).registered@.last() == (RegisteredCleanup { fiber_id, hook_index, cleanup }),
            final(self).registered@ == with_registered(old(self).registered@, fiber_id, hook_index, cleanup),
            final(self).effects == old(self).effects,
            final(self).cleanups == old(self).cleanups,
    {
        match self.find_registered(fiber_id, hook_index) {
            Some(i) => {
                self.registered.remove(i);
                proof {
                    let keys = registered_keys(old(self).registered@);
                    keys.index_of_first_ensures((fiber_id, hook_index));
                    assert(registered_keys(self.registered@) =~= keys.remove(i as int));
                    lemma_remove_no_dup(keys, i as int);
                }
            },
            None => {},
        }
        let ghost before = registered_keys(self.registered@);
        self.registered.push(RegisteredCleanup { fiber_id, hook_index, cleanup });
        proof {
            assert(registered_keys(self.registered@) =~= before.push((fiber_id, hook_index)));
            assert(registered_keys(self.registered@).last() == (fiber_id, hook_index));
        }
    }
}

/// Removing an element keeps a list free of duplicates and drops the
/// element.
proof fn lemma_remove_no_dup<T>(s: Seq<T>, i: int)
    requires
        s.no_duplicates(),
        0 <= i < s.len(),
    ensures
        s.remove(i).no_duplicates(),
        !s.remove(i).contains(s[i]),
{
    let r = s.remove(i);
    assert forall|a: int, b: int| 0 <= a < b < r.len() implies r[a] != r[b] by {
        let a2 = if a < i { a } else { a + 1 };
        let b2 = if b < i { b } else { b + 1 };
        assert(r[a] == s[a2] && r[b] == s[b2]);
    }
    if r.contains(s[i]) {
        let j = choose|j: int| 0 <= j < r.len() && r[j] == s[i];
        let j2 = if j < i { j } else { j + 1 };
        assert(s[j2] == s[i]);
    }
}

impl<E: FnOnce() -> Option<C>, C: FnOnce()> EffectQueue<E, C> {
    /// Run the effect phase: the queued cleanups run from the last queued to
    /// the first, then the queued effects run in queue order; each cleanup
    /// an effect returns is kept for its hook. Both queues end empty, and
    /// the steps taken are returned in the order they ran.
    pub fn flush(&mut self) -> (steps: Vec<FlushStep>)
        requires
            old(self).wf(),
            forall|e: E| call_requires(e, ()),
            forall|c: C| call_requires(c, ()),
        ensures
            final(self).wf(),
            steps@ == flush_order(old(self).cleanups@.len(), old(self).effects@),
            final(self).effects@.len() == 0,
            final(self).cleanups@.len() == 0,
            exists|outs: Seq<Option<C>>|
                {
                    &&& outs.len() == old(self).effects@.len()
                    &&& forall|j: int|
                        0 <= j < outs.len() ==> call_ensures(
                            old(self).effects@[j].1.effect,
                            (),
                            #[trigger] outs[j],
                        )
                    &&& final(self).registered@ == registered_after(
                        old(self).registered@,
                        old(self).effects@,
                        outs,
                    )
                },
    {
        let mut steps: Vec<FlushStep> = Vec::new();
        let c = self.cleanups.len();
        let ghost effects0 = self.effects@;
        while self.cleanups.len() > 0
            invariant
                self.wf(),
                self.registered == old(self).registered,
                forall|c: C| call_requires(c, ()),
                self.cleanups@.len() <= c,
                c == old(self).cleanups@.len(),
                self.effects@ == effects0,
                steps@ == Seq::new(
                    (c - self.cleanups@.len()) as nat,
                    |i: int| FlushStep::Cleanup((c - 1 - i) as usize),
                ),
            decreases self.cleanups@.len(),
        {
            let k = self.cleanups.len() - 1;
            let cleanup = self.cleanups.pop().unwrap();
            cleanup();
            steps.push(FlushStep::Cleanup(k));
            proof {
                assert(steps@ =~= Seq::new(
                    (c - self.cleanups@.len()) as nat,
                    |i: int| FlushStep::Cleanup((c - 1 - i) as usize),
                ));
            }
        }
        let mut effects: Vec<(FiberId, PendingEffect<E>)> = Vec::new();
        std::mem::swap(&mut effects, &mut self.effects);
        let ghost prefix = steps@;
        let ghost reg0 = self.registered@;
        let ghost mut outs: Seq<Option<C>> = Seq::empty();
        let n = effects.len();
        proof {
            assert(effects0.subrange(0, 0) =~= Seq::<(FiberId, PendingEffect<E>)>::empty());
        }
        while effects.len() > 0
            invariant
                self.wf(),
                forall|e: E| call_requires(e, ()),
                reg0 == old(self).registered@,
                outs.len() == n - effects@.len(),
                forall|j: int| 0 <= j < outs.len() ==> call_ensures(effects0[j].1.effect, (), #[trigger] outs[j]),
                self.registered@ == registered_after(reg0, effects0.subrange(0, n - effects@.len()), outs),
                n == effects0.len(),
                effects@.len() <= n,
                effects@ == effects0.subrange(n - effects@.len(), n as int),
                self.effects@.len() == 0,
                self.cleanups@.len() == 0,
                steps@ == prefix + effects0.subrange(0, n - effects@.len()).map_values(
                    |e: (FiberId, PendingEffect<E>)| FlushStep::Effect(e.0, e.1.hook_index),
                ),
            decreases effects@.len(),
        {
            let ghost m = effects@.len();
            let (fiber_id, pending) = effects.remove(0);
            proof {
                assert(effects0[n - m] == (fiber_id, pending));
                assert(effects@ =~= effects0.subrange(n - effects@.len(), n as int));
            }
            let hook_index = pending.hook_index;
            let ghost effect = pending.effect;
            let result = (pending.effect)();
            let ghost out = result;
            match result {
                Some(cleanup) => {
                    self.register_cleanup(fiber_id, hook_index, cleanup);
                },
                None => {},
            }
            steps.push(FlushStep::Effect(fiber_id, hook_index));
            proof {
                let done0 = effects0.subrange(0, n - m);
                let done1 = effects0.subrange(0, n - m + 1);
                let outs1 = outs.push(out);
                assert(done1.drop_last() =~= done0);
                assert(done1.last() == (fiber_id, pending));
                assert(outs1.drop_last() =~= outs);
                assert(call_ensures(effect, (), out));
                assert forall|j: int| 0 <= j < outs1.len() implies call_ensures(
                    effects0[j].1.effect,
                    (),
                    #[trigger] outs1[j],
                ) by {
                    if j < outs.len() {
                        assert(outs1[j] == outs[j]);
                    }
                }
                outs = outs1;
            }
            proof {
                assert(effects0.subrange(0, n - effects@.len()) =~= effects0.subrange(0, n - m).push(
                    effects0[n - m],
                ));
                assert(steps@ =~= prefix + effects0.subrange(0, n - effects@.len()).map_values(
                    |e: (FiberId, PendingEffect<E>)| FlushStep::Effect(e.0, e.1.hook_index),
                ));
            }
        }
        proof {
            assert(effects0.subrange(0, n as int) =~= effects0);
            assert(self.registered@ == registered_after(reg0, effects0, outs));
        }
        steps
    }
}

/// A cleanup an effect run returned is the one released when its hook's
/// effect runs again: once `cleanup` is kept for the hook, releasing the
/// hook queues exactly `cleanup`.
pub proof fn lemma_kept_cleanup_released_on_rerun<E, C>(
    before: EffectQueue<E, C>,
    kept: EffectQueue<E, C>,
    after: EffectQueue<E, C>,
    fiber_id: FiberId,
    hook_index: usize,
    cleanup: C,
)
    requires
        kept.wf(),
        kept.registered@ == with_registered(before.registered@, fiber_id, hook_index, cleanup),
        released_for(kept, after, fiber_id, hook_index),
    ensures
        after.cleanups@ == kept.cleanups@.push(cleanup),
{
    let r = kept.registered@;
    let keys = registered_keys(r);
    let last = r.len() - 1;
    assert(keys[last] == (fiber_id, hook_index));
    assert(keys.contains((fiber_id, hook_index)));
    let i = keys.index_of((fiber_id, hook_index));
    assert(0 <= i < keys.len() && keys[i] == (fiber_id, hook_index));
    if i != last {
        assert(keys[i] == keys[last]);
    }
    assert(i == last);
}

/// In a flush, every queued cleanup runs before any effect; the cleanups
/// run from the last queued to the first, and the effects in the order in
/// which they were queued (their declaration order).
pub proof fn lemma_flush_order<E>(c: nat, effects: Seq<(FiberId, PendingEffect<E>)>)
    ensures
        flush_order(c, effects).len() == c + effects.len(),
        forall|i: int| 0 <= i < c ==> #[trigger] flush_order(c, effects)[i] == FlushStep::Cleanup((c - 1 - i) as usize),
        forall|j: int|
            0 <= j < effects.len() ==> #[trigger] flush_order(c, effects)[c + j] == FlushStep::Effect(
                effects[j].0,
                effects[j].1.hook_index,
            ),
{
}

} // verus!
