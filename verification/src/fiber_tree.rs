//! Fiber tree management for tracking all mounted component instances.
use crate::fiber::{names, Fiber, FiberId};
use crate::slot::HookValue;
use std::collections::{HashMap, HashSet};
use vstd::prelude::*;

verus! {

broadcast use vstd::std_specs::hash::group_hash_axioms;

/// The tree of all mounted component instances.
pub struct FiberTree {
    /// All mounted fibers by the number of their ID.
    pub fibers: HashMap<u64, Fiber>,
    /// The numbers of the mounted fibers, in mount order.
    pub order: Vec<u64>,
    /// Root fiber ID.
    pub root: Option<FiberId>,
    /// Stack of currently rendering fibers (for nested renders).
    pub render_stack: Vec<FiberId>,
    /// Next available fiber number.
    pub next_id: u64,
    /// Fibers scheduled for unmount.
    pub pending_unmount: Vec<FiberId>,
    /// Maps component IDs to their fibers.
    pub component_id_to_fiber: HashMap<u64, FiberId>,
    /// Maps fiber numbers back to component IDs.
    pub fiber_to_component_id: HashMap<u64, u64>,
    /// Fibers seen during the current render pass.
    pub seen_this_render: HashSet<u64>,
}

/// Two trees differ at most in the fiber `id`.
pub open spec fn same_except_fiber(a: FiberTree, b: FiberTree, id: FiberId) -> bool {
    &&& b.fibers@.dom() == a.fibers@.dom()
    &&& forall|k: u64|
        #![trigger b.fibers@[k]]
        b.fibers@.contains_key(k) && k != id.0 ==> b.fibers@[k] == a.fibers@[k]
    &&& b.order == a.order
    &&& b.root == a.root
    &&& b.next_id == a.next_id
    &&& b.render_stack == a.render_stack
    &&& b.pending_unmount == a.pending_unmount
    &&& b.component_id_to_fiber == a.component_id_to_fiber
    &&& b.fiber_to_component_id == a.fiber_to_component_id
    &&& b.seen_this_render == a.seen_this_render
}

/// Two states of a fiber agree on everything but its hook state.
pub open spec fn same_identity(a: Fiber, b: Fiber) -> bool {
    &&& b.id == a.id
    &&& b.provided_contexts == a.provided_contexts
    &&& b.parent == a.parent
    &&& b.children == a.children
    &&& b.dirty == a.dirty
    &&& b.key == a.key
    &&& b.previous_hook_types == a.previous_hook_types
}

/// `k` is the number of the given parent, and that parent is mounted.
pub open spec fn mounted_parent(fibers: Map<u64, Fiber>, parent: Option<FiberId>, k: u64) -> bool {
    match parent {
        Some(p) => p.0 == k && fibers.contains_key(k),
        None => false,
    }
}

/// `after` is `before` with `child` added at the end of its children.
pub open spec fn child_added(before: Fiber, after: Fiber, child: FiberId) -> bool {
    &&& after.children@ == before.children@.push(child)
    &&& after.id == before.id
    &&& after.hooks == before.hooks
    &&& after.hook_index == before.hook_index
    &&& after.provided_contexts == before.provided_contexts
    &&& after.parent == before.parent
    &&& after.dirty == before.dirty
    &&& after.key == before.key
    &&& after.previous_hook_types == before.previous_hook_types
    &&& after.current_hook_types == before.current_hook_types
}

/// `after` is `before` prepared for a new render pass.
pub open spec fn reset_for_render(before: Fiber, after: Fiber) -> bool {
    &&& after.hook_index == 0
    &&& after.previous_hook_types == before.current_hook_types
    &&& after.current_hook_types@.len() == 0
    &&& after.id == before.id
    &&& after.hooks == before.hooks
    &&& after.provided_contexts == before.provided_contexts
    &&& after.parent == before.parent
    &&& after.children == before.children
    &&& after.dirty == before.dirty
    &&& after.key == before.key
}

/// The fiber numbered `k` is the mounted parent of the mounted fiber `id`.
pub open spec fn parent_of(fibers: Map<u64, Fiber>, id: FiberId, k: u64) -> bool {
    &&& fibers.contains_key(id.0)
    &&& fibers[id.0].parent == Some(FiberId(k))
    &&& fibers.contains_key(k)
}

/// Every fiber but `child`.
/// `after` is `before` with only the children that `keep` accepts.
pub open spec fn children_kept(before: Fiber, after: Fiber, keep: spec_fn(FiberId) -> bool) -> bool {
    &&& after.children@ == before.children@.filter(keep)
    &&& after.id == before.id
    &&& after.hooks == before.hooks
    &&& after.hook_index == before.hook_index
    &&& after.provided_contexts == before.provided_contexts
    &&& after.parent == before.parent
    &&& after.dirty == before.dirty
    &&& after.key == before.key
    &&& after.previous_hook_types == before.previous_hook_types
    &&& after.current_hook_types == before.current_hook_types
}

/// The children that stay with fiber `k` when the fibers `ids` unmount:
/// all but those of `ids` that were mounted with `k` as their parent.
pub open spec fn stays_with(fibers: Map<u64, Fiber>, ids: Seq<FiberId>, k: u64) -> spec_fn(FiberId) -> bool {
    |c: FiberId| !(ids.contains(c) && fibers.contains_key(c.0) && fibers[c.0].parent == Some(FiberId(k)))
}

/// Filtering twice is filtering by both conditions.
proof fn lemma_filter_both(
    s: Seq<FiberId>,
    p: spec_fn(FiberId) -> bool,
    q: spec_fn(FiberId) -> bool,
    r: spec_fn(FiberId) -> bool,
)
    requires
        forall|x: FiberId| #[trigger] r(x) == (p(x) && q(x)),
    ensures
        s.filter(p).filter(q) == s.filter(r),
    decreases s.len(),
{
    if s.len() == 0 {
        assert(s.filter(p) =~= Seq::<FiberId>::empty());
        assert(s.filter(r) =~= Seq::<FiberId>::empty());
        assert(s.filter(p).filter(q) =~= Seq::<FiberId>::empty());
    } else {
        let t = s.drop_last();
        let x = s.last();
        assert(s =~= t.push(x));
        lemma_filter_both(t, p, q, r);
        t.lemma_filter_push(x, p);
        t.lemma_filter_push(x, r);
        t.filter(p).lemma_filter_push(x, q);
    }
}

/// Filtering by a condition that always holds keeps everything.
proof fn lemma_filter_true(s: Seq<FiberId>)
    ensures
        s.filter(|c: FiberId| true) == s,
    decreases s.len(),
{
    if s.len() > 0 {
        let t = s.drop_last();
        assert(s =~= t.push(s.last()));
        lemma_filter_true(t);
        t.lemma_filter_push(s.last(), |c: FiberId| true);
    } else {
        assert(s.filter(|c: FiberId| true) =~= s);
    }
}

/// Filtering by conditions that agree gives the same children.
proof fn lemma_filter_same(s: Seq<FiberId>, p: spec_fn(FiberId) -> bool, q: spec_fn(FiberId) -> bool)
    requires
        forall|x: FiberId| #[trigger] p(x) == q(x),
    ensures
        s.filter(p) == s.filter(q),
{
    assert(p =~= q);
}

pub open spec fn other_than(child: FiberId) -> spec_fn(FiberId) -> bool {
    |c: FiberId| c != child
}

/// `after` is `before` without `child` among its children.
pub open spec fn child_removed(before: Fiber, after: Fiber, child: FiberId) -> bool {
    &&& after.children@ == before.children@.filter(other_than(child))
    &&& after.id == before.id
    &&& after.hooks == before.hooks
    &&& after.hook_index == before.hook_index
    &&& after.provided_contexts == before.provided_contexts
    &&& after.parent == before.parent
    &&& after.dirty == before.dirty
    &&& after.key == before.key
    &&& after.previous_hook_types == before.previous_hook_types
    &&& after.current_hook_types == before.current_hook_types
}

/// The children without one child.
fn without_child(children: &Vec<FiberId>, child: FiberId) -> (r: Vec<FiberId>)
    ensures
        r@ == children@.filter(other_than(child)),
{
    let ghost pred = other_than(child);
    let mut out: Vec<FiberId> = Vec::new();
    let mut i: usize = 0;
    while i < children.len()
        invariant
            0 <= i <= children@.len(),
            pred == other_than(child),
            out@ == children@.take(i as int).filter(pred),
        decreases children@.len() - i,
    {
        let c = children[i];
        proof {
            assert(children@.take(i + 1) =~= children@.take(i as int).push(c));
            children@.take(i as int).lemma_filter_push(c, pred);
        }
        if c != child {
            out.push(c);
        }
        i = i + 1;
    }
    proof {
        assert(children@.take(children@.len() as int) =~= children@);
    }
    out
}

/// An increasing list of numbers without one number; it stays increasing.
fn without_key(order: &Vec<u64>, key: u64) -> (r: Vec<u64>)
    requires
        forall|i: int, j: int|
            0 <= i < j < order@.len() ==> #[trigger] order@[i] < #[trigger] order@[j],
    ensures
        r@ == order@.filter(|k: u64| k != key),
        forall|i: int, j: int| 0 <= i < j < r@.len() ==> #[trigger] r@[i] < #[trigger] r@[j],
{
    let ghost pred = |k: u64| k != key;
    let mut out: Vec<u64> = Vec::new();
    let mut i: usize = 0;
    while i < order.len()
        invariant
            0 <= i <= order@.len(),
            forall|a: int, b: int|
                0 <= a < b < order@.len() ==> #[trigger] order@[a] < #[trigger] order@[b],
            pred == (|k: u64| k != key),
            out@ == order@.take(i as int).filter(pred),
            forall|a: int, b: int| 0 <= a < b < out@.len() ==> #[trigger] out@[a] < #[trigger] out@[b],
            i > 0 ==> forall|a: int| 0 <= a < out@.len() ==> #[trigger] out@[a] <= order@[i - 1],
            i == 0 ==> out@.len() == 0,
        decreases order@.len() - i,
    {
        let k = order[i];
        proof {
            assert(order@.take(i + 1) =~= order@.take(i as int).push(k));
            order@.take(i as int).lemma_filter_push(k, pred);
            if i > 0 {
                assert(order@[i - 1] < order@[i as int]);
            }
        }
        if k != key {
            out.push(k);
        }
        i = i + 1;
    }
    proof {
        assert(order@.take(order@.len() as int) =~= order@);
    }
    out
}


impl Default for FiberTree {
    fn default() -> (t: Self)
        ensures
            t.wf(),
            t.fibers@.len() == 0,
            t.order@.len() == 0,
            t.root is None,
            t.render_stack@.len() == 0,
            t.pending_unmount@.len() == 0,
    {
        FiberTree::new()
    }
}

/// Install a fiber tree in the holder a render runs against.
pub fn set_fiber_tree(holder: &mut Option<FiberTree>, tree: FiberTree)
    ensures
        *final(holder) == Some(tree),
{
    *holder = Some(tree);
}

/// Run `f` on the installed fiber tree, if there is one.
pub fn with_fiber_tree<R, F: FnOnce(&FiberTree) -> R>(holder: &Option<FiberTree>, f: F) -> (r: Option<R>)
    requires
        holder matches Some(t) ==> call_requires(f, (&t,)),
    ensures
        holder is None ==> r is None,
        holder matches Some(t) ==> (r matches Some(v) && call_ensures(f, (&t,), v)),
{
    match holder {
        Some(t) => Some(f(t)),
        None => None,
    }
}

/// Run `f` on the installed fiber tree, with write access, if there is one.
pub fn with_fiber_tree_mut<R, F: FnOnce(&mut FiberTree) -> R>(holder: &mut Option<FiberTree>, f: F) -> (r: Option<R>)
    requires
        forall|m: &mut FiberTree| call_requires(f, (m,)),
    ensures
        *old(holder) is None ==> r is None && *final(holder) == *old(holder),
        *old(holder) is Some ==> r is Some && *final(holder) is Some,
{
    match holder {
        Some(t) => Some(f(t)),
        None => None,
    }
}


/// Run `f` on the currently rendering fiber, if a tree is installed and
/// its render stack names a mounted fiber.
pub fn with_current_fiber<R, F: FnOnce(&mut Fiber) -> R>(holder: &mut Option<FiberTree>, f: F) -> (r: Option<R>)
    requires
        forall|m: &mut Fiber| call_requires(f, (m,)),
    ensures
        r is Some <==> (*old(holder) matches Some(t) && t.in_render()),
        *final(holder) is Some <==> *old(holder) is Some,
{
    match holder {
        Some(t) => {
            match t.current_fiber() {
                Some(id) => {
                    match t.get_mut(id) {
                        Some(fiber) => Some(f(fiber)),
                        None => None,
                    }
                },
                None => None,
            }
        },
        None => None,
    }
}

/// Remove the installed fiber tree.
pub fn clear_fiber_tree(holder: &mut Option<FiberTree>)
    ensures
        *final(holder) == None::<FiberTree>,
{
    *holder = None;
}

/// A mutable reference to the value under a key of a map, as
/// `HashMap::get_mut` gives it: present exactly when the key is, holding the
/// stored value, and whatever is written through it is what the map holds
/// under the key afterwards.
#[verifier::external_body]
fn fiber_entry<'a>(m: &'a mut HashMap<u64, Fiber>, k: u64) -> (r: Option<&'a mut Fiber>)
    ensures
        r is Some <==> old(m)@.contains_key(k),
        r is Some ==> *r->0 == old(m)@[k],
        r is Some ==> final(m)@ == old(m)@.insert(k, *final(r->0)),
        r is None ==> final(m)@ == old(m)@,
{
    m.get_mut(&k)
}

/// Ending a render after beginning one gives back the render stack as it
/// was, so the fiber that rendered before is current again.
pub proof fn lemma_begin_end_render(stack: Seq<FiberId>, id: FiberId)
    ensures
        stack.push(id).drop_last() == stack,
        stack.push(id).last() == id,
{
    assert(stack.push(id).drop_last() =~= stack);
}

/// The fibers of a mount order, as IDs.
pub open spec fn ids_of(s: Seq<u64>) -> Seq<FiberId> {
    s.map_values(|k: u64| FiberId(k))
}

impl FiberTree {
    /// Well-formedness: the mount order lists exactly the mounted fibers in
    /// increasing order, every fiber is stored under its own number, which
    /// is below the next number to hand out, and the two component maps are
    /// inverse to each other and only name mounted fibers.
    pub open spec fn wf(&self) -> bool {
        &&& 1 <= self.next_id
        &&& forall|i: int, j: int|
            0 <= i < j < self.order@.len() ==> #[trigger] self.order@[i] < #[trigger] self.order@[j]
        &&& forall|k: u64| #[trigger]
            self.fibers@.contains_key(k) <==> self.order@.contains(k)
        &&& forall|k: u64| #[trigger]
            self.fibers@.contains_key(k) ==> self.fibers@[k].id == FiberId(k) && k < self.next_id
        &&& forall|c: u64| #[trigger]
            self.component_id_to_fiber@.contains_key(c) ==> {
                let f = self.component_id_to_fiber@[c].0;
                &&& self.fiber_to_component_id@.contains_key(f)
                &&& self.fiber_to_component_id@[f] == c
            }
        &&& forall|f: u64| #[trigger]
            self.fiber_to_component_id@.contains_key(f) ==> {
                let c = self.fiber_to_component_id@[f];
                &&& self.component_id_to_fiber@.contains_key(c)
                &&& self.component_id_to_fiber@[c] == FiberId(f)
                &&& self.fibers@.contains_key(f)
            }
    }

    /// The fiber with the given ID, if mounted.
    pub open spec fn fiber(&self, id: FiberId) -> Option<Fiber> {
        if self.fibers@.contains_key(id.0) {
            Some(self.fibers@[id.0])
        } else {
            None
        }
    }

    /// The currently rendering fiber: the top of the render stack.
    pub open spec fn current(&self) -> Option<FiberId> {
        if self.render_stack@.len() > 0 {
            Some(self.render_stack@.last())
        } else {
            None
        }
    }

    /// The tree is inside a render of a mounted fiber, where hooks can run.
    pub open spec fn in_render(&self) -> bool {
        &&& self.current() is Some
        &&& self.fibers@.contains_key(self.current().unwrap().0)
    }

    /// Create a new empty fiber tree.
    pub fn new() -> (t: Self)
        ensures
            t.wf(),
            t.fibers@.len() == 0,
            t.order@.len() == 0,
            t.root is None,
            t.render_stack@.len() == 0,
            t.pending_unmount@.len() == 0,
            t.next_id == 1,
            t.component_id_to_fiber@.len() == 0,
            t.fiber_to_component_id@.len() == 0,
            t.seen_this_render@.len() == 0,
    {
        FiberTree {
            fibers: HashMap::new(),
            order: Vec::new(),
            root: None,
            render_stack: Vec::new(),
            next_id: 1,
            pending_unmount: Vec::new(),
            component_id_to_fiber: HashMap::new(),
            fiber_to_component_id: HashMap::new(),
            seen_this_render: HashSet::new(),
        }
    }

    /// Whether a fiber is mounted.
    pub fn contains(&self, id: FiberId) -> (r: bool)
        ensures
            r == self.fibers@.contains_key(id.0),
    {
        self.fibers.contains_key(&id.0)
    }

    /// Mount a new fiber, returning its ID. The fiber is added to its
    /// parent's children when the parent is mounted, and becomes the root
    /// when it has no parent and there is no root yet.
    pub fn mount(&mut self, parent: Option<FiberId>, key: Option<String>) -> (id: FiberId)
        requires
            old(self).wf(),
            old(self).next_id < u64::MAX,
        ensures
            final(self).wf(),
            id == FiberId(old(self).next_id),
            !old(self).fibers@.contains_key(id.0),
            final(self).next_id == old(self).next_id + 1,
            final(self).order@ == old(self).order@.push(id.0),
            final(self).fibers@.dom() == old(self).fibers@.dom().insert(id.0),
            final(self).fibers@[id.0].id == id,
            final(self).fibers@[id.0].hook_index == 0,
            final(self).fibers@[id.0].parent == parent,
            final(self).fibers@[id.0].dirty,
            final(self).fibers@[id.0].key == key,
            final(self).fibers@[id.0].hooks@.len() == 0,
            parent != Some(id) ==> final(self).fibers@[id.0].children@.len() == 0,
            parent == Some(id) ==> final(self).fibers@[id.0].children@ == seq![id],
            final(self).fibers@[id.0].provided_contexts@.len() == 0,
            final(self).fibers@[id.0].previous_hook_types@.len() == 0,
            final(self).fibers@[id.0].current_hook_types@.len() == 0,
            forall|k: u64|
                #![trigger final(self).fibers@[k]]
                old(self).fibers@.contains_key(k) && !mounted_parent(old(self).fibers@, parent, k)
                    ==> final(self).fibers@[k] == old(self).fibers@[k],
            forall|k: u64|
                #![trigger final(self).fibers@[k]]
                mounted_parent(old(self).fibers@, parent, k) ==> child_added(
                    old(self).fibers@[k],
                    final(self).fibers@[k],
                    id,
                ),
            final(self).root == (if parent is None && old(self).root is None {
                Some(id)
            } else {
                old(self).root
            }),
            final(self).render_stack == old(self).render_stack,
            final(self).pending_unmount == old(self).pending_unmount,
            final(self).component_id_to_fiber@ == old(self).component_id_to_fiber@,
            final(self).fiber_to_component_id@ == old(self).fiber_to_component_id@,
            final(self).seen_this_render@ == old(self).seen_this_render@,
    {
        let id = FiberId(self.next_id);
        self.next_id = self.next_id + 1;
        let fiber = Fiber::new(id, parent, key);
        self.fibers.insert(id.0, fiber);
        self.order.push(id.0);
        if let Some(parent_id) = parent {
            if let Some(mut parent_fiber) = self.fibers.remove(&parent_id.0) {
                parent_fiber.children.push(id);
                self.fibers.insert(parent_id.0, parent_fiber);
            }
        }
        if parent.is_none() && self.root.is_none() {
            self.root = Some(id);
        }
        proof {
            assert forall|k: u64| #[trigger] self.fibers@.contains_key(k) <==> self.order@.contains(
                k,
            ) by {
                if k == id.0 {
                    assert(self.order@.last() == k);
                } else if old(self).order@.contains(k) {
                    let i = choose|i: int| 0 <= i < old(self).order@.len() && old(self).order@[i] == k;
                    assert(self.order@[i] == k);
                } else if self.order@.contains(k) {
                    let i = choose|i: int| 0 <= i < self.order@.len() && self.order@[i] == k;
                    assert(i < old(self).order@.len());
                }
            }
            assert forall|i: int, j: int|
                0 <= i < j < self.order@.len() implies #[trigger] self.order@[i]
                < #[trigger] self.order@[j] by {
                if j == self.order@.len() - 1 {
                    assert(old(self).fibers@.contains_key(self.order@[i]));
                }
            }
        }
        id
    }

    /// Get or create the fiber of a component by its component ID.
    ///
    /// An existing fiber is returned as it is; otherwise a new fiber is
    /// mounted under the currently rendering fiber and associated with the
    /// component ID. Either way the fiber is marked as seen in this render.
    pub fn get_or_create_fiber_by_component_id(&mut self, component_id: u64) -> (id: FiberId)
        requires
            old(self).wf(),
            old(self).next_id < u64::MAX,
        ensures
            final(self).wf(),
            old(self).component_id_to_fiber@.contains_key(component_id) ==> (id
                == old(self).component_id_to_fiber@[component_id] && final(self).fibers@ == old(self).fibers@ && final(self).order@ == old(self).order@ && final(self).next_id == old(self).next_id && final(self).root == old(self).root && final(self).component_id_to_fiber@
                == old(self).component_id_to_fiber@ && final(self).fiber_to_component_id@ == old(self).fiber_to_component_id@),
            !old(self).component_id_to_fiber@.contains_key(component_id) ==> (id == FiberId(
                old(self).next_id,
            ) && !old(self).fibers@.contains_key(id.0) && final(self).fibers@.dom() == old(self).fibers@.dom().insert(id.0) && final(self).fibers@[id.0].parent == old(self).current()
                && final(self).order@ == old(self).order@.push(id.0) && final(self).next_id == old(self).next_id + 1 && final(self).component_id_to_fiber@ == old(self).component_id_to_fiber@.insert(component_id, id) && final(self).fiber_to_component_id@
                == old(self).fiber_to_component_id@.insert(id.0, component_id)),
            final(self).component_id_to_fiber@.contains_key(component_id),
            final(self).component_id_to_fiber@[component_id] == id,
            final(self).fiber_to_component_id@[id.0] == component_id,
            final(self).fibers@.contains_key(id.0),
            final(self).seen_this_render@ == old(self).seen_this_render@.insert(id.0),
            final(self).render_stack == old(self).render_stack,
            final(self).pending_unmount == old(self).pending_unmount,
    {
        match self.component_id_to_fiber.get(&component_id) {
            Some(fid) => {
                let fiber_id = *fid;
                self.seen_this_render.insert(fiber_id.0);
                fiber_id
            },
            None => {
                let parent = self.current_fiber();
                let fiber_id = self.mount(parent, None);
                self.component_id_to_fiber.insert(component_id, fiber_id);
                self.fiber_to_component_id.insert(fiber_id.0, component_id);
                self.seen_this_render.insert(fiber_id.0);
                proof {
                    assert(!old(self).fiber_to_component_id@.contains_key(fiber_id.0));
                }
                fiber_id
            },
        }
    }

    /// Called when a component starts rendering: pushes it on the render
    /// stack and resets its hook index.
    pub fn begin_render(&mut self, id: FiberId)
        requires
            old(self).wf(),
        ensures
            final(self).wf(),
            final(self).render_stack@ == old(self).render_stack@.push(id),
            final(self).fibers@.dom() == old(self).fibers@.dom(),
            forall|k: u64|
                #![trigger final(self).fibers@[k]]
                final(self).fibers@.contains_key(k) && k != id.0 ==> final(self).fibers@[k] == old(self).fibers@[k],
            old(self).fibers@.contains_key(id.0) ==> final(self).fibers@[id.0] == (Fiber {
                hook_index: 0,
                ..old(self).fibers@[id.0]
            }),
            final(self).order == old(self).order,
            final(self).root == old(self).root,
            final(self).next_id == old(self).next_id,
            final(self).pending_unmount == old(self).pending_unmount,
            final(self).component_id_to_fiber@ == old(self).component_id_to_fiber@,
            final(self).fiber_to_component_id@ == old(self).fiber_to_component_id@,
            final(self).seen_this_render@ == old(self).seen_this_render@,
    {
        self.render_stack.push(id);
        if let Some(mut fiber) = self.fibers.remove(&id.0) {
            fiber.hook_index = 0;
            self.fibers.insert(id.0, fiber);
        }
        proof {
            assert(self.fibers@.dom() =~= old(self).fibers@.dom());
        }
    }

    /// Called when a component finishes rendering: pops the render stack.
    pub fn end_render(&mut self)
        requires
            old(self).wf(),
        ensures
            final(self).wf(),
            final(self).render_stack@ == (if old(self).render_stack@.len() > 0 {
                old(self).render_stack@.drop_last()
            } else {
                old(self).render_stack@
            }),
            final(self).fibers == old(self).fibers,
            final(self).order == old(self).order,
            final(self).root == old(self).root,
            final(self).next_id == old(self).next_id,
            final(self).pending_unmount == old(self).pending_unmount,
            final(self).component_id_to_fiber == old(self).component_id_to_fiber,
            final(self).fiber_to_component_id == old(self).fiber_to_component_id,
            final(self).seen_this_render == old(self).seen_this_render,
    {
        self.render_stack.pop();
    }

    /// Get the currently rendering fiber's ID.
    pub fn current_fiber(&self) -> (r: Option<FiberId>)
        ensures
            r == self.current(),
    {
        if self.render_stack.len() > 0 {
            Some(self.render_stack[self.render_stack.len() - 1])
        } else {
            None
        }
    }

    /// Schedule a fiber for unmount.
    pub fn schedule_unmount(&mut self, id: FiberId)
        requires
            old(self).wf(),
        ensures
            final(self).wf(),
            final(self).pending_unmount@ == old(self).pending_unmount@.push(id),
            final(self).fibers == old(self).fibers,
            final(self).order == old(self).order,
            final(self).root == old(self).root,
            final(self).next_id == old(self).next_id,
            final(self).render_stack == old(self).render_stack,
            final(self).component_id_to_fiber == old(self).component_id_to_fiber,
            final(self).fiber_to_component_id == old(self).fiber_to_component_id,
            final(self).seen_this_render == old(self).seen_this_render,
    {
        self.pending_unmount.push(id);
    }


    /// Mark fibers that are associated with a component ID but were not
    /// seen in this render for unmount, in mount order, and clear the seen
    /// set.
    pub fn mark_unseen_for_unmount(&mut self)
        requires
            old(self).wf(),
        ensures
            final(self).wf(),
            final(self).pending_unmount@ == old(self).pending_unmount@ + ids_of(
                old(self).order@.filter(
                    |k: u64|
                        old(self).fiber_to_component_id@.contains_key(k) && !old(self).seen_this_render@.contains(k),
                ),
            ),
            final(self).seen_this_render@.len() == 0,
            final(self).fibers == old(self).fibers,
            final(self).order == old(self).order,
            final(self).root == old(self).root,
            final(self).next_id == old(self).next_id,
            final(self).render_stack == old(self).render_stack,
            final(self).component_id_to_fiber == old(self).component_id_to_fiber,
            final(self).fiber_to_component_id == old(self).fiber_to_component_id,
    {
        let ghost pred = |k: u64|
            old(self).fiber_to_component_id@.contains_key(k) && !old(self).seen_this_render@.contains(k);
        let n = self.order.len();
        let mut i: usize = 0;
        while i < n
            invariant
                self.wf(),
                n == self.order@.len(),
                0 <= i <= n,
                self.order == old(self).order,
                self.fibers == old(self).fibers,
                self.root == old(self).root,
                self.next_id == old(self).next_id,
                self.render_stack == old(self).render_stack,
                self.component_id_to_fiber == old(self).component_id_to_fiber,
                self.fiber_to_component_id == old(self).fiber_to_component_id,
                self.seen_this_render == old(self).seen_this_render,
                pred == (|k: u64|
                    old(self).fiber_to_component_id@.contains_key(k) && !old(self).seen_this_render@.contains(k)),
                self.pending_unmount@ == old(self).pending_unmount@ + ids_of(
                    self.order@.take(i as int).filter(pred),
                ),
            decreases n - i,
        {
            let k = self.order[i];
            proof {
                assert(self.order@.take(i + 1) =~= self.order@.take(i as int).push(k));
                self.order@.take(i as int).lemma_filter_push(k, pred);
            }
            if self.fiber_to_component_id.contains_key(&k) && !self.seen_this_render.contains(&k) {
                self.pending_unmount.push(FiberId(k));
                proof {
                    assert(ids_of(self.order@.take(i + 1).filter(pred)) =~= ids_of(
                        self.order@.take(i as int).filter(pred),
                    ).push(FiberId(k)));
                }
            }
            i = i + 1;
        }
        proof {
            assert(self.order@.take(n as int) =~= self.order@);
        }
        self.seen_this_render.clear();
    }

    /// Remove the component ID association of a fiber.
    pub fn cleanup_component_id_mapping(&mut self, fiber_id: FiberId)
        requires
            old(self).wf(),
        ensures
            final(self).wf(),
            old(self).fiber_to_component_id@.contains_key(fiber_id.0) ==> final(self).component_id_to_fiber@ == old(self).component_id_to_fiber@.remove(
                old(self).fiber_to_component_id@[fiber_id.0],
            ),
            !old(self).fiber_to_component_id@.contains_key(fiber_id.0) ==> final(self).component_id_to_fiber@ == old(self).component_id_to_fiber@,
            final(self).fiber_to_component_id@ == old(self).fiber_to_component_id@.remove(
                fiber_id.0,
            ),
            final(self).fibers == old(self).fibers,
            final(self).order == old(self).order,
            final(self).root == old(self).root,
            final(self).next_id == old(self).next_id,
            final(self).render_stack == old(self).render_stack,
            final(self).pending_unmount == old(self).pending_unmount,
            final(self).seen_this_render == old(self).seen_this_render,
    {
        if let Some(component_id) = self.fiber_to_component_id.remove(&fiber_id.0) {
            self.component_id_to_fiber.remove(&component_id);
        }
        proof {
            assert(self.fiber_to_component_id@ =~= old(self).fiber_to_component_id@.remove(
                fiber_id.0,
            ));
        }
    }

    /// Prepare all fibers for a new render pass: every fiber's hook index is
    /// reset and its hook names of this render become the previous ones.
    pub fn prepare_for_render(&mut self)
        requires
            old(self).wf(),
        ensures
            final(self).wf(),
            final(self).fibers@.dom() == old(self).fibers@.dom(),
            forall|k: u64|
                #![trigger final(self).fibers@[k]]
                old(self).fibers@.contains_key(k) ==> reset_for_render(
                    old(self).fibers@[k],
                    final(self).fibers@[k],
                ),
            final(self).order == old(self).order,
            final(self).root == old(self).root,
            final(self).next_id == old(self).next_id,
            final(self).render_stack == old(self).render_stack,
            final(self).pending_unmount == old(self).pending_unmount,
            final(self).component_id_to_fiber == old(self).component_id_to_fiber,
            final(self).fiber_to_component_id == old(self).fiber_to_component_id,
            final(self).seen_this_render == old(self).seen_this_render,
    {
        let n = self.order.len();
        let mut i: usize = 0;
        while i < n
            invariant
                self.wf(),
                n == self.order@.len(),
                0 <= i <= n,
                self.order == old(self).order,
                self.fibers@.dom() == old(self).fibers@.dom(),
                self.root == old(self).root,
                self.next_id == old(self).next_id,
                self.render_stack == old(self).render_stack,
                self.pending_unmount == old(self).pending_unmount,
                self.component_id_to_fiber == old(self).component_id_to_fiber,
                self.fiber_to_component_id == old(self).fiber_to_component_id,
                self.seen_this_render == old(self).seen_this_render,
                forall|j: int|
                    #![trigger self.order@[j]]
                    0 <= j < i ==> reset_for_render(
                        old(self).fibers@[self.order@[j]],
                        self.fibers@[self.order@[j]],
                    ),
                forall|j: int|
                    #![trigger self.order@[j]]
                    i <= j < n ==> self.fibers@[self.order@[j]] == old(self).fibers@[self.order@[j]],
            decreases n - i,
        {
            let k = self.order[i];
            proof {
                assert(self.order@.contains(k));
            }
            let ghost before = self.fibers@;
            let mut fiber = self.fibers.remove(&k).unwrap();
            fiber.reset_hook_index();
            self.fibers.insert(k, fiber);
            proof {
                assert(self.fibers@.dom() =~= before.dom());
                assert forall|j: int|
                    #![trigger self.order@[j]]
                    0 <= j < n && j != i implies self.fibers@[self.order@[j]] == before[self.order@[j]] by {
                    assert(self.order@[j] != k);
                }
            }
            i = i + 1;
        }
        proof {
            assert forall|k: u64|
                #![trigger self.fibers@[k]]
                old(self).fibers@.contains_key(k) implies reset_for_render(
                old(self).fibers@[k],
                self.fibers@[k],
            ) by {
                assert(self.order@.contains(k));
                let j = choose|j: int| 0 <= j < self.order@.len() && self.order@[j] == k;
                assert(self.order@[j] == k);
            }
        }
    }

    /// Get a fiber by ID.
    pub fn get(&self, id: FiberId) -> (r: Option<&Fiber>)
        ensures
            r matches Some(f) ==> self.fibers@.contains_key(id.0) && *f == self.fibers@[id.0],
            r is None ==> !self.fibers@.contains_key(id.0),
    {
        self.fibers.get(&id.0)
    }


    /// Get a mutable reference to a fiber by ID. Whatever the caller does
    /// through the reference becomes the tree's fiber under that ID.
    pub fn get_mut(&mut self, id: FiberId) -> (r: Option<&mut Fiber>)
        ensures
            r is Some <==> old(self).fibers@.contains_key(id.0),
            r is Some ==> *r->0 == old(self).fibers@[id.0],
            r is Some ==> final(self).fibers@ == old(self).fibers@.insert(id.0, *final(r->0)),
            r is None ==> final(self).fibers@ == old(self).fibers@,
            final(self).order == old(self).order,
            final(self).root == old(self).root,
            final(self).next_id == old(self).next_id,
            final(self).render_stack == old(self).render_stack,
            final(self).pending_unmount == old(self).pending_unmount,
            final(self).component_id_to_fiber == old(self).component_id_to_fiber,
            final(self).fiber_to_component_id == old(self).fiber_to_component_id,
            final(self).seen_this_render == old(self).seen_this_render,
    {
        fiber_entry(&mut self.fibers, id.0)
    }


    /// Inside a render of a mounted fiber, with room for `n` more hook
    /// indices.
    pub open spec fn hook_room(&self, n: int) -> bool {
        &&& self.in_render()
        &&& self.fibers@[self.current().unwrap().0].hook_index + n < usize::MAX
    }

    /// The hook index the current fiber hands out next.
    pub open spec fn current_hook_index(&self) -> usize {
        self.fibers@[self.current().unwrap().0].hook_index
    }

    /// Enter the next hook of the currently rendering fiber: its name is
    /// recorded and its index handed out.
    pub fn next_hook(&mut self, hook_name: &str) -> (r: (FiberId, usize))
        requires
            old(self).wf(),
            old(self).hook_room(1),
        ensures
            final(self).wf(),
            r.0 == old(self).current().unwrap(),
            r.1 == old(self).current_hook_index(),
            same_except_fiber(*old(self), *final(self), r.0),
            final(self).fibers@[r.0.0].hook_index == r.1 + 1,
            final(self).fibers@[r.0.0].hooks == old(self).fibers@[r.0.0].hooks,
            names(final(self).fibers@[r.0.0].current_hook_types@) == names(
                old(self).fibers@[r.0.0].current_hook_types@,
            ).push(hook_name@),
            same_identity(old(self).fibers@[r.0.0], final(self).fibers@[r.0.0]),
    {
        let id = self.current_fiber().unwrap();
        let f = self.get_mut(id).unwrap();
        f.track_hook_call(hook_name);
        let idx = f.next_hook_index();
        proof {
            assert(self.fibers@.dom() =~= old(self).fibers@.dom());
        }
        (id, idx)
    }

    /// Enter the next hook of the currently rendering fiber without
    /// recording its name.
    pub fn next_hook_untracked(&mut self) -> (r: (FiberId, usize))
        requires
            old(self).wf(),
            old(self).hook_room(1),
        ensures
            final(self).wf(),
            r.0 == old(self).current().unwrap(),
            r.1 == old(self).current_hook_index(),
            same_except_fiber(*old(self), *final(self), r.0),
            final(self).fibers@[r.0.0].hook_index == r.1 + 1,
            final(self).fibers@[r.0.0].hooks == old(self).fibers@[r.0.0].hooks,
            final(self).fibers@[r.0.0].current_hook_types == old(self).fibers@[r.0.0].current_hook_types,
            same_identity(old(self).fibers@[r.0.0], final(self).fibers@[r.0.0]),
    {
        let id = self.current_fiber().unwrap();
        let f = self.get_mut(id).unwrap();
        let idx = f.next_hook_index();
        proof {
            assert(self.fibers@.dom() =~= old(self).fibers@.dom());
        }
        (id, idx)
    }

    /// The value of a hook of a mounted fiber, initialized when the cell
    /// does not hold a `T` yet.
    pub fn hook_get_or_init<T: HookValue, F: FnOnce() -> T>(&mut self, id: FiberId, index: usize, initializer: F) -> (r: T)
        requires
            old(self).wf(),
            old(self).fibers@.contains_key(id.0),
            index < usize::MAX,
            call_requires(initializer, ()),
        ensures
            final(self).wf(),
            same_except_fiber(*old(self), *final(self), id),
            old(self).fibers@[id.0].existing_hook::<T>(index as int) is Some ==> r == old(self).fibers@[id.0].existing_hook::<T>(index as int)->0,
            old(self).fibers@[id.0].existing_hook::<T>(index as int) is None ==> call_ensures(
                initializer,
                (),
                r,
            ),
            final(self).fibers@[id.0].hook_value::<T>(index as int) == Some(r),
            final(self).fibers@[id.0].hooks@.len() == (if index < old(self).fibers@[id.0].hooks@.len() {
                old(self).fibers@[id.0].hooks@.len() as int
            } else {
                index + 1
            }),
            final(self).fibers@[id.0].hook_index == old(self).fibers@[id.0].hook_index,
            final(self).fibers@[id.0].current_hook_types == old(self).fibers@[id.0].current_hook_types,
            same_identity(old(self).fibers@[id.0], final(self).fibers@[id.0]),
            forall|j: int|
                0 <= j < old(self).fibers@[id.0].hooks@.len() && j != index ==> #[trigger] final(self).fibers@[id.0].hooks@[j] == old(self).fibers@[id.0].hooks@[j],
    {
        let f = self.get_mut(id).unwrap();
        let r = f.get_or_init_hook(index, initializer);
        proof {
            assert(self.fibers@.dom() =~= old(self).fibers@.dom());
        }
        r
    }

    /// The value of a hook of a mounted fiber, storing `value` when the cell
    /// does not hold a `T` yet.
    pub fn hook_get_or_insert<T: HookValue>(&mut self, id: FiberId, index: usize, value: T) -> (r: T)
        requires
            old(self).wf(),
            old(self).fibers@.contains_key(id.0),
            index < usize::MAX,
        ensures
            final(self).wf(),
            same_except_fiber(*old(self), *final(self), id),
            old(self).fibers@[id.0].existing_hook::<T>(index as int) is Some ==> r == old(self).fibers@[id.0].existing_hook::<T>(index as int)->0,
            old(self).fibers@[id.0].existing_hook::<T>(index as int) is None ==> r == value,
            final(self).fibers@[id.0].hook_value::<T>(index as int) == Some(r),
            final(self).fibers@[id.0].hooks@.len() == (if index < old(self).fibers@[id.0].hooks@.len() {
                old(self).fibers@[id.0].hooks@.len() as int
            } else {
                index + 1
            }),
            final(self).fibers@[id.0].hook_index == old(self).fibers@[id.0].hook_index,
            final(self).fibers@[id.0].current_hook_types == old(self).fibers@[id.0].current_hook_types,
            same_identity(old(self).fibers@[id.0], final(self).fibers@[id.0]),
            forall|j: int|
                0 <= j < old(self).fibers@[id.0].hooks@.len() && j != index ==> #[trigger] final(self).fibers@[id.0].hooks@[j] == old(self).fibers@[id.0].hooks@[j],
    {
        let f = self.get_mut(id).unwrap();
        let r = f.get_or_insert_hook(index, value);
        proof {
            assert(self.fibers@.dom() =~= old(self).fibers@.dom());
        }
        r
    }

    /// Write a hook cell of a mounted fiber.
    pub fn hook_write(&mut self, id: FiberId, index: usize, slot: crate::slot::Slot)
        requires
            old(self).wf(),
            old(self).fibers@.contains_key(id.0),
            index < usize::MAX,
        ensures
            final(self).wf(),
            same_except_fiber(*old(self), *final(self), id),
            final(self).fibers@[id.0].hooks@ == Fiber::hooks_after_write(
                old(self).fibers@[id.0].hooks@,
                index as int,
                slot,
            ),
            final(self).fibers@[id.0].hook_index == old(self).fibers@[id.0].hook_index,
            final(self).fibers@[id.0].current_hook_types == old(self).fibers@[id.0].current_hook_types,
            same_identity(old(self).fibers@[id.0], final(self).fibers@[id.0]),
    {
        let f = self.get_mut(id).unwrap();
        f.set_slot(index, slot);
        proof {
            assert(self.fibers@.dom() =~= old(self).fibers@.dom());
        }
    }

    /// Record that a mounted fiber provides a context of the type with tag
    /// `tag`; a tag is recorded once.
    pub fn note_provided_context(&mut self, id: FiberId, tag: u64)
        requires
            old(self).wf(),
            old(self).fibers@.contains_key(id.0),
        ensures
            final(self).wf(),
            same_except_fiber(*old(self), *final(self), id),
            final(self).fibers@[id.0].provided_contexts@ == (if old(
                self,
            ).fibers@[id.0].provided_contexts@.contains(tag) {
                old(self).fibers@[id.0].provided_contexts@
            } else {
                old(self).fibers@[id.0].provided_contexts@.push(tag)
            }),
            final(self).fibers@[id.0].hooks == old(self).fibers@[id.0].hooks,
            final(self).fibers@[id.0].hook_index == old(self).fibers@[id.0].hook_index,
            final(self).fibers@[id.0].current_hook_types == old(self).fibers@[id.0].current_hook_types,
            final(self).fibers@[id.0].id == old(self).fibers@[id.0].id,
            final(self).fibers@[id.0].parent == old(self).fibers@[id.0].parent,
            final(self).fibers@[id.0].children == old(self).fibers@[id.0].children,
            final(self).fibers@[id.0].dirty == old(self).fibers@[id.0].dirty,
            final(self).fibers@[id.0].key == old(self).fibers@[id.0].key,
            final(self).fibers@[id.0].previous_hook_types == old(self).fibers@[id.0].previous_hook_types,
    {
        let f = self.get_mut(id).unwrap();
        let mut found = false;
        let mut i: usize = 0;
        while i < f.provided_contexts.len()
            invariant
                0 <= i <= f.provided_contexts@.len(),
                found <==> f.provided_contexts@.take(i as int).contains(tag),
            decreases f.provided_contexts@.len() - i,
        {
            proof {
                assert(f.provided_contexts@.take(i + 1) =~= f.provided_contexts@.take(i as int).push(
                    f.provided_contexts@[i as int],
                ));
            }
            let ghost prefix = f.provided_contexts@.take(i as int);
            let x = f.provided_contexts[i];
            if x == tag {
                found = true;
                proof {
                    assert(prefix.push(x)[i as int] == tag);
                }
            } else {
                proof {
                    assert forall|j: int| 0 <= j < prefix.push(x).len() && prefix.push(x)[j] == tag
                        implies prefix.contains(tag) by {
                        assert(prefix[j] == tag);
                    }
                }
            }
            i = i + 1;
        }
        proof {
            assert(f.provided_contexts@.take(i as int) =~= f.provided_contexts@);
        }
        if !found {
            f.provided_contexts.push(tag);
        }
        proof {
            assert(self.fibers@.dom() =~= old(self).fibers@.dom());
        }
    }

    /// Mark a fiber as dirty (needs re-render).
    pub fn mark_dirty(&mut self, id: FiberId)
        requires
            old(self).wf(),
        ensures
            final(self).wf(),
            final(self).fibers@ == (if old(self).fibers@.contains_key(id.0) {
                old(self).fibers@.insert(id.0, Fiber { dirty: true, ..old(self).fibers@[id.0] })
            } else {
                old(self).fibers@
            }),
            final(self).order == old(self).order,
            final(self).root == old(self).root,
            final(self).next_id == old(self).next_id,
            final(self).render_stack == old(self).render_stack,
            final(self).pending_unmount == old(self).pending_unmount,
            final(self).component_id_to_fiber == old(self).component_id_to_fiber,
            final(self).fiber_to_component_id == old(self).fiber_to_component_id,
            final(self).seen_this_render == old(self).seen_this_render,
    {
        self.set_dirty(id, true);
    }

    /// Mark a fiber as clean (rendered).
    pub fn mark_clean(&mut self, id: FiberId)
        requires
            old(self).wf(),
        ensures
            final(self).wf(),
            final(self).fibers@ == (if old(self).fibers@.contains_key(id.0) {
                old(self).fibers@.insert(id.0, Fiber { dirty: false, ..old(self).fibers@[id.0] })
            } else {
                old(self).fibers@
            }),
            final(self).order == old(self).order,
            final(self).root == old(self).root,
            final(self).next_id == old(self).next_id,
            final(self).render_stack == old(self).render_stack,
            final(self).pending_unmount == old(self).pending_unmount,
            final(self).component_id_to_fiber == old(self).component_id_to_fiber,
            final(self).fiber_to_component_id == old(self).fiber_to_component_id,
            final(self).seen_this_render == old(self).seen_this_render,
    {
        self.set_dirty(id, false);
    }

    fn set_dirty(&mut self, id: FiberId, dirty: bool)
        requires
            old(self).wf(),
        ensures
            final(self).wf(),
            final(self).fibers@ == (if old(self).fibers@.contains_key(id.0) {
                old(self).fibers@.insert(id.0, Fiber { dirty, ..old(self).fibers@[id.0] })
            } else {
                old(self).fibers@
            }),
            final(self).order == old(self).order,
            final(self).root == old(self).root,
            final(self).next_id == old(self).next_id,
            final(self).render_stack == old(self).render_stack,
            final(self).pending_unmount == old(self).pending_unmount,
            final(self).component_id_to_fiber == old(self).component_id_to_fiber,
            final(self).fiber_to_component_id == old(self).fiber_to_component_id,
            final(self).seen_this_render == old(self).seen_this_render,
    {
        if let Some(mut fiber) = self.fibers.remove(&id.0) {
            fiber.dirty = dirty;
            self.fibers.insert(id.0, fiber);
            proof {
                assert(self.fibers@ =~= old(self).fibers@.insert(
                    id.0,
                    Fiber { dirty, ..old(self).fibers@[id.0] },
                ));
            }
        }
    }

    /// The fibers that need re-rendering, in mount order.
    pub fn dirty_fibers(&self) -> (r: Vec<FiberId>)
        requires
            self.wf(),
        ensures
            r@ == ids_of(self.order@.filter(|k: u64| self.fibers@[k].dirty)),
    {
        let ghost pred = |k: u64| self.fibers@[k].dirty;
        let mut out: Vec<FiberId> = Vec::new();
        let n = self.order.len();
        let mut i: usize = 0;
        while i < n
            invariant
                self.wf(),
                n == self.order@.len(),
                0 <= i <= n,
                pred == (|k: u64| self.fibers@[k].dirty),
                out@ == ids_of(self.order@.take(i as int).filter(pred)),
            decreases n - i,
        {
            let k = self.order[i];
            proof {
                assert(self.order@.take(i + 1) =~= self.order@.take(i as int).push(k));
                self.order@.take(i as int).lemma_filter_push(k, pred);
                assert(self.order@.contains(k));
            }
            let fiber = self.fibers.get(&k).unwrap();
            if fiber.dirty {
                out.push(FiberId(k));
                proof {
                    assert(ids_of(self.order@.take(i + 1).filter(pred)) =~= ids_of(
                        self.order@.take(i as int).filter(pred),
                    ).push(FiberId(k)));
                }
            } else {
                proof {
                    assert(ids_of(self.order@.take(i + 1).filter(pred)) =~= ids_of(
                        self.order@.take(i as int).filter(pred),
                    ));
                }
            }
            i = i + 1;
        }
        proof {
            assert(self.order@.take(n as int) =~= self.order@);
        }
        out
    }


    /// Remove a fiber from the tree: it leaves its parent's children, stops
    /// being the root, loses its component ID association, and is returned.
    pub fn remove(&mut self, id: FiberId) -> (r: Option<Fiber>)
        requires
            old(self).wf(),
        ensures
            final(self).wf(),
            r is Some <==> old(self).fibers@.contains_key(id.0),
            final(self).fibers@.dom() == old(self).fibers@.dom().remove(id.0),
            final(self).order@ == old(self).order@.filter(|k: u64| k != id.0),
            forall|k: u64|
                #![trigger final(self).fibers@[k]]
                final(self).fibers@.contains_key(k) && !parent_of(old(self).fibers@, id, k)
                    ==> final(self).fibers@[k] == old(self).fibers@[k],
            forall|k: u64|
                #![trigger final(self).fibers@[k]]
                final(self).fibers@.contains_key(k) && parent_of(old(self).fibers@, id, k)
                    ==> child_removed(old(self).fibers@[k], final(self).fibers@[k], id),
            r matches Some(f) ==> (if parent_of(old(self).fibers@, id, id.0) {
                child_removed(old(self).fibers@[id.0], f, id)
            } else {
                f == old(self).fibers@[id.0]
            }),
            final(self).root == (if old(self).root == Some(id) {
                None
            } else {
                old(self).root
            }),
            old(self).fiber_to_component_id@.contains_key(id.0) ==> final(self).component_id_to_fiber@
                == old(self).component_id_to_fiber@.remove(
                old(self).fiber_to_component_id@[id.0],
            ),
            !old(self).fiber_to_component_id@.contains_key(id.0) ==> final(self).component_id_to_fiber@
                == old(self).component_id_to_fiber@,
            final(self).fiber_to_component_id@ == old(self).fiber_to_component_id@.remove(id.0),
            final(self).next_id == old(self).next_id,
            final(self).render_stack == old(self).render_stack,
            final(self).pending_unmount == old(self).pending_unmount,
            final(self).seen_this_render == old(self).seen_this_render,
    {
        let mut parent: Option<FiberId> = None;
        if let Some(fiber) = self.fibers.get(&id.0) {
            parent = fiber.parent;
        }
        if let Some(parent_id) = parent {
            if let Some(mut parent_fiber) = self.fibers.remove(&parent_id.0) {
                let kept = without_child(&parent_fiber.children, id);
                parent_fiber.children = kept;
                self.fibers.insert(parent_id.0, parent_fiber);
                proof {
                    assert(self.fibers@.dom() =~= old(self).fibers@.dom());
                }
            }
        }
        if self.root == Some(id) {
            self.root = None;
        }
        self.cleanup_component_id_mapping(id);
        let ghost before = self.fibers@;
        let r = self.fibers.remove(&id.0);
        let kept_order = without_key(&self.order, id.0);
        self.order = kept_order;
        proof {
            broadcast use vstd::seq_lib::group_filter_ensures;

            let pred = |x: u64| x != id.0;
            assert(self.fibers@.dom() =~= old(self).fibers@.dom().remove(id.0));
            assert forall|k: u64| #[trigger]
                self.fibers@.contains_key(k) <==> self.order@.contains(k) by {
                if self.order@.contains(k) {
                    old(self).order@.lemma_filter_contains_rev(pred, k);
                    let j = choose|j: int| 0 <= j < self.order@.len() && self.order@[j] == k;
                    assert(pred(old(self).order@.filter(pred)[j]));
                }
                if self.fibers@.contains_key(k) {
                    assert(old(self).order@.contains(k));
                    let j = choose|j: int| 0 <= j < old(self).order@.len() && old(self).order@[j] == k;
                    old(self).order@.lemma_filter_contains(pred, j);
                }
            }
        }
        r
    }

    /// Process all pending unmounts: each scheduled fiber is removed from the
    /// tree, in scheduling order, and the list of scheduled fibers is
    /// returned and emptied. The tree holds no effects or contexts:
    /// `RenderContext::process_unmounts` releases those of the unmounted
    /// fibers before calling this.
    pub fn process_unmounts(&mut self) -> (unmounted: Vec<FiberId>)
        requires
            old(self).wf(),
        ensures
            final(self).wf(),
            unmounted@ == old(self).pending_unmount@,
            final(self).pending_unmount@.len() == 0,
            forall|k: u64|
                #![trigger final(self).fibers@.contains_key(k)]
                final(self).fibers@.contains_key(k) <==> (old(self).fibers@.contains_key(k)
                    && !unmounted@.map_values(|f: FiberId| f.0).contains(k)),
            forall|k: u64|
                #![trigger final(self).fiber_to_component_id@.contains_key(k)]
                final(self).fiber_to_component_id@.contains_key(k) <==> (old(self).fiber_to_component_id@.contains_key(k)
                    && !unmounted@.map_values(|f: FiberId| f.0).contains(k)),
            forall|k: u64|
                #![trigger final(self).fibers@[k]]
                final(self).fibers@.contains_key(k) ==> children_kept(
                    old(self).fibers@[k],
                    final(self).fibers@[k],
                    stays_with(old(self).fibers@, unmounted@, k),
                ),
            final(self).next_id == old(self).next_id,
            final(self).render_stack == old(self).render_stack,
            final(self).seen_this_render == old(self).seen_this_render,
    {
        let mut unmounted: Vec<FiberId> = Vec::new();
        std::mem::swap(&mut unmounted, &mut self.pending_unmount);
        let n = unmounted.len();
        let ghost keys = unmounted@.map_values(|f: FiberId| f.0);
        proof {
            assert forall|k: u64| #[trigger] self.fibers@.contains_key(k) implies children_kept(
                old(self).fibers@[k],
                self.fibers@[k],
                stays_with(old(self).fibers@, unmounted@.take(0), k),
            ) by {
                lemma_filter_same(
                    old(self).fibers@[k].children@,
                    stays_with(old(self).fibers@, unmounted@.take(0), k),
                    |c: FiberId| true,
                );
                assert(old(self).fibers@[k].children@.filter(|c: FiberId| true) =~= old(self).fibers@[k].children@)
                    by {
                    lemma_filter_true(old(self).fibers@[k].children@);
                }
            }
        }
        let mut i: usize = 0;
        while i < n
            invariant
                self.wf(),
                n == unmounted@.len(),
                unmounted@ == old(self).pending_unmount@,
                keys == unmounted@.map_values(|f: FiberId| f.0),
                0 <= i <= n,
                self.pending_unmount@.len() == 0,
                forall|k: u64|
                    #![trigger self.fibers@.contains_key(k)]
                    self.fibers@.contains_key(k) <==> (old(self).fibers@.contains_key(k)
                        && !keys.take(i as int).contains(k)),
                forall|k: u64|
                    #![trigger self.fiber_to_component_id@.contains_key(k)]
                    self.fiber_to_component_id@.contains_key(k) <==> (old(self).fiber_to_component_id@.contains_key(k)
                        && !keys.take(i as int).contains(k)),
                forall|k: u64|
                    #![trigger self.fibers@[k]]
                    self.fibers@.contains_key(k) ==> children_kept(
                        old(self).fibers@[k],
                        self.fibers@[k],
                        stays_with(old(self).fibers@, unmounted@.take(i as int), k),
                    ),
                self.next_id == old(self).next_id,
                self.render_stack == old(self).render_stack,
                self.seen_this_render == old(self).seen_this_render,
            decreases n - i,
        {
            let id = unmounted[i];
            let ghost before = self.fibers@;
            let ghost before_dom = self.fibers@.dom();
            let ghost before_f2c = self.fiber_to_component_id@;
            self.remove(id);
            proof {
                assert(keys.take(i + 1) =~= keys.take(i as int).push(id.0));
                assert forall|k: u64|
                    #![trigger self.fibers@.contains_key(k)]
                    self.fibers@.contains_key(k) <==> (old(self).fibers@.contains_key(k)
                        && !keys.take(i + 1).contains(k)) by {
                    broadcast use vstd::seq_lib::group_seq_properties;

                    assert(keys.take(i + 1).contains(k) <==> (keys.take(i as int).contains(k) || k == id.0));
                }
                assert forall|k: u64|
                    #![trigger self.fiber_to_component_id@.contains_key(k)]
                    self.fiber_to_component_id@.contains_key(k) <==> (old(self).fiber_to_component_id@.contains_key(k)
                        && !keys.take(i + 1).contains(k)) by {
                    broadcast use vstd::seq_lib::group_seq_properties;

                    assert(keys.take(i + 1).contains(k) <==> (keys.take(i as int).contains(k) || k == id.0));
                }
                let ids0 = unmounted@.take(i as int);
                let ids1 = unmounted@.take(i + 1);
                assert(ids1 =~= ids0.push(id));
                assert forall|k: u64|
                    #![trigger self.fibers@[k]]
                    self.fibers@.contains_key(k) implies children_kept(
                        old(self).fibers@[k],
                        self.fibers@[k],
                        stays_with(old(self).fibers@, ids1, k),
                    ) by {
                    broadcast use vstd::seq_lib::group_seq_properties;

                    let p0 = stays_with(old(self).fibers@, ids0, k);
                    let p1 = stays_with(old(self).fibers@, ids1, k);
                    assert(before.contains_key(k));
                    assert(children_kept(old(self).fibers@[k], before[k], p0));
                    if parent_of(before, id, k) {
                        // `id` is still mounted, so it was not among the
                        // earlier ids, and its parent is the one it had.
                        assert(!keys.take(i as int).contains(id.0));
                        assert(old(self).fibers@.contains_key(id.0));
                        assert(children_kept(
                            old(self).fibers@[id.0],
                            before[id.0],
                            stays_with(old(self).fibers@, ids0, id.0),
                        ));
                        assert forall|x: FiberId| #[trigger] p1(x) == (p0(x) && other_than(id)(x)) by {
                            if x == id {
                                assert(ids1.contains(id));
                            } else {
                                assert(ids1.contains(x) <==> ids0.contains(x));
                            }
                        }
                        lemma_filter_both(old(self).fibers@[k].children@, p0, other_than(id), p1);
                    } else {
                        assert forall|x: FiberId| #[trigger] p1(x) == p0(x) by {
                            if x == id {
                                if ids1.contains(id) && old(self).fibers@.contains_key(id.0)
                                    && old(self).fibers@[id.0].parent == Some(FiberId(k)) && !ids0.contains(id) {
                                    assert(!keys.take(i as int).contains(id.0)) by {
                                        if keys.take(i as int).contains(id.0) {
                                            let j = choose|j: int| 0 <= j < keys.take(i as int).len()
                                                && keys.take(i as int)[j] == id.0;
                                            assert(ids0[j].0 == id.0);
                                            assert(ids0[j] == id);
                                        }
                                    }
                                    assert(before.contains_key(id.0));
                                    assert(children_kept(
                                        old(self).fibers@[id.0],
                                        before[id.0],
                                        stays_with(old(self).fibers@, ids0, id.0),
                                    ));
                                    assert(parent_of(before, id, k));
                                }
                            } else {
                                assert(ids1.contains(x) <==> ids0.contains(x));
                            }
                        }
                        lemma_filter_same(old(self).fibers@[k].children@, p0, p1);
                    }
                }
            }
            i = i + 1;
        }
        proof {
            assert(keys.take(n as int) =~= keys);
            assert(unmounted@.take(n as int) =~= unmounted@);
        }
        unmounted
    }

    /// Whether there are pending unmounts.
    pub fn has_pending_unmounts(&self) -> (r: bool)
        ensures
            r == (self.pending_unmount@.len() > 0),
    {
        self.pending_unmount.len() > 0
    }

    /// The number of pending unmounts.
    pub fn pending_unmount_count(&self) -> (r: usize)
        ensures
            r == self.pending_unmount@.len(),
    {
        self.pending_unmount.len()
    }
}

} // verus!
