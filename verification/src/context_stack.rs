//! The context stack: values that provider components make available to
//! the components rendered below them, looked up by type.
use crate::fiber::FiberId;
use crate::slot::{HookValue, Slot};
use vstd::prelude::*;

verus! {

/// One provided value: its provider, its type's tag and the value.
#[derive(Debug)]
pub struct ContextEntry {
    pub fiber_id: FiberId,
    pub tag: u64,
    pub value: Slot,
}

/// Provided values, most recent last.
#[derive(Debug)]
pub struct ContextStack {
    pub entries: Vec<ContextEntry>,
}

/// The most recently provided value of the type with tag `tag`.
pub open spec fn lookup(entries: Seq<ContextEntry>, tag: u64) -> Option<Slot>
    decreases entries.len(),
{
    if entries.len() == 0 {
        None
    } else if entries.last().tag == tag {
        Some(entries.last().value)
    } else {
        lookup(entries.drop_last(), tag)
    }
}

/// The value of type `T` that a lookup finds, if any.
pub open spec fn context_of<T: HookValue>(entries: Seq<ContextEntry>) -> Option<T> {
    match lookup(entries, T::tag()) {
        Some(s) => T::decoded(s),
        None => None,
    }
}

/// Entries not provided by `fiber_id`.
pub open spec fn not_from(fiber_id: FiberId) -> spec_fn(ContextEntry) -> bool {
    |e: ContextEntry| e.fiber_id != fiber_id
}

/// The entry that providing `value` from `fiber_id` pushes.
pub open spec fn entry_of<T: HookValue>(fiber_id: FiberId, value: T) -> ContextEntry {
    ContextEntry { fiber_id, tag: T::tag(), value: value.encoded() }
}

impl ContextStack {
    /// An empty stack.
    pub fn new() -> (s: Self)
        ensures
            s.entries@.len() == 0,
    {
        ContextStack { entries: Vec::new() }
    }

    /// Provide `value` from the fiber `fiber_id`; it shadows earlier values
    /// of its type.
    pub fn push_context<T: HookValue>(&mut self, fiber_id: FiberId, value: T)
        ensures
            final(self).entries@ == old(self).entries@.push(entry_of(fiber_id, value)),
    {
        let tag = T::type_tag();
        let slot = value.encode();
        self.entries.push(ContextEntry { fiber_id, tag, value: slot });
    }

    /// The most recently provided value of type `T`, if any.
    pub fn get_context<T: HookValue>(&self) -> (r: Option<T>)
        ensures
            r == context_of::<T>(self.entries@),
    {
        let tag = T::type_tag();
        let mut i: usize = self.entries.len();
        proof {
            assert(self.entries@.take(i as int) =~= self.entries@);
        }
        while i > 0
            invariant
                i <= self.entries@.len(),
                tag == T::tag(),
                lookup(self.entries@, tag) == lookup(self.entries@.take(i as int), tag),
            decreases i,
        {
            proof {
                assert(self.entries@.take(i as int).drop_last() =~= self.entries@.take(i - 1));
            }
            if self.entries[i - 1].tag == tag {
                return T::decode(&self.entries[i - 1].value);
            }
            i = i - 1;
        }
        proof {
            assert(self.entries@.take(0) =~= Seq::<ContextEntry>::empty());
        }
        None
    }

    /// Remove every value that the fiber `fiber_id` provided (it unmounted).
    pub fn pop_context_for_fiber(&mut self, fiber_id: FiberId)
        ensures
            final(self).entries@ == old(self).entries@.filter(not_from(fiber_id)),
    {
        let ghost pred = not_from(fiber_id);
        let mut out: Vec<ContextEntry> = Vec::new();
        let mut i: usize = 0;
        while i < self.entries.len()
            invariant
                0 <= i <= self.entries@.len(),
                self.entries@ == old(self).entries@,
                pred == not_from(fiber_id),
                out@ == self.entries@.take(i as int).filter(pred),
            decreases self.entries@.len() - i,
        {
            let e = &self.entries[i];
            proof {
                assert(self.entries@.take(i + 1) =~= self.entries@.take(i as int).push(*e));
                self.entries@.take(i as int).lemma_filter_push(*e, pred);
            }
            if e.fiber_id != fiber_id {
                let value = e.value.duplicate();
                out.push(ContextEntry { fiber_id: e.fiber_id, tag: e.tag, value });
            }
            i = i + 1;
        }
        proof {
            assert(self.entries@.take(self.entries@.len() as int) =~= self.entries@);
        }
        self.entries = out;
    }

    /// Remove every value.
    pub fn clear(&mut self)
        ensures
            final(self).entries@.len() == 0,
    {
        self.entries = Vec::new();
    }

    /// The number of provided values.
    pub fn len(&self) -> (r: usize)
        ensures
            r == self.entries@.len(),
    {
        self.entries.len()
    }
}

/// A value just provided is what a lookup of its type finds.
pub proof fn lemma_get_after_push<T: HookValue>(entries: Seq<ContextEntry>, fiber_id: FiberId, value: T)
    ensures
        context_of::<T>(entries.push(entry_of(fiber_id, value))) == Some(value),
{
    let s = entries.push(entry_of(fiber_id, value));
    assert(s.last() == entry_of(fiber_id, value));
    T::lemma_decode_encode(value);
}

/// Providing a value of another type does not change what a lookup of `T`
/// finds.
pub proof fn lemma_push_other_type<T: HookValue>(entries: Seq<ContextEntry>, entry: ContextEntry)
    requires
        entry.tag != T::tag(),
    ensures
        context_of::<T>(entries.push(entry)) == context_of::<T>(entries),
{
    assert(entries.push(entry).drop_last() =~= entries);
}

/// Unmounting a provider that provided nothing before its last value
/// restores the stack as it was before that value.
pub proof fn lemma_pop_undoes_push(entries: Seq<ContextEntry>, fiber_id: FiberId, entry: ContextEntry)
    requires
        entry.fiber_id == fiber_id,
        forall|i: int| 0 <= i < entries.len() ==> (#[trigger] entries[i]).fiber_id != fiber_id,
    ensures
        entries.push(entry).filter(not_from(fiber_id)) == entries,
{
    let pred = not_from(fiber_id);
    entries.lemma_filter_push(entry, pred);
    lemma_filter_keeps_all(entries, pred);
}

/// A filter that keeps every element is the identity.
proof fn lemma_filter_keeps_all(s: Seq<ContextEntry>, pred: spec_fn(ContextEntry) -> bool)
    requires
        forall|i: int| 0 <= i < s.len() ==> pred(#[trigger] s[i]),
    ensures
        s.filter(pred) == s,
    decreases s.len(),
{
    if s.len() > 0 {
        let init = s.drop_last();
        assert forall|i: int| 0 <= i < init.len() implies pred(#[trigger] init[i]) by {
            assert(init[i] == s[i]);
        }
        lemma_filter_keeps_all(init, pred);
        init.lemma_filter_push(s.last(), pred);
        assert(init.push(s.last()) =~= s);
    } else {
        assert(s.filter(pred) =~= s);
    }
}

} // verus!
