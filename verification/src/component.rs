//! Stable component identity: a component is identified by its type and
//! its position among the components created in a frame.
use vstd::prelude::*;

verus! {

/// The position the next component created in this frame gets.
#[derive(Clone, Copy, Debug, PartialEq, Eq, Structural)]
pub struct PositionCounter {
    pub next: u64,
}

impl PositionCounter {
    /// A counter at position 0.
    pub fn new() -> (c: Self)
        ensures
            c.next == 0,
    {
        PositionCounter { next: 0 }
    }
}

/// Start numbering positions from 0 again (at the start of each frame).
pub fn reset_component_position_counter(counter: &mut PositionCounter)
    ensures
        final(counter).next == 0,
{
    counter.next = 0;
}

/// Name of the hash that `DefaultHasher` gives of a type key and a
/// position hashed in that order.
pub uninterp spec fn component_hash(type_key: u64, position: u64) -> u64;

/// Calls `BuildHasher::hash_one` of std's `BuildHasherDefault<DefaultHasher>`
/// on the pair `(type_key, position)`. Trusted: the result is the named
/// hash of the two numbers. `DefaultHasher::new` uses fixed keys, so the
/// same pair hashes alike in every run built with the same std; nothing is
/// claimed about which pairs collide.
#[verifier::external_body]
fn hash_type_and_position(type_key: u64, position: u64) -> (r: u64)
    ensures
        r == component_hash(type_key, position),
{
    std::hash::BuildHasher::hash_one(
        &std::hash::BuildHasherDefault::<std::collections::hash_map::DefaultHasher>::default(),
        (type_key, position),
    )
}

/// The stable ID of the next component of the type with key `type_key`:
/// the hash of the key and the component's position, which moves on by one.
pub fn generate_stable_component_id(counter: &mut PositionCounter, type_key: u64) -> (id: u64)
    requires
        old(counter).next < u64::MAX,
    ensures
        final(counter).next == old(counter).next + 1,
        id == component_hash(type_key, old(counter).next),
{
    let position = counter.next;
    counter.next = position + 1;
    hash_type_and_position(type_key, position)
}

/// Two frames that create the same component types in the same order give
/// them the same IDs: the `i`-th component of a frame gets the hash of its
/// type key and `i`.
pub proof fn lemma_ids_stable_across_frames(type_keys: Seq<u64>, frame_a: Seq<u64>, frame_b: Seq<u64>)
    requires
        frame_a.len() == type_keys.len(),
        frame_b.len() == type_keys.len(),
        forall|i: int| 0 <= i < type_keys.len() ==> #[trigger] frame_a[i] == component_hash(type_keys[i], i as u64),
        forall|i: int| 0 <= i < type_keys.len() ==> #[trigger] frame_b[i] == component_hash(type_keys[i], i as u64),
    ensures
        frame_a == frame_b,
{
    assert(frame_a =~= frame_b);
}

} // verus!
