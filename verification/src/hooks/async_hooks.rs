//! The state of asynchronous work, and the bookkeeping of cached queries.
//!
//! The tasks themselves run outside the library; what they report and what
//! the cache holds is decided here.
use crate::batch::StateBatch;
use crate::fiber::FiberId;
use crate::fiber_tree::{same_except_fiber, FiberTree};
use crate::effect_queue::EffectQueue;
use crate::fiber::PendingEffect;
use crate::hooks::effect::{effect_should_run, use_effect};
use crate::hooks::state::setter_for;
use crate::slot::{HookValue, Slot};
use vstd::prelude::*;

verus! {

/// The state of a future: not started, running, finished with a value, or
/// failed with an error.
#[derive(Debug, Clone, PartialEq)]
pub enum FutureState<T, E = String> {
    Idle,
    Pending,
    Resolved(T),
    Error(E),
}

/// The state after applying `f` to a resolved value.
pub open spec fn map_spec<T, U, E>(s: FutureState<T, E>, f: spec_fn(T) -> U) -> FutureState<U, E> {
    match s {
        FutureState::Idle => FutureState::Idle,
        FutureState::Pending => FutureState::Pending,
        FutureState::Resolved(v) => FutureState::Resolved(f(v)),
        FutureState::Error(e) => FutureState::Error(e),
    }
}

/// The state of a finished computation.
pub open spec fn from_result_spec<T, E>(r: Result<T, E>) -> FutureState<T, E> {
    match r {
        Ok(v) => FutureState::Resolved(v),
        Err(e) => FutureState::Error(e),
    }
}

/// The resolved value, if any.
pub open spec fn resolved_value<T, E>(s: FutureState<T, E>) -> Option<T> {
    match s {
        FutureState::Resolved(v) => Some(v),
        _ => None,
    }
}

/// The error, if any.
pub open spec fn error_value<T, E>(s: FutureState<T, E>) -> Option<E> {
    match s {
        FutureState::Error(e) => Some(e),
        _ => None,
    }
}

/// A borrowed optional value is the given optional value.
pub open spec fn ref_of<T>(r: Option<&T>, v: Option<T>) -> bool {
    match r {
        Some(x) => v == Some(*x),
        None => v is None,
    }
}

impl<T, E> FutureState<T, E> {
    /// Not started.
    pub fn is_idle(&self) -> (r: bool)
        ensures
            r == self is Idle,
    {
        match self {
            FutureState::Idle => true,
            _ => false,
        }
    }

    /// Running.
    pub fn is_pending(&self) -> (r: bool)
        ensures
            r == self is Pending,
    {
        match self {
            FutureState::Pending => true,
            _ => false,
        }
    }

    /// Finished with a value.
    pub fn is_resolved(&self) -> (r: bool)
        ensures
            r == self is Resolved,
    {
        match self {
            FutureState::Resolved(_) => true,
            _ => false,
        }
    }

    /// Failed.
    pub fn is_error(&self) -> (r: bool)
        ensures
            r == self is Error,
    {
        match self {
            FutureState::Error(_) => true,
            _ => false,
        }
    }

    /// The value, if resolved.
    pub fn value(&self) -> (r: Option<&T>)
        ensures
            ref_of(r, resolved_value(*self)),
    {
        match self {
            FutureState::Resolved(v) => Some(v),
            _ => None,
        }
    }

    /// The error, if failed.
    pub fn error(&self) -> (r: Option<&E>)
        ensures
            ref_of(r, error_value(*self)),
    {
        match self {
            FutureState::Error(e) => Some(e),
            _ => None,
        }
    }

    /// Transform the value of a resolved state; other states are kept.
    pub fn map<U, F: FnOnce(T) -> U>(self, f: F) -> (r: FutureState<U, E>)
        requires
            resolved_value(self) is Some ==> call_requires(f, (resolved_value(self)->0,)),
        ensures
            resolved_value(self) is Some ==> r is Resolved && call_ensures(
                f,
                (resolved_value(self)->0,),
                resolved_value(r)->0,
            ),
            self is Idle ==> r is Idle,
            self is Pending ==> r is Pending,
            self is Error ==> r == FutureState::<U, E>::Error(error_value(self)->0),
    {
        match self {
            FutureState::Idle => FutureState::Idle,
            FutureState::Pending => FutureState::Pending,
            FutureState::Resolved(v) => FutureState::Resolved(f(v)),
            FutureState::Error(e) => FutureState::Error(e),
        }
    }

    /// Transform the error of a failed state; other states are kept.
    pub fn map_err<G, F: FnOnce(E) -> G>(self, f: F) -> (r: FutureState<T, G>)
        requires
            error_value(self) is Some ==> call_requires(f, (error_value(self)->0,)),
        ensures
            error_value(self) is Some ==> r is Error && call_ensures(
                f,
                (error_value(self)->0,),
                error_value(r)->0,
            ),
            self is Idle ==> r is Idle,
            self is Pending ==> r is Pending,
            self is Resolved ==> r == FutureState::<T, G>::Resolved(resolved_value(self)->0),
    {
        match self {
            FutureState::Idle => FutureState::Idle,
            FutureState::Pending => FutureState::Pending,
            FutureState::Resolved(v) => FutureState::Resolved(v),
            FutureState::Error(e) => FutureState::Error(f(e)),
        }
    }
}

impl<T, E> Default for FutureState<T, E> {
    fn default() -> (r: Self)
        ensures
            r is Idle,
    {
        FutureState::Idle
    }
}

impl<T, E> From<Result<T, E>> for FutureState<T, E> {
    fn from(result: Result<T, E>) -> (r: Self) {
        match result {
            Ok(v) => FutureState::Resolved(v),
            Err(e) => FutureState::Error(e),
        }
    }
}

impl<T, E> vstd::std_specs::convert::FromSpecImpl<Result<T, E>> for FutureState<T, E> {
    open spec fn obeys_from_spec() -> bool {
        true
    }

    open spec fn from_spec(v: Result<T, E>) -> Self {
        from_result_spec(v)
    }
}

/// Mapping the identity over a state gives the state back.
pub proof fn lemma_map_identity<T, E>(s: FutureState<T, E>)
    ensures
        map_spec(s, |x: T| x) == s,
{
}

/// Mapping twice is mapping the composition once.
pub proof fn lemma_map_compose<T, U, V, E>(s: FutureState<T, E>, f: spec_fn(T) -> U, g: spec_fn(U) -> V)
    ensures
        map_spec(map_spec(s, f), g) == map_spec(s, |x: T| g(f(x))),
{
}

/// A future's state as its component and its task share it: the state,
/// whether the running task was cancelled, and the number of the run whose
/// result is awaited.
#[derive(Debug)]
pub struct FutureHandle<T, E = String> {
    pub state: FutureState<T, E>,
    pub cancelled: bool,
    pub run: u64,
}

impl<T, E> FutureHandle<T, E> {
    /// A future that has not started.
    pub fn new() -> (r: Self)
        ensures
            r.state is Idle,
            !r.cancelled,
            r.run == 0,
    {
        FutureHandle { state: FutureState::Idle, cancelled: false, run: 0 }
    }

    /// The current state.
    pub fn state(&self) -> (r: &FutureState<T, E>)
        ensures
            *r == self.state,
    {
        &self.state
    }

    /// Not started.
    pub fn is_idle(&self) -> (r: bool)
        ensures
            r == self.state is Idle,
    {
        self.state.is_idle()
    }

    /// Running.
    pub fn is_pending(&self) -> (r: bool)
        ensures
            r == self.state is Pending,
    {
        self.state.is_pending()
    }

    /// Finished with a value.
    pub fn is_resolved(&self) -> (r: bool)
        ensures
            r == self.state is Resolved,
    {
        self.state.is_resolved()
    }

    /// Failed.
    pub fn is_error(&self) -> (r: bool)
        ensures
            r == self.state is Error,
    {
        self.state.is_error()
    }

    /// The value, if resolved.
    pub fn value(&self) -> (r: Option<&T>)
        ensures
            ref_of(r, resolved_value(self.state)),
    {
        self.state.value()
    }

    /// The error, if failed.
    pub fn error(&self) -> (r: Option<&E>)
        ensures
            ref_of(r, error_value(self.state)),
    {
        self.state.error()
    }

    /// Cancel the running task: whatever it reports is dropped.
    pub fn cancel(&mut self)
        ensures
            *final(self) == cancelled_spec(*old(self)),
    {
        self.cancelled = true;
    }

    /// Whether the running task was cancelled.
    pub fn is_cancelled(&self) -> (r: bool)
        ensures
            r == self.cancelled,
    {
        self.cancelled
    }

    /// Replace the state.
    pub fn set_state(&mut self, state: FutureState<T, E>)
        ensures
            final(self).state == state,
            final(self).cancelled == old(self).cancelled,
            final(self).run == old(self).run,
    {
        self.state = state;
    }

    /// Start a new run, replacing the running one: the state is pending,
    /// nothing is cancelled, and the new run's number is returned.
    pub fn start(&mut self) -> (run: u64)
        ensures
            *final(self) == started_spec(*old(self)),
            run == final(self).run,
    {
        self.cancel();
        self.cancelled = false;
        self.state = FutureState::Pending;
        self.run = if self.run == u64::MAX {
            0
        } else {
            self.run + 1
        };
        self.run
    }

    /// Record the result of run `run`; it is kept only when that run is the
    /// current one and was not cancelled. Whether it was kept is returned.
    pub fn finish(&mut self, run: u64, result: Result<T, E>) -> (kept: bool)
        ensures
            kept == (!old(self).cancelled && run == old(self).run),
            *final(self) == finished_spec(*old(self), run, result),
    {
        if !self.cancelled && run == self.run {
            self.state = match result {
                Ok(v) => FutureState::Resolved(v),
                Err(e) => FutureState::Error(e),
            };
            true
        } else {
            false
        }
    }
}

/// The handle after a new run starts.
pub open spec fn started_spec<T, E>(h: FutureHandle<T, E>) -> FutureHandle<T, E> {
    FutureHandle { state: FutureState::Pending, cancelled: false, run: next_run(h.run) }
}

/// The handle after run `run` reports `result`.
pub open spec fn finished_spec<T, E>(h: FutureHandle<T, E>, run: u64, result: Result<T, E>) -> FutureHandle<T, E> {
    if !h.cancelled && run == h.run {
        FutureHandle { state: from_result_spec(result), ..h }
    } else {
        h
    }
}

/// The handle after a cancellation.
pub open spec fn cancelled_spec<T, E>(h: FutureHandle<T, E>) -> FutureHandle<T, E> {
    FutureHandle { cancelled: true, ..h }
}

/// A run's result is kept, unless the run was cancelled or replaced: after
/// a start, the started run's result resolves the future; after a start
/// and a cancellation, or after a second start, it is dropped and the
/// future stays pending.
pub proof fn lemma_future_runs<T, E>(h: FutureHandle<T, E>, result: Result<T, E>)
    ensures
        finished_spec(started_spec(h), next_run(h.run), result).state == from_result_spec(result),
        finished_spec(cancelled_spec(started_spec(h)), next_run(h.run), result).state is Pending,
        next_run(next_run(h.run)) != next_run(h.run) ==> finished_spec(
            started_spec(started_spec(h)),
            next_run(h.run),
            result,
        ).state is Pending,
{
}

/// The marker a new future cell holds.
fn first_generation() -> (r: u64)
    ensures
        r == 0,
{
    0
}

/// A future of the current component: one hook cell marks it, and its
/// effect, which starts the task, is registered with `deps` in the next
/// cell (see `use_effect`). The cell's identity is returned; the shared
/// `FutureHandle` is kept by the caller under it.
pub fn use_future<D: HookValue, X, C>(
    tree: &mut FiberTree,
    queue: &mut EffectQueue<X, C>,
    effect: X,
    deps: Option<D>,
) -> (r: (FiberId, usize))
    requires
        old(tree).wf(),
        old(tree).hook_room(2),
        old(queue).wf(),
    ensures
        final(tree).wf(),
        final(queue).wf(),
        r.0 == old(tree).current().unwrap(),
        r.1 == old(tree).current_hook_index(),
        same_except_fiber(*old(tree), *final(tree), r.0),
        final(tree).fibers@[r.0.0].hook_index == r.1 + 2,
        final(tree).fibers@[r.0.0].hook_value::<Option<D>>(r.1 + 1) == Some(deps),
        effect_should_run(deps, old(tree).fibers@[r.0.0].hook_value::<Option<D>>(r.1 + 1))
            ==> final(queue).effects@ == old(queue).effects@.push(
            (r.0, PendingEffect { effect, hook_index: (r.1 + 1) as usize }),
        ),
        effect_should_run(deps, old(tree).fibers@[r.0.0].hook_value::<Option<D>>(r.1 + 1))
            ==> crate::effect_queue::released_for(*old(queue), *final(queue), r.0, (r.1 + 1) as usize),
        !effect_should_run(deps, old(tree).fibers@[r.0.0].hook_value::<Option<D>>(r.1 + 1))
            ==> *final(queue) == *old(queue),
{
    let ghost t0 = *tree;
    let (id, idx) = tree.next_hook("use_future");
    let _generation: u64 = tree.hook_get_or_init(id, idx, first_generation);
    let ghost t1 = *tree;
    proof {
        let f0 = t0.fibers@[id.0];
        let f1 = t1.fibers@[id.0];
        if f0.hooks@.len() > idx + 1 {
            assert(f1.hooks@[idx + 1] == f0.hooks@[idx + 1]);
            assert(f1.hook_value::<Option<D>>(idx + 1) == f0.hook_value::<Option<D>>(idx + 1));
        } else {
            assert(f1.hooks@.len() <= idx + 1);
            assert(f1.hook_value::<Option<D>>(idx + 1) is None);
        }
    }
    use_effect(tree, queue, effect, deps);
    (id, idx)
}

/// The status of a query.
#[derive(Debug, Clone, Copy, PartialEq, Eq, Structural)]
pub enum QueryStatus {
    Idle,
    Loading,
    Refreshing,
    Success,
    Error,
}

impl Default for QueryStatus {
    fn default() -> (r: Self)
        ensures
            r == QueryStatus::Idle,
    {
        QueryStatus::Idle
    }
}

/// Options of a query; times are in nanoseconds.
#[derive(Debug, Clone, Copy, PartialEq, Eq, Structural)]
pub struct QueryOptions {
    /// Whether the query runs at all.
    pub enabled: bool,
    /// Age after which cached data is stale and refetched.
    pub stale_time_ns: u64,
    /// Age after which cached data is dropped.
    pub cache_time_ns: u64,
    /// Whether failed fetches are retried.
    pub retry: bool,
    /// How many times a failed fetch is retried.
    pub retry_attempts: u32,
    /// Delay between retries.
    pub retry_delay_ns: u64,
}

impl Default for QueryOptions {
    fn default() -> (r: Self)
        ensures
            r == (QueryOptions {
                enabled: true,
                stale_time_ns: 0,
                cache_time_ns: 300_000_000_000,
                retry: true,
                retry_attempts: 3,
                retry_delay_ns: 1_000_000_000,
            }),
    {
        QueryOptions {
            enabled: true,
            stale_time_ns: 0,
            cache_time_ns: 300_000_000_000,
            retry: true,
            retry_attempts: 3,
            retry_delay_ns: 1_000_000_000,
        }
    }
}

/// One cached query result.
#[derive(Debug)]
pub struct QueryCacheEntry {
    pub key: String,
    pub data: Slot,
    /// When the data was fetched, in nanoseconds on the caller's clock.
    pub fetched_at_ns: u64,
}

/// The query cache and the refetch counters of the queries.
#[derive(Debug)]
pub struct QueryClient {
    pub cache: Vec<QueryCacheEntry>,
    pub triggers: Vec<u64>,
}

/// The position of the last entry for `key`, if any (keys are unique in a
/// well-formed client, so it is the only one).
pub open spec fn entry_index(cache: Seq<QueryCacheEntry>, key: Seq<char>) -> Option<int>
    decreases cache.len(),
{
    if cache.len() == 0 {
        None
    } else if cache.last().key@ == key {
        Some(cache.len() - 1)
    } else {
        entry_index(cache.drop_last(), key)
    }
}

/// The cache entry of `key`, if any.
pub open spec fn entry_for(cache: Seq<QueryCacheEntry>, key: Seq<char>) -> Option<QueryCacheEntry> {
    match entry_index(cache, key) {
        Some(i) => Some(cache[i]),
        None => None,
    }
}

/// Time elapsed from `from` to `to`, 0 when the clock went back.
pub open spec fn elapsed(from: u64, to: u64) -> int {
    if to >= from { to - from } else { 0 }
}

/// What a lookup finds for `key` at time `now_ns`: the data read as a `T`
/// and whether it is stale, unless there is none, it expired or it is not
/// a `T`.
pub open spec fn cached_spec<T: HookValue>(
    cache: Seq<QueryCacheEntry>,
    key: Seq<char>,
    now_ns: u64,
    options: QueryOptions,
) -> Option<(T, bool)> {
    match entry_index(cache, key) {
        Some(i) => {
            let e = cache[i];
            let age = elapsed(e.fetched_at_ns, now_ns);
            if age > options.cache_time_ns {
                None
            } else {
                match T::decoded(e.data) {
                    Some(v) => Some((v, age > options.stale_time_ns)),
                    None => None,
                }
            }
        },
        None => None,
    }
}

impl QueryClient {
    /// Cache keys are unique.
    pub open spec fn wf(&self) -> bool {
        forall|i: int, j: int|
            0 <= i < j < self.cache@.len() ==> #[trigger] self.cache@[i].key@ != #[trigger] self.cache@[j].key@
    }

    /// The keys in the cache.
    pub open spec fn keys(&self) -> Set<Seq<char>> {
        Set::new(|k: Seq<char>| entry_index(self.cache@, k) is Some)
    }

    /// An empty cache with no queries.
    pub fn new() -> (r: Self)
        ensures
            r.wf(),
            r.cache@.len() == 0,
            r.triggers@.len() == 0,
    {
        QueryClient { cache: Vec::new(), triggers: Vec::new() }
    }

    /// Find the entry for `key`.
    pub fn find(&self, key: &String) -> (r: Option<usize>)
        requires
            self.wf(),
        ensures
            r is Some <==> entry_index(self.cache@, key@) is Some,
            r is Some ==> r->0 < self.cache@.len() && self.cache@[r->0 as int].key@ == key@,
            r is Some ==> entry_index(self.cache@, key@) == Some(r->0 as int),
    {
        let mut i: usize = 0;
        while i < self.cache.len()
            invariant
                self.wf(),
                0 <= i <= self.cache@.len(),
                forall|j: int| 0 <= j < i ==> (#[trigger] self.cache@[j]).key@ != key@,
            decreases self.cache@.len() - i,
        {
            if self.cache[i].key == *key {
                proof {
                    lemma_unique_index(self.cache@, i as int);
                }
                return Some(i);
            }
            i = i + 1;
        }
        proof {
            if entry_index(self.cache@, key@) is Some {
                lemma_entry_index_sound(self.cache@, key@);
            }
        }
        None
    }

    /// Store fetched data for `key`, replacing older data.
    pub fn store(&mut self, key: String, data: Slot, fetched_at_ns: u64)
        requires
            old(self).wf(),
        ensures
            final(self).wf(),
            final(self).triggers == old(self).triggers,
            entry_index(final(self).cache@, key@) is Some,
            ({
                let e = final(self).cache@[entry_index(final(self).cache@, key@)->0];
                e.data == data && e.fetched_at_ns == fetched_at_ns
            }),
            forall|k: Seq<char>| k != key@ ==> entry_index(final(self).cache@, k) is Some == entry_index(
                old(self).cache@,
                k,
            ) is Some,
            forall|k: Seq<char>|
                k != key@ && #[trigger] entry_index(old(self).cache@, k) is Some ==> final(self).cache@[entry_index(
                    final(self).cache@,
                    k,
                )->0] == old(self).cache@[entry_index(old(self).cache@, k)->0],
    {
        match self.find(&key) {
            Some(i) => {
                let ghost old_cache = self.cache@;
                let e = QueryCacheEntry { key, data, fetched_at_ns };
                self.cache.set(i, e);
                proof {
                    assert forall|k: Seq<char>| #[trigger] entry_index(self.cache@, k) == entry_index(old_cache, k) by {
                        lemma_same_keys_same_index(old_cache, self.cache@, k);
                    }
                    assert forall|a: int, b: int| 0 <= a < b < self.cache@.len() implies #[trigger] self.cache@[a].key@ != #[trigger] self.cache@[b].key@ by {
                        assert(self.cache@[a].key@ == old_cache[a].key@);
                        assert(self.cache@[b].key@ == old_cache[b].key@);
                    }
                    assert forall|k: Seq<char>| k != key@ && #[trigger] entry_index(old_cache, k) is Some implies self.cache@[entry_index(self.cache@, k)->0] == old_cache[entry_index(old_cache, k)->0] by {
                        lemma_entry_index_sound(old_cache, k);
                    }
                }
            },
            None => {
                let ghost old_cache = self.cache@;
                self.cache.push(QueryCacheEntry { key, data, fetched_at_ns });
                proof {
                    let n = old_cache.len() as int;
                    assert(self.cache@[n].key@ == key@);
                    assert forall|k: Seq<char>| k != key@ implies #[trigger] entry_index(self.cache@, k) == entry_index(old_cache, k) by {
                        lemma_push_other_key(old_cache, self.cache@[n], k);
                    }
                    assert forall|a: int, b: int| 0 <= a < b < self.cache@.len() implies #[trigger] self.cache@[a].key@ != #[trigger] self.cache@[b].key@ by {
                        if b == n {
                            assert(self.cache@[a] == old_cache[a]);
                            if old_cache[a].key@ == key@ {
                                lemma_unique_index(old_cache, a);
                            }
                        }
                    }
                    lemma_unique_index(self.cache@, n);
                    assert forall|k: Seq<char>| k != key@ && #[trigger] entry_index(old_cache, k) is Some implies self.cache@[entry_index(self.cache@, k)->0] == old_cache[entry_index(old_cache, k)->0] by {
                        lemma_entry_index_sound(old_cache, k);
                    }
                }
            },
        }
    }

    /// Remove the entry for `key`, if any.
    pub fn remove(&mut self, key: &String)
        requires
            old(self).wf(),
        ensures
            final(self).wf(),
            final(self).triggers == old(self).triggers,
            entry_index(final(self).cache@, key@) is None,
            forall|k: Seq<char>| k != key@ ==> entry_index(final(self).cache@, k) is Some == entry_index(
                old(self).cache@,
                k,
            ) is Some,
            forall|k: Seq<char>| k != key@ ==> #[trigger] entry_for(final(self).cache@, k) == entry_for(
                old(self).cache@,
                k,
            ),
    {
        match self.find(key) {
            Some(i) => {
                let ghost old_cache = self.cache@;
                let _e = self.cache.remove(i);
                proof {
                    assert forall|a: int, b: int| 0 <= a < b < self.cache@.len() implies #[trigger] self.cache@[a].key@ != #[trigger] self.cache@[b].key@ by {
                        let a0 = if a < i { a } else { a + 1 };
                        let b0 = if b < i { b } else { b + 1 };
                        assert(self.cache@[a] == old_cache[a0]);
                        assert(self.cache@[b] == old_cache[b0]);
                    }
                    assert forall|k: Seq<char>| (#[trigger] entry_index(self.cache@, k) is Some <==> (entry_index(old_cache, k) is Some && k != key@)) && (k != key@ ==> entry_for(self.cache@, k) == entry_for(old_cache, k)) by {
                        if entry_index(old_cache, k) is Some && k != key@ {
                            lemma_entry_index_sound(old_cache, k);
                            let j = entry_index(old_cache, k)->0;
                            assert(j != i);
                            let j1 = if j < i { j } else { j - 1 };
                            assert(self.cache@[j1] == old_cache[j]);
                            lemma_unique_index(self.cache@, j1);
                        }
                        if entry_index(self.cache@, k) is Some {
                            lemma_entry_index_sound(self.cache@, k);
                            let j = entry_index(self.cache@, k)->0;
                            let j0 = if j < i { j } else { j + 1 };
                            assert(self.cache@[j] == old_cache[j0]);
                            assert(j0 != i);
                            lemma_unique_index(old_cache, j0);
                        }
                    }
                    if entry_index(self.cache@, key@) is Some {
                        assert(false);
                    }
                }
            },
            None => {},
        }
    }

    /// The cached data for `key` at time `now_ns` as a `T`, with whether
    /// it is stale; none when missing, expired or of another type.
    pub fn cached<T: HookValue>(&self, key: &String, now_ns: u64, options: &QueryOptions) -> (r: Option<(T, bool)>)
        requires
            self.wf(),
        ensures
            r == cached_spec::<T>(self.cache@, key@, now_ns, *options),
    {
        match self.find(key) {
            Some(i) => {
                let e = &self.cache[i];
                let age: u64 = if now_ns >= e.fetched_at_ns { now_ns - e.fetched_at_ns } else { 0 };
                if age > options.cache_time_ns {
                    None
                } else {
                    match T::decode(&e.data) {
                        Some(v) => Some((v, age > options.stale_time_ns)),
                        None => None,
                    }
                }
            },
            None => None,
        }
    }

    /// Add a query's refetch counter, starting at 0; its number is returned.
    pub fn register_query(&mut self) -> (id: usize)
        requires
            old(self).triggers@.len() < usize::MAX,
        ensures
            id == old(self).triggers@.len(),
            final(self).triggers@ == old(self).triggers@.push(0),
            final(self).cache == old(self).cache,
    {
        let id = self.triggers.len();
        self.triggers.push(0);
        id
    }

    /// Count one more refetch request of query `id` (wrapping).
    pub fn bump_trigger(&mut self, id: usize)
        requires
            id < old(self).triggers@.len(),
        ensures
            final(self).triggers@ == old(self).triggers@.update(
                id as int,
                (if old(self).triggers@[id as int] == u64::MAX {
                    0
                } else {
                    old(self).triggers@[id as int] + 1
                }) as u64,
            ),
            final(self).cache == old(self).cache,
    {
        let v = self.triggers[id];
        let n = if v == u64::MAX { 0 } else { v + 1 };
        self.triggers.set(id, n);
    }
}

/// A position found for `k` holds an entry for `k`.
proof fn lemma_entry_index_sound(c: Seq<QueryCacheEntry>, k: Seq<char>)
    requires
        entry_index(c, k) is Some,
    ensures
        0 <= entry_index(c, k)->0 < c.len(),
        c[entry_index(c, k)->0].key@ == k,
    decreases c.len(),
{
    if c.last().key@ != k {
        lemma_entry_index_sound(c.drop_last(), k);
    }
}

/// Entries in sequences with the same keys give the same positions.
proof fn lemma_same_keys_same_index(a: Seq<QueryCacheEntry>, b: Seq<QueryCacheEntry>, k: Seq<char>)
    requires
        a.len() == b.len(),
        forall|i: int| 0 <= i < a.len() ==> (#[trigger] a[i]).key@ == b[i].key@,
    ensures
        entry_index(a, k) == entry_index(b, k),
    decreases a.len(),
{
    if a.len() > 0 {
        let a1 = a.drop_last();
        let b1 = b.drop_last();
        assert forall|i: int| 0 <= i < a1.len() implies (#[trigger] a1[i]).key@ == b1[i].key@ by {
            assert(a1[i] == a[i]);
            assert(b1[i] == b[i]);
        }
        lemma_same_keys_same_index(a1, b1, k);
        assert(a.last().key@ == b.last().key@);
    }
}

/// Pushing an entry of another key keeps the position of `k`.
proof fn lemma_push_other_key(a: Seq<QueryCacheEntry>, e: QueryCacheEntry, k: Seq<char>)
    requires
        e.key@ != k,
    ensures
        entry_index(a.push(e), k) == entry_index(a, k),
{
    assert(a.push(e).drop_last() =~= a);
}

/// With unique keys, the entry at `n` is the one found for its key.
proof fn lemma_unique_index(c: Seq<QueryCacheEntry>, n: int)
    requires
        0 <= n < c.len(),
        forall|i: int, j: int| 0 <= i < j < c.len() ==> #[trigger] c[i].key@ != #[trigger] c[j].key@,
    ensures
        entry_index(c, c[n].key@) == Some(n),
    decreases c.len(),
{
    if n != c.len() - 1 {
        let c1 = c.drop_last();
        assert(c[n].key@ != c[c.len() - 1].key@);
        assert(c1[n] == c[n]);
        assert forall|i: int, j: int| 0 <= i < j < c1.len() implies #[trigger] c1[i].key@ != #[trigger] c1[j].key@ by {
            assert(c1[i] == c[i]);
            assert(c1[j] == c[j]);
        }
        lemma_unique_index(c1, n);
    }
}

/// Drop every cached query result.
pub fn clear_query_cache(client: &mut QueryClient)
    ensures
        final(client).wf(),
        final(client).cache@.len() == 0,
        final(client).triggers == old(client).triggers,
{
    client.cache = Vec::new();
}

/// The status a query moves to when its effect runs, if it fetches: a
/// disabled query never fetches; fresh cached data is kept unless a
/// refetch was requested; otherwise it is loading, or refreshing when
/// cached data is shown meanwhile.
pub open spec fn fetch_decision_spec(enabled: bool, cached_stale: Option<bool>, trigger: u64) -> Option<QueryStatus> {
    if !enabled {
        None
    } else if cached_stale == Some(false) && trigger == 0 {
        None
    } else if cached_stale is Some {
        Some(QueryStatus::Refreshing)
    } else {
        Some(QueryStatus::Loading)
    }
}

/// When a query fetches: never while disabled; when enabled, without
/// cached data it loads, with stale data it refreshes, and with fresh data
/// it refreshes only once a refetch was requested.
pub proof fn lemma_fetch_rules(cached_stale: Option<bool>, trigger: u64)
    ensures
        fetch_decision_spec(false, cached_stale, trigger) is None,
        fetch_decision_spec(true, None, trigger) == Some(QueryStatus::Loading),
        fetch_decision_spec(true, Some(true), trigger) == Some(QueryStatus::Refreshing),
        fetch_decision_spec(true, Some(false), 0) is None,
        trigger != 0 ==> fetch_decision_spec(true, Some(false), trigger) == Some(QueryStatus::Refreshing),
{
}

/// Nothing is cached for a key without an entry, so a query whose key was
/// invalidated finds no data until it fetches again.
pub proof fn lemma_invalidated_not_cached<T: HookValue>(
    cache: Seq<QueryCacheEntry>,
    key: Seq<char>,
    now: u64,
    options: QueryOptions,
)
    requires
        entry_index(cache, key) is None,
    ensures
        cached_spec::<T>(cache, key, now, options) is None,
{
}

/// Decide whether a query fetches and with which status; `cached_stale`
/// tells whether cached data exists and is stale.
pub fn fetch_decision(enabled: bool, cached_stale: Option<bool>, trigger: u64) -> (r: Option<QueryStatus>)
    ensures
        r == fetch_decision_spec(enabled, cached_stale, trigger),
{
    if !enabled {
        return None;
    }
    let should_fetch = match cached_stale {
        None => true,
        Some(stale) => stale,
    };
    if !should_fetch && trigger == 0 {
        return None;
    }
    match cached_stale {
        Some(_) => Some(QueryStatus::Refreshing),
        None => Some(QueryStatus::Loading),
    }
}

/// What a component reads of a query.
#[derive(Debug, Clone)]
pub struct QueryResult<T, E> {
    pub status: QueryStatus,
    pub data: Option<T>,
    pub error: Option<E>,
    pub is_stale: bool,
    pub is_fetching: bool,
    /// The query's cache key.
    pub cache_key: String,
    /// The query's refetch counter in the client.
    pub trigger: usize,
}

impl<T, E> QueryResult<T, E> {
    /// Request a refetch.
    pub fn refetch(&self, client: &mut QueryClient)
        requires
            self.trigger < old(client).triggers@.len(),
        ensures
            final(client).triggers@ == old(client).triggers@.update(
                self.trigger as int,
                (if old(client).triggers@[self.trigger as int] == u64::MAX {
                    0
                } else {
                    old(client).triggers@[self.trigger as int] + 1
                }) as u64,
            ),
            final(client).cache == old(client).cache,
    {
        client.bump_trigger(self.trigger);
    }

    /// Drop the cached data and request a refetch.
    pub fn invalidate(&self, client: &mut QueryClient)
        requires
            old(client).wf(),
            self.trigger < old(client).triggers@.len(),
        ensures
            final(client).wf(),
            entry_index(final(client).cache@, self.cache_key@) is None,
            forall|k: Seq<char>| k != self.cache_key@ ==> entry_index(final(client).cache@, k) is Some
                == entry_index(old(client).cache@, k) is Some,
            forall|k: Seq<char>| k != self.cache_key@ ==> #[trigger] entry_for(final(client).cache@, k)
                == entry_for(old(client).cache@, k),
            final(client).triggers@ == old(client).triggers@.update(
                self.trigger as int,
                (if old(client).triggers@[self.trigger as int] == u64::MAX {
                    0
                } else {
                    old(client).triggers@[self.trigger as int] + 1
                }) as u64,
            ),
    {
        client.remove(&self.cache_key);
        client.bump_trigger(self.trigger);
    }

    /// The first fetch is running.
    pub fn is_loading(&self) -> (r: bool)
        ensures
            r == (self.status == QueryStatus::Loading),
    {
        self.status == QueryStatus::Loading
    }

    /// The last fetch succeeded.
    pub fn is_success(&self) -> (r: bool)
        ensures
            r == (self.status == QueryStatus::Success),
    {
        self.status == QueryStatus::Success
    }

    /// The last fetch failed.
    pub fn is_error(&self) -> (r: bool)
        ensures
            r == (self.status == QueryStatus::Error),
    {
        self.status == QueryStatus::Error
    }
}

/// A copy of a value, made through its cell encoding.
pub fn copy_value<T: HookValue>(v: &T) -> (r: T)
    ensures
        r == *v,
{
    proof {
        T::lemma_decode_encode(*v);
    }
    T::decode(&v.encode()).unwrap()
}

/// A copy of an optional value.
fn copy_option<T: HookValue>(v: &Option<T>) -> (r: Option<T>)
    ensures
        r == *v,
{
    match v {
        Some(x) => Some(copy_value(x)),
        None => None,
    }
}

/// The tag of query statuses in hook cells.
pub const QUERY_STATUS_TAG: u64 = 0x5155_4552_5953_5400u64;

impl QueryStatus {
    /// The status's number in a hook cell.
    pub open spec fn code(self) -> u16 {
        match self {
            QueryStatus::Idle => 0,
            QueryStatus::Loading => 1,
            QueryStatus::Refreshing => 2,
            QueryStatus::Success => 3,
            QueryStatus::Error => 4,
        }
    }

    /// The status of a number, if any.
    pub open spec fn of_code(c: u16) -> Option<QueryStatus> {
        if c == 0 {
            Some(QueryStatus::Idle)
        } else if c == 1 {
            Some(QueryStatus::Loading)
        } else if c == 2 {
            Some(QueryStatus::Refreshing)
        } else if c == 3 {
            Some(QueryStatus::Success)
        } else if c == 4 {
            Some(QueryStatus::Error)
        } else {
            None
        }
    }
}

impl HookValue for QueryStatus {
    open spec fn encoded(&self) -> Slot {
        Slot::U16(self.code())
    }

    open spec fn decoded(s: Slot) -> Option<QueryStatus> {
        match s {
            Slot::U16(c) => QueryStatus::of_code(c),
            _ => None,
        }
    }

    open spec fn tag() -> u64 {
        QUERY_STATUS_TAG
    }

    proof fn lemma_decode_encode(v: QueryStatus) {
    }

    fn encode(&self) -> (s: Slot) {
        match self {
            QueryStatus::Idle => Slot::U16(0),
            QueryStatus::Loading => Slot::U16(1),
            QueryStatus::Refreshing => Slot::U16(2),
            QueryStatus::Success => Slot::U16(3),
            QueryStatus::Error => Slot::U16(4),
        }
    }

    fn decode(s: &Slot) -> (r: Option<QueryStatus>) {
        match s {
            Slot::U16(c) => if *c == 0 {
                Some(QueryStatus::Idle)
            } else if *c == 1 {
                Some(QueryStatus::Loading)
            } else if *c == 2 {
                Some(QueryStatus::Refreshing)
            } else if *c == 3 {
                Some(QueryStatus::Success)
            } else if *c == 4 {
                Some(QueryStatus::Error)
            } else {
                None
            },
            _ => None,
        }
    }

    fn type_tag() -> (t: u64) {
        QUERY_STATUS_TAG
    }
}

/// What a query keeps in its hook cell: the state of its last fetch and
/// the number of its refetch counter in the client.
#[derive(Debug)]
pub struct QueryHookState<T, E> {
    pub status: QueryStatus,
    pub data: Option<T>,
    pub error: Option<E>,
    pub is_stale: bool,
    pub is_fetching: bool,
    pub trigger: usize,
}

/// The tag of query states in hook cells.
pub const QUERY_STATE_TAG: u64 = 0x5155_4552_5953_5445u64;

/// The fields of a query state after its status and data, as nested pairs.
pub type QueryRest<E> = (Option<E>, (bool, (bool, usize)));

impl<T, E> QueryHookState<T, E> {
    /// The state of a query that has not fetched, with counter `trigger`.
    pub open spec fn fresh(trigger: usize) -> Self {
        QueryHookState {
            status: QueryStatus::Idle,
            data: None,
            error: None,
            is_stale: false,
            is_fetching: false,
            trigger,
        }
    }
}

impl<T: HookValue, E: HookValue> HookValue for QueryHookState<T, E> {
    open spec fn encoded(&self) -> Slot {
        Slot::Tagged(
            QUERY_STATE_TAG,
            Box::new(
                (self.status, (self.data, (self.error, (self.is_stale, (self.is_fetching, self.trigger))))).encoded(),
            ),
        )
    }

    open spec fn decoded(s: Slot) -> Option<QueryHookState<T, E>> {
        match s {
            Slot::Tagged(t, b) => if t == QUERY_STATE_TAG {
                match <(QueryStatus, (Option<T>, QueryRest<E>)) as HookValue>::decoded(*b) {
                    Some(v) => Some(
                        QueryHookState {
                            status: v.0,
                            data: v.1.0,
                            error: v.1.1.0,
                            is_stale: v.1.1.1.0,
                            is_fetching: v.1.1.1.1.0,
                            trigger: v.1.1.1.1.1,
                        },
                    ),
                    None => None,
                }
            } else {
                None
            },
            _ => None,
        }
    }

    open spec fn tag() -> u64 {
        QUERY_STATE_TAG
    }

    proof fn lemma_decode_encode(v: QueryHookState<T, E>) {
        <(QueryStatus, (Option<T>, QueryRest<E>)) as HookValue>::lemma_decode_encode(
            (v.status, (v.data, (v.error, (v.is_stale, (v.is_fetching, v.trigger))))),
        );
    }

    fn encode(&self) -> (s: Slot) {
        let flags: (bool, (bool, usize)) = (self.is_stale, (self.is_fetching, self.trigger));
        Slot::Tagged(
            QUERY_STATE_TAG,
            Box::new(
                Slot::Pair(
                    Box::new(self.status.encode()),
                    Box::new(
                        Slot::Pair(
                            Box::new(self.data.encode()),
                            Box::new(Slot::Pair(Box::new(self.error.encode()), Box::new(flags.encode()))),
                        ),
                    ),
                ),
            ),
        )
    }

    fn decode(s: &Slot) -> (r: Option<QueryHookState<T, E>>) {
        match s {
            Slot::Tagged(t, b) => if *t == QUERY_STATE_TAG {
                match <(QueryStatus, (Option<T>, QueryRest<E>)) as HookValue>::decode(&**b) {
                    Some(v) => {
                        let (status, (data, (error, (is_stale, (is_fetching, trigger))))) = v;
                        Some(QueryHookState { status, data, error, is_stale, is_fetching, trigger })
                    },
                    None => None,
                }
            } else {
                None
            },
            _ => None,
        }
    }

    fn type_tag() -> (t: u64) {
        QUERY_STATE_TAG
    }
}

/// A fetch a query's effect starts: where its state goes, what it fetches
/// for, with which options, the status it shows meanwhile and the cached
/// data it shows until the fetch ends.
#[derive(Debug)]
pub struct QueryFetch<T> {
    pub fiber_id: FiberId,
    pub hook_index: usize,
    pub cache_key: String,
    pub options: QueryOptions,
    pub status: QueryStatus,
    pub cached: Option<T>,
    pub trigger: usize,
}

/// How many times a query fetches at most: the first fetch and the
/// retries when retrying is on, once otherwise.
pub open spec fn query_attempt_limit(options: QueryOptions) -> int {
    if options.retry {
        options.retry_attempts + 1
    } else {
        1
    }
}

/// What a query's task does after a fetch: queue a final state, fetch
/// again after a wait in nanoseconds, or stop because it was cancelled.
#[derive(Debug)]
pub enum QueryStep<T, E> {
    Done(QueryHookState<T, E>),
    RetryAfter(u64),
    Cancelled,
}

impl<T: HookValue> QueryFetch<T> {
    /// The state queued when the fetch starts: the fetch's status, the
    /// cached data, no error, fetching.
    pub open spec fn loading_spec<E>(&self) -> QueryHookState<T, E> {
        QueryHookState {
            status: self.status,
            data: self.cached,
            error: None,
            is_stale: false,
            is_fetching: true,
            trigger: self.trigger,
        }
    }

    /// The state to queue when the fetch starts.
    pub fn loading_state<E>(&self) -> (r: QueryHookState<T, E>)
        ensures
            r == self.loading_spec::<E>(),
    {
        QueryHookState {
            status: self.status,
            data: copy_option(&self.cached),
            error: None,
            is_stale: false,
            is_fetching: true,
            trigger: self.trigger,
        }
    }

    /// What fetch number `attempts` ending with `result` leads to: nothing
    /// when the task was cancelled; a value is stored in the cache at
    /// `now_ns` and shown as a success; an error is shown, with the cached
    /// data, once the fetches reach the limit, and retried after the delay
    /// before that.
    pub open spec fn attempt_spec<E>(&self, attempts: int, cancelled: bool, result: Result<T, E>) -> QueryStep<T, E> {
        if cancelled {
            QueryStep::Cancelled
        } else {
            match result {
                Ok(d) => QueryStep::Done(
                    QueryHookState {
                        status: QueryStatus::Success,
                        data: Some(d),
                        error: None,
                        is_stale: false,
                        is_fetching: false,
                        trigger: self.trigger,
                    },
                ),
                Err(e) => if attempts >= query_attempt_limit(self.options) {
                    QueryStep::Done(
                        QueryHookState {
                            status: QueryStatus::Error,
                            data: self.cached,
                            error: Some(e),
                            is_stale: false,
                            is_fetching: false,
                            trigger: self.trigger,
                        },
                    )
                } else {
                    QueryStep::RetryAfter(self.options.retry_delay_ns)
                },
            }
        }
    }

    /// Record how fetch number `attempts` ended (see `attempt_spec`); a
    /// value is stored in the cache.
    pub fn attempt<E>(
        &self,
        client: &mut QueryClient,
        attempts: u32,
        now_ns: u64,
        cancelled: bool,
        result: Result<T, E>,
    ) -> (r: QueryStep<T, E>)
        requires
            old(client).wf(),
        ensures
            final(client).wf(),
            r == self.attempt_spec(attempts as int, cancelled, result),
            final(client).triggers == old(client).triggers,
            (!cancelled && result is Ok) ==> cached_spec::<T>(
                final(client).cache@,
                self.cache_key@,
                now_ns,
                self.options,
            ) == Some((result->Ok_0, false)),
            !(!cancelled && result is Ok) ==> final(client).cache == old(client).cache,
    {
        if cancelled {
            return QueryStep::Cancelled;
        }
        match result {
            Ok(d) => {
                let key = self.cache_key.clone();
                client.store(key, d.encode(), now_ns);
                proof {
                    T::lemma_decode_encode(d);
                }
                QueryStep::Done(
                    QueryHookState {
                        status: QueryStatus::Success,
                        data: Some(d),
                        error: None,
                        is_stale: false,
                        is_fetching: false,
                        trigger: self.trigger,
                    },
                )
            },
            Err(e) => {
                let limit: u64 = if self.options.retry {
                    self.options.retry_attempts as u64 + 1
                } else {
                    1
                };
                if attempts as u64 >= limit {
                    QueryStep::Done(
                        QueryHookState {
                            status: QueryStatus::Error,
                            data: copy_option(&self.cached),
                            error: Some(e),
                            is_stale: false,
                            is_fetching: false,
                            trigger: self.trigger,
                        },
                    )
                } else {
                    QueryStep::RetryAfter(self.options.retry_delay_ns)
                }
            },
        }
    }
}

/// A failing query gives up after its allowed fetches: with retry off the
/// first failed fetch shows the error; with retry on, fetch number
/// `retry_attempts + 1` (the first fetch and `retry_attempts` retries) and
/// any later one shows it. The error shown is the fetch's error, with the
/// cached data and nothing fetching. A retry is asked for only before that
/// limit, after the configured delay.
pub proof fn lemma_query_gives_up<T: HookValue, E>(fetch: QueryFetch<T>, attempts: int, e: E)
    requires
        attempts >= 1,
    ensures
        ({
            let limit = if fetch.options.retry { fetch.options.retry_attempts + 1 } else { 1int };
            let step = fetch.attempt_spec(attempts, false, Err::<T, E>(e));
            &&& attempts >= limit ==> step == QueryStep::<T, E>::Done(
                QueryHookState {
                    status: QueryStatus::Error,
                    data: fetch.cached,
                    error: Some(e),
                    is_stale: false,
                    is_fetching: false,
                    trigger: fetch.trigger,
                },
            )
            &&& attempts < limit ==> step == QueryStep::<T, E>::RetryAfter(fetch.options.retry_delay_ns)
            &&& (step is RetryAfter) ==> fetch.options.retry && attempts <= fetch.options.retry_attempts
            &&& !fetch.options.retry ==> step is Done
        }),
{
}

/// A fetch that brings a value shows it as a success, whatever the fetch
/// number, and a cancelled task shows nothing.
pub proof fn lemma_query_success_and_cancel<T: HookValue, E>(fetch: QueryFetch<T>, attempts: int, d: T, result: Result<T, E>)
    ensures
        fetch.attempt_spec(attempts, false, Ok::<T, E>(d)) == QueryStep::<T, E>::Done(
            QueryHookState {
                status: QueryStatus::Success,
                data: Some(d),
                error: None,
                is_stale: false,
                is_fetching: false,
                trigger: fetch.trigger,
            },
        ),
        fetch.attempt_spec(attempts, true, result) is Cancelled,
{
}

/// A fetched value is what the cache gives back right after: once a fetch
/// succeeds at `now`, looking the key up at `now` finds the value, fresh.
pub proof fn lemma_fetch_then_cached<T: HookValue>(
    cache: Seq<QueryCacheEntry>,
    key: Seq<char>,
    data: T,
    now: u64,
    options: QueryOptions,
)
    requires
        entry_index(cache, key) is Some,
        cache[entry_index(cache, key)->0].data == data.encoded(),
        cache[entry_index(cache, key)->0].fetched_at_ns == now,
    ensures
        cached_spec::<T>(cache, key, now, options) == Some((data, false)),
{
    T::lemma_decode_encode(data);
}

/// The status of a mutation.
#[derive(Debug, Clone, Copy, PartialEq, Eq, Structural)]
pub enum MutationStatus {
    Idle,
    Pending,
    Success,
    Error,
}

impl Default for MutationStatus {
    fn default() -> (r: Self)
        ensures
            r == MutationStatus::Idle,
    {
        MutationStatus::Idle
    }
}

/// Options of a mutation; times are in nanoseconds.
#[derive(Debug, Clone, Copy, PartialEq, Eq, Structural)]
pub struct MutationOptions {
    pub retry: bool,
    pub retry_attempts: u32,
    pub retry_delay_ns: u64,
    pub retry_exponential_backoff: bool,
    pub retry_max_delay_ns: u64,
}

impl Default for MutationOptions {
    fn default() -> (r: Self)
        ensures
            r == (MutationOptions {
                retry: false,
                retry_attempts: 0,
                retry_delay_ns: 1_000_000_000,
                retry_exponential_backoff: false,
                retry_max_delay_ns: 30_000_000_000,
            }),
    {
        MutationOptions {
            retry: false,
            retry_attempts: 0,
            retry_delay_ns: 1_000_000_000,
            retry_exponential_backoff: false,
            retry_max_delay_ns: 30_000_000_000,
        }
    }
}

/// The state of a mutation as a component reads it.
#[derive(Debug, Clone)]
pub struct MutationState<T, E> {
    pub status: MutationStatus,
    pub data: Option<T>,
    pub error: Option<E>,
    pub is_pending: bool,
    pub is_success: bool,
    pub is_error: bool,
    pub is_idle: bool,
}

impl<T, E> MutationState<T, E> {
    /// The flags agree with the status.
    pub open spec fn consistent(&self) -> bool {
        &&& self.is_idle == (self.status == MutationStatus::Idle)
        &&& self.is_pending == (self.status == MutationStatus::Pending)
        &&& self.is_success == (self.status == MutationStatus::Success)
        &&& self.is_error == (self.status == MutationStatus::Error)
    }
}

impl<T, E> Default for MutationState<T, E> {
    fn default() -> (r: Self)
        ensures
            r.status == MutationStatus::Idle,
            r.data is None,
            r.error is None,
            !r.is_pending,
            !r.is_success,
            !r.is_error,
            r.is_idle,
            r.consistent(),
    {
        MutationState {
            status: MutationStatus::Idle,
            data: None,
            error: None,
            is_pending: false,
            is_success: false,
            is_error: false,
            is_idle: true,
        }
    }
}

/// The tag of mutation statuses in hook cells.
pub const MUTATION_STATUS_TAG: u64 = 0x4d55_5453_5441_5400u64;

impl MutationStatus {
    /// The status's number in a hook cell.
    pub open spec fn code(self) -> u16 {
        match self {
            MutationStatus::Idle => 0,
            MutationStatus::Pending => 1,
            MutationStatus::Success => 2,
            MutationStatus::Error => 3,
        }
    }

    /// The status of a number, if any.
    pub open spec fn of_code(c: u16) -> Option<MutationStatus> {
        if c == 0 {
            Some(MutationStatus::Idle)
        } else if c == 1 {
            Some(MutationStatus::Pending)
        } else if c == 2 {
            Some(MutationStatus::Success)
        } else if c == 3 {
            Some(MutationStatus::Error)
        } else {
            None
        }
    }
}

impl HookValue for MutationStatus {
    open spec fn encoded(&self) -> Slot {
        Slot::U16(self.code())
    }

    open spec fn decoded(s: Slot) -> Option<MutationStatus> {
        match s {
            Slot::U16(c) => MutationStatus::of_code(c),
            _ => None,
        }
    }

    open spec fn tag() -> u64 {
        MUTATION_STATUS_TAG
    }

    proof fn lemma_decode_encode(v: MutationStatus) {
    }

    fn encode(&self) -> (s: Slot) {
        match self {
            MutationStatus::Idle => Slot::U16(0),
            MutationStatus::Pending => Slot::U16(1),
            MutationStatus::Success => Slot::U16(2),
            MutationStatus::Error => Slot::U16(3),
        }
    }

    fn decode(s: &Slot) -> (r: Option<MutationStatus>) {
        match s {
            Slot::U16(c) => if *c == 0 {
                Some(MutationStatus::Idle)
            } else if *c == 1 {
                Some(MutationStatus::Pending)
            } else if *c == 2 {
                Some(MutationStatus::Success)
            } else if *c == 3 {
                Some(MutationStatus::Error)
            } else {
                None
            },
            _ => None,
        }
    }

    fn type_tag() -> (t: u64) {
        MUTATION_STATUS_TAG
    }
}

/// The tag of mutation states in hook cells.
pub const MUTATION_STATE_TAG: u64 = 0x4d55_5453_5441_5445u64;

/// The four flags of a mutation state: pending, success, error, idle.
pub type MutationFlags = (bool, (bool, (bool, bool)));

impl<T, E> MutationState<T, E> {
    /// The flags as nested pairs.
    pub open spec fn flags(&self) -> MutationFlags {
        (self.is_pending, (self.is_success, (self.is_error, self.is_idle)))
    }

    /// The state after a mutation starts: pending, with no error; the data
    /// of an earlier run stays.
    pub open spec fn started(self) -> Self {
        MutationState {
            status: MutationStatus::Pending,
            error: None,
            is_pending: true,
            is_success: false,
            is_error: false,
            is_idle: false,
            ..self
        }
    }

    /// The state after a run succeeds with `data`.
    pub open spec fn succeeded(self, data: T) -> Self {
        MutationState {
            status: MutationStatus::Success,
            data: Some(data),
            error: None,
            is_pending: false,
            is_success: true,
            is_error: false,
            is_idle: false,
        }
    }

    /// The state after a run fails with `error`; the data of an earlier
    /// run stays.
    pub open spec fn failed(self, error: E) -> Self {
        MutationState {
            status: MutationStatus::Error,
            error: Some(error),
            is_pending: false,
            is_success: false,
            is_error: true,
            is_idle: false,
            ..self
        }
    }

    /// Mark the mutation started.
    pub fn mark_pending(&mut self)
        ensures
            *final(self) == old(self).started(),
    {
        self.status = MutationStatus::Pending;
        self.error = None;
        self.is_pending = true;
        self.is_success = false;
        self.is_error = false;
        self.is_idle = false;
    }

    /// Record a successful run.
    pub fn mark_succeeded(&mut self, data: T)
        ensures
            *final(self) == old(self).succeeded(data),
    {
        self.status = MutationStatus::Success;
        self.data = Some(data);
        self.error = None;
        self.is_pending = false;
        self.is_success = true;
        self.is_error = false;
        self.is_idle = false;
    }

    /// Record a failed run.
    pub fn mark_failed(&mut self, error: E)
        ensures
            *final(self) == old(self).failed(error),
    {
        self.status = MutationStatus::Error;
        self.error = Some(error);
        self.is_pending = false;
        self.is_success = false;
        self.is_error = true;
        self.is_idle = false;
    }
}

/// Every step of a mutation leaves a state whose flags agree with its
/// status, whatever state it started from.
pub proof fn lemma_mutation_steps_consistent<T, E>(s: MutationState<T, E>, data: T, error: E)
    ensures
        s.started().consistent(),
        s.succeeded(data).consistent(),
        s.failed(error).consistent(),
{
}

impl<T: HookValue, E: HookValue> HookValue for MutationState<T, E> {
    open spec fn encoded(&self) -> Slot {
        Slot::Tagged(
            MUTATION_STATE_TAG,
            Box::new((self.status, (self.data, (self.error, self.flags()))).encoded()),
        )
    }

    open spec fn decoded(s: Slot) -> Option<MutationState<T, E>> {
        match s {
            Slot::Tagged(t, b) => if t == MUTATION_STATE_TAG {
                match <(MutationStatus, (Option<T>, (Option<E>, MutationFlags))) as HookValue>::decoded(*b) {
                    Some(v) => Some(
                        MutationState {
                            status: v.0,
                            data: v.1.0,
                            error: v.1.1.0,
                            is_pending: v.1.1.1.0,
                            is_success: v.1.1.1.1.0,
                            is_error: v.1.1.1.1.1.0,
                            is_idle: v.1.1.1.1.1.1,
                        },
                    ),
                    None => None,
                }
            } else {
                None
            },
            _ => None,
        }
    }

    open spec fn tag() -> u64 {
        MUTATION_STATE_TAG
    }

    proof fn lemma_decode_encode(v: MutationState<T, E>) {
        <(MutationStatus, (Option<T>, (Option<E>, MutationFlags))) as HookValue>::lemma_decode_encode(
            (v.status, (v.data, (v.error, v.flags()))),
        );
    }

    fn encode(&self) -> (s: Slot) {
        let flags: MutationFlags = (self.is_pending, (self.is_success, (self.is_error, self.is_idle)));
        Slot::Tagged(
            MUTATION_STATE_TAG,
            Box::new(
                Slot::Pair(
                    Box::new(self.status.encode()),
                    Box::new(
                        Slot::Pair(
                            Box::new(self.data.encode()),
                            Box::new(Slot::Pair(Box::new(self.error.encode()), Box::new(flags.encode()))),
                        ),
                    ),
                ),
            ),
        )
    }

    fn decode(s: &Slot) -> (r: Option<MutationState<T, E>>) {
        match s {
            Slot::Tagged(t, b) => if *t == MUTATION_STATE_TAG {
                match <(MutationStatus, (Option<T>, (Option<E>, MutationFlags))) as HookValue>::decode(&**b) {
                    Some(v) => {
                        let (status, (data, (error, (p, (ok, (err, idle)))))) = v;
                        Some(
                            MutationState {
                                status,
                                data,
                                error,
                                is_pending: p,
                                is_success: ok,
                                is_error: err,
                                is_idle: idle,
                            },
                        )
                    },
                    None => None,
                }
            } else {
                None
            },
            _ => None,
        }
    }

    fn type_tag() -> (t: u64) {
        MUTATION_STATE_TAG
    }
}

/// `2` to the power `k`.
pub open spec fn doubling(k: nat) -> nat
    decreases k,
{
    if k == 0 {
        1
    } else {
        2 * doubling((k - 1) as nat)
    }
}

/// Doubling grows with its exponent.
proof fn lemma_doubling_monotone(k: nat, n: nat)
    requires
        k <= n,
    ensures
        1 <= doubling(k) <= doubling(n),
    decreases n,
{
    if k < n {
        lemma_doubling_monotone(k, (n - 1) as nat);
    } else if n > 0 {
        lemma_doubling_monotone(0, (n - 1) as nat);
    }
}

/// How many times a mutation runs at most: once, or once more than the
/// retries when retrying is on.
pub open spec fn mutation_attempt_limit(options: MutationOptions) -> int {
    if options.retry {
        options.retry_attempts + 1
    } else {
        1
    }
}

impl MutationOptions {
    /// How many times a mutation with these options runs at most (see
    /// `mutation_attempt_limit`).
    pub fn attempt_limit(&self) -> (r: u64)
        ensures
            r == mutation_attempt_limit(*self),
    {
        if self.retry {
            self.retry_attempts as u64 + 1
        } else {
            1
        }
    }
}

/// The wait before the next run after run number `attempts` failed: the
/// fixed delay, or with exponential backoff the delay doubled for each
/// earlier run, capped at the largest delay.
pub open spec fn mutation_retry_delay(options: MutationOptions, attempts: int) -> int {
    if options.retry_exponential_backoff {
        let d = options.retry_delay_ns * doubling((attempts - 1) as nat);
        if d <= options.retry_max_delay_ns {
            d
        } else {
            options.retry_max_delay_ns as int
        }
    } else {
        options.retry_delay_ns as int
    }
}

/// With exponential backoff no wait exceeds the largest delay.
pub proof fn lemma_backoff_capped(options: MutationOptions, attempts: int)
    requires
        options.retry_exponential_backoff,
    ensures
        mutation_retry_delay(options, attempts) <= options.retry_max_delay_ns,
{
}

/// The wait before the next run (see `mutation_retry_delay`).
pub fn retry_delay_ns(options: &MutationOptions, attempts: u32) -> (r: u64)
    requires
        attempts >= 1,
        options.retry_exponential_backoff ==> attempts <= 32,
    ensures
        r == mutation_retry_delay(*options, attempts as int),
{
    if options.retry_exponential_backoff {
        let k: u32 = attempts - 1;
        let mut factor: u64 = 1;
        let mut i: u32 = 0;
        while i < k
            invariant
                i <= k <= 31,
                factor == doubling(i as nat),
            decreases k - i,
        {
            proof {
                lemma_doubling_monotone(i as nat, 30);
                reveal_with_fuel(doubling, 31);
                assert(doubling(30) == 0x4000_0000);
            }
            factor = factor * 2;
            i = i + 1;
        }
        proof {
            lemma_doubling_monotone(k as nat, 31);
            reveal_with_fuel(doubling, 32);
            assert(doubling(31) == 0x8000_0000);
        }
        let delay: u128 = options.retry_delay_ns as u128;
        let f: u128 = factor as u128;
        assert(delay * f <= 0xffff_ffff_ffff_ffffu128 * 0x8000_0000u128) by (nonlinear_arith)
            requires
                delay <= 0xffff_ffff_ffff_ffffu128,
                f <= 0x8000_0000u128,
        ;
        let product: u128 = delay * f;
        if product <= options.retry_max_delay_ns as u128 {
            product as u64
        } else {
            options.retry_max_delay_ns
        }
    } else {
        options.retry_delay_ns
    }
}

/// What a mutation does after a run: it succeeded, it failed for good, it
/// runs again after a wait in nanoseconds, or the run was replaced or
/// reset and its result is dropped.
#[derive(Debug, Clone, Copy, PartialEq, Eq, Structural)]
pub enum MutationStep {
    Succeeded,
    Failed,
    RetryAfter(u64),
    Cancelled,
}

/// The state and step after run number `attempts` ended with `result`: a
/// value is a success; an error is a failure once the runs reach the
/// limit, and a retry after the delay before that.
pub open spec fn settle_spec<T, E>(
    state: MutationState<T, E>,
    options: MutationOptions,
    attempts: int,
    result: Result<T, E>,
) -> (MutationState<T, E>, MutationStep) {
    match result {
        Ok(d) => (state.succeeded(d), MutationStep::Succeeded),
        Err(e) => if attempts >= mutation_attempt_limit(options) {
            (state.failed(e), MutationStep::Failed)
        } else {
            (state, MutationStep::RetryAfter(mutation_retry_delay(options, attempts) as u64))
        },
    }
}

/// A mutation that keeps failing stops after the limit: its last run is a
/// failure, every earlier one a retry.
pub proof fn lemma_retries_end<T, E>(state: MutationState<T, E>, options: MutationOptions, attempts: int, error: E)
    requires
        1 <= attempts,
    ensures
        attempts >= mutation_attempt_limit(options) ==> settle_spec(state, options, attempts, Err(error)).1
            == MutationStep::Failed,
        attempts < mutation_attempt_limit(options) ==> settle_spec(state, options, attempts, Err(error)).1
            is RetryAfter,
{
}

/// A mutation: its state, its options, the hook cell the state is queued
/// to, and the number of its current run.
#[derive(Debug)]
pub struct MutationHandle<T, E> {
    pub state: MutationState<T, E>,
    pub options: MutationOptions,
    pub fiber_id: FiberId,
    pub hook_index: usize,
    /// Advanced by every start and reset; a run whose number is no longer
    /// this one is dropped.
    pub run: u64,
}

/// The run number after `run`, wrapping.
pub open spec fn next_run(run: u64) -> u64 {
    if run == u64::MAX {
        0
    } else {
        (run + 1) as u64
    }
}

impl<T, E> MutationHandle<T, E> {
    /// The current state.
    pub fn state(&self) -> (r: &MutationState<T, E>)
        ensures
            *r == self.state,
    {
        &self.state
    }

    /// The mutation has not run.
    pub fn is_idle(&self) -> (r: bool)
        ensures
            r == self.state.is_idle,
    {
        self.state.is_idle
    }

    /// A run is going on.
    pub fn is_pending(&self) -> (r: bool)
        ensures
            r == self.state.is_pending,
    {
        self.state.is_pending
    }

    /// The last run succeeded.
    pub fn is_success(&self) -> (r: bool)
        ensures
            r == self.state.is_success,
    {
        self.state.is_success
    }

    /// The last run failed.
    pub fn is_error(&self) -> (r: bool)
        ensures
            r == self.state.is_error,
    {
        self.state.is_error
    }

    /// The data of the last successful run.
    pub fn data(&self) -> (r: Option<&T>)
        ensures
            ref_of(r, self.state.data),
    {
        match &self.state.data {
            Some(d) => Some(d),
            None => None,
        }
    }

    /// The error of the last failed run.
    pub fn error(&self) -> (r: Option<&E>)
        ensures
            ref_of(r, self.state.error),
    {
        match &self.state.error {
            Some(e) => Some(e),
            None => None,
        }
    }

    /// Back to idle; a running attempt is dropped.
    pub fn reset(&mut self)
        ensures
            final(self).state.status == MutationStatus::Idle,
            final(self).state.data is None,
            final(self).state.error is None,
            final(self).state.consistent(),
            final(self).run == next_run(old(self).run),
            final(self).options == old(self).options,
            final(self).fiber_id == old(self).fiber_id,
            final(self).hook_index == old(self).hook_index,
    {
        self.state = MutationState::default();
        self.run = if self.run == u64::MAX {
            0
        } else {
            self.run + 1
        };
    }

    /// Start a run that replaces any running one; its number is returned.
    pub fn begin(&mut self) -> (run: u64)
        ensures
            run == next_run(old(self).run),
            final(self).run == run,
            final(self).state == old(self).state.started(),
            final(self).options == old(self).options,
            final(self).fiber_id == old(self).fiber_id,
            final(self).hook_index == old(self).hook_index,
    {
        self.state.mark_pending();
        self.run = if self.run == u64::MAX {
            0
        } else {
            self.run + 1
        };
        self.run
    }

    /// Start a run that the caller waits for; running ones are left alone.
    pub fn begin_awaited(&mut self)
        ensures
            final(self).state == old(self).state.started(),
            final(self).run == old(self).run,
            final(self).options == old(self).options,
            final(self).fiber_id == old(self).fiber_id,
            final(self).hook_index == old(self).hook_index,
    {
        self.state.mark_pending();
    }

    /// Record how run number `attempts` ended (see `settle_spec`).
    pub fn settle(&mut self, attempts: u32, result: Result<T, E>) -> (step: MutationStep)
        requires
            attempts >= 1,
            (result is Err && attempts < mutation_attempt_limit(old(self).options)
                && old(self).options.retry_exponential_backoff) ==> attempts <= 32,
        ensures
            (final(self).state, step) == settle_spec(old(self).state, old(self).options, attempts as int, result),
            final(self).run == old(self).run,
            final(self).options == old(self).options,
            final(self).fiber_id == old(self).fiber_id,
            final(self).hook_index == old(self).hook_index,
    {
        match result {
            Ok(d) => {
                self.state.mark_succeeded(d);
                MutationStep::Succeeded
            },
            Err(e) => {
                if attempts as u64 >= self.options.attempt_limit() {
                    self.state.mark_failed(e);
                    MutationStep::Failed
                } else {
                    MutationStep::RetryAfter(retry_delay_ns(&self.options, attempts))
                }
            },
        }
    }

    /// Record how attempt `attempts` of run `run` ended; a run that was
    /// replaced or reset is dropped and changes nothing.
    pub fn settle_run(&mut self, run: u64, attempts: u32, result: Result<T, E>) -> (step: MutationStep)
        requires
            attempts >= 1,
            (result is Err && attempts < mutation_attempt_limit(old(self).options)
                && old(self).options.retry_exponential_backoff) ==> attempts <= 32,
        ensures
            run != old(self).run ==> step == MutationStep::Cancelled && *final(self) == *old(self),
            run == old(self).run ==> (final(self).state, step) == settle_spec(
                old(self).state,
                old(self).options,
                attempts as int,
                result,
            ) && final(self).run == old(self).run && final(self).options == old(self).options
                && final(self).fiber_id == old(self).fiber_id && final(self).hook_index == old(
                self,
            ).hook_index,
    {
        if run != self.run {
            MutationStep::Cancelled
        } else {
            self.settle(attempts, result)
        }
    }
}

impl<T: HookValue, E: HookValue> MutationHandle<T, E> {
    /// Queue the current state to the mutation's hook cell, for the next
    /// render to read.
    pub fn queue_state(&self, batch: &mut StateBatch)
        ensures
            setter_for::<MutationState<T, E>>(self.fiber_id, self.hook_index).queued(
                *old(batch),
                *final(batch),
                self.state,
            ),
    {
        batch.queue_value(self.fiber_id, self.hook_index, self.state.encode());
    }
}

/// The state a new mutation cell starts with.
fn idle_mutation<T, E>() -> (r: MutationState<T, E>)
    ensures
        r.status == MutationStatus::Idle,
        r.data is None,
        r.error is None,
        r.consistent(),
{
    MutationState::default()
}

/// A mutation of the current component: its state is read from the hook
/// cell, idle on the first render; `options` default when absent.
pub fn use_mutation<T: HookValue, E: HookValue>(tree: &mut FiberTree, options: Option<MutationOptions>) -> (r: MutationHandle<T, E>)
    requires
        old(tree).wf(),
        old(tree).hook_room(1),
    ensures
        final(tree).wf(),
        r.fiber_id == old(tree).current().unwrap(),
        r.hook_index == old(tree).current_hook_index(),
        r.run == 0,
        same_except_fiber(*old(tree), *final(tree), r.fiber_id),
        final(tree).fibers@[r.fiber_id.0].hook_index == r.hook_index + 1,
        old(tree).fibers@[r.fiber_id.0].existing_hook::<MutationState<T, E>>(r.hook_index as int) is Some
            ==> r.state == old(tree).fibers@[r.fiber_id.0].existing_hook::<MutationState<T, E>>(
            r.hook_index as int,
        )->0,
        old(tree).fibers@[r.fiber_id.0].existing_hook::<MutationState<T, E>>(r.hook_index as int) is None
            ==> r.state.status == MutationStatus::Idle && r.state.data is None && r.state.error is None
            && r.state.consistent(),
        final(tree).fibers@[r.fiber_id.0].hook_value::<MutationState<T, E>>(r.hook_index as int) == Some(
            r.state,
        ),
        options is Some ==> r.options == options->0,
        options is None ==> r.options == (MutationOptions {
            retry: false,
            retry_attempts: 0,
            retry_delay_ns: 1_000_000_000,
            retry_exponential_backoff: false,
            retry_max_delay_ns: 30_000_000_000,
        }),
{
    let (id, idx) = tree.next_hook("use_mutation");
    let state = tree.hook_get_or_init(id, idx, idle_mutation);
    let options = match options {
        Some(o) => o,
        None => MutationOptions::default(),
    };
    MutationHandle { state, options, fiber_id: id, hook_index: idx, run: 0 }
}

/// The fetch a query's effect is made with: none when the decision (see
/// `fetch_decision_spec`) is not to fetch; otherwise one for this cell and
/// key with the decided status and the cached data.
pub open spec fn query_plan<T>(
    id: FiberId,
    idx: usize,
    cache_key: String,
    options: QueryOptions,
    cached: Option<(T, bool)>,
    trigger: usize,
    trigger_count: u64,
) -> Option<QueryFetch<T>> {
    let stale = match cached {
        Some(c) => Some(c.1),
        None => None,
    };
    match fetch_decision_spec(options.enabled, stale, trigger_count) {
        Some(status) => Some(
            QueryFetch {
                fiber_id: id,
                hook_index: idx,
                cache_key,
                options,
                status,
                cached: match cached {
                    Some(c) => Some(c.0),
                    None => None,
                },
                trigger,
            },
        ),
        None => None,
    }
}

/// The value of refetch counter `t`, 0 for a counter the client lacks.
pub open spec fn trigger_count(client: QueryClient, t: usize) -> u64 {
    if t < client.triggers@.len() {
        client.triggers@[t as int]
    } else {
        0
    }
}

/// The options a query runs with.
pub open spec fn query_options(options: Option<QueryOptions>) -> QueryOptions {
    match options {
        Some(o) => o,
        None => QueryOptions {
            enabled: true,
            stale_time_ns: 0,
            cache_time_ns: 300_000_000_000,
            retry: true,
            retry_attempts: 3,
            retry_delay_ns: 1_000_000_000,
        },
    }
}

/// The state a query's cell holds after this render: what it held, or a
/// fresh state with a newly registered counter.
pub open spec fn query_cell<T: HookValue, E: HookValue>(tree: FiberTree, client: QueryClient) -> QueryHookState<T, E> {
    let f = tree.fibers@[tree.current().unwrap().0];
    let idx = tree.current_hook_index() as int;
    if f.existing_hook::<QueryHookState<T, E>>(idx) is Some {
        f.existing_hook::<QueryHookState<T, E>>(idx)->0
    } else {
        QueryHookState::<T, E>::fresh(client.triggers@.len() as usize)
    }
}

/// The deps a query's effect runs on: its key, its counter's value and
/// whether it is enabled.
pub open spec fn query_deps(cache_key: String, count: u64, enabled: bool) -> Option<(String, (u64, bool))> {
    Some((cache_key, (count, enabled)))
}

/// A cached query of the current component. Its cell holds the state of
/// its last fetch (see `QueryHookState`); a new cell registers a refetch
/// counter in `client`. The result shows that state, falling back on the
/// data cached for `cache_key` at `now_ns`, stale when either is. The
/// query's effect is made by `make_effect` from the fetch that is due (see
/// `query_plan`) and registered on the key, the counter's value and the
/// enabled flag (see `use_effect`).
pub fn use_query<T: HookValue, E: HookValue, X, C, F: FnOnce(Option<QueryFetch<T>>) -> X>(
    tree: &mut FiberTree,
    queue: &mut EffectQueue<X, C>,
    client: &mut QueryClient,
    cache_key: String,
    now_ns: u64,
    options: Option<QueryOptions>,
    make_effect: F,
) -> (r: QueryResult<T, E>)
    requires
        old(tree).wf(),
        old(tree).hook_room(2),
        old(queue).wf(),
        old(client).wf(),
        old(client).triggers@.len() < usize::MAX,
        forall|p: Option<QueryFetch<T>>| call_requires(make_effect, (p,)),
    ensures
        final(tree).wf(),
        final(queue).wf(),
        final(client).wf(),
        final(client).cache == old(client).cache,
        same_except_fiber(*old(tree), *final(tree), old(tree).current().unwrap()),
        final(tree).fibers@[old(tree).current().unwrap().0].hook_index == old(tree).current_hook_index() + 2,
        final(tree).fibers@[old(tree).current().unwrap().0].hook_value::<QueryHookState<T, E>>(
            old(tree).current_hook_index() as int,
        ) == Some(query_cell::<T, E>(*old(tree), *old(client))),
        old(tree).fibers@[old(tree).current().unwrap().0].existing_hook::<QueryHookState<T, E>>(
            old(tree).current_hook_index() as int,
        ) is Some ==> final(client).triggers == old(client).triggers,
        old(tree).fibers@[old(tree).current().unwrap().0].existing_hook::<QueryHookState<T, E>>(
            old(tree).current_hook_index() as int,
        ) is None ==> final(client).triggers@ == old(client).triggers@.push(0),
        r.status == query_cell::<T, E>(*old(tree), *old(client)).status,
        r.error == query_cell::<T, E>(*old(tree), *old(client)).error,
        r.is_fetching == query_cell::<T, E>(*old(tree), *old(client)).is_fetching,
        r.trigger == query_cell::<T, E>(*old(tree), *old(client)).trigger,
        r.cache_key == cache_key,
        r.data == (if query_cell::<T, E>(*old(tree), *old(client)).data is Some {
            query_cell::<T, E>(*old(tree), *old(client)).data
        } else {
            match cached_spec::<T>(old(client).cache@, cache_key@, now_ns, query_options(options)) {
                Some(c) => Some(c.0),
                None => None,
            }
        }),
        r.is_stale == (query_cell::<T, E>(*old(tree), *old(client)).is_stale || (cached_spec::<T>(
            old(client).cache@,
            cache_key@,
            now_ns,
            query_options(options),
        ) matches Some(c) && c.1)),
        effect_should_run(
            query_deps(
                cache_key,
                trigger_count(*final(client), r.trigger),
                query_options(options).enabled,
            ),
            old(tree).fibers@[old(tree).current().unwrap().0].hook_value::<Option<(String, (u64, bool))>>(
                old(tree).current_hook_index() + 1,
            ),
        ) ==> exists|x: X|
            call_ensures(
                make_effect,
                (
                    query_plan(
                        old(tree).current().unwrap(),
                        old(tree).current_hook_index(),
                        cache_key,
                        query_options(options),
                        cached_spec::<T>(old(client).cache@, cache_key@, now_ns, query_options(options)),
                        r.trigger,
                        trigger_count(*final(client), r.trigger),
                    ),
                ),
                x,
            ) && #[trigger] final(queue).effects@ == old(queue).effects@.push(
                (
                    old(tree).current().unwrap(),
                    PendingEffect { effect: x, hook_index: (old(tree).current_hook_index() + 1) as usize },
                ),
            ),
        effect_should_run(
            query_deps(
                cache_key,
                trigger_count(*final(client), r.trigger),
                query_options(options).enabled,
            ),
            old(tree).fibers@[old(tree).current().unwrap().0].hook_value::<Option<(String, (u64, bool))>>(
                old(tree).current_hook_index() + 1,
            ),
        ) ==> crate::effect_queue::released_for(
            *old(queue),
            *final(queue),
            old(tree).current().unwrap(),
            (old(tree).current_hook_index() + 1) as usize,
        ),
        !effect_should_run(
            query_deps(
                cache_key,
                trigger_count(*final(client), r.trigger),
                query_options(options).enabled,
            ),
            old(tree).fibers@[old(tree).current().unwrap().0].hook_value::<Option<(String, (u64, bool))>>(
                old(tree).current_hook_index() + 1,
            ),
        ) ==> *final(queue) == *old(queue),
{
    let ghost t0 = *tree;
    let (id, idx) = tree.next_hook("use_query");
    let existing: Option<QueryHookState<T, E>> = tree.get(id).unwrap().get_hook(idx);
    let state: QueryHookState<T, E> = match existing {
        Some(st) => st,
        None => {
            let t = client.register_query();
            tree.hook_get_or_insert(
                id,
                idx,
                QueryHookState {
                    status: QueryStatus::Idle,
                    data: None,
                    error: None,
                    is_stale: false,
                    is_fetching: false,
                    trigger: t,
                },
            )
        },
    };
    let ghost t1 = *tree;
    proof {
        let f0 = t0.fibers@[id.0];
        let f1 = t1.fibers@[id.0];
        if f0.hooks@.len() > idx + 1 {
            assert(f1.hooks@[idx + 1] == f0.hooks@[idx + 1]);
        }
    }
    let opts = match options {
        Some(o) => o,
        None => QueryOptions::default(),
    };
    let count: u64 = if state.trigger < client.triggers.len() {
        client.triggers[state.trigger]
    } else {
        0
    };
    let cached: Option<(T, bool)> = client.cached(&cache_key, now_ns, &opts);
    let stale: Option<bool> = match &cached {
        Some(c) => Some(c.1),
        None => None,
    };
    let plan: Option<QueryFetch<T>> = match fetch_decision(opts.enabled, stale, count) {
        Some(status) => Some(
            QueryFetch {
                fiber_id: id,
                hook_index: idx,
                cache_key: cache_key.clone(),
                options: opts,
                status,
                cached: match &cached {
                    Some(c) => Some(copy_value(&c.0)),
                    None => None,
                },
                trigger: state.trigger,
            },
        ),
        None => None,
    };
    let effect = make_effect(plan);
    let deps: Option<(String, (u64, bool))> = Some((cache_key.clone(), (count, opts.enabled)));
    use_effect(tree, queue, effect, deps);
    let (initial_data, initial_stale) = match cached {
        Some(c) => (Some(c.0), c.1),
        None => (None, false),
    };
    QueryResult {
        status: state.status,
        data: match state.data {
            Some(d) => Some(d),
            None => initial_data,
        },
        error: state.error,
        is_stale: state.is_stale || initial_stale,
        is_fetching: state.is_fetching,
        cache_key,
        trigger: state.trigger,
    }
}

} // verus!
