use std::time::Duration;
use reratui::effect_queue::EffectQueue;
use reratui::fiber::FiberId;
use reratui::fiber_tree::FiberTree;
use reratui::hooks::async_hooks::{
    clear_query_cache, fetch_decision, retry_delay_ns, use_future, use_mutation, use_query, FutureHandle,
    FutureState, MutationOptions, MutationState, MutationStatus, MutationStep, QueryClient, QueryFetch,
    QueryHookState, QueryOptions, QueryResult, QueryStatus, QueryStep,
};
use reratui::slot::HookValue;

#[test]
fn test_future_state_default() {
    let state: FutureState<i32, String> = FutureState::default();
    assert!(state.is_idle());
    assert!(!state.is_pending());
    assert!(!state.is_resolved());
    assert!(!state.is_error());
}

#[test]
fn test_future_state_methods() {
    let idle: FutureState<i32, String> = FutureState::Idle;
    assert!(idle.is_idle());
    assert!(idle.value().is_none());
    assert!(idle.error().is_none());

    let pending: FutureState<i32, String> = FutureState::Pending;
    assert!(pending.is_pending());

    let resolved: FutureState<i32, String> = FutureState::Resolved(42);
    assert!(resolved.is_resolved());
    assert_eq!(resolved.value(), Some(&42));

    let error: FutureState<i32, String> = FutureState::Error("error".to_string());
    assert!(error.is_error());
    assert_eq!(error.error(), Some(&"error".to_string()));
}

#[test]
fn test_future_state_map() {
    let resolved: FutureState<i32, String> = FutureState::Resolved(42);
    let mapped = resolved.map(|x| x * 2);
    assert_eq!(mapped, FutureState::Resolved(84));

    let error: FutureState<i32, String> = FutureState::Error("error".to_string());
    let mapped_err = error.map_err(|e| format!("wrapped: {}", e));
    assert_eq!(mapped_err, FutureState::Error("wrapped: error".to_string()));
}

#[test]
fn test_future_state_from_result() {
    let ok: FutureState<i32, String> = Ok(42).into();
    assert_eq!(ok, FutureState::Resolved(42));

    let err: FutureState<i32, String> = Err("error".to_string()).into();
    assert_eq!(err, FutureState::Error("error".to_string()));
}

#[test]
fn future_state_map_keeps_other_states() {
    let pending: FutureState<i32, String> = FutureState::Pending;
    assert_eq!(pending.map(|x| x + 1), FutureState::Pending);
    let err: FutureState<i32, String> = FutureState::Error("e".to_string());
    assert_eq!(err.map(|x| x + 1), FutureState::Error("e".to_string()));
    let ok: FutureState<i32, String> = FutureState::Resolved(1);
    assert_eq!(ok.map_err(|e| e.len()), FutureState::Resolved(1));
}

#[test]
fn test_query_status_default() {
    let status = QueryStatus::default();
    assert_eq!(status, QueryStatus::Idle);
}

#[test]
fn test_query_options_default() {
    let options = QueryOptions::default();
    assert!(options.enabled);
    assert_eq!(Duration::from_nanos(options.stale_time_ns), Duration::from_secs(0));
    assert_eq!(Duration::from_nanos(options.cache_time_ns), Duration::from_secs(300));
    assert!(options.retry);
    assert_eq!(options.retry_attempts, 3);
}

#[test]
fn test_mutation_status_default() {
    let status = MutationStatus::default();
    assert_eq!(status, MutationStatus::Idle);
}

#[test]
fn test_mutation_options_default() {
    let options = MutationOptions::default();
    assert!(!options.retry);
    assert_eq!(options.retry_attempts, 0);
    assert_eq!(Duration::from_nanos(options.retry_delay_ns), Duration::from_secs(1));
    assert!(!options.retry_exponential_backoff);
}

#[test]
fn test_mutation_state_default() {
    let state: MutationState<i32, String> = MutationState::default();
    assert_eq!(state.status, MutationStatus::Idle);
    assert!(state.data.is_none());
    assert!(state.error.is_none());
    assert!(!state.is_pending);
    assert!(!state.is_success);
    assert!(!state.is_error);
    assert!(state.is_idle);
}

#[test]
fn test_clear_query_cache() {
    let mut client = QueryClient::new();
    client.store("test".to_string(), 42i32.encode(), 0);

    assert!(!client.cache.is_empty());

    clear_query_cache(&mut client);

    assert!(client.cache.is_empty());
}

#[test]
fn query_cache_staleness_and_expiry() {
    let mut client = QueryClient::new();
    let options = QueryOptions { stale_time_ns: 30, cache_time_ns: 100, ..QueryOptions::default() };
    let key = "users".to_string();
    client.store(key.clone(), 7i32.encode(), 1000);
    assert_eq!(client.cached::<i32>(&key, 1010, &options), Some((7, false)));
    assert_eq!(client.cached::<i32>(&key, 1031, &options), Some((7, true)));
    assert_eq!(client.cached::<i32>(&key, 1101, &options), None);
    assert_eq!(client.cached::<String>(&key, 1010, &options), None);
    client.store(key.clone(), 8i32.encode(), 2000);
    assert_eq!(client.cache.len(), 1);
    assert_eq!(client.cached::<i32>(&key, 2000, &options), Some((8, false)));
}

#[test]
fn query_fetch_decisions() {
    assert_eq!(fetch_decision(false, None, 5), None);
    assert_eq!(fetch_decision(true, None, 0), Some(QueryStatus::Loading));
    assert_eq!(fetch_decision(true, Some(false), 0), None);
    assert_eq!(fetch_decision(true, Some(false), 1), Some(QueryStatus::Refreshing));
    assert_eq!(fetch_decision(true, Some(true), 0), Some(QueryStatus::Refreshing));
}

#[test]
fn query_refetch_and_invalidate() {
    let mut client = QueryClient::new();
    let trigger = client.register_query();
    client.store("k".to_string(), 1i32.encode(), 0);
    let result: QueryResult<i32, String> = QueryResult {
        status: QueryStatus::Success,
        data: Some(1),
        error: None,
        is_stale: false,
        is_fetching: false,
        cache_key: "k".to_string(),
        trigger,
    };
    assert!(result.is_success());
    assert!(!result.is_loading());
    assert!(!result.is_error());
    result.refetch(&mut client);
    assert_eq!(client.triggers[trigger], 1);
    result.invalidate(&mut client);
    assert_eq!(client.triggers[trigger], 2);
    assert!(client.cache.is_empty());
}

fn setup_test_fiber() -> (FiberTree, FiberId) {
    let mut tree = FiberTree::new();
    let fiber_id = tree.mount(None, None);
    tree.begin_render(fiber_id);
    (tree, fiber_id)
}

#[test]
fn test_future_handle_new() {
    let handle: FutureHandle<i32, String> = FutureHandle::new();
    assert!(handle.is_idle());
    assert!(!handle.is_pending());
    assert!(!handle.is_resolved());
    assert!(!handle.is_error());
    assert!(handle.value().is_none());
    assert!(handle.error().is_none());
}

#[test]
fn test_future_handle_set_state() {
    let mut handle: FutureHandle<i32, String> = FutureHandle::new();

    handle.set_state(FutureState::Pending);
    assert!(handle.is_pending());

    handle.set_state(FutureState::Resolved(42));
    assert!(handle.is_resolved());
    assert_eq!(handle.value(), Some(&42));

    handle.set_state(FutureState::Error("error".to_string()));
    assert!(handle.is_error());
    assert_eq!(handle.error(), Some(&"error".to_string()));
}

#[test]
fn test_future_handle_cancel() {
    let mut handle: FutureHandle<i32, String> = FutureHandle::new();
    assert!(!handle.is_cancelled());

    handle.cancel();
    assert!(handle.is_cancelled());
}

#[test]
fn test_use_future_returns_handle() {
    let (mut tree, fiber_id) = setup_test_fiber();
    let mut queue: EffectQueue<&str, ()> = EffectQueue::new();

    let cell = use_future(&mut tree, &mut queue, "start", Some(()));
    let handle: FutureHandle<i32, String> = FutureHandle::new();

    assert!(!handle.is_cancelled());
    assert_eq!(cell, (fiber_id, 0));
    assert!(queue.has_pending_effects());
}

#[test]
fn future_runs_keep_only_the_current_result() {
    let mut handle: FutureHandle<i32, String> = FutureHandle::new();
    let first = handle.start();
    assert!(handle.is_pending());
    let second = handle.start();
    assert!(!handle.finish(first, Ok(1)));
    assert!(handle.is_pending());
    assert!(handle.finish(second, Ok(2)));
    assert_eq!(handle.value(), Some(&2));

    let third = handle.start();
    handle.cancel();
    assert!(!handle.finish(third, Err("late".to_string())));
    assert!(handle.is_pending());

    let fourth = handle.start();
    assert!(handle.finish(fourth, Err("failed".to_string())));
    assert_eq!(handle.error(), Some(&"failed".to_string()));
}

#[test]
fn test_use_mutation_returns_handle() {
    let (mut tree, _fiber_id) = setup_test_fiber();

    let mutation = use_mutation::<i32, String>(&mut tree, None);

    assert!(mutation.is_idle());
    assert!(!mutation.is_pending());
    assert!(!mutation.is_success());
    assert!(!mutation.is_error());
}

#[test]
fn test_use_mutation_reset() {
    let (mut tree, _fiber_id) = setup_test_fiber();

    let mut mutation = use_mutation::<i32, String>(&mut tree, None);

    mutation.state.status = MutationStatus::Success;
    mutation.state.data = Some(42);
    mutation.state.is_success = true;
    mutation.state.is_idle = false;

    assert!(mutation.is_success());

    mutation.reset();

    assert!(mutation.is_idle());
    assert!(mutation.data().is_none());
}

#[test]
fn mutation_run_succeeds_after_retry() {
    let (mut tree, _fiber_id) = setup_test_fiber();
    let options = MutationOptions { retry: true, retry_attempts: 2, retry_delay_ns: 100, ..MutationOptions::default() };
    let mut mutation = use_mutation::<i32, String>(&mut tree, Some(options));

    let run = mutation.begin();
    assert!(mutation.is_pending());
    assert_eq!(mutation.settle_run(run, 1, Err("busy".to_string())), MutationStep::RetryAfter(100));
    assert!(mutation.is_pending());
    assert_eq!(mutation.settle_run(run, 2, Ok(7)), MutationStep::Succeeded);
    assert!(mutation.is_success());
    assert_eq!(mutation.data(), Some(&7));
}

#[test]
fn mutation_fails_after_last_attempt() {
    let (mut tree, _fiber_id) = setup_test_fiber();
    let options = MutationOptions { retry: true, retry_attempts: 1, ..MutationOptions::default() };
    let mut mutation = use_mutation::<i32, String>(&mut tree, Some(options));

    let _ = mutation.begin();
    assert_eq!(mutation.settle(1, Err("a".to_string())), MutationStep::RetryAfter(1_000_000_000));
    assert_eq!(mutation.settle(2, Err("b".to_string())), MutationStep::Failed);
    assert!(mutation.is_error());
    assert_eq!(mutation.error(), Some(&"b".to_string()));
}

#[test]
fn mutation_without_retry_fails_at_once_and_reset_drops_run() {
    let (mut tree, _fiber_id) = setup_test_fiber();
    let mut mutation = use_mutation::<i32, String>(&mut tree, None);
    let run = mutation.begin();
    mutation.reset();
    assert_eq!(mutation.settle_run(run, 1, Ok(1)), MutationStep::Cancelled);
    assert!(mutation.is_idle());
    let _ = mutation.begin();
    assert_eq!(mutation.settle(1, Err("x".to_string())), MutationStep::Failed);
}

#[test]
fn mutation_backoff_delays() {
    let options = MutationOptions {
        retry: true,
        retry_attempts: 10,
        retry_delay_ns: 100,
        retry_exponential_backoff: true,
        retry_max_delay_ns: 1000,
    };
    assert_eq!(retry_delay_ns(&options, 1), 100);
    assert_eq!(retry_delay_ns(&options, 2), 200);
    assert_eq!(retry_delay_ns(&options, 4), 800);
    assert_eq!(retry_delay_ns(&options, 5), 1000);
    assert_eq!(retry_delay_ns(&options, 32), 1000);
    let fixed = MutationOptions { retry_exponential_backoff: false, ..options };
    assert_eq!(retry_delay_ns(&fixed, 9), 100);
    let huge = MutationOptions { retry_delay_ns: u64::MAX, retry_max_delay_ns: u64::MAX, ..options };
    assert_eq!(retry_delay_ns(&huge, 32), u64::MAX);
}

#[test]
fn mutation_state_round_trips_through_cell() {
    let mut state: MutationState<i32, String> = MutationState::default();
    state.mark_pending();
    state.mark_failed("e".to_string());
    let cell = state.encode();
    let back = MutationState::<i32, String>::decode(&cell).unwrap();
    assert_eq!(back.status, MutationStatus::Error);
    assert_eq!(back.error, Some("e".to_string()));
    assert!(back.is_error && !back.is_pending);
}

fn plan_name(plan: Option<QueryFetch<i32>>) -> Option<QueryStatus> {
    plan.map(|p| p.status)
}

#[test]
fn test_use_query_returns_result() {
    let (mut tree, _fiber_id) = setup_test_fiber();
    let mut queue: EffectQueue<Option<QueryStatus>, ()> = EffectQueue::new();
    let mut client = QueryClient::new();

    let result: QueryResult<i32, String> =
        use_query(&mut tree, &mut queue, &mut client, "test-key".to_string(), 0, None, plan_name);

    assert!(result.status == QueryStatus::Idle || result.status == QueryStatus::Loading);
}

#[test]
fn test_use_query_disabled() {
    let (mut tree, _fiber_id) = setup_test_fiber();
    let mut queue: EffectQueue<Option<QueryStatus>, ()> = EffectQueue::new();
    let mut client = QueryClient::new();

    let result: QueryResult<i32, String> = use_query(
        &mut tree,
        &mut queue,
        &mut client,
        "disabled-key".to_string(),
        0,
        Some(QueryOptions { enabled: false, ..Default::default() }),
        plan_name,
    );

    assert_eq!(result.status, QueryStatus::Idle);
}

#[test]
fn query_lifecycle() {
    let (mut tree, fiber_id) = setup_test_fiber();
    let mut queue: EffectQueue<Option<QueryFetch<i32>>, ()> = EffectQueue::new();
    let mut client = QueryClient::new();
    let options = QueryOptions { stale_time_ns: 50, retry: true, retry_attempts: 2, ..QueryOptions::default() };

    let result: QueryResult<i32, String> =
        use_query(&mut tree, &mut queue, &mut client, "users".to_string(), 0, Some(options), |p| p);
    assert_eq!(result.status, QueryStatus::Idle);
    assert_eq!(result.data, None);
    assert_eq!(client.triggers.len(), 1);

    let fetch = queue.effects[0].1.effect.as_ref().unwrap();
    assert_eq!(fetch.status, QueryStatus::Loading);
    assert_eq!(fetch.fiber_id, fiber_id);
    let loading: QueryHookState<i32, String> = fetch.loading_state();
    assert!(loading.is_fetching);
    assert_eq!(loading.status, QueryStatus::Loading);

    match fetch.attempt::<String>(&mut client, 1, 10, false, Err("down".to_string())) {
        QueryStep::RetryAfter(ns) => assert_eq!(ns, 1_000_000_000),
        _ => panic!("expected a retry"),
    }
    match fetch.attempt::<String>(&mut client, 2, 20, false, Ok(5)) {
        QueryStep::Done(state) => {
            assert_eq!(state.status, QueryStatus::Success);
            assert_eq!(state.data, Some(5));
        },
        _ => panic!("expected a result"),
    }
    assert_eq!(client.cached::<i32>(&"users".to_string(), 20, &options), Some((5, false)));
    match fetch.attempt::<String>(&mut client, 1, 30, true, Ok(6)) {
        QueryStep::Cancelled => {},
        _ => panic!("expected cancellation"),
    }
    assert_eq!(client.cached::<i32>(&"users".to_string(), 30, &options), Some((5, false)));

    tree.end_render();
    tree.begin_render(fiber_id);
    let mut queue2: EffectQueue<Option<QueryFetch<i32>>, ()> = EffectQueue::new();
    let result: QueryResult<i32, String> =
        use_query(&mut tree, &mut queue2, &mut client, "users".to_string(), 40, Some(options), |p| p);
    assert_eq!(result.data, Some(5));
    assert!(!result.is_stale);
    assert!(!queue2.has_pending_effects());
    assert_eq!(client.triggers.len(), 1);
}

#[test]
fn query_error_keeps_cached_data() {
    let (mut tree, _fiber_id) = setup_test_fiber();
    let mut queue: EffectQueue<Option<QueryFetch<i32>>, ()> = EffectQueue::new();
    let mut client = QueryClient::new();
    client.store("k".to_string(), 3i32.encode(), 0);
    let options = QueryOptions { retry: false, ..QueryOptions::default() };

    let result: QueryResult<i32, String> =
        use_query(&mut tree, &mut queue, &mut client, "k".to_string(), 10, Some(options), |p| p);
    assert_eq!(result.data, Some(3));
    assert!(result.is_stale);
    let fetch = queue.effects[0].1.effect.as_ref().unwrap();
    assert_eq!(fetch.status, QueryStatus::Refreshing);
    match fetch.attempt::<String>(&mut client, 1, 11, false, Err("bad".to_string())) {
        QueryStep::Done(state) => {
            assert_eq!(state.status, QueryStatus::Error);
            assert_eq!(state.data, Some(3));
            assert_eq!(state.error, Some("bad".to_string()));
        },
        _ => panic!("expected an error"),
    }
}
