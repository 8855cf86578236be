use tau_coding_agent::multi_channel_lifecycle::MultiChannelTransport;
use tau_coding_agent::multi_channel_runtime::{
    event_key, normalize_processed_keys, order_event_queue, render_response, retry_delay_ms,
    runtime_state_or_fresh, simulated_transient_failures, AttemptAction, MultiChannelEventKind,
    MultiChannelInboundEvent, MultiChannelRuntime, MultiChannelRuntimeConfig,
    MultiChannelRuntimeState, MultiChannelRuntimeSummary, QueueEntry,
};

fn config(cap: usize, retry_max_attempts: usize, queue_limit: usize) -> MultiChannelRuntimeConfig {
    MultiChannelRuntimeConfig {
        fixture_path: "fixtures/baseline-three-channel.json".to_string(),
        state_dir: "/tmp/root/.tau/multi-channel".to_string(),
        queue_limit,
        processed_event_cap: cap,
        retry_max_attempts,
        retry_base_delay_ms: 0,
    }
}

fn strings(v: &[&str]) -> Vec<String> {
    v.iter().map(|s| s.to_string()).collect()
}

fn fresh_runtime(cfg: MultiChannelRuntimeConfig) -> MultiChannelRuntime {
    MultiChannelRuntime::new(cfg, MultiChannelRuntimeState::default())
}

fn event(kind: MultiChannelEventKind, text: &str) -> MultiChannelInboundEvent {
    MultiChannelInboundEvent {
        transport: MultiChannelTransport::Telegram,
        event_kind: kind,
        event_id: "  tg-1 ".to_string(),
        conversation_id: "chat-1".to_string(),
        actor_id: "user-1".to_string(),
        timestamp_ms: 1_760_100_000_000,
        text: text.to_string(),
        simulate_transient_failures: None,
    }
}

#[test]
fn unit_retry_delay_ms_scales_with_attempt_number() {
    assert_eq!(retry_delay_ms(0, 1), 0);
    assert_eq!(retry_delay_ms(10, 1), 10);
    assert_eq!(retry_delay_ms(10, 2), 20);
    assert_eq!(retry_delay_ms(10, 3), 40);
}

#[test]
fn retry_delay_caps_exponent_and_saturates() {
    assert_eq!(retry_delay_ms(10, 0), 10);
    assert_eq!(retry_delay_ms(1, 11), 1024);
    assert_eq!(retry_delay_ms(1, 50), 1024);
    assert_eq!(retry_delay_ms(u64::MAX / 2, 3), u64::MAX);
}

#[test]
fn normalize_processed_keys_trims_dedupes_and_keeps_newest() {
    let raw = strings(&[" a ", "", "b", "a", "  ", "c", "d"]);
    assert_eq!(normalize_processed_keys(&raw, 10), strings(&["a", "b", "c", "d"]));
    assert_eq!(normalize_processed_keys(&raw, 2), strings(&["c", "d"]));
    assert!(normalize_processed_keys(&raw, 0).is_empty());
}

#[test]
fn record_processed_event_evicts_oldest_beyond_cap() {
    let mut runtime = fresh_runtime(config(2, 3, 64));
    runtime.record_processed_event("k1");
    runtime.record_processed_event("k2");
    runtime.record_processed_event("k1");
    assert_eq!(runtime.state.processed_event_keys, strings(&["k1", "k2"]));
    runtime.record_processed_event("k3");
    assert_eq!(runtime.state.processed_event_keys, strings(&["k2", "k3"]));
    assert!(!runtime.is_processed("k1"));
    assert!(runtime.is_processed("k3"));
}

#[test]
fn record_processed_event_with_zero_cap_keeps_nothing() {
    let mut runtime = fresh_runtime(config(0, 3, 64));
    runtime.record_processed_event("k1");
    assert!(runtime.state.processed_event_keys.is_empty());
}

#[test]
fn runtime_new_normalises_loaded_keys() {
    let loaded = MultiChannelRuntimeState {
        schema_version: 1,
        processed_event_keys: strings(&["x", " x", "y "]),
    };
    let runtime = MultiChannelRuntime::new(config(10, 3, 64), loaded);
    assert_eq!(runtime.state.processed_event_keys, strings(&["x", "y"]));
    assert_eq!(runtime.state_path(), "/tmp/root/.tau/multi-channel/state.json");
}

#[test]
fn state_with_other_schema_starts_fresh() {
    let parsed = MultiChannelRuntimeState {
        schema_version: 2,
        processed_event_keys: strings(&["x"]),
    };
    let state = runtime_state_or_fresh(Some(parsed));
    assert_eq!(state.schema_version, 1);
    assert!(state.processed_event_keys.is_empty());
    let kept = runtime_state_or_fresh(Some(MultiChannelRuntimeState {
        schema_version: 1,
        processed_event_keys: strings(&["x"]),
    }));
    assert_eq!(kept.processed_event_keys, strings(&["x"]));
    assert!(runtime_state_or_fresh(None).processed_event_keys.is_empty());
}

#[test]
fn queue_orders_by_timestamp_then_key_and_respects_limit() {
    let entries = vec![
        QueueEntry { timestamp_ms: 30, event_key: "a".to_string() },
        QueueEntry { timestamp_ms: 10, event_key: "z".to_string() },
        QueueEntry { timestamp_ms: 10, event_key: "b".to_string() },
        QueueEntry { timestamp_ms: 10, event_key: "b".to_string() },
    ];
    assert_eq!(order_event_queue(&entries, 64), vec![2, 3, 1, 0]);
    assert_eq!(order_event_queue(&entries, 2), vec![2, 3]);
    assert!(order_event_queue(&entries, 0).is_empty());
}

#[test]
fn plan_run_counts_discovered_and_queued_events() {
    let runtime = fresh_runtime(config(10, 3, 2));
    let entries = vec![
        QueueEntry { timestamp_ms: 3, event_key: "c".to_string() },
        QueueEntry { timestamp_ms: 1, event_key: "a".to_string() },
        QueueEntry { timestamp_ms: 2, event_key: "b".to_string() },
    ];
    let (order, summary) = runtime.plan_run(&entries);
    assert_eq!(order, vec![1, 2]);
    assert_eq!(summary.discovered_events, 3);
    assert_eq!(summary.queued_events, 2);
    assert_eq!(summary.completed_events, 0);
}

#[test]
fn duplicate_events_are_skipped_and_counted() {
    let mut runtime = fresh_runtime(config(10, 3, 64));
    runtime.record_processed_event("telegram:tg-1");
    let mut summary = MultiChannelRuntimeSummary::default();
    assert!(!runtime.admit_event(&mut summary, "telegram:tg-1"));
    assert!(runtime.admit_event(&mut summary, "telegram:tg-2"));
    assert_eq!(summary.duplicate_skips, 1);
}

#[test]
fn transient_failure_then_recovery_matches_runner_counts() {
    let mut cfg = config(10, 4, 64);
    cfg.retry_base_delay_ms = 5;
    let runtime = fresh_runtime(cfg);
    let mut summary = MultiChannelRuntimeSummary::default();
    let first = runtime.attempt_step(&mut summary, 1, 1, None);
    assert_eq!(first, AttemptAction::Retry { delay_ms: 5, next_attempt: 2 });
    assert_eq!(runtime.attempt_step(&mut summary, 2, 1, None), AttemptAction::Persist);
    assert_eq!(runtime.attempt_step(&mut summary, 2, 1, Some(true)), AttemptAction::Complete);
    assert_eq!(summary.completed_events, 1);
    assert_eq!(summary.transient_failures, 1);
    assert_eq!(summary.retry_attempts, 1);
    assert_eq!(summary.failed_events, 0);
}

#[test]
fn failures_stop_at_retry_max_attempts() {
    let runtime = fresh_runtime(config(10, 2, 64));
    let mut summary = MultiChannelRuntimeSummary::default();
    assert_eq!(
        runtime.attempt_step(&mut summary, 1, 5, None),
        AttemptAction::Retry { delay_ms: 0, next_attempt: 2 }
    );
    assert_eq!(runtime.attempt_step(&mut summary, 2, 5, None), AttemptAction::Fail);
    assert_eq!(summary.failed_events, 1);
    assert_eq!(summary.transient_failures, 2);
    assert_eq!(summary.retry_attempts, 1);
    let mut s2 = MultiChannelRuntimeSummary::default();
    assert_eq!(runtime.attempt_step(&mut s2, 2, 0, Some(false)), AttemptAction::Fail);
    assert_eq!(s2.failed_events, 1);
    assert_eq!(s2.transient_failures, 0);
}

#[test]
fn render_response_acknowledges_commands_and_counts_message_chars() {
    assert_eq!(
        render_response(&event(MultiChannelEventKind::Message, " /status")),
        "command acknowledged: transport=telegram event_id=tg-1 conversation=chat-1"
    );
    assert_eq!(
        render_response(&event(MultiChannelEventKind::Command, "hi")),
        "command acknowledged: transport=telegram event_id=tg-1 conversation=chat-1"
    );
    assert_eq!(
        render_response(&event(MultiChannelEventKind::Message, "héllo")),
        "message processed: transport=telegram event_id=tg-1 text_chars=5"
    );
}

#[test]
fn simulated_failures_read_from_metadata() {
    let mut e = event(MultiChannelEventKind::Message, "hello");
    assert_eq!(simulated_transient_failures(&e), 0);
    e.simulate_transient_failures = Some(2);
    assert_eq!(simulated_transient_failures(&e), 2);
}

fn entries(keys: &[(&str, u64)]) -> Vec<QueueEntry> {
    keys.iter()
        .map(|(k, t)| QueueEntry { timestamp_ms: *t, event_key: k.to_string() })
        .collect()
}

fn baseline() -> Vec<QueueEntry> {
    entries(&[
        ("telegram:tg-1", 1_760_100_000_000),
        ("discord:dc-1", 1_760_100_000_100),
        ("whatsapp:wa-1", 1_760_100_000_200),
    ])
}

#[test]
fn functional_runner_processes_fixture_and_persists_channel_store_entries() {
    let mut runtime = MultiChannelRuntime::new(config(10_000, 3, 64), MultiChannelRuntimeState::default());
    let written = std::cell::RefCell::new(Vec::new());
    let persist = |i: usize| {
        written.borrow_mut().push(i);
        true
    };
    let summary = runtime.run_queue(&baseline(), &vec![0, 0, 0], &persist, &|_ms: u64| {});
    assert_eq!(summary.discovered_events, 3);
    assert_eq!(summary.queued_events, 3);
    assert_eq!(summary.completed_events, 3);
    assert_eq!(summary.duplicate_skips, 0);
    assert_eq!(summary.failed_events, 0);
    assert_eq!(*written.borrow(), vec![0, 1, 2]);
    assert_eq!(
        runtime.state.processed_event_keys,
        strings(&["telegram:tg-1", "discord:dc-1", "whatsapp:wa-1"])
    );
}

#[test]
fn integration_runner_retries_transient_failure_then_recovers() {
    let mut runtime = MultiChannelRuntime::new(config(10_000, 4, 64), MultiChannelRuntimeState::default());
    let pauses = std::cell::RefCell::new(Vec::new());
    let summary = runtime.run_queue(
        &entries(&[("telegram:tg-transient-1", 1_760_100_000_000)]),
        &vec![1],
        &|_i: usize| true,
        &|ms: u64| pauses.borrow_mut().push(ms),
    );
    assert_eq!(summary.completed_events, 1);
    assert_eq!(summary.transient_failures, 1);
    assert_eq!(summary.retry_attempts, 1);
    assert_eq!(summary.failed_events, 0);
    assert_eq!(*pauses.borrow(), vec![0]);
}

#[test]
fn integration_runner_respects_queue_limit_for_backpressure() {
    let mut runtime = MultiChannelRuntime::new(config(10_000, 3, 2), MultiChannelRuntimeState::default());
    let summary = runtime.run_queue(&baseline(), &vec![0, 0, 0], &|_i: usize| true, &|_ms: u64| {});
    assert_eq!(summary.discovered_events, 3);
    assert_eq!(summary.queued_events, 2);
    assert_eq!(summary.completed_events, 2);
    assert_eq!(runtime.state.processed_event_keys.len(), 2);
}

#[test]
fn regression_runner_skips_duplicate_events_from_persisted_state() {
    let cfg = config(10_000, 3, 64);
    let mut first = MultiChannelRuntime::new(cfg.clone(), MultiChannelRuntimeState::default());
    let first_summary = first.run_queue(&baseline(), &vec![0, 0, 0], &|_i: usize| true, &|_ms: u64| {});
    assert_eq!(first_summary.completed_events, 3);
    let mut second = MultiChannelRuntime::new(cfg, first.state.clone());
    let second_summary = second.run_queue(&baseline(), &vec![0, 0, 0], &|_i: usize| true, &|_ms: u64| {});
    assert_eq!(second_summary.completed_events, 0);
    assert_eq!(second_summary.duplicate_skips, 3);
}

#[test]
fn run_counts_every_queued_event_once() {
    let mut cfg = config(10_000, 2, 64);
    cfg.retry_base_delay_ms = 5;
    let mut runtime = MultiChannelRuntime::new(cfg, MultiChannelRuntimeState::default());
    let mut es = baseline();
    es.push(QueueEntry { timestamp_ms: 1, event_key: "telegram:tg-1".to_string() });
    let pauses = std::cell::RefCell::new(Vec::new());
    // event 1 always fails to write; event 0 simulates 3 transient failures.
    let summary = runtime.run_queue(
        &es,
        &vec![3, 0, 0, 0],
        &|i: usize| i != 1,
        &|ms: u64| pauses.borrow_mut().push(ms),
    );
    assert_eq!(summary.discovered_events, 4);
    assert_eq!(summary.queued_events, 4);
    assert_eq!(summary.completed_events, 2);
    assert_eq!(summary.duplicate_skips, 1);
    assert_eq!(summary.failed_events, 1);
    assert_eq!(
        summary.completed_events + summary.duplicate_skips + summary.failed_events,
        summary.queued_events
    );
    assert!(summary.retry_attempts <= summary.transient_failures);
    assert_eq!(*pauses.borrow(), vec![5]);
}

#[test]
fn event_key_joins_transport_and_trimmed_event_id() {
    assert_eq!(event_key(&event(MultiChannelEventKind::Message, "hi")), "telegram:tg-1");
}
