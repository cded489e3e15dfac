use url_shortener::aggregates::ClickAggregates;
use url_shortener::analytics::{
    clickhouse_insert, ensure_clickhouse_table, insert_clickhouse_rows,
};
use url_shortener::ingestion::{
    buffer_to_redis, flush_redis_to_db, invalidate_commands, parse_hash, CacheOp, Delivery,
    FlushEffect, FlushEvent, FlushState, HashField, HashIncr, IngestConfig, IngestEffect,
    Ingestor, PollEvent, Warning,
};
use url_shortener::models::{duplicate_clicks, ClickEvent};

fn config(batch_size: usize) -> IngestConfig {
    IngestConfig {
        database_url: "postgresql://db/urls".to_string(),
        redis_url: "redis://cache:6379/0".to_string(),
        kafka_bootstrap_servers: "kafka:9092".to_string(),
        kafka_click_topic: "click_events".to_string(),
        ingestion_consumer_group: "click_ingestion_group".to_string(),
        ingestion_consumer_name: "ingestion-consumer-1".to_string(),
        ingestion_batch_size: batch_size,
        ingestion_block_ms: 1000,
        ingestion_flush_interval_seconds: 5,
        ingestion_agg_key_prefix: "ingestion_agg".to_string(),
        click_buffer_key_prefix: "click_buffer".to_string(),
        clickhouse_url: "http://clickhouse:8123".to_string(),
        clickhouse_username: "default".to_string(),
        clickhouse_password: "clickhouse".to_string(),
        clickhouse_database: "default".to_string(),
        ingestion_metrics_port: None,
    }
}

fn click(code: &str, delta: i64) -> ClickEvent {
    ClickEvent { short_code: code.to_string(), delta }
}

fn message(code: &str, delta: i64) -> PollEvent {
    PollEvent::Message(Delivery::Click(click(code, delta)))
}

fn field(name: &str, value: &str) -> HashField {
    HashField { field: name.to_string(), value: value.to_string() }
}

fn incr(code: &str, amount: i64) -> HashIncr {
    HashIncr {
        key: "ingestion_agg:ingestion-consumer-1".to_string(),
        field: code.to_string(),
        amount,
    }
}

#[test]
fn aggregates_sum_deltas_per_short_code() {
    let mut aggregates = ClickAggregates::new();
    assert!(aggregates.is_empty());
    assert_eq!(aggregates.total(), 0);
    aggregates.add("a", 1);
    aggregates.add("b", 5);
    aggregates.add("a", 2);
    assert!(!aggregates.is_empty());
    assert_eq!(aggregates.len(), 2);
    assert_eq!(aggregates.get("a"), 3);
    assert_eq!(aggregates.get("b"), 5);
    assert_eq!(aggregates.get("c"), 0);
    assert_eq!(aggregates.total(), 8);
    assert_eq!(aggregates.entries(), vec![click("a", 3), click("b", 5)]);
}

#[test]
fn aggregates_keep_an_entry_for_a_delta_of_zero() {
    let mut aggregates = ClickAggregates::new();
    aggregates.add("a", 0);
    assert!(!aggregates.is_empty());
    assert_eq!(aggregates.entries(), vec![click("a", 0)]);
    aggregates.add("a", -4);
    assert_eq!(aggregates.get("a"), -4);
    assert_eq!(aggregates.total(), -4);
}

#[test]
fn aggregates_refuse_what_does_not_fit() {
    let mut aggregates = ClickAggregates::new();
    assert!(aggregates.try_add("a", i64::MAX));
    assert!(aggregates.can_add("a", 0));
    assert!(!aggregates.can_add("a", 1));
    assert!(!aggregates.can_add("b", 1));
    assert!(!aggregates.try_add("a", 1));
    assert!(!aggregates.try_add("b", 1));
    assert_eq!(aggregates.entries(), vec![click("a", i64::MAX)]);
    assert!(aggregates.try_add("b", -1));
    assert_eq!(aggregates.total(), i64::MAX - 1);
    assert!(aggregates.try_add("a", -1));
    assert_eq!(aggregates.get("a"), i64::MAX - 1);
}

#[test]
fn buffer_to_redis_increments_one_field_per_short_code() {
    let mut aggregates = ClickAggregates::new();
    assert!(buffer_to_redis("ingestion_agg:ingestion-consumer-1", &aggregates).is_empty());
    aggregates.add("a", 3);
    aggregates.add("b", 1);
    assert_eq!(
        buffer_to_redis("ingestion_agg:ingestion-consumer-1", &aggregates),
        vec![incr("a", 3), incr("b", 1)]
    );
}

#[test]
fn click_aggregation() {
    let config = config(500);
    let mut ingestor = Ingestor::new(0);
    for n in 0..250u64 {
        let effects = ingestor.poll(&config, message("c", 1), n);
        assert_eq!(effects, vec![IngestEffect::CountEvent, IngestEffect::CommitOffset]);
    }
    assert_eq!(ingestor.pending_len(), 1);
    let effects = ingestor.poll(&config, PollEvent::Timeout, 1250);
    assert_eq!(effects, vec![IngestEffect::Buffer { commands: vec![incr("c", 250)], total: 250 }]);
    assert_eq!(ingestor.pending_len(), 0);

    let effects = ingestor.poll(&config, PollEvent::Timeout, 5000);
    assert_eq!(effects, vec![IngestEffect::Flush]);

    let (state, effects) = flush_redis_to_db(&config, FlushState::Idle, FlushEvent::Begin);
    assert_eq!(
        effects,
        vec![FlushEffect::ReadHash { key: "ingestion_agg:ingestion-consumer-1".to_string() }]
    );
    let (state, effects) =
        flush_redis_to_db(&config, state, FlushEvent::HashRead(Some(vec![field("c", "250")])));
    assert_eq!(effects, vec![FlushEffect::ApplyUpdates { updates: vec![click("c", 250)] }]);
    let (state, effects) = flush_redis_to_db(&config, state, FlushEvent::Committed(true));
    assert_eq!(
        effects,
        vec![
            FlushEffect::CountUpdates { count: 1 },
            FlushEffect::Invalidate {
                ops: vec![
                    CacheOp::DecrBy { key: "click_buffer:c".to_string(), amount: 250 },
                    CacheOp::Delete { key: "url:c".to_string() },
                ]
            },
        ]
    );
    let (state, effects) = flush_redis_to_db(&config, state, FlushEvent::Invalidated(true));
    assert_eq!(effects, vec![FlushEffect::MirrorAnalytics { rows: vec![click("c", 250)] }]);
    let (state, effects) = flush_redis_to_db(&config, state, FlushEvent::Mirrored(true));
    assert_eq!(
        effects,
        vec![
            FlushEffect::CountRows { count: 1 },
            FlushEffect::DeleteHash { key: "ingestion_agg:ingestion-consumer-1".to_string() },
        ]
    );
    let (state, effects) = flush_redis_to_db(&config, state, FlushEvent::Cleared(true));
    assert_eq!(state, FlushState::Done);
    assert_eq!(effects, vec![FlushEffect::Finish { ok: true }]);

    let effects = ingestor.poll(&config, PollEvent::Flushed, 5100);
    assert!(effects.is_empty());
    assert!(ingestor.poll(&config, PollEvent::Timeout, 10_099).is_empty());
    assert_eq!(ingestor.poll(&config, PollEvent::Timeout, 10_100), vec![IngestEffect::Flush]);
}

#[test]
fn a_full_batch_is_buffered_at_once() {
    let config = config(2);
    let mut ingestor = Ingestor::new(0);
    assert_eq!(
        ingestor.poll(&config, message("a", 1), 1),
        vec![IngestEffect::CountEvent, IngestEffect::CommitOffset]
    );
    assert_eq!(
        ingestor.poll(&config, message("a", 1), 2),
        vec![IngestEffect::CountEvent, IngestEffect::CommitOffset]
    );
    assert_eq!(
        ingestor.poll(&config, message("b", 4), 3),
        vec![
            IngestEffect::CountEvent,
            IngestEffect::CommitOffset,
            IngestEffect::Buffer { commands: vec![incr("a", 2), incr("b", 4)], total: 6 },
        ]
    );
    assert_eq!(ingestor.pending_len(), 0);
    assert!(ingestor.poll(&config, PollEvent::Timeout, 4).is_empty());
}

#[test]
fn invalid_and_empty_messages_are_committed_and_passed_over() {
    let config = config(500);
    let mut ingestor = Ingestor::new(0);
    assert_eq!(
        ingestor.poll(&config, PollEvent::Message(Delivery::Invalid), 1),
        vec![IngestEffect::Warn(Warning::InvalidPayload), IngestEffect::CommitOffset]
    );
    assert_eq!(
        ingestor.poll(&config, PollEvent::Message(Delivery::Empty), 2),
        vec![IngestEffect::CommitOffset]
    );
    assert_eq!(
        ingestor.poll(&config, PollEvent::ReceiveFailed, 3),
        vec![IngestEffect::Warn(Warning::ReceiveFailed)]
    );
    assert_eq!(ingestor.pending_len(), 0);
    assert_eq!(
        ingestor.poll(&config, message("a", i64::MAX), 4),
        vec![IngestEffect::CountEvent, IngestEffect::CommitOffset]
    );
    assert_eq!(
        ingestor.poll(&config, message("a", 1), 5),
        vec![IngestEffect::Warn(Warning::DeltaOverflow), IngestEffect::CommitOffset]
    );
    assert_eq!(
        ingestor.poll(&config, PollEvent::Timeout, 6),
        vec![IngestEffect::Buffer { commands: vec![incr("a", i64::MAX)], total: i64::MAX }]
    );
}

#[test]
fn event_bus_outage_and_recovery() {
    let config = config(500);
    let mut ingestor = Ingestor::new(0);
    for n in 0..50u64 {
        let entry = PollEvent::StreamEntry {
            id: format!("1700000000000-{}", n),
            short_code: "c".to_string(),
            delta: "1".to_string(),
        };
        assert_eq!(
            ingestor.poll(&config, entry, n),
            vec![
                IngestEffect::CountEvent,
                IngestEffect::AckStream { id: format!("1700000000000-{}", n) },
            ]
        );
    }
    assert_eq!(
        ingestor.poll(&config, PollEvent::Timeout, 60),
        vec![IngestEffect::Buffer { commands: vec![incr("c", 50)], total: 50 }]
    );
    let aggregates = parse_hash(&vec![field("c", "50")]);
    assert_eq!(aggregates.entries(), vec![click("c", 50)]);
}

#[test]
fn a_stream_entry_without_a_number_is_removed_and_passed_over() {
    let config = config(500);
    let mut ingestor = Ingestor::new(0);
    for delta in ["", "one", "1.5", " 1", "9223372036854775808", "+", "-"] {
        let entry = PollEvent::StreamEntry {
            id: "7-0".to_string(),
            short_code: "c".to_string(),
            delta: delta.to_string(),
        };
        assert_eq!(
            ingestor.poll(&config, entry, 1),
            vec![
                IngestEffect::Warn(Warning::InvalidPayload),
                IngestEffect::AckStream { id: "7-0".to_string() },
            ]
        );
    }
    assert_eq!(ingestor.pending_len(), 0);
    for (delta, value) in [("+7", 7), ("-3", -3), ("007", 7), ("-9223372036854775808", i64::MIN)] {
        let mut fresh = Ingestor::new(0);
        let entry = PollEvent::StreamEntry {
            id: "7-1".to_string(),
            short_code: "c".to_string(),
            delta: delta.to_string(),
        };
        fresh.poll(&config, entry, 1);
        assert_eq!(
            fresh.poll(&config, PollEvent::Timeout, 2),
            vec![IngestEffect::Buffer { commands: vec![incr("c", value)], total: value }]
        );
    }
}

#[test]
fn the_flush_interval_counts_from_the_end_of_the_last_flush() {
    let config = config(500);
    let mut ingestor = Ingestor::new(1000);
    assert!(ingestor.poll(&config, PollEvent::Timeout, 5999).is_empty());
    assert_eq!(ingestor.poll(&config, PollEvent::Timeout, 6000), vec![IngestEffect::Flush]);
    assert_eq!(ingestor.poll(&config, PollEvent::Timeout, 6001), vec![IngestEffect::Flush]);
    ingestor.poll(&config, PollEvent::Flushed, 6500);
    assert!(ingestor.poll(&config, PollEvent::Timeout, 11_499).is_empty());
    assert!(ingestor.poll(&config, PollEvent::Timeout, 100).is_empty());
    assert_eq!(ingestor.poll(&config, PollEvent::Timeout, 11_500), vec![IngestEffect::Flush]);
}

#[test]
fn the_plan_keeps_deltas_above_zero_only() {
    let raw = vec![
        field("a", "3"),
        field("b", "0"),
        field("c", "-2"),
        field("d", "many"),
        field("e", "12"),
        field("f", ""),
    ];
    assert_eq!(parse_hash(&raw).entries(), vec![click("a", 3), click("e", 12)]);
    assert!(parse_hash(&vec![]).is_empty());
}

#[test]
fn an_empty_hash_ends_the_flush_and_a_hash_without_deltas_is_deleted() {
    let config = config(500);
    let (state, _) = flush_redis_to_db(&config, FlushState::Idle, FlushEvent::Begin);
    let (done, effects) =
        flush_redis_to_db(&config, state.clone(), FlushEvent::HashRead(Some(vec![])));
    assert_eq!(done, FlushState::Done);
    assert_eq!(effects, vec![FlushEffect::Finish { ok: true }]);

    let (clearing, effects) = flush_redis_to_db(
        &config,
        state.clone(),
        FlushEvent::HashRead(Some(vec![field("a", "0"), field("b", "x")])),
    );
    assert_eq!(clearing, FlushState::Clearing);
    assert_eq!(
        effects,
        vec![FlushEffect::DeleteHash { key: "ingestion_agg:ingestion-consumer-1".to_string() }]
    );
    let (done, effects) = flush_redis_to_db(&config, clearing, FlushEvent::Cleared(false));
    assert_eq!(done, FlushState::Done);
    assert_eq!(effects, vec![FlushEffect::Finish { ok: false }]);

    let (done, effects) = flush_redis_to_db(&config, state, FlushEvent::HashRead(None));
    assert_eq!(done, FlushState::Done);
    assert_eq!(effects, vec![FlushEffect::Finish { ok: false }]);
}

#[test]
fn a_failed_commit_leaves_the_hash_for_the_next_flush() {
    let config = config(500);
    let state = FlushState::Committing { plan: vec![click("a", 3)] };
    let (state, effects) = flush_redis_to_db(&config, state, FlushEvent::Committed(false));
    assert_eq!(state, FlushState::Done);
    assert_eq!(effects, vec![FlushEffect::Finish { ok: false }]);

    let state = FlushState::Invalidating { plan: vec![click("a", 3)] };
    let (state, effects) = flush_redis_to_db(&config, state, FlushEvent::Invalidated(false));
    assert_eq!(state, FlushState::Done);
    assert_eq!(effects, vec![FlushEffect::Finish { ok: false }]);
}

#[test]
fn a_failed_mirror_does_not_stop_the_flush() {
    let config = config(500);
    let (state, effects) =
        flush_redis_to_db(&config, FlushState::Mirroring { rows: 4 }, FlushEvent::Mirrored(false));
    assert_eq!(state, FlushState::Clearing);
    assert_eq!(
        effects,
        vec![
            FlushEffect::CountRows { count: 0 },
            FlushEffect::DeleteHash { key: "ingestion_agg:ingestion-consumer-1".to_string() },
        ]
    );
}

#[test]
fn invalidation_lowers_the_counter_and_deletes_the_record_of_each_code() {
    let plan = vec![click("a", 3), click("b", 9)];
    assert_eq!(
        invalidate_commands("click_buffer", &plan),
        vec![
            CacheOp::DecrBy { key: "click_buffer:a".to_string(), amount: 3 },
            CacheOp::Delete { key: "url:a".to_string() },
            CacheOp::DecrBy { key: "click_buffer:b".to_string(), amount: 9 },
            CacheOp::Delete { key: "url:b".to_string() },
        ]
    );
    assert!(invalidate_commands("click_buffer", &vec![]).is_empty());
    assert_eq!(duplicate_clicks(&plan), plan);
}

#[test]
fn the_analytics_table_is_created_by_one_statement() {
    let request = ensure_clickhouse_table(&config(500));
    assert_eq!(request.url, "http://clickhouse:8123/?user=default&password=clickhouse");
    assert_eq!(
        request.body,
        "CREATE TABLE IF NOT EXISTS default.click_events (short_code String, delta UInt32, event_time DateTime) ENGINE = MergeTree ORDER BY (short_code, event_time)"
    );
}

#[test]
fn analytics_rows_are_escaped_and_joined() {
    let rows = vec![click("abc", 250), click("o'neil", 1), click("z", -2)];
    let request = clickhouse_insert(&config(500), &rows, "2023-11-14 22:13:20");
    assert_eq!(request.url, "http://clickhouse:8123/?user=default&password=clickhouse");
    assert_eq!(
        request.body,
        "INSERT INTO default.click_events (short_code, delta, event_time) VALUES ('abc',250,'2023-11-14 22:13:20'),('o\\'neil',1,'2023-11-14 22:13:20'),('z',-2,'2023-11-14 22:13:20')"
    );
    let request = clickhouse_insert(&config(500), &vec![click("a", 1)], "now");
    assert_eq!(
        request.body,
        "INSERT INTO default.click_events (short_code, delta, event_time) VALUES ('a',1,'now')"
    );
}

#[test]
fn analytics_rows_carry_the_time_in_utc() {
    let rows = vec![click("abc", 250)];
    let request = insert_clickhouse_rows(&config(500), &rows, 1_431_648_000).expect("a request");
    assert_eq!(
        request.body,
        "INSERT INTO default.click_events (short_code, delta, event_time) VALUES ('abc',250,'2015-05-15 00:00:00')"
    );
    let request = insert_clickhouse_rows(&config(500), &rows, 1_700_000_000).expect("a request");
    assert!(request.body.ends_with("('abc',250,'2023-11-14 22:13:20')"));
    let request = insert_clickhouse_rows(&config(500), &rows, 0).expect("a request");
    assert!(request.body.ends_with("('abc',250,'1970-01-01 00:00:00')"));
}

#[test]
fn nothing_is_sent_to_analytics_without_rows_or_without_a_time() {
    assert_eq!(insert_clickhouse_rows(&config(500), &vec![], 1_700_000_000), None);
    assert_eq!(insert_clickhouse_rows(&config(500), &vec![click("a", 1)], i64::MAX), None);
    assert_eq!(insert_clickhouse_rows(&config(500), &vec![click("a", 1)], i64::MIN), None);
}

fn commit(clicks: &mut std::collections::HashMap<String, i64>, updates: &[ClickEvent]) {
    for update in updates {
        if let Some(stored) = clicks.get_mut(&update.short_code) {
            *stored += update.delta;
        }
    }
}

fn planned_updates(raw: Vec<HashField>) -> Vec<ClickEvent> {
    let config = config(500);
    let (state, _) = flush_redis_to_db(&config, FlushState::Idle, FlushEvent::Begin);
    let (_, effects) = flush_redis_to_db(&config, state, FlushEvent::HashRead(Some(raw)));
    match effects.into_iter().next() {
        Some(FlushEffect::ApplyUpdates { updates }) => updates,
        other => panic!("unexpected effect {:?}", other),
    }
}

#[test]
fn a_flush_started_anew_never_lowers_the_clicks() {
    let mut clicks = std::collections::HashMap::new();
    clicks.insert("a".to_string(), 10i64);
    clicks.insert("b".to_string(), 0i64);
    let raw = vec![field("a", "4"), field("b", "-9"), field("gone", "2"), field("b2", "x")];

    let updates = planned_updates(raw.clone());
    assert_eq!(updates, vec![click("a", 4), click("gone", 2)]);
    commit(&mut clicks, &updates);
    assert_eq!(clicks["a"], 14);
    assert_eq!(clicks["b"], 0);
    assert!(!clicks.contains_key("gone"));

    let again = planned_updates(raw);
    assert_eq!(again, updates);
    commit(&mut clicks, &again);
    assert!(clicks["a"] >= 14);
    assert_eq!(clicks["a"], 18);
    assert_eq!(clicks["b"], 0);
}
