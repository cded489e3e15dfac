use url_shortener::config::Config;
use url_shortener::effects::{Counter, Effect, Reply};
use url_shortener::enums::HealthStatus;
use url_shortener::handlers::{
    health, redirect, shorten, stats, track_click, unique_violation, RedirectEvent,
    RedirectState, ShortenEvent, ShortenState, TrackEvent, TrackState, PUBLISH_TIMEOUT_MS,
};
use url_shortener::models::{ClickEvent, HealthResponse, ShortenRequest, Url, UrlResponse};

fn config() -> Config {
    Config {
        app_name: "url-shortener-rs".to_string(),
        app_env: "test".to_string(),
        base_url: "http://localhost:8080".to_string(),
        database_url: "postgresql://db/urls".to_string(),
        redis_url: "redis://cache:6379/0".to_string(),
        redis_replica_url: None,
        short_code_length: 7,
        id_allocator_key: "id_allocator:url".to_string(),
        id_block_size: 1000,
        keygen_service_url: "http://keygen:8010".to_string(),
        click_buffer_key_prefix: "click_buffer".to_string(),
        click_buffer_ttl_seconds: 300,
        click_flush_threshold: 100,
        click_stream_key: "click_events".to_string(),
        kafka_bootstrap_servers: "kafka:9092".to_string(),
        kafka_click_topic: "click_events".to_string(),
    }
}

fn record(id: i64, code: &str, url: &str, clicks: i64) -> Url {
    Url {
        id,
        short_code: code.to_string(),
        original_url: url.to_string(),
        clicks,
        created_at: 1_700_000_000_000_000,
        updated_at: 1_700_000_000_000_000,
    }
}

fn reply_of(effects: &[Effect]) -> Reply {
    let replies: Vec<&Effect> = effects.iter().filter(|e| matches!(e, Effect::Reply(_))).collect();
    assert_eq!(replies.len(), 1);
    match replies[0] {
        Effect::Reply(reply) => reply.clone(),
        _ => unreachable!(),
    }
}

#[test]
fn health_is_healthy_only_when_both_stores_answer() {
    assert_eq!(
        health(true, true),
        HealthResponse {
            status: HealthStatus::Healthy,
            database: HealthStatus::Healthy,
            cache: HealthStatus::Healthy
        }
    );
    assert_eq!(
        health(true, false),
        HealthResponse {
            status: HealthStatus::Unhealthy,
            database: HealthStatus::Healthy,
            cache: HealthStatus::Unhealthy
        }
    );
    assert_eq!(
        health(false, true),
        HealthResponse {
            status: HealthStatus::Unhealthy,
            database: HealthStatus::Unhealthy,
            cache: HealthStatus::Healthy
        }
    );
    assert_eq!(health(false, false).status, HealthStatus::Unhealthy);
}

#[test]
fn shorten_then_redirect_happy_path() {
    let config = config();
    let request = ShortenRequest { url: "https://example.com/a".to_string(), custom_code: None };
    let (state, effects) = shorten(&config, ShortenState::Idle, ShortenEvent::Request(request));
    assert_eq!(effects, vec![Effect::TakeId]);
    let (state, effects) = shorten(&config, state, ShortenEvent::Id(Some(1)));
    assert_eq!(
        effects,
        vec![Effect::InsertUrl {
            short_code: "0000001".to_string(),
            original_url: "https://example.com/a".to_string()
        }]
    );
    let stored = record(1, "0000001", "https://example.com/a", 0);
    let (state, effects) = shorten(&config, state, ShortenEvent::Stored(stored.clone()));
    assert_eq!(state, ShortenState::Done);
    assert_eq!(
        effects,
        vec![
            Effect::Count(Counter::StoreWrites),
            Effect::Count(Counter::ShortenCreated),
            Effect::WriteCache { key: "url:0000001".to_string(), url: stored.clone(), ttl_seconds: 3600 },
            Effect::Count(Counter::CacheOps),
            Effect::Reply(Reply::Created(UrlResponse {
                id: 1,
                short_code: "0000001".to_string(),
                original_url: "https://example.com/a".to_string(),
                short_url: "http://localhost:8080/0000001".to_string(),
                clicks: 0,
                created_at: 1_700_000_000_000_000,
                updated_at: 1_700_000_000_000_000,
            })),
        ]
    );
    let reply = reply_of(&effects);
    assert_eq!(reply.status_code(), 201);
    let code = match reply {
        Reply::Created(response) => response.short_code,
        other => panic!("unexpected reply {:?}", other),
    };
    assert_eq!(code.len(), 7);

    let (state, effects) =
        redirect(RedirectState::Idle, RedirectEvent::Request { short_code: code.clone() });
    assert_eq!(effects, vec![Effect::ReadCache { key: "url:0000001".to_string() }]);
    let (state, effects) = redirect(state, RedirectEvent::Cached(Some(stored)));
    assert_eq!(state, RedirectState::Done);
    assert_eq!(
        effects,
        vec![
            Effect::Count(Counter::CacheHits),
            Effect::Count(Counter::CacheOps),
            Effect::Count(Counter::RedirectServed),
            Effect::TrackClick { short_code: code },
            Effect::Reply(Reply::Redirect { location: "https://example.com/a".to_string() }),
        ]
    );
    assert_eq!(reply_of(&effects).status_code(), 307);
}

#[test]
fn custom_code_collision() {
    let config = config();
    let request = ShortenRequest {
        url: "https://example.com/b".to_string(),
        custom_code: Some("my-link".to_string()),
    };
    let (state, effects) =
        shorten(&config, ShortenState::Idle, ShortenEvent::Request(request.clone()));
    assert_eq!(effects, vec![Effect::ProbeCode { short_code: "my-link".to_string() }]);
    let (state, effects) = shorten(&config, state, ShortenEvent::Probed { found: false });
    assert_eq!(
        effects,
        vec![Effect::InsertUrl {
            short_code: "my-link".to_string(),
            original_url: "https://example.com/b".to_string()
        }]
    );
    let (_, effects) = shorten(
        &config,
        state,
        ShortenEvent::Stored(record(7, "my-link", "https://example.com/b", 0)),
    );
    assert_eq!(reply_of(&effects).status_code(), 201);

    let (state, _) = shorten(&config, ShortenState::Idle, ShortenEvent::Request(request));
    let (state, effects) = shorten(&config, state, ShortenEvent::Probed { found: true });
    assert_eq!(state, ShortenState::Done);
    assert_eq!(
        effects,
        vec![Effect::Reply(Reply::Conflict {
            detail: "Custom code 'my-link' is already taken".to_string()
        })]
    );
    assert_eq!(reply_of(&effects).status_code(), 409);
}

#[test]
fn custom_code_taken_between_probe_and_insert_is_a_conflict() {
    let config = config();
    let state = ShortenState::Inserting {
        url: "https://example.com/b".to_string(),
        code: "my-link".to_string(),
        custom: true,
        retried: false,
    };
    let (state, effects) = shorten(
        &config,
        state,
        ShortenEvent::Rejected {
            message: "duplicate key value violates unique constraint \"urls_short_code_key\""
                .to_string(),
        },
    );
    assert_eq!(state, ShortenState::Done);
    assert_eq!(
        effects,
        vec![Effect::Reply(Reply::Conflict {
            detail: "Custom code 'my-link' is already taken".to_string()
        })]
    );
}

#[test]
fn generated_code_collision_retry() {
    let config = config();
    let request = ShortenRequest { url: "https://example.com/c".to_string(), custom_code: None };
    let (state, _) = shorten(&config, ShortenState::Idle, ShortenEvent::Request(request));
    let (state, effects) = shorten(&config, state, ShortenEvent::Id(Some(5)));
    assert_eq!(
        effects,
        vec![Effect::InsertUrl {
            short_code: "0000005".to_string(),
            original_url: "https://example.com/c".to_string()
        }]
    );
    let (state, effects) = shorten(
        &config,
        state,
        ShortenEvent::Rejected { message: "duplicate key value".to_string() },
    );
    assert_eq!(effects, vec![Effect::Count(Counter::CollisionRetries), Effect::TakeId]);
    assert_eq!(
        state,
        ShortenState::AwaitingId { url: "https://example.com/c".to_string(), retry: true }
    );
    let (state, effects) = shorten(&config, state, ShortenEvent::Id(Some(6)));
    assert_eq!(
        effects,
        vec![Effect::InsertUrl {
            short_code: "0000006".to_string(),
            original_url: "https://example.com/c".to_string()
        }]
    );
    let (state, effects) = shorten(
        &config,
        state,
        ShortenEvent::Stored(record(9, "0000006", "https://example.com/c", 0)),
    );
    assert_eq!(state, ShortenState::Done);
    match reply_of(&effects) {
        Reply::Created(response) => {
            assert_eq!(response.short_code, "0000006");
            assert_ne!(response.short_code, "0000005");
        }
        other => panic!("unexpected reply {:?}", other),
    }
}

#[test]
fn a_second_collision_fails_the_request() {
    let config = config();
    let state = ShortenState::Inserting {
        url: "https://example.com/c".to_string(),
        code: "0000006".to_string(),
        custom: false,
        retried: true,
    };
    let (state, effects) = shorten(
        &config,
        state,
        ShortenEvent::Rejected { message: "duplicate key value".to_string() },
    );
    assert_eq!(state, ShortenState::Done);
    assert_eq!(effects, vec![Effect::Reply(Reply::Failed)]);
    assert_eq!(reply_of(&effects).status_code(), 500);
}

#[test]
fn shorten_reports_allocator_and_store_failures() {
    let config = config();
    let request = ShortenRequest { url: "https://example.com/d".to_string(), custom_code: None };
    let (awaiting, _) =
        shorten(&config, ShortenState::Idle, ShortenEvent::Request(request));
    let (state, effects) = shorten(&config, awaiting.clone(), ShortenEvent::Id(None));
    assert_eq!(state, ShortenState::Done);
    assert_eq!(effects, vec![Effect::Reply(Reply::Unavailable)]);
    assert_eq!(reply_of(&effects).status_code(), 503);

    let (state, effects) = shorten(&config, awaiting.clone(), ShortenEvent::Id(Some(-3)));
    assert_eq!(state, ShortenState::Done);
    assert_eq!(effects, vec![Effect::Reply(Reply::Failed)]);

    let (inserting, _) = shorten(&config, awaiting, ShortenEvent::Id(Some(3)));
    let (state, effects) = shorten(
        &config,
        inserting,
        ShortenEvent::Rejected { message: "connection reset by peer".to_string() },
    );
    assert_eq!(state, ShortenState::Done);
    assert_eq!(effects, vec![Effect::Reply(Reply::Failed)]);
}

#[test]
fn shorten_ignores_events_it_does_not_wait_for() {
    let config = config();
    let (state, effects) = shorten(&config, ShortenState::Idle, ShortenEvent::Id(Some(1)));
    assert_eq!(state, ShortenState::Idle);
    assert!(effects.is_empty());
    let (state, effects) =
        shorten(&config, ShortenState::Done, ShortenEvent::Probed { found: true });
    assert_eq!(state, ShortenState::Done);
    assert!(effects.is_empty());
}

#[test]
fn unique_violation_reads_the_stores_complaint() {
    assert!(unique_violation("ERROR: duplicate key value violates unique constraint"));
    assert!(unique_violation("unique constraint failed"));
    assert!(unique_violation("xx duplicate key"));
    assert!(!unique_violation("connection refused"));
    assert!(!unique_violation("Duplicate Key"));
    assert!(!unique_violation(""));
}

#[test]
fn redirect_miss_reads_the_store_and_fills_the_cache() {
    let (state, _) =
        redirect(RedirectState::Idle, RedirectEvent::Request { short_code: "abc".to_string() });
    let (state, effects) = redirect(state, RedirectEvent::Cached(None));
    assert_eq!(state, RedirectState::ReadingStore { code: "abc".to_string() });
    assert_eq!(
        effects,
        vec![
            Effect::Count(Counter::CacheMisses),
            Effect::Count(Counter::CacheOps),
            Effect::ReadUrl { short_code: "abc".to_string() },
        ]
    );
    let stored = record(3, "abc", "https://example.com/x", 41);
    let (state, effects) = redirect(state, RedirectEvent::Loaded(Some(stored.clone())));
    assert_eq!(state, RedirectState::Done);
    assert_eq!(
        effects,
        vec![
            Effect::Count(Counter::StoreReads),
            Effect::WriteCache { key: "url:abc".to_string(), url: stored, ttl_seconds: 3600 },
            Effect::Count(Counter::RedirectServed),
            Effect::TrackClick { short_code: "abc".to_string() },
            Effect::Reply(Reply::Redirect { location: "https://example.com/x".to_string() }),
        ]
    );
}

#[test]
fn redirect_of_an_unknown_code_is_not_found() {
    let (state, _) =
        redirect(RedirectState::Idle, RedirectEvent::Request { short_code: "nope".to_string() });
    let (state, _) = redirect(state, RedirectEvent::Cached(None));
    let (state, effects) = redirect(state, RedirectEvent::Loaded(None));
    assert_eq!(state, RedirectState::Done);
    assert_eq!(
        effects,
        vec![
            Effect::Count(Counter::StoreReads),
            Effect::Reply(Reply::NotFound { detail: "Short URL not found".to_string() }),
        ]
    );
    assert_eq!(reply_of(&effects).status_code(), 404);
    assert!(!effects.iter().any(|e| matches!(e, Effect::TrackClick { .. })));
}

#[test]
fn stats_answer_from_the_store() {
    let config = config();
    let effects = stats(&config, Some(record(3, "abc", "https://example.com/x", 250)));
    assert_eq!(
        effects,
        vec![
            Effect::Count(Counter::StoreReads),
            Effect::Count(Counter::StatsServed),
            Effect::Reply(Reply::Found(UrlResponse {
                id: 3,
                short_code: "abc".to_string(),
                original_url: "https://example.com/x".to_string(),
                short_url: "http://localhost:8080/abc".to_string(),
                clicks: 250,
                created_at: 1_700_000_000_000_000,
                updated_at: 1_700_000_000_000_000,
            })),
        ]
    );
    assert_eq!(reply_of(&effects).status_code(), 200);
    let effects = stats(&config, None);
    assert_eq!(
        effects,
        vec![
            Effect::Count(Counter::StoreReads),
            Effect::Reply(Reply::NotFound { detail: "Short URL not found".to_string() }),
        ]
    );
}

#[test]
fn from_url_renders_the_short_address() {
    let response = UrlResponse::from_url(&record(12, "Zz09", "https://example.com/y", 5), "https://sho.rt");
    assert_eq!(response.short_url, "https://sho.rt/Zz09");
    assert_eq!(response.id, 12);
    assert_eq!(response.clicks, 5);
    assert_eq!(response.original_url, "https://example.com/y");
}

fn track_to_publish(count: Option<i64>) -> (TrackState, Vec<Effect>) {
    let config = config();
    let (state, effects) =
        track_click(&config, TrackState::Idle, TrackEvent::Start { short_code: "abc".to_string() });
    assert_eq!(effects, vec![Effect::IncrBuffer { key: "click_buffer:abc".to_string() }]);
    track_click(&config, state, TrackEvent::Counted(count))
}

fn publish_effect() -> Effect {
    Effect::Publish {
        topic: "click_events".to_string(),
        key: "abc".to_string(),
        event: ClickEvent { short_code: "abc".to_string(), delta: 1 },
        timeout_ms: 500,
    }
}

#[test]
fn first_click_sets_the_lifetime_of_the_counter() {
    let (state, effects) = track_to_publish(Some(1));
    assert_eq!(state, TrackState::Publishing { code: "abc".to_string() });
    assert_eq!(
        effects,
        vec![
            Effect::ExpireBuffer { key: "click_buffer:abc".to_string(), ttl_seconds: 300 },
            Effect::Count(Counter::CacheOps),
            publish_effect(),
        ]
    );
    assert_eq!(PUBLISH_TIMEOUT_MS, 500);
}

#[test]
fn later_clicks_and_failed_increments_only_publish() {
    let (_, effects) = track_to_publish(Some(2));
    assert_eq!(effects, vec![Effect::Count(Counter::CacheOps), publish_effect()]);
    let (_, effects) = track_to_publish(None);
    assert_eq!(effects, vec![Effect::Count(Counter::CacheOps), publish_effect()]);
}

#[test]
fn event_bus_outage_sends_each_click_to_the_fallback_stream() {
    let config = config();
    let mut appended = 0;
    for _ in 0..50 {
        let (state, _) = track_to_publish(Some(7));
        let (state, effects) = track_click(&config, state, TrackEvent::Published(false));
        assert_eq!(state, TrackState::Done);
        assert_eq!(
            effects,
            vec![
                Effect::Count(Counter::StreamFallbacks),
                Effect::AppendStream {
                    stream_key: "click_events".to_string(),
                    short_code: "abc".to_string(),
                    delta: "1".to_string(),
                },
            ]
        );
        appended += effects.iter().filter(|e| matches!(e, Effect::AppendStream { .. })).count();
    }
    assert_eq!(appended, 50);
}

#[test]
fn a_published_click_stays_off_the_fallback_stream() {
    let config = config();
    let (state, _) = track_to_publish(Some(7));
    let (state, effects) = track_click(&config, state, TrackEvent::Published(true));
    assert_eq!(state, TrackState::Done);
    assert_eq!(effects, vec![Effect::Count(Counter::BusPublishes)]);
    let (state, effects) = track_click(&config, state, TrackEvent::Published(false));
    assert_eq!(state, TrackState::Done);
    assert!(effects.is_empty());
}

#[test]
fn counters_name_their_metrics() {
    assert_eq!(Counter::CacheOps.metric_name(), "app_edge_redis_ops_total");
    assert_eq!(Counter::StoreReads.metric_name(), "app_edge_db_reads_total");
    assert_eq!(Counter::StoreWrites.metric_name(), "app_edge_db_writes_total");
    assert_eq!(Counter::BusPublishes.metric_name(), "app_edge_kafka_publish_total");
    assert_eq!(Counter::StreamFallbacks.metric_name(), "app_edge_stream_fallback_total");
    assert_eq!(Counter::CacheHits.metric_name(), "app_edge_cache_hits_total");
    assert_eq!(Counter::CacheMisses.metric_name(), "app_edge_cache_misses_total");
    assert_eq!(Counter::CollisionRetries.metric_name(), "app_edge_collision_retries_total");
    assert_eq!(Counter::ShortenCreated.metric_name(), "http_requests_total");
    assert!(Counter::CacheOps.labels().is_none());
    let labels = Counter::ShortenCreated.labels().expect("labels");
    assert_eq!((labels.handler, labels.method, labels.status_code), ("shorten", "POST", "201"));
    let labels = Counter::RedirectServed.labels().expect("labels");
    assert_eq!((labels.handler, labels.method, labels.status_code), ("redirect", "GET", "302"));
    let labels = Counter::StatsServed.labels().expect("labels");
    assert_eq!((labels.handler, labels.method, labels.status_code), ("stats", "GET", "200"));
}

#[test]
fn successful_shortens_return_distinct_codes() {
    let config = config();
    let mut store: std::collections::HashSet<String> = std::collections::HashSet::new();
    store.insert("0000003".to_string());
    let mut next_id = 0i64;
    let mut created: Vec<String> = Vec::new();
    let customs = [None, Some("mine"), None, None, Some("mine"), None, Some("0000006"), None, None];
    for custom in customs {
        let request = ShortenRequest {
            url: "https://example.com/z".to_string(),
            custom_code: custom.map(|c| c.to_string()),
        };
        let mut state = ShortenState::Idle;
        let mut event = ShortenEvent::Request(request);
        let reply = loop {
            let (next, effects) = shorten(&config, state, event);
            state = next;
            let mut brought = None;
            let mut reply = None;
            for effect in effects {
                match effect {
                    Effect::ProbeCode { short_code } => {
                        brought = Some(ShortenEvent::Probed { found: store.contains(&short_code) });
                    }
                    Effect::TakeId => {
                        next_id += 1;
                        brought = Some(ShortenEvent::Id(Some(next_id)));
                    }
                    Effect::InsertUrl { short_code, original_url } => {
                        brought = Some(if store.insert(short_code.clone()) {
                            ShortenEvent::Stored(record(
                                store.len() as i64,
                                &short_code,
                                &original_url,
                                0,
                            ))
                        } else {
                            ShortenEvent::Rejected {
                                message: "duplicate key value violates unique constraint"
                                    .to_string(),
                            }
                        });
                    }
                    Effect::Reply(given) => reply = Some(given),
                    _ => {}
                }
            }
            if let Some(given) = reply {
                break given;
            }
            event = brought.expect("an effect that asks for something");
        };
        match reply {
            Reply::Created(response) => created.push(response.short_code),
            Reply::Conflict { detail } => {
                assert_eq!(detail, "Custom code 'mine' is already taken")
            }
            other => panic!("unexpected reply {:?}", other),
        }
    }
    assert_eq!(
        created,
        vec![
            "0000001", "mine", "0000002", "0000004", "0000005", "0000006", "0000007", "0000008"
        ]
    );
    let distinct: std::collections::HashSet<&String> = created.iter().collect();
    assert_eq!(distinct.len(), created.len());
}
