use url_shortener::allocator::{
    allocate, keygen_health, try_allocate, AllocateEffect, AllocateEvent, AllocateReply,
    AllocateRequest, AllocateState, Backend, KeygenConfig,
};
use url_shortener::enums::HealthStatus;
use url_shortener::keygen::{IdAction, IdEvent, KeygenClient, EDGE_STACK};
use url_shortener::models::AllocateResponse;

fn config() -> KeygenConfig {
    KeygenConfig {
        keygen_primary_redis_url: "redis://keygen-redis-primary:6379/0".to_string(),
        keygen_secondary_redis_url: "redis://keygen-redis-secondary:6379/0".to_string(),
        id_allocator_key: "id_allocator:url".to_string(),
        id_block_size: 1000,
    }
}

fn request(size: Option<i64>, stack: Option<&str>) -> AllocateEvent {
    AllocateEvent::Request(AllocateRequest { size, stack: stack.map(|s| s.to_string()) })
}

fn granted(effects: &[AllocateEffect]) -> (i64, i64) {
    assert_eq!(effects.len(), 1);
    match &effects[0] {
        AllocateEffect::Reply(AllocateReply::Granted { start, end, .. }) => (*start, *end),
        other => panic!("unexpected effect {:?}", other),
    }
}

#[test]
fn the_client_asks_for_a_block_when_it_has_none() {
    let mut client = KeygenClient::new("http://keygen:8010".to_string(), 1000);
    assert!(client.is_exhausted());
    assert_eq!(client.keygen_url(), "http://keygen:8010");
    assert_eq!(client.id_block_size(), 1000);
    assert_eq!(
        client.next_id(IdEvent::Take),
        IdAction::Fetch {
            url: "http://keygen:8010/allocate".to_string(),
            size: 1000,
            stack: "secondary_writers".to_string()
        }
    );
    assert_eq!(EDGE_STACK, "secondary_writers");
    assert!(client.is_exhausted());
}

#[test]
fn the_client_hands_out_a_block_in_order_and_once() {
    let mut client = KeygenClient::new("http://keygen:8010".to_string(), 3);
    let block = AllocateResponse { start: 41, end: 43 };
    assert_eq!(client.next_id(IdEvent::Fetched(block)), IdAction::Issued(41));
    assert!(!client.is_exhausted());
    assert_eq!(client.next_id(IdEvent::Take), IdAction::Issued(42));
    assert_eq!(client.next_id(IdEvent::Take), IdAction::Issued(43));
    assert!(client.is_exhausted());
    assert!(matches!(client.next_id(IdEvent::Take), IdAction::Fetch { .. }));
    let block = AllocateResponse { start: 1044, end: 1044 };
    assert_eq!(client.next_id(IdEvent::Fetched(block)), IdAction::Issued(1044));
    assert!(client.is_exhausted());
}

#[test]
fn the_client_reports_a_failed_fetch_and_keeps_what_it_has() {
    let mut client = KeygenClient::new("http://keygen:8010".to_string(), 3);
    assert_eq!(client.next_id(IdEvent::FetchFailed), IdAction::Failed);
    assert!(client.is_exhausted());
    client.next_id(IdEvent::Fetched(AllocateResponse { start: 1, end: 2 }));
    assert_eq!(client.next_id(IdEvent::FetchFailed), IdAction::Failed);
    assert_eq!(client.next_id(IdEvent::Take), IdAction::Issued(2));
}

#[test]
fn the_client_survives_the_last_identifier() {
    let mut client = KeygenClient::new("http://keygen:8010".to_string(), 2);
    let block = AllocateResponse { start: i64::MAX - 1, end: i64::MAX };
    assert_eq!(client.next_id(IdEvent::Fetched(block)), IdAction::Issued(i64::MAX - 1));
    assert_eq!(client.next_id(IdEvent::Take), IdAction::Issued(i64::MAX));
    assert!(client.is_exhausted());
    let block = AllocateResponse { start: i64::MAX, end: i64::MAX };
    assert_eq!(client.next_id(IdEvent::Fetched(block)), IdAction::Issued(i64::MAX));
    assert!(client.is_exhausted());
}

#[test]
fn ids_from_disjoint_blocks_never_repeat() {
    let mut client = KeygenClient::new("http://keygen:8010".to_string(), 100);
    let mut counter = 0i64;
    let mut seen = std::collections::HashSet::new();
    for _ in 0..1000 {
        let id = match client.next_id(IdEvent::Take) {
            IdAction::Issued(id) => id,
            IdAction::Fetch { size, .. } => {
                counter += size;
                let (start, end) = try_allocate(counter, size).expect("a block");
                match client.next_id(IdEvent::Fetched(AllocateResponse { start, end })) {
                    IdAction::Issued(id) => id,
                    other => panic!("unexpected action {:?}", other),
                }
            }
            IdAction::Failed => panic!("no fetch failed"),
        };
        assert!(seen.insert(id));
    }
    assert_eq!(seen.len(), 1000);
    assert_eq!(seen.iter().min(), Some(&1));
    assert_eq!(seen.iter().max(), Some(&1000));
}

#[test]
fn a_block_ends_at_the_counter_and_has_the_asked_size() {
    assert_eq!(try_allocate(1000, 1000), Some((1, 1000)));
    assert_eq!(try_allocate(2000, 1000), Some((1001, 2000)));
    assert_eq!(try_allocate(7, 1), Some((7, 7)));
    assert_eq!(try_allocate(i64::MAX, 1), Some((i64::MAX, i64::MAX)));
    assert_eq!(try_allocate(i64::MIN + 5, 5), Some((i64::MIN + 1, i64::MIN + 5)));
    assert_eq!(try_allocate(i64::MIN + 4, 5), None);
    assert_eq!(try_allocate(i64::MIN, 1000), None);
}

#[test]
fn allocate_serves_from_the_primary_store() {
    let config = config();
    let (state, effects) =
        allocate(&config, AllocateState::Idle, request(Some(10), Some("primary_writers")));
    assert_eq!(
        effects,
        vec![AllocateEffect::IncrBy {
            backend: Backend::Primary,
            key: "id_allocator:url:primary_writers".to_string(),
            amount: 10
        }]
    );
    let (state, effects) = allocate(&config, state, AllocateEvent::Counter(Some(30)));
    assert_eq!(state, AllocateState::Done);
    assert_eq!(
        effects,
        vec![AllocateEffect::Reply(AllocateReply::Granted {
            start: 21,
            end: 30,
            stack: "primary_writers".to_string()
        })]
    );
    match &effects[0] {
        AllocateEffect::Reply(reply) => assert_eq!(reply.status_code(), 200),
        other => panic!("unexpected effect {:?}", other),
    }
}

#[test]
fn allocate_fills_in_the_size_and_the_stack() {
    let config = config();
    let (_, effects) = allocate(&config, AllocateState::Idle, request(None, None));
    assert_eq!(
        effects,
        vec![AllocateEffect::IncrBy {
            backend: Backend::Primary,
            key: "id_allocator:url:secondary_writers".to_string(),
            amount: 1000
        }]
    );
}

#[test]
fn allocate_refuses_a_bad_size_and_an_unknown_stack() {
    let config = config();
    for size in [0, -1, i64::MIN] {
        let (state, effects) =
            allocate(&config, AllocateState::Idle, request(Some(size), Some("primary_writers")));
        assert_eq!(state, AllocateState::Done);
        assert_eq!(
            effects,
            vec![AllocateEffect::Reply(AllocateReply::Invalid {
                detail: "size must be > 0".to_string()
            })]
        );
    }
    let (state, effects) =
        allocate(&config, AllocateState::Idle, request(Some(5), Some("tertiary_writers")));
    assert_eq!(state, AllocateState::Done);
    assert_eq!(
        effects,
        vec![AllocateEffect::Reply(AllocateReply::Invalid {
            detail: "stack must be 'primary_writers' or 'secondary_writers'".to_string()
        })]
    );
    match &effects[0] {
        AllocateEffect::Reply(reply) => assert_eq!(reply.status_code(), 400),
        other => panic!("unexpected effect {:?}", other),
    }
}

#[test]
fn allocator_failover() {
    let config = config();
    let (state, _) =
        allocate(&config, AllocateState::Idle, request(Some(1000), Some("primary_writers")));
    let (state, effects) = allocate(&config, state, AllocateEvent::Counter(None));
    assert_eq!(
        effects,
        vec![AllocateEffect::IncrBy {
            backend: Backend::Secondary,
            key: "id_allocator:url:primary_writers".to_string(),
            amount: 1000
        }]
    );
    let (state, effects) = allocate(&config, state, AllocateEvent::Counter(Some(500_000)));
    assert_eq!(state, AllocateState::Done);
    let (start, end) = granted(&effects);
    assert_eq!(end - start, 999);
    assert_eq!((start, end), (499_001, 500_000));

    let (state, _) =
        allocate(&config, AllocateState::Idle, request(Some(1000), Some("primary_writers")));
    let (_, effects) = allocate(&config, state, AllocateEvent::Counter(Some(3000)));
    let (next_start, next_end) = granted(&effects);
    assert_eq!(next_end - next_start, 999);
    assert!(next_end < start || end < next_start);
}

#[test]
fn allocate_is_unavailable_when_both_stores_fail() {
    let config = config();
    let (state, _) =
        allocate(&config, AllocateState::Idle, request(Some(1000), Some("secondary_writers")));
    let (state, _) = allocate(&config, state, AllocateEvent::Counter(None));
    let (state, effects) = allocate(&config, state, AllocateEvent::Counter(None));
    assert_eq!(state, AllocateState::Done);
    assert_eq!(
        effects,
        vec![AllocateEffect::Reply(AllocateReply::Unavailable {
            detail: "key allocation backends unavailable for stack: secondary_writers".to_string()
        })]
    );
    match &effects[0] {
        AllocateEffect::Reply(reply) => assert_eq!(reply.status_code(), 503),
        other => panic!("unexpected effect {:?}", other),
    }
}

#[test]
fn a_counter_that_no_increment_leaves_counts_as_a_failure() {
    let config = config();
    let (state, _) =
        allocate(&config, AllocateState::Idle, request(Some(1000), Some("primary_writers")));
    let (state, effects) = allocate(&config, state, AllocateEvent::Counter(Some(i64::MIN + 3)));
    assert!(matches!(state, AllocateState::Asking { backend: Backend::Secondary, .. }));
    assert!(matches!(effects[0], AllocateEffect::IncrBy { backend: Backend::Secondary, .. }));
}

#[test]
fn sequential_grants_are_disjoint_and_contiguous() {
    let config = config();
    let mut counter = 0i64;
    let mut previous_end = 0i64;
    for size in [1i64, 1000, 7, 250, 1] {
        let (state, _) =
            allocate(&config, AllocateState::Idle, request(Some(size), Some("primary_writers")));
        counter += size;
        let (_, effects) = allocate(&config, state, AllocateEvent::Counter(Some(counter)));
        let (start, end) = granted(&effects);
        assert_eq!(start, previous_end + 1);
        assert_eq!(end - start + 1, size);
        previous_end = end;
    }
    assert_eq!(previous_end, counter);
}

#[test]
fn the_allocator_is_healthy_with_one_store() {
    assert_eq!(keygen_health(true, true).status, HealthStatus::Healthy);
    assert_eq!(keygen_health(true, false).status, HealthStatus::Healthy);
    assert_eq!(keygen_health(false, true).status, HealthStatus::Healthy);
    let down = keygen_health(false, false);
    assert_eq!(down.status, HealthStatus::Unhealthy);
    assert_eq!(down.primary, HealthStatus::Unhealthy);
    assert_eq!(down.secondary, HealthStatus::Unhealthy);
    assert_eq!(keygen_health(false, true).primary, HealthStatus::Unhealthy);
    assert_eq!(keygen_health(false, true).secondary, HealthStatus::Healthy);
}

#[test]
fn interleaved_requests_on_one_counter_get_disjoint_blocks() {
    let config = config();
    let mut waiting = Vec::new();
    for size in [5i64, 1, 1000, 3] {
        let (state, effects) =
            allocate(&config, AllocateState::Idle, request(Some(size), Some("secondary_writers")));
        let amount = match &effects[0] {
            AllocateEffect::IncrBy { amount, .. } => *amount,
            other => panic!("unexpected effect {:?}", other),
        };
        waiting.push((state, amount));
    }
    waiting.reverse();
    let mut counter = 700i64;
    let mut blocks = Vec::new();
    for (state, amount) in waiting {
        counter += amount;
        let (_, effects) = allocate(&config, state, AllocateEvent::Counter(Some(counter)));
        blocks.push(granted(&effects));
    }
    assert_eq!(blocks, vec![(701, 703), (704, 1703), (1704, 1704), (1705, 1709)]);
    for (i, first) in blocks.iter().enumerate() {
        for second in blocks.iter().skip(i + 1) {
            assert!(first.1 < second.0 || second.1 < first.0);
        }
    }
}
