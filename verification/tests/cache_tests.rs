use url_shortener::bootstrap::{
    consumer_settings, migrate, producer_settings, CREATE_TABLE_SQL, MIGRATION_LOCK_SQL,
    MIGRATION_UNLOCK_SQL,
};
use url_shortener::cache::{
    click_buffer_key, join_with_colon, url_cache_key, STREAM_FIELD_DELTA,
    STREAM_FIELD_SHORT_CODE, URL_TTL_SECONDS,
};
use url_shortener::ingestion::agg_hash_key;

#[test]
fn cache_keys_follow_the_key_layout() {
    assert_eq!(url_cache_key("abc1234"), "url:abc1234");
    assert_eq!(url_cache_key(""), "url:");
    assert_eq!(click_buffer_key("click_buffer", "abc1234"), "click_buffer:abc1234");
    assert_eq!(agg_hash_key("ingestion_agg", "ingestion-consumer-1"), "ingestion_agg:ingestion-consumer-1");
    assert_eq!(join_with_colon("id_allocator:url", "primary_writers"), "id_allocator:url:primary_writers");
    assert_eq!(URL_TTL_SECONDS, 3600);
    assert_eq!(STREAM_FIELD_SHORT_CODE, "short_code");
    assert_eq!(STREAM_FIELD_DELTA, "delta");
}

#[test]
fn migration_holds_the_lock_around_the_table() {
    let statements = migrate();
    assert_eq!(statements.len(), 3);
    assert_eq!(statements[0], "SELECT pg_advisory_lock(12345678)");
    assert_eq!(statements[0], MIGRATION_LOCK_SQL);
    assert_eq!(statements[1], CREATE_TABLE_SQL);
    assert!(statements[1].starts_with("CREATE TABLE IF NOT EXISTS urls"));
    assert!(statements[1].contains("short_code VARCHAR(20) NOT NULL UNIQUE"));
    assert_eq!(statements[2], "SELECT pg_advisory_unlock(12345678)");
    assert_eq!(statements[2], MIGRATION_UNLOCK_SQL);
}

#[test]
fn event_bus_settings_are_as_agreed() {
    let producer = producer_settings("kafka:9092");
    assert_eq!(
        producer,
        vec![
            ("bootstrap.servers".to_string(), "kafka:9092".to_string()),
            ("message.timeout.ms".to_string(), "2000".to_string()),
            ("queue.buffering.max.messages".to_string(), "100000".to_string()),
            ("queue.buffering.max.ms".to_string(), "5".to_string()),
        ]
    );
    let consumer = consumer_settings("kafka:9092", "click_ingestion_group", "ingestion-consumer-1");
    assert_eq!(
        consumer,
        vec![
            ("bootstrap.servers".to_string(), "kafka:9092".to_string()),
            ("group.id".to_string(), "click_ingestion_group".to_string()),
            ("client.id".to_string(), "ingestion-consumer-1".to_string()),
            ("enable.auto.commit".to_string(), "true".to_string()),
            ("auto.offset.reset".to_string(), "earliest".to_string()),
            ("session.timeout.ms".to_string(), "30000".to_string()),
        ]
    );
}
