//! What the services are set up with at startup: the statements that
//! prepare the relational store, the statements the handlers run, and the
//! settings of the event bus.

use vstd::prelude::*;
use vstd::string::*;

verus! {

/// The statement that takes the advisory lock under which the table is
/// created, so that replicas that start together create it once.
pub const MIGRATION_LOCK_SQL: &'static str = "SELECT pg_advisory_lock(12345678)";

/// The statement that creates the table of shortened URLs unless it exists.
pub const CREATE_TABLE_SQL: &'static str =
    "CREATE TABLE IF NOT EXISTS urls (id BIGSERIAL PRIMARY KEY, short_code VARCHAR(20) NOT NULL UNIQUE, original_url TEXT NOT NULL, clicks BIGINT NOT NULL DEFAULT 0, created_at TIMESTAMPTZ NOT NULL DEFAULT now(), updated_at TIMESTAMPTZ NOT NULL DEFAULT now())";

/// The statement that gives the advisory lock back.
pub const MIGRATION_UNLOCK_SQL: &'static str = "SELECT pg_advisory_unlock(12345678)";

/// The statement that reads the record of the short code `$1`.
pub const SELECT_URL_SQL: &'static str =
    "SELECT id, short_code, original_url, clicks, created_at, updated_at FROM urls WHERE short_code = $1";

/// The statement that inserts a record with the short code `$1`, the
/// address `$2` and no clicks, and returns it.
pub const INSERT_URL_SQL: &'static str =
    "INSERT INTO urls (short_code, original_url, clicks) VALUES ($1, $2, 0) RETURNING id, short_code, original_url, clicks, created_at, updated_at";

/// The statement that adds `$1` to the clicks of the short code `$2`.
pub const UPDATE_CLICKS_SQL: &'static str =
    "UPDATE urls SET clicks = clicks + $1, updated_at = now() WHERE short_code = $2";

/// The statement that probes the relational store.
pub const PROBE_SQL: &'static str = "SELECT 1";

/// The statements that prepare the relational store, to be run in order
/// before any request is served: take the advisory lock, create the table
/// unless it exists, give the lock back.
pub fn migrate() -> (statements: Vec<String>)
    ensures
        statements@.len() == 3,
        statements@[0]@ == MIGRATION_LOCK_SQL@,
        statements@[1]@ == CREATE_TABLE_SQL@,
        statements@[2]@ == MIGRATION_UNLOCK_SQL@,
{
    vec![
        String::from_str(MIGRATION_LOCK_SQL),
        String::from_str(CREATE_TABLE_SQL),
        String::from_str(MIGRATION_UNLOCK_SQL),
    ]
}

/// The views of a list of settings, in order.
pub open spec fn settings_view(settings: Seq<(String, String)>) -> Seq<(Seq<char>, Seq<char>)> {
    settings.map_values(|pair: (String, String)| (pair.0@, pair.1@))
}

fn setting(name: &str, value: &str) -> (pair: (String, String))
    ensures
        pair.0@ == name@,
        pair.1@ == value@,
{
    (String::from_str(name), String::from_str(value))
}

/// The settings of the producer of click events: messages give up after two
/// seconds, and wait at most five milliseconds to be sent.
pub fn producer_settings(bootstrap_servers: &str) -> (settings: Vec<(String, String)>)
    ensures
        settings_view(settings@) == seq![
            ("bootstrap.servers"@, bootstrap_servers@),
            ("message.timeout.ms"@, "2000"@),
            ("queue.buffering.max.messages"@, "100000"@),
            ("queue.buffering.max.ms"@, "5"@),
        ],
{
    let settings = vec![
        setting("bootstrap.servers", bootstrap_servers),
        setting("message.timeout.ms", "2000"),
        setting("queue.buffering.max.messages", "100000"),
        setting("queue.buffering.max.ms", "5"),
    ];
    assert(settings_view(settings@) =~= seq![
        ("bootstrap.servers"@, bootstrap_servers@),
        ("message.timeout.ms"@, "2000"@),
        ("queue.buffering.max.messages"@, "100000"@),
        ("queue.buffering.max.ms"@, "5"@),
    ]);
    settings
}

/// The settings of the consumer of click events: offsets are committed by
/// themselves, and a group that has none starts at the earliest event.
pub fn consumer_settings(bootstrap_servers: &str, group: &str, name: &str) -> (settings: Vec<
    (String, String),
>)
    ensures
        settings_view(settings@) == seq![
            ("bootstrap.servers"@, bootstrap_servers@),
            ("group.id"@, group@),
            ("client.id"@, name@),
            ("enable.auto.commit"@, "true"@),
            ("auto.offset.reset"@, "earliest"@),
            ("session.timeout.ms"@, "30000"@),
        ],
{
    let settings = vec![
        setting("bootstrap.servers", bootstrap_servers),
        setting("group.id", group),
        setting("client.id", name),
        setting("enable.auto.commit", "true"),
        setting("auto.offset.reset", "earliest"),
        setting("session.timeout.ms", "30000"),
    ];
    assert(settings_view(settings@) =~= seq![
        ("bootstrap.servers"@, bootstrap_servers@),
        ("group.id"@, group@),
        ("client.id"@, name@),
        ("enable.auto.commit"@, "true"@),
        ("auto.offset.reset"@, "earliest"@),
        ("session.timeout.ms"@, "30000"@),
    ]);
    settings
}

} // verus!
