//! Settings of the three services, read off the variables of the
//! environment.

use crate::allocator::KeygenConfig;
use crate::ingestion::IngestConfig;
use crate::text::{parse_decimal, parse_i64, parse_u64, replaced, str_eq, text_replace};
use vstd::prelude::*;
use vstd::string::*;

verus! {

/// Everything the edge service is told at startup.
#[derive(Debug, Clone, PartialEq, Eq)]
pub struct Config {
    pub app_name: String,
    pub app_env: String,
    pub base_url: String,
    pub database_url: String,
    pub redis_url: String,
    pub redis_replica_url: Option<String>,
    pub short_code_length: usize,
    pub id_allocator_key: String,
    pub id_block_size: i64,
    pub keygen_service_url: String,
    pub click_buffer_key_prefix: String,
    pub click_buffer_ttl_seconds: u64,
    pub click_flush_threshold: i64,
    pub click_stream_key: String,
    pub kafka_bootstrap_servers: String,
    pub kafka_click_topic: String,
}

/// Why settings could not be read.
#[derive(Debug, Clone, PartialEq, Eq)]
pub enum ConfigError {
    /// A variable that has no default is not set.
    Missing { name: String },
}

impl ConfigError {
    /// The reason in words.
    pub fn message(&self) -> (text: String)
        ensures
            match *self {
                ConfigError::Missing { name } => text@ == "Missing env var: "@ + name@,
            },
    {
        match self {
            ConfigError::Missing { name } => {
                let mut text = String::from_str("Missing env var: ");
                text.append(name.as_str());
                text
            },
        }
    }
}

/// The variables of the environment as pairs of name and value.
pub open spec fn vars_view(vars: Seq<(String, String)>) -> Seq<(Seq<char>, Seq<char>)> {
    vars.map_values(|pair: (String, String)| (pair.0@, pair.1@))
}

/// The value of the first variable called `name`, if there is one.
pub open spec fn env_value(vars: Seq<(Seq<char>, Seq<char>)>, name: Seq<char>) -> Option<Seq<char>>
    decreases vars.len(),
{
    if vars.len() == 0 {
        None
    } else if vars[0].0 == name {
        Some(vars[0].1)
    } else {
        env_value(vars.drop_first(), name)
    }
}

/// The value of the variable `name`, or `default` where it is not set.
pub open spec fn env_text(vars: Seq<(Seq<char>, Seq<char>)>, name: Seq<char>, default: Seq<char>) -> Seq<
    char,
> {
    match env_value(vars, name) {
        Some(value) => value,
        None => default,
    }
}

/// The number within `lo..=hi` that the variable `name` holds, if it is set
/// and reads as one.
pub open spec fn env_number(
    vars: Seq<(Seq<char>, Seq<char>)>,
    name: Seq<char>,
    signed: bool,
    lo: int,
    hi: int,
) -> Option<int> {
    match env_value(vars, name) {
        Some(value) => parse_decimal(value, signed, lo, hi),
        None => None,
    }
}

/// The number that the variable `name` holds, or `default` where it is not
/// set or does not read as a number within `lo..=hi`.
pub open spec fn env_number_or(
    vars: Seq<(Seq<char>, Seq<char>)>,
    name: Seq<char>,
    signed: bool,
    lo: int,
    hi: int,
    default: int,
) -> int {
    match env_number(vars, name, signed, lo, hi) {
        Some(value) => value,
        None => default,
    }
}

/// The value of the first variable called `name`, if there is one.
pub fn lookup(vars: &Vec<(String, String)>, name: &str) -> (value: Option<String>)
    ensures
        match value {
            Some(text) => env_value(vars_view(vars@), name@) == Some(text@),
            None => env_value(vars_view(vars@), name@) is None,
        },
{
    let mut i: usize = 0;
    assert(vars_view(vars@).skip(0) =~= vars_view(vars@));
    while i < vars.len()
        invariant
            i <= vars.len(),
            env_value(vars_view(vars@), name@) == env_value(vars_view(vars@).skip(i as int), name@),
        decreases vars.len() - i,
    {
        let ghost rest = vars_view(vars@).skip(i as int);
        assert(rest[0] == (vars@[i as int].0@, vars@[i as int].1@));
        assert(rest.drop_first() =~= vars_view(vars@).skip(i + 1));
        if str_eq(vars[i].0.as_str(), name) {
            return Some(vars[i].1.clone());
        }
        i = i + 1;
    }
    None
}

fn text_or(vars: &Vec<(String, String)>, name: &str, default: &str) -> (value: String)
    ensures
        value@ == env_text(vars_view(vars@), name@, default@),
{
    match lookup(vars, name) {
        Some(value) => value,
        None => String::from_str(default),
    }
}

fn signed_or(vars: &Vec<(String, String)>, name: &str, default: i64) -> (value: i64)
    ensures
        value == env_number_or(
            vars_view(vars@),
            name@,
            true,
            i64::MIN as int,
            i64::MAX as int,
            default as int,
        ),
{
    match lookup(vars, name) {
        Some(text) => match parse_i64(text.as_str()) {
            Some(value) => value,
            None => default,
        },
        None => default,
    }
}

fn unsigned_within(vars: &Vec<(String, String)>, name: &str, hi: u64) -> (value: Option<u64>)
    ensures
        match value {
            Some(number) => env_number(vars_view(vars@), name@, false, 0, hi as int) == Some(
                number as int,
            ),
            None => env_number(vars_view(vars@), name@, false, 0, hi as int) is None,
        },
{
    match lookup(vars, name) {
        Some(text) => match parse_u64(text.as_str()) {
            Some(number) => if number <= hi {
                Some(number)
            } else {
                None
            },
            None => None,
        },
        None => None,
    }
}

fn unsigned_or(vars: &Vec<(String, String)>, name: &str, default: u64) -> (value: u64)
    ensures
        value == env_number_or(vars_view(vars@), name@, false, 0, u64::MAX as int, default as int),
{
    match unsigned_within(vars, name, u64::MAX) {
        Some(value) => value,
        None => default,
    }
}

fn size_or(vars: &Vec<(String, String)>, name: &str, default: usize) -> (value: usize)
    ensures
        value == env_number_or(
            vars_view(vars@),
            name@,
            false,
            0,
            usize::MAX as int,
            default as int,
        ),
{
    match unsigned_within(vars, name, usize::MAX as u64) {
        Some(value) => value as usize,
        None => default,
    }
}

fn required(vars: &Vec<(String, String)>, name: &str) -> (value: Result<String, ConfigError>)
    ensures
        match value {
            Ok(text) => env_value(vars_view(vars@), name@) == Some(text@),
            Err(ConfigError::Missing { name: missing }) => env_value(vars_view(vars@), name@)
                is None && missing@ == name@,
        },
{
    match lookup(vars, name) {
        Some(value) => Ok(value),
        None => Err(ConfigError::Missing { name: String::from_str(name) }),
    }
}

/// The address of the relational store as the driver reads it: the scheme
/// `postgresql+asyncpg://` becomes `postgresql://`.
pub open spec fn store_address(value: Seq<char>) -> Seq<char> {
    replaced(value, "postgresql+asyncpg://"@, "postgresql://"@)
}

fn database_url(vars: &Vec<(String, String)>) -> (value: Result<String, ConfigError>)
    ensures
        match value {
            Ok(text) => env_value(vars_view(vars@), "DATABASE_URL"@) is Some && text@
                == store_address(env_value(vars_view(vars@), "DATABASE_URL"@)->0),
            Err(ConfigError::Missing { name }) => env_value(vars_view(vars@), "DATABASE_URL"@)
                is None && name@ == "DATABASE_URL"@,
        },
{
    match required(vars, "DATABASE_URL") {
        Ok(value) => {
            proof {
                reveal_strlit("postgresql+asyncpg://");
            }
            Ok(text_replace(value.as_str(), "postgresql+asyncpg://", "postgresql://"))
        },
        Err(error) => Err(error),
    }
}

impl Config {
    /// The settings of the edge service that `vars` give.
    ///
    /// `DATABASE_URL` and `REDIS_URL` must be set; the first missing one is
    /// the error. Every other setting has a default, which also stands in
    /// for a number that does not read as one.
    pub fn from_env(vars: &Vec<(String, String)>) -> (result: Result<Config, ConfigError>)
        ensures
            ({
                let env = vars_view(vars@);
                match result {
                    Err(ConfigError::Missing { name }) => {
                        if env_value(env, "DATABASE_URL"@) is None {
                            name@ == "DATABASE_URL"@
                        } else {
                            env_value(env, "REDIS_URL"@) is None && name@ == "REDIS_URL"@
                        }
                    },
                    Ok(config) => {
                        &&& env_value(env, "DATABASE_URL"@) is Some
                        &&& env_value(env, "REDIS_URL"@) is Some
                        &&& config.app_name@ == env_text(env, "APP_NAME"@, "url-shortener-rs"@)
                        &&& config.app_env@ == env_text(env, "APP_ENV"@, "development"@)
                        &&& config.base_url@ == env_text(
                            env,
                            "BASE_URL"@,
                            "http://localhost:8080"@,
                        )
                        &&& config.database_url@ == store_address(
                            env_value(env, "DATABASE_URL"@)->0,
                        )
                        &&& config.redis_url@ == env_value(env, "REDIS_URL"@)->0
                        &&& match config.redis_replica_url {
                            Some(url) => env_value(env, "REDIS_REPLICA_URL"@) == Some(url@),
                            None => env_value(env, "REDIS_REPLICA_URL"@) is None,
                        }
                        &&& config.short_code_length == env_number_or(
                            env,
                            "SHORT_CODE_LENGTH"@,
                            false,
                            0,
                            usize::MAX as int,
                            7,
                        )
                        &&& config.id_allocator_key@ == env_text(
                            env,
                            "ID_ALLOCATOR_KEY"@,
                            "id_allocator:url"@,
                        )
                        &&& config.id_block_size == env_number_or(
                            env,
                            "ID_BLOCK_SIZE"@,
                            true,
                            i64::MIN as int,
                            i64::MAX as int,
                            1000,
                        )
                        &&& config.keygen_service_url@ == env_text(
                            env,
                            "KEYGEN_SERVICE_URL"@,
                            "http://keygen:8010"@,
                        )
                        &&& config.click_buffer_key_prefix@ == env_text(
                            env,
                            "CLICK_BUFFER_KEY_PREFIX"@,
                            "click_buffer"@,
                        )
                        &&& config.click_buffer_ttl_seconds == env_number_or(
                            env,
                            "CLICK_BUFFER_TTL_SECONDS"@,
                            false,
                            0,
                            u64::MAX as int,
                            300,
                        )
                        &&& config.click_flush_threshold == env_number_or(
                            env,
                            "CLICK_FLUSH_THRESHOLD"@,
                            true,
                            i64::MIN as int,
                            i64::MAX as int,
                            100,
                        )
                        &&& config.click_stream_key@ == env_text(
                            env,
                            "CLICK_STREAM_KEY"@,
                            "click_events"@,
                        )
                        &&& config.kafka_bootstrap_servers@ == env_text(
                            env,
                            "KAFKA_BOOTSTRAP_SERVERS"@,
                            "kafka:9092"@,
                        )
                        &&& config.kafka_click_topic@ == env_text(
                            env,
                            "KAFKA_CLICK_TOPIC"@,
                            "click_events"@,
                        )
                    },
                }
            }),
    {
        let database_url = match database_url(vars) {
            Ok(value) => value,
            Err(error) => {
                return Err(error);
            },
        };
        let redis_url = match required(vars, "REDIS_URL") {
            Ok(value) => value,
            Err(error) => {
                return Err(error);
            },
        };
        Ok(
            Config {
                app_name: text_or(vars, "APP_NAME", "url-shortener-rs"),
                app_env: text_or(vars, "APP_ENV", "development"),
                base_url: text_or(vars, "BASE_URL", "http://localhost:8080"),
                database_url,
                redis_url,
                redis_replica_url: lookup(vars, "REDIS_REPLICA_URL"),
                short_code_length: size_or(vars, "SHORT_CODE_LENGTH", 7),
                id_allocator_key: text_or(vars, "ID_ALLOCATOR_KEY", "id_allocator:url"),
                id_block_size: signed_or(vars, "ID_BLOCK_SIZE", 1000),
                keygen_service_url: text_or(vars, "KEYGEN_SERVICE_URL", "http://keygen:8010"),
                click_buffer_key_prefix: text_or(vars, "CLICK_BUFFER_KEY_PREFIX", "click_buffer"),
                click_buffer_ttl_seconds: unsigned_or(vars, "CLICK_BUFFER_TTL_SECONDS", 300),
                click_flush_threshold: signed_or(vars, "CLICK_FLUSH_THRESHOLD", 100),
                click_stream_key: text_or(vars, "CLICK_STREAM_KEY", "click_events"),
                kafka_bootstrap_servers: text_or(vars, "KAFKA_BOOTSTRAP_SERVERS", "kafka:9092"),
                kafka_click_topic: text_or(vars, "KAFKA_CLICK_TOPIC", "click_events"),
            },
        )
    }
}

impl KeygenConfig {
    /// The settings of the allocator that `vars` give. Every setting has a
    /// default, which also stands in for a number that does not read as one.
    pub fn from_env(vars: &Vec<(String, String)>) -> (config: KeygenConfig)
        ensures
            ({
                let env = vars_view(vars@);
                &&& config.keygen_primary_redis_url@ == env_text(
                    env,
                    "KEYGEN_PRIMARY_REDIS_URL"@,
                    "redis://keygen-redis-primary:6379/0"@,
                )
                &&& config.keygen_secondary_redis_url@ == env_text(
                    env,
                    "KEYGEN_SECONDARY_REDIS_URL"@,
                    "redis://keygen-redis-secondary:6379/0"@,
                )
                &&& config.id_allocator_key@ == env_text(
                    env,
                    "ID_ALLOCATOR_KEY"@,
                    "id_allocator:url"@,
                )
                &&& config.id_block_size == env_number_or(
                    env,
                    "ID_BLOCK_SIZE"@,
                    true,
                    i64::MIN as int,
                    i64::MAX as int,
                    1000,
                )
            }),
    {
        KeygenConfig {
            keygen_primary_redis_url: text_or(
                vars,
                "KEYGEN_PRIMARY_REDIS_URL",
                "redis://keygen-redis-primary:6379/0",
            ),
            keygen_secondary_redis_url: text_or(
                vars,
                "KEYGEN_SECONDARY_REDIS_URL",
                "redis://keygen-redis-secondary:6379/0",
            ),
            id_allocator_key: text_or(vars, "ID_ALLOCATOR_KEY", "id_allocator:url"),
            id_block_size: signed_or(vars, "ID_BLOCK_SIZE", 1000),
        }
    }
}

impl IngestConfig {
    /// The settings of the ingestor that `vars` give.
    ///
    /// `DATABASE_URL` and `REDIS_URL` must be set; the first missing one is
    /// the error. Every other setting has a default, which also stands in
    /// for a number that does not read as one; the port of the metrics has
    /// none and is left out where it is not set or does not read as a port.
    pub fn from_env(vars: &Vec<(String, String)>) -> (result: Result<IngestConfig, ConfigError>)
        ensures
            ({
                let env = vars_view(vars@);
                match result {
                    Err(ConfigError::Missing { name }) => {
                        if env_value(env, "DATABASE_URL"@) is None {
                            name@ == "DATABASE_URL"@
                        } else {
                            env_value(env, "REDIS_URL"@) is None && name@ == "REDIS_URL"@
                        }
                    },
                    Ok(config) => {
                        &&& env_value(env, "DATABASE_URL"@) is Some
                        &&& env_value(env, "REDIS_URL"@) is Some
                        &&& config.database_url@ == store_address(
                            env_value(env, "DATABASE_URL"@)->0,
                        )
                        &&& config.redis_url@ == env_value(env, "REDIS_URL"@)->0
                        &&& config.kafka_bootstrap_servers@ == env_text(
                            env,
                            "KAFKA_BOOTSTRAP_SERVERS"@,
                            "kafka:9092"@,
                        )
                        &&& config.kafka_click_topic@ == env_text(
                            env,
                            "KAFKA_CLICK_TOPIC"@,
                            "click_events"@,
                        )
                        &&& config.ingestion_consumer_group@ == env_text(
                            env,
                            "INGESTION_CONSUMER_GROUP"@,
                            "click_ingestion_group"@,
                        )
                        &&& config.ingestion_consumer_name@ == env_text(
                            env,
                            "INGESTION_CONSUMER_NAME"@,
                            "ingestion-consumer-1"@,
                        )
                        &&& config.ingestion_batch_size == env_number_or(
                            env,
                            "INGESTION_BATCH_SIZE"@,
                            false,
                            0,
                            usize::MAX as int,
                            500,
                        )
                        &&& config.ingestion_block_ms == env_number_or(
                            env,
                            "INGESTION_BLOCK_MS"@,
                            false,
                            0,
                            u64::MAX as int,
                            1000,
                        )
                        &&& config.ingestion_flush_interval_seconds == env_number_or(
                            env,
                            "INGESTION_FLUSH_INTERVAL_SECONDS"@,
                            false,
                            0,
                            u64::MAX as int,
                            5,
                        )
                        &&& config.ingestion_agg_key_prefix@ == env_text(
                            env,
                            "INGESTION_AGG_KEY_PREFIX"@,
                            "ingestion_agg"@,
                        )
                        &&& config.click_buffer_key_prefix@ == env_text(
                            env,
                            "CLICK_BUFFER_KEY_PREFIX"@,
                            "click_buffer"@,
                        )
                        &&& config.clickhouse_url@ == env_text(
                            env,
                            "CLICKHOUSE_URL"@,
                            "http://clickhouse:8123"@,
                        )
                        &&& config.clickhouse_username@ == env_text(
                            env,
                            "CLICKHOUSE_USERNAME"@,
                            "default"@,
                        )
                        &&& config.clickhouse_password@ == env_text(
                            env,
                            "CLICKHOUSE_PASSWORD"@,
                            "clickhouse"@,
                        )
                        &&& config.clickhouse_database@ == env_text(
                            env,
                            "CLICKHOUSE_DATABASE"@,
                            "default"@,
                        )
                        &&& match config.ingestion_metrics_port {
                            Some(port) => env_number(
                                env,
                                "INGESTION_METRICS_PORT"@,
                                false,
                                0,
                                65535,
                            ) == Some(port as int),
                            None => env_number(env, "INGESTION_METRICS_PORT"@, false, 0, 65535)
                                is None,
                        }
                    },
                }
            }),
    {
        let database_url = match database_url(vars) {
            Ok(value) => value,
            Err(error) => {
                return Err(error);
            },
        };
        let redis_url = match required(vars, "REDIS_URL") {
            Ok(value) => value,
            Err(error) => {
                return Err(error);
            },
        };
        let port = match unsigned_within(vars, "INGESTION_METRICS_PORT", 65535) {
            Some(number) => Some(number as u16),
            None => None,
        };
        Ok(
            IngestConfig {
                database_url,
                redis_url,
                kafka_bootstrap_servers: text_or(vars, "KAFKA_BOOTSTRAP_SERVERS", "kafka:9092"),
                kafka_click_topic: text_or(vars, "KAFKA_CLICK_TOPIC", "click_events"),
                ingestion_consumer_group: text_or(
                    vars,
                    "INGESTION_CONSUMER_GROUP",
                    "click_ingestion_group",
                ),
                ingestion_consumer_name: text_or(
                    vars,
                    "INGESTION_CONSUMER_NAME",
                    "ingestion-consumer-1",
                ),
                ingestion_batch_size: size_or(vars, "INGESTION_BATCH_SIZE", 500),
                ingestion_block_ms: unsigned_or(vars, "INGESTION_BLOCK_MS", 1000),
                ingestion_flush_interval_seconds: unsigned_or(
                    vars,
                    "INGESTION_FLUSH_INTERVAL_SECONDS",
                    5,
                ),
                ingestion_agg_key_prefix: text_or(vars, "INGESTION_AGG_KEY_PREFIX", "ingestion_agg"),
                click_buffer_key_prefix: text_or(vars, "CLICK_BUFFER_KEY_PREFIX", "click_buffer"),
                clickhouse_url: text_or(vars, "CLICKHOUSE_URL", "http://clickhouse:8123"),
                clickhouse_username: text_or(vars, "CLICKHOUSE_USERNAME", "default"),
                clickhouse_password: text_or(vars, "CLICKHOUSE_PASSWORD", "clickhouse"),
                clickhouse_database: text_or(vars, "CLICKHOUSE_DATABASE", "default"),
                ingestion_metrics_port: port,
            },
        )
    }
}

} // verus!
