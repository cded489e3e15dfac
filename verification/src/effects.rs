//! What the edge service asks of the world around it, and what it answers.
//!
//! A handler never reaches a store, the event bus or the allocator itself. It
//! is a function from a state and an event to the next state and a list of
//! effects; whoever drives it carries the effects out in order and hands back
//! the outcome of the last one that asks for something.

use crate::models::{ClickEvent, ClickEventView, Url, UrlResponse, UrlResponseView, UrlView};
use vstd::prelude::*;

verus! {

/// A counter of the edge service's metrics.
#[derive(Debug, Clone, Copy, PartialEq, Eq, Structural)]
pub enum Counter {
    /// An operation on the hot cache.
    CacheOps,
    /// A read from the relational store.
    StoreReads,
    /// A write to the relational store.
    StoreWrites,
    /// A click event that the event bus accepted.
    BusPublishes,
    /// A click event that went to the fallback stream.
    StreamFallbacks,
    /// A redirect that the cache answered.
    CacheHits,
    /// A redirect that the cache could not answer.
    CacheMisses,
    /// A generated short code that was taken already, so that another was minted.
    CollisionRetries,
    /// A request to shorten that created a record.
    ShortenCreated,
    /// A request for a short code that was redirected.
    RedirectServed,
    /// A request for statistics that was answered.
    StatsServed,
}

/// The labels of a request counted by handler, method and status.
#[derive(Debug, Clone, Copy)]
pub struct RequestLabels {
    pub handler: &'static str,
    pub method: &'static str,
    pub status_code: &'static str,
}

impl Counter {
    /// The name of the metric that the counter belongs to.
    pub fn metric_name(&self) -> (name: &'static str)
        ensures
            name@ == match *self {
                Counter::CacheOps => "app_edge_redis_ops_total"@,
                Counter::StoreReads => "app_edge_db_reads_total"@,
                Counter::StoreWrites => "app_edge_db_writes_total"@,
                Counter::BusPublishes => "app_edge_kafka_publish_total"@,
                Counter::StreamFallbacks => "app_edge_stream_fallback_total"@,
                Counter::CacheHits => "app_edge_cache_hits_total"@,
                Counter::CacheMisses => "app_edge_cache_misses_total"@,
                Counter::CollisionRetries => "app_edge_collision_retries_total"@,
                Counter::ShortenCreated => "http_requests_total"@,
                Counter::RedirectServed => "http_requests_total"@,
                Counter::StatsServed => "http_requests_total"@,
            },
    {
        match self {
            Counter::CacheOps => "app_edge_redis_ops_total",
            Counter::StoreReads => "app_edge_db_reads_total",
            Counter::StoreWrites => "app_edge_db_writes_total",
            Counter::BusPublishes => "app_edge_kafka_publish_total",
            Counter::StreamFallbacks => "app_edge_stream_fallback_total",
            Counter::CacheHits => "app_edge_cache_hits_total",
            Counter::CacheMisses => "app_edge_cache_misses_total",
            Counter::CollisionRetries => "app_edge_collision_retries_total",
            Counter::ShortenCreated => "http_requests_total",
            Counter::RedirectServed => "http_requests_total",
            Counter::StatsServed => "http_requests_total",
        }
    }

    /// The labels under which a request is counted; none for a counter that
    /// has no labels.
    pub fn labels(&self) -> (labels: Option<RequestLabels>)
        ensures
            match *self {
                Counter::ShortenCreated => labels is Some && labels->0.handler@ == "shorten"@
                    && labels->0.method@ == "POST"@ && labels->0.status_code@ == "201"@,
                Counter::RedirectServed => labels is Some && labels->0.handler@ == "redirect"@
                    && labels->0.method@ == "GET"@ && labels->0.status_code@ == "302"@,
                Counter::StatsServed => labels is Some && labels->0.handler@ == "stats"@
                    && labels->0.method@ == "GET"@ && labels->0.status_code@ == "200"@,
                _ => labels is None,
            },
    {
        match self {
            Counter::ShortenCreated => Some(
                RequestLabels { handler: "shorten", method: "POST", status_code: "201" },
            ),
            Counter::RedirectServed => Some(
                RequestLabels { handler: "redirect", method: "GET", status_code: "302" },
            ),
            Counter::StatsServed => Some(
                RequestLabels { handler: "stats", method: "GET", status_code: "200" },
            ),
            _ => None,
        }
    }
}

/// The answer to a request.
#[derive(Debug, Clone, PartialEq, Eq)]
pub enum Reply {
    /// The record was created.
    Created(UrlResponse),
    /// The record exists.
    Found(UrlResponse),
    /// The client is sent on to `location`.
    Redirect { location: String },
    /// The custom short code is taken.
    Conflict { detail: String },
    /// No record has the short code.
    NotFound { detail: String },
    /// The allocator could not be reached.
    Unavailable,
    /// Something else went wrong.
    Failed,
}

/// A `Reply` with its texts as sequences of characters.
pub enum ReplyView {
    Created(UrlResponseView),
    Found(UrlResponseView),
    Redirect { location: Seq<char> },
    Conflict { detail: Seq<char> },
    NotFound { detail: Seq<char> },
    Unavailable,
    Failed,
}

impl View for Reply {
    type V = ReplyView;

    open spec fn view(&self) -> ReplyView {
        match *self {
            Reply::Created(response) => ReplyView::Created(response@),
            Reply::Found(response) => ReplyView::Found(response@),
            Reply::Redirect { location } => ReplyView::Redirect { location: location@ },
            Reply::Conflict { detail } => ReplyView::Conflict { detail: detail@ },
            Reply::NotFound { detail } => ReplyView::NotFound { detail: detail@ },
            Reply::Unavailable => ReplyView::Unavailable,
            Reply::Failed => ReplyView::Failed,
        }
    }
}

/// The HTTP status that goes with a reply.
pub open spec fn status_of(reply: ReplyView) -> int {
    match reply {
        ReplyView::Created(_) => 201,
        ReplyView::Found(_) => 200,
        ReplyView::Redirect { .. } => 307,
        ReplyView::Conflict { .. } => 409,
        ReplyView::NotFound { .. } => 404,
        ReplyView::Unavailable => 503,
        ReplyView::Failed => 500,
    }
}

impl Reply {
    /// The HTTP status that goes with the reply.
    pub fn status_code(&self) -> (code: u16)
        ensures
            code == status_of(self@),
    {
        match self {
            Reply::Created(_) => 201,
            Reply::Found(_) => 200,
            Reply::Redirect { .. } => 307,
            Reply::Conflict { .. } => 409,
            Reply::NotFound { .. } => 404,
            Reply::Unavailable => 503,
            Reply::Failed => 500,
        }
    }
}

/// One thing for the driver of a handler to do.
#[derive(Debug, Clone, PartialEq, Eq)]
pub enum Effect {
    /// Ask the relational store whether a record has `short_code`.
    ProbeCode { short_code: String },
    /// Take the next identifier from the allocator's client.
    TakeId,
    /// Insert a record with no clicks into the relational store.
    InsertUrl { short_code: String, original_url: String },
    /// Read the record cached under `key`.
    ReadCache { key: String },
    /// Read the record of `short_code` from the relational store.
    ReadUrl { short_code: String },
    /// Cache `url` under `key` for `ttl_seconds`; a failure is only logged.
    WriteCache { key: String, url: Url, ttl_seconds: u64 },
    /// Start the click-tracking task for `short_code` and do not wait for it.
    TrackClick { short_code: String },
    /// Add one to the counter at `key` in the cache.
    IncrBuffer { key: String },
    /// Let the counter at `key` expire after `ttl_seconds`; a failure is only logged.
    ExpireBuffer { key: String, ttl_seconds: u64 },
    /// Publish `event` on `topic` under `key`, waiting at most `timeout_ms`.
    Publish { topic: String, key: String, event: ClickEvent, timeout_ms: u64 },
    /// Append an entry with the fields `short_code` and `delta` to the
    /// stream at `stream_key`; a failure is only logged.
    AppendStream { stream_key: String, short_code: String, delta: String },
    /// Add one to a counter of the metrics.
    Count(Counter),
    /// Answer the request.
    Reply(Reply),
}

/// An `Effect` with its texts as sequences of characters.
pub enum EffectView {
    ProbeCode { short_code: Seq<char> },
    TakeId,
    InsertUrl { short_code: Seq<char>, original_url: Seq<char> },
    ReadCache { key: Seq<char> },
    ReadUrl { short_code: Seq<char> },
    WriteCache { key: Seq<char>, url: UrlView, ttl_seconds: int },
    TrackClick { short_code: Seq<char> },
    IncrBuffer { key: Seq<char> },
    ExpireBuffer { key: Seq<char>, ttl_seconds: int },
    Publish { topic: Seq<char>, key: Seq<char>, event: ClickEventView, timeout_ms: int },
    AppendStream { stream_key: Seq<char>, short_code: Seq<char>, delta: Seq<char> },
    Count(Counter),
    Reply(ReplyView),
}

impl View for Effect {
    type V = EffectView;

    open spec fn view(&self) -> EffectView {
        match *self {
            Effect::ProbeCode { short_code } => EffectView::ProbeCode { short_code: short_code@ },
            Effect::TakeId => EffectView::TakeId,
            Effect::InsertUrl { short_code, original_url } => EffectView::InsertUrl {
                short_code: short_code@,
                original_url: original_url@,
            },
            Effect::ReadCache { key } => EffectView::ReadCache { key: key@ },
            Effect::ReadUrl { short_code } => EffectView::ReadUrl { short_code: short_code@ },
            Effect::WriteCache { key, url, ttl_seconds } => EffectView::WriteCache {
                key: key@,
                url: url@,
                ttl_seconds: ttl_seconds as int,
            },
            Effect::TrackClick { short_code } => EffectView::TrackClick { short_code: short_code@ },
            Effect::IncrBuffer { key } => EffectView::IncrBuffer { key: key@ },
            Effect::ExpireBuffer { key, ttl_seconds } => EffectView::ExpireBuffer {
                key: key@,
                ttl_seconds: ttl_seconds as int,
            },
            Effect::Publish { topic, key, event, timeout_ms } => EffectView::Publish {
                topic: topic@,
                key: key@,
                event: event@,
                timeout_ms: timeout_ms as int,
            },
            Effect::AppendStream { stream_key, short_code, delta } => EffectView::AppendStream {
                stream_key: stream_key@,
                short_code: short_code@,
                delta: delta@,
            },
            Effect::Count(counter) => EffectView::Count(counter),
            Effect::Reply(reply) => EffectView::Reply(reply@),
        }
    }
}

/// The views of a list of effects, in order.
pub open spec fn effects_view(effects: Seq<Effect>) -> Seq<EffectView> {
    effects.map_values(|e: Effect| e@)
}

} // verus!
