//! The edge service's handlers: shorten, redirect, statistics, health and the
//! click-tracking task, as decisions between the calls that reach outside.

use crate::cache::{click_buffer_key, url_cache_key, URL_TTL_SECONDS};
use crate::codec::{encode_id, short_code_of};
use crate::config::Config;
use crate::effects::{effects_view, Counter, Effect, EffectView, Reply, ReplyView};
use crate::enums::HealthStatus;
use crate::models::{
    response_of, ClickEvent, ClickEventView, HealthResponse, ShortenRequest, Url, UrlResponse,
    UrlView,
};
use crate::text::{contains_text, decimal_text, i64_to_text, text_contains};
use vstd::prelude::*;
use vstd::string::*;

verus! {

/// What the health of the edge service is, given whether the relational store
/// and the primary cache answered: healthy iff both did.
pub open spec fn health_of(database_ok: bool, cache_ok: bool) -> HealthResponse {
    HealthResponse {
        status: if database_ok && cache_ok {
            HealthStatus::Healthy
        } else {
            HealthStatus::Unhealthy
        },
        database: if database_ok {
            HealthStatus::Healthy
        } else {
            HealthStatus::Unhealthy
        },
        cache: if cache_ok {
            HealthStatus::Healthy
        } else {
            HealthStatus::Unhealthy
        },
    }
}

/// The health report of the edge service: each store is healthy iff it
/// answered its probe, and the service is healthy iff both stores are.
pub fn health(database_ok: bool, cache_ok: bool) -> (report: HealthResponse)
    ensures
        report == health_of(database_ok, cache_ok),
{
    let database = HealthStatus::from_ok(database_ok);
    let cache = HealthStatus::from_ok(cache_ok);
    let status = HealthStatus::from_ok(database_ok && cache_ok);
    HealthResponse { status, database, cache }
}

/// The detail shown when no record has the short code that was asked for.
pub open spec fn not_found_detail() -> Seq<char> {
    "Short URL not found"@
}

/// The detail shown when the custom short code `code` is taken.
pub open spec fn conflict_detail(code: Seq<char>) -> Seq<char> {
    "Custom code '"@ + code + "' is already taken"@
}

/// Whether the relational store's complaint `message` says that the short
/// code exists already.
pub open spec fn is_unique_violation(message: Seq<char>) -> bool {
    contains_text(message, "unique constraint"@) || contains_text(message, "duplicate key"@)
}

/// Whether the relational store refused an insert because the short code
/// exists already.
pub fn unique_violation(message: &str) -> (duplicate: bool)
    ensures
        duplicate == is_unique_violation(message@),
{
    text_contains(message, "unique constraint") || text_contains(message, "duplicate key")
}

fn conflict_reply(code: &str) -> (reply: Reply)
    ensures
        reply@ == (ReplyView::Conflict { detail: conflict_detail(code@) }),
{
    let mut detail = String::from_str("Custom code '");
    detail.append(code);
    detail.append("' is already taken");
    Reply::Conflict { detail }
}

fn not_found_reply() -> (reply: Reply)
    ensures
        reply@ == (ReplyView::NotFound { detail: not_found_detail() }),
{
    Reply::NotFound { detail: String::from_str("Short URL not found") }
}

/// Where a request to shorten stands.
#[derive(Debug, Clone, PartialEq, Eq)]
pub enum ShortenState {
    /// Nothing has been asked yet.
    Idle,
    /// The store is being asked whether the custom `code` is taken.
    Probing { url: String, code: String },
    /// The allocator's client is being asked for an identifier; `retry` says
    /// that a generated code collided before.
    AwaitingId { url: String, retry: bool },
    /// The record is being inserted under `code`.
    Inserting { url: String, code: String, custom: bool, retried: bool },
    /// The request has been answered.
    Done,
}

/// A `ShortenState` with its texts as sequences of characters.
pub enum ShortenStateView {
    Idle,
    Probing { url: Seq<char>, code: Seq<char> },
    AwaitingId { url: Seq<char>, retry: bool },
    Inserting { url: Seq<char>, code: Seq<char>, custom: bool, retried: bool },
    Done,
}

impl View for ShortenState {
    type V = ShortenStateView;

    open spec fn view(&self) -> ShortenStateView {
        match *self {
            ShortenState::Idle => ShortenStateView::Idle,
            ShortenState::Probing { url, code } => ShortenStateView::Probing {
                url: url@,
                code: code@,
            },
            ShortenState::AwaitingId { url, retry } => ShortenStateView::AwaitingId {
                url: url@,
                retry,
            },
            ShortenState::Inserting { url, code, custom, retried } => ShortenStateView::Inserting {
                url: url@,
                code: code@,
                custom,
                retried,
            },
            ShortenState::Done => ShortenStateView::Done,
        }
    }
}

/// What a request to shorten is told.
#[derive(Debug, Clone, PartialEq, Eq)]
pub enum ShortenEvent {
    /// The request arrived.
    Request(ShortenRequest),
    /// The store said whether the custom code is taken; a failed probe counts
    /// as not taken.
    Probed { found: bool },
    /// The allocator's client gave an identifier, or could not.
    Id(Option<i64>),
    /// The store inserted the record.
    Stored(Url),
    /// The store refused the insert, with `message`.
    Rejected { message: String },
}

/// A `ShortenEvent` with its texts as sequences of characters.
pub enum ShortenEventView {
    Request { url: Seq<char>, custom_code: Option<Seq<char>> },
    Probed { found: bool },
    Id(Option<i64>),
    Stored(UrlView),
    Rejected { message: Seq<char> },
}

impl View for ShortenEvent {
    type V = ShortenEventView;

    open spec fn view(&self) -> ShortenEventView {
        match *self {
            ShortenEvent::Request(request) => ShortenEventView::Request {
                url: request.url@,
                custom_code: match request.custom_code {
                    Some(code) => Some(code@),
                    None => None,
                },
            },
            ShortenEvent::Probed { found } => ShortenEventView::Probed { found },
            ShortenEvent::Id(id) => ShortenEventView::Id(id),
            ShortenEvent::Stored(url) => ShortenEventView::Stored(url@),
            ShortenEvent::Rejected { message } => ShortenEventView::Rejected { message: message@ },
        }
    }
}

/// The effects that follow a successful insert of `record`.
pub open spec fn created_effects(record: UrlView, base_url: Seq<char>) -> Seq<EffectView> {
    seq![
        EffectView::Count(Counter::StoreWrites),
        EffectView::Count(Counter::ShortenCreated),
        EffectView::WriteCache {
            key: "url:"@ + record.short_code,
            url: record,
            ttl_seconds: 3600,
        },
        EffectView::Count(Counter::CacheOps),
        EffectView::Reply(ReplyView::Created(response_of(record, base_url))),
    ]
}

/// One step of a request to shorten. Short codes are minted at width
/// `length`; answers name the service by `base_url`.
///
/// A custom code is probed first and refused when taken. Otherwise an
/// identifier is taken and written as a short code. The record is inserted;
/// a custom code that turns out to exist is refused, a generated one is
/// replaced by a fresh one exactly once. An event that the state does not
/// wait for changes nothing.
pub open spec fn shorten_next(
    length: nat,
    base_url: Seq<char>,
    state: ShortenStateView,
    event: ShortenEventView,
) -> (ShortenStateView, Seq<EffectView>) {
    match (state, event) {
        (ShortenStateView::Idle, ShortenEventView::Request { url, custom_code: Some(code) }) => (
            ShortenStateView::Probing { url, code },
            seq![EffectView::ProbeCode { short_code: code }],
        ),
        (ShortenStateView::Idle, ShortenEventView::Request { url, custom_code: None }) => (
            ShortenStateView::AwaitingId { url, retry: false },
            seq![EffectView::TakeId],
        ),
        (ShortenStateView::Probing { url, code }, ShortenEventView::Probed { found }) => if found {
            (
                ShortenStateView::Done,
                seq![EffectView::Reply(ReplyView::Conflict { detail: conflict_detail(code) })],
            )
        } else {
            (
                ShortenStateView::Inserting { url, code, custom: true, retried: false },
                seq![EffectView::InsertUrl { short_code: code, original_url: url }],
            )
        },
        (ShortenStateView::AwaitingId { url, retry }, ShortenEventView::Id(None)) => (
            ShortenStateView::Done,
            seq![EffectView::Reply(ReplyView::Unavailable)],
        ),
        (ShortenStateView::AwaitingId { url, retry }, ShortenEventView::Id(Some(id))) => if id < 0 {
            (ShortenStateView::Done, seq![EffectView::Reply(ReplyView::Failed)])
        } else {
            let code = short_code_of(id as nat, length);
            (
                ShortenStateView::Inserting { url, code, custom: false, retried: retry },
                seq![EffectView::InsertUrl { short_code: code, original_url: url }],
            )
        },
        (ShortenStateView::Inserting { .. }, ShortenEventView::Stored(record)) => (
            ShortenStateView::Done,
            created_effects(record, base_url),
        ),
        (
            ShortenStateView::Inserting { url, code, custom, retried },
            ShortenEventView::Rejected { message },
        ) => if retried || !is_unique_violation(message) {
            (ShortenStateView::Done, seq![EffectView::Reply(ReplyView::Failed)])
        } else if custom {
            (
                ShortenStateView::Done,
                seq![EffectView::Reply(ReplyView::Conflict { detail: conflict_detail(code) })],
            )
        } else {
            (
                ShortenStateView::AwaitingId { url, retry: true },
                seq![EffectView::Count(Counter::CollisionRetries), EffectView::TakeId],
            )
        },
        _ => (state, Seq::empty()),
    }
}

fn just(effect: Effect) -> (effects: Vec<Effect>)
    ensures
        effects_view(effects@) == seq![effect@],
{
    let effects = vec![effect];
    assert(effects_view(effects@) =~= seq![effect@]);
    effects
}

fn nothing() -> (effects: Vec<Effect>)
    ensures
        effects_view(effects@) == Seq::<EffectView>::empty(),
{
    let effects: Vec<Effect> = Vec::new();
    assert(effects_view(effects@) =~= Seq::<EffectView>::empty());
    effects
}

fn created(record: Url, base_url: &str) -> (effects: Vec<Effect>)
    ensures
        effects_view(effects@) == created_effects(record@, base_url@),
{
    let key = url_cache_key(record.short_code.as_str());
    let response = UrlResponse::from_url(&record, base_url);
    let effects = vec![
        Effect::Count(Counter::StoreWrites),
        Effect::Count(Counter::ShortenCreated),
        Effect::WriteCache { key, url: record, ttl_seconds: URL_TTL_SECONDS },
        Effect::Count(Counter::CacheOps),
        Effect::Reply(Reply::Created(response)),
    ];
    assert(effects_view(effects@) =~= created_effects(record@, base_url@));
    effects
}

/// Takes a request to shorten one step further: from `state`, on `event`, to
/// the next state and the effects to carry out.
pub fn shorten(config: &Config, state: ShortenState, event: ShortenEvent) -> (next: (
    ShortenState,
    Vec<Effect>,
))
    ensures
        (next.0@, effects_view(next.1@)) == shorten_next(
            config.short_code_length as nat,
            config.base_url@,
            state@,
            event@,
        ),
{
    match state {
        ShortenState::Idle => match event {
            ShortenEvent::Request(request) => match request.custom_code {
                Some(code) => {
                    let effect = Effect::ProbeCode { short_code: code.clone() };
                    (ShortenState::Probing { url: request.url, code }, just(effect))
                },
                None => (
                    ShortenState::AwaitingId { url: request.url, retry: false },
                    just(Effect::TakeId),
                ),
            },
            _ => (ShortenState::Idle, nothing()),
        },
        ShortenState::Probing { url, code } => match event {
            ShortenEvent::Probed { found } => if found {
                (ShortenState::Done, just(Effect::Reply(conflict_reply(code.as_str()))))
            } else {
                let effect = Effect::InsertUrl {
                    short_code: code.clone(),
                    original_url: url.clone(),
                };
                (
                    ShortenState::Inserting { url, code, custom: true, retried: false },
                    just(effect),
                )
            },
            _ => (ShortenState::Probing { url, code }, nothing()),
        },
        ShortenState::AwaitingId { url, retry } => match event {
            ShortenEvent::Id(None) => (ShortenState::Done, just(Effect::Reply(Reply::Unavailable))),
            ShortenEvent::Id(Some(id)) => match encode_id(id, config.short_code_length) {
                Err(_) => (ShortenState::Done, just(Effect::Reply(Reply::Failed))),
                Ok(code) => {
                    let effect = Effect::InsertUrl {
                        short_code: code.clone(),
                        original_url: url.clone(),
                    };
                    (
                        ShortenState::Inserting { url, code, custom: false, retried: retry },
                        just(effect),
                    )
                },
            },
            _ => (ShortenState::AwaitingId { url, retry }, nothing()),
        },
        ShortenState::Inserting { url, code, custom, retried } => match event {
            ShortenEvent::Stored(record) => (
                ShortenState::Done,
                created(record, config.base_url.as_str()),
            ),
            ShortenEvent::Rejected { message } => {
                if retried || !unique_violation(message.as_str()) {
                    (ShortenState::Done, just(Effect::Reply(Reply::Failed)))
                } else if custom {
                    (ShortenState::Done, just(Effect::Reply(conflict_reply(code.as_str()))))
                } else {
                    let effects = vec![Effect::Count(Counter::CollisionRetries), Effect::TakeId];
                    assert(effects_view(effects@) =~= seq![
                        EffectView::Count(Counter::CollisionRetries),
                        EffectView::TakeId,
                    ]);
                    (ShortenState::AwaitingId { url, retry: true }, effects)
                }
            },
            _ => (ShortenState::Inserting { url, code, custom, retried }, nothing()),
        },
        ShortenState::Done => (ShortenState::Done, nothing()),
    }
}

/// Where a request for a short code stands.
#[derive(Debug, Clone, PartialEq, Eq)]
pub enum RedirectState {
    /// Nothing has been asked yet.
    Idle,
    /// The cache is being read.
    ReadingCache { code: String },
    /// The cache had no record; the relational store is being read.
    ReadingStore { code: String },
    /// The request has been answered.
    Done,
}

/// A `RedirectState` with its texts as sequences of characters.
pub enum RedirectStateView {
    Idle,
    ReadingCache { code: Seq<char> },
    ReadingStore { code: Seq<char> },
    Done,
}

impl View for RedirectState {
    type V = RedirectStateView;

    open spec fn view(&self) -> RedirectStateView {
        match *self {
            RedirectState::Idle => RedirectStateView::Idle,
            RedirectState::ReadingCache { code } => RedirectStateView::ReadingCache { code: code@ },
            RedirectState::ReadingStore { code } => RedirectStateView::ReadingStore { code: code@ },
            RedirectState::Done => RedirectStateView::Done,
        }
    }
}

/// What a request for a short code is told.
#[derive(Debug, Clone, PartialEq, Eq)]
pub enum RedirectEvent {
    /// The request arrived.
    Request { short_code: String },
    /// The cache gave its record, or had none; a failed read counts as none.
    Cached(Option<Url>),
    /// The relational store gave its record, or had none; a failed read
    /// counts as none.
    Loaded(Option<Url>),
}

/// A `RedirectEvent` with its texts as sequences of characters.
pub enum RedirectEventView {
    Request { short_code: Seq<char> },
    Cached(Option<UrlView>),
    Loaded(Option<UrlView>),
}

/// The view of a record that may be missing.
pub open spec fn record_view(record: Option<Url>) -> Option<UrlView> {
    match record {
        Some(url) => Some(url@),
        None => None,
    }
}

impl View for RedirectEvent {
    type V = RedirectEventView;

    open spec fn view(&self) -> RedirectEventView {
        match *self {
            RedirectEvent::Request { short_code } => RedirectEventView::Request {
                short_code: short_code@,
            },
            RedirectEvent::Cached(record) => RedirectEventView::Cached(record_view(record)),
            RedirectEvent::Loaded(record) => RedirectEventView::Loaded(record_view(record)),
        }
    }
}

/// One step of a request for a short code.
///
/// The cache is read first. On a hit the client is redirected at once. On a
/// miss the relational store is read: without a record the answer is
/// not-found; with one the cache is filled and the client redirected. Every
/// redirect starts one click-tracking task, which nobody waits for. An event
/// that the state does not wait for changes nothing.
pub open spec fn redirect_next(state: RedirectStateView, event: RedirectEventView) -> (
    RedirectStateView,
    Seq<EffectView>,
) {
    match (state, event) {
        (RedirectStateView::Idle, RedirectEventView::Request { short_code }) => (
            RedirectStateView::ReadingCache { code: short_code },
            seq![EffectView::ReadCache { key: "url:"@ + short_code }],
        ),
        (RedirectStateView::ReadingCache { code }, RedirectEventView::Cached(Some(url))) => (
            RedirectStateView::Done,
            seq![
                EffectView::Count(Counter::CacheHits),
                EffectView::Count(Counter::CacheOps),
                EffectView::Count(Counter::RedirectServed),
                EffectView::TrackClick { short_code: code },
                EffectView::Reply(ReplyView::Redirect { location: url.original_url }),
            ],
        ),
        (RedirectStateView::ReadingCache { code }, RedirectEventView::Cached(None)) => (
            RedirectStateView::ReadingStore { code },
            seq![
                EffectView::Count(Counter::CacheMisses),
                EffectView::Count(Counter::CacheOps),
                EffectView::ReadUrl { short_code: code },
            ],
        ),
        (RedirectStateView::ReadingStore { code }, RedirectEventView::Loaded(None)) => (
            RedirectStateView::Done,
            seq![
                EffectView::Count(Counter::StoreReads),
                EffectView::Reply(ReplyView::NotFound { detail: not_found_detail() }),
            ],
        ),
        (RedirectStateView::ReadingStore { code }, RedirectEventView::Loaded(Some(url))) => (
            RedirectStateView::Done,
            seq![
                EffectView::Count(Counter::StoreReads),
                EffectView::WriteCache {
                    key: "url:"@ + url.short_code,
                    url,
                    ttl_seconds: 3600,
                },
                EffectView::Count(Counter::RedirectServed),
                EffectView::TrackClick { short_code: code },
                EffectView::Reply(ReplyView::Redirect { location: url.original_url }),
            ],
        ),
        _ => (state, Seq::empty()),
    }
}

/// Takes a request for a short code one step further: from `state`, on
/// `event`, to the next state and the effects to carry out.
pub fn redirect(state: RedirectState, event: RedirectEvent) -> (next: (RedirectState, Vec<Effect>))
    ensures
        (next.0@, effects_view(next.1@)) == redirect_next(state@, event@),
{
    match state {
        RedirectState::Idle => match event {
            RedirectEvent::Request { short_code } => {
                let key = url_cache_key(short_code.as_str());
                (RedirectState::ReadingCache { code: short_code }, just(Effect::ReadCache { key }))
            },
            _ => (RedirectState::Idle, nothing()),
        },
        RedirectState::ReadingCache { code } => match event {
            RedirectEvent::Cached(Some(url)) => {
                let effects = vec![
                    Effect::Count(Counter::CacheHits),
                    Effect::Count(Counter::CacheOps),
                    Effect::Count(Counter::RedirectServed),
                    Effect::TrackClick { short_code: code },
                    Effect::Reply(Reply::Redirect { location: url.original_url }),
                ];
                assert(effects_view(effects@) =~= redirect_next(state@, event@).1);
                (RedirectState::Done, effects)
            },
            RedirectEvent::Cached(None) => {
                let effects = vec![
                    Effect::Count(Counter::CacheMisses),
                    Effect::Count(Counter::CacheOps),
                    Effect::ReadUrl { short_code: code.clone() },
                ];
                assert(effects_view(effects@) =~= redirect_next(state@, event@).1);
                (RedirectState::ReadingStore { code }, effects)
            },
            _ => (RedirectState::ReadingCache { code }, nothing()),
        },
        RedirectState::ReadingStore { code } => match event {
            RedirectEvent::Loaded(None) => {
                let effects = vec![
                    Effect::Count(Counter::StoreReads),
                    Effect::Reply(not_found_reply()),
                ];
                assert(effects_view(effects@) =~= redirect_next(state@, event@).1);
                (RedirectState::Done, effects)
            },
            RedirectEvent::Loaded(Some(url)) => {
                let key = url_cache_key(url.short_code.as_str());
                let location = url.original_url.clone();
                let effects = vec![
                    Effect::Count(Counter::StoreReads),
                    Effect::WriteCache { key, url, ttl_seconds: URL_TTL_SECONDS },
                    Effect::Count(Counter::RedirectServed),
                    Effect::TrackClick { short_code: code },
                    Effect::Reply(Reply::Redirect { location }),
                ];
                assert(effects_view(effects@) =~= redirect_next(state@, event@).1);
                (RedirectState::Done, effects)
            },
            _ => (RedirectState::ReadingStore { code }, nothing()),
        },
        RedirectState::Done => (RedirectState::Done, nothing()),
    }
}

/// The effects of a request for the statistics of a short code, given what
/// the relational store holds for it.
pub open spec fn stats_effects(base_url: Seq<char>, found: Option<UrlView>) -> Seq<EffectView> {
    match found {
        None => seq![
            EffectView::Count(Counter::StoreReads),
            EffectView::Reply(ReplyView::NotFound { detail: not_found_detail() }),
        ],
        Some(url) => seq![
            EffectView::Count(Counter::StoreReads),
            EffectView::Count(Counter::StatsServed),
            EffectView::Reply(ReplyView::Found(response_of(url, base_url))),
        ],
    }
}

/// Answers a request for the statistics of a short code from what the
/// relational store holds for it, never from the cache: the stored record as
/// it is, or not-found.
pub fn stats(config: &Config, found: Option<Url>) -> (effects: Vec<Effect>)
    ensures
        effects_view(effects@) == stats_effects(config.base_url@, record_view(found)),
{
    match found {
        None => {
            let effects = vec![Effect::Count(Counter::StoreReads), Effect::Reply(not_found_reply())];
            assert(effects_view(effects@) =~= stats_effects(config.base_url@, record_view(found)));
            effects
        },
        Some(url) => {
            let response = UrlResponse::from_url(&url, config.base_url.as_str());
            let effects = vec![
                Effect::Count(Counter::StoreReads),
                Effect::Count(Counter::StatsServed),
                Effect::Reply(Reply::Found(response)),
            ];
            assert(effects_view(effects@) =~= stats_effects(config.base_url@, record_view(found)));
            effects
        },
    }
}

/// How long a click event may take to reach the event bus, in milliseconds.
pub const PUBLISH_TIMEOUT_MS: u64 = 500;

/// Where the tracking of one click stands.
#[derive(Debug, Clone, PartialEq, Eq)]
pub enum TrackState {
    /// Nothing has been done yet.
    Idle,
    /// The counter of unflushed clicks is being incremented.
    Counting { code: String },
    /// The click event is on its way to the event bus.
    Publishing { code: String },
    /// The click has been handed on.
    Done,
}

/// A `TrackState` with its texts as sequences of characters.
pub enum TrackStateView {
    Idle,
    Counting { code: Seq<char> },
    Publishing { code: Seq<char> },
    Done,
}

impl View for TrackState {
    type V = TrackStateView;

    open spec fn view(&self) -> TrackStateView {
        match *self {
            TrackState::Idle => TrackStateView::Idle,
            TrackState::Counting { code } => TrackStateView::Counting { code: code@ },
            TrackState::Publishing { code } => TrackStateView::Publishing { code: code@ },
            TrackState::Done => TrackStateView::Done,
        }
    }
}

/// What the tracking of a click is told.
#[derive(Debug, Clone, PartialEq, Eq)]
pub enum TrackEvent {
    /// A redirect to `short_code` was served.
    Start { short_code: String },
    /// The counter's new value, or none where the increment failed.
    Counted(Option<i64>),
    /// Whether the event bus took the event in time.
    Published(bool),
}

/// A `TrackEvent` with its texts as sequences of characters.
pub enum TrackEventView {
    Start { short_code: Seq<char> },
    Counted(Option<i64>),
    Published(bool),
}

impl View for TrackEvent {
    type V = TrackEventView;

    open spec fn view(&self) -> TrackEventView {
        match *self {
            TrackEvent::Start { short_code } => TrackEventView::Start { short_code: short_code@ },
            TrackEvent::Counted(count) => TrackEventView::Counted(count),
            TrackEvent::Published(accepted) => TrackEventView::Published(accepted),
        }
    }
}

/// The settings that click tracking reads.
pub struct TrackSettings {
    pub buffer_prefix: Seq<char>,
    pub buffer_ttl_seconds: int,
    pub topic: Seq<char>,
    pub stream_key: Seq<char>,
}

/// What click tracking reads of `config`.
pub open spec fn track_settings(config: &Config) -> TrackSettings {
    TrackSettings {
        buffer_prefix: config.click_buffer_key_prefix@,
        buffer_ttl_seconds: config.click_buffer_ttl_seconds as int,
        topic: config.kafka_click_topic@,
        stream_key: config.click_stream_key@,
    }
}

/// The event that one click on `code` puts on the bus.
pub open spec fn single_click(code: Seq<char>) -> ClickEventView {
    ClickEventView { short_code: code, delta: 1 }
}

/// One step of the tracking of a click.
///
/// The counter of unflushed clicks is incremented, and given its lifetime
/// when this was its first increment. Then one event with delta 1 is
/// published, keyed by the short code. If the bus does not take it in time,
/// exactly one entry goes to the fallback stream instead. An event that the
/// state does not wait for changes nothing.
pub open spec fn track_next(settings: TrackSettings, state: TrackStateView, event: TrackEventView) -> (
    TrackStateView,
    Seq<EffectView>,
) {
    match (state, event) {
        (TrackStateView::Idle, TrackEventView::Start { short_code }) => (
            TrackStateView::Counting { code: short_code },
            seq![EffectView::IncrBuffer { key: settings.buffer_prefix + ":"@ + short_code }],
        ),
        (TrackStateView::Counting { code }, TrackEventView::Counted(count)) => {
            let publish = seq![
                EffectView::Count(Counter::CacheOps),
                EffectView::Publish {
                    topic: settings.topic,
                    key: code,
                    event: single_click(code),
                    timeout_ms: 500,
                },
            ];
            let expire = seq![
                EffectView::ExpireBuffer {
                    key: settings.buffer_prefix + ":"@ + code,
                    ttl_seconds: settings.buffer_ttl_seconds,
                },
            ];
            (
                TrackStateView::Publishing { code },
                if count == Some(1i64) {
                    expire + publish
                } else {
                    publish
                },
            )
        },
        (TrackStateView::Publishing { code }, TrackEventView::Published(accepted)) => (
            TrackStateView::Done,
            if accepted {
                seq![EffectView::Count(Counter::BusPublishes)]
            } else {
                seq![
                    EffectView::Count(Counter::StreamFallbacks),
                    EffectView::AppendStream {
                        stream_key: settings.stream_key,
                        short_code: code,
                        delta: decimal_text(1),
                    },
                ]
            },
        ),
        _ => (state, Seq::empty()),
    }
}

/// Takes the tracking of a click one step further: from `state`, on `event`,
/// to the next state and the effects to carry out.
pub fn track_click(config: &Config, state: TrackState, event: TrackEvent) -> (next: (
    TrackState,
    Vec<Effect>,
))
    ensures
        (next.0@, effects_view(next.1@)) == track_next(track_settings(config), state@, event@),
{
    match state {
        TrackState::Idle => match event {
            TrackEvent::Start { short_code } => {
                let key = click_buffer_key(
                    config.click_buffer_key_prefix.as_str(),
                    short_code.as_str(),
                );
                (TrackState::Counting { code: short_code }, just(Effect::IncrBuffer { key }))
            },
            _ => (TrackState::Idle, nothing()),
        },
        TrackState::Counting { code } => match event {
            TrackEvent::Counted(count) => {
                let mut effects: Vec<Effect> = Vec::new();
                let first = match count {
                    Some(value) => value == 1,
                    None => false,
                };
                if first {
                    let key = click_buffer_key(
                        config.click_buffer_key_prefix.as_str(),
                        code.as_str(),
                    );
                    effects.push(
                        Effect::ExpireBuffer { key, ttl_seconds: config.click_buffer_ttl_seconds },
                    );
                }
                effects.push(Effect::Count(Counter::CacheOps));
                effects.push(
                    Effect::Publish {
                        topic: config.kafka_click_topic.clone(),
                        key: code.clone(),
                        event: ClickEvent { short_code: code.clone(), delta: 1 },
                        timeout_ms: PUBLISH_TIMEOUT_MS,
                    },
                );
                assert(effects_view(effects@) =~= track_next(
                    track_settings(config),
                    state@,
                    event@,
                ).1);
                (TrackState::Publishing { code }, effects)
            },
            _ => (TrackState::Counting { code }, nothing()),
        },
        TrackState::Publishing { code } => match event {
            TrackEvent::Published(accepted) => if accepted {
                (TrackState::Done, just(Effect::Count(Counter::BusPublishes)))
            } else {
                let effects = vec![
                    Effect::Count(Counter::StreamFallbacks),
                    Effect::AppendStream {
                        stream_key: config.click_stream_key.clone(),
                        short_code: code,
                        delta: i64_to_text(1),
                    },
                ];
                assert(effects_view(effects@) =~= track_next(
                    track_settings(config),
                    state@,
                    event@,
                ).1);
                (TrackState::Done, effects)
            },
            _ => (TrackState::Publishing { code }, nothing()),
        },
        TrackState::Done => (TrackState::Done, nothing()),
    }
}

} // verus!
