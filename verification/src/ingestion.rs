//! The ingestor: click events are summed per short code, buffered in the
//! aggregate hash of the cache, and flushed from there to the relational
//! store and the analytics store.

use crate::aggregates::{can_take, distinct_codes, tally_add, total_of, ClickAggregates};
use crate::cache::{join_with_colon, url_cache_key};
use crate::models::{clicks_view, duplicate_clicks, ClickEvent, ClickEventView};
use crate::text::{parse_decimal, parse_i64};
use vstd::prelude::*;
use vstd::string::*;

verus! {

/// Settings of the ingestor.
#[derive(Debug, Clone, PartialEq, Eq)]
pub struct IngestConfig {
    pub database_url: String,
    pub redis_url: String,
    pub kafka_bootstrap_servers: String,
    pub kafka_click_topic: String,
    pub ingestion_consumer_group: String,
    pub ingestion_consumer_name: String,
    pub ingestion_batch_size: usize,
    pub ingestion_block_ms: u64,
    pub ingestion_flush_interval_seconds: u64,
    pub ingestion_agg_key_prefix: String,
    pub click_buffer_key_prefix: String,
    pub clickhouse_url: String,
    pub clickhouse_username: String,
    pub clickhouse_password: String,
    pub clickhouse_database: String,
    pub ingestion_metrics_port: Option<u16>,
}

/// Key of the aggregate hash of the consumer `consumer_name`.
pub fn agg_hash_key(prefix: &str, consumer_name: &str) -> (key: String)
    ensures
        key@ == prefix@ + ":"@ + consumer_name@,
{
    join_with_colon(prefix, consumer_name)
}

/// An increment of one field of a hash in the cache.
#[derive(Debug, Clone, PartialEq, Eq)]
pub struct HashIncr {
    pub key: String,
    pub field: String,
    pub amount: i64,
}

/// A `HashIncr` with its texts as sequences of characters.
pub struct HashIncrView {
    pub key: Seq<char>,
    pub field: Seq<char>,
    pub amount: int,
}

impl View for HashIncr {
    type V = HashIncrView;

    open spec fn view(&self) -> HashIncrView {
        HashIncrView { key: self.key@, field: self.field@, amount: self.amount as int }
    }
}

/// The views of a list of increments, in order.
pub open spec fn incrs_view(commands: Seq<HashIncr>) -> Seq<HashIncrView> {
    commands.map_values(|c: HashIncr| c@)
}

/// The increments that add `entries` to the hash at `key`: one per entry,
/// in order.
pub open spec fn buffer_commands(key: Seq<char>, entries: Seq<ClickEventView>) -> Seq<HashIncrView> {
    Seq::new(
        entries.len(),
        |i: int| HashIncrView { key, field: entries[i].short_code, amount: entries[i].delta },
    )
}

/// The increments, to be sent as one pipeline, that add the deltas of
/// `aggregates` to the aggregate hash at `agg_key`; none where there are no
/// deltas.
pub fn buffer_to_redis(agg_key: &str, aggregates: &ClickAggregates) -> (commands: Vec<HashIncr>)
    ensures
        incrs_view(commands@) == buffer_commands(agg_key@, aggregates@),
{
    let entries = aggregates.entries();
    let mut commands: Vec<HashIncr> = Vec::new();
    let mut i: usize = 0;
    while i < entries.len()
        invariant
            i <= entries.len(),
            clicks_view(entries@) == aggregates@,
            incrs_view(commands@) == buffer_commands(agg_key@, aggregates@).take(i as int),
        decreases entries.len() - i,
    {
        let ghost sent = incrs_view(commands@);
        let command = HashIncr {
            key: String::from_str(agg_key),
            field: entries[i].short_code.clone(),
            amount: entries[i].delta,
        };
        assert(clicks_view(entries@)[i as int] == entries@[i as int]@);
        commands.push(command);
        i = i + 1;
        assert(incrs_view(commands@) =~= sent.push(command@));
        assert(incrs_view(commands@) =~= buffer_commands(agg_key@, aggregates@).take(i as int));
    }
    assert(buffer_commands(agg_key@, aggregates@).take(i as int) =~= buffer_commands(
        agg_key@,
        aggregates@,
    ));
    commands
}

/// Why the ingestor passed over something.
#[derive(Debug, Clone, Copy, PartialEq, Eq, Structural)]
pub enum Warning {
    /// A payload or a stream entry was no click event.
    InvalidPayload,
    /// The deltas of a click event would not fit in 64 bits.
    DeltaOverflow,
    /// The event bus failed to deliver.
    ReceiveFailed,
}

/// What came with a message from the event bus.
#[derive(Debug, Clone, PartialEq, Eq)]
pub enum Delivery {
    /// The payload was this click event.
    Click(ClickEvent),
    /// The payload was no click event.
    Invalid,
    /// The message had no payload.
    Empty,
}

/// What the ingestor is told after each poll.
#[derive(Debug, Clone, PartialEq, Eq)]
pub enum PollEvent {
    /// The event bus delivered a message.
    Message(Delivery),
    /// The fallback stream delivered the entry `id`.
    StreamEntry { id: String, short_code: String, delta: String },
    /// The event bus failed to deliver.
    ReceiveFailed,
    /// Nothing came within the time allowed.
    Timeout,
    /// An interval flush has just ended, well or badly.
    Flushed,
}

/// A `PollEvent` with its texts as sequences of characters.
pub enum PollEventView {
    Click(ClickEventView),
    Invalid,
    Empty,
    StreamEntry { id: Seq<char>, short_code: Seq<char>, delta: Seq<char> },
    ReceiveFailed,
    Timeout,
    Flushed,
}

impl View for PollEvent {
    type V = PollEventView;

    open spec fn view(&self) -> PollEventView {
        match *self {
            PollEvent::Message(Delivery::Click(event)) => PollEventView::Click(event@),
            PollEvent::Message(Delivery::Invalid) => PollEventView::Invalid,
            PollEvent::Message(Delivery::Empty) => PollEventView::Empty,
            PollEvent::StreamEntry { id, short_code, delta } => PollEventView::StreamEntry {
                id: id@,
                short_code: short_code@,
                delta: delta@,
            },
            PollEvent::ReceiveFailed => PollEventView::ReceiveFailed,
            PollEvent::Timeout => PollEventView::Timeout,
            PollEvent::Flushed => PollEventView::Flushed,
        }
    }
}

/// One thing for the driver of the ingestor to do.
#[derive(Debug, Clone, PartialEq, Eq)]
pub enum IngestEffect {
    /// Count one click event consumed.
    CountEvent,
    /// Log that something was passed over.
    Warn(Warning),
    /// Commit the offset of the message just consumed, without waiting.
    CommitOffset,
    /// Remove the entry `id` from the fallback stream.
    AckStream { id: String },
    /// Send `commands` to the cache as one pipeline; where that succeeds,
    /// count `total` clicks buffered.
    Buffer { commands: Vec<HashIncr>, total: i64 },
    /// Run an interval flush to its end, then report `Flushed`.
    Flush,
}

/// An `IngestEffect` with its texts as sequences of characters.
pub enum IngestEffectView {
    CountEvent,
    Warn(Warning),
    CommitOffset,
    AckStream { id: Seq<char> },
    Buffer { commands: Seq<HashIncrView>, total: int },
    Flush,
}

impl View for IngestEffect {
    type V = IngestEffectView;

    open spec fn view(&self) -> IngestEffectView {
        match *self {
            IngestEffect::CountEvent => IngestEffectView::CountEvent,
            IngestEffect::Warn(warning) => IngestEffectView::Warn(warning),
            IngestEffect::CommitOffset => IngestEffectView::CommitOffset,
            IngestEffect::AckStream { id } => IngestEffectView::AckStream { id: id@ },
            IngestEffect::Buffer { commands, total } => IngestEffectView::Buffer {
                commands: incrs_view(commands@),
                total: total as int,
            },
            IngestEffect::Flush => IngestEffectView::Flush,
        }
    }
}

/// The views of a list of effects, in order.
pub open spec fn ingest_effects_view(effects: Seq<IngestEffect>) -> Seq<IngestEffectView> {
    effects.map_values(|e: IngestEffect| e@)
}

/// The settings that the ingestor's loop reads.
pub struct IngestSettings {
    pub agg_key: Seq<char>,
    pub batch_size: int,
    pub flush_interval_ms: int,
}

/// What the ingestor's loop reads of `config`.
pub open spec fn ingest_settings(config: &IngestConfig) -> IngestSettings {
    IngestSettings {
        agg_key: config.ingestion_agg_key_prefix@ + ":"@ + config.ingestion_consumer_name@,
        batch_size: config.ingestion_batch_size as int,
        flush_interval_ms: config.ingestion_flush_interval_seconds * 1000,
    }
}

/// The ingestor between two polls, as a mathematical value: the deltas
/// consumed and not buffered yet, and when the last interval flush ended,
/// in milliseconds on a clock that never goes back.
pub struct IngestorView {
    pub pending: Seq<ClickEventView>,
    pub last_flush_ms: int,
}

/// The click that `event` brings, if it brings one: the payload of a
/// message, or a stream entry whose delta reads as a 64-bit integer.
pub open spec fn click_of(event: PollEventView) -> Option<ClickEventView> {
    match event {
        PollEventView::Click(click) => Some(click),
        PollEventView::StreamEntry { short_code, delta, .. } => match parse_decimal(
            delta,
            true,
            i64::MIN as int,
            i64::MAX as int,
        ) {
            Some(value) => Some(ClickEventView { short_code, delta: value }),
            None => None,
        },
        _ => None,
    }
}

/// What consuming `event` leaves pending, before anything is buffered: a
/// click that fits is added, everything else changes nothing.
pub open spec fn pending_with(pending: Seq<ClickEventView>, event: PollEventView) -> Seq<
    ClickEventView,
> {
    match click_of(event) {
        Some(click) => if can_take(pending, click.short_code, click.delta) {
            tally_add(pending, click.short_code, click.delta)
        } else {
            pending
        },
        None => pending,
    }
}

/// The effects of consuming `event` itself: a click that fits is counted,
/// anything else that came is warned of; a message has its offset committed
/// and a stream entry is removed from the stream, whatever they held.
pub open spec fn consume_effects(pending: Seq<ClickEventView>, event: PollEventView) -> Seq<
    IngestEffectView,
> {
    let verdict = match click_of(event) {
        Some(click) => if can_take(pending, click.short_code, click.delta) {
            seq![IngestEffectView::CountEvent]
        } else {
            seq![IngestEffectView::Warn(Warning::DeltaOverflow)]
        },
        None => match event {
            PollEventView::Invalid => seq![IngestEffectView::Warn(Warning::InvalidPayload)],
            PollEventView::StreamEntry { .. } => seq![
                IngestEffectView::Warn(Warning::InvalidPayload),
            ],
            PollEventView::ReceiveFailed => seq![IngestEffectView::Warn(Warning::ReceiveFailed)],
            _ => Seq::empty(),
        },
    };
    let receipt = match event {
        PollEventView::Click(_) => seq![IngestEffectView::CommitOffset],
        PollEventView::Invalid => seq![IngestEffectView::CommitOffset],
        PollEventView::Empty => seq![IngestEffectView::CommitOffset],
        PollEventView::StreamEntry { id, .. } => seq![IngestEffectView::AckStream { id }],
        _ => Seq::empty(),
    };
    verdict + receipt
}

/// Whether what is pending goes to the cache now: when there is something
/// pending and either as many short codes as a batch holds, or the poll
/// timed out.
pub open spec fn buffer_is_due(batch_size: int, pending: Seq<ClickEventView>, event: PollEventView) -> bool {
    pending.len() > 0 && (pending.len() >= batch_size || event is Timeout)
}

/// Whether an interval flush is due at `now_ms`.
pub open spec fn flush_is_due(settings: IngestSettings, last_flush_ms: int, now_ms: int) -> bool {
    now_ms - last_flush_ms >= settings.flush_interval_ms
}

/// One turn of the ingestor's loop, at `now_ms`.
///
/// What the poll brought is consumed. Then what is pending goes to the
/// aggregate hash if that is due, and nothing is pending any more. Then an
/// interval flush is asked for if the interval has passed since the last one
/// ended. The report that a flush ended only sets the time of the last flush.
pub open spec fn ingest_next(
    settings: IngestSettings,
    state: IngestorView,
    event: PollEventView,
    now_ms: int,
) -> (IngestorView, Seq<IngestEffectView>) {
    if event is Flushed {
        (IngestorView { pending: state.pending, last_flush_ms: now_ms }, Seq::empty())
    } else {
        let consumed = pending_with(state.pending, event);
        let buffering = buffer_is_due(settings.batch_size, consumed, event);
        let buffer = if buffering {
            seq![
                IngestEffectView::Buffer {
                    commands: buffer_commands(settings.agg_key, consumed),
                    total: total_of(consumed),
                },
            ]
        } else {
            Seq::empty()
        };
        let flush = if flush_is_due(settings, state.last_flush_ms, now_ms) {
            seq![IngestEffectView::Flush]
        } else {
            Seq::empty()
        };
        (
            IngestorView {
                pending: if buffering {
                    Seq::empty()
                } else {
                    consumed
                },
                last_flush_ms: state.last_flush_ms,
            },
            consume_effects(state.pending, event) + buffer + flush,
        )
    }
}

/// The ingestor between two polls.
#[derive(Debug, Clone, PartialEq, Eq)]
pub struct Ingestor {
    pending: ClickAggregates,
    last_flush_ms: u64,
}

impl View for Ingestor {
    type V = IngestorView;

    closed spec fn view(&self) -> IngestorView {
        IngestorView { pending: self.pending@, last_flush_ms: self.last_flush_ms as int }
    }
}

impl Ingestor {
    /// What every value of the type satisfies: no short code is pending
    /// twice.
    pub closed spec fn wf(&self) -> bool {
        self.pending.wf()
    }

    /// What `wf` says, for those who cannot see inside.
    pub proof fn lemma_wf(&self)
        requires
            self.wf(),
        ensures
            distinct_codes(self@.pending),
            i64::MIN <= total_of(self@.pending) <= i64::MAX,
    {
        self.pending.lemma_wf();
    }

    /// An ingestor that starts at `now_ms` with nothing pending; its first
    /// interval flush is due one interval later.
    pub fn new(now_ms: u64) -> (ingestor: Self)
        ensures
            ingestor.wf(),
            ingestor@ == (IngestorView { pending: Seq::empty(), last_flush_ms: now_ms as int }),
    {
        Ingestor { pending: ClickAggregates::new(), last_flush_ms: now_ms }
    }

    /// How many short codes have clicks pending.
    pub fn pending_len(&self) -> (count: usize)
        ensures
            count == self@.pending.len(),
    {
        self.pending.len()
    }

    /// Takes the loop one turn further: consumes `event` at `now_ms` and
    /// says what to do.
    pub fn poll(&mut self, config: &IngestConfig, event: PollEvent, now_ms: u64) -> (effects: Vec<
        IngestEffect,
    >)
        requires
            old(self).wf(),
        ensures
            final(self).wf(),
            (final(self)@, ingest_effects_view(effects@)) == ingest_next(
                ingest_settings(config),
                old(self)@,
                event@,
                now_ms as int,
            ),
    {
        let ghost settings = ingest_settings(config);
        let ghost before = self@;
        let mut effects: Vec<IngestEffect> = Vec::new();
        assert(ingest_effects_view(effects@) =~= Seq::<IngestEffectView>::empty());
        let timed_out = match event {
            PollEvent::Timeout => true,
            _ => false,
        };
        match event {
            PollEvent::Flushed => {
                self.last_flush_ms = now_ms;
                return effects;
            },
            PollEvent::Message(Delivery::Click(click)) => {
                if self.pending.try_add(click.short_code.as_str(), click.delta) {
                    effects.push(IngestEffect::CountEvent);
                } else {
                    effects.push(IngestEffect::Warn(Warning::DeltaOverflow));
                }
                effects.push(IngestEffect::CommitOffset);
            },
            PollEvent::Message(Delivery::Invalid) => {
                effects.push(IngestEffect::Warn(Warning::InvalidPayload));
                effects.push(IngestEffect::CommitOffset);
            },
            PollEvent::Message(Delivery::Empty) => {
                effects.push(IngestEffect::CommitOffset);
            },
            PollEvent::StreamEntry { id, short_code, delta } => {
                match parse_i64(delta.as_str()) {
                    Some(value) => {
                        if self.pending.try_add(short_code.as_str(), value) {
                            effects.push(IngestEffect::CountEvent);
                        } else {
                            effects.push(IngestEffect::Warn(Warning::DeltaOverflow));
                        }
                    },
                    None => {
                        effects.push(IngestEffect::Warn(Warning::InvalidPayload));
                    },
                }
                effects.push(IngestEffect::AckStream { id });
            },
            PollEvent::ReceiveFailed => {
                effects.push(IngestEffect::Warn(Warning::ReceiveFailed));
            },
            PollEvent::Timeout => {},
        }
        assert(self@.pending == pending_with(before.pending, event@));
        assert(ingest_effects_view(effects@) =~= consume_effects(before.pending, event@));
        let ghost consumed = self@.pending;
        let count = self.pending.len();
        if count > 0 && (count >= config.ingestion_batch_size || timed_out) {
            let key = agg_hash_key(
                config.ingestion_agg_key_prefix.as_str(),
                config.ingestion_consumer_name.as_str(),
            );
            let commands = buffer_to_redis(key.as_str(), &self.pending);
            let total = self.pending.total();
            let ghost sent = ingest_effects_view(effects@);
            effects.push(IngestEffect::Buffer { commands, total });
            assert(ingest_effects_view(effects@) =~= sent + seq![
                IngestEffectView::Buffer {
                    commands: buffer_commands(settings.agg_key, consumed),
                    total: total_of(consumed),
                },
            ]);
            self.pending = ClickAggregates::new();
        } else {
            assert(ingest_effects_view(effects@) =~= ingest_effects_view(effects@)
                + Seq::<IngestEffectView>::empty());
        }
        let elapsed: u64 = if now_ms >= self.last_flush_ms {
            now_ms - self.last_flush_ms
        } else {
            0
        };
        let due = now_ms >= self.last_flush_ms && elapsed as u128
            >= config.ingestion_flush_interval_seconds as u128 * 1000;
        if due {
            let ghost sent = ingest_effects_view(effects@);
            effects.push(IngestEffect::Flush);
            assert(ingest_effects_view(effects@) =~= sent + seq![IngestEffectView::Flush]);
        } else {
            assert(ingest_effects_view(effects@) =~= ingest_effects_view(effects@)
                + Seq::<IngestEffectView>::empty());
        }
        effects
    }
}

/// One field of a hash as the cache returns it.
#[derive(Debug, Clone, PartialEq, Eq)]
pub struct HashField {
    pub field: String,
    pub value: String,
}

/// A `HashField` with its texts as sequences of characters.
pub struct HashFieldView {
    pub field: Seq<char>,
    pub value: Seq<char>,
}

impl View for HashField {
    type V = HashFieldView;

    open spec fn view(&self) -> HashFieldView {
        HashFieldView { field: self.field@, value: self.value@ }
    }
}

/// The views of the fields of a hash, in order.
pub open spec fn fields_view(fields: Seq<HashField>) -> Seq<HashFieldView> {
    fields.map_values(|f: HashField| f@)
}

/// The deltas to commit for the aggregate hash `raw`: one entry per short
/// code whose value reads as a 64-bit integer above zero, in the order of
/// the hash. Every other field is dropped.
pub open spec fn planned(raw: Seq<HashFieldView>) -> Seq<ClickEventView>
    decreases raw.len(),
{
    if raw.len() == 0 {
        Seq::empty()
    } else {
        let before = planned(raw.drop_last());
        match parse_decimal(raw.last().value, true, i64::MIN as int, i64::MAX as int) {
            Some(delta) => if delta > 0 && can_take(before, raw.last().field, delta) {
                tally_add(before, raw.last().field, delta)
            } else {
                before
            },
            None => before,
        }
    }
}

/// Reads the deltas to commit off the aggregate hash `raw`.
pub fn parse_hash(raw: &Vec<HashField>) -> (plan: ClickAggregates)
    ensures
        plan.wf(),
        plan@ == planned(fields_view(raw@)),
{
    let mut plan = ClickAggregates::new();
    let mut i: usize = 0;
    assert(fields_view(raw@).take(0) =~= Seq::<HashFieldView>::empty());
    while i < raw.len()
        invariant
            i <= raw.len(),
            plan.wf(),
            plan@ == planned(fields_view(raw@).take(i as int)),
        decreases raw.len() - i,
    {
        proof {
            let next = fields_view(raw@).take(i + 1);
            assert(next.drop_last() =~= fields_view(raw@).take(i as int));
            assert(next.last() == raw@[i as int]@);
        }
        match parse_i64(raw[i].value.as_str()) {
            Some(delta) => {
                if delta > 0 {
                    let _ = plan.try_add(raw[i].field.as_str(), delta);
                }
            },
            None => {},
        }
        i = i + 1;
    }
    assert(fields_view(raw@).take(i as int) =~= fields_view(raw@));
    plan
}

/// One command of the pipeline that follows a commit.
#[derive(Debug, Clone, PartialEq, Eq)]
pub enum CacheOp {
    /// Take `amount` off the counter at `key`.
    DecrBy { key: String, amount: i64 },
    /// Delete the entry at `key`.
    Delete { key: String },
}

/// A `CacheOp` with its texts as sequences of characters.
pub enum CacheOpView {
    DecrBy { key: Seq<char>, amount: int },
    Delete { key: Seq<char> },
}

impl View for CacheOp {
    type V = CacheOpView;

    open spec fn view(&self) -> CacheOpView {
        match *self {
            CacheOp::DecrBy { key, amount } => CacheOpView::DecrBy {
                key: key@,
                amount: amount as int,
            },
            CacheOp::Delete { key } => CacheOpView::Delete { key: key@ },
        }
    }
}

/// The views of a list of cache commands, in order.
pub open spec fn ops_view(ops: Seq<CacheOp>) -> Seq<CacheOpView> {
    ops.map_values(|o: CacheOp| o@)
}

/// The pipeline that follows the commit of `plan`: for each short code, in
/// order, its delta comes off the counter of unflushed clicks, and its
/// cached record is deleted.
pub open spec fn invalidation(buffer_prefix: Seq<char>, plan: Seq<ClickEventView>) -> Seq<
    CacheOpView,
> {
    Seq::new(
        2 * plan.len(),
        |i: int|
            if i % 2 == 0 {
                CacheOpView::DecrBy {
                    key: buffer_prefix + ":"@ + plan[i / 2].short_code,
                    amount: plan[i / 2].delta,
                }
            } else {
                CacheOpView::Delete { key: "url:"@ + plan[i / 2].short_code }
            },
    )
}

/// The pipeline that follows the commit of `plan`.
pub fn invalidate_commands(buffer_prefix: &str, plan: &Vec<ClickEvent>) -> (ops: Vec<CacheOp>)
    ensures
        ops_view(ops@) == invalidation(buffer_prefix@, clicks_view(plan@)),
{
    let mut ops: Vec<CacheOp> = Vec::new();
    let mut i: usize = 0;
    while i < plan.len()
        invariant
            i <= plan.len(),
            ops@.len() == 2 * i,
            forall|k: int|
                0 <= k < 2 * i ==> (#[trigger] ops@[k])@ == invalidation(
                    buffer_prefix@,
                    clicks_view(plan@),
                )[k],
        decreases plan.len() - i,
    {
        let decrement = CacheOp::DecrBy {
            key: join_with_colon(buffer_prefix, plan[i].short_code.as_str()),
            amount: plan[i].delta,
        };
        let delete = CacheOp::Delete { key: url_cache_key(plan[i].short_code.as_str()) };
        assert(clicks_view(plan@)[i as int] == plan@[i as int]@);
        ops.push(decrement);
        ops.push(delete);
        i = i + 1;
    }
    assert(ops_view(ops@) =~= invalidation(buffer_prefix@, clicks_view(plan@)));
    ops
}

/// One thing for the driver of an interval flush to do.
#[derive(Debug, Clone, PartialEq, Eq)]
pub enum FlushEffect {
    /// Read the whole hash at `key`.
    ReadHash { key: String },
    /// In one transaction of the relational store, add to the clicks of
    /// each short code its delta, and commit.
    ApplyUpdates { updates: Vec<ClickEvent> },
    /// Count `count` updates applied.
    CountUpdates { count: usize },
    /// Send `ops` to the cache as one atomic pipeline.
    Invalidate { ops: Vec<CacheOp> },
    /// Append one row per entry to the analytics store; a failure is only
    /// logged.
    MirrorAnalytics { rows: Vec<ClickEvent> },
    /// Count `count` rows appended.
    CountRows { count: usize },
    /// Delete the hash at `key`.
    DeleteHash { key: String },
    /// The flush has ended, well or badly.
    Finish { ok: bool },
}

/// A `FlushEffect` with its texts as sequences of characters.
pub enum FlushEffectView {
    ReadHash { key: Seq<char> },
    ApplyUpdates { updates: Seq<ClickEventView> },
    CountUpdates { count: int },
    Invalidate { ops: Seq<CacheOpView> },
    MirrorAnalytics { rows: Seq<ClickEventView> },
    CountRows { count: int },
    DeleteHash { key: Seq<char> },
    Finish { ok: bool },
}

impl View for FlushEffect {
    type V = FlushEffectView;

    open spec fn view(&self) -> FlushEffectView {
        match *self {
            FlushEffect::ReadHash { key } => FlushEffectView::ReadHash { key: key@ },
            FlushEffect::ApplyUpdates { updates } => FlushEffectView::ApplyUpdates {
                updates: clicks_view(updates@),
            },
            FlushEffect::CountUpdates { count } => FlushEffectView::CountUpdates {
                count: count as int,
            },
            FlushEffect::Invalidate { ops } => FlushEffectView::Invalidate { ops: ops_view(ops@) },
            FlushEffect::MirrorAnalytics { rows } => FlushEffectView::MirrorAnalytics {
                rows: clicks_view(rows@),
            },
            FlushEffect::CountRows { count } => FlushEffectView::CountRows { count: count as int },
            FlushEffect::DeleteHash { key } => FlushEffectView::DeleteHash { key: key@ },
            FlushEffect::Finish { ok } => FlushEffectView::Finish { ok },
        }
    }
}

/// The views of a list of effects, in order.
pub open spec fn flush_effects_view(effects: Seq<FlushEffect>) -> Seq<FlushEffectView> {
    effects.map_values(|e: FlushEffect| e@)
}

/// Where an interval flush stands.
#[derive(Debug, Clone, PartialEq, Eq)]
pub enum FlushState {
    /// Nothing has been done yet.
    Idle,
    /// The aggregate hash is being read.
    Reading,
    /// `plan` is being committed to the relational store.
    Committing { plan: Vec<ClickEvent> },
    /// `plan` is committed; the cache is being brought up to date.
    Invalidating { plan: Vec<ClickEvent> },
    /// The rows are on their way to the analytics store.
    Mirroring { rows: usize },
    /// The aggregate hash is being deleted.
    Clearing,
    /// The flush has ended.
    Done,
}

/// A `FlushState` with its texts as sequences of characters.
pub enum FlushStateView {
    Idle,
    Reading,
    Committing { plan: Seq<ClickEventView> },
    Invalidating { plan: Seq<ClickEventView> },
    Mirroring { rows: int },
    Clearing,
    Done,
}

impl View for FlushState {
    type V = FlushStateView;

    open spec fn view(&self) -> FlushStateView {
        match *self {
            FlushState::Idle => FlushStateView::Idle,
            FlushState::Reading => FlushStateView::Reading,
            FlushState::Committing { plan } => FlushStateView::Committing {
                plan: clicks_view(plan@),
            },
            FlushState::Invalidating { plan } => FlushStateView::Invalidating {
                plan: clicks_view(plan@),
            },
            FlushState::Mirroring { rows } => FlushStateView::Mirroring { rows: rows as int },
            FlushState::Clearing => FlushStateView::Clearing,
            FlushState::Done => FlushStateView::Done,
        }
    }
}

/// What an interval flush is told.
#[derive(Debug, Clone, PartialEq, Eq)]
pub enum FlushEvent {
    /// The flush is due.
    Begin,
    /// The fields of the aggregate hash, or none where reading failed.
    HashRead(Option<Vec<HashField>>),
    /// Whether the transaction committed.
    Committed(bool),
    /// Whether the cache took the pipeline.
    Invalidated(bool),
    /// Whether the analytics store took the rows.
    Mirrored(bool),
    /// Whether the aggregate hash was deleted.
    Cleared(bool),
}

/// A `FlushEvent` with its texts as sequences of characters.
pub enum FlushEventView {
    Begin,
    HashRead(Option<Seq<HashFieldView>>),
    Committed(bool),
    Invalidated(bool),
    Mirrored(bool),
    Cleared(bool),
}

impl View for FlushEvent {
    type V = FlushEventView;

    open spec fn view(&self) -> FlushEventView {
        match *self {
            FlushEvent::Begin => FlushEventView::Begin,
            FlushEvent::HashRead(raw) => FlushEventView::HashRead(
                match raw {
                    Some(fields) => Some(fields_view(fields@)),
                    None => None,
                },
            ),
            FlushEvent::Committed(ok) => FlushEventView::Committed(ok),
            FlushEvent::Invalidated(ok) => FlushEventView::Invalidated(ok),
            FlushEvent::Mirrored(ok) => FlushEventView::Mirrored(ok),
            FlushEvent::Cleared(ok) => FlushEventView::Cleared(ok),
        }
    }
}

/// The settings that an interval flush reads.
pub struct FlushSettings {
    pub agg_key: Seq<char>,
    pub buffer_prefix: Seq<char>,
}

/// What an interval flush reads of `config`.
pub open spec fn flush_settings(config: &IngestConfig) -> FlushSettings {
    FlushSettings {
        agg_key: config.ingestion_agg_key_prefix@ + ":"@ + config.ingestion_consumer_name@,
        buffer_prefix: config.click_buffer_key_prefix@,
    }
}

/// One step of an interval flush.
///
/// The aggregate hash is read; an empty one ends the flush. Its deltas above
/// zero are committed to the relational store in one transaction. Only after
/// the commit are the counters of unflushed clicks lowered and the cached
/// records deleted, in one atomic pipeline; then the deltas are mirrored to
/// the analytics store, whose failure does not matter; then the aggregate
/// hash is deleted. A hash without a delta above zero is deleted at once.
/// Where reading, the commit or the pipeline fails, the flush ends badly and
/// the aggregate hash stays as it is. An event that the state does not wait
/// for changes nothing.
pub open spec fn flush_next(settings: FlushSettings, state: FlushStateView, event: FlushEventView) -> (
    FlushStateView,
    Seq<FlushEffectView>,
) {
    let failed = (FlushStateView::Done, seq![FlushEffectView::Finish { ok: false }]);
    match (state, event) {
        (FlushStateView::Idle, FlushEventView::Begin) => (
            FlushStateView::Reading,
            seq![FlushEffectView::ReadHash { key: settings.agg_key }],
        ),
        (FlushStateView::Reading, FlushEventView::HashRead(None)) => failed,
        (FlushStateView::Reading, FlushEventView::HashRead(Some(raw))) => {
            let plan = planned(raw);
            if raw.len() == 0 {
                (FlushStateView::Done, seq![FlushEffectView::Finish { ok: true }])
            } else if plan.len() == 0 {
                (
                    FlushStateView::Clearing,
                    seq![FlushEffectView::DeleteHash { key: settings.agg_key }],
                )
            } else {
                (
                    FlushStateView::Committing { plan },
                    seq![FlushEffectView::ApplyUpdates { updates: plan }],
                )
            }
        },
        (FlushStateView::Committing { plan }, FlushEventView::Committed(ok)) => if ok {
            (
                FlushStateView::Invalidating { plan },
                seq![
                    FlushEffectView::CountUpdates { count: plan.len() as int },
                    FlushEffectView::Invalidate { ops: invalidation(settings.buffer_prefix, plan) },
                ],
            )
        } else {
            failed
        },
        (FlushStateView::Invalidating { plan }, FlushEventView::Invalidated(ok)) => if ok {
            (
                FlushStateView::Mirroring { rows: plan.len() as int },
                seq![FlushEffectView::MirrorAnalytics { rows: plan }],
            )
        } else {
            failed
        },
        (FlushStateView::Mirroring { rows }, FlushEventView::Mirrored(ok)) => (
            FlushStateView::Clearing,
            seq![
                FlushEffectView::CountRows {
                    count: if ok {
                        rows
                    } else {
                        0
                    },
                },
                FlushEffectView::DeleteHash { key: settings.agg_key },
            ],
        ),
        (FlushStateView::Clearing, FlushEventView::Cleared(ok)) => (
            FlushStateView::Done,
            seq![FlushEffectView::Finish { ok }],
        ),
        _ => (state, Seq::empty()),
    }
}

fn flush_one(effect: FlushEffect) -> (effects: Vec<FlushEffect>)
    ensures
        flush_effects_view(effects@) == seq![effect@],
{
    let effects = vec![effect];
    assert(flush_effects_view(effects@) =~= seq![effect@]);
    effects
}

fn flush_two(first: FlushEffect, second: FlushEffect) -> (effects: Vec<FlushEffect>)
    ensures
        flush_effects_view(effects@) == seq![first@, second@],
{
    let effects = vec![first, second];
    assert(flush_effects_view(effects@) =~= seq![first@, second@]);
    effects
}

fn flush_none() -> (effects: Vec<FlushEffect>)
    ensures
        flush_effects_view(effects@) == Seq::<FlushEffectView>::empty(),
{
    let effects: Vec<FlushEffect> = Vec::new();
    assert(flush_effects_view(effects@) =~= Seq::<FlushEffectView>::empty());
    effects
}

/// Takes an interval flush one step further: from `state`, on `event`, to
/// the next state and the effects to carry out.
pub fn flush_redis_to_db(config: &IngestConfig, state: FlushState, event: FlushEvent) -> (next: (
    FlushState,
    Vec<FlushEffect>,
))
    ensures
        (next.0@, flush_effects_view(next.1@)) == flush_next(flush_settings(config), state@, event@),
{
    match state {
        FlushState::Idle => match event {
            FlushEvent::Begin => {
                let key = agg_hash_key(
                    config.ingestion_agg_key_prefix.as_str(),
                    config.ingestion_consumer_name.as_str(),
                );
                (FlushState::Reading, flush_one(FlushEffect::ReadHash { key }))
            },
            _ => (FlushState::Idle, flush_none()),
        },
        FlushState::Reading => match event {
            FlushEvent::HashRead(None) => (
                FlushState::Done,
                flush_one(FlushEffect::Finish { ok: false }),
            ),
            FlushEvent::HashRead(Some(raw)) => {
                if raw.len() == 0 {
                    return (FlushState::Done, flush_one(FlushEffect::Finish { ok: true }));
                }
                let aggregates = parse_hash(&raw);
                if aggregates.is_empty() {
                    let key = agg_hash_key(
                        config.ingestion_agg_key_prefix.as_str(),
                        config.ingestion_consumer_name.as_str(),
                    );
                    (FlushState::Clearing, flush_one(FlushEffect::DeleteHash { key }))
                } else {
                    let plan = aggregates.entries();
                    let updates = duplicate_clicks(&plan);
                    (
                        FlushState::Committing { plan },
                        flush_one(FlushEffect::ApplyUpdates { updates }),
                    )
                }
            },
            _ => (FlushState::Reading, flush_none()),
        },
        FlushState::Committing { plan } => match event {
            FlushEvent::Committed(ok) => if ok {
                let ops = invalidate_commands(config.click_buffer_key_prefix.as_str(), &plan);
                let count = plan.len();
                (
                    FlushState::Invalidating { plan },
                    flush_two(
                        FlushEffect::CountUpdates { count },
                        FlushEffect::Invalidate { ops },
                    ),
                )
            } else {
                (FlushState::Done, flush_one(FlushEffect::Finish { ok: false }))
            },
            _ => (FlushState::Committing { plan }, flush_none()),
        },
        FlushState::Invalidating { plan } => match event {
            FlushEvent::Invalidated(ok) => if ok {
                let rows = plan.len();
                (
                    FlushState::Mirroring { rows },
                    flush_one(FlushEffect::MirrorAnalytics { rows: plan }),
                )
            } else {
                (FlushState::Done, flush_one(FlushEffect::Finish { ok: false }))
            },
            _ => (FlushState::Invalidating { plan }, flush_none()),
        },
        FlushState::Mirroring { rows } => match event {
            FlushEvent::Mirrored(ok) => {
                let key = agg_hash_key(
                    config.ingestion_agg_key_prefix.as_str(),
                    config.ingestion_consumer_name.as_str(),
                );
                let count = if ok {
                    rows
                } else {
                    0
                };
                (
                    FlushState::Clearing,
                    flush_two(FlushEffect::CountRows { count }, FlushEffect::DeleteHash { key }),
                )
            },
            _ => (FlushState::Mirroring { rows }, flush_none()),
        },
        FlushState::Clearing => match event {
            FlushEvent::Cleared(ok) => (FlushState::Done, flush_one(FlushEffect::Finish { ok })),
            _ => (FlushState::Clearing, flush_none()),
        },
        FlushState::Done => (FlushState::Done, flush_none()),
    }
}

} // verus!
