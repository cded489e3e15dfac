//! What holds of every run of the edge service's handlers.

use crate::codec::{lemma_short_code_injective, pow62, short_code_of};
use crate::counting::{count_where, lemma_count_where_concat};
use crate::effects::{Counter, EffectView, ReplyView};
use crate::handlers::{
    redirect_next, shorten_next, track_next, RedirectEventView, RedirectStateView,
    ShortenEventView, ShortenStateView, TrackEventView, TrackSettings, TrackStateView,
};
use crate::keygen::{blocks_are_fresh, id_run, lemma_ids_never_repeat, IdEvent};
use crate::models::UrlResponseView;
use crate::text::decimal_text;
use vstd::prelude::*;

verus! {

/// Whether an effect is an insert into the relational store.
pub open spec fn is_insert(effect: EffectView) -> bool {
    effect is InsertUrl
}

/// Whether an effect answers the request.
pub open spec fn is_reply(effect: EffectView) -> bool {
    effect is Reply
}

/// Whether an effect redirects the client.
pub open spec fn is_redirect_reply(effect: EffectView) -> bool {
    effect matches EffectView::Reply(reply) && reply is Redirect
}

/// Whether an effect reads the cache.
pub open spec fn is_cache_read(effect: EffectView) -> bool {
    effect is ReadCache
}

/// Whether an effect reads the relational store.
pub open spec fn is_store_read(effect: EffectView) -> bool {
    effect is ReadUrl || effect is ProbeCode
}

/// Whether an effect starts a click-tracking task.
pub open spec fn is_track(effect: EffectView) -> bool {
    effect is TrackClick
}

/// Whether an effect waits for the event bus or writes a click anywhere.
pub open spec fn is_click_delivery(effect: EffectView) -> bool {
    effect is Publish || effect is AppendStream || effect is IncrBuffer || effect is ExpireBuffer
}

/// Whether an effect publishes on the event bus.
pub open spec fn is_publish(effect: EffectView) -> bool {
    effect is Publish
}

/// Whether an effect appends to the fallback stream.
pub open spec fn is_append(effect: EffectView) -> bool {
    effect is AppendStream
}

/// The state and the effects, in order, after a request to shorten has been
/// told `events` one by one.
pub open spec fn shorten_run(
    length: nat,
    base_url: Seq<char>,
    state: ShortenStateView,
    events: Seq<ShortenEventView>,
) -> (ShortenStateView, Seq<EffectView>)
    decreases events.len(),
{
    if events.len() == 0 {
        (state, Seq::empty())
    } else {
        let first = shorten_next(length, base_url, state, events[0]);
        let rest = shorten_run(length, base_url, first.0, events.drop_first());
        (rest.0, first.1 + rest.1)
    }
}

/// How many inserts a request to shorten may still ask for.
pub open spec fn inserts_left(state: ShortenStateView) -> nat {
    match state {
        ShortenStateView::Idle => 2,
        ShortenStateView::Probing { .. } => 1,
        ShortenStateView::AwaitingId { retry, .. } => if retry {
            1
        } else {
            2
        },
        ShortenStateView::Inserting { custom, retried, .. } => if custom || retried {
            0
        } else {
            1
        },
        ShortenStateView::Done => 0,
    }
}

/// How many answers a request to shorten may still give.
pub open spec fn replies_left(state: ShortenStateView) -> nat {
    if state is Done {
        0
    } else {
        1
    }
}

proof fn lemma_shorten_step_budget(
    length: nat,
    base_url: Seq<char>,
    state: ShortenStateView,
    event: ShortenEventView,
)
    ensures
        ({
            let next = shorten_next(length, base_url, state, event);
            &&& count_where(next.1, |e: EffectView| is_insert(e)) + inserts_left(next.0)
                <= inserts_left(state)
            &&& count_where(next.1, |e: EffectView| is_reply(e)) + replies_left(next.0)
                <= replies_left(state)
        }),
{
    reveal_with_fuel(count_where, 6);
}

/// However a request to shorten is driven, it asks for at most two inserts
/// (the second only after a generated code collided) and answers at most once.
pub proof fn lemma_shorten_inserts_twice_at_most(
    length: nat,
    base_url: Seq<char>,
    state: ShortenStateView,
    events: Seq<ShortenEventView>,
)
    ensures
        count_where(shorten_run(length, base_url, state, events).1, |e: EffectView| is_insert(e))
            <= inserts_left(state) <= 2,
        count_where(shorten_run(length, base_url, state, events).1, |e: EffectView| is_reply(e))
            <= replies_left(state) <= 1,
    decreases events.len(),
{
    if events.len() > 0 {
        let first = shorten_next(length, base_url, state, events[0]);
        let rest = shorten_run(length, base_url, first.0, events.drop_first());
        lemma_shorten_step_budget(length, base_url, state, events[0]);
        lemma_shorten_inserts_twice_at_most(length, base_url, first.0, events.drop_first());
        lemma_count_where_concat(first.1, rest.1, |e: EffectView| is_insert(e));
        lemma_count_where_concat(first.1, rest.1, |e: EffectView| is_reply(e));
    }
}

/// One step of some request to shorten: the state it was in and the event
/// it was told.
pub struct ShortenStep {
    pub state: ShortenStateView,
    pub event: ShortenEventView,
}

/// The short code that the relational store took in at `step`, if it took
/// one in.
pub open spec fn stored_code(step: ShortenStep) -> Option<Seq<char>> {
    match (step.state, step.event) {
        (ShortenStateView::Inserting { .. }, ShortenEventView::Stored(record)) => Some(
            record.short_code,
        ),
        _ => None,
    }
}

/// The short codes in the relational store after `steps`, taken by any
/// number of requests in the order in which the store answered, when it held
/// `codes` before.
pub open spec fn codes_after(codes: Set<Seq<char>>, steps: Seq<ShortenStep>) -> Set<Seq<char>>
    decreases steps.len(),
{
    if steps.len() == 0 {
        codes
    } else {
        let before = codes_after(codes, steps.drop_last());
        match stored_code(steps.last()) {
            Some(code) => before.insert(code),
            None => before,
        }
    }
}

/// Whether the relational store kept its short codes unique throughout
/// `steps`: it reported a record as stored only under the short code that was
/// asked for, and only when no record had that code.
pub open spec fn store_kept_codes_unique(codes: Set<Seq<char>>, steps: Seq<ShortenStep>) -> bool {
    forall|i: int|
        0 <= i < steps.len() ==> match (#[trigger] steps[i].state, steps[i].event) {
            (ShortenStateView::Inserting { code, .. }, ShortenEventView::Stored(record)) => {
                &&& record.short_code == code
                &&& !codes_after(codes, steps.take(i)).contains(code)
            },
            _ => true,
        }
}

/// Whether `step` answers its request with the created record `response`.
pub open spec fn answers_created(
    length: nat,
    base_url: Seq<char>,
    step: ShortenStep,
    response: UrlResponseView,
) -> bool {
    shorten_next(length, base_url, step.state, step.event).1.contains(
        EffectView::Reply(ReplyView::Created(response)),
    )
}

/// A request to shorten answers with a created record only when the store
/// has just stored that record, and the answer carries the stored short code.
pub proof fn lemma_created_answer_is_stored_record(
    length: nat,
    base_url: Seq<char>,
    step: ShortenStep,
    response: UrlResponseView,
)
    requires
        answers_created(length, base_url, step, response),
    ensures
        step.state is Inserting,
        step.event is Stored,
        stored_code(step) == Some(response.short_code),
{
}

proof fn lemma_codes_grow(codes: Set<Seq<char>>, steps: Seq<ShortenStep>, i: int, j: int)
    requires
        0 <= i <= j <= steps.len(),
    ensures
        codes_after(codes, steps.take(i)).subset_of(codes_after(codes, steps.take(j))),
    decreases j - i,
{
    if i < j {
        lemma_codes_grow(codes, steps, i, j - 1);
        assert(steps.take(j).drop_last() =~= steps.take(j - 1));
    }
}

/// As long as the relational store keeps its short codes unique, no two
/// requests to shorten are answered with the same short code, in whatever
/// order their steps are taken.
pub proof fn lemma_created_codes_distinct(
    length: nat,
    base_url: Seq<char>,
    codes: Set<Seq<char>>,
    steps: Seq<ShortenStep>,
    i: int,
    j: int,
    first: UrlResponseView,
    second: UrlResponseView,
)
    requires
        store_kept_codes_unique(codes, steps),
        0 <= i < j < steps.len(),
        answers_created(length, base_url, steps[i], first),
        answers_created(length, base_url, steps[j], second),
    ensures
        first.short_code != second.short_code,
{
    lemma_created_answer_is_stored_record(length, base_url, steps[i], first);
    lemma_created_answer_is_stored_record(length, base_url, steps[j], second);
    assert(steps.take(i + 1).drop_last() =~= steps.take(i));
    assert(steps.take(i + 1).last() == steps[i]);
    assert(codes_after(codes, steps.take(i + 1)).contains(first.short_code));
    lemma_codes_grow(codes, steps, i + 1, j);
    assert(steps[j].state is Inserting);
}

/// The state and the effects, in order, after a request for a short code has
/// been told `events` one by one.
pub open spec fn redirect_run(state: RedirectStateView, events: Seq<RedirectEventView>) -> (
    RedirectStateView,
    Seq<EffectView>,
)
    decreases events.len(),
{
    if events.len() == 0 {
        (state, Seq::empty())
    } else {
        let first = redirect_next(state, events[0]);
        let rest = redirect_run(first.0, events.drop_first());
        (rest.0, first.1 + rest.1)
    }
}

/// How many reads of the cache a request for a short code may still ask for.
pub open spec fn cache_reads_left(state: RedirectStateView) -> nat {
    if state is Idle {
        1
    } else {
        0
    }
}

/// How many reads of the relational store a request for a short code may
/// still ask for.
pub open spec fn store_reads_left(state: RedirectStateView) -> nat {
    if state is Idle || state is ReadingCache {
        1
    } else {
        0
    }
}

proof fn lemma_redirect_step_budget(state: RedirectStateView, event: RedirectEventView)
    ensures
        ({
            let next = redirect_next(state, event);
            &&& count_where(next.1, |e: EffectView| is_cache_read(e)) + cache_reads_left(next.0)
                <= cache_reads_left(state)
            &&& count_where(next.1, |e: EffectView| is_store_read(e)) + store_reads_left(next.0)
                <= store_reads_left(state)
            &&& count_where(next.1, |e: EffectView| is_click_delivery(e)) == 0
            &&& count_where(next.1, |e: EffectView| is_track(e)) == count_where(
                next.1,
                |e: EffectView| is_redirect_reply(e),
            )
        }),
{
    reveal_with_fuel(count_where, 6);
}

/// However a request for a short code is driven, it reads the cache at most
/// once and the relational store at most once, never waits for the event bus
/// nor writes a click itself, and starts exactly one click-tracking task for
/// each redirect it answers with.
pub proof fn lemma_redirect_path_is_short(state: RedirectStateView, events: Seq<RedirectEventView>)
    ensures
        count_where(redirect_run(state, events).1, |e: EffectView| is_cache_read(e))
            <= cache_reads_left(state) <= 1,
        count_where(redirect_run(state, events).1, |e: EffectView| is_store_read(e))
            <= store_reads_left(state) <= 1,
        count_where(redirect_run(state, events).1, |e: EffectView| is_click_delivery(e)) == 0,
        count_where(redirect_run(state, events).1, |e: EffectView| is_track(e)) == count_where(
            redirect_run(state, events).1,
            |e: EffectView| is_redirect_reply(e),
        ),
    decreases events.len(),
{
    if events.len() > 0 {
        let first = redirect_next(state, events[0]);
        let rest = redirect_run(first.0, events.drop_first());
        lemma_redirect_step_budget(state, events[0]);
        lemma_redirect_path_is_short(first.0, events.drop_first());
        lemma_count_where_concat(first.1, rest.1, |e: EffectView| is_cache_read(e));
        lemma_count_where_concat(first.1, rest.1, |e: EffectView| is_store_read(e));
        lemma_count_where_concat(first.1, rest.1, |e: EffectView| is_click_delivery(e));
        lemma_count_where_concat(first.1, rest.1, |e: EffectView| is_track(e));
        lemma_count_where_concat(first.1, rest.1, |e: EffectView| is_redirect_reply(e));
    }
}

/// A request that misses the cache and finds its record in the relational
/// store fills the cache with that record, under the record's key, before it
/// redirects.
pub proof fn lemma_miss_fills_cache(code: Seq<char>, url: crate::models::UrlView)
    ensures
        ({
            let next = redirect_next(
                RedirectStateView::ReadingStore { code },
                RedirectEventView::Loaded(Some(url)),
            );
            &&& next.1[1] == (EffectView::WriteCache {
                key: "url:"@ + url.short_code,
                url,
                ttl_seconds: 3600,
            })
            &&& next.1[4] == EffectView::Reply(ReplyView::Redirect { location: url.original_url })
        }),
{
}

/// The state and the effects, in order, after the tracking of a click has
/// been told `events` one by one.
pub open spec fn track_run(
    settings: TrackSettings,
    state: TrackStateView,
    events: Seq<TrackEventView>,
) -> (TrackStateView, Seq<EffectView>)
    decreases events.len(),
{
    if events.len() == 0 {
        (state, Seq::empty())
    } else {
        let first = track_next(settings, state, events[0]);
        let rest = track_run(settings, first.0, events.drop_first());
        (rest.0, first.1 + rest.1)
    }
}

/// How many times the tracking of a click may still publish, or append to
/// the fallback stream.
pub open spec fn deliveries_left(state: TrackStateView) -> nat {
    if state is Done {
        0
    } else {
        1
    }
}

/// How many events the tracking of a click may still put on the bus.
pub open spec fn publishes_left(state: TrackStateView) -> nat {
    if state is Idle || state is Counting {
        1
    } else {
        0
    }
}

proof fn lemma_track_step_budget(settings: TrackSettings, state: TrackStateView, event: TrackEventView)
    ensures
        ({
            let next = track_next(settings, state, event);
            &&& count_where(next.1, |e: EffectView| is_publish(e)) + publishes_left(next.0)
                <= publishes_left(state)
            &&& count_where(next.1, |e: EffectView| is_append(e)) + deliveries_left(next.0)
                <= deliveries_left(state)
        }),
{
    reveal_with_fuel(count_where, 5);
    if state is Counting && event is Counted {
        let code = state->Counting_code;
        let publish = seq![
            EffectView::Count(Counter::CacheOps),
            EffectView::Publish {
                topic: settings.topic,
                key: code,
                event: crate::handlers::single_click(code),
                timeout_ms: 500,
            },
        ];
        let expire = seq![
            EffectView::ExpireBuffer {
                key: settings.buffer_prefix + ":"@ + code,
                ttl_seconds: settings.buffer_ttl_seconds,
            },
        ];
        lemma_count_where_concat(expire, publish, |e: EffectView| is_publish(e));
        lemma_count_where_concat(expire, publish, |e: EffectView| is_append(e));
    }
}

/// However the tracking of a click is driven, it publishes at most one event
/// and appends at most one entry to the fallback stream.
pub proof fn lemma_track_delivers_once_at_most(
    settings: TrackSettings,
    state: TrackStateView,
    events: Seq<TrackEventView>,
)
    ensures
        count_where(track_run(settings, state, events).1, |e: EffectView| is_publish(e))
            <= publishes_left(state) <= 1,
        count_where(track_run(settings, state, events).1, |e: EffectView| is_append(e))
            <= deliveries_left(state) <= 1,
    decreases events.len(),
{
    if events.len() > 0 {
        let first = track_next(settings, state, events[0]);
        let rest = track_run(settings, first.0, events.drop_first());
        lemma_track_step_budget(settings, state, events[0]);
        lemma_track_delivers_once_at_most(settings, first.0, events.drop_first());
        lemma_count_where_concat(first.1, rest.1, |e: EffectView| is_publish(e));
        lemma_count_where_concat(first.1, rest.1, |e: EffectView| is_append(e));
    }
}

/// The tracking of a click publishes exactly one event, keyed by the short
/// code and with delta 1. When the event bus does not take it, whatever the
/// counter said, exactly one entry goes to the fallback stream: the short
/// code with delta 1. When the bus takes it, none goes there.
pub proof fn lemma_fallback_keeps_click(
    settings: TrackSettings,
    code: Seq<char>,
    count: Option<i64>,
    accepted: bool,
)
    ensures
        ({
            let run = track_run(
                settings,
                TrackStateView::Idle,
                seq![
                    TrackEventView::Start { short_code: code },
                    TrackEventView::Counted(count),
                    TrackEventView::Published(accepted),
                ],
            );
            &&& run.0 is Done
            &&& count_where(run.1, |e: EffectView| is_publish(e)) == 1
            &&& run.1.contains(
                EffectView::Publish {
                    topic: settings.topic,
                    key: code,
                    event: crate::handlers::single_click(code),
                    timeout_ms: 500,
                },
            )
            &&& count_where(run.1, |e: EffectView| is_append(e)) == if accepted {
                0nat
            } else {
                1nat
            }
            &&& !accepted ==> run.1.last() == (EffectView::AppendStream {
                stream_key: settings.stream_key,
                short_code: code,
                delta: decimal_text(1),
            })
        }),
{
    let events = seq![
        TrackEventView::Start { short_code: code },
        TrackEventView::Counted(count),
        TrackEventView::Published(accepted),
    ];
    let one = track_next(settings, TrackStateView::Idle, events[0]);
    let two = track_next(settings, one.0, events[1]);
    let three = track_next(settings, two.0, events[2]);
    let tail1 = events.drop_first();
    let tail2 = tail1.drop_first();
    let tail3 = tail2.drop_first();
    assert(tail1[0] == events[1]);
    assert(tail2[0] == events[2]);
    assert(tail3.len() == 0);
    reveal_with_fuel(track_run, 4);
    let run = track_run(settings, TrackStateView::Idle, events);
    assert(run.1 == one.1 + (two.1 + (three.1 + Seq::<EffectView>::empty())));
    assert(three.1 + Seq::<EffectView>::empty() =~= three.1);
    lemma_track_step_budget(settings, TrackStateView::Idle, events[0]);
    lemma_track_step_budget(settings, one.0, events[1]);
    lemma_track_step_budget(settings, two.0, events[2]);
    reveal_with_fuel(count_where, 5);
    lemma_count_where_concat(two.1, three.1, |e: EffectView| is_publish(e));
    lemma_count_where_concat(one.1, two.1 + three.1, |e: EffectView| is_publish(e));
    lemma_count_where_concat(two.1, three.1, |e: EffectView| is_append(e));
    lemma_count_where_concat(one.1, two.1 + three.1, |e: EffectView| is_append(e));
    let publish = seq![
        EffectView::Count(Counter::CacheOps),
        EffectView::Publish {
            topic: settings.topic,
            key: code,
            event: crate::handlers::single_click(code),
            timeout_ms: 500,
        },
    ];
    let expire = seq![
        EffectView::ExpireBuffer {
            key: settings.buffer_prefix + ":"@ + code,
            ttl_seconds: settings.buffer_ttl_seconds,
        },
    ];
    lemma_count_where_concat(expire, publish, |e: EffectView| is_publish(e));
    lemma_count_where_concat(expire, publish, |e: EffectView| is_append(e));
    let index = one.1.len() + two.1.len() - 1;
    assert(two.1[two.1.len() - 1] == publish[1]);
    assert(run.1[index] == publish[1]);
}

/// Short codes minted from the allocator's identifiers are distinct by
/// themselves: as long as the blocks granted to a client are not empty and
/// share no identifier, and every identifier handed out is below
/// `62^length`, no two of them are written as the same short code of width
/// `length`.
pub proof fn lemma_minted_codes_distinct(
    url: Seq<char>,
    size: int,
    events: Seq<IdEvent>,
    length: nat,
    first: int,
    second: int,
)
    requires
        blocks_are_fresh(events),
        0 <= first < second < id_run(url, size, Seq::empty(), events).1.len(),
        forall|p: int|
            0 <= p < id_run(url, size, Seq::empty(), events).1.len() ==> 0 <= #[trigger] id_run(
                url,
                size,
                Seq::empty(),
                events,
            ).1[p] < pow62(length),
    ensures
        ({
            let issued = id_run(url, size, Seq::empty(), events).1;
            short_code_of(issued[first] as nat, length) != short_code_of(
                issued[second] as nat,
                length,
            )
        }),
{
    let issued = id_run(url, size, Seq::empty(), events).1;
    lemma_ids_never_repeat(url, size, events);
    assert(issued[first] != issued[second]);
    if short_code_of(issued[first] as nat, length) == short_code_of(issued[second] as nat, length) {
        lemma_short_code_injective(issued[first] as nat, issued[second] as nat, length);
    }
}

} // verus!
