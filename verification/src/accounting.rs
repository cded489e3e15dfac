//! What holds of the click accounting: clicks consumed are neither lost nor
//! made up on their way through the aggregate hash to the relational store,
//! stored clicks never go down, and the cache is brought up to date only
//! after a commit.

use crate::aggregates::{
    can_take, delta_of, distinct_codes, has_code, lemma_delta_of_absent, lemma_tally_add,
    tally_add, total_of,
};
use crate::ingestion::{
    buffer_commands, buffer_is_due, click_of, consume_effects, flush_next, ingest_next,
    invalidation, pending_with, planned, CacheOpView, FlushEffectView, FlushEventView,
    FlushSettings, FlushStateView, HashFieldView, HashIncrView, IngestEffectView, IngestSettings,
    IngestorView, PollEventView,
};
use crate::counting::{count_where, lemma_count_where_concat};
use crate::models::ClickEventView;
use crate::text::parse_decimal;
use vstd::prelude::*;

verus! {

/// The sum of the amounts that `commands` add to `field`.
pub open spec fn amount_for(commands: Seq<HashIncrView>, field: Seq<char>) -> int
    decreases commands.len(),
{
    if commands.len() == 0 {
        0
    } else {
        amount_for(commands.drop_last(), field) + if commands.last().field == field {
            commands.last().amount
        } else {
            0
        }
    }
}

/// The increments that `effects` send to the cache, in order.
pub open spec fn buffered(effects: Seq<IngestEffectView>) -> Seq<HashIncrView>
    decreases effects.len(),
{
    if effects.len() == 0 {
        Seq::empty()
    } else {
        buffered(effects.drop_last()) + match effects.last() {
            IngestEffectView::Buffer { commands, .. } => commands,
            _ => Seq::empty(),
        }
    }
}

/// The delta that consuming `event` adds for `code` to what is pending.
pub open spec fn consumed_delta(pending: Seq<ClickEventView>, event: PollEventView, code: Seq<char>) -> int {
    match click_of(event) {
        Some(click) => if click.short_code == code && can_take(
            pending,
            click.short_code,
            click.delta,
        ) {
            click.delta
        } else {
            0
        },
        None => 0,
    }
}

proof fn lemma_amount_for_concat(left: Seq<HashIncrView>, right: Seq<HashIncrView>, field: Seq<char>)
    ensures
        amount_for(left + right, field) == amount_for(left, field) + amount_for(right, field),
    decreases right.len(),
{
    if right.len() == 0 {
        assert(left + right =~= left);
    } else {
        assert((left + right).drop_last() =~= left + right.drop_last());
        lemma_amount_for_concat(left, right.drop_last(), field);
    }
}

proof fn lemma_buffered_concat(left: Seq<IngestEffectView>, right: Seq<IngestEffectView>)
    ensures
        buffered(left + right) == buffered(left) + buffered(right),
    decreases right.len(),
{
    if right.len() == 0 {
        assert(left + right =~= left);
        assert(buffered(left) + Seq::<HashIncrView>::empty() =~= buffered(left));
    } else {
        assert((left + right).drop_last() =~= left + right.drop_last());
        lemma_buffered_concat(left, right.drop_last());
        let tail = match right.last() {
            IngestEffectView::Buffer { commands, .. } => commands,
            _ => Seq::empty(),
        };
        assert((buffered(left) + buffered(right.drop_last())) + tail =~= buffered(left) + (buffered(
            right.drop_last(),
        ) + tail));
    }
}

proof fn lemma_buffered_none(effects: Seq<IngestEffectView>)
    requires
        forall|i: int| 0 <= i < effects.len() ==> !(#[trigger] effects[i] is Buffer),
    ensures
        buffered(effects) == Seq::<HashIncrView>::empty(),
    decreases effects.len(),
{
    if effects.len() > 0 {
        assert(!(effects[effects.len() - 1] is Buffer));
        assert forall|i: int| 0 <= i < effects.drop_last().len() implies !(
        #[trigger] effects.drop_last()[i] is Buffer) by {
            assert(!(effects[i] is Buffer));
        }
        lemma_buffered_none(effects.drop_last());
        assert(Seq::<HashIncrView>::empty() + Seq::<HashIncrView>::empty() =~= Seq::<
            HashIncrView,
        >::empty());
    }
}

/// The increments that buffer `entries` add, for each short code, the sum
/// of its deltas.
pub proof fn lemma_buffer_commands_amount(
    key: Seq<char>,
    entries: Seq<ClickEventView>,
    code: Seq<char>,
)
    ensures
        amount_for(buffer_commands(key, entries), code) == delta_of(entries, code),
    decreases entries.len(),
{
    if entries.len() > 0 {
        assert(buffer_commands(key, entries).drop_last() =~= buffer_commands(
            key,
            entries.drop_last(),
        ));
        lemma_buffer_commands_amount(key, entries.drop_last(), code);
    }
}

/// A turn of the ingestor's loop neither loses clicks nor makes any up: for
/// every short code, what it sends to the cache and what it leaves pending
/// add up to what was pending and what the turn consumed. It keeps the
/// pending short codes distinct.
pub proof fn lemma_poll_conserves_clicks(
    settings: IngestSettings,
    state: IngestorView,
    event: PollEventView,
    now_ms: int,
    code: Seq<char>,
)
    requires
        distinct_codes(state.pending),
    ensures
        ({
            let next = ingest_next(settings, state, event, now_ms);
            &&& distinct_codes(next.0.pending)
            &&& amount_for(buffered(next.1), code) + delta_of(next.0.pending, code) == delta_of(
                state.pending,
                code,
            ) + consumed_delta(state.pending, event, code)
        }),
{
    let next = ingest_next(settings, state, event, now_ms);
    if event is Flushed {
    } else {
        let consumed = pending_with(state.pending, event);
        if click_of(event) is Some {
            let click = click_of(event)->0;
            lemma_tally_add(state.pending, click.short_code, click.delta, code);
        }
        let first = consume_effects(state.pending, event);
        lemma_buffered_none(first);
        let buffering = buffer_is_due(settings.batch_size, consumed, event);
        let buffer: Seq<IngestEffectView> = if buffering {
            seq![
                IngestEffectView::Buffer {
                    commands: buffer_commands(settings.agg_key, consumed),
                    total: total_of(consumed),
                },
            ]
        } else {
            Seq::empty()
        };
        let flush: Seq<IngestEffectView> = if now_ms - state.last_flush_ms
            >= settings.flush_interval_ms {
            seq![IngestEffectView::Flush]
        } else {
            Seq::empty()
        };
        lemma_buffered_none(flush);
        lemma_buffered_concat(first + buffer, flush);
        lemma_buffered_concat(first, buffer);
        assert(next.1 == (first + buffer) + flush);
        assert(buffered(next.1) =~= buffered(buffer));
        if buffering {
            reveal_with_fuel(buffered, 2);
            assert(buffer.drop_last() =~= Seq::<IngestEffectView>::empty());
            assert(Seq::<HashIncrView>::empty() + buffer_commands(settings.agg_key, consumed)
                =~= buffer_commands(settings.agg_key, consumed));
            assert(buffered(buffer) =~= buffer_commands(settings.agg_key, consumed));
            lemma_buffer_commands_amount(settings.agg_key, consumed, code);
        }
    }
}

/// One poll: what it brought and when.
pub struct Poll {
    pub event: PollEventView,
    pub now_ms: int,
}

/// The ingestor and the effects, in order, after the turns `polls`.
pub open spec fn ingest_run(settings: IngestSettings, state: IngestorView, polls: Seq<Poll>) -> (
    IngestorView,
    Seq<IngestEffectView>,
)
    decreases polls.len(),
{
    if polls.len() == 0 {
        (state, Seq::empty())
    } else {
        let before = ingest_run(settings, state, polls.drop_last());
        let turn = ingest_next(settings, before.0, polls.last().event, polls.last().now_ms);
        (turn.0, before.1 + turn.1)
    }
}

/// The aggregate hash in the cache, as a mathematical value: a delta for
/// each short code that has one.
pub open spec fn hash_value(hash: Map<Seq<char>, int>, field: Seq<char>) -> int {
    if hash.dom().contains(field) {
        hash[field]
    } else {
        0
    }
}

/// The aggregate hash after `commands` reached it one by one.
pub open spec fn hash_after(hash: Map<Seq<char>, int>, commands: Seq<HashIncrView>) -> Map<
    Seq<char>,
    int,
>
    decreases commands.len(),
{
    if commands.len() == 0 {
        hash
    } else {
        let before = hash_after(hash, commands.drop_last());
        before.insert(
            commands.last().field,
            hash_value(before, commands.last().field) + commands.last().amount,
        )
    }
}

/// Increments raise each field of the aggregate hash by the sum of their
/// amounts for it.
pub proof fn lemma_hash_after_amount(
    hash: Map<Seq<char>, int>,
    commands: Seq<HashIncrView>,
    field: Seq<char>,
)
    ensures
        hash_value(hash_after(hash, commands), field) == hash_value(hash, field) + amount_for(
            commands,
            field,
        ),
    decreases commands.len(),
{
    if commands.len() > 0 {
        lemma_hash_after_amount(hash, commands.drop_last(), field);
    }
}

/// Whether every field of `raw` has its own name.
pub open spec fn distinct_fields(raw: Seq<HashFieldView>) -> bool {
    forall|i: int, j: int|
        0 <= i < j < raw.len() ==> (#[trigger] raw[i]).field != (#[trigger] raw[j]).field
}

/// The delta above zero that `field` holds, or zero.
pub open spec fn positive_delta(field: HashFieldView) -> int {
    match parse_decimal(field.value, true, i64::MIN as int, i64::MAX as int) {
        Some(delta) => if delta > 0 {
            delta
        } else {
            0
        },
        None => 0,
    }
}

/// The sum of the deltas above zero in `raw`.
pub open spec fn positive_total(raw: Seq<HashFieldView>) -> int
    decreases raw.len(),
{
    if raw.len() == 0 {
        0
    } else {
        positive_total(raw.drop_last()) + positive_delta(raw.last())
    }
}

/// The sum of the deltas above zero that `raw` holds for `code`.
pub open spec fn positive_for(raw: Seq<HashFieldView>, code: Seq<char>) -> int
    decreases raw.len(),
{
    if raw.len() == 0 {
        0
    } else {
        positive_for(raw.drop_last(), code) + if raw.last().field == code {
            positive_delta(raw.last())
        } else {
            0
        }
    }
}

proof fn lemma_positive_total_bounds(raw: Seq<HashFieldView>)
    ensures
        0 <= positive_total(raw),
    decreases raw.len(),
{
    if raw.len() > 0 {
        lemma_positive_total_bounds(raw.drop_last());
    }
}

proof fn lemma_positive_for_absent(raw: Seq<HashFieldView>, code: Seq<char>)
    requires
        forall|i: int| 0 <= i < raw.len() ==> (#[trigger] raw[i]).field != code,
    ensures
        positive_for(raw, code) == 0,
    decreases raw.len(),
{
    if raw.len() > 0 {
        assert(raw[raw.len() - 1].field != code);
        assert forall|i: int| 0 <= i < raw.drop_last().len() implies (
        #[trigger] raw.drop_last()[i]).field != code by {
            assert(raw[i].field != code);
        }
        lemma_positive_for_absent(raw.drop_last(), code);
    }
}

/// Every delta that a flush plans to commit is above zero, and no short
/// code is planned twice.
pub proof fn lemma_planned_is_positive(raw: Seq<HashFieldView>)
    ensures
        distinct_codes(planned(raw)),
        forall|i: int| 0 <= i < planned(raw).len() ==> (#[trigger] planned(raw)[i]).delta > 0,
        total_of(planned(raw)) >= 0,
    decreases raw.len(),
{
    if raw.len() > 0 {
        let before = planned(raw.drop_last());
        lemma_planned_is_positive(raw.drop_last());
        let field = raw.last().field;
        match parse_decimal(raw.last().value, true, i64::MIN as int, i64::MAX as int) {
            Some(delta) => {
                if delta > 0 && can_take(before, field, delta) {
                    lemma_tally_add(before, field, delta, field);
                    let after = tally_add(before, field, delta);
                    assert forall|i: int| 0 <= i < after.len() implies (#[trigger] after[i]).delta
                        > 0 by {
                        if has_code(before, field) {
                            assert(before[i].delta > 0);
                        } else if i < before.len() {
                            assert(before[i].delta > 0);
                        }
                    }
                }
            },
            None => {},
        }
    }
}

/// Where the fields of the aggregate hash have distinct names and its
/// deltas above zero add up within 64 bits, a flush plans for each short
/// code exactly the delta above zero that the hash holds for it.
pub proof fn lemma_planned_matches_hash(raw: Seq<HashFieldView>, code: Seq<char>)
    requires
        distinct_fields(raw),
        positive_total(raw) <= i64::MAX,
    ensures
        delta_of(planned(raw), code) == positive_for(raw, code),
        total_of(planned(raw)) == positive_total(raw),
        forall|other: Seq<char>|
            has_code(planned(raw), other) ==> exists|i: int|
                0 <= i < raw.len() && (#[trigger] raw[i]).field == other,
    decreases raw.len(),
{
    if raw.len() > 0 {
        let front = raw.drop_last();
        let before = planned(front);
        let field = raw.last().field;
        assert(distinct_fields(front)) by {
            assert forall|i: int, j: int| 0 <= i < j < front.len() implies (
            #[trigger] front[i]).field != (#[trigger] front[j]).field by {
                assert(raw[i].field != raw[j].field);
            }
        }
        lemma_positive_total_bounds(front);
        lemma_positive_total_bounds(raw);
        lemma_planned_matches_hash(front, code);
        lemma_planned_is_positive(front);
        assert(!has_code(before, field)) by {
            if has_code(before, field) {
                let i = choose|i: int| 0 <= i < front.len() && (#[trigger] front[i]).field == field;
                assert(raw[i].field != raw[raw.len() - 1].field);
            }
        }
        lemma_delta_of_absent(before, field);
        match parse_decimal(raw.last().value, true, i64::MIN as int, i64::MAX as int) {
            Some(delta) => {
                if delta > 0 {
                    assert(can_take(before, field, delta));
                    lemma_tally_add(before, field, delta, code);
                }
            },
            None => {},
        }
        assert forall|other: Seq<char>| has_code(planned(raw), other) implies exists|i: int|
            0 <= i < raw.len() && (#[trigger] raw[i]).field == other by {
            if has_code(before, other) {
                let i = choose|i: int| 0 <= i < front.len() && (#[trigger] front[i]).field == other;
                assert(raw[i].field == other);
            } else {
                let k = choose|k: int|
                    0 <= k < planned(raw).len() && (#[trigger] planned(raw)[k]).short_code == other;
                if k < before.len() {
                    assert(before[k].short_code == other);
                }
                assert(raw[raw.len() - 1].field == other);
            }
        }
    }
}

/// The clicks of the stored records after `updates` were applied one by
/// one: an update adds its delta to the record of its short code, and does
/// nothing where no record has that code.
pub open spec fn clicks_after(clicks: Map<Seq<char>, int>, updates: Seq<ClickEventView>) -> Map<
    Seq<char>,
    int,
>
    decreases updates.len(),
{
    if updates.len() == 0 {
        clicks
    } else {
        let before = clicks_after(clicks, updates.drop_last());
        let code = updates.last().short_code;
        if before.dom().contains(code) {
            before.insert(code, before[code] + updates.last().delta)
        } else {
            before
        }
    }
}

/// Applying updates changes no set of records, and raises the clicks of
/// each record by the sum of the deltas for its short code.
pub proof fn lemma_clicks_after(
    clicks: Map<Seq<char>, int>,
    updates: Seq<ClickEventView>,
    code: Seq<char>,
)
    ensures
        clicks_after(clicks, updates).dom() == clicks.dom(),
        clicks.dom().contains(code) ==> clicks_after(clicks, updates)[code] == clicks[code]
            + delta_of(updates, code),
    decreases updates.len(),
{
    if updates.len() > 0 {
        lemma_clicks_after(clicks, updates.drop_last(), code);
        let before = clicks_after(clicks, updates.drop_last());
        let touched = updates.last().short_code;
        if before.dom().contains(touched) {
            assert(before.insert(touched, before[touched] + updates.last().delta).dom()
                =~= before.dom());
        }
    }
}

proof fn lemma_delta_of_nonnegative(updates: Seq<ClickEventView>, code: Seq<char>)
    requires
        forall|i: int| 0 <= i < updates.len() ==> (#[trigger] updates[i]).delta > 0,
    ensures
        delta_of(updates, code) >= 0,
    decreases updates.len(),
{
    if updates.len() > 0 {
        assert(updates[updates.len() - 1].delta > 0);
        assert forall|i: int| 0 <= i < updates.drop_last().len() implies (
        #[trigger] updates.drop_last()[i]).delta > 0 by {
            assert(updates[i].delta > 0);
        }
        lemma_delta_of_nonnegative(updates.drop_last(), code);
    }
}

/// A flush never lowers the clicks of a record. Committing the same plan
/// again, as happens when the ingestor stops between the commit and the
/// deletion of the aggregate hash and starts anew, leaves every record with
/// at least the clicks it had after the first commit.
pub proof fn lemma_clicks_never_go_down(
    clicks: Map<Seq<char>, int>,
    raw: Seq<HashFieldView>,
    code: Seq<char>,
)
    requires
        clicks.dom().contains(code),
    ensures
        ({
            let once = clicks_after(clicks, planned(raw));
            let twice = clicks_after(once, planned(raw));
            &&& once.dom().contains(code) && twice.dom().contains(code)
            &&& clicks[code] <= once[code] <= twice[code]
            &&& once[code] == clicks[code] + delta_of(planned(raw), code)
        }),
{
    let plan = planned(raw);
    let once = clicks_after(clicks, plan);
    lemma_planned_is_positive(raw);
    lemma_delta_of_nonnegative(plan, code);
    lemma_clicks_after(clicks, plan, code);
    lemma_clicks_after(once, plan, code);
}

/// Whether a command deletes the cached record of `code`.
pub open spec fn deletes_record(op: CacheOpView, code: Seq<char>) -> bool {
    op == (CacheOpView::Delete { key: "url:"@ + code })
}

/// The pipeline that follows a commit deletes the cached record of every
/// short code whose clicks the commit advanced, and lowers its counter of
/// unflushed clicks by the delta committed.
pub proof fn lemma_invalidation_covers_plan(buffer_prefix: Seq<char>, plan: Seq<ClickEventView>, at: int)
    requires
        0 <= at < plan.len(),
    ensures
        invalidation(buffer_prefix, plan).len() == 2 * plan.len(),
        invalidation(buffer_prefix, plan)[2 * at] == (CacheOpView::DecrBy {
            key: buffer_prefix + ":"@ + plan[at].short_code,
            amount: plan[at].delta,
        }),
        deletes_record(invalidation(buffer_prefix, plan)[2 * at + 1], plan[at].short_code),
{
    assert((2 * at) % 2 == 0 && (2 * at) / 2 == at);
    assert((2 * at + 1) % 2 == 1 && (2 * at + 1) / 2 == at);
}

/// The state and the effects, in order, after an interval flush has been
/// told `events` one by one.
pub open spec fn flush_run(settings: FlushSettings, state: FlushStateView, events: Seq<FlushEventView>) -> (
    FlushStateView,
    Seq<FlushEffectView>,
)
    decreases events.len(),
{
    if events.len() == 0 {
        (state, Seq::empty())
    } else {
        let before = flush_run(settings, state, events.drop_last());
        let step = flush_next(settings, before.0, events.last());
        (step.0, before.1 + step.1)
    }
}

/// Whether an effect is one that only a commit allows: bringing the cache
/// up to date, mirroring the deltas, counting them as applied.
pub open spec fn follows_commit(effect: FlushEffectView) -> bool {
    effect is Invalidate || effect is MirrorAnalytics || effect is CountUpdates
        || effect is CountRows
}

/// Whether an effect deletes the aggregate hash.
pub open spec fn is_hash_delete(effect: FlushEffectView) -> bool {
    effect is DeleteHash
}

/// Whether an effect asks for a commit.
pub open spec fn is_commit_request(effect: FlushEffectView) -> bool {
    effect is ApplyUpdates
}

/// Whether no event of `events` reports a commit that succeeded.
pub open spec fn no_commit_succeeded(events: Seq<FlushEventView>) -> bool {
    forall|i: int| 0 <= i < events.len() ==> #[trigger] events[i] != FlushEventView::Committed(true)
}

/// A flush that waits for its commit, or has ended, and is not told that
/// the commit succeeded, leaves the aggregate hash and the cache alone: it
/// deletes nothing and lowers no counter, so that the same deltas are
/// there for the next flush.
pub proof fn lemma_failed_commit_keeps_hash(
    settings: FlushSettings,
    state: FlushStateView,
    events: Seq<FlushEventView>,
)
    requires
        state is Committing || state is Done,
        no_commit_succeeded(events),
    ensures
        ({
            let run = flush_run(settings, state, events);
            &&& run.0 is Done || run.0 == state
            &&& count_where(run.1, |e: FlushEffectView| is_hash_delete(e)) == 0
            &&& count_where(run.1, |e: FlushEffectView| follows_commit(e)) == 0
            &&& count_where(run.1, |e: FlushEffectView| is_commit_request(e)) == 0
        }),
    decreases events.len(),
{
    if events.len() > 0 {
        let front = events.drop_last();
        assert(no_commit_succeeded(front)) by {
            assert forall|i: int| 0 <= i < front.len() implies #[trigger] front[i]
                != FlushEventView::Committed(true) by {
                assert(front[i] == events[i]);
            }
        }
        lemma_failed_commit_keeps_hash(settings, state, front);
        let before = flush_run(settings, state, front);
        let step = flush_next(settings, before.0, events.last());
        assert(events[events.len() - 1] != FlushEventView::Committed(true));
        reveal_with_fuel(count_where, 3);
        lemma_count_where_concat(before.1, step.1, |e: FlushEffectView| is_hash_delete(e));
        lemma_count_where_concat(before.1, step.1, |e: FlushEffectView| follows_commit(e));
        lemma_count_where_concat(before.1, step.1, |e: FlushEffectView| is_commit_request(e));
    }
}

/// However a flush is driven from its start, as long as it is not told
/// that a commit succeeded it does nothing that only a commit allows, and
/// it deletes the aggregate hash only where it found nothing to commit:
/// never after it asked for a commit.
pub proof fn lemma_cache_follows_commit(settings: FlushSettings, events: Seq<FlushEventView>)
    requires
        no_commit_succeeded(events),
    ensures
        ({
            let run = flush_run(settings, FlushStateView::Idle, events);
            &&& count_where(run.1, |e: FlushEffectView| follows_commit(e)) == 0
            &&& count_where(run.1, |e: FlushEffectView| is_hash_delete(e)) + count_where(
                run.1,
                |e: FlushEffectView| is_commit_request(e),
            ) <= 1
        }),
{
    lemma_flush_before_commit(settings, events);
}

/// How many of asking for a commit and deleting the aggregate hash a flush
/// that has no commit behind it may still do.
pub open spec fn commit_or_delete_left(state: FlushStateView) -> nat {
    if state is Idle || state is Reading {
        1
    } else {
        0
    }
}

proof fn lemma_flush_before_commit(settings: FlushSettings, events: Seq<FlushEventView>)
    requires
        no_commit_succeeded(events),
    ensures
        ({
            let run = flush_run(settings, FlushStateView::Idle, events);
            &&& run.0 is Idle || run.0 is Reading || run.0 is Committing || run.0 is Clearing
                || run.0 is Done
            &&& count_where(run.1, |e: FlushEffectView| follows_commit(e)) == 0
            &&& count_where(run.1, |e: FlushEffectView| is_hash_delete(e)) + count_where(
                run.1,
                |e: FlushEffectView| is_commit_request(e),
            ) + commit_or_delete_left(run.0) <= 1
        }),
    decreases events.len(),
{
    reveal_with_fuel(count_where, 3);
    if events.len() > 0 {
        let front = events.drop_last();
        assert(no_commit_succeeded(front)) by {
            assert forall|i: int| 0 <= i < front.len() implies #[trigger] front[i]
                != FlushEventView::Committed(true) by {
                assert(front[i] == events[i]);
            }
        }
        lemma_flush_before_commit(settings, front);
        let before = flush_run(settings, FlushStateView::Idle, front);
        let step = flush_next(settings, before.0, events.last());
        assert(events[events.len() - 1] != FlushEventView::Committed(true));
        lemma_count_where_concat(before.1, step.1, |e: FlushEffectView| is_hash_delete(e));
        lemma_count_where_concat(before.1, step.1, |e: FlushEffectView| follows_commit(e));
        lemma_count_where_concat(before.1, step.1, |e: FlushEffectView| is_commit_request(e));
    }
}

/// A flush brings the cache up to date only in answer to a commit that
/// succeeded, and then for exactly the deltas committed.
pub proof fn lemma_invalidate_answers_commit(
    settings: FlushSettings,
    state: FlushStateView,
    event: FlushEventView,
    at: int,
)
    requires
        0 <= at < flush_next(settings, state, event).1.len(),
        flush_next(settings, state, event).1[at] is Invalidate,
    ensures
        state is Committing,
        event == FlushEventView::Committed(true),
        flush_next(settings, state, event).1[at] == (FlushEffectView::Invalidate {
            ops: invalidation(settings.buffer_prefix, state->Committing_plan),
        }),
{
}

/// Whether every one of `polls` brought one click on `code`.
pub open spec fn clicks_on(polls: Seq<Poll>, code: Seq<char>) -> bool {
    forall|i: int|
        0 <= i < polls.len() ==> (#[trigger] polls[i]).event == PollEventView::Click(
            ClickEventView { short_code: code, delta: 1 },
        )
}

/// Whether `raw` is the aggregate hash `hash` as the cache returns it: each
/// field once, its value the decimal text of the delta.
pub open spec fn reads_hash(raw: Seq<HashFieldView>, hash: Map<Seq<char>, int>) -> bool {
    &&& distinct_fields(raw)
    &&& forall|i: int|
        0 <= i < raw.len() ==> hash.dom().contains((#[trigger] raw[i]).field) && parse_decimal(
            raw[i].value,
            true,
            i64::MIN as int,
            i64::MAX as int,
        ) == Some(hash[raw[i].field])
    &&& forall|field: Seq<char>| #[trigger]
        hash.dom().contains(field) ==> exists|i: int|
            0 <= i < raw.len() && (#[trigger] raw[i]).field == field
}

proof fn lemma_positive_for_entry(raw: Seq<HashFieldView>, at: int)
    requires
        distinct_fields(raw),
        0 <= at < raw.len(),
    ensures
        positive_for(raw, raw[at].field) == positive_delta(raw[at]),
    decreases raw.len(),
{
    let code = raw[at].field;
    let front = raw.drop_last();
    if at == raw.len() - 1 {
        assert forall|i: int| 0 <= i < front.len() implies (#[trigger] front[i]).field != code by {
            assert(raw[i].field != raw[at].field);
        }
        lemma_positive_for_absent(front, code);
    } else {
        assert(raw[at].field != raw[raw.len() - 1].field);
        assert(front[at] == raw[at]);
        assert(distinct_fields(front)) by {
            assert forall|i: int, j: int| 0 <= i < j < front.len() implies (
            #[trigger] front[i]).field != (#[trigger] front[j]).field by {
                assert(raw[i].field != raw[j].field);
            }
        }
        lemma_positive_for_entry(front, at);
    }
}

proof fn lemma_clicks_reach_buffer(
    settings: IngestSettings,
    start_ms: int,
    polls: Seq<Poll>,
    code: Seq<char>,
)
    requires
        clicks_on(polls, code),
        polls.len() <= i64::MAX,
    ensures
        ({
            let start = IngestorView { pending: Seq::empty(), last_flush_ms: start_ms };
            let run = ingest_run(settings, start, polls);
            &&& distinct_codes(run.0.pending)
            &&& amount_for(buffered(run.1), code) + delta_of(run.0.pending, code) == polls.len()
            &&& amount_for(buffered(run.1), code) >= 0
            &&& delta_of(run.0.pending, code) >= 0
            &&& total_of(run.0.pending) == delta_of(run.0.pending, code)
        }),
    decreases polls.len(),
{
    let start = IngestorView { pending: Seq::empty(), last_flush_ms: start_ms };
    if polls.len() > 0 {
        let front = polls.drop_last();
        assert(clicks_on(front, code)) by {
            assert forall|i: int| 0 <= i < front.len() implies (#[trigger] front[i]).event
                == PollEventView::Click(ClickEventView { short_code: code, delta: 1 }) by {
                assert(front[i] == polls[i]);
            }
        }
        lemma_clicks_reach_buffer(settings, start_ms, front, code);
        let before = ingest_run(settings, start, front);
        let event = polls.last().event;
        assert(polls[polls.len() - 1].event == PollEventView::Click(
            ClickEventView { short_code: code, delta: 1 },
        ));
        let turn = ingest_next(settings, before.0, event, polls.last().now_ms);
        assert(can_take(before.0.pending, code, 1));
        lemma_poll_conserves_clicks(settings, before.0, event, polls.last().now_ms, code);
        lemma_tally_add(before.0.pending, code, 1, code);
        lemma_buffered_concat(before.1, turn.1);
        lemma_amount_for_concat(buffered(before.1), buffered(turn.1), code);
    }
}

/// Clicks are counted exactly. When the ingestor, with nothing pending,
/// consumes one event with delta 1 for each of any number of redirects to
/// `code`, then sees a poll time out, and its increments reach the aggregate
/// hash, the next flush that reads the hash back plans to raise the clicks of
/// `code` by what the hash held before plus exactly the number of redirects;
/// committed, that is what the clicks of `code` rise by.
pub proof fn lemma_clicks_counted_exactly(
    settings: IngestSettings,
    start_ms: int,
    polls: Seq<Poll>,
    quiet_ms: int,
    code: Seq<char>,
    hash: Map<Seq<char>, int>,
    raw: Seq<HashFieldView>,
    clicks: Map<Seq<char>, int>,
)
    requires
        clicks_on(polls, code),
        polls.len() <= i64::MAX,
        hash_value(hash, code) >= 0,
        clicks.dom().contains(code),
        positive_total(raw) <= i64::MAX,
        reads_hash(
            raw,
            hash_after(
                hash,
                buffered(
                    ingest_run(
                        settings,
                        IngestorView { pending: Seq::empty(), last_flush_ms: start_ms },
                        polls.push(Poll { event: PollEventView::Timeout, now_ms: quiet_ms }),
                    ).1,
                ),
            ),
        ),
    ensures
        ingest_run(
            settings,
            IngestorView { pending: Seq::empty(), last_flush_ms: start_ms },
            polls.push(Poll { event: PollEventView::Timeout, now_ms: quiet_ms }),
        ).0.pending.len() == 0,
        delta_of(planned(raw), code) == hash_value(hash, code) + polls.len(),
        clicks_after(clicks, planned(raw))[code] == clicks[code] + hash_value(hash, code)
            + polls.len(),
{
    let start = IngestorView { pending: Seq::empty(), last_flush_ms: start_ms };
    let quiet = Poll { event: PollEventView::Timeout, now_ms: quiet_ms };
    let all = polls.push(quiet);
    assert(all.drop_last() =~= polls);
    assert(all.last() == quiet);
    lemma_clicks_reach_buffer(settings, start_ms, polls, code);
    let before = ingest_run(settings, start, polls);
    let turn = ingest_next(settings, before.0, quiet.event, quiet_ms);
    let run = ingest_run(settings, start, all);
    assert(run.0 == turn.0 && run.1 == before.1 + turn.1);
    lemma_poll_conserves_clicks(settings, before.0, quiet.event, quiet_ms, code);
    lemma_buffered_concat(before.1, turn.1);
    lemma_amount_for_concat(buffered(before.1), buffered(turn.1), code);
    assert(run.0.pending.len() == 0);
    assert(amount_for(buffered(run.1), code) == polls.len());
    let after = hash_after(hash, buffered(run.1));
    lemma_hash_after_amount(hash, buffered(run.1), code);
    lemma_planned_matches_hash(raw, code);
    if after.dom().contains(code) {
        let at = choose|i: int| 0 <= i < raw.len() && (#[trigger] raw[i]).field == code;
        lemma_positive_for_entry(raw, at);
    } else {
        assert forall|i: int| 0 <= i < raw.len() implies (#[trigger] raw[i]).field != code by {
            assert(after.dom().contains(raw[i].field));
        }
        lemma_positive_for_absent(raw, code);
    }
    lemma_clicks_after(clicks, planned(raw), code);
}

} // verus!
