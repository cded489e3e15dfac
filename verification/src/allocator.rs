//! The identifier allocator: blocks of identifiers cut from a counter that
//! two independent counter stores keep, one standing in when the other fails.

use crate::cache::join_with_colon;
use crate::enums::HealthStatus;
use crate::text::str_eq;
use vstd::prelude::*;
use vstd::string::*;

verus! {

/// Settings of the allocator.
#[derive(Debug, Clone, PartialEq, Eq)]
pub struct KeygenConfig {
    pub keygen_primary_redis_url: String,
    pub keygen_secondary_redis_url: String,
    pub id_allocator_key: String,
    pub id_block_size: i64,
}

/// Body of a request for a block: how many identifiers, for which stack.
#[derive(Debug, Clone, PartialEq, Eq)]
pub struct AllocateRequest {
    pub size: Option<i64>,
    pub stack: Option<String>,
}

/// One of the two counter stores.
#[derive(Debug, Clone, Copy, PartialEq, Eq, Structural)]
pub enum Backend {
    Primary,
    Secondary,
}

/// The answer to a request for a block.
#[derive(Debug, Clone, PartialEq, Eq)]
pub enum AllocateReply {
    /// The identifiers `start..=end` belong to the caller.
    Granted { start: i64, end: i64, stack: String },
    /// The request makes no sense.
    Invalid { detail: String },
    /// Neither counter store could serve the request.
    Unavailable { detail: String },
}

/// An `AllocateReply` with its texts as sequences of characters.
pub enum AllocateReplyView {
    Granted { start: int, end: int, stack: Seq<char> },
    Invalid { detail: Seq<char> },
    Unavailable { detail: Seq<char> },
}

impl View for AllocateReply {
    type V = AllocateReplyView;

    open spec fn view(&self) -> AllocateReplyView {
        match *self {
            AllocateReply::Granted { start, end, stack } => AllocateReplyView::Granted {
                start: start as int,
                end: end as int,
                stack: stack@,
            },
            AllocateReply::Invalid { detail } => AllocateReplyView::Invalid { detail: detail@ },
            AllocateReply::Unavailable { detail } => AllocateReplyView::Unavailable {
                detail: detail@,
            },
        }
    }
}

impl AllocateReply {
    /// The HTTP status that goes with the reply.
    pub fn status_code(&self) -> (code: u16)
        ensures
            code == match self@ {
                AllocateReplyView::Granted { .. } => 200int,
                AllocateReplyView::Invalid { .. } => 400int,
                AllocateReplyView::Unavailable { .. } => 503int,
            },
    {
        match self {
            AllocateReply::Granted { .. } => 200,
            AllocateReply::Invalid { .. } => 400,
            AllocateReply::Unavailable { .. } => 503,
        }
    }
}

/// One thing for the driver of the allocator to do.
#[derive(Debug, Clone, PartialEq, Eq)]
pub enum AllocateEffect {
    /// Add `amount` to the counter at `key` of `backend`, in one atomic
    /// step, and report the counter's new value.
    IncrBy { backend: Backend, key: String, amount: i64 },
    /// Answer the request.
    Reply(AllocateReply),
}

/// An `AllocateEffect` with its texts as sequences of characters.
pub enum AllocateEffectView {
    IncrBy { backend: Backend, key: Seq<char>, amount: int },
    Reply(AllocateReplyView),
}

impl View for AllocateEffect {
    type V = AllocateEffectView;

    open spec fn view(&self) -> AllocateEffectView {
        match *self {
            AllocateEffect::IncrBy { backend, key, amount } => AllocateEffectView::IncrBy {
                backend,
                key: key@,
                amount: amount as int,
            },
            AllocateEffect::Reply(reply) => AllocateEffectView::Reply(reply@),
        }
    }
}

/// Where a request for a block stands.
#[derive(Debug, Clone, PartialEq, Eq)]
pub enum AllocateState {
    /// Nothing has been asked yet.
    Idle,
    /// The counter at `key` of `backend` is being incremented by `size`.
    Asking { backend: Backend, key: String, size: i64, stack: String },
    /// The request has been answered.
    Done,
}

/// An `AllocateState` with its texts as sequences of characters.
pub enum AllocateStateView {
    Idle,
    Asking { backend: Backend, key: Seq<char>, size: int, stack: Seq<char> },
    Done,
}

impl View for AllocateState {
    type V = AllocateStateView;

    open spec fn view(&self) -> AllocateStateView {
        match *self {
            AllocateState::Idle => AllocateStateView::Idle,
            AllocateState::Asking { backend, key, size, stack } => AllocateStateView::Asking {
                backend,
                key: key@,
                size: size as int,
                stack: stack@,
            },
            AllocateState::Done => AllocateStateView::Done,
        }
    }
}

/// What a request for a block is told.
#[derive(Debug, Clone, PartialEq, Eq)]
pub enum AllocateEvent {
    /// The request arrived.
    Request(AllocateRequest),
    /// The counter's value after the increment, or none where the counter
    /// store failed.
    Counter(Option<i64>),
}

/// An `AllocateEvent` with its texts as sequences of characters.
pub enum AllocateEventView {
    Request { size: Option<i64>, stack: Option<Seq<char>> },
    Counter(Option<i64>),
}

impl View for AllocateEvent {
    type V = AllocateEventView;

    open spec fn view(&self) -> AllocateEventView {
        match *self {
            AllocateEvent::Request(request) => AllocateEventView::Request {
                size: request.size,
                stack: match request.stack {
                    Some(stack) => Some(stack@),
                    None => None,
                },
            },
            AllocateEvent::Counter(value) => AllocateEventView::Counter(value),
        }
    }
}

/// The views of a list of effects, in order.
pub open spec fn allocate_effects_view(effects: Seq<AllocateEffect>) -> Seq<AllocateEffectView> {
    effects.map_values(|e: AllocateEffect| e@)
}

/// Whether `name` names a stack.
pub open spec fn is_stack_name(name: Seq<char>) -> bool {
    name == "primary_writers"@ || name == "secondary_writers"@
}

/// The block that an increment by `size` reserved when it left the counter
/// at `end_value`: the `size` identifiers up to and including `end_value`.
pub open spec fn block_of(end_value: int, size: int) -> (int, int) {
    (end_value - size + 1, end_value)
}

/// Whether `end_value` can be what a 64-bit counter holds after an
/// increment by `size`.
pub open spec fn is_counter_after(end_value: int, size: int) -> bool {
    i64::MIN <= end_value - size < i64::MAX
}

/// The detail shown when both counter stores failed for `stack`.
pub open spec fn unavailable_detail(stack: Seq<char>) -> Seq<char> {
    "key allocation backends unavailable for stack: "@ + stack
}

/// One step of a request for a block.
///
/// A request without a size asks for `default_size`, one without a stack
/// for the secondary writers. A size below 1 and an unknown stack are
/// refused. The counter of the stack, at `base_key`, a `:` and the stack's
/// name, is incremented by the size at the primary store; where that fails,
/// the same increment goes to the secondary store; where that fails too, the
/// answer is unavailable. The block granted ends at the counter's new value.
/// A reported value that no such increment can leave counts as a failure of
/// that store. An event that the state does not wait for changes nothing.
pub open spec fn allocate_next(
    default_size: int,
    base_key: Seq<char>,
    state: AllocateStateView,
    event: AllocateEventView,
) -> (AllocateStateView, Seq<AllocateEffectView>) {
    match (state, event) {
        (AllocateStateView::Idle, AllocateEventView::Request { size, stack }) => {
            let size = match size {
                Some(asked) => asked as int,
                None => default_size,
            };
            let stack = match stack {
                Some(asked) => asked,
                None => "secondary_writers"@,
            };
            let key = base_key + ":"@ + stack;
            if size <= 0 {
                (
                    AllocateStateView::Done,
                    seq![
                        AllocateEffectView::Reply(
                            AllocateReplyView::Invalid { detail: "size must be > 0"@ },
                        ),
                    ],
                )
            } else if !is_stack_name(stack) {
                (
                    AllocateStateView::Done,
                    seq![
                        AllocateEffectView::Reply(
                            AllocateReplyView::Invalid {
                                detail: "stack must be 'primary_writers' or 'secondary_writers'"@,
                            },
                        ),
                    ],
                )
            } else {
                (
                    AllocateStateView::Asking { backend: Backend::Primary, key, size, stack },
                    seq![AllocateEffectView::IncrBy { backend: Backend::Primary, key, amount: size }],
                )
            }
        },
        (
            AllocateStateView::Asking { backend, key, size, stack },
            AllocateEventView::Counter(value),
        ) => {
            if value is Some && is_counter_after(value->0 as int, size) {
                let block = block_of(value->0 as int, size);
                (
                    AllocateStateView::Done,
                    seq![
                        AllocateEffectView::Reply(
                            AllocateReplyView::Granted { start: block.0, end: block.1, stack },
                        ),
                    ],
                )
            } else if backend == Backend::Primary {
                (
                    AllocateStateView::Asking { backend: Backend::Secondary, key, size, stack },
                    seq![
                        AllocateEffectView::IncrBy { backend: Backend::Secondary, key, amount: size },
                    ],
                )
            } else {
                (
                    AllocateStateView::Done,
                    seq![
                        AllocateEffectView::Reply(
                            AllocateReplyView::Unavailable { detail: unavailable_detail(stack) },
                        ),
                    ],
                )
            }
        },
        _ => (state, Seq::empty()),
    }
}

fn only(effect: AllocateEffect) -> (effects: Vec<AllocateEffect>)
    ensures
        allocate_effects_view(effects@) == seq![effect@],
{
    let effects = vec![effect];
    assert(allocate_effects_view(effects@) =~= seq![effect@]);
    effects
}

fn none() -> (effects: Vec<AllocateEffect>)
    ensures
        allocate_effects_view(effects@) == Seq::<AllocateEffectView>::empty(),
{
    let effects: Vec<AllocateEffect> = Vec::new();
    assert(allocate_effects_view(effects@) =~= Seq::<AllocateEffectView>::empty());
    effects
}

fn invalid(detail: &str) -> (effects: Vec<AllocateEffect>)
    ensures
        allocate_effects_view(effects@) == seq![
            AllocateEffectView::Reply(AllocateReplyView::Invalid { detail: detail@ }),
        ],
{
    only(AllocateEffect::Reply(AllocateReply::Invalid { detail: String::from_str(detail) }))
}

/// The block that an increment by `size` reserved when it left the counter
/// at `end_value`, or none where no 64-bit counter holds `end_value` after
/// such an increment.
pub fn try_allocate(end_value: i64, size: i64) -> (block: Option<(i64, i64)>)
    ensures
        is_counter_after(end_value as int, size as int) ==> block == Some(
            ((end_value - size + 1) as i64, end_value),
        ),
        !is_counter_after(end_value as int, size as int) ==> block is None,
{
    let before: i128 = end_value as i128 - size as i128;
    if before < i64::MIN as i128 || before >= i64::MAX as i128 {
        None
    } else {
        Some(((before + 1) as i64, end_value))
    }
}

/// Takes a request for a block one step further: from `state`, on `event`,
/// to the next state and the effects to carry out.
pub fn allocate(config: &KeygenConfig, state: AllocateState, event: AllocateEvent) -> (next: (
    AllocateState,
    Vec<AllocateEffect>,
))
    ensures
        (next.0@, allocate_effects_view(next.1@)) == allocate_next(
            config.id_block_size as int,
            config.id_allocator_key@,
            state@,
            event@,
        ),
{
    match state {
        AllocateState::Idle => match event {
            AllocateEvent::Request(request) => {
                let size = match request.size {
                    Some(asked) => asked,
                    None => config.id_block_size,
                };
                let stack = match request.stack {
                    Some(asked) => asked,
                    None => String::from_str("secondary_writers"),
                };
                if size <= 0 {
                    (AllocateState::Done, invalid("size must be > 0"))
                } else if !(str_eq(stack.as_str(), "primary_writers") || str_eq(
                    stack.as_str(),
                    "secondary_writers",
                )) {
                    (
                        AllocateState::Done,
                        invalid("stack must be 'primary_writers' or 'secondary_writers'"),
                    )
                } else {
                    let key = join_with_colon(config.id_allocator_key.as_str(), stack.as_str());
                    let effect = AllocateEffect::IncrBy {
                        backend: Backend::Primary,
                        key: key.clone(),
                        amount: size,
                    };
                    (
                        AllocateState::Asking { backend: Backend::Primary, key, size, stack },
                        only(effect),
                    )
                }
            },
            _ => (AllocateState::Idle, none()),
        },
        AllocateState::Asking { backend, key, size, stack } => match event {
            AllocateEvent::Counter(value) => {
                let block = match value {
                    Some(end_value) => try_allocate(end_value, size),
                    None => None,
                };
                match block {
                    Some((start, end)) => (
                        AllocateState::Done,
                        only(AllocateEffect::Reply(AllocateReply::Granted { start, end, stack })),
                    ),
                    None => match backend {
                        Backend::Primary => {
                            let effect = AllocateEffect::IncrBy {
                                backend: Backend::Secondary,
                                key: key.clone(),
                                amount: size,
                            };
                            (
                                AllocateState::Asking {
                                    backend: Backend::Secondary,
                                    key,
                                    size,
                                    stack,
                                },
                                only(effect),
                            )
                        },
                        Backend::Secondary => {
                            let mut detail = String::from_str(
                                "key allocation backends unavailable for stack: ",
                            );
                            detail.append(stack.as_str());
                            (
                                AllocateState::Done,
                                only(AllocateEffect::Reply(AllocateReply::Unavailable { detail })),
                            )
                        },
                    },
                }
            },
            _ => (AllocateState::Asking { backend, key, size, stack }, none()),
        },
        AllocateState::Done => (AllocateState::Done, none()),
    }
}

/// Health of the allocator and of its two counter stores.
#[derive(Debug, Clone, Copy, PartialEq, Eq, Structural)]
pub struct KeygenHealth {
    pub status: HealthStatus,
    pub primary: HealthStatus,
    pub secondary: HealthStatus,
}

/// The health report of the allocator: each counter store is healthy iff it
/// answered its probe, and the allocator is healthy iff at least one is.
pub fn keygen_health(primary_ok: bool, secondary_ok: bool) -> (report: KeygenHealth)
    ensures
        report.primary == if primary_ok {
            HealthStatus::Healthy
        } else {
            HealthStatus::Unhealthy
        },
        report.secondary == if secondary_ok {
            HealthStatus::Healthy
        } else {
            HealthStatus::Unhealthy
        },
        report.status == if primary_ok || secondary_ok {
            HealthStatus::Healthy
        } else {
            HealthStatus::Unhealthy
        },
{
    KeygenHealth {
        status: HealthStatus::from_ok(primary_ok || secondary_ok),
        primary: HealthStatus::from_ok(primary_ok),
        secondary: HealthStatus::from_ok(secondary_ok),
    }
}

/// The counter's value after it was incremented by each of `sizes` in turn,
/// starting from `counter`.
pub open spec fn counter_after(counter: int, sizes: Seq<int>) -> int
    decreases sizes.len(),
{
    if sizes.len() == 0 {
        counter
    } else {
        counter_after(counter, sizes.drop_last()) + sizes.last()
    }
}

/// The block granted to the `i`-th of the requests that one counter store
/// served, in the order in which it served them, when they asked for `sizes`
/// and the counter stood at `counter` before.
pub open spec fn grant(counter: int, sizes: Seq<int>, i: int) -> (int, int) {
    block_of(counter_after(counter, sizes.take(i + 1)), sizes[i])
}

proof fn lemma_counter_after_prefix(counter: int, sizes: Seq<int>, i: int)
    requires
        0 <= i < sizes.len(),
    ensures
        counter_after(counter, sizes.take(i + 1)) == counter_after(counter, sizes.take(i))
            + sizes[i],
{
    assert(sizes.take(i + 1).drop_last() =~= sizes.take(i));
}

proof fn lemma_counter_after_grows(counter: int, sizes: Seq<int>, i: int, j: int)
    requires
        0 <= i <= j <= sizes.len(),
        forall|k: int| 0 <= k < sizes.len() ==> sizes[k] > 0,
    ensures
        counter_after(counter, sizes.take(i)) <= counter_after(counter, sizes.take(j)),
    decreases j - i,
{
    if i < j {
        lemma_counter_after_grows(counter, sizes, i, j - 1);
        lemma_counter_after_prefix(counter, sizes, j - 1);
    }
}

/// The blocks that one counter store grants to any number of requests, in
/// whatever order it comes to serve them, hold as many identifiers as were
/// asked for, follow one another without a gap, starting right after the
/// counter's first value and ending at its last, and no two of them share
/// an identifier.
pub proof fn lemma_grants_disjoint_and_contiguous(counter: int, sizes: Seq<int>)
    requires
        forall|k: int| 0 <= k < sizes.len() ==> sizes[k] > 0,
    ensures
        forall|i: int|
            0 <= i < sizes.len() ==> {
                let block = #[trigger] grant(counter, sizes, i);
                &&& block.0 <= block.1
                &&& block.1 - block.0 + 1 == sizes[i]
                &&& block.0 == counter_after(counter, sizes.take(i)) + 1
            },
        forall|i: int, j: int|
            0 <= i < j < sizes.len() ==> (#[trigger] grant(counter, sizes, i)).1 < (#[trigger] grant(
                counter,
                sizes,
                j,
            )).0,
        forall|i: int|
            0 <= i && i + 1 < sizes.len() ==> (#[trigger] grant(counter, sizes, i + 1)).0 == grant(
                counter,
                sizes,
                i,
            ).1 + 1,
        sizes.len() > 0 ==> grant(counter, sizes, 0).0 == counter + 1,
        sizes.len() > 0 ==> grant(counter, sizes, sizes.len() - 1).1 == counter_after(
            counter,
            sizes,
        ),
{
    assert forall|i: int| 0 <= i < sizes.len() implies {
        let block = #[trigger] grant(counter, sizes, i);
        &&& block.0 <= block.1
        &&& block.1 - block.0 + 1 == sizes[i]
        &&& block.0 == counter_after(counter, sizes.take(i)) + 1
    } by {
        lemma_counter_after_prefix(counter, sizes, i);
    }
    assert forall|i: int, j: int| 0 <= i < j < sizes.len() implies (#[trigger] grant(
        counter,
        sizes,
        i,
    )).1 < (#[trigger] grant(counter, sizes, j)).0 by {
        lemma_counter_after_prefix(counter, sizes, j);
        lemma_counter_after_grows(counter, sizes, i + 1, j);
    }
    assert forall|i: int| 0 <= i && i + 1 < sizes.len() implies (#[trigger] grant(
        counter,
        sizes,
        i + 1,
    )).0 == grant(counter, sizes, i).1 + 1 by {
        lemma_counter_after_prefix(counter, sizes, i + 1);
    }
    if sizes.len() > 0 {
        lemma_counter_after_prefix(counter, sizes, 0);
        assert(sizes.take(0) =~= Seq::<int>::empty());
        assert(sizes.take(sizes.len() as int) =~= sizes);
    }
}

/// Every identifier between the counter's first value and its last belongs
/// to one of the blocks granted.
pub proof fn lemma_grants_cover(counter: int, sizes: Seq<int>, id: int)
    requires
        forall|k: int| 0 <= k < sizes.len() ==> sizes[k] > 0,
        counter < id <= counter_after(counter, sizes),
    ensures
        exists|i: int|
            0 <= i < sizes.len() && (#[trigger] grant(counter, sizes, i)).0 <= id <= grant(
                counter,
                sizes,
                i,
            ).1,
    decreases sizes.len(),
{
    let last = sizes.len() - 1;
    assert(sizes.len() > 0);
    assert(sizes.take(sizes.len() as int) =~= sizes);
    assert(sizes.take(last) =~= sizes.drop_last());
    lemma_counter_after_prefix(counter, sizes, last);
    if id > counter_after(counter, sizes.drop_last()) {
        assert(grant(counter, sizes, last).0 <= id <= grant(counter, sizes, last).1);
    } else {
        let shorter = sizes.drop_last();
        lemma_grants_cover(counter, shorter, id);
        let i = choose|i: int|
            0 <= i < shorter.len() && (#[trigger] grant(counter, shorter, i)).0 <= id <= grant(
                counter,
                shorter,
                i,
            ).1;
        assert(shorter.take(i + 1) =~= sizes.take(i + 1));
        assert(grant(counter, sizes, i) == grant(counter, shorter, i));
    }
}

} // verus!
