//! The edge service's client of the identifier allocator: a block of
//! identifiers reserved ahead, handed out one at a time.

use crate::models::AllocateResponse;
use vstd::prelude::*;
use vstd::string::*;

verus! {

/// The stack under which the edge service asks for identifiers.
pub const EDGE_STACK: &'static str = "secondary_writers";

/// The identifiers `first..=last` in rising order; none where `last < first`.
pub open spec fn id_range(first: int, last: int) -> Seq<int> {
    if last < first {
        Seq::empty()
    } else {
        Seq::new((last - first + 1) as nat, |i: int| first + i)
    }
}

/// A block of reserved identifiers that are not handed out yet:
/// `current..=end`.
#[derive(Debug, Clone, Copy, PartialEq, Eq)]
struct IdBlock {
    current: i64,
    end: i64,
}

/// What the client is told.
#[derive(Debug, Clone, Copy, PartialEq, Eq, Structural)]
pub enum IdEvent {
    /// Somebody needs an identifier.
    Take,
    /// The allocator granted a block.
    Fetched(AllocateResponse),
    /// The allocator could not be reached, or refused.
    FetchFailed,
}

/// What the client answers.
#[derive(Debug, Clone, PartialEq, Eq)]
pub enum IdAction {
    /// This identifier is the caller's.
    Issued(i64),
    /// The block is used up: ask the allocator at `url` for `size`
    /// identifiers of `stack`, and come back with `Fetched` or `FetchFailed`.
    Fetch { url: String, size: i64, stack: String },
    /// No identifier can be had.
    Failed,
}

/// An `IdAction` with its texts as sequences of characters.
pub enum IdActionView {
    Issued(int),
    Fetch { url: Seq<char>, size: int, stack: Seq<char> },
    Failed,
}

impl View for IdAction {
    type V = IdActionView;

    open spec fn view(&self) -> IdActionView {
        match *self {
            IdAction::Issued(id) => IdActionView::Issued(id as int),
            IdAction::Fetch { url, size, stack } => IdActionView::Fetch {
                url: url@,
                size: size as int,
                stack: stack@,
            },
            IdAction::Failed => IdActionView::Failed,
        }
    }
}

/// The client of the allocator. One per replica; whoever shares it lets one
/// caller at a time talk to it, from `Take` to the identifier, so that
/// callers who find the block empty together cause one request.
#[derive(Debug, Clone, PartialEq, Eq)]
pub struct KeygenClient {
    keygen_url: String,
    id_block_size: i64,
    block: Option<IdBlock>,
}

impl View for KeygenClient {
    type V = Seq<int>;

    /// The reserved identifiers that are not handed out yet, next one first.
    closed spec fn view(&self) -> Seq<int> {
        match self.block {
            Some(block) => id_range(block.current as int, block.end as int),
            None => Seq::empty(),
        }
    }
}

/// What the client answers to `event` when it holds `reserved` and is set up
/// with `url` and `size`, and what it holds afterwards.
///
/// While identifiers are reserved, `Take` hands out the next one. When none
/// is, `Take` asks for a block. A granted block replaces what was reserved:
/// its first identifier is handed out at once and the others are kept.
pub open spec fn id_step(url: Seq<char>, size: int, reserved: Seq<int>, event: IdEvent) -> (
    Seq<int>,
    IdActionView,
) {
    match event {
        IdEvent::Take => if reserved.len() > 0 {
            (reserved.drop_first(), IdActionView::Issued(reserved[0]))
        } else {
            (
                reserved,
                IdActionView::Fetch { url: url + "/allocate"@, size, stack: "secondary_writers"@ },
            )
        },
        IdEvent::Fetched(block) => (
            id_range(block.start + 1, block.end as int),
            IdActionView::Issued(block.start as int),
        ),
        IdEvent::FetchFailed => (reserved, IdActionView::Failed),
    }
}

impl KeygenClient {
    /// The address of the allocator.
    pub closed spec fn url(&self) -> Seq<char> {
        self.keygen_url@
    }

    /// How many identifiers the client reserves at a time.
    pub closed spec fn block_size(&self) -> int {
        self.id_block_size as int
    }

    /// A client of the allocator at `keygen_url` that reserves
    /// `id_block_size` identifiers at a time and holds none yet.
    pub fn new(keygen_url: String, id_block_size: i64) -> (client: Self)
        ensures
            client@ == Seq::<int>::empty(),
            client.url() == keygen_url@,
            client.block_size() == id_block_size,
    {
        KeygenClient { keygen_url, id_block_size, block: None }
    }

    /// The address of the allocator.
    pub fn keygen_url(&self) -> (url: &str)
        ensures
            url@ == self.url(),
    {
        self.keygen_url.as_str()
    }

    /// How many identifiers the client reserves at a time.
    pub fn id_block_size(&self) -> (size: i64)
        ensures
            size == self.block_size(),
    {
        self.id_block_size
    }

    /// Whether no reserved identifier is left.
    pub fn is_exhausted(&self) -> (empty: bool)
        ensures
            empty == (self@.len() == 0),
    {
        match self.block {
            Some(block) => block.current > block.end,
            None => true,
        }
    }

    /// Takes the client one step further on `event`: hands out the next
    /// reserved identifier, asks for a block, or takes a granted block in.
    pub fn next_id(&mut self, event: IdEvent) -> (action: IdAction)
        ensures
            (final(self)@, action@) == id_step(
                old(self).url(),
                old(self).block_size(),
                old(self)@,
                event,
            ),
            final(self).url() == old(self).url(),
            final(self).block_size() == old(self).block_size(),
    {
        match event {
            IdEvent::Take => {
                match self.block {
                    Some(block) => {
                        if block.current < block.end {
                            self.block = Some(IdBlock { current: block.current + 1, end: block.end });
                            assert(self@ =~= old(self)@.drop_first());
                            return IdAction::Issued(block.current);
                        } else if block.current == block.end {
                            self.block = None;
                            assert(self@ =~= old(self)@.drop_first());
                            return IdAction::Issued(block.current);
                        }
                    },
                    None => {},
                }
                let mut url = self.keygen_url.clone();
                url.append("/allocate");
                IdAction::Fetch {
                    url,
                    size: self.id_block_size,
                    stack: String::from_str(EDGE_STACK),
                }
            },
            IdEvent::Fetched(granted) => {
                if granted.start < granted.end {
                    self.block = Some(IdBlock { current: granted.start + 1, end: granted.end });
                } else {
                    self.block = None;
                }
                IdAction::Issued(granted.start)
            },
            IdEvent::FetchFailed => IdAction::Failed,
        }
    }
}

/// What the client holds and the identifiers it has handed out, in order,
/// after it was told `events` one by one, when it held `reserved` before.
pub open spec fn id_run(url: Seq<char>, size: int, reserved: Seq<int>, events: Seq<IdEvent>) -> (
    Seq<int>,
    Seq<int>,
)
    decreases events.len(),
{
    if events.len() == 0 {
        (reserved, Seq::empty())
    } else {
        let before = id_run(url, size, reserved, events.drop_last());
        let step = id_step(url, size, before.0, events.last());
        (
            step.0,
            match step.1 {
                IdActionView::Issued(id) => before.1.push(id),
                _ => before.1,
            },
        )
    }
}

/// Whether the blocks granted in `events` are what the allocator promises:
/// none is empty, and no two of them share an identifier.
pub open spec fn blocks_are_fresh(events: Seq<IdEvent>) -> bool {
    &&& forall|i: int|
        0 <= i < events.len() ==> match #[trigger] events[i] {
            IdEvent::Fetched(block) => block.start <= block.end,
            _ => true,
        }
    &&& forall|i: int, j: int|
        0 <= i < j < events.len() ==> match (#[trigger] events[i], #[trigger] events[j]) {
            (IdEvent::Fetched(first), IdEvent::Fetched(second)) => first.end < second.start
                || second.end < first.start,
            _ => true,
        }
}

/// Whether one of the blocks granted in `events` holds `id`.
pub open spec fn granted(events: Seq<IdEvent>, id: int) -> bool {
    exists|i: int|
        0 <= i < events.len() && match #[trigger] events[i] {
            IdEvent::Fetched(block) => block.start <= id <= block.end,
            _ => false,
        }
}

proof fn lemma_id_run_invariant(url: Seq<char>, size: int, events: Seq<IdEvent>)
    requires
        blocks_are_fresh(events),
    ensures
        ({
            let run = id_run(url, size, Seq::empty(), events);
            &&& forall|p: int, q: int|
                0 <= p < q < run.0.len() ==> #[trigger] run.0[p] < #[trigger] run.0[q]
            &&& forall|p: int, q: int|
                0 <= p < q < run.1.len() ==> #[trigger] run.1[p] != #[trigger] run.1[q]
            &&& forall|p: int, q: int|
                0 <= p < run.1.len() && 0 <= q < run.0.len() ==> #[trigger] run.1[p]
                    != #[trigger] run.0[q]
            &&& forall|p: int| 0 <= p < run.1.len() ==> granted(events, #[trigger] run.1[p])
            &&& forall|q: int| 0 <= q < run.0.len() ==> granted(events, #[trigger] run.0[q])
        }),
    decreases events.len(),
{
    if events.len() > 0 {
        let front = events.drop_last();
        let last = events.len() - 1;
        assert(blocks_are_fresh(front)) by {
            assert forall|i: int| 0 <= i < front.len() implies match #[trigger] front[i] {
                IdEvent::Fetched(block) => block.start <= block.end,
                _ => true,
            } by {
                assert(front[i] == events[i]);
            }
            assert forall|i: int, j: int| 0 <= i < j < front.len() implies match (
                #[trigger] front[i],
                #[trigger] front[j],
            ) {
                (IdEvent::Fetched(first), IdEvent::Fetched(second)) => first.end < second.start
                    || second.end < first.start,
                _ => true,
            } by {
                assert(front[i] == events[i] && front[j] == events[j]);
            }
        }
        lemma_id_run_invariant(url, size, front);
        let before = id_run(url, size, Seq::empty(), front);
        let run = id_run(url, size, Seq::empty(), events);
        assert forall|id: int| granted(front, id) implies granted(events, id) by {
            let i = choose|i: int|
                0 <= i < front.len() && match #[trigger] front[i] {
                    IdEvent::Fetched(block) => block.start <= id <= block.end,
                    _ => false,
                };
            assert(events[i] == front[i]);
        }
        match events[last] {
            IdEvent::Take => {
                if before.0.len() > 0 {
                    assert forall|q: int| 0 <= q < run.0.len() implies run.0[q] == before.0[q
                        + 1] by {}
                    assert forall|p: int, q: int| 0 <= p < q < run.1.len() implies #[trigger] run.1[p]
                        != #[trigger] run.1[q] by {
                        if q == before.1.len() {
                            assert(before.1[p] != before.0[0]);
                        }
                    }
                    assert forall|p: int, q: int|
                        0 <= p < run.1.len() && 0 <= q < run.0.len() implies #[trigger] run.1[p]
                        != #[trigger] run.0[q] by {
                        if p == before.1.len() {
                            assert(before.0[0] < before.0[q + 1]);
                        } else {
                            assert(before.1[p] != before.0[q + 1]);
                        }
                    }
                    assert forall|p: int| 0 <= p < run.1.len() implies granted(
                        events,
                        #[trigger] run.1[p],
                    ) by {
                        if p == before.1.len() {
                            assert(granted(front, before.0[0]));
                        } else {
                            assert(granted(front, before.1[p]));
                        }
                    }
                    assert forall|q: int| 0 <= q < run.0.len() implies granted(
                        events,
                        #[trigger] run.0[q],
                    ) by {
                        assert(granted(front, before.0[q + 1]));
                    }
                } else {
                    assert forall|p: int| 0 <= p < run.1.len() implies granted(
                        events,
                        #[trigger] run.1[p],
                    ) by {
                        assert(granted(front, before.1[p]));
                    }
                }
            },
            IdEvent::Fetched(block) => {
                assert(block.start <= block.end);
                assert forall|id: int| block.start <= id <= block.end implies granted(
                    events,
                    id,
                ) by {
                    assert(events[last] == IdEvent::Fetched(block));
                }
                assert forall|id: int| granted(front, id) implies !(block.start <= id
                    <= block.end) by {
                    let i = choose|i: int|
                        0 <= i < front.len() && match #[trigger] front[i] {
                            IdEvent::Fetched(earlier) => earlier.start <= id <= earlier.end,
                            _ => false,
                        };
                    assert(events[i] == front[i]);
                    assert(events[i] is Fetched && events[last] is Fetched);
                }
                assert forall|q: int| 0 <= q < run.0.len() implies run.0[q] == block.start + 1
                    + q by {}
                assert forall|p: int, q: int| 0 <= p < q < run.1.len() implies #[trigger] run.1[p]
                    != #[trigger] run.1[q] by {
                    if q == before.1.len() {
                        assert(granted(front, before.1[p]));
                    }
                }
                assert forall|p: int, q: int|
                    0 <= p < run.1.len() && 0 <= q < run.0.len() implies #[trigger] run.1[p]
                    != #[trigger] run.0[q] by {
                    if p < before.1.len() {
                        assert(granted(front, before.1[p]));
                    }
                }
                assert forall|p: int| 0 <= p < run.1.len() implies granted(
                    events,
                    #[trigger] run.1[p],
                ) by {
                    if p < before.1.len() {
                        assert(granted(front, before.1[p]));
                    }
                }
            },
            IdEvent::FetchFailed => {
                assert forall|p: int| 0 <= p < run.1.len() implies granted(
                    events,
                    #[trigger] run.1[p],
                ) by {
                    assert(granted(front, before.1[p]));
                }
                assert forall|q: int| 0 <= q < run.0.len() implies granted(
                    events,
                    #[trigger] run.0[q],
                ) by {
                    assert(granted(front, before.0[q]));
                }
            },
        }
    }
}

/// As long as the allocator grants blocks that are not empty and share no
/// identifier, a client that starts with nothing reserved never hands out
/// an identifier twice, and hands out none that was not granted to it.
pub proof fn lemma_ids_never_repeat(url: Seq<char>, size: int, events: Seq<IdEvent>)
    requires
        blocks_are_fresh(events),
    ensures
        ({
            let issued = id_run(url, size, Seq::empty(), events).1;
            &&& forall|p: int, q: int|
                0 <= p < q < issued.len() ==> #[trigger] issued[p] != #[trigger] issued[q]
            &&& forall|p: int| 0 <= p < issued.len() ==> granted(events, #[trigger] issued[p])
        }),
{
    lemma_id_run_invariant(url, size, events);
}

} // verus!
