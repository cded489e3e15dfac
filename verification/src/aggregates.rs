//! Click deltas summed per short code.

use crate::models::{clicks_view, duplicate_clicks, ClickEvent, ClickEventView};
use vstd::prelude::*;
use vstd::string::*;

verus! {

/// The sum of the deltas that `entries` hold for `code`.
pub open spec fn delta_of(entries: Seq<ClickEventView>, code: Seq<char>) -> int
    decreases entries.len(),
{
    if entries.len() == 0 {
        0
    } else {
        delta_of(entries.drop_last(), code) + if entries.last().short_code == code {
            entries.last().delta
        } else {
            0
        }
    }
}

/// The sum of all deltas in `entries`.
pub open spec fn total_of(entries: Seq<ClickEventView>) -> int
    decreases entries.len(),
{
    if entries.len() == 0 {
        0
    } else {
        total_of(entries.drop_last()) + entries.last().delta
    }
}

/// Whether no two of `entries` have the same short code.
pub open spec fn distinct_codes(entries: Seq<ClickEventView>) -> bool {
    forall|i: int, j: int|
        0 <= i < j < entries.len() ==> (#[trigger] entries[i]).short_code != (
        #[trigger] entries[j]).short_code
}

/// Whether one of `entries` has the short code `code`.
pub open spec fn has_code(entries: Seq<ClickEventView>, code: Seq<char>) -> bool {
    exists|i: int| 0 <= i < entries.len() && (#[trigger] entries[i]).short_code == code
}

/// `entries` after `delta` more clicks on `code`: the entry of `code` grows
/// by `delta` where there is one, and a new entry follows the others where
/// there is none.
pub open spec fn tally_add(entries: Seq<ClickEventView>, code: Seq<char>, delta: int) -> Seq<
    ClickEventView,
> {
    if has_code(entries, code) {
        Seq::new(
            entries.len(),
            |i: int|
                if entries[i].short_code == code {
                    ClickEventView { short_code: code, delta: entries[i].delta + delta }
                } else {
                    entries[i]
                },
        )
    } else {
        entries.push(ClickEventView { short_code: code, delta })
    }
}

/// Whether `delta` more clicks on `code` leave the entry of `code` and the
/// sum of all entries within 64 bits.
pub open spec fn can_take(entries: Seq<ClickEventView>, code: Seq<char>, delta: int) -> bool {
    &&& i64::MIN <= delta_of(entries, code) + delta <= i64::MAX
    &&& i64::MIN <= total_of(entries) + delta <= i64::MAX
}

/// Where no entry has `code`, the deltas for `code` sum to zero.
pub proof fn lemma_delta_of_absent(entries: Seq<ClickEventView>, code: Seq<char>)
    requires
        !has_code(entries, code),
    ensures
        delta_of(entries, code) == 0,
    decreases entries.len(),
{
    if entries.len() > 0 {
        assert(entries[entries.len() - 1].short_code != code);
        assert forall|i: int| 0 <= i < entries.drop_last().len() implies (
        #[trigger] entries.drop_last()[i]).short_code != code by {
            assert(entries[i].short_code != code);
        }
        lemma_delta_of_absent(entries.drop_last(), code);
    }
}

/// Where short codes are distinct, the deltas for the code of an entry sum
/// to that entry's delta.
pub proof fn lemma_delta_of_entry(entries: Seq<ClickEventView>, at: int)
    requires
        distinct_codes(entries),
        0 <= at < entries.len(),
    ensures
        delta_of(entries, entries[at].short_code) == entries[at].delta,
    decreases entries.len(),
{
    let code = entries[at].short_code;
    let front = entries.drop_last();
    if at == entries.len() - 1 {
        assert forall|i: int| 0 <= i < front.len() implies (#[trigger] front[i]).short_code
            != code by {
            assert(entries[i].short_code != entries[at].short_code);
        }
        lemma_delta_of_absent(front, code);
    } else {
        assert(entries[at].short_code != entries[entries.len() - 1].short_code);
        assert(front[at] == entries[at]);
        assert(distinct_codes(front)) by {
            assert forall|i: int, j: int| 0 <= i < j < front.len() implies (
            #[trigger] front[i]).short_code != (#[trigger] front[j]).short_code by {
                assert(entries[i].short_code != entries[j].short_code);
            }
        }
        lemma_delta_of_entry(front, at);
    }
}

/// Adding clicks on one short code leaves the short codes distinct, raises
/// the sum for that code and the sum of all by the delta added, and leaves
/// the sums for other codes as they were.
pub proof fn lemma_tally_add(
    entries: Seq<ClickEventView>,
    code: Seq<char>,
    delta: int,
    other: Seq<char>,
)
    requires
        distinct_codes(entries),
    ensures
        distinct_codes(tally_add(entries, code, delta)),
        total_of(tally_add(entries, code, delta)) == total_of(entries) + delta,
        delta_of(tally_add(entries, code, delta), other) == delta_of(entries, other) + if other
            == code {
            delta
        } else {
            0
        },
        has_code(tally_add(entries, code, delta), code),
    decreases entries.len(),
{
    let after = tally_add(entries, code, delta);
    if !has_code(entries, code) {
        assert(after.drop_last() =~= entries);
        assert(distinct_codes(after)) by {
            assert forall|i: int, j: int| 0 <= i < j < after.len() implies (
            #[trigger] after[i]).short_code != (#[trigger] after[j]).short_code by {
                if j < entries.len() {
                    assert(entries[i].short_code != entries[j].short_code);
                } else {
                    assert(entries[i].short_code != code);
                }
            }
        }
        assert(after[after.len() - 1].short_code == code);
    } else {
        let at = choose|i: int| 0 <= i < entries.len() && (#[trigger] entries[i]).short_code == code;
        assert(after[at].short_code == code);
        assert(distinct_codes(after)) by {
            assert forall|i: int, j: int| 0 <= i < j < after.len() implies (
            #[trigger] after[i]).short_code != (#[trigger] after[j]).short_code by {
                assert(entries[i].short_code != entries[j].short_code);
            }
        }
        let front = entries.drop_last();
        let last = entries.last();
        assert(distinct_codes(front)) by {
            assert forall|i: int, j: int| 0 <= i < j < front.len() implies (
            #[trigger] front[i]).short_code != (#[trigger] front[j]).short_code by {
                assert(entries[i].short_code != entries[j].short_code);
            }
        }
        if last.short_code == code {
            assert(!has_code(front, code)) by {
                if has_code(front, code) {
                    let k = choose|k: int|
                        0 <= k < front.len() && (#[trigger] front[k]).short_code == code;
                    assert(entries[k].short_code != entries[entries.len() - 1].short_code);
                }
            }
            assert(after.drop_last() =~= front) by {
                assert forall|i: int| 0 <= i < front.len() implies after.drop_last()[i]
                    == front[i] by {
                    assert(entries[i].short_code != entries[entries.len() - 1].short_code);
                }
            }
        } else {
            assert(has_code(front, code)) by {
                assert(front[at].short_code == code);
            }
            assert(after.drop_last() =~= tally_add(front, code, delta));
            lemma_tally_add(front, code, delta, other);
        }
    }
}

/// Click deltas per short code, in the order in which the codes first came.
#[derive(Debug, Clone, PartialEq, Eq)]
pub struct ClickAggregates {
    entries: Vec<ClickEvent>,
    sum: i64,
}

impl View for ClickAggregates {
    type V = Seq<ClickEventView>;

    /// One entry per short code, with the sum of its deltas.
    closed spec fn view(&self) -> Seq<ClickEventView> {
        clicks_view(self.entries@)
    }
}

impl ClickAggregates {
    /// What every value of the type satisfies: no short code has two
    /// entries, and the sum of all deltas fits in 64 bits.
    pub closed spec fn wf(&self) -> bool {
        &&& distinct_codes(self@)
        &&& self.sum == total_of(self@)
    }

    /// What `wf` says, for those who cannot see inside.
    pub proof fn lemma_wf(&self)
        requires
            self.wf(),
        ensures
            distinct_codes(self@),
            i64::MIN <= total_of(self@) <= i64::MAX,
            forall|i: int|
                0 <= i < self@.len() ==> i64::MIN <= (#[trigger] self@[i]).delta <= i64::MAX,
    {
    }

    /// No clicks at all.
    pub fn new() -> (empty: Self)
        ensures
            empty.wf(),
            empty@ == Seq::<ClickEventView>::empty(),
    {
        let empty = ClickAggregates { entries: Vec::new(), sum: 0 };
        assert(empty@ =~= Seq::<ClickEventView>::empty());
        empty
    }

    /// The sum of the deltas for `short_code`; zero where it has no entry.
    pub fn get(&self, short_code: &str) -> (delta: i64)
        requires
            self.wf(),
        ensures
            delta == delta_of(self@, short_code@),
    {
        let key = String::from_str(short_code);
        let mut i: usize = 0;
        while i < self.entries.len()
            invariant
                i <= self.entries.len(),
                key@ == short_code@,
                self.wf(),
                forall|j: int| 0 <= j < i ==> (#[trigger] self@[j]).short_code != key@,
            decreases self.entries.len() - i,
        {
            if self.entries[i].short_code == key {
                proof {
                    assert(self@[i as int].short_code == key@);
                    lemma_delta_of_entry(self@, i as int);
                }
                return self.entries[i].delta;
            }
            assert(self@[i as int].short_code != key@);
            i = i + 1;
        }
        proof {
            lemma_delta_of_absent(self@, short_code@);
        }
        0
    }

    /// Whether `delta` more clicks on `short_code` can be added.
    pub fn can_add(&self, short_code: &str, delta: i64) -> (fits: bool)
        requires
            self.wf(),
        ensures
            fits == can_take(self@, short_code@, delta as int),
    {
        let held = self.get(short_code);
        let entry: i128 = held as i128 + delta as i128;
        let total: i128 = self.sum as i128 + delta as i128;
        entry >= i64::MIN as i128 && entry <= i64::MAX as i128 && total >= i64::MIN as i128 && total
            <= i64::MAX as i128
    }

    /// Adds `delta` clicks on `short_code`.
    pub fn add(&mut self, short_code: &str, delta: i64)
        requires
            old(self).wf(),
            can_take(old(self)@, short_code@, delta as int),
        ensures
            final(self).wf(),
            final(self)@ == tally_add(old(self)@, short_code@, delta as int),
    {
        let key = String::from_str(short_code);
        let mut i: usize = 0;
        while i < self.entries.len()
            invariant
                i <= self.entries.len(),
                key@ == short_code@,
                *self == *old(self),
                self.wf(),
                can_take(self@, short_code@, delta as int),
                forall|j: int| 0 <= j < i ==> (#[trigger] self@[j]).short_code != key@,
            decreases self.entries.len() - i,
        {
            if self.entries[i].short_code == key {
                proof {
                    assert(self@[i as int].short_code == key@);
                    lemma_delta_of_entry(self@, i as int);
                }
                let grown = ClickEvent { short_code: key, delta: self.entries[i].delta + delta };
                self.entries.set(i, grown);
                self.sum = self.sum + delta;
                proof {
                    let before = old(self)@;
                    lemma_tally_add(before, short_code@, delta as int, short_code@);
                    assert(has_code(before, short_code@));
                    assert(self@ =~= tally_add(before, short_code@, delta as int)) by {
                        assert forall|k: int| 0 <= k < before.len() implies self@[k] == tally_add(
                            before,
                            short_code@,
                            delta as int,
                        )[k] by {
                            if k != i {
                                if k < i {
                                    assert(before[k].short_code != before[i as int].short_code);
                                } else {
                                    assert(before[i as int].short_code != before[k].short_code);
                                }
                            }
                        }
                    }
                }
                return;
            }
            assert(self@[i as int].short_code != key@);
            i = i + 1;
        }
        self.entries.push(ClickEvent { short_code: key, delta });
        self.sum = self.sum + delta;
        proof {
            let before = old(self)@;
            lemma_tally_add(before, short_code@, delta as int, short_code@);
            assert(!has_code(before, short_code@));
            assert(self@ =~= tally_add(before, short_code@, delta as int));
        }
    }

    /// Adds `delta` clicks on `short_code` where they can be added, and says
    /// whether they were.
    pub fn try_add(&mut self, short_code: &str, delta: i64) -> (added: bool)
        requires
            old(self).wf(),
        ensures
            final(self).wf(),
            added == can_take(old(self)@, short_code@, delta as int),
            added ==> final(self)@ == tally_add(old(self)@, short_code@, delta as int),
            !added ==> final(self)@ == old(self)@,
    {
        if self.can_add(short_code, delta) {
            self.add(short_code, delta);
            true
        } else {
            false
        }
    }

    /// The sum of all deltas.
    pub fn total(&self) -> (sum: i64)
        requires
            self.wf(),
        ensures
            sum == total_of(self@),
    {
        self.sum
    }

    /// Whether no short code has an entry.
    pub fn is_empty(&self) -> (empty: bool)
        ensures
            empty == (self@.len() == 0),
    {
        self.entries.len() == 0
    }

    /// How many short codes have an entry.
    pub fn len(&self) -> (count: usize)
        ensures
            count == self@.len(),
    {
        self.entries.len()
    }

    /// The entries, one per short code, in the order in which the codes
    /// first came.
    pub fn entries(&self) -> (list: Vec<ClickEvent>)
        ensures
            clicks_view(list@) == self@,
    {
        duplicate_clicks(&self.entries)
    }
}

} // verus!
