//! Counting the items of a list that have some property.

use vstd::prelude::*;

verus! {

/// How many of `items` satisfy `wanted`.
pub open spec fn count_where<T>(items: Seq<T>, wanted: spec_fn(T) -> bool) -> nat
    decreases items.len(),
{
    if items.len() == 0 {
        0
    } else {
        count_where(items.drop_last(), wanted) + if wanted(items.last()) {
            1nat
        } else {
            0nat
        }
    }
}

/// Counting over two lists in a row is counting over each and adding up.
pub proof fn lemma_count_where_concat<T>(left: Seq<T>, right: Seq<T>, wanted: spec_fn(T) -> bool)
    ensures
        count_where(left + right, wanted) == count_where(left, wanted) + count_where(right, wanted),
    decreases right.len(),
{
    if right.len() == 0 {
        assert(left + right =~= left);
    } else {
        assert((left + right).drop_last() =~= left + right.drop_last());
        lemma_count_where_concat(left, right.drop_last(), wanted);
    }
}

} // verus!
