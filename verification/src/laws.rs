//! What holds of the interpolator on every table: how the walk moves, which
//! inputs fail and how, and what comes back at a reference point.

use vstd::prelude::*;
use vstd::std_specs::cmp::PartialOrdIs;
use vstd::std_specs::ops::SubSpec;
use crate::interp::{
    admissible, advance, bracket, first_overrun, has_right_end, in_range, interpolation,
    value_at, InterpError,
};
use crate::locate::{floor_index, lemma_floor_index, locate};
use crate::order::{sorted, total_order};
use crate::sample::{
    blend_defined, floor_value, lemma_blend_at_left_end, truncating, zero_laws, Sample,
};

verus! {

/// `advance` meets its description: the walk does not move back, stays
/// inside the table, passes only right ends that lie below `q`, and stops
/// before a right end that does not.
pub proof fn lemma_advance<T: PartialOrd>(x: Seq<T>, j: int, q: T)
    requires
        0 <= j,
    ensures
        j <= advance(x, j, q),
        j < x.len() ==> advance(x, j, q) < x.len(),
        forall|m: int| #![trigger x[m]] j < m <= advance(x, j, q) ==> q.is_gt(&x[m]),
        advance(x, j, q) + 1 < x.len() ==> !q.is_gt(&x[advance(x, j, q) + 1]),
    decreases x.len() - j,
{
    if j + 1 < x.len() && q.is_gt(&x[j + 1]) {
        lemma_advance(x, j + 1, q);
    }
}

/// The locator reports an index of `arr`, or its length.
pub proof fn lemma_locate_bounds<T: PartialOrd>(key: T, arr: Seq<T>)
    ensures
        0 <= locate(key, arr) <= arr.len(),
{
    if arr.len() >= 1 {
        lemma_floor_index(key, arr);
    }
}

/// Across a call the interval index never decreases and never exceeds the
/// length of the reference sequence.
pub proof fn lemma_bracket_monotone<T: PartialOrd>(query: Seq<T>, x: Seq<T>, i: int, k: int)
    requires
        0 <= i <= k,
    ensures
        0 <= bracket(query, x, i) <= bracket(query, x, k) <= x.len(),
    decreases k,
{
    if k == 0 {
        lemma_locate_bounds(query[0], x);
    } else {
        lemma_bracket_monotone(query, x, 0, k - 1);
        lemma_advance(x, bracket(query, x, k - 1), query[k]);
        if i < k {
            lemma_bracket_monotone(query, x, i, k - 1);
        }
    }
}

/// `first_overrun` meets its description.
pub proof fn lemma_first_overrun<T: PartialOrd>(query: Seq<T>, x: Seq<T>, from: int)
    requires
        0 <= from <= query.len(),
    ensures
        from <= first_overrun(query, x, from) <= query.len(),
        forall|k: int|
            #![trigger bracket(query, x, k)]
            from <= k < first_overrun(query, x, from) ==> has_right_end(query, x, k),
        first_overrun(query, x, from) < query.len() ==> !has_right_end(
            query,
            x,
            first_overrun(query, x, from),
        ),
    decreases query.len() - from,
{
    if from < query.len() && has_right_end(query, x, from) {
        lemma_first_overrun(query, x, from + 1);
    }
}

/// A table and a query sequence are admissible when the arithmetic of `T`
/// allows the blend of every query point with every interval of the table:
/// there is then no need to know where the walk goes.
pub proof fn lemma_admissible_everywhere<T: Sample>(query: Seq<T>, x: Seq<T>, y: Seq<T>)
    requires
        query.len() >= 1,
        x.len() >= 1,
        sorted(x),
        forall|i: int, j: int|
            #![trigger query[i], x[j]]
            0 <= i < query.len() && 0 <= j && j + 1 < x.len() ==> blend_defined(
                query[i],
                x[j],
                x[j + 1],
                y[j],
                y[j + 1],
            ),
    ensures
        admissible(query, x, y),
{
    assert forall|i: int|
        #![trigger bracket(query, x, i)]
        0 <= i < query.len() && has_right_end(query, x, i) implies {
        let j = bracket(query, x, i);
        blend_defined(query[i], x[j], x[j + 1], y[j], y[j + 1])
    } by {
        lemma_bracket_monotone(query, x, 0, i);
    }
}

/// On a non-decreasing table the walk never serves a query point in an
/// interval of no width: the left end of the interval lies strictly below
/// its right end, whether or not the reference sequence repeats a point.
pub proof fn lemma_bracket_has_width<T: PartialOrd>(query: Seq<T>, x: Seq<T>, i: int)
    requires
        total_order::<T>(),
        sorted(x),
        x.len() >= 1,
        0 <= i < query.len(),
        !query[0].is_lt(&x[0]),
        has_right_end(query, x, i),
    ensures
        0 <= bracket(query, x, i),
        x[bracket(query, x, i)].is_lt(&x[bracket(query, x, i) + 1]),
    decreases i,
{
    if i == 0 {
        lemma_floor_index(query[0], x);
    } else {
        // The walk either stays, in an interval that has width by induction,
        // or stops in the first interval whose left end lies below the query
        // point and whose right end does not.
        lemma_bracket_monotone(query, x, i - 1, i);
        lemma_advance(x, bracket(query, x, i - 1), query[i]);
        if bracket(query, x, i) == bracket(query, x, i - 1) {
            lemma_bracket_has_width(query, x, i - 1);
        }
    }
}

/// On a non-decreasing table and for query points in ascending order, the
/// interval in which a query point is served holds that point: no value is
/// extrapolated.
pub proof fn lemma_bracket_holds_query<T: PartialOrd>(query: Seq<T>, x: Seq<T>, i: int)
    requires
        total_order::<T>(),
        sorted(x),
        sorted(query),
        x.len() >= 1,
        0 <= i < query.len(),
        !query[0].is_lt(&x[0]),
        has_right_end(query, x, i),
    ensures
        0 <= bracket(query, x, i),
        x[bracket(query, x, i)].is_le(&query[i]),
        query[i].is_le(&x[bracket(query, x, i) + 1]),
    decreases i,
{
    if i == 0 {
        lemma_floor_index(query[0], x);
    } else {
        // Where the walk stays, the left end lies below the earlier query
        // point; where it moves, below the last right end that it passed.
        lemma_bracket_holds_query(query, x, i - 1);
        lemma_advance(x, bracket(query, x, i - 1), query[i]);
    }
}

/// On a table of a type that divides by truncation, query points in
/// ascending order are admissible as soon as `T` allows the difference of
/// any two neighbours in each column. Each value is then the left value of
/// its interval, or the right value where the query point is the right end.
pub proof fn lemma_truncating_table<T: Sample>(query: Seq<T>, x: Seq<T>, y: Seq<T>)
    requires
        total_order::<T>(),
        truncating::<T>(),
        query.len() >= 1,
        x.len() >= 1,
        x.len() == y.len(),
        sorted(x),
        sorted(query),
        forall|j: int|
            #![trigger x[j]]
            0 <= j && j + 1 < x.len() ==> x[j + 1].sub_req(x[j]) && y[j + 1].sub_req(y[j]),
    ensures
        admissible(query, x, y),
        !query[0].is_lt(&x[0]) ==> forall|i: int|
            #![trigger bracket(query, x, i)]
            0 <= i < query.len() && has_right_end(query, x, i) ==> {
                let j = bracket(query, x, i);
                value_at(query, x, y, i) == floor_value(query[i], x[j + 1], y[j], y[j + 1])
            },
{
    if !query[0].is_lt(&x[0]) {
        assert forall|i: int|
            #![trigger bracket(query, x, i)]
            0 <= i < query.len() && has_right_end(query, x, i) implies {
            let j = bracket(query, x, i);
            &&& blend_defined(query[i], x[j], x[j + 1], y[j], y[j + 1])
            &&& value_at(query, x, y, i) == floor_value(query[i], x[j + 1], y[j], y[j + 1])
        } by {
            lemma_bracket_holds_query(query, x, i);
            lemma_bracket_has_width(query, x, i);
        }
    }
}

/// A query sequence in ascending order with a point below the first
/// reference point fails with `BelowRange`, whatever else it holds.
pub proof fn lemma_below_range<T: Sample>(query: Seq<T>, x: Seq<T>, y: Seq<T>, k: int)
    requires
        total_order::<T>(),
        sorted(query),
        x.len() == y.len(),
        0 <= k < query.len(),
        query[k].is_lt(&x[0]),
    ensures
        interpolation(query, x, y) == Err::<Seq<T>, InterpError<T>>(
            InterpError::BelowRange { query: query[0], bound: x[0] },
        ),
{
}

/// On a non-decreasing table, whether the walk finds an interval with a
/// right end for query point `i` is a matter of where the points up to `i`
/// lie: the first strictly below the last reference point, and none of the
/// later ones above it.
pub proof fn lemma_has_right_end<T: PartialOrd>(query: Seq<T>, x: Seq<T>, i: int)
    requires
        total_order::<T>(),
        sorted(x),
        x.len() >= 1,
        0 <= i,
        !query[0].is_lt(&x[0]),
    ensures
        has_right_end(query, x, i) <==> query[0].is_lt(&x.last()) && forall|k: int|
            0 < k <= i ==> !(#[trigger] query[k]).is_gt(&x.last()),
    decreases i,
{
    if i == 0 {
        lemma_floor_index(query[0], x);
    } else {
        // From an interval with a right end the walk runs off the table for
        // the points above the last reference point, and for no others.
        lemma_has_right_end(query, x, i - 1);
        lemma_bracket_monotone(query, x, i - 1, i);
        lemma_advance(x, bracket(query, x, i - 1), query[i]);
    }
}

/// Interpolation succeeds on exactly the tables with columns of one length
/// and the query sequences in range of the table.
pub proof fn lemma_succeeds_in_range<T: Sample>(query: Seq<T>, x: Seq<T>, y: Seq<T>)
    requires
        total_order::<T>(),
        sorted(x),
        x.len() >= 1,
        query.len() >= 1,
    ensures
        interpolation(query, x, y) is Ok <==> x.len() == y.len() && in_range(query, x),
        x.len() == y.len() && !query[0].is_lt(&x[0]) && !in_range(query, x) ==> interpolation(
            query,
            x,
            y,
        ) == Err::<Seq<T>, InterpError<T>>(
            InterpError::AboveRange {
                query: query[first_overrun(query, x, 0)],
                bound: x.last(),
            },
        ),
{
    if x.len() == y.len() && !query[0].is_lt(&x[0]) {
        lemma_first_overrun(query, x, 0);
        let stop = first_overrun(query, x, 0);
        if stop < query.len() {
            lemma_has_right_end(query, x, stop);
        } else {
            lemma_has_right_end(query, x, query.len() - 1);
        }
    }
}

/// In a non-decreasing table, a reference point that lies strictly below
/// its successor is its own floor.
pub proof fn lemma_floor_index_at_knot<T: PartialOrd>(x: Seq<T>, i: int)
    requires
        total_order::<T>(),
        sorted(x),
        0 <= i,
        i + 1 < x.len(),
        x[i].is_lt(&x[i + 1]),
    ensures
        floor_index(x[i], x) == i,
{
    lemma_floor_index(x[i], x);
}

/// Interpolating at a reference point gives back the value stored with it.
///
/// The walk serves `x[i]` in the interval that starts at the rightmost
/// reference point equal to `x[i]`. That point must have a successor, and
/// where `x[i]` occurs more than once, the value at its last occurrence is
/// the one that comes back.
pub proof fn lemma_exact_at_knot<T: Sample>(x: Seq<T>, y: Seq<T>, i: int)
    requires
        total_order::<T>(),
        zero_laws::<T>(),
        admissible(seq![x[i]], x, y),
        x.len() == y.len(),
        0 <= i < x.len(),
        floor_index(x[i], x) + 1 < x.len(),
        y[floor_index(x[i], x)] == y[i],
    ensures
        interpolation(seq![x[i]], x, y) == Ok::<Seq<T>, InterpError<T>>(seq![y[i]]),
{
    let query = seq![x[i]];
    let k = floor_index(x[i], x);
    // The floor of `x[i]` holds the same point as `x[i]`, so the walk serves
    // the query at the left end of its interval.
    lemma_floor_index(x[i], x);
    lemma_first_overrun(query, x, 0);
    lemma_blend_at_left_end(x[k], x[k + 1], y[k], y[k + 1]);
    assert(Seq::new(query.len(), |n: int| value_at(query, x, y, n)) =~= seq![y[i]]);
}

/// Interpolating at a reference point that lies strictly below its
/// successor gives back the value stored with it.
pub proof fn lemma_exact_at_strict_knot<T: Sample>(x: Seq<T>, y: Seq<T>, i: int)
    requires
        total_order::<T>(),
        zero_laws::<T>(),
        admissible(seq![x[i]], x, y),
        x.len() == y.len(),
        0 <= i,
        i + 1 < x.len(),
        x[i].is_lt(&x[i + 1]),
    ensures
        interpolation(seq![x[i]], x, y) == Ok::<Seq<T>, InterpError<T>>(seq![y[i]]),
{
    lemma_floor_index_at_knot(x, i);
    lemma_exact_at_knot(x, y, i);
}

} // verus!
