//! The interpolator: one forward walk over the table for a whole sequence of
//! query points.

use vstd::prelude::*;
use vstd::std_specs::cmp::PartialOrdIs;
use crate::laws::{lemma_first_overrun, lemma_succeeds_in_range};
use crate::locate::{binary_search, locate};
use crate::order::{sorted, total_order};
use crate::sample::{arithmetic, blend, blend_defined, Sample};

verus! {

/// Why a call of [`monointerp`] produced no values.
#[derive(Debug, Clone, PartialEq, Eq)]
pub enum InterpError<T> {
    /// The reference sequence, of length `x_len`, and the value sequence, of
    /// length `y_len`, do not pair up.
    LengthMismatch { x_len: usize, y_len: usize },
    /// The first query point `query` lies below `bound`, the first reference
    /// point.
    BelowRange { query: T, bound: T },
    /// The table has no interval for the query point `query`: as the first
    /// query point it lies at or above `bound`, the last reference point, and
    /// as a later one above it.
    AboveRange { query: T, bound: T },
}

/// Where a walk that stands at interval `j` stops for the query point `q`:
/// at the first interval from `j` on whose right end is not below `q`, or at
/// the last index of `x` when there is none. A walk that stands at the last
/// index, or beyond it, stays where it is.
pub open spec fn advance<T: PartialOrd>(x: Seq<T>, j: int, q: T) -> int
    decreases x.len() - j,
{
    if 0 <= j && j + 1 < x.len() && q.is_gt(&x[j + 1]) {
        advance(x, j + 1, q)
    } else {
        j
    }
}

/// The interval in which the walk serves query point `i`: the first query
/// point starts at its floor index, each later one where its predecessor
/// stopped.
pub open spec fn bracket<T: PartialOrd>(query: Seq<T>, x: Seq<T>, i: int) -> int
    decreases i,
{
    if i <= 0 {
        locate(query[0], x)
    } else {
        advance(x, bracket(query, x, i - 1), query[i])
    }
}

/// The interval of query point `i` has a right end in the table.
pub open spec fn has_right_end<T: PartialOrd>(query: Seq<T>, x: Seq<T>, i: int) -> bool {
    bracket(query, x, i) + 1 < x.len()
}

/// The first query index from `from` on whose interval has no right end, and
/// `query.len()` when there is none.
pub open spec fn first_overrun<T: PartialOrd>(query: Seq<T>, x: Seq<T>, from: int) -> int
    decreases query.len() - from,
{
    if from < query.len() && has_right_end(query, x, from) {
        first_overrun(query, x, from + 1)
    } else {
        from
    }
}

/// The interpolated value for query point `i`.
pub open spec fn value_at<T: Sample>(query: Seq<T>, x: Seq<T>, y: Seq<T>, i: int) -> T {
    let j = bracket(query, x, i);
    blend(query[i], x[j], x[j + 1], y[j], y[j + 1])
}

/// The arithmetic of `T` allows the computation of every value that the walk
/// reaches.
pub open spec fn arithmetic_defined<T: Sample>(query: Seq<T>, x: Seq<T>, y: Seq<T>) -> bool {
    forall|i: int|
        #![trigger bracket(query, x, i)]
        0 <= i < query.len() && has_right_end(query, x, i) ==> {
            let j = bracket(query, x, i);
            blend_defined(query[i], x[j], x[j + 1], y[j], y[j + 1])
        }
}

/// The inputs on which interpolation is defined. Two columns of different
/// lengths are always admitted; a table proper needs a query point, a
/// non-decreasing reference sequence with at least one point, and, unless the
/// first query point lies below the table, values within the arithmetic of
/// `T`.
pub open spec fn admissible<T: Sample>(query: Seq<T>, x: Seq<T>, y: Seq<T>) -> bool {
    x.len() == y.len() ==> {
        &&& query.len() >= 1
        &&& x.len() >= 1
        &&& sorted(x)
        &&& query[0].is_lt(&x[0]) || arithmetic_defined(query, x, y)
    }
}

/// What interpolation of `y` over `x` at `query` gives: the first failure in
/// the order length, lower bound, upper bound, or one value per query point.
pub open spec fn interpolation<T: Sample>(query: Seq<T>, x: Seq<T>, y: Seq<T>) -> Result<
    Seq<T>,
    InterpError<T>,
> {
    let stop = first_overrun(query, x, 0);
    if x.len() != y.len() {
        Err(InterpError::LengthMismatch { x_len: x.len() as usize, y_len: y.len() as usize })
    } else if query[0].is_lt(&x[0]) {
        Err(InterpError::BelowRange { query: query[0], bound: x[0] })
    } else if stop < query.len() {
        Err(InterpError::AboveRange { query: query[stop], bound: x.last() })
    } else {
        Ok(Seq::new(query.len(), |i: int| value_at(query, x, y, i)))
    }
}

/// Some point of `query` lies below the first reference point.
pub open spec fn reaches_below<T: PartialOrd>(query: Seq<T>, x: Seq<T>) -> bool {
    exists|k: int| 0 <= k < query.len() && (#[trigger] query[k]).is_lt(&x[0])
}

/// Every point of `query` can be served from the table: the first one lies
/// at or above the first reference point and strictly below the last, and no
/// later one lies above the last.
pub open spec fn in_range<T: PartialOrd>(query: Seq<T>, x: Seq<T>) -> bool {
    &&& !query[0].is_lt(&x[0])
    &&& query[0].is_lt(&x.last())
    &&& forall|k: int| 0 <= k < query.len() ==> !(#[trigger] query[k]).is_gt(&x.last())
}

/// Interpolates `y` over the non-decreasing `x` at each point of `query`.
///
/// The walk starts at the floor index of the first query point and only
/// moves forward, so a query sequence in ascending order is served in one
/// pass over the table. The result is the first failure that the walk meets,
/// or one value per query point, each blended from the two ends of the
/// interval in which the walk serves that point.
#[verifier::loop_isolation(false)]
pub fn monointerp<T: Sample>(query: &[T], x: &[T], y: &[T]) -> (r: Result<Vec<T>, InterpError<T>>)
    requires
        total_order::<T>(),
        arithmetic::<T>(),
        admissible(query@, x@, y@),
    ensures
        match r {
            Ok(v) => interpolation(query@, x@, y@) == Ok::<Seq<T>, InterpError<T>>(v@),
            Err(e) => interpolation(query@, x@, y@) == Err::<Seq<T>, InterpError<T>>(e),
        },
        r matches Ok(v) ==> v@.len() == query@.len() && forall|i: int|
            #![trigger v@[i]]
            0 <= i < query@.len() ==> has_right_end(query@, x@, i) && v@[i] == value_at(
                query@,
                x@,
                y@,
                i,
            ),
        r is Ok <==> x@.len() == y@.len() && in_range(query@, x@),
        x@.len() != y@.len() ==> r == Err::<Vec<T>, InterpError<T>>(
            InterpError::LengthMismatch { x_len: x@.len() as usize, y_len: y@.len() as usize },
        ),
        x@.len() == y@.len() && query@[0].is_lt(&x@[0]) ==> r == Err::<Vec<T>, InterpError<T>>(
            InterpError::BelowRange { query: query@[0], bound: x@[0] },
        ),
        x@.len() == y@.len() && sorted(query@) && reaches_below(query@, x@) ==> r matches Err(
            InterpError::BelowRange { .. },
        ),
        x@.len() == y@.len() && !query@[0].is_lt(&x@[0]) && !in_range(query@, x@) ==> r == Err::<
            Vec<T>,
            InterpError<T>,
        >(
            InterpError::AboveRange {
                query: query@[first_overrun(query@, x@, 0)],
                bound: x@.last(),
            },
        ),
{
    let query_length = query.len();
    let axis_length = x.len();

    if axis_length != y.len() {
        return Err(InterpError::LengthMismatch { x_len: axis_length, y_len: y.len() });
    }
    proof {
        lemma_first_overrun(query@, x@, 0);
        lemma_succeeds_in_range(query@, x@, y@);
    }
    if query[0] < x[0] {
        return Err(InterpError::BelowRange { query: query[0], bound: x[0] });
    }
    let mut j = binary_search(query[0], x);
    if j >= axis_length - 1 {
        return Err(InterpError::AboveRange { query: query[0], bound: x[axis_length - 1] });
    }
    let mut interpolated_vec: Vec<T> = Vec::with_capacity(query_length);
    for i in 0..query_length
        invariant
            j + 1 < axis_length,
            i < query_length ==> advance(x@, j as int, query@[i as int]) == bracket(
                query@,
                x@,
                i as int,
            ),
            forall|k: int|
                #![trigger bracket(query@, x@, k)]
                0 <= k < i ==> has_right_end(query@, x@, k),
            interpolated_vec@.len() == i,
            forall|k: int|
                #![trigger interpolated_vec@[k]]
                0 <= k < i ==> interpolated_vec@[k] == value_at(query@, x@, y@, k),
    {
        while j + 1 < axis_length && query[i] > x[j + 1]
            invariant
                j + 1 <= axis_length,
                advance(x@, j as int, query@[i as int]) == bracket(query@, x@, i as int),
            decreases axis_length - j,
        {
            j += 1;
        }
        if j + 1 >= axis_length {
            return Err(InterpError::AboveRange { query: query[i], bound: x[axis_length - 1] });
        }
        let weight = (query[i] - x[j]) / (x[j + 1] - x[j]);
        let y_new = (y[j + 1] - y[j]) * weight + y[j];
        interpolated_vec.push(y_new);
    }
    proof {
        assert(interpolated_vec@ =~= Seq::new(
            query@.len(),
            |i: int| value_at(query@, x@, y@, i),
        ));
    }
    Ok(interpolated_vec)
}

} // verus!
