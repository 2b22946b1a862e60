//! The element type of a table, and the arithmetic of one interpolation step.

use vstd::prelude::*;
use core::ops::{Add, Div, Mul, Sub};
use vstd::std_specs::cmp::PartialOrdIs;
use vstd::std_specs::ops::{AddSpec, DivSpec, MulSpec, SubSpec};

verus! {

/// A type whose values can be compared, copied, subtracted, multiplied,
/// divided and added. Every type with these operators is a `Sample`.
pub trait Sample: PartialOrd
    + Copy
    + Add<Output = Self>
    + Sub<Output = Self>
    + Mul<Output = Self>
    + Div<Output = Self>
{
}

impl<T> Sample for T
where
    T: PartialOrd + Copy + Add<Output = T> + Sub<Output = T> + Mul<Output = T> + Div<Output = T>,
{
}

/// The four operators of `T` compute what `T` specifies for them.
pub open spec fn arithmetic<T: Sample>() -> bool {
    &&& T::obeys_add_spec()
    &&& T::obeys_sub_spec()
    &&& T::obeys_mul_spec()
    &&& T::obeys_div_spec()
}

/// How far `q` lies into the interval from `x0` to `x1`, as a fraction of
/// the interval's width.
pub open spec fn weight<T: Sample>(q: T, x0: T, x1: T) -> T {
    q.sub_spec(x0).div_spec(x1.sub_spec(x0))
}

/// The value at `q` of the line through `(x0, y0)` and `(x1, y1)`, computed
/// as `(y1 - y0) * weight + y0` in the arithmetic of `T`.
pub open spec fn blend<T: Sample>(q: T, x0: T, x1: T, y0: T, y1: T) -> T {
    y1.sub_spec(y0).mul_spec(weight(q, x0, x1)).add_spec(y0)
}

/// Every operation of `blend` is within what `T` allows for its operands:
/// for an integer type, no step overflows and the interval is not empty.
pub open spec fn blend_defined<T: Sample>(q: T, x0: T, x1: T, y0: T, y1: T) -> bool {
    &&& q.sub_req(x0)
    &&& x1.sub_req(x0)
    &&& q.sub_spec(x0).div_req(x1.sub_spec(x0))
    &&& y1.sub_req(y0)
    &&& y1.sub_spec(y0).mul_req(weight(q, x0, x1))
    &&& y1.sub_spec(y0).mul_spec(weight(q, x0, x1)).add_req(y0)
}

/// `z` is a zero of `T`: added to a value, it leaves the value as it is.
pub open spec fn is_zero<T: Sample>(z: T) -> bool {
    forall|v: T| #[trigger] z.add_spec(v) == v
}

/// The arithmetic of `T` treats its zeros as arithmetic should: a value less
/// itself is a zero, a zero divided is a zero, and a multiple of a zero is a
/// zero, wherever `T` allows the operation.
pub open spec fn zero_laws<T: Sample>() -> bool {
    &&& forall|a: T| a.sub_req(a) ==> is_zero(#[trigger] a.sub_spec(a))
    &&& forall|z: T, d: T| is_zero(z) && z.div_req(d) ==> is_zero(#[trigger] z.div_spec(d))
    &&& forall|c: T, z: T| is_zero(z) && c.mul_req(z) ==> is_zero(#[trigger] c.mul_spec(z))
}

/// `q` lies in the interval from `x0` to `x1`, and the interval has width.
pub open spec fn within<T: PartialOrd>(q: T, x0: T, x1: T) -> bool {
    x0.is_le(&q) && q.is_le(&x1) && x0.is_lt(&x1)
}

/// The nearer value to the left of `q`: `y1` where `q` is the right end `x1`
/// of its interval, and `y0` before that.
pub open spec fn floor_value<T>(q: T, x1: T, y0: T, y1: T) -> T {
    if q == x1 {
        y1
    } else {
        y0
    }
}

/// `T` divides as the integers do, by truncation: within an interval the
/// weight is 0 until the query point reaches the right end, where it is 1.
/// The blend is then defined as soon as the two differences are, and is the
/// left value, or the right value at the right end.
pub open spec fn truncating<T: Sample>() -> bool {
    forall|q: T, x0: T, x1: T, y0: T, y1: T|
        #![trigger blend(q, x0, x1, y0, y1)]
        #![trigger blend_defined(q, x0, x1, y0, y1)]
        within(q, x0, x1) && x1.sub_req(x0) && y1.sub_req(y0) ==> blend_defined(q, x0, x1, y0, y1)
            && blend(q, x0, x1, y0, y1) == floor_value(q, x1, y0, y1)
}

/// Under the zero laws, the line through `(x0, y0)` and `(x1, y1)` has the
/// value `y0` at `x0`.
pub proof fn lemma_blend_at_left_end<T: Sample>(x0: T, x1: T, y0: T, y1: T)
    requires
        zero_laws::<T>(),
        blend_defined(x0, x0, x1, y0, y1),
    ensures
        blend(x0, x0, x1, y0, y1) == y0,
{
}

} // verus!
