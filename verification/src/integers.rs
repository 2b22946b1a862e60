//! The primitive integer types as sample types: each of them meets every
//! hypothesis that the contracts of this crate place on the element type.
//!
//! Integer division truncates, so on an integer table a weight is 0 until
//! the query point reaches the right end of its interval, where it is 1.

use vstd::prelude::*;
use vstd::std_specs::ops::{AddSpec, SubSpec};
use crate::order::total_order;
use crate::sample::{
    arithmetic, blend, blend_defined, floor_value, is_zero, truncating, weight, within,
    zero_laws,
};

verus! {

/// A part of `d` goes into `d` once if it is all of `d`, and else not at all.
pub proof fn lemma_quotient_within(n: int, d: int)
    requires
        0 <= n <= d,
        0 < d,
    ensures
        n / d == floor_value(n, d, 0int, 1int),
{
    assert(n / d == floor_value(n, d, 0int, 1int)) by (nonlinear_arith)
        requires
            0 <= n <= d,
            0 < d,
    ;
}

/// `i8` is totally ordered, its operators compute what they specify, its
/// only zero is 0, and it divides by truncation.
pub proof fn lemma_i8_is_sample()
    ensures
        total_order::<i8>(),
        arithmetic::<i8>(),
        zero_laws::<i8>(),
        truncating::<i8>(),
{
    assert forall|z: i8| is_zero(z) implies z == 0 by {
        assert(z.add_spec(0i8) == 0i8);
    }
    assert forall|q: i8, x0: i8, x1: i8, y0: i8, y1: i8|
        #![trigger blend(q, x0, x1, y0, y1)]
        #![trigger blend_defined(q, x0, x1, y0, y1)]
        within(q, x0, x1) && x1.sub_req(x0) && y1.sub_req(y0) implies blend_defined(
        q,
        x0,
        x1,
        y0,
        y1,
    ) && blend(q, x0, x1, y0, y1) == floor_value(q, x1, y0, y1) by {
        lemma_quotient_within(q - x0, x1 - x0);
        if q == x1 {
            assert(weight(q, x0, x1) == 1i8);
        } else {
            assert(weight(q, x0, x1) == 0i8);
        }
    }
}

/// `i16` is totally ordered, its operators compute what they specify, its
/// only zero is 0, and it divides by truncation.
pub proof fn lemma_i16_is_sample()
    ensures
        total_order::<i16>(),
        arithmetic::<i16>(),
        zero_laws::<i16>(),
        truncating::<i16>(),
{
    assert forall|z: i16| is_zero(z) implies z == 0 by {
        assert(z.add_spec(0i16) == 0i16);
    }
    assert forall|q: i16, x0: i16, x1: i16, y0: i16, y1: i16|
        #![trigger blend(q, x0, x1, y0, y1)]
        #![trigger blend_defined(q, x0, x1, y0, y1)]
        within(q, x0, x1) && x1.sub_req(x0) && y1.sub_req(y0) implies blend_defined(
        q,
        x0,
        x1,
        y0,
        y1,
    ) && blend(q, x0, x1, y0, y1) == floor_value(q, x1, y0, y1) by {
        lemma_quotient_within(q - x0, x1 - x0);
        if q == x1 {
            assert(weight(q, x0, x1) == 1i16);
        } else {
            assert(weight(q, x0, x1) == 0i16);
        }
    }
}

/// `i32` is totally ordered, its operators compute what they specify, its
/// only zero is 0, and it divides by truncation.
pub proof fn lemma_i32_is_sample()
    ensures
        total_order::<i32>(),
        arithmetic::<i32>(),
        zero_laws::<i32>(),
        truncating::<i32>(),
{
    assert forall|z: i32| is_zero(z) implies z == 0 by {
        assert(z.add_spec(0i32) == 0i32);
    }
    assert forall|q: i32, x0: i32, x1: i32, y0: i32, y1: i32|
        #![trigger blend(q, x0, x1, y0, y1)]
        #![trigger blend_defined(q, x0, x1, y0, y1)]
        within(q, x0, x1) && x1.sub_req(x0) && y1.sub_req(y0) implies blend_defined(
        q,
        x0,
        x1,
        y0,
        y1,
    ) && blend(q, x0, x1, y0, y1) == floor_value(q, x1, y0, y1) by {
        lemma_quotient_within(q - x0, x1 - x0);
        if q == x1 {
            assert(weight(q, x0, x1) == 1i32);
        } else {
            assert(weight(q, x0, x1) == 0i32);
        }
    }
}

/// `i64` is totally ordered, its operators compute what they specify, its
/// only zero is 0, and it divides by truncation.
pub proof fn lemma_i64_is_sample()
    ensures
        total_order::<i64>(),
        arithmetic::<i64>(),
        zero_laws::<i64>(),
        truncating::<i64>(),
{
    assert forall|z: i64| is_zero(z) implies z == 0 by {
        assert(z.add_spec(0i64) == 0i64);
    }
    assert forall|q: i64, x0: i64, x1: i64, y0: i64, y1: i64|
        #![trigger blend(q, x0, x1, y0, y1)]
        #![trigger blend_defined(q, x0, x1, y0, y1)]
        within(q, x0, x1) && x1.sub_req(x0) && y1.sub_req(y0) implies blend_defined(
        q,
        x0,
        x1,
        y0,
        y1,
    ) && blend(q, x0, x1, y0, y1) == floor_value(q, x1, y0, y1) by {
        lemma_quotient_within(q - x0, x1 - x0);
        if q == x1 {
            assert(weight(q, x0, x1) == 1i64);
        } else {
            assert(weight(q, x0, x1) == 0i64);
        }
    }
}

/// `i128` is totally ordered, its operators compute what they specify, its
/// only zero is 0, and it divides by truncation.
pub proof fn lemma_i128_is_sample()
    ensures
        total_order::<i128>(),
        arithmetic::<i128>(),
        zero_laws::<i128>(),
        truncating::<i128>(),
{
    assert forall|z: i128| is_zero(z) implies z == 0 by {
        assert(z.add_spec(0i128) == 0i128);
    }
    assert forall|q: i128, x0: i128, x1: i128, y0: i128, y1: i128|
        #![trigger blend(q, x0, x1, y0, y1)]
        #![trigger blend_defined(q, x0, x1, y0, y1)]
        within(q, x0, x1) && x1.sub_req(x0) && y1.sub_req(y0) implies blend_defined(
        q,
        x0,
        x1,
        y0,
        y1,
    ) && blend(q, x0, x1, y0, y1) == floor_value(q, x1, y0, y1) by {
        lemma_quotient_within(q - x0, x1 - x0);
        if q == x1 {
            assert(weight(q, x0, x1) == 1i128);
        } else {
            assert(weight(q, x0, x1) == 0i128);
        }
    }
}

/// `isize` is totally ordered, its operators compute what they specify, its
/// only zero is 0, and it divides by truncation.
pub proof fn lemma_isize_is_sample()
    ensures
        total_order::<isize>(),
        arithmetic::<isize>(),
        zero_laws::<isize>(),
        truncating::<isize>(),
{
    assert forall|z: isize| is_zero(z) implies z == 0 by {
        assert(z.add_spec(0isize) == 0isize);
    }
    assert forall|q: isize, x0: isize, x1: isize, y0: isize, y1: isize|
        #![trigger blend(q, x0, x1, y0, y1)]
        #![trigger blend_defined(q, x0, x1, y0, y1)]
        within(q, x0, x1) && x1.sub_req(x0) && y1.sub_req(y0) implies blend_defined(
        q,
        x0,
        x1,
        y0,
        y1,
    ) && blend(q, x0, x1, y0, y1) == floor_value(q, x1, y0, y1) by {
        lemma_quotient_within(q - x0, x1 - x0);
        if q == x1 {
            assert(weight(q, x0, x1) == 1isize);
        } else {
            assert(weight(q, x0, x1) == 0isize);
        }
    }
}

/// `u8` is totally ordered, its operators compute what they specify, its
/// only zero is 0, and it divides by truncation.
pub proof fn lemma_u8_is_sample()
    ensures
        total_order::<u8>(),
        arithmetic::<u8>(),
        zero_laws::<u8>(),
        truncating::<u8>(),
{
    assert forall|z: u8| is_zero(z) implies z == 0 by {
        assert(z.add_spec(0u8) == 0u8);
    }
    assert forall|q: u8, x0: u8, x1: u8, y0: u8, y1: u8|
        #![trigger blend(q, x0, x1, y0, y1)]
        #![trigger blend_defined(q, x0, x1, y0, y1)]
        within(q, x0, x1) && x1.sub_req(x0) && y1.sub_req(y0) implies blend_defined(
        q,
        x0,
        x1,
        y0,
        y1,
    ) && blend(q, x0, x1, y0, y1) == floor_value(q, x1, y0, y1) by {
        lemma_quotient_within(q - x0, x1 - x0);
        if q == x1 {
            assert(weight(q, x0, x1) == 1u8);
        } else {
            assert(weight(q, x0, x1) == 0u8);
        }
    }
}

/// `u16` is totally ordered, its operators compute what they specify, its
/// only zero is 0, and it divides by truncation.
pub proof fn lemma_u16_is_sample()
    ensures
        total_order::<u16>(),
        arithmetic::<u16>(),
        zero_laws::<u16>(),
        truncating::<u16>(),
{
    assert forall|z: u16| is_zero(z) implies z == 0 by {
        assert(z.add_spec(0u16) == 0u16);
    }
    assert forall|q: u16, x0: u16, x1: u16, y0: u16, y1: u16|
        #![trigger blend(q, x0, x1, y0, y1)]
        #![trigger blend_defined(q, x0, x1, y0, y1)]
        within(q, x0, x1) && x1.sub_req(x0) && y1.sub_req(y0) implies blend_defined(
        q,
        x0,
        x1,
        y0,
        y1,
    ) && blend(q, x0, x1, y0, y1) == floor_value(q, x1, y0, y1) by {
        lemma_quotient_within(q - x0, x1 - x0);
        if q == x1 {
            assert(weight(q, x0, x1) == 1u16);
        } else {
            assert(weight(q, x0, x1) == 0u16);
        }
    }
}

/// `u32` is totally ordered, its operators compute what they specify, its
/// only zero is 0, and it divides by truncation.
pub proof fn lemma_u32_is_sample()
    ensures
        total_order::<u32>(),
        arithmetic::<u32>(),
        zero_laws::<u32>(),
        truncating::<u32>(),
{
    assert forall|z: u32| is_zero(z) implies z == 0 by {
        assert(z.add_spec(0u32) == 0u32);
    }
    assert forall|q: u32, x0: u32, x1: u32, y0: u32, y1: u32|
        #![trigger blend(q, x0, x1, y0, y1)]
        #![trigger blend_defined(q, x0, x1, y0, y1)]
        within(q, x0, x1) && x1.sub_req(x0) && y1.sub_req(y0) implies blend_defined(
        q,
        x0,
        x1,
        y0,
        y1,
    ) && blend(q, x0, x1, y0, y1) == floor_value(q, x1, y0, y1) by {
        lemma_quotient_within(q - x0, x1 - x0);
        if q == x1 {
            assert(weight(q, x0, x1) == 1u32);
        } else {
            assert(weight(q, x0, x1) == 0u32);
        }
    }
}

/// `u64` is totally ordered, its operators compute what they specify, its
/// only zero is 0, and it divides by truncation.
pub proof fn lemma_u64_is_sample()
    ensures
        total_order::<u64>(),
        arithmetic::<u64>(),
        zero_laws::<u64>(),
        truncating::<u64>(),
{
    assert forall|z: u64| is_zero(z) implies z == 0 by {
        assert(z.add_spec(0u64) == 0u64);
    }
    assert forall|q: u64, x0: u64, x1: u64, y0: u64, y1: u64|
        #![trigger blend(q, x0, x1, y0, y1)]
        #![trigger blend_defined(q, x0, x1, y0, y1)]
        within(q, x0, x1) && x1.sub_req(x0) && y1.sub_req(y0) implies blend_defined(
        q,
        x0,
        x1,
        y0,
        y1,
    ) && blend(q, x0, x1, y0, y1) == floor_value(q, x1, y0, y1) by {
        lemma_quotient_within(q - x0, x1 - x0);
        if q == x1 {
            assert(weight(q, x0, x1) == 1u64);
        } else {
            assert(weight(q, x0, x1) == 0u64);
        }
    }
}

/// `u128` is totally ordered, its operators compute what they specify, its
/// only zero is 0, and it divides by truncation.
pub proof fn lemma_u128_is_sample()
    ensures
        total_order::<u128>(),
        arithmetic::<u128>(),
        zero_laws::<u128>(),
        truncating::<u128>(),
{
    assert forall|z: u128| is_zero(z) implies z == 0 by {
        assert(z.add_spec(0u128) == 0u128);
    }
    assert forall|q: u128, x0: u128, x1: u128, y0: u128, y1: u128|
        #![trigger blend(q, x0, x1, y0, y1)]
        #![trigger blend_defined(q, x0, x1, y0, y1)]
        within(q, x0, x1) && x1.sub_req(x0) && y1.sub_req(y0) implies blend_defined(
        q,
        x0,
        x1,
        y0,
        y1,
    ) && blend(q, x0, x1, y0, y1) == floor_value(q, x1, y0, y1) by {
        lemma_quotient_within(q - x0, x1 - x0);
        if q == x1 {
            assert(weight(q, x0, x1) == 1u128);
        } else {
            assert(weight(q, x0, x1) == 0u128);
        }
    }
}

/// `usize` is totally ordered, its operators compute what they specify, its
/// only zero is 0, and it divides by truncation.
pub proof fn lemma_usize_is_sample()
    ensures
        total_order::<usize>(),
        arithmetic::<usize>(),
        zero_laws::<usize>(),
        truncating::<usize>(),
{
    assert forall|z: usize| is_zero(z) implies z == 0 by {
        assert(z.add_spec(0usize) == 0usize);
    }
    assert forall|q: usize, x0: usize, x1: usize, y0: usize, y1: usize|
        #![trigger blend(q, x0, x1, y0, y1)]
        #![trigger blend_defined(q, x0, x1, y0, y1)]
        within(q, x0, x1) && x1.sub_req(x0) && y1.sub_req(y0) implies blend_defined(
        q,
        x0,
        x1,
        y0,
        y1,
    ) && blend(q, x0, x1, y0, y1) == floor_value(q, x1, y0, y1) by {
        lemma_quotient_within(q - x0, x1 - x0);
        if q == x1 {
            assert(weight(q, x0, x1) == 1usize);
        } else {
            assert(weight(q, x0, x1) == 0usize);
        }
    }
}

} // verus!
