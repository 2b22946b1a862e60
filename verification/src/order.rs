//! What the contracts of this crate ask of an element type's ordering.

use vstd::prelude::*;
use vstd::std_specs::cmp::{PartialOrdIs, PartialOrdSpec};

verus! {

/// The comparison operators of `T` compute the relation that `T` specifies,
/// and that relation is a total order on the values of `T`: any two values
/// are comparable, `<=` and `>=` mirror each other, `<=` is transitive, and
/// two values that are `<=` each other are the same value.
pub open spec fn total_order<T: PartialOrd>() -> bool {
    &&& T::obeys_partial_cmp_spec()
    &&& forall|a: T, b: T| #![trigger a.partial_cmp_spec(&b)] a.is_le(&b) || b.is_le(&a)
    &&& forall|a: T, b: T| #![trigger a.partial_cmp_spec(&b)] a.is_le(&b) <==> b.is_ge(&a)
    &&& forall|a: T, b: T|
        #![trigger a.partial_cmp_spec(&b)]
        a.is_le(&b) && b.is_le(&a) ==> a == b
    &&& forall|a: T, b: T, c: T|
        #![trigger a.partial_cmp_spec(&b), b.partial_cmp_spec(&c)]
        a.is_le(&b) && b.is_le(&c) ==> a.is_le(&c)
}

/// `s` is non-decreasing: no element is greater than a later one.
pub open spec fn sorted<T: PartialOrd>(s: Seq<T>) -> bool {
    forall|i: int, j: int| #![trigger s[i], s[j]] 0 <= i <= j < s.len() ==> s[i].is_le(&s[j])
}

} // verus!
