//! The locator: a floor search in a non-decreasing reference sequence.

use vstd::prelude::*;
use vstd::std_specs::cmp::PartialOrdIs;
use crate::order::{sorted, total_order};

verus! {

/// The index of the rightmost element of `arr` that is at most `key`, and 0
/// when `arr` has no such element.
pub open spec fn floor_index<T: PartialOrd>(key: T, arr: Seq<T>) -> int
    decreases arr.len(),
{
    if arr.len() <= 1 {
        0
    } else if key.is_ge(&arr.last()) {
        arr.len() - 1
    } else {
        floor_index(key, arr.drop_last())
    }
}

/// What the locator reports for `key`: the length of `arr` when `key` lies
/// above its last element, and the floor index of `key` otherwise.
pub open spec fn locate<T: PartialOrd>(key: T, arr: Seq<T>) -> int {
    if key.is_gt(&arr.last()) {
        arr.len() as int
    } else {
        floor_index(key, arr)
    }
}

/// `k` is the floor index of `key` in `arr`: no element to the right of `k`
/// is at most `key`, and either `arr[k]` is at most `key` or `k` is 0.
pub open spec fn is_floor_index<T: PartialOrd>(key: T, arr: Seq<T>, k: int) -> bool {
    &&& 0 <= k < arr.len()
    &&& forall|m: int| #![trigger arr[m]] k < m < arr.len() ==> !key.is_ge(&arr[m])
    &&& key.is_ge(&arr[k]) || k == 0
}

/// `floor_index` meets its description on every non-empty sequence.
pub proof fn lemma_floor_index<T: PartialOrd>(key: T, arr: Seq<T>)
    requires
        arr.len() >= 1,
    ensures
        is_floor_index(key, arr, floor_index(key, arr)),
    decreases arr.len(),
{
    if arr.len() > 1 && !key.is_ge(&arr.last()) {
        let front = arr.drop_last();
        lemma_floor_index(key, front);
        let k = floor_index(key, front);
        assert forall|m: int| #![trigger arr[m]] k < m < arr.len() implies !key.is_ge(&arr[m]) by {
            if m < arr.len() - 1 {
                assert(front[m] == arr[m]);
            }
        }
    }
}

/// At most one index is the floor index of `key` in `arr`.
pub proof fn lemma_floor_index_unique<T: PartialOrd>(key: T, arr: Seq<T>, k1: int, k2: int)
    requires
        is_floor_index(key, arr, k1),
        is_floor_index(key, arr, k2),
    ensures
        k1 == k2,
{
}

/// Finds the floor index of `key` in the non-decreasing `arr` by bisection.
///
/// A key above the last element is reported as `arr.len()`, which is no
/// index of `arr`; a key below the first element is reported as 0.
pub fn binary_search<T>(key: T, arr: &[T]) -> (idx: usize) where T: PartialOrd + Copy
    requires
        total_order::<T>(),
        arr@.len() >= 1,
        sorted(arr@),
    ensures
        idx == locate(key, arr@),
        key.is_gt(&arr@.last()) ==> idx == arr@.len(),
        !key.is_gt(&arr@.last()) ==> is_floor_index(key, arr@, idx as int),
{
    let mut imin: usize = 0;
    let mut imax: usize = arr.len();

    if key > arr[imax - 1] {
        return imax;
    }
    while imin < imax
        invariant
            total_order::<T>(),
            sorted(arr@),
            imin <= imax <= arr@.len(),
            forall|k: int| #![trigger arr@[k]] 0 <= k < imin ==> key.is_ge(&arr@[k]),
            forall|k: int| #![trigger arr@[k]] imax <= k < arr@.len() ==> !key.is_ge(&arr@[k]),
        decreases imax - imin,
    {
        let width: usize = imax - imin;
        assert(width >> 1 == width / 2) by (bit_vector);
        let imid: usize = imin + (width >> 1);
        if key >= arr[imid] {
            imin = imid + 1;
        } else {
            imax = imid;
        }
    }
    proof {
        lemma_floor_index(key, arr@);
        lemma_floor_index_unique(key, arr@, floor_index(key, arr@), imin.saturating_sub(1) as int);
    }
    imin.saturating_sub(1)
}

} // verus!
