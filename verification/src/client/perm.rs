//! Trusted boundary around the `permutation` crate, which computes the
//! row-sorting permutation for tablets and applies it to the parallel
//! timestamp and column arrays.

use vstd::prelude::*;

use crate::client::Value;

verus! {

#[verifier::external_type_specification]
#[verifier::external_body]
pub struct ExPermutation(permutation::Permutation);

/// The index list a sorting permutation holds: entry `k` names the source
/// position of the element that lands at position `k` when it is applied.
pub uninterp spec fn perm_indices(p: permutation::Permutation) -> Seq<usize>;

/// Relies on `permutation::sort`: it lists the positions `0..len` reordered
/// by a stable sort on the keys, so applying it yields the keys in
/// non-decreasing order with ties kept in source order.
#[verifier::external_body]
pub(crate) fn sort_perm(keys: &Vec<i64>) -> (p: permutation::Permutation)
    ensures
        perm_indices(p).len() == keys@.len(),
        forall|k: int| 0 <= k < keys@.len() ==> (#[trigger] perm_indices(p)[k]) < keys@.len(),
        forall|k1: int, k2: int|
            #![trigger perm_indices(p)[k1], perm_indices(p)[k2]]
            0 <= k1 < k2 < keys@.len() ==> {
                &&& perm_indices(p)[k1] != perm_indices(p)[k2]
                &&& keys@[perm_indices(p)[k1] as int] <= keys@[perm_indices(p)[k2] as int]
                &&& (keys@[perm_indices(p)[k1] as int] == keys@[perm_indices(p)[k2] as int]
                    ==> perm_indices(p)[k1] < perm_indices(p)[k2])
            },
{
    permutation::sort(keys.as_slice())
}

/// Relies on `Permutation::apply_slice`: element `k` of the result is the
/// source element at the permutation's `k`-th index; `i64` is `Copy`, so
/// the copies are the elements themselves.
#[verifier::external_body]
pub(crate) fn apply_perm_i64(p: &permutation::Permutation, items: &Vec<i64>) -> (r: Vec<i64>)
    requires
        items@.len() == perm_indices(*p).len(),
        forall|k: int|
            0 <= k < perm_indices(*p).len() ==> (#[trigger] perm_indices(*p)[k]) < items@.len(),
    ensures
        r@.len() == items@.len(),
        forall|k: int|
            #![trigger r@[k]]
            0 <= k < r@.len() ==> r@[k] == items@[perm_indices(*p)[k] as int],
{
    p.apply_slice(items.as_slice())
}

/// Relies on `Permutation::apply_slice`: element `k` of the result is a
/// clone of the source element at the permutation's `k`-th index, and a
/// cloned `Value` carries the same scalar, so the views agree.
#[verifier::external_body]
pub(crate) fn apply_perm_values(p: &permutation::Permutation, items: &Vec<Value>) -> (r: Vec<
    Value,
>)
    requires
        items@.len() == perm_indices(*p).len(),
        forall|k: int|
            0 <= k < perm_indices(*p).len() ==> (#[trigger] perm_indices(*p)[k]) < items@.len(),
    ensures
        r@.len() == items@.len(),
        forall|k: int|
            #![trigger r@[k]]
            0 <= k < r@.len() ==> r@[k]@ == items@[perm_indices(*p)[k] as int]@,
{
    p.apply_slice(items.as_slice())
}

/// Relies on `Permutation::apply_inv_idx`: for a valid permutation it
/// names the source position of the element that lands at position `k`,
/// the same index list the other wrappers speak of.
#[verifier::external_body]
pub(crate) fn perm_source_of(p: &permutation::Permutation, k: usize) -> (r: usize)
    requires
        k < perm_indices(*p).len(),
    ensures
        r == perm_indices(*p)[k as int],
{
    p.apply_inv_idx(k)
}

} // verus!
