//! Trusted boundary around `bit_vec::BitVec`, the backing store for the
//! filter's bit array. The model of a bit vector is the sequence of booleans
//! it holds, in index order.

use vstd::prelude::*;

verus! {

#[verifier::external_type_specification]
#[verifier::external_body]
#[verifier::reject_recursive_types(B)]
pub struct ExBitVec<B>(bit_vec::BitVec<B>);

/// The bits that a `bit_vec::BitVec` holds, in index order.
pub uninterp spec fn bit_vec_model(b: bit_vec::BitVec) -> Seq<bool>;

/// Relies on `bit_vec::BitVec::from_elem`: builds a vector of `len` bits,
/// each equal to `bit`.
#[verifier::external_body]
pub(crate) fn bv_from_elem(len: usize, bit: bool) -> (r: bit_vec::BitVec)
    ensures
        bit_vec_model(r) == Seq::new(len as nat, |i: int| bit),
{
    bit_vec::BitVec::from_elem(len, bit)
}

/// Relies on `bit_vec::BitVec::len`: returns the number of bits held.
#[verifier::external_body]
pub(crate) fn bv_len(b: &bit_vec::BitVec) -> (r: usize)
    ensures
        r == bit_vec_model(*b).len(),
{
    b.len()
}

/// Relies on `bit_vec::BitVec::get`: returns the bit at `i` when `i` is in
/// bounds, and `None` otherwise.
#[verifier::external_body]
pub(crate) fn bv_get(b: &bit_vec::BitVec, i: usize) -> (r: Option<bool>)
    ensures
        r == (if i < bit_vec_model(*b).len() {
            Some(bit_vec_model(*b)[i as int])
        } else {
            None::<bool>
        }),
{
    b.get(i)
}

/// Relies on `bit_vec::BitVec::set`: writes `x` at index `i`, leaving every
/// other bit as it was. Out of bounds it panics, which the precondition
/// rules out.
#[verifier::external_body]
pub(crate) fn bv_set(b: &mut bit_vec::BitVec, i: usize, x: bool)
    requires
        i < bit_vec_model(*old(b)).len(),
    ensures
        bit_vec_model(*final(b)) == bit_vec_model(*old(b)).update(i as int, x),
{
    b.set(i, x)
}

} // verus!
