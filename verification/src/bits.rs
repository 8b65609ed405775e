//! The bit vectors of the `bit_vec` crate, seen through the bits they hold.

use bit_vec::BitVec;
use vstd::prelude::*;

verus! {

#[verifier::external_type_specification]
#[verifier::external_body]
#[verifier::reject_recursive_types(B)]
pub struct ExBitVec<B>(BitVec<B>);

/// The bits held by a bit vector, first bit first.
pub uninterp spec fn bitvec_bits(bits: &BitVec) -> Seq<bool>;

/// `BitVec::from_fn(len, f)`: the source fills a vector of `len` cleared bits
/// and sets bit `i` to `f(i)` for each `i` below `len`, in increasing order.
#[verifier::external_body]
pub(crate) fn bitvec_from_fn<F: Fn(usize) -> bool>(len: usize, f: F) -> (bits: BitVec)
    requires
        forall|i: usize| i < len ==> call_requires(f, (i,)),
    ensures
        bitvec_bits(&bits).len() == len,
        forall|i: usize| i < len ==> call_ensures(f, (i,), #[trigger] bitvec_bits(&bits)[i as int]),
{
    BitVec::from_fn(len, f)
}

/// `bits[i]` (the `Index` impl of `BitVec`): the bit at `i`; the source panics
/// when `i` is not below the length.
#[verifier::external_body]
pub(crate) fn bitvec_index(bits: &BitVec, i: usize) -> (bit: bool)
    requires
        i < bitvec_bits(bits).len(),
    ensures
        bit == bitvec_bits(bits)[i as int],
{
    bits[i]
}

/// `BitVec::len`: the number of bits held.
#[verifier::external_body]
pub(crate) fn bitvec_len(bits: &BitVec) -> (len: usize)
    ensures
        len == bitvec_bits(bits).len(),
{
    bits.len()
}

} // verus!
