//! The row-validity bitmap: `bit_vec::BitVec`, as far as tables use it.
//!
//! Nothing here is proved. Each function states what the `bit-vec` crate's
//! source shows of the method it calls; the tables are verified against
//! these statements.

use vstd::prelude::*;
use bit_vec::BitVec;

verus! {

/// `bit_vec::BitVec`, declared so that a table can hold one. Nothing inside
/// it is visible to the proofs; what it holds is spoken of as [`bit_seq`].
#[verifier::external_type_specification]
#[verifier::external_body]
#[verifier::reject_recursive_types(B)]
pub struct ExBitVec<B>(BitVec<B>);

/// The bits a bitmap holds, in the order in which they were pushed.
pub uninterp spec fn bit_seq(bits: BitVec) -> Seq<bool>;

/// `BitVec::new`: a bitmap that holds no bits.
#[verifier::external_body]
pub(crate) fn bits_new() -> (bits: BitVec)
    ensures
        bit_seq(bits) == Seq::<bool>::empty(),
{
    BitVec::new()
}

/// `BitVec::len`: the number of bits held.
#[verifier::external_body]
pub(crate) fn bits_len(bits: &BitVec) -> (n: usize)
    ensures
        n == bit_seq(*bits).len(),
{
    bits.len()
}

/// `BitVec::get`: the bit at position `i`, or `None` at and beyond the
/// length.
#[verifier::external_body]
pub(crate) fn bits_get(bits: &BitVec, i: usize) -> (bit: Option<bool>)
    ensures
        bit == if i < bit_seq(*bits).len() {
            Some(bit_seq(*bits)[i as int])
        } else {
            None
        },
{
    bits.get(i)
}

/// `BitVec::push`: appends one bit. The method panics when the length would
/// pass `usize::MAX`, so that case is left out.
#[verifier::external_body]
pub(crate) fn bits_push(bits: &mut BitVec, bit: bool)
    requires
        bit_seq(*old(bits)).len() < usize::MAX,
    ensures
        bit_seq(*final(bits)) == bit_seq(*old(bits)).push(bit),
{
    bits.push(bit)
}

/// `BitVec::set`: overwrites the bit at position `i`. The method panics at
/// and beyond the length, so those positions are left out.
#[verifier::external_body]
pub(crate) fn bits_set(bits: &mut BitVec, i: usize, bit: bool)
    requires
        i < bit_seq(*old(bits)).len(),
    ensures
        bit_seq(*final(bits)) == bit_seq(*old(bits)).update(i as int, bit),
{
    bits.set(i, bit)
}

/// `BitVec::clone`: a bitmap that holds the same bits.
#[verifier::external_body]
pub(crate) fn bits_clone(bits: &BitVec) -> (copy: BitVec)
    ensures
        bit_seq(copy) == bit_seq(*bits),
{
    bits.clone()
}

} // verus!
