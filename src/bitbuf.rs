//! Bit buffers of the `bitvec` crate, as this library uses them.

use vstd::prelude::*;
use bitvec::order::Lsb0;
use bitvec::vec::BitVec;
use crate::bits::{bit_of, bytes_bits};

verus! {

/// A bit buffer of the `bitvec` crate, bits stored LSB-first in bytes.
#[verifier::external_body]
pub struct BitBuf {
    bits: BitVec<u8, Lsb0>,
}

/// Longest bit buffer used here; `bitvec` refuses buffers past `usize::MAX >> 3`.
pub const MAX_BUF_BITS: usize = 0x1fff_ffff;

/// The live bits of a bit buffer, in order.
pub uninterp spec fn bv_bits(v: BitBuf) -> Seq<bool>;

/// Where a bit buffer's first live bit stands in its first storage byte.
pub uninterp spec fn bv_head(v: BitBuf) -> nat;

/// Relies on `BitVec::new`: an empty buffer.
#[verifier::external_body]
pub(crate) fn bv_new() -> (r: BitBuf)
    ensures
        bv_bits(r) == Seq::<bool>::empty(),
{
    BitBuf { bits: BitVec::new() }
}

/// Relies on `BitVec::from_slice`: a buffer spanning every bit of `s`.
#[verifier::external_body]
pub(crate) fn bv_from_slice(s: &[u8]) -> (r: BitBuf)
    requires
        8 * s@.len() <= MAX_BUF_BITS,
    ensures
        bv_bits(r) == bytes_bits(s@),
{
    BitBuf { bits: BitVec::from_slice(s) }
}

/// Relies on `BitVec::from_vec`: a buffer spanning every bit of `v`.
#[verifier::external_body]
pub(crate) fn bv_from_vec(v: Vec<u8>) -> (r: BitBuf)
    requires
        8 * v@.len() <= MAX_BUF_BITS,
    ensures
        bv_bits(r) == bytes_bits(v@),
{
    BitBuf { bits: BitVec::from_vec(v) }
}

/// Relies on `BitVec::truncate`: keeps the first `n` bits, if there are more.
#[verifier::external_body]
pub(crate) fn bv_truncate(v: &mut BitBuf, n: usize)
    ensures
        n < bv_bits(*old(v)).len() ==> bv_bits(*final(v)) == bv_bits(*old(v)).take(n as int),
        n >= bv_bits(*old(v)).len() ==> bv_bits(*final(v)) == bv_bits(*old(v)),
{
    v.bits.truncate(n)
}

/// Relies on `BitVec::resize`: cuts to `n` bits, or fills up to `n` with `value`.
#[verifier::external_body]
pub(crate) fn bv_resize(v: &mut BitBuf, n: usize, value: bool)
    requires
        n <= MAX_BUF_BITS,
    ensures
        n <= bv_bits(*old(v)).len() ==> bv_bits(*final(v)) == bv_bits(*old(v)).take(n as int),
        n > bv_bits(*old(v)).len() ==> bv_bits(*final(v)) == bv_bits(*old(v)) + Seq::new(
            (n - bv_bits(*old(v)).len()) as nat,
            |i: int| value,
        ),
{
    v.bits.resize(n, value)
}

/// Relies on `BitVec::append`: moves the bits of `other` onto the end of `v`.
#[verifier::external_body]
pub(crate) fn bv_append(v: &mut BitBuf, other: &mut BitBuf)
    requires
        bv_bits(*old(v)).len() + bv_bits(*old(other)).len() <= MAX_BUF_BITS,
    ensures
        bv_bits(*final(v)) == bv_bits(*old(v)) + bv_bits(*old(other)),
        bv_bits(*final(other)) == Seq::<bool>::empty(),
{
    v.bits.append(&mut other.bits)
}

/// Relies on `BitVec::split_off`: `v` keeps its first `at` bits and the rest
/// are returned.
#[verifier::external_body]
pub(crate) fn bv_split_off(v: &mut BitBuf, at: usize) -> (r: BitBuf)
    requires
        at <= bv_bits(*old(v)).len(),
    ensures
        bv_bits(*final(v)) == bv_bits(*old(v)).take(at as int),
        bv_bits(r) == bv_bits(*old(v)).skip(at as int),
{
    BitBuf { bits: v.bits.split_off(at) }
}

/// Relies on `BitVec::force_align`: moves the live bits to the start of the
/// storage, leaving them unchanged.
#[verifier::external_body]
pub(crate) fn bv_force_align(v: &mut BitBuf)
    ensures
        bv_bits(*final(v)) == bv_bits(*old(v)),
        bv_head(*final(v)) == 0,
{
    v.bits.force_align()
}

/// Relies on `BitVec::into_vec`: the storage bytes that hold live bits; with
/// the live bits starting at the storage's first bit, bit `i` of the result
/// is live bit `i`.
#[verifier::external_body]
pub(crate) fn bv_into_vec(v: BitBuf) -> (r: Vec<u8>)
    requires
        bv_head(v) == 0,
    ensures
        r@.len() == (bv_bits(v).len() + 7) / 8,
        forall|i: int| 0 <= i < bv_bits(v).len() ==> bit_of(r@, i) == bv_bits(v)[i],
{
    v.bits.into_vec()
}

} // verus!
