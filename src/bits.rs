//! Bit-level views of byte buffers (least significant bit first).

use vstd::prelude::*;

verus! {

/// Bit `i` of a byte buffer, counting from bit 0 of byte 0.
pub open spec fn bit_of(bytes: Seq<u8>, i: int) -> bool {
    (bytes[i / 8] >> ((i % 8) as u8)) & 1u8 == 1u8
}

/// All bits of a byte buffer, in order.
pub open spec fn bytes_bits(bytes: Seq<u8>) -> Seq<bool> {
    Seq::new(8 * bytes.len(), |i: int| bit_of(bytes, i))
}

/// Bit `i` of `bytes`.
pub fn get_bit(bytes: &[u8], i: usize) -> (r: bool)
    requires
        i < 8 * bytes@.len(),
    ensures
        r == bit_of(bytes@, i as int),
{
    let byte = bytes[i / 8];
    let sh = (i % 8) as u8;
    (byte >> sh) & 1u8 == 1u8
}

} // verus!
