//! Addressed register access through a chain: the instruction value that
//! selects a register in one TAP, the data request around it, and the part of
//! the reply that belongs to it.

use vstd::prelude::*;
use vstd::arithmetic::power2::{
    pow2,
    lemma_pow2_adds,
    lemma_pow2_pos,
    lemma_pow2_strictly_increases,
    lemma_pow2_unfold,
    lemma2_to64,
};
use vstd::arithmetic::mul::lemma_mul_inequality;
use crate::bits::bit_of;
use crate::bitbuf::{
    bv_append,
    bv_bits,
    bv_force_align,
    bv_from_slice,
    bv_from_vec,
    bv_into_vec,
    bv_new,
    bv_resize,
    bv_split_off,
    bv_truncate,
    MAX_BUF_BITS,
};
use crate::chain::ChainParams;

verus! {

/// Bit `j` (0..8) of a byte.
pub open spec fn byte_bit(b: u8, j: int) -> bool {
    (b >> (j as u8)) & 1u8 == 1u8
}

/// `w` packs `bits` LSB-first, with every bit past them clear.
pub open spec fn is_packing(w: Seq<u8>, bits: Seq<bool>) -> bool {
    &&& w.len() == (bits.len() + 7) / 8
    &&& forall|i: int| 0 <= i < 8 * w.len() ==> bit_of(w, i) == (i < bits.len() && bits[i])
}

/// The bytes that pack `bits` LSB-first, unused high bits clear.
pub open spec fn packed(bits: Seq<bool>) -> Seq<u8> {
    choose|w: Seq<u8>| is_packing(w, bits)
}

proof fn lemma_byte_eq(a: u8, b: u8)
    by (bit_vector)
    requires
        ((a >> 0u8) & 1u8 == 1u8) == ((b >> 0u8) & 1u8 == 1u8),
        ((a >> 1u8) & 1u8 == 1u8) == ((b >> 1u8) & 1u8 == 1u8),
        ((a >> 2u8) & 1u8 == 1u8) == ((b >> 2u8) & 1u8 == 1u8),
        ((a >> 3u8) & 1u8 == 1u8) == ((b >> 3u8) & 1u8 == 1u8),
        ((a >> 4u8) & 1u8 == 1u8) == ((b >> 4u8) & 1u8 == 1u8),
        ((a >> 5u8) & 1u8 == 1u8) == ((b >> 5u8) & 1u8 == 1u8),
        ((a >> 6u8) & 1u8 == 1u8) == ((b >> 6u8) & 1u8 == 1u8),
        ((a >> 7u8) & 1u8 == 1u8) == ((b >> 7u8) & 1u8 == 1u8),
    ensures
        a == b,
{
}

proof fn lemma_bit_index(k: int, j: int)
    requires
        0 <= k,
        0 <= j < 8,
    ensures
        (8 * k + j) / 8 == k,
        (8 * k + j) % 8 == j,
{
}

/// Two buffers whose bits all agree are equal.
pub proof fn lemma_same_bits(a: Seq<u8>, b: Seq<u8>)
    requires
        a.len() == b.len(),
        forall|i: int| 0 <= i < 8 * a.len() ==> bit_of(a, i) == bit_of(b, i),
    ensures
        a == b,
{
    assert forall|k: int| 0 <= k < a.len() implies a[k] == b[k] by {
        assert forall|j: int| 0 <= j < 8 implies byte_bit(a[k], j) == byte_bit(b[k], j) by {
            lemma_bit_index(k, j);
            assert(bit_of(a, 8 * k + j) == bit_of(b, 8 * k + j));
        }
        assert(byte_bit(a[k], 0) == byte_bit(b[k], 0));
        assert(byte_bit(a[k], 1) == byte_bit(b[k], 1));
        assert(byte_bit(a[k], 2) == byte_bit(b[k], 2));
        assert(byte_bit(a[k], 3) == byte_bit(b[k], 3));
        assert(byte_bit(a[k], 4) == byte_bit(b[k], 4));
        assert(byte_bit(a[k], 5) == byte_bit(b[k], 5));
        assert(byte_bit(a[k], 6) == byte_bit(b[k], 6));
        assert(byte_bit(a[k], 7) == byte_bit(b[k], 7));
        lemma_byte_eq(a[k], b[k]);
    }
    assert(a =~= b);
}

/// A packing of `bits` is `packed(bits)`.
pub proof fn lemma_packed(w: Seq<u8>, bits: Seq<bool>)
    requires
        is_packing(w, bits),
    ensures
        packed(bits) == w,
{
    let p = packed(bits);
    assert(is_packing(p, bits));
    lemma_same_bits(p, w);
}

/// `packed(bits)` has one byte per started group of eight bits.
pub proof fn lemma_packed_len(bits: Seq<bool>)
    ensures
        packed(bits).len() == (bits.len() + 7) / 8,
{
    let n = bits.len();
    let w = Seq::new((n + 7) / 8, |k: int| pack_byte(bits, k));
    assert forall|i: int| 0 <= i < 8 * w.len() implies bit_of(w, i) == (i < n && bits[i]) by {
        lemma_pack_byte_bit(bits, i / 8, i % 8);
    }
    lemma_packed(w, bits);
}

/// Bit `j` of byte `k` of the packing of `bits`, as a value.
pub open spec fn pack_bit(bits: Seq<bool>, k: int, j: int) -> u8 {
    if 8 * k + j < bits.len() && bits[8 * k + j] {
        1u8
    } else {
        0u8
    }
}

/// Byte `k` of the packing of `bits`.
pub open spec fn pack_byte(bits: Seq<bool>, k: int) -> u8 {
    pack_bit(bits, k, 0) | (pack_bit(bits, k, 1) << 1u8) | (pack_bit(bits, k, 2) << 2u8) | (pack_bit(
        bits,
        k,
        3,
    ) << 3u8) | (pack_bit(bits, k, 4) << 4u8) | (pack_bit(bits, k, 5) << 5u8) | (pack_bit(bits, k, 6)
        << 6u8) | (pack_bit(bits, k, 7) << 7u8)
}

proof fn lemma_assemble_bit(b0: u8, b1: u8, b2: u8, b3: u8, b4: u8, b5: u8, b6: u8, b7: u8, j: u8)
    by (bit_vector)
    requires
        b0 <= 1 && b1 <= 1 && b2 <= 1 && b3 <= 1 && b4 <= 1 && b5 <= 1 && b6 <= 1 && b7 <= 1,
        j < 8,
    ensures
        ((b0 | (b1 << 1u8) | (b2 << 2u8) | (b3 << 3u8) | (b4 << 4u8) | (b5 << 5u8) | (b6 << 6u8) | (b7
            << 7u8)) >> j) & 1u8 == if j == 0 {
            b0
        } else if j == 1 {
            b1
        } else if j == 2 {
            b2
        } else if j == 3 {
            b3
        } else if j == 4 {
            b4
        } else if j == 5 {
            b5
        } else if j == 6 {
            b6
        } else {
            b7
        },
{
}

proof fn lemma_pack_byte_bit(bits: Seq<bool>, k: int, j: int)
    requires
        0 <= k,
        0 <= j < 8,
    ensures
        byte_bit(pack_byte(bits, k), j) == (8 * k + j < bits.len() && bits[8 * k + j]),
{
    lemma_assemble_bit(
        pack_bit(bits, k, 0),
        pack_bit(bits, k, 1),
        pack_bit(bits, k, 2),
        pack_bit(bits, k, 3),
        pack_bit(bits, k, 4),
        pack_bit(bits, k, 5),
        pack_bit(bits, k, 6),
        pack_bit(bits, k, 7),
        j as u8,
    );
}

/// The little-endian bytes of a 32-bit value give the value back.
pub proof fn lemma_le_round_trip(v: u32)
    ensures
        ({
            let r = le_bytes32(v as nat);
            (r[0] as int + r[1] as int * 0x100 + r[2] as int * 0x1_0000 + r[3] as int * 0x100_0000)
                == v
        }),
{
    let n = v as int;
    assert(n == n % 0x100 + 0x100 * (n / 0x100));
    assert(n / 0x100 == (n / 0x100) % 0x100 + 0x100 * (n / 0x1_0000));
    assert(n / 0x1_0000 == (n / 0x1_0000) % 0x100 + 0x100 * (n / 0x100_0000));
    assert(n / 0x100_0000 < 0x100);
}

proof fn lemma_mask_bit(x: u8, r: u8, j: u8)
    by (bit_vector)
    requires
        1 <= r < 8,
        j < 8,
    ensures
        ((x & (0xffu8 >> (8 - r) as u8)) >> j) & 1u8 == if j < r {
            (x >> j) & 1u8
        } else {
            0u8
        },
{
}

/// Clears the bits of `v` past its first `n`, leaving a packing of them.
fn clear_tail(v: Vec<u8>, n: usize) -> (r: Vec<u8>)
    requires
        v@.len() == (n + 7) / 8,
    ensures
        r@.len() == v@.len(),
        forall|i: int| 0 <= i < 8 * r@.len() ==> bit_of(r@, i) == (i < n && bit_of(v@, i)),
{
    let mut r = v;
    let rem: usize = n % 8;
    if rem != 0 {
        let k: usize = n / 8;
        let last = r[k] & (0xffu8 >> ((8 - rem) as u8));
        let ghost before = r@;
        r.set(k, last);
        assert forall|i: int| 0 <= i < 8 * r@.len() implies bit_of(r@, i) == (i < n && bit_of(v@, i)) by {
            if i / 8 == k {
                lemma_mask_bit(v@[k as int], rem as u8, (i % 8) as u8);
            }
        }
    }
    r
}

/// The caller's data cut or zero-extended to exactly `len` bits.
pub open spec fn fit_bits(data: Seq<u8>, len: nat) -> Seq<bool> {
    Seq::new(len, |i: int| i < 8 * data.len() && bit_of(data, i))
}

/// `n` clear bits.
pub open spec fn zeros(n: nat) -> Seq<bool> {
    Seq::new(n, |i: int| false)
}

/// The data-register bits shifted into the chain to reach the selected TAP:
/// one bypass bit per TAP before it, its `len` bits of data, one bypass bit per
/// TAP after it.
pub open spec fn dr_request_bits(p: ChainParams, data: Seq<u8>, len: nat) -> Seq<bool> {
    zeros(p.dr_pre as nat) + fit_bits(data, len) + zeros(p.dr_post as nat)
}

/// Total data-register width for a `len`-bit access of the selected TAP.
pub open spec fn dr_width(p: ChainParams, len: nat) -> nat {
    (p.dr_pre + len + p.dr_post) as nat
}

/// The bytes of the data request for a `len`-bit access with `data`.
pub fn build_dr_request(p: &ChainParams, data: &[u8], len: usize) -> (r: Vec<u8>)
    requires
        dr_width(*p, len as nat) <= MAX_BUF_BITS,
        8 * data@.len() <= MAX_BUF_BITS,
    ensures
        r@ == packed(dr_request_bits(*p, data@, len as nat)),
        r@.len() == (dr_width(*p, len as nat) + 7) / 8,
{
    let ghost want = dr_request_bits(*p, data@, len as nat);
    let mut payload = bv_from_slice(data);
    bv_truncate(&mut payload, len);
    bv_resize(&mut payload, len, false);
    assert(bv_bits(payload) =~= fit_bits(data@, len as nat));
    let mut buf = bv_new();
    bv_resize(&mut buf, p.dr_pre, false);
    bv_append(&mut buf, &mut payload);
    let total: usize = p.dr_pre + len + p.dr_post;
    bv_resize(&mut buf, total, false);
    assert(bv_bits(buf) =~= want);
    bv_force_align(&mut buf);
    let ghost bits = bv_bits(buf);
    let raw = bv_into_vec(buf);
    let r = clear_tail(raw, total);
    proof {
        lemma_packed(r@, want);
    }
    r
}

/// The `len` bits of a decoded data reply that belong to the selected TAP: the
/// bits after its `dr_pre` leading bypass bits.
pub open spec fn reply_window(reply: Seq<u8>, dr_pre: nat, len: nat) -> Seq<bool> {
    Seq::new(len, |i: int| bit_of(reply, dr_pre + i))
}

/// The selected TAP's `len` bits of a decoded data reply, packed.
pub fn extract_reply(reply: Vec<u8>, dr_pre: usize, len: usize) -> (r: Vec<u8>)
    requires
        dr_pre + len <= 8 * reply@.len(),
        8 * reply@.len() <= MAX_BUF_BITS,
    ensures
        r@ == packed(reply_window(reply@, dr_pre as nat, len as nat)),
{
    let ghost want = reply_window(reply@, dr_pre as nat, len as nat);
    let mut buf = bv_from_vec(reply);
    if dr_pre > 0 {
        buf = bv_split_off(&mut buf, dr_pre);
    }
    bv_truncate(&mut buf, len);
    assert(bv_bits(buf) =~= want);
    bv_force_align(&mut buf);
    let raw = bv_into_vec(buf);
    let r = clear_tail(raw, len);
    proof {
        lemma_packed(r@, want);
    }
    r
}

/// Width of the instruction register of the whole chain.
pub open spec fn ir_width(p: ChainParams) -> nat {
    (p.ir_pre + p.ir_length + p.ir_post) as nat
}

/// `address` fits in the selected TAP's instruction register.
pub open spec fn address_fits(p: ChainParams, address: u32) -> bool {
    (address as nat) < pow2(p.ir_length as nat)
}

/// The chain's instruction value that selects register `address` of the
/// selected TAP: `ir_pre` set bits (BYPASS of the TAPs before it), the
/// address in the next `ir_length` bits, then `ir_post` set bits.
pub open spec fn ir_value(p: ChainParams, address: nat) -> nat {
    ((pow2(p.ir_pre as nat) - 1) + address * pow2(p.ir_pre as nat) + (pow2(p.ir_post as nat) - 1)
        * pow2((p.ir_pre + p.ir_length) as nat)) as nat
}

/// The four little-endian bytes of `v`.
pub open spec fn le_bytes32(v: nat) -> Seq<u8> {
    seq![(v % 0x100) as u8, (v / 0x100 % 0x100) as u8, (v / 0x1_0000 % 0x100) as u8, (v / 0x100_0000 % 0x100) as u8]
}

/// `2^n`.
pub fn pow2_u64(n: usize) -> (r: u64)
    requires
        n <= 32,
    ensures
        r == pow2(n as nat),
{
    let mut r: u64 = 1;
    let mut i: usize = 0;
    proof {
        lemma2_to64();
    }
    while i < n
        invariant
            i <= n <= 32,
            r == pow2(i as nat),
        decreases n - i,
    {
        proof {
            lemma_pow2_unfold((i + 1) as nat);
            if i + 1 < 32 {
                lemma_pow2_strictly_increases((i + 1) as nat, 32);
            }
            lemma2_to64();
        }
        r = r * 2;
        i = i + 1;
    }
    r
}

proof fn lemma_ir_value_bound(p: ChainParams, address: nat)
    requires
        ir_width(p) <= 32,
        address < pow2(p.ir_length as nat),
    ensures
        address * pow2(p.ir_pre as nat) < pow2((p.ir_pre + p.ir_length) as nat),
        pow2(p.ir_pre as nat) - 1 + address * pow2(p.ir_pre as nat) < pow2(
            (p.ir_pre + p.ir_length) as nat,
        ),
        pow2((p.ir_pre + p.ir_length) as nat) <= pow2(ir_width(p)),
        pow2(p.ir_pre as nat) >= 1,
        pow2(p.ir_post as nat) >= 1,
        (pow2(p.ir_post as nat) - 1) * pow2((p.ir_pre + p.ir_length) as nat) < pow2(ir_width(p)),
        ir_value(p, address) < pow2(ir_width(p)),
        pow2(ir_width(p)) <= 0x1_0000_0000,
{
    let a = pow2(p.ir_pre as nat);
    let l = pow2(p.ir_length as nat);
    let c = pow2(p.ir_post as nat);
    let al = pow2((p.ir_pre + p.ir_length) as nat);
    lemma_pow2_pos(p.ir_pre as nat);
    lemma_pow2_pos(p.ir_length as nat);
    lemma_pow2_pos(p.ir_post as nat);
    lemma_pow2_adds(p.ir_pre as nat, p.ir_length as nat);
    lemma_pow2_adds((p.ir_pre + p.ir_length) as nat, p.ir_post as nat);
    assert(al == a * l);
    assert(pow2(ir_width(p)) == al * c);
    lemma_mul_inequality(address as int, l - 1, a as int);
    assert((l - 1) * a == a * l - a) by (nonlinear_arith);
    assert((c - 1) * al == al * c - al) by (nonlinear_arith);
    lemma2_to64();
    if ir_width(p) < 32 {
        lemma_pow2_strictly_increases(ir_width(p), 32);
    }
}

/// The instruction bytes that select register `address` of the selected TAP.
pub fn ir_request(p: &ChainParams, address: u32) -> (r: Vec<u8>)
    requires
        ir_width(*p) <= 32,
        address_fits(*p, address),
    ensures
        r@ == le_bytes32(ir_value(*p, address as nat)),
        ir_value(*p, address as nat) < pow2(ir_width(*p)),
{
    proof {
        lemma_ir_value_bound(*p, address as nat);
    }
    let a = pow2_u64(p.ir_pre);
    let al = pow2_u64(p.ir_pre + p.ir_length);
    let c = pow2_u64(p.ir_post);
    let low: u64 = (a - 1) + address as u64 * a;
    let high: u64 = (c - 1) * al;
    let v: u64 = low + high;
    let mut r: Vec<u8> = Vec::new();
    r.push((v % 0x100) as u8);
    r.push((v / 0x100 % 0x100) as u8);
    r.push((v / 0x1_0000 % 0x100) as u8);
    r.push((v / 0x100_0000 % 0x100) as u8);
    assert(r@ =~= le_bytes32(ir_value(*p, address as nat)));
    r
}

/// Whether `address` fits in the selected TAP's instruction register.
pub fn check_address(p: &ChainParams, address: u32) -> (r: bool)
    requires
        p.ir_length <= 32,
    ensures
        r == address_fits(*p, address),
{
    proof {
        lemma2_to64();
        if p.ir_length < 32 {
            lemma_pow2_strictly_increases(p.ir_length as nat, 32);
        }
    }
    let m = pow2_u64(p.ir_length);
    (address as u64) < m
}

} // verus!
