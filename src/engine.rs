//! Encoding of TMS and TDI shifts into engine commands, and decoding of the
//! bytes the engine captures.

use vstd::prelude::*;

verus! {

/// Clock TMS with data, no capture.
pub const OP_TMS: u8 = 0x4b;
/// Clock TMS with data, capturing TDO.
pub const OP_TMS_CAPTURE: u8 = 0x6b;
/// Clock whole bytes out on TDI, no capture.
pub const OP_BYTES_OUT: u8 = 0x19;
/// Clock whole bytes out on TDI, capturing TDO.
pub const OP_BYTES_INOUT: u8 = 0x39;
/// Clock single bits out on TDI, no capture.
pub const OP_BITS_OUT: u8 = 0x1b;
/// Clock single bits out on TDI, capturing TDO.
pub const OP_BITS_INOUT: u8 = 0x3b;
/// Most whole bytes a single bulk command may carry.
pub const MAX_BULK_BYTES: usize = 65536;

/// Byte `j` of the command sequence that clocks `bits` TMS bits out of `data`:
/// one three-byte command per group of up to eight bits.
pub open spec fn tms_cmd_byte(data: Seq<u8>, bits: nat, j: int) -> u8 {
    let g = j / 3;
    if j % 3 == 0 {
        OP_TMS
    } else if j % 3 == 1 {
        if 8 * g + 8 <= bits {
            7u8
        } else {
            (bits - 8 * g - 1) as u8
        }
    } else {
        data[g]
    }
}

/// Number of eight-bit groups needed for `bits` bits.
pub open spec fn groups(bits: nat) -> nat {
    (bits + 7) / 8
}

/// The commands that clock `bits` TMS bits out of `data`, TDO not captured.
pub open spec fn tms_cmd(data: Seq<u8>, bits: nat) -> Seq<u8> {
    Seq::new(3 * groups(bits), |j: int| tms_cmd_byte(data, bits, j))
}

/// Appends to `out` the commands that clock `bits` TMS bits of `data`.
pub fn push_tms(out: &mut Vec<u8>, data: &[u8], bits: usize)
    requires
        bits > 0,
        groups(bits as nat) <= data@.len(),
    ensures
        final(out)@ == old(out)@ + tms_cmd(data@, bits as nat),
{
    let ghost start = old(out)@;
    let ghost cmd = tms_cmd(data@, bits as nat);
    let n: usize = bits / 8 + if bits % 8 == 0 { 0 } else { 1 };
    assert(n == groups(bits as nat));
    let mut g: usize = 0;
    while g < n
        invariant
            n == groups(bits as nat),
            n <= data@.len(),
            g <= n,
            cmd == tms_cmd(data@, bits as nat),
            out@ == start + cmd.take(3 * g),
        decreases n - g,
    {
        let len_field: u8 = if bits - 8 * g >= 8 { 7 } else { (bits - 8 * g - 1) as u8 };
        out.push(OP_TMS);
        out.push(len_field);
        out.push(data[g]);
        proof {
            assert((3 * g) / 3 == g && (3 * g) % 3 == 0) by (nonlinear_arith);
            assert((3 * g + 1) / 3 == g && (3 * g + 1) % 3 == 1) by (nonlinear_arith);
            assert((3 * g + 2) / 3 == g && (3 * g + 2) % 3 == 2) by (nonlinear_arith);
            assert(cmd.take(3 * (g + 1)) =~= cmd.take(3 * g).push(OP_TMS).push(len_field).push(
                data@[g as int],
            ));
        }
        g = g + 1;
    }
    assert(cmd.take(3 * n) =~= cmd);
}

/// Whole bytes of a TDI shift of `bits` bits: all but the last one to eight bits.
pub open spec fn full_bytes(bits: nat) -> nat {
    ((bits - 1) as nat) / 8
}

/// Bits left for the final partial group of a TDI shift (one to eight).
pub open spec fn rem_bits(bits: nat) -> nat {
    (bits - 8 * full_bytes(bits)) as nat
}

/// Whether `bits` is a TDI shift width the engine can take in one go.
pub open spec fn tdi_width_ok(bits: nat) -> bool {
    bits > 0 && full_bytes(bits) <= MAX_BULK_BYTES
}

/// The final TMS command's data byte: TMS high (leaving the shift state) while
/// the last data bit, bit `rem - 1` of `b`, is driven on TDI.
pub open spec fn last_tms_byte(b: u8, rem: nat) -> u8 {
    0x01u8 | (((b >> ((rem - 1) as u8)) & 1u8) << 7u8)
}

/// The commands that shift `bits` bits of `data` through TDI and leave the
/// shift state on the last one; with `capture`, every command captures TDO.
pub open spec fn tdi_cmd(data: Seq<u8>, bits: nat, capture: bool) -> Seq<u8> {
    let full = full_bytes(bits);
    let rem = rem_bits(bits);
    let b = data[full as int];
    let bulk = if full > 0 {
        seq![
            if capture { OP_BYTES_INOUT } else { OP_BYTES_OUT },
            ((full - 1) as nat % 256) as u8,
            ((full - 1) as nat / 256) as u8,
        ] + data.take(full as int)
    } else {
        Seq::<u8>::empty()
    };
    let partial = if rem > 1 {
        seq![if capture { OP_BITS_INOUT } else { OP_BITS_OUT }, (rem - 2) as u8, b]
    } else {
        Seq::<u8>::empty()
    };
    bulk + partial + seq![
        if capture { OP_TMS_CAPTURE } else { OP_TMS },
        0u8,
        last_tms_byte(b, rem),
    ]
}

proof fn lemma_full_rem(bits: nat)
    requires
        bits > 0,
    ensures
        1 <= rem_bits(bits) <= 8,
        8 * full_bytes(bits) + rem_bits(bits) == bits,
        full_bytes(bits) < groups(bits),
        groups(bits) == full_bytes(bits) + 1,
{
}

/// Appends to `out` the commands that shift `bits` bits of `data` through TDI,
/// leaving the shift state on the last bit; `capture` asks for TDO.
pub fn push_tdi(out: &mut Vec<u8>, data: &[u8], bits: usize, capture: bool)
    requires
        tdi_width_ok(bits as nat),
        groups(bits as nat) <= data@.len(),
    ensures
        final(out)@ == old(out)@ + tdi_cmd(data@, bits as nat, capture),
{
    proof {
        lemma_full_rem(bits as nat);
    }
    let ghost start = old(out)@;
    let full: usize = (bits - 1) / 8;
    let rem: usize = bits - 8 * full;
    if full > 0 {
        let n: usize = full - 1;
        out.push(if capture { OP_BYTES_INOUT } else { OP_BYTES_OUT });
        out.push((n % 256) as u8);
        out.push((n / 256) as u8);
        let ghost mid = out@;
        let mut i: usize = 0;
        while i < full
            invariant
                full <= data@.len(),
                i <= full,
                out@ == mid + data@.take(i as int),
            decreases full - i,
        {
            out.push(data[i]);
            assert(data@.take(i + 1) =~= data@.take(i as int).push(data@[i as int]));
            i = i + 1;
        }
    }
    let ghost after_bulk = out@;
    let b = data[full];
    if rem > 1 {
        out.push(if capture { OP_BITS_INOUT } else { OP_BITS_OUT });
        out.push((rem - 2) as u8);
        out.push(b);
    }
    let ghost after_partial = out@;
    let sh = (rem - 1) as u8;
    let last = 0x01u8 | (((b >> sh) & 1u8) << 7u8);
    out.push(if capture { OP_TMS_CAPTURE } else { OP_TMS });
    out.push(0u8);
    out.push(last);
    assert(out@ =~= old(out)@ + tdi_cmd(data@, bits as nat, capture));
}

/// Bytes the engine returns for a captured TDI shift of `bits` bits: one per
/// whole byte, one for the partial group when it holds more than one bit, and
/// one for the bit clocked with the final TMS command.
pub open spec fn reply_len(bits: nat) -> nat {
    full_bytes(bits) + 1 + if rem_bits(bits) > 1 {
        1nat
    } else {
        0nat
    }
}

/// The last output byte, gathered from the engine's partial-group capture and
/// final-bit capture. In LSB-first mode the engine shifts captured bits in from
/// the top of a byte, so `k` captured bits stand in its high `k` bits.
pub open spec fn last_capture_byte(reply: Seq<u8>, full: nat, rem: nat) -> u8 {
    if rem > 1 {
        (reply[full as int] >> ((9 - rem) as u8)) | ((reply[full + 1int] >> 7u8) << ((rem - 1) as u8))
    } else {
        reply[full as int] >> 7u8
    }
}

/// The captured bits of a TDI shift of `bits` bits, packed LSB-first: the whole
/// bytes as received, then the low `rem_bits(bits)` bits of one more byte.
pub open spec fn decode_capture(reply: Seq<u8>, bits: nat) -> Seq<u8> {
    reply.take(full_bytes(bits) as int).push(
        last_capture_byte(reply, full_bytes(bits), rem_bits(bits)),
    )
}

/// Packs the engine's reply to a captured TDI shift of `bits` bits.
pub fn decode_reply(reply: &[u8], bits: usize) -> (r: Vec<u8>)
    requires
        tdi_width_ok(bits as nat),
        reply@.len() == reply_len(bits as nat),
    ensures
        r@ == decode_capture(reply@, bits as nat),
{
    proof {
        lemma_full_rem(bits as nat);
    }
    let full: usize = (bits - 1) / 8;
    let rem: usize = bits - 8 * full;
    let mut r: Vec<u8> = Vec::new();
    let mut i: usize = 0;
    while i < full
        invariant
            full < reply@.len(),
            i <= full,
            r@ == reply@.take(i as int),
        decreases full - i,
    {
        r.push(reply[i]);
        assert(reply@.take(i + 1) =~= reply@.take(i as int).push(reply@[i as int]));
        i = i + 1;
    }
    let last: u8 = if rem > 1 {
        (reply[full] >> ((9 - rem) as u8)) | ((reply[full + 1] >> 7u8) << ((rem - 1) as u8))
    } else {
        reply[full] >> 7u8
    };
    r.push(last);
    r
}

/// What the engine returns for a captured TDI shift of `bits` bits of `data`
/// when TDO is looped back to TDI.
pub open spec fn loopback_reply(data: Seq<u8>, bits: nat) -> Seq<u8> {
    let full = full_bytes(bits);
    let rem = rem_bits(bits);
    let b = data[full as int];
    let partial = if rem > 1 {
        seq![b << ((9 - rem) as u8)]
    } else {
        Seq::<u8>::empty()
    };
    data.take(full as int) + partial + seq![((b >> ((rem - 1) as u8)) & 1u8) << 7u8]
}

/// The low `rem` bits of a byte (`rem` from one to eight).
pub open spec fn low_bits(b: u8, rem: nat) -> u8 {
    b & (0xffu8 >> ((8 - rem) as u8))
}

proof fn lemma_loopback_byte(b: u8, r: u8)
    by (bit_vector)
    requires
        2 <= r <= 8,
    ensures
        ((b << ((9 - r) as u8)) >> ((9 - r) as u8)) | (((((b >> ((r - 1) as u8)) & 1u8) << 7u8)
            >> 7u8) << ((r - 1) as u8)) == b & (0xffu8 >> ((8 - r) as u8)),
{
}

proof fn lemma_loopback_bit(b: u8)
    by (bit_vector)
    ensures
        (((b >> 0u8) & 1u8) << 7u8) >> 7u8 == b & (0xffu8 >> 7u8),
{
}

/// A TDI shift of any width, looped back through a captured shift and decoded,
/// reproduces the low `bits` bits of its data and clears the bits above them.
pub proof fn lemma_loopback_round_trip(data: Seq<u8>, bits: nat)
    requires
        tdi_width_ok(bits),
        groups(bits) <= data.len(),
    ensures
        loopback_reply(data, bits).len() == reply_len(bits),
        decode_capture(loopback_reply(data, bits), bits) == data.take(full_bytes(bits) as int).push(
            low_bits(data[full_bytes(bits) as int], rem_bits(bits)),
        ),
{
    lemma_full_rem(bits);
    let full = full_bytes(bits);
    let rem = rem_bits(bits);
    let b = data[full as int];
    let rep = loopback_reply(data, bits);
    if rem > 1 {
        lemma_loopback_byte(b, rem as u8);
        assert(rep[full as int] == b << ((9 - rem) as u8));
        assert(rep[full + 1int] == ((b >> ((rem - 1) as u8)) & 1u8) << 7u8);
    } else {
        lemma_loopback_bit(b);
        assert(rep[full as int] == ((b >> ((rem - 1) as u8)) & 1u8) << 7u8);
    }
    assert(rep.take(full as int) =~= data.take(full as int));
    assert(decode_capture(rep, bits) =~= data.take(full as int).push(low_bits(b, rem)));
}

} // verus!
