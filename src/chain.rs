//! Chain discovery: decoding the IDCODE and instruction-register passes, and
//! the padding needed to address one TAP through the chain.

use vstd::prelude::*;
use crate::bits::{bytes_bits, get_bit};
use crate::error::ProbeError;

verus! {

/// IDCODE word that marks the end of the chain.
pub const END_OF_CHAIN: u32 = 0xffff_ffff;

/// One TAP found on the chain, in TDI-to-TDO order.
#[derive(PartialEq, Eq, Structural, Debug, Clone, Copy)]
pub struct TapDescriptor {
    pub idcode: u32,
    pub ir_length: usize,
}

/// Padding around one selected TAP: instruction bits before and after it,
/// bypass bits (one per TAP) before and after it, and its own IR length.
#[derive(PartialEq, Eq, Structural, Debug, Clone, Copy)]
pub struct ChainParams {
    pub ir_pre: usize,
    pub ir_post: usize,
    pub dr_pre: usize,
    pub dr_post: usize,
    pub ir_length: usize,
}

/// Little-endian 32-bit word `i` of a byte buffer.
pub open spec fn le_word(r: Seq<u8>, i: int) -> u32 {
    (r[4 * i] as int + r[4 * i + 1] as int * 0x100 + r[4 * i + 2] as int * 0x1_0000 + r[4 * i
        + 3] as int * 0x100_0000) as u32
}

/// Index of the first end-of-chain word at or after `i`, or `max`.
pub open spec fn id_end(r: Seq<u8>, max: nat, i: nat) -> nat
    decreases max - i,
{
    if i >= max || le_word(r, i as int) == END_OF_CHAIN {
        i
    } else {
        id_end(r, max, i + 1)
    }
}

/// The IDCODEs read from the first `max` words of an IDCODE pass, up to the
/// first end-of-chain word.
pub open spec fn scan_idcodes(r: Seq<u8>, max: nat) -> Seq<u32> {
    Seq::new(id_end(r, max, 0), |i: int| le_word(r, i))
}

/// The IDCODEs of an IDCODE pass over `max` words, in chain order.
pub fn parse_idcodes(r: &[u8], max: usize) -> (ids: Vec<u32>)
    requires
        r@.len() >= 4 * max,
    ensures
        ids@ == scan_idcodes(r@, max as nat),
{
    let n: usize = r.len();
    let mut ids: Vec<u32> = Vec::new();
    let mut i: usize = 0;
    let mut done = false;
    while i < max && !done
        invariant
            n == r@.len(),
            r@.len() >= 4 * max,
            i <= max,
            done ==> i < max && le_word(r@, i as int) == END_OF_CHAIN,
            id_end(r@, max as nat, 0) == id_end(r@, max as nat, i as nat),
            ids@ == Seq::new(i as nat, |k: int| le_word(r@, k)),
        decreases max - i + if done { 0int } else { 1int },
    {
        let w: u32 = r[4 * i] as u32 + r[4 * i + 1] as u32 * 0x100 + r[4 * i + 2] as u32 * 0x1_0000
            + r[4 * i + 3] as u32 * 0x100_0000;
        assert(w == le_word(r@, i as int));
        if w == END_OF_CHAIN {
            done = true;
        } else {
            ids.push(w);
            i = i + 1;
            assert(ids@ =~= Seq::new(i as nat, |k: int| le_word(r@, k)));
        }
    }
    assert(id_end(r@, max as nat, i as nat) == i);
    assert(ids@ =~= scan_idcodes(r@, max as nat));
    ids
}

/// First index at or after `i` whose bit is set, or the length.
pub open spec fn next_set(bits: Seq<bool>, i: int) -> int
    decreases bits.len() - i,
{
    if i >= bits.len() {
        bits.len() as int
    } else if bits[i] {
        i
    } else {
        next_set(bits, i + 1)
    }
}

/// Instruction-register lengths of `count` TAPs read from a captured IR pass:
/// each TAP's capture starts with a set bit and runs up to the next set bit.
/// `None` when a TAP's capture does not start with a set bit, or has no set
/// bit after it.
pub open spec fn ir_walk(bits: Seq<bool>, count: nat) -> Option<Seq<nat>>
    decreases count,
{
    if count == 0 {
        Some(Seq::empty())
    } else if bits.len() == 0 || !bits[0] {
        None
    } else {
        let j = next_set(bits, 1);
        if j >= bits.len() {
            None
        } else {
            match ir_walk(bits.skip(j), (count - 1) as nat) {
                Some(s) => Some(seq![j as nat] + s),
                None => None,
            }
        }
    }
}

/// `acc` followed by the lengths in `o`, if any.
pub open spec fn prepend(acc: Seq<nat>, o: Option<Seq<nat>>) -> Option<Seq<nat>> {
    match o {
        Some(s) => Some(acc + s),
        None => None,
    }
}

proof fn lemma_ir_walk_len(bits: Seq<bool>, count: nat)
    ensures
        ir_walk(bits, count) is Some ==> ir_walk(bits, count).unwrap().len() == count,
    decreases count,
{
    if count > 0 && bits.len() > 0 && bits[0] {
        let j = next_set(bits, 1);
        if j < bits.len() {
            lemma_ir_walk_len(bits.skip(j), (count - 1) as nat);
        }
    }
}

/// A vector of lengths as naturals.
pub open spec fn as_nats(v: Seq<usize>) -> Seq<nat> {
    v.map_values(|x: usize| x as nat)
}

/// The instruction-register lengths of `count` TAPs from an IR pass capture.
pub fn parse_ir_lengths(r: &[u8], count: usize) -> (res: Result<Vec<usize>, ProbeError>)
    requires
        8 * r@.len() <= usize::MAX,
    ensures
        match ir_walk(bytes_bits(r@), count as nat) {
            Some(s) => res.is_ok() && as_nats(res.unwrap()@) == s,
            None => res == Err::<Vec<usize>, ProbeError>(ProbeError::ProtocolDataError),
        },
{
    let ghost bits = bytes_bits(r@);
    let nbits: usize = 8 * r.len();
    let mut lens: Vec<usize> = Vec::new();
    let mut pos: usize = 0;
    let mut t: usize = 0;
    proof {
        assert(bits.skip(0) =~= bits);
        if let Some(q) = ir_walk(bits, count as nat) {
            assert(as_nats(lens@) + q =~= q);
        }
    }
    while t < count
        invariant
            bits == bytes_bits(r@),
            nbits == bits.len(),
            pos <= nbits,
            t <= count,
            ir_walk(bits, count as nat) == prepend(
                as_nats(lens@),
                ir_walk(bits.skip(pos as int), (count - t) as nat),
            ),
        decreases count - t,
    {
        let ghost s = bits.skip(pos as int);
        if pos >= nbits || !get_bit(r, pos) {
            return Err(ProbeError::ProtocolDataError);
        }
        let mut j: usize = pos + 1;
        while j < nbits && !get_bit(r, j)
            invariant
                bits == bytes_bits(r@),
                nbits == bits.len(),
                s == bits.skip(pos as int),
                pos < j <= nbits,
                next_set(s, 1) == next_set(s, j - pos),
            decreases nbits - j,
        {
            j = j + 1;
        }
        assert(next_set(s, j - pos) == j - pos);
        if j >= nbits {
            return Err(ProbeError::ProtocolDataError);
        }
        let ghost old_lens = as_nats(lens@);
        lens.push(j - pos);
        proof {
            assert(s.skip(j - pos) =~= bits.skip(j as int));
            assert(as_nats(lens@) =~= old_lens.push((j - pos) as nat));
            let rest = ir_walk(bits.skip(j as int), (count - t - 1) as nat);
            if let Some(q) = rest {
                assert(old_lens + (seq![(j - pos) as nat] + q) =~= as_nats(lens@) + q);
            }
        }
        pos = j;
        t = t + 1;
    }
    assert(as_nats(lens@) + Seq::<nat>::empty() =~= as_nats(lens@));
    Ok(lens)
}

/// Outcome of a chain scan, from the decoded IDCODE pass over `max` words and
/// the decoded IR pass: one descriptor per IDCODE found, with the IR lengths
/// read for them in order.
pub open spec fn scan_outcome(idr: Seq<u8>, irr: Seq<u8>, max: nat) -> Result<
    Seq<TapDescriptor>,
    ProbeError,
> {
    let ids = scan_idcodes(idr, max);
    match ir_walk(bytes_bits(irr), ids.len()) {
        Some(lens) => Ok(
            Seq::new(ids.len(), |i: int| TapDescriptor { idcode: ids[i], ir_length: lens[i] as usize }),
        ),
        None => Err(ProbeError::ProtocolDataError),
    }
}

/// The TAPs described by a decoded IDCODE pass over `max` words and a decoded
/// IR pass.
pub fn decode_scan(idr: &[u8], irr: &[u8], max: usize) -> (res: Result<Vec<TapDescriptor>, ProbeError>)
    requires
        idr@.len() >= 4 * max,
        8 * irr@.len() <= usize::MAX,
    ensures
        match scan_outcome(idr@, irr@, max as nat) {
            Ok(taps) => res.is_ok() && res.unwrap()@ == taps,
            Err(e) => res == Err::<Vec<TapDescriptor>, ProbeError>(e),
        },
{
    let ids = parse_idcodes(idr, max);
    let lens = match parse_ir_lengths(irr, ids.len()) {
        Ok(lens) => lens,
        Err(e) => {
            return Err(e);
        },
    };
    let ghost walk = ir_walk(bytes_bits(irr@), ids@.len());
    proof {
        lemma_ir_walk_len(bytes_bits(irr@), ids@.len());
    }
    let mut taps: Vec<TapDescriptor> = Vec::new();
    let mut i: usize = 0;
    while i < ids.len()
        invariant
            walk is Some,
            walk.unwrap().len() == ids@.len(),
            as_nats(lens@) == walk.unwrap(),
            i <= ids@.len(),
            taps@ == Seq::new(
                i as nat,
                |k: int| TapDescriptor { idcode: ids@[k], ir_length: walk.unwrap()[k] as usize },
            ),
        decreases ids@.len() - i,
    {
        assert(walk.unwrap()[i as int] == lens@[i as int] as nat);
        taps.push(TapDescriptor { idcode: ids[i], ir_length: lens[i] });
        i = i + 1;
        assert(taps@ =~= Seq::new(
            i as nat,
            |k: int| TapDescriptor { idcode: ids@[k], ir_length: walk.unwrap()[k] as usize },
        ));
    }
    Ok(taps)
}

/// What a TAP whose instruction register is `len` bits long captures in an IR
/// pass: a set bit followed by `len - 1` clear bits.
pub open spec fn tap_ir_capture(len: nat) -> Seq<bool> {
    seq![true] + Seq::new((len - 1) as nat, |i: int| false)
}

/// What a chain of TAPs with the given IR lengths captures in an IR pass.
pub open spec fn chain_ir_capture(lens: Seq<nat>) -> Seq<bool>
    decreases lens.len(),
{
    if lens.len() == 0 {
        Seq::empty()
    } else {
        tap_ir_capture(lens[0]) + chain_ir_capture(lens.skip(1))
    }
}

/// The IR lengths of a list of TAPs.
pub open spec fn ir_lengths(taps: Seq<TapDescriptor>) -> Seq<nat> {
    Seq::new(taps.len(), |i: int| taps[i].ir_length as nat)
}

/// The words a chain of TAPs returns in an IDCODE pass over `max` words: the
/// TAPs' IDCODEs, then the all-ones pattern shifted in behind them.
pub open spec fn chain_idcode_word(taps: Seq<TapDescriptor>, i: int) -> u32 {
    if i < taps.len() {
        taps[i].idcode
    } else {
        END_OF_CHAIN
    }
}

proof fn lemma_next_set_run(bits: Seq<bool>, i: int, j: int)
    requires
        0 <= i <= j < bits.len(),
        bits[j],
        forall|k: int| i <= k < j ==> !bits[k],
    ensures
        next_set(bits, i) == j,
    decreases j - i,
{
    if i < j {
        lemma_next_set_run(bits, i + 1, j);
    }
}

proof fn lemma_ir_walk_chain(lens: Seq<nat>, fill: Seq<bool>)
    requires
        forall|i: int| 0 <= i < lens.len() ==> lens[i] >= 1,
        fill.len() >= 1,
        fill[0],
    ensures
        ir_walk(chain_ir_capture(lens) + fill, lens.len()) == Some(lens),
    decreases lens.len(),
{
    if lens.len() > 0 {
        let bits = chain_ir_capture(lens) + fill;
        let tail = lens.skip(1);
        let rest = chain_ir_capture(tail) + fill;
        let l0 = lens[0];
        assert(bits =~= tap_ir_capture(l0) + rest);
        if tail.len() > 0 {
            assert(chain_ir_capture(tail)[0]);
        }
        assert(rest[0]);
        assert(bits[l0 as int] == rest[0]);
        lemma_next_set_run(bits, 1, l0 as int);
        assert(bits.skip(l0 as int) =~= rest);
        lemma_ir_walk_chain(tail, fill);
        assert(seq![l0] + tail =~= lens);
    }
}

/// A scan of a chain of TAPs with known IDCODEs and IR lengths finds exactly
/// those TAPs, in chain order, with their IR lengths; an empty chain gives an
/// empty list. The IDCODE pass returns the IDCODEs followed by all-ones words;
/// the IR pass returns each TAP's capture followed by set filler bits.
pub proof fn lemma_scan_finds_chain(
    taps: Seq<TapDescriptor>,
    idr: Seq<u8>,
    irr: Seq<u8>,
    max: nat,
    fill: Seq<bool>,
)
    requires
        taps.len() <= max,
        idr.len() >= 4 * max,
        forall|i: int| 0 <= i < taps.len() ==> taps[i].idcode != END_OF_CHAIN,
        forall|i: int| 0 <= i < taps.len() ==> taps[i].ir_length >= 1,
        forall|i: int| 0 <= i < max ==> le_word(idr, i) == chain_idcode_word(taps, i),
        fill.len() >= 1,
        forall|i: int| 0 <= i < fill.len() ==> fill[i],
        bytes_bits(irr) == chain_ir_capture(ir_lengths(taps)) + fill,
    ensures
        scan_outcome(idr, irr, max) == Ok::<Seq<TapDescriptor>, ProbeError>(taps),
{
    let k = taps.len();
    assert forall|i: nat| i <= k implies id_end(idr, max, i) == k by {
        lemma_id_end_at(idr, max, taps, i);
    }
    let ids = scan_idcodes(idr, max);
    lemma_ir_walk_chain(ir_lengths(taps), fill);
    assert(Seq::new(
        ids.len(),
        |i: int| TapDescriptor { idcode: ids[i], ir_length: ir_lengths(taps)[i] as usize },
    ) =~= taps);
}

proof fn lemma_id_end_at(idr: Seq<u8>, max: nat, taps: Seq<TapDescriptor>, i: nat)
    requires
        taps.len() <= max,
        i <= taps.len(),
        forall|j: int| 0 <= j < taps.len() ==> taps[j].idcode != END_OF_CHAIN,
        forall|j: int| 0 <= j < max ==> le_word(idr, j) == chain_idcode_word(taps, j),
    ensures
        id_end(idr, max, i) == taps.len(),
    decreases taps.len() - i,
{
    if i < taps.len() {
        lemma_id_end_at(idr, max, taps, i + 1);
    }
}

/// Sum of the IR lengths of `taps[a..b]`.
pub open spec fn ir_sum(taps: Seq<TapDescriptor>, a: int, b: int) -> nat
    decreases b - a,
{
    if b <= a {
        0
    } else {
        ir_sum(taps, a, b - 1) + taps[b - 1].ir_length as nat
    }
}

/// Position of the first TAP at or after `i` with the given IDCODE, or the
/// chain's length.
pub open spec fn find_tap(taps: Seq<TapDescriptor>, idcode: u32, i: int) -> int
    decreases taps.len() - i,
{
    if i >= taps.len() {
        taps.len() as int
    } else if taps[i].idcode == idcode {
        i
    } else {
        find_tap(taps, idcode, i + 1)
    }
}

/// The padding for addressing the TAP at position `p` of the chain.
pub open spec fn params_at(taps: Seq<TapDescriptor>, p: int) -> ChainParams {
    ChainParams {
        ir_pre: ir_sum(taps, 0, p) as usize,
        ir_post: ir_sum(taps, p + 1, taps.len() as int) as usize,
        dr_pre: p as usize,
        dr_post: (taps.len() - p - 1) as usize,
        ir_length: taps[p].ir_length,
    }
}

proof fn lemma_find_tap_from(taps: Seq<TapDescriptor>, idcode: u32, p: int, i: int)
    requires
        0 <= i <= p <= taps.len(),
        p < taps.len() ==> taps[p].idcode == idcode,
        forall|k: int| 0 <= k < p ==> taps[k].idcode != idcode,
    ensures
        find_tap(taps, idcode, i) == p,
    decreases p - i,
{
    if i < p {
        lemma_find_tap_from(taps, idcode, p, i + 1);
    }
}

/// Selecting the TAP at position `p` of a chain of `k`, the first with its
/// IDCODE, pads it with the IR lengths and the count of the `p` TAPs before it
/// and of the `k - p - 1` TAPs after it; an IDCODE that no TAP has is not
/// found.
pub proof fn lemma_select_position(taps: Seq<TapDescriptor>, idcode: u32, p: int)
    requires
        taps.len() <= usize::MAX,
        ir_sum(taps, 0, taps.len() as int) <= usize::MAX,
        0 <= p <= taps.len(),
        p < taps.len() ==> taps[p].idcode == idcode,
        forall|k: int| 0 <= k < p ==> taps[k].idcode != idcode,
    ensures
        find_tap(taps, idcode, 0) == p,
        p < taps.len() ==> ({
            let c = params_at(taps, p);
            &&& c.ir_pre == ir_sum(taps, 0, p)
            &&& c.dr_pre == p
            &&& c.ir_post == ir_sum(taps, p + 1, taps.len() as int)
            &&& c.dr_post == taps.len() - p - 1
            &&& c.ir_length == taps[p].ir_length
        }),
{
    lemma_find_tap_from(taps, idcode, p, 0);
    if p < taps.len() {
        lemma_ir_sum_split(taps, 0, p, taps.len() as int);
        lemma_ir_sum_split(taps, p, p + 1, taps.len() as int);
    }
}

proof fn lemma_ir_sum_split(taps: Seq<TapDescriptor>, a: int, m: int, b: int)
    requires
        a <= m <= b,
    ensures
        ir_sum(taps, a, b) == ir_sum(taps, a, m) + ir_sum(taps, m, b),
    decreases b - m,
{
    if m < b {
        lemma_ir_sum_split(taps, a, m, b - 1);
    }
}

/// The padding for addressing the first TAP of `taps` with the given IDCODE:
/// the IR lengths and the count of the TAPs before it and after it.
pub fn chain_params_for(taps: &Vec<TapDescriptor>, idcode: u32) -> (res: Result<ChainParams, ProbeError>)
    requires
        ir_sum(taps@, 0, taps@.len() as int) <= usize::MAX,
    ensures
        find_tap(taps@, idcode, 0) < taps@.len() ==> res == Ok::<ChainParams, ProbeError>(
            params_at(taps@, find_tap(taps@, idcode, 0)),
        ),
        find_tap(taps@, idcode, 0) >= taps@.len() ==> res == Err::<ChainParams, ProbeError>(
            ProbeError::TargetNotFound,
        ),
{
    let n = taps.len();
    let mut p: usize = 0;
    let mut pre: usize = 0;
    while p < n && taps[p].idcode != idcode
        invariant
            n == taps@.len(),
            p <= n,
            find_tap(taps@, idcode, 0) == find_tap(taps@, idcode, p as int),
            pre == ir_sum(taps@, 0, p as int),
            ir_sum(taps@, 0, n as int) <= usize::MAX,
        decreases n - p,
    {
        proof {
            lemma_ir_sum_split(taps@, 0, p + 1, n as int);
        }
        pre = pre + taps[p].ir_length;
        p = p + 1;
    }
    if p == n {
        return Err(ProbeError::TargetNotFound);
    }
    let mut post: usize = 0;
    let mut q: usize = p + 1;
    while q < n
        invariant
            n == taps@.len(),
            p < q <= n,
            post == ir_sum(taps@, p + 1, q as int),
            ir_sum(taps@, 0, n as int) <= usize::MAX,
        decreases n - q,
    {
        proof {
            lemma_ir_sum_split(taps@, 0, p + 1, n as int);
            lemma_ir_sum_split(taps@, p + 1, q + 1, n as int);
        }
        post = post + taps[q].ir_length;
        q = q + 1;
    }
    Ok(ChainParams { ir_pre: pre, ir_post: post, dr_pre: p, dr_post: n - p - 1, ir_length: taps[p].ir_length })
}

} // verus!
