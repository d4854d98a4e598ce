//! The probe: JTAG operations queued as engine commands, and the decisions
//! taken on what the engine captured. Sending the queued bytes and reading the
//! replies is left to the caller.

use vstd::prelude::*;
use crate::bits::bit_of;
use crate::chain::{chain_params_for, decode_scan, find_tap, ir_sum, params_at, scan_outcome, ChainParams, TapDescriptor};
use crate::engine::{
    decode_capture,
    decode_reply,
    groups,
    push_tdi,
    push_tms,
    reply_len,
    tdi_cmd,
    tdi_width_ok,
    tms_cmd,
};
use crate::error::ProbeError;
use crate::register::{
    address_fits,
    build_dr_request,
    check_address,
    dr_request_bits,
    dr_width,
    extract_reply,
    ir_request,
    ir_value,
    ir_width,
    le_bytes32,
    packed,
    reply_window,
};
use crate::bitbuf::MAX_BUF_BITS;

verus! {

/// Default bound on the number of TAPs a scan looks for.
pub const DEFAULT_MAX_DEVICES: usize = 8;
/// Largest bound on the number of TAPs: the IDCODE pass must fit one bulk command.
pub const MAX_DEVICES: usize = 16384;

/// TMS walk from any state to Run-Test/Idle: 39 clocks high, then one low.
pub open spec fn reset_tms() -> Seq<u8> {
    seq![0xffu8, 0xffu8, 0xffu8, 0xffu8, 0x7fu8]
}

/// TMS walk Run-Test/Idle, Select-DR, Select-IR, Capture-IR, Shift-IR (4 clocks).
pub open spec fn ir_entry_tms() -> Seq<u8> {
    seq![0b0011u8]
}

/// TMS walk Run-Test/Idle, Select-DR, Capture-DR, Shift-DR (3 clocks).
pub open spec fn dr_entry_tms() -> Seq<u8> {
    seq![0b001u8]
}

/// TMS walk Exit1, Update, Run-Test/Idle (2 clocks).
pub open spec fn exit_tms() -> Seq<u8> {
    seq![0b01u8]
}

/// Engine set-up: pin levels and directions of both byte banks, loopback off.
pub open spec fn attach_cmd() -> Seq<u8> {
    seq![0x80u8, 0x08u8, 0x0bu8, 0x82u8, 0x00u8, 0x00u8, 0x85u8]
}

/// Commands that stay `cycles` clocks in Run-Test/Idle.
pub open spec fn idle_cmd(cycles: nat) -> Seq<u8> {
    if cycles == 0 {
        Seq::empty()
    } else {
        tms_cmd(Seq::new(groups(cycles), |i: int| 0u8), cycles)
    }
}

/// Commands that shift `bits` bits of `data` through the instruction register
/// and return to Run-Test/Idle.
pub open spec fn ir_cmd(data: Seq<u8>, bits: nat, capture: bool) -> Seq<u8> {
    tms_cmd(ir_entry_tms(), 4) + tdi_cmd(data, bits, capture) + tms_cmd(exit_tms(), 2)
}

/// Commands that walk to Shift-IR and shift `bits` bits of `data` through the
/// instruction register, capturing TDO; the walk back waits for the capture.
pub open spec fn ir_capture_cmd(data: Seq<u8>, bits: nat) -> Seq<u8> {
    tms_cmd(ir_entry_tms(), 4) + tdi_cmd(data, bits, true)
}

/// Commands that walk to Shift-DR and shift `bits` bits of `data` through the
/// data register, capturing TDO; the walk back waits for the capture.
pub open spec fn dr_capture_cmd(data: Seq<u8>, bits: nat) -> Seq<u8> {
    tms_cmd(dr_entry_tms(), 3) + tdi_cmd(data, bits, true)
}

/// Commands that walk from Exit1 back to Run-Test/Idle after a capture.
pub open spec fn exit_cmd() -> Seq<u8> {
    tms_cmd(exit_tms(), 2)
}

/// `n` bytes of all-ones.
pub open spec fn ones(n: nat) -> Seq<u8> {
    Seq::new(n, |i: int| 0xffu8)
}

/// Bits of the IDCODE pass: 32 per possible TAP.
pub open spec fn id_pass_bits(max: nat) -> nat {
    32 * max
}

/// Bits of the IR pass: 8 per possible TAP.
pub open spec fn ir_pass_bits(max: nat) -> nat {
    8 * max
}

/// Commands that open a chain scan: reset, then the captured IDCODE pass.
pub open spec fn scan_id_cmd(max: nat) -> Seq<u8> {
    tms_cmd(reset_tms(), 40) + dr_capture_cmd(ones(4 * max), id_pass_bits(max))
}

/// Commands that follow a good IDCODE capture: the walk back, reset, then the
/// captured IR pass.
pub open spec fn scan_ir_cmd(max: nat) -> Seq<u8> {
    exit_cmd() + tms_cmd(reset_tms(), 40) + ir_capture_cmd(ones(max), ir_pass_bits(max))
}

/// Outcome of checking that exactly `size` bytes came back.
pub open spec fn response_outcome(len: nat, size: nat) -> Result<(), ProbeError> {
    if len < size {
        Err(ProbeError::TransportTimeout)
    } else if len > size {
        Err(ProbeError::ProtocolDataError)
    } else {
        Ok(())
    }
}

/// Whether a `len`-bit register access of the TAP `p` describes fits the engine.
pub open spec fn access_fits(p: ChainParams, len: nat) -> bool {
    &&& 1 <= ir_width(p) <= 32
    &&& tdi_width_ok(dr_width(p, len))
}

/// Commands of a `len`-bit access of register `address` with `data`, up to
/// and including the data capture.
pub open spec fn access_cmd(p: ChainParams, address: u32, data: Seq<u8>, len: nat) -> Seq<u8> {
    ir_cmd(le_bytes32(ir_value(p, address as nat)), ir_width(p), false) + dr_capture_cmd(
        packed(dr_request_bits(p, data, len)),
        dr_width(p, len),
    )
}

/// Commands that follow a good access capture: the walk back, then `idle`
/// clocks in Run-Test/Idle.
pub open spec fn access_tail(idle: nat) -> Seq<u8> {
    exit_cmd() + idle_cmd(idle)
}

/// The selected TAP's bits of the engine's reply to a `len`-bit access.
pub open spec fn access_result(p: ChainParams, reply: Seq<u8>, len: nat) -> Seq<u8> {
    packed(reply_window(decode_capture(reply, dr_width(p, len)), p.dr_pre as nat, len))
}

/// Little-endian value of four bytes.
pub open spec fn le_value(r: Seq<u8>) -> u32 {
    (r[0] as int + r[1] as int * 0x100 + r[2] as int * 0x1_0000 + r[3] as int * 0x100_0000) as u32
}

/// A JTAG probe: the chain padding of the selected TAP, the settle time after
/// register accesses, the bound on the chain length, and the engine commands
/// queued for sending.
pub struct FtdiProbe {
    pub chain_params: Option<ChainParams>,
    pub idle_cycles: u8,
    pub max_device_count: usize,
    pub commands: Vec<u8>,
}

impl FtdiProbe {
    /// The bound on the chain length is one the engine can scan.
    pub open spec fn wf(&self) -> bool {
        1 <= self.max_device_count <= MAX_DEVICES
    }

    /// A probe with no target selected, no idle cycles, a bound of eight TAPs
    /// and nothing queued.
    pub fn open() -> (r: Self)
        ensures
            r.wf(),
            r.chain_params is None,
            r.idle_cycles == 0,
            r.max_device_count == DEFAULT_MAX_DEVICES,
            r.commands@ == Seq::<u8>::empty(),
    {
        FtdiProbe {
            chain_params: None,
            idle_cycles: 0,
            max_device_count: DEFAULT_MAX_DEVICES,
            commands: Vec::new(),
        }
    }

    /// A probe with the given chain-length bound and idle cycles.
    pub fn with_config(max_device_count: usize, idle_cycles: u8) -> (r: Self)
        requires
            1 <= max_device_count <= MAX_DEVICES,
        ensures
            r.wf(),
            r.chain_params is None,
            r.idle_cycles == idle_cycles,
            r.max_device_count == max_device_count,
            r.commands@ == Seq::<u8>::empty(),
    {
        FtdiProbe { chain_params: None, idle_cycles, max_device_count, commands: Vec::new() }
    }

    /// Queues the engine set-up that follows opening the device.
    pub fn attach(&mut self)
        ensures
            final(self).commands@ == old(self).commands@ + attach_cmd(),
            final(self).chain_params == old(self).chain_params,
            final(self).idle_cycles == old(self).idle_cycles,
            final(self).max_device_count == old(self).max_device_count,
    {
        let setup: Vec<u8> = vec![0x80u8, 0x08u8, 0x0bu8, 0x82u8, 0x00u8, 0x00u8, 0x85u8];
        let mut i: usize = 0;
        let ghost start = self.commands@;
        while i < setup.len()
            invariant
                setup@ == attach_cmd(),
                i <= setup@.len(),
                self.commands@ == start + setup@.take(i as int),
                self.chain_params == old(self).chain_params,
                self.idle_cycles == old(self).idle_cycles,
                self.max_device_count == old(self).max_device_count,
            decreases setup@.len() - i,
        {
            self.commands.push(setup[i]);
            assert(setup@.take(i + 1) =~= setup@.take(i as int).push(setup@[i as int]));
            i = i + 1;
        }
        assert(setup@.take(setup@.len() as int) =~= setup@);
    }

    /// Hands out the queued commands, leaving none queued.
    pub fn take_commands(&mut self) -> (r: Vec<u8>)
        ensures
            r@ == old(self).commands@,
            final(self).commands@ == Seq::<u8>::empty(),
            final(self).chain_params == old(self).chain_params,
            final(self).idle_cycles == old(self).idle_cycles,
            final(self).max_device_count == old(self).max_device_count,
    {
        let mut out: Vec<u8> = Vec::new();
        std::mem::swap(&mut out, &mut self.commands);
        out
    }

    /// Queues `bits` TMS clocks taken from `data`.
    pub fn shift_tms(&mut self, data: &[u8], bits: usize)
        requires
            bits > 0,
            groups(bits as nat) <= data@.len(),
        ensures
            final(self).commands@ == old(self).commands@ + tms_cmd(data@, bits as nat),
            final(self).chain_params == old(self).chain_params,
            final(self).idle_cycles == old(self).idle_cycles,
            final(self).max_device_count == old(self).max_device_count,
    {
        push_tms(&mut self.commands, data, bits);
    }

    /// Queues a TDI shift of `bits` bits of `data` that leaves the shift state
    /// on its last bit.
    pub fn shift_tdi(&mut self, data: &[u8], bits: usize)
        requires
            tdi_width_ok(bits as nat),
            groups(bits as nat) <= data@.len(),
        ensures
            final(self).commands@ == old(self).commands@ + tdi_cmd(data@, bits as nat, false),
            final(self).chain_params == old(self).chain_params,
            final(self).idle_cycles == old(self).idle_cycles,
            final(self).max_device_count == old(self).max_device_count,
    {
        push_tdi(&mut self.commands, data, bits, false);
    }

    /// Queues a captured TDI shift of `bits` bits of `data`; returns how many
    /// reply bytes it brings.
    pub fn transfer_tdi(&mut self, data: &[u8], bits: usize) -> (r: usize)
        requires
            tdi_width_ok(bits as nat),
            groups(bits as nat) <= data@.len(),
        ensures
            r == reply_len(bits as nat),
            final(self).commands@ == old(self).commands@ + tdi_cmd(data@, bits as nat, true),
            final(self).chain_params == old(self).chain_params,
            final(self).idle_cycles == old(self).idle_cycles,
            final(self).max_device_count == old(self).max_device_count,
    {
        push_tdi(&mut self.commands, data, bits, true);
        let full: usize = (bits - 1) / 8;
        let rem: usize = bits - 8 * full;
        if rem > 1 {
            full + 2
        } else {
            full + 1
        }
    }

    /// Queues a reset that ends in Run-Test/Idle from any TAP state.
    pub fn reset(&mut self)
        ensures
            final(self).commands@ == old(self).commands@ + tms_cmd(reset_tms(), 40),
            final(self).chain_params == old(self).chain_params,
            final(self).idle_cycles == old(self).idle_cycles,
            final(self).max_device_count == old(self).max_device_count,
    {
        let walk: Vec<u8> = vec![0xffu8, 0xffu8, 0xffu8, 0xffu8, 0x7fu8];
        assert(walk@ =~= reset_tms());
        self.shift_tms(walk.as_slice(), 40);
    }

    /// Queues `cycles` clocks in Run-Test/Idle; none for zero.
    pub fn idle(&mut self, cycles: usize)
        ensures
            final(self).commands@ == old(self).commands@ + idle_cmd(cycles as nat),
            final(self).chain_params == old(self).chain_params,
            final(self).idle_cycles == old(self).idle_cycles,
            final(self).max_device_count == old(self).max_device_count,
    {
        if cycles == 0 {
            assert(self.commands@ =~= old(self).commands@ + idle_cmd(0));
            return;
        }
        let n: usize = cycles / 8 + if cycles % 8 == 0 { 0 } else { 1 };
        let buf: Vec<u8> = vec![0u8; n];
        assert(buf@ =~= Seq::new(groups(cycles as nat), |i: int| 0u8));
        self.shift_tms(buf.as_slice(), cycles);
    }

    /// Queues a shift of `bits` bits of `data` into the instruction register,
    /// returning to Run-Test/Idle.
    pub fn shift_ir(&mut self, data: &[u8], bits: usize)
        requires
            tdi_width_ok(bits as nat),
            groups(bits as nat) <= data@.len(),
        ensures
            final(self).commands@ == old(self).commands@ + ir_cmd(data@, bits as nat, false),
            final(self).chain_params == old(self).chain_params,
            final(self).idle_cycles == old(self).idle_cycles,
            final(self).max_device_count == old(self).max_device_count,
    {
        let entry: Vec<u8> = vec![0b0011u8];
        let exit: Vec<u8> = vec![0b01u8];
        assert(entry@ =~= ir_entry_tms());
        assert(exit@ =~= exit_tms());
        self.shift_tms(entry.as_slice(), 4);
        self.shift_tdi(data, bits);
        self.shift_tms(exit.as_slice(), 2);
        assert(self.commands@ =~= old(self).commands@ + ir_cmd(data@, bits as nat, false));
    }

    /// The probe keeps the chain padding, idle cycles and chain-length bound
    /// of `before`.
    pub open spec fn settings_kept(&self, before: &Self) -> bool {
        &&& self.chain_params == before.chain_params
        &&& self.idle_cycles == before.idle_cycles
        &&& self.max_device_count == before.max_device_count
    }

    /// Queues the walk to Shift-IR and a captured shift of `bits` bits of
    /// `data`; returns how many reply bytes it brings. The walk back to
    /// Run-Test/Idle is queued by `finish_transfer` once the capture is in.
    pub fn transfer_ir(&mut self, data: &[u8], bits: usize) -> (r: usize)
        requires
            tdi_width_ok(bits as nat),
            groups(bits as nat) <= data@.len(),
        ensures
            r == reply_len(bits as nat),
            final(self).commands@ == old(self).commands@ + ir_capture_cmd(data@, bits as nat),
            final(self).settings_kept(old(self)),
    {
        let entry: Vec<u8> = vec![0b0011u8];
        assert(entry@ =~= ir_entry_tms());
        self.shift_tms(entry.as_slice(), 4);
        let r = self.transfer_tdi(data, bits);
        assert(self.commands@ =~= old(self).commands@ + ir_capture_cmd(data@, bits as nat));
        r
    }

    /// Queues the walk to Shift-DR and a captured shift of `bits` bits of
    /// `data`; returns how many reply bytes it brings. The walk back to
    /// Run-Test/Idle is queued by `finish_transfer` once the capture is in.
    pub fn transfer_dr(&mut self, data: &[u8], bits: usize) -> (r: usize)
        requires
            tdi_width_ok(bits as nat),
            groups(bits as nat) <= data@.len(),
        ensures
            r == reply_len(bits as nat),
            final(self).commands@ == old(self).commands@ + dr_capture_cmd(data@, bits as nat),
            final(self).settings_kept(old(self)),
    {
        let entry: Vec<u8> = vec![0b001u8];
        assert(entry@ =~= dr_entry_tms());
        self.shift_tms(entry.as_slice(), 3);
        let r = self.transfer_tdi(data, bits);
        assert(self.commands@ =~= old(self).commands@ + dr_capture_cmd(data@, bits as nat));
        r
    }

    /// Checks that a capture brought exactly `size` bytes: fewer means the read
    /// timed out, more is a protocol error.
    pub fn read_response(reply: &[u8], size: usize) -> (r: Result<(), ProbeError>)
        ensures
            r == response_outcome(reply@.len(), size as nat),
    {
        if reply.len() < size {
            Err(ProbeError::TransportTimeout)
        } else if reply.len() > size {
            Err(ProbeError::ProtocolDataError)
        } else {
            Ok(())
        }
    }

    /// Whether to keep reading a reply of `size` bytes after `received` came
    /// in: only while bytes are missing and the read has not timed out.
    pub fn keep_reading(received: usize, size: usize, timed_out: bool) -> (r: bool)
        ensures
            r == (received < size && !timed_out),
    {
        received < size && !timed_out
    }

    /// The captured bits of a `bits`-bit transfer, from the engine's reply.
    pub fn capture_reply(reply: &[u8], bits: usize) -> (r: Result<Vec<u8>, ProbeError>)
        requires
            tdi_width_ok(bits as nat),
        ensures
            match response_outcome(reply@.len(), reply_len(bits as nat)) {
                Err(e) => r == Err::<Vec<u8>, ProbeError>(e),
                Ok(_) => r.is_ok() && r.unwrap()@ == decode_capture(reply@, bits as nat),
            },
    {
        let full: usize = (bits - 1) / 8;
        let size: usize = if bits - 8 * full > 1 { full + 2 } else { full + 1 };
        match Self::read_response(reply, size) {
            Err(e) => Err(e),
            Ok(()) => Ok(decode_reply(reply, bits)),
        }
    }

    /// Queues the walk from Exit1 back to Run-Test/Idle.
    fn leave_shift(&mut self)
        ensures
            final(self).commands@ == old(self).commands@ + exit_cmd(),
            final(self).settings_kept(old(self)),
    {
        let exit: Vec<u8> = vec![0b01u8];
        assert(exit@ =~= exit_tms());
        self.shift_tms(exit.as_slice(), 2);
    }

    /// Takes the engine's reply to a `bits`-bit `transfer_ir` or `transfer_dr`.
    /// A reply of the wrong length is an error and queues nothing; a good one
    /// queues the walk back to Run-Test/Idle and gives the captured bits.
    pub fn finish_transfer(&mut self, reply: &[u8], bits: usize) -> (r: Result<Vec<u8>, ProbeError>)
        requires
            tdi_width_ok(bits as nat),
        ensures
            match response_outcome(reply@.len(), reply_len(bits as nat)) {
                Err(e) => r == Err::<Vec<u8>, ProbeError>(e) && *final(self) == *old(self),
                Ok(_) => {
                    &&& r.is_ok()
                    &&& r.unwrap()@ == decode_capture(reply@, bits as nat)
                    &&& final(self).commands@ == old(self).commands@ + exit_cmd()
                    &&& final(self).settings_kept(old(self))
                },
            },
    {
        match Self::capture_reply(reply, bits) {
            Err(e) => Err(e),
            Ok(v) => {
                self.leave_shift();
                Ok(v)
            },
        }
    }

    /// Opens a chain scan: queues a reset and the captured IDCODE pass; returns
    /// how many reply bytes it brings.
    pub fn scan(&mut self) -> (r: usize)
        requires
            old(self).wf(),
        ensures
            r == reply_len(id_pass_bits(old(self).max_device_count as nat)),
            final(self).commands@ == old(self).commands@ + scan_id_cmd(old(self).max_device_count as nat),
            final(self).settings_kept(old(self)),
    {
        let max = self.max_device_count;
        self.reset();
        let id_cmd: Vec<u8> = vec![0xffu8; 4 * max];
        assert(id_cmd@ =~= ones(4 * max as nat));
        let n = self.transfer_dr(id_cmd.as_slice(), 32 * max);
        assert(self.commands@ =~= old(self).commands@ + scan_id_cmd(max as nat));
        n
    }

    /// Takes the engine's reply to `scan`. A reply of the wrong length is an
    /// error and queues nothing. A good one gives the decoded IDCODE pass and
    /// the size of the IR pass's reply, having queued the walk back, a reset
    /// and the captured IR pass.
    pub fn scan_id_reply(&mut self, reply: &[u8]) -> (r: Result<(Vec<u8>, usize), ProbeError>)
        requires
            old(self).wf(),
        ensures
            ({
                let max = old(self).max_device_count as nat;
                match response_outcome(reply@.len(), reply_len(id_pass_bits(max))) {
                    Err(e) => r == Err::<(Vec<u8>, usize), ProbeError>(e) && *final(self) == *old(self),
                    Ok(_) => {
                        &&& r.is_ok()
                        &&& r.unwrap().0@ == decode_capture(reply@, id_pass_bits(max))
                        &&& r.unwrap().1 == reply_len(ir_pass_bits(max))
                        &&& final(self).commands@ == old(self).commands@ + scan_ir_cmd(max)
                        &&& final(self).settings_kept(old(self))
                    },
                }
            }),
    {
        let max = self.max_device_count;
        let ids = match Self::capture_reply(reply, 32 * max) {
            Err(e) => {
                return Err(e);
            },
            Ok(v) => v,
        };
        self.leave_shift();
        self.reset();
        let ir_bytes: Vec<u8> = vec![0xffu8; max];
        assert(ir_bytes@ =~= ones(max as nat));
        let n = self.transfer_ir(ir_bytes.as_slice(), 8 * max);
        assert(self.commands@ =~= old(self).commands@ + scan_ir_cmd(max as nat));
        Ok((ids, n))
    }

    /// Takes the engine's reply to the IR pass that `scan_id_reply` queued,
    /// with the decoded IDCODE pass it gave. A reply of the wrong length is an
    /// error and queues nothing; a good one queues the walk back and gives the
    /// TAPs found.
    pub fn scan_reply(&mut self, ids: &[u8], reply: &[u8]) -> (r: Result<Vec<TapDescriptor>, ProbeError>)
        requires
            old(self).wf(),
            ids@.len() >= 4 * old(self).max_device_count,
        ensures
            ({
                let max = old(self).max_device_count as nat;
                match response_outcome(reply@.len(), reply_len(ir_pass_bits(max))) {
                    Err(e) => r == Err::<Vec<TapDescriptor>, ProbeError>(e) && *final(self) == *old(self),
                    Ok(_) => {
                        &&& final(self).commands@ == old(self).commands@ + exit_cmd()
                        &&& final(self).settings_kept(old(self))
                        &&& match scan_outcome(ids@, decode_capture(reply@, ir_pass_bits(max)), max) {
                            Ok(taps) => r.is_ok() && r.unwrap()@ == taps,
                            Err(e) => r == Err::<Vec<TapDescriptor>, ProbeError>(e),
                        }
                    },
                }
            }),
    {
        let max = self.max_device_count;
        let irr = match self.finish_transfer(reply, 8 * max) {
            Err(e) => {
                return Err(e);
            },
            Ok(v) => v,
        };
        decode_scan(ids, irr.as_slice(), max)
    }

    /// Selects the first TAP of `taps` with the given IDCODE as the target of
    /// register accesses, recording the padding around it; on failure the
    /// selection is left as it was.
    pub fn select_target(&mut self, idcode: u32, taps: &Vec<TapDescriptor>) -> (r: Result<(), ProbeError>)
        requires
            ir_sum(taps@, 0, taps@.len() as int) <= usize::MAX,
        ensures
            find_tap(taps@, idcode, 0) < taps@.len() ==> r is Ok && final(self).chain_params == Some(
                params_at(taps@, find_tap(taps@, idcode, 0)),
            ),
            find_tap(taps@, idcode, 0) >= taps@.len() ==> r == Err::<(), ProbeError>(
                ProbeError::TargetNotFound,
            ) && final(self).chain_params == old(self).chain_params,
            final(self).commands@ == old(self).commands@,
            final(self).idle_cycles == old(self).idle_cycles,
            final(self).max_device_count == old(self).max_device_count,
    {
        match chain_params_for(taps, idcode) {
            Ok(p) => {
                self.chain_params = Some(p);
                Ok(())
            },
            Err(e) => Err(e),
        }
    }

    /// The padding of the selected TAP.
    pub fn get_chain_params(&self) -> (r: Result<ChainParams, ProbeError>)
        ensures
            match self.chain_params {
                Some(p) => r == Ok::<ChainParams, ProbeError>(p),
                None => r == Err::<ChainParams, ProbeError>(ProbeError::TargetNotSelected),
            },
    {
        match self.chain_params {
            Some(p) => Ok(p),
            None => Err(ProbeError::TargetNotSelected),
        }
    }

    /// Queues a `len`-bit access of register `address` of the selected TAP with
    /// `data`, up to the data capture; returns how many reply bytes it brings.
    /// Nothing is queued when it fails.
    pub fn target_transfer(&mut self, address: u32, data: &[u8], len: usize) -> (r: Result<usize, ProbeError>)
        requires
            8 * data@.len() <= MAX_BUF_BITS,
            old(self).chain_params matches Some(p) ==> access_fits(p, len as nat),
        ensures
            match old(self).chain_params {
                None => r == Err::<usize, ProbeError>(ProbeError::TargetNotSelected) && *final(self)
                    == *old(self),
                Some(p) => if !address_fits(p, address) {
                    r == Err::<usize, ProbeError>(ProbeError::AddressOutOfRange) && *final(self)
                        == *old(self)
                } else {
                    &&& r == Ok::<usize, ProbeError>(reply_len(dr_width(p, len as nat)) as usize)
                    &&& final(self).commands@ == old(self).commands@ + access_cmd(
                        p,
                        address,
                        data@,
                        len as nat,
                    )
                    &&& final(self).settings_kept(old(self))
                },
            },
    {
        let p = match self.chain_params {
            Some(p) => p,
            None => {
                return Err(ProbeError::TargetNotSelected);
            },
        };
        if !check_address(&p, address) {
            return Err(ProbeError::AddressOutOfRange);
        }
        let ir_bits: usize = p.ir_pre + p.ir_length + p.ir_post;
        let ir = ir_request(&p, address);
        self.shift_ir(ir.as_slice(), ir_bits);
        let dr_bits: usize = p.dr_pre + len + p.dr_post;
        let request = build_dr_request(&p, data, len);
        let n = self.transfer_dr(request.as_slice(), dr_bits);
        assert(self.commands@ =~= old(self).commands@ + access_cmd(p, address, data@, len as nat));
        Ok(n)
    }

    /// Takes the engine's reply to a `len`-bit access. A reply of the wrong
    /// length is an error and queues nothing; a good one queues the walk back
    /// and the idle cycles, and gives the selected TAP's `len` bits.
    pub fn target_reply(&mut self, reply: &[u8], len: usize) -> (r: Result<Vec<u8>, ProbeError>)
        requires
            old(self).chain_params matches Some(p) ==> access_fits(p, len as nat),
        ensures
            match old(self).chain_params {
                None => r == Err::<Vec<u8>, ProbeError>(ProbeError::TargetNotSelected) && *final(self)
                    == *old(self),
                Some(p) => match response_outcome(reply@.len(), reply_len(dr_width(p, len as nat))) {
                    Err(e) => r == Err::<Vec<u8>, ProbeError>(e) && *final(self) == *old(self),
                    Ok(_) => {
                        &&& r.is_ok()
                        &&& r.unwrap()@ == access_result(p, reply@, len as nat)
                        &&& final(self).commands@ == old(self).commands@ + access_tail(
                            old(self).idle_cycles as nat,
                        )
                        &&& final(self).settings_kept(old(self))
                    },
                },
            },
    {
        let p = match self.chain_params {
            Some(p) => p,
            None => {
                return Err(ProbeError::TargetNotSelected);
            },
        };
        let dr_bits: usize = p.dr_pre + len + p.dr_post;
        let decoded = match self.finish_transfer(reply, dr_bits) {
            Err(e) => {
                return Err(e);
            },
            Ok(v) => v,
        };
        let idle = self.idle_cycles as usize;
        self.idle(idle);
        assert(self.commands@ =~= old(self).commands@ + access_tail(old(self).idle_cycles as nat));
        Ok(extract_reply(decoded, p.dr_pre, len))
    }

    /// Queues a `len`-bit read of register `address` of the selected TAP (an
    /// all-zero request), up to the data capture; returns how many reply bytes
    /// it brings.
    pub fn read_register(&mut self, address: u32, len: u32) -> (r: Result<usize, ProbeError>)
        requires
            old(self).chain_params matches Some(p) ==> access_fits(p, len as nat),
        ensures
            match old(self).chain_params {
                None => r == Err::<usize, ProbeError>(ProbeError::TargetNotSelected) && *final(self)
                    == *old(self),
                Some(p) => if !address_fits(p, address) {
                    r == Err::<usize, ProbeError>(ProbeError::AddressOutOfRange) && *final(self)
                        == *old(self)
                } else {
                    &&& r == Ok::<usize, ProbeError>(reply_len(dr_width(p, len as nat)) as usize)
                    &&& final(self).commands@ == old(self).commands@ + access_cmd(
                        p,
                        address,
                        Seq::<u8>::empty(),
                        len as nat,
                    )
                    &&& final(self).settings_kept(old(self))
                },
            },
    {
        let empty: Vec<u8> = Vec::new();
        self.target_transfer(address, empty.as_slice(), len as usize)
    }

    /// Queues a `len`-bit write of `data` to register `address` of the selected
    /// TAP, up to the data capture; returns how many reply bytes it brings.
    pub fn write_register(&mut self, address: u32, data: &[u8], len: u32) -> (r: Result<usize, ProbeError>)
        requires
            8 * data@.len() <= MAX_BUF_BITS,
            old(self).chain_params matches Some(p) ==> access_fits(p, len as nat),
        ensures
            match old(self).chain_params {
                None => r == Err::<usize, ProbeError>(ProbeError::TargetNotSelected) && *final(self)
                    == *old(self),
                Some(p) => if !address_fits(p, address) {
                    r == Err::<usize, ProbeError>(ProbeError::AddressOutOfRange) && *final(self)
                        == *old(self)
                } else {
                    &&& r == Ok::<usize, ProbeError>(reply_len(dr_width(p, len as nat)) as usize)
                    &&& final(self).commands@ == old(self).commands@ + access_cmd(
                        p,
                        address,
                        data@,
                        len as nat,
                    )
                    &&& final(self).settings_kept(old(self))
                },
            },
    {
        self.target_transfer(address, data, len as usize)
    }

    /// Takes the engine's reply to `read_register` or `write_register` with the
    /// same `len`, as `target_reply` does.
    pub fn register_reply(&mut self, reply: &[u8], len: u32) -> (r: Result<Vec<u8>, ProbeError>)
        requires
            old(self).chain_params matches Some(p) ==> access_fits(p, len as nat),
        ensures
            match old(self).chain_params {
                None => r == Err::<Vec<u8>, ProbeError>(ProbeError::TargetNotSelected) && *final(self)
                    == *old(self),
                Some(p) => match response_outcome(reply@.len(), reply_len(dr_width(p, len as nat))) {
                    Err(e) => r == Err::<Vec<u8>, ProbeError>(e) && *final(self) == *old(self),
                    Ok(_) => {
                        &&& r.is_ok()
                        &&& r.unwrap()@ == access_result(p, reply@, len as nat)
                        &&& final(self).commands@ == old(self).commands@ + access_tail(
                            old(self).idle_cycles as nat,
                        )
                        &&& final(self).settings_kept(old(self))
                    },
                },
            },
    {
        self.target_reply(reply, len as usize)
    }

    /// Queues a 32-bit read of register `address` of the selected TAP, up to
    /// the data capture.
    pub fn read_register32(&mut self, address: u32) -> (r: Result<usize, ProbeError>)
        requires
            old(self).chain_params matches Some(p) ==> access_fits(p, 32),
        ensures
            match old(self).chain_params {
                None => r == Err::<usize, ProbeError>(ProbeError::TargetNotSelected) && *final(self)
                    == *old(self),
                Some(p) => if !address_fits(p, address) {
                    r == Err::<usize, ProbeError>(ProbeError::AddressOutOfRange) && *final(self)
                        == *old(self)
                } else {
                    &&& r == Ok::<usize, ProbeError>(reply_len(dr_width(p, 32)) as usize)
                    &&& final(self).commands@ == old(self).commands@ + access_cmd(
                        p,
                        address,
                        Seq::<u8>::empty(),
                        32,
                    )
                    &&& final(self).settings_kept(old(self))
                },
            },
    {
        self.read_register(address, 32)
    }

    /// Queues a 32-bit write of `value` (little-endian) to register `address`
    /// of the selected TAP, up to the data capture.
    pub fn write_register32(&mut self, address: u32, value: u32) -> (r: Result<usize, ProbeError>)
        requires
            old(self).chain_params matches Some(p) ==> access_fits(p, 32),
        ensures
            match old(self).chain_params {
                None => r == Err::<usize, ProbeError>(ProbeError::TargetNotSelected) && *final(self)
                    == *old(self),
                Some(p) => if !address_fits(p, address) {
                    r == Err::<usize, ProbeError>(ProbeError::AddressOutOfRange) && *final(self)
                        == *old(self)
                } else {
                    &&& r == Ok::<usize, ProbeError>(reply_len(dr_width(p, 32)) as usize)
                    &&& final(self).commands@ == old(self).commands@ + access_cmd(
                        p,
                        address,
                        le_bytes32(value as nat),
                        32,
                    )
                    &&& final(self).settings_kept(old(self))
                },
            },
    {
        let bytes: Vec<u8> = vec![
            (value % 0x100) as u8,
            (value / 0x100 % 0x100) as u8,
            (value / 0x1_0000 % 0x100) as u8,
            (value / 0x100_0000 % 0x100) as u8,
        ];
        assert(bytes@ =~= le_bytes32(value as nat));
        self.write_register(address, bytes.as_slice(), 32)
    }

    /// Takes the engine's reply to `read_register32` or `write_register32`:
    /// the 32-bit register value, as `target_reply` does.
    pub fn register32_reply(&mut self, reply: &[u8]) -> (r: Result<u32, ProbeError>)
        requires
            old(self).chain_params matches Some(p) ==> access_fits(p, 32),
        ensures
            match old(self).chain_params {
                None => r == Err::<u32, ProbeError>(ProbeError::TargetNotSelected) && *final(self)
                    == *old(self),
                Some(p) => match response_outcome(reply@.len(), reply_len(dr_width(p, 32))) {
                    Err(e) => r == Err::<u32, ProbeError>(e) && *final(self) == *old(self),
                    Ok(_) => {
                        &&& r == Ok::<u32, ProbeError>(le_value(access_result(p, reply@, 32)))
                        &&& final(self).commands@ == old(self).commands@ + access_tail(
                            old(self).idle_cycles as nat,
                        )
                        &&& final(self).settings_kept(old(self))
                    },
                },
            },
    {
        match self.target_reply(reply, 32) {
            Err(e) => Err(e),
            Ok(v) => {
                proof {
                    let p = old(self).chain_params.unwrap();
                    crate::register::lemma_packed_len(
                        reply_window(decode_capture(reply@, dr_width(p, 32)), p.dr_pre as nat, 32),
                    );
                }
                Ok(v[0] as u32 + v[1] as u32 * 0x100 + v[2] as u32 * 0x1_0000 + v[3] as u32 * 0x100_0000)
            },
        }
    }

    /// Sets the clocks spent in Run-Test/Idle after each register access.
    pub fn set_idle_cycles(&mut self, idle_cycles: u8)
        ensures
            final(self).idle_cycles == idle_cycles,
            final(self).chain_params == old(self).chain_params,
            final(self).max_device_count == old(self).max_device_count,
            final(self).commands@ == old(self).commands@,
    {
        self.idle_cycles = idle_cycles;
    }
}

/// A register that echoes the last value shifted into it reads back what
/// `write_register32` wrote: when the decoded reply to the following
/// `read_register32` carries, in the selected TAP's window, the bits the write
/// shifted into that window, the value read is the value written.
pub proof fn lemma_register32_round_trip(p: ChainParams, value: u32, reply: Seq<u8>)
    requires
        access_fits(p, 32),
        reply_window(decode_capture(reply, dr_width(p, 32)), p.dr_pre as nat, 32) == dr_request_bits(
            p,
            le_bytes32(value as nat),
            32,
        ).subrange(p.dr_pre as int, p.dr_pre + 32),
    ensures
        le_value(access_result(p, reply, 32)) == value,
{
    let w = le_bytes32(value as nat);
    let window = reply_window(decode_capture(reply, dr_width(p, 32)), p.dr_pre as nat, 32);
    assert forall|i: int| 0 <= i < 32 implies bit_of(w, i) == window[i] by {
        assert(window[i] == dr_request_bits(p, w, 32)[p.dr_pre + i]);
        assert(dr_request_bits(p, w, 32)[p.dr_pre + i] == crate::register::fit_bits(w, 32)[i]);
    }
    crate::register::lemma_packed(w, window);
    crate::register::lemma_le_round_trip(value);
}

} // verus!
