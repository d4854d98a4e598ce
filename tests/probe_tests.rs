use jtag_probe::chain::{decode_scan, ChainParams, TapDescriptor};
use jtag_probe::engine::{decode_reply, push_tdi, push_tms};
use jtag_probe::error::ProbeError;
use jtag_probe::probe::FtdiProbe;
use jtag_probe::register::{build_dr_request, extract_reply, ir_request};

/// Engine reply for a captured shift of `bits` bits whose TDO bits, packed
/// LSB-first, are `tdo`: whole bytes as they are, the partial group in the high
/// bits of a byte, the final bit in bit 7.
fn engine_reply(tdo: &[u8], bits: usize) -> Vec<u8> {
    let full = (bits - 1) / 8;
    let rem = bits - 8 * full;
    let mut r = tdo[..full].to_vec();
    let b = tdo[full];
    if rem > 1 {
        r.push(b << (9 - rem));
    }
    r.push(((b >> (rem - 1)) & 1) << 7);
    r
}

/// Replies of an engine whose TDO is wired to TDI, for a command stream.
fn loopback_engine(cmd: &[u8]) -> Vec<u8> {
    let mut out = vec![];
    let mut i = 0;
    while i < cmd.len() {
        match cmd[i] {
            0x4b | 0x1b => i += 3,
            0x19 => {
                let n = cmd[i + 1] as usize + 256 * cmd[i + 2] as usize + 1;
                i += 3 + n;
            }
            0x39 => {
                let n = cmd[i + 1] as usize + 256 * cmd[i + 2] as usize + 1;
                out.extend_from_slice(&cmd[i + 3..i + 3 + n]);
                i += 3 + n;
            }
            0x3b => {
                let n = cmd[i + 1] as usize + 1;
                out.push(cmd[i + 2] << (8 - n));
                i += 3;
            }
            0x6b => {
                out.push(cmd[i + 2] & 0x80);
                i += 3;
            }
            0x80 | 0x82 => i += 3,
            0x85 => i += 1,
            other => panic!("unknown opcode {:#x}", other),
        }
    }
    out
}

fn bit(bytes: &[u8], i: usize) -> bool {
    (bytes[i / 8] >> (i % 8)) & 1 == 1
}

fn pack(bits: &[bool]) -> Vec<u8> {
    let mut v = vec![0u8; (bits.len() + 7) / 8];
    for (i, b) in bits.iter().enumerate() {
        if *b {
            v[i / 8] |= 1 << (i % 8);
        }
    }
    v
}

/// Raw replies of a chain of TAPs (IDCODE, IR length) to the IDCODE pass and
/// the IR pass of a scan bounded by `max`.
fn chain_scan_reply(taps: &[(u32, usize)], max: usize) -> (Vec<u8>, Vec<u8>) {
    let mut ids = vec![];
    for i in 0..max {
        let w = if i < taps.len() { taps[i].0 } else { 0xffff_ffff };
        ids.extend_from_slice(&w.to_le_bytes());
    }
    let mut ir_bits = vec![];
    for &(_, len) in taps {
        ir_bits.push(true);
        for _ in 1..len {
            ir_bits.push(false);
        }
    }
    while ir_bits.len() < 8 * max {
        ir_bits.push(true);
    }
    (engine_reply(&ids, 32 * max), engine_reply(&pack(&ir_bits), 8 * max))
}

fn scanned(taps: &[(u32, usize)]) -> Vec<TapDescriptor> {
    let mut probe = FtdiProbe::open();
    let n1 = probe.scan();
    let (id_reply, ir_reply) = chain_scan_reply(taps, 8);
    assert_eq!(id_reply.len(), n1);
    let (ids, n2) = probe.scan_id_reply(&id_reply).unwrap();
    assert_eq!(ir_reply.len(), n2);
    probe.scan_reply(&ids, &ir_reply).unwrap()
}

fn selected(taps: &[(u32, usize)], idcode: u32) -> FtdiProbe {
    let found = scanned(taps);
    let mut probe = FtdiProbe::open();
    probe.select_target(idcode, &found).unwrap();
    probe
}

#[test]
fn loopback_reproduces_low_bits() {
    let data: Vec<u8> = (0..9u8).map(|i| i.wrapping_mul(0x5b) ^ 0xa7).collect();
    for n in 1..=64usize {
        let mut cmd = vec![];
        push_tdi(&mut cmd, &data, n, true);
        let reply = loopback_engine(&cmd);
        let out = FtdiProbe::capture_reply(&reply, n).unwrap();
        assert_eq!(out.len(), (n + 7) / 8);
        for i in 0..n {
            assert_eq!(bit(&out, i), bit(&data, i), "bit {} of {}", i, n);
        }
        for i in n..8 * out.len() {
            assert!(!bit(&out, i));
        }
    }
}

#[test]
fn tdi_commands_split_bytes_bits_and_last_bit() {
    let mut cmd = vec![];
    push_tdi(&mut cmd, &[0xaa, 0x55, 0x0b], 19, false);
    assert_eq!(cmd, vec![0x19, 0x01, 0x00, 0xaa, 0x55, 0x1b, 0x01, 0x0b, 0x4b, 0x00, 0x01]);
    let mut cmd = vec![];
    push_tdi(&mut cmd, &[0x04], 3, true);
    assert_eq!(cmd, vec![0x3b, 0x01, 0x04, 0x6b, 0x00, 0x81]);
    let mut cmd = vec![];
    push_tdi(&mut cmd, &[0x01], 1, false);
    assert_eq!(cmd, vec![0x4b, 0x00, 0x81]);
}

#[test]
fn tms_commands_group_by_eight() {
    let mut cmd = vec![];
    push_tms(&mut cmd, &[0xff, 0x03], 10);
    assert_eq!(cmd, vec![0x4b, 0x07, 0xff, 0x4b, 0x01, 0x03]);
}

#[test]
fn reset_and_idle_commands() {
    let mut probe = FtdiProbe::open();
    probe.reset();
    probe.idle(0);
    assert_eq!(
        probe.take_commands(),
        vec![0x4b, 7, 0xff, 0x4b, 7, 0xff, 0x4b, 7, 0xff, 0x4b, 7, 0xff, 0x4b, 7, 0x7f]
    );
    probe.idle(10);
    assert_eq!(probe.take_commands(), vec![0x4b, 7, 0, 0x4b, 1, 0]);
    assert!(probe.commands.is_empty());
}

#[test]
fn attach_sets_pins_and_disables_loopback() {
    let mut probe = FtdiProbe::open();
    probe.attach();
    assert_eq!(probe.commands, vec![0x80, 0x08, 0x0b, 0x82, 0x00, 0x00, 0x85]);
}

#[test]
fn shift_ir_walks_through_shift_ir_and_back() {
    let mut probe = FtdiProbe::open();
    probe.shift_ir(&[0x10], 5);
    assert_eq!(
        probe.commands,
        vec![0x4b, 3, 0b0011, 0x1b, 3, 0x10, 0x4b, 0, 0x81, 0x4b, 1, 0b01]
    );
    let mut probe = FtdiProbe::open();
    let n = probe.transfer_dr(&[0x0f], 4);
    assert_eq!(n, 2);
    assert_eq!(probe.take_commands(), vec![0x4b, 2, 0b001, 0x3b, 2, 0x0f, 0x6b, 0, 0x81]);
    assert_eq!(probe.finish_transfer(&[0xa0, 0x80], 4), Ok(vec![0x0d]));
    assert_eq!(probe.commands, vec![0x4b, 1, 0b01]);
    let mut probe = FtdiProbe::open();
    assert_eq!(probe.transfer_ir(&[0xff, 0xff], 16), 3);
    assert_eq!(probe.take_commands(), vec![0x4b, 3, 0b0011, 0x39, 0, 0, 0xff, 0x3b, 6, 0xff, 0x6b, 0, 0x81]);
}

#[test]
fn failed_capture_queues_no_walk_back() {
    let mut probe = FtdiProbe::open();
    probe.transfer_ir(&[0x01], 5);
    probe.take_commands();
    assert_eq!(probe.finish_transfer(&[0x00], 5), Err(ProbeError::TransportTimeout));
    assert!(probe.commands.is_empty());
    assert_eq!(probe.finish_transfer(&[0, 0, 0], 5), Err(ProbeError::ProtocolDataError));
    assert!(probe.commands.is_empty());
    assert!(FtdiProbe::keep_reading(1, 2, false));
    assert!(!FtdiProbe::keep_reading(1, 2, true));
    assert!(!FtdiProbe::keep_reading(2, 2, false));
}

#[test]
fn scan_finds_simulated_chains() {
    let chains: Vec<Vec<(u32, usize)>> = vec![
        vec![],
        vec![(0x1000_563d, 5)],
        vec![(0x4ba0_0477, 4), (0x0696_0041, 5)],
        vec![(0x1, 1), (0x3, 2), (0x5, 3), (0x7, 4), (0x9, 5), (0xb, 6), (0xd, 7), (0xf, 8)],
    ];
    for chain in chains {
        let taps = scanned(&chain);
        assert_eq!(taps.len(), chain.len());
        for (t, &(id, len)) in taps.iter().zip(chain.iter()) {
            assert_eq!(*t, TapDescriptor { idcode: id, ir_length: len });
        }
    }
}

#[test]
fn scan_commands_reset_then_two_passes() {
    let mut probe = FtdiProbe::with_config(1, 0);
    let n = probe.scan();
    assert_eq!(n, 5);
    let reset = [0x4b, 7, 0xff, 0x4b, 7, 0xff, 0x4b, 7, 0xff, 0x4b, 7, 0xff, 0x4b, 7, 0x7f];
    let mut want = reset.to_vec();
    want.extend_from_slice(&[0x4b, 2, 0b001, 0x39, 2, 0, 0xff, 0xff, 0xff, 0x3b, 6, 0xff, 0x6b, 0, 0x81]);
    assert_eq!(probe.take_commands(), want);
    let (id_reply, ir_reply) = chain_scan_reply(&[(0x1000_563d, 5)], 1);
    let (ids, n2) = probe.scan_id_reply(&id_reply).unwrap();
    assert_eq!(ids, 0x1000_563du32.to_le_bytes().to_vec());
    assert_eq!(n2, 2);
    let mut want = vec![0x4b, 1, 1];
    want.extend_from_slice(&reset);
    want.extend_from_slice(&[0x4b, 3, 0b0011, 0x3b, 6, 0xff, 0x6b, 0, 0x81]);
    assert_eq!(probe.take_commands(), want);
    let taps = probe.scan_reply(&ids, &ir_reply).unwrap();
    assert_eq!(taps, vec![TapDescriptor { idcode: 0x1000_563d, ir_length: 5 }]);
    assert_eq!(probe.commands, vec![0x4b, 1, 1]);
}

#[test]
fn scan_rejects_ir_capture_without_leading_one() {
    let mut ids = 0x1000_563du32.to_le_bytes().to_vec();
    ids.extend_from_slice(&[0xff; 28]);
    let ir = [0xfeu8, 0xff, 0xff, 0xff, 0xff, 0xff, 0xff, 0xff];
    assert_eq!(decode_scan(&ids, &ir, 8), Err(ProbeError::ProtocolDataError));
    let ir = [0x01u8, 0, 0, 0, 0, 0, 0, 0];
    assert_eq!(decode_scan(&ids, &ir, 8), Err(ProbeError::ProtocolDataError));
}

#[test]
fn scan_reply_length_errors() {
    let mut probe = FtdiProbe::open();
    probe.scan();
    probe.take_commands();
    let (id_reply, ir_reply) = chain_scan_reply(&[(0x1000_563d, 5)], 8);
    assert_eq!(probe.scan_id_reply(&id_reply[1..]), Err(ProbeError::TransportTimeout));
    assert!(probe.commands.is_empty());
    let mut long = id_reply.clone();
    long.push(0);
    assert_eq!(probe.scan_id_reply(&long), Err(ProbeError::ProtocolDataError));
    assert!(probe.commands.is_empty());
    let (ids, _) = probe.scan_id_reply(&id_reply).unwrap();
    probe.take_commands();
    assert_eq!(probe.scan_reply(&ids, &ir_reply[1..]), Err(ProbeError::TransportTimeout));
    assert!(probe.commands.is_empty());
    let mut long = ir_reply.clone();
    long.push(0);
    assert_eq!(probe.scan_reply(&ids, &long), Err(ProbeError::ProtocolDataError));
    assert!(probe.commands.is_empty());
}

#[test]
fn select_target_absent_and_present() {
    let chain = [(0x11, 4), (0x23, 5), (0x35, 6), (0x47, 7)];
    let taps = scanned(&chain);
    let mut probe = FtdiProbe::open();
    assert_eq!(probe.select_target(0x99, &taps), Err(ProbeError::TargetNotFound));
    assert!(probe.chain_params.is_none());
    probe.select_target(0x35, &taps).unwrap();
    assert_eq!(
        probe.get_chain_params(),
        Ok(ChainParams { ir_pre: 9, ir_post: 7, dr_pre: 2, dr_post: 1, ir_length: 6 })
    );
}

#[test]
fn single_tap_reads_its_idcode() {
    let taps = scanned(&[(0x1000_563d, 5)]);
    assert_eq!(taps, vec![TapDescriptor { idcode: 0x1000_563d, ir_length: 5 }]);
    let mut probe = FtdiProbe::open();
    probe.select_target(0x1000_563d, &taps).unwrap();
    assert_eq!(
        probe.chain_params,
        Some(ChainParams { ir_pre: 0, ir_post: 0, dr_pre: 0, dr_post: 0, ir_length: 5 })
    );
    let n = probe.read_register32(0x01).unwrap();
    let cmds = probe.take_commands();
    assert_eq!(&cmds[..12], &[0x4b, 3, 0b0011, 0x1b, 3, 0x01, 0x4b, 0, 0x01, 0x4b, 1, 1]);
    assert_eq!(cmds.len(), 12 + 3 + 6 + 6);
    let reply = engine_reply(&0x1000_563du32.to_le_bytes(), 32);
    assert_eq!(reply.len(), n);
    assert_eq!(probe.register32_reply(&reply), Ok(0x1000_563d));
    assert_eq!(probe.commands, vec![0x4b, 1, 1]);
}

#[test]
fn second_of_two_taps_is_padded_by_the_first() {
    let probe = selected(&[(0x4ba0_0477, 5), (0x1000_563d, 5)], 0x1000_563d);
    assert_eq!(
        probe.chain_params,
        Some(ChainParams { ir_pre: 5, ir_post: 0, dr_pre: 1, dr_post: 0, ir_length: 5 })
    );
}

#[test]
fn write_then_read_round_trips_on_echo_register() {
    for (chain, target) in [
        (vec![(0x1000_563d, 5)], 0x1000_563d),
        (vec![(0x4ba0_0477, 4), (0x1000_563d, 5), (0x33, 3)], 0x1000_563d),
    ] {
        let mut probe = selected(&chain, target);
        probe.set_idle_cycles(8);
        for value in [0u32, 0xdead_beef, 0x0003_0000, 0xffff_ffff] {
            probe.write_register32(0x10, value).unwrap();
            let echo = loopback_engine(&probe.take_commands());
            assert_eq!(probe.register32_reply(&echo).map(|_| ()), Ok(()));
            probe.read_register32(0x10).unwrap();
            probe.take_commands();
            assert_eq!(probe.register32_reply(&echo), Ok(value));
            probe.take_commands();
        }
    }
}

#[test]
fn address_out_of_range_queues_nothing() {
    let mut probe = selected(&[(0x1000_563d, 5)], 0x1000_563d);
    assert_eq!(probe.read_register(0x20, 32), Err(ProbeError::AddressOutOfRange));
    assert!(probe.commands.is_empty());
    assert_eq!(probe.write_register32(0x20, 1), Err(ProbeError::AddressOutOfRange));
    assert!(probe.commands.is_empty());
    assert!(probe.read_register(0x1f, 32).is_ok());
}

#[test]
fn register_access_needs_a_target() {
    let mut probe = FtdiProbe::open();
    assert_eq!(probe.read_register32(1), Err(ProbeError::TargetNotSelected));
    assert_eq!(probe.register_reply(&[0; 5], 32), Err(ProbeError::TargetNotSelected));
    assert_eq!(probe.write_register(1, &[1], 8), Err(ProbeError::TargetNotSelected));
    assert_eq!(probe.register32_reply(&[0; 5]), Err(ProbeError::TargetNotSelected));
    assert_eq!(probe.get_chain_params(), Err(ProbeError::TargetNotSelected));
    assert!(probe.commands.is_empty());
}

#[test]
fn register_reply_length_errors() {
    let mut probe = selected(&[(0x1000_563d, 5)], 0x1000_563d);
    probe.set_idle_cycles(8);
    probe.read_register32(0x01).unwrap();
    probe.take_commands();
    assert_eq!(probe.register32_reply(&[0; 4]), Err(ProbeError::TransportTimeout));
    assert!(probe.commands.is_empty());
    assert_eq!(probe.register32_reply(&[0; 6]), Err(ProbeError::ProtocolDataError));
    assert!(probe.commands.is_empty());
    assert_eq!(FtdiProbe::read_response(&[1, 2], 2), Ok(()));
}

#[test]
fn idle_cycles_follow_each_access() {
    let mut probe = selected(&[(0x1000_563d, 5)], 0x1000_563d);
    probe.set_idle_cycles(8);
    probe.read_register32(0x11).unwrap();
    let cmds = probe.take_commands();
    assert_eq!(&cmds[cmds.len() - 3..], &[0x6b, 0, 0x01]);
    probe.register32_reply(&[0; 5]).unwrap();
    assert_eq!(probe.commands, vec![0x4b, 1, 1, 0x4b, 7, 0]);
}

#[test]
fn dr_request_pads_and_extends_data() {
    let p = ChainParams { ir_pre: 0, ir_post: 0, dr_pre: 3, dr_post: 2, ir_length: 5 };
    assert_eq!(build_dr_request(&p, &[0xff, 0xff], 6), vec![0xf8, 0x01]);
    assert_eq!(build_dr_request(&p, &[0x01], 12), vec![0x08, 0x00, 0x00]);
}

#[test]
fn reply_extraction_skips_bypass_bits() {
    assert_eq!(extract_reply(vec![0xa8, 0x05, 0xff], 3, 10), vec![0xb5, 0x00]);
    assert_eq!(extract_reply(vec![0x3d, 0x56], 0, 16), vec![0x3d, 0x56]);
}

#[test]
fn ir_value_sets_bypass_around_address() {
    let p = ChainParams { ir_pre: 4, ir_post: 3, dr_pre: 1, dr_post: 1, ir_length: 5 };
    assert_eq!(ir_request(&p, 0x11), vec![0x1f, 0x0f, 0, 0]);
}

#[test]
fn decode_gathers_partial_and_last_bit() {
    assert_eq!(decode_reply(&[0x12, 0xa0, 0x80], 12), vec![0x12, 0x0d]);
    assert_eq!(decode_reply(&[0x80], 1), vec![0x01]);
}
