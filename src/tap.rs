//! The JTAG TAP state machine, and proofs that the TMS walks the probe issues
//! end where each operation needs them to.

use vstd::prelude::*;
use crate::bits::bit_of;
use crate::probe::{dr_entry_tms, exit_tms, ir_entry_tms, reset_tms};

verus! {

/// The sixteen states of a TAP controller.
#[derive(PartialEq, Eq, Structural, Debug, Clone, Copy)]
pub enum TapState {
    TestLogicReset,
    RunTestIdle,
    SelectDrScan,
    CaptureDr,
    ShiftDr,
    Exit1Dr,
    PauseDr,
    Exit2Dr,
    UpdateDr,
    SelectIrScan,
    CaptureIr,
    ShiftIr,
    Exit1Ir,
    PauseIr,
    Exit2Ir,
    UpdateIr,
}

/// The state after one clock with the given TMS level.
pub open spec fn tap_next(s: TapState, tms: bool) -> TapState {
    match s {
        TapState::TestLogicReset => if tms { TapState::TestLogicReset } else { TapState::RunTestIdle },
        TapState::RunTestIdle => if tms { TapState::SelectDrScan } else { TapState::RunTestIdle },
        TapState::SelectDrScan => if tms { TapState::SelectIrScan } else { TapState::CaptureDr },
        TapState::CaptureDr => if tms { TapState::Exit1Dr } else { TapState::ShiftDr },
        TapState::ShiftDr => if tms { TapState::Exit1Dr } else { TapState::ShiftDr },
        TapState::Exit1Dr => if tms { TapState::UpdateDr } else { TapState::PauseDr },
        TapState::PauseDr => if tms { TapState::Exit2Dr } else { TapState::PauseDr },
        TapState::Exit2Dr => if tms { TapState::UpdateDr } else { TapState::ShiftDr },
        TapState::UpdateDr => if tms { TapState::SelectDrScan } else { TapState::RunTestIdle },
        TapState::SelectIrScan => if tms { TapState::TestLogicReset } else { TapState::CaptureIr },
        TapState::CaptureIr => if tms { TapState::Exit1Ir } else { TapState::ShiftIr },
        TapState::ShiftIr => if tms { TapState::Exit1Ir } else { TapState::ShiftIr },
        TapState::Exit1Ir => if tms { TapState::UpdateIr } else { TapState::PauseIr },
        TapState::PauseIr => if tms { TapState::Exit2Ir } else { TapState::PauseIr },
        TapState::Exit2Ir => if tms { TapState::UpdateIr } else { TapState::ShiftIr },
        TapState::UpdateIr => if tms { TapState::SelectDrScan } else { TapState::RunTestIdle },
    }
}

/// The state after clocking the TMS levels `tms` in order.
pub open spec fn tap_walk(s: TapState, tms: Seq<bool>) -> TapState
    decreases tms.len(),
{
    if tms.len() == 0 {
        s
    } else {
        tap_walk(tap_next(s, tms[0]), tms.skip(1))
    }
}

/// The first `n` TMS levels carried by `data`, LSB first.
pub open spec fn tms_bits(data: Seq<u8>, n: nat) -> Seq<bool> {
    Seq::new(n, |i: int| bit_of(data, i))
}

/// TMS levels during a TDI shift of `n` bits: low, and high on the last bit.
pub open spec fn shift_tms_bits(n: nat) -> Seq<bool> {
    Seq::new(n, |i: int| i == n - 1)
}

/// Clocks with TMS held high needed to reach Test-Logic-Reset.
pub open spec fn reset_distance(s: TapState) -> nat {
    match s {
        TapState::TestLogicReset => 0,
        TapState::SelectIrScan => 1,
        TapState::SelectDrScan => 2,
        TapState::RunTestIdle | TapState::UpdateDr | TapState::UpdateIr => 3,
        TapState::Exit1Dr | TapState::Exit2Dr | TapState::Exit1Ir | TapState::Exit2Ir => 4,
        _ => 5,
    }
}

proof fn lemma_walk_concat(s: TapState, a: Seq<bool>, b: Seq<bool>)
    ensures
        tap_walk(s, a + b) == tap_walk(tap_walk(s, a), b),
    decreases a.len(),
{
    if a.len() > 0 {
        assert((a + b).skip(1) =~= a.skip(1) + b);
        lemma_walk_concat(tap_next(s, a[0]), a.skip(1), b);
    }
}

proof fn lemma_walk_high(s: TapState, n: nat)
    requires
        n >= reset_distance(s),
    ensures
        tap_walk(s, Seq::new(n, |i: int| true)) == TapState::TestLogicReset,
    decreases n,
{
    if n > 0 {
        assert(Seq::new(n, |i: int| true).skip(1) =~= Seq::new((n - 1) as nat, |i: int| true));
        lemma_walk_high(tap_next(s, true), (n - 1) as nat);
    }
}

proof fn lemma_walk_low(s: TapState, n: nat)
    requires
        s == TapState::ShiftIr || s == TapState::ShiftDr || s == TapState::RunTestIdle,
    ensures
        tap_walk(s, Seq::new(n, |i: int| false)) == s,
    decreases n,
{
    if n > 0 {
        assert(Seq::new(n, |i: int| false).skip(1) =~= Seq::new((n - 1) as nat, |i: int| false));
        lemma_walk_low(s, (n - 1) as nat);
    }
}

proof fn lemma_tms_constants()
    by (bit_vector)
    ensures
        forall|j: u8| j < 8 ==> (0xffu8 >> j) & 1u8 == 1u8,
        forall|j: u8| j < 7 ==> (0x7fu8 >> j) & 1u8 == 1u8,
        (0x7fu8 >> 7u8) & 1u8 == 0u8,
        (0b0011u8 >> 0u8) & 1u8 == 1u8,
        (0b0011u8 >> 1u8) & 1u8 == 1u8,
        (0b0011u8 >> 2u8) & 1u8 == 0u8,
        (0b0011u8 >> 3u8) & 1u8 == 0u8,
        (0b001u8 >> 0u8) & 1u8 == 1u8,
        (0b001u8 >> 1u8) & 1u8 == 0u8,
        (0b001u8 >> 2u8) & 1u8 == 0u8,
        (0b01u8 >> 0u8) & 1u8 == 1u8,
        (0b01u8 >> 1u8) & 1u8 == 0u8,
        forall|j: u8| (0u8 >> j) & 1u8 == 0u8,
{
}

/// The reset walk ends in Run-Test/Idle from every state.
pub proof fn lemma_reset_reaches_idle(s: TapState)
    ensures
        tap_walk(s, tms_bits(reset_tms(), 40)) == TapState::RunTestIdle,
{
    lemma_tms_constants();
    let high = Seq::new(39, |i: int| true);
    assert forall|i: int| 0 <= i < 40 implies #[trigger] tms_bits(reset_tms(), 40)[i] == (i < 39) by {
        assert(bit_of(reset_tms(), i) == ((reset_tms()[i / 8] >> ((i % 8) as u8)) & 1u8 == 1u8));
    }
    assert(tms_bits(reset_tms(), 40) =~= high + seq![false]);
    lemma_walk_concat(s, high, seq![false]);
    lemma_walk_high(s, 39);
    reveal_with_fuel(tap_walk, 2);
}

/// A TDI shift keeps a TAP in its shift state and leaves it to Exit1 on the
/// last bit.
pub proof fn lemma_shift_leaves_on_last_bit(n: nat)
    requires
        n >= 1,
    ensures
        tap_walk(TapState::ShiftIr, shift_tms_bits(n)) == TapState::Exit1Ir,
        tap_walk(TapState::ShiftDr, shift_tms_bits(n)) == TapState::Exit1Dr,
{
    let low = Seq::new((n - 1) as nat, |i: int| false);
    assert(shift_tms_bits(n) =~= low + seq![true]);
    lemma_walk_concat(TapState::ShiftIr, low, seq![true]);
    lemma_walk_concat(TapState::ShiftDr, low, seq![true]);
    lemma_walk_low(TapState::ShiftIr, (n - 1) as nat);
    lemma_walk_low(TapState::ShiftDr, (n - 1) as nat);
    reveal_with_fuel(tap_walk, 2);
}

/// An instruction-register shift walks from Run-Test/Idle to Shift-IR, shifts,
/// and returns to Run-Test/Idle.
pub proof fn lemma_ir_shift_returns_to_idle(n: nat)
    requires
        n >= 1,
    ensures
        tap_walk(TapState::RunTestIdle, tms_bits(ir_entry_tms(), 4)) == TapState::ShiftIr,
        tap_walk(
            TapState::RunTestIdle,
            tms_bits(ir_entry_tms(), 4) + shift_tms_bits(n) + tms_bits(exit_tms(), 2),
        ) == TapState::RunTestIdle,
{
    lemma_tms_constants();
    let entry = tms_bits(ir_entry_tms(), 4);
    let exit = tms_bits(exit_tms(), 2);
    assert(entry =~= seq![true, true, false, false]);
    assert(exit =~= seq![true, false]);
    reveal_with_fuel(tap_walk, 5);
    lemma_shift_leaves_on_last_bit(n);
    lemma_walk_concat(TapState::RunTestIdle, entry + shift_tms_bits(n), exit);
    lemma_walk_concat(TapState::RunTestIdle, entry, shift_tms_bits(n));
}

/// A data-register shift walks from Run-Test/Idle to Shift-DR, shifts, and
/// returns to Run-Test/Idle.
pub proof fn lemma_dr_shift_returns_to_idle(n: nat)
    requires
        n >= 1,
    ensures
        tap_walk(TapState::RunTestIdle, tms_bits(dr_entry_tms(), 3)) == TapState::ShiftDr,
        tap_walk(
            TapState::RunTestIdle,
            tms_bits(dr_entry_tms(), 3) + shift_tms_bits(n) + tms_bits(exit_tms(), 2),
        ) == TapState::RunTestIdle,
{
    lemma_tms_constants();
    let entry = tms_bits(dr_entry_tms(), 3);
    let exit = tms_bits(exit_tms(), 2);
    assert(entry =~= seq![true, false, false]);
    assert(exit =~= seq![true, false]);
    reveal_with_fuel(tap_walk, 4);
    lemma_shift_leaves_on_last_bit(n);
    lemma_walk_concat(TapState::RunTestIdle, entry + shift_tms_bits(n), exit);
    lemma_walk_concat(TapState::RunTestIdle, entry, shift_tms_bits(n));
}

/// Idle clocks keep a TAP in Run-Test/Idle.
pub proof fn lemma_idle_stays(n: nat)
    ensures
        tap_walk(TapState::RunTestIdle, tms_bits(Seq::new((n + 7) / 8, |i: int| 0u8), n))
            == TapState::RunTestIdle,
{
    lemma_tms_constants();
    let zero = Seq::new((n + 7) / 8, |i: int| 0u8);
    let t = tms_bits(zero, n);
    assert forall|i: int| 0 <= i < n implies !t[i] by {
        assert(zero[i / 8] == 0u8);
    }
    assert(t =~= Seq::new(n, |i: int| false));
    lemma_walk_low(TapState::RunTestIdle, n);
}

} // verus!
