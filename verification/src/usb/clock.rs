//! Clocks of the USB controller.
use super::ops::{ClockOp, UsbOp};
use vstd::prelude::*;

verus! {

/// Frequency of the slow internal reference clock, in hertz.
pub const SIRC_HZ: u32 = 12_000_000;

/// Pre-divider of the SPLL.
pub const SPLL_NDIV: u8 = 1;

/// Multiplier of the SPLL.
pub const SPLL_MDIV: u16 = 32;

/// Post-divider of the SPLL, which divides by twice this value.
pub const SPLL_PDIV: u8 = 4;

/// Output frequency of the SPLL with the given dividers.
pub open spec fn spll_hz(input: int, ndiv: int, mdiv: int, pdiv: int) -> int {
    input / ndiv * mdiv / pdiv / 2
}

/// Operations that bring up the USB clock: the SPLL is off while its dividers
/// change, and the controller gets the clock when the SPLL has locked.
pub open spec fn clock_ops() -> Seq<UsbOp> {
    seq![
        UsbOp::Clock(ClockOp::EnableLdo),
        UsbOp::Clock(ClockOp::WaitSircValid),
        UsbOp::Clock(ClockOp::SetSpllPower(false)),
        UsbOp::Clock(ClockOp::WriteSpllCtrl { seli: 19, selp: 9 }),
        UsbOp::Clock(ClockOp::WriteSpllNdiv { ndiv: SPLL_NDIV, request: false }),
        UsbOp::Clock(ClockOp::WriteSpllNdiv { ndiv: SPLL_NDIV, request: true }),
        UsbOp::Clock(ClockOp::WriteSpllPdiv { pdiv: SPLL_PDIV, request: false }),
        UsbOp::Clock(ClockOp::WriteSpllPdiv { pdiv: SPLL_PDIV, request: true }),
        UsbOp::Clock(ClockOp::WriteSpllMdiv { mdiv: SPLL_MDIV, request: false }),
        UsbOp::Clock(ClockOp::WriteSpllMdiv { mdiv: SPLL_MDIV, request: true }),
        UsbOp::Clock(ClockOp::WriteTrimLock(0x5a5a_0001)),
        UsbOp::Clock(ClockOp::WriteSpllLockTime(6300)),
        UsbOp::Clock(ClockOp::SetSpllPower(true)),
        UsbOp::Clock(ClockOp::WaitSpllLock),
        UsbOp::Clock(ClockOp::SelectSpll),
        UsbOp::Clock(ClockOp::SetGlbAcc0(0x1000_0800)),
        UsbOp::Clock(ClockOp::SetGlbCc0(0x1000_0000)),
    ]
}

/// Operations that let the clock divider of the controller run.
pub open spec fn unhalt_ops() -> Seq<UsbOp> {
    seq![
        UsbOp::Clock(ClockOp::UnlockClocks(true)),
        UsbOp::Clock(ClockOp::WriteClkdiv(0x6000_0000)),
        UsbOp::Clock(ClockOp::RunClkdiv { div: 0 }),
        UsbOp::Clock(ClockOp::UnlockClocks(false)),
    ]
}

/// Brings up the USB clock.
pub fn configure_usb_clock(ops: &mut Vec<UsbOp>)
    ensures
        final(ops)@ == old(ops)@ + clock_ops(),
{
    ops.push(UsbOp::Clock(ClockOp::EnableLdo));
    ops.push(UsbOp::Clock(ClockOp::WaitSircValid));
    ops.push(UsbOp::Clock(ClockOp::SetSpllPower(false)));
    // SPLL: 12 MHz / 1 * 32 / 4 / 2 = 48 MHz.
    ops.push(UsbOp::Clock(ClockOp::WriteSpllCtrl { seli: 19, selp: 9 }));
    ops.push(UsbOp::Clock(ClockOp::WriteSpllNdiv { ndiv: SPLL_NDIV, request: false }));
    ops.push(UsbOp::Clock(ClockOp::WriteSpllNdiv { ndiv: SPLL_NDIV, request: true }));
    ops.push(UsbOp::Clock(ClockOp::WriteSpllPdiv { pdiv: SPLL_PDIV, request: false }));
    ops.push(UsbOp::Clock(ClockOp::WriteSpllPdiv { pdiv: SPLL_PDIV, request: true }));
    ops.push(UsbOp::Clock(ClockOp::WriteSpllMdiv { mdiv: SPLL_MDIV, request: false }));
    ops.push(UsbOp::Clock(ClockOp::WriteSpllMdiv { mdiv: SPLL_MDIV, request: true }));
    ops.push(UsbOp::Clock(ClockOp::WriteTrimLock(0x5a5a_0001)));
    ops.push(UsbOp::Clock(ClockOp::WriteSpllLockTime(6300)));
    ops.push(UsbOp::Clock(ClockOp::SetSpllPower(true)));
    ops.push(UsbOp::Clock(ClockOp::WaitSpllLock));
    ops.push(UsbOp::Clock(ClockOp::SelectSpll));
    ops.push(UsbOp::Clock(ClockOp::SetGlbAcc0(0x1000_0800)));
    ops.push(UsbOp::Clock(ClockOp::SetGlbCc0(0x1000_0000)));
    assert(ops@ =~= old(ops)@ + clock_ops());
}

/// Lets the clock divider of the controller run.
pub fn unhalt_usb_clock(ops: &mut Vec<UsbOp>)
    ensures
        final(ops)@ == old(ops)@ + unhalt_ops(),
{
    ops.push(UsbOp::Clock(ClockOp::UnlockClocks(true)));
    ops.push(UsbOp::Clock(ClockOp::WriteClkdiv(0x6000_0000)));
    ops.push(UsbOp::Clock(ClockOp::RunClkdiv { div: 0 }));
    ops.push(UsbOp::Clock(ClockOp::UnlockClocks(false)));
    assert(ops@ =~= old(ops)@ + unhalt_ops());
}

/// Gives the controller access to its RAM.
pub fn configure_usb_ram_access(ops: &mut Vec<UsbOp>)
    ensures
        final(ops)@ == old(ops)@.push(UsbOp::Clock(ClockOp::RemapUsb0)),
{
    ops.push(UsbOp::Clock(ClockOp::RemapUsb0));
}

/// The dividers that the clock sequence programs turn the 12 MHz reference into
/// the 48 MHz that USB needs: whatever dividers it writes give that frequency.
pub proof fn law_usb_clock_is_48_mhz(i: int, j: int, k: int)
    requires
        0 <= i < clock_ops().len(),
        0 <= j < clock_ops().len(),
        0 <= k < clock_ops().len(),
        clock_ops()[i] matches UsbOp::Clock(op) && op is WriteSpllNdiv,
        clock_ops()[j] matches UsbOp::Clock(op) && op is WriteSpllMdiv,
        clock_ops()[k] matches UsbOp::Clock(op) && op is WriteSpllPdiv,
    ensures
        spll_hz(
            SIRC_HZ as int,
            clock_ops()[i]->Clock_0->ndiv as int,
            clock_ops()[j]->Clock_0->mdiv as int,
            clock_ops()[k]->Clock_0->pdiv as int,
        ) == 48_000_000,
{
    assert(clock_ops()[i]->Clock_0->ndiv == 1);
    assert(clock_ops()[j]->Clock_0->mdiv == 32);
    assert(clock_ops()[k]->Clock_0->pdiv == 4);
    assert(12_000_000int / 1 * 32 / 4 / 2 == 48_000_000);
}

} // verus!
