//! Operations on the USB controller and its clocks, as the driver queues them.
use super::types::Direction;
use vstd::prelude::*;

verus! {

/// Handshake bit of an ENDPT register.
pub const ENDPT_EPHSHK: u8 = 0x01;

/// Stall bit of an ENDPT register.
pub const ENDPT_EPSTALL: u8 = 0x02;

/// Transmit (IN) enable bit of an ENDPT register.
pub const ENDPT_EPTXEN: u8 = 0x04;

/// Receive (OUT) enable bit of an ENDPT register.
pub const ENDPT_EPRXEN: u8 = 0x08;

/// Bit of an ENDPT register that keeps SETUP packets away.
pub const ENDPT_EPCTLDIS: u8 = 0x10;

/// Registers of the controller that are written as a whole.
#[derive(Clone, Copy, PartialEq, Eq, Structural, Debug)]
pub enum UsbReg {
    Usbtrc0,
    Ctl,
    Bdtpage1,
    Bdtpage2,
    Bdtpage3,
    Usbctrl,
    Istat,
    Errstat,
    Erren,
    Inten,
    ClkRecoverIntEn,
    ClkRecoverIntStatus,
    Addr,
    /// The ENDPT register of one endpoint.
    Endpt(usize),
}

/// One of the packet buffers: an endpoint, a direction, and which of its pair.
#[derive(Clone, Copy, PartialEq, Eq, Structural, Debug)]
pub struct BufferId {
    pub ep: usize,
    pub direction: Direction,
    pub odd: bool,
}

/// Operations on the clocks that feed the controller.
#[derive(Clone, Copy, PartialEq, Eq, Structural, Debug)]
pub enum ClockOp {
    /// SCG LDOCSR: set LDOEN, keep the rest.
    EnableLdo,
    /// Spin until SIRCCSR.SIRCVLD reads valid.
    WaitSircValid,
    /// SCG SPLLCSR: give SPLLPWREN and SPLLCLKEN this value, keep the rest.
    SetSpllPower(bool),
    /// SCG SPLLCTRL: SIRC as the source, and these two bandwidth fields.
    WriteSpllCtrl { seli: u8, selp: u8 },
    /// SCG SPLLNDIV: the pre-divider, with or without the request to take it over.
    WriteSpllNdiv { ndiv: u8, request: bool },
    /// SCG SPLLPDIV: the post-divider, with or without the request to take it over.
    WriteSpllPdiv { pdiv: u8, request: bool },
    /// SCG SPLLMDIV: the multiplier, with or without the request to take it over.
    WriteSpllMdiv { mdiv: u16, request: bool },
    /// SCG TRIM_LOCK.
    WriteTrimLock(u32),
    /// SCG SPLLLOCK_CNFG: the lock time.
    WriteSpllLockTime(u32),
    /// Spin until SPLLCSR.SPLL_LOCK reads enabled and valid.
    WaitSpllLock,
    /// MRCC USB0_CLKSEL: the SPLL as the clock root.
    SelectSpll,
    /// MRCC GLB_ACC0: set these bits, keep the rest.
    SetGlbAcc0(u32),
    /// MRCC GLB_CC0: set these bits, keep the rest.
    SetGlbCc0(u32),
    /// Enable the clock gate of USB0 and take it through reset.
    EnableAndReset,
    /// SYSCON CLKUNLOCK: let the clock dividers be written, or freeze them.
    UnlockClocks(bool),
    /// MRCC USB0_CLKDIV, written as a whole.
    WriteClkdiv(u32),
    /// MRCC USB0_CLKDIV: HALT and RESET written as `On`, and this divider.
    RunClkdiv { div: u8 },
    /// SYSCON REMAP: give the controller access to its RAM, keep the rest.
    RemapUsb0,
}

/// One operation on the controller, or on what stands around it.
#[derive(Clone, Copy, PartialEq, Eq, Structural, Debug)]
pub enum UsbOp {
    /// An operation on the clocks.
    Clock(ClockOp),
    /// Let this many turns of an empty loop pass.
    Spin(u32),
    /// Write a register.
    Write { reg: UsbReg, value: u8 },
    /// Read an ENDPT register and write it back with the bits of `clear` taken
    /// out and those of `set` put in.
    ModifyEndpt { ep: usize, clear: u8, set: u8 },
    /// CTL, written with USBENSOFEN as the only bit.
    EnableUsb,
    /// CLK_RECOVER_IRC_EN, written with IRC_EN as the only bit.
    EnableIrc,
    /// CLK_RECOVER_CTRL: clock recovery on, the fine trim kept on a reset and
    /// loaded from the IFR on a restart.
    EnableClockRecovery,
    /// CTL: give ODDRST this value, keep the rest.
    SetOddReset(bool),
    /// CTL: give TXSUSPENDTOKENBUSY this value, keep the rest.
    SetTokenBusy(bool),
    /// CONTROL, written with the D+ pull-up enable as the only bit.
    EnablePullup,
    /// Drop a pending USB0 interrupt.
    UnpendInterrupt,
    /// Unmask the USB0 interrupt.
    EnableInterrupt,
    /// Write the control word of a buffer descriptor.
    BdCtrl { index: usize, ctrl: u32 },
    /// Write the address word of a buffer descriptor: the address of a buffer, or zero.
    BdAddr { index: usize, buffer: Option<BufferId> },
    /// Make all writes so far visible before any that follow.
    Fence,
    /// Wake who waits for bus events.
    WakeBus,
    /// Wake who waits for an IN endpoint.
    WakeIn(usize),
    /// Wake who waits for an OUT endpoint.
    WakeOut(usize),
    /// Let the caller be woken by bus events.
    RegisterBus,
    /// Let the caller be woken by an IN endpoint.
    RegisterIn(usize),
    /// Let the caller be woken by an OUT endpoint.
    RegisterOut(usize),
}

/// Queues a write of the ENDPT register of endpoint `ep`.
pub fn endpoint_write(ops: &mut Vec<UsbOp>, ep: usize, bits: u8)
    requires
        ep < super::types::HW_EP_COUNT,
    ensures
        final(ops)@ == old(ops)@.push(UsbOp::Write { reg: UsbReg::Endpt(ep), value: bits }),
{
    ops.push(UsbOp::Write { reg: UsbReg::Endpt(ep), value: bits });
}

} // verus!
