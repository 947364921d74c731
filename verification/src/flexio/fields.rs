//! Fields of the FlexIO registers.
//!
//! Where a field has encodings beyond those that are named here, `Bits` stands for
//! any of them.
use vstd::prelude::*;

verus! {

/// Operating mode of a shifter.
#[derive(Clone, Copy, PartialEq, Eq, Structural, Debug)]
pub enum Smod {
    Disable,
    Transmit,
    Bits(u8),
}

/// Pin output mode of a shifter.
#[derive(Clone, Copy, PartialEq, Eq, Structural, Debug)]
pub enum ShiftctlPincfg {
    Disable,
    Output,
    Bits(u8),
}

/// Pin polarity of a shifter.
#[derive(Clone, Copy, PartialEq, Eq, Structural, Debug)]
pub enum ShiftctlPinpol {
    ActiveHigh,
    ActiveLow,
}

/// Edge of the timer on which a shifter shifts.
#[derive(Clone, Copy, PartialEq, Eq, Structural, Debug)]
pub enum Timpol {
    Posedge,
    Negedge,
}

/// Start bit of a shifter.
#[derive(Clone, Copy, PartialEq, Eq, Structural, Debug)]
pub enum Sstart {
    Value00,
    Value10,
    Bits(u8),
}

/// Stop bit of a shifter.
#[derive(Clone, Copy, PartialEq, Eq, Structural, Debug)]
pub enum Sstop {
    Value00,
    Value11,
    Bits(u8),
}

/// Input source of a shifter: a pin, or the shifter after it.
#[derive(Clone, Copy, PartialEq, Eq, Structural, Debug)]
pub enum Insrc {
    Pin,
    Bits(u8),
}

/// Operating mode of a timer.
#[derive(Clone, Copy, PartialEq, Eq, Structural, Debug)]
pub enum Timod {
    Disable,
    Dual8bitBaud,
    Single16bit,
    Bits(u8),
}

/// Decrement source of a timer.
#[derive(Clone, Copy, PartialEq, Eq, Structural, Debug)]
pub enum Timdec {
    FlexioClkShiftclkTmrOut,
    Bits(u8),
}

/// Enable condition of a timer.
#[derive(Clone, Copy, PartialEq, Eq, Structural, Debug)]
pub enum Timena {
    Enable,
    TmrNminus1En,
    TmrTrighiEn,
    Bits(u8),
}

/// Disable condition of a timer.
#[derive(Clone, Copy, PartialEq, Eq, Structural, Debug)]
pub enum Timdis {
    Never,
    TmrCmp,
    Bits(u8),
}

/// Reset condition of a timer.
#[derive(Clone, Copy, PartialEq, Eq, Structural, Debug)]
pub enum Timrst {
    Never,
    Bits(u8),
}

/// Output of a timer when it starts and is reset.
#[derive(Clone, Copy, PartialEq, Eq, Structural, Debug)]
pub enum Timout {
    One,
    Bits(u8),
}

/// Stop bit of a timer.
#[derive(Clone, Copy, PartialEq, Eq, Structural, Debug)]
pub enum Tstop {
    StopDisable,
    EnableTmrdisable,
    Bits(u8),
}

/// Pin output mode of a timer.
#[derive(Clone, Copy, PartialEq, Eq, Structural, Debug)]
pub enum TimctlPincfg {
    Outdisable,
    Output,
    Bits(u8),
}

/// Pin polarity of a timer.
#[derive(Clone, Copy, PartialEq, Eq, Structural, Debug)]
pub enum TimctlPinpol {
    ActiveHigh,
    ActiveLow,
}

/// Polarity of a timer's trigger.
#[derive(Clone, Copy, PartialEq, Eq, Structural, Debug)]
pub enum Trgpol {
    ActiveHigh,
    ActiveLow,
}

/// Where a timer's trigger comes from.
#[derive(Clone, Copy, PartialEq, Eq, Structural, Debug)]
pub enum Trgsrc {
    ExtTrig,
    InternalTrig,
}

/// SHIFTCFG.
#[derive(Clone, Copy, PartialEq, Eq, Structural, Debug)]
pub struct Shiftcfg {
    pub sstart: Sstart,
    pub sstop: Sstop,
    pub insrc: Insrc,
}

/// SHIFTCTL.
#[derive(Clone, Copy, PartialEq, Eq, Structural, Debug)]
pub struct Shiftctl {
    pub smod: Smod,
    pub pinsel: u8,
    pub pincfg: ShiftctlPincfg,
    pub pinpol: ShiftctlPinpol,
    pub timpol: Timpol,
    pub timsel: u8,
}

/// TIMCFG.
#[derive(Clone, Copy, PartialEq, Eq, Structural, Debug)]
pub struct Timcfg {
    pub timdec: Timdec,
    pub timena: Timena,
    pub timdis: Timdis,
    pub timrst: Timrst,
    pub timout: Timout,
    pub tstop: Tstop,
    pub tstart: bool,
}

/// TIMCTL.
#[derive(Clone, Copy, PartialEq, Eq, Structural, Debug)]
pub struct Timctl {
    pub timod: Timod,
    pub pinsel: u8,
    pub pincfg: TimctlPincfg,
    pub pinpol: TimctlPinpol,
    pub trgsrc: Trgsrc,
    pub trgpol: Trgpol,
    pub trgsel: u8,
}

} // verus!
