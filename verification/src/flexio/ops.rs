//! Operations on FlexIO and on what stands around it, as they are queued.
use super::fields::{Shiftcfg, Shiftctl, Timcfg, Timctl};
use vstd::prelude::*;

verus! {

/// Number of shifters and of timers in a FlexIO peripheral.
pub const UNIT_COUNT: usize = 4;

/// A data register of a shifter.
#[derive(Clone, Copy, PartialEq, Eq, Structural, Debug)]
pub enum FlexioReg {
    /// SHIFTBUF: bit 0 goes out first.
    Shiftbuf(usize),
    /// SHIFTBUFBIS: the same buffer with its bits swapped, so that bit 31 goes out first.
    Shiftbufbis(usize),
}

/// Hardware signal that paces a DMA channel.
#[derive(Clone, Copy, PartialEq, Eq, Structural, Debug)]
pub enum DmaRequest {
    Flexio0Sr0,
    Flexio0Sr1,
    Flexio0Sr2,
    Flexio0Sr3,
}

/// Pull resistor of a pad.
#[derive(Clone, Copy, PartialEq, Eq, Structural, Debug)]
pub enum Pull {
    Disabled,
    Up,
    Down,
}

/// Function of a pad, by the number of the alternative.
#[derive(Clone, Copy, PartialEq, Eq, Structural, Debug)]
pub struct Mux {
    pub alt: u8,
}

/// Operation on a pad.
#[derive(Clone, Copy, PartialEq, Eq, Structural, Debug)]
pub enum PinOp {
    /// Choose the pull resistor.
    SetPull(Pull),
    /// Choose the function.
    SetFunction(Mux),
    /// Switch the input buffer on or off.
    SetInputBuffer(bool),
}

/// Operation on a DMA channel.
#[derive(Clone, Copy, PartialEq, Eq, Structural, Debug)]
pub enum DmaOp {
    /// Stop to follow the hardware requests.
    DisableRequest,
    /// Clear the done flag.
    ClearDone,
    /// Clear the interrupt flag.
    ClearInterrupt,
    /// Choose the signal that paces the channel.
    SetRequestSource(DmaRequest),
    /// Set the channel up to write this many words to one register, an interrupt at
    /// the end.
    SetupWrite { words: usize, dest: FlexioReg },
    /// Follow the hardware requests.
    EnableRequest,
    /// Unmask the interrupt of the channel.
    EnableInterrupt,
    /// Let the caller be woken by the interrupt of the channel.
    Register,
}

/// One operation.
#[derive(Clone, Copy, PartialEq, Eq, Structural, Debug)]
pub enum FlexioOp {
    /// CTRL, written with SWRST as the only field.
    WriteReset(bool),
    /// CTRL: give FLEXEN this value, keep the rest.
    SetEnabled(bool),
    /// Switch the clock of the peripheral off.
    DisableClock,
    /// SHIFTCFG of a shifter.
    Shiftcfg { n: usize, value: Shiftcfg },
    /// SHIFTCTL of a shifter.
    Shiftctl { n: usize, value: Shiftctl },
    /// A data register of a shifter.
    WriteData { reg: FlexioReg, data: u32 },
    /// SHIFTSDEN: take the bits of `clear` out of SSDE and put those of `set` in.
    ModifyShiftsden { clear: u8, set: u8 },
    /// SHIFTSTAT, where a one clears a flag.
    WriteShiftstat(u8),
    /// TIMCMP of a timer.
    TimerCompare { n: usize, value: u16 },
    /// TIMCFG of a timer.
    Timcfg { n: usize, value: Timcfg },
    /// TIMCTL of a timer.
    Timctl { n: usize, value: Timctl },
    /// TIMSTAT, where a one clears a flag.
    WriteTimstat(u8),
    /// An operation on a pad.
    Pin(PinOp),
    /// An operation on a DMA channel.
    Dma(DmaOp),
}

impl DmaRequest {
    /// Number of the signal.
    pub open spec fn signal(self) -> int {
        match self {
            DmaRequest::Flexio0Sr0 => 71,
            DmaRequest::Flexio0Sr1 => 72,
            DmaRequest::Flexio0Sr2 => 73,
            DmaRequest::Flexio0Sr3 => 74,
        }
    }

    /// Number of the signal.
    pub fn number(&self) -> (number: u8)
        ensures
            number == self.signal(),
    {
        match self {
            DmaRequest::Flexio0Sr0 => 71,
            DmaRequest::Flexio0Sr1 => 72,
            DmaRequest::Flexio0Sr2 => 73,
            DmaRequest::Flexio0Sr3 => 74,
        }
    }
}

} // verus!
