//! Configuration of shifters and timers.
use super::fields::{
    Insrc, ShiftctlPincfg, ShiftctlPinpol, Smod, Sstart, Sstop, TimctlPincfg, TimctlPinpol, Timdec,
    Timdis, Timena, Timod, Timout, Timpol, Timrst, Trgpol, Tstop,
};
use vstd::prelude::*;

verus! {

/// Configuration passed to [`super::unit::Shifter::set_config`].
#[derive(Clone, Copy, PartialEq, Eq, Structural, Debug)]
pub struct ShifterConfig {
    /// Operating mode.
    pub smod: Smod,
    /// Lane that the shifter drives or reads.
    pub pin_select: u8,
    /// Output mode of the lane.
    pub pin_cfg: ShiftctlPincfg,
    /// Polarity of the lane.
    pub pin_pol: ShiftctlPinpol,
    /// Edge of the timer on which to shift.
    pub timer_pol: Timpol,
    /// Timer that clocks the shifter.
    pub timer_select: u8,
    /// Start bit.
    pub start_bit: Sstart,
    /// Stop bit.
    pub stop_bit: Sstop,
    /// Input source.
    pub input_source: Insrc,
}

impl Default for ShifterConfig {
    /// A shifter that is switched off.
    fn default() -> (config: Self)
        ensures
            config == (ShifterConfig {
                smod: Smod::Disable,
                pin_select: 0,
                pin_cfg: ShiftctlPincfg::Disable,
                pin_pol: ShiftctlPinpol::ActiveHigh,
                timer_pol: Timpol::Posedge,
                timer_select: 0,
                start_bit: Sstart::Value00,
                stop_bit: Sstop::Value00,
                input_source: Insrc::Pin,
            }),
    {
        ShifterConfig {
            smod: Smod::Disable,
            pin_select: 0,
            pin_cfg: ShiftctlPincfg::Disable,
            pin_pol: ShiftctlPinpol::ActiveHigh,
            timer_pol: Timpol::Posedge,
            timer_select: 0,
            start_bit: Sstart::Value00,
            stop_bit: Sstop::Value00,
            input_source: Insrc::Pin,
        }
    }
}

/// Trigger of a timer.
#[derive(Clone, Copy, PartialEq, Eq, Structural, Debug)]
pub enum TimerTrigger {
    /// No trigger: the timer is always enabled.
    NoTrigger,
    /// A FlexIO lane.
    InternalLane { lane: u8, polarity: Trgpol },
    /// The status flag of a shifter.
    InternalShifterFlag { shifter: u8, polarity: Trgpol },
    /// An external trigger, by its number.
    External { trgsel: u8, polarity: Trgpol },
}

/// Configuration passed to [`super::unit::Timer::set_config`].
#[derive(Clone, Copy, PartialEq, Eq, Structural, Debug)]
pub struct TimerConfig {
    /// Operating mode.
    pub timod: Timod,
    /// Decrement source.
    pub timdec: Timdec,
    /// Enable condition.
    pub timena: Timena,
    /// Disable condition.
    pub timdis: Timdis,
    /// Reset condition.
    pub timrst: Timrst,
    /// Output when the timer starts and is reset.
    pub timout: Timout,
    /// Stop bit.
    pub tstop: Tstop,
    /// Start bit.
    pub tstart: bool,
    /// Lane of the timer.
    pub pin_select: u8,
    /// Output mode of the lane.
    pub pin_cfg: TimctlPincfg,
    /// Polarity of the lane.
    pub pin_pol: TimctlPinpol,
    /// Trigger.
    pub trigger: TimerTrigger,
    /// Compare value. For two counters of eight bits, the upper byte is the bit count
    /// times two less one, the lower byte (FlexIO clock / (2 * baud)) - 1.
    pub compare: u16,
}

impl Default for TimerConfig {
    /// A timer that is switched off.
    fn default() -> (config: Self)
        ensures
            config == (TimerConfig {
                timod: Timod::Disable,
                timdec: Timdec::FlexioClkShiftclkTmrOut,
                timena: Timena::Enable,
                timdis: Timdis::Never,
                timrst: Timrst::Never,
                timout: Timout::One,
                tstop: Tstop::StopDisable,
                tstart: false,
                pin_select: 0,
                pin_cfg: TimctlPincfg::Outdisable,
                pin_pol: TimctlPinpol::ActiveHigh,
                trigger: TimerTrigger::NoTrigger,
                compare: 0,
            }),
    {
        TimerConfig {
            timod: Timod::Disable,
            timdec: Timdec::FlexioClkShiftclkTmrOut,
            timena: Timena::Enable,
            timdis: Timdis::Never,
            timrst: Timrst::Never,
            timout: Timout::One,
            tstop: Tstop::StopDisable,
            tstart: false,
            pin_select: 0,
            pin_cfg: TimctlPincfg::Outdisable,
            pin_pol: TimctlPinpol::ActiveHigh,
            trigger: TimerTrigger::NoTrigger,
            compare: 0,
        }
    }
}

} // verus!
