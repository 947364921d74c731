//! Single shifters and timers.
use super::config::{ShifterConfig, TimerConfig, TimerTrigger};
use super::fields::{Shiftcfg, Shiftctl, Timcfg, Timctl, Trgpol, Trgsrc};
use super::ops::{DmaRequest, FlexioOp, FlexioReg, UNIT_COUNT};
use crate::mask;
use core::marker::PhantomData;
use vstd::prelude::*;

verus! {

/// Exclusive handle for shifter `N`.
pub struct Shifter<'d, const N: usize> {
    _phantom: PhantomData<&'d mut ()>,
}

/// Exclusive handle for timer `N`.
pub struct Timer<'d, const N: usize> {
    _phantom: PhantomData<&'d mut ()>,
}

/// The byte whose only bit is bit `n`.
pub open spec fn unit_bit(n: int) -> u8 {
    1u8 << (n as u8)
}

/// SHIFTCFG for a configuration.
pub open spec fn shiftcfg(cfg: ShifterConfig) -> Shiftcfg {
    Shiftcfg { sstart: cfg.start_bit, sstop: cfg.stop_bit, insrc: cfg.input_source }
}

/// SHIFTCTL for a configuration.
pub open spec fn shiftctl(cfg: ShifterConfig) -> Shiftctl {
    Shiftctl {
        smod: cfg.smod,
        pinsel: cfg.pin_select,
        pincfg: cfg.pin_cfg,
        pinpol: cfg.pin_pol,
        timpol: cfg.timer_pol,
        timsel: cfg.timer_select,
    }
}

/// Operations that configure shifter `n`: SHIFTCFG comes before SHIFTCTL.
pub open spec fn shifter_ops(n: int, cfg: ShifterConfig) -> Seq<FlexioOp> {
    seq![
        FlexioOp::Shiftcfg { n: n as usize, value: shiftcfg(cfg) },
        FlexioOp::Shiftctl { n: n as usize, value: shiftctl(cfg) },
    ]
}

/// TIMCFG for a configuration.
pub open spec fn timcfg(cfg: TimerConfig) -> Timcfg {
    Timcfg {
        timdec: cfg.timdec,
        timena: cfg.timena,
        timdis: cfg.timdis,
        timrst: cfg.timrst,
        timout: cfg.timout,
        tstop: cfg.tstop,
        tstart: cfg.tstart,
    }
}

/// Whether the number of a trigger fits a byte.
pub open spec fn trigger_ok(trigger: TimerTrigger) -> bool {
    match trigger {
        TimerTrigger::InternalLane { lane, polarity } => lane < 64,
        TimerTrigger::InternalShifterFlag { shifter, polarity } => shifter < 64,
        _ => true,
    }
}

/// Number of a trigger: lanes have the multiples of four, shifter flags the numbers
/// after them.
pub open spec fn trgsel(trigger: TimerTrigger) -> int {
    match trigger {
        TimerTrigger::NoTrigger => 0,
        TimerTrigger::InternalLane { lane, polarity } => 4 * lane,
        TimerTrigger::InternalShifterFlag { shifter, polarity } => 4 * shifter + 1,
        TimerTrigger::External { trgsel, polarity } => trgsel as int,
    }
}

/// Where a trigger comes from.
pub open spec fn trgsrc(trigger: TimerTrigger) -> Trgsrc {
    match trigger {
        TimerTrigger::NoTrigger => Trgsrc::ExtTrig,
        TimerTrigger::InternalLane { .. } => Trgsrc::InternalTrig,
        TimerTrigger::InternalShifterFlag { .. } => Trgsrc::InternalTrig,
        TimerTrigger::External { .. } => Trgsrc::ExtTrig,
    }
}

/// Polarity of a trigger.
pub open spec fn trgpol(trigger: TimerTrigger) -> Trgpol {
    match trigger {
        TimerTrigger::NoTrigger => Trgpol::ActiveHigh,
        TimerTrigger::InternalLane { lane, polarity } => polarity,
        TimerTrigger::InternalShifterFlag { shifter, polarity } => polarity,
        TimerTrigger::External { trgsel, polarity } => polarity,
    }
}

/// TIMCTL for a configuration.
pub open spec fn timctl(cfg: TimerConfig) -> Timctl {
    Timctl {
        timod: cfg.timod,
        pinsel: cfg.pin_select,
        pincfg: cfg.pin_cfg,
        pinpol: cfg.pin_pol,
        trgsrc: trgsrc(cfg.trigger),
        trgpol: trgpol(cfg.trigger),
        trgsel: trgsel(cfg.trigger) as u8,
    }
}

/// Operations that configure timer `n`: TIMCTL, which starts it, comes last.
pub open spec fn timer_ops(n: int, cfg: TimerConfig) -> Seq<FlexioOp> {
    seq![
        FlexioOp::TimerCompare { n: n as usize, value: cfg.compare },
        FlexioOp::Timcfg { n: n as usize, value: timcfg(cfg) },
        FlexioOp::Timctl { n: n as usize, value: timctl(cfg) },
    ]
}

/// DMA request signal of shifter `n`.
pub open spec fn request_of(n: int) -> DmaRequest {
    if n == 0 {
        DmaRequest::Flexio0Sr0
    } else if n == 1 {
        DmaRequest::Flexio0Sr1
    } else if n == 2 {
        DmaRequest::Flexio0Sr2
    } else {
        DmaRequest::Flexio0Sr3
    }
}

impl<'d, const N: usize> Shifter<'d, N> {
    /// The handle, for who keeps track of what is taken.
    pub(super) fn claim() -> Self {
        Shifter { _phantom: PhantomData }
    }

    /// Applies a configuration. The shifter must be disabled before it is configured
    /// anew.
    pub fn set_config(&mut self, ops: &mut Vec<FlexioOp>, cfg: &ShifterConfig)
        requires
            N < UNIT_COUNT,
        ensures
            final(ops)@ == old(ops)@ + shifter_ops(N as int, *cfg),
    {
        ops.push(
            FlexioOp::Shiftcfg {
                n: N,
                value: Shiftcfg {
                    sstart: cfg.start_bit,
                    sstop: cfg.stop_bit,
                    insrc: cfg.input_source,
                },
            },
        );
        ops.push(
            FlexioOp::Shiftctl {
                n: N,
                value: Shiftctl {
                    smod: cfg.smod,
                    pinsel: cfg.pin_select,
                    pincfg: cfg.pin_cfg,
                    pinpol: cfg.pin_pol,
                    timpol: cfg.timer_pol,
                    timsel: cfg.timer_select,
                },
            },
        );
    }

    /// Writes a word to the transmit buffer; bit 0 goes out first.
    pub fn write_buffer(&mut self, ops: &mut Vec<FlexioOp>, data: u32)
        requires
            N < UNIT_COUNT,
        ensures
            final(ops)@ == old(ops)@.push(
                FlexioOp::WriteData { reg: FlexioReg::Shiftbuf(N), data },
            ),
    {
        ops.push(FlexioOp::WriteData { reg: FlexioReg::Shiftbuf(N), data });
    }

    /// Writes a word to the transmit buffer with its bits swapped; bit 31 goes out first.
    pub fn write_buffer_bis(&mut self, ops: &mut Vec<FlexioOp>, data: u32)
        requires
            N < UNIT_COUNT,
        ensures
            final(ops)@ == old(ops)@.push(
                FlexioOp::WriteData { reg: FlexioReg::Shiftbufbis(N), data },
            ),
    {
        ops.push(FlexioOp::WriteData { reg: FlexioReg::Shiftbufbis(N), data });
    }

    /// The register to read a received word from.
    pub fn read_buffer(&self) -> (reg: FlexioReg)
        requires
            N < UNIT_COUNT,
        ensures
            reg == FlexioReg::Shiftbuf(N),
    {
        FlexioReg::Shiftbuf(N)
    }

    /// The register to read a received word from with its bits swapped.
    pub fn read_buffer_bis(&self) -> (reg: FlexioReg)
        requires
            N < UNIT_COUNT,
        ensures
            reg == FlexioReg::Shiftbufbis(N),
    {
        FlexioReg::Shiftbufbis(N)
    }

    /// The register that a DMA transfer goes to when bit 0 is to go out first.
    pub fn dma_address(&self) -> (reg: FlexioReg)
        requires
            N < UNIT_COUNT,
        ensures
            reg == FlexioReg::Shiftbuf(N),
    {
        FlexioReg::Shiftbuf(N)
    }

    /// The register that a DMA transfer goes to when bit 31 is to go out first.
    pub fn dma_address_bis(&self) -> (reg: FlexioReg)
        requires
            N < UNIT_COUNT,
        ensures
            reg == FlexioReg::Shiftbufbis(N),
    {
        FlexioReg::Shiftbufbis(N)
    }

    /// DMA request signal of the shifter's status flag.
    pub fn dma_request() -> (request: DmaRequest)
        requires
            N < UNIT_COUNT,
        ensures
            request == request_of(N as int),
            request.signal() == 71 + N,
    {
        if N == 0 {
            DmaRequest::Flexio0Sr0
        } else if N == 1 {
            DmaRequest::Flexio0Sr1
        } else if N == 2 {
            DmaRequest::Flexio0Sr2
        } else {
            DmaRequest::Flexio0Sr3
        }
    }

    /// Lets the status flag of the shifter request DMA transfers.
    pub fn enable_dma(&mut self, ops: &mut Vec<FlexioOp>)
        requires
            N < UNIT_COUNT,
        ensures
            final(ops)@ == old(ops)@.push(
                FlexioOp::ModifyShiftsden { clear: 0, set: unit_bit(N as int) },
            ),
    {
        let n: u8 = N as u8;
        ops.push(FlexioOp::ModifyShiftsden { clear: 0, set: 1u8 << n });
    }

    /// Keeps the status flag of the shifter from requesting DMA transfers.
    pub fn disable_dma(&mut self, ops: &mut Vec<FlexioOp>)
        requires
            N < UNIT_COUNT,
        ensures
            final(ops)@ == old(ops)@.push(
                FlexioOp::ModifyShiftsden { clear: unit_bit(N as int), set: 0 },
            ),
    {
        let n: u8 = N as u8;
        ops.push(FlexioOp::ModifyShiftsden { clear: 1u8 << n, set: 0 });
    }

    /// Whether the status flag is up, going by what SHIFTSTAT reads: the buffer is
    /// empty when sending, data waits when receiving.
    pub fn is_status_set(&self, ssf: u8) -> (set: bool)
        requires
            N < UNIT_COUNT,
        ensures
            set == mask::bit_is_set(ssf, N as int),
    {
        let n: u8 = N as u8;
        proof {
            lemma_shifted_bit(ssf, n);
        }
        (ssf >> n) & 1 != 0
    }

    /// Clears the status flag of the shifter, and no other.
    pub fn clear_status(&mut self, ops: &mut Vec<FlexioOp>)
        requires
            N < UNIT_COUNT,
        ensures
            final(ops)@ == old(ops)@.push(FlexioOp::WriteShiftstat(unit_bit(N as int))),
    {
        let n: u8 = N as u8;
        ops.push(FlexioOp::WriteShiftstat(1u8 << n));
    }
}

impl<'d, const N: usize> Timer<'d, N> {
    /// The handle, for who keeps track of what is taken.
    pub(super) fn claim() -> Self {
        Timer { _phantom: PhantomData }
    }

    /// Applies a configuration.
    ///
    /// With two counters of eight bits, the compare value holds the number of bits and
    /// the baud rate:
    ///
    /// ```text
    /// compare[15:8] = bits_per_word * 2 - 1
    /// compare[7:0]  = (FlexIO_clk / (2 * baud_rate)) - 1
    /// ```
    pub fn set_config(&mut self, ops: &mut Vec<FlexioOp>, cfg: &TimerConfig)
        requires
            N < UNIT_COUNT,
            trigger_ok(cfg.trigger),
        ensures
            final(ops)@ == old(ops)@ + timer_ops(N as int, *cfg),
    {
        ops.push(FlexioOp::TimerCompare { n: N, value: cfg.compare });
        ops.push(
            FlexioOp::Timcfg {
                n: N,
                value: Timcfg {
                    timdec: cfg.timdec,
                    timena: cfg.timena,
                    timdis: cfg.timdis,
                    timrst: cfg.timrst,
                    timout: cfg.timout,
                    tstop: cfg.tstop,
                    tstart: cfg.tstart,
                },
            },
        );
        let (source, polarity, number): (Trgsrc, Trgpol, u8) = match cfg.trigger {
            TimerTrigger::NoTrigger => (Trgsrc::ExtTrig, Trgpol::ActiveHigh, 0u8),
            TimerTrigger::InternalLane { lane, polarity } => {
                (Trgsrc::InternalTrig, polarity, 4 * lane)
            },
            TimerTrigger::InternalShifterFlag { shifter, polarity } => {
                (Trgsrc::InternalTrig, polarity, 4 * shifter + 1)
            },
            TimerTrigger::External { trgsel, polarity } => (Trgsrc::ExtTrig, polarity, trgsel),
        };
        ops.push(
            FlexioOp::Timctl {
                n: N,
                value: Timctl {
                    timod: cfg.timod,
                    pinsel: cfg.pin_select,
                    pincfg: cfg.pin_cfg,
                    pinpol: cfg.pin_pol,
                    trgsrc: source,
                    trgpol: polarity,
                    trgsel: number,
                },
            },
        );
    }

    /// Whether the status flag is up, going by what TIMSTAT reads.
    pub fn is_status_set(&self, tsf: u8) -> (set: bool)
        requires
            N < UNIT_COUNT,
        ensures
            set == mask::bit_is_set(tsf, N as int),
    {
        let n: u8 = N as u8;
        proof {
            lemma_shifted_bit(tsf, n);
        }
        (tsf >> n) & 1 != 0
    }

    /// Clears the status flag of the timer, and no other.
    pub fn clear_status(&mut self, ops: &mut Vec<FlexioOp>)
        requires
            N < UNIT_COUNT,
        ensures
            final(ops)@ == old(ops)@.push(FlexioOp::WriteTimstat(unit_bit(N as int))),
    {
        let n: u8 = N as u8;
        ops.push(FlexioOp::WriteTimstat(1u8 << n));
    }
}

/// A bit can be tested where it stands or shifted down.
proof fn lemma_shifted_bit(bits: u8, n: u8)
    requires
        n < 8,
    ensures
        (bits >> n) & 1 != 0 <==> mask::bit_is_set(bits, n as int),
{
    assert((bits >> n) & 1 != 0 <==> bits & (1u8 << n) != 0) by (bit_vector)
        requires
            n < 8,
    ;
}

} // verus!
