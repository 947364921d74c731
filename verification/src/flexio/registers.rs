//! What the queued operations do to the FlexIO registers, the pad and the DMA channel.
use super::fields::{
    ShiftctlPincfg, ShiftctlPinpol, Shiftcfg, Shiftctl, Smod, Sstart, Sstop, Timcfg, Timctl,
    Timdis, Timena, Timod, Trgpol, Trgsrc, Tstop,
};
use super::ops::{DmaOp, DmaRequest, FlexioOp, FlexioReg, Mux, PinOp, Pull};
use crate::mask;
use vstd::prelude::*;

verus! {

/// The DMA channel that feeds a shifter.
pub struct DmaChannel {
    /// Whether the channel follows requests.
    pub armed: bool,
    /// The done flag.
    pub done: bool,
    /// The interrupt flag.
    pub interrupt: bool,
    /// Whether its interrupt is unmasked.
    pub unmasked: bool,
    /// The signal that paces it.
    pub pace: Option<DmaRequest>,
    /// How many words it is to write, and where to.
    pub words: usize,
    pub dest: Option<FlexioReg>,
    /// Whether somebody is woken by it.
    pub watched: bool,
    /// Whether it was set up while it followed requests, or armed before it was set up.
    pub mistimed: bool,
}

/// The registers of a FlexIO peripheral, the pad of its lane and its DMA channel.
#[verifier::ext_equal]
pub struct FlexioHardware {
    /// CTRL: whether the peripheral is held in reset, and whether it is on.
    pub in_reset: bool,
    pub enabled: bool,
    /// Whether its clock runs.
    pub clock: bool,
    /// The registers of each shifter and of each timer.
    pub shiftcfg: Seq<Shiftcfg>,
    pub shiftctl: Seq<Shiftctl>,
    pub compare: Seq<u16>,
    pub timcfg: Seq<Timcfg>,
    pub timctl: Seq<Timctl>,
    /// The buffer of each shifter, and whether it was written with its bits swapped.
    pub buffer: Seq<(u32, bool)>,
    /// SSDE: which shifters request transfers.
    pub ssde: u8,
    /// Status flags of the shifters and of the timers.
    pub ssf: u8,
    pub tsf: u8,
    /// The pad.
    pub pull: Pull,
    pub function: Mux,
    pub input: bool,
    /// The DMA channel.
    pub dma: DmaChannel,
}

impl DmaChannel {
    /// The channel after one operation.
    pub open spec fn step(self, op: DmaOp) -> Self {
        match op {
            DmaOp::DisableRequest => DmaChannel { armed: false, ..self },
            DmaOp::ClearDone => DmaChannel { done: false, ..self },
            DmaOp::ClearInterrupt => DmaChannel { interrupt: false, ..self },
            DmaOp::SetRequestSource(pace) => DmaChannel {
                pace: Some(pace),
                mistimed: self.mistimed || self.armed,
                ..self
            },
            DmaOp::SetupWrite { words, dest } => DmaChannel {
                words,
                dest: Some(dest),
                mistimed: self.mistimed || self.armed || self.done,
                ..self
            },
            DmaOp::EnableRequest => DmaChannel {
                armed: true,
                mistimed: self.mistimed || self.pace is None || self.dest is None,
                ..self
            },
            DmaOp::EnableInterrupt => DmaChannel { unmasked: true, ..self },
            DmaOp::Register => DmaChannel { watched: true, ..self },
        }
    }
}

impl FlexioHardware {
    /// There are four shifters and four timers.
    pub open spec fn wf(self) -> bool {
        &&& self.shiftcfg.len() == 4
        &&& self.shiftctl.len() == 4
        &&& self.compare.len() == 4
        &&& self.timcfg.len() == 4
        &&& self.timctl.len() == 4
        &&& self.buffer.len() == 4
    }

    /// The hardware after one operation.
    pub open spec fn step(self, op: FlexioOp) -> Self {
        match op {
            FlexioOp::WriteReset(value) => FlexioHardware {
                in_reset: value,
                enabled: false,
                ..self
            },
            FlexioOp::SetEnabled(value) => FlexioHardware { enabled: value, ..self },
            FlexioOp::DisableClock => FlexioHardware { clock: false, ..self },
            FlexioOp::Shiftcfg { n, value } => FlexioHardware {
                shiftcfg: self.shiftcfg.update(n as int, value),
                ..self
            },
            FlexioOp::Shiftctl { n, value } => FlexioHardware {
                shiftctl: self.shiftctl.update(n as int, value),
                ..self
            },
            FlexioOp::WriteData { reg, data } => FlexioHardware {
                buffer: match reg {
                    FlexioReg::Shiftbuf(n) => self.buffer.update(n as int, (data, false)),
                    FlexioReg::Shiftbufbis(n) => self.buffer.update(n as int, (data, true)),
                },
                ..self
            },
            FlexioOp::ModifyShiftsden { clear, set } => FlexioHardware {
                ssde: mask::modified_bits(self.ssde, clear, set),
                ..self
            },
            FlexioOp::WriteShiftstat(flags) => FlexioHardware { ssf: self.ssf & !flags, ..self },
            FlexioOp::TimerCompare { n, value } => FlexioHardware {
                compare: self.compare.update(n as int, value),
                ..self
            },
            FlexioOp::Timcfg { n, value } => FlexioHardware {
                timcfg: self.timcfg.update(n as int, value),
                ..self
            },
            FlexioOp::Timctl { n, value } => FlexioHardware {
                timctl: self.timctl.update(n as int, value),
                ..self
            },
            FlexioOp::WriteTimstat(flags) => FlexioHardware { tsf: self.tsf & !flags, ..self },
            FlexioOp::Pin(PinOp::SetPull(pull)) => FlexioHardware { pull, ..self },
            FlexioOp::Pin(PinOp::SetFunction(function)) => FlexioHardware { function, ..self },
            FlexioOp::Pin(PinOp::SetInputBuffer(input)) => FlexioHardware { input, ..self },
            FlexioOp::Dma(op) => FlexioHardware { dma: self.dma.step(op), ..self },
        }
    }

    /// The hardware after the first `n` operations of a queue.
    pub open spec fn after(self, queue: Seq<FlexioOp>, n: int) -> Self
        decreases n,
    {
        if n <= 0 {
            self
        } else {
            self.after(queue, n - 1).step(queue[n - 1])
        }
    }

    /// The hardware after what a call added to a queue.
    pub open spec fn moved(self, before: Seq<FlexioOp>, after: Seq<FlexioOp>) -> Self {
        self.after(after.skip(before.len() as int), after.len() - before.len())
    }

    /// Whether shifter `n`, clocked by timer `t`, sends what is written to its buffer on
    /// `lane`: it drives the lane with the levels as they are; the timer counts bits and baud
    /// rate, starts when the buffer is full, which the status flag of the shifter says by
    /// being down, and stops at the end of the word.
    pub open spec fn sends(self, n: int, t: int, lane: u8) -> bool {
        &&& self.shiftctl[n].smod == Smod::Transmit
        &&& self.shiftctl[n].pincfg == ShiftctlPincfg::Output
        &&& self.shiftctl[n].pinpol == ShiftctlPinpol::ActiveHigh
        &&& self.shiftctl[n].pinsel == lane
        &&& self.shiftctl[n].timsel == t
        &&& self.timctl[t].timod == Timod::Dual8bitBaud
        &&& self.timctl[t].trgsrc == Trgsrc::InternalTrig
        &&& self.timctl[t].trgsel == 4 * n + 1
        &&& self.timctl[t].trgpol == Trgpol::ActiveLow
        &&& self.timcfg[t].timena == Timena::TmrTrighiEn
        &&& self.timcfg[t].timdis == Timdis::TmrCmp
    }

    /// Levels of the line for one word: a start bit, as many bits of the word as the timer
    /// counts, lowest first, and a stop bit.
    pub open spec fn frame(self, n: int, t: int, word: u32) -> Seq<bool> {
        let start = if self.timcfg[t].tstart {
            match self.shiftcfg[n].sstart {
                Sstart::Value10 => seq![false],
                Sstart::Bits(2) => seq![false],
                Sstart::Bits(3) => seq![true],
                _ => seq![],
            }
        } else {
            seq![]
        };
        let stop = if self.timcfg[t].tstop == Tstop::EnableTmrdisable {
            match self.shiftcfg[n].sstop {
                Sstop::Value11 => seq![true],
                Sstop::Bits(2) => seq![false],
                Sstop::Bits(3) => seq![true],
                _ => seq![],
            }
        } else {
            seq![]
        };
        let count = (self.compare[t] as int / 0x100 + 1) / 2;
        start + Seq::new(count as nat, |i: int| (word >> (i as u32)) & 1 == 1) + stop
    }

    /// FlexIO clocks that each bit lasts: two halves, each one clock longer than the lower
    /// byte of the compare value.
    pub open spec fn bit_clocks(self, t: int) -> int {
        2 * (self.compare[t] as int % 0x100 + 1)
    }
}

/// What a call added to a queue, from what it became.
pub proof fn lemma_moved(hw: FlexioHardware, before: Seq<FlexioOp>, more: Seq<FlexioOp>)
    ensures
        hw.moved(before, before + more) == hw.after(more, more.len() as int),
{
    assert((before + more).skip(before.len() as int) =~= more);
}

/// One operation that a call added to a queue.
pub proof fn lemma_moved_one(hw: FlexioHardware, before: Seq<FlexioOp>, op: FlexioOp)
    ensures
        hw.moved(before, before.push(op)) == hw.step(op),
{
    assert(before.push(op) =~= before + seq![op]);
    lemma_moved(hw, before, seq![op]);
    reveal_with_fuel(FlexioHardware::after, 2);
}

} // verus!
