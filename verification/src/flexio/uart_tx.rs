//! 8N1 FlexIO UART transmitter with DMA.
//!
//! The transmitter is built on shifter 0 and timer 0. A DMA channel feeds the
//! shifter, paced by its status flag.
//!
//! Each word for the shifter holds a byte in its low eight bits and ones above, which
//! keep the line high between bytes.
use super::config::{ShifterConfig, TimerConfig, TimerTrigger};
use super::fields::{
    Insrc, ShiftctlPincfg, ShiftctlPinpol, Smod, Sstart, Sstop, TimctlPincfg, TimctlPinpol, Timdec,
    Timdis, Timena, Timod, Timout, Timpol, Timrst, Trgpol, Tstop,
};
use super::keeper::{ClockKeeper, Part, Returned};
use super::ops::{DmaOp, DmaRequest, FlexioOp, FlexioReg};
use super::peripheral::FLEXIO0;
use super::pin;
use super::pin::FlexioPin;
use super::unit;
use super::unit::{Shifter, Timer};
use crate::mask;
use crate::progress::Progress;
use vstd::prelude::*;
use vstd::slice::slice_subrange;

verus! {

/// Largest number of words in one DMA transfer.
pub const CHUNK_WORDS: usize = 64;

/// Most operations that one step of a transmission queues.
pub const STEP_OPS: usize = 7;

/// 8N1 FlexIO UART transmitter.
pub struct FlexioUartTx<'d> {
    shifter: Shifter<'d, 0>,
    timer: Timer<'d, 0>,
    compare: u16,
}

/// Stands for a DMA transfer that is under way, and for the duty to end it.
pub struct TxDmaGuard {
    _priv: (),
}

/// Where a transmission stands.
#[derive(Clone, Copy, PartialEq, Eq, Structural, Debug)]
pub enum UartStage {
    /// The bytes from this offset on are still to be sent.
    Chunk(usize),
    /// The bytes up to this offset are being sent; who waits is to be registered.
    Sending(usize),
    /// The bytes up to this offset are being sent; who waits is registered.
    Registered(usize),
}

/// Where the wait for the line to fall idle stands.
#[derive(Clone, Copy, PartialEq, Eq, Structural, Debug)]
pub enum FlushStage {
    /// The last word may still be in the buffer of the shifter.
    Buffer,
    /// The buffer is empty; the last word may still be shifting out.
    Line,
}

/// Word that makes the shifter send a byte.
pub open spec fn uart_word(byte: u8) -> u32 {
    (byte as u32) | 0xffff_ff00
}

/// Words that make the shifter send some bytes.
pub open spec fn uart_words(bytes: Seq<u8>) -> Seq<u32> {
    bytes.map_values(|byte: u8| uart_word(byte))
}

/// Compare value for a baud rate: 0x15 in the upper byte, and in the lower one the clock
/// divided by twice the baud rate, less one, as far as it fits.
pub open spec fn uart_compare(flexio_clk: u32, baud: u32) -> int {
    let baud_div = (flexio_clk as int / (2 * baud)) % 0x1_0000;
    0x1500 + (if baud_div > 0 {
        (baud_div - 1) % 0x100
    } else {
        0
    })
}

/// Configuration of the timer.
pub open spec fn uart_timer(lane: u8, flexio_clk: u32, baud: u32) -> TimerConfig {
    TimerConfig {
        timod: Timod::Dual8bitBaud,
        timdec: Timdec::FlexioClkShiftclkTmrOut,
        timena: Timena::TmrTrighiEn,
        timdis: Timdis::TmrCmp,
        timrst: Timrst::Never,
        timout: Timout::One,
        tstop: Tstop::EnableTmrdisable,
        tstart: true,
        pin_select: lane,
        pin_cfg: TimctlPincfg::Outdisable,
        pin_pol: TimctlPinpol::ActiveHigh,
        trigger: TimerTrigger::InternalShifterFlag { shifter: 0, polarity: Trgpol::ActiveLow },
        compare: uart_compare(flexio_clk, baud) as u16,
    }
}

/// Configuration of the shifter.
pub open spec fn uart_shifter(lane: u8) -> ShifterConfig {
    ShifterConfig {
        smod: Smod::Transmit,
        pin_select: lane,
        pin_cfg: ShiftctlPincfg::Output,
        pin_pol: ShiftctlPinpol::ActiveHigh,
        timer_pol: Timpol::Negedge,
        timer_select: 0,
        start_bit: Sstart::Value10,
        stop_bit: Sstop::Value11,
        input_source: Insrc::Pin,
    }
}

/// Where the chunk that starts at `offset` ends.
pub open spec fn chunk_end(len: int, offset: int) -> int {
    if len - offset > CHUNK_WORDS {
        offset + CHUNK_WORDS
    } else {
        len
    }
}

/// Most FlexIO clocks that a word takes to shift out. The upper byte of the compare
/// value counts half bits, and each half bit lasts one clock more than the lower byte
/// says; a start bit and a stop bit may come on top.
pub open spec fn frame_clocks(compare: u16) -> int {
    (compare as int / 0x100 + 1 + 4) * (compare as int % 0x100 + 1)
}

/// One step of the wait for the line to fall idle: first the status flag of the shifter
/// has to be up, then the time of one word has to pass.
pub open spec fn flush_step(
    compare: u16,
    stage: FlushStage,
    ssf: u8,
    waited: u32,
) -> Progress<FlushStage, ()> {
    match stage {
        FlushStage::Buffer => if mask::bit_is_set(ssf, 0) {
            Progress::Again(FlushStage::Line)
        } else {
            Progress::Again(FlushStage::Buffer)
        },
        FlushStage::Line => if waited >= frame_clocks(compare) {
            Progress::Ready(())
        } else {
            Progress::Again(FlushStage::Line)
        },
    }
}

/// Operations that start a DMA transfer of `count` words to the shifter.
pub open spec fn transfer_ops(count: int) -> Seq<FlexioOp> {
    seq![
        FlexioOp::Dma(DmaOp::DisableRequest),
        FlexioOp::Dma(DmaOp::ClearDone),
        FlexioOp::Dma(DmaOp::ClearInterrupt),
        FlexioOp::Dma(DmaOp::SetRequestSource(DmaRequest::Flexio0Sr0)),
        FlexioOp::Dma(
            DmaOp::SetupWrite { words: count as usize, dest: FlexioReg::Shiftbuf(0) },
        ),
        FlexioOp::ModifyShiftsden { clear: 0, set: unit::unit_bit(0) },
        FlexioOp::Dma(DmaOp::EnableRequest),
    ]
}

/// What a transmitter gives back.
pub open spec fn uart_parts() -> Seq<Part> {
    seq![Part::Shifter(0), Part::Timer(0)]
}

/// Operations that end a DMA transfer that is through.
pub open spec fn complete_ops() -> Seq<FlexioOp> {
    seq![
        FlexioOp::ModifyShiftsden { clear: 1, set: 0 },
        FlexioOp::Dma(DmaOp::DisableRequest),
        FlexioOp::Dma(DmaOp::ClearDone),
    ]
}

/// Operations that break a DMA transfer off.
pub open spec fn abort_ops() -> Seq<FlexioOp> {
    complete_ops().push(FlexioOp::Dma(DmaOp::ClearInterrupt))
}

impl UartStage {
    /// Whether a DMA transfer is under way, which has to be broken off if the
    /// transmission is given up.
    pub fn under_way(&self) -> (under_way: bool)
        ensures
            under_way == !(self is Chunk),
    {
        match self {
            UartStage::Chunk(_) => false,
            _ => true,
        }
    }
}

impl TxDmaGuard {
    /// Takes over the duty to end a DMA transfer.
    pub fn new() -> Self {
        TxDmaGuard { _priv: () }
    }

    /// The transfer is through: ends it, and leaves its interrupt flag alone.
    pub fn complete(self, ops: &mut Vec<FlexioOp>)
        ensures
            final(ops)@ == old(ops)@ + complete_ops(),
    {
        ops.push(FlexioOp::ModifyShiftsden { clear: 1, set: 0 });
        ops.push(FlexioOp::Dma(DmaOp::DisableRequest));
        ops.push(FlexioOp::Dma(DmaOp::ClearDone));
    }

    /// The transfer is given up: breaks it off.
    pub fn abort(self, ops: &mut Vec<FlexioOp>)
        ensures
            final(ops)@ == old(ops)@ + abort_ops(),
    {
        ops.push(FlexioOp::ModifyShiftsden { clear: 1, set: 0 });
        ops.push(FlexioOp::Dma(DmaOp::DisableRequest));
        ops.push(FlexioOp::Dma(DmaOp::ClearDone));
        ops.push(FlexioOp::Dma(DmaOp::ClearInterrupt));
    }
}

impl<'d> FlexioUartTx<'d> {
    /// Compare value that the timer runs with.
    pub closed spec fn compare(&self) -> u16 {
        self.compare
    }

    /// A transmitter on the lane of `tx_pin`, for `baud` bits a second at a FlexIO
    /// clock of `flexio_clk` hertz.
    pub fn new<P: FlexioPin<FLEXIO0, L>, const L: usize>(
        shifter: Shifter<'d, 0>,
        timer: Timer<'d, 0>,
        tx_pin: &P,
        ops: &mut Vec<FlexioOp>,
        baud: u32,
        flexio_clk: u32,
    ) -> (uart: Self)
        requires
            0 < baud,
            2 * baud <= u32::MAX,
        ensures
            uart.compare() == uart_compare(flexio_clk, baud),
            final(ops)@ == old(ops)@ + (pin::lane_ops(P::MUX) + unit::timer_ops(
                0,
                uart_timer(L as u8, flexio_clk, baud),
            ) + unit::shifter_ops(0, uart_shifter(L as u8)) + seq![
                FlexioOp::Dma(DmaOp::EnableInterrupt),
            ]),
    {
        let mut shifter = shifter;
        let mut timer = timer;
        tx_pin.as_flexio_lane(ops);
        #[verifier::truncate]
        let lane: u8 = L as u8;

        let quotient: u32 = flexio_clk / (2 * baud);
        #[verifier::truncate]
        let baud_div: u16 = quotient as u16;
        let lower: u16 = if baud_div > 0 { baud_div - 1 } else { 0 };
        let compare: u16 = (0x15u16 << 8) | (lower & 0xff);
        proof {
            assert(baud_div == quotient % 0x1_0000) by (bit_vector)
                requires
                    baud_div == quotient as u16,
            ;
            assert(compare == 0x1500 + lower % 0x100) by (bit_vector)
                requires
                    compare == (0x15u16 << 8) | (lower & 0xff),
            ;
            assert(compare == uart_compare(flexio_clk, baud));
        }

        timer.set_config(
            ops,
            &TimerConfig {
                timod: Timod::Dual8bitBaud,
                timdec: Timdec::FlexioClkShiftclkTmrOut,
                timena: Timena::TmrTrighiEn,
                timdis: Timdis::TmrCmp,
                timrst: Timrst::Never,
                timout: Timout::One,
                tstop: Tstop::EnableTmrdisable,
                tstart: true,
                pin_select: lane,
                pin_cfg: TimctlPincfg::Outdisable,
                pin_pol: TimctlPinpol::ActiveHigh,
                trigger: TimerTrigger::InternalShifterFlag {
                    shifter: 0,
                    polarity: Trgpol::ActiveLow,
                },
                compare,
            },
        );
        shifter.set_config(
            ops,
            &ShifterConfig {
                smod: Smod::Transmit,
                pin_select: lane,
                pin_cfg: ShiftctlPincfg::Output,
                pin_pol: ShiftctlPinpol::ActiveHigh,
                timer_pol: Timpol::Negedge,
                timer_select: 0,
                start_bit: Sstart::Value10,
                stop_bit: Sstop::Value11,
                input_source: Insrc::Pin,
            },
        );
        ops.push(FlexioOp::Dma(DmaOp::EnableInterrupt));
        assert(ops@ =~= old(ops)@ + (pin::lane_ops(P::MUX) + unit::timer_ops(
            0,
            uart_timer(L as u8, flexio_clk, baud),
        ) + unit::shifter_ops(0, uart_shifter(L as u8)) + seq![
            FlexioOp::Dma(DmaOp::EnableInterrupt),
        ]));
        FlexioUartTx { shifter, timer, compare }
    }

    /// One step of sending `data`. The transmission is through when all bytes are
    /// loaded into the shifter; the last one may still be on its way.
    ///
    /// `words` is the source of the DMA transfer that the step starts. `done` is what
    /// the done flag of the DMA channel reads. No memory is asked for where the queue
    /// has room for [`STEP_OPS`] operations.
    pub fn write(
        &mut self,
        ops: &mut Vec<FlexioOp>,
        words: &mut [u32; CHUNK_WORDS],
        stage: UartStage,
        data: &[u8],
        done: bool,
    ) -> (progress: Progress<UartStage, ()>)
        ensures
            final(self).compare() == old(self).compare(),
            final(ops)@.len() <= old(ops)@.len() + STEP_OPS,
            match stage {
                UartStage::Chunk(offset) => if offset >= data@.len() {
                    &&& progress == Progress::<UartStage, ()>::Ready(())
                    &&& final(ops)@ == old(ops)@
                    &&& final(words)@ == old(words)@
                } else {
                    let end = chunk_end(data@.len() as int, offset as int);
                    &&& progress == Progress::<UartStage, ()>::Again(
                        UartStage::Sending(end as usize),
                    )
                    &&& final(ops)@ == old(ops)@ + transfer_ops(end - offset)
                    &&& final(words)@ == uart_words(data@.subrange(offset as int, end))
                        + old(words)@.skip(end - offset)
                },
                UartStage::Sending(end) => {
                    &&& progress == Progress::<UartStage, ()>::Again(UartStage::Registered(end))
                    &&& final(ops)@ == old(ops)@.push(FlexioOp::Dma(DmaOp::Register))
                    &&& final(words)@ == old(words)@
                },
                UartStage::Registered(end) => {
                    &&& progress == (if done {
                        Progress::<UartStage, ()>::Again(UartStage::Chunk(end))
                    } else {
                        Progress::<UartStage, ()>::Wait(UartStage::Sending(end))
                    })
                    &&& final(ops)@ == old(ops)@ + (if done {
                        complete_ops()
                    } else {
                        seq![]
                    })
                    &&& final(words)@ == old(words)@
                },
            },
    {
        match stage {
            UartStage::Chunk(offset) => {
                if offset >= data.len() {
                    return Progress::Ready(());
                }
                let end: usize = if data.len() - offset > CHUNK_WORDS {
                    offset + CHUNK_WORDS
                } else {
                    data.len()
                };
                let count: usize = end - offset;
                let mut i: usize = 0;
                while i < count
                    invariant
                        i <= count <= CHUNK_WORDS,
                        offset + count == end <= data@.len(),
                        words@.len() == CHUNK_WORDS,
                        words@ =~= uart_words(data@.subrange(offset as int, offset + i)) + old(
                            words,
                        )@.skip(i as int),
                    decreases count - i,
                {
                    words[i] = (data[offset + i] as u32) | 0xffff_ff00;
                    i += 1;
                }
                self.write_words_dma(ops, slice_subrange(words.as_slice(), 0, count));
                Progress::Again(UartStage::Sending(end))
            },
            UartStage::Sending(end) => {
                ops.push(FlexioOp::Dma(DmaOp::Register));
                Progress::Again(UartStage::Registered(end))
            },
            UartStage::Registered(end) => {
                if done {
                    TxDmaGuard::new().complete(ops);
                    return Progress::Again(UartStage::Chunk(end));
                }
                assert(ops@ =~= old(ops)@ + seq![]);
                Progress::Wait(UartStage::Sending(end))
            },
        }
    }

    /// One step of the wait until the last byte has left the line and the line is idle.
    ///
    /// `ssf` is what SHIFTSTAT reads: its flag of the shifter says that the buffer is
    /// empty. `waited` is how many FlexIO clocks have passed since it was seen up.
    pub fn blocking_flush(
        &mut self,
        stage: FlushStage,
        ssf: u8,
        waited: u32,
    ) -> (progress: Progress<FlushStage, ()>)
        ensures
            final(self).compare() == old(self).compare(),
            progress == flush_step(old(self).compare(), stage, ssf, waited),
    {
        match stage {
            FlushStage::Buffer => if self.shifter.is_status_set(ssf) {
                Progress::Again(FlushStage::Line)
            } else {
                Progress::Again(FlushStage::Buffer)
            },
            FlushStage::Line => if waited >= self.flush_clocks() {
                Progress::Ready(())
            } else {
                Progress::Again(FlushStage::Line)
            },
        }
    }

    /// How many FlexIO clocks to wait once the buffer is empty.
    pub fn flush_clocks(&self) -> (clocks: u32)
        ensures
            clocks == frame_clocks(self.compare()),
    {
        let halves: u32 = (self.compare / 0x100) as u32 + 5;
        let length: u32 = (self.compare % 0x100) as u32 + 1;
        assert(halves * length <= 260 * 256) by (nonlinear_arith)
            requires
                halves <= 260,
                length <= 256,
        ;
        halves * length
    }

    /// Gives the shifter and the timer up.
    pub fn release(self, keeper: &mut ClockKeeper, ops: &mut Vec<FlexioOp>)
        ensures
            final(keeper)@ == old(keeper)@.with_all(uart_parts()),
            final(ops)@ == old(ops)@ + old(keeper)@.queued(uart_parts()),
    {
        let ghost before = keeper@;
        keeper.give_shifter(self.shifter, ops);
        keeper.give_timer(self.timer, ops);
        proof {
            reveal_with_fuel(Returned::with_all, 3);
            reveal_with_fuel(Returned::queued, 3);
            let parts = uart_parts();
            assert(parts.drop_last() =~= seq![Part::Shifter(0)]);
            assert(parts.drop_last().drop_last() =~= seq![]);
            assert(ops@ =~= old(ops)@ + before.queued(parts));
        }
    }

    /// Starts the DMA transfer of one chunk of words to the shifter, paced by its
    /// status flag.
    fn write_words_dma(&mut self, ops: &mut Vec<FlexioOp>, words: &[u32])
        requires
            0 < words@.len(),
        ensures
            final(self).compare() == old(self).compare(),
            final(ops)@ == old(ops)@ + transfer_ops(words@.len() as int),
    {
        ops.push(FlexioOp::Dma(DmaOp::DisableRequest));
        ops.push(FlexioOp::Dma(DmaOp::ClearDone));
        ops.push(FlexioOp::Dma(DmaOp::ClearInterrupt));
        ops.push(FlexioOp::Dma(DmaOp::SetRequestSource(Shifter::<'d, 0>::dma_request())));
        ops.push(
            FlexioOp::Dma(
                DmaOp::SetupWrite { words: words.len(), dest: self.shifter.dma_address() },
            ),
        );
        self.shifter.enable_dma(ops);
        ops.push(FlexioOp::Dma(DmaOp::EnableRequest));
        assert(ops@ =~= old(ops)@ + transfer_ops(words@.len() as int));
    }
}

} // verus!
