//! What the transmitter puts on the line.
use super::fields::{
    Insrc, ShiftctlPincfg, ShiftctlPinpol, Shiftcfg, Shiftctl, Smod, Sstart, Sstop, Timcfg,
    TimctlPincfg, TimctlPinpol, Timctl, Timdec, Timdis, Timena, Timod, Timout, Timpol, Timrst,
    Trgpol, Trgsrc, Tstop,
};
use super::keeper::{ClockKeeper, Part, Returned};
use super::laws;
use super::laws_units;
use super::ops::{DmaOp, DmaRequest, FlexioOp, FlexioReg, Pull};
use super::peripheral::FLEXIO0;
use super::pin;
use super::pin::FlexioPin;
use super::registers;
use super::registers::{DmaChannel, FlexioHardware};
use super::uart_tx;
use super::uart_tx::{FlexioUartTx, FlushStage, TxDmaGuard, UartStage};
use super::unit;
use super::unit::{Shifter, Timer};
use crate::mask;
use crate::mask::bit_is_set;
use crate::progress::Progress;
use vstd::prelude::*;

verus! {

/// Whether the line carries a byte as one start bit, which is low, the eight bits of the
/// byte, lowest first, and then nothing but high levels, at least one.
pub open spec fn carries(levels: Seq<bool>, byte: u8) -> bool {
    &&& levels.len() >= 10
    &&& !levels[0]
    &&& forall|k: int| 0 <= k < 8 ==> #[trigger] levels[1 + k] == bit_is_set(byte, k)
    &&& forall|k: int| 9 <= k < levels.len() ==> #[trigger] levels[k]
}

/// Registers that make shifter 0 and timer 0 send bytes on `lane`.
pub open spec fn set_up(hw: FlexioHardware, lane: u8) -> bool {
    &&& hw.sends(0, 0, lane)
    &&& hw.shiftctl[0].timpol == Timpol::Negedge
    &&& hw.shiftcfg[0].sstart == Sstart::Value10
    &&& hw.shiftcfg[0].sstop == Sstop::Value11
    &&& hw.shiftcfg[0].insrc == Insrc::Pin
    &&& hw.timctl[0].pincfg == TimctlPincfg::Outdisable
    &&& hw.timctl[0].pinpol == TimctlPinpol::ActiveHigh
    &&& hw.timctl[0].pinsel == lane
    &&& hw.timcfg[0].tstart
    &&& hw.timcfg[0].tstop == Tstop::EnableTmrdisable
    &&& hw.timcfg[0].timdec == Timdec::FlexioClkShiftclkTmrOut
    &&& hw.timcfg[0].timrst == Timrst::Never
    &&& hw.timcfg[0].timout == Timout::One
    &&& hw.compare[0] / 0x100 == 0x15
}

/// Where one chunk ends and the next one starts: after 64 bytes, or with the last byte.
pub open spec fn next_start(len: int, offset: int) -> int {
    if offset + 64 < len {
        offset + 64
    } else {
        len
    }
}

/// The operations of the setup, one after the other.
proof fn lemma_setup_queue(
    hw: FlexioHardware,
    pad: Seq<FlexioOp>,
    timer: Seq<FlexioOp>,
    shifter: Seq<FlexioOp>,
    last: FlexioOp,
)
    requires
        pad.len() == 3,
        timer.len() == 3,
        shifter.len() == 2,
    ensures
        ({
            let queue = pad + timer + shifter + seq![last];
            hw.after(queue, 9) == hw.step(pad[0]).step(pad[1]).step(pad[2]).step(timer[0]).step(
                timer[1],
            ).step(timer[2]).step(shifter[0]).step(shifter[1]).step(last)
        }),
{
    let queue = pad + timer + shifter + seq![last];
    assert(queue[0] == pad[0] && queue[1] == pad[1] && queue[2] == pad[2]);
    assert(queue[3] == timer[0] && queue[4] == timer[1] && queue[5] == timer[2]);
    assert(queue[6] == shifter[0] && queue[7] == shifter[1] && queue[8] == last);
    reveal_with_fuel(FlexioHardware::after, 10);
}

/// What is left in the registers by setting a transmitter up: the pad of the lane is the
/// output of shifter 0, which timer 0 clocks, with a start bit and a stop bit; the interrupt
/// of the channel is unmasked; nothing else is touched.
pub proof fn law_transmitter_registers<'d, P: FlexioPin<FLEXIO0, L>, const L: usize>(
    shifter: Shifter<'d, 0>,
    timer: Timer<'d, 0>,
    tx_pin: &P,
    ops: &mut Vec<FlexioOp>,
    baud: u32,
    flexio_clk: u32,
    uart: FlexioUartTx<'d>,
    hw: FlexioHardware,
)
    requires
        hw.wf(),
        L < 32,
        0 < baud,
        2 * baud <= u32::MAX,
        call_ensures(
            FlexioUartTx::<'d>::new::<P, L>,
            (shifter, timer, tx_pin, ops, baud, flexio_clk),
            uart,
        ),
    ensures
        ({
            let there = hw.moved(old(ops)@, final(ops)@);
            &&& there.wf()
            &&& set_up(there, L as u8)
            &&& there.compare[0] == uart.compare()
            &&& there.pull == Pull::Disabled
            &&& there.function == P::MUX
            &&& there.input
            &&& there.dma == DmaChannel { unmasked: true, ..hw.dma }
            &&& there == FlexioHardware {
                shiftcfg: hw.shiftcfg.update(0, there.shiftcfg[0]),
                shiftctl: hw.shiftctl.update(0, there.shiftctl[0]),
                compare: hw.compare.update(0, there.compare[0]),
                timcfg: hw.timcfg.update(0, there.timcfg[0]),
                timctl: hw.timctl.update(0, there.timctl[0]),
                pull: there.pull,
                function: there.function,
                input: there.input,
                dma: there.dma,
                ..hw
            }
        }),
{
    let pad = pin::lane_ops(P::MUX);
    let tim = unit::timer_ops(0, uart_tx::uart_timer(L as u8, flexio_clk, baud));
    let shift = unit::shifter_ops(0, uart_tx::uart_shifter(L as u8));
    let last = FlexioOp::Dma(DmaOp::EnableInterrupt);
    registers::lemma_moved(hw, old(ops)@, pad + tim + shift + seq![last]);
    lemma_setup_queue(hw, pad, tim, shift, last);
    let there = hw.moved(old(ops)@, final(ops)@);
    assert(there == hw.step(pad[0]).step(pad[1]).step(pad[2]).step(tim[0]).step(tim[1]).step(
        tim[2],
    ).step(shift[0]).step(shift[1]).step(last));
    assert(there.compare[0] == uart.compare());
}

/// A word of ones above a byte, bit by bit.
proof fn lemma_word_bits(byte: u8, word: u32, k: u32)
    requires
        word == 0xffff_ff00 + byte,
        k < 32,
    ensures
        k < 8 ==> ((word >> k) & 1 == 1) == bit_is_set(byte, k as int),
        k >= 8 ==> (word >> k) & 1 == 1,
{
    laws::law_word_carries_byte(byte);
    let j: u8 = k as u8;
    assert((k < 8 ==> ((((byte as u32) | 0xffff_ff00) >> k) & 1 == 1) == (byte & (1u8 << j) != 0))
        && (k >= 8 ==> (((byte as u32) | 0xffff_ff00) >> k) & 1 == 1)) by (bit_vector)
        requires
            k < 32,
            j == k as u8,
    ;
}

/// With the registers of a transmitter, a word of ones above a byte carries that byte over
/// the line.
pub proof fn law_word_on_the_line(hw: FlexioHardware, lane: u8, byte: u8, word: u32)
    requires
        set_up(hw, lane),
        word == 0xffff_ff00 + byte,
    ensures
        carries(hw.frame(0, 0, word), byte),
{
    let levels = hw.frame(0, 0, word);
    let bits = Seq::new(11nat, |i: int| (word >> (i as u32)) & 1 == 1);
    assert(levels =~= seq![false] + bits + seq![true]);
    assert forall|k: int| 0 <= k < 8 implies #[trigger] levels[1 + k] == bit_is_set(byte, k) by {
        lemma_word_bits(byte, word, k as u32);
        assert(levels[1 + k] == bits[k]);
    }
    assert forall|k: int| 9 <= k < levels.len() implies #[trigger] levels[k] by {
        if k < 12 {
            lemma_word_bits(byte, word, (k - 1) as u32);
            assert(levels[k] == bits[k - 1]);
        }
    }
}

/// A transmitter is set up from the pad on: the pad first, the timer behind it, which waits
/// for the shifter, then the shifter, and the interrupt of the channel last.
pub proof fn law_transmitter_setup_order<'d, P: FlexioPin<FLEXIO0, L>, const L: usize>(
    shifter: Shifter<'d, 0>,
    timer: Timer<'d, 0>,
    tx_pin: &P,
    ops: &mut Vec<FlexioOp>,
    baud: u32,
    flexio_clk: u32,
    uart: FlexioUartTx<'d>,
    i: int,
)
    requires
        call_ensures(
            FlexioUartTx::<'d>::new::<P, L>,
            (shifter, timer, tx_pin, ops, baud, flexio_clk),
            uart,
        ),
        old(ops)@.len() <= i < final(ops)@.len(),
    ensures
        final(ops)@.take(old(ops)@.len() as int) == old(ops)@,
        final(ops)@[i] is Pin <==> i < old(ops)@.len() + 3,
        final(ops)@[i] is Timctl <==> i == old(ops)@.len() + 5,
        final(ops)@[i] is Shiftctl <==> i == final(ops)@.len() - 2,
        final(ops)@[i] is Dma <==> i == final(ops)@.len() - 1,
{
    assert(final(ops)@.take(old(ops)@.len() as int) =~= old(ops)@);
}

/// A transmitter that was set up drives its lane, and every byte that its buffer is written
/// with, below ones, goes over the line with a low start bit before it, its lowest bit first,
/// and high levels behind it.
pub proof fn law_transmitter_sends_frames<'d, P: FlexioPin<FLEXIO0, L>, const L: usize>(
    shifter: Shifter<'d, 0>,
    timer: Timer<'d, 0>,
    tx_pin: &P,
    ops: &mut Vec<FlexioOp>,
    baud: u32,
    flexio_clk: u32,
    uart: FlexioUartTx<'d>,
    hw: FlexioHardware,
    byte: u8,
    word: u32,
)
    requires
        hw.wf(),
        L < 32,
        0 < baud,
        2 * baud <= u32::MAX,
        call_ensures(
            FlexioUartTx::<'d>::new::<P, L>,
            (shifter, timer, tx_pin, ops, baud, flexio_clk),
            uart,
        ),
        word == 0xffff_ff00 + byte,
    ensures
        hw.moved(old(ops)@, final(ops)@).sends(0, 0, L as u8),
        carries(hw.moved(old(ops)@, final(ops)@).frame(0, 0, word), byte),
{
    law_transmitter_registers::<P, L>(shifter, timer, tx_pin, ops, baud, flexio_clk, uart, hw);
    law_word_on_the_line(hw.moved(old(ops)@, final(ops)@), L as u8, byte, word);
}

/// Each bit lasts as many clocks as the baud rate calls for, rounded down to an even number,
/// where that number fits the counter.
pub proof fn law_transmitter_baud_rate<'d, P: FlexioPin<FLEXIO0, L>, const L: usize>(
    shifter: Shifter<'d, 0>,
    timer: Timer<'d, 0>,
    tx_pin: &P,
    ops: &mut Vec<FlexioOp>,
    baud: u32,
    flexio_clk: u32,
    uart: FlexioUartTx<'d>,
    hw: FlexioHardware,
)
    requires
        hw.wf(),
        L < 32,
        0 < baud,
        2 * baud <= flexio_clk < 514 * baud,
        2 * baud <= u32::MAX,
        call_ensures(
            FlexioUartTx::<'d>::new::<P, L>,
            (shifter, timer, tx_pin, ops, baud, flexio_clk),
            uart,
        ),
    ensures
        ({
            let clocks = hw.moved(old(ops)@, final(ops)@).bit_clocks(0);
            clocks * baud <= flexio_clk < (clocks + 2) * baud
        }),
{
    law_transmitter_registers::<P, L>(shifter, timer, tx_pin, ops, baud, flexio_clk, uart, hw);
    let d = 2 * baud;
    let c = flexio_clk as int;
    let q = c / d;
    assert(q * d <= c < (q + 1) * d && 1 <= q <= 256) by (nonlinear_arith)
        requires
            q == c / d,
            0 < d,
            d <= c < 257 * d,
    ;
    let clocks = hw.moved(old(ops)@, final(ops)@).bit_clocks(0);
    assert(clocks == 2 * q);
    assert(clocks * baud <= c < (clocks + 2) * baud) by (nonlinear_arith)
        requires
            clocks == 2 * q,
            d == 2 * baud,
            q * d <= c < (q + 1) * d,
    ;
}

/// Half a bit lasts as many clocks as the clock holds twice the baud rate, counted in the
/// eight bits of the counter; where the sixteen low bits of that number are zero, it is one.
pub proof fn law_transmitter_divider<'d, P: FlexioPin<FLEXIO0, L>, const L: usize>(
    shifter: Shifter<'d, 0>,
    timer: Timer<'d, 0>,
    tx_pin: &P,
    ops: &mut Vec<FlexioOp>,
    baud: u32,
    flexio_clk: u32,
    uart: FlexioUartTx<'d>,
    hw: FlexioHardware,
    count: int,
)
    requires
        hw.wf(),
        L < 32,
        0 < baud,
        2 * baud <= u32::MAX,
        call_ensures(
            FlexioUartTx::<'d>::new::<P, L>,
            (shifter, timer, tx_pin, ops, baud, flexio_clk),
            uart,
        ),
        2 * baud * count <= flexio_clk < 2 * baud * (count + 1),
    ensures
        ({
            let half = hw.moved(old(ops)@, final(ops)@).compare[0] as int % 0x100 + 1;
            &&& count % 0x1_0000 == 0 ==> half == 1
            &&& count % 0x1_0000 != 0 ==> (count - half) % 0x100 == 0
        }),
{
    law_transmitter_registers::<P, L>(shifter, timer, tx_pin, ops, baud, flexio_clk, uart, hw);
    let d = 2 * baud;
    let c = flexio_clk as int;
    assert(count == c / d) by (nonlinear_arith)
        requires
            0 < d,
            d * count <= c < d * (count + 1),
    ;
}

/// What the start of a transfer does.
proof fn lemma_transfer(hw: FlexioHardware, ops: Seq<FlexioOp>, count: int)
    requires
        hw.wf(),
    ensures
        ({
            let there = hw.moved(ops, ops + uart_tx::transfer_ops(count));
            &&& there == FlexioHardware { ssde: there.ssde, dma: there.dma, ..hw }
            &&& there.ssde == hw.ssde | 1
            &&& there.dma == DmaChannel {
                armed: true,
                done: false,
                interrupt: false,
                pace: Some(DmaRequest::Flexio0Sr0),
                words: count as usize,
                dest: Some(FlexioReg::Shiftbuf(0)),
                ..hw.dma
            }
        }),
{
    let queue = uart_tx::transfer_ops(count);
    registers::lemma_moved(hw, ops, queue);
    mask::lemma_single_bits();
    mask::lemma_modified_one_way(hw.ssde, 1);
    reveal_with_fuel(FlexioHardware::after, 2);
    assert(hw.after(queue, 0) == hw);
    assert(hw.after(queue, 1) == hw.step(queue[0]));
    let second = hw.step(queue[0]).step(queue[1]);
    assert(hw.after(queue, 2) == second);
    let fourth = second.step(queue[2]).step(queue[3]);
    assert(hw.after(queue, 3) == second.step(queue[2]));
    assert(hw.after(queue, 4) == fourth);
    assert(fourth == FlexioHardware {
        dma: DmaChannel {
            armed: false,
            done: false,
            interrupt: false,
            pace: Some(DmaRequest::Flexio0Sr0),
            ..hw.dma
        },
        ..hw
    });
    assert(hw.after(queue, 5) == fourth.step(queue[4]));
    assert(hw.after(queue, 6) == fourth.step(queue[4]).step(queue[5]));
    assert(hw.after(queue, 7) == fourth.step(queue[4]).step(queue[5]).step(queue[6]));
}

/// A step with bytes left fills the words with the next of them, below ones, as many as fit
/// into one transfer, and arms the channel to move exactly these words to the buffer of
/// shifter 0, at its pace, as the last thing. With no bytes left it ends and touches nothing.
pub proof fn law_chunk<'d>(
    uart: &mut FlexioUartTx<'d>,
    ops: &mut Vec<FlexioOp>,
    words: &mut [u32; 64],
    offset: usize,
    data: &[u8],
    done: bool,
    progress: Progress<UartStage, ()>,
    under_way: bool,
    hw: FlexioHardware,
    k: int,
)
    requires
        hw.wf(),
        0 <= k < 64,
        call_ensures(
            FlexioUartTx::<'d>::write,
            (uart, ops, words, UartStage::Chunk(offset), data, done),
            progress,
        ),
        progress matches Progress::Again(stage) ==> call_ensures(
            UartStage::under_way,
            (&stage,),
            under_way,
        ),
    ensures
        final(uart).compare() == old(uart).compare(),
        progress is Ready <==> offset >= data@.len(),
        offset >= data@.len() ==> hw.moved(old(ops)@, final(ops)@) == hw && final(words)@ == old(
            words,
        )@,
        offset < data@.len() ==> {
            let there = hw.moved(old(ops)@, final(ops)@);
            let end = next_start(data@.len() as int, offset as int);
            &&& progress matches Progress::Again(stage) && stage == UartStage::Sending(
                end as usize,
            ) && under_way
            &&& final(words)@[k] == (if offset + k < end {
                0xffff_ff00 + data@[offset + k]
            } else {
                old(words)@[k] as int
            })
            &&& final(ops)@.last() == FlexioOp::Dma(DmaOp::EnableRequest)
            &&& there == FlexioHardware { ssde: there.ssde, dma: there.dma, ..hw }
            &&& there.ssde == hw.ssde | 1
            &&& there.dma == DmaChannel {
                armed: true,
                done: false,
                interrupt: false,
                pace: Some(DmaRequest::Flexio0Sr0),
                words: (end - offset) as usize,
                dest: Some(FlexioReg::Shiftbuf(0)),
                ..hw.dma
            }
        },
{
    if offset < data@.len() {
        let end = next_start(data@.len() as int, offset as int);
        lemma_transfer(hw, old(ops)@, end - offset);
        assert(final(ops)@.last() == uart_tx::transfer_ops(end - offset)[6]);
        if offset + k < end {
            laws::law_word_carries_byte(data@[offset + k]);
        }
    } else {
        assert(final(ops)@.skip(old(ops)@.len() as int) =~= seq![]);
    }
}

/// While a transfer is under way somebody is registered before the done flag is looked at,
/// each time. A transfer that is through is shut down, with its interrupt flag left alone,
/// and the bytes behind it follow.
pub proof fn law_chunk_is_waited_for<'d>(
    waiting: &mut FlexioUartTx<'d>,
    ops: &mut Vec<FlexioOp>,
    words: &mut [u32; 64],
    end: usize,
    data: &[u8],
    done: bool,
    progress: Progress<UartStage, ()>,
    looking: &mut FlexioUartTx<'d>,
    later_ops: &mut Vec<FlexioOp>,
    later_words: &mut [u32; 64],
    later_done: bool,
    later_progress: Progress<UartStage, ()>,
    hw: FlexioHardware,
    k: int,
)
    requires
        hw.wf(),
        0 <= k < 8,
        call_ensures(
            FlexioUartTx::<'d>::write,
            (waiting, ops, words, UartStage::Sending(end), data, done),
            progress,
        ),
        progress matches Progress::Again(stage) && call_ensures(
            FlexioUartTx::<'d>::write,
            (looking, later_ops, later_words, stage, data, later_done),
            later_progress,
        ),
        *old(looking) == *final(waiting),
    ensures
        final(looking).compare() == old(waiting).compare(),
        final(words)@ == old(words)@,
        final(later_words)@ == old(later_words)@,
        hw.moved(old(ops)@, final(ops)@) == (FlexioHardware {
            dma: DmaChannel { watched: true, ..hw.dma },
            ..hw
        }),
        later_done ==> {
            let there = hw.moved(old(later_ops)@, final(later_ops)@);
            &&& later_progress == Progress::<UartStage, ()>::Again(UartStage::Chunk(end))
            &&& there == FlexioHardware { ssde: there.ssde, dma: there.dma, ..hw }
            &&& bit_is_set(there.ssde, k) == (k != 0 && bit_is_set(hw.ssde, k))
            &&& there.dma == DmaChannel { armed: false, done: false, ..hw.dma }
        },
        !later_done ==> later_progress == Progress::<UartStage, ()>::Wait(UartStage::Sending(end))
            && final(later_ops)@ == old(later_ops)@,
{
    registers::lemma_moved_one(hw, old(ops)@, FlexioOp::Dma(DmaOp::Register));
    if later_done {
        lemma_shut_down(hw, old(later_ops)@, k);
    } else {
        assert(final(later_ops)@ =~= old(later_ops)@);
    }
}

/// What the end of a transfer does.
proof fn lemma_shut_down(hw: FlexioHardware, ops: Seq<FlexioOp>, k: int)
    requires
        hw.wf(),
        0 <= k < 8,
    ensures
        ({
            let there = hw.moved(ops, ops + uart_tx::complete_ops());
            &&& there == FlexioHardware { ssde: there.ssde, dma: there.dma, ..hw }
            &&& bit_is_set(there.ssde, k) == (k != 0 && bit_is_set(hw.ssde, k))
            &&& there.dma == DmaChannel { armed: false, done: false, ..hw.dma }
        }),
        ({
            let there = hw.moved(ops, ops + uart_tx::abort_ops());
            &&& there == FlexioHardware { ssde: there.ssde, dma: there.dma, ..hw }
            &&& bit_is_set(there.ssde, k) == (k != 0 && bit_is_set(hw.ssde, k))
            &&& there.dma == DmaChannel { armed: false, done: false, interrupt: false, ..hw.dma }
        }),
{
    registers::lemma_moved(hw, ops, uart_tx::complete_ops());
    registers::lemma_moved(hw, ops, uart_tx::abort_ops());
    reveal_with_fuel(FlexioHardware::after, 5);
    mask::lemma_single_bits();
    mask::lemma_modified_one_way(hw.ssde, 1);
    mask::lemma_bit_of(hw.ssde, 1, k);
    mask::lemma_bit_of_single(0, k);
}

/// However a transfer ends, the shifter requests nothing any more and the channel follows
/// nothing, the shifter first; one that is broken off leaves no interrupt flag behind, one
/// that is through has its flag left alone. A stage with no transfer under way is one that
/// starts a chunk.
pub proof fn law_transfer_ends(
    through: TxDmaGuard,
    ops: &mut Vec<FlexioOp>,
    given_up: TxDmaGuard,
    other_ops: &mut Vec<FlexioOp>,
    stage: UartStage,
    under_way: bool,
    hw: FlexioHardware,
    k: int,
)
    requires
        hw.wf(),
        0 <= k < 8,
        call_ensures(TxDmaGuard::complete, (through, ops), ()),
        call_ensures(TxDmaGuard::abort, (given_up, other_ops), ()),
        call_ensures(UartStage::under_way, (&stage,), under_way),
    ensures
        ({
            let there = hw.moved(old(ops)@, final(ops)@);
            &&& there == FlexioHardware { ssde: there.ssde, dma: there.dma, ..hw }
            &&& bit_is_set(there.ssde, k) == (k != 0 && bit_is_set(hw.ssde, k))
            &&& there.dma == DmaChannel { armed: false, done: false, ..hw.dma }
        }),
        ({
            let there = hw.moved(old(other_ops)@, final(other_ops)@);
            &&& there == FlexioHardware { ssde: there.ssde, dma: there.dma, ..hw }
            &&& bit_is_set(there.ssde, k) == (k != 0 && bit_is_set(hw.ssde, k))
            &&& there.dma == DmaChannel { armed: false, done: false, interrupt: false, ..hw.dma }
        }),
        final(ops)@[old(ops)@.len() as int] is ModifyShiftsden,
        final(other_ops)@[old(other_ops)@.len() as int] is ModifyShiftsden,
        under_way <==> stage is Sending || stage is Registered,
{
    lemma_shut_down(hw, old(ops)@, k);
    lemma_shut_down(hw, old(other_ops)@, k);
}

/// The wait for the line to fall idle goes on until the buffer of shifter 0 was seen empty,
/// and then for as long as one word takes on the line, with its start and stop bits.
pub proof fn law_flush<'d, P: FlexioPin<FLEXIO0, L>, const L: usize>(
    shifter: Shifter<'d, 0>,
    timer: Timer<'d, 0>,
    tx_pin: &P,
    ops: &mut Vec<FlexioOp>,
    baud: u32,
    flexio_clk: u32,
    new: FlexioUartTx<'d>,
    uart: &mut FlexioUartTx<'d>,
    stage: FlushStage,
    ssf: u8,
    waited: u32,
    progress: Progress<FlushStage, ()>,
    clocks: u32,
    hw: FlexioHardware,
    word: u32,
)
    requires
        hw.wf(),
        L < 32,
        0 < baud,
        2 * baud <= u32::MAX,
        call_ensures(
            FlexioUartTx::<'d>::new::<P, L>,
            (shifter, timer, tx_pin, ops, baud, flexio_clk),
            new,
        ),
        old(uart).compare() == new.compare(),
        call_ensures(FlexioUartTx::<'d>::blocking_flush, (uart, stage, ssf, waited), progress),
        call_ensures(FlexioUartTx::<'d>::flush_clocks, (&new,), clocks),
    ensures
        final(uart).compare() == old(uart).compare(),
        ({
            let there = hw.moved(old(ops)@, final(ops)@);
            let time = there.frame(0, 0, word).len() * there.bit_clocks(0);
            &&& clocks == time
            &&& progress is Ready <==> stage == FlushStage::Line && waited >= time
        }),
        !(progress is Wait),
        progress matches Progress::Again(next) ==> (next == FlushStage::Line <==> stage
            == FlushStage::Line || bit_is_set(ssf, 0)),
{
    law_transmitter_registers::<P, L>(shifter, timer, tx_pin, ops, baud, flexio_clk, new, hw);
    let there = hw.moved(old(ops)@, final(ops)@);
    let bits = Seq::new(11nat, |i: int| (word >> (i as u32)) & 1 == 1);
    assert(there.frame(0, 0, word) =~= seq![false] + bits + seq![true]);
    let half = there.compare[0] as int % 0x100 + 1;
    assert(13 * (2 * half) == (0x15 + 5) * half) by (nonlinear_arith);
}

/// A transmitter that is given up gives shifter 0 and timer 0 back, and with the last of all
/// parts the peripheral and its clock are switched off.
pub proof fn law_transmitter_given_back<'d>(
    uart: FlexioUartTx<'d>,
    keeper: &mut ClockKeeper,
    ops: &mut Vec<FlexioOp>,
)
    requires
        call_ensures(FlexioUartTx::<'d>::release, (uart, keeper, ops), ()),
    ensures
        final(keeper)@ == (Returned {
            shifter: old(keeper)@.shifter.update(0, true),
            timer: old(keeper)@.timer.update(0, true),
            ..old(keeper)@
        }),
        laws_units::settled(old(keeper)@, final(keeper)@, old(ops)@, final(ops)@),
{
    let before = old(keeper)@;
    let between = before.with(Part::Shifter(0));
    let after = final(keeper)@;
    let parts = uart_tx::uart_parts();
    old(keeper).lemma_len();
    reveal_with_fuel(Returned::with_all, 3);
    reveal_with_fuel(Returned::queued, 3);
    assert(parts.drop_last() =~= seq![Part::Shifter(0)]);
    assert(parts.drop_last().drop_last() =~= seq![]);
    assert(before.complete() ==> between.complete());
    assert(between.complete() ==> after.complete());
    assert(final(ops)@ =~= old(ops)@ + (if !before.complete() && after.complete() {
        super::peripheral::release_ops()
    } else {
        seq![]
    }));
    laws_units::lemma_settled(before, after, old(ops)@, final(ops)@);
}

} // verus!
