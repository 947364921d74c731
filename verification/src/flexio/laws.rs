//! What holds of the FlexIO units as a whole.
use super::config::TimerTrigger;
use super::keeper::{Part, Returned};
use super::ops::{DmaOp, FlexioOp, UNIT_COUNT};
use super::peripheral;
use super::uart_tx;
use super::uart_tx::FlushStage;
use super::unit;
use crate::mask;
use crate::progress::Progress;
use vstd::prelude::*;

verus! {

/// A unit is handed out at most once: once it is taken it stays taken, whatever else
/// is taken, and taking one unit leaves the others free.
pub proof fn law_unit_taken_once(taken: Seq<bool>, n: int, other: int)
    requires
        taken.len() == UNIT_COUNT,
        0 <= n < UNIT_COUNT,
        0 <= other < UNIT_COUNT,
    ensures
        taken.update(n, true)[n],
        taken[other] ==> taken.update(n, true)[other],
        other != n ==> taken.update(n, true)[other] == taken[other],
        !peripheral::none_taken()[n],
{
}

/// Whether the peripheral is switched on, and its clock.
pub struct PowerHardware {
    /// FLEXEN.
    pub enabled: bool,
    /// Whether the clock runs.
    pub clock: bool,
}

impl PowerHardware {
    /// The hardware after one operation.
    pub open spec fn step(self, op: FlexioOp) -> Self {
        match op {
            FlexioOp::WriteReset(_) => PowerHardware { enabled: false, ..self },
            FlexioOp::SetEnabled(value) => PowerHardware { enabled: value, ..self },
            FlexioOp::DisableClock => PowerHardware { clock: false, ..self },
            _ => self,
        }
    }

    /// The hardware after a queue of operations.
    pub open spec fn run(self, queue: Seq<FlexioOp>) -> Self
        decreases queue.len(),
    {
        if queue.len() == 0 {
            self
        } else {
            self.run(queue.drop_last()).step(queue.last())
        }
    }
}

/// Whether a split peripheral of which the shifters of `shifters` and the timers of
/// `timers` were taken is given up altogether by `parts`.
pub open spec fn given_up(parts: Seq<Part>, shifters: Seq<bool>, timers: Seq<bool>) -> bool {
    &&& parts.contains(Part::Shifters(shifters))
    &&& parts.contains(Part::Timers(timers))
    &&& forall|n: int|
        0 <= n < UNIT_COUNT && #[trigger] shifters[n] ==> parts.contains(Part::Shifter(n))
    &&& forall|n: int|
        0 <= n < UNIT_COUNT && #[trigger] timers[n] ==> parts.contains(Part::Timer(n))
}

/// Whether a part can come from a split peripheral of which the shifters of `shifters`
/// and the timers of `timers` were taken.
pub open spec fn part_of(part: Part, shifters: Seq<bool>, timers: Seq<bool>) -> bool {
    match part {
        Part::Shifters(taken) => taken == shifters,
        Part::Timers(taken) => taken == timers,
        Part::Shifter(n) => 0 <= n < UNIT_COUNT && shifters[n],
        Part::Timer(n) => 0 <= n < UNIT_COUNT && timers[n],
    }
}

/// The clock of a split peripheral runs until the clusters, and all units that were
/// taken from them, are given back, in whatever order they come; with the last of them
/// the peripheral and its clock are switched off, once.
pub proof fn law_clock_runs_until_all_is_given_back(
    hw: PowerHardware,
    parts: Seq<Part>,
    shifters: Seq<bool>,
    timers: Seq<bool>,
)
    requires
        hw.clock,
        shifters.len() == UNIT_COUNT,
        timers.len() == UNIT_COUNT,
        forall|i: int|
            0 <= i < parts.len() ==> part_of(#[trigger] parts[i], shifters, timers),
    ensures
        ({
            let queued = Returned::nothing().queued(parts);
            let after = hw.run(peripheral::claim_ops()).run(queued);
            let over = given_up(parts, shifters, timers);
            &&& queued == (if over {
                peripheral::release_ops()
            } else {
                seq![]
            })
            &&& after.clock == !over
            &&& after.enabled == !over
        }),
{
    lemma_given_back(parts, shifters, timers);
    lemma_queued(parts, shifters, timers);
    reveal_with_fuel(PowerHardware::run, 4);
    let claim = peripheral::claim_ops();
    let release = peripheral::release_ops();
    assert(claim.drop_last().drop_last().drop_last() =~= seq![]);
    assert(release.drop_last().drop_last() =~= seq![]);
}

/// What the keeper holds after some parts.
proof fn lemma_given_back(parts: Seq<Part>, shifters: Seq<bool>, timers: Seq<bool>)
    requires
        shifters.len() == UNIT_COUNT,
        timers.len() == UNIT_COUNT,
        forall|i: int|
            0 <= i < parts.len() ==> part_of(#[trigger] parts[i], shifters, timers),
    ensures
        ({
            let held = Returned::nothing().with_all(parts);
            &&& held.shifter.len() == UNIT_COUNT
            &&& held.timer.len() == UNIT_COUNT
            &&& held.shifters == (if parts.contains(Part::Shifters(shifters)) {
                Some(shifters)
            } else {
                None
            })
            &&& held.timers == (if parts.contains(Part::Timers(timers)) {
                Some(timers)
            } else {
                None
            })
            &&& forall|n: int|
                0 <= n < UNIT_COUNT ==> #[trigger] held.shifter[n] == parts.contains(
                    Part::Shifter(n),
                )
            &&& forall|n: int|
                0 <= n < UNIT_COUNT ==> #[trigger] held.timer[n] == parts.contains(Part::Timer(n))
            &&& held.complete() == given_up(parts, shifters, timers)
        }),
    decreases parts.len(),
{
    let held = Returned::nothing().with_all(parts);
    if parts.len() > 0 {
        let front = parts.drop_last();
        let last = parts.last();
        assert(parts =~= front.push(last));
        assert forall|i: int| 0 <= i < front.len() implies part_of(
            #[trigger] front[i],
            shifters,
            timers,
        ) by {
            assert(front[i] == parts[i]);
        }
        assert(part_of(parts[parts.len() - 1], shifters, timers));
        lemma_given_back(front, shifters, timers);
        assert forall|part: Part| parts.contains(part) <==> front.contains(part) || part == last by {
            if front.contains(part) {
                let i = choose|i: int| 0 <= i < front.len() && front[i] == part;
                assert(parts[i] == part);
            }
            if part == last {
                assert(parts[parts.len() - 1] == part);
            }
        }
    }
    assert(held.complete() == given_up(parts, shifters, timers)) by {
        if held.complete() {
            assert forall|n: int| 0 <= n < UNIT_COUNT && #[trigger] shifters[n] implies parts.contains(
                Part::Shifter(n),
            ) by {
                assert(held.shifter[n]);
            }
            assert forall|n: int| 0 <= n < UNIT_COUNT && #[trigger] timers[n] implies parts.contains(
                Part::Timer(n),
            ) by {
                assert(held.timer[n]);
            }
        }
    }
}

/// What the keeper has queued after some parts.
proof fn lemma_queued(parts: Seq<Part>, shifters: Seq<bool>, timers: Seq<bool>)
    requires
        shifters.len() == UNIT_COUNT,
        timers.len() == UNIT_COUNT,
        forall|i: int|
            0 <= i < parts.len() ==> part_of(#[trigger] parts[i], shifters, timers),
    ensures
        Returned::nothing().queued(parts) == (if Returned::nothing().with_all(parts).complete() {
            peripheral::release_ops()
        } else {
            seq![]
        }),
    decreases parts.len(),
{
    if parts.len() > 0 {
        let front = parts.drop_last();
        assert forall|i: int| 0 <= i < front.len() implies part_of(
            #[trigger] front[i],
            shifters,
            timers,
        ) by {
            assert(front[i] == parts[i]);
        }
        assert(part_of(parts[parts.len() - 1], shifters, timers));
        lemma_queued(front, shifters, timers);
        lemma_given_back(front, shifters, timers);
        lemma_given_back(parts, shifters, timers);
        let held = Returned::nothing().with_all(front);
        if held.complete() {
            assert(held.with(parts.last()).complete());
        }
        assert(Returned::nothing().queued(parts) =~= (if held.with(parts.last()).complete() {
            peripheral::release_ops()
        } else {
            seq![]
        }));
    }
}

/// Two triggers of different kinds or numbers never end up with the same selection: a
/// lane, a shifter flag and their indices can be told apart by the number alone. The
/// number of a lane fits the six bits of the register up to lane 15.
pub proof fn law_triggers_distinct(a: TimerTrigger, b: TimerTrigger)
    requires
        unit::trgsrc(a) == super::fields::Trgsrc::InternalTrig,
        unit::trgsrc(b) == super::fields::Trgsrc::InternalTrig,
        unit::trgsel(a) == unit::trgsel(b),
        unit::trgpol(a) == unit::trgpol(b),
    ensures
        a == b,
        a matches TimerTrigger::InternalLane { lane, polarity } ==> (unit::trgsel(a) < 64
            <==> lane <= 15),
{
}

/// Each shifter has a DMA request signal of its own.
pub proof fn law_requests_distinct(n: int, other: int)
    requires
        0 <= n < UNIT_COUNT,
        0 <= other < UNIT_COUNT,
    ensures
        unit::request_of(n) == unit::request_of(other) <==> n == other,
        unit::request_of(n).signal() == 71 + n,
{
}

/// Enabling and disabling the DMA request of a shifter touches that shifter's bit
/// alone, and disabling undoes enabling.
pub proof fn law_dma_enable_is_per_shifter(ssde: u8, n: int, other: int)
    requires
        0 <= n < UNIT_COUNT,
        0 <= other < 8,
    ensures
        ({
            let on = mask::modified_bits(ssde, 0, unit::unit_bit(n));
            let off = mask::modified_bits(ssde, unit::unit_bit(n), 0);
            &&& mask::bit_is_set(on, n)
            &&& !mask::bit_is_set(off, n)
            &&& other != n ==> mask::bit_is_set(on, other) == mask::bit_is_set(ssde, other)
            &&& other != n ==> mask::bit_is_set(off, other) == mask::bit_is_set(ssde, other)
            &&& mask::modified_bits(on, unit::unit_bit(n), 0) == off
            &&& !mask::bit_is_set(ssde, n) ==> mask::modified_bits(on, unit::unit_bit(n), 0) == ssde
        }),
{
    let k: u8 = n as u8;
    let j: u8 = other as u8;
    let on: u8 = (ssde & !0u8) | (1u8 << k);
    let off: u8 = (ssde & !(1u8 << k)) | 0;
    let back: u8 = (on & !(1u8 << k)) | 0;
    assert(on & (1u8 << k) != 0 && off & (1u8 << k) == 0 && (j != k ==> (on & (1u8 << j) != 0
        <==> ssde & (1u8 << j) != 0)) && (j != k ==> (off & (1u8 << j) != 0 <==> ssde & (1u8 << j)
        != 0)) && back == off && (ssde & (1u8 << k) == 0 ==> back == ssde)) by (bit_vector)
        requires
            k < 4,
            j < 8,
            on == (ssde & !0u8) | (1u8 << k),
            off == (ssde & !(1u8 << k)) | 0,
            back == (on & !(1u8 << k)) | 0,
    ;
}

/// Clearing the status flag of a unit, where a one clears a flag, leaves the flags of
/// the others up.
pub proof fn law_clear_is_per_unit(flags: u8, n: int, other: int)
    requires
        0 <= n < UNIT_COUNT,
        0 <= other < 8,
    ensures
        ({
            let left = flags & !unit::unit_bit(n);
            &&& !mask::bit_is_set(left, n)
            &&& other != n ==> mask::bit_is_set(left, other) == mask::bit_is_set(flags, other)
        }),
{
    let k: u8 = n as u8;
    let j: u8 = other as u8;
    assert((flags & !(1u8 << k)) & (1u8 << k) == 0 && (j != k ==> ((flags & !(1u8 << k)) & (1u8
        << j) != 0 <==> flags & (1u8 << j) != 0))) by (bit_vector)
        requires
            k < 4,
            j < 8,
    ;
}

/// A word gives its byte back in the low eight bits, and is all ones above.
pub proof fn law_word_carries_byte(byte: u8)
    ensures
        uart_tx::uart_word(byte) == 0xffff_ff00 + byte,
        uart_tx::uart_word(byte) % 0x100 == byte,
{
    assert(((byte as u32) | 0xffff_ff00) == 0xffff_ff00 + byte) by (bit_vector);
}

/// All words that a transmission hands to the shifter from `offset` on, chunk after chunk.
pub open spec fn words_sent(data: Seq<u8>, offset: int) -> Seq<u32>
    decreases data.len() - offset,
{
    if offset >= data.len() || offset < 0 {
        seq![]
    } else {
        let end = uart_tx::chunk_end(data.len() as int, offset);
        uart_tx::uart_words(data.subrange(offset, end)) + words_sent(data, end)
    }
}

/// A transmission sends every byte once and in order, however it is cut into chunks,
/// and no chunk is empty or longer than a transfer can be.
pub proof fn law_all_bytes_sent_in_order(data: Seq<u8>, offset: int)
    requires
        0 <= offset <= data.len(),
    ensures
        words_sent(data, offset) == uart_tx::uart_words(data.skip(offset)),
        words_sent(data, 0) == uart_tx::uart_words(data),
        offset < data.len() ==> 0 < uart_tx::chunk_end(data.len() as int, offset) - offset
            <= uart_tx::CHUNK_WORDS,
    decreases data.len() - offset,
{
    lemma_words_sent(data, offset);
    lemma_words_sent(data, 0);
    assert(data.skip(0) =~= data);
}

/// The words from `offset` on.
proof fn lemma_words_sent(data: Seq<u8>, offset: int)
    requires
        0 <= offset <= data.len(),
    ensures
        words_sent(data, offset) == uart_tx::uart_words(data.skip(offset)),
    decreases data.len() - offset,
{
    if offset < data.len() {
        let end = uart_tx::chunk_end(data.len() as int, offset);
        lemma_words_sent(data, end);
        assert(words_sent(data, offset) =~= uart_tx::uart_words(data.skip(offset)));
    } else {
        assert(uart_tx::uart_words(data.skip(offset)) =~= Seq::<u32>::empty());
    }
}

/// Where the clock divided by twice the baud rate fits the counter, the lower byte of
/// the compare value is that divider less one.
pub proof fn law_baud_divider(flexio_clk: u32, baud: u32)
    requires
        0 < baud,
        1 <= flexio_clk as int / (2 * baud) <= 256,
    ensures
        uart_tx::uart_compare(flexio_clk, baud) == 0x1500 + flexio_clk as int / (2 * baud) - 1,
        uart_tx::uart_compare(flexio_clk, baud) % 0x100 == flexio_clk as int / (2 * baud) - 1,
{
}

/// What goes on between the buffer of the shifter and the line.
pub struct LineHardware {
    /// The word in the buffer; the status flag is up while there is none.
    pub buffer: Option<u32>,
    /// The word that is shifting out.
    pub shifting: Option<u32>,
    /// FlexIO clocks until that word is out.
    pub left: int,
    /// FlexIO clocks that a word takes.
    pub length: int,
    /// The words that are out, stop bit included.
    pub sent: Seq<u32>,
}

/// What happens to the shifter.
pub enum LineEvent {
    /// One FlexIO clock passes.
    Clock,
    /// A word is written to the buffer.
    Load(u32),
}

/// The one word, if there is one.
pub open spec fn as_words(word: Option<u32>) -> Seq<u32> {
    match word {
        Some(word) => seq![word],
        None => seq![],
    }
}

/// The words that are written to the buffer.
pub open spec fn words_loaded(events: Seq<LineEvent>) -> Seq<u32>
    decreases events.len(),
{
    if events.len() == 0 {
        seq![]
    } else {
        words_loaded(events.drop_last()) + (match events.last() {
            LineEvent::Load(word) => seq![word],
            LineEvent::Clock => seq![],
        })
    }
}

/// Some clocks pass and nothing is written.
pub open spec fn clocks(count: int) -> Seq<LineEvent> {
    Seq::new(count as nat, |i: int| LineEvent::Clock)
}

impl LineHardware {
    /// Nothing was sent, and nothing is to be sent.
    pub open spec fn fresh(self) -> bool {
        self.idle() && self.sent.len() == 0
    }

    /// Nothing is left to be sent.
    pub open spec fn idle(self) -> bool {
        self.buffer is None && self.shifting is None
    }

    /// Whether `ssf` is what SHIFTSTAT reads: the flag of the shifter is up while its
    /// buffer is empty.
    pub open spec fn reads(self, ssf: u8) -> bool {
        mask::bit_is_set(ssf, 0) == (self.buffer is None)
    }

    /// The hardware after one event. The shifter takes the next word from the buffer
    /// when it is through with the one before.
    pub open spec fn step(self, event: LineEvent) -> Self {
        match event {
            LineEvent::Load(word) => LineHardware { buffer: Some(word), ..self },
            LineEvent::Clock => if self.shifting is Some && self.left > 1 {
                LineHardware { left: self.left - 1, ..self }
            } else {
                LineHardware {
                    buffer: None,
                    shifting: self.buffer,
                    left: self.length,
                    sent: self.sent + as_words(self.shifting),
                    ..self
                }
            },
        }
    }

    /// The hardware after some events.
    pub open spec fn run(self, events: Seq<LineEvent>) -> Self
        decreases events.len(),
    {
        if events.len() == 0 {
            self
        } else {
            self.run(events.drop_last()).step(events.last())
        }
    }

    /// Whether words are only written while the status flag is up.
    pub open spec fn paced(self, events: Seq<LineEvent>) -> bool
        decreases events.len(),
    {
        if events.len() == 0 {
            true
        } else {
            &&& self.paced(events.drop_last())
            &&& events.last() is Load ==> self.run(events.drop_last()).buffer is None
        }
    }
}

/// When all words of a transmission were written to the buffer, paced by the status flag,
/// and the wait for the line to fall idle is over, then every byte has left the line, in
/// order and behind all earlier words, and the line is idle: whenever the words came, as
/// long as none takes longer than its frame.
pub proof fn law_line_is_idle_after_flush(
    hw: LineHardware,
    compare: u16,
    earlier: Seq<u32>,
    data: Seq<u8>,
    events: Seq<LineEvent>,
    ssf: u8,
    later: u8,
    waited: u32,
)
    requires
        hw.fresh(),
        0 < hw.length <= uart_tx::frame_clocks(compare),
        hw.paced(events),
        words_loaded(events) == earlier + words_sent(data, 0),
        hw.run(events).reads(ssf),
        uart_tx::flush_step(compare, FlushStage::Buffer, ssf, 0) == Progress::<
            FlushStage,
            (),
        >::Again(FlushStage::Line),
        uart_tx::flush_step(compare, FlushStage::Line, later, waited) == Progress::<
            FlushStage,
            (),
        >::Ready(()),
    ensures
        ({
            let end = hw.run(events).run(clocks(waited as int));
            &&& end.idle()
            &&& end.sent == earlier + uart_tx::uart_words(data)
            &&& mask::bit_is_set(ssf, 0)
        }),
{
    lemma_line(hw, events);
    lemma_drained(hw.run(events), waited as int);
    law_all_bytes_sent_in_order(data, 0);
    let before = hw.run(events);
    assert(before.sent + as_words(before.shifting) =~= words_loaded(events));
}

/// No word is lost, doubled or overtaken.
proof fn lemma_line(hw: LineHardware, events: Seq<LineEvent>)
    requires
        hw.fresh(),
        0 < hw.length,
        hw.paced(events),
    ensures
        ({
            let after = hw.run(events);
            &&& after.length == hw.length
            &&& after.shifting is Some ==> 0 < after.left <= after.length
            &&& after.sent + as_words(after.shifting) + as_words(after.buffer) == words_loaded(
                events,
            )
        }),
    decreases events.len(),
{
    if events.len() > 0 {
        lemma_line(hw, events.drop_last());
        let after = hw.run(events);
        assert(after.sent + as_words(after.shifting) + as_words(after.buffer) =~= words_loaded(
            events,
        ));
    } else {
        assert(hw.sent =~= seq![]);
    }
}

/// With nothing in the buffer, the word that is shifting out gets out.
proof fn lemma_drained(hw: LineHardware, count: int)
    requires
        0 <= count,
        hw.buffer is None,
        hw.shifting is Some ==> 0 < hw.left,
    ensures
        ({
            let after = hw.run(clocks(count));
            &&& after.buffer is None
            &&& hw.shifting is Some && count < hw.left ==> after == (LineHardware {
                left: hw.left - count,
                ..hw
            })
            &&& hw.shifting is None || count >= hw.left ==> after.shifting is None && after.sent
                == hw.sent + as_words(hw.shifting)
        }),
    decreases count,
{
    if count > 0 {
        assert(clocks(count).drop_last() =~= clocks(count - 1));
        lemma_drained(hw, count - 1);
        let before = hw.run(clocks(count - 1));
        let after = hw.run(clocks(count));
        assert(after == before.step(LineEvent::Clock));
        assert(after.sent =~= before.sent + as_words(before.shifting) || after.sent == before.sent);
        assert(hw.shifting is None || count >= hw.left ==> after.sent =~= hw.sent + as_words(
            hw.shifting,
        ));
    } else {
        assert(hw.sent + as_words(None) =~= hw.sent);
    }
}

/// What a DMA transfer to the shifter leaves its mark on.
pub struct TransferHardware {
    /// SSDE: which shifters request transfers.
    pub ssde: u8,
    /// Whether the DMA channel follows requests.
    pub armed: bool,
    /// Whether the interrupt flag of the DMA channel can still be up.
    pub interrupt: bool,
}

impl TransferHardware {
    /// The hardware after one operation.
    pub open spec fn step(self, op: FlexioOp) -> Self {
        match op {
            FlexioOp::ModifyShiftsden { clear, set } => TransferHardware {
                ssde: mask::modified_bits(self.ssde, clear, set),
                ..self
            },
            FlexioOp::Dma(DmaOp::DisableRequest) => TransferHardware { armed: false, ..self },
            FlexioOp::Dma(DmaOp::EnableRequest) => TransferHardware { armed: true, ..self },
            FlexioOp::Dma(DmaOp::ClearInterrupt) => TransferHardware { interrupt: false, ..self },
            _ => self,
        }
    }

    /// The hardware after a queue of operations.
    pub open spec fn run(self, queue: Seq<FlexioOp>) -> Self
        decreases queue.len(),
    {
        if queue.len() == 0 {
            self
        } else {
            self.run(queue.drop_last()).step(queue.last())
        }
    }
}

/// A transfer that was started is shut down however it ends: neither the shifter
/// requests transfers any more nor does the channel follow requests, and the requests
/// of the other shifters stay as they were before the transfer. Only a transfer that
/// is broken off has its interrupt flag cleared.
pub proof fn law_transfer_is_shut_down(hw: TransferHardware, count: int, other: int)
    requires
        0 < other < 8,
    ensures
        ({
            let started = hw.run(uart_tx::transfer_ops(count));
            let completed = started.run(uart_tx::complete_ops());
            let aborted = started.run(uart_tx::abort_ops());
            &&& mask::bit_is_set(started.ssde, 0) && started.armed
            &&& !mask::bit_is_set(completed.ssde, 0) && !completed.armed
            &&& !mask::bit_is_set(aborted.ssde, 0) && !aborted.armed && !aborted.interrupt
            &&& completed.interrupt == started.interrupt
            &&& mask::bit_is_set(completed.ssde, other) == mask::bit_is_set(hw.ssde, other)
            &&& mask::bit_is_set(aborted.ssde, other) == mask::bit_is_set(hw.ssde, other)
        }),
{
    reveal_with_fuel(TransferHardware::run, 8);
    let transfer = uart_tx::transfer_ops(count);
    let complete = uart_tx::complete_ops();
    let abort = uart_tx::abort_ops();
    assert(transfer.drop_last().drop_last().drop_last().drop_last().drop_last().drop_last().drop_last()
        =~= seq![]);
    assert(abort.drop_last() =~= complete);
    let started = hw.run(transfer);
    let one: u8 = 1u8 << 0u8;
    let before: u8 = hw.ssde;
    let on: u8 = (before & !0u8) | one;
    let off: u8 = (on & !1u8) | 0;
    let j: u8 = other as u8;
    assert(started.ssde == on && started.armed);
    assert(started.run(complete).ssde == off);
    assert(on & (1u8 << 0u8) != 0 && off & (1u8 << 0u8) == 0 && (off & (1u8 << j) != 0 <==> before & (
    1u8 << j) != 0)) by (bit_vector)
        requires
            0 < j < 8,
            one == 1u8 << 0u8,
            on == (before & !0u8) | one,
            off == (on & !1u8) | 0,
    ;
}

} // verus!
