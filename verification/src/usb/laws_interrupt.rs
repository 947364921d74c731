//! What the interrupt handler owes the bus, the stack and the controller.
use super::bdt;
use super::bus::Bus;
use super::effects;
use super::effects::{added, awaiting_setup, empty_table, kept, with_pair, with_setup};
use super::hardware;
use super::hardware::{UsbCore, UsbHardware};
use super::interrupt;
use super::interrupt::{
    InterruptHandler, IrqInput, IrqNext, TokenStat, ISTAT_ERROR, ISTAT_RESUME, ISTAT_SLEEP,
    ISTAT_STALL, ISTAT_TOKDNE, ISTAT_USBRST,
};
use super::laws;
use super::ops::{UsbOp, UsbReg, ENDPT_EPSTALL};
use super::pipe;
use super::state;
use super::state::{UsbFsState, UsbModel};
use super::types::{Event, EP_COUNT, HW_EP_COUNT};
use crate::mask;
use crate::mask::bit_is_set;
use vstd::prelude::*;

verus! {

/// The flags of ISTAT by their places.
proof fn lemma_flags(istat: u8)
    ensures
        interrupt::raised(istat, ISTAT_USBRST) == bit_is_set(istat, 0),
        interrupt::raised(istat, ISTAT_ERROR) == bit_is_set(istat, 1),
        interrupt::raised(istat, ISTAT_TOKDNE) == bit_is_set(istat, 3),
        interrupt::raised(istat, ISTAT_SLEEP) == bit_is_set(istat, 4),
        interrupt::raised(istat, ISTAT_RESUME) == bit_is_set(istat, 5),
        interrupt::raised(istat, ISTAT_STALL) == bit_is_set(istat, 7),
{
    mask::lemma_single_bits();
}

/// What one more event does to each event.
proof fn lemma_event_bits(events: u8, k: int)
    requires
        0 <= k < 8,
    ensures
        bit_is_set(events | state::EVENT_RESET, k) == (k == 0 || bit_is_set(events, k)),
        bit_is_set(events | state::EVENT_SUSPEND, k) == (k == 1 || bit_is_set(events, k)),
        bit_is_set(events | state::EVENT_RESUME, k) == (k == 2 || bit_is_set(events, k)),
        !bit_is_set(0, k),
{
    mask::lemma_single_bits();
    mask::lemma_bit_of(events, state::EVENT_RESET, k);
    mask::lemma_bit_of(events, state::EVENT_SUSPEND, k);
    mask::lemma_bit_of(events, state::EVENT_RESUME, k);
    mask::lemma_bit_of_single(0, k);
    mask::lemma_bit_of_single(1, k);
    mask::lemma_bit_of_single(2, k);
}

/// After an interrupt an event waits exactly if its own flag was raised, or if it waited
/// before and no reset wiped it out: bit 0 for the reset of flag 0, bit 1 for the suspend
/// of flag 4, bit 2 for the resume of flag 5. Who waits for the bus is woken exactly if one
/// of them was raised.
pub proof fn law_events_follow_their_flags(
    state: &mut UsbFsState,
    ops: &mut Vec<UsbOp>,
    istat: u8,
    next: IrqNext,
    k: int,
)
    requires
        call_ensures(interrupt::on_interrupt, (state, ops, IrqInput::Status { istat }), next),
        0 <= k < 8,
    ensures
        bit_is_set(final(state).events, k) == ((k == 0 && bit_is_set(istat, 0)) || (k == 1
            && bit_is_set(istat, 4)) || (k == 2 && bit_is_set(istat, 5)) || (!bit_is_set(istat, 0)
            && bit_is_set(old(state).events, k))),
        added(old(ops)@, final(ops)@).contains(UsbOp::WakeBus) <==> bit_is_set(istat, 0)
            || bit_is_set(istat, 4) || bit_is_set(istat, 5),
{
    let before = state@;
    let queue = before.irq_ops(IrqInput::Status { istat });
    effects::lemma_added(old(ops)@, queue);
    lemma_flags(istat);
    lemma_event_bits(before.events, k);
    lemma_event_bits(0, k);
    lemma_event_bits(before.events | state::EVENT_SUSPEND, k);
    lemma_event_bits(0u8 | state::EVENT_RESET, k);
    lemma_event_bits(0u8 | state::EVENT_RESET | state::EVENT_SUSPEND, k);
    let wanted = bit_is_set(istat, 0) || bit_is_set(istat, 4) || bit_is_set(istat, 5);
    if wanted {
        let stat = TokenStat { endp: 0, tx: false, odd: false };
        laws::law_waiters_are_woken(before, stat, 0, 0, false, 0, istat);
        let bus = interrupt::bus_ops(istat);
        let i = choose|i: int| 0 <= i < bus.len() && bus[i] == UsbOp::WakeBus;
        assert(queue[i] == UsbOp::WakeBus);
    } else {
        assert(interrupt::bus_ops(istat) =~= seq![]);
        assert forall|i: int| 0 <= i < queue.len() implies queue[i] != UsbOp::WakeBus by {}
    }
}

/// No other stage of the handler touches the events.
pub proof fn law_events_come_from_status(
    state: &mut UsbFsState,
    ops: &mut Vec<UsbOp>,
    input: IrqInput,
    next: IrqNext,
)
    requires
        call_ensures(interrupt::on_interrupt, (state, ops, input), next),
        !(input is Status),
    ensures
        final(state).events == old(state).events,
        !added(old(ops)@, final(ops)@).contains(UsbOp::WakeBus),
{
    let queue = state@.irq_ops(input);
    effects::lemma_added(old(ops)@, queue);
    assert forall|i: int| 0 <= i < queue.len() implies queue[i] != UsbOp::WakeBus by {}
}

/// What the stack is told after an interrupt, once it knows of the power: a reset if one
/// was raised or waited, else a suspend if one was raised or waited, else a resume; and
/// each report takes all that waited with it.
pub proof fn law_event_reaches_the_stack(
    state: &mut UsbFsState,
    ops: &mut Vec<UsbOp>,
    istat: u8,
    next: IrqNext,
    bus: &mut Bus,
    later: &mut UsbFsState,
    later_ops: &mut Vec<UsbOp>,
    event: Option<Event>,
)
    requires
        call_ensures(interrupt::on_interrupt, (state, ops, IrqInput::Status { istat }), next),
        call_ensures(Bus::poll, (bus, later, later_ops), event),
        *old(later) == *final(state),
        old(bus).powered(),
    ensures
        ({
            let waited = old(state).events;
            event == (if bit_is_set(istat, 0) || bit_is_set(waited, 0) {
                Some(Event::Reset)
            } else if bit_is_set(istat, 4) || bit_is_set(waited, 1) {
                Some(Event::Suspend)
            } else if bit_is_set(istat, 5) || bit_is_set(waited, 2) {
                Some(Event::Resume)
            } else {
                None
            })
        }),
        final(later).events == 0,
{
    mask::lemma_single_bits();
    law_events_follow_their_flags(state, ops, istat, next, 0);
    law_events_follow_their_flags(state, ops, istat, next, 1);
    law_events_follow_their_flags(state, ops, istat, next, 2);
}

/// The first look at the bus reports the power, whatever waits, and keeps what waits; each
/// later one reports and takes what waits, asks to be woken exactly if nothing does, and
/// leaves all else alone.
pub proof fn law_looks_at_the_bus(
    bus: &mut Bus,
    state: &mut UsbFsState,
    ops: &mut Vec<UsbOp>,
    event: Option<Event>,
)
    requires
        call_ensures(Bus::poll, (bus, state, ops), event),
    ensures
        final(bus).powered(),
        final(bus).sizes(true) == old(bus).sizes(true),
        final(bus).sizes(false) == old(bus).sizes(false),
        final(bus).types(true) == old(bus).types(true),
        final(bus).types(false) == old(bus).types(false),
        event == Some(Event::PowerDetected) <==> !old(bus).powered(),
        !old(bus).powered() ==> final(state)@ == old(state)@ && final(ops)@ == old(ops)@,
        old(bus).powered() ==> {
            let waits = old(state).events;
            &&& event == Some(Event::Reset) <==> bit_is_set(waits, 0)
            &&& event == Some(Event::Suspend) <==> !bit_is_set(waits, 0) && bit_is_set(waits, 1)
            &&& event == Some(Event::Resume) <==> !bit_is_set(waits, 0) && !bit_is_set(waits, 1)
                && bit_is_set(waits, 2)
            &&& event is None <==> !bit_is_set(waits, 0) && !bit_is_set(waits, 1) && !bit_is_set(
                waits,
                2,
            )
            &&& final(state)@ == (UsbModel { events: 0, ..old(state)@ })
            &&& final(ops)@ == (if event is None {
                old(ops)@.push(UsbOp::RegisterBus)
            } else {
                old(ops)@
            })
        },
{
    mask::lemma_single_bits();
    if bus.powered() && event is None {
        assert(old(ops)@ + seq![UsbOp::RegisterBus] =~= old(ops)@.push(UsbOp::RegisterBus));
    } else if bus.powered() {
        assert(old(ops)@ + Seq::<UsbOp>::empty() =~= old(ops)@);
    }
}

/// The register of endpoint zero while it is open and not stalled.
pub proof fn lemma_open_zero()
    ensures
        interrupt::ep0_bits() == 0x0d,
        0x0du8 & !0x02u8 == 0x0d,
        1u8 & 1u8 != 0,
{
    assert(1u8 | 8u8 | 4u8 == 0x0d && 0x0du8 & !0x02u8 == 0x0d && 1u8 & 1u8 != 0) by (bit_vector);
}

/// The registers and the table after the reset queue.
proof fn lemma_reset_hardware(hw: UsbHardware)
    requires
        hw.wf(),
    ensures
        ({
            let after = hw.run(interrupt::reset_ops());
            &&& after.wf()
            &&& after.addr == 0
            &&& after.endpt == only_zero_open()
            &&& after.bdt == with_setup(empty_table(), false)
        }),
{
    let istat: u8 = 1;
    lemma_open_zero();
    laws::law_reset_starts_afresh(hw, UsbModel::fresh(), UsbModel::fresh(), istat);
    let after = hw.run(interrupt::reset_ops());
    hardware::lemma_owned_word(8, false);
    assert(after.endpt =~= only_zero_open());
    assert(after.bdt =~= with_setup(empty_table(), false));
}

/// The controller as a whole after the reset queue.
proof fn lemma_reset_core(core: UsbCore)
    ensures
        core.run(interrupt::reset_ops()) == (UsbCore {
            odd_reset: false,
            at_even: true,
            token_busy: false,
            istat: core.istat & !0x01u8,
            ..core
        }),
{
    let front = interrupt::disable_ops(HW_EP_COUNT as int) + seq![
        UsbOp::Write { reg: UsbReg::Addr, value: 0 },
    ] + bdt::clear_ops(bdt::BDT_ENTRY_COUNT as int);
    let odd = seq![UsbOp::SetOddReset(true), UsbOp::SetOddReset(false)];
    let setup = UsbModel::fresh().setup_ops();
    let write = UsbOp::Write { reg: UsbReg::Endpt(0), value: interrupt::ep0_bits() };
    let ack = interrupt::ack(ISTAT_USBRST);
    let tail = seq![write, UsbOp::WakeBus, ack];
    hardware::lemma_core_beside(core, front);
    hardware::lemma_core_concat(core, front, odd);
    hardware::lemma_core_two(core, odd[0], odd[1]);
    let c1 = core.run(odd);
    assert(c1 == UsbCore { odd_reset: false, at_even: true, ..core }) by {
        reveal(UsbCore::step);
    }
    hardware::lemma_core_concat(core, front + odd, setup);
    effects::lemma_setup_core(c1, UsbModel::fresh());
    let c2 = c1.run(setup);
    hardware::lemma_core_concat(core, front + odd + setup, tail);
    hardware::lemma_core_three(c2, write, UsbOp::WakeBus, ack);
    assert(c2.run(tail) == UsbCore { istat: c2.istat & !0x01u8, ..c2 }) by {
        reveal(UsbCore::step);
    }
}

/// The parts of the queue of the bus events.
spec fn bus_parts(istat: u8) -> (Seq<UsbOp>, Seq<UsbOp>, Seq<UsbOp>) {
    (
        if interrupt::raised(istat, ISTAT_USBRST) {
            interrupt::reset_ops()
        } else {
            seq![]
        },
        if interrupt::raised(istat, ISTAT_SLEEP) {
            interrupt::event_ops(ISTAT_SLEEP)
        } else {
            seq![]
        },
        if interrupt::raised(istat, ISTAT_RESUME) {
            interrupt::event_ops(ISTAT_RESUME)
        } else {
            seq![]
        },
    )
}

/// An event queue wakes and acknowledges.
proof fn lemma_event_core(core: UsbCore, flag: u8)
    ensures
        core.run(interrupt::event_ops(flag)) == (UsbCore { istat: core.istat & !flag, ..core }),
{
    reveal(UsbCore::step);
    hardware::lemma_core_two(core, UsbOp::WakeBus, interrupt::ack(flag));
}

/// The registers and the table after the bus events.
proof fn lemma_bus_hardware(hw: UsbHardware, istat: u8)
    requires
        hw.wf(),
    ensures
        ({
            let after = hw.run(interrupt::bus_ops(istat));
            &&& after.wf()
            &&& after == (if bit_is_set(istat, 0) {
                UsbHardware {
                    addr: 0,
                    endpt: only_zero_open(),
                    bdt: with_setup(empty_table(), false),
                }
            } else {
                hw
            })
        }),
{
    lemma_flags(istat);
    let (reset, sleep, resume) = bus_parts(istat);
    lemma_reset_hardware(hw);
    hardware::lemma_run_concat(hw, reset, sleep);
    hardware::lemma_run_concat(hw, reset + sleep, resume);
    hardware::lemma_run_two(hw.run(reset), UsbOp::WakeBus, interrupt::ack(ISTAT_SLEEP));
    hardware::lemma_run_two(hw.run(reset), UsbOp::WakeBus, interrupt::ack(ISTAT_RESUME));
}

/// The controller as a whole after the bus events.
proof fn lemma_bus_core(core: UsbCore, istat: u8)
    ensures
        ({
            let reset = bit_is_set(istat, 0);
            core.run(interrupt::bus_ops(istat)) == UsbCore {
                odd_reset: core.odd_reset && !reset,
                at_even: core.at_even || reset,
                token_busy: core.token_busy && !reset,
                istat: left_by_bus(core.istat, istat),
                ..core
            }
        }),
{
    lemma_flags(istat);
    let (reset, sleep, resume) = bus_parts(istat);
    hardware::lemma_core_concat(core, reset, sleep);
    hardware::lemma_core_concat(core, reset + sleep, resume);
    lemma_perhaps_reset_core(core, interrupt::raised(istat, ISTAT_USBRST));
    lemma_perhaps_event_core(core.run(reset), interrupt::raised(istat, ISTAT_SLEEP), ISTAT_SLEEP);
    lemma_perhaps_event_core(
        core.run(reset).run(sleep),
        interrupt::raised(istat, ISTAT_RESUME),
        ISTAT_RESUME,
    );
}

/// The controller as a whole after the reset queue, if there is one.
proof fn lemma_perhaps_reset_core(core: UsbCore, reset: bool)
    ensures
        core.run(
            if reset {
                interrupt::reset_ops()
            } else {
                seq![]
            },
        ) == (UsbCore {
            odd_reset: core.odd_reset && !reset,
            at_even: core.at_even || reset,
            token_busy: core.token_busy && !reset,
            istat: if reset {
                core.istat & !0x01u8
            } else {
                core.istat
            },
            ..core
        }),
{
    if reset {
        lemma_reset_core(core);
    } else {
        hardware::lemma_core_beside(core, seq![]);
    }
}

/// The controller as a whole after an event queue, if there is one.
proof fn lemma_perhaps_event_core(core: UsbCore, event: bool, flag: u8)
    ensures
        core.run(
            if event {
                interrupt::event_ops(flag)
            } else {
                seq![]
            },
        ) == (UsbCore {
            istat: if event {
                core.istat & !flag
            } else {
                core.istat
            },
            ..core
        }),
{
    if event {
        lemma_event_core(core, flag);
    } else {
        hardware::lemma_core_beside(core, seq![]);
    }
}

/// The parts of the queue of the flags after the token.
spec fn tail_parts(m: UsbModel, istat: u8) -> (Seq<UsbOp>, Seq<UsbOp>) {
    (
        if interrupt::raised(istat, ISTAT_STALL) {
            seq![UsbOp::ModifyEndpt { ep: 0, clear: ENDPT_EPSTALL, set: 0 }] + m.setup_ops() + seq![
                interrupt::ack(ISTAT_STALL),
            ]
        } else {
            seq![]
        },
        if interrupt::raised(istat, ISTAT_ERROR) {
            seq![
                UsbOp::Write { reg: UsbReg::Errstat, value: 0xff },
                interrupt::ack(ISTAT_ERROR),
            ]
        } else {
            seq![]
        },
    )
}

/// The registers and the table after stall and error.
proof fn lemma_tail_hardware(hw: UsbHardware, m: UsbModel, istat: u8)
    requires
        hw.wf(),
    ensures
        ({
            let after = hw.run(interrupt::tail_ops(m, istat));
            &&& after.wf()
            &&& after == (if bit_is_set(istat, 7) {
                UsbHardware {
                    endpt: hw.endpt.update(0, hw.endpt[0] & !0x02u8),
                    bdt: with_setup(hw.bdt, m.out_odd[0]),
                    ..hw
                }
            } else {
                hw
            })
        }),
{
    lemma_flags(istat);
    let (stall, error) = tail_parts(m, istat);
    let clear = seq![UsbOp::ModifyEndpt { ep: 0, clear: ENDPT_EPSTALL, set: 0 }];
    let done = seq![interrupt::ack(ISTAT_STALL)];
    mask::lemma_modified_one_way(hw.endpt[0], 0x02);
    hardware::lemma_run_one(hw, clear[0]);
    let g1 = hw.run(clear);
    hardware::lemma_run_concat(hw, clear, m.setup_ops());
    effects::lemma_setup_effect(g1, arbitrary(), m);
    let g2 = g1.run(m.setup_ops());
    hardware::lemma_run_concat(hw, clear + m.setup_ops(), done);
    hardware::lemma_run_one(g2, done[0]);
    hardware::lemma_run_concat(hw, stall, error);
    hardware::lemma_run_two(
        hw.run(stall),
        UsbOp::Write { reg: UsbReg::Errstat, value: 0xff },
        interrupt::ack(ISTAT_ERROR),
    );
}

/// The controller as a whole after a stall.
proof fn lemma_stall_core(core: UsbCore, m: UsbModel)
    ensures
        core.run(
            seq![UsbOp::ModifyEndpt { ep: 0, clear: ENDPT_EPSTALL, set: 0 }] + m.setup_ops() + seq![
                interrupt::ack(ISTAT_STALL),
            ],
        ) == (UsbCore { token_busy: false, istat: core.istat & !0x80u8, ..core }),
{
    let clear = seq![UsbOp::ModifyEndpt { ep: 0, clear: ENDPT_EPSTALL, set: 0 }];
    let done = seq![interrupt::ack(ISTAT_STALL)];
    hardware::lemma_core_beside(core, clear);
    hardware::lemma_core_concat(core, clear, m.setup_ops());
    effects::lemma_setup_core(core, m);
    hardware::lemma_core_concat(core, clear + m.setup_ops(), done);
    hardware::lemma_core_one(core.run(m.setup_ops()), done[0]);
    reveal(UsbCore::step);
}

/// The controller as a whole after stall and error.
proof fn lemma_tail_core(core: UsbCore, m: UsbModel, istat: u8)
    ensures
        core.run(interrupt::tail_ops(m, istat)) == (UsbCore {
            token_busy: core.token_busy && !bit_is_set(istat, 7),
            istat: left_by_tail(core.istat, istat),
            errstat: if bit_is_set(istat, 1) {
                0
            } else {
                core.errstat
            },
            ..core
        }),
{
    lemma_flags(istat);
    let (stall, error) = tail_parts(m, istat);
    mask::lemma_modified_one_way(core.errstat, 0);
    hardware::lemma_core_concat(core, stall, error);
    let c1 = core.run(stall);
    if bit_is_set(istat, 7) {
        lemma_stall_core(core, m);
    } else {
        hardware::lemma_core_beside(core, stall);
    }
    if bit_is_set(istat, 1) {
        lemma_error_core(c1);
    } else {
        hardware::lemma_core_beside(c1, error);
    }
}

/// The controller as a whole after an error.
proof fn lemma_error_core(core: UsbCore)
    ensures
        core.run(
            seq![
                UsbOp::Write { reg: UsbReg::Errstat, value: 0xff },
                interrupt::ack(ISTAT_ERROR),
            ],
        ) == (UsbCore { errstat: 0, istat: core.istat & !0x02u8, ..core }),
{
    mask::lemma_modified_one_way(core.errstat, 0);
    hardware::lemma_core_two(
        core,
        UsbOp::Write { reg: UsbReg::Errstat, value: 0xff },
        interrupt::ack(ISTAT_ERROR),
    );
    reveal(UsbCore::step);
}

/// A state in which nothing waits and every toggle is down, but that the next SETUP packet
/// goes to the odd buffer.
pub open spec fn afresh(events: u8) -> UsbModel {
    UsbModel {
        out_ready: Seq::new(8, |e: int| 0xffffu16),
        out_token: Seq::new(8, |e: int| 0u8),
        pending_addr: 0,
        events,
        in_data1: Seq::new(8, |e: int| false),
        out_data1: Seq::new(8, |e: int| false),
        in_odd: Seq::new(8, |e: int| false),
        out_odd: Seq::new(8, |e: int| e == 0),
        in_active_odd: Seq::new(8, |e: int| false),
        out_done_odd: Seq::new(8, |e: int| false),
    }
}

/// ENDPT registers with endpoint zero open in both directions, its handshake on, and all
/// others closed.
pub open spec fn only_zero_open() -> Seq<u8> {
    Seq::new(16, |e: int| if e == 0 { 0x0du8 } else { 0u8 })
}

/// The flags that the bus stage acknowledges.
pub open spec fn bus_stage_flags(istat: u8, k: int) -> bool {
    bit_is_set(istat, k) && (k == 0 || k == 4 || k == 5 || (!bit_is_set(istat, 3) && (k == 1 || k
        == 7)))
}

/// After the bus events of an interrupt, and its stall if no token is to be looked at
/// first: a reset leaves address zero, endpoint zero open with its handshake on, all
/// others closed, one descriptor with the controller, and a fresh state. A stall that was
/// sent is lifted from endpoint zero. In both cases endpoint zero waits for a SETUP packet.
/// Without either, nothing but the events changes.
pub proof fn law_bus_stage(
    state: &mut UsbFsState,
    ops: &mut Vec<UsbOp>,
    istat: u8,
    next: IrqNext,
    hw: UsbHardware,
)
    requires
        hw.wf(),
        call_ensures(interrupt::on_interrupt, (state, ops, IrqInput::Status { istat }), next),
    ensures
        ({
            let before = old(state)@;
            let after = final(state)@;
            let there = hw.run(added(old(ops)@, final(ops)@));
            let reset = bit_is_set(istat, 0);
            let stall = bit_is_set(istat, 7) && !bit_is_set(istat, 3);
            let table = if reset {
                with_setup(empty_table(), false)
            } else {
                hw.bdt
            };
            let base = if reset {
                afresh(after.events)
            } else {
                UsbModel { events: after.events, ..before }
            };
            &&& kept(old(ops)@, final(ops)@)
            &&& next == (if bit_is_set(istat, 3) {
                IrqNext::ReadToken { istat }
            } else {
                IrqNext::Done
            })
            &&& there.addr == (if reset {
                0
            } else {
                hw.addr
            })
            &&& there.endpt == (if reset {
                only_zero_open()
            } else if stall {
                hw.endpt.update(0, hw.endpt[0] & !0x02u8)
            } else {
                hw.endpt
            })
            &&& there.bdt == (if stall {
                with_setup(table, base.out_odd[0])
            } else {
                table
            })
            &&& after == (if stall {
                awaiting_setup(base)
            } else {
                base
            })
        }),
{
    let before = state@;
    state::law_state_is_sized(*state);
    effects::lemma_added(old(ops)@, before.irq_ops(IrqInput::Status { istat }));
    lemma_flags(istat);
    lemma_bus_stage_hardware(hw, before, istat);
    lemma_bus_stage_state(before, istat);
}

/// The state after the bus stage.
proof fn lemma_bus_stage_state(m: UsbModel, istat: u8)
    requires
        m.sized(),
    ensures
        ({
            let after = m.after_irq(IrqInput::Status { istat });
            let base = if bit_is_set(istat, 0) {
                afresh(after.events)
            } else {
                UsbModel { events: after.events, ..m }
            };
            &&& after == (if bit_is_set(istat, 7) && !bit_is_set(istat, 3) {
                awaiting_setup(base)
            } else {
                base
            })
            &&& m.after_bus(istat) == base
        }),
{
    lemma_flags(istat);
    let after = m.after_irq(IrqInput::Status { istat });
    let base = if bit_is_set(istat, 0) {
        afresh(after.events)
    } else {
        UsbModel { events: after.events, ..m }
    };
    assert(m.after_bus(istat) =~= base);
    if bit_is_set(istat, 7) && !bit_is_set(istat, 3) {
        assert(after =~= awaiting_setup(base));
    }
}

/// The registers and the table after the bus stage.
proof fn lemma_bus_stage_hardware(hw: UsbHardware, m: UsbModel, istat: u8)
    requires
        hw.wf(),
        m.sized(),
    ensures
        ({
            let there = hw.run(m.irq_ops(IrqInput::Status { istat }));
            let reset = bit_is_set(istat, 0);
            let stall = bit_is_set(istat, 7) && !bit_is_set(istat, 3);
            let table = if reset {
                with_setup(empty_table(), false)
            } else {
                hw.bdt
            };
            &&& there.addr == (if reset {
                0
            } else {
                hw.addr
            })
            &&& there.endpt == (if reset {
                only_zero_open()
            } else if stall {
                hw.endpt.update(0, hw.endpt[0] & !0x02u8)
            } else {
                hw.endpt
            })
            &&& there.bdt == (if stall {
                with_setup(table, reset || m.out_odd[0])
            } else {
                table
            })
        }),
{
    let bus = interrupt::bus_ops(istat);
    let mid = m.after_bus(istat);
    let tail = interrupt::tail_ops(mid, istat);
    lemma_flags(istat);
    lemma_bus_stage_state(m, istat);
    lemma_bus_hardware(hw, istat);
    lemma_tail_hardware(hw.run(bus), mid, istat);
    hardware::lemma_run_concat(hw, bus, tail);
    lemma_open_zero();
    assert(only_zero_open().update(0, 0x0d) =~= only_zero_open());
}

/// The controller as a whole after the bus stage: a reset starts it at the even buffers,
/// tokens of endpoint zero are processed after a reset and after a stall, and each flag
/// that was dealt with is acknowledged, and no other.
pub proof fn law_bus_stage_flags(
    state: &mut UsbFsState,
    ops: &mut Vec<UsbOp>,
    istat: u8,
    next: IrqNext,
    core: UsbCore,
    k: int,
)
    requires
        call_ensures(interrupt::on_interrupt, (state, ops, IrqInput::Status { istat }), next),
        0 <= k < 8,
    ensures
        ({
            let there = core.run(added(old(ops)@, final(ops)@));
            let reset = bit_is_set(istat, 0);
            &&& there == UsbCore {
                odd_reset: core.odd_reset && !reset,
                at_even: core.at_even || reset,
                token_busy: core.token_busy && !reset && !bus_stage_flags(istat, 7),
                istat: there.istat,
                errstat: if bus_stage_flags(istat, 1) {
                    0
                } else {
                    core.errstat
                },
                ..core
            }
            &&& bit_is_set(there.istat, k) == (bit_is_set(core.istat, k) && !bus_stage_flags(
                istat,
                k,
            ))
        }),
{
    let before = state@;
    effects::lemma_added(old(ops)@, before.irq_ops(IrqInput::Status { istat }));
    lemma_bus_stage_core(core, before, istat);
    lemma_bus_stage_istat(core.istat, istat, k);
}

/// Flags that are left of `flags` after the bus events.
spec fn left_by_bus(flags: u8, istat: u8) -> u8 {
    let c1 = if bit_is_set(istat, 0) {
        flags & !0x01u8
    } else {
        flags
    };
    let c2 = if bit_is_set(istat, 4) {
        c1 & !0x10u8
    } else {
        c1
    };
    if bit_is_set(istat, 5) {
        c2 & !0x20u8
    } else {
        c2
    }
}

/// Flags that are left of `flags` after the bus stage.
spec fn left_by_bus_stage(flags: u8, istat: u8) -> u8 {
    if bit_is_set(istat, 3) {
        left_by_bus(flags, istat)
    } else {
        left_by_tail(left_by_bus(flags, istat), istat)
    }
}

/// Flags that are left of `flags` after stall and error.
spec fn left_by_tail(flags: u8, istat: u8) -> u8 {
    let c1 = if bit_is_set(istat, 7) {
        flags & !0x80u8
    } else {
        flags
    };
    if bit_is_set(istat, 1) {
        c1 & !0x02u8
    } else {
        c1
    }
}

/// Which ones they are.
proof fn lemma_left_by_tail(flags: u8, istat: u8, k: int)
    requires
        0 <= k < 8,
    ensures
        bit_is_set(left_by_tail(flags, istat), k) == (bit_is_set(flags, k) && !((k == 7
            && bit_is_set(istat, 7)) || (k == 1 && bit_is_set(istat, 1)))),
{
    lemma_cleared(flags, k);
    lemma_cleared(flags & !0x80u8, k);
}

/// Which ones they are.
proof fn lemma_bus_stage_istat(flags: u8, istat: u8, k: int)
    requires
        0 <= k < 8,
    ensures
        bit_is_set(left_by_bus_stage(flags, istat), k) == (bit_is_set(flags, k)
            && !bus_stage_flags(istat, k)),
{
    let c1 = if bit_is_set(istat, 0) {
        flags & !0x01u8
    } else {
        flags
    };
    let c2 = if bit_is_set(istat, 4) {
        c1 & !0x10u8
    } else {
        c1
    };
    let c3 = if bit_is_set(istat, 5) {
        c2 & !0x20u8
    } else {
        c2
    };
    lemma_cleared(flags, k);
    lemma_cleared(c1, k);
    lemma_cleared(c2, k);
    lemma_left_by_tail(c3, istat, k);
}

/// The controller as a whole after the bus stage.
proof fn lemma_bus_stage_core(core: UsbCore, m: UsbModel, istat: u8)
    ensures
        ({
            let there = core.run(m.irq_ops(IrqInput::Status { istat }));
            let reset = bit_is_set(istat, 0);
            there == UsbCore {
                odd_reset: core.odd_reset && !reset,
                at_even: core.at_even || reset,
                token_busy: core.token_busy && !reset && !bus_stage_flags(istat, 7),
                istat: left_by_bus_stage(core.istat, istat),
                errstat: if bus_stage_flags(istat, 1) {
                    0
                } else {
                    core.errstat
                },
                ..core
            }
        }),
{
    let bus = interrupt::bus_ops(istat);
    let mid = m.after_bus(istat);
    let tail = interrupt::tail_ops(mid, istat);
    lemma_flags(istat);
    lemma_bus_core(core, istat);
    if !bit_is_set(istat, 3) {
        lemma_tail_core(core.run(bus), mid, istat);
        hardware::lemma_core_concat(core, bus, tail);
    }
}

/// What taking one flag out does to each flag.
proof fn lemma_cleared(value: u8, k: int)
    requires
        0 <= k < 8,
    ensures
        bit_is_set(value & !0x01u8, k) == (bit_is_set(value, k) && k != 0),
        bit_is_set(value & !0x02u8, k) == (bit_is_set(value, k) && k != 1),
        bit_is_set(value & !0x08u8, k) == (bit_is_set(value, k) && k != 3),
        bit_is_set(value & !0x10u8, k) == (bit_is_set(value, k) && k != 4),
        bit_is_set(value & !0x20u8, k) == (bit_is_set(value, k) && k != 5),
        bit_is_set(value & !0x80u8, k) == (bit_is_set(value, k) && k != 7),
{
    mask::lemma_single_bits();
    mask::lemma_bit_of(value, 0x01, k);
    mask::lemma_bit_of(value, 0x02, k);
    mask::lemma_bit_of(value, 0x08, k);
    mask::lemma_bit_of(value, 0x10, k);
    mask::lemma_bit_of(value, 0x20, k);
    mask::lemma_bit_of(value, 0x80, k);
    mask::lemma_bit_of_single(0, k);
    mask::lemma_bit_of_single(1, k);
    mask::lemma_bit_of_single(3, k);
    mask::lemma_bit_of_single(4, k);
    mask::lemma_bit_of_single(5, k);
    mask::lemma_bit_of_single(7, k);
}

/// Packet identifier in a control word.
pub open spec fn pid_of(ctrl: u32) -> int {
    ctrl as int / 4 % 16
}

/// Byte count in a control word.
pub open spec fn count_of(ctrl: u32) -> int {
    ctrl as int / 0x1_0000
}

/// The fields of a control word by their places.
pub proof fn lemma_word_fields(ctrl: u32)
    ensures
        bdt::token_pid(ctrl) == pid_of(ctrl),
        bdt::byte_count(ctrl) == count_of(ctrl),
        0 <= count_of(ctrl) <= 0xffff,
        bdt::token_pid(ctrl) as u8 == pid_of(ctrl),
{
    assert((ctrl >> 2) & 0x0f == ctrl / 4 % 16 && (ctrl >> 16) as u16 == ctrl / 0x1_0000) by (bit_vector);
    let pid: u32 = (ctrl >> 2) & 0x0f;
    assert(pid < 16);
}

/// The token is of an endpoint that the driver serves, and a SETUP packet came in.
pub open spec fn is_setup(stat: TokenStat, ctrl: u32) -> bool {
    stat.endp < 8 && !stat.tx && pid_of(ctrl) == 0x0d
}

/// The token is of an endpoint that the driver serves, and a packet came in.
pub open spec fn is_out(stat: TokenStat, ctrl: u32) -> bool {
    stat.endp < 8 && !stat.tx && pid_of(ctrl) == 0x01
}

/// An empty packet came in at endpoint zero.
pub open spec fn is_status(stat: TokenStat, ctrl: u32) -> bool {
    is_out(stat, ctrl) && stat.endp == 0 && count_of(ctrl) == 0
}

/// The host fetched a packet from endpoint zero.
pub open spec fn is_fetched(stat: TokenStat, ctrl: u32) -> bool {
    stat.endp == 0 && stat.tx && pid_of(ctrl) == 0x09
}

/// What is noted of a token.
pub open spec fn token_noted(m: UsbModel, stat: TokenStat, ctrl: u32) -> UsbModel {
    let ep = stat.endp as int;
    let count = count_of(ctrl) as u16;
    let noted = if is_setup(stat, ctrl) {
        UsbModel {
            out_ready: m.out_ready.update(0, count),
            out_token: m.out_token.update(0, 0x0d),
            out_done_odd: m.out_done_odd.update(0, stat.odd),
            in_data1: m.in_data1.update(0, true),
            out_data1: m.out_data1.update(0, true),
            ..m
        }
    } else if is_out(stat, ctrl) {
        UsbModel {
            out_ready: m.out_ready.update(ep, count),
            out_token: m.out_token.update(ep, 0x01),
            out_done_odd: m.out_done_odd.update(ep, stat.odd),
            ..m
        }
    } else if is_fetched(stat, ctrl) && bit_is_set(m.pending_addr, 7) {
        UsbModel { pending_addr: 0, ..m }
    } else {
        m
    };
    if is_status(stat, ctrl) {
        awaiting_setup(noted)
    } else {
        noted
    }
}

/// The state after the token stage: a packet that came in is noted with its length, its
/// kind and its buffer; a SETUP packet raises both toggles of endpoint zero, whatever
/// endpoint the token names; an empty packet at endpoint zero, and a stall that was sent,
/// leave it waiting for a SETUP packet; a new address is no longer pending once the host
/// has fetched a packet. Nothing else changes, and nothing at all for an endpoint that the
/// driver does not serve.
pub proof fn law_token_stage(
    state: &mut UsbFsState,
    ops: &mut Vec<UsbOp>,
    istat: u8,
    stat: TokenStat,
    ctrl: u32,
    next: IrqNext,
)
    requires
        call_ensures(
            interrupt::on_interrupt,
            (state, ops, IrqInput::Descriptor { istat, stat, ctrl }),
            next,
        ),
    ensures
        next == IrqNext::Done,
        kept(old(ops)@, final(ops)@),
        final(state)@ == (if bit_is_set(istat, 7) {
            awaiting_setup(token_noted(old(state)@, stat, ctrl))
        } else {
            token_noted(old(state)@, stat, ctrl)
        }),
{
    state::law_state_is_sized(*state);
    effects::lemma_added(old(ops)@, state@.irq_ops(IrqInput::Descriptor { istat, stat, ctrl }));
    lemma_token_state(state@, stat, ctrl);
    lemma_flags(istat);
    if bit_is_set(istat, 7) {
        assert(final(state)@ =~= awaiting_setup(token_noted(state@, stat, ctrl)));
    }
}

/// What is noted of a token.
proof fn lemma_token_state(m: UsbModel, stat: TokenStat, ctrl: u32)
    requires
        m.sized(),
    ensures
        stat.endp < 8 ==> m.after_token(stat, ctrl) == token_noted(m, stat, ctrl),
        stat.endp >= 8 ==> m == token_noted(m, stat, ctrl),
{
    mask::lemma_single_bits();
    lemma_word_fields(ctrl);
    if stat.endp < 8 {
        assert(m.after_token(stat, ctrl) =~= token_noted(m, stat, ctrl));
    }
}

/// The controller after the token stage: a SETUP packet takes both packets for the host
/// back, an empty packet at endpoint zero hands a buffer for a SETUP packet over, and a
/// pending address is taken over when the host has fetched a packet from endpoint zero. A
/// stall that was sent is lifted as well. Nothing else in the registers and the table
/// changes.
pub proof fn law_token_stage_hardware(
    state: &mut UsbFsState,
    ops: &mut Vec<UsbOp>,
    istat: u8,
    stat: TokenStat,
    ctrl: u32,
    next: IrqNext,
    hw: UsbHardware,
)
    requires
        hw.wf(),
        call_ensures(
            interrupt::on_interrupt,
            (state, ops, IrqInput::Descriptor { istat, stat, ctrl }),
            next,
        ),
    ensures
        ({
            let m = old(state)@;
            let there = hw.run(added(old(ops)@, final(ops)@));
            let stall = bit_is_set(istat, 7);
            let table = if is_setup(stat, ctrl) {
                with_pair(hw.bdt, 0, true, 0)
            } else if is_status(stat, ctrl) {
                with_setup(hw.bdt, m.out_odd[0])
            } else {
                hw.bdt
            };
            &&& there.addr == (if is_fetched(stat, ctrl) && bit_is_set(m.pending_addr, 7) {
                m.pending_addr as int % 128
            } else {
                hw.addr as int
            })
            &&& there.endpt == (if stall {
                hw.endpt.update(0, hw.endpt[0] & !0x02u8)
            } else {
                hw.endpt
            })
            &&& there.bdt == (if stall {
                with_setup(table, m.out_odd[0] != is_status(stat, ctrl))
            } else {
                table
            })
        }),
{
    let m = state@;
    state::law_state_is_sized(*state);
    let queue = m.irq_ops(IrqInput::Descriptor { istat, stat, ctrl });
    effects::lemma_added(old(ops)@, queue);
    lemma_token_state(m, stat, ctrl);
    let token = if stat.endp < EP_COUNT {
        m.token_ops(stat, ctrl)
    } else {
        seq![]
    };
    let mid = if stat.endp < EP_COUNT {
        m.after_token(stat, ctrl)
    } else {
        m
    };
    let done = seq![interrupt::ack(ISTAT_TOKDNE)];
    let tail = interrupt::tail_ops(mid, istat);
    assert(queue =~= token + done + tail);
    if stat.endp < EP_COUNT {
        lemma_token_hardware(hw, m, stat, ctrl);
    }
    let h1 = hw.run(token);
    hardware::lemma_run_concat(hw, token, done);
    hardware::lemma_run_one(h1, done[0]);
    hardware::lemma_run_concat(hw, token + done, tail);
    lemma_tail_hardware(h1, mid, istat);
}

/// The registers and the table after a token.
proof fn lemma_token_hardware(hw: UsbHardware, m: UsbModel, stat: TokenStat, ctrl: u32)
    requires
        hw.wf(),
        m.sized(),
        stat.endp < EP_COUNT,
    ensures
        ({
            let there = hw.run(m.token_ops(stat, ctrl));
            &&& there.wf()
            &&& there.endpt == hw.endpt
            &&& there.addr == (if is_fetched(stat, ctrl) && bit_is_set(m.pending_addr, 7) {
                m.pending_addr as int % 128
            } else {
                hw.addr as int
            })
            &&& there.bdt == (if is_setup(stat, ctrl) {
                with_pair(hw.bdt, 0, true, 0)
            } else if is_status(stat, ctrl) {
                with_setup(hw.bdt, m.out_odd[0])
            } else {
                hw.bdt
            })
        }),
{
    mask::lemma_single_bits();
    lemma_word_fields(ctrl);
    let wake = interrupt::token_wake(stat);
    let release = bdt::release_pair_ops(0, true);
    let core = arbitrary::<UsbCore>();
    if is_setup(stat, ctrl) {
        effects::lemma_release_effect(hw, core, 0, true);
        hardware::lemma_run_concat(hw, release, pipe::resume_ops(0));
        effects::lemma_resume_effect(hw.run(release), core, 0);
        hardware::lemma_run_push(hw, release + pipe::resume_ops(0), wake);
    } else if is_status(stat, ctrl) {
        effects::lemma_setup_effect(hw, core, m);
        hardware::lemma_run_push(hw, m.setup_ops(), wake);
    } else if is_fetched(stat, ctrl) && bit_is_set(m.pending_addr, 7) {
        let pending: u8 = m.pending_addr;
        assert(pending & 0x7f == pending % 128) by (bit_vector);
        let write = UsbOp::Write { reg: UsbReg::Addr, value: pending & 0x7f };
        hardware::lemma_run_one(hw, write);
        hardware::lemma_run_push(hw, seq![write], wake);
    } else {
        hardware::lemma_run_push(hw, seq![], wake);
        assert(hw.run(seq![]) == hw);
        assert(m.token_ops(stat, ctrl) =~= Seq::<UsbOp>::empty().push(wake));
    }
}

/// The controller as a whole after the token stage: tokens of endpoint zero are processed
/// again after a SETUP packet, an empty packet at endpoint zero and a stall; the token is
/// acknowledged, and stall and error if they were raised, and no other flag.
pub proof fn law_token_stage_flags(
    state: &mut UsbFsState,
    ops: &mut Vec<UsbOp>,
    istat: u8,
    stat: TokenStat,
    ctrl: u32,
    next: IrqNext,
    core: UsbCore,
    k: int,
)
    requires
        call_ensures(
            interrupt::on_interrupt,
            (state, ops, IrqInput::Descriptor { istat, stat, ctrl }),
            next,
        ),
        0 <= k < 8,
    ensures
        ({
            let there = core.run(added(old(ops)@, final(ops)@));
            &&& there == UsbCore {
                token_busy: core.token_busy && !is_setup(stat, ctrl) && !is_status(stat, ctrl)
                    && !bit_is_set(istat, 7),
                istat: there.istat,
                errstat: if bit_is_set(istat, 1) {
                    0
                } else {
                    core.errstat
                },
                ..core
            }
            &&& bit_is_set(there.istat, k) == (bit_is_set(core.istat, k) && k != 3 && !((k == 7
                || k == 1) && bit_is_set(istat, k)))
        }),
{
    let m = state@;
    let queue = m.irq_ops(IrqInput::Descriptor { istat, stat, ctrl });
    effects::lemma_added(old(ops)@, queue);
    lemma_token_stage_core(core, m, istat, stat, ctrl);
    lemma_cleared(core.istat, k);
    lemma_left_by_tail(core.istat & !0x08u8, istat, k);
}

/// The controller as a whole after the token stage.
proof fn lemma_token_stage_core(
    core: UsbCore,
    m: UsbModel,
    istat: u8,
    stat: TokenStat,
    ctrl: u32,
)
    ensures
        core.run(m.irq_ops(IrqInput::Descriptor { istat, stat, ctrl })) == (UsbCore {
            token_busy: core.token_busy && !is_setup(stat, ctrl) && !is_status(stat, ctrl)
                && !bit_is_set(istat, 7),
            istat: left_by_tail(core.istat & !0x08u8, istat),
            errstat: if bit_is_set(istat, 1) {
                0
            } else {
                core.errstat
            },
            ..core
        }),
{
    let queue = m.irq_ops(IrqInput::Descriptor { istat, stat, ctrl });
    let token = if stat.endp < EP_COUNT {
        m.token_ops(stat, ctrl)
    } else {
        seq![]
    };
    let mid = if stat.endp < EP_COUNT {
        m.after_token(stat, ctrl)
    } else {
        m
    };
    let done = seq![interrupt::ack(ISTAT_TOKDNE)];
    let tail = interrupt::tail_ops(mid, istat);
    assert(queue =~= token + done + tail);
    if stat.endp < EP_COUNT {
        lemma_token_core(core, m, stat, ctrl);
    } else {
        hardware::lemma_core_beside(core, token);
    }
    let c1 = core.run(token);
    hardware::lemma_core_concat(core, token, done);
    hardware::lemma_core_one(c1, done[0]);
    hardware::lemma_core_concat(core, token + done, tail);
    let c2 = c1.step(done[0]);
    assert(c2 == UsbCore { istat: c1.istat & !0x08u8, ..c1 }) by {
        reveal(UsbCore::step);
    }
    lemma_tail_core(c2, mid, istat);
}

/// Waking somebody leaves the controller alone.
proof fn lemma_woken_core(core: UsbCore, queue: Seq<UsbOp>, wake: UsbOp)
    requires
        wake is WakeIn || wake is WakeOut,
    ensures
        core.run(queue.push(wake)) == core.run(queue),
{
    hardware::lemma_core_push(core, queue, wake);
    hardware::lemma_core_one(core.run(queue), wake);
    hardware::lemma_core_beside(core.run(queue), seq![wake]);
}

/// Any other token leaves the controller as a whole alone.
proof fn lemma_other_token_core(core: UsbCore, m: UsbModel, stat: TokenStat, ctrl: u32)
    requires
        stat.endp < EP_COUNT,
        !is_setup(stat, ctrl),
        !is_status(stat, ctrl),
    ensures
        core.run(m.token_ops(stat, ctrl)) == core,
{
    lemma_word_fields(ctrl);
    let wake = interrupt::token_wake(stat);
    let write = UsbOp::Write { reg: UsbReg::Addr, value: m.pending_addr & 0x7f };
    let queue = m.token_ops(stat, ctrl);
    assert(queue =~= seq![wake] || queue =~= seq![write, wake]);
    hardware::lemma_core_beside(core, seq![wake]);
    hardware::lemma_core_beside(core, seq![write, wake]);
}

/// The controller as a whole after a token.
proof fn lemma_token_core(core: UsbCore, m: UsbModel, stat: TokenStat, ctrl: u32)
    requires
        stat.endp < EP_COUNT,
    ensures
        core.run(m.token_ops(stat, ctrl)) == (UsbCore {
            token_busy: core.token_busy && !is_setup(stat, ctrl) && !is_status(stat, ctrl),
            ..core
        }),
{
    lemma_word_fields(ctrl);
    let wake = interrupt::token_wake(stat);
    if is_setup(stat, ctrl) {
        let release = bdt::release_pair_ops(0, true);
        let resume = pipe::resume_ops(0);
        hardware::lemma_core_beside(core, release);
        hardware::lemma_core_concat(core, release, resume);
        effects::lemma_resume_core(core, 0);
        lemma_woken_core(core, release + resume, wake);
    } else if is_status(stat, ctrl) {
        effects::lemma_setup_core(core, m);
        lemma_woken_core(core, m.setup_ops(), wake);
    } else {
        lemma_other_token_core(core, m, stat, ctrl);
    }
}

/// A token wakes who waits for its endpoint and direction, and nobody else.
pub proof fn law_token_wakes_its_waiter(
    state: &mut UsbFsState,
    ops: &mut Vec<UsbOp>,
    istat: u8,
    stat: TokenStat,
    ctrl: u32,
    next: IrqNext,
    ep: usize,
)
    requires
        call_ensures(
            interrupt::on_interrupt,
            (state, ops, IrqInput::Descriptor { istat, stat, ctrl }),
            next,
        ),
    ensures
        added(old(ops)@, final(ops)@).contains(UsbOp::WakeOut(ep)) <==> ep == stat.endp && ep < 8
            && !stat.tx,
        added(old(ops)@, final(ops)@).contains(UsbOp::WakeIn(ep)) <==> ep == stat.endp && ep < 8
            && stat.tx,
{
    let m = state@;
    let queue = m.irq_ops(IrqInput::Descriptor { istat, stat, ctrl });
    effects::lemma_added(old(ops)@, queue);
    if stat.endp < EP_COUNT {
        let token = m.token_ops(stat, ctrl);
        let wake = interrupt::token_wake(stat);
        assert(queue[token.len() - 1] == wake);
        assert forall|i: int| 0 <= i < queue.len() && (queue[i] is WakeOut || queue[i] is WakeIn) implies queue[i]
            == wake by {}
    } else {
        assert forall|i: int| 0 <= i < queue.len() implies !(queue[i] is WakeOut || queue[i] is WakeIn) by {}
    }
}

/// The handler starts with the clock recovery, whose interrupt it clears in both places if
/// it is up, and reads ISTAT; before it looks at a descriptor it does nothing, and it looks
/// at the one that the token names. Neither stage touches the state.
pub proof fn law_reads_in_between(
    state: &mut UsbFsState,
    ops: &mut Vec<UsbOp>,
    input: IrqInput,
    next: IrqNext,
    hw: UsbHardware,
    core: UsbCore,
)
    requires
        call_ensures(interrupt::on_interrupt, (state, ops, input), next),
        input is Recovery || input is Token,
        interrupt::irq_input_ok(input),
    ensures
        kept(old(ops)@, final(ops)@),
        final(state)@ == old(state)@,
        hw.run(added(old(ops)@, final(ops)@)) == hw,
        match input {
            IrqInput::Recovery { pending } => {
                &&& next == IrqNext::ReadStatus
                &&& core.run(added(old(ops)@, final(ops)@)) == UsbCore {
                    trc_int: core.trc_int && !pending,
                    recover_int: core.recover_int && !pending,
                    ..core
                }
            },
            IrqInput::Token { istat, stat } => {
                &&& next == IrqNext::ReadDescriptor {
                    istat,
                    stat,
                    index: (4 * stat.endp + 2 * effects::member(stat.tx) + effects::member(
                        stat.odd,
                    )) as usize,
                }
                &&& final(ops)@ == old(ops)@
            },
            _ => true,
        },
{
    hardware::lemma_core_beside(core, seq![]);
    let queue = state@.irq_ops(input);
    effects::lemma_added(old(ops)@, queue);
    hardware::lemma_run_elsewhere(hw, queue);
    match input {
        IrqInput::Recovery { pending } => {
            if pending {
                reveal(UsbCore::step);
                mask::lemma_single_bits();
                mask::lemma_bit_of_single(4, 4);
                mask::lemma_bit_of_single(4, 7);
                let all = pipe::recovery_ops();
                hardware::lemma_core_two(core, all[0], all[1]);
                assert(all =~= seq![all[0], all[1]]);
            }
        },
        IrqInput::Token { istat, stat } => {
            assert(old(ops)@ + Seq::<UsbOp>::empty() =~= old(ops)@);
        },
        _ => {},
    }
}

/// The handler that is bound to the interrupt does what the interrupt handler does.
pub proof fn law_bound_handler(
    state: &mut UsbFsState,
    ops: &mut Vec<UsbOp>,
    next: IrqNext,
    bound: &mut UsbFsState,
    bound_ops: &mut Vec<UsbOp>,
    bound_next: IrqNext,
    input: IrqInput,
)
    requires
        call_ensures(interrupt::on_interrupt, (state, ops, input), next),
        call_ensures(InterruptHandler::on_interrupt, (bound, bound_ops, input), bound_next),
        old(state)@ == old(bound)@,
        old(ops)@ == old(bound_ops)@,
    ensures
        bound_next == next,
        final(bound)@ == final(state)@,
        final(bound_ops)@ == final(ops)@,
{
}

} // verus!
