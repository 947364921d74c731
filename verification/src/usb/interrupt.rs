//! The USB0 interrupt handler.
//!
//! The handler reads the controller four times, and what it does between two
//! reads can change what the second one gives. So it runs in stages: each stage
//! takes one value that was read, queues operations, and says what to read next.
use super::bdt;
use super::bdt::{bd_index, bd_release_pair, clear_bdt};
use super::ops::{
    endpoint_write, UsbOp, UsbReg, ENDPT_EPHSHK, ENDPT_EPRXEN, ENDPT_EPSTALL, ENDPT_EPTXEN,
};
use super::pipe;
use super::pipe::{
    clear_clock_recovery_interrupt, prime_ep0_out_setup, resume_ep0_token_processing,
};
use super::state::{
    reset_state, set_data1, set_odd, UsbFsState, UsbModel, EVENT_RESET, EVENT_RESUME, EVENT_SUSPEND,
};
use super::types::{EP_COUNT, HW_EP_COUNT};
use vstd::prelude::*;

verus! {

/// Packet identifier of an OUT token.
pub const TOKEN_OUT: u32 = 0x01;

/// Packet identifier of an IN token.
pub const TOKEN_IN: u32 = 0x09;

/// Packet identifier of a SETUP token.
pub const TOKEN_SETUP: u32 = 0x0d;

/// Bus reset.
pub const ISTAT_USBRST: u8 = 0x01;

/// Error, detailed in ERRSTAT.
pub const ISTAT_ERROR: u8 = 0x02;

/// A token is done.
pub const ISTAT_TOKDNE: u8 = 0x08;

/// The bus went idle.
pub const ISTAT_SLEEP: u8 = 0x10;

/// The bus resumed.
pub const ISTAT_RESUME: u8 = 0x20;

/// A STALL handshake was sent.
pub const ISTAT_STALL: u8 = 0x80;

/// The STAT register: which descriptor the token that is done belongs to.
#[derive(Clone, Copy, PartialEq, Eq, Structural, Debug)]
pub struct TokenStat {
    /// Endpoint.
    pub endp: u8,
    /// Whether a packet was transmitted, that is, an IN token.
    pub tx: bool,
    /// Which buffer of the pair.
    pub odd: bool,
}

/// What was read for a stage of the handler.
#[derive(Clone, Copy, PartialEq, Eq, Structural, Debug)]
pub enum IrqInput {
    /// The handler starts: the clock recovery flag of USBTRC0.
    Recovery { pending: bool },
    /// ISTAT.
    Status { istat: u8 },
    /// STAT.
    Token { istat: u8, stat: TokenStat },
    /// The control word of the descriptor that the token belongs to.
    Descriptor { istat: u8, stat: TokenStat, ctrl: u32 },
}

/// What is to be read once the queued operations are performed.
#[derive(Clone, Copy, PartialEq, Eq, Structural, Debug)]
pub enum IrqNext {
    /// ISTAT.
    ReadStatus,
    /// STAT.
    ReadToken { istat: u8 },
    /// The control word of this descriptor.
    ReadDescriptor { istat: u8, stat: TokenStat, index: usize },
    /// Nothing: the handler is through.
    Done,
}

/// The USB0 interrupt handler.
pub struct InterruptHandler {
    _priv: (),
}

/// Whether `flag` is up in `istat`.
pub open spec fn raised(istat: u8, flag: u8) -> bool {
    istat & flag != 0
}

/// Operation that acknowledges an interrupt flag.
pub open spec fn ack(flag: u8) -> UsbOp {
    UsbOp::Write { reg: UsbReg::Istat, value: flag }
}

/// ENDPT value of endpoint zero in operation.
pub open spec fn ep0_bits() -> u8 {
    ENDPT_EPHSHK | ENDPT_EPRXEN | ENDPT_EPTXEN
}

/// Operations that disable endpoints one up to `count`, not included.
pub open spec fn disable_ops(count: int) -> Seq<UsbOp> {
    Seq::new(
        (count - 1) as nat,
        |i: int| UsbOp::Write { reg: UsbReg::Endpt((i + 1) as usize), value: 0 },
    )
}

/// Operations of a bus reset.
pub open spec fn reset_ops() -> Seq<UsbOp> {
    disable_ops(HW_EP_COUNT as int) + seq![UsbOp::Write { reg: UsbReg::Addr, value: 0 }]
        + bdt::clear_ops(bdt::BDT_ENTRY_COUNT as int) + seq![
        UsbOp::SetOddReset(true),
        UsbOp::SetOddReset(false),
    ] + UsbModel::fresh().setup_ops() + seq![
        UsbOp::Write { reg: UsbReg::Endpt(0), value: ep0_bits() },
        UsbOp::WakeBus,
        ack(ISTAT_USBRST),
    ]
}

/// Operations for a flag that only reports an event.
pub open spec fn event_ops(flag: u8) -> Seq<UsbOp> {
    seq![UsbOp::WakeBus, ack(flag)]
}

/// Operations of the bus events in `istat`.
pub open spec fn bus_ops(istat: u8) -> Seq<UsbOp> {
    (if raised(istat, ISTAT_USBRST) {
        reset_ops()
    } else {
        seq![]
    }) + (if raised(istat, ISTAT_SLEEP) {
        event_ops(ISTAT_SLEEP)
    } else {
        seq![]
    }) + (if raised(istat, ISTAT_RESUME) {
        event_ops(ISTAT_RESUME)
    } else {
        seq![]
    })
}

/// Operations of the flags that come after the token.
pub open spec fn tail_ops(m: UsbModel, istat: u8) -> Seq<UsbOp> {
    (if raised(istat, ISTAT_STALL) {
        seq![UsbOp::ModifyEndpt { ep: 0, clear: ENDPT_EPSTALL, set: 0 }] + m.setup_ops()
            + seq![ack(ISTAT_STALL)]
    } else {
        seq![]
    }) + (if raised(istat, ISTAT_ERROR) {
        seq![UsbOp::Write { reg: UsbReg::Errstat, value: 0xff }, ack(ISTAT_ERROR)]
    } else {
        seq![]
    })
}

/// What a token that is done was.
pub enum TokenKind {
    /// A SETUP packet came in.
    Setup,
    /// An empty packet came in at endpoint zero: the status stage of a control read.
    StatusOut,
    /// A packet came in.
    Data,
    /// The host fetched a packet from endpoint zero.
    FetchedFromZero,
    /// Anything else.
    Other,
}

/// What a token that is done was.
pub open spec fn token_kind(stat: TokenStat, ctrl: u32) -> TokenKind {
    let pid = bdt::token_pid(ctrl);
    if !stat.tx {
        if pid == TOKEN_SETUP {
            TokenKind::Setup
        } else if pid == TOKEN_OUT {
            if stat.endp == 0 && bdt::byte_count(ctrl) == 0 {
                TokenKind::StatusOut
            } else {
                TokenKind::Data
            }
        } else {
            TokenKind::Other
        }
    } else if stat.endp == 0 && pid == TOKEN_IN {
        TokenKind::FetchedFromZero
    } else {
        TokenKind::Other
    }
}

/// Operation that wakes who waits for the endpoint of a token.
pub open spec fn token_wake(stat: TokenStat) -> UsbOp {
    if stat.tx {
        UsbOp::WakeIn(stat.endp as usize)
    } else {
        UsbOp::WakeOut(stat.endp as usize)
    }
}

impl UsbModel {
    /// The state after the bus events in `istat`.
    pub open spec fn after_bus(self, istat: u8) -> Self {
        let reset = if raised(istat, ISTAT_USBRST) {
            UsbModel::fresh().setup_primed().with_event(EVENT_RESET)
        } else {
            self
        };
        let slept = if raised(istat, ISTAT_SLEEP) {
            reset.with_event(EVENT_SUSPEND)
        } else {
            reset
        };
        if raised(istat, ISTAT_RESUME) {
            slept.with_event(EVENT_RESUME)
        } else {
            slept
        }
    }

    /// The state with a packet noted at OUT endpoint `ep`, its length left open.
    pub open spec fn with_packet(self, ep: int, pid: u32, odd: bool) -> Self {
        UsbModel {
            out_token: self.out_token.update(ep, pid as u8),
            out_done_odd: self.out_done_odd.update(ep, odd),
            ..self
        }
    }

    /// The state after a token of endpoint zero to seven.
    pub open spec fn after_token(self, stat: TokenStat, ctrl: u32) -> Self {
        let pid = bdt::token_pid(ctrl);
        let count = bdt::byte_count(ctrl);
        let ep = stat.endp as int;
        match token_kind(stat, ctrl) {
            TokenKind::Setup => UsbModel {
                out_ready: self.out_ready.update(0, count),
                ..self.with_in_data1(0, true).with_out_data1(0, true).with_packet(0, pid, stat.odd)
            },
            TokenKind::StatusOut => self.with_packet(ep, pid, stat.odd).setup_primed(),
            TokenKind::Data => UsbModel {
                out_ready: self.out_ready.update(ep, count),
                ..self.with_packet(ep, pid, stat.odd)
            },
            TokenKind::FetchedFromZero => if self.pending_addr & 0x80 != 0 {
                UsbModel { pending_addr: 0, ..self }
            } else {
                self
            },
            TokenKind::Other => self,
        }
    }

    /// Operations for a token of endpoint zero to seven, without its acknowledgement.
    pub open spec fn token_ops(self, stat: TokenStat, ctrl: u32) -> Seq<UsbOp> {
        (match token_kind(stat, ctrl) {
            TokenKind::Setup => bdt::release_pair_ops(0, true) + pipe::resume_ops(0),
            TokenKind::StatusOut => self.setup_ops(),
            TokenKind::FetchedFromZero => if self.pending_addr & 0x80 != 0 {
                seq![UsbOp::Write { reg: UsbReg::Addr, value: self.pending_addr & 0x7f }]
            } else {
                seq![]
            },
            _ => seq![],
        }).push(token_wake(stat))
    }

    /// The state after the flags that come after the token.
    pub open spec fn after_tail(self, istat: u8) -> Self {
        if raised(istat, ISTAT_STALL) {
            self.setup_primed()
        } else {
            self
        }
    }

    /// The state after one stage of the handler.
    pub open spec fn after_irq(self, input: IrqInput) -> Self {
        match input {
            IrqInput::Recovery { pending } => self,
            IrqInput::Status { istat } => if raised(istat, ISTAT_TOKDNE) {
                self.after_bus(istat)
            } else {
                self.after_bus(istat).after_tail(istat)
            },
            IrqInput::Token { istat, stat } => self,
            IrqInput::Descriptor { istat, stat, ctrl } => if stat.endp < EP_COUNT {
                self.after_token(stat, ctrl).after_tail(istat)
            } else {
                self.after_tail(istat)
            },
        }
    }

    /// Operations of one stage of the handler.
    pub open spec fn irq_ops(self, input: IrqInput) -> Seq<UsbOp> {
        match input {
            IrqInput::Recovery { pending } => if pending {
                pipe::recovery_ops()
            } else {
                seq![]
            },
            IrqInput::Status { istat } => if raised(istat, ISTAT_TOKDNE) {
                bus_ops(istat)
            } else {
                bus_ops(istat) + tail_ops(self.after_bus(istat), istat)
            },
            IrqInput::Token { istat, stat } => seq![],
            IrqInput::Descriptor { istat, stat, ctrl } => if stat.endp < EP_COUNT {
                self.token_ops(stat, ctrl) + seq![ack(ISTAT_TOKDNE)] + tail_ops(
                    self.after_token(stat, ctrl),
                    istat,
                )
            } else {
                seq![ack(ISTAT_TOKDNE)] + tail_ops(self, istat)
            },
        }
    }
}

/// What comes after one stage of the handler.
pub open spec fn irq_next(input: IrqInput) -> IrqNext {
    match input {
        IrqInput::Recovery { pending } => IrqNext::ReadStatus,
        IrqInput::Status { istat } => if raised(istat, ISTAT_TOKDNE) {
            IrqNext::ReadToken { istat }
        } else {
            IrqNext::Done
        },
        IrqInput::Token { istat, stat } => IrqNext::ReadDescriptor {
            istat,
            stat,
            index: bdt::descriptor(stat.endp as int, stat.tx, stat.odd) as usize,
        },
        IrqInput::Descriptor { istat, stat, ctrl } => IrqNext::Done,
    }
}

/// Whether a stage's input can come from the controller, which has sixteen endpoints.
pub open spec fn irq_input_ok(input: IrqInput) -> bool {
    match input {
        IrqInput::Token { istat, stat } => stat.endp < HW_EP_COUNT,
        IrqInput::Descriptor { istat, stat, ctrl } => stat.endp < HW_EP_COUNT,
        _ => true,
    }
}

/// Whether the byte count that a stage was shown, if any, is one that fits a buffer.
pub open spec fn irq_count_ok(input: IrqInput) -> bool {
    match input {
        IrqInput::Descriptor { istat, stat, ctrl } => bdt::byte_count(ctrl) <= 64,
        _ => true,
    }
}

/// Bus reset: every endpoint but the first is disabled, the address is dropped,
/// and endpoint zero waits for a SETUP packet.
fn on_reset(state: &mut UsbFsState, ops: &mut Vec<UsbOp>)
    ensures
        final(state)@ == UsbModel::fresh().setup_primed().with_event(EVENT_RESET),
        final(ops)@ == old(ops)@ + reset_ops(),
{
    let mut ep: usize = 1;
    while ep < HW_EP_COUNT
        invariant
            1 <= ep <= HW_EP_COUNT,
            ops@ == old(ops)@ + disable_ops(ep as int),
        decreases HW_EP_COUNT - ep,
    {
        endpoint_write(ops, ep, 0);
        ep += 1;
        assert(ops@ =~= old(ops)@ + disable_ops(ep as int));
    }
    ops.push(UsbOp::Write { reg: UsbReg::Addr, value: 0 });
    reset_state(state);
    clear_bdt(ops);
    ops.push(UsbOp::SetOddReset(true));
    ops.push(UsbOp::SetOddReset(false));
    prime_ep0_out_setup(state, ops);
    endpoint_write(ops, 0, ENDPT_EPHSHK | ENDPT_EPRXEN | ENDPT_EPTXEN);
    state.events = state.events | EVENT_RESET;
    ops.push(UsbOp::WakeBus);
    ops.push(UsbOp::Write { reg: UsbReg::Istat, value: ISTAT_USBRST });
    assert(ops@ =~= old(ops)@ + reset_ops());
}

/// The bus events: reset, sleep and resume.
fn on_bus(state: &mut UsbFsState, ops: &mut Vec<UsbOp>, istat: u8)
    ensures
        final(state)@ == old(state)@.after_bus(istat),
        final(ops)@ == old(ops)@ + bus_ops(istat),
{
    if istat & ISTAT_USBRST != 0 {
        on_reset(state, ops);
    }
    if istat & ISTAT_SLEEP != 0 {
        state.events = state.events | EVENT_SUSPEND;
        ops.push(UsbOp::WakeBus);
        ops.push(UsbOp::Write { reg: UsbReg::Istat, value: ISTAT_SLEEP });
    }
    if istat & ISTAT_RESUME != 0 {
        state.events = state.events | EVENT_RESUME;
        ops.push(UsbOp::WakeBus);
        ops.push(UsbOp::Write { reg: UsbReg::Istat, value: ISTAT_RESUME });
    }
    assert(ops@ =~= old(ops)@ + bus_ops(istat));
}

/// A token of endpoint zero to seven is done.
fn on_token(state: &mut UsbFsState, ops: &mut Vec<UsbOp>, stat: TokenStat, ctrl: u32)
    requires
        stat.endp < EP_COUNT,
    ensures
        final(state)@ == old(state)@.after_token(stat, ctrl),
        final(ops)@ == old(ops)@ + old(state)@.token_ops(stat, ctrl),
{
    let ep_num: usize = stat.endp as usize;
    let bc: u16 = (ctrl >> 16) as u16;
    let token_pid: u32 = (ctrl >> 2) & 0x0f;
    if !stat.tx {
        if token_pid == TOKEN_SETUP {
            bd_release_pair(ops, 0, true);
            set_data1(&mut state.ep_in_data1, 0, true);
            set_data1(&mut state.ep_out_data1, 0, true);
            state.ep_out_token[0] = token_pid as u8;
            set_odd(&mut state.ep_out_done_odd, 0, stat.odd);
            state.ep_out_ready[0] = bc;
            resume_ep0_token_processing(ops);
        } else if token_pid == TOKEN_OUT {
            state.ep_out_token[ep_num] = token_pid as u8;
            set_odd(&mut state.ep_out_done_odd, ep_num, stat.odd);
            if ep_num == 0 && bc == 0 {
                prime_ep0_out_setup(state, ops);
            } else {
                state.ep_out_ready[ep_num] = bc;
            }
        }
        ops.push(UsbOp::WakeOut(ep_num));
    } else {
        if ep_num == 0 && token_pid == TOKEN_IN {
            let pending: u8 = state.pending_addr;
            if pending & 0x80 != 0 {
                ops.push(UsbOp::Write { reg: UsbReg::Addr, value: pending & 0x7f });
                state.pending_addr = 0;
            }
        }
        ops.push(UsbOp::WakeIn(ep_num));
    }
    assert(state@ =~= old(state)@.after_token(stat, ctrl));
    assert(ops@ =~= old(ops)@ + old(state)@.token_ops(stat, ctrl));
}

/// The flags that come after the token: stall and error.
fn on_tail(state: &mut UsbFsState, ops: &mut Vec<UsbOp>, istat: u8)
    ensures
        final(state)@ == old(state)@.after_tail(istat),
        final(ops)@ == old(ops)@ + tail_ops(old(state)@, istat),
{
    if istat & ISTAT_STALL != 0 {
        ops.push(UsbOp::ModifyEndpt { ep: 0, clear: ENDPT_EPSTALL, set: 0 });
        prime_ep0_out_setup(state, ops);
        ops.push(UsbOp::Write { reg: UsbReg::Istat, value: ISTAT_STALL });
    }
    if istat & ISTAT_ERROR != 0 {
        ops.push(UsbOp::Write { reg: UsbReg::Errstat, value: 0xff });
        ops.push(UsbOp::Write { reg: UsbReg::Istat, value: ISTAT_ERROR });
    }
    assert(ops@ =~= old(ops)@ + tail_ops(old(state)@, istat));
}

/// Queues put behind one another.
proof fn lemma_joined(a: Seq<UsbOp>, b: Seq<UsbOp>, op: UsbOp, c: Seq<UsbOp>)
    ensures
        a + b + c == a + (b + c),
        (a + b).push(op) + c == a + (b + seq![op] + c),
        a.push(op) + c == a + (seq![op] + c),
        a + seq![] == a,
{
    assert(a + b + c =~= a + (b + c));
    assert((a + b).push(op) + c =~= a + (b + seq![op] + c));
    assert(a.push(op) + c =~= a + (seq![op] + c));
    assert(a + Seq::<UsbOp>::empty() =~= a);
}

/// What the bus flags and the token leave of the state is in order.
proof fn lemma_stages_wf(before: UsbModel, istat: u8, stat: TokenStat, ctrl: u32)
    requires
        before.wf(),
    ensures
        before.after_bus(istat).wf(),
        before.after_tail(istat).wf(),
        stat.endp < EP_COUNT && irq_count_ok(IrqInput::Descriptor { istat, stat, ctrl })
            ==> before.after_token(stat, ctrl).wf(),
{
}

/// One stage of the interrupt handler.
pub fn on_interrupt(state: &mut UsbFsState, ops: &mut Vec<UsbOp>, input: IrqInput) -> (next: IrqNext)
    requires
        irq_input_ok(input),
    ensures
        next == irq_next(input),
        final(state)@ == old(state)@.after_irq(input),
        final(ops)@ == old(ops)@ + old(state)@.irq_ops(input),
        old(state)@.wf() && irq_count_ok(input) ==> final(state)@.wf(),
{
    let ghost before = state@;
    let ghost queue = ops@;
    match input {
        IrqInput::Recovery { pending } => {
            if pending {
                clear_clock_recovery_interrupt(ops);
            }
            proof {
                lemma_joined(queue, seq![], ack(0), seq![]);
            }
            IrqNext::ReadStatus
        },
        IrqInput::Status { istat } => {
            on_bus(state, ops, istat);
            proof {
                if before.wf() {
                    lemma_stages_wf(before, istat, TokenStat { endp: 0, tx: false, odd: false }, 0);
                }
            }
            if istat & ISTAT_TOKDNE != 0 {
                IrqNext::ReadToken { istat }
            } else {
                proof {
                    let bus = before.after_bus(istat);
                    lemma_joined(queue, bus_ops(istat), ack(0), tail_ops(bus, istat));
                    if bus.wf() {
                        lemma_stages_wf(
                            bus,
                            istat,
                            TokenStat { endp: 0, tx: false, odd: false },
                            0,
                        );
                    }
                }
                on_tail(state, ops, istat);
                IrqNext::Done
            }
        },
        IrqInput::Token { istat, stat } => {
            let index: usize = bd_index(stat.endp as usize, stat.tx, stat.odd);
            proof {
                lemma_joined(queue, seq![], ack(0), seq![]);
            }
            IrqNext::ReadDescriptor { istat, stat, index }
        },
        IrqInput::Descriptor { istat, stat, ctrl } => {
            if (stat.endp as usize) < EP_COUNT {
                on_token(state, ops, stat, ctrl);
            }
            ops.push(UsbOp::Write { reg: UsbReg::Istat, value: ISTAT_TOKDNE });
            proof {
                lemma_joined(
                    queue,
                    before.token_ops(stat, ctrl),
                    ack(ISTAT_TOKDNE),
                    tail_ops(state@, istat),
                );
                if before.wf() && irq_count_ok(input) {
                    lemma_stages_wf(before, istat, stat, ctrl);
                    lemma_stages_wf(state@, istat, stat, ctrl);
                }
            }
            on_tail(state, ops, istat);
            IrqNext::Done
        },
    }
}

impl InterruptHandler {
    /// One stage of the interrupt handler.
    pub fn on_interrupt(state: &mut UsbFsState, ops: &mut Vec<UsbOp>, input: IrqInput) -> (next:
        IrqNext)
        requires
            irq_input_ok(input),
        ensures
            next == irq_next(input),
            final(state)@ == old(state)@.after_irq(input),
            final(ops)@ == old(ops)@ + old(state)@.irq_ops(input),
            old(state)@.wf() && irq_count_ok(input) ==> final(state)@.wf(),
    {
        on_interrupt(state, ops, input)
    }
}

} // verus!
