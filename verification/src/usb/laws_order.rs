//! In which order the controller is shown things.
use super::address::EndpointAddress;
use super::bdt;
use super::bdt::{bd_prime, bd_stall};
use super::buffers::EndpointBuffers;
use super::bus;
use super::bus::Bus;
use super::control;
use super::control::{ControlPipe, DataOutProgress, DataOutStage, SendStage};
use super::driver;
use super::driver::Driver;
use super::effects;
use super::effects::added;
use super::endpoint::{EndpointIn, EndpointOut, WriteStage};
use super::interrupt;
use super::interrupt::{IrqInput, IrqNext};
use super::laws;
use super::laws_bus::{index_of, left_alone, sends};
use super::ops::{BufferId, UsbOp, UsbReg};
use super::pipe;
use super::pipe::InStatus;
use super::state::{UsbFsState, UsbModel};
use super::types::{EndpointError, EP_COUNT, HW_EP_COUNT};
use crate::progress::Progress;
use vstd::prelude::*;

verus! {

/// Whether an operation gives a descriptor the address of a buffer.
pub open spec fn addresses(op: UsbOp, place: int) -> bool {
    op matches UsbOp::BdAddr { index, buffer } && index == place && buffer is Some
}

/// Whether an operation writes a control word of endpoint zero in one direction.
pub open spec fn controls_zero(op: UsbOp, is_in: bool) -> bool {
    op matches UsbOp::BdCtrl { index, .. } && (if is_in {
        2 <= index < 4
    } else {
        index < 2
    })
}

/// Whether an operation writes the ENDPT register of an endpoint.
pub open spec fn writes_endpt(op: UsbOp, ep: int) -> bool {
    op matches UsbOp::Write { reg: UsbReg::Endpt(n), .. } && n == ep
}

/// Whether an operation changes single bits of the ENDPT register of an endpoint.
pub open spec fn modifies_endpt(op: UsbOp, ep: int) -> bool {
    op matches UsbOp::ModifyEndpt { ep: n, .. } && n == ep
}

/// Whether an operation comes right behind what it has to come behind. A descriptor is handed
/// over behind a fence, and one with a packet behind the address of its buffer. A bus event
/// is acknowledged once who waits for it is woken, an error once the error flags are cleared,
/// and a stall once the controller can go on.
pub open spec fn timely(queue: Seq<UsbOp>, i: int) -> bool {
    match queue[i] {
        UsbOp::BdCtrl { index, ctrl } => ctrl & 0x80 != 0 ==> {
            &&& i >= 1 && queue[i - 1] == UsbOp::Fence
            &&& ctrl & 0x04 == 0 ==> i >= 2 && addresses(queue[i - 2], index as int)
        },
        UsbOp::Write { reg: UsbReg::Istat, value } => {
            &&& value == 0x01 || value == 0x10 || value == 0x20 ==> i >= 1 && queue[i - 1]
                == UsbOp::WakeBus
            &&& value == 0x02 ==> i >= 1 && queue[i - 1] == (UsbOp::Write {
                reg: UsbReg::Errstat,
                value: 0xff,
            })
            &&& value == 0x80 ==> i >= 1 && queue[i - 1] == UsbOp::SetTokenBusy(false)
        },
        _ => true,
    }
}

/// Whether every operation of a queue comes in its time.
pub open spec fn in_order(queue: Seq<UsbOp>) -> bool {
    forall|i: int| 0 <= i < queue.len() ==> #[trigger] timely(queue, i)
}

/// Two queues after one another.
proof fn lemma_concat(a: Seq<UsbOp>, b: Seq<UsbOp>)
    requires
        in_order(a),
        in_order(b),
    ensures
        in_order(a + b),
{
    let queue = a + b;
    assert forall|i: int| 0 <= i < queue.len() implies #[trigger] timely(queue, i) by {
        if i < a.len() {
            assert(timely(a, i));
            assert(queue[i] == a[i]);
            assert(i >= 1 ==> queue[i - 1] == a[i - 1]);
            assert(i >= 2 ==> queue[i - 2] == a[i - 2]);
        } else {
            let j = i - a.len();
            assert(timely(b, j));
            assert(queue[i] == b[j]);
            assert(j >= 1 ==> queue[i - 1] == b[j - 1]);
            assert(j >= 2 ==> queue[i - 2] == b[j - 2]);
        }
    }
}

/// A queue without descriptors that are handed over and without acknowledgements.
proof fn lemma_free(queue: Seq<UsbOp>)
    requires
        forall|i: int|
            0 <= i < queue.len() ==> match #[trigger] queue[i] {
                UsbOp::BdCtrl { index, ctrl } => ctrl == 0,
                UsbOp::Write { reg: UsbReg::Istat, value } => value == 0xff || value == 0x08,
                _ => true,
            },
    ensures
        in_order(queue),
{
    laws::lemma_zero_keeps();
    assert forall|i: int| 0 <= i < queue.len() implies #[trigger] timely(queue, i) by {
        assert(match queue[i] {
            UsbOp::BdCtrl { index, ctrl } => ctrl == 0,
            UsbOp::Write { reg: UsbReg::Istat, value } => value == 0xff || value == 0x08,
            _ => true,
        });
    }
}

/// Handing a packet over, and going on with tokens.
proof fn lemma_prime(index: int, buffer: BufferId, len: u16, data1: bool, ep: int)
    ensures
        in_order(bdt::prime_ops(index, buffer, len, data1)),
        in_order(bdt::prime_ops(index, buffer, len, data1) + pipe::resume_ops(ep)),
{
    let queue = bdt::prime_ops(index, buffer, len, data1);
    assert(timely(queue, 0) && timely(queue, 1) && timely(queue, 2));
    lemma_free(pipe::resume_ops(ep));
    lemma_concat(queue, pipe::resume_ops(ep));
}

/// Making a descriptor answer with STALL.
proof fn lemma_stall(index: int)
    ensures
        in_order(bdt::stall_ops(index)),
{
    let queue = bdt::stall_ops(index);
    assert(0x80u32 | 0x08 | 0x04 == 0x8c && 0x8cu32 & 0x04 != 0) by (bit_vector);
    assert(timely(queue, 0) && timely(queue, 1));
}

/// The steps that hand descriptors over do so in order, and tokens of endpoint zero go on
/// only behind that.
pub proof fn law_handing_over_in_order(
    primed: &mut Vec<UsbOp>,
    index: usize,
    buffer: BufferId,
    len: u16,
    data1: bool,
    stalled: &mut Vec<UsbOp>,
    state: &mut UsbFsState,
    setup: &mut Vec<UsbOp>,
    out_state: &mut UsbFsState,
    out: &mut Vec<UsbOp>,
    size: u16,
    in_state: &mut UsbFsState,
    buffers: &mut EndpointBuffers,
    sent: &mut Vec<UsbOp>,
    data: &[u8],
    result: Result<(), EndpointError>,
    ep: usize,
)
    requires
        ep < 8,
        call_ensures(bd_prime, (primed, index, buffer, len, data1), ()),
        call_ensures(bd_stall, (stalled, index), ()),
        call_ensures(pipe::prime_ep0_out_setup, (state, setup), ()),
        call_ensures(pipe::prime_out_ep, (out_state, out, ep, size), ()),
        call_ensures(pipe::start_in, (in_state, buffers, sent, ep, data), result),
    ensures
        in_order(added(old(primed)@, final(primed)@)),
        in_order(added(old(stalled)@, final(stalled)@)),
        in_order(added(old(setup)@, final(setup)@)),
        final(setup)@.last() == UsbOp::SetTokenBusy(false),
        in_order(added(old(out)@, final(out)@)),
        ep == 0 ==> final(out)@.last() == UsbOp::SetTokenBusy(false),
        in_order(added(old(sent)@, final(sent)@)),
        ep == 0 && result is Ok ==> final(sent)@.last() == UsbOp::SetTokenBusy(false),
{
    effects::lemma_added(old(primed)@, bdt::prime_ops(index as int, buffer, len, data1));
    lemma_prime(index as int, buffer, len, data1, 0);
    effects::lemma_added(old(stalled)@, bdt::stall_ops(index as int));
    lemma_stall(index as int);
    lemma_model(state@, 0, 0, 0);
    effects::lemma_added(old(setup)@, state@.setup_ops());
    lemma_model(out_state@, ep as int, size, 0);
    effects::lemma_added(old(out)@, out_state@.out_ops(ep as int, size));
    lemma_model(in_state@, ep as int, 0, data@.len() as int);
    if data@.len() <= 64 {
        effects::lemma_added(old(sent)@, in_state@.in_ops(ep as int, data@.len() as int));
    } else {
        assert(added(old(sent)@, final(sent)@) =~= seq![]);
    }
    assert(state@.setup_ops().last() == UsbOp::SetTokenBusy(false));
}

/// What the steps of the pipes hand over.
proof fn lemma_model(m: UsbModel, ep: int, size: u16, len: int)
    ensures
        in_order(m.setup_ops()),
        in_order(m.out_ops(ep, size)),
        in_order(m.in_ops(ep, len)),
{
    lemma_prime(
        bdt::descriptor(0, false, m.out_odd[0]),
        BufferId { ep: 0, direction: super::types::Direction::Out, odd: m.out_odd[0] },
        pipe::SETUP_LEN,
        false,
        0,
    );
    lemma_prime(
        bdt::descriptor(ep, false, m.out_odd[ep]),
        BufferId {
            ep: ep as usize,
            direction: super::types::Direction::Out,
            odd: m.out_odd[ep],
        },
        pipe::capped(size),
        m.out_data1[ep],
        ep,
    );
    lemma_prime(
        bdt::descriptor(ep, true, m.in_odd[ep]),
        m.in_buffer(ep),
        len as u16,
        m.in_data1[ep],
        ep,
    );
}

/// The steps of the control pipe show the controller all things in order. A request is
/// accepted by the empty packet to the host first, and the buffer for the next SETUP packet
/// behind it; it is rejected before tokens go on.
pub proof fn law_control_in_order(
    pipe: &mut ControlPipe,
    state: &mut UsbFsState,
    buffers: &mut EndpointBuffers,
    ops: &mut Vec<UsbOp>,
    status: InStatus,
    progress: Progress<SendStage, ()>,
    rejecting: &mut ControlPipe,
    rejected: &mut Vec<UsbOp>,
    asked: &mut ControlPipe,
    asked_state: &mut UsbFsState,
    asked_buffers: &EndpointBuffers,
    asked_ops: &mut Vec<UsbOp>,
    packet: Option<[u8; 8]>,
    i: int,
    j: int,
)
    requires
        call_ensures(
            ControlPipe::accept,
            (pipe, state, buffers, ops, SendStage::Start, status),
            progress,
        ),
        call_ensures(ControlPipe::reject, (rejecting, rejected), ()),
        call_ensures(
            ControlPipe::setup,
            (asked, asked_state, asked_buffers, asked_ops),
            packet,
        ),
        0 <= i < added(old(ops)@, final(ops)@).len(),
        0 <= j < added(old(ops)@, final(ops)@).len(),
    ensures
        in_order(added(old(ops)@, final(ops)@)),
        ({
            let queue = added(old(ops)@, final(ops)@);
            controls_zero(queue[i], true) && controls_zero(queue[j], false) ==> i < j
        }),
        final(ops)@.last() == UsbOp::SetTokenBusy(false),
        in_order(added(old(rejected)@, final(rejected)@)),
        final(rejected)@.last() == UsbOp::SetTokenBusy(false),
        in_order(added(old(asked_ops)@, final(asked_ops)@)),
        added(old(asked_ops)@, final(asked_ops)@)[0] == UsbOp::RegisterOut(0),
{
    let m = state@;
    effects::lemma_added(old(ops)@, m.status_ops());
    lemma_model(m, 0, 0, 0);
    lemma_model(m.in_started(0), 0, 0, 0);
    lemma_concat(m.in_ops(0, 0), m.in_started(0).setup_ops());
    assert(m.status_ops().last() == UsbOp::SetTokenBusy(false));

    effects::lemma_added(old(rejected)@, control::reject_ops());
    lemma_stall(bdt::descriptor(0, false, false));
    lemma_stall(bdt::descriptor(0, false, true));
    lemma_stall(bdt::descriptor(0, true, false));
    lemma_stall(bdt::descriptor(0, true, true));
    let a = bdt::stall_ops(bdt::descriptor(0, false, false));
    let b = bdt::stall_ops(bdt::descriptor(0, false, true));
    let c = bdt::stall_ops(bdt::descriptor(0, true, false));
    let d = bdt::stall_ops(bdt::descriptor(0, true, true));
    let e = seq![UsbOp::ModifyEndpt { ep: 0, clear: 0, set: super::ops::ENDPT_EPSTALL }];
    lemma_free(e);
    lemma_free(pipe::resume_ops(0));
    lemma_concat(a, b);
    lemma_concat(a + b, c);
    lemma_concat(a + b + c, d);
    lemma_concat(a + b + c + d, e);
    lemma_concat(a + b + c + d + e, pipe::resume_ops(0));
    assert(control::reject_ops().last() == UsbOp::SetTokenBusy(false));

    let first = seq![UsbOp::RegisterOut(0)];
    lemma_free(first);
    lemma_model(asked_state@, 0, 0, 0);
    lemma_concat(first, asked_state@.setup_ops());
    effects::lemma_added(old(asked_ops)@, first);
    effects::lemma_added(old(asked_ops)@, first + asked_state@.setup_ops());
}

/// An endpoint is switched on when its buffer is in place, and off as the last thing; it is
/// stalled when its descriptors are, and its stall is lifted before they are taken back.
pub proof fn law_bus_in_order(
    bus: &mut Bus,
    state: &mut UsbFsState,
    ops: &mut Vec<UsbOp>,
    addr: EndpointAddress,
    enabled: bool,
    bits: u8,
    other: &mut Bus,
    other_state: &mut UsbFsState,
    other_ops: &mut Vec<UsbOp>,
    stalled: bool,
)
    requires
        call_ensures(Bus::endpoint_set_enabled, (bus, state, ops, addr, enabled, bits), ()),
        call_ensures(
            Bus::endpoint_set_stalled,
            (other, other_state, other_ops, addr, stalled),
            (),
        ),
    ensures
        in_order(added(old(ops)@, final(ops)@)),
        in_order(added(old(other_ops)@, final(other_ops)@)),
        !left_alone(old(bus).sizes(sends(addr)), addr, enabled) ==> writes_endpt(
            final(ops)@.last(),
            index_of(addr),
        ),
        index_of(addr) < 8 && stalled ==> modifies_endpt(final(other_ops)@.last(), index_of(addr)),
        index_of(addr) < 8 && !stalled ==> modifies_endpt(
            added(old(other_ops)@, final(other_ops)@)[0],
            index_of(addr),
        ),
{
    let ep = index_of(addr);
    let is_in = sends(addr);
    let m = state@;
    if left_alone(old(bus).sizes(is_in), addr, enabled) {
        assert(added(old(ops)@, final(ops)@) =~= seq![]);
    } else if enabled {
        let size = old(bus).sizes(is_in)[ep];
        let queue = m.enable_ops(ep, is_in, size, old(bus).types(is_in)[ep], bits);
        effects::lemma_added(old(ops)@, queue);
        lemma_model(m.out_rewound(ep), ep, size, 0);
        lemma_free(bdt::release_pair_ops(ep, true));
        let front = queue.drop_last();
        let back = seq![queue.last()];
        lemma_free(back);
        assert(front =~= if is_in {
            bdt::release_pair_ops(ep, true)
        } else {
            m.out_rewound(ep).out_ops(ep, size)
        });
        lemma_concat(front, back);
        assert(queue =~= front + back);
    } else {
        let queue = bus::disable_ops(ep, is_in, bits);
        effects::lemma_added(old(ops)@, queue);
        lemma_free(queue);
    }
    if ep >= 8 {
        assert(added(old(other_ops)@, final(other_ops)@) =~= seq![]);
    } else if stalled {
        let a = bdt::stall_ops(bdt::descriptor(ep, is_in, false));
        let b = bdt::stall_ops(bdt::descriptor(ep, is_in, true));
        let queue = bus::stall_endpoint_ops(ep, is_in);
        effects::lemma_added(old(other_ops)@, queue);
        lemma_stall(bdt::descriptor(ep, is_in, false));
        lemma_stall(bdt::descriptor(ep, is_in, true));
        let c = seq![queue.last()];
        lemma_free(c);
        lemma_concat(a, b);
        lemma_concat(a + b, c);
        assert(queue =~= a + b + c);
    } else {
        let o = other_state@;
        let size = old(other).sizes(false)[ep];
        let queue = o.unstall_ops(ep, is_in, size);
        effects::lemma_added(old(other_ops)@, queue);
        let a = seq![queue[0]];
        let b = bdt::release_pair_ops(ep, is_in);
        let c = if is_in {
            seq![]
        } else {
            o.out_rewound(ep).out_ops(ep, size)
        };
        lemma_free(a);
        lemma_free(b);
        lemma_free(Seq::<UsbOp>::empty());
        lemma_model(o.out_rewound(ep), ep, size, 0);
        lemma_free(pipe::resume_ops(ep));
        lemma_concat(a, b);
        lemma_concat(a + b, c);
        lemma_concat(a + b + c, pipe::resume_ops(ep));
        assert(queue =~= a + b + c + pipe::resume_ops(ep));
    }
}

/// The flags behind the token.
proof fn lemma_tail(m: UsbModel, istat: u8)
    ensures
        in_order(interrupt::tail_ops(m, istat)),
{
    let head = seq![
        UsbOp::ModifyEndpt { ep: 0, clear: super::ops::ENDPT_EPSTALL, set: 0 },
    ];
    let done = seq![interrupt::ack(interrupt::ISTAT_STALL)];
    lemma_free(head);
    lemma_model(m, 0, 0, 0);
    lemma_concat(head, m.setup_ops());
    let stall = head + m.setup_ops() + done;
    assert forall|i: int| 0 <= i < stall.len() implies #[trigger] timely(stall, i) by {
        let front = head + m.setup_ops();
        if i < front.len() {
            assert(timely(front, i));
            assert(stall[i] == front[i]);
            assert(i >= 1 ==> stall[i - 1] == front[i - 1]);
            assert(i >= 2 ==> stall[i - 2] == front[i - 2]);
        } else {
            assert(stall[i - 1] == front.last());
            assert(front.last() == UsbOp::SetTokenBusy(false));
        }
    }
    let error = seq![
        UsbOp::Write { reg: UsbReg::Errstat, value: 0xff },
        interrupt::ack(interrupt::ISTAT_ERROR),
    ];
    assert(timely(error, 0) && timely(error, 1));
    lemma_free(Seq::<UsbOp>::empty());
    let first = if interrupt::raised(istat, interrupt::ISTAT_STALL) {
        stall
    } else {
        seq![]
    };
    let second = if interrupt::raised(istat, interrupt::ISTAT_ERROR) {
        error
    } else {
        seq![]
    };
    lemma_concat(first, second);
}

/// A flag that only reports an event.
proof fn lemma_event(flag: u8)
    requires
        flag == 0x01 || flag == 0x10 || flag == 0x20,
    ensures
        in_order(interrupt::event_ops(flag)),
{
    let queue = interrupt::event_ops(flag);
    assert(timely(queue, 0) && timely(queue, 1));
}

/// A bus reset.
proof fn lemma_reset()
    ensures
        in_order(interrupt::reset_ops()),
{
    let disable = interrupt::disable_ops(HW_EP_COUNT as int);
    let addr = seq![UsbOp::Write { reg: UsbReg::Addr, value: 0 }];
    let clear = bdt::clear_ops(bdt::BDT_ENTRY_COUNT as int);
    let odd = seq![UsbOp::SetOddReset(true), UsbOp::SetOddReset(false)];
    let setup = UsbModel::fresh().setup_ops();
    let open = seq![UsbOp::Write { reg: UsbReg::Endpt(0), value: interrupt::ep0_bits() }];
    lemma_free(disable);
    lemma_free(addr);
    lemma_free(clear);
    lemma_free(odd);
    lemma_free(open);
    lemma_model(UsbModel::fresh(), 0, 0, 0);
    lemma_event(0x01);
    lemma_concat(disable, addr);
    lemma_concat(disable + addr, clear);
    lemma_concat(disable + addr + clear, odd);
    lemma_concat(disable + addr + clear + odd, setup);
    lemma_concat(disable + addr + clear + odd + setup, open);
    lemma_concat(
        disable + addr + clear + odd + setup + open,
        interrupt::event_ops(interrupt::ISTAT_USBRST),
    );
    assert(interrupt::reset_ops() =~= disable + addr + clear + odd + setup + open
        + interrupt::event_ops(interrupt::ISTAT_USBRST));
}

/// The bus events.
proof fn lemma_bus_events(istat: u8)
    ensures
        in_order(interrupt::bus_ops(istat)),
{
    lemma_reset();
    lemma_event(0x10);
    lemma_event(0x20);
    lemma_free(Seq::<UsbOp>::empty());
    let reset = if interrupt::raised(istat, interrupt::ISTAT_USBRST) {
        interrupt::reset_ops()
    } else {
        seq![]
    };
    let sleep = if interrupt::raised(istat, interrupt::ISTAT_SLEEP) {
        interrupt::event_ops(interrupt::ISTAT_SLEEP)
    } else {
        seq![]
    };
    let resume = if interrupt::raised(istat, interrupt::ISTAT_RESUME) {
        interrupt::event_ops(interrupt::ISTAT_RESUME)
    } else {
        seq![]
    };
    lemma_concat(reset, sleep);
    lemma_concat(reset + sleep, resume);
}

/// Every stage of the interrupt handler shows the controller all things in order.
pub proof fn law_interrupt_in_order(
    state: &mut UsbFsState,
    ops: &mut Vec<UsbOp>,
    input: IrqInput,
    next: IrqNext,
)
    requires
        call_ensures(interrupt::on_interrupt, (state, ops, input), next),
    ensures
        in_order(added(old(ops)@, final(ops)@)),
{
    let m = state@;
    effects::lemma_added(old(ops)@, m.irq_ops(input));
    lemma_free(Seq::<UsbOp>::empty());
    match input {
        IrqInput::Recovery { pending } => {
            lemma_free(pipe::recovery_ops());
        },
        IrqInput::Status { istat } => {
            lemma_bus_events(istat);
            lemma_tail(m.after_bus(istat), istat);
            lemma_concat(
                interrupt::bus_ops(istat),
                interrupt::tail_ops(m.after_bus(istat), istat),
            );
        },
        IrqInput::Token { .. } => {},
        IrqInput::Descriptor { istat, stat, ctrl } => {
            let done = seq![interrupt::ack(interrupt::ISTAT_TOKDNE)];
            let token = m.token_ops(stat, ctrl);
            let front = token.drop_last();
            let wake = seq![interrupt::token_wake(stat)];
            lemma_free(done);
            lemma_free(wake);
            lemma_model(m, 0, 0, 0);
            if interrupt::token_kind(stat, ctrl) is StatusOut {
                assert(front =~= m.setup_ops());
            } else {
                lemma_free(front);
            }
            lemma_concat(front, wake);
            assert(token =~= front + wake);
            lemma_tail(m, istat);
            lemma_tail(m.after_token(stat, ctrl), istat);
            lemma_concat(token, done);
            lemma_concat(token + done, interrupt::tail_ops(m.after_token(stat, ctrl), istat));
            lemma_concat(done, interrupt::tail_ops(m, istat));
        },
    }
}

/// A start shows the controller all things in order.
pub proof fn law_start_in_order(
    driver: Driver,
    state: &mut UsbFsState,
    ops: &mut Vec<UsbOp>,
    control_size: u16,
    table: u32,
    parts: (Bus, ControlPipe),
)
    requires
        call_ensures(Driver::start, (driver, state, ops, control_size, table), parts),
    ensures
        in_order(added(old(ops)@, final(ops)@)),
{
    let queue = driver::start_ops(table);
    effects::lemma_added(old(ops)@, queue);
    let setup = UsbModel::fresh().setup_ops();
    lemma_model(UsbModel::fresh(), 0, 0, 0);
    let k = queue.len() - 4 - setup.len();
    let front = queue.take(k);
    let back = queue.skip(k + setup.len());
    assert(queue =~= front + setup + back);
    lemma_free(front);
    lemma_free(back);
    lemma_concat(front, setup);
    lemma_concat(front + setup, back);
}

} // verus!
