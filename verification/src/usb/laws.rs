//! What holds of the driver as a whole.
use super::bdt;
use super::bus;
use super::control;
use super::driver;
use super::endpoint;
use super::hardware;
use super::hardware::{Descriptor, UsbHardware};
use super::interrupt;
use super::interrupt::{
    IrqInput, TokenStat, ISTAT_ERROR, ISTAT_RESUME, ISTAT_SLEEP, ISTAT_STALL, ISTAT_TOKDNE,
    ISTAT_USBRST, TOKEN_IN, TOKEN_OUT, TOKEN_SETUP,
};
use super::ops::{BufferId, UsbOp, UsbReg, ENDPT_EPRXEN, ENDPT_EPSTALL, ENDPT_EPTXEN};
use super::pipe;
use super::pipe::InStatus;
use super::state::{UsbModel, OUT_EMPTY};
use super::types::{Direction, EndpointError, EndpointType, Event, EP_COUNT, HW_EP_COUNT};
use vstd::prelude::*;

verus! {

/// Making an OUT endpoint ready gives the controller one descriptor, which points at
/// the buffer of the same endpoint and pair member, with room for no more than a
/// buffer holds; nothing else changes.
pub proof fn law_out_handed_over(hw: UsbHardware, m: UsbModel, ep: int, size: u16)
    requires
        hw.wf(),
        m.sized(),
        0 <= ep < EP_COUNT,
    ensures
        hw.run(m.out_ops(ep, size)) == hw.with_descriptor(
            bdt::descriptor(ep, false, m.out_odd[ep]),
            Descriptor {
                ctrl: bdt::ready_ctrl(pipe::capped(size), m.out_data1[ep]),
                buffer: Some(
                    BufferId { ep: ep as usize, direction: Direction::Out, odd: m.out_odd[ep] },
                ),
            },
        ),
        pipe::capped(size) <= 64,
{
    let odd = m.out_odd[ep];
    hardware::lemma_run_prime(
        hw,
        bdt::descriptor(ep, false, odd),
        BufferId { ep: ep as usize, direction: Direction::Out, odd },
        pipe::capped(size),
        m.out_data1[ep],
        ep,
    );
}

/// Sending a packet gives the controller one descriptor. It points at the buffer
/// that the data was written to, holds the length of the data, and is the one that
/// is looked at for completion; nothing else changes.
pub proof fn law_in_handed_over(hw: UsbHardware, m: UsbModel, ep: int, len: int)
    requires
        hw.wf(),
        m.sized(),
        0 <= ep < EP_COUNT,
        0 <= len <= 64,
    ensures
        hw.run(m.in_ops(ep, len)) == hw.with_descriptor(
            m.in_started(ep).in_descriptor(ep),
            Descriptor {
                ctrl: bdt::ready_ctrl(len as u16, m.in_data1[ep]),
                buffer: Some(m.in_buffer(ep)),
            },
        ),
        bdt::byte_count(bdt::ready_ctrl(len as u16, m.in_data1[ep])) == len,
        pipe::in_outcome(
            false,
            InStatus {
                endpt: ENDPT_EPTXEN,
                ctrl: hw.run(m.in_ops(ep, len)).bdt[m.in_started(ep).in_descriptor(ep)].ctrl,
            },
        ) is None,
{
    hardware::lemma_run_prime(
        hw,
        bdt::descriptor(ep, true, m.in_odd[ep]),
        m.in_buffer(ep),
        len as u16,
        m.in_data1[ep],
        ep,
    );
    bdt::law_ready_ctrl_fields(len as u16, m.in_data1[ep]);
    assert(ENDPT_EPTXEN & ENDPT_EPTXEN != 0) by (bit_vector);
}

/// Packets of an IN endpoint alternate between DATA0 and DATA1 and between the two
/// buffers of the pair, and the other endpoints are left alone.
pub proof fn law_in_packets_alternate(m: UsbModel, ep: int, other: int)
    requires
        m.sized(),
        0 <= ep < EP_COUNT,
        0 <= other < EP_COUNT,
        other != ep,
    ensures
        m.in_started(ep).in_data1[ep] == !m.in_data1[ep],
        m.in_started(ep).in_buffer(ep) != m.in_buffer(ep),
        m.in_started(ep).in_started(ep).in_data1[ep] == m.in_data1[ep],
        m.in_started(ep).in_started(ep).in_buffer(ep) == m.in_buffer(ep),
        m.in_started(ep).in_data1[other] == m.in_data1[other],
        m.in_started(ep).in_buffer(other) == m.in_buffer(other),
{
}

/// Packets of an OUT endpoint alternate between DATA0 and DATA1 and between the two
/// buffers of the pair, and the other endpoints are left alone.
pub proof fn law_out_packets_alternate(m: UsbModel, ep: int, other: int)
    requires
        m.sized(),
        0 <= ep < EP_COUNT,
        0 <= other < EP_COUNT,
        other != ep,
    ensures
        m.out_primed(ep).out_data1[ep] == !m.out_data1[ep],
        m.out_primed(ep).out_odd[ep] == !m.out_odd[ep],
        m.out_primed(ep).out_primed(ep).out_data1[ep] == m.out_data1[ep],
        m.out_primed(ep).out_primed(ep).out_odd[ep] == m.out_odd[ep],
        m.out_primed(ep).out_data1[other] == m.out_data1[other],
        m.out_primed(ep).out_odd[other] == m.out_odd[other],
        m.out_primed(ep).out_ready[other] == m.out_ready[other],
{
}

/// What the host sends is what a read gives back: after an OUT token the read of
/// that endpoint succeeds, with the length that the controller counted and the
/// buffer that the token belongs to, if it fits the reader's buffer; and after the
/// read nothing waits any more.
pub proof fn law_read_gives_what_was_sent(
    m: UsbModel,
    stat: TokenStat,
    ctrl: u32,
    room: int,
    endpt: u8,
)
    requires
        m.sized(),
        1 <= stat.endp < EP_COUNT,
        !stat.tx,
        bdt::token_pid(ctrl) == TOKEN_OUT,
        bdt::byte_count(ctrl) <= 64,
    ensures
        ({
            let ep = stat.endp as int;
            let got = m.after_token(stat, ctrl);
            &&& got.copyable(ep, room)
            &&& got.out_buffer(ep) == BufferId {
                ep: stat.endp as usize,
                direction: Direction::Out,
                odd: stat.odd,
            }
            &&& endpoint::read_outcome(got, ep, room, endpt) == (if bdt::byte_count(ctrl) <= room {
                Some(Ok::<usize, EndpointError>(bdt::byte_count(ctrl) as usize))
            } else {
                Some(Err(EndpointError::BufferOverflow))
            })
            &&& got.out_primed(ep).out_ready[ep] == OUT_EMPTY
            &&& endpoint::read_outcome(got.out_primed(ep), ep, room, ENDPT_EPRXEN) is None
        }),
{
    assert(ENDPT_EPRXEN & ENDPT_EPRXEN != 0) by (bit_vector);
}

/// A SETUP token is noticed wherever the control pipe stands: the next look for a
/// SETUP packet finds it, a control write that is under way ends, and so does a
/// packet that is awaited on the way to the host. The packets after it are DATA1
/// packets in both directions, and the controller holds no packet for the host.
pub proof fn law_setup_comes_through(
    hw: UsbHardware,
    m: UsbModel,
    stat: TokenStat,
    ctrl: u32,
    room: int,
    last: bool,
    status: InStatus,
)
    requires
        hw.wf(),
        m.sized(),
        stat.endp < EP_COUNT,
        !stat.tx,
        bdt::token_pid(ctrl) == TOKEN_SETUP,
        bdt::byte_count(ctrl) != OUT_EMPTY,
    ensures
        ({
            let got = m.after_token(stat, ctrl);
            &&& got.zero_waits() && got.setup_waits()
            &&& got.out_buffer(0) == BufferId {
                ep: 0,
                direction: Direction::Out,
                odd: stat.odd,
            }
            &&& got.data_out_outcome(room, last) == control::DataOutProgress::Ready(
                Err(EndpointError::Disabled),
            )
            &&& pipe::in_outcome(got.zero_waits(), status) == Some(
                Err::<(), EndpointError>(EndpointError::Disabled),
            )
            &&& got.in_data1[0] && got.out_data1[0]
            &&& hw.run(m.token_ops(stat, ctrl)).bdt[bdt::descriptor(0, true, false)].ctrl == 0
            &&& hw.run(m.token_ops(stat, ctrl)).bdt[bdt::descriptor(0, true, true)].ctrl == 0
        }),
{
    let got = m.after_token(stat, ctrl);
    let pid: u32 = bdt::token_pid(ctrl);
    assert(pid as u8 as u32 == 0x0d) by (bit_vector)
        requires
            pid == 0x0d,
    ;
    let release = bdt::release_pair_ops(0, true);
    let resume = pipe::resume_ops(0);
    hardware::lemma_run_two(hw, release[0], release[1]);
    assert(release =~= seq![release[0], release[1]]);
    hardware::lemma_run_concat(hw, release, resume);
    hardware::lemma_run_one(hw.run(release), UsbOp::SetTokenBusy(false));
    hardware::lemma_run_push(hw, release + resume, interrupt::token_wake(stat));
}

/// What the host sends in the data stage of a control write is what comes out: after an
/// OUT token of endpoint zero that carries data the packet is received, with the length
/// that the controller counted and from the buffer that the token belongs to, if it fits.
/// The last packet is followed by the status stage.
pub proof fn law_control_write_gives_what_was_sent(
    m: UsbModel,
    stat: TokenStat,
    ctrl: u32,
    room: int,
    last: bool,
)
    requires
        m.sized(),
        stat.endp == 0,
        !stat.tx,
        bdt::token_pid(ctrl) == TOKEN_OUT,
        0 < bdt::byte_count(ctrl) <= 64,
    ensures
        ({
            let got = m.after_token(stat, ctrl);
            let len = bdt::byte_count(ctrl) as usize;
            &&& got.copyable(0, room)
            &&& got.out_buffer(0) == BufferId {
                ep: 0,
                direction: Direction::Out,
                odd: stat.odd,
            }
            &&& got.data_out_outcome(room, last) == (if len > room {
                control::DataOutProgress::Ready(Err(EndpointError::BufferOverflow))
            } else if last {
                control::DataOutProgress::Again(control::DataOutStage::Status(len))
            } else {
                control::DataOutProgress::Ready(Ok(len))
            })
            &&& !got.data_out_received(room, last).zero_waits()
        }),
{
    let pid: u32 = bdt::token_pid(ctrl);
    assert(pid as u8 as u32 == 0x01) by (bit_vector)
        requires
            pid == 0x01,
    ;
}

/// Accepting a request hands the host an empty packet and leaves endpoint zero ready for
/// the next SETUP packet; no other descriptor changes.
pub proof fn law_accept_sends_empty_packet(hw: UsbHardware, m: UsbModel)
    requires
        hw.wf(),
        m.sized(),
    ensures
        hw.run(m.status_ops()) == hw.with_descriptor(
            m.in_started(0).in_descriptor(0),
            Descriptor {
                ctrl: bdt::ready_ctrl(0, m.in_data1[0]),
                buffer: Some(m.in_buffer(0)),
            },
        ).with_descriptor(
            bdt::descriptor(0, false, m.out_odd[0]),
            Descriptor {
                ctrl: bdt::ready_ctrl(8, false),
                buffer: Some(BufferId { ep: 0, direction: Direction::Out, odd: m.out_odd[0] }),
            },
        ),
        !m.status_started().zero_waits(),
{
    let first = m.in_ops(0, 0);
    law_in_handed_over(hw, m, 0, 0);
    hardware::lemma_run_prime(
        hw.run(first),
        bdt::descriptor(0, false, m.out_odd[0]),
        BufferId { ep: 0, direction: Direction::Out, odd: m.out_odd[0] },
        pipe::SETUP_LEN,
        false,
        0,
    );
    hardware::lemma_run_concat(hw, first, m.in_started(0).setup_ops());
}

/// A refused request is answered with STALL in both directions, and once the controller
/// reports that it sent the STALL, endpoint zero is no longer stalled and ready for the
/// next SETUP packet.
pub proof fn law_refused_request_is_stalled(hw: UsbHardware, m: UsbModel, istat: u8)
    requires
        hw.wf(),
        m.sized(),
        interrupt::raised(istat, ISTAT_STALL),
    ensures
        ({
            let refused = hw.run(control::reject_ops());
            let answered = refused.run(interrupt::tail_ops(m, istat));
            let odd = m.out_odd[0];
            &&& refused.endpt[0] & ENDPT_EPSTALL != 0
            &&& forall|i: int| 0 <= i < 4 ==> (#[trigger] refused.bdt[i]).ctrl == bdt::stall_ctrl()
            &&& answered.endpt[0] & ENDPT_EPSTALL == 0
            &&& answered.endpt[0] & !ENDPT_EPSTALL == hw.endpt[0] & !ENDPT_EPSTALL
            &&& answered.bdt[bdt::descriptor(0, false, odd)] == Descriptor {
                ctrl: bdt::ready_ctrl(8, false),
                buffer: Some(BufferId { ep: 0, direction: Direction::Out, odd }),
            }
        }),
        !m.after_tail(istat).zero_waits(),
{
    let p0 = bdt::stall_ops(0);
    let p1 = bdt::stall_ops(1);
    let p2 = bdt::stall_ops(2);
    let p3 = bdt::stall_ops(3);
    let set = UsbOp::ModifyEndpt { ep: 0, clear: 0, set: ENDPT_EPSTALL };
    hardware::lemma_run_two(hw, p0[0], p0[1]);
    assert(p0 =~= seq![p0[0], p0[1]]);
    let h0 = hw.run(p0);
    hardware::lemma_run_concat(hw, p0, p1);
    hardware::lemma_run_two(h0, p1[0], p1[1]);
    assert(p1 =~= seq![p1[0], p1[1]]);
    let h1 = h0.run(p1);
    hardware::lemma_run_concat(hw, p0 + p1, p2);
    hardware::lemma_run_two(h1, p2[0], p2[1]);
    assert(p2 =~= seq![p2[0], p2[1]]);
    let h2 = h1.run(p2);
    hardware::lemma_run_concat(hw, p0 + p1 + p2, p3);
    hardware::lemma_run_two(h2, p3[0], p3[1]);
    assert(p3 =~= seq![p3[0], p3[1]]);
    let h3 = h2.run(p3);
    hardware::lemma_run_concat(hw, p0 + p1 + p2 + p3, seq![set]);
    hardware::lemma_run_one(h3, set);
    let h4 = h3.step(set);
    hardware::lemma_run_concat(hw, p0 + p1 + p2 + p3 + seq![set], pipe::resume_ops(0));
    hardware::lemma_run_one(h4, UsbOp::SetTokenBusy(false));
    assert(hw.run(control::reject_ops()) == h4);

    let value: u8 = hw.endpt[0];
    let up: u8 = (value & !0u8) | 0x02;
    let down: u8 = (up & !0x02u8) | 0;
    assert(up & 0x02 != 0 && down & 0x02 == 0 && down & !0x02u8 == value & !0x02u8) by (bit_vector)
        requires
            up == (value & !0u8) | 0x02,
            down == (up & !0x02u8) | 0,
    ;

    let clear = seq![UsbOp::ModifyEndpt { ep: 0, clear: ENDPT_EPSTALL, set: 0 }];
    let done = seq![interrupt::ack(ISTAT_STALL)];
    hardware::lemma_run_one(h4, clear[0]);
    let g1 = h4.run(clear);
    hardware::lemma_run_concat(h4, clear, m.setup_ops());
    hardware::lemma_run_prime(
        g1,
        bdt::descriptor(0, false, m.out_odd[0]),
        BufferId { ep: 0, direction: Direction::Out, odd: m.out_odd[0] },
        pipe::SETUP_LEN,
        false,
        0,
    );
    let g2 = g1.run(m.setup_ops());
    hardware::lemma_run_concat(h4, clear + m.setup_ops(), done);
    hardware::lemma_run_one(g2, done[0]);
    let stall = clear + m.setup_ops() + done;
    let error = if interrupt::raised(istat, ISTAT_ERROR) {
        seq![UsbOp::Write { reg: UsbReg::Errstat, value: 0xff }, interrupt::ack(ISTAT_ERROR)]
    } else {
        seq![]
    };
    hardware::lemma_run_concat(h4, stall, error);
    if interrupt::raised(istat, ISTAT_ERROR) {
        hardware::lemma_run_two(g2, error[0], error[1]);
    }
    assert(h4.run(interrupt::tail_ops(m, istat)) == g2);
}

/// Every token of an endpoint that the driver serves wakes who waits for that endpoint and
/// direction, and so does switching the endpoint off; every bus event wakes who waits for
/// the bus.
pub proof fn law_waiters_are_woken(
    m: UsbModel,
    stat: TokenStat,
    ctrl: u32,
    ep: int,
    is_in: bool,
    bits: u8,
    istat: u8,
)
    requires
        stat.endp < EP_COUNT,
        0 <= ep < EP_COUNT,
    ensures
        m.token_ops(stat, ctrl).contains(
            if stat.tx {
                UsbOp::WakeIn(stat.endp as usize)
            } else {
                UsbOp::WakeOut(stat.endp as usize)
            },
        ),
        bus::disable_ops(ep, is_in, bits).contains(
            if is_in {
                UsbOp::WakeIn(ep as usize)
            } else {
                UsbOp::WakeOut(ep as usize)
            },
        ),
        interrupt::raised(istat, ISTAT_USBRST) || interrupt::raised(istat, ISTAT_SLEEP)
            || interrupt::raised(istat, ISTAT_RESUME) ==> interrupt::bus_ops(istat).contains(
            UsbOp::WakeBus,
        ),
{
    let token = m.token_ops(stat, ctrl);
    assert(token[token.len() - 1] == interrupt::token_wake(stat));
    let disable = bus::disable_ops(ep, is_in, bits);
    assert(disable[2] == if is_in {
        UsbOp::WakeIn(ep as usize)
    } else {
        UsbOp::WakeOut(ep as usize)
    });
    let queue = interrupt::bus_ops(istat);
    if interrupt::raised(istat, ISTAT_RESUME) {
        assert(queue[queue.len() - 2] == UsbOp::WakeBus);
    } else if interrupt::raised(istat, ISTAT_SLEEP) {
        assert(queue[queue.len() - 2] == UsbOp::WakeBus);
    } else if interrupt::raised(istat, ISTAT_USBRST) {
        assert(queue =~= interrupt::reset_ops());
        assert(queue[queue.len() - 2] == UsbOp::WakeBus);
    }
}

/// A new address is taken over only once the host has fetched the empty packet that
/// accepts it: accepting the request does not write the address, the next IN token
/// of endpoint zero writes it, and a further one writes nothing.
pub proof fn law_address_is_deferred(
    hw: UsbHardware,
    m: UsbModel,
    addr: u8,
    stat: TokenStat,
    ctrl: u32,
)
    requires
        hw.wf(),
        m.sized(),
        stat.endp == 0,
        stat.tx,
        bdt::token_pid(ctrl) == TOKEN_IN,
    ensures
        ({
            let noted = m.address_noted(addr);
            let started = noted.status_started();
            let fetched = started.after_token(stat, ctrl);
            &&& hw.run(noted.status_ops()).addr == hw.addr
            &&& hw.run(started.token_ops(stat, ctrl)).addr == addr & 0x7f
            &&& fetched.pending_addr == 0
            &&& hw.run(fetched.token_ops(stat, ctrl)).addr == hw.addr
        }),
{
    let noted = m.address_noted(addr);
    let started = noted.status_started();
    let fetched = started.after_token(stat, ctrl);
    let pending: u8 = 0x80 | (addr & 0x7f);
    assert(pending & 0x80 != 0 && pending & 0x7f == addr & 0x7f && 0u8 & 0x80 == 0) by (bit_vector)
        requires
            pending == 0x80 | (addr & 0x7f),
    ;
    let first = noted.in_ops(0, 0);
    let second = noted.in_started(0).setup_ops();
    hardware::lemma_run_prime(
        hw,
        bdt::descriptor(0, true, noted.in_odd[0]),
        noted.in_buffer(0),
        0,
        noted.in_data1[0],
        0,
    );
    let odd = noted.in_started(0).out_odd[0];
    hardware::lemma_run_prime(
        hw.run(first),
        bdt::descriptor(0, false, odd),
        BufferId { ep: 0, direction: Direction::Out, odd },
        pipe::SETUP_LEN,
        false,
        0,
    );
    hardware::lemma_run_concat(hw, first, second);

    let write = UsbOp::Write { reg: UsbReg::Addr, value: pending & 0x7f };
    hardware::lemma_run_one(hw, write);
    hardware::lemma_run_push(hw, seq![write], interrupt::token_wake(stat));
    hardware::lemma_run_push(hw, seq![], interrupt::token_wake(stat));
    assert(hw.run(seq![]) == hw);
}

/// Whatever the state before, after a bus reset the device has address zero, every
/// endpoint but zero is disabled, and the controller owns one descriptor: that of
/// endpoint zero, ready for a SETUP packet. Nothing of the old state is left: only the
/// events to report differ from a fresh one.
pub proof fn law_reset_starts_afresh(hw: UsbHardware, m: UsbModel, other: UsbModel, istat: u8)
    requires
        hw.wf(),
        interrupt::raised(istat, ISTAT_USBRST),
    ensures
        ({
            let after = hw.run(interrupt::reset_ops());
            &&& after.wf()
            &&& after.addr == 0
            &&& after.endpt[0] == interrupt::ep0_bits()
            &&& forall|ep: int| 1 <= ep < HW_EP_COUNT ==> #[trigger] after.endpt[ep] == 0
            &&& after.bdt[bdt::descriptor(0, false, false)] == Descriptor {
                ctrl: bdt::ready_ctrl(8, false),
                buffer: Some(BufferId { ep: 0, direction: Direction::Out, odd: false }),
            }
            &&& forall|i: int|
                0 <= i < bdt::BDT_ENTRY_COUNT && i != bdt::descriptor(0, false, false)
                    ==> #[trigger] after.bdt[i] == Descriptor { ctrl: 0, buffer: None }
        }),
        m.after_bus(istat) == other.after_bus(istat),
        m.after_bus(istat) == (UsbModel {
            events: m.after_bus(istat).events,
            ..UsbModel::fresh().setup_primed()
        }),
{
    let parts = seq![UsbOp::Write { reg: UsbReg::Addr, value: 0 }];
    let odd_reset = seq![UsbOp::SetOddReset(true), UsbOp::SetOddReset(false)];
    let fresh = UsbModel::fresh();
    let tail = seq![
        UsbOp::Write { reg: UsbReg::Endpt(0), value: interrupt::ep0_bits() },
        UsbOp::WakeBus,
        interrupt::ack(ISTAT_USBRST),
    ];
    let disable = interrupt::disable_ops(HW_EP_COUNT as int);
    let clear = bdt::clear_ops(bdt::BDT_ENTRY_COUNT as int);
    let setup = fresh.setup_ops();

    hardware::lemma_run_disable(hw, HW_EP_COUNT as int);
    let h1 = hw.run(disable);
    hardware::lemma_run_concat(hw, disable, parts);
    hardware::lemma_run_one(h1, parts[0]);
    let h2 = h1.run(parts);
    hardware::lemma_run_concat(hw, disable + parts, clear);
    hardware::lemma_run_clear(h2, bdt::BDT_ENTRY_COUNT as int);
    let h3 = h2.run(clear);
    hardware::lemma_run_concat(hw, disable + parts + clear, odd_reset);
    hardware::lemma_run_two(h3, odd_reset[0], odd_reset[1]);
    assert(h3.run(odd_reset) == h3);
    hardware::lemma_run_concat(hw, disable + parts + clear + odd_reset, setup);
    hardware::lemma_run_prime(
        h3,
        bdt::descriptor(0, false, false),
        BufferId { ep: 0, direction: Direction::Out, odd: false },
        pipe::SETUP_LEN,
        false,
        0,
    );
    let h4 = h3.run(setup);
    hardware::lemma_run_concat(hw, disable + parts + clear + odd_reset + setup, tail);
    hardware::lemma_run_three(h4, tail[0], tail[1], tail[2]);
}

/// Stalling an endpoint shows in its ENDPT register and in both its descriptors, and
/// lifting the stall takes it out of the register again; no other bit of the register
/// changes.
pub proof fn law_stall_shows(hw: UsbHardware, m: UsbModel, ep: int, is_in: bool, size: u16)
    requires
        hw.wf(),
        m.sized(),
        0 <= ep < EP_COUNT,
    ensures
        ({
            let stalled = hw.run(bus::stall_endpoint_ops(ep, is_in));
            let lifted = hw.run(m.unstall_ops(ep, is_in, size));
            &&& stalled.endpt[ep] & ENDPT_EPSTALL != 0
            &&& stalled.endpt[ep] & !ENDPT_EPSTALL == hw.endpt[ep] & !ENDPT_EPSTALL
            &&& stalled.bdt[bdt::descriptor(ep, is_in, false)].ctrl == bdt::stall_ctrl()
            &&& stalled.bdt[bdt::descriptor(ep, is_in, true)].ctrl == bdt::stall_ctrl()
            &&& lifted.endpt[ep] & ENDPT_EPSTALL == 0
            &&& lifted.endpt[ep] & !ENDPT_EPSTALL == hw.endpt[ep] & !ENDPT_EPSTALL
        }),
{
    let even = bdt::stall_ops(bdt::descriptor(ep, is_in, false));
    let odd = bdt::stall_ops(bdt::descriptor(ep, is_in, true));
    let set = UsbOp::ModifyEndpt { ep: ep as usize, clear: 0, set: ENDPT_EPSTALL };
    hardware::lemma_run_two(hw, even[0], even[1]);
    assert(even =~= seq![even[0], even[1]]);
    let h1 = hw.run(even);
    hardware::lemma_run_concat(hw, even, odd);
    hardware::lemma_run_two(h1, odd[0], odd[1]);
    assert(odd =~= seq![odd[0], odd[1]]);
    let h2 = h1.run(odd);
    hardware::lemma_run_concat(hw, even + odd, seq![set]);
    hardware::lemma_run_one(h2, set);

    let value: u8 = hw.endpt[ep];
    let up: u8 = (value & !0u8) | 0x02;
    let down: u8 = (value & !0x02u8) | 0;
    assert(up & 0x02 != 0 && up & !0x02u8 == value & !0x02u8 && down & 0x02 == 0 && down & !0x02u8
        == value & !0x02u8) by (bit_vector)
        requires
            up == (value & !0u8) | 0x02,
            down == (value & !0x02u8) | 0,
    ;

    let clear = UsbOp::ModifyEndpt { ep: ep as usize, clear: ENDPT_EPSTALL, set: 0 };
    let release = bdt::release_pair_ops(ep, is_in);
    let middle = if is_in {
        seq![]
    } else {
        m.out_rewound(ep).out_ops(ep, size)
    };
    hardware::lemma_run_one(hw, clear);
    let g1 = hw.run(seq![clear]);
    hardware::lemma_run_concat(hw, seq![clear], release);
    hardware::lemma_run_two(g1, release[0], release[1]);
    assert(release =~= seq![release[0], release[1]]);
    let g2 = g1.run(release);
    hardware::lemma_run_concat(hw, seq![clear] + release, middle);
    if is_in {
        assert(g2.run(middle) == g2);
    } else {
        law_out_handed_over(g2, m.out_rewound(ep), ep, size);
    }
    let g3 = g2.run(middle);
    hardware::lemma_run_concat(hw, seq![clear] + release + middle, pipe::resume_ops(ep));
    if ep == 0 {
        hardware::lemma_run_one(g3, UsbOp::SetTokenBusy(false));
    } else {
        assert(g3.run(pipe::resume_ops(ep)) == g3);
    }
}

/// An endpoint that was switched on in one direction is seen as enabled in that
/// direction, one that was switched off is not and holds no packet any more, and neither
/// changes whether it is enabled in the other direction.
pub proof fn law_enable_shows(
    hw: UsbHardware,
    m: UsbModel,
    ep: int,
    is_in: bool,
    size: u16,
    ep_type: Option<EndpointType>,
)
    requires
        hw.wf(),
        m.sized(),
        0 <= ep < EP_COUNT,
    ensures
        ({
            let this = if is_in {
                ENDPT_EPTXEN
            } else {
                ENDPT_EPRXEN
            };
            let that = if is_in {
                ENDPT_EPRXEN
            } else {
                ENDPT_EPTXEN
            };
            let bits = hw.endpt[ep];
            let on = hw.run(m.enable_ops(ep, is_in, size, ep_type, bits));
            let off = hw.run(bus::disable_ops(ep, is_in, bits));
            &&& on.endpt[ep] & this != 0
            &&& on.endpt[ep] & that == bits & that
            &&& off.endpt[ep] & this == 0
            &&& off.endpt[ep] & that == bits & that
            &&& off.bdt[bdt::descriptor(ep, is_in, false)].ctrl == 0
            &&& off.bdt[bdt::descriptor(ep, is_in, true)].ctrl == 0
        }),
{
    let bits: u8 = hw.endpt[ep];
    assert(((bits | 1u8) | (4u8 | 0x10)) & 4 != 0 && ((bits & !1u8) | (4u8 | 0x10)) & 4 != 0 && ((
    bits | 1u8) | (8u8 | 0x10)) & 8 != 0 && ((bits & !1u8) | (8u8 | 0x10)) & 8 != 0) by (bit_vector);
    assert(((bits | 1u8) | (4u8 | 0x10)) & 8 == bits & 8 && ((bits & !1u8) | (4u8 | 0x10)) & 8
        == bits & 8 && ((bits | 1u8) | (8u8 | 0x10)) & 4 == bits & 4 && ((bits & !1u8) | (8u8
        | 0x10)) & 4 == bits & 4) by (bit_vector);
    assert((bits & !4u8) & 4 == 0 && (bits & !4u8) & 8 == bits & 8 && (bits & !8u8) & 8 == 0 && (
    bits & !8u8) & 4 == bits & 4) by (bit_vector);

    let front = if is_in {
        bdt::release_pair_ops(ep, true)
    } else {
        m.out_rewound(ep).out_ops(ep, size)
    };
    let write = bus::endpt_op(ep, bus::enabled_bits(bits, is_in, ep_type));
    if is_in {
        hardware::lemma_run_release(hw, ep, true);
    } else {
        law_out_handed_over(hw, m.out_rewound(ep), ep, size);
    }
    hardware::lemma_run_push(hw, front, write);

    let release = bdt::release_pair_ops(ep, is_in);
    let wake = if is_in {
        UsbOp::WakeIn(ep as usize)
    } else {
        UsbOp::WakeOut(ep as usize)
    };
    let last = bus::endpt_op(ep, bus::disabled_bits(bits, is_in));
    hardware::lemma_run_release(hw, ep, is_in);
    hardware::lemma_run_concat(hw, release, seq![wake, last]);
    hardware::lemma_run_two(hw.run(release), wake, last);
}

/// An endpoint that was switched on, or whose stall was lifted, starts with a DATA0 packet
/// in the even buffer.
pub proof fn law_endpoint_starts_at_data0(m: UsbModel, ep: int, len: int, size: u16)
    requires
        m.sized(),
        0 <= ep < EP_COUNT,
    ensures
        m.restarted(ep, true).in_ops(ep, len) == bdt::prime_ops(
            bdt::descriptor(ep, true, false),
            BufferId { ep: ep as usize, direction: Direction::In, odd: false },
            len as u16,
            false,
        ) + pipe::resume_ops(ep),
        m.out_rewound(ep).out_ops(ep, size) == bdt::prime_ops(
            bdt::descriptor(ep, false, false),
            BufferId { ep: ep as usize, direction: Direction::Out, odd: false },
            pipe::capped(size),
            false,
        ) + pipe::resume_ops(ep),
        m.restarted(ep, false) == m.out_rewound(ep).out_primed(ep),
{
}

/// Whatever the controller held before, after a start it owns one descriptor: that of
/// endpoint zero, ready for a SETUP packet.
pub proof fn law_start_is_ready(hw: UsbHardware, bdt_addr: u32)
    requires
        hw.wf(),
    ensures
        ({
            let after = hw.run(driver::start_ops(bdt_addr));
            &&& after.wf()
            &&& after.endpt[0] == interrupt::ep0_bits()
            &&& after.bdt[bdt::descriptor(0, false, false)] == Descriptor {
                ctrl: bdt::ready_ctrl(8, false),
                buffer: Some(BufferId { ep: 0, direction: Direction::Out, odd: false }),
            }
            &&& forall|i: int|
                0 <= i < bdt::BDT_ENTRY_COUNT && i != bdt::descriptor(0, false, false)
                    ==> #[trigger] after.bdt[i] == Descriptor { ctrl: 0, buffer: None }
        }),
{
    let queue = driver::start_ops(bdt_addr);
    let clear = bdt::clear_ops(bdt::BDT_ENTRY_COUNT as int);
    let setup = UsbModel::fresh().setup_ops();
    let back = seq![
        UsbOp::EnablePullup,
        UsbOp::UnpendInterrupt,
        UsbOp::EnableInterrupt,
    ];
    let write = seq![UsbOp::Write { reg: UsbReg::Endpt(0), value: interrupt::ep0_bits() }];
    let first = 28int;
    let second = first + clear.len();
    let third = queue.len() - 4 - setup.len();
    let front = queue.take(first);
    let middle = queue.subrange(second, third);
    assert(queue =~= front + clear + middle + setup + write + back);

    hardware::lemma_run_elsewhere(hw, front);
    hardware::lemma_run_concat(hw, front, clear);
    hardware::lemma_run_clear(hw, bdt::BDT_ENTRY_COUNT as int);
    let h1 = hw.run(clear);
    hardware::lemma_run_concat(hw, front + clear, middle);
    hardware::lemma_run_elsewhere(h1, middle);
    hardware::lemma_run_concat(hw, front + clear + middle, setup);
    hardware::lemma_run_prime(
        h1,
        bdt::descriptor(0, false, false),
        BufferId { ep: 0, direction: Direction::Out, odd: false },
        pipe::SETUP_LEN,
        false,
        0,
    );
    let h2 = h1.run(setup);
    hardware::lemma_run_concat(hw, front + clear + middle + setup, write);
    hardware::lemma_run_one(h2, write[0]);
    let h3 = h2.run(write);
    hardware::lemma_run_concat(hw, front + clear + middle + setup + write, back);
    hardware::lemma_run_elsewhere(h3, back);
}

/// A bus reset is reported before anything else that waits, and a suspend is reported
/// unless a reset waits with it.
pub proof fn law_reset_reported_first(m: UsbModel, istat: u8)
    ensures
        interrupt::raised(istat, ISTAT_USBRST) ==> bus::first_event(m.after_bus(istat).events)
            == Some(Event::Reset),
        interrupt::raised(istat, ISTAT_SLEEP) ==> bus::first_event(m.after_bus(istat).events)
            == Some(Event::Reset) || bus::first_event(m.after_bus(istat).events) == Some(
            Event::Suspend,
        ),
        interrupt::raised(istat, ISTAT_RESUME) ==> bus::first_event(m.after_bus(istat).events)
            is Some,
        bus::first_event(m.events) == Some(Event::Reset) ==> bus::first_event(
            m.after_bus(istat).events,
        ) == Some(Event::Reset),
{
    let e: u8 = m.events;
    assert(forall|x: u8| #![auto] (x | 1) & 1 != 0) by (bit_vector);
    assert(forall|x: u8| #![auto] (x | 2) & 1 == x & 1) by (bit_vector);
    assert(forall|x: u8| #![auto] (x | 4) & 1 == x & 1) by (bit_vector);
    assert(forall|x: u8| #![auto] (x | 2) & 2 != 0) by (bit_vector);
    assert(forall|x: u8| #![auto] (x | 4) & 2 == x & 2) by (bit_vector);
    assert(forall|x: u8| #![auto] (x | 4) & 4 != 0) by (bit_vector);
}

/// The flags that a queue acknowledges, in order.
pub open spec fn acks(queue: Seq<UsbOp>) -> Seq<u8>
    decreases queue.len(),
{
    if queue.len() == 0 {
        seq![]
    } else {
        let front = acks(queue.drop_last());
        match queue.last() {
            UsbOp::Write { reg: UsbReg::Istat, value } => front.push(value),
            _ => front,
        }
    }
}

/// The flags of two queues after one another.
proof fn lemma_acks_concat(a: Seq<UsbOp>, b: Seq<UsbOp>)
    ensures
        acks(a + b) == acks(a) + acks(b),
    decreases b.len(),
{
    if b.len() == 0 {
        assert(a + b =~= a);
        assert(acks(a) + acks(b) =~= acks(a));
    } else {
        lemma_acks_concat(a, b.drop_last());
        assert((a + b).drop_last() =~= a + b.drop_last());
        assert(acks(a + b) =~= acks(a) + acks(b));
    }
}

/// A queue without a write to ISTAT acknowledges nothing.
proof fn lemma_acks_none(a: Seq<UsbOp>)
    requires
        forall|i: int| 0 <= i < a.len() ==> !acknowledges(#[trigger] a[i]),
    ensures
        acks(a) == Seq::<u8>::empty(),
    decreases a.len(),
{
    if a.len() > 0 {
        let front = a.drop_last();
        assert forall|i: int| 0 <= i < front.len() implies !acknowledges(#[trigger] front[i]) by {
            assert(!acknowledges(a[i]));
        }
        lemma_acks_none(front);
        assert(!acknowledges(a[a.len() - 1]));
    }
}

/// A queue that ends in its only write to ISTAT acknowledges that.
proof fn lemma_acks_last(a: Seq<UsbOp>, flag: u8)
    requires
        a.len() > 0,
        a.last() == interrupt::ack(flag),
        forall|i: int| 0 <= i < a.len() - 1 ==> !acknowledges(#[trigger] a[i]),
    ensures
        acks(a) == seq![flag],
{
    let front = a.drop_last();
    assert forall|i: int| 0 <= i < front.len() implies !acknowledges(#[trigger] front[i]) by {
        assert(!acknowledges(a[i]));
    }
    lemma_acks_none(front);
    assert(acks(a) =~= seq![flag]);
}

/// Whether an operation writes to ISTAT.
pub open spec fn acknowledges(op: UsbOp) -> bool {
    op matches UsbOp::Write { reg: UsbReg::Istat, value }
}

/// `flag`, if it is up in `istat`.
pub open spec fn if_raised(istat: u8, flag: u8) -> Seq<u8> {
    if interrupt::raised(istat, flag) {
        seq![flag]
    } else {
        seq![]
    }
}

/// Flags that the bus events of `istat` acknowledge.
proof fn lemma_acks_bus(istat: u8)
    ensures
        acks(interrupt::bus_ops(istat)) == if_raised(istat, ISTAT_USBRST) + if_raised(
            istat,
            ISTAT_SLEEP,
        ) + if_raised(istat, ISTAT_RESUME),
{
    let reset = if interrupt::raised(istat, ISTAT_USBRST) {
        interrupt::reset_ops()
    } else {
        seq![]
    };
    let sleep = if interrupt::raised(istat, ISTAT_SLEEP) {
        interrupt::event_ops(ISTAT_SLEEP)
    } else {
        seq![]
    };
    let resume = if interrupt::raised(istat, ISTAT_RESUME) {
        interrupt::event_ops(ISTAT_RESUME)
    } else {
        seq![]
    };
    lemma_acks_concat(reset, sleep);
    lemma_acks_concat(reset + sleep, resume);
    lemma_acks_last(interrupt::reset_ops(), ISTAT_USBRST);
    lemma_acks_last(interrupt::event_ops(ISTAT_SLEEP), ISTAT_SLEEP);
    lemma_acks_last(interrupt::event_ops(ISTAT_RESUME), ISTAT_RESUME);
}

/// Flags that stall and error acknowledge.
proof fn lemma_acks_tail(m: UsbModel, istat: u8)
    ensures
        acks(interrupt::tail_ops(m, istat)) == if_raised(istat, ISTAT_STALL) + if_raised(
            istat,
            ISTAT_ERROR,
        ),
{
    let stall = seq![UsbOp::ModifyEndpt { ep: 0, clear: ENDPT_EPSTALL, set: 0 }] + m.setup_ops()
        + seq![interrupt::ack(ISTAT_STALL)];
    let error = seq![
        UsbOp::Write { reg: UsbReg::Errstat, value: 0xff },
        interrupt::ack(ISTAT_ERROR),
    ];
    lemma_acks_last(stall, ISTAT_STALL);
    lemma_acks_last(error, ISTAT_ERROR);
    let none = Seq::<UsbOp>::empty();
    lemma_acks_concat(stall, error);
    lemma_acks_concat(stall, none);
    lemma_acks_concat(none, error);
    lemma_acks_concat(none, none);
}

/// Flags that the last stage acknowledges, after a token.
proof fn lemma_acks_descriptor(m: UsbModel, istat: u8, stat: TokenStat, ctrl: u32)
    ensures
        acks(m.irq_ops(IrqInput::Descriptor { istat, stat, ctrl })) == seq![ISTAT_TOKDNE]
            + if_raised(istat, ISTAT_STALL) + if_raised(istat, ISTAT_ERROR),
{
    let token = if stat.endp < EP_COUNT {
        m.token_ops(stat, ctrl)
    } else {
        seq![]
    };
    let after = if stat.endp < EP_COUNT {
        m.after_token(stat, ctrl)
    } else {
        m
    };
    let tail = interrupt::tail_ops(after, istat);
    let done = seq![interrupt::ack(ISTAT_TOKDNE)];
    assert(acks(token) == Seq::<u8>::empty()) by {
        lemma_acks_none(token);
    }
    lemma_acks_last(done, ISTAT_TOKDNE);
    lemma_acks_tail(after, istat);
    lemma_acks_concat(token, done);
    lemma_acks_concat(token + done, tail);
    assert(m.irq_ops(IrqInput::Descriptor { istat, stat, ctrl }) =~= token + done + tail);
    assert(acks(token + done + tail) =~= seq![ISTAT_TOKDNE] + if_raised(istat, ISTAT_STALL)
        + if_raised(istat, ISTAT_ERROR));
}

/// Flags that the second stage acknowledges.
proof fn lemma_acks_status(m: UsbModel, istat: u8)
    ensures
        acks(m.irq_ops(IrqInput::Status { istat })) == if_raised(istat, ISTAT_USBRST) + if_raised(
            istat,
            ISTAT_SLEEP,
        ) + if_raised(istat, ISTAT_RESUME) + (if interrupt::raised(istat, ISTAT_TOKDNE) {
            seq![]
        } else {
            if_raised(istat, ISTAT_STALL) + if_raised(istat, ISTAT_ERROR)
        }),
{
    lemma_acks_bus(istat);
    lemma_acks_tail(m.after_bus(istat), istat);
    lemma_acks_concat(
        interrupt::bus_ops(istat),
        interrupt::tail_ops(m.after_bus(istat), istat),
    );
    assert(acks(interrupt::bus_ops(istat)) + seq![] =~= acks(interrupt::bus_ops(istat)));
}

/// All operations of one run of the interrupt handler; `stat` and `ctrl` are what the
/// reads in between give.
pub open spec fn whole_run(
    m: UsbModel,
    pending: bool,
    istat: u8,
    stat: TokenStat,
    ctrl: u32,
) -> Seq<UsbOp> {
    let recovered = m.after_irq(IrqInput::Recovery { pending });
    let bus_done = recovered.after_irq(IrqInput::Status { istat });
    let front = m.irq_ops(IrqInput::Recovery { pending }) + recovered.irq_ops(
        IrqInput::Status { istat },
    );
    if interrupt::irq_next(IrqInput::Status { istat }) == interrupt::IrqNext::Done {
        front
    } else {
        front + bus_done.irq_ops(IrqInput::Token { istat, stat }) + bus_done.after_irq(
            IrqInput::Token { istat, stat },
        ).irq_ops(IrqInput::Descriptor { istat, stat, ctrl })
    }
}

/// One run of the interrupt handler acknowledges every flag that was up and that the
/// driver handles, each one on its own and once, and no flag that was down: a flag
/// that comes up meanwhile stays up and interrupts again.
pub proof fn law_each_flag_acknowledged_once(
    m: UsbModel,
    pending: bool,
    istat: u8,
    stat: TokenStat,
    ctrl: u32,
)
    ensures
        acks(whole_run(m, pending, istat, stat, ctrl)) == if_raised(istat, ISTAT_USBRST)
            + if_raised(istat, ISTAT_SLEEP) + if_raised(istat, ISTAT_RESUME) + if_raised(
            istat,
            ISTAT_TOKDNE,
        ) + if_raised(istat, ISTAT_STALL) + if_raised(istat, ISTAT_ERROR),
{
    let bus_done = m.after_irq(IrqInput::Status { istat });
    let a = m.irq_ops(IrqInput::Recovery { pending });
    let b = m.irq_ops(IrqInput::Status { istat });
    lemma_acks_none(a);
    lemma_acks_concat(a, b);
    lemma_acks_status(m, istat);
    if interrupt::raised(istat, ISTAT_TOKDNE) {
        let d = bus_done.irq_ops(IrqInput::Descriptor { istat, stat, ctrl });
        lemma_acks_concat(a + b, d);
        lemma_acks_descriptor(bus_done, istat, stat, ctrl);
        assert(a + b + Seq::<UsbOp>::empty() =~= a + b);
    }
    assert(acks(whole_run(m, pending, istat, stat, ctrl)) =~= if_raised(istat, ISTAT_USBRST)
        + if_raised(istat, ISTAT_SLEEP) + if_raised(istat, ISTAT_RESUME) + if_raised(
        istat,
        ISTAT_TOKDNE,
    ) + if_raised(istat, ISTAT_STALL) + if_raised(istat, ISTAT_ERROR));
}

/// Whether the controller gets descriptors only behind a fence: each control word that
/// hands one over comes right after a fence.
pub open spec fn fenced(queue: Seq<UsbOp>) -> bool {
    forall|i: int|
        0 <= i < queue.len() && hands_over(#[trigger] queue[i]) ==> i > 0 && queue[i - 1]
            == UsbOp::Fence
}

/// Whether an operation hands a descriptor to the controller.
pub open spec fn hands_over(op: UsbOp) -> bool {
    op matches UsbOp::BdCtrl { index, ctrl } && ctrl & bdt::BD_OWN != 0
}

/// Two queues after one another.
proof fn lemma_fenced_concat(a: Seq<UsbOp>, b: Seq<UsbOp>)
    requires
        fenced(a),
        fenced(b),
    ensures
        fenced(a + b),
{
    let queue = a + b;
    assert forall|i: int| 0 <= i < queue.len() && hands_over(#[trigger] queue[i]) implies i > 0
        && queue[i - 1] == UsbOp::Fence by {
        if i < a.len() {
            assert(hands_over(a[i]));
        } else {
            assert(hands_over(b[i - a.len()]));
        }
    }
}

/// A zero control word hands nothing over.
pub proof fn lemma_zero_keeps()
    ensures
        0u32 & bdt::BD_OWN == 0,
{
    assert(0u32 & 0x80 == 0) by (bit_vector);
}

/// Every queue that gives descriptors to the controller does so behind a fence, so that
/// it never sees a descriptor whose address or data is still on the way.
pub proof fn law_descriptors_are_fenced(
    m: UsbModel,
    ep: int,
    size: u16,
    len: int,
    is_in: bool,
    bits: u8,
    ep_type: Option<EndpointType>,
    bdt_addr: u32,
    input: IrqInput,
)
    requires
        m.sized(),
        0 <= ep < EP_COUNT,
    ensures
        fenced(m.setup_ops()),
        fenced(m.out_ops(ep, size)),
        fenced(m.in_ops(ep, len)),
        fenced(m.status_ops()),
        fenced(m.enable_ops(ep, is_in, size, ep_type, bits)),
        fenced(m.unstall_ops(ep, is_in, size)),
        fenced(bus::stall_endpoint_ops(ep, is_in)),
        fenced(bus::disable_ops(ep, is_in, bits)),
        fenced(control::reject_ops()),
        fenced(m.irq_ops(input)),
        fenced(driver::start_ops(bdt_addr)),
{
    lemma_zero_keeps();
    assert(fenced(m.setup_ops()));
    assert(fenced(m.out_ops(ep, size)));
    assert(fenced(m.in_ops(ep, len)));
    assert(fenced(m.in_started(0).setup_ops()));
    assert(fenced(m.in_ops(0, 0)));
    lemma_fenced_concat(m.in_ops(0, 0), m.in_started(0).setup_ops());
    assert(fenced(m.out_rewound(ep).out_ops(ep, size)));
    let release = bdt::release_pair_ops(ep, is_in);
    assert(fenced(bdt::release_pair_ops(ep, true)));
    assert(fenced(release));
    let head = seq![UsbOp::ModifyEndpt { ep: ep as usize, clear: ENDPT_EPSTALL, set: 0 }];
    lemma_fenced_concat(head, release);
    let middle = if is_in {
        seq![]
    } else {
        m.out_rewound(ep).out_ops(ep, size)
    };
    lemma_fenced_concat(head + release, middle);
    lemma_fenced_concat(head + release + middle, pipe::resume_ops(ep));
    lemma_fenced_irq(m, input);
    lemma_fenced_start(bdt_addr);
}

/// The flags after the token give descriptors away behind a fence.
proof fn lemma_fenced_tail(m: UsbModel, istat: u8)
    ensures
        fenced(interrupt::tail_ops(m, istat)),
{
    let head = seq![UsbOp::ModifyEndpt { ep: 0, clear: ENDPT_EPSTALL, set: 0 }];
    let done = seq![interrupt::ack(ISTAT_STALL)];
    assert(fenced(m.setup_ops()));
    lemma_fenced_concat(head, m.setup_ops());
    lemma_fenced_concat(head + m.setup_ops(), done);
    let stall = if interrupt::raised(istat, ISTAT_STALL) {
        head + m.setup_ops() + done
    } else {
        seq![]
    };
    let error = if interrupt::raised(istat, ISTAT_ERROR) {
        seq![UsbOp::Write { reg: UsbReg::Errstat, value: 0xff }, interrupt::ack(ISTAT_ERROR)]
    } else {
        seq![]
    };
    lemma_fenced_concat(stall, error);
}

/// The bus events give descriptors away behind a fence.
proof fn lemma_fenced_bus(istat: u8)
    ensures
        fenced(interrupt::bus_ops(istat)),
{
    lemma_fenced_reset();
    let reset = if interrupt::raised(istat, ISTAT_USBRST) {
        interrupt::reset_ops()
    } else {
        seq![]
    };
    let sleep = if interrupt::raised(istat, ISTAT_SLEEP) {
        interrupt::event_ops(ISTAT_SLEEP)
    } else {
        seq![]
    };
    let resume = if interrupt::raised(istat, ISTAT_RESUME) {
        interrupt::event_ops(ISTAT_RESUME)
    } else {
        seq![]
    };
    lemma_fenced_concat(reset, sleep);
    lemma_fenced_concat(reset + sleep, resume);
}

/// Every stage of the interrupt handler gives descriptors away behind a fence.
proof fn lemma_fenced_irq(m: UsbModel, input: IrqInput)
    ensures
        fenced(m.irq_ops(input)),
{
    match input {
        IrqInput::Recovery { pending } => {},
        IrqInput::Status { istat } => {
            lemma_fenced_bus(istat);
            lemma_fenced_tail(m.after_bus(istat), istat);
            lemma_fenced_concat(
                interrupt::bus_ops(istat),
                interrupt::tail_ops(m.after_bus(istat), istat),
            );
        },
        IrqInput::Token { istat, stat } => {},
        IrqInput::Descriptor { istat, stat, ctrl } => {
            lemma_zero_keeps();
            assert(fenced(m.setup_ops()));
            let done = seq![interrupt::ack(ISTAT_TOKDNE)];
            lemma_fenced_tail(m, istat);
            lemma_fenced_tail(m.after_token(stat, ctrl), istat);
            assert(fenced(m.token_ops(stat, ctrl)));
            lemma_fenced_concat(m.token_ops(stat, ctrl), done);
            lemma_fenced_concat(
                m.token_ops(stat, ctrl) + done,
                interrupt::tail_ops(m.after_token(stat, ctrl), istat),
            );
            lemma_fenced_concat(done, interrupt::tail_ops(m, istat));
        },
    }
}

/// The reset queue gives descriptors away behind a fence.
proof fn lemma_fenced_reset()
    ensures
        fenced(interrupt::reset_ops()),
{
    lemma_zero_keeps();
    let disable = interrupt::disable_ops(HW_EP_COUNT as int);
    let addr = seq![UsbOp::Write { reg: UsbReg::Addr, value: 0 }];
    let clear = bdt::clear_ops(bdt::BDT_ENTRY_COUNT as int);
    let odd = seq![UsbOp::SetOddReset(true), UsbOp::SetOddReset(false)];
    let setup = UsbModel::fresh().setup_ops();
    let tail = seq![
        UsbOp::Write { reg: UsbReg::Endpt(0), value: interrupt::ep0_bits() },
        UsbOp::WakeBus,
        interrupt::ack(ISTAT_USBRST),
    ];
    assert(fenced(disable) && fenced(addr) && fenced(clear) && fenced(odd) && fenced(setup)
        && fenced(tail));
    lemma_fenced_concat(disable, addr);
    lemma_fenced_concat(disable + addr, clear);
    lemma_fenced_concat(disable + addr + clear, odd);
    lemma_fenced_concat(disable + addr + clear + odd, setup);
    lemma_fenced_concat(disable + addr + clear + odd + setup, tail);
}

/// The start queue gives descriptors away behind a fence.
proof fn lemma_fenced_start(bdt_addr: u32)
    ensures
        fenced(driver::start_ops(bdt_addr)),
{
    lemma_zero_keeps();
    let queue = driver::start_ops(bdt_addr);
    let setup = UsbModel::fresh().setup_ops();
    assert(fenced(setup));
    let k = queue.len() - 4 - setup.len();
    let front = queue.take(k);
    let back = queue.skip(k + setup.len());
    assert(queue =~= front + setup + back);
    assert forall|i: int| 0 <= i < front.len() implies !hands_over(#[trigger] front[i]) by {
        assert(front[i] == queue[i]);
    }
    assert(fenced(front));
    assert(fenced(back));
    lemma_fenced_concat(front, setup);
    lemma_fenced_concat(front + setup, back);
}

/// The interrupt is unmasked once, and as the last thing that a start does.
pub proof fn law_interrupt_unmasked_last(bdt_addr: u32, i: int)
    requires
        0 <= i < driver::start_ops(bdt_addr).len(),
    ensures
        driver::start_ops(bdt_addr)[i] == UsbOp::EnableInterrupt <==> i == driver::start_ops(
            bdt_addr,
        ).len() - 1,
{
}

} // verus!
