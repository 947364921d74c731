//! What endpoints other than zero owe their users, and what the steps below them do.
use super::address::EndpointAddress;
use super::bdt;
use super::bdt::{bd_index, bd_prime, bd_release, bd_release_pair, bd_stall, clear_bdt};
use super::buffers::EndpointBuffers;
use super::effects;
use super::effects::{
    added, all_keep, awaiting_setup, empty_table, kept, member, others_keep, packet_awaited,
    packet_sent, resumed, room_for, slot, with_in, with_out, with_pair, with_setup,
};
use super::endpoint::{EndpointIn, EndpointOut, WriteStage};
use super::hardware;
use super::hardware::{owned_word, Descriptor, UsbCore, UsbHardware};
use super::interrupt;
use super::interrupt::{IrqInput, IrqNext, TokenStat};
use super::laws_bus::{index_of, sends};
use super::laws_control;
use super::laws_control::{in_held, in_open};
use super::laws_interrupt;
use super::laws_interrupt::{afresh, count_of, is_out};
use super::laws_start;
use super::ops;
use super::ops::{BufferId, UsbOp, UsbReg};
use super::pipe;
use super::pipe::InStatus;
use super::state;
use super::state::{UsbFsState, UsbModel};
use super::types::{Direction, EndpointError, EndpointInfo, EP_COUNT, HW_EP_COUNT};
use crate::mask;
use crate::mask::{bit_is_set, EndpointMask};
use crate::progress::Progress;
use vstd::prelude::*;

verus! {

/// A read gives a packet that waits, if it fits, in the bytes of the buffer that it came in,
/// and refuses one that does not; either way nothing waits any more, and the endpoint has
/// the other buffer for the next packet, of the kind that comes next. Without a packet a
/// read fails on a closed endpoint, and else waits, woken by the endpoint.
pub proof fn law_read(
    endpoint: &mut EndpointOut,
    state: &mut UsbFsState,
    buffers: &EndpointBuffers,
    ops: &mut Vec<UsbOp>,
    buf: &mut [u8],
    endpt: u8,
    outcome: Option<Result<usize, EndpointError>>,
    hw: UsbHardware,
    core: UsbCore,
)
    requires
        hw.wf(),
        old(endpoint).wf(),
        call_ensures(EndpointOut::read, (endpoint, state, buffers, ops, buf, endpt), outcome),
    ensures
        ({
            let info = old(endpoint).described();
            let ep = index_of(info.addr);
            let m = old(state)@;
            let queue = added(old(ops)@, final(ops)@);
            let waits = m.out_ready[ep] != 0xffff;
            let count = m.out_ready[ep] as int;
            let fits = count <= old(buf)@.len();
            let open = bit_is_set(endpt, 3);
            &&& kept(old(ops)@, final(ops)@)
            &&& *final(endpoint) == *old(endpoint)
            &&& outcome == (if waits && fits {
                Some(Ok::<usize, EndpointError>(count as usize))
            } else if waits {
                Some(Err(EndpointError::BufferOverflow))
            } else if !open {
                Some(Err(EndpointError::Disabled))
            } else {
                None
            })
            &&& final(buf)@ == (if waits && fits {
                slot(*buffers, ep, false, m.out_done_odd[ep]).take(count) + old(buf)@.skip(count)
            } else {
                old(buf)@
            })
            &&& if waits {
                &&& final(state)@ == packet_awaited(m, ep, m.out_data1[ep])
                &&& hw.run(queue) == UsbHardware {
                    bdt: with_out(
                        hw.bdt,
                        ep,
                        m.out_odd[ep],
                        room_for(info.max_packet_size),
                        m.out_data1[ep],
                    ),
                    ..hw
                }
                &&& core.run(queue) == core
            } else {
                &&& final(state)@ == m
                &&& queue == (if open {
                    seq![UsbOp::RegisterOut(ep as usize)]
                } else {
                    Seq::<UsbOp>::empty()
                })
            }
        }),
{
    let info = endpoint.described();
    let ep = index_of(info.addr);
    let m = state@;
    mask::lemma_single_bits();
    state::law_state_is_sized(*state);
    effects::lemma_added(old(ops)@, m.out_ops(ep, info.max_packet_size));
    effects::lemma_added(old(ops)@, seq![]);
    effects::lemma_added(old(ops)@, seq![UsbOp::RegisterOut(ep as usize)]);
    assert(old(ops)@ + Seq::<UsbOp>::empty() =~= old(ops)@);
    effects::lemma_out_effect(hw, core, m, ep, info.max_packet_size);
    assert(m.out_primed(ep) =~= packet_awaited(m, ep, m.out_data1[ep]));
}

/// What the host sends to an endpoint is what the next read gives: the length that the
/// controller counted, and that many bytes of the buffer that the token names.
pub proof fn law_sent_is_read(
    state: &mut UsbFsState,
    ops: &mut Vec<UsbOp>,
    istat: u8,
    stat: TokenStat,
    ctrl: u32,
    next: IrqNext,
    endpoint: &mut EndpointOut,
    later: &mut UsbFsState,
    buffers: &EndpointBuffers,
    later_ops: &mut Vec<UsbOp>,
    buf: &mut [u8],
    endpt: u8,
    outcome: Option<Result<usize, EndpointError>>,
)
    requires
        call_ensures(
            interrupt::on_interrupt,
            (state, ops, IrqInput::Descriptor { istat, stat, ctrl }),
            next,
        ),
        is_out(stat, ctrl),
        count_of(ctrl) <= old(buf)@.len(),
        count_of(ctrl) != 0xffff,
        old(endpoint).wf(),
        index_of(old(endpoint).described().addr) == stat.endp,
        *old(later) == *final(state),
        call_ensures(EndpointOut::read, (endpoint, later, buffers, later_ops, buf, endpt), outcome),
    ensures
        outcome == Some(Ok::<usize, EndpointError>(count_of(ctrl) as usize)),
        final(buf)@ == slot(*buffers, stat.endp as int, false, stat.odd).take(count_of(ctrl)) + old(
            buf,
        )@.skip(count_of(ctrl)),
{
    let hw = UsbHardware {
        endpt: laws_interrupt::only_zero_open(),
        addr: 0,
        bdt: empty_table(),
    };
    state::law_state_is_sized(*state);
    laws_interrupt::lemma_word_fields(ctrl);
    laws_interrupt::law_token_stage(state, ops, istat, stat, ctrl, next);
    law_read(endpoint, later, buffers, later_ops, buf, endpt, outcome, hw, arbitrary());
}

/// The first step of a write: it fails on a closed endpoint, and on a packet longer than a
/// buffer, and then changes nothing. Else the packet is stored and handed over, with its
/// length and the kind that comes next.
pub proof fn law_write_starts(
    endpoint: &mut EndpointIn,
    state: &mut UsbFsState,
    buffers: &mut EndpointBuffers,
    ops: &mut Vec<UsbOp>,
    buf: &[u8],
    status: InStatus,
    progress: Progress<WriteStage, Result<(), EndpointError>>,
    hw: UsbHardware,
    core: UsbCore,
)
    requires
        hw.wf(),
        old(endpoint).wf(),
        call_ensures(
            EndpointIn::write,
            (endpoint, state, buffers, ops, WriteStage::Start, buf, status),
            progress,
        ),
    ensures
        ({
            let ep = index_of(old(endpoint).described().addr);
            let m = old(state)@;
            let queue = added(old(ops)@, final(ops)@);
            let odd = m.in_odd[ep];
            let len = buf@.len() as int;
            &&& kept(old(ops)@, final(ops)@)
            &&& *final(endpoint) == *old(endpoint)
            &&& if !in_open(status) || len > 64 {
                &&& progress == Progress::<WriteStage, Result<(), EndpointError>>::Ready(
                    Err(
                        if !in_open(status) {
                            EndpointError::Disabled
                        } else {
                            EndpointError::BufferOverflow
                        },
                    ),
                )
                &&& final(state)@ == m
                &&& *final(buffers) == *old(buffers)
                &&& queue == Seq::<UsbOp>::empty()
            } else {
                &&& progress == Progress::<WriteStage, Result<(), EndpointError>>::Again(
                    WriteStage::Sending,
                )
                &&& final(state)@ == packet_sent(m, ep)
                &&& hw.run(queue) == UsbHardware {
                    bdt: with_in(hw.bdt, ep, odd, len, m.in_data1[ep]),
                    ..hw
                }
                &&& core.run(queue) == core
                &&& slot(*final(buffers), ep, true, odd).take(len) == buf@
                &&& others_keep(*old(buffers), *final(buffers), ep, odd)
            }
        }),
{
    let ep = index_of(endpoint.described().addr);
    let m = state@;
    mask::lemma_single_bits();
    state::law_state_is_sized(*state);
    effects::lemma_added(old(ops)@, seq![]);
    assert(old(ops)@ + Seq::<UsbOp>::empty() =~= old(ops)@);
    if in_open(status) && buf@.len() <= 64 {
        effects::lemma_added(old(ops)@, m.in_ops(ep, buf@.len() as int));
        effects::lemma_in_effect(hw, core, m, ep, buf@.len() as int);
        effects::lemma_stored(*old(buffers), *final(buffers), ep, m.in_odd[ep], buf@);
        assert(m.in_started(ep) =~= packet_sent(m, ep));
    }
}

/// The later step of a write: it fails on a closed endpoint, succeeds when the controller is
/// through with the packet, and else waits, woken by the endpoint. It changes nothing.
pub proof fn law_write_goes_on(
    endpoint: &mut EndpointIn,
    state: &mut UsbFsState,
    buffers: &mut EndpointBuffers,
    ops: &mut Vec<UsbOp>,
    buf: &[u8],
    status: InStatus,
    progress: Progress<WriteStage, Result<(), EndpointError>>,
)
    requires
        old(endpoint).wf(),
        call_ensures(
            EndpointIn::write,
            (endpoint, state, buffers, ops, WriteStage::Sending, buf, status),
            progress,
        ),
    ensures
        ({
            let ep = index_of(old(endpoint).described().addr);
            &&& kept(old(ops)@, final(ops)@)
            &&& *final(endpoint) == *old(endpoint)
            &&& final(state)@ == old(state)@
            &&& *final(buffers) == *old(buffers)
            &&& progress == (if !in_open(status) {
                Progress::<WriteStage, Result<(), EndpointError>>::Ready(
                    Err(EndpointError::Disabled),
                )
            } else if !in_held(status) {
                Progress::<WriteStage, Result<(), EndpointError>>::Ready(Ok(()))
            } else {
                Progress::<WriteStage, Result<(), EndpointError>>::Wait(WriteStage::Sending)
            })
            &&& added(old(ops)@, final(ops)@) == (if in_open(status) && in_held(status) {
                seq![UsbOp::RegisterIn(ep as usize)]
            } else {
                Seq::<UsbOp>::empty()
            })
        }),
{
    let ep = index_of(endpoint.described().addr);
    laws_control::lemma_in_look(status, false);
    effects::lemma_added(old(ops)@, pipe::in_wait_ops(ep, false, status));
}

/// An endpoint is enabled exactly if it is open in its direction: bit 2 of its register for
/// IN, bit 3 for OUT; who finds it closed is woken by that endpoint and direction. What is
/// known of an endpoint is what it was allocated as.
pub proof fn law_wait_enabled(
    sender: &mut EndpointIn,
    receiver: &mut EndpointOut,
    sender_ops: &mut Vec<UsbOp>,
    receiver_ops: &mut Vec<UsbOp>,
    endpt: u8,
    sender_enabled: bool,
    receiver_enabled: bool,
)
    requires
        old(sender).wf(),
        old(receiver).wf(),
        call_ensures(EndpointIn::wait_enabled, (sender, sender_ops, endpt), sender_enabled),
        call_ensures(EndpointOut::wait_enabled, (receiver, receiver_ops, endpt), receiver_enabled),
    ensures
        sender_enabled == bit_is_set(endpt, 2),
        receiver_enabled == bit_is_set(endpt, 3),
        final(sender_ops)@ == (if sender_enabled {
            old(sender_ops)@
        } else {
            old(sender_ops)@.push(
                UsbOp::RegisterIn(index_of(old(sender).described().addr) as usize),
            )
        }),
        final(receiver_ops)@ == (if receiver_enabled {
            old(receiver_ops)@
        } else {
            old(receiver_ops)@.push(
                UsbOp::RegisterOut(index_of(old(receiver).described().addr) as usize),
            )
        }),
        *final(sender) == *old(sender),
        *final(receiver) == *old(receiver),
{
    mask::lemma_single_bits();
    assert(old(sender_ops)@ + Seq::<UsbOp>::empty() =~= old(sender_ops)@);
    assert(old(receiver_ops)@ + Seq::<UsbOp>::empty() =~= old(receiver_ops)@);
}

/// What is known of an endpoint is what it was allocated as.
pub proof fn law_info(
    sender: EndpointIn,
    receiver: EndpointOut,
    sender_info: &EndpointInfo,
    receiver_info: &EndpointInfo,
)
    requires
        call_ensures(EndpointIn::info, (&sender,), sender_info),
        call_ensures(EndpointOut::info, (&receiver,), receiver_info),
    ensures
        *sender_info == sender.described(),
        *receiver_info == receiver.described(),
{
}

/// The steps that hand buffers over: for a SETUP packet, for a packet of an OUT endpoint,
/// and for a packet to the host.
pub proof fn law_handing_over(
    setup: &mut UsbFsState,
    setup_ops: &mut Vec<UsbOp>,
    out: &mut UsbFsState,
    out_ops: &mut Vec<UsbOp>,
    ep: usize,
    size: u16,
    hw: UsbHardware,
    core: UsbCore,
)
    requires
        hw.wf(),
        ep < 8,
        call_ensures(pipe::prime_ep0_out_setup, (setup, setup_ops), ()),
        call_ensures(pipe::prime_out_ep, (out, out_ops, ep, size), ()),
    ensures
        ({
            let m = old(setup)@;
            let queue = added(old(setup_ops)@, final(setup_ops)@);
            &&& kept(old(setup_ops)@, final(setup_ops)@)
            &&& final(setup)@ == awaiting_setup(m)
            &&& hw.run(queue) == UsbHardware { bdt: with_setup(hw.bdt, m.out_odd[0]), ..hw }
            &&& core.run(queue) == resumed(core, 0)
        }),
        ({
            let m = old(out)@;
            let e = ep as int;
            let queue = added(old(out_ops)@, final(out_ops)@);
            &&& kept(old(out_ops)@, final(out_ops)@)
            &&& final(out)@ == packet_awaited(m, e, m.out_data1[e])
            &&& hw.run(queue) == UsbHardware {
                bdt: with_out(hw.bdt, e, m.out_odd[e], room_for(size), m.out_data1[e]),
                ..hw
            }
            &&& core.run(queue) == resumed(core, e)
        }),
{
    let e = ep as int;
    state::law_state_is_sized(*setup);
    state::law_state_is_sized(*out);
    effects::lemma_added(old(setup_ops)@, setup@.setup_ops());
    effects::lemma_added(old(out_ops)@, out@.out_ops(e, size));
    effects::lemma_setup_effect(hw, core, setup@);
    effects::lemma_out_effect(hw, core, out@, e, size);
    assert(setup@.setup_primed() =~= awaiting_setup(setup@));
    assert(out@.out_primed(e) =~= packet_awaited(out@, e, out@.out_data1[e]));
}

/// Whether a packet to the host was handed over as it should be, or refused.
pub open spec fn offered(
    m: UsbModel,
    after: UsbModel,
    before_buffers: EndpointBuffers,
    after_buffers: EndpointBuffers,
    ops: Seq<UsbOp>,
    ops_after: Seq<UsbOp>,
    ep: int,
    data: Seq<u8>,
    result: Result<(), EndpointError>,
    hw: UsbHardware,
    core: UsbCore,
) -> bool {
    let queue = added(ops, ops_after);
    let odd = m.in_odd[ep];
    let len = data.len() as int;
    &&& kept(ops, ops_after)
    &&& if len > 64 {
        &&& result == Err::<(), EndpointError>(EndpointError::BufferOverflow)
        &&& after == m
        &&& after_buffers == before_buffers
        &&& queue == Seq::<UsbOp>::empty()
    } else {
        &&& result == Ok::<(), EndpointError>(())
        &&& after == packet_sent(m, ep)
        &&& hw.run(queue) == UsbHardware {
            bdt: with_in(hw.bdt, ep, odd, len, m.in_data1[ep]),
            ..hw
        }
        &&& core.run(queue) == resumed(core, ep)
        &&& slot(after_buffers, ep, true, odd).take(len) == data
        &&& others_keep(before_buffers, after_buffers, ep, odd)
    }
}

/// A packet to the host, from any endpoint and from endpoint zero.
pub proof fn law_offering(
    state: &mut UsbFsState,
    buffers: &mut EndpointBuffers,
    ops: &mut Vec<UsbOp>,
    ep: usize,
    data: &[u8],
    result: Result<(), EndpointError>,
    zero: &mut UsbFsState,
    zero_buffers: &mut EndpointBuffers,
    zero_ops: &mut Vec<UsbOp>,
    zero_result: Result<(), EndpointError>,
    hw: UsbHardware,
    core: UsbCore,
)
    requires
        hw.wf(),
        ep < 8,
        call_ensures(pipe::start_in, (state, buffers, ops, ep, data), result),
        call_ensures(pipe::start_ep0_in, (zero, zero_buffers, zero_ops, data), zero_result),
    ensures
        offered(
            old(state)@,
            final(state)@,
            *old(buffers),
            *final(buffers),
            old(ops)@,
            final(ops)@,
            ep as int,
            data@,
            result,
            hw,
            core,
        ),
        offered(
            old(zero)@,
            final(zero)@,
            *old(zero_buffers),
            *final(zero_buffers),
            old(zero_ops)@,
            final(zero_ops)@,
            0,
            data@,
            zero_result,
            hw,
            core,
        ),
{
    let e = ep as int;
    let len = data@.len() as int;
    state::law_state_is_sized(*state);
    state::law_state_is_sized(*zero);
    effects::lemma_added(old(ops)@, seq![]);
    effects::lemma_added(old(zero_ops)@, seq![]);
    assert(old(ops)@ + Seq::<UsbOp>::empty() =~= old(ops)@);
    assert(old(zero_ops)@ + Seq::<UsbOp>::empty() =~= old(zero_ops)@);
    if len <= 64 {
        effects::lemma_added(old(ops)@, state@.in_ops(e, len));
        effects::lemma_added(old(zero_ops)@, zero@.in_ops(0, len));
        effects::lemma_in_effect(hw, core, state@, e, len);
        effects::lemma_in_effect(hw, core, zero@, 0, len);
        effects::lemma_stored(*old(buffers), *final(buffers), e, state@.in_odd[e], data@);
        effects::lemma_stored(*old(zero_buffers), *final(zero_buffers), 0, zero@.in_odd[0], data@);
        assert(state@.in_started(e) =~= packet_sent(state@, e));
        assert(zero@.in_started(0) =~= packet_sent(zero@, 0));
    }
}

/// A look at a packet to the host, and the descriptor that is to be shown to it: that of
/// the buffer that was handed over last.
pub proof fn law_looking(
    ops: &mut Vec<UsbOp>,
    ep: usize,
    abort: bool,
    status: InStatus,
    outcome: Option<Result<(), EndpointError>>,
    state: UsbFsState,
    index: usize,
)
    requires
        ep < 8,
        call_ensures(pipe::wait_in_done, (ops, ep, abort, status), outcome),
        call_ensures(pipe::active_in_descriptor, (&state, ep), index),
    ensures
        outcome == (if abort || !in_open(status) {
            Some(Err::<(), EndpointError>(EndpointError::Disabled))
        } else if !in_held(status) {
            Some(Ok(()))
        } else {
            None
        }),
        final(ops)@ == (if outcome is None {
            old(ops)@.push(UsbOp::RegisterIn(ep))
        } else {
            old(ops)@
        }),
        index == 4 * ep + 2 + member(state@.in_active_odd[ep as int]),
{
    laws_control::lemma_in_look(status, abort);
    assert(old(ops)@ + Seq::<UsbOp>::empty() =~= old(ops)@);
}

/// Letting tokens of endpoint zero be processed, and clearing a clock recovery interrupt in
/// both places, each touch nothing else.
pub proof fn law_small_steps(
    tokens: &mut Vec<UsbOp>,
    recovery: &mut Vec<UsbOp>,
    hw: UsbHardware,
    core: UsbCore,
)
    requires
        call_ensures(pipe::resume_ep0_token_processing, (tokens,), ()),
        call_ensures(pipe::clear_clock_recovery_interrupt, (recovery,), ()),
    ensures
        hw.run(added(old(tokens)@, final(tokens)@)) == hw,
        core.run(added(old(tokens)@, final(tokens)@)) == resumed(core, 0),
        hw.run(added(old(recovery)@, final(recovery)@)) == hw,
        core.run(added(old(recovery)@, final(recovery)@)) == (UsbCore {
            trc_int: false,
            recover_int: false,
            ..core
        }),
{
    effects::lemma_added(old(tokens)@, pipe::resume_ops(0));
    effects::lemma_added(old(recovery)@, pipe::recovery_ops());
    effects::lemma_resume_effect(hw, core, 0);
    hardware::lemma_run_elsewhere(hw, pipe::recovery_ops());
    laws_start::lemma_recovery(core);
}

/// The steps on the table: the place of a descriptor, handing it over, taking one or a pair
/// back, making it answer with STALL, and clearing all of them.
pub proof fn law_table_steps(
    ep: usize,
    is_in: bool,
    odd: bool,
    place: usize,
    index: usize,
    buffer: BufferId,
    len: u16,
    data1: bool,
    primed: &mut Vec<UsbOp>,
    released: &mut Vec<UsbOp>,
    pair: &mut Vec<UsbOp>,
    stalled: &mut Vec<UsbOp>,
    cleared: &mut Vec<UsbOp>,
    hw: UsbHardware,
)
    requires
        hw.wf(),
        ep < 16,
        index < 64,
        call_ensures(bd_index, (ep, is_in, odd), place),
        call_ensures(bd_prime, (primed, index, buffer, len, data1), ()),
        call_ensures(bd_release, (released, index), ()),
        call_ensures(bd_release_pair, (pair, ep, is_in), ()),
        call_ensures(bd_stall, (stalled, index), ()),
        call_ensures(clear_bdt, (cleared,), ()),
    ensures
        place == 4 * ep + 2 * member(is_in) + member(odd),
        hw.run(added(old(primed)@, final(primed)@)) == (UsbHardware {
            bdt: hw.bdt.update(
                index as int,
                Descriptor {
                    ctrl: owned_word(len as int, data1) as u32,
                    buffer: Some(buffer),
                },
            ),
            ..hw
        }),
        hw.run(added(old(released)@, final(released)@)) == (UsbHardware {
            bdt: hw.bdt.update(index as int, Descriptor { ctrl: 0, ..hw.bdt[index as int] }),
            ..hw
        }),
        hw.run(added(old(pair)@, final(pair)@)) == (UsbHardware {
            bdt: with_pair(hw.bdt, ep as int, is_in, 0),
            ..hw
        }),
        hw.run(added(old(stalled)@, final(stalled)@)) == (UsbHardware {
            bdt: hw.bdt.update(index as int, Descriptor { ctrl: 0x8c, ..hw.bdt[index as int] }),
            ..hw
        }),
        hw.run(added(old(cleared)@, final(cleared)@)) == (UsbHardware { bdt: empty_table(), ..hw }),
{
    let i = index as int;
    let core = arbitrary::<UsbCore>();
    effects::lemma_added(old(primed)@, bdt::prime_ops(i, buffer, len, data1));
    effects::lemma_prime_effect(hw, core, i, buffer, len, data1, 1);
    assert(bdt::prime_ops(i, buffer, len, data1) + pipe::resume_ops(1) =~= bdt::prime_ops(
        i,
        buffer,
        len,
        data1,
    ));
    let back = bdt::release_op(i);
    effects::lemma_added(old(released)@, seq![back]);
    assert(old(released)@.push(back) =~= old(released)@ + seq![back]);
    hardware::lemma_run_one(hw, back);
    effects::lemma_added(old(pair)@, bdt::release_pair_ops(ep as int, is_in));
    effects::lemma_release_effect(hw, core, ep as int, is_in);
    let stall = bdt::stall_ops(i);
    effects::lemma_added(old(stalled)@, stall);
    effects::lemma_stall_word();
    hardware::lemma_run_two(hw, stall[0], stall[1]);
    assert(stall =~= seq![stall[0], stall[1]]);
    let clear = bdt::clear_ops(64);
    effects::lemma_added(old(cleared)@, clear);
    hardware::lemma_run_clear(hw, 64);
    assert(hw.run(clear).bdt =~= empty_table());
}

/// Copies go between one buffer and the caller: the front of the buffer of the endpoint and
/// pair member that is named, and nothing else changes. New buffers hold zeros.
pub proof fn law_copies(
    buffers: EndpointBuffers,
    ep: usize,
    odd: bool,
    buf: &mut [u8],
    len: usize,
    target: &mut EndpointBuffers,
    data: &[u8],
    zeros: EndpointBuffers,
    is_in: bool,
)
    requires
        ep < 8,
        len <= 64,
        len <= old(buf)@.len(),
        data@.len() <= 64,
        call_ensures(EndpointBuffers::copy_from_out_buf, (&buffers, ep, odd, buf, len), ()),
        call_ensures(EndpointBuffers::copy_to_in_buf, (target, ep, odd, data), ()),
        call_ensures(EndpointBuffers::new, (), zeros),
    ensures
        final(buf)@ == slot(buffers, ep as int, false, odd).take(len as int) + old(buf)@.skip(
            len as int,
        ),
        slot(*final(target), ep as int, true, odd).take(data@.len() as int) == data@,
        others_keep(*old(target), *final(target), ep as int, odd),
        slot(zeros, ep as int, is_in, odd) == Seq::new(64, |i: int| 0u8),
{
    effects::lemma_stored(*old(target), *final(target), ep as int, odd, data@);
    let id = BufferId {
        ep,
        direction: if is_in {
            Direction::In
        } else {
            Direction::Out
        },
        odd,
    };
    assert(zeros.bytes(id) == slot(zeros, ep as int, is_in, odd));
}

/// An address is its index, and 128 more for IN.
pub proof fn law_addresses(
    index: usize,
    direction: Direction,
    made: EndpointAddress,
    addr: EndpointAddress,
    number: usize,
    towards: Direction,
    is_in: bool,
    is_out: bool,
)
    requires
        index < 128,
        call_ensures(EndpointAddress::from_parts, (index, direction), made),
        call_ensures(EndpointAddress::index, (&addr,), number),
        call_ensures(EndpointAddress::direction, (&addr,), towards),
        call_ensures(EndpointAddress::is_in, (&addr,), is_in),
        call_ensures(EndpointAddress::is_out, (&addr,), is_out),
    ensures
        made.raw == index + (if direction == Direction::In {
            128int
        } else {
            0
        }),
        number == index_of(addr),
        towards == (if sends(addr) {
            Direction::In
        } else {
            Direction::Out
        }),
        is_in == sends(addr),
        is_out == !sends(addr),
{
}

/// The packets of an endpoint are of the one kind and the other by turns, from the kind that
/// was set on, and its buffers are used by turns, from the one that was noted on; those of
/// the other endpoints are not touched.
pub proof fn law_turns(
    kinds: &mut EndpointMask,
    data1: bool,
    first: &mut EndpointMask,
    first_kind: bool,
    second: &mut EndpointMask,
    second_kind: bool,
    halves: &mut EndpointMask,
    odd: bool,
    used: &mut EndpointMask,
    used_odd: bool,
    next_odd: bool,
    ep: usize,
    other: int,
)
    requires
        ep < 8,
        0 <= other < 8,
        call_ensures(state::set_data1, (kinds, ep, data1), ()),
        *old(first) == *final(kinds),
        call_ensures(state::take_data1, (first, ep), first_kind),
        *old(second) == *final(first),
        call_ensures(state::take_data1, (second, ep), second_kind),
        call_ensures(state::set_odd, (halves, ep, odd), ()),
        *old(used) == *final(halves),
        call_ensures(state::take_next_odd, (used, ep), used_odd),
        call_ensures(state::get_odd, (&*final(used), ep), next_odd),
    ensures
        first_kind == data1,
        second_kind == !data1,
        used_odd == odd,
        next_odd == !odd,
        other != ep ==> final(second)@[other] == old(kinds)@[other],
        other != ep ==> final(used)@[other] == old(halves)@[other],
        final(second)@[ep as int] == data1,
{
    old(kinds).lemma_len();
    old(halves).lemma_len();
}

/// A write of the register of an endpoint reaches that register alone.
pub proof fn law_endpoint_register(ops: &mut Vec<UsbOp>, ep: usize, bits: u8, hw: UsbHardware)
    requires
        hw.wf(),
        ep < 16,
        call_ensures(ops::endpoint_write, (ops, ep, bits), ()),
    ensures
        hw.run(added(old(ops)@, final(ops)@)) == (UsbHardware {
            endpt: hw.endpt.update(ep as int, bits),
            ..hw
        }),
{
    let op = UsbOp::Write { reg: UsbReg::Endpt(ep), value: bits };
    assert(final(ops)@ =~= old(ops)@ + seq![op]);
    effects::lemma_added(old(ops)@, seq![op]);
    hardware::lemma_run_one(hw, op);
}

/// A state that is new, or reset, is fresh.
pub proof fn law_fresh_states(new: UsbFsState, reset: &mut UsbFsState)
    requires
        call_ensures(UsbFsState::new, (), new),
        call_ensures(state::reset_state, (reset,), ()),
    ensures
        new@ == (UsbModel { out_odd: Seq::new(8, |e: int| false), ..afresh(0) }),
        final(reset)@ == new@,
{
    assert(new@ =~= UsbModel { out_odd: Seq::new(8, |e: int| false), ..afresh(0) });
}

} // verus!
