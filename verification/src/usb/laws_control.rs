//! What the control pipe owes the host and the stack.
use super::buffers::EndpointBuffers;
use super::control;
use super::control::{ControlPipe, DataOutProgress, DataOutStage, SendStage};
use super::effects;
use super::effects::{
    added, all_keep, awaiting_setup, kept, member, others_keep, packet_awaited, packet_sent,
    resumed, room_for, slot, with_in, with_out, with_pair, with_setup,
};
use super::hardware;
use super::hardware::{UsbCore, UsbHardware};
use super::interrupt;
use super::interrupt::{IrqInput, IrqNext, TokenStat};
use super::laws_interrupt;
use super::laws_interrupt::{count_of, is_fetched, is_setup};
use super::ops::{UsbOp, ENDPT_EPSTALL};
use super::pipe;
use super::pipe::InStatus;
use super::state;
use super::state::{UsbFsState, UsbModel};
use super::types::EndpointError;
use crate::mask;
use crate::mask::bit_is_set;
use crate::progress::Progress;
use vstd::prelude::*;

verus! {

/// Whether a packet for the host can be waited for: its endpoint is open for IN packets.
pub open spec fn in_open(status: InStatus) -> bool {
    bit_is_set(status.endpt, 2)
}

/// Whether the controller still has the packet for the host.
pub open spec fn in_held(status: InStatus) -> bool {
    status.ctrl as int / 0x80 % 2 == 1
}

/// What a look at a packet for the host comes to.
pub proof fn lemma_in_look(status: InStatus, abort: bool)
    ensures
        pipe::in_outcome(abort, status) == (if abort || !in_open(status) {
            Some(Err::<(), EndpointError>(EndpointError::Disabled))
        } else if !in_held(status) {
            Some(Ok(()))
        } else {
            None
        }),
{
    mask::lemma_single_bits();
    let ctrl: u32 = status.ctrl;
    assert(ctrl & 0x80 != 0 <==> ctrl / 0x80 % 2 == 1) by (bit_vector);
}

/// A look for a SETUP packet finds one exactly if one waits, and gives the eight bytes of
/// the buffer that it came in. Both toggles of endpoint zero are then up, so that what
/// follows starts with DATA1, and nothing waits any more. Any other packet is dropped and a
/// SETUP packet awaited. In each case who looks is woken by endpoint zero.
pub proof fn law_setup_is_found(
    pipe: &mut ControlPipe,
    state: &mut UsbFsState,
    buffers: &EndpointBuffers,
    ops: &mut Vec<UsbOp>,
    packet: Option<[u8; 8]>,
    hw: UsbHardware,
    core: UsbCore,
)
    requires
        hw.wf(),
        call_ensures(ControlPipe::setup, (pipe, state, buffers, ops), packet),
    ensures
        ({
            let m = old(state)@;
            let queue = added(old(ops)@, final(ops)@);
            let waits = m.out_ready[0] != 0xffff;
            let found = waits && m.out_token[0] == 0x0d;
            let dropped = waits && m.out_token[0] != 0x0d;
            &&& kept(old(ops)@, final(ops)@)
            &&& queue.len() > 0 && queue[0] == UsbOp::RegisterOut(0)
            &&& packet is Some <==> found
            &&& found ==> packet->0@ == slot(*buffers, 0, false, m.out_done_odd[0]).take(8)
            &&& final(state)@ == (if found {
                UsbModel {
                    out_ready: m.out_ready.update(0, 0xffff),
                    in_data1: m.in_data1.update(0, true),
                    out_data1: m.out_data1.update(0, true),
                    ..m
                }
            } else if dropped {
                awaiting_setup(m)
            } else {
                m
            })
            &&& hw.run(queue) == (if dropped {
                UsbHardware { bdt: with_setup(hw.bdt, m.out_odd[0]), ..hw }
            } else {
                hw
            })
            &&& core.run(queue) == (if dropped {
                resumed(core, 0)
            } else {
                core
            })
            &&& *final(pipe) == *old(pipe)
        }),
{
    let m = state@;
    state::law_state_is_sized(*state);
    let first = seq![UsbOp::RegisterOut(0)];
    let rest = m.setup_ops();
    hardware::lemma_run_one(hw, first[0]);
    hardware::lemma_core_beside(core, first);
    effects::lemma_added(old(ops)@, first);
    effects::lemma_added(old(ops)@, first + rest);
    hardware::lemma_run_concat(hw, first, rest);
    hardware::lemma_core_concat(core, first, rest);
    effects::lemma_setup_effect(hw, core, m);
    assert(m.setup_primed() =~= awaiting_setup(m));
    assert(m.out_dropped(0).with_in_data1(0, true).with_out_data1(0, true) =~= UsbModel {
        out_ready: m.out_ready.update(0, 0xffff),
        in_data1: m.in_data1.update(0, true),
        out_data1: m.out_data1.update(0, true),
        ..m
    });
}

/// The queue that accepts a request.
proof fn lemma_accept_effect(hw: UsbHardware, core: UsbCore, m: UsbModel)
    requires
        hw.wf(),
        m.sized(),
    ensures
        hw.run(m.status_ops()) == (UsbHardware {
            bdt: with_setup(with_in(hw.bdt, 0, m.in_odd[0], 0, m.in_data1[0]), m.out_odd[0]),
            ..hw
        }),
        core.run(m.status_ops()) == resumed(core, 0),
        m.status_started() == awaiting_setup(packet_sent(m, 0)),
{
    let first = m.in_ops(0, 0);
    let rest = m.in_started(0).setup_ops();
    effects::lemma_in_effect(hw, core, m, 0, 0);
    effects::lemma_setup_effect(hw.run(first), core.run(first), m.in_started(0));
    hardware::lemma_run_concat(hw, first, rest);
    hardware::lemma_core_concat(core, first, rest);
    assert(m.status_started() =~= awaiting_setup(packet_sent(m, 0)));
}

/// Accepting a request hands the host an empty packet, of the kind that the IN toggle of
/// endpoint zero says, and leaves the endpoint waiting for a SETUP packet. The step after
/// it ends when the controller is through with the packet or the endpoint is closed, and
/// asks to be woken till then. No buffer changes.
pub proof fn law_accept(
    pipe: &mut ControlPipe,
    state: &mut UsbFsState,
    buffers: &mut EndpointBuffers,
    ops: &mut Vec<UsbOp>,
    stage: SendStage,
    status: InStatus,
    progress: Progress<SendStage, ()>,
    hw: UsbHardware,
    core: UsbCore,
)
    requires
        hw.wf(),
        call_ensures(ControlPipe::accept, (pipe, state, buffers, ops, stage, status), progress),
    ensures
        accept_step(
            stage,
            status,
            progress,
            old(state)@,
            final(state)@,
            old(ops)@,
            final(ops)@,
            hw,
            core,
        ),
        all_keep(*old(buffers), *final(buffers)),
        *final(pipe) == *old(pipe),
{
    let m = state@;
    state::law_state_is_sized(*state);
    lemma_accept_step(
        stage,
        status,
        progress,
        m,
        final(state)@,
        *old(buffers),
        *final(buffers),
        old(ops)@,
        final(ops)@,
        hw,
        core,
    );
}

/// What one step of accepting a request does.
pub open spec fn accept_step(
    stage: SendStage,
    status: InStatus,
    progress: Progress<SendStage, ()>,
    m: UsbModel,
    after: UsbModel,
    ops: Seq<UsbOp>,
    ops_after: Seq<UsbOp>,
    hw: UsbHardware,
    core: UsbCore,
) -> bool {
    let queue = added(ops, ops_after);
    &&& kept(ops, ops_after)
    &&& match stage {
        SendStage::Start => {
            &&& progress == Progress::<SendStage, ()>::Again(SendStage::Sending)
            &&& after == awaiting_setup(packet_sent(m, 0))
            &&& hw.run(queue) == UsbHardware {
                bdt: with_setup(with_in(hw.bdt, 0, m.in_odd[0], 0, m.in_data1[0]), m.out_odd[0]),
                ..hw
            }
            &&& core.run(queue) == resumed(core, 0)
        },
        SendStage::Sending => {
            let over = !in_open(status) || !in_held(status);
            &&& progress == (if over {
                Progress::<SendStage, ()>::Ready(())
            } else {
                Progress::<SendStage, ()>::Wait(SendStage::Sending)
            })
            &&& after == m
            &&& queue == (if over {
                Seq::<UsbOp>::empty()
            } else {
                seq![UsbOp::RegisterIn(0)]
            })
        },
    }
}

/// The step from what is known of it.
proof fn lemma_accept_step(
    stage: SendStage,
    status: InStatus,
    progress: Progress<SendStage, ()>,
    m: UsbModel,
    after: UsbModel,
    buffers: EndpointBuffers,
    buffers_after: EndpointBuffers,
    ops: Seq<UsbOp>,
    ops_after: Seq<UsbOp>,
    hw: UsbHardware,
    core: UsbCore,
)
    requires
        hw.wf(),
        m.sized(),
        control::accepted(
            stage,
            status,
            progress,
            m,
            after,
            buffers,
            buffers_after,
            ops,
            ops_after,
        ),
    ensures
        accept_step(stage, status, progress, m, after, ops, ops_after, hw, core),
        all_keep(buffers, buffers_after),
{
    effects::lemma_all_keep(buffers, buffers_after);
    match stage {
        SendStage::Start => {
            lemma_accept_effect(hw, core, m);
            effects::lemma_added(ops, m.status_ops());
        },
        SendStage::Sending => {
            lemma_in_look(status, false);
            effects::lemma_added(ops, pipe::in_wait_ops(0, false, status));
        },
    }
}

/// Accepting a request for a new address notes the address, in the seven low bits, with
/// bit 7 up, and is otherwise an acceptance; the later step notes nothing.
pub proof fn law_accept_set_address(
    pipe: &mut ControlPipe,
    state: &mut UsbFsState,
    buffers: &mut EndpointBuffers,
    ops: &mut Vec<UsbOp>,
    stage: SendStage,
    addr: u8,
    status: InStatus,
    progress: Progress<SendStage, ()>,
    hw: UsbHardware,
    core: UsbCore,
)
    requires
        hw.wf(),
        call_ensures(
            ControlPipe::accept_set_address,
            (pipe, state, buffers, ops, stage, addr, status),
            progress,
        ),
    ensures
        accept_step(
            stage,
            status,
            progress,
            if stage == SendStage::Start {
                UsbModel {
                    pending_addr: (0x80 + addr as int % 0x80) as u8,
                    ..old(state)@
                }
            } else {
                old(state)@
            },
            final(state)@,
            old(ops)@,
            final(ops)@,
            hw,
            core,
        ),
        all_keep(*old(buffers), *final(buffers)),
        *final(pipe) == *old(pipe),
{
    let m = state@;
    state::law_state_is_sized(*state);
    assert(0x80 | (addr & 0x7f) == 0x80 + addr % 0x80) by (bit_vector);
    let begun = if stage == SendStage::Start {
        m.address_noted(addr)
    } else {
        m
    };
    lemma_accept_step(
        stage,
        status,
        progress,
        begun,
        final(state)@,
        *old(buffers),
        *final(buffers),
        old(ops)@,
        final(ops)@,
        hw,
        core,
    );
}

/// The packet that accepts a request is an empty DATA1 packet: once a SETUP packet came in
/// and was given out, the step that accepts leaves the control word 0xc8 in the descriptor
/// that it hands over.
pub proof fn law_status_packet_is_data1(
    state: &mut UsbFsState,
    ops: &mut Vec<UsbOp>,
    istat: u8,
    stat: TokenStat,
    ctrl: u32,
    next: IrqNext,
    pipe: &mut ControlPipe,
    found: &mut UsbFsState,
    buffers: &EndpointBuffers,
    found_ops: &mut Vec<UsbOp>,
    packet: Option<[u8; 8]>,
    accepting: &mut ControlPipe,
    answered: &mut UsbFsState,
    answer_buffers: &mut EndpointBuffers,
    answer_ops: &mut Vec<UsbOp>,
    status: InStatus,
    progress: Progress<SendStage, ()>,
    hw: UsbHardware,
)
    requires
        hw.wf(),
        is_setup(stat, ctrl),
        count_of(ctrl) != 0xffff,
        !bit_is_set(istat, 7),
        call_ensures(
            interrupt::on_interrupt,
            (state, ops, IrqInput::Descriptor { istat, stat, ctrl }),
            next,
        ),
        *old(found) == *final(state),
        call_ensures(ControlPipe::setup, (pipe, found, buffers, found_ops), packet),
        *old(answered) == *final(found),
        call_ensures(
            ControlPipe::accept,
            (accepting, answered, answer_buffers, answer_ops, SendStage::Start, status),
            progress,
        ),
    ensures
        packet is Some,
        hw.run(added(old(answer_ops)@, final(answer_ops)@)).bdt[2 + member(
            old(answered)@.in_odd[0],
        )].ctrl == 0xc8,
        final(answered)@.in_active_odd[0] == old(answered)@.in_odd[0],
{
    let core = arbitrary::<UsbCore>();
    state::law_state_is_sized(*state);
    state::law_state_is_sized(*answered);
    laws_interrupt::law_token_stage(state, ops, istat, stat, ctrl, next);
    law_setup_is_found(pipe, found, buffers, found_ops, packet, hw, core);
    law_accept(
        accepting,
        answered,
        answer_buffers,
        answer_ops,
        SendStage::Start,
        status,
        progress,
        hw,
        core,
    );
}

/// The same holds of a request for a new address: an empty DATA1 packet. The address is
/// taken over by the next packet that the host fetches from endpoint zero, and not before.
pub proof fn law_address_packet_is_data1(
    state: &mut UsbFsState,
    ops: &mut Vec<UsbOp>,
    istat: u8,
    stat: TokenStat,
    ctrl: u32,
    next: IrqNext,
    pipe: &mut ControlPipe,
    found: &mut UsbFsState,
    buffers: &EndpointBuffers,
    found_ops: &mut Vec<UsbOp>,
    packet: Option<[u8; 8]>,
    accepting: &mut ControlPipe,
    answered: &mut UsbFsState,
    answer_buffers: &mut EndpointBuffers,
    answer_ops: &mut Vec<UsbOp>,
    addr: u8,
    status: InStatus,
    progress: Progress<SendStage, ()>,
    hw: UsbHardware,
)
    requires
        hw.wf(),
        is_setup(stat, ctrl),
        count_of(ctrl) != 0xffff,
        !bit_is_set(istat, 7),
        call_ensures(
            interrupt::on_interrupt,
            (state, ops, IrqInput::Descriptor { istat, stat, ctrl }),
            next,
        ),
        *old(found) == *final(state),
        call_ensures(ControlPipe::setup, (pipe, found, buffers, found_ops), packet),
        *old(answered) == *final(found),
        call_ensures(
            ControlPipe::accept_set_address,
            (accepting, answered, answer_buffers, answer_ops, SendStage::Start, addr, status),
            progress,
        ),
    ensures
        packet is Some,
        hw.run(added(old(answer_ops)@, final(answer_ops)@)).bdt[2 + member(
            old(answered)@.in_odd[0],
        )].ctrl == 0xc8,
        hw.run(added(old(answer_ops)@, final(answer_ops)@)).addr == hw.addr,
        final(answered)@.in_active_odd[0] == old(answered)@.in_odd[0],
{
    let core = arbitrary::<UsbCore>();
    state::law_state_is_sized(*state);
    state::law_state_is_sized(*answered);
    laws_interrupt::law_token_stage(state, ops, istat, stat, ctrl, next);
    law_setup_is_found(pipe, found, buffers, found_ops, packet, hw, core);
    law_accept_set_address(
        accepting,
        answered,
        answer_buffers,
        answer_ops,
        SendStage::Start,
        addr,
        status,
        progress,
        hw,
        core,
    );
}

/// Once a request for a new address is accepted, the next packet that the host fetches from
/// endpoint zero makes the controller take that address over, and the one after it changes
/// nothing.
pub proof fn law_address_after_the_packet(
    pipe: &mut ControlPipe,
    state: &mut UsbFsState,
    buffers: &mut EndpointBuffers,
    ops: &mut Vec<UsbOp>,
    addr: u8,
    status: InStatus,
    progress: Progress<SendStage, ()>,
    fetched: &mut UsbFsState,
    fetched_ops: &mut Vec<UsbOp>,
    istat: u8,
    stat: TokenStat,
    ctrl: u32,
    next: IrqNext,
    hw: UsbHardware,
)
    requires
        hw.wf(),
        call_ensures(
            ControlPipe::accept_set_address,
            (pipe, state, buffers, ops, SendStage::Start, addr, status),
            progress,
        ),
        *old(fetched) == *final(state),
        is_fetched(stat, ctrl),
        call_ensures(
            interrupt::on_interrupt,
            (fetched, fetched_ops, IrqInput::Descriptor { istat, stat, ctrl }),
            next,
        ),
    ensures
        hw.run(added(old(fetched_ops)@, final(fetched_ops)@)).addr == addr as int % 0x80,
        final(fetched).pending_addr == 0,
{
    let core = arbitrary::<UsbCore>();
    state::law_state_is_sized(*state);
    law_accept_set_address(
        pipe,
        state,
        buffers,
        ops,
        SendStage::Start,
        addr,
        status,
        progress,
        hw,
        core,
    );
    let noted: u8 = (0x80 + addr as int % 0x80) as u8;
    assert(noted >= 0x80);
    mask::lemma_single_bits();
    assert(noted & 0x80 != 0) by (bit_vector)
        requires
            noted >= 0x80,
    ;
    laws_interrupt::law_token_stage(fetched, fetched_ops, istat, stat, ctrl, next);
    laws_interrupt::law_token_stage_hardware(fetched, fetched_ops, istat, stat, ctrl, next, hw);
}

/// The first step of a packet of a control read: a packet longer than a buffer is refused
/// and nothing handed over; any other one is stored and handed over with its length. The
/// first packet of a read is a DATA1 packet, and a later one the other kind than the one
/// before.
pub proof fn law_data_in_starts(
    pipe: &mut ControlPipe,
    state: &mut UsbFsState,
    buffers: &mut EndpointBuffers,
    ops: &mut Vec<UsbOp>,
    data: &[u8],
    first: bool,
    last: bool,
    status: InStatus,
    progress: Progress<SendStage, Result<(), EndpointError>>,
    hw: UsbHardware,
    core: UsbCore,
)
    requires
        hw.wf(),
        call_ensures(
            ControlPipe::data_in,
            (pipe, state, buffers, ops, SendStage::Start, data, first, last, status),
            progress,
        ),
    ensures
        ({
            let m = old(state)@;
            let queue = added(old(ops)@, final(ops)@);
            let data1 = first || m.in_data1[0];
            let begun = UsbModel { in_data1: m.in_data1.update(0, data1), ..m };
            let odd = m.in_odd[0];
            &&& kept(old(ops)@, final(ops)@)
            &&& *final(pipe) == *old(pipe)
            &&& if data@.len() > 64 {
                &&& progress == Progress::<SendStage, Result<(), EndpointError>>::Ready(
                    Err(EndpointError::BufferOverflow),
                )
                &&& final(state)@ == begun
                &&& queue == Seq::<UsbOp>::empty()
                &&& *final(buffers) == *old(buffers)
            } else {
                &&& progress == Progress::<SendStage, Result<(), EndpointError>>::Again(
                    SendStage::Sending,
                )
                &&& final(state)@ == packet_sent(begun, 0)
                &&& hw.run(queue) == UsbHardware {
                    bdt: with_in(hw.bdt, 0, odd, data@.len() as int, data1),
                    ..hw
                }
                &&& core.run(queue) == resumed(core, 0)
                &&& slot(*final(buffers), 0, true, odd).take(data@.len() as int) == data@
                &&& others_keep(*old(buffers), *final(buffers), 0, odd)
            }
        }),
{
    let m = state@;
    state::law_state_is_sized(*state);
    let begun = if first {
        m.with_in_data1(0, true)
    } else {
        m
    };
    assert(begun =~= UsbModel {
        in_data1: m.in_data1.update(0, first || m.in_data1[0]),
        ..m
    });
    effects::lemma_added(old(ops)@, begun.in_ops(0, data@.len() as int));
    effects::lemma_added(old(ops)@, seq![]);
    assert(old(ops)@ + Seq::<UsbOp>::empty() =~= old(ops)@);
    if data@.len() <= 64 {
        effects::lemma_in_effect(hw, core, begun, 0, data@.len() as int);
        effects::lemma_stored(*old(buffers), *final(buffers), 0, m.in_odd[0], data@);
        assert(begun.in_started(0) =~= packet_sent(begun, 0));
    }
}

/// The later step of a packet of a control read: it fails if a new packet waits at endpoint
/// zero or the endpoint is closed, succeeds when the controller is through with the packet,
/// and asks to be woken till then. After the last packet the pipe waits for a DATA1 packet
/// of the host, of up to the packet size.
pub proof fn law_data_in_goes_on(
    pipe: &mut ControlPipe,
    state: &mut UsbFsState,
    buffers: &mut EndpointBuffers,
    ops: &mut Vec<UsbOp>,
    data: &[u8],
    first: bool,
    last: bool,
    status: InStatus,
    progress: Progress<SendStage, Result<(), EndpointError>>,
    hw: UsbHardware,
    core: UsbCore,
)
    requires
        hw.wf(),
        call_ensures(
            ControlPipe::data_in,
            (pipe, state, buffers, ops, SendStage::Sending, data, first, last, status),
            progress,
        ),
    ensures
        ({
            let m = old(state)@;
            let queue = added(old(ops)@, final(ops)@);
            let failed = m.out_ready[0] != 0xffff || !in_open(status);
            let through = !failed && !in_held(status);
            &&& kept(old(ops)@, final(ops)@)
            &&& *final(pipe) == *old(pipe)
            &&& *final(buffers) == *old(buffers)
            &&& progress == (if failed {
                Progress::<SendStage, Result<(), EndpointError>>::Ready(
                    Err(EndpointError::Disabled),
                )
            } else if through {
                Progress::<SendStage, Result<(), EndpointError>>::Ready(Ok(()))
            } else {
                Progress::<SendStage, Result<(), EndpointError>>::Wait(SendStage::Sending)
            })
            &&& if through && last {
                &&& final(state)@ == packet_awaited(m, 0, true)
                &&& hw.run(queue) == UsbHardware {
                    bdt: with_out(
                        hw.bdt,
                        0,
                        m.out_odd[0],
                        room_for(old(pipe).packet_size()),
                        true,
                    ),
                    ..hw
                }
                &&& core.run(queue) == resumed(core, 0)
            } else {
                &&& final(state)@ == m
                &&& queue == (if failed || through {
                    Seq::<UsbOp>::empty()
                } else {
                    seq![UsbOp::RegisterIn(0)]
                })
            }
        }),
{
    let m = state@;
    state::law_state_is_sized(*state);
    lemma_in_look(status, m.zero_waits());
    let begun = m.with_out_data1(0, true);
    effects::lemma_out_effect(hw, core, begun, 0, pipe.packet_size());
    effects::lemma_added(old(ops)@, begun.out_ops(0, pipe.packet_size()));
    effects::lemma_added(old(ops)@, pipe::in_wait_ops(0, m.zero_waits(), status));
    assert(begun.out_primed(0) =~= packet_awaited(m, 0, true));
}

/// The first step of a packet of a control write: the first packet of a write is a DATA1
/// packet, and a buffer is handed over for it unless a packet waits already; a later packet
/// needs nothing.
pub proof fn law_data_out_starts(
    pipe: &mut ControlPipe,
    state: &mut UsbFsState,
    buffers: &mut EndpointBuffers,
    ops: &mut Vec<UsbOp>,
    buf: &mut [u8],
    first: bool,
    last: bool,
    status: InStatus,
    progress: DataOutProgress,
    hw: UsbHardware,
    core: UsbCore,
)
    requires
        hw.wf(),
        call_ensures(
            ControlPipe::data_out,
            (pipe, state, buffers, ops, DataOutStage::Start, buf, first, last, status),
            progress,
        ),
    ensures
        ({
            let m = old(state)@;
            let queue = added(old(ops)@, final(ops)@);
            let waits = m.out_ready[0] != 0xffff;
            &&& kept(old(ops)@, final(ops)@)
            &&& *final(pipe) == *old(pipe)
            &&& *final(buffers) == *old(buffers)
            &&& final(buf)@ == old(buf)@
            &&& progress == DataOutProgress::Again(DataOutStage::Receive)
            &&& if first && !waits {
                &&& final(state)@ == packet_awaited(m, 0, true)
                &&& hw.run(queue) == UsbHardware {
                    bdt: with_out(
                        hw.bdt,
                        0,
                        m.out_odd[0],
                        room_for(old(pipe).packet_size()),
                        true,
                    ),
                    ..hw
                }
                &&& core.run(queue) == resumed(core, 0)
            } else {
                &&& final(state)@ == (if first {
                    UsbModel { out_data1: m.out_data1.update(0, true), ..m }
                } else {
                    m
                })
                &&& queue == Seq::<UsbOp>::empty()
            }
        }),
{
    let m = state@;
    state::law_state_is_sized(*state);
    let begun = m.with_out_data1(0, true);
    effects::lemma_out_effect(hw, core, begun, 0, pipe.packet_size());
    effects::lemma_added(old(ops)@, m.data_out_begin_ops(first, pipe.packet_size()));
    assert(begun.out_primed(0) =~= packet_awaited(m, 0, true));
}

/// What a look for a packet of a control write comes to. Without a packet it waits, woken
/// by endpoint zero. A SETUP packet ends the write and stays where it is. A packet longer
/// than `buf` is refused and the next one awaited. Any other packet is copied to the front
/// of `buf`, from the buffer that it came in; then the next one is awaited, or, after the
/// last one, the host gets an empty packet and a SETUP packet is awaited.
pub proof fn law_data_out_receives(
    pipe: &mut ControlPipe,
    state: &mut UsbFsState,
    buffers: &mut EndpointBuffers,
    ops: &mut Vec<UsbOp>,
    buf: &mut [u8],
    first: bool,
    last: bool,
    status: InStatus,
    progress: DataOutProgress,
    hw: UsbHardware,
    core: UsbCore,
)
    requires
        hw.wf(),
        call_ensures(
            ControlPipe::data_out,
            (pipe, state, buffers, ops, DataOutStage::Receive, buf, first, last, status),
            progress,
        ),
    ensures
        ({
            let m = old(state)@;
            let queue = added(old(ops)@, final(ops)@);
            let waits = m.out_ready[0] != 0xffff;
            let setup = m.out_token[0] == 0x0d;
            let count = m.out_ready[0] as int;
            let fits = count <= old(buf)@.len();
            &&& kept(old(ops)@, final(ops)@)
            &&& *final(pipe) == *old(pipe)
            &&& all_keep(*old(buffers), *final(buffers))
            &&& progress == (if !waits {
                DataOutProgress::Wait(DataOutStage::Receive)
            } else if setup {
                DataOutProgress::Ready(Err(EndpointError::Disabled))
            } else if !fits {
                DataOutProgress::Ready(Err(EndpointError::BufferOverflow))
            } else if last {
                DataOutProgress::Again(DataOutStage::Status(count as usize))
            } else {
                DataOutProgress::Ready(Ok(count as usize))
            })
            &&& final(buf)@ == (if waits && !setup && fits {
                slot(*old(buffers), 0, false, m.out_done_odd[0]).take(count) + old(buf)@.skip(count)
            } else {
                old(buf)@
            })
            &&& if !waits || setup {
                &&& final(state)@ == m
                &&& queue == (if waits {
                    Seq::<UsbOp>::empty()
                } else {
                    seq![UsbOp::RegisterOut(0)]
                })
            } else if fits && last {
                &&& final(state)@ == awaiting_setup(packet_sent(m, 0))
                &&& hw.run(queue) == UsbHardware {
                    bdt: with_setup(
                        with_in(hw.bdt, 0, m.in_odd[0], 0, m.in_data1[0]),
                        m.out_odd[0],
                    ),
                    ..hw
                }
                &&& core.run(queue) == resumed(core, 0)
            } else {
                &&& final(state)@ == packet_awaited(m, 0, m.out_data1[0])
                &&& hw.run(queue) == UsbHardware {
                    bdt: with_out(
                        hw.bdt,
                        0,
                        m.out_odd[0],
                        room_for(old(pipe).packet_size()),
                        m.out_data1[0],
                    ),
                    ..hw
                }
                &&& core.run(queue) == resumed(core, 0)
            }
        }),
{
    let m = state@;
    let room = old(buf)@.len() as int;
    state::law_state_is_sized(*state);
    effects::lemma_all_keep(*old(buffers), *final(buffers));
    effects::lemma_out_effect(hw, core, m, 0, pipe.packet_size());
    lemma_accept_effect(hw, core, m);
    effects::lemma_added(old(ops)@, m.data_out_receive_ops(room, last, pipe.packet_size()));
    assert(m.out_primed(0) =~= packet_awaited(m, 0, m.out_data1[0]));
    assert(m.out_dropped(0).status_started() =~= awaiting_setup(packet_sent(m, 0)));
}

/// The end of a control write: the length that was received is given out once the host has
/// the empty packet; the write fails if a new packet waits at endpoint zero or the endpoint
/// is closed.
pub proof fn law_data_out_ends(
    pipe: &mut ControlPipe,
    state: &mut UsbFsState,
    buffers: &mut EndpointBuffers,
    ops: &mut Vec<UsbOp>,
    len: usize,
    buf: &mut [u8],
    first: bool,
    last: bool,
    status: InStatus,
    progress: DataOutProgress,
)
    requires
        call_ensures(
            ControlPipe::data_out,
            (pipe, state, buffers, ops, DataOutStage::Status(len), buf, first, last, status),
            progress,
        ),
    ensures
        ({
            let m = old(state)@;
            let failed = m.out_ready[0] != 0xffff || !in_open(status);
            &&& kept(old(ops)@, final(ops)@)
            &&& *final(pipe) == *old(pipe)
            &&& *final(buffers) == *old(buffers)
            &&& final(buf)@ == old(buf)@
            &&& final(state)@ == m
            &&& progress == (if failed {
                DataOutProgress::Ready(Err(EndpointError::Disabled))
            } else if !in_held(status) {
                DataOutProgress::Ready(Ok(len))
            } else {
                DataOutProgress::Wait(DataOutStage::Status(len))
            })
            &&& added(old(ops)@, final(ops)@) == (if failed || !in_held(status) {
                Seq::<UsbOp>::empty()
            } else {
                seq![UsbOp::RegisterIn(0)]
            })
        }),
{
    lemma_in_look(status, state@.zero_waits());
    effects::lemma_added(old(ops)@, pipe::in_wait_ops(0, state@.zero_waits(), status));
}

/// Rejecting a request makes all four buffers of endpoint zero, and the endpoint itself,
/// answer with STALL, and lets the controller go on with tokens; nothing else changes.
pub proof fn law_reject(
    pipe: &mut ControlPipe,
    ops: &mut Vec<UsbOp>,
    hw: UsbHardware,
    core: UsbCore,
)
    requires
        hw.wf(),
        call_ensures(ControlPipe::reject, (pipe, ops), ()),
    ensures
        ({
            let queue = added(old(ops)@, final(ops)@);
            &&& kept(old(ops)@, final(ops)@)
            &&& hw.run(queue) == UsbHardware {
                endpt: hw.endpt.update(0, hw.endpt[0] | 0x02),
                bdt: with_pair(with_pair(hw.bdt, 0, false, 0x8c), 0, true, 0x8c),
                ..hw
            }
            &&& core.run(queue) == resumed(core, 0)
            &&& *final(pipe) == *old(pipe)
        }),
{
    lemma_reject_effect(hw, core);
    effects::lemma_added(old(ops)@, control::reject_ops());
}

/// The queue that rejects a request.
proof fn lemma_reject_effect(hw: UsbHardware, core: UsbCore)
    requires
        hw.wf(),
    ensures
        hw.run(control::reject_ops()) == (UsbHardware {
            endpt: hw.endpt.update(0, hw.endpt[0] | 0x02),
            bdt: with_pair(with_pair(hw.bdt, 0, false, 0x8c), 0, true, 0x8c),
            ..hw
        }),
        core.run(control::reject_ops()) == resumed(core, 0),
{
    let outs = super::bdt::stall_ops(0) + super::bdt::stall_ops(1);
    let ins = super::bdt::stall_ops(2) + super::bdt::stall_ops(3);
    let set = seq![UsbOp::ModifyEndpt { ep: 0, clear: 0, set: ENDPT_EPSTALL }];
    let resume = pipe::resume_ops(0);
    assert(control::reject_ops() =~= outs + ins + set + resume);
    effects::lemma_stall_effect(hw, core, 0, false);
    let h1 = hw.run(outs);
    hardware::lemma_run_concat(hw, outs, ins);
    hardware::lemma_core_concat(core, outs, ins);
    effects::lemma_stall_effect(h1, core, 0, true);
    let h2 = h1.run(ins);
    hardware::lemma_run_concat(hw, outs + ins, set);
    hardware::lemma_core_concat(core, outs + ins, set);
    hardware::lemma_run_one(h2, set[0]);
    hardware::lemma_core_beside(core, set);
    hardware::lemma_run_concat(hw, outs + ins + set, resume);
    hardware::lemma_core_concat(core, outs + ins + set, resume);
    effects::lemma_resume_effect(h2.run(set), core, 0);
    mask::lemma_modified_one_way(hw.endpt[0], 0x02);
}

} // verus!
