//! What a queue leaves behind in the controller, told in the terms of its registers and
//! its table alone.
use super::bdt;
use super::buffers::EndpointBuffers;
use super::hardware;
use super::hardware::{owned_word, Descriptor, UsbCore, UsbHardware};
use super::ops::{BufferId, UsbOp};
use super::pipe;
use super::state::UsbModel;
use super::types::{Direction, EP_COUNT, HW_EP_COUNT};
use vstd::prelude::*;

verus! {

/// What a call added to a queue.
pub open spec fn added(before: Seq<UsbOp>, after: Seq<UsbOp>) -> Seq<UsbOp> {
    after.skip(before.len() as int)
}

/// Whether a queue still begins with what it held.
pub open spec fn kept(before: Seq<UsbOp>, after: Seq<UsbOp>) -> bool {
    before.len() <= after.len() && after.take(before.len() as int) == before
}

/// A queue that was made longer still begins with what it held.
pub proof fn lemma_added(before: Seq<UsbOp>, more: Seq<UsbOp>)
    ensures
        kept(before, before + more),
        added(before, before + more) == more,
{
    assert(added(before, before + more) =~= more);
    assert((before + more).take(before.len() as int) =~= before);
}

/// A table of descriptors that nothing was handed over in.
pub open spec fn empty_table() -> Seq<Descriptor> {
    Seq::new(64, |i: int| Descriptor { ctrl: 0, buffer: None })
}

/// One for the odd buffer of a pair.
pub open spec fn member(odd: bool) -> int {
    if odd {
        1
    } else {
        0
    }
}

/// The smaller one of a packet size and the 64 bytes of a buffer.
pub open spec fn room_for(size: u16) -> int {
    if size < 64 {
        size as int
    } else {
        64
    }
}

/// The table once the controller has a buffer of OUT endpoint `ep` to fill with up to
/// `room` bytes.
pub open spec fn with_out(table: Seq<Descriptor>, ep: int, odd: bool, room: int, data1: bool) -> Seq<
    Descriptor,
> {
    table.update(
        4 * ep + member(odd),
        Descriptor {
            ctrl: owned_word(room, data1) as u32,
            buffer: Some(BufferId { ep: ep as usize, direction: Direction::Out, odd }),
        },
    )
}

/// The table once the controller has a packet of `len` bytes of IN endpoint `ep` to send.
pub open spec fn with_in(table: Seq<Descriptor>, ep: int, odd: bool, len: int, data1: bool) -> Seq<
    Descriptor,
> {
    table.update(
        4 * ep + 2 + member(odd),
        Descriptor {
            ctrl: owned_word(len, data1) as u32,
            buffer: Some(BufferId { ep: ep as usize, direction: Direction::In, odd }),
        },
    )
}

/// The table once endpoint zero waits for a SETUP packet: eight bytes, DATA0.
pub open spec fn with_setup(table: Seq<Descriptor>, odd: bool) -> Seq<Descriptor> {
    with_out(table, 0, odd, 8, false)
}

/// The table with the control words of both buffers of an endpoint and direction given.
pub open spec fn with_pair(table: Seq<Descriptor>, ep: int, is_in: bool, ctrl: u32) -> Seq<
    Descriptor,
> {
    let first = 4 * ep + 2 * member(is_in);
    table.update(first, Descriptor { ctrl, ..table[first] }).update(
        first + 1,
        Descriptor { ctrl, ..table[first + 1] },
    )
}

/// The controller once it goes on with tokens of endpoint zero, if `ep` is zero.
pub open spec fn resumed(core: UsbCore, ep: int) -> UsbCore {
    if ep == 0 {
        UsbCore { token_busy: false, ..core }
    } else {
        core
    }
}

/// Letting the controller go on with tokens.
pub proof fn lemma_resume_effect(hw: UsbHardware, core: UsbCore, ep: int)
    ensures
        hw.run(pipe::resume_ops(ep)) == hw,
        core.run(pipe::resume_ops(ep)) == resumed(core, ep),
{
    lemma_resume_core(core, ep);
    if ep == 0 {
        hardware::lemma_run_one(hw, UsbOp::SetTokenBusy(false));
    }
}

/// Handing a buffer over.
pub proof fn lemma_prime_effect(
    hw: UsbHardware,
    core: UsbCore,
    index: int,
    buffer: BufferId,
    len: u16,
    data1: bool,
    ep: int,
)
    requires
        hw.wf(),
        0 <= index < 64,
    ensures
        ({
            let queue = bdt::prime_ops(index, buffer, len, data1) + pipe::resume_ops(ep);
            &&& hw.run(queue) == (UsbHardware {
                bdt: hw.bdt.update(
                    index,
                    Descriptor {
                        ctrl: owned_word(len as int, data1) as u32,
                        buffer: Some(buffer),
                    },
                ),
                ..hw
            })
            &&& core.run(queue) == resumed(core, ep)
            &&& hw.run(queue).wf()
        }),
{
    hardware::lemma_run_prime(hw, index, buffer, len, data1, ep);
    hardware::lemma_owned_word(len, data1);
    lemma_prime_core(core, index, buffer, len, data1, ep);
}

/// Letting the controller go on with tokens, seen from the controller as a whole.
pub proof fn lemma_resume_core(core: UsbCore, ep: int)
    ensures
        core.run(pipe::resume_ops(ep)) == resumed(core, ep),
{
    reveal(UsbCore::step);
    if ep == 0 {
        hardware::lemma_core_one(core, UsbOp::SetTokenBusy(false));
    } else {
        hardware::lemma_core_beside(core, seq![]);
    }
}

/// Handing a buffer over, seen from the controller as a whole.
pub proof fn lemma_prime_core(
    core: UsbCore,
    index: int,
    buffer: BufferId,
    len: u16,
    data1: bool,
    ep: int,
)
    ensures
        core.run(bdt::prime_ops(index, buffer, len, data1) + pipe::resume_ops(ep)) == resumed(
            core,
            ep,
        ),
{
    let prime = bdt::prime_ops(index, buffer, len, data1);
    hardware::lemma_core_concat(core, prime, pipe::resume_ops(ep));
    hardware::lemma_core_beside(core, prime);
    lemma_resume_core(core, ep);
}

/// Making endpoint zero ready for a SETUP packet, seen from the controller as a whole.
pub proof fn lemma_setup_core(core: UsbCore, m: UsbModel)
    ensures
        core.run(m.setup_ops()) == resumed(core, 0),
{
    let odd = m.out_odd[0];
    lemma_prime_core(
        core,
        bdt::descriptor(0, false, odd),
        BufferId { ep: 0, direction: Direction::Out, odd },
        8,
        false,
        0,
    );
}

/// Making endpoint zero ready for a SETUP packet.
pub proof fn lemma_setup_effect(hw: UsbHardware, core: UsbCore, m: UsbModel)
    requires
        hw.wf(),
    ensures
        hw.run(m.setup_ops()) == (UsbHardware { bdt: with_setup(hw.bdt, m.out_odd[0]), ..hw }),
        core.run(m.setup_ops()) == resumed(core, 0),
        hw.run(m.setup_ops()).wf(),
{
    lemma_prime_effect(
        hw,
        core,
        bdt::descriptor(0, false, m.out_odd[0]),
        BufferId { ep: 0, direction: Direction::Out, odd: m.out_odd[0] },
        8,
        false,
        0,
    );
}

/// Making an OUT endpoint ready for a packet.
pub proof fn lemma_out_effect(hw: UsbHardware, core: UsbCore, m: UsbModel, ep: int, size: u16)
    requires
        hw.wf(),
        0 <= ep < EP_COUNT,
    ensures
        hw.run(m.out_ops(ep, size)) == (UsbHardware {
            bdt: with_out(hw.bdt, ep, m.out_odd[ep], room_for(size), m.out_data1[ep]),
            ..hw
        }),
        core.run(m.out_ops(ep, size)) == resumed(core, ep),
        hw.run(m.out_ops(ep, size)).wf(),
{
    lemma_prime_effect(
        hw,
        core,
        bdt::descriptor(ep, false, m.out_odd[ep]),
        BufferId { ep: ep as usize, direction: Direction::Out, odd: m.out_odd[ep] },
        pipe::capped(size),
        m.out_data1[ep],
        ep,
    );
}

/// Sending a packet.
pub proof fn lemma_in_effect(hw: UsbHardware, core: UsbCore, m: UsbModel, ep: int, len: int)
    requires
        hw.wf(),
        0 <= ep < EP_COUNT,
        0 <= len <= 64,
    ensures
        hw.run(m.in_ops(ep, len)) == (UsbHardware {
            bdt: with_in(hw.bdt, ep, m.in_odd[ep], len, m.in_data1[ep]),
            ..hw
        }),
        core.run(m.in_ops(ep, len)) == resumed(core, ep),
        hw.run(m.in_ops(ep, len)).wf(),
{
    lemma_prime_effect(
        hw,
        core,
        bdt::descriptor(ep, true, m.in_odd[ep]),
        m.in_buffer(ep),
        len as u16,
        m.in_data1[ep],
        ep,
    );
}

/// Taking both buffers of an endpoint and direction back.
pub proof fn lemma_release_effect(hw: UsbHardware, core: UsbCore, ep: int, is_in: bool)
    requires
        hw.wf(),
        0 <= ep < HW_EP_COUNT,
    ensures
        hw.run(bdt::release_pair_ops(ep, is_in)) == (UsbHardware {
            bdt: with_pair(hw.bdt, ep, is_in, 0),
            ..hw
        }),
        core.run(bdt::release_pair_ops(ep, is_in)) == core,
        hw.run(bdt::release_pair_ops(ep, is_in)).wf(),
{
    let release = bdt::release_pair_ops(ep, is_in);
    hardware::lemma_run_two(hw, release[0], release[1]);
    assert(release =~= seq![release[0], release[1]]);
    assert(hw.run(release) =~= UsbHardware { bdt: with_pair(hw.bdt, ep, is_in, 0), ..hw });
    hardware::lemma_core_beside(core, release);
}

/// The control word that answers with STALL.
pub proof fn lemma_stall_word()
    ensures
        bdt::stall_ctrl() == 0x8c,
{
    assert(bdt::BD_OWN | bdt::BD_DTS | bdt::BD_STALL == 0x8cu32) by (bit_vector);
}

/// Making both buffers of an endpoint and direction answer with STALL.
pub proof fn lemma_stall_effect(hw: UsbHardware, core: UsbCore, ep: int, is_in: bool)
    requires
        hw.wf(),
        0 <= ep < HW_EP_COUNT,
    ensures
        ({
            let queue = bdt::stall_ops(bdt::descriptor(ep, is_in, false)) + bdt::stall_ops(
                bdt::descriptor(ep, is_in, true),
            );
            &&& hw.run(queue) == (UsbHardware { bdt: with_pair(hw.bdt, ep, is_in, 0x8c), ..hw })
            &&& core.run(queue) == core
            &&& hw.run(queue).wf()
        }),
{
    let even = bdt::stall_ops(bdt::descriptor(ep, is_in, false));
    let odd = bdt::stall_ops(bdt::descriptor(ep, is_in, true));
    lemma_stall_word();
    hardware::lemma_run_two(hw, even[0], even[1]);
    assert(even =~= seq![even[0], even[1]]);
    let h1 = hw.run(even);
    hardware::lemma_run_concat(hw, even, odd);
    hardware::lemma_run_two(h1, odd[0], odd[1]);
    assert(odd =~= seq![odd[0], odd[1]]);
    assert(hw.run(even + odd) =~= UsbHardware { bdt: with_pair(hw.bdt, ep, is_in, 0x8c), ..hw });
    hardware::lemma_core_beside(core, even + odd);
}

/// What the buffer of an endpoint, direction and pair member holds.
pub open spec fn slot(buffers: EndpointBuffers, ep: int, is_in: bool, odd: bool) -> Seq<u8> {
    if is_in {
        buffers.ep_buf_in@[ep]@[member(odd)]@
    } else {
        buffers.ep_buf_out@[ep]@[member(odd)]@
    }
}

/// Whether no buffer changed but that of one IN endpoint and pair member.
pub open spec fn others_keep(
    before: EndpointBuffers,
    after: EndpointBuffers,
    ep: int,
    odd: bool,
) -> bool {
    forall|e: int, is_in: bool, o: bool|
        0 <= e < EP_COUNT && !(e == ep && is_in && o == odd) ==> #[trigger] slot(after, e, is_in, o)
            == slot(before, e, is_in, o)
}

/// Whether no buffer changed.
pub open spec fn all_keep(before: EndpointBuffers, after: EndpointBuffers) -> bool {
    forall|e: int, is_in: bool, o: bool|
        0 <= e < EP_COUNT ==> #[trigger] slot(after, e, is_in, o) == slot(before, e, is_in, o)
}

/// What storing a packet does to the buffers.
pub proof fn lemma_stored(
    before: EndpointBuffers,
    after: EndpointBuffers,
    ep: int,
    odd: bool,
    data: Seq<u8>,
)
    requires
        0 <= ep < EP_COUNT,
        data.len() <= 64,
        after.stored(
            before,
            (BufferId { ep: ep as usize, direction: Direction::In, odd }),
            data,
        ),
    ensures
        slot(after, ep, true, odd).take(data.len() as int) == data,
        others_keep(before, after, ep, odd),
{
    assert(slot(after, ep, true, odd) == after.bytes(
        BufferId { ep: ep as usize, direction: Direction::In, odd },
    ));
    assert(slot(after, ep, true, odd).take(data.len() as int) =~= data);
    assert forall|e: int, is_in: bool, o: bool|
        0 <= e < EP_COUNT && !(e == ep && is_in && o == odd) implies #[trigger] slot(
        after,
        e,
        is_in,
        o,
    ) == slot(before, e, is_in, o) by {
        lemma_slot(before, after, e, is_in, o);
    }
}

/// A buffer by its name and by its place.
proof fn lemma_slot(before: EndpointBuffers, after: EndpointBuffers, e: int, is_in: bool, o: bool)
    requires
        0 <= e < EP_COUNT,
    ensures
        ({
            let id = BufferId {
                ep: e as usize,
                direction: if is_in {
                    Direction::In
                } else {
                    Direction::Out
                },
                odd: o,
            };
            &&& after.bytes(id) == slot(after, e, is_in, o)
            &&& before.bytes(id) == slot(before, e, is_in, o)
        }),
{
}

/// Buffers that hold the same by their names hold the same by their places.
pub proof fn lemma_all_keep(before: EndpointBuffers, after: EndpointBuffers)
    requires
        after.same(before),
    ensures
        all_keep(before, after),
{
    assert forall|e: int, is_in: bool, o: bool| 0 <= e < EP_COUNT implies #[trigger] slot(
        after,
        e,
        is_in,
        o,
    ) == slot(before, e, is_in, o) by {
        lemma_slot(before, after, e, is_in, o);
    }
}

/// The state once a packet of IN endpoint `ep` was handed over: the next one is the other
/// kind and goes to the other buffer, and it is the buffer that was used that is waited for.
pub open spec fn packet_sent(m: UsbModel, ep: int) -> UsbModel {
    UsbModel {
        in_data1: m.in_data1.update(ep, !m.in_data1[ep]),
        in_odd: m.in_odd.update(ep, !m.in_odd[ep]),
        in_active_odd: m.in_active_odd.update(ep, m.in_odd[ep]),
        ..m
    }
}

/// The state once a buffer of OUT endpoint `ep` was handed over for a packet of the given
/// kind: nothing waits there, and the next packet is the other kind and goes to the other
/// buffer.
pub open spec fn packet_awaited(m: UsbModel, ep: int, data1: bool) -> UsbModel {
    UsbModel {
        out_ready: m.out_ready.update(ep, 0xffff),
        out_token: m.out_token.update(ep, 0),
        out_data1: m.out_data1.update(ep, !data1),
        out_odd: m.out_odd.update(ep, !m.out_odd[ep]),
        ..m
    }
}

/// The state once endpoint zero waits for a SETUP packet.
pub open spec fn awaiting_setup(m: UsbModel) -> UsbModel {
    UsbModel {
        out_ready: m.out_ready.update(0, 0xffff),
        out_token: m.out_token.update(0, 0),
        out_data1: m.out_data1.update(0, false),
        out_odd: m.out_odd.update(0, !m.out_odd[0]),
        ..m
    }
}

} // verus!
