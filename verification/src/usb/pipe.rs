//! Handing packets to the controller and waiting for them.
use super::bdt;
use super::bdt::{bd_index, bd_prime, BD_OWN};
use super::buffers::EndpointBuffers;
use super::ops::{BufferId, UsbOp, UsbReg, ENDPT_EPTXEN};
use super::state::{
    get_odd, set_data1, set_odd, take_data1, take_next_odd, UsbFsState, UsbModel, OUT_EMPTY,
};
use super::types::{Direction, EndpointError, EP_COUNT, MAX_PACKET};
use vstd::prelude::*;

verus! {

/// What the controller shows of an IN transfer: the ENDPT register of its
/// endpoint, and the control word of the descriptor in use.
#[derive(Clone, Copy, PartialEq, Eq, Structural, Debug)]
pub struct InStatus {
    pub endpt: u8,
    pub ctrl: u32,
}

/// Length of a SETUP packet.
pub const SETUP_LEN: u16 = 8;

/// Operations that let the controller go on with tokens for endpoint zero.
pub open spec fn resume_ops(ep: int) -> Seq<UsbOp> {
    if ep == 0 {
        seq![UsbOp::SetTokenBusy(false)]
    } else {
        seq![]
    }
}

/// Operations that clear a clock recovery interrupt.
pub open spec fn recovery_ops() -> Seq<UsbOp> {
    seq![
        UsbOp::Write { reg: UsbReg::Usbtrc0, value: 0x10 },
        UsbOp::Write { reg: UsbReg::ClkRecoverIntStatus, value: 0x10 },
    ]
}

/// Size at which a buffer is handed over for an endpoint: never more than it holds.
pub open spec fn capped(max_packet_size: u16) -> u16 {
    if max_packet_size <= 64 {
        max_packet_size
    } else {
        64
    }
}

impl UsbModel {
    /// The state once endpoint zero is ready for a SETUP packet.
    pub open spec fn setup_primed(self) -> Self {
        UsbModel {
            out_odd: self.out_odd.update(0, !self.out_odd[0]),
            ..self.out_emptied(0).with_out_data1(0, false)
        }
    }

    /// Operations that make endpoint zero ready for a SETUP packet.
    pub open spec fn setup_ops(self) -> Seq<UsbOp> {
        let odd = self.out_odd[0];
        bdt::prime_ops(
            bdt::descriptor(0, false, odd),
            BufferId { ep: 0, direction: Direction::Out, odd },
            SETUP_LEN,
            false,
        ) + resume_ops(0)
    }

    /// The state once OUT endpoint `ep` is ready for a packet.
    pub open spec fn out_primed(self, ep: int) -> Self {
        UsbModel {
            out_odd: self.out_odd.update(ep, !self.out_odd[ep]),
            ..self.out_emptied(ep).with_out_data1(ep, !self.out_data1[ep])
        }
    }

    /// Operations that make OUT endpoint `ep` ready for a packet.
    pub open spec fn out_ops(self, ep: int, max_packet_size: u16) -> Seq<UsbOp> {
        let odd = self.out_odd[ep];
        bdt::prime_ops(
            bdt::descriptor(ep, false, odd),
            BufferId { ep: ep as usize, direction: Direction::Out, odd },
            capped(max_packet_size),
            self.out_data1[ep],
        ) + resume_ops(ep)
    }

    /// The state once a packet is on its way from IN endpoint `ep`.
    pub open spec fn in_started(self, ep: int) -> Self {
        UsbModel {
            in_odd: self.in_odd.update(ep, !self.in_odd[ep]),
            in_active_odd: self.in_active_odd.update(ep, self.in_odd[ep]),
            ..self.with_in_data1(ep, !self.in_data1[ep])
        }
    }

    /// Buffer that the next packet of IN endpoint `ep` goes to.
    pub open spec fn in_buffer(self, ep: int) -> BufferId {
        BufferId { ep: ep as usize, direction: Direction::In, odd: self.in_odd[ep] }
    }

    /// Operations that send a packet of `len` bytes from IN endpoint `ep`.
    pub open spec fn in_ops(self, ep: int, len: int) -> Seq<UsbOp> {
        bdt::prime_ops(
            bdt::descriptor(ep, true, self.in_odd[ep]),
            self.in_buffer(ep),
            len as u16,
            self.in_data1[ep],
        ) + resume_ops(ep)
    }

    /// Position of the descriptor that the controller has for IN endpoint `ep`.
    pub open spec fn in_descriptor(self, ep: int) -> int {
        bdt::descriptor(ep, true, self.in_active_odd[ep])
    }
}

/// What waiting for an IN packet comes to; `None` is to go on waiting.
pub open spec fn in_outcome(abort: bool, status: InStatus) -> Option<Result<(), EndpointError>> {
    if abort || status.endpt & ENDPT_EPTXEN == 0 {
        Some(Err(EndpointError::Disabled))
    } else if status.ctrl & BD_OWN == 0 {
        Some(Ok(()))
    } else {
        None
    }
}

/// Operations of one look at an IN packet that is awaited.
pub open spec fn in_wait_ops(ep: int, abort: bool, status: InStatus) -> Seq<UsbOp> {
    if in_outcome(abort, status) is None {
        seq![UsbOp::RegisterIn(ep as usize)]
    } else {
        seq![]
    }
}

/// Lets the controller go on with tokens for endpoint zero.
pub fn resume_ep0_token_processing(ops: &mut Vec<UsbOp>)
    ensures
        final(ops)@ == old(ops)@ + resume_ops(0),
{
    ops.push(UsbOp::SetTokenBusy(false));
}

/// Clears a clock recovery interrupt, which can come without a bit in ISTAT.
pub fn clear_clock_recovery_interrupt(ops: &mut Vec<UsbOp>)
    ensures
        final(ops)@ == old(ops)@ + recovery_ops(),
{
    ops.push(UsbOp::Write { reg: UsbReg::Usbtrc0, value: 0x10 });
    ops.push(UsbOp::Write { reg: UsbReg::ClkRecoverIntStatus, value: 0x10 });
}

/// Makes endpoint zero ready for a SETUP packet.
pub fn prime_ep0_out_setup(state: &mut UsbFsState, ops: &mut Vec<UsbOp>)
    ensures
        final(state)@ == old(state)@.setup_primed(),
        final(ops)@ == old(ops)@ + old(state)@.setup_ops(),
        old(state)@.wf() ==> final(state)@.wf(),
{
    state.ep_out_ready[0] = OUT_EMPTY;
    state.ep_out_token[0] = 0;
    set_data1(&mut state.ep_out_data1, 0, false);
    let odd = take_next_odd(&mut state.ep_out_odd, 0);
    bd_prime(
        ops,
        bd_index(0, false, odd),
        BufferId { ep: 0, direction: Direction::Out, odd },
        SETUP_LEN,
        false,
    );
    resume_ep0_token_processing(ops);
    assert(state@ =~= old(state)@.setup_primed());
    assert(ops@ =~= old(ops)@ + old(state)@.setup_ops());
}

/// Makes OUT endpoint `ep` ready for a packet.
pub fn prime_out_ep(
    state: &mut UsbFsState,
    ops: &mut Vec<UsbOp>,
    ep: usize,
    max_packet_size: u16,
)
    requires
        ep < EP_COUNT,
    ensures
        final(state)@ == old(state)@.out_primed(ep as int),
        final(ops)@ == old(ops)@ + old(state)@.out_ops(ep as int, max_packet_size),
        old(state)@.wf() ==> final(state)@.wf(),
{
    state.ep_out_ready[ep] = OUT_EMPTY;
    state.ep_out_token[ep] = 0;
    let size: u16 = if max_packet_size <= 64 { max_packet_size } else { 64 };
    let data1 = take_data1(&mut state.ep_out_data1, ep);
    let odd = take_next_odd(&mut state.ep_out_odd, ep);
    bd_prime(
        ops,
        bd_index(ep, false, odd),
        BufferId { ep, direction: Direction::Out, odd },
        size,
        data1,
    );
    if ep == 0 {
        resume_ep0_token_processing(ops);
    }
    assert(state@ =~= old(state)@.out_primed(ep as int));
    assert(ops@ =~= old(ops)@ + old(state)@.out_ops(ep as int, max_packet_size));
}

/// Sends a packet from IN endpoint zero.
pub fn start_ep0_in(
    state: &mut UsbFsState,
    buffers: &mut EndpointBuffers,
    ops: &mut Vec<UsbOp>,
    data: &[u8],
) -> (result: Result<(), EndpointError>)
    ensures
        data@.len() > MAX_PACKET ==> {
            &&& result == Err::<(), _>(EndpointError::BufferOverflow)
            &&& final(state)@ == old(state)@
            &&& *final(buffers) == *old(buffers)
            &&& final(ops)@ == old(ops)@
        },
        data@.len() <= MAX_PACKET ==> {
            &&& result == Ok::<_, EndpointError>(())
            &&& final(state)@ == old(state)@.in_started(0)
            &&& final(buffers).stored(*old(buffers), old(state)@.in_buffer(0), data@)
            &&& final(ops)@ == old(ops)@ + old(state)@.in_ops(0, data@.len() as int)
        },
        old(state)@.wf() ==> final(state)@.wf(),
{
    start_in(state, buffers, ops, 0, data)
}

/// Sends a packet from IN endpoint `ep`. The data is in its buffer before the
/// controller gets the descriptor.
pub fn start_in(
    state: &mut UsbFsState,
    buffers: &mut EndpointBuffers,
    ops: &mut Vec<UsbOp>,
    ep: usize,
    data: &[u8],
) -> (result: Result<(), EndpointError>)
    requires
        ep < EP_COUNT,
    ensures
        data@.len() > MAX_PACKET ==> {
            &&& result == Err::<(), _>(EndpointError::BufferOverflow)
            &&& final(state)@ == old(state)@
            &&& *final(buffers) == *old(buffers)
            &&& final(ops)@ == old(ops)@
        },
        data@.len() <= MAX_PACKET ==> {
            &&& result == Ok::<_, EndpointError>(())
            &&& final(state)@ == old(state)@.in_started(ep as int)
            &&& final(buffers).stored(*old(buffers), old(state)@.in_buffer(ep as int), data@)
            &&& final(ops)@ == old(ops)@ + old(state)@.in_ops(ep as int, data@.len() as int)
        },
        old(state)@.wf() ==> final(state)@.wf(),
{
    if data.len() > MAX_PACKET {
        return Err(EndpointError::BufferOverflow);
    }
    let data1 = take_data1(&mut state.ep_in_data1, ep);
    let odd = take_next_odd(&mut state.ep_in_odd, ep);
    set_odd(&mut state.ep_in_active_odd, ep, odd);

    buffers.copy_to_in_buf(ep, odd, data);

    bd_prime(
        ops,
        bd_index(ep, true, odd),
        BufferId { ep, direction: Direction::In, odd },
        data.len() as u16,
        data1,
    );
    if ep == 0 {
        resume_ep0_token_processing(ops);
    }
    assert(state@ =~= old(state)@.in_started(ep as int));
    assert(ops@ =~= old(ops)@ + old(state)@.in_ops(ep as int, data@.len() as int));
    Ok(())
}

/// Position of the descriptor whose control word [`wait_in_done`] has to be shown.
pub fn active_in_descriptor(state: &UsbFsState, ep: usize) -> (index: usize)
    requires
        ep < EP_COUNT,
    ensures
        index == state@.in_descriptor(ep as int),
        index < bdt::BDT_ENTRY_COUNT,
{
    bd_index(ep, true, get_odd(&state.ep_in_active_odd, ep))
}

/// Looks whether the packet of IN endpoint `ep` is through; `None` is to look
/// again when woken. `abort` gives the transfer up.
pub fn wait_in_done(ops: &mut Vec<UsbOp>, ep: usize, abort: bool, status: InStatus) -> (outcome: Option<
    Result<(), EndpointError>,
>)
    requires
        ep < EP_COUNT,
    ensures
        outcome == in_outcome(abort, status),
        final(ops)@ == old(ops)@ + in_wait_ops(ep as int, abort, status),
{
    if abort {
        return Some(Err(EndpointError::Disabled));
    }
    if status.endpt & ENDPT_EPTXEN == 0 {
        return Some(Err(EndpointError::Disabled));
    }
    if status.ctrl & BD_OWN == 0 {
        return Some(Ok(()));
    }
    ops.push(UsbOp::RegisterIn(ep));
    None
}

} // verus!
