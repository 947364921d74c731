//! Endpoints other than zero.
use super::buffers::EndpointBuffers;
use super::ops::{BufferId, UsbOp, ENDPT_EPRXEN, ENDPT_EPTXEN};
use super::pipe;
use super::pipe::{prime_out_ep, start_in, wait_in_done, InStatus};
use super::state::{get_odd, UsbFsState, UsbModel, OUT_EMPTY};
use super::types::{
    Direction, EndpointError, EndpointInfo, EndpointType, EP_COUNT, MAX_PACKET,
};
use crate::progress::Progress;
use vstd::prelude::*;

verus! {

/// USB IN endpoint.
pub struct EndpointIn {
    info: EndpointInfo,
}

/// USB OUT endpoint.
pub struct EndpointOut {
    info: EndpointInfo,
}

/// Where a write to an IN endpoint stands.
#[derive(Clone, Copy, PartialEq, Eq, Structural, Debug)]
pub enum WriteStage {
    /// The packet is still to be handed over.
    Start,
    /// The controller has the packet.
    Sending,
}

/// Whether an allocation can have given this out.
pub open spec fn allocated(info: EndpointInfo, direction: Direction) -> bool {
    &&& 1 <= info.addr.number() < EP_COUNT
    &&& info.addr.towards() == direction
    &&& info.max_packet_size <= 64
    &&& info.ep_type != EndpointType::Isochronous
}

impl UsbModel {
    /// Buffer that holds the packet that waits at OUT endpoint `ep`.
    pub open spec fn out_buffer(self, ep: int) -> BufferId {
        BufferId { ep: ep as usize, direction: Direction::Out, odd: self.out_done_odd[ep] }
    }

    /// Whether the packet that waits at OUT endpoint `ep`, if one does, is no longer
    /// than its buffer or does not go to a buffer of `room` bytes at all.
    pub open spec fn copyable(self, ep: int, room: int) -> bool {
        self.out_ready[ep] == OUT_EMPTY || self.out_ready[ep] <= 64 || self.out_ready[ep] > room
    }
}

/// What a look at OUT endpoint `ep` comes to, whose ENDPT register reads `endpt`;
/// `None` is to go on waiting.
pub open spec fn read_outcome(m: UsbModel, ep: int, room: int, endpt: u8) -> Option<
    Result<usize, EndpointError>,
> {
    if m.out_ready[ep] != OUT_EMPTY {
        if m.out_ready[ep] > room {
            Some(Err(EndpointError::BufferOverflow))
        } else {
            Some(Ok(m.out_ready[ep] as usize))
        }
    } else if endpt & ENDPT_EPRXEN == 0 {
        Some(Err(EndpointError::Disabled))
    } else {
        None
    }
}

impl EndpointOut {
    /// What is known of the endpoint.
    pub closed spec fn described(self) -> EndpointInfo {
        self.info
    }

    /// The endpoint was allocated.
    pub open spec fn wf(self) -> bool {
        allocated(self.described(), Direction::Out)
    }

    /// The endpoint that was allocated as `info`.
    pub(super) fn from_info(info: EndpointInfo) -> (endpoint: Self)
        ensures
            endpoint.described() == info,
    {
        EndpointOut { info }
    }

    /// What is known of the endpoint.
    pub fn info(&self) -> (info: &EndpointInfo)
        ensures
            *info == self.described(),
    {
        &self.info
    }

    /// Looks whether the endpoint, whose ENDPT register reads `endpt`, is switched
    /// on; if not, to look again when woken.
    pub fn wait_enabled(&mut self, ops: &mut Vec<UsbOp>, endpt: u8) -> (enabled: bool)
        requires
            old(self).wf(),
        ensures
            *final(self) == *old(self),
            enabled == (endpt & ENDPT_EPRXEN != 0),
            final(ops)@ == old(ops)@ + (if enabled {
                seq![]
            } else {
                seq![UsbOp::RegisterOut(old(self).described().addr.number() as usize)]
            }),
    {
        if endpt & ENDPT_EPRXEN != 0 {
            return true;
        }
        ops.push(UsbOp::RegisterOut(self.info.addr.index()));
        false
    }

    /// Looks for a packet and copies it to `buf`; `None` is to look again when
    /// woken. Whether the packet fits or not, the endpoint is then ready for the
    /// next one. `endpt` is what the ENDPT register reads.
    pub fn read(
        &mut self,
        state: &mut UsbFsState,
        buffers: &EndpointBuffers,
        ops: &mut Vec<UsbOp>,
        buf: &mut [u8],
        endpt: u8,
    ) -> (outcome: Option<Result<usize, EndpointError>>)
        requires
            old(self).wf(),
            old(state)@.copyable(old(self).described().addr.number(), old(buf)@.len() as int),
        ensures
            old(state)@.wf() ==> final(state)@.wf(),
            *final(self) == *old(self),
            ({
                let ep = old(self).described().addr.number();
                let m = old(state)@;
                let size = old(self).described().max_packet_size;
                let room = old(buf)@.len() as int;
                &&& outcome == read_outcome(m, ep, room, endpt)
                &&& if m.out_ready[ep] != OUT_EMPTY {
                    &&& final(state)@ == m.out_primed(ep)
                    &&& final(ops)@ == old(ops)@ + m.out_ops(ep, size)
                } else {
                    &&& final(state)@ == m
                    &&& final(ops)@ == old(ops)@ + (if outcome is None {
                        seq![UsbOp::RegisterOut(ep as usize)]
                    } else {
                        seq![]
                    })
                }
                &&& final(buf)@ == match outcome {
                    Some(Ok(len)) => buffers.bytes(m.out_buffer(ep)).take(len as int)
                        + old(buf)@.skip(len as int),
                    _ => old(buf)@,
                }
            }),
    {
        let ep: usize = self.info.addr.index();
        let bc: u16 = state.ep_out_ready[ep];
        if bc != OUT_EMPTY {
            let len: usize = bc as usize;
            if len > buf.len() {
                state.ep_out_ready[ep] = OUT_EMPTY;
                prime_out_ep(state, ops, ep, self.info.max_packet_size);
                assert(state@ =~= old(state)@.out_primed(ep as int));
                return Some(Err(EndpointError::BufferOverflow));
            }
            let odd = get_odd(&state.ep_out_done_odd, ep);
            buffers.copy_from_out_buf(ep, odd, buf, len);
            state.ep_out_ready[ep] = OUT_EMPTY;
            prime_out_ep(state, ops, ep, self.info.max_packet_size);
            assert(state@ =~= old(state)@.out_primed(ep as int));
            return Some(Ok(len));
        }
        if endpt & ENDPT_EPRXEN == 0 {
            return Some(Err(EndpointError::Disabled));
        }
        ops.push(UsbOp::RegisterOut(ep));
        None
    }
}

impl EndpointIn {
    /// What is known of the endpoint.
    pub closed spec fn described(self) -> EndpointInfo {
        self.info
    }

    /// The endpoint was allocated.
    pub open spec fn wf(self) -> bool {
        allocated(self.described(), Direction::In)
    }

    /// The endpoint that was allocated as `info`.
    pub(super) fn from_info(info: EndpointInfo) -> (endpoint: Self)
        ensures
            endpoint.described() == info,
    {
        EndpointIn { info }
    }

    /// What is known of the endpoint.
    pub fn info(&self) -> (info: &EndpointInfo)
        ensures
            *info == self.described(),
    {
        &self.info
    }

    /// Looks whether the endpoint, whose ENDPT register reads `endpt`, is switched
    /// on; if not, to look again when woken.
    pub fn wait_enabled(&mut self, ops: &mut Vec<UsbOp>, endpt: u8) -> (enabled: bool)
        requires
            old(self).wf(),
        ensures
            *final(self) == *old(self),
            enabled == (endpt & ENDPT_EPTXEN != 0),
            final(ops)@ == old(ops)@ + (if enabled {
                seq![]
            } else {
                seq![UsbOp::RegisterIn(old(self).described().addr.number() as usize)]
            }),
    {
        if endpt & ENDPT_EPTXEN != 0 {
            return true;
        }
        ops.push(UsbOp::RegisterIn(self.info.addr.index()));
        false
    }

    /// One step of sending `buf` as a packet. `status` is what the controller shows
    /// when the step is taken.
    pub fn write(
        &mut self,
        state: &mut UsbFsState,
        buffers: &mut EndpointBuffers,
        ops: &mut Vec<UsbOp>,
        stage: WriteStage,
        buf: &[u8],
        status: InStatus,
    ) -> (progress: Progress<WriteStage, Result<(), EndpointError>>)
        requires
            old(self).wf(),
        ensures
            old(state)@.wf() ==> final(state)@.wf(),
            *final(self) == *old(self),
            ({
                let ep = old(self).described().addr.number();
                let m = old(state)@;
                match stage {
                    WriteStage::Start => if status.endpt & ENDPT_EPTXEN == 0 {
                        &&& progress == Progress::<WriteStage, Result<(), EndpointError>>::Ready(
                            Err(EndpointError::Disabled),
                        )
                        &&& final(state)@ == m
                        &&& *final(buffers) == *old(buffers)
                        &&& final(ops)@ == old(ops)@
                    } else if buf@.len() > MAX_PACKET {
                        &&& progress == Progress::<WriteStage, Result<(), EndpointError>>::Ready(
                            Err(EndpointError::BufferOverflow),
                        )
                        &&& final(state)@ == m
                        &&& *final(buffers) == *old(buffers)
                        &&& final(ops)@ == old(ops)@
                    } else {
                        &&& progress == Progress::<WriteStage, Result<(), EndpointError>>::Again(
                            WriteStage::Sending,
                        )
                        &&& final(state)@ == m.in_started(ep)
                        &&& final(buffers).stored(*old(buffers), m.in_buffer(ep), buf@)
                        &&& final(ops)@ == old(ops)@ + m.in_ops(ep, buf@.len() as int)
                    },
                    WriteStage::Sending => {
                        &&& progress == match pipe::in_outcome(false, status) {
                            Some(result) => Progress::Ready(result),
                            None => Progress::Wait(WriteStage::Sending),
                        }
                        &&& final(state)@ == m
                        &&& *final(buffers) == *old(buffers)
                        &&& final(ops)@ == old(ops)@ + pipe::in_wait_ops(ep, false, status)
                    },
                }
            }),
    {
        let ep: usize = self.info.addr.index();
        match stage {
            WriteStage::Start => {
                if status.endpt & ENDPT_EPTXEN == 0 {
                    return Progress::Ready(Err(EndpointError::Disabled));
                }
                match start_in(state, buffers, ops, ep, buf) {
                    Ok(()) => Progress::Again(WriteStage::Sending),
                    Err(error) => Progress::Ready(Err(error)),
                }
            },
            WriteStage::Sending => match wait_in_done(ops, ep, false, status) {
                Some(result) => Progress::Ready(result),
                None => Progress::Wait(WriteStage::Sending),
            },
        }
    }
}

} // verus!
