//! The control pipe.
use super::bdt;
use super::bdt::{bd_index, bd_stall};
use super::buffers::EndpointBuffers;
use super::interrupt::TOKEN_SETUP;
use super::ops::{BufferId, UsbOp, ENDPT_EPSTALL};
use super::pipe;
use super::pipe::{
    prime_ep0_out_setup, prime_out_ep, resume_ep0_token_processing, start_ep0_in, wait_in_done,
    InStatus,
};
use super::state::{get_odd, set_data1, UsbFsState, UsbModel, OUT_EMPTY};
use super::types::{EndpointError, MAX_PACKET};
use crate::progress::Progress;
use vstd::prelude::*;

verus! {

/// Endpoint zero control pipe.
pub struct ControlPipe {
    max_packet_size: u16,
}

/// Where the data stage of a control write stands.
#[derive(Clone, Copy, PartialEq, Eq, Structural, Debug)]
pub enum DataOutStage {
    /// Nothing was done yet.
    Start,
    /// A packet is awaited.
    Receive,
    /// The last packet, of this length, came in; the status stage is under way.
    Status(usize),
}

/// Where a packet towards the host stands.
#[derive(Clone, Copy, PartialEq, Eq, Structural, Debug)]
pub enum SendStage {
    /// The packet is still to be handed over.
    Start,
    /// The controller has the packet.
    Sending,
}

/// Step of a control write.
pub type DataOutProgress = Progress<DataOutStage, Result<usize, EndpointError>>;

impl UsbModel {
    /// Whether the packet that waits at endpoint zero is a SETUP packet.
    pub open spec fn setup_waits(self) -> bool {
        self.out_token[0] as u32 == TOKEN_SETUP
    }

    /// Whether anything waits at endpoint zero.
    pub open spec fn zero_waits(self) -> bool {
        self.out_ready[0] != OUT_EMPTY
    }

    /// The state once the status stage of a control write is under way.
    pub open spec fn status_started(self) -> Self {
        self.in_started(0).setup_primed()
    }

    /// Operations that start the status stage of a control write: an empty packet
    /// to the host, and endpoint zero ready for the next SETUP packet.
    pub open spec fn status_ops(self) -> Seq<UsbOp> {
        self.in_ops(0, 0) + self.in_started(0).setup_ops()
    }

    /// The state once the first step of a control write is taken.
    pub open spec fn data_out_begun(self, first: bool) -> Self {
        if !first {
            self
        } else if self.zero_waits() {
            self.with_out_data1(0, true)
        } else {
            self.with_out_data1(0, true).out_primed(0)
        }
    }

    /// Operations of the first step of a control write.
    pub open spec fn data_out_begin_ops(self, first: bool, size: u16) -> Seq<UsbOp> {
        if !first || self.zero_waits() {
            seq![]
        } else {
            self.with_out_data1(0, true).out_ops(0, size)
        }
    }

    /// What a look for a packet of a control write comes to.
    pub open spec fn data_out_outcome(self, room: int, last: bool) -> DataOutProgress {
        if !self.zero_waits() {
            Progress::Wait(DataOutStage::Receive)
        } else if self.setup_waits() {
            Progress::Ready(Err(EndpointError::Disabled))
        } else if self.out_ready[0] > room {
            Progress::Ready(Err(EndpointError::BufferOverflow))
        } else if last {
            Progress::Again(DataOutStage::Status(self.out_ready[0] as usize))
        } else {
            Progress::Ready(Ok(self.out_ready[0] as usize))
        }
    }

    /// The state after a look for a packet of a control write.
    pub open spec fn data_out_received(self, room: int, last: bool) -> Self {
        if !self.zero_waits() || self.setup_waits() {
            self
        } else if self.out_ready[0] > room || !last {
            self.out_primed(0)
        } else {
            self.out_dropped(0).status_started()
        }
    }

    /// Operations of a look for a packet of a control write.
    pub open spec fn data_out_receive_ops(self, room: int, last: bool, size: u16) -> Seq<UsbOp> {
        if !self.zero_waits() {
            seq![UsbOp::RegisterOut(0)]
        } else if self.setup_waits() {
            seq![]
        } else if self.out_ready[0] > room || !last {
            self.out_ops(0, size)
        } else {
            self.status_ops()
        }
    }
}

/// Operations that stall all four descriptors of endpoint zero.
pub open spec fn reject_ops() -> Seq<UsbOp> {
    bdt::stall_ops(bdt::descriptor(0, false, false)) + bdt::stall_ops(
        bdt::descriptor(0, false, true),
    ) + bdt::stall_ops(bdt::descriptor(0, true, false)) + bdt::stall_ops(
        bdt::descriptor(0, true, true),
    ) + seq![UsbOp::ModifyEndpt { ep: 0, clear: 0, set: ENDPT_EPSTALL }] + pipe::resume_ops(0)
}

impl ControlPipe {
    /// Largest packet of the pipe.
    pub closed spec fn packet_size(self) -> u16 {
        self.max_packet_size
    }

    /// A pipe with packets of up to `max_packet_size` bytes.
    pub(super) fn with_size(max_packet_size: u16) -> (pipe: Self)
        ensures
            pipe.packet_size() == max_packet_size,
    {
        ControlPipe { max_packet_size }
    }

    /// Largest packet of the pipe.
    pub fn max_packet_size(&self) -> (size: usize)
        ensures
            size == self.packet_size(),
    {
        self.max_packet_size as usize
    }

    /// Looks for a SETUP packet; `None` is to look again when woken. Any other
    /// packet is dropped, and the endpoint made ready for a SETUP packet.
    pub fn setup(&mut self, state: &mut UsbFsState, buffers: &EndpointBuffers, ops: &mut Vec<UsbOp>) -> (packet:
        Option<[u8; 8]>)
        ensures
            old(state)@.wf() ==> final(state)@.wf(),
            *final(self) == *old(self),
            ({
                let m = old(state)@;
                if !m.zero_waits() {
                    &&& packet is None
                    &&& final(state)@ == m
                    &&& final(ops)@ == old(ops)@ + seq![UsbOp::RegisterOut(0)]
                } else if !m.setup_waits() {
                    &&& packet is None
                    &&& final(state)@ == m.setup_primed()
                    &&& final(ops)@ == old(ops)@ + (seq![UsbOp::RegisterOut(0)] + m.setup_ops())
                } else {
                    &&& packet is Some
                    &&& packet->0@ == buffers.bytes(m.out_buffer(0)).take(8)
                    &&& final(state)@ == m.out_dropped(0).with_in_data1(0, true).with_out_data1(
                        0,
                        true,
                    )
                    &&& final(ops)@ == old(ops)@ + seq![UsbOp::RegisterOut(0)]
                }
            }),
    {
        ops.push(UsbOp::RegisterOut(0));
        let bc: u16 = state.ep_out_ready[0];
        if bc != OUT_EMPTY {
            let token: u32 = state.ep_out_token[0] as u32;
            state.ep_out_ready[0] = OUT_EMPTY;
            if token != TOKEN_SETUP {
                prime_ep0_out_setup(state, ops);
                assert(state@ =~= old(state)@.setup_primed());
                assert(ops@ =~= old(ops)@ + (seq![UsbOp::RegisterOut(0)] + old(state)@.setup_ops()));
                return None;
            }
            let mut setup: [u8; 8] = [0u8; 8];
            let odd = get_odd(&state.ep_out_done_odd, 0);
            buffers.copy_from_out_buf(0, odd, &mut setup, 8);
            set_data1(&mut state.ep_in_data1, 0, true);
            set_data1(&mut state.ep_out_data1, 0, true);
            assert(setup@ =~= buffers.bytes(old(state)@.out_buffer(0)).take(8));
            return Some(setup);
        }
        None
    }

    /// One step of receiving a packet of a control write into `buf`. After the last
    /// one the status stage follows. A new SETUP packet ends the step with
    /// [`EndpointError::Disabled`].
    pub fn data_out(
        &mut self,
        state: &mut UsbFsState,
        buffers: &mut EndpointBuffers,
        ops: &mut Vec<UsbOp>,
        stage: DataOutStage,
        buf: &mut [u8],
        first: bool,
        last: bool,
        status: InStatus,
    ) -> (progress: DataOutProgress)
        requires
            stage == DataOutStage::Receive ==> old(state)@.setup_waits() || old(state)@.copyable(
                0,
                old(buf)@.len() as int,
            ),
        ensures
            old(state)@.wf() ==> final(state)@.wf(),
            *final(self) == *old(self),
            ({
                let m = old(state)@;
                let size = old(self).packet_size();
                let room = old(buf)@.len() as int;
                match stage {
                    DataOutStage::Start => {
                        &&& progress == DataOutProgress::Again(DataOutStage::Receive)
                        &&& final(state)@ == m.data_out_begun(first)
                        &&& final(ops)@ == old(ops)@ + m.data_out_begin_ops(first, size)
                        &&& final(buf)@ == old(buf)@
                        &&& *final(buffers) == *old(buffers)
                    },
                    DataOutStage::Receive => {
                        &&& progress == m.data_out_outcome(room, last)
                        &&& final(state)@ == m.data_out_received(room, last)
                        &&& final(ops)@ == old(ops)@ + m.data_out_receive_ops(room, last, size)
                        &&& final(buf)@ == match progress {
                            Progress::Again(DataOutStage::Status(len)) => old(buffers).bytes(
                                m.out_buffer(0),
                            ).take(len as int) + old(buf)@.skip(len as int),
                            Progress::Ready(Ok(len)) => old(buffers).bytes(m.out_buffer(0)).take(
                                len as int,
                            ) + old(buf)@.skip(len as int),
                            _ => old(buf)@,
                        }
                        &&& final(buffers).same(*old(buffers))
                    },
                    DataOutStage::Status(len) => {
                        &&& progress == match pipe::in_outcome(m.zero_waits(), status) {
                            Some(Ok(())) => Progress::Ready(Ok(len)),
                            Some(Err(error)) => Progress::Ready(Err(error)),
                            None => Progress::Wait(stage),
                        }
                        &&& final(state)@ == m
                        &&& final(ops)@ == old(ops)@ + pipe::in_wait_ops(0, m.zero_waits(), status)
                        &&& final(buf)@ == old(buf)@
                        &&& *final(buffers) == *old(buffers)
                    },
                }
            }),
    {
        match stage {
            DataOutStage::Start => {
                if first {
                    set_data1(&mut state.ep_out_data1, 0, true);
                    assert(state@ =~= old(state)@.with_out_data1(0, true));
                    if state.ep_out_ready[0] == OUT_EMPTY {
                        prime_out_ep(state, ops, 0, self.max_packet_size);
                    }
                }
                assert(ops@ =~= old(ops)@ + old(state)@.data_out_begin_ops(
                    first,
                    self.max_packet_size,
                ));
                Progress::Again(DataOutStage::Receive)
            },
            DataOutStage::Receive => {
                let ready: u16 = state.ep_out_ready[0];
                if ready == OUT_EMPTY {
                    ops.push(UsbOp::RegisterOut(0));
                    return Progress::Wait(DataOutStage::Receive);
                }
                let token: u32 = state.ep_out_token[0] as u32;
                if token == TOKEN_SETUP {
                    assert(ops@ =~= old(ops)@ + seq![]);
                    return Progress::Ready(Err(EndpointError::Disabled));
                }
                let len: usize = ready as usize;
                if len > buf.len() {
                    state.ep_out_ready[0] = OUT_EMPTY;
                    prime_out_ep(state, ops, 0, self.max_packet_size);
                    assert(state@ =~= old(state)@.out_primed(0));
                    return Progress::Ready(Err(EndpointError::BufferOverflow));
                }
                let odd = get_odd(&state.ep_out_done_odd, 0);
                buffers.copy_from_out_buf(0, odd, buf, len);
                state.ep_out_ready[0] = OUT_EMPTY;
                if !last {
                    prime_out_ep(state, ops, 0, self.max_packet_size);
                    assert(state@ =~= old(state)@.out_primed(0));
                    return Progress::Ready(Ok(len));
                }
                assert(state@ =~= old(state)@.out_dropped(0));
                match start_ep0_in(state, buffers, ops, &[]) {
                    Ok(()) => {},
                    Err(error) => {
                        return Progress::Ready(Err(error));
                    },
                }
                prime_ep0_out_setup(state, ops);
                proof {
                    assert(state@ =~= old(state)@.out_dropped(0).status_started());
                    assert(ops@ =~= old(ops)@ + old(state)@.status_ops());
                    assert forall|id: BufferId| id.ep < super::types::EP_COUNT implies #[trigger] buffers.bytes(
                        id,
                    ) == old(buffers).bytes(id) by {
                        assert(old(buffers).bytes(id).skip(0) =~= old(buffers).bytes(id));
                        assert(Seq::<u8>::empty() + old(buffers).bytes(id) =~= old(buffers).bytes(id));
                    }
                }
                Progress::Again(DataOutStage::Status(len))
            },
            DataOutStage::Status(len) => {
                let abort: bool = state.ep_out_ready[0] != OUT_EMPTY;
                match wait_in_done(ops, 0, abort, status) {
                    Some(Ok(())) => Progress::Ready(Ok(len)),
                    Some(Err(error)) => Progress::Ready(Err(error)),
                    None => Progress::Wait(DataOutStage::Status(len)),
                }
            },
        }
    }

    /// One step of sending a packet of a control read. After the last one the pipe
    /// is ready for the status stage.
    pub fn data_in(
        &mut self,
        state: &mut UsbFsState,
        buffers: &mut EndpointBuffers,
        ops: &mut Vec<UsbOp>,
        stage: SendStage,
        data: &[u8],
        first: bool,
        last: bool,
        status: InStatus,
    ) -> (progress: Progress<SendStage, Result<(), EndpointError>>)
        ensures
            old(state)@.wf() ==> final(state)@.wf(),
            *final(self) == *old(self),
            ({
                let m = old(state)@;
                let begun = if first {
                    m.with_in_data1(0, true)
                } else {
                    m
                };
                match stage {
                    SendStage::Start => if data@.len() > MAX_PACKET {
                        &&& progress == Progress::<SendStage, Result<(), EndpointError>>::Ready(
                            Err(EndpointError::BufferOverflow),
                        )
                        &&& final(state)@ == begun
                        &&& *final(buffers) == *old(buffers)
                        &&& final(ops)@ == old(ops)@
                    } else {
                        &&& progress == Progress::<SendStage, Result<(), EndpointError>>::Again(
                            SendStage::Sending,
                        )
                        &&& final(state)@ == begun.in_started(0)
                        &&& final(buffers).stored(*old(buffers), m.in_buffer(0), data@)
                        &&& final(ops)@ == old(ops)@ + begun.in_ops(0, data@.len() as int)
                    },
                    SendStage::Sending => {
                        let outcome = pipe::in_outcome(m.zero_waits(), status);
                        let waited = pipe::in_wait_ops(0, m.zero_waits(), status);
                        &&& progress == match outcome {
                            Some(result) => Progress::Ready(result),
                            None => Progress::Wait(SendStage::Sending),
                        }
                        &&& *final(buffers) == *old(buffers)
                        &&& if outcome == Some(Ok::<(), EndpointError>(())) && last {
                            &&& final(state)@ == m.with_out_data1(0, true).out_primed(0)
                            &&& final(ops)@ == old(ops)@ + m.with_out_data1(0, true).out_ops(
                                0,
                                old(self).packet_size(),
                            )
                        } else {
                            &&& final(state)@ == m
                            &&& final(ops)@ == old(ops)@ + waited
                        }
                    },
                }
            }),
    {
        match stage {
            SendStage::Start => {
                if first {
                    set_data1(&mut state.ep_in_data1, 0, true);
                    assert(state@ =~= old(state)@.with_in_data1(0, true));
                }
                match start_ep0_in(state, buffers, ops, data) {
                    Ok(()) => Progress::Again(SendStage::Sending),
                    Err(error) => Progress::Ready(Err(error)),
                }
            },
            SendStage::Sending => {
                let abort: bool = state.ep_out_ready[0] != OUT_EMPTY;
                match wait_in_done(ops, 0, abort, status) {
                    Some(Ok(())) => {
                        if last {
                            set_data1(&mut state.ep_out_data1, 0, true);
                            assert(state@ =~= old(state)@.with_out_data1(0, true));
                            prime_out_ep(state, ops, 0, self.max_packet_size);
                        }
                        Progress::Ready(Ok(()))
                    },
                    Some(Err(error)) => Progress::Ready(Err(error)),
                    None => Progress::Wait(SendStage::Sending),
                }
            },
        }
    }

    /// One step of accepting a control request: the host gets an empty packet.
    pub fn accept(
        &mut self,
        state: &mut UsbFsState,
        buffers: &mut EndpointBuffers,
        ops: &mut Vec<UsbOp>,
        stage: SendStage,
        status: InStatus,
    ) -> (progress: Progress<SendStage, ()>)
        ensures
            old(state)@.wf() ==> final(state)@.wf(),
            *final(self) == *old(self),
            accepted(
                stage,
                status,
                progress,
                old(state)@,
                final(state)@,
                *old(buffers),
                *final(buffers),
                old(ops)@,
                final(ops)@,
            ),
    {
        match stage {
            SendStage::Start => {
                let _ = start_ep0_in(state, buffers, ops, &[]);
                prime_ep0_out_setup(state, ops);
                proof {
                    assert(ops@ =~= old(ops)@ + old(state)@.status_ops());
                    assert forall|id: BufferId| id.ep < super::types::EP_COUNT implies #[trigger] buffers.bytes(
                        id,
                    ) == old(buffers).bytes(id) by {
                        assert(old(buffers).bytes(id).skip(0) =~= old(buffers).bytes(id));
                        assert(Seq::<u8>::empty() + old(buffers).bytes(id) =~= old(buffers).bytes(id));
                    }
                }
                Progress::Again(SendStage::Sending)
            },
            SendStage::Sending => match wait_in_done(ops, 0, false, status) {
                Some(_) => Progress::Ready(()),
                None => Progress::Wait(SendStage::Sending),
            },
        }
    }

    /// Rejects a control request: endpoint zero answers with STALL.
    pub fn reject(&mut self, ops: &mut Vec<UsbOp>)
        ensures
            *final(self) == *old(self),
            final(ops)@ == old(ops)@ + reject_ops(),
    {
        bd_stall(ops, bd_index(0, false, false));
        bd_stall(ops, bd_index(0, false, true));
        bd_stall(ops, bd_index(0, true, false));
        bd_stall(ops, bd_index(0, true, true));
        ops.push(UsbOp::ModifyEndpt { ep: 0, clear: 0, set: ENDPT_EPSTALL });
        resume_ep0_token_processing(ops);
        assert(ops@ =~= old(ops)@ + reject_ops());
    }

    /// One step of accepting a request for a new address. The controller keeps the
    /// old address until the host has fetched the empty packet.
    pub fn accept_set_address(
        &mut self,
        state: &mut UsbFsState,
        buffers: &mut EndpointBuffers,
        ops: &mut Vec<UsbOp>,
        stage: SendStage,
        addr: u8,
        status: InStatus,
    ) -> (progress: Progress<SendStage, ()>)
        ensures
            old(state)@.wf() ==> final(state)@.wf(),
            *final(self) == *old(self),
            accepted(
                stage,
                status,
                progress,
                (if stage == SendStage::Start {
                    old(state)@.address_noted(addr)
                } else {
                    old(state)@
                }),
                final(state)@,
                *old(buffers),
                *final(buffers),
                old(ops)@,
                final(ops)@,
            ),
    {
        match stage {
            SendStage::Start => {
                state.pending_addr = 0x80 | (addr & 0x7f);
                self.accept(state, buffers, ops, SendStage::Start, status)
            },
            SendStage::Sending => self.accept(state, buffers, ops, SendStage::Sending, status),
        }
    }
}

impl UsbModel {
    /// The state with an address noted for later.
    pub open spec fn address_noted(self, addr: u8) -> Self {
        UsbModel { pending_addr: 0x80 | (addr & 0x7f), ..self }
    }
}

/// What one step of accepting a control request does.
pub open spec fn accepted(
    stage: SendStage,
    status: InStatus,
    progress: Progress<SendStage, ()>,
    before: UsbModel,
    after: UsbModel,
    buffers_before: EndpointBuffers,
    buffers_after: EndpointBuffers,
    ops_before: Seq<UsbOp>,
    ops_after: Seq<UsbOp>,
) -> bool {
    match stage {
        SendStage::Start => {
            &&& progress == Progress::<SendStage, ()>::Again(SendStage::Sending)
            &&& after == before.status_started()
            &&& ops_after == ops_before + before.status_ops()
            &&& buffers_after.same(buffers_before)
        },
        SendStage::Sending => {
            &&& progress == (if pipe::in_outcome(false, status) is Some {
                Progress::<SendStage, ()>::Ready(())
            } else {
                Progress::<SendStage, ()>::Wait(SendStage::Sending)
            })
            &&& after == before
            &&& ops_after == ops_before + pipe::in_wait_ops(0, false, status)
            &&& buffers_after == buffers_before
        },
    }
}

} // verus!
