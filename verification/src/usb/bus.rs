//! The bus as a whole: its events, and the endpoints as they come and go.
use super::address::EndpointAddress;
use super::bdt;
use super::bdt::{bd_index, bd_release_pair, bd_stall};
use super::ops::{
    endpoint_write, UsbOp, UsbReg, ENDPT_EPCTLDIS, ENDPT_EPHSHK, ENDPT_EPRXEN, ENDPT_EPSTALL,
    ENDPT_EPTXEN,
};
use super::pipe;
use super::pipe::{prime_out_ep, resume_ep0_token_processing};
use super::state::{
    set_data1, set_odd, UsbFsState, UsbModel, EVENT_RESET, EVENT_RESUME, EVENT_SUSPEND,
};
use super::types::{Direction, EndpointType, Event, Unsupported, EP_COUNT, HW_EP_COUNT};
use vstd::prelude::*;

verus! {

/// USB bus object.
pub struct Bus {
    ep_in_max_packet: [u16; EP_COUNT],
    ep_out_max_packet: [u16; EP_COUNT],
    ep_in_types: [Option<EndpointType>; EP_COUNT],
    ep_out_types: [Option<EndpointType>; EP_COUNT],
    inited: bool,
}

/// Event that is reported of those that wait: a reset before a suspend before a resume.
pub open spec fn first_event(events: u8) -> Option<Event> {
    if events & EVENT_RESET != 0 {
        Some(Event::Reset)
    } else if events & EVENT_SUSPEND != 0 {
        Some(Event::Suspend)
    } else if events & EVENT_RESUME != 0 {
        Some(Event::Resume)
    } else {
        None
    }
}

/// ENDPT bits with the handshake on, but for an isochronous endpoint.
pub open spec fn handshake_bits(bits: u8, ep_type: Option<EndpointType>) -> u8 {
    if ep_type == Some(EndpointType::Isochronous) {
        bits & !ENDPT_EPHSHK
    } else {
        bits | ENDPT_EPHSHK
    }
}

/// ENDPT bits of an endpoint that is switched on in one direction.
pub open spec fn enabled_bits(bits: u8, is_in: bool, ep_type: Option<EndpointType>) -> u8 {
    if is_in {
        handshake_bits(bits, ep_type) | (ENDPT_EPTXEN | ENDPT_EPCTLDIS)
    } else {
        handshake_bits(bits, ep_type) | (ENDPT_EPRXEN | ENDPT_EPCTLDIS)
    }
}

/// ENDPT bits of an endpoint that is switched off in one direction.
pub open spec fn disabled_bits(bits: u8, is_in: bool) -> u8 {
    if is_in {
        bits & !ENDPT_EPTXEN
    } else {
        bits & !ENDPT_EPRXEN
    }
}

/// Operation that writes the ENDPT register of an endpoint.
pub open spec fn endpt_op(ep: int, bits: u8) -> UsbOp {
    UsbOp::Write { reg: UsbReg::Endpt(ep as usize), value: bits }
}

impl UsbModel {
    /// The state once endpoint `ep` starts over in one direction: with DATA0 in the even
    /// buffer, and an OUT endpoint is ready for that packet.
    pub open spec fn restarted(self, ep: int, is_in: bool) -> Self {
        if is_in {
            self.in_rewound(ep)
        } else {
            self.out_rewound(ep).out_primed(ep)
        }
    }

    /// Operations that switch an endpoint on in one direction, whose ENDPT
    /// register reads `bits`.
    pub open spec fn enable_ops(
        self,
        ep: int,
        is_in: bool,
        size: u16,
        ep_type: Option<EndpointType>,
        bits: u8,
    ) -> Seq<UsbOp> {
        (if is_in {
            bdt::release_pair_ops(ep, true)
        } else {
            self.out_rewound(ep).out_ops(ep, size)
        }).push(endpt_op(ep, enabled_bits(bits, is_in, ep_type)))
    }

    /// Operations that lift the stall of an endpoint.
    pub open spec fn unstall_ops(self, ep: int, is_in: bool, size: u16) -> Seq<UsbOp> {
        seq![UsbOp::ModifyEndpt { ep: ep as usize, clear: ENDPT_EPSTALL, set: 0 }]
            + bdt::release_pair_ops(ep, is_in) + (if is_in {
            seq![]
        } else {
            self.out_rewound(ep).out_ops(ep, size)
        }) + pipe::resume_ops(ep)
    }
}

/// Operations that switch an endpoint off in one direction, whose ENDPT register
/// reads `bits`.
pub open spec fn disable_ops(ep: int, is_in: bool, bits: u8) -> Seq<UsbOp> {
    bdt::release_pair_ops(ep, is_in) + seq![
        if is_in {
            UsbOp::WakeIn(ep as usize)
        } else {
            UsbOp::WakeOut(ep as usize)
        },
        endpt_op(ep, disabled_bits(bits, is_in)),
    ]
}

/// Operations that stall an endpoint in one direction.
pub open spec fn stall_endpoint_ops(ep: int, is_in: bool) -> Seq<UsbOp> {
    bdt::stall_ops(bdt::descriptor(ep, is_in, false)) + bdt::stall_ops(
        bdt::descriptor(ep, is_in, true),
    ) + seq![UsbOp::ModifyEndpt { ep: ep as usize, clear: 0, set: ENDPT_EPSTALL }]
}

impl Bus {
    /// Largest packet of each endpoint in one direction; zero if it was not allocated.
    pub closed spec fn sizes(self, is_in: bool) -> Seq<u16> {
        if is_in {
            self.ep_in_max_packet@
        } else {
            self.ep_out_max_packet@
        }
    }

    /// Type of each endpoint in one direction.
    pub closed spec fn types(self, is_in: bool) -> Seq<Option<EndpointType>> {
        if is_in {
            self.ep_in_types@
        } else {
            self.ep_out_types@
        }
    }

    /// Whether the power was reported.
    pub closed spec fn powered(self) -> bool {
        self.inited
    }

    /// A bus with these endpoints, whose power is still to be reported.
    pub(super) fn from_parts(
        ep_in_max_packet: [u16; EP_COUNT],
        ep_out_max_packet: [u16; EP_COUNT],
        ep_in_types: [Option<EndpointType>; EP_COUNT],
        ep_out_types: [Option<EndpointType>; EP_COUNT],
    ) -> (bus: Self)
        ensures
            bus.sizes(true) == ep_in_max_packet@,
            bus.sizes(false) == ep_out_max_packet@,
            bus.types(true) == ep_in_types@,
            bus.types(false) == ep_out_types@,
            !bus.powered(),
    {
        Bus {
            ep_in_max_packet,
            ep_out_max_packet,
            ep_in_types,
            ep_out_types,
            inited: false,
        }
    }

    /// Looks for a bus event; `None` is to look again when woken. The first look
    /// reports the power. Events that wait are dropped with the one reported.
    pub fn poll(&mut self, state: &mut UsbFsState, ops: &mut Vec<UsbOp>) -> (event: Option<Event>)
        ensures
            old(state)@.wf() ==> final(state)@.wf(),
            final(self).powered(),
            forall|is_in: bool| #[trigger] final(self).sizes(is_in) == old(self).sizes(is_in),
            forall|is_in: bool| #[trigger] final(self).types(is_in) == old(self).types(is_in),
            !old(self).powered() ==> {
                &&& event == Some(Event::PowerDetected)
                &&& final(state)@ == old(state)@
                &&& final(ops)@ == old(ops)@
            },
            old(self).powered() ==> {
                &&& event == first_event(old(state)@.events)
                &&& final(state)@ == (UsbModel { events: 0, ..old(state)@ })
                &&& final(ops)@ == old(ops)@ + (if event is None {
                    seq![UsbOp::RegisterBus]
                } else {
                    seq![]
                })
            },
    {
        if !self.inited {
            self.inited = true;
            return Some(Event::PowerDetected);
        }
        let events: u8 = state.events;
        state.events = 0;
        if events & EVENT_RESET != 0 {
            return Some(Event::Reset);
        }
        if events & EVENT_SUSPEND != 0 {
            return Some(Event::Suspend);
        }
        if events & EVENT_RESUME != 0 {
            return Some(Event::Resume);
        }
        ops.push(UsbOp::RegisterBus);
        None
    }

    /// Switches an endpoint on or off. An endpoint that the driver does not serve,
    /// or that was not allocated, is not switched on. `bits` is what its ENDPT
    /// register reads.
    pub fn endpoint_set_enabled(
        &mut self,
        state: &mut UsbFsState,
        ops: &mut Vec<UsbOp>,
        ep_addr: EndpointAddress,
        enabled: bool,
        bits: u8,
    )
        ensures
            old(state)@.wf() ==> final(state)@.wf(),
            *final(self) == *old(self),
            ({
                let ep = ep_addr.number();
                let is_in = ep_addr.towards() == Direction::In;
                let size = old(self).sizes(is_in)[ep];
                if ep >= EP_COUNT || (enabled && size == 0) {
                    &&& final(state)@ == old(state)@
                    &&& final(ops)@ == old(ops)@
                } else if enabled {
                    &&& final(state)@ == old(state)@.restarted(ep, is_in)
                    &&& final(ops)@ == old(ops)@ + old(state)@.enable_ops(
                        ep,
                        is_in,
                        size,
                        old(self).types(is_in)[ep],
                        bits,
                    )
                } else {
                    &&& final(state)@ == old(state)@
                    &&& final(ops)@ == old(ops)@ + disable_ops(ep, is_in, bits)
                }
            }),
    {
        let ep: usize = ep_addr.index();
        if ep >= EP_COUNT {
            return;
        }
        let mut bits: u8 = bits;
        if enabled {
            if ep_addr.is_in() {
                if self.ep_in_max_packet[ep] == 0 {
                    return;
                }
                bits = Self::with_handshake(bits, self.ep_in_types[ep]);
                bits = bits | (ENDPT_EPTXEN | ENDPT_EPCTLDIS);
                set_data1(&mut state.ep_in_data1, ep, false);
                set_odd(&mut state.ep_in_odd, ep, false);
                bd_release_pair(ops, ep, true);
            } else {
                if self.ep_out_max_packet[ep] == 0 {
                    return;
                }
                bits = Self::with_handshake(bits, self.ep_out_types[ep]);
                bits = bits | (ENDPT_EPRXEN | ENDPT_EPCTLDIS);
                set_data1(&mut state.ep_out_data1, ep, false);
                set_odd(&mut state.ep_out_odd, ep, false);
                assert(state@ =~= old(state)@.out_rewound(ep as int));
                prime_out_ep(state, ops, ep, self.ep_out_max_packet[ep]);
            }
        } else if ep_addr.is_in() {
            bits = bits & !ENDPT_EPTXEN;
            bd_release_pair(ops, ep, true);
            ops.push(UsbOp::WakeIn(ep));
        } else {
            bits = bits & !ENDPT_EPRXEN;
            bd_release_pair(ops, ep, false);
            ops.push(UsbOp::WakeOut(ep));
        }
        endpoint_write(ops, ep, bits);
        proof {
            let is_in = ep_addr.towards() == Direction::In;
            if enabled {
                assert(state@ =~= old(state)@.restarted(ep as int, is_in));
            }
        }
    }

    /// ENDPT bits with the handshake on, but for an isochronous endpoint.
    fn with_handshake(bits: u8, ep_type: Option<EndpointType>) -> (result: u8)
        ensures
            result == handshake_bits(bits, ep_type),
    {
        match ep_type {
            Some(EndpointType::Isochronous) => bits & !ENDPT_EPHSHK,
            _ => bits | ENDPT_EPHSHK,
        }
    }

    /// Stalls an endpoint, or lifts its stall. An OUT endpoint whose stall is
    /// lifted is ready for a packet again.
    pub fn endpoint_set_stalled(
        &mut self,
        state: &mut UsbFsState,
        ops: &mut Vec<UsbOp>,
        ep_addr: EndpointAddress,
        stalled: bool,
    )
        ensures
            old(state)@.wf() ==> final(state)@.wf(),
            *final(self) == *old(self),
            ({
                let ep = ep_addr.number();
                let is_in = ep_addr.towards() == Direction::In;
                if ep >= EP_COUNT {
                    &&& final(state)@ == old(state)@
                    &&& final(ops)@ == old(ops)@
                } else if stalled {
                    &&& final(state)@ == old(state)@
                    &&& final(ops)@ == old(ops)@ + stall_endpoint_ops(ep, is_in)
                } else {
                    &&& final(state)@ == old(state)@.restarted(ep, is_in)
                    &&& final(ops)@ == old(ops)@ + old(state)@.unstall_ops(
                        ep,
                        is_in,
                        old(self).sizes(false)[ep],
                    )
                }
            }),
    {
        let ep: usize = ep_addr.index();
        if ep >= EP_COUNT {
            return;
        }
        let is_in: bool = ep_addr.is_in();
        if stalled {
            bd_stall(ops, bd_index(ep, is_in, false));
            bd_stall(ops, bd_index(ep, is_in, true));
            ops.push(UsbOp::ModifyEndpt { ep, clear: 0, set: ENDPT_EPSTALL });
            assert(ops@ =~= old(ops)@ + stall_endpoint_ops(ep as int, is_in));
        } else {
            ops.push(UsbOp::ModifyEndpt { ep, clear: ENDPT_EPSTALL, set: 0 });
            bd_release_pair(ops, ep, is_in);
            if ep_addr.is_out() {
                set_data1(&mut state.ep_out_data1, ep, false);
                set_odd(&mut state.ep_out_odd, ep, false);
                assert(state@ =~= old(state)@.out_rewound(ep as int));
                prime_out_ep(state, ops, ep, self.ep_out_max_packet[ep]);
            } else {
                set_data1(&mut state.ep_in_data1, ep, false);
                set_odd(&mut state.ep_in_odd, ep, false);
                assert(state@ =~= old(state)@.in_rewound(ep as int));
            }
            if ep == 0 {
                resume_ep0_token_processing(ops);
            }
            assert(ops@ =~= old(ops)@ + old(state)@.unstall_ops(
                ep as int,
                is_in,
                old(self).sizes(false)[ep as int],
            ));
        }
    }

    /// Whether an endpoint is stalled, going by what the ENDPT registers read.
    pub fn endpoint_is_stalled(
        &mut self,
        ep_addr: EndpointAddress,
        endpt: &[u8; HW_EP_COUNT],
    ) -> (stalled: bool)
        requires
            ep_addr.number() < HW_EP_COUNT,
        ensures
            *final(self) == *old(self),
            stalled == (endpt@[ep_addr.number()] & ENDPT_EPSTALL != 0),
    {
        endpt[ep_addr.index()] & ENDPT_EPSTALL != 0
    }

    /// The controller cannot wake the host.
    pub fn remote_wakeup(&mut self) -> (result: Result<(), Unsupported>)
        ensures
            *final(self) == *old(self),
            result == Err::<(), _>(Unsupported),
    {
        Err(Unsupported)
    }
}

} // verus!
