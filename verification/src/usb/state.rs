//! State that the driver shares with its interrupt handler.
use super::types::EP_COUNT;
use crate::mask::EndpointMask;
use vstd::prelude::*;

verus! {

/// Byte count that stands for "no packet".
pub const OUT_EMPTY: u16 = 0xffff;

/// A bus reset was seen.
pub const EVENT_RESET: u8 = 0x01;

/// A suspend was seen.
pub const EVENT_SUSPEND: u8 = 0x02;

/// A resume was seen.
pub const EVENT_RESUME: u8 = 0x04;

/// State that the driver shares with its interrupt handler.
pub struct UsbFsState {
    /// Length of the packet that waits at an OUT endpoint, or [`OUT_EMPTY`].
    pub ep_out_ready: [u16; EP_COUNT],
    /// Packet identifier of the last packet at an OUT endpoint.
    pub ep_out_token: [u8; EP_COUNT],
    /// Address to take over once the host has seen the status stage, with bit 7
    /// set; zero when there is none.
    pub pending_addr: u8,
    /// Bus events that were not reported yet.
    pub events: u8,
    /// Whether the next IN packet is a DATA1 packet.
    pub ep_in_data1: EndpointMask,
    /// Whether the next OUT packet is a DATA1 packet.
    pub ep_out_data1: EndpointMask,
    /// Which IN buffer of the pair is used next.
    pub ep_in_odd: EndpointMask,
    /// Which OUT buffer of the pair is used next.
    pub ep_out_odd: EndpointMask,
    /// Which IN buffer of the pair the controller has.
    pub ep_in_active_odd: EndpointMask,
    /// Which OUT buffer of the pair holds the packet that waits.
    pub ep_out_done_odd: EndpointMask,
}

/// The same state in sequences, one element for each endpoint.
#[verifier::ext_equal]
pub struct UsbModel {
    pub out_ready: Seq<u16>,
    pub out_token: Seq<u8>,
    pub pending_addr: u8,
    pub events: u8,
    pub in_data1: Seq<bool>,
    pub out_data1: Seq<bool>,
    pub in_odd: Seq<bool>,
    pub out_odd: Seq<bool>,
    pub in_active_odd: Seq<bool>,
    pub out_done_odd: Seq<bool>,
}

impl View for UsbFsState {
    type V = UsbModel;

    open spec fn view(&self) -> UsbModel {
        UsbModel {
            out_ready: self.ep_out_ready@,
            out_token: self.ep_out_token@,
            pending_addr: self.pending_addr,
            events: self.events,
            in_data1: self.ep_in_data1@,
            out_data1: self.ep_out_data1@,
            in_odd: self.ep_in_odd@,
            out_odd: self.ep_out_odd@,
            in_active_odd: self.ep_in_active_odd@,
            out_done_odd: self.ep_out_done_odd@,
        }
    }
}

impl UsbModel {
    /// The state after a reset: nothing waits, and every toggle is down.
    pub open spec fn fresh() -> Self {
        let down = Seq::new(EP_COUNT as nat, |i: int| false);
        UsbModel {
            out_ready: Seq::new(EP_COUNT as nat, |i: int| OUT_EMPTY),
            out_token: Seq::new(EP_COUNT as nat, |i: int| 0u8),
            pending_addr: 0,
            events: 0,
            in_data1: down,
            out_data1: down,
            in_odd: down,
            out_odd: down,
            in_active_odd: down,
            out_done_odd: down,
        }
    }

    /// Every sequence has an element for each endpoint.
    pub open spec fn sized(self) -> bool {
        &&& self.out_ready.len() == EP_COUNT
        &&& self.out_token.len() == EP_COUNT
        &&& self.in_data1.len() == EP_COUNT
        &&& self.out_data1.len() == EP_COUNT
        &&& self.in_odd.len() == EP_COUNT
        &&& self.out_odd.len() == EP_COUNT
        &&& self.in_active_odd.len() == EP_COUNT
        &&& self.out_done_odd.len() == EP_COUNT
    }

    /// No waiting packet is longer than a buffer.
    pub open spec fn wf(self) -> bool {
        &&& self.sized()
        &&& forall|ep: int|
            0 <= ep < EP_COUNT ==> (#[trigger] self.out_ready[ep]) == OUT_EMPTY || self.out_ready[ep]
                <= 64
    }

    /// The state once the packet at OUT endpoint `ep` is gone.
    pub open spec fn out_dropped(self, ep: int) -> Self {
        UsbModel { out_ready: self.out_ready.update(ep, OUT_EMPTY), ..self }
    }

    /// The state once nothing waits at OUT endpoint `ep` and nothing is known of it.
    pub open spec fn out_emptied(self, ep: int) -> Self {
        UsbModel { out_token: self.out_token.update(ep, 0), ..self.out_dropped(ep) }
    }

    /// The state with the data toggle of IN endpoint `ep` given.
    pub open spec fn with_in_data1(self, ep: int, data1: bool) -> Self {
        UsbModel { in_data1: self.in_data1.update(ep, data1), ..self }
    }

    /// The state with the data toggle of OUT endpoint `ep` given.
    pub open spec fn with_out_data1(self, ep: int, data1: bool) -> Self {
        UsbModel { out_data1: self.out_data1.update(ep, data1), ..self }
    }

    /// The state with IN endpoint `ep` back at DATA0 and the even buffer.
    pub open spec fn in_rewound(self, ep: int) -> Self {
        UsbModel { in_odd: self.in_odd.update(ep, false), ..self.with_in_data1(ep, false) }
    }

    /// The state with OUT endpoint `ep` back at DATA0 and the even buffer.
    pub open spec fn out_rewound(self, ep: int) -> Self {
        UsbModel { out_odd: self.out_odd.update(ep, false), ..self.with_out_data1(ep, false) }
    }

    /// The state with more bus events waiting.
    pub open spec fn with_event(self, event: u8) -> Self {
        UsbModel { events: self.events | event, ..self }
    }
}

impl UsbFsState {
    /// The state after a reset.
    pub fn new() -> (state: Self)
        ensures
            state@ == UsbModel::fresh(),
            state@.wf(),
    {
        let state = UsbFsState {
            ep_out_ready: [OUT_EMPTY; EP_COUNT],
            ep_out_token: [0u8; EP_COUNT],
            pending_addr: 0,
            events: 0,
            ep_in_data1: EndpointMask::empty(),
            ep_out_data1: EndpointMask::empty(),
            ep_in_odd: EndpointMask::empty(),
            ep_out_odd: EndpointMask::empty(),
            ep_in_active_odd: EndpointMask::empty(),
            ep_out_done_odd: EndpointMask::empty(),
        };
        assert(state@ =~= UsbModel::fresh());
        state
    }
}

/// Every state has an element for each endpoint.
pub proof fn law_state_is_sized(state: UsbFsState)
    ensures
        state@.sized(),
{
    state.ep_in_data1.lemma_len();
    state.ep_out_data1.lemma_len();
    state.ep_in_odd.lemma_len();
    state.ep_out_odd.lemma_len();
    state.ep_in_active_odd.lemma_len();
    state.ep_out_done_odd.lemma_len();
}

/// Returns to the state after a reset.
pub fn reset_state(state: &mut UsbFsState)
    ensures
        final(state)@ == UsbModel::fresh(),
        final(state)@.wf(),
{
    *state = UsbFsState::new();
}

/// Says whether the next packet of endpoint `ep` is a DATA1 packet.
pub fn set_data1(mask: &mut EndpointMask, ep: usize, data1: bool)
    requires
        ep < EP_COUNT,
    ensures
        final(mask)@ == old(mask)@.update(ep as int, data1),
{
    mask.assign(ep, data1);
}

/// Whether the packet of endpoint `ep` at hand is a DATA1 packet; the one after
/// it is the other kind.
pub fn take_data1(mask: &mut EndpointMask, ep: usize) -> (data1: bool)
    requires
        ep < EP_COUNT,
    ensures
        data1 == old(mask)@[ep as int],
        final(mask)@ == old(mask)@.update(ep as int, !data1),
{
    mask.flip(ep)
}

/// Notes which buffer of the pair of endpoint `ep` is meant.
pub fn set_odd(mask: &mut EndpointMask, ep: usize, odd: bool)
    requires
        ep < EP_COUNT,
    ensures
        final(mask)@ == old(mask)@.update(ep as int, odd),
{
    mask.assign(ep, odd);
}

/// Which buffer of the pair of endpoint `ep` is meant.
pub fn get_odd(mask: &EndpointMask, ep: usize) -> (odd: bool)
    requires
        ep < EP_COUNT,
    ensures
        odd == mask@[ep as int],
{
    mask.contains(ep)
}

/// Which buffer of the pair of endpoint `ep` is used now; the other one is next.
pub fn take_next_odd(mask: &mut EndpointMask, ep: usize) -> (odd: bool)
    requires
        ep < EP_COUNT,
    ensures
        odd == old(mask)@[ep as int],
        final(mask)@ == old(mask)@.update(ep as int, !odd),
{
    mask.flip(ep)
}

} // verus!
