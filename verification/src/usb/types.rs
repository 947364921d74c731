//! Plain values that the USB stack and the driver exchange.
use super::address::EndpointAddress;
use vstd::prelude::*;

verus! {

/// Number of endpoints that the driver serves in each direction.
pub const EP_COUNT: usize = 8;

/// Number of endpoints that the controller has in each direction.
pub const HW_EP_COUNT: usize = 16;

/// Largest packet that an endpoint buffer holds, in bytes.
pub const MAX_PACKET: usize = 64;

/// Direction of USB traffic, as the host sees it.
#[derive(Clone, Copy, PartialEq, Eq, Structural, Debug)]
pub enum Direction {
    /// Host to device.
    Out,
    /// Device to host.
    In,
}

/// Transfer type of an endpoint.
#[derive(Clone, Copy, PartialEq, Eq, Structural, Debug)]
pub enum EndpointType {
    Control,
    Isochronous,
    Bulk,
    Interrupt,
}

/// What is known of an allocated endpoint.
#[derive(Clone, Copy, PartialEq, Eq, Structural, Debug)]
pub struct EndpointInfo {
    /// Address, direction included.
    pub addr: EndpointAddress,
    /// Transfer type.
    pub ep_type: EndpointType,
    /// Largest packet, in bytes.
    pub max_packet_size: u16,
    /// Polling interval, in milliseconds.
    pub interval_ms: u8,
}

/// No endpoint could be allocated for a request.
#[derive(Clone, Copy, PartialEq, Eq, Structural, Debug)]
pub struct EndpointAllocError;

/// The controller cannot do what was asked.
#[derive(Clone, Copy, PartialEq, Eq, Structural, Debug)]
pub struct Unsupported;

/// Why a transfer failed.
#[derive(Clone, Copy, PartialEq, Eq, Structural, Debug)]
pub enum EndpointError {
    /// The packet is longer than the buffer it should go to.
    BufferOverflow,
    /// The endpoint is disabled, or a new control request took its place.
    Disabled,
}

/// Something that happened on the bus.
#[derive(Clone, Copy, PartialEq, Eq, Structural, Debug)]
pub enum Event {
    Reset,
    Suspend,
    Resume,
    PowerDetected,
}

} // verus!
