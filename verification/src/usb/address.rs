//! Endpoint addresses.
use super::types::Direction;
use vstd::prelude::*;

verus! {

/// Address of an endpoint as it stands in a descriptor: the direction in bit 7,
/// the index in the bits below.
#[derive(Clone, Copy, PartialEq, Eq, Structural, Debug)]
pub struct EndpointAddress {
    /// The byte as transmitted.
    pub raw: u8,
}

/// Calls `embassy_usb_driver::EndpointAddress::index`: the seven low bits of the byte.
#[verifier::external_body]
fn address_index(raw: u8) -> (index: usize)
    ensures
        index == raw % 128,
{
    embassy_usb_driver::EndpointAddress::from(raw).index()
}

/// Calls `embassy_usb_driver::EndpointAddress::direction`: IN when bit 7 is set, OUT
/// when it is clear.
#[verifier::external_body]
fn address_direction(raw: u8) -> (direction: Direction)
    ensures
        direction == (if raw >= 128 { Direction::In } else { Direction::Out }),
{
    match embassy_usb_driver::EndpointAddress::from(raw).direction() {
        embassy_usb_driver::Direction::Out => Direction::Out,
        embassy_usb_driver::Direction::In => Direction::In,
    }
}

/// Calls `embassy_usb_driver::EndpointAddress::is_in`: whether bit 7 is set.
#[verifier::external_body]
fn address_is_in(raw: u8) -> (is_in: bool)
    ensures
        is_in == (raw >= 128),
{
    embassy_usb_driver::EndpointAddress::from(raw).is_in()
}

/// Calls `embassy_usb_driver::EndpointAddress::is_out`: whether bit 7 is clear.
#[verifier::external_body]
fn address_is_out(raw: u8) -> (is_out: bool)
    ensures
        is_out == (raw < 128),
{
    embassy_usb_driver::EndpointAddress::from(raw).is_out()
}

/// Calls `embassy_usb_driver::EndpointAddress::from_parts`: the index in the seven low
/// bits, and bit 7 set for IN. An index of 128 and above would run into bit 7.
#[verifier::external_body]
fn address_from_parts(index: usize, direction: Direction) -> (raw: u8)
    requires
        index < 128,
    ensures
        raw == index + (if direction == Direction::In { 128int } else { 0 }),
{
    let direction = match direction {
        Direction::Out => embassy_usb_driver::Direction::Out,
        Direction::In => embassy_usb_driver::Direction::In,
    };
    u8::from(embassy_usb_driver::EndpointAddress::from_parts(index, direction))
}

impl EndpointAddress {
    /// Index of the endpoint.
    pub open spec fn number(self) -> int {
        (self.raw % 128) as int
    }

    /// Direction of the endpoint.
    pub open spec fn towards(self) -> Direction {
        if self.raw >= 128 {
            Direction::In
        } else {
            Direction::Out
        }
    }

    /// The address of endpoint `index` in the given direction.
    pub fn from_parts(index: usize, direction: Direction) -> (addr: Self)
        requires
            index < 128,
        ensures
            addr.number() == index,
            addr.towards() == direction,
    {
        EndpointAddress { raw: address_from_parts(index, direction) }
    }

    /// Direction of the endpoint.
    pub fn direction(&self) -> (direction: Direction)
        ensures
            direction == self.towards(),
    {
        address_direction(self.raw)
    }

    /// Index of the endpoint.
    pub fn index(&self) -> (index: usize)
        ensures
            index == self.number(),
            index < 128,
    {
        address_index(self.raw)
    }

    /// Whether this is an IN endpoint.
    pub fn is_in(&self) -> (is_in: bool)
        ensures
            is_in == (self.towards() == Direction::In),
    {
        address_is_in(self.raw)
    }

    /// Whether this is an OUT endpoint.
    pub fn is_out(&self) -> (is_out: bool)
        ensures
            is_out == (self.towards() == Direction::Out),
    {
        address_is_out(self.raw)
    }
}

/// Index and direction determine an address: reading the two parts of an address
/// and putting them together gives the address back.
pub proof fn law_address_parts(a: EndpointAddress, b: EndpointAddress)
    ensures
        a.number() == b.number() && a.towards() == b.towards() <==> a == b,
{
}

} // verus!
