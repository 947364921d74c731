//! Allocation of endpoints, and start of operation.
use super::address::EndpointAddress;
use super::bdt;
use super::bdt::clear_bdt;
use super::bus::Bus;
use super::clock;
use super::clock::{configure_usb_clock, configure_usb_ram_access, unhalt_usb_clock};
use super::control::ControlPipe;
use super::endpoint::{EndpointIn, EndpointOut};
use super::interrupt;
use super::ops::{
    endpoint_write, ClockOp, UsbOp, UsbReg, ENDPT_EPHSHK, ENDPT_EPRXEN, ENDPT_EPTXEN,
};
use super::pipe;
use super::pipe::{clear_clock_recovery_interrupt, prime_ep0_out_setup};
use super::state::{reset_state, UsbFsState, UsbModel};
use super::types::{Direction, EndpointAllocError, EndpointInfo, EndpointType, EP_COUNT};
use crate::mask::EndpointMask;
use vstd::prelude::*;

verus! {

/// USB full-speed device driver, before the start of operation.
pub struct Driver {
    ep_in_alloc: EndpointMask,
    ep_out_alloc: EndpointMask,
    ep_in_max_packet: [u16; EP_COUNT],
    ep_out_max_packet: [u16; EP_COUNT],
    ep_in_types: [Option<EndpointType>; EP_COUNT],
    ep_out_types: [Option<EndpointType>; EP_COUNT],
}

/// What is allocated in one direction, by endpoint.
#[verifier::ext_equal]
pub struct PortModel {
    /// Whether the endpoint is taken.
    pub alloc: Seq<bool>,
    /// Its largest packet.
    pub sizes: Seq<u16>,
    /// Its type.
    pub types: Seq<Option<EndpointType>>,
}

/// Lowest free endpoint from `from` on.
pub open spec fn lowest_free(alloc: Seq<bool>, from: int) -> Option<int>
    decreases EP_COUNT - from,
{
    if from >= EP_COUNT {
        None
    } else if !alloc[from] {
        Some(from)
    } else {
        lowest_free(alloc, from + 1)
    }
}

impl PortModel {
    /// Nothing allocated but endpoint zero, which belongs to the control pipe.
    pub open spec fn empty() -> Self {
        PortModel {
            alloc: Seq::new(EP_COUNT as nat, |i: int| i == 0),
            sizes: Seq::new(EP_COUNT as nat, |i: int| 0u16),
            types: Seq::new(EP_COUNT as nat, |i: int| None),
        }
    }

    /// Endpoint zero is never given away, and what is known of an endpoint fits
    /// whether it is taken.
    pub open spec fn wf(self) -> bool {
        &&& self.alloc.len() == EP_COUNT
        &&& self.sizes.len() == EP_COUNT
        &&& self.types.len() == EP_COUNT
        &&& self.alloc[0]
        &&& self.types[0] is None
        &&& forall|i: int|
            1 <= i < EP_COUNT ==> (#[trigger] self.alloc[i] <==> self.types[i] is Some)
        &&& forall|i: int|
            #![trigger self.sizes[i]]
            0 <= i < EP_COUNT ==> self.sizes[i] <= 64 && (self.types[i] is None ==> self.sizes[i]
                == 0)
        &&& forall|i: int|
            0 <= i < EP_COUNT ==> #[trigger] self.types[i] != Some(EndpointType::Isochronous)
    }

    /// Endpoint that a request for an address, or for any, resolves to.
    pub open spec fn chosen(self, direction: Direction, addr: Option<EndpointAddress>) -> Option<
        int,
    > {
        match addr {
            Some(a) => if a.towards() == direction && 1 <= a.number() < EP_COUNT
                && !self.alloc[a.number()] {
                Some(a.number())
            } else {
                None
            },
            None => lowest_free(self.alloc, 1),
        }
    }

    /// Endpoint that a request gets, if it gets one.
    pub open spec fn granted(
        self,
        direction: Direction,
        ep_type: EndpointType,
        addr: Option<EndpointAddress>,
        max_packet_size: u16,
    ) -> Option<int> {
        if ep_type == EndpointType::Isochronous || max_packet_size > 64 {
            None
        } else {
            self.chosen(direction, addr)
        }
    }

    /// What is allocated once endpoint `i` is given away.
    pub open spec fn with_endpoint(
        self,
        i: int,
        ep_type: EndpointType,
        max_packet_size: u16,
    ) -> Self {
        PortModel {
            alloc: self.alloc.update(i, true),
            sizes: self.sizes.update(i, max_packet_size),
            types: self.types.update(i, Some(ep_type)),
        }
    }

    /// What is allocated after a request.
    pub open spec fn after_request(
        self,
        direction: Direction,
        ep_type: EndpointType,
        addr: Option<EndpointAddress>,
        max_packet_size: u16,
    ) -> Self {
        match self.granted(direction, ep_type, addr, max_packet_size) {
            Some(i) => self.with_endpoint(i, ep_type, max_packet_size),
            None => self,
        }
    }
}

/// Whether `info` describes endpoint `i` as it was asked for.
pub open spec fn describes(
    info: EndpointInfo,
    i: int,
    direction: Direction,
    ep_type: EndpointType,
    max_packet_size: u16,
    interval_ms: u8,
) -> bool {
    &&& info.addr.number() == i
    &&& info.addr.towards() == direction
    &&& info.ep_type == ep_type
    &&& info.max_packet_size == max_packet_size
    &&& info.interval_ms == interval_ms
}

/// Values of the three BDT page registers for a table at `addr`.
pub open spec fn page_ops(addr: u32) -> Seq<UsbOp> {
    seq![
        UsbOp::Write { reg: UsbReg::Bdtpage1, value: ((addr >> 8) as u8) & 0xfe },
        UsbOp::Write { reg: UsbReg::Bdtpage2, value: (addr >> 16) as u8 },
        UsbOp::Write { reg: UsbReg::Bdtpage3, value: (addr >> 24) as u8 },
    ]
}

/// Operations that bring the controller up; the interrupt is unmasked last.
pub open spec fn start_ops(bdt_addr: u32) -> Seq<UsbOp> {
    clock::clock_ops() + seq![UsbOp::Clock(ClockOp::EnableAndReset)] + clock::unhalt_ops() + seq![
        UsbOp::Write { reg: UsbReg::Usbtrc0, value: 0x80 },
        UsbOp::Spin(200_000),
        UsbOp::Write { reg: UsbReg::Ctl, value: 0 },
        UsbOp::EnableUsb,
        UsbOp::EnableIrc,
        UsbOp::EnableClockRecovery,
    ] + bdt::clear_ops(bdt::BDT_ENTRY_COUNT as int) + seq![UsbOp::Clock(ClockOp::RemapUsb0)]
        + page_ops(bdt_addr) + seq![
        UsbOp::Write { reg: UsbReg::Usbctrl, value: 0x00 },
        UsbOp::Write { reg: UsbReg::Istat, value: 0xff },
        UsbOp::Write { reg: UsbReg::Errstat, value: 0xff },
        UsbOp::Write { reg: UsbReg::Erren, value: 0xff },
        UsbOp::Write { reg: UsbReg::Inten, value: 0xbb },
        UsbOp::Write { reg: UsbReg::ClkRecoverIntEn, value: 0x00 },
    ] + pipe::recovery_ops() + seq![UsbOp::SetOddReset(true), UsbOp::SetOddReset(false)]
        + UsbModel::fresh().setup_ops() + seq![
        UsbOp::Write { reg: UsbReg::Endpt(0), value: interrupt::ep0_bits() },
        UsbOp::EnablePullup,
        UsbOp::UnpendInterrupt,
        UsbOp::EnableInterrupt,
    ]
}

impl Driver {
    /// What is allocated towards the host.
    pub closed spec fn ins(self) -> PortModel {
        PortModel {
            alloc: self.ep_in_alloc@,
            sizes: self.ep_in_max_packet@,
            types: self.ep_in_types@,
        }
    }

    /// What is allocated from the host.
    pub closed spec fn outs(self) -> PortModel {
        PortModel {
            alloc: self.ep_out_alloc@,
            sizes: self.ep_out_max_packet@,
            types: self.ep_out_types@,
        }
    }

    /// Both directions are as they should be.
    pub open spec fn wf(self) -> bool {
        self.ins().wf() && self.outs().wf()
    }

    /// A driver with nothing allocated.
    pub fn new() -> (driver: Self)
        ensures
            driver.ins() == PortModel::empty(),
            driver.outs() == PortModel::empty(),
            driver.wf(),
    {
        let mut ep_in_alloc = EndpointMask::empty();
        ep_in_alloc.assign(0, true);
        let mut ep_out_alloc = EndpointMask::empty();
        ep_out_alloc.assign(0, true);
        let driver = Driver {
            ep_in_alloc,
            ep_out_alloc,
            ep_in_max_packet: [0u16; EP_COUNT],
            ep_out_max_packet: [0u16; EP_COUNT],
            ep_in_types: [None; EP_COUNT],
            ep_out_types: [None; EP_COUNT],
        };
        assert(driver.ins() =~= PortModel::empty());
        assert(driver.outs() =~= PortModel::empty());
        driver
    }

    /// Allocates an endpoint in one direction.
    fn alloc_endpoint(
        alloc: &mut EndpointMask,
        sizes: &mut [u16; EP_COUNT],
        types: &mut [Option<EndpointType>; EP_COUNT],
        direction: Direction,
        ep_type: EndpointType,
        ep_addr: Option<EndpointAddress>,
        max_packet_size: u16,
        interval_ms: u8,
    ) -> (result: Result<EndpointInfo, EndpointAllocError>)
        ensures
            ({
                let before = PortModel { alloc: old(alloc)@, sizes: old(sizes)@, types: old(types)@ };
                let after = PortModel {
                    alloc: final(alloc)@,
                    sizes: final(sizes)@,
                    types: final(types)@,
                };
                &&& after == before.after_request(direction, ep_type, ep_addr, max_packet_size)
                &&& match before.granted(direction, ep_type, ep_addr, max_packet_size) {
                    Some(i) => result is Ok && describes(
                        result->Ok_0,
                        i,
                        direction,
                        ep_type,
                        max_packet_size,
                        interval_ms,
                    ),
                    None => result is Err,
                }
            }),
    {
        if ep_type == EndpointType::Isochronous || max_packet_size > 64 {
            return Err(EndpointAllocError);
        }
        let index: usize = match ep_addr {
            Some(addr) => {
                if addr.direction() != direction {
                    return Err(EndpointAllocError);
                }
                addr.index()
            },
            None => {
                let mut ep: usize = 1;
                while ep < EP_COUNT && alloc.contains(ep)
                    invariant
                        1 <= ep <= EP_COUNT,
                        lowest_free(alloc@, 1) == lowest_free(alloc@, ep as int),
                    decreases EP_COUNT - ep,
                {
                    ep += 1;
                }
                if ep == EP_COUNT {
                    return Err(EndpointAllocError);
                }
                ep
            },
        };
        if index == 0 || index >= EP_COUNT || alloc.contains(index) {
            return Err(EndpointAllocError);
        }
        alloc.assign(index, true);
        sizes[index] = max_packet_size;
        types[index] = Some(ep_type);
        Ok(
            EndpointInfo {
                addr: EndpointAddress::from_parts(index, direction),
                ep_type,
                max_packet_size,
                interval_ms,
            },
        )
    }

    /// Allocates an OUT endpoint: the one asked for, or the lowest that is free.
    pub fn alloc_endpoint_out(
        &mut self,
        ep_type: EndpointType,
        ep_addr: Option<EndpointAddress>,
        max_packet_size: u16,
        interval_ms: u8,
    ) -> (result: Result<EndpointOut, EndpointAllocError>)
        ensures
            final(self).ins() == old(self).ins(),
            final(self).outs() == old(self).outs().after_request(
                Direction::Out,
                ep_type,
                ep_addr,
                max_packet_size,
            ),
            match old(self).outs().granted(Direction::Out, ep_type, ep_addr, max_packet_size) {
                Some(i) => result is Ok && describes(
                    result->Ok_0.described(),
                    i,
                    Direction::Out,
                    ep_type,
                    max_packet_size,
                    interval_ms,
                ) && result->Ok_0.wf(),
                None => result is Err,
            },
            old(self).wf() ==> final(self).wf(),
    {
        proof {
            lemma_request_ok(old(self).outs(), Direction::Out, ep_type, ep_addr, max_packet_size);
        }
        match Self::alloc_endpoint(
            &mut self.ep_out_alloc,
            &mut self.ep_out_max_packet,
            &mut self.ep_out_types,
            Direction::Out,
            ep_type,
            ep_addr,
            max_packet_size,
            interval_ms,
        ) {
            Ok(info) => Ok(EndpointOut::from_info(info)),
            Err(error) => Err(error),
        }
    }

    /// Allocates an IN endpoint: the one asked for, or the lowest that is free.
    pub fn alloc_endpoint_in(
        &mut self,
        ep_type: EndpointType,
        ep_addr: Option<EndpointAddress>,
        max_packet_size: u16,
        interval_ms: u8,
    ) -> (result: Result<EndpointIn, EndpointAllocError>)
        ensures
            final(self).outs() == old(self).outs(),
            final(self).ins() == old(self).ins().after_request(
                Direction::In,
                ep_type,
                ep_addr,
                max_packet_size,
            ),
            match old(self).ins().granted(Direction::In, ep_type, ep_addr, max_packet_size) {
                Some(i) => result is Ok && describes(
                    result->Ok_0.described(),
                    i,
                    Direction::In,
                    ep_type,
                    max_packet_size,
                    interval_ms,
                ) && result->Ok_0.wf(),
                None => result is Err,
            },
            old(self).wf() ==> final(self).wf(),
    {
        proof {
            lemma_request_ok(old(self).ins(), Direction::In, ep_type, ep_addr, max_packet_size);
        }
        match Self::alloc_endpoint(
            &mut self.ep_in_alloc,
            &mut self.ep_in_max_packet,
            &mut self.ep_in_types,
            Direction::In,
            ep_type,
            ep_addr,
            max_packet_size,
            interval_ms,
        ) {
            Ok(info) => Ok(EndpointIn::from_info(info)),
            Err(error) => Err(error),
        }
    }

    /// Brings the controller up and hands out the bus and the control pipe.
    ///
    /// `bdt_addr` is the address of the buffer descriptor table.
    pub fn start(
        self,
        state: &mut UsbFsState,
        ops: &mut Vec<UsbOp>,
        control_max_packet_size: u16,
        bdt_addr: u32,
    ) -> (parts: (Bus, ControlPipe))
        ensures
            final(state)@ == UsbModel::fresh().setup_primed(),
            final(state)@.wf(),
            final(ops)@ == old(ops)@ + start_ops(bdt_addr),
            parts.0.sizes(true) == self.ins().sizes.update(0, control_max_packet_size),
            parts.0.sizes(false) == self.outs().sizes.update(0, control_max_packet_size),
            parts.0.types(true) == self.ins().types,
            parts.0.types(false) == self.outs().types,
            !parts.0.powered(),
            parts.1.packet_size() == control_max_packet_size,
    {
        let mut this = self;
        this.ep_in_max_packet[0] = control_max_packet_size;
        this.ep_out_max_packet[0] = control_max_packet_size;

        configure_usb_clock(ops);
        ops.push(UsbOp::Clock(ClockOp::EnableAndReset));
        unhalt_usb_clock(ops);

        ops.push(UsbOp::Write { reg: UsbReg::Usbtrc0, value: 0x80 });
        ops.push(UsbOp::Spin(200_000));
        ops.push(UsbOp::Write { reg: UsbReg::Ctl, value: 0 });
        ops.push(UsbOp::EnableUsb);
        ops.push(UsbOp::EnableIrc);
        ops.push(UsbOp::EnableClockRecovery);

        reset_state(state);
        clear_bdt(ops);
        configure_usb_ram_access(ops);

        ops.push(UsbOp::Write { reg: UsbReg::Bdtpage1, value: ((bdt_addr >> 8) as u8) & 0xfe });
        ops.push(UsbOp::Write { reg: UsbReg::Bdtpage2, value: (bdt_addr >> 16) as u8 });
        ops.push(UsbOp::Write { reg: UsbReg::Bdtpage3, value: (bdt_addr >> 24) as u8 });

        ops.push(UsbOp::Write { reg: UsbReg::Usbctrl, value: 0x00 });
        ops.push(UsbOp::Write { reg: UsbReg::Istat, value: 0xff });
        ops.push(UsbOp::Write { reg: UsbReg::Errstat, value: 0xff });
        ops.push(UsbOp::Write { reg: UsbReg::Erren, value: 0xff });
        ops.push(UsbOp::Write { reg: UsbReg::Inten, value: 0xbb });
        ops.push(UsbOp::Write { reg: UsbReg::ClkRecoverIntEn, value: 0x00 });
        clear_clock_recovery_interrupt(ops);

        ops.push(UsbOp::SetOddReset(true));
        ops.push(UsbOp::SetOddReset(false));
        prime_ep0_out_setup(state, ops);
        endpoint_write(ops, 0, ENDPT_EPHSHK | ENDPT_EPRXEN | ENDPT_EPTXEN);

        ops.push(UsbOp::EnablePullup);
        ops.push(UsbOp::UnpendInterrupt);
        ops.push(UsbOp::EnableInterrupt);
        assert(ops@ =~= old(ops)@ + start_ops(bdt_addr));

        let bus = Bus::from_parts(
            this.ep_in_max_packet,
            this.ep_out_max_packet,
            this.ep_in_types,
            this.ep_out_types,
        );
        (bus, ControlPipe::with_size(control_max_packet_size))
    }
}

/// The endpoint that is found is the lowest free one, and none is found only when
/// all are taken.
proof fn lemma_lowest_free(alloc: Seq<bool>, from: int)
    ensures
        match lowest_free(alloc, from) {
            Some(i) => from <= i < EP_COUNT && !alloc[i] && forall|j: int| from <= j < i ==> alloc[j],
            None => forall|j: int| from <= j < EP_COUNT ==> alloc[j],
        },
    decreases EP_COUNT - from,
{
    if from < EP_COUNT && alloc[from] {
        lemma_lowest_free(alloc, from + 1);
    }
}

/// A request gets one of the endpoints one to seven, and keeps the table as it
/// should be.
proof fn lemma_request_ok(
    port: PortModel,
    direction: Direction,
    ep_type: EndpointType,
    addr: Option<EndpointAddress>,
    max_packet_size: u16,
)
    ensures
        match port.granted(direction, ep_type, addr, max_packet_size) {
            Some(i) => 1 <= i < EP_COUNT && !port.alloc[i] && max_packet_size <= 64 && ep_type
                != EndpointType::Isochronous,
            None => true,
        },
        port.wf() ==> port.after_request(direction, ep_type, addr, max_packet_size).wf(),
{
    lemma_lowest_free(port.alloc, 1);
}

/// An endpoint is given away at most once: after a request was granted, no request
/// for any size, type or address gets the same endpoint again, however many
/// requests come in between.
pub proof fn law_no_endpoint_twice(
    port: PortModel,
    direction: Direction,
    ep_type: EndpointType,
    addr: Option<EndpointAddress>,
    max_packet_size: u16,
    taken: int,
)
    requires
        0 <= taken < port.alloc.len() == EP_COUNT,
        port.alloc[taken],
    ensures
        port.granted(direction, ep_type, addr, max_packet_size) != Some(taken),
        port.after_request(direction, ep_type, addr, max_packet_size).alloc[taken],
        port.after_request(direction, ep_type, addr, max_packet_size).alloc.len() == EP_COUNT,
        match port.granted(direction, ep_type, addr, max_packet_size) {
            Some(i) => port.after_request(direction, ep_type, addr, max_packet_size).alloc[i],
            None => true,
        },
{
    lemma_request_ok(port, direction, ep_type, addr, max_packet_size);
}

/// A request that names no endpoint fails only for its type, for its size, or
/// when all seven endpoints are taken, and then gets the lowest that is free.
pub proof fn law_any_endpoint(
    port: PortModel,
    direction: Direction,
    ep_type: EndpointType,
    max_packet_size: u16,
)
    requires
        ep_type != EndpointType::Isochronous,
        max_packet_size <= 64,
    ensures
        match port.granted(direction, ep_type, None, max_packet_size) {
            Some(i) => 1 <= i < EP_COUNT && !port.alloc[i] && forall|j: int|
                1 <= j < i ==> port.alloc[j],
            None => forall|j: int| 1 <= j < EP_COUNT ==> port.alloc[j],
        },
{
    lemma_lowest_free(port.alloc, 1);
}

/// The page registers hold the address of a table that is aligned as the
/// controller asks: nothing of the address is lost.
pub proof fn law_table_address(addr: u32, p1: u8, p2: u8, p3: u8)
    requires
        addr % 512 == 0,
        page_ops(addr) == seq![
            UsbOp::Write { reg: UsbReg::Bdtpage1, value: p1 },
            UsbOp::Write { reg: UsbReg::Bdtpage2, value: p2 },
            UsbOp::Write { reg: UsbReg::Bdtpage3, value: p3 },
        ],
    ensures
        addr == p1 * 0x100 + p2 * 0x1_0000 + p3 * 0x100_0000,
{
    assert(page_ops(addr)[0] == UsbOp::Write { reg: UsbReg::Bdtpage1, value: p1 });
    assert(page_ops(addr)[1] == UsbOp::Write { reg: UsbReg::Bdtpage2, value: p2 });
    assert(page_ops(addr)[2] == UsbOp::Write { reg: UsbReg::Bdtpage3, value: p3 });
    assert(addr == p1 * 0x100 + p2 * 0x1_0000 + p3 * 0x100_0000) by (bit_vector)
        requires
            addr % 512 == 0,
            p1 == ((addr >> 8) as u8) & 0xfe,
            p2 == (addr >> 16) as u8,
            p3 == (addr >> 24) as u8,
    ;
}

} // verus!
