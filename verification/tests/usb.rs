use embassy_mcxa::mask::modified;
use embassy_mcxa::progress::Progress;
use embassy_mcxa::usb::address::EndpointAddress;
use embassy_mcxa::usb::bdt::{bd_index, bd_prime, bd_release, bd_stall, clear_bdt};
use embassy_mcxa::usb::buffers::EndpointBuffers;
use embassy_mcxa::usb::bus::Bus;
use embassy_mcxa::usb::clock::{configure_usb_clock, configure_usb_ram_access, unhalt_usb_clock};
use embassy_mcxa::usb::control::{ControlPipe, DataOutStage, SendStage};
use embassy_mcxa::usb::driver::Driver;
use embassy_mcxa::usb::endpoint::{EndpointIn, EndpointOut, WriteStage};
use embassy_mcxa::usb::interrupt::{
    on_interrupt, InterruptHandler, IrqInput, IrqNext, TokenStat, ISTAT_ERROR, ISTAT_RESUME,
    ISTAT_SLEEP, ISTAT_STALL, ISTAT_TOKDNE, ISTAT_USBRST,
};
use embassy_mcxa::usb::ops::{
    endpoint_write, BufferId, ClockOp, UsbOp, UsbReg, ENDPT_EPRXEN, ENDPT_EPTXEN,
};
use embassy_mcxa::usb::pipe::{
    active_in_descriptor, clear_clock_recovery_interrupt, prime_ep0_out_setup, prime_out_ep,
    resume_ep0_token_processing, start_ep0_in, start_in, wait_in_done, InStatus,
};
use embassy_mcxa::usb::state::{
    get_odd, reset_state, set_data1, set_odd, take_data1, take_next_odd, UsbFsState, OUT_EMPTY,
};
use embassy_mcxa::usb::types::{
    Direction, EndpointAllocError, EndpointError, EndpointType, Event, Unsupported,
};

/// A controller that performs queued operations on plain memory.
struct Controller {
    endpt: [u8; 16],
    addr: u8,
    ctrl: [u32; 64],
    buffer: [Option<BufferId>; 64],
    acks: Vec<u8>,
    woken: Vec<UsbOp>,
}

impl Controller {
    fn new() -> Self {
        Controller {
            endpt: [0; 16],
            addr: 0x55,
            ctrl: [0xdead_beef; 64],
            buffer: [None; 64],
            acks: Vec::new(),
            woken: Vec::new(),
        }
    }

    fn perform(&mut self, ops: &mut Vec<UsbOp>) {
        for op in ops.drain(..) {
            match op {
                UsbOp::Write { reg: UsbReg::Endpt(ep), value } => self.endpt[ep] = value,
                UsbOp::Write { reg: UsbReg::Addr, value } => self.addr = value,
                UsbOp::Write { reg: UsbReg::Istat, value } => self.acks.push(value),
                UsbOp::ModifyEndpt { ep, clear, set } => {
                    self.endpt[ep] = modified(self.endpt[ep], clear, set)
                }
                UsbOp::BdCtrl { index, ctrl } => self.ctrl[index] = ctrl,
                UsbOp::BdAddr { index, buffer } => self.buffer[index] = buffer,
                UsbOp::WakeBus | UsbOp::WakeIn(_) | UsbOp::WakeOut(_) => self.woken.push(op),
                _ => {}
            }
        }
    }

    fn status(&self, state: &UsbFsState, ep: usize) -> InStatus {
        InStatus { endpt: self.endpt[ep], ctrl: self.ctrl[active_in_descriptor(state, ep)] }
    }

    /// Runs the interrupt handler with these flags and this token.
    fn interrupt(&mut self, state: &mut UsbFsState, istat: u8, stat: TokenStat) {
        let mut ops = Vec::new();
        let mut next = on_interrupt(state, &mut ops, IrqInput::Recovery { pending: false });
        loop {
            self.perform(&mut ops);
            let input = match next {
                IrqNext::ReadStatus => IrqInput::Status { istat },
                IrqNext::ReadToken { istat } => IrqInput::Token { istat, stat },
                IrqNext::ReadDescriptor { istat, stat, index } => {
                    IrqInput::Descriptor { istat, stat, ctrl: self.ctrl[index] }
                }
                IrqNext::Done => return,
            };
            next = on_interrupt(state, &mut ops, input);
        }
    }

    /// The host sends a packet; it goes to the buffer that the controller was given.
    fn host_sends(
        &mut self,
        state: &mut UsbFsState,
        buffers: &mut EndpointBuffers,
        ep: usize,
        odd: bool,
        pid: u32,
        data: &[u8],
    ) {
        let index = bd_index(ep, false, odd);
        assert_ne!(self.ctrl[index] & 0x80, 0);
        let id = self.buffer[index].unwrap();
        assert_eq!(id.direction, Direction::Out);
        buffers.ep_buf_out[id.ep][id.odd as usize][..data.len()].copy_from_slice(data);
        self.ctrl[index] = ((data.len() as u32) << 16) | (pid << 2);
        self.interrupt(state, ISTAT_TOKDNE, TokenStat { endp: ep as u8, tx: false, odd });
    }

    /// The host fetches a packet; it comes from the buffer that the controller was given.
    fn host_fetches(
        &mut self,
        state: &mut UsbFsState,
        buffers: &EndpointBuffers,
        ep: usize,
        odd: bool,
    ) -> (Vec<u8>, bool) {
        let index = bd_index(ep, true, odd);
        let ctrl = self.ctrl[index];
        assert_ne!(ctrl & 0x80, 0);
        let id = self.buffer[index].unwrap();
        assert_eq!(id.direction, Direction::In);
        let len = (ctrl >> 16) as usize;
        let data = buffers.ep_buf_in[id.ep][id.odd as usize][..len].to_vec();
        self.ctrl[index] = 0x09 << 2;
        self.interrupt(state, ISTAT_TOKDNE, TokenStat { endp: ep as u8, tx: true, odd });
        (data, ctrl & 0x40 != 0)
    }
}

struct Device {
    hw: Controller,
    state: UsbFsState,
    buffers: EndpointBuffers,
    ops: Vec<UsbOp>,
    bus: Bus,
    pipe: ControlPipe,
    bulk_in: EndpointIn,
    bulk_out: EndpointOut,
}

fn device() -> Device {
    let mut driver = Driver::new();
    let bulk_in = driver.alloc_endpoint_in(EndpointType::Bulk, None, 64, 0).unwrap();
    let bulk_out = driver.alloc_endpoint_out(EndpointType::Bulk, None, 32, 0).unwrap();
    let mut hw = Controller::new();
    let mut state = UsbFsState::new();
    let mut ops = Vec::new();
    let (bus, pipe) = driver.start(&mut state, &mut ops, 64, 0x2000_0400);
    hw.perform(&mut ops);
    Device { hw, state, buffers: EndpointBuffers::new(), ops, bus, pipe, bulk_in, bulk_out }
}

fn enabled_device() -> Device {
    let mut d = device();
    for raw in [0x81u8, 0x01] {
        d.bus.endpoint_set_enabled(
            &mut d.state,
            &mut d.ops,
            EndpointAddress { raw },
            true,
            d.hw.endpt[1],
        );
        d.hw.perform(&mut d.ops);
    }
    d
}

#[test]
fn address_parts() {
    let addr = EndpointAddress { raw: 0x83 };
    assert_eq!(addr.index(), 3);
    assert_eq!(addr.direction(), Direction::In);
    assert!(addr.is_in());
    assert!(!addr.is_out());
    let addr = EndpointAddress { raw: 0x7f };
    assert_eq!(addr.index(), 127);
    assert_eq!(addr.direction(), Direction::Out);
    assert!(addr.is_out());
    assert_eq!(EndpointAddress::from_parts(5, Direction::In).raw, 0x85);
    assert_eq!(EndpointAddress::from_parts(5, Direction::Out).raw, 0x05);
}

#[test]
fn address_round_trip() {
    for raw in 0..=255u8 {
        let addr = EndpointAddress { raw };
        assert_eq!(EndpointAddress::from_parts(addr.index(), addr.direction()), addr);
    }
}

#[test]
fn descriptor_positions() {
    assert_eq!(bd_index(0, false, false), 0);
    assert_eq!(bd_index(0, true, true), 3);
    assert_eq!(bd_index(3, true, false), 14);
    assert_eq!(bd_index(15, true, true), 63);
    let mut seen = [false; 64];
    for ep in 0..16 {
        for is_in in [false, true] {
            for odd in [false, true] {
                let index = bd_index(ep, is_in, odd);
                assert!(!seen[index]);
                seen[index] = true;
            }
        }
    }
    assert!(seen.iter().all(|s| *s));
}

#[test]
fn descriptor_words() {
    let mut ops = Vec::new();
    let id = BufferId { ep: 2, direction: Direction::In, odd: true };
    bd_prime(&mut ops, 11, id, 64, true);
    assert_eq!(
        ops,
        vec![
            UsbOp::BdAddr { index: 11, buffer: Some(id) },
            UsbOp::Fence,
            UsbOp::BdCtrl { index: 11, ctrl: 0x0040_00c8 },
        ]
    );
    ops.clear();
    bd_prime(&mut ops, 11, id, 8, false);
    assert_eq!(ops[2], UsbOp::BdCtrl { index: 11, ctrl: 0x0008_0088 });
    ops.clear();
    bd_stall(&mut ops, 5);
    assert_eq!(ops, vec![UsbOp::Fence, UsbOp::BdCtrl { index: 5, ctrl: 0x8c }]);
    ops.clear();
    bd_release(&mut ops, 5);
    assert_eq!(ops, vec![UsbOp::BdCtrl { index: 5, ctrl: 0 }]);
}

#[test]
fn table_is_cleared() {
    let mut hw = Controller::new();
    let mut ops = Vec::new();
    clear_bdt(&mut ops);
    assert_eq!(ops.len(), 128);
    hw.perform(&mut ops);
    assert!(hw.ctrl.iter().all(|c| *c == 0));
    assert!(hw.buffer.iter().all(|b| b.is_none()));
}

#[test]
fn masks_are_per_endpoint() {
    let mut state = UsbFsState::new();
    set_data1(&mut state.ep_in_data1, 3, true);
    assert!(take_data1(&mut state.ep_in_data1, 3));
    assert!(!take_data1(&mut state.ep_in_data1, 3));
    assert!(take_data1(&mut state.ep_in_data1, 3));
    assert!(!take_data1(&mut state.ep_in_data1, 4));
    set_odd(&mut state.ep_out_odd, 7, true);
    assert!(get_odd(&state.ep_out_odd, 7));
    assert!(!get_odd(&state.ep_out_odd, 6));
    assert!(take_next_odd(&mut state.ep_out_odd, 7));
    assert!(!get_odd(&state.ep_out_odd, 7));
    set_odd(&mut state.ep_out_odd, 7, false);
    assert!(!take_next_odd(&mut state.ep_out_odd, 7));
    reset_state(&mut state);
    assert!(!get_odd(&state.ep_out_odd, 7));
    assert_eq!(state.ep_out_ready, [OUT_EMPTY; 8]);
}

#[test]
fn allocation_takes_lowest_free() {
    let mut driver = Driver::new();
    for ep in 1..8 {
        let endpoint = driver.alloc_endpoint_in(EndpointType::Bulk, None, 64, 3).unwrap();
        let info = endpoint.info();
        assert_eq!(info.addr.raw, 0x80 + ep);
        assert_eq!(info.ep_type, EndpointType::Bulk);
        assert_eq!(info.max_packet_size, 64);
        assert_eq!(info.interval_ms, 3);
    }
    assert_eq!(
        driver.alloc_endpoint_in(EndpointType::Bulk, None, 64, 0).err(),
        Some(EndpointAllocError)
    );
    let endpoint = driver.alloc_endpoint_out(EndpointType::Interrupt, None, 8, 10).unwrap();
    assert_eq!(endpoint.info().addr.raw, 0x01);
}

#[test]
fn allocation_by_address() {
    let mut driver = Driver::new();
    let five = Some(EndpointAddress { raw: 0x85 });
    assert!(driver.alloc_endpoint_in(EndpointType::Interrupt, five, 16, 1).is_ok());
    assert!(driver.alloc_endpoint_in(EndpointType::Interrupt, five, 16, 1).is_err());
    assert!(driver.alloc_endpoint_out(EndpointType::Interrupt, five, 16, 1).is_err());
    let zero = Some(EndpointAddress { raw: 0x80 });
    assert!(driver.alloc_endpoint_in(EndpointType::Bulk, zero, 16, 1).is_err());
    let eight = Some(EndpointAddress { raw: 0x88 });
    assert!(driver.alloc_endpoint_in(EndpointType::Bulk, eight, 16, 1).is_err());
    for expected in [1, 2, 3, 4, 6, 7] {
        let endpoint = driver.alloc_endpoint_in(EndpointType::Bulk, None, 64, 0).unwrap();
        assert_eq!(endpoint.info().addr.index(), expected);
    }
}

#[test]
fn allocation_limits() {
    let mut driver = Driver::new();
    assert!(driver.alloc_endpoint_in(EndpointType::Isochronous, None, 8, 1).is_err());
    assert!(driver.alloc_endpoint_in(EndpointType::Bulk, None, 65, 1).is_err());
    assert!(driver.alloc_endpoint_in(EndpointType::Bulk, None, 0, 1).is_ok());
    assert!(driver.alloc_endpoint_in(EndpointType::Control, None, 64, 1).is_ok());
}

#[test]
fn clock_sequence() {
    let mut ops = Vec::new();
    configure_usb_clock(&mut ops);
    assert_eq!(ops.len(), 17);
    assert_eq!(ops[0], UsbOp::Clock(ClockOp::EnableLdo));
    assert_eq!(ops[16], UsbOp::Clock(ClockOp::SetGlbCc0(0x1000_0000)));
    let mut hz: u32 = 12_000_000;
    for op in &ops {
        match op {
            UsbOp::Clock(ClockOp::WriteSpllNdiv { ndiv, request: true }) => hz /= *ndiv as u32,
            UsbOp::Clock(ClockOp::WriteSpllPdiv { pdiv, request: true }) => hz /= 2 * *pdiv as u32,
            UsbOp::Clock(ClockOp::WriteSpllMdiv { mdiv, request: true }) => hz *= *mdiv as u32,
            _ => {}
        }
    }
    assert_eq!(hz, 48_000_000);
    ops.clear();
    unhalt_usb_clock(&mut ops);
    assert_eq!(
        ops,
        vec![
            UsbOp::Clock(ClockOp::UnlockClocks(true)),
            UsbOp::Clock(ClockOp::WriteClkdiv(0x6000_0000)),
            UsbOp::Clock(ClockOp::RunClkdiv { div: 0 }),
            UsbOp::Clock(ClockOp::UnlockClocks(false)),
        ]
    );
    ops.clear();
    configure_usb_ram_access(&mut ops);
    assert_eq!(ops, vec![UsbOp::Clock(ClockOp::RemapUsb0)]);
}

#[test]
fn start_sequence() {
    let mut state = UsbFsState::new();
    state.events = 7;
    let mut ops = Vec::new();
    let (_bus, pipe) = Driver::new().start(&mut state, &mut ops, 64, 0x2001_4600);
    assert_eq!(pipe.max_packet_size(), 64);
    assert_eq!(state.events, 0);
    assert!(ops.contains(&UsbOp::Write { reg: UsbReg::Bdtpage1, value: 0x46 }));
    assert!(ops.contains(&UsbOp::Write { reg: UsbReg::Bdtpage2, value: 0x01 }));
    assert!(ops.contains(&UsbOp::Write { reg: UsbReg::Bdtpage3, value: 0x20 }));
    assert!(ops.contains(&UsbOp::Write { reg: UsbReg::Inten, value: 0xbb }));
    assert!(ops.contains(&UsbOp::Spin(200_000)));
    assert_eq!(ops.last(), Some(&UsbOp::EnableInterrupt));
    assert_eq!(ops.iter().filter(|op| **op == UsbOp::EnableInterrupt).count(), 1);
    let mut hw = Controller::new();
    hw.perform(&mut ops);
    assert_eq!(hw.endpt[0], 0x0d);
    assert_eq!(hw.ctrl[0], 0x0008_0088);
    assert!(hw.ctrl[1..].iter().all(|c| *c == 0));
}

#[test]
fn power_is_reported_first() {
    let mut d = device();
    d.state.events = 0x07;
    assert_eq!(d.bus.poll(&mut d.state, &mut d.ops), Some(Event::PowerDetected));
    assert_eq!(d.state.events, 0x07);
    assert_eq!(d.bus.poll(&mut d.state, &mut d.ops), Some(Event::Reset));
    assert_eq!(d.state.events, 0);
    assert!(d.ops.is_empty());
    assert_eq!(d.bus.poll(&mut d.state, &mut d.ops), None);
    assert_eq!(d.ops, vec![UsbOp::RegisterBus]);
    d.state.events = 0x06;
    assert_eq!(d.bus.poll(&mut d.state, &mut d.ops), Some(Event::Suspend));
    d.state.events = 0x04;
    assert_eq!(d.bus.poll(&mut d.state, &mut d.ops), Some(Event::Resume));
}

#[test]
fn no_remote_wakeup() {
    let mut d = device();
    assert_eq!(d.bus.remote_wakeup(), Err(Unsupported));
}

#[test]
fn reset_starts_afresh() {
    let mut d = enabled_device();
    d.hw.addr = 17;
    d.state.pending_addr = 0x85;
    let stat = TokenStat { endp: 0, tx: false, odd: false };
    d.hw.interrupt(&mut d.state, ISTAT_USBRST, stat);
    assert_eq!(d.hw.addr, 0);
    assert_eq!(d.hw.endpt[0], 0x0d);
    assert!(d.hw.endpt[1..].iter().all(|e| *e == 0));
    assert_eq!(d.hw.ctrl[0], 0x0008_0088);
    assert!(d.hw.ctrl[1..].iter().all(|c| *c == 0));
    assert_eq!(d.state.pending_addr, 0);
    assert_eq!(d.state.events, 0x01);
    assert_eq!(d.hw.woken, vec![UsbOp::WakeBus]);
    assert_eq!(d.hw.acks.last(), Some(&ISTAT_USBRST));
}

#[test]
fn flags_are_acknowledged_once() {
    let mut d = device();
    d.hw.acks.clear();
    let all = ISTAT_USBRST | ISTAT_SLEEP | ISTAT_RESUME | ISTAT_TOKDNE | ISTAT_STALL | ISTAT_ERROR;
    let stat = TokenStat { endp: 9, tx: true, odd: true };
    d.hw.interrupt(&mut d.state, all, stat);
    assert_eq!(
        d.hw.acks,
        vec![ISTAT_USBRST, ISTAT_SLEEP, ISTAT_RESUME, ISTAT_TOKDNE, ISTAT_STALL, ISTAT_ERROR]
    );
    assert_eq!(d.state.events, 0x07);
    d.hw.acks.clear();
    d.hw.interrupt(&mut d.state, 0x44, stat);
    assert!(d.hw.acks.is_empty());
    d.hw.interrupt(&mut d.state, ISTAT_ERROR | ISTAT_SLEEP, stat);
    assert_eq!(d.hw.acks, vec![ISTAT_SLEEP, ISTAT_ERROR]);
}

#[test]
fn clock_recovery_interrupt_is_cleared() {
    let mut state = UsbFsState::new();
    let mut ops = Vec::new();
    let next =
        InterruptHandler::on_interrupt(&mut state, &mut ops, IrqInput::Recovery { pending: true });
    assert_eq!(next, IrqNext::ReadStatus);
    let mut expected = Vec::new();
    clear_clock_recovery_interrupt(&mut expected);
    assert_eq!(ops, expected);
    assert_eq!(
        ops,
        vec![
            UsbOp::Write { reg: UsbReg::Usbtrc0, value: 0x10 },
            UsbOp::Write { reg: UsbReg::ClkRecoverIntStatus, value: 0x10 },
        ]
    );
}

#[test]
fn token_of_unserved_endpoint() {
    let mut state = UsbFsState::new();
    let mut ops = Vec::new();
    let stat = TokenStat { endp: 12, tx: false, odd: true };
    let next = on_interrupt(&mut state, &mut ops, IrqInput::Token { istat: ISTAT_TOKDNE, stat });
    assert_eq!(next, IrqNext::ReadDescriptor { istat: ISTAT_TOKDNE, stat, index: 49 });
    assert!(ops.is_empty());
    let input = IrqInput::Descriptor { istat: ISTAT_TOKDNE, stat, ctrl: 0x0005_0004 };
    assert_eq!(on_interrupt(&mut state, &mut ops, input), IrqNext::Done);
    assert_eq!(ops, vec![UsbOp::Write { reg: UsbReg::Istat, value: ISTAT_TOKDNE }]);
    assert_eq!(state.ep_out_ready, [OUT_EMPTY; 8]);
}

#[test]
fn bulk_out_round_trip() {
    let mut d = enabled_device();
    let packets: [&[u8]; 4] = [b"one", b"", b"three packets", &[0x5a; 32]];
    let mut odd = false;
    for packet in packets {
        let endpt = d.hw.endpt[1];
        let mut buf = [0xee; 40];
        assert_eq!(d.bulk_out.read(&mut d.state, &d.buffers, &mut d.ops, &mut buf, endpt), None);
        assert_eq!(d.ops, vec![UsbOp::RegisterOut(1)]);
        d.ops.clear();
        d.hw.woken.clear();
        d.hw.host_sends(&mut d.state, &mut d.buffers, 1, odd, 0x01, packet);
        assert_eq!(d.hw.woken, vec![UsbOp::WakeOut(1)]);
        let outcome = d.bulk_out.read(&mut d.state, &d.buffers, &mut d.ops, &mut buf, endpt);
        assert_eq!(outcome, Some(Ok(packet.len())));
        assert_eq!(&buf[..packet.len()], packet);
        assert!(buf[packet.len()..].iter().all(|b| *b == 0xee));
        d.hw.perform(&mut d.ops);
        odd = !odd;
    }
}

#[test]
fn out_packets_alternate() {
    let mut state = UsbFsState::new();
    let mut ops = Vec::new();
    for (index, ctrl) in [(8, 0x0040_0088), (9, 0x0040_00c8), (8, 0x0040_0088)] {
        prime_out_ep(&mut state, &mut ops, 2, 200);
        assert_eq!(ops[2], UsbOp::BdCtrl { index, ctrl });
        assert_eq!(ops.len(), 3);
        ops.clear();
    }
    prime_out_ep(&mut state, &mut ops, 0, 16);
    assert_eq!(ops[2], UsbOp::BdCtrl { index: 0, ctrl: 0x0010_0088 });
    assert_eq!(ops[3], UsbOp::SetTokenBusy(false));
}

#[test]
fn bulk_out_too_long_for_reader() {
    let mut d = enabled_device();
    d.hw.host_sends(&mut d.state, &mut d.buffers, 1, false, 0x01, b"too long");
    let mut buf = [0u8; 4];
    let endpt = d.hw.endpt[1];
    let outcome = d.bulk_out.read(&mut d.state, &d.buffers, &mut d.ops, &mut buf, endpt);
    assert_eq!(outcome, Some(Err(EndpointError::BufferOverflow)));
    assert_eq!(buf, [0; 4]);
    d.hw.perform(&mut d.ops);
    d.hw.host_sends(&mut d.state, &mut d.buffers, 1, true, 0x01, b"fits");
    let outcome = d.bulk_out.read(&mut d.state, &d.buffers, &mut d.ops, &mut buf, endpt);
    assert_eq!(outcome, Some(Ok(4)));
    assert_eq!(&buf, b"fits");
}

#[test]
fn disabled_endpoints() {
    let mut d = enabled_device();
    assert!(d.bulk_out.wait_enabled(&mut d.ops, d.hw.endpt[1]));
    assert!(d.bulk_in.wait_enabled(&mut d.ops, d.hw.endpt[1]));
    assert!(d.ops.is_empty());
    for raw in [0x81u8, 0x01] {
        let bits = d.hw.endpt[1];
        d.bus.endpoint_set_enabled(
            &mut d.state,
            &mut d.ops,
            EndpointAddress { raw },
            false,
            bits,
        );
        d.hw.perform(&mut d.ops);
    }
    assert_eq!(d.hw.endpt[1] & (ENDPT_EPRXEN | ENDPT_EPTXEN), 0);
    assert!(d.hw.woken.contains(&UsbOp::WakeIn(1)));
    assert!(d.hw.woken.contains(&UsbOp::WakeOut(1)));
    let endpt = d.hw.endpt[1];
    let mut buf = [0u8; 64];
    let outcome = d.bulk_out.read(&mut d.state, &d.buffers, &mut d.ops, &mut buf, endpt);
    assert_eq!(outcome, Some(Err(EndpointError::Disabled)));
    let status = d.hw.status(&d.state, 1);
    let progress = d.bulk_in.write(
        &mut d.state,
        &mut d.buffers,
        &mut d.ops,
        WriteStage::Start,
        b"x",
        status,
    );
    assert_eq!(progress, Progress::Ready(Err(EndpointError::Disabled)));
    assert!(d.ops.is_empty());
    assert!(!d.bulk_out.wait_enabled(&mut d.ops, endpt));
    assert!(!d.bulk_in.wait_enabled(&mut d.ops, endpt));
    assert_eq!(d.ops, vec![UsbOp::RegisterOut(1), UsbOp::RegisterIn(1)]);
}

#[test]
fn enabling_needs_an_allocated_endpoint() {
    let mut d = device();
    for raw in [0x82u8, 0x02, 0x88, 0x7f] {
        d.bus.endpoint_set_enabled(&mut d.state, &mut d.ops, EndpointAddress { raw }, true, 0);
        assert!(d.ops.is_empty());
    }
    d.bus.endpoint_set_enabled(&mut d.state, &mut d.ops, EndpointAddress { raw: 0x81 }, true, 0x08);
    assert_eq!(
        d.ops,
        vec![
            UsbOp::BdCtrl { index: 6, ctrl: 0 },
            UsbOp::BdCtrl { index: 7, ctrl: 0 },
            UsbOp::Write { reg: UsbReg::Endpt(1), value: 0x1d },
        ]
    );
    d.ops.clear();
    d.bus.endpoint_set_enabled(&mut d.state, &mut d.ops, EndpointAddress { raw: 0x01 }, true, 0x04);
    assert_eq!(d.ops.last(), Some(&UsbOp::Write { reg: UsbReg::Endpt(1), value: 0x1d }));
    assert_eq!(d.ops[2], UsbOp::BdCtrl { index: 4, ctrl: 0x0020_0088 });
}

#[test]
fn bulk_in_round_trip() {
    let mut d = enabled_device();
    let packets: [&[u8]; 4] = [b"first", &[0x33; 64], b"", b"fourth"];
    let mut odd = false;
    for packet in packets {
        let status = d.hw.status(&d.state, 1);
        let stage = WriteStage::Start;
        let progress =
            d.bulk_in.write(&mut d.state, &mut d.buffers, &mut d.ops, stage, packet, status);
        assert_eq!(progress, Progress::Again(WriteStage::Sending));
        d.hw.perform(&mut d.ops);
        let status = d.hw.status(&d.state, 1);
        let stage = WriteStage::Sending;
        let progress =
            d.bulk_in.write(&mut d.state, &mut d.buffers, &mut d.ops, stage, packet, status);
        assert_eq!(progress, Progress::Wait(WriteStage::Sending));
        assert_eq!(d.ops, vec![UsbOp::RegisterIn(1)]);
        d.ops.clear();
        d.hw.woken.clear();
        let (data, data1) = d.hw.host_fetches(&mut d.state, &d.buffers, 1, odd);
        assert_eq!(data, packet);
        assert_eq!(data1, odd);
        assert_eq!(d.hw.woken, vec![UsbOp::WakeIn(1)]);
        let status = d.hw.status(&d.state, 1);
        let progress =
            d.bulk_in.write(&mut d.state, &mut d.buffers, &mut d.ops, stage, packet, status);
        assert_eq!(progress, Progress::Ready(Ok(())));
        odd = !odd;
    }
}

#[test]
fn in_packet_too_long() {
    let mut d = enabled_device();
    let status = d.hw.status(&d.state, 1);
    let progress = d.bulk_in.write(
        &mut d.state,
        &mut d.buffers,
        &mut d.ops,
        WriteStage::Start,
        &[0; 65],
        status,
    );
    assert_eq!(progress, Progress::Ready(Err(EndpointError::BufferOverflow)));
    assert!(d.ops.is_empty());
    assert!(!get_odd(&d.state.ep_in_odd, 1));
    let result = start_in(&mut d.state, &mut d.buffers, &mut d.ops, 2, &[0; 64]);
    assert_eq!(result, Ok(()));
    let result = start_ep0_in(&mut d.state, &mut d.buffers, &mut d.ops, &[0; 65]);
    assert_eq!(result, Err(EndpointError::BufferOverflow));
}

#[test]
fn waiting_for_in_packet() {
    let mut ops = Vec::new();
    let ready = InStatus { endpt: ENDPT_EPTXEN, ctrl: 0x08 };
    let busy = InStatus { endpt: ENDPT_EPTXEN, ctrl: 0x88 };
    let off = InStatus { endpt: 0, ctrl: 0x08 };
    assert_eq!(wait_in_done(&mut ops, 3, false, ready), Some(Ok(())));
    assert_eq!(wait_in_done(&mut ops, 3, true, ready), Some(Err(EndpointError::Disabled)));
    assert_eq!(wait_in_done(&mut ops, 3, false, off), Some(Err(EndpointError::Disabled)));
    assert!(ops.is_empty());
    assert_eq!(wait_in_done(&mut ops, 3, false, busy), None);
    assert_eq!(ops, vec![UsbOp::RegisterIn(3)]);
}

#[test]
fn stall_shows_and_is_lifted() {
    let mut d = enabled_device();
    for raw in [0x81u8, 0x01] {
        let addr = EndpointAddress { raw };
        let before = d.hw.endpt[1];
        assert!(!d.bus.endpoint_is_stalled(addr, &d.hw.endpt));
        d.bus.endpoint_set_stalled(&mut d.state, &mut d.ops, addr, true);
        d.hw.perform(&mut d.ops);
        assert!(d.bus.endpoint_is_stalled(addr, &d.hw.endpt));
        assert!(!d.bus.endpoint_is_stalled(EndpointAddress { raw: raw + 1 }, &d.hw.endpt));
        let index = bd_index(1, addr.is_in(), false);
        assert_eq!(d.hw.ctrl[index], 0x8c);
        assert_eq!(d.hw.ctrl[index + 1], 0x8c);
        d.bus.endpoint_set_stalled(&mut d.state, &mut d.ops, addr, false);
        d.hw.perform(&mut d.ops);
        assert_eq!(d.hw.endpt[1], before);
    }
    assert_eq!(d.hw.ctrl[bd_index(1, false, false)], 0x0020_0088);
    d.bus.endpoint_set_stalled(&mut d.state, &mut d.ops, EndpointAddress { raw: 0x08 }, true);
    assert!(d.ops.is_empty());
    d.bus.endpoint_set_stalled(&mut d.state, &mut d.ops, EndpointAddress { raw: 0x80 }, false);
    assert_eq!(d.ops.last(), Some(&UsbOp::SetTokenBusy(false)));
}

const GET_DESCRIPTOR: [u8; 8] = [0x80, 6, 0, 1, 0, 0, 18, 0];

#[test]
fn setup_packet_is_found() {
    let mut d = device();
    assert_eq!(d.pipe.setup(&mut d.state, &d.buffers, &mut d.ops), None);
    assert_eq!(d.ops, vec![UsbOp::RegisterOut(0)]);
    d.ops.clear();
    d.hw.ctrl[2] = 0x88;
    d.hw.ctrl[3] = 0x88;
    d.hw.host_sends(&mut d.state, &mut d.buffers, 0, false, 0x0d, &GET_DESCRIPTOR);
    assert_eq!(d.hw.ctrl[2], 0);
    assert_eq!(d.hw.ctrl[3], 0);
    assert_eq!(d.hw.woken, vec![UsbOp::WakeOut(0)]);
    let packet = d.pipe.setup(&mut d.state, &d.buffers, &mut d.ops);
    assert_eq!(packet, Some(GET_DESCRIPTOR));
    assert_eq!(d.ops, vec![UsbOp::RegisterOut(0)]);
    d.ops.clear();
    assert_eq!(d.pipe.setup(&mut d.state, &d.buffers, &mut d.ops), None);
}

#[test]
fn other_packet_is_dropped_while_setup_is_awaited() {
    let mut d = device();
    d.hw.host_sends(&mut d.state, &mut d.buffers, 0, false, 0x01, b"stray");
    assert_eq!(d.pipe.setup(&mut d.state, &d.buffers, &mut d.ops), None);
    assert_eq!(d.ops[0], UsbOp::RegisterOut(0));
    d.hw.perform(&mut d.ops);
    d.hw.host_sends(&mut d.state, &mut d.buffers, 0, true, 0x0d, &GET_DESCRIPTOR);
    assert_eq!(d.pipe.setup(&mut d.state, &d.buffers, &mut d.ops), Some(GET_DESCRIPTOR));
}

#[test]
fn control_read() {
    let mut d = device();
    d.hw.host_sends(&mut d.state, &mut d.buffers, 0, false, 0x0d, &GET_DESCRIPTOR);
    assert!(d.pipe.setup(&mut d.state, &d.buffers, &mut d.ops).is_some());
    d.ops.clear();
    let data = [7u8; 18];
    let status = d.hw.status(&d.state, 0);
    let (state, buffers, ops) = (&mut d.state, &mut d.buffers, &mut d.ops);
    let progress =
        d.pipe.data_in(state, buffers, ops, SendStage::Start, &data, true, true, status);
    assert_eq!(progress, Progress::Again(SendStage::Sending));
    d.hw.perform(&mut d.ops);
    let (sent, data1) = d.hw.host_fetches(&mut d.state, &d.buffers, 0, false);
    assert_eq!(sent, data);
    assert!(data1);
    let status = d.hw.status(&d.state, 0);
    let (state, buffers, ops) = (&mut d.state, &mut d.buffers, &mut d.ops);
    let progress =
        d.pipe.data_in(state, buffers, ops, SendStage::Sending, &data, true, true, status);
    assert_eq!(progress, Progress::Ready(Ok(())));
    assert_eq!(d.ops[2], UsbOp::BdCtrl { index: 1, ctrl: 0x0040_00c8 });
    d.hw.perform(&mut d.ops);
    // The status stage: an empty packet, after which a SETUP packet is awaited.
    d.hw.host_sends(&mut d.state, &mut d.buffers, 0, true, 0x01, b"");
    assert_eq!(d.state.ep_out_ready[0], OUT_EMPTY);
    assert_eq!(d.hw.ctrl[0], 0x0008_0088);
}

#[test]
fn control_read_too_long() {
    let mut d = device();
    let status = d.hw.status(&d.state, 0);
    let progress = d.pipe.data_in(
        &mut d.state,
        &mut d.buffers,
        &mut d.ops,
        SendStage::Start,
        &[0; 65],
        true,
        true,
        status,
    );
    assert_eq!(progress, Progress::Ready(Err(EndpointError::BufferOverflow)));
    assert!(d.ops.is_empty());
}

#[test]
fn control_write() {
    let mut d = device();
    d.hw.host_sends(&mut d.state, &mut d.buffers, 0, false, 0x0d, &[0x21, 0x20, 0, 0, 0, 0, 7, 0]);
    assert!(d.pipe.setup(&mut d.state, &d.buffers, &mut d.ops).is_some());
    d.ops.clear();
    let mut buf = [0u8; 16];
    let status = d.hw.status(&d.state, 0);
    let progress = d.pipe.data_out(
        &mut d.state,
        &mut d.buffers,
        &mut d.ops,
        DataOutStage::Start,
        &mut buf,
        true,
        true,
        status,
    );
    assert_eq!(progress, Progress::Again(DataOutStage::Receive));
    assert_eq!(d.ops[2], UsbOp::BdCtrl { index: 1, ctrl: 0x0040_00c8 });
    d.hw.perform(&mut d.ops);
    let progress = d.pipe.data_out(
        &mut d.state,
        &mut d.buffers,
        &mut d.ops,
        DataOutStage::Receive,
        &mut buf,
        true,
        true,
        status,
    );
    assert_eq!(progress, Progress::Wait(DataOutStage::Receive));
    d.hw.perform(&mut d.ops);
    d.hw.host_sends(&mut d.state, &mut d.buffers, 0, true, 0x01, b"payload");
    let progress = d.pipe.data_out(
        &mut d.state,
        &mut d.buffers,
        &mut d.ops,
        DataOutStage::Receive,
        &mut buf,
        true,
        true,
        status,
    );
    assert_eq!(progress, Progress::Again(DataOutStage::Status(7)));
    assert_eq!(&buf[..7], b"payload");
    d.hw.perform(&mut d.ops);
    let status = d.hw.status(&d.state, 0);
    let progress = d.pipe.data_out(
        &mut d.state,
        &mut d.buffers,
        &mut d.ops,
        DataOutStage::Status(7),
        &mut buf,
        true,
        true,
        status,
    );
    assert_eq!(progress, Progress::Wait(DataOutStage::Status(7)));
    d.hw.perform(&mut d.ops);
    let (sent, data1) = d.hw.host_fetches(&mut d.state, &d.buffers, 0, false);
    assert!(sent.is_empty());
    assert!(data1);
    let status = d.hw.status(&d.state, 0);
    let progress = d.pipe.data_out(
        &mut d.state,
        &mut d.buffers,
        &mut d.ops,
        DataOutStage::Status(7),
        &mut buf,
        true,
        true,
        status,
    );
    assert_eq!(progress, Progress::Ready(Ok(7)));
}

#[test]
fn control_write_in_parts() {
    let mut d = device();
    d.hw.host_sends(&mut d.state, &mut d.buffers, 0, false, 0x01, b"part");
    let mut buf = [0u8; 16];
    let status = d.hw.status(&d.state, 0);
    let progress = d.pipe.data_out(
        &mut d.state,
        &mut d.buffers,
        &mut d.ops,
        DataOutStage::Receive,
        &mut buf,
        false,
        false,
        status,
    );
    assert_eq!(progress, Progress::Ready(Ok(4)));
    assert_eq!(&buf[..4], b"part");
    d.hw.perform(&mut d.ops);
    d.hw.host_sends(&mut d.state, &mut d.buffers, 0, true, 0x01, b"twenty bytes and one");
    let progress = d.pipe.data_out(
        &mut d.state,
        &mut d.buffers,
        &mut d.ops,
        DataOutStage::Receive,
        &mut buf,
        false,
        true,
        status,
    );
    assert_eq!(progress, Progress::Ready(Err(EndpointError::BufferOverflow)));
}

#[test]
fn new_setup_ends_a_control_request() {
    let mut d = device();
    d.hw.host_sends(&mut d.state, &mut d.buffers, 0, false, 0x0d, &GET_DESCRIPTOR);
    let mut buf = [0u8; 16];
    let status = d.hw.status(&d.state, 0);
    let progress = d.pipe.data_out(
        &mut d.state,
        &mut d.buffers,
        &mut d.ops,
        DataOutStage::Receive,
        &mut buf,
        false,
        true,
        status,
    );
    assert_eq!(progress, Progress::Ready(Err(EndpointError::Disabled)));
    let progress = d.pipe.data_in(
        &mut d.state,
        &mut d.buffers,
        &mut d.ops,
        SendStage::Sending,
        b"",
        true,
        true,
        status,
    );
    assert_eq!(progress, Progress::Ready(Err(EndpointError::Disabled)));
    assert_eq!(d.pipe.setup(&mut d.state, &d.buffers, &mut d.ops), Some(GET_DESCRIPTOR));
}

#[test]
fn accepted_request() {
    let mut d = device();
    let status = d.hw.status(&d.state, 0);
    let progress =
        d.pipe.accept(&mut d.state, &mut d.buffers, &mut d.ops, SendStage::Start, status);
    assert_eq!(progress, Progress::Again(SendStage::Sending));
    d.hw.perform(&mut d.ops);
    assert_eq!(d.hw.ctrl[2], 0x0000_0088);
    assert_eq!(d.hw.ctrl[1], 0x0008_0088);
    let status = d.hw.status(&d.state, 0);
    let progress =
        d.pipe.accept(&mut d.state, &mut d.buffers, &mut d.ops, SendStage::Sending, status);
    assert_eq!(progress, Progress::Wait(SendStage::Sending));
    let (sent, _) = d.hw.host_fetches(&mut d.state, &d.buffers, 0, false);
    assert!(sent.is_empty());
    let status = d.hw.status(&d.state, 0);
    let progress =
        d.pipe.accept(&mut d.state, &mut d.buffers, &mut d.ops, SendStage::Sending, status);
    assert_eq!(progress, Progress::Ready(()));
}

#[test]
fn refused_request_is_stalled_and_forgotten() {
    let mut d = device();
    d.pipe.reject(&mut d.ops);
    assert_eq!(d.ops.last(), Some(&UsbOp::SetTokenBusy(false)));
    d.hw.perform(&mut d.ops);
    assert_eq!(d.hw.ctrl[..4], [0x8c; 4]);
    assert_eq!(d.hw.endpt[0], 0x0f);
    let stat = TokenStat { endp: 0, tx: false, odd: false };
    d.hw.interrupt(&mut d.state, ISTAT_STALL, stat);
    assert_eq!(d.hw.endpt[0], 0x0d);
    assert_eq!(d.hw.ctrl[1], 0x0008_0088);
}

#[test]
fn address_is_deferred() {
    let mut d = device();
    d.hw.addr = 0;
    let status = d.hw.status(&d.state, 0);
    let (state, buffers, ops) = (&mut d.state, &mut d.buffers, &mut d.ops);
    let progress =
        d.pipe.accept_set_address(state, buffers, ops, SendStage::Start, 0x2a, status);
    assert_eq!(progress, Progress::Again(SendStage::Sending));
    d.hw.perform(&mut d.ops);
    assert_eq!(d.hw.addr, 0);
    assert_eq!(d.state.pending_addr, 0xaa);
    d.hw.host_fetches(&mut d.state, &d.buffers, 0, false);
    assert_eq!(d.hw.addr, 0x2a);
    assert_eq!(d.state.pending_addr, 0);
    let status = d.hw.status(&d.state, 0);
    let (state, buffers, ops) = (&mut d.state, &mut d.buffers, &mut d.ops);
    let progress =
        d.pipe.accept_set_address(state, buffers, ops, SendStage::Sending, 0x2a, status);
    assert_eq!(progress, Progress::Ready(()));
}

#[test]
fn priming_for_setup() {
    let mut state = UsbFsState::new();
    let mut ops = Vec::new();
    state.ep_out_ready[0] = 8;
    state.ep_out_token[0] = 0x0d;
    prime_ep0_out_setup(&mut state, &mut ops);
    assert_eq!(state.ep_out_ready[0], OUT_EMPTY);
    assert_eq!(state.ep_out_token[0], 0);
    let id = BufferId { ep: 0, direction: Direction::Out, odd: false };
    let mut expected = vec![
        UsbOp::BdAddr { index: 0, buffer: Some(id) },
        UsbOp::Fence,
        UsbOp::BdCtrl { index: 0, ctrl: 0x0008_0088 },
    ];
    resume_ep0_token_processing(&mut expected);
    assert_eq!(ops, expected);
    assert!(get_odd(&state.ep_out_odd, 0));
}

#[test]
fn endpoint_register_values() {
    let mut ops = Vec::new();
    endpoint_write(&mut ops, 15, 0x1d);
    assert_eq!(ops, vec![UsbOp::Write { reg: UsbReg::Endpt(15), value: 0x1d }]);
    assert_eq!(modified(0b1010, 0b0010, 0b0101), 0b1101);
}

#[test]
fn buffers_are_separate() {
    let mut buffers = EndpointBuffers::new();
    buffers.copy_to_in_buf(3, true, b"abc");
    assert_eq!(&buffers.ep_buf_in[3][1][..4], b"abc\0");
    assert_eq!(buffers.ep_buf_in[3][0], [0; 64]);
    assert_eq!(buffers.ep_buf_out[3][1], [0; 64]);
    buffers.ep_buf_out[2][0] = [9; 64];
    let mut buf = [1u8; 5];
    buffers.copy_from_out_buf(2, false, &mut buf, 3);
    assert_eq!(buf, [9, 9, 9, 1, 1]);
}
