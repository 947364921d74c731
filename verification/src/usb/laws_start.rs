//! What a start leaves behind, and what allocations promise.
use super::address::EndpointAddress;
use super::bdt;
use super::bus::Bus;
use super::clock;
use super::control::ControlPipe;
use super::driver;
use super::driver::{Driver, PortModel};
use super::effects;
use super::effects::{added, empty_table, kept, with_setup};
use super::endpoint::{EndpointIn, EndpointOut};
use super::hardware;
use super::hardware::{UsbCore, UsbHardware};
use super::interrupt;
use super::laws;
use super::laws_bus::{index_of, sends};
use super::laws_interrupt;
use super::laws_interrupt::afresh;
use super::ops::{ClockOp, UsbOp, UsbReg};
use super::pipe;
use super::state::{UsbFsState, UsbModel};
use super::types::{Direction, EndpointAllocError, EndpointType, EP_COUNT};
use crate::mask;
use crate::mask::bit_is_set;
use vstd::prelude::*;

verus! {

/// The first operations on the controller in a start.
spec fn wake_up() -> Seq<UsbOp> {
    seq![
        UsbOp::Write { reg: UsbReg::Usbtrc0, value: 0x80 },
        UsbOp::Spin(200_000),
        UsbOp::Write { reg: UsbReg::Ctl, value: 0 },
        UsbOp::EnableUsb,
        UsbOp::EnableIrc,
        UsbOp::EnableClockRecovery,
    ]
}

/// The interrupt registers in a start.
spec fn interrupt_setup() -> Seq<UsbOp> {
    seq![
        UsbOp::Write { reg: UsbReg::Usbctrl, value: 0x00 },
        UsbOp::Write { reg: UsbReg::Istat, value: 0xff },
        UsbOp::Write { reg: UsbReg::Errstat, value: 0xff },
        UsbOp::Write { reg: UsbReg::Erren, value: 0xff },
        UsbOp::Write { reg: UsbReg::Inten, value: 0xbb },
        UsbOp::Write { reg: UsbReg::ClkRecoverIntEn, value: 0x00 },
    ]
}

/// The clocks in a start.
spec fn all_clocks() -> Seq<UsbOp> {
    clock::clock_ops() + seq![UsbOp::Clock(ClockOp::EnableAndReset)] + clock::unhalt_ops()
}

/// The controller as a whole once it is awake.
proof fn lemma_wake_up(core: UsbCore)
    ensures
        core.run(wake_up()) == (UsbCore {
            enabled: true,
            odd_reset: false,
            token_busy: false,
            irc: true,
            recovery: true,
            was_reset: true,
            settled: true,
            ..core
        }),
{
    reveal(UsbCore::step);
    mask::lemma_single_bits();
    mask::lemma_bit_of_single(7, 4);
    mask::lemma_bit_of_single(7, 7);
    mask::lemma_bit_of_single(0, 0);
    mask::lemma_bit_of_single(0, 1);
    mask::lemma_bit_of_single(0, 5);
    let w = wake_up();
    hardware::lemma_core_six(core, w[0], w[1], w[2], w[3], w[4], w[5]);
    assert(w =~= seq![w[0], w[1], w[2], w[3], w[4], w[5]]);
}

/// The interrupt registers once they are set up.
proof fn lemma_interrupt_setup(core: UsbCore)
    ensures
        core.run(interrupt_setup()) == (UsbCore {
            usbctrl: 0,
            istat: 0,
            errstat: 0,
            erren: 0xff,
            inten: 0xbb,
            recover_int_en: 0,
            ..core
        }),
{
    reveal(UsbCore::step);
    mask::lemma_modified_one_way(core.istat, 0);
    mask::lemma_modified_one_way(core.errstat, 0);
    let w = interrupt_setup();
    hardware::lemma_core_six(core, w[0], w[1], w[2], w[3], w[4], w[5]);
    assert(w =~= seq![w[0], w[1], w[2], w[3], w[4], w[5]]);
}

/// The page registers.
proof fn lemma_pages(core: UsbCore, addr: u32)
    ensures
        core.run(driver::page_ops(addr)) == (UsbCore {
            pages: (((addr >> 8) as u8) & 0xfe, (addr >> 16) as u8, (addr >> 24) as u8),
            ..core
        }),
{
    let p = driver::page_ops(addr);
    hardware::lemma_core_three(core, p[0], p[1], p[2]);
    assert(p =~= seq![p[0], p[1], p[2]]);
    reveal(UsbCore::step);
}

/// The clock recovery interrupt.
pub proof fn lemma_recovery(core: UsbCore)
    ensures
        core.run(pipe::recovery_ops()) == (UsbCore { trc_int: false, recover_int: false, ..core }),
{
    mask::lemma_single_bits();
    mask::lemma_bit_of_single(4, 4);
    mask::lemma_bit_of_single(4, 7);
    let r = pipe::recovery_ops();
    hardware::lemma_core_two(core, r[0], r[1]);
    assert(r =~= seq![r[0], r[1]]);
    reveal(UsbCore::step);
}

/// The odd reset.
proof fn lemma_odd_reset(core: UsbCore)
    ensures
        core.run(seq![UsbOp::SetOddReset(true), UsbOp::SetOddReset(false)]) == (UsbCore {
            odd_reset: false,
            at_even: true,
            ..core
        }),
{
    hardware::lemma_core_two(core, UsbOp::SetOddReset(true), UsbOp::SetOddReset(false));
    reveal(UsbCore::step);
}

/// The last operations of a start.
proof fn lemma_show_up(core: UsbCore)
    ensures
        core.run(
            seq![
                UsbOp::Write { reg: UsbReg::Endpt(0), value: interrupt::ep0_bits() },
                UsbOp::EnablePullup,
                UsbOp::UnpendInterrupt,
                UsbOp::EnableInterrupt,
            ],
        ) == (UsbCore { pullup: true, pending: false, unmasked: true, ..core }),
{
    reveal(UsbCore::step);
    let write = UsbOp::Write { reg: UsbReg::Endpt(0), value: interrupt::ep0_bits() };
    hardware::lemma_core_three(core, write, UsbOp::EnablePullup, UsbOp::UnpendInterrupt);
    let front = seq![write, UsbOp::EnablePullup, UsbOp::UnpendInterrupt];
    hardware::lemma_core_push(core, front, UsbOp::EnableInterrupt);
    assert(seq![write, UsbOp::EnablePullup, UsbOp::UnpendInterrupt, UsbOp::EnableInterrupt]
        =~= front.push(UsbOp::EnableInterrupt));
}

/// The controller as a whole after a start.
proof fn lemma_start_core(core: UsbCore, addr: u32)
    ensures
        core.run(driver::start_ops(addr)) == (UsbCore {
            enabled: true,
            odd_reset: false,
            token_busy: false,
            at_even: true,
            pullup: true,
            irc: true,
            recovery: true,
            pages: (((addr >> 8) as u8) & 0xfe, (addr >> 16) as u8, (addr >> 24) as u8),
            usbctrl: 0,
            inten: 0xbb,
            erren: 0xff,
            recover_int_en: 0,
            istat: 0,
            errstat: 0,
            trc_int: false,
            recover_int: false,
            was_reset: true,
            settled: true,
            rushed: core.rushed,
            pending: false,
            unmasked: true,
        }),
{
    let a = all_clocks();
    let b = wake_up();
    let c = bdt::clear_ops(bdt::BDT_ENTRY_COUNT as int) + seq![UsbOp::Clock(ClockOp::RemapUsb0)];
    let d = driver::page_ops(addr);
    let e = interrupt_setup();
    let f = pipe::recovery_ops();
    let g = seq![UsbOp::SetOddReset(true), UsbOp::SetOddReset(false)];
    let h = UsbModel::fresh().setup_ops();
    let i = seq![
        UsbOp::Write { reg: UsbReg::Endpt(0), value: interrupt::ep0_bits() },
        UsbOp::EnablePullup,
        UsbOp::UnpendInterrupt,
        UsbOp::EnableInterrupt,
    ];
    assert(driver::start_ops(addr) =~= a + b + c + d + e + f + g + h + i);
    hardware::lemma_core_beside(core, a);
    hardware::lemma_core_concat(core, a, b);
    lemma_wake_up(core);
    let c1 = core.run(b);
    hardware::lemma_core_concat(core, a + b, c);
    hardware::lemma_core_beside(c1, c);
    hardware::lemma_core_concat(core, a + b + c, d);
    lemma_pages(c1, addr);
    let c2 = c1.run(d);
    hardware::lemma_core_concat(core, a + b + c + d, e);
    lemma_interrupt_setup(c2);
    let c3 = c2.run(e);
    hardware::lemma_core_concat(core, a + b + c + d + e, f);
    lemma_recovery(c3);
    let c4 = c3.run(f);
    hardware::lemma_core_concat(core, a + b + c + d + e + f, g);
    lemma_odd_reset(c4);
    let c5 = c4.run(g);
    hardware::lemma_core_concat(core, a + b + c + d + e + f + g, h);
    effects::lemma_setup_core(c5, UsbModel::fresh());
    let c6 = c5.run(h);
    hardware::lemma_core_concat(core, a + b + c + d + e + f + g + h, i);
    lemma_show_up(c6);
}

/// Whatever the controller was before, after a start it is on, not held in reset, goes on
/// with the even buffers and with tokens, recovers its clock from the bus, and is shown to
/// the host by the pull-up. Its table registers hold the address of the table, down to 512
/// bytes. Its flags are down, the interrupts for errors, resets, tokens, suspend, resume and
/// stalls are on, those of the clock recovery off, nothing is pending and the interrupt is
/// unmasked. The time that its reset takes was kept.
pub proof fn law_start_leaves_it_on(
    driver: Driver,
    state: &mut UsbFsState,
    ops: &mut Vec<UsbOp>,
    control_size: u16,
    table: u32,
    parts: (Bus, ControlPipe),
    core: UsbCore,
)
    requires
        call_ensures(Driver::start, (driver, state, ops, control_size, table), parts),
    ensures
        ({
            let there = core.run(added(old(ops)@, final(ops)@));
            &&& there.enabled && !there.odd_reset && !there.token_busy && there.at_even
            &&& there.pullup && there.irc && there.recovery
            &&& there.pages.0 * 0x100 + there.pages.1 * 0x1_0000 + there.pages.2 * 0x100_0000
                == table as int / 512 * 512
            &&& there.usbctrl == 0
            &&& there.istat == 0 && there.errstat == 0 && !there.trc_int && !there.recover_int
            &&& there.inten == 0xbb && there.erren == 0xff && there.recover_int_en == 0
            &&& there.was_reset && there.settled && there.rushed == core.rushed
            &&& !there.pending && there.unmasked
        }),
{
    effects::lemma_added(old(ops)@, driver::start_ops(table));
    lemma_start_core(core, table);
    let p1: u8 = ((table >> 8) as u8) & 0xfe;
    let p2: u8 = (table >> 16) as u8;
    let p3: u8 = (table >> 24) as u8;
    assert(p1 * 0x100 + p2 * 0x1_0000 + p3 * 0x100_0000 == table / 512 * 512) by (bit_vector)
        requires
            p1 == ((table >> 8) as u8) & 0xfe,
            p2 == (table >> 16) as u8,
            p3 == (table >> 24) as u8,
    ;
}

/// After a start the controller has one buffer, for a SETUP packet of endpoint zero, which
/// is open with its handshake on; the state is fresh; and the bus and the pipe know the
/// endpoints as they were allocated, endpoint zero with the size of the control pipe.
pub proof fn law_start_is_ready_for_setup(
    driver: Driver,
    state: &mut UsbFsState,
    ops: &mut Vec<UsbOp>,
    control_size: u16,
    table: u32,
    parts: (Bus, ControlPipe),
    size: usize,
    hw: UsbHardware,
    is_in: bool,
)
    requires
        hw.wf(),
        call_ensures(Driver::start, (driver, state, ops, control_size, table), parts),
        call_ensures(ControlPipe::max_packet_size, (&parts.1,), size),
    ensures
        ({
            let there = hw.run(added(old(ops)@, final(ops)@));
            let port = if is_in {
                driver.ins()
            } else {
                driver.outs()
            };
            &&& kept(old(ops)@, final(ops)@)
            &&& there.endpt[0] == 0x0d
            &&& there.bdt == with_setup(empty_table(), false)
            &&& final(state)@ == afresh(0)
            &&& parts.0.sizes(is_in) == port.sizes.update(0, control_size)
            &&& parts.0.types(is_in) == port.types
            &&& !parts.0.powered()
            &&& parts.1.packet_size() == control_size
            &&& size == control_size
        }),
{
    let queue = driver::start_ops(table);
    effects::lemma_added(old(ops)@, queue);
    laws::law_start_is_ready(hw, table);
    laws_interrupt::lemma_open_zero();
    hardware::lemma_owned_word(8, false);
    assert(hw.run(queue).bdt =~= with_setup(empty_table(), false));
    assert(UsbModel::fresh().setup_primed() =~= afresh(0));
}

/// The host sees the device only when it is ready, and interrupts come last: before the
/// pull-up is switched on the controller is on and has its table and the buffer for the
/// first SETUP packet, and endpoint zero is open; the interrupt is unmasked by the last
/// operation alone, behind the one that drops what is pending.
pub proof fn law_start_shows_up_last(
    driver: Driver,
    state: &mut UsbFsState,
    ops: &mut Vec<UsbOp>,
    control_size: u16,
    table: u32,
    parts: (Bus, ControlPipe),
    i: int,
)
    requires
        call_ensures(Driver::start, (driver, state, ops, control_size, table), parts),
        0 <= i < added(old(ops)@, final(ops)@).len(),
    ensures
        ({
            let queue = added(old(ops)@, final(ops)@);
            let n = queue.len();
            &&& queue[i] == UsbOp::EnableInterrupt <==> i == n - 1
            &&& queue[i] == UsbOp::UnpendInterrupt <==> i == n - 2
            &&& queue[i] == UsbOp::EnablePullup <==> i == n - 3
        }),
{
    effects::lemma_added(old(ops)@, driver::start_ops(table));
}

/// A new driver has nothing allocated but endpoint zero, in either direction.
pub proof fn law_new_driver_is_empty(driver: Driver, i: int)
    requires
        call_ensures(Driver::new, (), driver),
        0 <= i < 8,
    ensures
        driver.ins().alloc[i] == (i == 0),
        driver.outs().alloc[i] == (i == 0),
        driver.ins().sizes[i] == 0,
        driver.outs().sizes[i] == 0,
        driver.ins().types[i] is None,
        driver.outs().types[i] is None,
        driver.wf(),
{
}

/// Whether a request can be granted endpoint `n`: it is free, and the one that was asked
/// for, or the lowest free one where none was.
pub open spec fn due(port: PortModel, is_in: bool, addr: Option<EndpointAddress>, n: int) -> bool {
    &&& 1 <= n < 8
    &&& !port.alloc[n]
    &&& match addr {
        Some(a) => index_of(a) == n && sends(a) == is_in,
        None => forall|j: int| 1 <= j < n ==> #[trigger] port.alloc[j],
    }
}

/// What is granted, from what is known of it.
proof fn lemma_due(
    port: PortModel,
    is_in: bool,
    ep_type: EndpointType,
    addr: Option<EndpointAddress>,
    size: u16,
)
    ensures
        ({
            let direction = if is_in {
                Direction::In
            } else {
                Direction::Out
            };
            match port.granted(direction, ep_type, addr, size) {
                Some(n) => ep_type != EndpointType::Isochronous && size <= 64 && due(
                    port,
                    is_in,
                    addr,
                    n,
                ),
                None => ep_type == EndpointType::Isochronous || size > 64 || forall|n: int|
                    !#[trigger] due(port, is_in, addr, n),
            }
        }),
{
    let direction = if is_in {
        Direction::In
    } else {
        Direction::Out
    };
    if ep_type != EndpointType::Isochronous && size <= 64 {
        driver::law_any_endpoint(port, direction, ep_type, size);
    }
}

/// A request for an IN endpoint fails exactly if it is isochronous, longer than 64 bytes, or
/// if what it asks for cannot be had. Else it gets the endpoint that it asked for, or the
/// lowest free one; the endpoint is described as it was asked for, and is from then on
/// taken, with its size and its type. The other direction is untouched.
pub proof fn law_allocate_in(
    driver: &mut Driver,
    ep_type: EndpointType,
    addr: Option<EndpointAddress>,
    size: u16,
    interval: u8,
    result: Result<EndpointIn, EndpointAllocError>,
)
    requires
        call_ensures(Driver::alloc_endpoint_in, (driver, ep_type, addr, size, interval), result),
    ensures
        final(driver).outs() == old(driver).outs(),
        ({
            let port = old(driver).ins();
            match result {
                Ok(endpoint) => {
                    let info = endpoint.described();
                    let n = index_of(info.addr);
                    &&& ep_type != EndpointType::Isochronous && size <= 64
                    &&& due(port, true, addr, n)
                    &&& sends(info.addr)
                    &&& info.ep_type == ep_type
                    &&& info.max_packet_size == size
                    &&& info.interval_ms == interval
                    &&& final(driver).ins() == PortModel {
                        alloc: port.alloc.update(n, true),
                        sizes: port.sizes.update(n, size),
                        types: port.types.update(n, Some(ep_type)),
                    }
                },
                Err(_) => {
                    &&& final(driver).ins() == port
                    &&& ep_type == EndpointType::Isochronous || size > 64 || forall|n: int|
                        !#[trigger] due(port, true, addr, n)
                },
            }
        }),
{
    lemma_due(driver.ins(), true, ep_type, addr, size);
}

/// The same for an OUT endpoint.
pub proof fn law_allocate_out(
    driver: &mut Driver,
    ep_type: EndpointType,
    addr: Option<EndpointAddress>,
    size: u16,
    interval: u8,
    result: Result<EndpointOut, EndpointAllocError>,
)
    requires
        call_ensures(Driver::alloc_endpoint_out, (driver, ep_type, addr, size, interval), result),
    ensures
        final(driver).ins() == old(driver).ins(),
        ({
            let port = old(driver).outs();
            match result {
                Ok(endpoint) => {
                    let info = endpoint.described();
                    let n = index_of(info.addr);
                    &&& ep_type != EndpointType::Isochronous && size <= 64
                    &&& due(port, false, addr, n)
                    &&& !sends(info.addr)
                    &&& info.ep_type == ep_type
                    &&& info.max_packet_size == size
                    &&& info.interval_ms == interval
                    &&& final(driver).outs() == PortModel {
                        alloc: port.alloc.update(n, true),
                        sizes: port.sizes.update(n, size),
                        types: port.types.update(n, Some(ep_type)),
                    }
                },
                Err(_) => {
                    &&& final(driver).outs() == port
                    &&& ep_type == EndpointType::Isochronous || size > 64 || forall|n: int|
                        !#[trigger] due(port, false, addr, n)
                },
            }
        }),
{
    lemma_due(driver.outs(), false, ep_type, addr, size);
}

} // verus!
