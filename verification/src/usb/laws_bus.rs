//! What switching endpoints on and off, and stalling them, does to the controller.
use super::address::EndpointAddress;
use super::bdt;
use super::bus;
use super::bus::Bus;
use super::control::ControlPipe;
use super::driver::Driver;
use super::effects;
use super::effects::{
    added, kept, packet_awaited, resumed, room_for, with_out, with_pair,
};
use super::hardware;
use super::hardware::{UsbCore, UsbHardware};
use super::ops::{UsbOp, ENDPT_EPSTALL};
use super::pipe;
use super::state;
use super::state::{UsbFsState, UsbModel};
use super::types::{Direction, EndpointType, Unsupported, EP_COUNT, HW_EP_COUNT};
use crate::mask;
use crate::mask::bit_is_set;
use vstd::prelude::*;

verus! {

/// Index of an endpoint: the seven low bits of its address.
pub open spec fn index_of(addr: EndpointAddress) -> int {
    addr.raw as int % 128
}

/// Whether an endpoint sends to the host: bit 7 of its address.
pub open spec fn sends(addr: EndpointAddress) -> bool {
    addr.raw >= 128
}

/// Whether switching an endpoint on or off does nothing: the driver does not serve it, or it
/// is to be switched on and was not allocated.
pub open spec fn left_alone(sizes: Seq<u16>, addr: EndpointAddress, enabled: bool) -> bool {
    index_of(addr) >= 8 || (enabled && sizes[index_of(addr)] == 0)
}

/// Where in an ENDPT register an endpoint is opened.
pub open spec fn open_bit(is_in: bool) -> int {
    if is_in {
        2
    } else {
        3
    }
}

/// The state of an endpoint that starts over: DATA0 in the even buffer comes next. Of an
/// OUT endpoint that packet is awaited already.
pub open spec fn started_over(m: UsbModel, ep: int, is_in: bool) -> UsbModel {
    if is_in {
        UsbModel {
            in_data1: m.in_data1.update(ep, false),
            in_odd: m.in_odd.update(ep, false),
            ..m
        }
    } else {
        UsbModel {
            out_ready: m.out_ready.update(ep, 0xffff),
            out_token: m.out_token.update(ep, 0),
            out_data1: m.out_data1.update(ep, true),
            out_odd: m.out_odd.update(ep, true),
            ..m
        }
    }
}

/// What the bits of an ENDPT register become when an endpoint is switched on or off.
proof fn lemma_endpt_bits(bits: u8, is_in: bool, ep_type: Option<EndpointType>, k: int)
    requires
        0 <= k < 8,
    ensures
        bit_is_set(bus::enabled_bits(bits, is_in, ep_type), k) == (if k == 0 {
            ep_type != Some(EndpointType::Isochronous)
        } else {
            k == 4 || k == open_bit(is_in) || bit_is_set(bits, k)
        }),
        bit_is_set(bus::disabled_bits(bits, is_in), k) == (k != open_bit(is_in) && bit_is_set(
            bits,
            k,
        )),
{
    mask::lemma_single_bits();
    mask::lemma_bit_of_single(0, k);
    mask::lemma_bit_of_single(2, k);
    mask::lemma_bit_of_single(3, k);
    mask::lemma_bit_of_single(4, k);
    mask::lemma_bit_of(bits, 0x01, k);
    mask::lemma_bit_of(bits, 0x04, k);
    mask::lemma_bit_of(bits, 0x08, k);
    mask::lemma_bit_of(0x04, 0x10, k);
    mask::lemma_bit_of(0x08, 0x10, k);
    let shaken = bus::handshake_bits(bits, ep_type);
    mask::lemma_bit_of(shaken, 0x04u8 | 0x10u8, k);
    mask::lemma_bit_of(shaken, 0x08u8 | 0x10u8, k);
}

/// An endpoint that is switched on has its handshake on unless it is isochronous, keeps
/// SETUP packets away, and is open in its direction; every other bit of its register, its
/// stall and its other direction among them, is as it was, and so are the other registers.
pub proof fn law_switched_on_register(
    bus: &mut Bus,
    state: &mut UsbFsState,
    ops: &mut Vec<UsbOp>,
    addr: EndpointAddress,
    bits: u8,
    hw: UsbHardware,
    k: int,
)
    requires
        hw.wf(),
        0 <= k < 8,
        call_ensures(Bus::endpoint_set_enabled, (bus, state, ops, addr, true, bits), ()),
        !left_alone(old(bus).sizes(sends(addr)), addr, true),
        bits == hw.endpt[index_of(addr)],
    ensures
        ({
            let ep = index_of(addr);
            let there = hw.run(added(old(ops)@, final(ops)@));
            let ep_type = old(bus).types(sends(addr))[ep];
            &&& there.endpt == hw.endpt.update(ep, there.endpt[ep])
            &&& there.addr == hw.addr
            &&& bit_is_set(there.endpt[ep], k) == (if k == 0 {
                ep_type != Some(EndpointType::Isochronous)
            } else if k == 4 || k == open_bit(sends(addr)) {
                true
            } else {
                bit_is_set(hw.endpt[ep], k)
            })
        }),
{
    let ep = index_of(addr);
    let is_in = sends(addr);
    let size = bus.sizes(is_in)[ep];
    let ep_type = bus.types(is_in)[ep];
    state::law_state_is_sized(*state);
    effects::lemma_added(old(ops)@, state@.enable_ops(ep, is_in, size, ep_type, bits));
    lemma_enable_effect(hw, arbitrary(), state@, ep, is_in, size, ep_type, bits);
    lemma_endpt_bits(bits, is_in, ep_type, k);
}

/// The queue that switches an endpoint on.
proof fn lemma_enable_effect(
    hw: UsbHardware,
    core: UsbCore,
    m: UsbModel,
    ep: int,
    is_in: bool,
    size: u16,
    ep_type: Option<EndpointType>,
    bits: u8,
)
    requires
        hw.wf(),
        m.sized(),
        0 <= ep < EP_COUNT,
    ensures
        ({
            let queue = m.enable_ops(ep, is_in, size, ep_type, bits);
            &&& hw.run(queue) == UsbHardware {
                endpt: hw.endpt.update(ep, bus::enabled_bits(bits, is_in, ep_type)),
                bdt: if is_in {
                    with_pair(hw.bdt, ep, true, 0)
                } else {
                    with_out(hw.bdt, ep, false, room_for(size), false)
                },
                ..hw
            }
            &&& core.run(queue) == (if is_in {
                core
            } else {
                resumed(core, ep)
            })
        }),
{
    let rewound = m.out_rewound(ep);
    let front = if is_in {
        bdt::release_pair_ops(ep, true)
    } else {
        rewound.out_ops(ep, size)
    };
    let write = bus::endpt_op(ep, bus::enabled_bits(bits, is_in, ep_type));
    effects::lemma_release_effect(hw, core, ep, true);
    effects::lemma_out_effect(hw, core, rewound, ep, size);
    hardware::lemma_run_push(hw, front, write);
    hardware::lemma_core_push(core, front, write);
    hardware::lemma_core_one(core.run(front), write);
    hardware::lemma_core_beside(core.run(front), seq![write]);
}

/// An endpoint that is switched on starts over: the controller holds no packet of an IN
/// endpoint, and has the even buffer of an OUT endpoint for a DATA0 packet of up to its
/// size. No other endpoint is touched.
pub proof fn law_switched_on_starts_over(
    bus: &mut Bus,
    state: &mut UsbFsState,
    ops: &mut Vec<UsbOp>,
    addr: EndpointAddress,
    bits: u8,
    hw: UsbHardware,
    core: UsbCore,
)
    requires
        hw.wf(),
        call_ensures(Bus::endpoint_set_enabled, (bus, state, ops, addr, true, bits), ()),
        !left_alone(old(bus).sizes(sends(addr)), addr, true),
    ensures
        ({
            let ep = index_of(addr);
            let queue = added(old(ops)@, final(ops)@);
            &&& kept(old(ops)@, final(ops)@)
            &&& *final(bus) == *old(bus)
            &&& final(state)@ == started_over(old(state)@, ep, sends(addr))
            &&& hw.run(queue).bdt == (if sends(addr) {
                with_pair(hw.bdt, ep, true, 0)
            } else {
                with_out(hw.bdt, ep, false, room_for(old(bus).sizes(false)[ep]), false)
            })
            &&& core.run(queue) == (if sends(addr) {
                core
            } else {
                resumed(core, ep)
            })
        }),
{
    let ep = index_of(addr);
    let is_in = sends(addr);
    let size = bus.sizes(is_in)[ep];
    let ep_type = bus.types(is_in)[ep];
    state::law_state_is_sized(*state);
    effects::lemma_added(old(ops)@, state@.enable_ops(ep, is_in, size, ep_type, bits));
    lemma_enable_effect(hw, core, state@, ep, is_in, size, ep_type, bits);
    assert(state@.restarted(ep, is_in) =~= started_over(state@, ep, is_in));
}

/// An endpoint that is switched off is closed in its direction and keeps all else of its
/// register; the controller holds none of its packets, and who waits for it is woken.
pub proof fn law_switched_off(
    bus: &mut Bus,
    state: &mut UsbFsState,
    ops: &mut Vec<UsbOp>,
    addr: EndpointAddress,
    bits: u8,
    hw: UsbHardware,
    core: UsbCore,
    k: int,
)
    requires
        hw.wf(),
        0 <= k < 8,
        call_ensures(Bus::endpoint_set_enabled, (bus, state, ops, addr, false, bits), ()),
        index_of(addr) < 8,
        bits == hw.endpt[index_of(addr)],
    ensures
        ({
            let ep = index_of(addr);
            let queue = added(old(ops)@, final(ops)@);
            let there = hw.run(queue);
            &&& kept(old(ops)@, final(ops)@)
            &&& *final(bus) == *old(bus)
            &&& final(state)@ == old(state)@
            &&& there.addr == hw.addr
            &&& there.endpt == hw.endpt.update(ep, there.endpt[ep])
            &&& bit_is_set(there.endpt[ep], k) == (k != open_bit(sends(addr)) && bit_is_set(
                hw.endpt[ep],
                k,
            ))
            &&& there.bdt == with_pair(hw.bdt, ep, sends(addr), 0)
            &&& core.run(queue) == core
            &&& queue.contains(
                if sends(addr) {
                    UsbOp::WakeIn(ep as usize)
                } else {
                    UsbOp::WakeOut(ep as usize)
                },
            )
        }),
{
    let ep = index_of(addr);
    let is_in = sends(addr);
    let queue = bus::disable_ops(ep, is_in, bits);
    effects::lemma_added(old(ops)@, queue);
    lemma_endpt_bits(bits, is_in, None, k);
    let release = bdt::release_pair_ops(ep, is_in);
    let wake = if is_in {
        UsbOp::WakeIn(ep as usize)
    } else {
        UsbOp::WakeOut(ep as usize)
    };
    let write = bus::endpt_op(ep, bus::disabled_bits(bits, is_in));
    effects::lemma_release_effect(hw, core, ep, is_in);
    hardware::lemma_run_concat(hw, release, seq![wake, write]);
    hardware::lemma_run_two(hw.run(release), wake, write);
    hardware::lemma_core_beside(core, queue);
    assert(queue[2] == wake);
}

/// Nothing happens to an endpoint that the driver does not serve, nor when one that was not
/// allocated is to be switched on.
pub proof fn law_left_alone(
    bus: &mut Bus,
    state: &mut UsbFsState,
    ops: &mut Vec<UsbOp>,
    addr: EndpointAddress,
    enabled: bool,
    bits: u8,
)
    requires
        call_ensures(Bus::endpoint_set_enabled, (bus, state, ops, addr, enabled, bits), ()),
        left_alone(old(bus).sizes(sends(addr)), addr, enabled),
    ensures
        *final(bus) == *old(bus),
        final(state)@ == old(state)@,
        final(ops)@ == old(ops)@,
{
}

/// Every endpoint that was allocated, whatever its type, has its handshake on once it is
/// switched on: an isochronous one is never given out. It is the one of the same number and
/// direction whose size and type the allocation took down.
pub proof fn law_allocated_endpoint_shakes_hands(
    driver: Driver,
    state: &mut UsbFsState,
    ops: &mut Vec<UsbOp>,
    control_size: u16,
    table: u32,
    parts: (Bus, ControlPipe),
    bus: &mut Bus,
    later: &mut UsbFsState,
    later_ops: &mut Vec<UsbOp>,
    addr: EndpointAddress,
    bits: u8,
    hw: UsbHardware,
)
    requires
        hw.wf(),
        driver.wf(),
        call_ensures(Driver::start, (driver, state, ops, control_size, table), parts),
        *old(bus) == parts.0,
        1 <= index_of(addr) < 8,
        (if sends(addr) {
            driver.ins()
        } else {
            driver.outs()
        }).sizes[index_of(addr)] != 0,
        bits == hw.endpt[index_of(addr)],
        call_ensures(Bus::endpoint_set_enabled, (bus, later, later_ops, addr, true, bits), ()),
    ensures
        ({
            let there = hw.run(added(old(later_ops)@, final(later_ops)@));
            &&& bit_is_set(there.endpt[index_of(addr)], 0)
            &&& bit_is_set(there.endpt[index_of(addr)], open_bit(sends(addr)))
        }),
{
    law_switched_on_register(bus, later, later_ops, addr, bits, hw, 0);
    law_switched_on_register(bus, later, later_ops, addr, bits, hw, open_bit(sends(addr)));
}

/// A stalled endpoint has its stall bit up and both its buffers answer with STALL; nothing
/// else changes. An endpoint that the driver does not serve is left alone.
pub proof fn law_stalled(
    bus: &mut Bus,
    state: &mut UsbFsState,
    ops: &mut Vec<UsbOp>,
    addr: EndpointAddress,
    hw: UsbHardware,
    core: UsbCore,
)
    requires
        hw.wf(),
        call_ensures(Bus::endpoint_set_stalled, (bus, state, ops, addr, true), ()),
    ensures
        ({
            let ep = index_of(addr);
            let queue = added(old(ops)@, final(ops)@);
            &&& kept(old(ops)@, final(ops)@)
            &&& *final(bus) == *old(bus)
            &&& final(state)@ == old(state)@
            &&& core.run(queue) == core
            &&& hw.run(queue) == (if ep < 8 {
                UsbHardware {
                    endpt: hw.endpt.update(ep, hw.endpt[ep] | 0x02),
                    bdt: with_pair(hw.bdt, ep, sends(addr), 0x8c),
                    ..hw
                }
            } else {
                hw
            })
        }),
{
    let ep = index_of(addr);
    let is_in = sends(addr);
    effects::lemma_added(old(ops)@, seq![]);
    assert(old(ops)@ + Seq::<UsbOp>::empty() =~= old(ops)@);
    assert(hw.run(seq![]) == hw);
    hardware::lemma_core_beside(core, seq![]);
    if ep < 8 {
        let queue = bus::stall_endpoint_ops(ep, is_in);
        effects::lemma_added(old(ops)@, queue);
        effects::lemma_stall_effect(hw, core, ep, is_in);
        let pair = bdt::stall_ops(bdt::descriptor(ep, is_in, false)) + bdt::stall_ops(
            bdt::descriptor(ep, is_in, true),
        );
        let set = UsbOp::ModifyEndpt { ep: ep as usize, clear: 0, set: ENDPT_EPSTALL };
        hardware::lemma_run_concat(hw, pair, seq![set]);
        hardware::lemma_run_one(hw.run(pair), set);
        hardware::lemma_core_beside(core, queue);
        mask::lemma_modified_one_way(hw.endpt[ep], 0x02);
    }
}

/// An endpoint whose stall is lifted has its stall bit down and all else of its register as
/// it was, and starts over as one that is switched on. Tokens of endpoint zero are
/// processed again.
pub proof fn law_stall_lifted(
    bus: &mut Bus,
    state: &mut UsbFsState,
    ops: &mut Vec<UsbOp>,
    addr: EndpointAddress,
    hw: UsbHardware,
    core: UsbCore,
)
    requires
        hw.wf(),
        call_ensures(Bus::endpoint_set_stalled, (bus, state, ops, addr, false), ()),
        index_of(addr) < 8,
    ensures
        ({
            let ep = index_of(addr);
            let queue = added(old(ops)@, final(ops)@);
            let taken_back = with_pair(hw.bdt, ep, sends(addr), 0);
            &&& kept(old(ops)@, final(ops)@)
            &&& *final(bus) == *old(bus)
            &&& final(state)@ == started_over(old(state)@, ep, sends(addr))
            &&& core.run(queue) == resumed(core, ep)
            &&& hw.run(queue) == UsbHardware {
                endpt: hw.endpt.update(ep, hw.endpt[ep] & !0x02u8),
                bdt: if sends(addr) {
                    taken_back
                } else {
                    with_out(taken_back, ep, false, room_for(old(bus).sizes(false)[ep]), false)
                },
                ..hw
            }
        }),
{
    let m = state@;
    let ep = index_of(addr);
    let is_in = sends(addr);
    let size = bus.sizes(false)[ep];
    state::law_state_is_sized(*state);
    let queue = m.unstall_ops(ep, is_in, size);
    effects::lemma_added(old(ops)@, queue);
    assert(m.restarted(ep, is_in) =~= started_over(m, ep, is_in));
    lemma_unstall_effect(hw, core, m, ep, is_in, size);
}

/// The queue that lifts a stall.
proof fn lemma_unstall_effect(
    hw: UsbHardware,
    core: UsbCore,
    m: UsbModel,
    ep: int,
    is_in: bool,
    size: u16,
)
    requires
        hw.wf(),
        m.sized(),
        0 <= ep < EP_COUNT,
    ensures
        ({
            let queue = m.unstall_ops(ep, is_in, size);
            let taken_back = with_pair(hw.bdt, ep, is_in, 0);
            &&& core.run(queue) == resumed(core, ep)
            &&& hw.run(queue) == UsbHardware {
                endpt: hw.endpt.update(ep, hw.endpt[ep] & !0x02u8),
                bdt: if is_in {
                    taken_back
                } else {
                    with_out(taken_back, ep, false, room_for(size), false)
                },
                ..hw
            }
        }),
{
    mask::lemma_modified_one_way(hw.endpt[ep], 0x02);
    let clear = seq![UsbOp::ModifyEndpt { ep: ep as usize, clear: ENDPT_EPSTALL, set: 0 }];
    let release = bdt::release_pair_ops(ep, is_in);
    let middle = if is_in {
        seq![]
    } else {
        m.out_rewound(ep).out_ops(ep, size)
    };
    let resume = pipe::resume_ops(ep);
    hardware::lemma_run_one(hw, clear[0]);
    hardware::lemma_core_beside(core, clear);
    let g1 = hw.run(clear);
    hardware::lemma_run_concat(hw, clear, release);
    hardware::lemma_core_concat(core, clear, release);
    effects::lemma_release_effect(g1, core, ep, is_in);
    let g2 = g1.run(release);
    hardware::lemma_run_concat(hw, clear + release, middle);
    hardware::lemma_core_concat(core, clear + release, middle);
    effects::lemma_out_effect(g2, core, m.out_rewound(ep), ep, size);
    hardware::lemma_core_beside(core, seq![]);
    let g3 = g2.run(middle);
    let c3 = core.run(middle);
    hardware::lemma_run_concat(hw, clear + release + middle, resume);
    hardware::lemma_core_concat(core, clear + release + middle, resume);
    effects::lemma_resume_effect(g3, c3, ep);
}

/// Whether an endpoint is stalled is bit 1 of the register of its number, and what was
/// stalled shows as stalled until the stall is lifted.
pub proof fn law_stall_is_seen(
    bus: &mut Bus,
    addr: EndpointAddress,
    endpt: &[u8; 16],
    stalled: bool,
)
    requires
        call_ensures(Bus::endpoint_is_stalled, (bus, addr, endpt), stalled),
        index_of(addr) < 16,
    ensures
        stalled == bit_is_set(endpt@[index_of(addr)], 1),
        *final(bus) == *old(bus),
{
    mask::lemma_single_bits();
}

/// A host is never woken.
pub proof fn law_no_wakeup(bus: &mut Bus, result: Result<(), Unsupported>)
    requires
        call_ensures(Bus::remote_wakeup, (bus,), result),
    ensures
        result is Err,
        *final(bus) == *old(bus),
{
}

} // verus!
