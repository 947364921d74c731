//! What bringing up the clocks comes to.
use super::bdt;
use super::bus::Bus;
use super::clock;
use super::clock::{configure_usb_clock, configure_usb_ram_access, unhalt_usb_clock};
use super::control::ControlPipe;
use super::driver;
use super::driver::Driver;
use super::effects;
use super::effects::{added, kept};
use super::ops::{ClockOp, UsbOp};
use super::state::UsbFsState;
use vstd::prelude::*;

verus! {

/// A divider of the SPLL.
pub struct Divider {
    /// The value that was written last.
    pub written: int,
    /// The value that the SPLL took over: one that stood there when it was asked for.
    pub taken: int,
}

/// The clocks that feed the controller.
pub struct UsbClocks {
    /// Whether the regulator of the SPLL is on.
    pub ldo: bool,
    /// Whether the reference was seen valid.
    pub reference: bool,
    /// Whether the SPLL is on.
    pub spll: bool,
    /// Bandwidth fields of the SPLL, with the reference as its source.
    pub bandwidth: (u8, u8),
    /// Pre-divider, multiplier and post-divider.
    pub pre: Divider,
    pub factor: Divider,
    pub post: Divider,
    /// TRIM_LOCK.
    pub trim: u32,
    /// Lock time of the SPLL.
    pub lock_time: u32,
    /// Whether the SPLL was seen locked since it was switched on.
    pub locked: bool,
    /// Whether the controller takes its clock from the SPLL.
    pub selected: bool,
    /// GLB_ACC0.
    pub acc0: u32,
    /// GLB_CC0.
    pub cc0: u32,
    /// Whether the clock gate of the controller is open and it went through reset.
    pub gate: bool,
    /// Whether dividers can be written.
    pub unlocked: bool,
    /// Whether the divider of the controller was reset, and what it then divides by, less
    /// one, if it runs.
    pub rewound: bool,
    pub divider: Option<u8>,
    /// Whether the controller has access to its RAM.
    pub ram: bool,
    /// Whether something was done at a wrong time: the SPLL set up while it is on, switched
    /// on without its regulator or its reference, used before it is locked, or a frozen
    /// divider written.
    pub mistimed: bool,
}

/// A divider after a write.
pub open spec fn divider_after(divider: Divider, value: int, request: bool) -> Divider {
    Divider {
        written: value,
        taken: if request && divider.written == value {
            value
        } else {
            divider.taken
        },
    }
}

impl UsbClocks {
    /// The clocks after one operation.
    pub open spec fn clock_step(self, op: ClockOp) -> Self {
        match op {
            ClockOp::EnableLdo => UsbClocks { ldo: true, ..self },
            ClockOp::WaitSircValid => UsbClocks { reference: true, ..self },
            ClockOp::SetSpllPower(on) => UsbClocks {
                spll: on,
                locked: false,
                mistimed: self.mistimed || (on && !(self.ldo && self.reference)),
                ..self
            },
            ClockOp::WriteSpllCtrl { seli, selp } => UsbClocks {
                bandwidth: (seli, selp),
                mistimed: self.mistimed || self.spll,
                ..self
            },
            ClockOp::WriteSpllNdiv { ndiv, request } => UsbClocks {
                pre: divider_after(self.pre, ndiv as int, request),
                mistimed: self.mistimed || self.spll,
                ..self
            },
            ClockOp::WriteSpllPdiv { pdiv, request } => UsbClocks {
                post: divider_after(self.post, pdiv as int, request),
                mistimed: self.mistimed || self.spll,
                ..self
            },
            ClockOp::WriteSpllMdiv { mdiv, request } => UsbClocks {
                factor: divider_after(self.factor, mdiv as int, request),
                mistimed: self.mistimed || self.spll,
                ..self
            },
            ClockOp::WriteTrimLock(value) => UsbClocks { trim: value, ..self },
            ClockOp::WriteSpllLockTime(value) => UsbClocks {
                lock_time: value,
                mistimed: self.mistimed || self.spll,
                ..self
            },
            ClockOp::WaitSpllLock => UsbClocks {
                locked: self.spll,
                mistimed: self.mistimed || !self.spll,
                ..self
            },
            ClockOp::SelectSpll => UsbClocks {
                selected: true,
                mistimed: self.mistimed || !self.locked,
                ..self
            },
            ClockOp::SetGlbAcc0(bits) => UsbClocks { acc0: self.acc0 | bits, ..self },
            ClockOp::SetGlbCc0(bits) => UsbClocks { cc0: self.cc0 | bits, ..self },
            ClockOp::EnableAndReset => UsbClocks {
                gate: true,
                mistimed: self.mistimed || !self.selected,
                ..self
            },
            ClockOp::UnlockClocks(open) => UsbClocks { unlocked: open, ..self },
            ClockOp::WriteClkdiv(value) => UsbClocks {
                rewound: value == 0x6000_0000,
                divider: None,
                mistimed: self.mistimed || !self.unlocked,
                ..self
            },
            ClockOp::RunClkdiv { div } => UsbClocks {
                divider: Some(div),
                mistimed: self.mistimed || !self.unlocked,
                ..self
            },
            ClockOp::RemapUsb0 => UsbClocks { ram: true, ..self },
        }
    }

    /// The clocks after one operation of any kind.
    pub open spec fn step(self, op: UsbOp) -> Self {
        match op {
            UsbOp::Clock(op) => self.clock_step(op),
            _ => self,
        }
    }

    /// The clocks after the first `n` operations of a queue.
    pub open spec fn after(self, queue: Seq<UsbOp>, n: int) -> Self
        decreases n,
    {
        if n <= 0 {
            self
        } else {
            self.after(queue, n - 1).step(queue[n - 1])
        }
    }

    /// The SPLL is locked at 48 MHz: 12 MHz times the factor, divided by the pre-divider and
    /// by twice the post-divider.
    pub open spec fn at_48_mhz(self) -> bool {
        &&& self.ldo && self.reference && self.spll && self.locked
        &&& self.pre.taken > 0 && self.post.taken > 0
        &&& 12_000_000 * self.factor.taken == 48_000_000 * self.pre.taken * 2 * self.post.taken
    }
}

/// Only the values of two queues at the front matter.
proof fn lemma_same_front(c: UsbClocks, a: Seq<UsbOp>, b: Seq<UsbOp>, n: int)
    requires
        forall|i: int| 0 <= i < n ==> a[i] == b[i],
    ensures
        c.after(a, n) == c.after(b, n),
    decreases n,
{
    if n > 0 {
        lemma_same_front(c, a, b, n - 1);
    }
}

/// The clock queue.
proof fn lemma_clock_queue(c: UsbClocks)
    ensures
        ({
            let there = c.after(clock::clock_ops(), 17);
            &&& there.at_48_mhz()
            &&& there.selected
            &&& there.bandwidth == (19u8, 9u8)
            &&& there.trim == 0x5a5a_0001 && there.lock_time == 6300
            &&& there.acc0 == c.acc0 | 0x1000_0800
            &&& there.cc0 == c.cc0 | 0x1000_0000
            &&& there.mistimed == c.mistimed
            &&& there.gate == c.gate && there.unlocked == c.unlocked
            &&& there.divider == c.divider && there.rewound == c.rewound && there.ram == c.ram
        }),
{
    reveal_with_fuel(UsbClocks::after, 18);
    let there = c.after(clock::clock_ops(), 17);
    let (n, m, p) = (there.pre.taken, there.factor.taken, there.post.taken);
    assert(n == 1 && m == 32 && p == 4);
    assert(12_000_000 * m == 48_000_000 * n * 2 * p) by (nonlinear_arith)
        requires
            n == 1,
            m == 32,
            p == 4,
    ;
}

/// Bringing up the clock ends with the SPLL locked at 48 MHz and the controller fed from it,
/// and nothing was done at a wrong time: it is set up while it is off, switched on with its
/// regulator on and its reference valid, and selected once it is locked.
pub proof fn law_clock_comes_up(ops: &mut Vec<UsbOp>, c: UsbClocks)
    requires
        call_ensures(configure_usb_clock, (ops,), ()),
    ensures
        ({
            let queue = added(old(ops)@, final(ops)@);
            let there = c.after(queue, queue.len() as int);
            &&& kept(old(ops)@, final(ops)@)
            &&& there.at_48_mhz()
            &&& there.selected
            &&& there.bandwidth == (19u8, 9u8)
            &&& there.trim == 0x5a5a_0001 && there.lock_time == 6300
            &&& there.acc0 == c.acc0 | 0x1000_0800
            &&& there.cc0 == c.cc0 | 0x1000_0000
            &&& there.mistimed == c.mistimed
        }),
{
    effects::lemma_added(old(ops)@, clock::clock_ops());
    lemma_clock_queue(c);
}

/// Letting the divider run rewinds it and lets it divide by one, with the dividers unlocked
/// for that long; giving the controller its RAM does nothing else.
pub proof fn law_divider_runs(
    divider: &mut Vec<UsbOp>,
    ram: &mut Vec<UsbOp>,
    c: UsbClocks,
)
    requires
        call_ensures(unhalt_usb_clock, (divider,), ()),
        call_ensures(configure_usb_ram_access, (ram,), ()),
    ensures
        ({
            let queue = added(old(divider)@, final(divider)@);
            c.after(queue, queue.len() as int) == UsbClocks {
                unlocked: false,
                rewound: true,
                divider: Some(0),
                ..c
            }
        }),
        ({
            let queue = added(old(ram)@, final(ram)@);
            c.after(queue, queue.len() as int) == UsbClocks { ram: true, ..c }
        }),
{
    reveal_with_fuel(UsbClocks::after, 5);
    effects::lemma_added(old(divider)@, clock::unhalt_ops());
    let access = UsbOp::Clock(ClockOp::RemapUsb0);
    effects::lemma_added(old(ram)@, seq![access]);
    assert(old(ram)@.push(access) =~= old(ram)@ + seq![access]);
}

/// The first part of the start queue.
proof fn lemma_start_front(c: UsbClocks, table: u32)
    ensures
        ({
            let there = c.after(driver::start_ops(table), 22);
            &&& there.at_48_mhz()
            &&& there.selected && there.gate
            &&& !there.unlocked && there.rewound && there.divider == Some(0u8)
            &&& there.mistimed == c.mistimed
            &&& there.ram == c.ram
        }),
{
    let queue = driver::start_ops(table);
    lemma_clock_queue(c);
    lemma_start_elements(table);
    lemma_same_front(c, queue, clock::clock_ops(), 17);
    let c0 = c.after(queue, 17);
    assert(c.after(queue, 18) == c0.step(queue[17]));
    assert(c.after(queue, 19) == c.after(queue, 18).step(queue[18]));
    assert(c.after(queue, 20) == c.after(queue, 19).step(queue[19]));
    assert(c.after(queue, 21) == c.after(queue, 20).step(queue[20]));
    assert(c.after(queue, 22) == c.after(queue, 21).step(queue[21]));
}

/// The operations that a start begins with.
proof fn lemma_start_elements(table: u32)
    ensures
        ({
            let queue = driver::start_ops(table);
            &&& forall|i: int| 0 <= i < 17 ==> queue[i] == clock::clock_ops()[i]
            &&& queue[17] == UsbOp::Clock(ClockOp::EnableAndReset)
            &&& queue[18] == UsbOp::Clock(ClockOp::UnlockClocks(true))
            &&& queue[19] == UsbOp::Clock(ClockOp::WriteClkdiv(0x6000_0000))
            &&& queue[20] == UsbOp::Clock(ClockOp::RunClkdiv { div: 0 })
            &&& queue[21] == UsbOp::Clock(ClockOp::UnlockClocks(false))
        }),
{
}

/// A start touches the controller only when it has its clock: the clocks are up after the
/// operations on clocks that it begins with, and nothing else comes before their end. It
/// gives the controller its RAM before the host can see the device, and the clocks stay up.
pub proof fn law_start_clocks_first(
    driver: Driver,
    state: &mut UsbFsState,
    ops: &mut Vec<UsbOp>,
    control_size: u16,
    table: u32,
    parts: (Bus, ControlPipe),
    c: UsbClocks,
    i: int,
)
    requires
        call_ensures(Driver::start, (driver, state, ops, control_size, table), parts),
        0 <= i < added(old(ops)@, final(ops)@).len(),
    ensures
        ({
            let queue = added(old(ops)@, final(ops)@);
            let then = c.after(queue, i);
            let finally = c.after(queue, queue.len() as int);
            &&& !(queue[i] is Clock) ==> then.at_48_mhz() && then.selected && then.gate
                && then.divider == Some(0u8)
            &&& queue[i] == UsbOp::EnablePullup ==> then.ram
            &&& finally.at_48_mhz() && finally.selected && finally.gate && finally.divider == Some(
                0u8,
            )
            &&& !finally.unlocked && finally.rewound && finally.ram
            &&& finally.mistimed == c.mistimed
        }),
{
    let queue = driver::start_ops(table);
    effects::lemma_added(old(ops)@, queue);
    lemma_start_front(c, table);
    let k: int = 28 + bdt::clear_ops(bdt::BDT_ENTRY_COUNT as int).len() as int;
    assert(queue[k] == UsbOp::Clock(ClockOp::RemapUsb0));
    assert forall|j: int| 22 <= j < queue.len() && j != k implies !(#[trigger] queue[j] is Clock) by {}
    assert forall|j: int| 0 <= j < 22 implies #[trigger] queue[j] is Clock by {}
    assert(queue[queue.len() - 3] == UsbOp::EnablePullup);
    assert forall|j: int| 0 <= j < k implies #[trigger] queue[j] != UsbOp::EnablePullup by {}
    if i >= 22 {
        lemma_start_rest(c, queue, k, i);
    }
    lemma_start_rest(c, queue, k, queue.len() as int);
}

/// The rest of the start queue.
proof fn lemma_start_rest(c: UsbClocks, queue: Seq<UsbOp>, k: int, n: int)
    requires
        22 <= n <= queue.len(),
        22 <= k < queue.len(),
        queue[k] == UsbOp::Clock(ClockOp::RemapUsb0),
        forall|j: int| 22 <= j < queue.len() && j != k ==> !(#[trigger] queue[j] is Clock),
    ensures
        c.after(queue, n) == (UsbClocks {
            ram: c.after(queue, 22).ram || k < n,
            ..c.after(queue, 22)
        }),
    decreases n,
{
    if n > 22 {
        lemma_start_rest(c, queue, k, n - 1);
        if n - 1 != k {
            assert(!(queue[n - 1] is Clock));
        }
    }
}

} // verus!
