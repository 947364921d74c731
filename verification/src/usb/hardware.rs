//! What the queued operations do to the controller, as far as the driver relies on it.
use super::bdt;
use super::interrupt;
use super::ops::{BufferId, UsbOp, UsbReg};
use super::types::HW_EP_COUNT;
use crate::mask;
use vstd::prelude::*;

verus! {

/// A buffer descriptor in the table.
pub struct Descriptor {
    /// Control word.
    pub ctrl: u32,
    /// Buffer that the address word points at.
    pub buffer: Option<BufferId>,
}

/// The registers and the memory that the operations leave their mark on.
#[verifier::ext_equal]
pub struct UsbHardware {
    /// ENDPT registers.
    pub endpt: Seq<u8>,
    /// Device address.
    pub addr: u8,
    /// Buffer descriptor table.
    pub bdt: Seq<Descriptor>,
}

impl UsbHardware {
    /// There are sixteen endpoints and a descriptor for each place in the table.
    pub open spec fn wf(self) -> bool {
        self.endpt.len() == HW_EP_COUNT && self.bdt.len() == bdt::BDT_ENTRY_COUNT
    }

    /// The hardware after one operation.
    pub open spec fn step(self, op: UsbOp) -> Self {
        match op {
            UsbOp::Write { reg: UsbReg::Addr, value } => UsbHardware { addr: value, ..self },
            UsbOp::Write { reg: UsbReg::Endpt(ep), value } => UsbHardware {
                endpt: self.endpt.update(ep as int, value),
                ..self
            },
            UsbOp::ModifyEndpt { ep, clear, set } => UsbHardware {
                endpt: self.endpt.update(
                    ep as int,
                    mask::modified_bits(self.endpt[ep as int], clear, set),
                ),
                ..self
            },
            UsbOp::BdCtrl { index, ctrl } => UsbHardware {
                bdt: self.bdt.update(
                    index as int,
                    Descriptor { ctrl, ..self.bdt[index as int] },
                ),
                ..self
            },
            UsbOp::BdAddr { index, buffer } => UsbHardware {
                bdt: self.bdt.update(
                    index as int,
                    Descriptor { buffer, ..self.bdt[index as int] },
                ),
                ..self
            },
            _ => self,
        }
    }

    /// The hardware after a queue of operations.
    pub open spec fn run(self, queue: Seq<UsbOp>) -> Self
        decreases queue.len(),
    {
        if queue.len() == 0 {
            self
        } else {
            self.run(queue.drop_last()).step(queue.last())
        }
    }

    /// The hardware once a descriptor holds this.
    pub open spec fn with_descriptor(self, index: int, descriptor: Descriptor) -> Self {
        UsbHardware { bdt: self.bdt.update(index, descriptor), ..self }
    }
}

/// Control word of a descriptor that the controller owns, as the controller reads it: the
/// byte count in the upper half, OWN and DTS up, and DATA01 for a DATA1 packet.
pub open spec fn owned_word(count: int, data1: bool) -> int {
    count * 0x1_0000 + 0x88 + (if data1 {
        0x40int
    } else {
        0
    })
}

/// The driver's control word is the one that the controller reads.
pub proof fn lemma_owned_word(len: u16, data1: bool)
    ensures
        bdt::ready_ctrl(len, data1) == owned_word(len as int, data1),
{
    let toggle: u32 = if data1 {
        bdt::BD_DATA01
    } else {
        0
    };
    let ctrl: u32 = ((len as u32) << 16) | bdt::BD_OWN | bdt::BD_DTS | toggle;
    assert(ctrl == len * 0x1_0000 + 0x88 + toggle) by (bit_vector)
        requires
            toggle == 0x40 || toggle == 0,
            ctrl == ((len as u32) << 16) | 0x80 | 0x08 | toggle,
    ;
}

/// The registers that stand for the controller as a whole.
pub struct UsbCore {
    /// CTL.USBENSOFEN: the controller is on.
    pub enabled: bool,
    /// CTL.ODDRST: the controller is kept at the even buffers.
    pub odd_reset: bool,
    /// CTL.TXSUSPENDTOKENBUSY: no token is processed.
    pub token_busy: bool,
    /// Whether the controller goes on with the even buffer of every pair.
    pub at_even: bool,
    /// Whether the pull-up of D+ shows the device to the host.
    pub pullup: bool,
    /// Whether the internal reference runs for the clock recovery.
    pub irc: bool,
    /// Whether the clock is recovered from the bus.
    pub recovery: bool,
    /// BDTPAGE1 to BDTPAGE3.
    pub pages: (u8, u8, u8),
    /// USBCTRL.
    pub usbctrl: u8,
    /// INTEN.
    pub inten: u8,
    /// ERREN.
    pub erren: u8,
    /// CLK_RECOVER_INT_EN.
    pub recover_int_en: u8,
    /// ISTAT flags that are up.
    pub istat: u8,
    /// ERRSTAT flags that are up.
    pub errstat: u8,
    /// USBTRC0.USB_CLK_RECOVERY_INT: the clock recovery interrupts.
    pub trc_int: bool,
    /// CLK_RECOVER_INT_STATUS: the clock recovery reports an event.
    pub recover_int: bool,
    /// Whether the controller was reset through USBTRC0.
    pub was_reset: bool,
    /// Whether it was given the time that a reset takes.
    pub settled: bool,
    /// Whether CTL was written before that time was over.
    pub rushed: bool,
    /// Whether an interrupt of the controller is pending.
    pub pending: bool,
    /// Whether the interrupt of the controller is unmasked.
    pub unmasked: bool,
}

impl UsbCore {
    /// The controller after one operation.
    #[verifier::opaque]
    pub open spec fn step(self, op: UsbOp) -> Self {
        match op {
            UsbOp::Write { reg, value } => match reg {
                UsbReg::Ctl => UsbCore {
                    enabled: mask::bit_is_set(value, 0),
                    odd_reset: mask::bit_is_set(value, 1),
                    token_busy: mask::bit_is_set(value, 5),
                    at_even: self.at_even || mask::bit_is_set(value, 1),
                    rushed: self.rushed || !self.settled,
                    ..self
                },
                UsbReg::Bdtpage1 => UsbCore {
                    pages: (value, self.pages.1, self.pages.2),
                    ..self
                },
                UsbReg::Bdtpage2 => UsbCore {
                    pages: (self.pages.0, value, self.pages.2),
                    ..self
                },
                UsbReg::Bdtpage3 => UsbCore {
                    pages: (self.pages.0, self.pages.1, value),
                    ..self
                },
                UsbReg::Usbctrl => UsbCore { usbctrl: value, ..self },
                UsbReg::Inten => UsbCore { inten: value, ..self },
                UsbReg::Erren => UsbCore { erren: value, ..self },
                UsbReg::ClkRecoverIntEn => UsbCore { recover_int_en: value, ..self },
                UsbReg::Istat => UsbCore { istat: self.istat & !value, ..self },
                UsbReg::Errstat => UsbCore { errstat: self.errstat & !value, ..self },
                UsbReg::ClkRecoverIntStatus => UsbCore {
                    recover_int: self.recover_int && !mask::bit_is_set(value, 4),
                    ..self
                },
                UsbReg::Usbtrc0 => UsbCore {
                    trc_int: self.trc_int && !mask::bit_is_set(value, 4),
                    was_reset: self.was_reset || mask::bit_is_set(value, 7),
                    settled: self.settled && !mask::bit_is_set(value, 7),
                    ..self
                },
                UsbReg::Addr => self,
                UsbReg::Endpt(_) => self,
            },
            UsbOp::Spin(turns) => UsbCore { settled: self.settled || turns >= 200_000, ..self },
            UsbOp::EnableUsb => UsbCore {
                enabled: true,
                odd_reset: false,
                token_busy: false,
                rushed: self.rushed || !self.settled,
                ..self
            },
            UsbOp::SetOddReset(value) => UsbCore {
                odd_reset: value,
                at_even: self.at_even || value,
                ..self
            },
            UsbOp::SetTokenBusy(value) => UsbCore { token_busy: value, ..self },
            UsbOp::EnablePullup => UsbCore { pullup: true, ..self },
            UsbOp::EnableIrc => UsbCore { irc: true, ..self },
            UsbOp::EnableClockRecovery => UsbCore { recovery: true, ..self },
            UsbOp::UnpendInterrupt => UsbCore { pending: false, ..self },
            UsbOp::EnableInterrupt => UsbCore { unmasked: true, ..self },
            _ => self,
        }
    }

    /// The controller after a queue of operations.
    #[verifier::opaque]
    pub open spec fn run(self, queue: Seq<UsbOp>) -> Self
        decreases queue.len(),
    {
        if queue.len() == 0 {
            self
        } else {
            self.run(queue.drop_last()).step(queue.last())
        }
    }
}

/// One more operation at the end of a queue is performed last.
pub proof fn lemma_core_push(core: UsbCore, queue: Seq<UsbOp>, op: UsbOp)
    ensures
        core.run(queue.push(op)) == core.run(queue).step(op),
{
    reveal_with_fuel(UsbCore::run, 1);
    assert(queue.push(op).drop_last() =~= queue);
}

/// Two queues after one another do what the second does after the first.
pub proof fn lemma_core_concat(core: UsbCore, a: Seq<UsbOp>, b: Seq<UsbOp>)
    ensures
        core.run(a + b) == core.run(a).run(b),
    decreases b.len(),
{
    reveal_with_fuel(UsbCore::run, 1);
    if b.len() == 0 {
        assert(a + b =~= a);
    } else {
        lemma_core_concat(core, a, b.drop_last());
        assert((a + b).drop_last() =~= a + b.drop_last());
    }
}

/// Whether an operation leaves the registers of the controller as a whole alone.
pub open spec fn beside_core(op: UsbOp) -> bool {
    match op {
        UsbOp::Clock(_) => true,
        UsbOp::Write { reg, value } => match reg {
            UsbReg::Addr => true,
            UsbReg::Endpt(_) => true,
            _ => false,
        },
        UsbOp::ModifyEndpt { .. } => true,
        UsbOp::BdCtrl { .. } => true,
        UsbOp::BdAddr { .. } => true,
        UsbOp::Fence => true,
        UsbOp::WakeBus => true,
        UsbOp::WakeIn(_) => true,
        UsbOp::WakeOut(_) => true,
        UsbOp::RegisterBus => true,
        UsbOp::RegisterIn(_) => true,
        UsbOp::RegisterOut(_) => true,
        _ => false,
    }
}

/// A queue of such operations leaves them as they are.
pub proof fn lemma_core_beside(core: UsbCore, queue: Seq<UsbOp>)
    requires
        forall|i: int| 0 <= i < queue.len() ==> beside_core(#[trigger] queue[i]),
    ensures
        core.run(queue) == core,
    decreases queue.len(),
{
    reveal(UsbCore::step);
    reveal_with_fuel(UsbCore::run, 1);
    if queue.len() > 0 {
        let front = queue.drop_last();
        assert forall|i: int| 0 <= i < front.len() implies beside_core(#[trigger] front[i]) by {
            assert(beside_core(queue[i]));
        }
        lemma_core_beside(core, front);
        assert(beside_core(queue[queue.len() - 1]));
    }
}

/// A queue of one operation.
pub proof fn lemma_core_one(core: UsbCore, a: UsbOp)
    ensures
        core.run(seq![a]) == core.step(a),
{
    lemma_core_push(core, seq![], a);
    lemma_core_beside(core, seq![]);
    assert(seq![a] =~= Seq::<UsbOp>::empty().push(a));
}

/// A queue of three operations.
pub proof fn lemma_core_three(core: UsbCore, a: UsbOp, b: UsbOp, c: UsbOp)
    ensures
        core.run(seq![a, b, c]) == core.step(a).step(b).step(c),
{
    lemma_core_two(core, a, b);
    lemma_core_push(core, seq![a, b], c);
    assert(seq![a, b, c] =~= seq![a, b].push(c));
}

/// A queue of six operations.
pub proof fn lemma_core_six(
    core: UsbCore,
    a: UsbOp,
    b: UsbOp,
    c: UsbOp,
    d: UsbOp,
    e: UsbOp,
    f: UsbOp,
)
    ensures
        core.run(seq![a, b, c, d, e, f]) == core.step(a).step(b).step(c).step(d).step(e).step(f),
{
    lemma_core_three(core, a, b, c);
    lemma_core_three(core.run(seq![a, b, c]), d, e, f);
    lemma_core_concat(core, seq![a, b, c], seq![d, e, f]);
    assert(seq![a, b, c, d, e, f] =~= seq![a, b, c] + seq![d, e, f]);
}

/// A queue of two operations.
pub proof fn lemma_core_two(core: UsbCore, a: UsbOp, b: UsbOp)
    ensures
        core.run(seq![a, b]) == core.step(a).step(b),
{
    lemma_core_one(core, a);
    lemma_core_push(core, seq![a], b);
    assert(seq![a, b] =~= seq![a].push(b));
}

/// One more operation at the end of a queue is performed last.
pub proof fn lemma_run_push(hw: UsbHardware, queue: Seq<UsbOp>, op: UsbOp)
    ensures
        hw.run(queue.push(op)) == hw.run(queue).step(op),
{
    assert(queue.push(op).drop_last() =~= queue);
}

/// Two queues after one another do what the second does after the first.
pub proof fn lemma_run_concat(hw: UsbHardware, a: Seq<UsbOp>, b: Seq<UsbOp>)
    ensures
        hw.run(a + b) == hw.run(a).run(b),
    decreases b.len(),
{
    if b.len() == 0 {
        assert(a + b =~= a);
    } else {
        lemma_run_concat(hw, a, b.drop_last());
        assert((a + b).drop_last() =~= a + b.drop_last());
    }
}

/// A queue of one operation.
pub proof fn lemma_run_one(hw: UsbHardware, a: UsbOp)
    ensures
        hw.run(seq![a]) == hw.step(a),
{
    lemma_run_push(hw, seq![], a);
    assert(hw.run(seq![]) == hw);
    assert(seq![a] =~= Seq::<UsbOp>::empty().push(a));
}

/// A queue of two operations.
pub proof fn lemma_run_two(hw: UsbHardware, a: UsbOp, b: UsbOp)
    ensures
        hw.run(seq![a, b]) == hw.step(a).step(b),
{
    lemma_run_one(hw, a);
    lemma_run_push(hw, seq![a], b);
    assert(seq![a, b] =~= seq![a].push(b));
}

/// A queue of three operations.
pub proof fn lemma_run_three(hw: UsbHardware, a: UsbOp, b: UsbOp, c: UsbOp)
    ensures
        hw.run(seq![a, b, c]) == hw.step(a).step(b).step(c),
{
    lemma_run_two(hw, a, b);
    lemma_run_push(hw, seq![a, b], c);
    assert(seq![a, b, c] =~= seq![a, b].push(c));
}

/// Whether an operation leaves the ENDPT registers, the address and the table alone.
pub open spec fn elsewhere(op: UsbOp) -> bool {
    match op {
        UsbOp::Write { reg: UsbReg::Addr, value } => false,
        UsbOp::Write { reg: UsbReg::Endpt(ep), value } => false,
        UsbOp::ModifyEndpt { ep, clear, set } => false,
        UsbOp::BdCtrl { index, ctrl } => false,
        UsbOp::BdAddr { index, buffer } => false,
        _ => true,
    }
}

/// A queue of such operations leaves the hardware as it is.
pub proof fn lemma_run_elsewhere(hw: UsbHardware, queue: Seq<UsbOp>)
    requires
        forall|i: int| 0 <= i < queue.len() ==> elsewhere(#[trigger] queue[i]),
    ensures
        hw.run(queue) == hw,
    decreases queue.len(),
{
    if queue.len() > 0 {
        let front = queue.drop_last();
        assert forall|i: int| 0 <= i < front.len() implies elsewhere(#[trigger] front[i]) by {
            assert(elsewhere(queue[i]));
        }
        lemma_run_elsewhere(hw, front);
        assert(elsewhere(queue[queue.len() - 1]));
    }
}

/// Taking a pair of descriptors back zeroes their control words.
pub proof fn lemma_run_release(hw: UsbHardware, ep: int, is_in: bool)
    requires
        hw.wf(),
        0 <= ep < HW_EP_COUNT,
    ensures
        ({
            let after = hw.run(bdt::release_pair_ops(ep, is_in));
            &&& after.wf()
            &&& after.endpt == hw.endpt
            &&& after.addr == hw.addr
            &&& after.bdt[bdt::descriptor(ep, is_in, false)].ctrl == 0
            &&& after.bdt[bdt::descriptor(ep, is_in, true)].ctrl == 0
        }),
{
    let release = bdt::release_pair_ops(ep, is_in);
    lemma_run_two(hw, release[0], release[1]);
    assert(release =~= seq![release[0], release[1]]);
}

/// Handing a buffer over changes one descriptor.
pub proof fn lemma_run_prime(
    hw: UsbHardware,
    index: int,
    buffer: BufferId,
    len: u16,
    data1: bool,
    ep: int,
)
    requires
        hw.wf(),
        0 <= index < bdt::BDT_ENTRY_COUNT,
    ensures
        hw.run(
            bdt::prime_ops(index, buffer, len, data1) + super::pipe::resume_ops(ep),
        ) == hw.with_descriptor(
            index,
            Descriptor { ctrl: bdt::ready_ctrl(len, data1), buffer: Some(buffer) },
        ),
{
    let prime = bdt::prime_ops(index, buffer, len, data1);
    lemma_run_three(hw, prime[0], prime[1], prime[2]);
    assert(prime =~= seq![prime[0], prime[1], prime[2]]);
    let after = hw.run(prime);
    assert(after =~= hw.with_descriptor(
        index,
        Descriptor { ctrl: bdt::ready_ctrl(len, data1), buffer: Some(buffer) },
    ));
    lemma_run_concat(hw, prime, super::pipe::resume_ops(ep));
    if ep == 0 {
        lemma_run_one(after, UsbOp::SetTokenBusy(false));
    }
}

/// Clearing the table zeroes every descriptor.
pub proof fn lemma_run_clear(hw: UsbHardware, count: int)
    requires
        hw.wf(),
        0 <= count <= bdt::BDT_ENTRY_COUNT,
    ensures
        hw.run(bdt::clear_ops(count)).endpt == hw.endpt,
        hw.run(bdt::clear_ops(count)).addr == hw.addr,
        hw.run(bdt::clear_ops(count)).bdt.len() == bdt::BDT_ENTRY_COUNT,
        forall|i: int|
            #![trigger hw.run(bdt::clear_ops(count)).bdt[i]]
            0 <= i < bdt::BDT_ENTRY_COUNT ==> hw.run(bdt::clear_ops(count)).bdt[i] == (if i < count {
                Descriptor { ctrl: 0, buffer: None }
            } else {
                hw.bdt[i]
            }),
    decreases count,
{
    if count == 0 {
        assert(bdt::clear_ops(0) =~= seq![]);
    } else {
        lemma_run_clear(hw, count - 1);
        let before = bdt::clear_ops(count - 1);
        let first = UsbOp::BdCtrl { index: (count - 1) as usize, ctrl: 0 };
        let second = UsbOp::BdAddr { index: (count - 1) as usize, buffer: None };
        lemma_run_push(hw, before, first);
        lemma_run_push(hw, before.push(first), second);
        assert(bdt::clear_ops(count) =~= before.push(first).push(second));
    }
}

/// Disabling endpoints zeroes their ENDPT registers.
pub proof fn lemma_run_disable(hw: UsbHardware, count: int)
    requires
        hw.wf(),
        1 <= count <= HW_EP_COUNT,
    ensures
        hw.run(interrupt::disable_ops(count)).bdt == hw.bdt,
        hw.run(interrupt::disable_ops(count)).addr == hw.addr,
        hw.run(interrupt::disable_ops(count)).endpt.len() == HW_EP_COUNT,
        forall|i: int|
            #![trigger hw.run(interrupt::disable_ops(count)).endpt[i]]
            0 <= i < HW_EP_COUNT ==> hw.run(interrupt::disable_ops(count)).endpt[i] == (if 1 <= i
                < count {
                0
            } else {
                hw.endpt[i]
            }),
    decreases count,
{
    if count == 1 {
        assert(interrupt::disable_ops(1) =~= seq![]);
    } else {
        lemma_run_disable(hw, count - 1);
        let before = interrupt::disable_ops(count - 1);
        let op = UsbOp::Write { reg: UsbReg::Endpt((count - 1) as usize), value: 0 };
        lemma_run_push(hw, before, op);
        assert(interrupt::disable_ops(count) =~= before.push(op));
    }
}

} // verus!
