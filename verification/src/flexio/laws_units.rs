//! What the peripheral, its clusters and its units do to the hardware.
use super::config::{ShifterConfig, TimerConfig, TimerTrigger};
use super::fields::{
    Insrc, Shiftcfg, ShiftctlPincfg, ShiftctlPinpol, Shiftctl, Smod, Sstart, Sstop, TimctlPincfg,
    TimctlPinpol, Timcfg, Timctl, Timdec, Timdis, Timena, Timod, Timout, Timpol, Timrst, Trgpol,
    Trgsrc, Tstop,
};
use super::keeper::{ClockKeeper, Returned};
use super::ops::{DmaRequest, FlexioOp, FlexioReg, UNIT_COUNT};
use super::peripheral;
use super::peripheral::{Flexio, Instance, ShifterCluster, TimerCluster};
use super::registers;
use super::registers::FlexioHardware;
use super::unit;
use super::unit::{Shifter, Timer};
use crate::mask;
use crate::mask::bit_is_set;
use vstd::prelude::*;

verus! {

/// Claiming the peripheral takes it through a reset and leaves it on, with its clock as it
/// is, exactly if its clock could be enabled; the error of the clock is handed on.
pub proof fn law_claim<'d, INST: Instance, E>(
    enabled: Result<(), E>,
    ops: &mut Vec<FlexioOp>,
    result: Result<Flexio<'d, INST>, E>,
    hw: FlexioHardware,
)
    requires
        call_ensures(Flexio::<'d, INST>::new::<E>, (enabled, ops), result),
    ensures
        result is Ok <==> enabled is Ok,
        enabled matches Err(e) ==> result matches Err(f) && e == f && final(ops)@ == old(ops)@,
        result is Ok ==> hw.moved(old(ops)@, final(ops)@) == (FlexioHardware {
            in_reset: false,
            enabled: true,
            ..hw
        }) && final(ops)@.contains(FlexioOp::WriteReset(true)),
{
    let claim = peripheral::claim_ops();
    registers::lemma_moved(hw, old(ops)@, claim);
    reveal_with_fuel(FlexioHardware::after, 4);
    if result is Ok {
        assert((old(ops)@ + claim)[old(ops)@.len() as int] == FlexioOp::WriteReset(true));
    }
}

/// A peripheral that is given up before it was split is off, and so is its clock. One that
/// is split has none of its units taken.
pub proof fn law_release_and_split<'d, INST: Instance>(
    given_up: Flexio<'d, INST>,
    ops: &mut Vec<FlexioOp>,
    parted: Flexio<'d, INST>,
    clusters: (ShifterCluster<'d>, TimerCluster<'d>),
    hw: FlexioHardware,
    i: int,
)
    requires
        call_ensures(Flexio::<'d, INST>::release, (given_up, ops), ()),
        call_ensures(Flexio::<'d, INST>::split, (parted,), clusters),
        0 <= i < 4,
    ensures
        hw.moved(old(ops)@, final(ops)@) == (FlexioHardware { enabled: false, clock: false, ..hw }),
        !clusters.0@[i],
        !clusters.1@[i],
{
    registers::lemma_moved(hw, old(ops)@, peripheral::release_ops());
    reveal_with_fuel(FlexioHardware::after, 3);
}

/// A unit is had from its cluster exactly if it was not taken before; from then on it is
/// taken, and the others are as they were.
pub proof fn law_take<'d, const N: usize>(
    shifters: &mut ShifterCluster<'d>,
    shifter: Option<Shifter<'d, N>>,
    timers: &mut TimerCluster<'d>,
    timer: Option<Timer<'d, N>>,
    i: int,
)
    requires
        N < 4,
        0 <= i < 4,
        call_ensures(ShifterCluster::<'d>::take::<N>, (shifters,), shifter),
        call_ensures(TimerCluster::<'d>::take::<N>, (timers,), timer),
    ensures
        shifter is Some <==> !old(shifters)@[N as int],
        timer is Some <==> !old(timers)@[N as int],
        final(shifters)@[i] == (i == N || old(shifters)@[i]),
        final(timers)@[i] == (i == N || old(timers)@[i]),
{
    shifters.lemma_len();
    timers.lemma_len();
}

/// Whether all is back: both clusters, and every unit that was taken from them.
pub open spec fn all_given(r: Returned) -> bool {
    &&& r.shifters matches Some(taken) && forall|i: int|
        0 <= i < 4 && #[trigger] taken[i] ==> r.shifter[i]
    &&& r.timers matches Some(taken) && forall|i: int|
        0 <= i < 4 && #[trigger] taken[i] ==> r.timer[i]
}

/// Whether the peripheral was switched off exactly if what came made all be back.
pub open spec fn settled(
    before: Returned,
    after: Returned,
    ops: Seq<FlexioOp>,
    ops_after: Seq<FlexioOp>,
) -> bool {
    ops_after == (if all_given(after) && !all_given(before) {
        ops.push(FlexioOp::SetEnabled(false)).push(FlexioOp::DisableClock)
    } else {
        ops
    })
}

/// What is back, from what is known of it.
proof fn lemma_all_given(r: Returned)
    ensures
        r.complete() == all_given(r),
{
    if r.complete() {
        assert forall|i: int| 0 <= i < 4 && #[trigger] r.shifters->0[i] implies r.shifter[i] by {}
        assert forall|i: int| 0 <= i < 4 && #[trigger] r.timers->0[i] implies r.timer[i] by {}
    }
    if all_given(r) {
        assert(super::keeper::covered(r.shifters->0, r.shifter));
        assert(super::keeper::covered(r.timers->0, r.timer));
    }
}

/// What is queued, from what is known of it.
pub proof fn lemma_settled(
    before: Returned,
    after: Returned,
    ops: Seq<FlexioOp>,
    ops_after: Seq<FlexioOp>,
)
    requires
        ops_after == ops + (if !before.complete() && after.complete() {
            peripheral::release_ops()
        } else {
            seq![]
        }),
    ensures
        settled(before, after, ops, ops_after),
{
    lemma_all_given(before);
    lemma_all_given(after);
    assert(ops + peripheral::release_ops() =~= ops.push(FlexioOp::SetEnabled(false)).push(
        FlexioOp::DisableClock,
    ));
    assert(ops + Seq::<FlexioOp>::empty() =~= ops);
}

/// A new keeper has nothing back. A cluster that is given back brings along which of its
/// units were taken, unless one is back already; and with the last of all parts the
/// peripheral and its clock are switched off.
pub proof fn law_clusters_given_back<'d>(
    new: ClockKeeper,
    keeper: &mut ClockKeeper,
    shifters: ShifterCluster<'d>,
    ops: &mut Vec<FlexioOp>,
    other: &mut ClockKeeper,
    timers: TimerCluster<'d>,
    other_ops: &mut Vec<FlexioOp>,
    complete: bool,
    i: int,
)
    requires
        0 <= i < 4,
        call_ensures(ClockKeeper::new, (), new),
        call_ensures(ClockKeeper::give_shifters, (keeper, shifters, ops), ()),
        call_ensures(ClockKeeper::give_timers, (other, timers, other_ops), ()),
        call_ensures(ClockKeeper::is_complete, (&new,), complete),
    ensures
        new@.shifters is None && new@.timers is None && !new@.shifter[i] && !new@.timer[i],
        complete == all_given(new@),
        ({
            let (before, after) = (old(keeper)@, final(keeper)@);
            &&& after == Returned {
                shifters: if before.shifters is Some {
                    before.shifters
                } else {
                    Some(shifters@)
                },
                ..before
            }
            &&& settled(before, after, old(ops)@, final(ops)@)
        }),
        ({
            let (before, after) = (old(other)@, final(other)@);
            &&& after == Returned {
                timers: if before.timers is Some {
                    before.timers
                } else {
                    Some(timers@)
                },
                ..before
            }
            &&& settled(before, after, old(other_ops)@, final(other_ops)@)
        }),
{
    lemma_all_given(new@);
    lemma_settled(old(keeper)@, final(keeper)@, old(ops)@, final(ops)@);
    lemma_settled(old(other)@, final(other)@, old(other_ops)@, final(other_ops)@);
}

/// A unit that is given back is noted, and with the last of all parts the peripheral and its
/// clock are switched off.
pub proof fn law_units_given_back<'d, const N: usize>(
    keeper: &mut ClockKeeper,
    shifter: Shifter<'d, N>,
    ops: &mut Vec<FlexioOp>,
    other: &mut ClockKeeper,
    timer: Timer<'d, N>,
    other_ops: &mut Vec<FlexioOp>,
)
    requires
        N < 4,
        call_ensures(ClockKeeper::give_shifter::<N>, (keeper, shifter, ops), ()),
        call_ensures(ClockKeeper::give_timer::<N>, (other, timer, other_ops), ()),
    ensures
        final(keeper)@ == (Returned {
            shifter: old(keeper)@.shifter.update(N as int, true),
            ..old(keeper)@
        }),
        settled(old(keeper)@, final(keeper)@, old(ops)@, final(ops)@),
        final(other)@ == (Returned {
            timer: old(other)@.timer.update(N as int, true),
            ..old(other)@
        }),
        settled(old(other)@, final(other)@, old(other_ops)@, final(other_ops)@),
{
    lemma_settled(old(keeper)@, final(keeper)@, old(ops)@, final(ops)@);
    lemma_settled(old(other)@, final(other)@, old(other_ops)@, final(other_ops)@);
}

/// A configuration reaches the registers of its shifter, field for field, and no other
/// register; SHIFTCTL, which makes the shifter work, is written last.
pub proof fn law_shifter_configured<'d, const N: usize>(
    shifter: &mut Shifter<'d, N>,
    ops: &mut Vec<FlexioOp>,
    cfg: &ShifterConfig,
    hw: FlexioHardware,
)
    requires
        hw.wf(),
        N < 4,
        call_ensures(Shifter::<'d, N>::set_config, (shifter, ops, cfg), ()),
    ensures
        ({
            let n = N as int;
            let there = hw.moved(old(ops)@, final(ops)@);
            &&& there == FlexioHardware {
                shiftcfg: there.shiftcfg,
                shiftctl: there.shiftctl,
                ..hw
            }
            &&& there.shiftcfg == hw.shiftcfg.update(n, there.shiftcfg[n])
            &&& there.shiftctl == hw.shiftctl.update(n, there.shiftctl[n])
            &&& there.shiftcfg[n].sstart == cfg.start_bit
            &&& there.shiftcfg[n].sstop == cfg.stop_bit
            &&& there.shiftcfg[n].insrc == cfg.input_source
            &&& there.shiftctl[n].smod == cfg.smod
            &&& there.shiftctl[n].pinsel == cfg.pin_select
            &&& there.shiftctl[n].pincfg == cfg.pin_cfg
            &&& there.shiftctl[n].pinpol == cfg.pin_pol
            &&& there.shiftctl[n].timpol == cfg.timer_pol
            &&& there.shiftctl[n].timsel == cfg.timer_select
            &&& final(ops)@.last() is Shiftctl
        }),
{
    let queue = unit::shifter_ops(N as int, *cfg);
    registers::lemma_moved(hw, old(ops)@, queue);
    reveal_with_fuel(FlexioHardware::after, 3);
    assert(final(ops)@.last() == queue[1]);
}

/// A configuration reaches the registers of its timer, field for field, and no other
/// register; TIMCTL, which makes the timer work, is written last. A lane is selected as a
/// trigger by four times its index, the flag of a shifter by one more than four times its
/// index, both as internal triggers; no trigger is the external one with number zero.
pub proof fn law_timer_configured<'d, const N: usize>(
    timer: &mut Timer<'d, N>,
    ops: &mut Vec<FlexioOp>,
    cfg: &TimerConfig,
    hw: FlexioHardware,
)
    requires
        hw.wf(),
        N < 4,
        unit::trigger_ok(cfg.trigger),
        call_ensures(Timer::<'d, N>::set_config, (timer, ops, cfg), ()),
    ensures
        ({
            let n = N as int;
            let there = hw.moved(old(ops)@, final(ops)@);
            let timcfg = there.timcfg[n];
            let timctl = there.timctl[n];
            &&& there == FlexioHardware {
                compare: there.compare,
                timcfg: there.timcfg,
                timctl: there.timctl,
                ..hw
            }
            &&& there.compare == hw.compare.update(n, cfg.compare)
            &&& there.timcfg == hw.timcfg.update(n, timcfg)
            &&& there.timctl == hw.timctl.update(n, timctl)
            &&& timcfg.timdec == cfg.timdec && timcfg.timena == cfg.timena
            &&& timcfg.timdis == cfg.timdis && timcfg.timrst == cfg.timrst
            &&& timcfg.timout == cfg.timout && timcfg.tstop == cfg.tstop
            &&& timcfg.tstart == cfg.tstart
            &&& timctl.timod == cfg.timod && timctl.pinsel == cfg.pin_select
            &&& timctl.pincfg == cfg.pin_cfg && timctl.pinpol == cfg.pin_pol
            &&& match cfg.trigger {
                TimerTrigger::NoTrigger => timctl.trgsrc == Trgsrc::ExtTrig && timctl.trgpol
                    == Trgpol::ActiveHigh && timctl.trgsel == 0,
                TimerTrigger::InternalLane { lane, polarity } => timctl.trgsrc
                    == Trgsrc::InternalTrig && timctl.trgpol == polarity && timctl.trgsel == 4
                    * lane,
                TimerTrigger::InternalShifterFlag { shifter, polarity } => timctl.trgsrc
                    == Trgsrc::InternalTrig && timctl.trgpol == polarity && timctl.trgsel == 4
                    * shifter + 1,
                TimerTrigger::External { trgsel, polarity } => timctl.trgsrc == Trgsrc::ExtTrig
                    && timctl.trgpol == polarity && timctl.trgsel == trgsel,
            }
            &&& final(ops)@.last() is Timctl
        }),
{
    let queue = unit::timer_ops(N as int, *cfg);
    registers::lemma_moved(hw, old(ops)@, queue);
    reveal_with_fuel(FlexioHardware::after, 4);
    assert(final(ops)@.last() == queue[2]);
}

/// A word goes to the buffer of its shifter, straight or with its bits swapped; a word is
/// read, and a transfer goes, there as well, and the swapped way is the other register.
pub proof fn law_shifter_buffer<'d, const N: usize>(
    straight: &mut Shifter<'d, N>,
    straight_ops: &mut Vec<FlexioOp>,
    swapped: &mut Shifter<'d, N>,
    swapped_ops: &mut Vec<FlexioOp>,
    data: u32,
    shifter: Shifter<'d, N>,
    read: FlexioReg,
    read_bis: FlexioReg,
    address: FlexioReg,
    address_bis: FlexioReg,
    hw: FlexioHardware,
)
    requires
        hw.wf(),
        N < 4,
        call_ensures(Shifter::<'d, N>::write_buffer, (straight, straight_ops, data), ()),
        call_ensures(Shifter::<'d, N>::write_buffer_bis, (swapped, swapped_ops, data), ()),
        call_ensures(Shifter::<'d, N>::read_buffer, (&shifter,), read),
        call_ensures(Shifter::<'d, N>::read_buffer_bis, (&shifter,), read_bis),
        call_ensures(Shifter::<'d, N>::dma_address, (&shifter,), address),
        call_ensures(Shifter::<'d, N>::dma_address_bis, (&shifter,), address_bis),
    ensures
        hw.moved(old(straight_ops)@, final(straight_ops)@) == (FlexioHardware {
            buffer: hw.buffer.update(N as int, (data, false)),
            ..hw
        }),
        hw.moved(old(swapped_ops)@, final(swapped_ops)@) == (FlexioHardware {
            buffer: hw.buffer.update(N as int, (data, true)),
            ..hw
        }),
        read == FlexioReg::Shiftbuf(N) && address == read,
        read_bis == FlexioReg::Shiftbufbis(N) && address_bis == read_bis,
{
    registers::lemma_moved_one(
        hw,
        old(straight_ops)@,
        FlexioOp::WriteData { reg: FlexioReg::Shiftbuf(N), data },
    );
    registers::lemma_moved_one(
        hw,
        old(swapped_ops)@,
        FlexioOp::WriteData { reg: FlexioReg::Shiftbufbis(N), data },
    );
}

/// Enabling and disabling the DMA requests of a shifter moves the bit of that shifter, and
/// clearing the flag of a unit takes the flag of that unit down; no other bit moves. A flag
/// is up exactly if the bit of its unit is. The request signals of the shifters are those
/// from 71 on.
pub proof fn law_unit_bits<'d, const N: usize>(
    on: &mut Shifter<'d, N>,
    on_ops: &mut Vec<FlexioOp>,
    off: &mut Shifter<'d, N>,
    off_ops: &mut Vec<FlexioOp>,
    shifter: &mut Shifter<'d, N>,
    shifter_ops: &mut Vec<FlexioOp>,
    timer: &mut Timer<'d, N>,
    timer_ops: &mut Vec<FlexioOp>,
    hw: FlexioHardware,
    k: int,
)
    requires
        hw.wf(),
        N < 4,
        0 <= k < 8,
        call_ensures(Shifter::<'d, N>::enable_dma, (on, on_ops), ()),
        call_ensures(Shifter::<'d, N>::disable_dma, (off, off_ops), ()),
        call_ensures(Shifter::<'d, N>::clear_status, (shifter, shifter_ops), ()),
        call_ensures(Timer::<'d, N>::clear_status, (timer, timer_ops), ()),
    ensures
        ({
            let there = hw.moved(old(on_ops)@, final(on_ops)@);
            &&& there == FlexioHardware { ssde: there.ssde, ..hw }
            &&& bit_is_set(there.ssde, k) == (k == N || bit_is_set(hw.ssde, k))
        }),
        ({
            let there = hw.moved(old(off_ops)@, final(off_ops)@);
            &&& there == FlexioHardware { ssde: there.ssde, ..hw }
            &&& bit_is_set(there.ssde, k) == (k != N && bit_is_set(hw.ssde, k))
        }),
        ({
            let there = hw.moved(old(shifter_ops)@, final(shifter_ops)@);
            &&& there == FlexioHardware { ssf: there.ssf, ..hw }
            &&& bit_is_set(there.ssf, k) == (k != N && bit_is_set(hw.ssf, k))
        }),
        ({
            let there = hw.moved(old(timer_ops)@, final(timer_ops)@);
            &&& there == FlexioHardware { tsf: there.tsf, ..hw }
            &&& bit_is_set(there.tsf, k) == (k != N && bit_is_set(hw.tsf, k))
        }),
{
    let bit = unit::unit_bit(N as int);
    registers::lemma_moved_one(
        hw,
        old(on_ops)@,
        FlexioOp::ModifyShiftsden { clear: 0, set: bit },
    );
    registers::lemma_moved_one(
        hw,
        old(off_ops)@,
        FlexioOp::ModifyShiftsden { clear: bit, set: 0 },
    );
    registers::lemma_moved_one(hw, old(shifter_ops)@, FlexioOp::WriteShiftstat(bit));
    registers::lemma_moved_one(hw, old(timer_ops)@, FlexioOp::WriteTimstat(bit));
    mask::lemma_modified_one_way(hw.ssde, bit);
    mask::lemma_bit_of(hw.ssde, bit, k);
    mask::lemma_bit_of(hw.ssf, bit, k);
    mask::lemma_bit_of(hw.tsf, bit, k);
    mask::lemma_bit_of_single(N as int, k);
}

/// A flag is up exactly if the bit of its unit is, and each shifter has its own request
/// signal, from 71 on.
pub proof fn law_unit_flags<'d, const N: usize>(
    shifter: Shifter<'d, N>,
    timer: Timer<'d, N>,
    flags: u8,
    shifter_up: bool,
    timer_up: bool,
    request: DmaRequest,
    number: u8,
)
    requires
        N < 4,
        call_ensures(Shifter::<'d, N>::is_status_set, (&shifter, flags), shifter_up),
        call_ensures(Timer::<'d, N>::is_status_set, (&timer, flags), timer_up),
        call_ensures(Shifter::<'d, N>::dma_request, (), request),
        call_ensures(DmaRequest::number, (&request,), number),
    ensures
        shifter_up == bit_is_set(flags, N as int),
        timer_up == bit_is_set(flags, N as int),
        number == 71 + N,
{
}

/// The configurations to start from: units that are switched off, on lane zero, with levels
/// as they are, without start and stop bits and without a trigger.
pub proof fn law_default_configurations(shifter: ShifterConfig, timer: TimerConfig)
    requires
        call_ensures(<ShifterConfig as Default>::default, (), shifter),
        call_ensures(<TimerConfig as Default>::default, (), timer),
    ensures
        shifter.smod == Smod::Disable && shifter.pin_cfg == ShiftctlPincfg::Disable,
        shifter.pin_select == 0 && shifter.timer_select == 0,
        shifter.pin_pol == ShiftctlPinpol::ActiveHigh && shifter.timer_pol == Timpol::Posedge,
        shifter.start_bit == Sstart::Value00 && shifter.stop_bit == Sstop::Value00,
        shifter.input_source == Insrc::Pin,
        timer.timod == Timod::Disable && timer.pin_cfg == TimctlPincfg::Outdisable,
        timer.timdec == Timdec::FlexioClkShiftclkTmrOut,
        timer.timena == Timena::Enable && timer.timdis == Timdis::Never,
        timer.timrst == Timrst::Never && timer.timout == Timout::One,
        timer.tstop == Tstop::StopDisable && !timer.tstart,
        timer.pin_select == 0 && timer.pin_pol == TimctlPinpol::ActiveHigh,
        timer.trigger == TimerTrigger::NoTrigger && timer.compare == 0,
{
}

} // verus!
