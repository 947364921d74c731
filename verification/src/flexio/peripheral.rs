//! The peripheral as a whole, and the units that are taken from it.
use super::ops::{FlexioOp, UNIT_COUNT};
use super::unit::{Shifter, Timer};
use core::marker::PhantomData;
use vstd::prelude::*;

verus! {

/// A FlexIO peripheral of the chip.
pub trait Instance {
    /// Number of shifters.
    const SHIFTER_COUNT: usize;

    /// Number of timers.
    const TIMER_COUNT: usize;
}

/// The first FlexIO peripheral.
#[derive(Clone, Copy)]
pub struct FLEXIO0;

impl embassy_hal_internal::PeripheralType for FLEXIO0 {
}

impl Instance for FLEXIO0 {
    const SHIFTER_COUNT: usize = 4;

    const TIMER_COUNT: usize = 4;
}

/// FlexIO peripheral manager.
pub struct Flexio<'d, INST: Instance> {
    _phantom: PhantomData<&'d mut INST>,
}

/// Handle to the shifters of a peripheral.
pub struct ShifterCluster<'d> {
    taken: [bool; UNIT_COUNT],
    _phantom: PhantomData<&'d mut ()>,
}

/// Handle to the timers of a peripheral.
pub struct TimerCluster<'d> {
    taken: [bool; UNIT_COUNT],
    _phantom: PhantomData<&'d mut ()>,
}

/// Operations that take the peripheral through a software reset and switch it on.
pub open spec fn claim_ops() -> Seq<FlexioOp> {
    seq![
        FlexioOp::WriteReset(true),
        FlexioOp::WriteReset(false),
        FlexioOp::SetEnabled(true),
    ]
}

/// Operations that switch the peripheral and its clock off.
pub open spec fn release_ops() -> Seq<FlexioOp> {
    seq![FlexioOp::SetEnabled(false), FlexioOp::DisableClock]
}

/// No unit is taken.
pub open spec fn none_taken() -> Seq<bool> {
    Seq::new(UNIT_COUNT as nat, |i: int| false)
}

impl<'d, INST: Instance> Flexio<'d, INST> {
    /// Claims the peripheral: `enabled` is what came of enabling its clock. What is
    /// left from before is cleared by a software reset.
    pub fn new<E>(enabled: Result<(), E>, ops: &mut Vec<FlexioOp>) -> (result: Result<Self, E>)
        ensures
            result is Ok <==> enabled is Ok,
            result is Ok ==> final(ops)@ == old(ops)@ + claim_ops(),
            enabled matches Err(error) ==> result == Err::<Self, E>(error) && final(ops)@ == old(
                ops,
            )@,
    {
        match enabled {
            Ok(()) => {
                ops.push(FlexioOp::WriteReset(true));
                ops.push(FlexioOp::WriteReset(false));
                ops.push(FlexioOp::SetEnabled(true));
                Ok(Flexio { _phantom: PhantomData })
            },
            Err(error) => Err(error),
        }
    }

    /// Splits the peripheral into its shifters and timers, none of them taken. Its
    /// clock keeps running until the two clusters, and all that is taken from them, are
    /// given back to a [`ClockKeeper`](super::keeper::ClockKeeper).
    pub fn split(self) -> (clusters: (ShifterCluster<'d>, TimerCluster<'d>))
        ensures
            clusters.0@ == none_taken(),
            clusters.1@ == none_taken(),
    {
        let clusters = (
            ShifterCluster { taken: [false; UNIT_COUNT], _phantom: PhantomData },
            TimerCluster { taken: [false; UNIT_COUNT], _phantom: PhantomData },
        );
        assert(clusters.0@ =~= none_taken());
        assert(clusters.1@ =~= none_taken());
        clusters
    }

    /// Gives the peripheral up before it was split: it and its clock are switched off.
    pub fn release(self, ops: &mut Vec<FlexioOp>)
        ensures
            final(ops)@ == old(ops)@ + release_ops(),
    {
        ops.push(FlexioOp::SetEnabled(false));
        ops.push(FlexioOp::DisableClock);
    }
}

impl<'d> View for ShifterCluster<'d> {
    type V = Seq<bool>;

    /// Which shifters are taken.
    closed spec fn view(&self) -> Seq<bool> {
        self.taken@
    }
}

impl<'d> ShifterCluster<'d> {
    /// There is a flag for each shifter.
    pub proof fn lemma_len(&self)
        ensures
            self@.len() == UNIT_COUNT,
    {
    }

    /// Which shifters are taken, for who takes the cluster back.
    pub(super) fn into_taken(self) -> (taken: [bool; UNIT_COUNT])
        ensures
            taken@ == self@,
    {
        self.taken
    }

    /// Takes shifter `N`; `None` if it was taken before.
    pub fn take<const N: usize>(&mut self) -> (shifter: Option<Shifter<'d, N>>)
        requires
            N < UNIT_COUNT,
        ensures
            shifter is Some <==> !old(self)@[N as int],
            final(self)@ == old(self)@.update(N as int, true),
            final(self)@[N as int],
    {
        if self.taken[N] {
            assert(self@ =~= old(self)@.update(N as int, true));
            return None;
        }
        self.taken[N] = true;
        Some(Shifter::claim())
    }
}

impl<'d> View for TimerCluster<'d> {
    type V = Seq<bool>;

    /// Which timers are taken.
    closed spec fn view(&self) -> Seq<bool> {
        self.taken@
    }
}

impl<'d> TimerCluster<'d> {
    /// There is a flag for each timer.
    pub proof fn lemma_len(&self)
        ensures
            self@.len() == UNIT_COUNT,
    {
    }

    /// Which timers are taken, for who takes the cluster back.
    pub(super) fn into_taken(self) -> (taken: [bool; UNIT_COUNT])
        ensures
            taken@ == self@,
    {
        self.taken
    }

    /// Takes timer `N`; `None` if it was taken before.
    pub fn take<const N: usize>(&mut self) -> (timer: Option<Timer<'d, N>>)
        requires
            N < UNIT_COUNT,
        ensures
            timer is Some <==> !old(self)@[N as int],
            final(self)@ == old(self)@.update(N as int, true),
            final(self)@[N as int],
    {
        if self.taken[N] {
            assert(self@ =~= old(self)@.update(N as int, true));
            return None;
        }
        self.taken[N] = true;
        Some(Timer::claim())
    }
}

} // verus!
