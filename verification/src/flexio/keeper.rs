//! When the clock of a split peripheral is switched off.
use super::ops::{FlexioOp, UNIT_COUNT};
use super::peripheral;
use super::peripheral::{ShifterCluster, TimerCluster};
use super::unit::{Shifter, Timer};
use vstd::prelude::*;

verus! {

/// A part of a split peripheral that is given back. With a cluster comes which of its
/// units were taken.
pub enum Part {
    Shifters(Seq<bool>),
    Timers(Seq<bool>),
    Shifter(int),
    Timer(int),
}

/// What of a split peripheral was given back.
#[verifier::ext_equal]
pub struct Returned {
    /// The cluster of the shifters, with which of them were taken.
    pub shifters: Option<Seq<bool>>,
    /// The cluster of the timers, with which of them were taken.
    pub timers: Option<Seq<bool>>,
    /// Which shifters.
    pub shifter: Seq<bool>,
    /// Which timers.
    pub timer: Seq<bool>,
}

/// Whether each unit that was taken is among those that are back.
pub open spec fn covered(taken: Seq<bool>, units: Seq<bool>) -> bool {
    forall|n: int| 0 <= n < UNIT_COUNT && #[trigger] taken[n] ==> units[n]
}

/// Whether a cluster is back, and with it each unit that was taken from it.
pub open spec fn all_back(cluster: Option<Seq<bool>>, units: Seq<bool>) -> bool {
    match cluster {
        Some(taken) => covered(taken, units),
        None => false,
    }
}

impl Returned {
    /// Nothing was given back.
    pub open spec fn nothing() -> Self {
        Returned {
            shifters: None,
            timers: None,
            shifter: peripheral::none_taken(),
            timer: peripheral::none_taken(),
        }
    }

    /// Both clusters are back, and each unit that was taken from them.
    pub open spec fn complete(self) -> bool {
        all_back(self.shifters, self.shifter) && all_back(self.timers, self.timer)
    }

    /// With one more part. There is one cluster of each kind.
    pub open spec fn with(self, part: Part) -> Self {
        match part {
            Part::Shifters(taken) => Returned {
                shifters: Some(
                    if self.shifters is Some {
                        self.shifters->0
                    } else {
                        taken
                    },
                ),
                ..self
            },
            Part::Timers(taken) => Returned {
                timers: Some(
                    if self.timers is Some {
                        self.timers->0
                    } else {
                        taken
                    },
                ),
                ..self
            },
            Part::Shifter(n) => Returned { shifter: self.shifter.update(n, true), ..self },
            Part::Timer(n) => Returned { timer: self.timer.update(n, true), ..self },
        }
    }

    /// Operations that one more part calls for: with the last one the peripheral is
    /// switched off.
    pub open spec fn ops_for(self, part: Part) -> Seq<FlexioOp> {
        if !self.complete() && self.with(part).complete() {
            peripheral::release_ops()
        } else {
            seq![]
        }
    }

    /// With some parts, one after the other.
    pub open spec fn with_all(self, parts: Seq<Part>) -> Self
        decreases parts.len(),
    {
        if parts.len() == 0 {
            self
        } else {
            self.with_all(parts.drop_last()).with(parts.last())
        }
    }

    /// Operations that some parts call for, one after the other.
    pub open spec fn queued(self, parts: Seq<Part>) -> Seq<FlexioOp>
        decreases parts.len(),
    {
        if parts.len() == 0 {
            seq![]
        } else {
            self.queued(parts.drop_last()) + self.with_all(parts.drop_last()).ops_for(parts.last())
        }
    }
}

/// Takes the parts of a split peripheral back, and switches the peripheral and its clock
/// off once it has all of them.
pub struct ClockKeeper {
    shifters: Option<[bool; UNIT_COUNT]>,
    timers: Option<[bool; UNIT_COUNT]>,
    shifter: [bool; UNIT_COUNT],
    timer: [bool; UNIT_COUNT],
}

impl View for ClockKeeper {
    type V = Returned;

    /// What was given back.
    closed spec fn view(&self) -> Returned {
        Returned {
            shifters: match self.shifters {
                Some(taken) => Some(taken@),
                None => None,
            },
            timers: match self.timers {
                Some(taken) => Some(taken@),
                None => None,
            },
            shifter: self.shifter@,
            timer: self.timer@,
        }
    }
}

/// Whether each unit that was taken is among those that are back.
fn covers(units: &[bool; UNIT_COUNT], taken: &[bool; UNIT_COUNT]) -> (covers: bool)
    ensures
        covers == covered(taken@, units@),
{
    let mut n: usize = 0;
    while n < UNIT_COUNT
        invariant
            n <= UNIT_COUNT,
            forall|i: int| 0 <= i < n && #[trigger] taken@[i] ==> units@[i],
        decreases UNIT_COUNT - n,
    {
        if taken[n] && !units[n] {
            assert(taken@[n as int] && !units@[n as int]);
            return false;
        }
        n += 1;
    }
    true
}

impl ClockKeeper {
    /// There are four shifters and four timers.
    pub proof fn lemma_len(&self)
        ensures
            self@.shifter.len() == 4,
            self@.timer.len() == 4,
    {
    }

    /// For a peripheral that was just split: nothing is given back yet.
    pub fn new() -> (keeper: Self)
        ensures
            keeper@ == Returned::nothing(),
    {
        let keeper = ClockKeeper {
            shifters: None,
            timers: None,
            shifter: [false; UNIT_COUNT],
            timer: [false; UNIT_COUNT],
        };
        assert(keeper@ =~= Returned::nothing());
        keeper
    }

    /// Whether all is back, and the peripheral switched off with it.
    pub fn is_complete(&self) -> (complete: bool)
        ensures
            complete == self@.complete(),
    {
        match (&self.shifters, &self.timers) {
            (Some(shifters), Some(timers)) => covers(&self.shifter, shifters) && covers(
                &self.timer,
                timers,
            ),
            _ => false,
        }
    }

    /// Switches the peripheral off if what came last made it complete.
    fn settle(&self, before: bool, ops: &mut Vec<FlexioOp>)
        ensures
            final(ops)@ == old(ops)@ + (if !before && self@.complete() {
                peripheral::release_ops()
            } else {
                seq![]
            }),
    {
        if !before && self.is_complete() {
            ops.push(FlexioOp::SetEnabled(false));
            ops.push(FlexioOp::DisableClock);
        }
        assert(ops@ =~= old(ops)@ + (if !before && self@.complete() {
            peripheral::release_ops()
        } else {
            seq![]
        }));
    }

    /// Takes the cluster of the shifters back.
    pub fn give_shifters<'d>(&mut self, cluster: ShifterCluster<'d>, ops: &mut Vec<FlexioOp>)
        ensures
            final(self)@ == old(self)@.with(Part::Shifters(cluster@)),
            final(ops)@ == old(ops)@ + old(self)@.ops_for(Part::Shifters(cluster@)),
    {
        let before: bool = self.is_complete();
        if self.shifters.is_none() {
            self.shifters = Some(cluster.into_taken());
        }
        self.settle(before, ops);
    }

    /// Takes the cluster of the timers back.
    pub fn give_timers<'d>(&mut self, cluster: TimerCluster<'d>, ops: &mut Vec<FlexioOp>)
        ensures
            final(self)@ == old(self)@.with(Part::Timers(cluster@)),
            final(ops)@ == old(ops)@ + old(self)@.ops_for(Part::Timers(cluster@)),
    {
        let before: bool = self.is_complete();
        if self.timers.is_none() {
            self.timers = Some(cluster.into_taken());
        }
        self.settle(before, ops);
    }

    /// Takes shifter `N` back.
    pub fn give_shifter<'d, const N: usize>(
        &mut self,
        shifter: Shifter<'d, N>,
        ops: &mut Vec<FlexioOp>,
    )
        requires
            N < UNIT_COUNT,
        ensures
            final(self)@ == old(self)@.with(Part::Shifter(N as int)),
            final(ops)@ == old(ops)@ + old(self)@.ops_for(Part::Shifter(N as int)),
    {
        let before: bool = self.is_complete();
        self.shifter[N] = true;
        self.settle(before, ops);
    }

    /// Takes timer `N` back.
    pub fn give_timer<'d, const N: usize>(&mut self, timer: Timer<'d, N>, ops: &mut Vec<FlexioOp>)
        requires
            N < UNIT_COUNT,
        ensures
            final(self)@ == old(self)@.with(Part::Timer(N as int)),
            final(ops)@ == old(ops)@ + old(self)@.ops_for(Part::Timer(N as int)),
    {
        let before: bool = self.is_complete();
        self.timer[N] = true;
        self.settle(before, ops);
    }
}

} // verus!
