//! Pads that can be connected to a FlexIO lane.
use super::ops::{FlexioOp, Mux, PinOp, Pull};
use super::peripheral::Instance;
use vstd::prelude::*;

verus! {

/// Operations that connect a pad to its lane.
pub open spec fn lane_ops(mux: Mux) -> Seq<FlexioOp> {
    seq![
        FlexioOp::Pin(PinOp::SetPull(Pull::Disabled)),
        FlexioOp::Pin(PinOp::SetFunction(mux)),
        FlexioOp::Pin(PinOp::SetInputBuffer(true)),
    ]
}

/// Links a pad to a FlexIO lane: `INST` is the peripheral, `LANE` the index of the lane.
pub trait FlexioPin<INST: Instance, const LANE: usize> {
    /// Function of the pad that connects it to the lane.
    const MUX: Mux;

    /// Connects the pad to its lane.
    fn as_flexio_lane(&self, ops: &mut Vec<FlexioOp>)
        ensures
            final(ops)@ == old(ops)@ + lane_ops(Self::MUX),
    {
        ops.push(FlexioOp::Pin(PinOp::SetPull(Pull::Disabled)));
        ops.push(FlexioOp::Pin(PinOp::SetFunction(Self::MUX)));
        ops.push(FlexioOp::Pin(PinOp::SetInputBuffer(true)));
    }
}

} // verus!
