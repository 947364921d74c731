//! The buffer descriptor table: one descriptor for each endpoint, direction and
//! buffer of a pair.
use super::ops::{BufferId, UsbOp};
use super::types::HW_EP_COUNT;
use vstd::prelude::*;

verus! {

/// Number of descriptors in the table.
pub const BDT_ENTRY_COUNT: usize = 64;

/// The descriptor belongs to the controller.
pub const BD_OWN: u32 = 0x80;

/// The packet is a DATA1 packet.
pub const BD_DATA01: u32 = 0x40;

/// The controller checks the data toggle.
pub const BD_DTS: u32 = 0x08;

/// The controller answers with STALL.
pub const BD_STALL: u32 = 0x04;

/// Position of a descriptor in the table.
pub open spec fn descriptor(ep: int, is_in: bool, odd: bool) -> int {
    ep * 4 + (if is_in { 2int } else { 0 }) + (if odd { 1int } else { 0 })
}

/// Control word that hands a buffer to the controller.
pub open spec fn ready_ctrl(len: u16, data1: bool) -> u32 {
    ((len as u32) << 16) | BD_OWN | BD_DTS | (if data1 { BD_DATA01 } else { 0 })
}

/// Control word that makes the controller answer with STALL.
pub open spec fn stall_ctrl() -> u32 {
    BD_OWN | BD_DTS | BD_STALL
}

/// Operations that hand a buffer to the controller: the address first, and the
/// control word only when the address is visible.
pub open spec fn prime_ops(index: int, buffer: BufferId, len: u16, data1: bool) -> Seq<UsbOp> {
    seq![
        UsbOp::BdAddr { index: index as usize, buffer: Some(buffer) },
        UsbOp::Fence,
        UsbOp::BdCtrl { index: index as usize, ctrl: ready_ctrl(len, data1) },
    ]
}

/// Operation that takes a descriptor back from the controller.
pub open spec fn release_op(index: int) -> UsbOp {
    UsbOp::BdCtrl { index: index as usize, ctrl: 0 }
}

/// Operations that take both descriptors of an endpoint and direction back.
pub open spec fn release_pair_ops(ep: int, is_in: bool) -> Seq<UsbOp> {
    seq![release_op(descriptor(ep, is_in, false)), release_op(descriptor(ep, is_in, true))]
}

/// Operations that make a descriptor answer with STALL.
pub open spec fn stall_ops(index: int) -> Seq<UsbOp> {
    seq![UsbOp::Fence, UsbOp::BdCtrl { index: index as usize, ctrl: stall_ctrl() }]
}

/// Operations that zero the first `count` descriptors.
pub open spec fn clear_ops(count: int) -> Seq<UsbOp> {
    Seq::new(
        (2 * count) as nat,
        |k: int|
            if k % 2 == 0 {
                UsbOp::BdCtrl { index: (k / 2) as usize, ctrl: 0 }
            } else {
                UsbOp::BdAddr { index: (k / 2) as usize, buffer: None }
            },
    )
}

/// Position of a descriptor in the table.
pub fn bd_index(ep: usize, is_in: bool, odd: bool) -> (index: usize)
    requires
        ep * 4 + 3 <= usize::MAX,
    ensures
        index == descriptor(ep as int, is_in, odd),
        ep < HW_EP_COUNT ==> index < BDT_ENTRY_COUNT,
{
    ep * 4 + (if is_in { 2usize } else { 0usize }) + (if odd { 1usize } else { 0usize })
}

/// Takes a descriptor back from the controller.
pub fn bd_release(ops: &mut Vec<UsbOp>, index: usize)
    requires
        index < BDT_ENTRY_COUNT,
    ensures
        final(ops)@ == old(ops)@.push(release_op(index as int)),
{
    ops.push(UsbOp::BdCtrl { index, ctrl: 0 });
}

/// Takes both descriptors of an endpoint and direction back from the controller.
pub fn bd_release_pair(ops: &mut Vec<UsbOp>, ep: usize, is_in: bool)
    requires
        ep < HW_EP_COUNT,
    ensures
        final(ops)@ == old(ops)@ + release_pair_ops(ep as int, is_in),
{
    bd_release(ops, bd_index(ep, is_in, false));
    bd_release(ops, bd_index(ep, is_in, true));
    assert(ops@ =~= old(ops)@ + release_pair_ops(ep as int, is_in));
}

/// Makes a descriptor answer with STALL.
pub fn bd_stall(ops: &mut Vec<UsbOp>, index: usize)
    requires
        index < BDT_ENTRY_COUNT,
    ensures
        final(ops)@ == old(ops)@ + stall_ops(index as int),
{
    ops.push(UsbOp::Fence);
    ops.push(UsbOp::BdCtrl { index, ctrl: BD_OWN | BD_DTS | BD_STALL });
}

/// Hands a buffer to the controller, to be sent or filled with up to `len` bytes.
pub fn bd_prime(ops: &mut Vec<UsbOp>, index: usize, buffer: BufferId, len: u16, data1: bool)
    requires
        index < BDT_ENTRY_COUNT,
    ensures
        final(ops)@ == old(ops)@ + prime_ops(index as int, buffer, len, data1),
{
    let ctrl: u32 = ((len as u32) << 16) | BD_OWN | BD_DTS | (if data1 { BD_DATA01 } else { 0 });
    ops.push(UsbOp::BdAddr { index, buffer: Some(buffer) });
    ops.push(UsbOp::Fence);
    ops.push(UsbOp::BdCtrl { index, ctrl });
}

/// Zeroes the whole table.
pub fn clear_bdt(ops: &mut Vec<UsbOp>)
    ensures
        final(ops)@ == old(ops)@ + clear_ops(BDT_ENTRY_COUNT as int),
{
    let mut i: usize = 0;
    while i < BDT_ENTRY_COUNT
        invariant
            i <= BDT_ENTRY_COUNT,
            ops@ == old(ops)@ + clear_ops(i as int),
        decreases BDT_ENTRY_COUNT - i,
    {
        ops.push(UsbOp::BdCtrl { index: i, ctrl: 0 });
        ops.push(UsbOp::BdAddr { index: i, buffer: None });
        i += 1;
        assert(ops@ =~= old(ops)@ + clear_ops(i as int));
    }
}

/// Byte count that a control word holds.
pub open spec fn byte_count(ctrl: u32) -> u16 {
    (ctrl >> 16) as u16
}

/// Packet identifier that the controller left in a control word.
pub open spec fn token_pid(ctrl: u32) -> u32 {
    (ctrl >> 2) & 0x0f
}

/// No two descriptors of the sixteen endpoints share a place in the table.
pub proof fn law_descriptors_distinct(
    ep: int,
    is_in: bool,
    odd: bool,
    ep2: int,
    is_in2: bool,
    odd2: bool,
)
    requires
        0 <= ep < HW_EP_COUNT,
        0 <= ep2 < HW_EP_COUNT,
    ensures
        0 <= descriptor(ep, is_in, odd) < BDT_ENTRY_COUNT,
        descriptor(ep, is_in, odd) == descriptor(ep2, is_in2, odd2) ==> ep == ep2 && is_in == is_in2
            && odd == odd2,
{
}

/// Every place in the table is the descriptor of some endpoint, direction and
/// buffer, which can be read off the position.
pub proof fn law_descriptors_fill_table(index: int)
    requires
        0 <= index < BDT_ENTRY_COUNT,
    ensures
        0 <= index / 4 < HW_EP_COUNT,
        descriptor(index / 4, index % 4 >= 2, index % 2 == 1) == index,
{
}

/// A control word that hands a buffer over says what it was made of: the
/// controller owns it, checks the toggle and does not stall, and the length and
/// the data toggle can be read back.
pub proof fn law_ready_ctrl_fields(len: u16, data1: bool)
    ensures
        byte_count(ready_ctrl(len, data1)) == len,
        ready_ctrl(len, data1) & BD_OWN != 0,
        ready_ctrl(len, data1) & BD_DTS != 0,
        ready_ctrl(len, data1) & BD_STALL == 0,
        ready_ctrl(len, data1) & BD_DATA01 != 0 <==> data1,
{
    let toggle: u32 = if data1 {
        BD_DATA01
    } else {
        0
    };
    let ctrl: u32 = ((len as u32) << 16) | BD_OWN | BD_DTS | toggle;
    assert((ctrl >> 16) as u16 == len && ctrl & 0x80 != 0 && ctrl & 0x08 != 0 && ctrl & 0x04 == 0
        && (ctrl & 0x40 != 0 <==> toggle == 0x40)) by (bit_vector)
        requires
            toggle == 0x40 || toggle == 0,
            ctrl == ((len as u32) << 16) | 0x80 | 0x08 | toggle,
    ;
}

} // verus!
