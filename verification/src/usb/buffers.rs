//! Packet buffers: a pair for each endpoint and direction.
use super::ops::BufferId;
use super::types::{Direction, EP_COUNT, MAX_PACKET};
use vstd::prelude::*;

verus! {

/// The packet buffers that the controller reads from and writes to.
pub struct EndpointBuffers {
    /// Buffers for packets from the host, by endpoint and pair member.
    pub ep_buf_out: [[[u8; 64]; 2]; EP_COUNT],
    /// Buffers for packets to the host, by endpoint and pair member.
    pub ep_buf_in: [[[u8; 64]; 2]; EP_COUNT],
}

/// Copies the first `len` bytes of `source` over those of `target`.
fn copy_prefix(source: &[u8], target: &mut [u8], len: usize)
    requires
        len <= source@.len(),
        len <= old(target)@.len(),
    ensures
        final(target)@ == source@.take(len as int) + old(target)@.skip(len as int),
{
    let mut i: usize = 0;
    while i < len
        invariant
            i <= len,
            len <= source@.len(),
            len <= old(target)@.len(),
            target@.len() == old(target)@.len(),
            forall|k: int| 0 <= k < i ==> target@[k] == source@[k],
            forall|k: int| i <= k < target@.len() ==> target@[k] == old(target)@[k],
        decreases len - i,
    {
        target[i] = source[i];
        i += 1;
    }
    assert(target@ =~= source@.take(len as int) + old(target)@.skip(len as int));
}

/// Calls `critical_section::with`, which masks interrupts, runs the closure it is
/// given once, and restores them: the closure copies the first `len` bytes of
/// `source` over those of `target`.
#[verifier::external_body]
fn copy_in_critical_section(source: &[u8], target: &mut [u8], len: usize)
    requires
        len <= source@.len(),
        len <= old(target)@.len(),
    ensures
        final(target)@ == source@.take(len as int) + old(target)@.skip(len as int),
{
    critical_section::with(|_| copy_prefix(source, target, len))
}

impl EndpointBuffers {
    /// What a buffer holds.
    pub open spec fn bytes(self, id: BufferId) -> Seq<u8> {
        let odd = if id.odd {
            1int
        } else {
            0
        };
        if id.direction == Direction::In {
            self.ep_buf_in@[id.ep as int]@[odd]@
        } else {
            self.ep_buf_out@[id.ep as int]@[odd]@
        }
    }

    /// Whether `self` is `before` with `data` written to the front of one buffer.
    pub open spec fn stored(self, before: Self, id: BufferId, data: Seq<u8>) -> bool {
        &&& self.bytes(id) == data + before.bytes(id).skip(data.len() as int)
        &&& forall|other: BufferId|
            other != id && other.ep < EP_COUNT ==> #[trigger] self.bytes(other) == before.bytes(other)
    }

    /// Whether every buffer holds what it held in `before`.
    pub open spec fn same(self, before: Self) -> bool {
        forall|id: BufferId| id.ep < EP_COUNT ==> #[trigger] self.bytes(id) == before.bytes(id)
    }

    /// Buffers of zeros.
    pub fn new() -> (buffers: Self)
        ensures
            forall|id: BufferId|
                id.ep < EP_COUNT ==> #[trigger] buffers.bytes(id) == Seq::new(64, |i: int| 0u8),
    {
        let buffers = EndpointBuffers {
            ep_buf_out: [[[0u8; 64]; 2]; EP_COUNT],
            ep_buf_in: [[[0u8; 64]; 2]; EP_COUNT],
        };
        assert forall|id: BufferId| id.ep < EP_COUNT implies #[trigger] buffers.bytes(id)
            == Seq::new(64, |i: int| 0u8) by {
            assert(buffers.bytes(id) =~= Seq::new(64, |i: int| 0u8));
        }
        buffers
    }

    /// Copies the first `len` bytes that the host sent into `buf`.
    pub fn copy_from_out_buf(&self, ep: usize, odd: bool, buf: &mut [u8], len: usize)
        requires
            ep < EP_COUNT,
            len <= MAX_PACKET,
            len <= old(buf)@.len(),
        ensures
            final(buf)@ == self.bytes((BufferId { ep, direction: Direction::Out, odd })).take(
                len as int,
            ) + old(buf)@.skip(len as int),
    {
        let pair: usize = if odd { 1 } else { 0 };
        copy_in_critical_section(&self.ep_buf_out[ep][pair], buf, len);
    }

    /// Copies `data` to the front of the buffer that is sent to the host.
    pub fn copy_to_in_buf(&mut self, ep: usize, odd: bool, data: &[u8])
        requires
            ep < EP_COUNT,
            data@.len() <= MAX_PACKET,
        ensures
            final(self).stored(*old(self), (BufferId { ep, direction: Direction::In, odd }), data@),
    {
        let pair: usize = if odd { 1 } else { 0 };
        let target: &mut [u8; 64] = &mut self.ep_buf_in[ep][pair];
        copy_in_critical_section(data, target, data.len());
        proof {
            let id = BufferId { ep, direction: Direction::In, odd };
            assert(data@.take(data@.len() as int) =~= data@);
            assert(self.bytes(id) =~= data@ + old(self).bytes(id).skip(data@.len() as int));
        }
    }
}

} // verus!
