//! Flags packed into a byte.
use vstd::prelude::*;

verus! {

/// Whether bit `i` of `bits` is set.
pub open spec fn bit_is_set(bits: u8, i: int) -> bool {
    bits & (1u8 << (i as u8)) != 0
}

/// What a register of eight bits holds after the bits of `clear` are taken out and those
/// of `set` put in.
pub open spec fn modified_bits(value: u8, clear: u8, set: u8) -> u8 {
    (value & !clear) | set
}

/// The value to write back where a register is modified.
pub fn modified(value: u8, clear: u8, set: u8) -> (result: u8)
    ensures
        result == modified_bits(value, clear, set),
{
    (value & !clear) | set
}

/// The bytes with a single bit.
pub proof fn lemma_single_bits()
    ensures
        1u8 << 0u8 == 0x01,
        1u8 << 1u8 == 0x02,
        1u8 << 2u8 == 0x04,
        1u8 << 3u8 == 0x08,
        1u8 << 4u8 == 0x10,
        1u8 << 5u8 == 0x20,
        1u8 << 6u8 == 0x40,
        1u8 << 7u8 == 0x80,
{
    assert(1u8 << 0u8 == 0x01 && 1u8 << 1u8 == 0x02 && 1u8 << 2u8 == 0x04 && 1u8 << 3u8 == 0x08
        && 1u8 << 4u8 == 0x10 && 1u8 << 5u8 == 0x20 && 1u8 << 6u8 == 0x40 && 1u8 << 7u8 == 0x80)
        by (bit_vector);
}

/// A register of which bits are only put in or only taken out.
pub proof fn lemma_modified_one_way(value: u8, bits: u8)
    ensures
        modified_bits(value, bits, 0) == value & !bits,
        modified_bits(value, 0, bits) == value | bits,
        value & !0xffu8 == 0,
{
    assert((value & !bits) | 0u8 == value & !bits && (value & !0u8) | bits == value | bits && value
        & !0xffu8 == 0) by (bit_vector);
}

/// What putting bits in and taking them out does to one bit.
pub proof fn lemma_bit_of(x: u8, y: u8, k: int)
    requires
        0 <= k < 8,
    ensures
        bit_is_set(x | y, k) == (bit_is_set(x, k) || bit_is_set(y, k)),
        bit_is_set(x & y, k) == (bit_is_set(x, k) && bit_is_set(y, k)),
        bit_is_set(x & !y, k) == (bit_is_set(x, k) && !bit_is_set(y, k)),
        bit_is_set(!y, k) == !bit_is_set(y, k),
{
    let j: u8 = k as u8;
    assert(((x | y) & (1u8 << j) != 0 <==> (x & (1u8 << j) != 0 || y & (1u8 << j) != 0)) && ((x & y)
        & (1u8 << j) != 0 <==> (x & (1u8 << j) != 0 && y & (1u8 << j) != 0)) && ((x & !y) & (1u8
        << j) != 0 <==> (x & (1u8 << j) != 0 && y & (1u8 << j) == 0)) && (!y & (1u8 << j) != 0
        <==> y & (1u8 << j) == 0)) by (bit_vector)
        requires
            j < 8,
    ;
}

/// The bits of a byte with a single bit, and of zero.
pub proof fn lemma_bit_of_single(j: int, k: int)
    requires
        0 <= j < 8,
        0 <= k < 8,
    ensures
        bit_is_set(1u8 << (j as u8), k) == (j == k),
        !bit_is_set(0, k),
        bit_is_set(0xff, k),
{
    let a: u8 = j as u8;
    let b: u8 = k as u8;
    assert(((1u8 << a) & (1u8 << b) != 0 <==> a == b) && 0u8 & (1u8 << b) == 0 && 0xffu8 & (1u8
        << b) != 0) by (bit_vector)
        requires
            a < 8,
            b < 8,
    ;
}

/// Modifying a register clears some bits and sets others, sets where both are asked for, and
/// leaves the rest.
pub proof fn law_modified(value: u8, clear: u8, set: u8, result: u8, k: int)
    requires
        0 <= k < 8,
        call_ensures(modified, (value, clear, set), result),
    ensures
        bit_is_set(result, k) == (bit_is_set(set, k) || bit_is_set(value, k) && !bit_is_set(
            clear,
            k,
        )),
{
    lemma_bit_of(value, clear, k);
    lemma_bit_of(value & !clear, set, k);
}

/// One flag for each of eight endpoints.
///
/// The view is the sequence of the flags, endpoint zero first.
#[derive(Clone, Copy, Debug)]
pub struct EndpointMask {
    bits: u8,
}

impl View for EndpointMask {
    type V = Seq<bool>;

    closed spec fn view(&self) -> Seq<bool> {
        Seq::new(8, |i: int| bit_is_set(self.bits, i))
    }
}

impl EndpointMask {
    /// The mask with all flags down.
    pub fn empty() -> (mask: Self)
        ensures
            mask@ == Seq::new(8, |i: int| false),
    {
        assert forall|i: int| 0 <= i < 8 implies !bit_is_set(0u8, i) by {
            let e: u8 = i as u8;
            assert(0u8 & (1u8 << e) == 0) by (bit_vector);
        }
        let mask = EndpointMask { bits: 0 };
        assert(mask@ =~= Seq::new(8, |i: int| false));
        mask
    }

    /// There are always eight flags.
    pub proof fn lemma_len(&self)
        ensures
            self@.len() == 8,
    {
    }

    /// The flag of endpoint `ep`.
    pub fn contains(&self, ep: usize) -> (flag: bool)
        requires
            ep < 8,
        ensures
            flag == self@[ep as int],
    {
        let e: u8 = ep as u8;
        self.bits & (1u8 << e) != 0
    }

    /// Raises or lowers the flag of endpoint `ep`.
    pub fn assign(&mut self, ep: usize, flag: bool)
        requires
            ep < 8,
        ensures
            final(self)@ == old(self)@.update(ep as int, flag),
    {
        let e: u8 = ep as u8;
        let bit: u8 = 1u8 << e;
        let before: u8 = self.bits;
        self.bits = if flag {
            before | bit
        } else {
            before & !bit
        };
        proof {
            let after = self.bits;
            assert forall|i: int| 0 <= i < 8 implies bit_is_set(after, i) == (if i == ep {
                flag
            } else {
                bit_is_set(before, i)
            }) by {
                let k: u8 = i as u8;
                assert((before | (1u8 << e)) & (1u8 << k) != 0 <==> (k == e || before & (1u8 << k)
                    != 0)) by (bit_vector)
                    requires
                        k < 8,
                        e < 8,
                ;
                assert((before & !(1u8 << e)) & (1u8 << k) != 0 <==> (k != e && before & (1u8 << k)
                    != 0)) by (bit_vector)
                    requires
                        k < 8,
                        e < 8,
                ;
            }
            assert(self@ =~= old(self)@.update(ep as int, flag));
        }
    }

    /// Inverts the flag of endpoint `ep` and returns what it was.
    pub fn flip(&mut self, ep: usize) -> (flag: bool)
        requires
            ep < 8,
        ensures
            flag == old(self)@[ep as int],
            final(self)@ == old(self)@.update(ep as int, !flag),
    {
        let e: u8 = ep as u8;
        let bit: u8 = 1u8 << e;
        let before: u8 = self.bits;
        self.bits = before ^ bit;
        proof {
            let after = self.bits;
            assert forall|i: int| 0 <= i < 8 implies bit_is_set(after, i) == (if i == ep {
                !bit_is_set(before, i)
            } else {
                bit_is_set(before, i)
            }) by {
                let k: u8 = i as u8;
                assert((before ^ (1u8 << e)) & (1u8 << k) != 0 <==> ((k == e) != (before & (1u8
                    << k) != 0))) by (bit_vector)
                    requires
                        k < 8,
                        e < 8,
                ;
            }
            assert(self@ =~= old(self)@.update(ep as int, !bit_is_set(before, ep as int)));
        }
        before & bit != 0
    }
}

/// A new mask has no flag up. A flag that was put somewhere is found there; a flag that is
/// inverted is handed out as it was and found the other way round; the flags of the other
/// endpoints stay.
pub proof fn law_mask(
    new: EndpointMask,
    assigned: &mut EndpointMask,
    flag: bool,
    flipped: &mut EndpointMask,
    before: bool,
    ep: usize,
    other: usize,
    now: bool,
)
    requires
        ep < 8,
        other < 8,
        call_ensures(EndpointMask::empty, (), new),
        call_ensures(EndpointMask::assign, (assigned, ep, flag), ()),
        *old(flipped) == *final(assigned),
        call_ensures(EndpointMask::flip, (flipped, ep), before),
        call_ensures(EndpointMask::contains, (&*final(flipped), other), now),
    ensures
        !new@[other as int],
        before == flag,
        now == (if other == ep {
            !flag
        } else {
            old(assigned)@[other as int]
        }),
{
    old(assigned).lemma_len();
}

} // verus!
