//! The number that the bytes of a variable-length integer stand for.
use vstd::prelude::*;
use vstd::arithmetic::power2::{
    lemma2_to64,
    lemma2_to64_rest,
    lemma_pow2_adds,
    lemma_pow2_strictly_increases,
    pow2,
};
use crate::trusted::pow_u64;

verus! {

/// The seven value bits of a byte: the byte without its continuation flag.
pub open spec fn low7(byte: u8) -> nat {
    (byte & 0x7f) as nat
}

/// The number that the bytes of `s` spell, seven bits to a byte and the
/// least significant group first: the byte at index `i` adds its seven value
/// bits times two to the power `7 * i`. The continuation flags play no part.
pub open spec fn varint_value(s: Seq<u8>) -> nat
    decreases s.len(),
{
    if s.len() == 0 {
        0
    } else {
        varint_value(s.drop_last()) + low7(s.last()) * pow2((7 * (s.len() - 1)) as nat)
    }
}

/// The low 64 bits of `v`, read as a signed number in two's complement.
pub open spec fn as_signed64(v: nat) -> int {
    let low = v % 0x1_0000_0000_0000_0000;
    if low < 0x8000_0000_0000_0000 {
        low as int
    } else {
        low - 0x1_0000_0000_0000_0000
    }
}

/// Least significant group first: the first byte gives the lowest seven bits,
/// and the bytes after it count 128 times what they count alone.
pub proof fn lemma_varint_value_front(first: u8, rest: Seq<u8>)
    ensures
        varint_value(seq![first] + rest) == low7(first) + 128 * varint_value(rest),
    decreases rest.len(),
{
    let s = seq![first] + rest;
    lemma2_to64();
    if rest.len() == 0 {
        assert(varint_value(s.drop_last()) == 0);
        assert(low7(first) * pow2(0) == low7(first)) by (nonlinear_arith)
            requires
                pow2(0) == 1,
        ;
    } else {
        let inner = rest.drop_last();
        let group = low7(rest.last());
        let e = (7 * (rest.len() - 1)) as nat;
        assert(s.drop_last() == seq![first] + inner);
        lemma_varint_value_front(first, inner);
        lemma_pow2_adds(7, e);
        assert(group * pow2(7 + e) == 128 * (group * pow2(e))) by (nonlinear_arith)
            requires
                pow2(7 + e) == 128 * pow2(e),
        ;
    }
}

/// The bytes of `s` spell a number of at most seven bits a byte.
pub proof fn lemma_varint_value_bound(s: Seq<u8>)
    ensures
        varint_value(s) < pow2(7 * s.len()),
    decreases s.len(),
{
    lemma2_to64();
    if s.len() > 0 {
        let e = (7 * (s.len() - 1)) as nat;
        let group = low7(s.last());
        lemma_varint_value_bound(s.drop_last());
        lemma_pow2_adds(7, e);
        let byte = s.last();
        assert(byte & 0x7f < 128) by (bit_vector);
        assert(group * pow2(e) <= 127 * pow2(e)) by (nonlinear_arith)
            requires
                group <= 127,
        ;
    }
}

/// An integer of at most nine bytes is rendered as it is: its value is below
/// two to the power 63, so no bit of it is dropped and it is not negative.
pub proof fn lemma_short_varint_is_exact(s: Seq<u8>)
    requires
        s.len() <= 9,
    ensures
        as_signed64(varint_value(s)) == varint_value(s),
{
    lemma_varint_value_bound(s);
    lemma2_to64_rest();
    if s.len() < 9 {
        lemma_pow2_strictly_increases(7 * s.len(), 63);
    }
}

/// A group whose weight is two to the power 64 or more adds nothing to the
/// low 64 bits.
proof fn lemma_high_group_vanishes(group: nat, e: nat)
    requires
        e >= 64,
    ensures
        (group * pow2(e)) % 0x1_0000_0000_0000_0000 == 0,
{
    let rest = (e - 64) as nat;
    lemma2_to64();
    lemma_pow2_adds(rest, 64);
    assert(group * pow2(e) == (group * pow2(rest)) * pow2(64)) by (nonlinear_arith)
        requires
            pow2(e) == pow2(rest) * pow2(64),
    ;
}

/// Decodes the bytes of a variable-length integer to a signed 64-bit number.
///
/// The groups of seven bits are put together least significant first. The
/// result is the low 64 bits of that number in two's complement: bits of a
/// longer integer that lie above them are dropped.
pub fn varint_to_i64(bytes: &[u8]) -> (r: i64)
    ensures
        r == as_signed64(varint_value(bytes@)),
        varint_value(bytes@) <= i64::MAX ==> r == varint_value(bytes@),
{
    let mut acc: u64 = 0;
    let mut i: usize = 0;
    while i < bytes.len()
        invariant
            i <= bytes@.len(),
            acc == varint_value(bytes@.take(i as int)) % 0x1_0000_0000_0000_0000,
        decreases bytes@.len() - i,
    {
        let group: u64 = (bytes[i] & 0x7f) as u64;
        let ghost before = varint_value(bytes@.take(i as int));
        let ghost e = (7 * i) as nat;
        proof {
            assert(bytes@.take(i as int + 1).drop_last() == bytes@.take(i as int));
        }
        if i < 10 {
            proof {
                lemma2_to64();
                lemma_pow2_strictly_increases(e, 64);
            }
            let weight: u64 = pow_u64(2, 7 * i);
            let term: u64 = group.wrapping_mul(weight);
            acc = acc.wrapping_add(term);
        } else {
            proof {
                lemma_high_group_vanishes(group as nat, e);
            }
        }
        i += 1;
    }
    proof {
        assert(bytes@.take(i as int) == bytes@);
    }
    if acc < 0x8000_0000_0000_0000 {
        acc as i64
    } else {
        ((acc - 0x8000_0000_0000_0000) as i64) + i64::MIN
    }
}

} // verus!
