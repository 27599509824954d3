//! Little-endian integers on the wire.

use vstd::arithmetic::power::*;
use vstd::prelude::*;

verus! {

/// The low `width` bytes of `value`, least significant first.
pub open spec fn le_bytes(value: nat, width: nat) -> Seq<u8>
    decreases width,
{
    if width == 0 {
        Seq::empty()
    } else {
        seq![(value % 256) as u8] + le_bytes(value / 256, (width - 1) as nat)
    }
}

/// The number whose little-endian bytes are `bytes`.
pub open spec fn le_value(bytes: Seq<u8>) -> nat
    decreases bytes.len(),
{
    if bytes.len() == 0 {
        0
    } else {
        bytes[0] as nat + 256 * le_value(bytes.drop_first())
    }
}

pub proof fn lemma_le_bytes_len(value: nat, width: nat)
    ensures
        le_bytes(value, width).len() == width,
    decreases width,
{
    if width > 0 {
        lemma_le_bytes_len(value / 256, (width - 1) as nat);
    }
}

/// Reading back the bytes of a number that fits in them gives the number.
pub proof fn law_le_round_trip(value: nat, width: nat)
    requires
        value < pow(256, width),
    ensures
        le_value(le_bytes(value, width)) == value,
    decreases width,
{
    reveal(pow);
    if width > 0 {
        let rest = (width - 1) as nat;
        assert(pow(256, width) == 256 * pow(256, rest));
        law_le_round_trip(value / 256, rest);
        let bytes = le_bytes(value, width);
        assert(bytes.drop_first() =~= le_bytes(value / 256, rest));
    }
}

/// A number read across two runs of bytes.
pub proof fn lemma_le_value_add(low: Seq<u8>, high: Seq<u8>)
    ensures
        le_value(low + high) == le_value(low) + pow(256, low.len()) * le_value(high),
    decreases low.len(),
{
    reveal(pow);
    if low.len() == 0 {
        assert(low + high =~= high);
        assert(pow(256, low.len()) * le_value(high) == le_value(high)) by {
            assert(pow(256, 0) == 1);
        }
    } else {
        let rest = low.drop_first();
        lemma_le_value_add(rest, high);
        assert((low + high).drop_first() =~= rest + high);
        let scale = pow(256, rest.len());
        let upper = le_value(high) as int;
        assert(pow(256, low.len()) == 256 * scale);
        assert(256 * (scale * upper) == (256 * scale) * upper) by (nonlinear_arith);
        assert((low + high)[0] == low[0]);
        assert(le_value(low + high) == low[0] + 256 * (le_value(rest) + scale * upper));
    }
}

/// Appends the low `width` bytes of `value`, least significant first.
pub fn push_le(out: &mut Vec<u8>, value: u64, width: usize)
    ensures
        final(out)@ == old(out)@ + le_bytes(value as nat, width as nat),
{
    let mut left: usize = width;
    let mut rest: u64 = value;
    while left > 0
        invariant
            left <= width,
            out@ + le_bytes(rest as nat, left as nat) =~= old(out)@ + le_bytes(
                value as nat,
                width as nat,
            ),
        decreases left,
    {
        out.push((rest % 256) as u8);
        rest = rest / 256;
        left = left - 1;
    }
}

pub proof fn lemma_le_value_unrolled(bytes: Seq<u8>)
    ensures
        bytes.len() == 4 ==> le_value(bytes) == bytes[0] + 256 * bytes[1] + 0x1_0000 * bytes[2]
            + 0x100_0000 * bytes[3],
{
    if bytes.len() == 4 {
        reveal_with_fuel(le_value, 5);
        assert(bytes.drop_first()[0] == bytes[1]);
        assert(bytes.drop_first().drop_first()[0] == bytes[2]);
        assert(bytes.drop_first().drop_first().drop_first()[0] == bytes[3]);
    }
}

/// Reads the four bytes of `bytes` that start at `at`.
pub fn read_le_u32(bytes: &[u8], at: usize) -> (value: u32)
    requires
        at + 4 <= bytes@.len(),
    ensures
        value == le_value(bytes@.subrange(at as int, at + 4)),
{
    proof {
        lemma_le_value_unrolled(bytes@.subrange(at as int, at + 4));
    }
    bytes[at] as u32 + 256 * (bytes[at + 1] as u32) + 0x1_0000 * (bytes[at + 2] as u32)
        + 0x100_0000 * (bytes[at + 3] as u32)
}

// ---------------------------------------------------------------------------
// Laws
// ---------------------------------------------------------------------------
/// A number takes as many bytes as were asked for, and each of them is the
/// remainder by 256 once the places before it are divided out.
pub proof fn law_bytes_are_the_digits(value: nat, width: nat, i: int)
    requires
        0 <= i < width,
    ensures
        le_bytes(value, width).len() == width,
        le_bytes(value, width)[i] == (value as int / pow(256, i as nat)) % 256,
    decreases width,
{
    lemma_le_bytes_len(value, width);
    reveal(pow);
    let rest = (width - 1) as nat;
    lemma_le_bytes_len(value / 256, rest);
    if i == 0 {
        assert(pow(256, 0) == 1);
    } else {
        law_bytes_are_the_digits(value / 256, rest, i - 1);
        let scale = pow(256, (i - 1) as nat);
        assert(pow(256, i as nat) == 256 * scale);
        vstd::arithmetic::power::lemma_pow_positive(256, (i - 1) as nat);
        vstd::arithmetic::div_mod::lemma_div_denominator(value as int, 256, scale);
    }
}

/// A number read from four bytes weighs each byte by its place, and no other byte.
pub proof fn law_read_weighs_four_bytes(bytes: &[u8], at: usize, value: u32)
    requires
        at + 4 <= bytes@.len(),
        call_ensures(read_le_u32, (bytes, at), value),
    ensures
        value == bytes@[at as int] + 0x100 * bytes@[at + 1] + 0x1_0000 * bytes@[at + 2]
            + 0x100_0000 * bytes@[at + 3],
{
    lemma_le_value_unrolled(bytes@.subrange(at as int, at + 4));
}

} // verus!
