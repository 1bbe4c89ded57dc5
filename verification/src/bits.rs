//! Single-bit views of 64-bit masks.
use vstd::prelude::*;

verus! {

/// Whether bit `bit` of `mask` is set.
pub open spec fn has_bit(mask: u64, bit: u64) -> bool {
    (mask >> bit) & 1 == 1
}

pub proof fn lemma_zero_has_no_bits(bit: u64)
    ensures
        !has_bit(0, bit),
{
    assert((0u64 >> bit) & 1 != 1) by (bit_vector);
}

pub proof fn lemma_set_bit(mask: u64, bit: u64, other: u64)
    requires
        bit < 64,
        other < 64,
    ensures
        has_bit(mask | (1u64 << bit), other) == (bit == other || has_bit(mask, other)),
{
    assert(bit < 64 && other < 64 ==> (((mask | (1u64 << bit)) >> other) & 1 == 1) == (bit
        == other || (mask >> other) & 1 == 1)) by (bit_vector);
}

pub proof fn lemma_clear_bit(mask: u64, bit: u64, other: u64)
    requires
        bit < 64,
        other < 64,
    ensures
        has_bit(mask & !(1u64 << bit), other) == (bit != other && has_bit(mask, other)),
{
    assert(bit < 64 && other < 64 ==> (((mask & !(1u64 << bit)) >> other) & 1 == 1) == (bit
        != other && (mask >> other) & 1 == 1)) by (bit_vector);
}

pub proof fn lemma_test_bit(mask: u64, bit: u64)
    requires
        bit < 64,
    ensures
        (mask & (1u64 << bit) != 0) == has_bit(mask, bit),
{
    assert(bit < 64 ==> ((mask & (1u64 << bit) != 0) == ((mask >> bit) & 1 == 1))) by (bit_vector);
}

/// Whether bit `bit` of `mask` is set.
pub fn test_bit(mask: u64, bit: u64) -> (set: bool)
    requires
        bit < 64,
    ensures
        set == has_bit(mask, bit),
{
    proof {
        lemma_test_bit(mask, bit);
    }
    mask & (1u64 << bit) != 0
}

/// `mask` with bit `bit` set.
pub fn set_bit(mask: u64, bit: u64) -> (result: u64)
    requires
        bit < 64,
    ensures
        forall|other: u64| other < 64 ==> #[trigger] has_bit(result, other) == (bit == other || has_bit(mask, other)),
{
    proof {
        assert forall|other: u64| other < 64 implies #[trigger] has_bit(mask | (1u64 << bit), other) == (bit == other || has_bit(mask, other)) by {
            lemma_set_bit(mask, bit, other);
        }
    }
    mask | (1u64 << bit)
}

/// `mask` with bit `bit` cleared.
pub fn clear_bit(mask: u64, bit: u64) -> (result: u64)
    requires
        bit < 64,
    ensures
        forall|other: u64| other < 64 ==> #[trigger] has_bit(result, other) == (bit != other && has_bit(mask, other)),
{
    proof {
        assert forall|other: u64| other < 64 implies #[trigger] has_bit(mask & !(1u64 << bit), other) == (bit != other && has_bit(mask, other)) by {
            lemma_clear_bit(mask, bit, other);
        }
    }
    mask & !(1u64 << bit)
}

/// Whether bit `bit` (0 = least significant) of a byte is set.
pub open spec fn byte_bit(byte: u8, bit: u8) -> bool {
    (byte >> bit) & 1 == 1
}

pub proof fn lemma_byte_test(byte: u8, bit: u8)
    requires
        bit < 8,
    ensures
        (byte & (1u8 << bit) != 0) == byte_bit(byte, bit),
{
    assert(bit < 8 ==> ((byte & (1u8 << bit) != 0) == ((byte >> bit) & 1 == 1))) by (bit_vector);
}

pub proof fn lemma_byte_set(byte: u8, bit: u8, other: u8)
    requires
        bit < 8,
        other < 8,
    ensures
        byte_bit(byte | (1u8 << bit), other) == (bit == other || byte_bit(byte, other)),
        byte_bit(byte & !(1u8 << bit), other) == (bit != other && byte_bit(byte, other)),
{
    assert(bit < 8 && other < 8 ==> ((((byte | (1u8 << bit)) >> other) & 1 == 1) == (bit == other
        || (byte >> other) & 1 == 1))) by (bit_vector);
    assert(bit < 8 && other < 8 ==> ((((byte & !(1u8 << bit)) >> other) & 1 == 1) == (bit
        != other && (byte >> other) & 1 == 1))) by (bit_vector);
}

pub proof fn lemma_shift_split(x: u64, k: u64)
    requires
        k < 64,
    ensures
        x >> k == 2 * (x >> ((k + 1) as u64)) + if has_bit(x, k) { 1int } else { 0int },
{
    assert(k < 64 ==> (x >> k) == 2 * (x >> ((k + 1) as u64)) + ((x >> k) & 1)) by (bit_vector);
    assert(((x >> k) & 1) == 1 || ((x >> k) & 1) == 0) by (bit_vector);
}

pub proof fn lemma_shift_ends(x: u64)
    ensures
        x >> 0u64 == x,
        x >> 64u64 == 0,
{
    assert(x >> 0u64 == x) by (bit_vector);
    assert(x >> 64u64 == 0) by (bit_vector);
}

proof fn lemma_shift_equal_from(x: u64, y: u64, k: u64)
    requires
        k <= 64,
        forall|b: u64| b < 64 ==> #[trigger] has_bit(x, b) == has_bit(y, b),
    ensures
        x >> k == y >> k,
    decreases 64 - k,
{
    if k == 64 {
        lemma_shift_ends(x);
        lemma_shift_ends(y);
    } else {
        lemma_shift_equal_from(x, y, (k + 1) as u64);
        lemma_shift_split(x, k);
        lemma_shift_split(y, k);
        assert(has_bit(x, k) == has_bit(y, k));
    }
}

/// Two 64-bit words with the same bits are equal.
pub proof fn lemma_bits_extensional(x: u64, y: u64)
    requires
        forall|b: u64| b < 64 ==> #[trigger] has_bit(x, b) == has_bit(y, b),
    ensures
        x == y,
{
    lemma_shift_equal_from(x, y, 0);
    lemma_shift_ends(x);
    lemma_shift_ends(y);
}

/// A value below `1 << len` has no bit at or above `len`.
pub proof fn lemma_high_bits_clear(v: u64, len: u64, b: u64)
    requires
        len < 64,
        len <= b < 64,
        v < (1u64 << len),
    ensures
        !has_bit(v, b),
{
    assert(len < 64 && len <= b && b < 64 && v < (1u64 << len) ==> (v >> b) & 1 != 1) by (bit_vector);
}

} // verus!
