use vstd::prelude::*;

verus! {

/// A right shift of a `u128` by 64 is a division by 2^64.
pub proof fn lemma_shr_64(x: u128)
    by (bit_vector)
    ensures
        x >> 64u32 == x / 0x1_0000_0000_0000_0000u128,
{
}

/// The low 64 bits of a `u128` are its remainder by 2^64.
pub proof fn lemma_low_64(x: u128)
    by (bit_vector)
    ensures
        x & 0xffff_ffff_ffff_ffffu128 == x % 0x1_0000_0000_0000_0000u128,
{
}

/// A left shift by 64 of a `u128` below 2^64 is a product with 2^64.
pub proof fn lemma_shl_64(x: u128)
    by (bit_vector)
    requires
        x < 0x1_0000_0000_0000_0000u128,
    ensures
        x << 64u32 == x * 0x1_0000_0000_0000_0000u128,
{
}

/// Shifts of constants: 1 and 2^64 moved left by 64 in a `u128`, and the
/// top fractional bit of a Q64 `i128` shifted by nothing.
pub proof fn lemma_constant_shifts()
    by (bit_vector)
    ensures
        1u128 << 64u32 == 0x1_0000_0000_0000_0000u128,
        0x1_0000_0000_0000_0000u128 << 64u32 == 0u128,
        0x8000_0000_0000_0000i128 >> 0u32 == 0x8000_0000_0000_0000i128,
{
}

/// One round of the bit-by-bit base-2 logarithm: the square's top bit is 0
/// or 1, the square shifted back by 63 or 64 fits 64 bits, and the next
/// fractional bit is half the current one.
pub proof fn lemma_log_round(rr: u128, bit: i128, precision: u32)
    by (bit_vector)
    requires
        bit == (0x8000_0000_0000_0000i128 >> precision),
        precision < 16,
    ensures
        rr >> 127u32 <= 1,
        (rr >> ((63 + (rr >> 127u32)) as u32)) < 0x1_0000_0000_0000_0000u128,
        bit >> 1u32 == (0x8000_0000_0000_0000i128 >> ((precision + 1) as u32)),
        bit == 2 * (bit >> 1u32),
        bit >> 1u32 > 0,
{
}

/// A right shift by 32 of a non-negative `i128` is a division by 2^32.
pub proof fn lemma_shr_32_nonneg(x: i128)
    by (bit_vector)
    requires
        x >= 0,
    ensures
        (x >> 32u32) as int == x as int / 0x1_0000_0000int,
{
}

/// Shifts of a `u64` by a `u32` amount are those by the same `u64`
/// amount, and so are those by the amount's complement to 64.
pub proof fn lemma_shift_widths(x: u64, y: u64, sa: u32)
    by (bit_vector)
    requires
        sa < 64,
    ensures
        (x << sa) == (x << (sa as u64)),
        (x >> sa) == (x >> (sa as u64)),
        0 < sa ==> (y >> (64u32 - sa) as u32) == (y >> (64u64 - (sa as u64)) as u64),
        0 < sa ==> (y << (64u32 - sa) as u32) == (y << (64u64 - (sa as u64)) as u64),
{
}


/// A left shift by 32 of a `u128` below 2^64 is a product with 2^32.
pub proof fn lemma_shl_32(x: u128)
    by (bit_vector)
    requires
        x < 0x1_0000_0000_0000_0000u128,
    ensures
        x << 32u32 == x * 0x1_0000_0000u128,
{
}

} // verus!
