use vstd::prelude::*;

use vstd::arithmetic::power2::pow2;

use crate::bitmap::{
    bit_of, leading_zeros_of, lemma_limbs_bound, lemma_mask_test, lemma_shl_leading_zeros, lemma_shr_trailing_zeros,
    trailing_zeros_of, u1024_bitand, u1024_is_zero, u1024_leading_zeros, u1024_one, u1024_shl, u1024_shr,
    u1024_trailing_zeros, u512_bit, u512_is_zero, u512_leading_zeros, u512_shl, u512_shr, u512_trailing_zeros,
    U1024Value, U512Bits,
};
use crate::clmm_math::{
    MAX_SQRT_PRICE_X64, MIN_SQRT_PRICE_X64,
    compute_swap_step, get_sqrt_price_at_tick, get_tick_at_sqrt_price, add_delta, liquidity_add_delta, sqrt_price_at_tick,
    sqrt_price_at_tick_defined, swap_step, tick_at_sqrt_price, tick_at_sqrt_price_defined, SwapStep, MAX_TICK, MIN_TICK,
};
use crate::bytes::{key_eq, le_value, read_key, read_u128, read_u16, read_u32, read_u64, AccountView};
use crate::errors::ErrorCode;
use crate::pools::CLMM_PROGRAM_ID;
use crate::q64_math::{or_zero, safe_mul_div_cast, safe_mul_shr_cast, spec_mul_div};
use crate::token_fee::{get_transfer_fee, mint_fee_defined, mint_transfer_fee, MintFeeInfo};
use crate::u64x64_math::ONE;
use crate::wide::Rounding;

verus! {

/// Ticks per tick array.
pub const TICK_ARRAY_SIZE: i32 = 60;

/// Tick arrays tracked by the pool's own bitmap, on each side of zero.
pub const TICK_ARRAY_BITMAP_SIZE: i32 = 512;

/// Bitmaps in the bitmap extension account, on each side.
pub const EXTENSION_TICKARRAY_BITMAP_SIZE: usize = 14;

/// `a / b` rounded towards negative infinity.
pub open spec fn floor_div(a: int, b: int) -> int {
    a / b
}

/// The first tick of the tick array that holds `tick_index`.
pub open spec fn array_start_index(tick_index: i32, tick_spacing: u16) -> int {
    floor_div(tick_index as int, TICK_ARRAY_SIZE * tick_spacing) * (TICK_ARRAY_SIZE * tick_spacing)
}

/// `a / b` rounded towards negative infinity, for a positive `b`.
pub fn floor_div_i32(a: i32, b: i32) -> (r: i32)
    requires
        b > 0,
    ensures
        r == a as int / b as int,
{
    proof {
        vstd::arithmetic::div_mod::lemma_fundamental_div_mod(a as int, b as int);
        vstd::arithmetic::div_mod::lemma_div_pos_is_pos(0, b as int);
    }
    if a >= 0 {
        ((a as u32) / (b as u32)) as i32
    } else {
        let n = (-(a as i64)) as u64;
        let q = (n + (b as u64) - 1) / (b as u64);
        proof {
            let x = a as int;
            let d = b as int;
            let fq = x / d;
            let fr = x % d;
            assert(x == d * fq + fr && 0 <= fr < d);
            assert(q == (-x + d - 1) / d);
            assert(-x + d - 1 == d * (-fq) + (d - 1 - fr)) by (nonlinear_arith)
                requires x == d * fq + fr;
            vstd::arithmetic::div_mod::lemma_fundamental_div_mod_converse_div(-x + d - 1, d, -fq, d - 1 - fr);
            assert(fq >= x) by (nonlinear_arith)
                requires x == d * fq + fr, 0 <= fr < d, x < 0, d > 0;
        }
        -(q as i64) as i32
    }
}

/// Whether `b` divides `a`, for a positive `b`.
pub fn divides_i32(a: i32, b: i32) -> (r: bool)
    requires
        b > 0,
    ensures
        r == (a as int % b as int == 0),
{
    let q = floor_div_i32(a, b);
    proof {
        vstd::arithmetic::div_mod::lemma_fundamental_div_mod(a as int, b as int);
        assert(q * b == b * q) by (nonlinear_arith);
        assert((q as i64) * (b as i64) <= i64::MAX && (q as i64) * (b as i64) >= i64::MIN) by (nonlinear_arith)
            requires i32::MIN <= q <= i32::MAX, 0 < b <= i32::MAX;
    }
    (q as i64) * (b as i64) == a as i64
}

/// The first tick of the tick array that holds `tick_index`; the spacing
/// must not be zero, and the start must fit in `i32`.
pub fn get_array_start_index(tick_index: i32, tick_spacing: u16) -> (r: i32)
    requires
        tick_spacing > 0,
        array_start_index(tick_index, tick_spacing) >= i32::MIN,
    ensures
        r == array_start_index(tick_index, tick_spacing),
{
    let ticks_in_array = TICK_ARRAY_SIZE * (tick_spacing as i32);
    let start = floor_div_i32(tick_index, ticks_in_array);
    proof {
        vstd::arithmetic::div_mod::lemma_fundamental_div_mod(tick_index as int, ticks_in_array as int);
        assert(start * ticks_in_array == ticks_in_array * start) by (nonlinear_arith);
    }
    start * ticks_in_array
}

/// Rust's `/` on integers: the quotient rounded towards zero, for a
/// positive divisor.
pub open spec fn trunc_div(a: int, b: int) -> int {
    if a >= 0 {
        a / b
    } else {
        -((-a) / b)
    }
}

/// Rust's `%` on integers: the remainder with the sign of the dividend, for
/// a positive divisor.
pub open spec fn trunc_rem(a: int, b: int) -> int {
    if a >= 0 {
        a % b
    } else {
        -((-a) % b)
    }
}

/// Rust's truncating division, corrected down for a negative dividend with
/// a remainder, is floor division.
pub proof fn lemma_floor_from_trunc(t: int, m: int)
    requires
        m > 0,
    ensures
        (trunc_rem(t, m) == 0) == (t % m == 0),
        trunc_div(t, m) - (if t < 0 && trunc_rem(t, m) != 0 { 1int } else { 0int }) == t / m,
{
    vstd::arithmetic::div_mod::lemma_fundamental_div_mod(t, m);
    if t < 0 {
        let a = -t;
        vstd::arithmetic::div_mod::lemma_fundamental_div_mod(a, m);
        let q = a / m;
        let r = a % m;
        if r == 0 {
            assert(t == m * (-q) + 0) by (nonlinear_arith)
                requires a == m * q + r, r == 0, t == -a;
            vstd::arithmetic::div_mod::lemma_fundamental_div_mod_converse_div(t, m, -q, 0);
            vstd::arithmetic::div_mod::lemma_fundamental_div_mod_converse_mod(t, m, -q, 0);
        } else {
            assert(t == m * (-q - 1) + (m - r)) by (nonlinear_arith)
                requires a == m * q + r, t == -a;
            vstd::arithmetic::div_mod::lemma_fundamental_div_mod_converse_div(t, m, -q - 1, m - r);
            vstd::arithmetic::div_mod::lemma_fundamental_div_mod_converse_mod(t, m, -q - 1, m - r);
        }
    }
}

/// The ticks one bitmap covers on each side of zero: `spacing * 60 * 512`.
pub open spec fn bitmap_boundary(tick_spacing: u16) -> int {
    tick_spacing * TICK_ARRAY_SIZE * TICK_ARRAY_BITMAP_SIZE
}

/// The ticks one bitmap covers on each side of zero.
pub fn max_tick_in_tickarray_bitmap(tick_spacing: u16) -> (r: i32)
    ensures
        r == bitmap_boundary(tick_spacing),
{
    (tick_spacing as i32) * TICK_ARRAY_SIZE * TICK_ARRAY_BITMAP_SIZE
}

/// Whether the pool's own bitmap marks the tick array of `tick` as
/// initialized, with that array's first tick: the array's position counted
/// from 512 arrays below zero selects the bit (no bit past 1024).
/// `InvalidTickIndex` outside the tick range.
pub open spec fn current_array_initialized(bitmap: nat, tick: i32, tick_spacing: u16) -> Result<(bool, i32), ErrorCode> {
    if tick < MIN_TICK || tick > MAX_TICK {
        Err(ErrorCode::InvalidTickIndex)
    } else {
        let m = tick_spacing * TICK_ARRAY_SIZE;
        let compressed = floor_div(tick as int, m) + 512;
        let pos = if compressed < 0 {
            -compressed
        } else {
            compressed
        };
        Ok((pos < 1024 && bit_of(bitmap, pos as nat), ((compressed - 512) * m) as i32))
    }
}

/// Whether the pool's own bitmap marks the current tick array as
/// initialized; see `current_array_initialized`.
pub fn check_current_tick_array_is_initialized(bit_map: U1024Value, tick_current: i32, tick_spacing: u16) -> (r: Result<
    (bool, i32),
    ErrorCode,
>)
    requires
        tick_spacing > 0,
    ensures
        r == current_array_initialized(bit_map@, tick_current, tick_spacing),
{
    if tick_current < MIN_TICK || tick_current > MAX_TICK {
        return Err(ErrorCode::InvalidTickIndex);
    }
    let multiplier = (tick_spacing as i32) * TICK_ARRAY_SIZE;
    proof {
        lemma_floor_from_trunc(tick_current as int, multiplier as int);
        vstd::arithmetic::div_mod::lemma_fundamental_div_mod(tick_current as int, multiplier as int);
    }
    let mut compressed = tick_current / multiplier + 512;
    if tick_current < 0 && tick_current % multiplier != 0 {
        compressed -= 1;
    }
    let bit_pos = if compressed < 0 {
        -compressed
    } else {
        compressed
    };
    let mask = u1024_shl(&u1024_one(), bit_pos as usize);
    let masked = u1024_bitand(&bit_map, &mask);
    proof {
        lemma_limbs_bound(masked.limbs@);
        lemma_mask_test(bit_map@, mask@, masked@, bit_pos as nat, 1024);
    }
    let initialized = !u1024_is_zero(&masked);
    proof {
        let f = floor_div(tick_current as int, multiplier as int);
        assert(f * multiplier <= tick_current && f * multiplier > tick_current - multiplier) by (nonlinear_arith)
            requires
                (tick_current as int) == multiplier * f + ((tick_current as int) % (multiplier as int)),
                0 <= (tick_current as int) % (multiplier as int) < multiplier;
    }
    let start_index = (compressed - 512) * multiplier;
    Ok((initialized, start_index))
}

/// The next initialized tick array after the one starting at `last`, in
/// the swap's direction, within the pool's own bitmap: from the array's
/// position `c`, the highest set bit at or below `c` (`zero_for_one`, found
/// by shifting the bitmap left and counting leading zeros) or the lowest
/// at or above it (counting trailing zeros after a right shift). Gives
/// whether one was found and its first tick, else the bitmap's edge; an
/// array beyond the bitmap gives `(false, last)`.
pub open spec fn next_array_in_default_bitmap(bitmap: nat, last: i32, tick_spacing: u16, zero_for_one: bool) -> (bool, i32) {
    let b = bitmap_boundary(tick_spacing);
    let m = tick_spacing * TICK_ARRAY_SIZE;
    let next = if zero_for_one {
        last - m
    } else {
        last + m
    };
    if next < -b || next >= b {
        (false, last)
    } else {
        let c = floor_div(next, m) + 512;
        if zero_for_one {
            let shifted = (bitmap * pow2((1024 - c - 1) as nat)) % pow2(1024);
            if shifted == 0 {
                (false, (-b) as i32)
            } else {
                (true, ((c - leading_zeros_of(shifted, 1024) - 512) * m) as i32)
            }
        } else {
            let shifted = bitmap / pow2(c as nat);
            if shifted == 0 {
                (false, (b - m) as i32)
            } else {
                (true, ((c + trailing_zeros_of(shifted, 1024) - 512) * m) as i32)
            }
        }
    }
}

/// The next initialized tick array within the pool's own bitmap; see
/// `next_array_in_default_bitmap`. The step from `last` must stay in
/// `i32`.
pub fn next_initialized_tick_array_start_index_internal(
    bit_map: U1024Value,
    last_tick_array_start_index: i32,
    tick_spacing: u16,
    zero_for_one: bool,
) -> (r: (bool, i32))
    requires
        tick_spacing > 0,
        zero_for_one ==> last_tick_array_start_index - tick_spacing * TICK_ARRAY_SIZE >= i32::MIN,
        !zero_for_one ==> last_tick_array_start_index + tick_spacing * TICK_ARRAY_SIZE <= i32::MAX,
    ensures
        r == next_array_in_default_bitmap(bit_map@, last_tick_array_start_index, tick_spacing, zero_for_one),
{
    let tick_boundary = max_tick_in_tickarray_bitmap(tick_spacing);
    let multiplier = (tick_spacing as i32) * TICK_ARRAY_SIZE;
    let next_tick_array_start_index = if zero_for_one {
        last_tick_array_start_index - multiplier
    } else {
        last_tick_array_start_index + multiplier
    };
    if next_tick_array_start_index < -tick_boundary || next_tick_array_start_index >= tick_boundary {
        return (false, last_tick_array_start_index);
    }
    proof {
        lemma_floor_from_trunc(next_tick_array_start_index as int, multiplier as int);
        vstd::arithmetic::div_mod::lemma_fundamental_div_mod(next_tick_array_start_index as int, multiplier as int);
        assert(0 <= floor_div(next_tick_array_start_index as int, multiplier as int) + 512 < 1024) by (nonlinear_arith)
            requires
                -tick_boundary <= next_tick_array_start_index < tick_boundary,
                tick_boundary == multiplier * 512,
                multiplier > 0,
                (next_tick_array_start_index as int) == multiplier * floor_div(next_tick_array_start_index as int, multiplier as int)
                    + ((next_tick_array_start_index as int) % (multiplier as int)),
                0 <= (next_tick_array_start_index as int) % (multiplier as int) < multiplier;
    }
    let mut compressed = next_tick_array_start_index / multiplier + 512;
    if next_tick_array_start_index < 0 && next_tick_array_start_index % multiplier != 0 {
        compressed -= 1;
    }
    proof {
        lemma_limbs_bound(bit_map.limbs@);
    }
    if zero_for_one {
        let offset_bit_map = u1024_shl(&bit_map, (1024 - compressed - 1) as usize);
        if u1024_is_zero(&offset_bit_map) {
            (false, -tick_boundary)
        } else {
            let next_bit = u1024_leading_zeros(&offset_bit_map);
            proof {
                lemma_shl_leading_zeros(bit_map@, (1024 - compressed - 1) as nat, 1024);
                assert((compressed - next_bit as int - 512) * multiplier >= -512 * multiplier) by (nonlinear_arith)
                    requires compressed - next_bit >= 0, multiplier > 0;
                assert((compressed - next_bit as int - 512) * multiplier <= 511 * multiplier) by (nonlinear_arith)
                    requires compressed - next_bit <= 1023, multiplier > 0;
            }
            let next_bit_u16 = next_bit as u16;
            let next_array_start_index = (compressed - next_bit_u16 as i32 - 512) * multiplier;
            (true, next_array_start_index)
        }
    } else {
        let offset_bit_map = u1024_shr(&bit_map, compressed as usize);
        if u1024_is_zero(&offset_bit_map) {
            (false, tick_boundary - multiplier)
        } else {
            let next_bit = u1024_trailing_zeros(&offset_bit_map);
            proof {
                lemma_shr_trailing_zeros(bit_map@, compressed as nat, 1024);
                assert((compressed + next_bit as int - 512) * multiplier >= -512 * multiplier) by (nonlinear_arith)
                    requires compressed + next_bit >= 0, multiplier > 0;
                assert((compressed + next_bit as int - 512) * multiplier <= 511 * multiplier) by (nonlinear_arith)
                    requires compressed + next_bit <= 1023, multiplier > 0;
            }
            let next_bit_u16 = next_bit as u16;
            let next_array_start_index = (compressed + next_bit_u16 as i32 - 512) * multiplier;
            (true, next_array_start_index)
        }
    }
}

/// Whether the tick array of `tick_index` lies outside the pool's own
/// bitmap.
pub open spec fn overflows_default_bitmap(tick_index: i32, tick_spacing: u16) -> bool {
    let start = array_start_index(tick_index, tick_spacing);
    start >= bitmap_boundary(tick_spacing) || start < -bitmap_boundary(tick_spacing)
}

/// Whether the tick array of `tick_index` lies outside the pool's own
/// bitmap; the array start must fit in `i32`.
pub fn is_overflow_default_tickarray_bitmap(tick_index: i32, tick_spacing: u16) -> (r: bool)
    requires
        tick_spacing > 0,
        array_start_index(tick_index, tick_spacing) >= i32::MIN,
    ensures
        r == overflows_default_bitmap(tick_index, tick_spacing),
{
    let tick_array_start_index = get_array_start_index(tick_index, tick_spacing);
    let max_tick_boundary = max_tick_in_tickarray_bitmap(tick_spacing);
    tick_array_start_index >= max_tick_boundary || tick_array_start_index < -max_tick_boundary
}

/// `|t|`.
pub open spec fn abs_int(t: i32) -> int {
    if t < 0 {
        -t
    } else {
        t as int
    }
}

/// The first and end ticks of the extension bitmap that holds the array
/// starting at `start`: the multiple of the bitmap width at or below it for
/// a nonnegative start; for a negative one, the truncated multiple of
/// `start + 1` as the end and one width below it as the first.
pub open spec fn bitmap_tick_boundary(start: i32, tick_spacing: u16) -> (int, int) {
    let b = bitmap_boundary(tick_spacing);
    if start >= 0 {
        let first = ((start as int) / b) * b;
        (first, first + b)
    } else {
        let end = trunc_div(start as int + 1, b) * b;
        (end - b, end)
    }
}

/// The first and end ticks of the extension bitmap holding the array at
/// `start`; see `bitmap_tick_boundary`. Both must fit in `i32`.
pub fn get_bitmap_tick_boundary(tick_array_start_index: i32, tick_spacing: u16) -> (r: (i32, i32))
    requires
        tick_spacing > 0,
        i32::MIN <= bitmap_tick_boundary(tick_array_start_index, tick_spacing).0,
        bitmap_tick_boundary(tick_array_start_index, tick_spacing).1 <= i32::MAX,
    ensures
        r.0 == bitmap_tick_boundary(tick_array_start_index, tick_spacing).0,
        r.1 == bitmap_tick_boundary(tick_array_start_index, tick_spacing).1,
{
    let ticks_in_one_bitmap = max_tick_in_tickarray_bitmap(tick_spacing);
    proof {
        vstd::arithmetic::div_mod::lemma_fundamental_div_mod(tick_array_start_index as int, ticks_in_one_bitmap as int);
    }
    if tick_array_start_index >= 0 {
        let q = tick_array_start_index / ticks_in_one_bitmap;
        proof {
            assert(0 <= q * ticks_in_one_bitmap <= tick_array_start_index) by (nonlinear_arith)
                requires
                    q == (tick_array_start_index as int) / (ticks_in_one_bitmap as int),
                    (tick_array_start_index as int) == ticks_in_one_bitmap * q + ((tick_array_start_index as int) % (ticks_in_one_bitmap as int)),
                    0 <= (tick_array_start_index as int) % (ticks_in_one_bitmap as int),
                    tick_array_start_index >= 0,
                    ticks_in_one_bitmap > 0;
        }
        let bitmap_start = q * ticks_in_one_bitmap;
        (bitmap_start, bitmap_start + ticks_in_one_bitmap)
    } else {
        let q = (tick_array_start_index + 1) / ticks_in_one_bitmap;
        proof {
            let a = -(tick_array_start_index + 1);
            vstd::arithmetic::div_mod::lemma_fundamental_div_mod(a, ticks_in_one_bitmap as int);
            assert(tick_array_start_index + 1 <= q * ticks_in_one_bitmap <= 0) by (nonlinear_arith)
                requires
                    q == -(a / (ticks_in_one_bitmap as int)),
                    a == ticks_in_one_bitmap * (a / (ticks_in_one_bitmap as int)) + (a % (ticks_in_one_bitmap as int)),
                    0 <= a % (ticks_in_one_bitmap as int),
                    a >= 0,
                    a == -(tick_array_start_index + 1),
                    ticks_in_one_bitmap > 0;
        }
        let bitmap_end = q * ticks_in_one_bitmap;
        (bitmap_end - ticks_in_one_bitmap, bitmap_end)
    }
}

/// The extension account's bitmaps: for each side of zero, one 512-bit
/// bitmap per 512 tick arrays beyond those of the pool's own bitmap.
#[derive(Debug, Clone, Copy)]
pub struct TickArrayBitmapExtension {
    pub pool_id: [u8; 32],
    pub positive_tick_array_bitmap: [[u64; 8]; 14],
    pub negative_tick_array_bitmap: [[u64; 8]; 14],
}

/// The range check of the extension: `InvalidTickIndex` when the pool's own
/// bitmap reaches the tick range's ends, `InvalidTickArrayBoundary` for a
/// tick the pool's own bitmap covers.
pub open spec fn extension_boundary_check(tick_index: i32, tick_spacing: u16) -> Result<(), ErrorCode> {
    let b = bitmap_boundary(tick_spacing);
    if !(MAX_TICK > b) || !(-b > MIN_TICK) {
        Err(ErrorCode::InvalidTickIndex)
    } else if tick_index >= -b && tick_index < b {
        Err(ErrorCode::InvalidTickArrayBoundary)
    } else {
        Ok(())
    }
}

/// Which extension bitmap holds `tick_index`: `|tick| / width - 1`, one
/// less for a negative tick on a width boundary; errors as
/// `extension_boundary_check`.
pub open spec fn extension_bitmap_offset(tick_index: i32, tick_spacing: u16) -> Result<int, ErrorCode> {
    match extension_boundary_check(tick_index, tick_spacing) {
        Err(e) => Err(e),
        Ok(_) => {
            let b = bitmap_boundary(tick_spacing);
            let a = abs_int(tick_index);
            let o = a / b - 1;
            Ok(
                if tick_index < 0 && a % b == 0 {
                    o - 1
                } else {
                    o
                },
            )
        },
    }
}

/// The bit of the array starting at `start` within its extension bitmap:
/// its distance from the bitmap's edge in arrays, counted from 512 down for
/// a negative start.
pub open spec fn offset_in_extension_bitmap(start: i32, tick_spacing: u16) -> int {
    let m = abs_int(start) % bitmap_boundary(tick_spacing);
    let o = m / (tick_spacing * TICK_ARRAY_SIZE);
    if start < 0 && m != 0 {
        512 - o
    } else {
        o
    }
}

/// The first tick of the next initialized array within one extension
/// bitmap, from the array at `start` in the swap's direction: the highest
/// set bit at or below its offset (`zero_for_one`, by a left shift and its
/// leading zeros) or the lowest at or above it (by a right shift and its
/// trailing zeros); the bitmap's edge when none is set.
pub open spec fn next_array_in_extension_bitmap(bitmap: nat, start: i32, tick_spacing: u16, zero_for_one: bool) -> (bool, int) {
    let (lo, hi) = bitmap_tick_boundary(start, tick_spacing);
    let off = offset_in_extension_bitmap(start, tick_spacing);
    let m = tick_spacing * TICK_ARRAY_SIZE;
    if zero_for_one {
        let sh = 512 - 1 - off;
        let shifted = if sh < 0 {
            0
        } else {
            (bitmap * pow2(sh as nat)) % pow2(512)
        };
        if shifted == 0 {
            (false, lo)
        } else {
            (true, start - leading_zeros_of(shifted, 512) * m)
        }
    } else {
        let shifted = bitmap / pow2(off as nat);
        if shifted == 0 {
            (false, hi - m)
        } else {
            (true, start + trailing_zeros_of(shifted, 512) * m)
        }
    }
}

/// Whether `next_array_in_extension_bitmap` stays within `i32`.
pub open spec fn next_array_in_extension_bitmap_defined(bitmap: nat, start: i32, tick_spacing: u16, zero_for_one: bool) -> bool {
    let (lo, hi) = bitmap_tick_boundary(start, tick_spacing);
    &&& start != i32::MIN
    &&& i32::MIN <= lo && hi <= i32::MAX
    &&& i32::MIN <= next_array_in_extension_bitmap(bitmap, start, tick_spacing, zero_for_one).1 <= i32::MAX
    &&& i32::MIN <= hi - tick_spacing * TICK_ARRAY_SIZE
}

impl TickArrayBitmapExtension {
    /// The range check of the extension; see `extension_boundary_check`.
    pub fn check_extension_boundary(tick_index: i32, tick_spacing: u16) -> (r: Result<(), ErrorCode>)
        ensures
            r == extension_boundary_check(tick_index, tick_spacing),
    {
        let positive_tick_boundary = max_tick_in_tickarray_bitmap(tick_spacing);
        if !(MAX_TICK > positive_tick_boundary) {
            return Err(ErrorCode::InvalidTickIndex);
        }
        if !(-positive_tick_boundary > MIN_TICK) {
            return Err(ErrorCode::InvalidTickIndex);
        }
        if tick_index >= -positive_tick_boundary && tick_index < positive_tick_boundary {
            return Err(ErrorCode::InvalidTickArrayBoundary);
        }
        Ok(())
    }

    /// Which extension bitmap holds `tick_index`; see
    /// `extension_bitmap_offset`.
    pub fn get_bitmap_offset(tick_index: i32, tick_spacing: u16) -> (r: Result<usize, ErrorCode>)
        requires
            tick_index != i32::MIN,
            tick_spacing > 0,
        ensures
            match extension_bitmap_offset(tick_index, tick_spacing) {
                Ok(o) => r == Ok::<usize, ErrorCode>(o as usize) && o >= 0,
                Err(e) => r == Err::<usize, ErrorCode>(e),
            },
    {
        Self::check_extension_boundary(tick_index, tick_spacing)?;
        let ticks_in_one_bitmap = max_tick_in_tickarray_bitmap(tick_spacing);
        let a = if tick_index < 0 {
            -tick_index
        } else {
            tick_index
        };
        proof {
            vstd::arithmetic::div_mod::lemma_fundamental_div_mod(a as int, ticks_in_one_bitmap as int);
            assert(a / ticks_in_one_bitmap >= 1) by (nonlinear_arith)
                requires
                    a >= ticks_in_one_bitmap,
                    ticks_in_one_bitmap > 0,
                    (a as int) == ticks_in_one_bitmap * ((a as int) / (ticks_in_one_bitmap as int)) + ((a as int) % (ticks_in_one_bitmap as int)),
                    (a as int) % (ticks_in_one_bitmap as int) < ticks_in_one_bitmap;
            if tick_index < 0 && a % ticks_in_one_bitmap == 0 && a / ticks_in_one_bitmap == 1 {
                assert(a == ticks_in_one_bitmap) by (nonlinear_arith)
                    requires
                        (a as int) == ticks_in_one_bitmap * ((a as int) / (ticks_in_one_bitmap as int)) + ((a as int) % (ticks_in_one_bitmap as int)),
                        (a as int) / (ticks_in_one_bitmap as int) == 1,
                        (a as int) % (ticks_in_one_bitmap as int) == 0;
            }
        }
        let mut offset = a / ticks_in_one_bitmap - 1;
        if tick_index < 0 && a % ticks_in_one_bitmap == 0 {
            offset -= 1;
        }
        Ok(offset as usize)
    }

    /// The extension bitmap holding `tick_index`, with its position; the
    /// position must be one of the 14.
    pub fn get_bitmap(&self, tick_index: i32, tick_spacing: u16) -> (r: Result<(usize, [u64; 8]), ErrorCode>)
        requires
            tick_index != i32::MIN,
            tick_spacing > 0,
            extension_bitmap_offset(tick_index, tick_spacing) matches Ok(o) ==> o < 14,
        ensures
            match extension_bitmap_offset(tick_index, tick_spacing) {
                Ok(o) => r == Ok::<(usize, [u64; 8]), ErrorCode>(
                    (
                        o as usize,
                        if tick_index < 0 {
                            self.negative_tick_array_bitmap[o]
                        } else {
                            self.positive_tick_array_bitmap[o]
                        },
                    ),
                ),
                Err(e) => r == Err::<(usize, [u64; 8]), ErrorCode>(e),
            },
    {
        let offset = Self::get_bitmap_offset(tick_index, tick_spacing)?;
        if tick_index < 0 {
            Ok((offset, self.negative_tick_array_bitmap[offset]))
        } else {
            Ok((offset, self.positive_tick_array_bitmap[offset]))
        }
    }

    /// The bit of an array within its extension bitmap; see
    /// `offset_in_extension_bitmap`.
    pub fn tick_array_offset_in_bitmap(tick_array_start_index: i32, tick_spacing: u16) -> (r: i32)
        requires
            tick_array_start_index != i32::MIN,
            tick_spacing > 0,
        ensures
            r == offset_in_extension_bitmap(tick_array_start_index, tick_spacing),
            0 <= r <= 512,
    {
        let a = if tick_array_start_index < 0 {
            -tick_array_start_index
        } else {
            tick_array_start_index
        };
        let b = max_tick_in_tickarray_bitmap(tick_spacing);
        let m = a % b;
        let per_array = (tick_spacing as i32) * TICK_ARRAY_SIZE;
        proof {
            vstd::arithmetic::div_mod::lemma_fundamental_div_mod(m as int, per_array as int);
            assert(m / per_array < 512) by (nonlinear_arith)
                requires
                    0 <= m < b,
                    b == per_array * 512,
                    per_array > 0,
                    (m as int) == per_array * ((m as int) / (per_array as int)) + ((m as int) % (per_array as int)),
                    0 <= (m as int) % (per_array as int);
        }
        let mut tick_array_offset_in_bitmap = m / per_array;
        if tick_array_start_index < 0 && m != 0 {
            tick_array_offset_in_bitmap = TICK_ARRAY_BITMAP_SIZE - tick_array_offset_in_bitmap;
        }
        tick_array_offset_in_bitmap
    }

    /// Whether the extension marks the array at `start` as initialized,
    /// with that start; errors as `extension_bitmap_offset`.
    pub fn check_tick_array_is_initialized(&self, tick_array_start_index: i32, tick_spacing: u16) -> (r: Result<(bool, i32), ErrorCode>)
        requires
            tick_array_start_index != i32::MIN,
            tick_spacing > 0,
            extension_bitmap_offset(tick_array_start_index, tick_spacing) matches Ok(o) ==> o < 14,
        ensures
            match extension_bitmap_offset(tick_array_start_index, tick_spacing) {
                Ok(o) => {
                    let bitmap = if tick_array_start_index < 0 {
                        self.negative_tick_array_bitmap[o]
                    } else {
                        self.positive_tick_array_bitmap[o]
                    };
                    let off = offset_in_extension_bitmap(tick_array_start_index, tick_spacing);
                    r == Ok::<(bool, i32), ErrorCode>(
                        (off < 512 && bit_of(U512Bits { limbs: bitmap }@, off as nat), tick_array_start_index),
                    )
                },
                Err(e) => r == Err::<(bool, i32), ErrorCode>(e),
            },
    {
        let (_, tickarray_bitmap) = self.get_bitmap(tick_array_start_index, tick_spacing)?;
        let tick_array_offset_in_bitmap = Self::tick_array_offset_in_bitmap(tick_array_start_index, tick_spacing);
        if u512_bit(&U512Bits { limbs: tickarray_bitmap }, tick_array_offset_in_bitmap as usize) {
            return Ok((true, tick_array_start_index));
        }
        Ok((false, tick_array_start_index))
    }

    /// The next initialized array within one extension bitmap; see
    /// `next_array_in_extension_bitmap`.
    pub fn next_initialized_tick_array_in_bitmap(
        tickarray_bitmap: [u64; 8],
        next_tick_array_start_index: i32,
        tick_spacing: u16,
        zero_for_one: bool,
    ) -> (r: (bool, i32))
        requires
            tick_spacing > 0,
            next_array_in_extension_bitmap_defined(U512Bits { limbs: tickarray_bitmap }@, next_tick_array_start_index, tick_spacing, zero_for_one),
        ensures
            r.0 == next_array_in_extension_bitmap(U512Bits { limbs: tickarray_bitmap }@, next_tick_array_start_index, tick_spacing, zero_for_one).0,
            r.1 == next_array_in_extension_bitmap(U512Bits { limbs: tickarray_bitmap }@, next_tick_array_start_index, tick_spacing, zero_for_one).1,
    {
        let (bitmap_min_tick_boundary, bitmap_max_tick_boundary) = get_bitmap_tick_boundary(next_tick_array_start_index, tick_spacing);
        let tick_array_offset_in_bitmap = Self::tick_array_offset_in_bitmap(next_tick_array_start_index, tick_spacing);
        let bits = U512Bits { limbs: tickarray_bitmap };
        let per_array = (tick_spacing as i32) * TICK_ARRAY_SIZE;
        proof {
            lemma_limbs_bound(bits.limbs@);
        }
        if zero_for_one {
            let sh = TICK_ARRAY_BITMAP_SIZE - 1 - tick_array_offset_in_bitmap;
            let shift: usize = if sh < 0 {
                usize::MAX
            } else {
                sh as usize
            };
            let offset_bit_map = u512_shl(&bits, shift);
            proof {
                if sh < 0 {
                    vstd::arithmetic::power2::lemma_pow2_adds(512, (usize::MAX - 512) as nat);
                    vstd::arithmetic::power2::lemma_pow2_pos((usize::MAX - 512) as nat);
                    let k = pow2((usize::MAX - 512) as nat);
                    assert(bits@ * pow2(usize::MAX as nat) == (bits@ * k) * pow2(512)) by (nonlinear_arith)
                        requires pow2(usize::MAX as nat) == pow2(512) * k;
                    vstd::arithmetic::div_mod::lemma_mod_multiples_basic((bits@ * k) as int, pow2(512) as int);
                }
            }
            if u512_is_zero(&offset_bit_map) {
                (false, bitmap_min_tick_boundary)
            } else {
                let next_bit = u512_leading_zeros(&offset_bit_map);
                proof {
                    lemma_shl_leading_zeros(bits@, sh as nat, 512);
                    assert((next_bit as int) * (tick_spacing as int) <= 512 * 65535) by (nonlinear_arith)
                        requires next_bit <= 512, tick_spacing <= 65535;
                    assert((next_bit as int) * (tick_spacing as int) * 60 == (next_bit as int) * (tick_spacing * TICK_ARRAY_SIZE)) by (nonlinear_arith);
                }
                let next_bit_u16 = next_bit as u16;
                let next_array_start_index = next_tick_array_start_index - (next_bit_u16 as i32) * (tick_spacing as i32) * TICK_ARRAY_SIZE;
                (true, next_array_start_index)
            }
        } else {
            let offset_bit_map = u512_shr(&bits, tick_array_offset_in_bitmap as usize);
            if u512_is_zero(&offset_bit_map) {
                (false, bitmap_max_tick_boundary - per_array)
            } else {
                let next_bit = u512_trailing_zeros(&offset_bit_map);
                proof {
                    lemma_shr_trailing_zeros(bits@, tick_array_offset_in_bitmap as nat, 512);
                    assert((next_bit as int) * (tick_spacing as int) <= 512 * 65535) by (nonlinear_arith)
                        requires next_bit <= 512, tick_spacing <= 65535;
                    assert((next_bit as int) * (tick_spacing as int) * 60 == (next_bit as int) * (tick_spacing * TICK_ARRAY_SIZE)) by (nonlinear_arith);
                }
                let next_bit_u16 = next_bit as u16;
                let next_array_start_index = next_tick_array_start_index + (next_bit_u16 as i32) * (tick_spacing as i32) * TICK_ARRAY_SIZE;
                (true, next_array_start_index)
            }
        }
    }
}

/// The next initialized array after the one at `last` in the swap's
/// direction, searched in the extension bitmap holding the next array:
/// `(false, next)` when the next array lies beyond the tick range; errors as
/// `extension_bitmap_offset`. `None` where the computation fails.
pub open spec fn next_array_in_extension(ext: TickArrayBitmapExtension, last: i32, tick_spacing: u16, zero_for_one: bool) -> Option<
    Result<(bool, i32), ErrorCode>,
> {
    let m = tick_spacing * TICK_ARRAY_SIZE;
    let next = if zero_for_one {
        last - m
    } else {
        last + m
    };
    let lo = array_start_index(MIN_TICK, tick_spacing);
    let hi = array_start_index(MAX_TICK, tick_spacing);
    if tick_spacing == 0 || next < i32::MIN || next > i32::MAX {
        None
    } else if next < lo || next > hi {
        Some(Ok((false, next as i32)))
    } else {
        match extension_bitmap_offset(next as i32, tick_spacing) {
            Err(e) => Some(Err(e)),
            Ok(o) => {
                if o >= 14 {
                    None
                } else {
                    let bitmap = if next < 0 {
                        ext.negative_tick_array_bitmap[o]
                    } else {
                        ext.positive_tick_array_bitmap[o]
                    };
                    let bits = U512Bits { limbs: bitmap }@;
                    if !next_array_in_extension_bitmap_defined(bits, next as i32, tick_spacing, zero_for_one) {
                        None
                    } else {
                        let (found, start) = next_array_in_extension_bitmap(bits, next as i32, tick_spacing, zero_for_one);
                        Some(Ok((found, start as i32)))
                    }
                }
            },
        }
    }
}

impl TickArrayBitmapExtension {
    /// The next initialized array in the extension; see
    /// `next_array_in_extension`.
    pub fn next_initialized_tick_array_from_one_bitmap_extension(
        &self,
        last_tick_array_start_index: i32,
        tick_spacing: u16,
        zero_for_one: bool,
    ) -> (r: Result<(bool, i32), ErrorCode>)
        requires
            next_array_in_extension(*self, last_tick_array_start_index, tick_spacing, zero_for_one) is Some,
        ensures
            Some(r) == next_array_in_extension(*self, last_tick_array_start_index, tick_spacing, zero_for_one),
    {
        let multiplier = (tick_spacing as i32) * TICK_ARRAY_SIZE;
        let next_tick_array_start_index = if zero_for_one {
            last_tick_array_start_index - multiplier
        } else {
            last_tick_array_start_index + multiplier
        };
        proof {
            assert(array_start_index(MIN_TICK, tick_spacing) >= i32::MIN) by {
                vstd::arithmetic::div_mod::lemma_fundamental_div_mod(MIN_TICK as int, (tick_spacing * TICK_ARRAY_SIZE) as int);
                let m = (tick_spacing * TICK_ARRAY_SIZE) as int;
                let f = (MIN_TICK as int) / m;
                assert(f * m > MIN_TICK - m) by (nonlinear_arith)
                    requires (MIN_TICK as int) == m * f + ((MIN_TICK as int) % m), (MIN_TICK as int) % m < m;
                assert(m <= 65535 * 60);
            }
            assert(array_start_index(MAX_TICK, tick_spacing) >= i32::MIN) by {
                vstd::arithmetic::div_mod::lemma_fundamental_div_mod(MAX_TICK as int, (tick_spacing * TICK_ARRAY_SIZE) as int);
                let m = (tick_spacing * TICK_ARRAY_SIZE) as int;
                let f = (MAX_TICK as int) / m;
                assert(f * m > MAX_TICK - m) by (nonlinear_arith)
                    requires (MAX_TICK as int) == m * f + ((MAX_TICK as int) % m), (MAX_TICK as int) % m < m;
            }
        }
        let min_tick_array_start_index = get_array_start_index(MIN_TICK, tick_spacing);
        let max_tick_array_start_index = get_array_start_index(MAX_TICK, tick_spacing);
        if next_tick_array_start_index < min_tick_array_start_index || next_tick_array_start_index > max_tick_array_start_index {
            return Ok((false, next_tick_array_start_index));
        }
        proof {
            let m = (tick_spacing * TICK_ARRAY_SIZE) as int;
            vstd::arithmetic::div_mod::lemma_fundamental_div_mod(MIN_TICK as int, m);
            let f = (MIN_TICK as int) / m;
            assert(f * m > MIN_TICK - m) by (nonlinear_arith)
                requires (MIN_TICK as int) == m * f + ((MIN_TICK as int) % m), (MIN_TICK as int) % m < m;
            assert(m <= 65535 * 60);
            assert(min_tick_array_start_index == f * m);
            assert(next_tick_array_start_index != i32::MIN);
        }
        let (_, tickarray_bitmap) = self.get_bitmap(next_tick_array_start_index, tick_spacing)?;
        Ok(Self::next_initialized_tick_array_in_bitmap(tickarray_bitmap, next_tick_array_start_index, tick_spacing, zero_for_one))
    }
}

/// A CLMM pool: where its accounts sit, its mints, price, tick, spacing,
/// liquidity and fee rate (over one million).
#[derive(Debug, Clone, Copy)]
pub struct ClmmPoolState {
    pub program_id_index: usize,
    pub pool_index: usize,
    pub amm_config_index: usize,
    pub observation_key_index: usize,
    pub token_vault_0_index: usize,
    pub token_vault_1_index: usize,
    pub tick_array_minus_1_index: usize,
    pub tick_array_0_index: usize,
    pub tick_array_1_index: usize,
    pub bitmap_extension_index: usize,
    pub token_mint_0: [u8; 32],
    pub token_mint_1: [u8; 32],
    pub sqrt_price_x64: u128,
    pub tick_current: i32,
    pub tick_spacing: u16,
    pub liquidity: u128,
    pub trade_fee_rate: u64,
    pub price: u128,
}

/// What one round of the tick-array search finds.
#[derive(Debug, Clone, Copy, PartialEq, Eq, Structural)]
pub enum SearchStep {
    /// An initialized array starting at this tick.
    Found(i32),
    /// The search left the tick range.
    OutOfRange,
    /// Nothing yet; the search goes on from this array.
    Continue(i32),
}

/// One round of the search for the next initialized tick array after the
/// one at `last`: the pool's own bitmap first, then (with an extension) the
/// extension bitmap after where the first search ended; out of range once
/// the position leaves `[-443636, 443636]`. `None` where the computation
/// fails.
#[verifier::opaque]
pub open spec fn search_round(
    pool: ClmmPoolState,
    bitmap: nat,
    ext: Option<TickArrayBitmapExtension>,
    last: i32,
    zero_for_one: bool,
) -> Option<Result<SearchStep, ErrorCode>> {
    let m = pool.tick_spacing * TICK_ARRAY_SIZE;
    if pool.tick_spacing == 0 || (zero_for_one && last - m < i32::MIN) || (!zero_for_one && last + m > i32::MAX) {
        None
    } else {
        let (found, start) = next_array_in_default_bitmap(bitmap, last, pool.tick_spacing, zero_for_one);
        if found {
            Some(Ok(SearchStep::Found(start)))
        } else {
            let after = match ext {
                None => Some(Ok((false, start))),
                Some(e) => next_array_in_extension(e, start, pool.tick_spacing, zero_for_one),
            };
            match after {
                None => None,
                Some(Err(e)) => Some(Err(e)),
                Some(Ok((found2, start2))) => {
                    if ext is Some && found2 {
                        Some(Ok(SearchStep::Found(start2)))
                    } else if start2 < -443636 || start2 > 443636 {
                        Some(Ok(SearchStep::OutOfRange))
                    } else {
                        Some(Ok(SearchStep::Continue(start2)))
                    }
                },
            }
        }
    }
}

/// One round of the tick-array search; see `search_round`.
pub fn search_next_tick_array_round(
    pool_state: &ClmmPoolState,
    bit_map: &U1024Value,
    bitmap_extension: &Option<TickArrayBitmapExtension>,
    last: i32,
    zero_for_one: bool,
) -> (r: Result<SearchStep, ErrorCode>)
    requires
        search_round(*pool_state, bit_map@, *bitmap_extension, last, zero_for_one) is Some,
    ensures
        Some(r) == search_round(*pool_state, bit_map@, *bitmap_extension, last, zero_for_one),
{
    proof {
        reveal(search_round);
    }
    let (is_found, start_index) = next_initialized_tick_array_start_index_internal(*bit_map, last, pool_state.tick_spacing, zero_for_one);
    if is_found {
        return Ok(SearchStep::Found(start_index));
    }
    let mut next_last = start_index;
    match bitmap_extension {
        Some(ext) => {
            let (is_found2, start_index2) = ext.next_initialized_tick_array_from_one_bitmap_extension(next_last, pool_state.tick_spacing, zero_for_one)?;
            if is_found2 {
                return Ok(SearchStep::Found(start_index2));
            }
            next_last = start_index2;
        },
        None => {},
    }
    if next_last < -443636 || next_last > 443636 {
        return Ok(SearchStep::OutOfRange);
    }
    Ok(SearchStep::Continue(next_last))
}

/// The search for the next initialized tick array after the one at `last`,
/// for at most `fuel` rounds (see `search_round`): the start of the array
/// found, or `None` when the search leaves the tick range. `None` (outer)
/// where the computation fails or the rounds run out.
pub open spec fn array_search(
    pool: ClmmPoolState,
    bitmap: nat,
    ext: Option<TickArrayBitmapExtension>,
    last: i32,
    zero_for_one: bool,
    fuel: nat,
) -> Option<Result<Option<i32>, ErrorCode>>
    decreases fuel,
{
    if fuel == 0 {
        None
    } else {
        match search_round(pool, bitmap, ext, last, zero_for_one) {
            None => None,
            Some(Err(e)) => Some(Err(e)),
            Some(Ok(SearchStep::Found(s))) => Some(Ok(Some(s))),
            Some(Ok(SearchStep::OutOfRange)) => Some(Ok(None)),
            Some(Ok(SearchStep::Continue(n))) => array_search(pool, bitmap, ext, n, zero_for_one, (fuel - 1) as nat),
        }
    }
}

/// Two searches that both finish give the same result.
pub proof fn lemma_array_search_fuel(
    pool: ClmmPoolState,
    bitmap: nat,
    ext: Option<TickArrayBitmapExtension>,
    last: i32,
    zero_for_one: bool,
    f1: nat,
    f2: nat,
)
    requires
        array_search(pool, bitmap, ext, last, zero_for_one, f1) is Some,
        array_search(pool, bitmap, ext, last, zero_for_one, f2) is Some,
    ensures
        array_search(pool, bitmap, ext, last, zero_for_one, f1) == array_search(pool, bitmap, ext, last, zero_for_one, f2),
    decreases f1,
{
    match search_round(pool, bitmap, ext, last, zero_for_one) {
        Some(Ok(SearchStep::Continue(n))) => {
            lemma_array_search_fuel(pool, bitmap, ext, n, zero_for_one, (f1 - 1) as nat, (f2 - 1) as nat);
        },
        _ => {},
    }
}

/// Whether the search from `last` finishes within some number of rounds.
pub open spec fn array_search_finishes(
    pool: ClmmPoolState,
    bitmap: nat,
    ext: Option<TickArrayBitmapExtension>,
    last: i32,
    zero_for_one: bool,
) -> bool {
    exists|f: nat| #[trigger] array_search(pool, bitmap, ext, last, zero_for_one, f) is Some
}

/// The result of a search that finishes.
pub open spec fn array_search_result(
    pool: ClmmPoolState,
    bitmap: nat,
    ext: Option<TickArrayBitmapExtension>,
    last: i32,
    zero_for_one: bool,
) -> Result<Option<i32>, ErrorCode> {
    let f = choose|f: nat| #[trigger] array_search(pool, bitmap, ext, last, zero_for_one, f) is Some;
    array_search(pool, bitmap, ext, last, zero_for_one, f)->0
}

/// The first tick of the next initialized tick array after the array of
/// `last` (see `array_search`), over both bitmaps; `None` when the search
/// leaves the tick range. The search must finish.
pub fn next_initialized_tick_array_start_index(
    pool_state: &ClmmPoolState,
    tick_array_bitmap: &[u64; 16],
    bitmap_extension: &Option<TickArrayBitmapExtension>,
    last_tick_array_start_index: i32,
    zero_for_one: bool,
) -> (r: Result<Option<i32>, ErrorCode>)
    requires
        pool_state.tick_spacing > 0,
        array_start_index(last_tick_array_start_index, pool_state.tick_spacing) >= i32::MIN,
        array_search_finishes(
            *pool_state,
            U1024Value { limbs: *tick_array_bitmap }@,
            *bitmap_extension,
            array_start_index(last_tick_array_start_index, pool_state.tick_spacing) as i32,
            zero_for_one,
        ),
    ensures
        r == array_search_result(
            *pool_state,
            U1024Value { limbs: *tick_array_bitmap }@,
            *bitmap_extension,
            array_start_index(last_tick_array_start_index, pool_state.tick_spacing) as i32,
            zero_for_one,
        ),
{
    let bit_map = U1024Value { limbs: *tick_array_bitmap };
    let ghost bitmap = bit_map@;
    let mut last = get_array_start_index(last_tick_array_start_index, pool_state.tick_spacing);
    let ghost first = last;
    let ghost fuel: nat = choose|f: nat| #[trigger] array_search(*pool_state, bitmap, *bitmap_extension, first, zero_for_one, f) is Some;
    let ghost goal = array_search(*pool_state, bitmap, *bitmap_extension, first, zero_for_one, fuel);
    assert(first == array_start_index(last_tick_array_start_index, pool_state.tick_spacing) as i32);
    assert(goal->0 == array_search_result(*pool_state, bitmap, *bitmap_extension, first, zero_for_one));
    loop
        invariant
            bitmap == bit_map@,
            bit_map == (U1024Value { limbs: *tick_array_bitmap }),
            first == array_start_index(last_tick_array_start_index, pool_state.tick_spacing) as i32,
            array_search(*pool_state, bitmap, *bitmap_extension, last, zero_for_one, fuel) is Some,
            array_search(*pool_state, bitmap, *bitmap_extension, last, zero_for_one, fuel) == goal,
            goal->0 == array_search_result(*pool_state, bitmap, *bitmap_extension, first, zero_for_one),
        decreases fuel,
    {
        match search_next_tick_array_round(pool_state, &bit_map, bitmap_extension, last, zero_for_one) {
            Err(e) => {
                return Err(e);
            },
            Ok(SearchStep::Found(s)) => {
                assert(goal == Some(Ok::<Option<i32>, ErrorCode>(Some(s))));
                return Ok(Some(s));
            },
            Ok(SearchStep::OutOfRange) => {
                return Ok(None);
            },
            Ok(SearchStep::Continue(n)) => {
                last = n;
                proof {
                    fuel = (fuel - 1) as nat;
                }
            },
        }
    }
}

/// A tick: its index, the liquidity change when crossing it upwards, and
/// the liquidity referencing it (zero when it is not initialized).
#[derive(Debug, Clone, Copy, Default)]
pub struct TickState {
    pub tick: i32,
    pub liquidity_net: i128,
    pub liquidity_gross: u128,
}

impl TickState {
    /// A tick with the given fields.
    pub fn new(tick: i32, liquidity_net: i128, liquidity_gross: u128) -> (r: Self)
        ensures
            r == (TickState { tick, liquidity_net, liquidity_gross }),
    {
        TickState { tick, liquidity_net, liquidity_gross }
    }

    /// Whether any liquidity references the tick.
    pub fn is_initialized(&self) -> (r: bool)
        ensures
            r == (self.liquidity_gross > 0),
    {
        self.liquidity_gross > 0
    }
}

/// A tick array: its first tick and its sixty ticks.
#[derive(Debug, Clone)]
pub struct TickArrayState {
    pub start_tick_index: i32,
    pub ticks: Vec<TickState>,
}

/// The tick array as plain values.
pub struct TickArrayView {
    pub start_tick_index: i32,
    pub ticks: Seq<TickState>,
}

impl View for TickArrayState {
    type V = TickArrayView;

    open spec fn view(&self) -> TickArrayView {
        TickArrayView { start_tick_index: self.start_tick_index, ticks: self.ticks@ }
    }
}

/// The first initialized tick at or below position `k` whose index is
/// below `tick`, searching down.
pub open spec fn scan_ticks_down(ticks: Seq<TickState>, k: int, tick: i32) -> Option<TickState>
    decreases k + 1,
{
    if k < 0 {
        None
    } else if ticks[k].liquidity_gross > 0 && ticks[k].tick < tick {
        Some(ticks[k])
    } else {
        scan_ticks_down(ticks, k - 1, tick)
    }
}

/// The first initialized tick at or below position `k`, searching down.
pub open spec fn scan_initialized_down(ticks: Seq<TickState>, k: int) -> Option<TickState>
    decreases k + 1,
{
    if k < 0 {
        None
    } else if ticks[k].liquidity_gross > 0 {
        Some(ticks[k])
    } else {
        scan_initialized_down(ticks, k - 1)
    }
}

/// The first initialized tick at or above position `k`, searching up to
/// position 59.
pub open spec fn scan_ticks_up(ticks: Seq<TickState>, k: int) -> Option<TickState>
    decreases 60 - k,
{
    if k >= 60 {
        None
    } else if ticks[k].liquidity_gross > 0 {
        Some(ticks[k])
    } else {
        scan_ticks_up(ticks, k + 1)
    }
}

/// The next initialized tick of the array from `tick` in the swap's
/// direction: below `tick` from its own position down (`zero_for_one`), or
/// from the position after it up; `None` when `tick` lies in another array.
pub open spec fn next_tick_in_array(arr: TickArrayView, tick: i32, tick_spacing: u16, zero_for_one: bool) -> Option<TickState> {
    if array_start_index(tick, tick_spacing) != arr.start_tick_index {
        None
    } else {
        let off = (tick - arr.start_tick_index) / (tick_spacing as int);
        if zero_for_one {
            scan_ticks_down(arr.ticks, off, tick)
        } else {
            scan_ticks_up(arr.ticks, off + 1)
        }
    }
}

/// The first initialized tick of the array in the swap's direction: the
/// highest (`zero_for_one`) or the lowest.
pub open spec fn first_tick_in_array(arr: TickArrayView, zero_for_one: bool) -> Option<TickState> {
    if zero_for_one {
        scan_initialized_down(arr.ticks, 59)
    } else {
        scan_ticks_up(arr.ticks, 0)
    }
}

impl TickArrayState {
    /// An array with the given start and ticks.
    pub fn new(start_tick_index: i32, ticks: Vec<TickState>) -> (r: Self)
        ensures
            r@ == (TickArrayView { start_tick_index, ticks: ticks@ }),
    {
        TickArrayState { start_tick_index, ticks }
    }

    /// The next initialized tick of the array; see `next_tick_in_array`.
    /// The array holds sixty ticks.
    pub fn next_initialized_tick(&self, tick: i32, tick_spacing: u16, zero_for_one: bool) -> (r: Result<Option<TickState>, ErrorCode>)
        requires
            self.ticks@.len() == 60,
            tick_spacing > 0,
            array_start_index(tick, tick_spacing) >= i32::MIN,
        ensures
            r == Ok::<Option<TickState>, ErrorCode>(next_tick_in_array(self@, tick, tick_spacing, zero_for_one)),
    {
        let current_tick_array_start_index = get_array_start_index(tick, tick_spacing);
        if current_tick_array_start_index != self.start_tick_index {
            return Ok(None);
        }
        proof {
            let m = (tick_spacing * TICK_ARRAY_SIZE) as int;
            vstd::arithmetic::div_mod::lemma_fundamental_div_mod(tick as int, m);
            let f = (tick as int) / m;
            assert(0 <= tick - f * m < m) by (nonlinear_arith)
                requires (tick as int) == m * f + ((tick as int) % m), 0 <= (tick as int) % m < m;
            vstd::arithmetic::div_mod::lemma_fundamental_div_mod(tick - f * m, tick_spacing as int);
            assert((tick - f * m) / (tick_spacing as int) < 60) by (nonlinear_arith)
                requires
                    0 <= tick - f * m < m,
                    m == 60 * tick_spacing,
                    tick_spacing > 0,
                    tick - f * m == tick_spacing * ((tick - f * m) / (tick_spacing as int)) + ((tick - f * m) % (tick_spacing as int)),
                    0 <= (tick - f * m) % (tick_spacing as int);
        }
        let mut offset_in_array = (tick - self.start_tick_index) / (tick_spacing as i32);
        if zero_for_one {
            while offset_in_array >= 0
                invariant
                    self.ticks@.len() == 60,
                    -1 <= offset_in_array < 60,
                    scan_ticks_down(self.ticks@, offset_in_array as int, tick) == next_tick_in_array(self@, tick, tick_spacing, zero_for_one),
                decreases offset_in_array + 1,
            {
                if self.ticks[offset_in_array as usize].is_initialized() && self.ticks[offset_in_array as usize].tick < tick {
                    return Ok(Some(self.ticks[offset_in_array as usize]));
                }
                offset_in_array -= 1;
            }
        } else {
            offset_in_array += 1;
            while offset_in_array < TICK_ARRAY_SIZE
                invariant
                    self.ticks@.len() == 60,
                    0 <= offset_in_array <= 60,
                    scan_ticks_up(self.ticks@, offset_in_array as int) == next_tick_in_array(self@, tick, tick_spacing, zero_for_one),
                decreases 60 - offset_in_array,
            {
                if self.ticks[offset_in_array as usize].is_initialized() {
                    return Ok(Some(self.ticks[offset_in_array as usize]));
                }
                offset_in_array += 1;
            }
        }
        Ok(None)
    }

    /// The first initialized tick of the array in the swap's direction;
    /// `LiquidityInsufficient` when none is. The array holds sixty ticks.
    pub fn first_initialized_tick(&self, zero_for_one: bool) -> (r: Result<TickState, ErrorCode>)
        requires
            self.ticks@.len() == 60,
        ensures
            match first_tick_in_array(self@, zero_for_one) {
                Some(t) => r == Ok::<TickState, ErrorCode>(t),
                None => r == Err::<TickState, ErrorCode>(ErrorCode::LiquidityInsufficient),
            },
    {
        if zero_for_one {
            let mut i: i32 = TICK_ARRAY_SIZE - 1;
            while i >= 0
                invariant
                    self.ticks@.len() == 60,
                    -1 <= i < 60,
                    scan_initialized_down(self.ticks@, i as int) == first_tick_in_array(self@, zero_for_one),
                decreases i + 1,
            {
                if self.ticks[i as usize].is_initialized() {
                    return Ok(self.ticks[i as usize]);
                }
                i -= 1;
            }
        } else {
            let mut i: i32 = 0;
            while i < TICK_ARRAY_SIZE
                invariant
                    self.ticks@.len() == 60,
                    0 <= i <= 60,
                    scan_ticks_up(self.ticks@, i as int) == first_tick_in_array(self@, zero_for_one),
                decreases 60 - i,
            {
                if self.ticks[i as usize].is_initialized() {
                    return Ok(self.ticks[i as usize]);
                }
                i += 1;
            }
        }
        Err(ErrorCode::LiquidityInsufficient)
    }
}

/// Whether the extension marks the array at `start` as initialized, with
/// that start; see `TickArrayBitmapExtension::check_tick_array_is_initialized`.
/// `None` where the computation fails.
pub open spec fn extension_array_initialized(ext: TickArrayBitmapExtension, start: i32, tick_spacing: u16) -> Option<
    Result<(bool, i32), ErrorCode>,
> {
    if start == i32::MIN || tick_spacing == 0 {
        None
    } else {
        match extension_bitmap_offset(start, tick_spacing) {
            Err(e) => Some(Err(e)),
            Ok(o) => {
                if o >= 14 {
                    None
                } else {
                    let bitmap = if start < 0 {
                        ext.negative_tick_array_bitmap[o]
                    } else {
                        ext.positive_tick_array_bitmap[o]
                    };
                    let off = offset_in_extension_bitmap(start, tick_spacing);
                    Some(Ok((off < 512 && bit_of(U512Bits { limbs: bitmap }@, off as nat), start)))
                }
            },
        }
    }
}

/// The tick array a swap starts in: the array of the current tick when a
/// bitmap (the pool's own, or the extension beyond it; `InvalidAccountData`
/// when that is missing) marks it initialized, flagged `true`; else the next
/// initialized one (see `array_search`), flagged `false`, and
/// `LiquidityInsufficient` when there is none. `None` where the computation
/// fails or the search does not finish.
pub open spec fn first_array_outcome(
    pool: ClmmPoolState,
    bitmap: nat,
    ext: Option<TickArrayBitmapExtension>,
    zero_for_one: bool,
) -> Option<Result<(bool, i32), ErrorCode>> {
    let sp = pool.tick_spacing;
    let t = pool.tick_current;
    if sp == 0 || array_start_index(t, sp) < i32::MIN {
        None
    } else {
        let cur = array_start_index(t, sp) as i32;
        let checked = if overflows_default_bitmap(t, sp) {
            match ext {
                None => Some(Err(ErrorCode::InvalidAccountData)),
                Some(e) => extension_array_initialized(e, cur, sp),
            }
        } else {
            Some(current_array_initialized(bitmap, t, sp))
        };
        match checked {
            None => None,
            Some(Err(e)) => Some(Err(e)),
            Some(Ok((found, start))) => {
                if found {
                    Some(Ok((true, start)))
                } else if array_start_index(cur, sp) < i32::MIN || !array_search_finishes(
                    pool,
                    bitmap,
                    ext,
                    array_start_index(cur, sp) as i32,
                    zero_for_one,
                ) {
                    None
                } else {
                    match array_search_result(pool, bitmap, ext, array_start_index(cur, sp) as i32, zero_for_one) {
                        Err(e) => Some(Err(e)),
                        Ok(None) => Some(Err(ErrorCode::LiquidityInsufficient)),
                        Ok(Some(n)) => Some(Ok((false, n))),
                    }
                }
            },
        }
    }
}

/// The tick array a swap starts in; see `first_array_outcome`.
pub fn get_first_initialized_tick_array(
    pool_state: &ClmmPoolState,
    tick_array_bitmap: &[u64; 16],
    bitmap_extension: &Option<TickArrayBitmapExtension>,
    zero_for_one: bool,
) -> (r: Result<(bool, i32), ErrorCode>)
    requires
        first_array_outcome(*pool_state, U1024Value { limbs: *tick_array_bitmap }@, *bitmap_extension, zero_for_one) is Some,
    ensures
        Some(r) == first_array_outcome(*pool_state, U1024Value { limbs: *tick_array_bitmap }@, *bitmap_extension, zero_for_one),
{
    let current_tick_array_start_index = get_array_start_index(pool_state.tick_current, pool_state.tick_spacing);
    let (is_initialized, start_index) = if is_overflow_default_tickarray_bitmap(pool_state.tick_current, pool_state.tick_spacing) {
        match bitmap_extension {
            Some(ext) => ext.check_tick_array_is_initialized(current_tick_array_start_index, pool_state.tick_spacing)?,
            None => {
                return Err(ErrorCode::InvalidAccountData);
            },
        }
    } else {
        check_current_tick_array_is_initialized(U1024Value { limbs: *tick_array_bitmap }, pool_state.tick_current, pool_state.tick_spacing)?
    };
    if is_initialized {
        return Ok((true, start_index));
    }
    let next_start_index = next_initialized_tick_array_start_index(
        pool_state,
        tick_array_bitmap,
        bitmap_extension,
        current_tick_array_start_index,
        zero_for_one,
    )?;
    match next_start_index {
        Some(n) => Ok((false, n)),
        None => Err(ErrorCode::LiquidityInsufficient),
    }
}

/// The position of the first array from position `i` on that starts at
/// `start`.
pub open spec fn find_array_from(arrays: Seq<TickArrayState>, i: int, start: i32) -> Option<int>
    decreases arrays.len() - i,
{
    if i < 0 || i >= arrays.len() {
        None
    } else if arrays[i].start_tick_index == start {
        Some(i)
    } else {
        find_array_from(arrays, i + 1, start)
    }
}

/// Whether every array holds sixty ticks.
pub open spec fn arrays_well_formed(arrays: Seq<TickArrayState>) -> bool {
    forall|i: int| 0 <= i < arrays.len() ==> (#[trigger] arrays[i]).ticks@.len() == 60
}

/// The state of a swap between rounds.
#[derive(Debug, Clone, Copy)]
pub struct ClmmSwapState {
    pub amount_specified_remaining: u64,
    pub amount_calculated: u64,
    pub sqrt_price_x64: u128,
    pub tick: i32,
    pub liquidity: u128,
    pub is_match_pool_current_tick_array: bool,
    pub current_valid_tick_array_start_index: i32,
    pub current_tick_array_index: usize,
}

/// How a round of a swap ends.
#[derive(Debug, Clone, Copy)]
pub enum ClmmRound {
    /// The swap goes on from this state.
    Continue(ClmmSwapState),
    /// The tick arrays ran out; the swap ends with the amounts so far.
    Stop,
}

/// `-x`, wrapping at `i128::MIN`.
pub open spec fn wrapping_neg_i128(x: i128) -> i128 {
    if x == i128::MIN {
        i128::MIN
    } else {
        (-x) as i128
    }
}

/// The rest of a round once the next tick `t` is known: the step towards
/// the tick's price (clamped to the tick range), or the price limit when the
/// tick lies beyond it; then the amounts, and, when the tick's price is
/// reached, its liquidity crossed (negated for `zero_for_one`) and the tick
/// moved past it, else the tick of the new price.
pub open spec fn clmm_round_step(
    pool: ClmmPoolState,
    limit: u128,
    zero_for_one: bool,
    st: ClmmSwapState,
    t: TickState,
    is_match: bool,
    valid_start: i32,
    index: usize,
) -> Option<Result<ClmmRound, ErrorCode>> {
    let tick_next = if t.tick < MIN_TICK {
        MIN_TICK
    } else if t.tick > MAX_TICK {
        MAX_TICK
    } else {
        t.tick
    };
    let initialized = t.liquidity_gross > 0;
    if !sqrt_price_at_tick_defined(tick_next) {
        None
    } else {
        match sqrt_price_at_tick(tick_next) {
            Err(e) => Some(Err(e)),
            Ok(price_next) => {
                let target = if (zero_for_one && price_next < limit) || (!zero_for_one && price_next > limit) {
                    limit
                } else {
                    price_next
                };
                match swap_step(st.sqrt_price_x64, target, st.liquidity, st.amount_specified_remaining, pool.trade_fee_rate, true, zero_for_one) {
                    None => None,
                    Some(Err(e)) => Some(Err(e)),
                    Some(Ok(step)) => {
                        let used = step.amount_in + step.fee_amount;
                        if used > u64::MAX || used > st.amount_specified_remaining || st.amount_calculated + step.amount_out > u64::MAX {
                            None
                        } else {
                            let remaining = (st.amount_specified_remaining - used) as u64;
                            let calculated = (st.amount_calculated + step.amount_out) as u64;
                            let price = step.sqrt_price_next_x64;
                            let base = ClmmSwapState {
                                amount_specified_remaining: remaining,
                                amount_calculated: calculated,
                                sqrt_price_x64: price,
                                is_match_pool_current_tick_array: is_match,
                                current_valid_tick_array_start_index: valid_start,
                                current_tick_array_index: index,
                                ..st
                            };
                            if price == price_next {
                                let new_tick = if zero_for_one {
                                    (tick_next - 1) as i32
                                } else {
                                    tick_next
                                };
                                if initialized {
                                    let net = if zero_for_one {
                                        wrapping_neg_i128(t.liquidity_net)
                                    } else {
                                        t.liquidity_net
                                    };
                                    if net == i128::MIN {
                                        None
                                    } else {
                                        match liquidity_add_delta(st.liquidity, net) {
                                            Err(e) => Some(Err(e)),
                                            Ok(l) => Some(Ok(ClmmRound::Continue(ClmmSwapState { liquidity: l, tick: new_tick, ..base }))),
                                        }
                                    }
                                } else {
                                    Some(Ok(ClmmRound::Continue(ClmmSwapState { tick: new_tick, ..base })))
                                }
                            } else if price != st.sqrt_price_x64 {
                                if !tick_at_sqrt_price_defined(price) {
                                    None
                                } else {
                                    match tick_at_sqrt_price(price) {
                                        Err(e) => Some(Err(e)),
                                        Ok(tk) => Some(Ok(ClmmRound::Continue(ClmmSwapState { tick: tk, ..base }))),
                                    }
                                }
                            } else {
                                Some(Ok(ClmmRound::Continue(base)))
                            }
                        }
                    },
                }
            },
        }
    }
}

/// Crossing an initialized tick moves the active liquidity by the tick's
/// net liquidity: it is taken off moving down (zero for one) and added
/// moving up, so a position's liquidity leaves the range at its lower tick
/// going down and enters it there going up.
pub proof fn law_crossing_moves_liquidity_by_net(
    pool: ClmmPoolState,
    limit: u128,
    zero_for_one: bool,
    st: ClmmSwapState,
    t: TickState,
    is_match: bool,
    valid_start: i32,
    index: usize,
)
    ensures
        ({
            let tick_next = if t.tick < MIN_TICK {
                MIN_TICK
            } else if t.tick > MAX_TICK {
                MAX_TICK
            } else {
                t.tick
            };
            clmm_round_step(pool, limit, zero_for_one, st, t, is_match, valid_start, index) matches Some(
                Ok(ClmmRound::Continue(next)),
            ) ==> (t.liquidity_gross > 0 && sqrt_price_at_tick(tick_next) == Ok::<u128, ErrorCode>(next.sqrt_price_x64)
                ==> next.liquidity == if zero_for_one {
                st.liquidity - t.liquidity_net
            } else {
                st.liquidity + t.liquidity_net
            })
        }),
{
}

/// Crossing a tick and crossing it back leaves the liquidity as it was.
pub proof fn law_crossing_back_restores_liquidity(liquidity: u128, net: i128)
    requires
        net != i128::MIN,
    ensures
        liquidity_add_delta(liquidity, net) matches Ok(l) ==> liquidity_add_delta(l, (-net) as i128) == Ok::<u128, ErrorCode>(liquidity),
{
}

/// One round of a swap: the next initialized tick in the current array
/// (on the first miss, the current array's first initialized tick when the
/// swap did not start in the pool's current array); when there is none,
/// the next initialized array is searched (see `array_search`;
/// `LiquidityInsufficient` when there is none), the tick arrays are walked
/// forward to it (ending the swap when they run out) and its first
/// initialized tick taken. Then see `clmm_round_step`. `None` where the
/// computation fails or a search does not finish.
#[verifier::opaque]
pub open spec fn clmm_round(
    pool: ClmmPoolState,
    arrays: Seq<TickArrayState>,
    bitmap: nat,
    ext: Option<TickArrayBitmapExtension>,
    limit: u128,
    zero_for_one: bool,
    st: ClmmSwapState,
) -> Option<Result<ClmmRound, ErrorCode>> {
    let sp = pool.tick_spacing;
    if sp == 0 || st.current_tick_array_index >= arrays.len() || array_start_index(st.tick, sp) < i32::MIN {
        None
    } else {
        let arr = arrays[st.current_tick_array_index as int]@;
        let found: Result<(TickState, bool), ErrorCode> = match next_tick_in_array(arr, st.tick, sp, zero_for_one) {
            Some(t) => Ok((t, st.is_match_pool_current_tick_array)),
            None => if !st.is_match_pool_current_tick_array {
                match first_tick_in_array(arr, zero_for_one) {
                    Some(t) => Ok((t, true)),
                    None => Err(ErrorCode::LiquidityInsufficient),
                }
            } else {
                Ok((TickState { tick: 0, liquidity_net: 0, liquidity_gross: 0 }, st.is_match_pool_current_tick_array))
            },
        };
        match found {
            Err(e) => Some(Err(e)),
            Ok((t, is_match)) => {
                if t.liquidity_gross > 0 {
                    clmm_round_step(pool, limit, zero_for_one, st, t, is_match, st.current_valid_tick_array_start_index, st.current_tick_array_index)
                } else {
                    let last = st.current_valid_tick_array_start_index;
                    if array_start_index(last, sp) < i32::MIN || !array_search_finishes(pool, bitmap, ext, array_start_index(last, sp) as i32, zero_for_one) {
                        None
                    } else {
                        match array_search_result(pool, bitmap, ext, array_start_index(last, sp) as i32, zero_for_one) {
                            Err(e) => Some(Err(e)),
                            Ok(None) => Some(Err(ErrorCode::LiquidityInsufficient)),
                            Ok(Some(n)) => match find_array_from(arrays, st.current_tick_array_index as int, n) {
                                None => Some(Ok(ClmmRound::Stop)),
                                Some(j) => match first_tick_in_array(arrays[j]@, zero_for_one) {
                                    None => Some(Err(ErrorCode::LiquidityInsufficient)),
                                    Some(t2) => clmm_round_step(pool, limit, zero_for_one, st, t2, is_match, n, j as usize),
                                },
                            },
                        }
                    }
                }
            },
        }
    }
}

/// The rest of a round once the next tick is known; see
/// `clmm_round_step`.
fn clmm_swap_round_step(
    pool_state: &ClmmPoolState,
    sqrt_price_limit_x64: u128,
    zero_for_one: bool,
    st: ClmmSwapState,
    next_tick: TickState,
    is_match: bool,
    valid_start: i32,
    index: usize,
) -> (r: Result<ClmmRound, ErrorCode>)
    requires
        clmm_round_step(*pool_state, sqrt_price_limit_x64, zero_for_one, st, next_tick, is_match, valid_start, index) is Some,
    ensures
        Some(r) == clmm_round_step(*pool_state, sqrt_price_limit_x64, zero_for_one, st, next_tick, is_match, valid_start, index),
        r matches Ok(ClmmRound::Continue(s2)) ==> s2.amount_specified_remaining <= st.amount_specified_remaining
            && s2.current_tick_array_index == index,
{
    let mut tick_next = next_tick.tick;
    let initialized = next_tick.is_initialized();
    if tick_next < MIN_TICK {
        tick_next = MIN_TICK;
    } else if tick_next > MAX_TICK {
        tick_next = MAX_TICK;
    }
    let sqrt_price_next_x64 = get_sqrt_price_at_tick(tick_next)?;
    let target_price = if (zero_for_one && sqrt_price_next_x64 < sqrt_price_limit_x64) || (!zero_for_one && sqrt_price_next_x64
        > sqrt_price_limit_x64) {
        sqrt_price_limit_x64
    } else {
        sqrt_price_next_x64
    };
    let swap_step = compute_swap_step(
        st.sqrt_price_x64,
        target_price,
        st.liquidity,
        st.amount_specified_remaining,
        pool_state.trade_fee_rate,
        true,
        zero_for_one,
    )?;
    let mut state = st;
    state.is_match_pool_current_tick_array = is_match;
    state.current_valid_tick_array_start_index = valid_start;
    state.current_tick_array_index = index;
    state.sqrt_price_x64 = swap_step.sqrt_price_next_x64;
    state.amount_specified_remaining = state.amount_specified_remaining - (swap_step.amount_in + swap_step.fee_amount);
    state.amount_calculated = state.amount_calculated + swap_step.amount_out;
    if state.sqrt_price_x64 == sqrt_price_next_x64 {
        if initialized {
            let mut liquidity_net = next_tick.liquidity_net;
            if zero_for_one {
                liquidity_net = if liquidity_net == i128::MIN {
                    i128::MIN
                } else {
                    -liquidity_net
                };
            }
            state.liquidity = add_delta(state.liquidity, liquidity_net)?;
        }
        state.tick = if zero_for_one {
            tick_next - 1
        } else {
            tick_next
        };
    } else if state.sqrt_price_x64 != st.sqrt_price_x64 {
        state.tick = get_tick_at_sqrt_price(state.sqrt_price_x64)?;
    }
    Ok(ClmmRound::Continue(state))
}

/// One round of a swap; see `clmm_round`.
#[verifier::loop_isolation(false)]
pub fn clmm_swap_round(
    pool_state: &ClmmPoolState,
    tick_array_states: &Vec<TickArrayState>,
    tick_array_bitmap: &[u64; 16],
    bitmap_extension: &Option<TickArrayBitmapExtension>,
    sqrt_price_limit_x64: u128,
    zero_for_one: bool,
    st: ClmmSwapState,
) -> (r: Result<ClmmRound, ErrorCode>)
    requires
        arrays_well_formed(tick_array_states@),
        clmm_round(
            *pool_state,
            tick_array_states@,
            U1024Value { limbs: *tick_array_bitmap }@,
            *bitmap_extension,
            sqrt_price_limit_x64,
            zero_for_one,
            st,
        ) is Some,
    ensures
        Some(r) == clmm_round(
            *pool_state,
            tick_array_states@,
            U1024Value { limbs: *tick_array_bitmap }@,
            *bitmap_extension,
            sqrt_price_limit_x64,
            zero_for_one,
            st,
        ),
        r matches Ok(ClmmRound::Continue(s2)) ==> s2.amount_specified_remaining <= st.amount_specified_remaining
            && s2.current_tick_array_index < tick_array_states@.len(),
{
    proof {
        reveal(clmm_round);
    }
    let tick_array_current = &tick_array_states[st.current_tick_array_index];
    let mut is_match = st.is_match_pool_current_tick_array;
    let found = tick_array_current.next_initialized_tick(st.tick, pool_state.tick_spacing, zero_for_one)?;
    let next_initialized_tick = match found {
        Some(t) => t,
        None => {
            if !is_match {
                is_match = true;
                tick_array_current.first_initialized_tick(zero_for_one)?
            } else {
                TickState { tick: 0, liquidity_net: 0, liquidity_gross: 0 }
            }
        },
    };
    if next_initialized_tick.is_initialized() {
        return clmm_swap_round_step(
            pool_state,
            sqrt_price_limit_x64,
            zero_for_one,
            st,
            next_initialized_tick,
            is_match,
            st.current_valid_tick_array_start_index,
            st.current_tick_array_index,
        );
    }
    let next_index = next_initialized_tick_array_start_index(
        pool_state,
        tick_array_bitmap,
        bitmap_extension,
        st.current_valid_tick_array_start_index,
        zero_for_one,
    )?;
    let next_start = match next_index {
        Some(n) => n,
        None => {
            return Err(ErrorCode::LiquidityInsufficient);
        },
    };
    let mut index = st.current_tick_array_index;
    while tick_array_states[index].start_tick_index != next_start
        invariant
            index < tick_array_states.len(),
            st.current_tick_array_index <= index,
            find_array_from(tick_array_states@, index as int, next_start) == find_array_from(
                tick_array_states@,
                st.current_tick_array_index as int,
                next_start,
            ),
        decreases tick_array_states@.len() - index,
    {
        index += 1;
        if index >= tick_array_states.len() {
            return Ok(ClmmRound::Stop);
        }
    }
    let first_initialized_tick = tick_array_states[index].first_initialized_tick(zero_for_one)?;
    clmm_swap_round_step(
        pool_state,
        sqrt_price_limit_x64,
        zero_for_one,
        st,
        first_initialized_tick,
        is_match,
        next_start,
        index,
    )
}

/// A swap run for at most `fuel` rounds (see `clmm_round`) from `st`,
/// until the input is used up or the price limit is reached, or the tick
/// arrays run out: the final state. `None` where the computation fails or
/// the rounds run out.
pub open spec fn clmm_run(
    pool: ClmmPoolState,
    arrays: Seq<TickArrayState>,
    bitmap: nat,
    ext: Option<TickArrayBitmapExtension>,
    limit: u128,
    zero_for_one: bool,
    st: ClmmSwapState,
    fuel: nat,
) -> Option<Result<ClmmSwapState, ErrorCode>>
    decreases fuel,
{
    if st.amount_specified_remaining == 0 || st.sqrt_price_x64 == limit {
        Some(Ok(st))
    } else if fuel == 0 {
        None
    } else {
        match clmm_round(pool, arrays, bitmap, ext, limit, zero_for_one, st) {
            None => None,
            Some(Err(e)) => Some(Err(e)),
            Some(Ok(ClmmRound::Stop)) => Some(Ok(st)),
            Some(Ok(ClmmRound::Continue(s2))) => clmm_run(pool, arrays, bitmap, ext, limit, zero_for_one, s2, (fuel - 1) as nat),
        }
    }
}

/// Two runs that both finish end alike.
pub proof fn lemma_clmm_run_fuel(
    pool: ClmmPoolState,
    arrays: Seq<TickArrayState>,
    bitmap: nat,
    ext: Option<TickArrayBitmapExtension>,
    limit: u128,
    zero_for_one: bool,
    st: ClmmSwapState,
    f1: nat,
    f2: nat,
)
    requires
        clmm_run(pool, arrays, bitmap, ext, limit, zero_for_one, st, f1) is Some,
        clmm_run(pool, arrays, bitmap, ext, limit, zero_for_one, st, f2) is Some,
    ensures
        clmm_run(pool, arrays, bitmap, ext, limit, zero_for_one, st, f1) == clmm_run(pool, arrays, bitmap, ext, limit, zero_for_one, st, f2),
    decreases f1,
{
    if !(st.amount_specified_remaining == 0 || st.sqrt_price_x64 == limit) {
        match clmm_round(pool, arrays, bitmap, ext, limit, zero_for_one, st) {
            Some(Ok(ClmmRound::Continue(s2))) => {
                lemma_clmm_run_fuel(pool, arrays, bitmap, ext, limit, zero_for_one, s2, (f1 - 1) as nat, (f2 - 1) as nat);
            },
            _ => {},
        }
    }
}

/// The state a swap starts in.
pub open spec fn clmm_initial_state(pool: ClmmPoolState, amount: u64, is_match: bool, start: i32, index: int) -> ClmmSwapState {
    ClmmSwapState {
        amount_specified_remaining: amount,
        amount_calculated: 0,
        sqrt_price_x64: pool.sqrt_price_x64,
        tick: pool.tick_current,
        liquidity: pool.liquidity,
        is_match_pool_current_tick_array: is_match,
        current_valid_tick_array_start_index: start,
        current_tick_array_index: index as usize,
    }
}

/// The outcome of a swap of `amount` in the given direction down to (or up
/// to) the price limit: `ZeroAmountSpecified` for no input; `(0, 0)` when
/// the tick array to start in is not among those given; else the token-0 and
/// token-1 amounts (input used and output) of the finished run (see
/// `clmm_run`). `None` where the computation fails or the run does not
/// finish.
pub open spec fn clmm_swap_outcome(
    pool: ClmmPoolState,
    arrays: Seq<TickArrayState>,
    bitmap: nat,
    ext: Option<TickArrayBitmapExtension>,
    amount: u64,
    limit: u128,
    zero_for_one: bool,
) -> Option<Result<(u64, u64), ErrorCode>> {
    if amount == 0 {
        Some(Err(ErrorCode::ZeroAmountSpecified))
    } else {
        match first_array_outcome(pool, bitmap, ext, zero_for_one) {
            None => None,
            Some(Err(e)) => Some(Err(e)),
            Some(Ok((is_match, start))) => match find_array_from(arrays, 0, start) {
                None => Some(Ok((0, 0))),
                Some(idx) => {
                    let st0 = clmm_initial_state(pool, amount, is_match, start, idx);
                    if !(exists|f: nat| #[trigger] clmm_run(pool, arrays, bitmap, ext, limit, zero_for_one, st0, f) is Some) {
                        None
                    } else {
                        let f = choose|f: nat| #[trigger] clmm_run(pool, arrays, bitmap, ext, limit, zero_for_one, st0, f) is Some;
                        match clmm_run(pool, arrays, bitmap, ext, limit, zero_for_one, st0, f)->0 {
                            Err(e) => Some(Err(e)),
                            Ok(fin) => {
                                let used = (amount - fin.amount_specified_remaining) as u64;
                                if zero_for_one {
                                    Some(Ok((used, fin.amount_calculated)))
                                } else {
                                    Some(Ok((fin.amount_calculated, used)))
                                }
                            },
                        }
                    }
                }
            },
        }
    }
}

/// A swap over the given tick arrays; see `clmm_swap_outcome`.
#[verifier::loop_isolation(false)]
pub fn clmm_swap_internal(
    pool_state: &ClmmPoolState,
    tick_array_states: &Vec<TickArrayState>,
    tick_array_bitmap: &[u64; 16],
    bitmap_extension: &Option<TickArrayBitmapExtension>,
    amount_specified: u64,
    sqrt_price_limit_x64: u128,
    zero_for_one: bool,
) -> (r: Result<(u64, u64), ErrorCode>)
    requires
        arrays_well_formed(tick_array_states@),
        clmm_swap_outcome(
            *pool_state,
            tick_array_states@,
            U1024Value { limbs: *tick_array_bitmap }@,
            *bitmap_extension,
            amount_specified,
            sqrt_price_limit_x64,
            zero_for_one,
        ) is Some,
    ensures
        Some(r) == clmm_swap_outcome(
            *pool_state,
            tick_array_states@,
            U1024Value { limbs: *tick_array_bitmap }@,
            *bitmap_extension,
            amount_specified,
            sqrt_price_limit_x64,
            zero_for_one,
        ),
{
    if amount_specified == 0 {
        return Err(ErrorCode::ZeroAmountSpecified);
    }
    let ghost bitmap = U1024Value { limbs: *tick_array_bitmap }@;
    let (is_match, valid_start) = get_first_initialized_tick_array(pool_state, tick_array_bitmap, bitmap_extension, zero_for_one)?;
    let mut current_tick_array_index: usize = 0;
    while current_tick_array_index < tick_array_states.len() && tick_array_states[current_tick_array_index].start_tick_index
        != valid_start
        invariant
            current_tick_array_index <= tick_array_states.len(),
            find_array_from(tick_array_states@, current_tick_array_index as int, valid_start) == find_array_from(tick_array_states@, 0, valid_start),
        decreases tick_array_states.len() - current_tick_array_index,
    {
        current_tick_array_index += 1;
    }
    if current_tick_array_index >= tick_array_states.len() {
        return Ok((0, 0));
    }
    let mut state = ClmmSwapState {
        amount_specified_remaining: amount_specified,
        amount_calculated: 0,
        sqrt_price_x64: pool_state.sqrt_price_x64,
        tick: pool_state.tick_current,
        liquidity: pool_state.liquidity,
        is_match_pool_current_tick_array: is_match,
        current_valid_tick_array_start_index: valid_start,
        current_tick_array_index,
    };
    let ghost st0 = state;
    assert(find_array_from(tick_array_states@, 0, valid_start) == Some(current_tick_array_index as int));
    assert(st0 == clmm_initial_state(*pool_state, amount_specified, is_match, valid_start, current_tick_array_index as int));
    let ghost fuel: nat = choose|f: nat| #[trigger] clmm_run(*pool_state, tick_array_states@, bitmap, *bitmap_extension, sqrt_price_limit_x64, zero_for_one, st0, f) is Some;
    let ghost goal = clmm_run(*pool_state, tick_array_states@, bitmap, *bitmap_extension, sqrt_price_limit_x64, zero_for_one, st0, fuel);
    while state.amount_specified_remaining != 0 && state.sqrt_price_x64 != sqrt_price_limit_x64
        invariant
            arrays_well_formed(tick_array_states@),
            bitmap == (U1024Value { limbs: *tick_array_bitmap })@,
            state.amount_specified_remaining <= amount_specified,
            clmm_run(*pool_state, tick_array_states@, bitmap, *bitmap_extension, sqrt_price_limit_x64, zero_for_one, state, fuel) is Some,
            clmm_run(*pool_state, tick_array_states@, bitmap, *bitmap_extension, sqrt_price_limit_x64, zero_for_one, state, fuel) == goal,
        decreases fuel,
    {
        match clmm_swap_round(
            pool_state,
            tick_array_states,
            tick_array_bitmap,
            bitmap_extension,
            sqrt_price_limit_x64,
            zero_for_one,
            state,
        ) {
            Err(e) => {
                return Err(e);
            },
            Ok(ClmmRound::Stop) => {
                let used = amount_specified - state.amount_specified_remaining;
                if zero_for_one {
                    return Ok((used, state.amount_calculated));
                } else {
                    return Ok((state.amount_calculated, used));
                }
            },
            Ok(ClmmRound::Continue(s2)) => {
                state = s2;
                proof {
                    fuel = (fuel - 1) as nat;
                }
            },
        }
    }
    let (amount_0, amount_1) = if zero_for_one {
        (amount_specified - state.amount_specified_remaining, state.amount_calculated)
    } else {
        (state.amount_calculated, amount_specified - state.amount_specified_remaining)
    };
    Ok((amount_0, amount_1))
}

/// The pool fields as stored in a CLMM pool account, with the fee rate from
/// its config account.
pub open spec fn clmm_read(s: ClmmPoolState, d: Seq<u8>, c: Seq<u8>, m0: [u8; 32], m1: [u8; 32]) -> ClmmPoolState {
    ClmmPoolState {
        token_mint_0: m0,
        token_mint_1: m1,
        tick_spacing: le_value(d, 235, 2) as u16,
        liquidity: le_value(d, 237, 16) as u128,
        sqrt_price_x64: le_value(d, 253, 16) as u128,
        tick_current: le_value(d, 269, 4) as u32 as i32,
        trade_fee_rate: le_value(c, 47, 4) as u64,
        ..s
    }
}

/// Reads a CLMM pool and its config's trade fee into `pool_state` after
/// checking that the pool belongs to the CLMM program and pairs wrapped SOL
/// with `token_mint`: `InvalidPoolOwner`, `InvalidTokenPair` or
/// `TokenMismatch` otherwise; on error the state is unchanged.
pub fn parse_clmm_pool_data(
    pool_index: &usize,
    amm_config_index: &usize,
    wsol_mint: [u8; 32],
    token_mint: [u8; 32],
    accounts: &Vec<AccountView>,
    pool_state: &mut ClmmPoolState,
) -> (r: Result<(), ErrorCode>)
    requires
        *pool_index < accounts.len(),
        *amm_config_index < accounts.len(),
        accounts@[*pool_index as int].owner@ == CLMM_PROGRAM_ID@ ==> accounts@[*pool_index as int].data@.len() >= 273,
        accounts@[*amm_config_index as int].data@.len() >= 51,
    ensures
        ({
            let d = accounts@[*pool_index as int].data@;
            let c = accounts@[*amm_config_index as int].data@;
            let m0 = d.subrange(73, 105);
            let m1 = d.subrange(105, 137);
            if accounts@[*pool_index as int].owner@ != CLMM_PROGRAM_ID@ {
                r == Err::<(), ErrorCode>(ErrorCode::InvalidPoolOwner) && *final(pool_state) == *old(pool_state)
            } else if m0 != wsol_mint@ && m1 != wsol_mint@ {
                r == Err::<(), ErrorCode>(ErrorCode::InvalidTokenPair) && *final(pool_state) == *old(pool_state)
            } else if (if m0 == wsol_mint@ { m1 } else { m0 }) != token_mint@ {
                r == Err::<(), ErrorCode>(ErrorCode::TokenMismatch) && *final(pool_state) == *old(pool_state)
            } else {
                r == Ok::<(), ErrorCode>(()) && final(pool_state).token_mint_0@ == m0 && final(pool_state).token_mint_1@ == m1
                    && *final(pool_state) == clmm_read(*old(pool_state), d, c, final(pool_state).token_mint_0, final(pool_state).token_mint_1)
            }
        }),
{
    let pool_account = &accounts[*pool_index];
    if !key_eq(&pool_account.owner, &CLMM_PROGRAM_ID) {
        return Err(ErrorCode::InvalidPoolOwner);
    }
    let pool_data = &pool_account.data;
    let tick_spacing = read_u16(pool_data, 235);
    let liquidity = read_u128(pool_data, 237);
    let sqrt_price_x64 = read_u128(pool_data, 253);
    let tick_current = read_u32(pool_data, 269) as i32;
    let token_mint_0 = read_key(pool_data, 73);
    let token_mint_1 = read_key(pool_data, 105);
    let other_mint = if key_eq(&token_mint_0, &wsol_mint) {
        token_mint_1
    } else if key_eq(&token_mint_1, &wsol_mint) {
        token_mint_0
    } else {
        return Err(ErrorCode::InvalidTokenPair);
    };
    if !key_eq(&other_mint, &token_mint) {
        return Err(ErrorCode::TokenMismatch);
    }
    let trade_fee_rate = read_u32(&accounts[*amm_config_index].data, 47);
    pool_state.trade_fee_rate = trade_fee_rate as u64;
    pool_state.token_mint_0 = token_mint_0;
    pool_state.token_mint_1 = token_mint_1;
    pool_state.sqrt_price_x64 = sqrt_price_x64;
    pool_state.tick_current = tick_current;
    pool_state.tick_spacing = tick_spacing;
    pool_state.liquidity = liquidity;
    Ok(())
}

/// The pool's own tick-array bitmap: sixteen `u64` from byte 904;
/// `InvalidAccountData` for an account under 1032 bytes.
pub fn extract_tick_array_bitmap(pool_account: &AccountView) -> (r: Result<[u64; 16], ErrorCode>)
    ensures
        pool_account.data@.len() < 1032 ==> r == Err::<[u64; 16], ErrorCode>(ErrorCode::InvalidAccountData),
        pool_account.data@.len() >= 1032 ==> (r matches Ok(b) && forall|i: int| 0 <= i < 16 ==> b[i] as nat == le_value(pool_account.data@, 904 + 8 * i, 8)),
{
    let pool_data = &pool_account.data;
    if pool_data.len() < 1032 {
        return Err(ErrorCode::InvalidAccountData);
    }
    let mut bitmap: [u64; 16] = [0u64; 16];
    let mut i: usize = 0;
    while i < 16
        invariant
            i <= 16,
            pool_data@.len() >= 1032,
            forall|k: int| 0 <= k < i ==> bitmap[k] as nat == le_value(pool_data@, 904 + 8 * k, 8),
        decreases 16 - i,
    {
        bitmap[i] = read_u64(pool_data, 904 + 8 * i);
        i += 1;
    }
    Ok(bitmap)
}

/// The pool price as wrapped SOL per token, Q64.64: the square of the
/// square-root price (rounded down, zero when undefined), inverted as
/// `2^128 / price` when token 1 is not wrapped SOL.
pub open spec fn clmm_price(sqrt_price_x64: u128, token_1_is_wsol: bool) -> u128 {
    let p = or_zero(spec_mul_div(sqrt_price_x64, sqrt_price_x64, 0x1_0000_0000_0000_0000, Rounding::Down));
    if token_1_is_wsol {
        p
    } else {
        or_zero(spec_mul_div(0x1_0000_0000_0000_0000, 0x1_0000_0000_0000_0000, p, Rounding::Down))
    }
}

/// Sets the pool's price; see `clmm_price`.
pub fn calculate_clmm_price(pool_state: &mut ClmmPoolState, wsol_mint: [u8; 32]) -> (r: Result<(), ErrorCode>)
    ensures
        r == Ok::<(), ErrorCode>(()),
        *final(pool_state) == (ClmmPoolState {
            price: clmm_price(old(pool_state).sqrt_price_x64, old(pool_state).token_mint_1@ == wsol_mint@),
            ..*old(pool_state)
        }),
{
    proof {
        vstd::arithmetic::power2::lemma2_to64();
    }
    let mut price_q64 = pool_state.sqrt_price_x64;
    price_q64 = safe_mul_shr_cast(price_q64, price_q64, 64, Rounding::Down);
    if !key_eq(&pool_state.token_mint_1, &wsol_mint) {
        price_q64 = safe_mul_div_cast(ONE, ONE, price_q64, Rounding::Down);
    }
    pool_state.price = price_q64;
    Ok(())
}

/// The tick `i` (0 to 59) of a tick array account.
pub open spec fn tick_at(d: Seq<u8>, i: int) -> TickState {
    let off = 44 + i * 168;
    TickState {
        tick: le_value(d, off, 4) as u32 as i32,
        liquidity_net: le_value(d, off + 4, 16) as u128 as i128,
        liquidity_gross: le_value(d, off + 20, 16) as u128,
    }
}

/// Reads a tick array account: its start tick at byte 40 and its sixty
/// ticks from byte 44; `None` when the account does not belong to the CLMM
/// program.
pub fn parse_tick_array_state(tick_array_info: &AccountView) -> (r: Result<Option<TickArrayState>, ErrorCode>)
    requires
        tick_array_info.owner@ == CLMM_PROGRAM_ID@ ==> tick_array_info.data@.len() >= 44 + 60 * 168,
    ensures
        tick_array_info.owner@ != CLMM_PROGRAM_ID@ ==> r == Ok::<Option<TickArrayState>, ErrorCode>(None),
        tick_array_info.owner@ == CLMM_PROGRAM_ID@ ==> (r matches Ok(Some(a)) && a.start_tick_index == le_value(tick_array_info.data@, 40, 4) as u32 as i32
            && a.ticks@.len() == 60 && forall|i: int| 0 <= i < 60 ==> a.ticks@[i] == tick_at(tick_array_info.data@, i)),
{
    if !key_eq(&tick_array_info.owner, &CLMM_PROGRAM_ID) {
        return Ok(None);
    }
    let data = &tick_array_info.data;
    let start_tick_index = read_u32(data, 40) as i32;
    let mut ticks: Vec<TickState> = Vec::new();
    let mut i: usize = 0;
    while i < 60
        invariant
            i <= 60,
            data@.len() >= 44 + 60 * 168,
            ticks@.len() == i,
            forall|k: int| 0 <= k < i ==> ticks@[k] == tick_at(data@, k),
        decreases 60 - i,
    {
        let offset = 44 + i * 168;
        let tick = read_u32(data, offset) as i32;
        let liquidity_net = read_u128(data, offset + 4) as i128;
        let liquidity_gross = read_u128(data, offset + 20);
        ticks.push(TickState::new(tick, liquidity_net, liquidity_gross));
        i += 1;
    }
    Ok(Some(TickArrayState::new(start_tick_index, ticks)))
}

/// A tick array as read from a CLMM-owned account: its start tick at byte
/// 40 and its sixty ticks from byte 44.
pub open spec fn tick_array_read(a: AccountView) -> TickArrayView {
    TickArrayView { start_tick_index: le_value(a.data@, 40, 4) as u32 as i32, ticks: Seq::new(60, |i: int| tick_at(a.data@, i)) }
}

/// The tick arrays among the accounts, in order, skipping those that do not
/// belong to the CLMM program.
pub open spec fn arrays_read(accounts: Seq<AccountView>) -> Seq<TickArrayView>
    decreases accounts.len(),
{
    if accounts.len() == 0 {
        Seq::empty()
    } else {
        let prev = arrays_read(accounts.drop_last());
        if accounts.last().owner@ == CLMM_PROGRAM_ID@ {
            prev.push(tick_array_read(accounts.last()))
        } else {
            prev
        }
    }
}

/// Accounts with the same owners and data hold the same tick arrays.
pub proof fn lemma_arrays_read_same(a: Seq<AccountView>, b: Seq<AccountView>)
    requires
        a.len() == b.len(),
        forall|i: int| 0 <= i < a.len() ==> (#[trigger] a[i]).owner@ == b[i].owner@ && a[i].data@ == b[i].data@,
    ensures
        arrays_read(a) == arrays_read(b),
    decreases a.len(),
{
    if a.len() > 0 {
        lemma_arrays_read_same(a.drop_last(), b.drop_last());
        assert(a.last().owner@ == b.last().owner@);
        assert(tick_array_read(a.last()) == tick_array_read(b.last()));
    }
}

/// The tick arrays as plain values.
pub open spec fn arrays_view_of(v: Seq<TickArrayState>) -> Seq<TickArrayView> {
    v.map_values(|a: TickArrayState| a@)
}

/// The tick arrays among the given accounts; see `arrays_read`.
pub fn parse_tick_array_states(tick_arrays: &Vec<AccountView>) -> (r: Result<Vec<TickArrayState>, ErrorCode>)
    requires
        forall|i: int| 0 <= i < tick_arrays@.len() ==> (#[trigger] tick_arrays@[i]).owner@ == CLMM_PROGRAM_ID@ ==> tick_arrays@[i].data@.len()
            >= 44 + 60 * 168,
    ensures
        r matches Ok(v) && arrays_well_formed(v@) && arrays_view_of(v@) == arrays_read(tick_arrays@),
{
    let mut tick_array_states: Vec<TickArrayState> = Vec::new();
    let mut i: usize = 0;
    assert(tick_arrays@.take(0) =~= Seq::<AccountView>::empty());
    assert(arrays_view_of(tick_array_states@) =~= arrays_read(tick_arrays@.take(0)));
    while i < tick_arrays.len()
        invariant
            i <= tick_arrays.len(),
            arrays_well_formed(tick_array_states@),
            arrays_view_of(tick_array_states@) == arrays_read(tick_arrays@.take(i as int)),
            forall|k: int| 0 <= k < tick_arrays@.len() ==> (#[trigger] tick_arrays@[k]).owner@ == CLMM_PROGRAM_ID@ ==> tick_arrays@[k].data@.len()
                >= 44 + 60 * 168,
        decreases tick_arrays.len() - i,
    {
        let ghost before = tick_array_states@;
        let ghost next = tick_arrays@.take(i as int + 1);
        assert(next.drop_last() =~= tick_arrays@.take(i as int));
        assert(next.last() == tick_arrays@[i as int]);
        match parse_tick_array_state(&tick_arrays[i])? {
            Some(a) => {
                tick_array_states.push(a);
                assert(a@.ticks =~= tick_array_read(tick_arrays@[i as int]).ticks);
                assert(arrays_view_of(tick_array_states@) =~= arrays_view_of(before).push(a@));
            },
            None => {
                assert(tick_array_states@ == before);
            },
        }
        i += 1;
    }
    assert(tick_arrays@.take(i as int) =~= tick_arrays@);
    Ok(tick_array_states)
}

/// What a CLMM quote needs beyond the pool: the tick arrays, the bitmap
/// extension, a price limit (zero for none) and the pool's own bitmap.
#[derive(Debug, Clone)]
pub struct ClmmParams {
    pub tick_array_states: Vec<TickArrayState>,
    pub bitmap_extension: Option<TickArrayBitmapExtension>,
    pub sqrt_price_limit_x64: u128,
    pub tick_array_bitmap: [u64; 16],
}

/// The price limit of a swap: the given one, or the price range's end in
/// the swap's direction when it is zero.
pub open spec fn clmm_limit(given: u128, zero_for_one: bool) -> u128 {
    if given == 0 {
        if zero_for_one {
            MIN_SQRT_PRICE_X64
        } else {
            MAX_SQRT_PRICE_X64
        }
    } else {
        given
    }
}

/// Whether a price limit lies strictly beyond the current price in the
/// swap's direction, within the price range.
pub open spec fn clmm_limit_valid(limit: u128, current: u128, zero_for_one: bool) -> bool {
    if zero_for_one {
        limit < current && limit >= MIN_SQRT_PRICE_X64
    } else {
        limit > current && limit <= MAX_SQRT_PRICE_X64
    }
}

/// The output of swapping `amount_in` in the given direction with the
/// given parameters: `InvalidSqrtPriceLimit` for a limit not beyond the
/// current price; else the other token's amount from `clmm_swap_outcome`.
/// `None` where the computation fails or does not finish.
pub open spec fn clmm_quote_swap(pool: ClmmPoolState, params: ClmmParams, amount_in: u64, zero_for_one: bool) -> Option<
    Result<u64, ErrorCode>,
> {
    let limit = clmm_limit(params.sqrt_price_limit_x64, zero_for_one);
    if !clmm_limit_valid(limit, pool.sqrt_price_x64, zero_for_one) {
        Some(Err(ErrorCode::InvalidSqrtPriceLimit))
    } else if !arrays_well_formed(params.tick_array_states@) {
        None
    } else {
        match clmm_swap_outcome(
            pool,
            params.tick_array_states@,
            U1024Value { limbs: params.tick_array_bitmap }@,
            params.bitmap_extension,
            amount_in,
            limit,
            zero_for_one,
        ) {
            None => None,
            Some(Err(e)) => Some(Err(e)),
            Some(Ok((a0, a1))) => Some(Ok(
                if zero_for_one {
                    a1
                } else {
                    a0
                },
            )),
        }
    }
}

/// A zero price limit asks for no limit: the swap goes as with the end of
/// the price range in its direction as the limit.
pub proof fn law_clmm_zero_limit_is_range_end(pool: ClmmPoolState, params: ClmmParams, amount_in: u64, zero_for_one: bool)
    requires
        params.sqrt_price_limit_x64 == 0,
    ensures
        clmm_quote_swap(pool, params, amount_in, zero_for_one) == clmm_quote_swap(
            pool,
            (ClmmParams {
                sqrt_price_limit_x64: if zero_for_one {
                    MIN_SQRT_PRICE_X64
                } else {
                    MAX_SQRT_PRICE_X64
                },
                ..params
            }),
            amount_in,
            zero_for_one,
        ),
{
}

/// A swap in the given direction with the parameters; see
/// `clmm_quote_swap`.
fn clmm_quote_swap_exec(pool_state: &ClmmPoolState, params: &ClmmParams, amount_in: u64, zero_for_one: bool) -> (r: Result<u64, ErrorCode>)
    requires
        clmm_quote_swap(*pool_state, *params, amount_in, zero_for_one) is Some,
    ensures
        Some(r) == clmm_quote_swap(*pool_state, *params, amount_in, zero_for_one),
{
    let sqrt_price_limit_x64 = if params.sqrt_price_limit_x64 == 0 {
        if zero_for_one {
            MIN_SQRT_PRICE_X64
        } else {
            MAX_SQRT_PRICE_X64
        }
    } else {
        params.sqrt_price_limit_x64
    };
    if zero_for_one {
        if !(sqrt_price_limit_x64 < pool_state.sqrt_price_x64 && sqrt_price_limit_x64 >= MIN_SQRT_PRICE_X64) {
            return Err(ErrorCode::InvalidSqrtPriceLimit);
        }
    } else {
        if !(sqrt_price_limit_x64 > pool_state.sqrt_price_x64 && sqrt_price_limit_x64 <= MAX_SQRT_PRICE_X64) {
            return Err(ErrorCode::InvalidSqrtPriceLimit);
        }
    }
    let (amount_0, amount_1) = clmm_swap_internal(
        pool_state,
        &params.tick_array_states,
        &params.tick_array_bitmap,
        &params.bitmap_extension,
        amount_in,
        sqrt_price_limit_x64,
        zero_for_one,
    )?;
    Ok(
        if zero_for_one {
            amount_1
        } else {
            amount_0
        },
    )
}

/// Quote for selling `wsol_amount_in` of wrapped SOL: zero for no input or
/// no liquidity; `InvalidClmmParams` without parameters; `InvalidTokenPair`
/// when neither mint is wrapped SOL; else the swap's output (see
/// `clmm_quote_swap`, token 0 to 1 when token 0 is wrapped SOL) less the
/// token's transfer fee.
pub open spec fn clmm_quote_wsol(
    pool: ClmmPoolState,
    wsol_mint: Seq<u8>,
    wsol_amount_in: u64,
    mint_fee: MintFeeInfo,
    epoch: u64,
    params: Option<ClmmParams>,
) -> Option<Result<u64, ErrorCode>> {
    if wsol_amount_in == 0 || pool.liquidity == 0 {
        Some(Ok(0))
    } else {
        match params {
            None => Some(Err(ErrorCode::InvalidClmmParams)),
            Some(p) => {
                if pool.token_mint_0@ != wsol_mint && pool.token_mint_1@ != wsol_mint {
                    Some(Err(ErrorCode::InvalidTokenPair))
                } else {
                    let zero_for_one = pool.token_mint_0@ == wsol_mint;
                    match clmm_quote_swap(pool, p, wsol_amount_in, zero_for_one) {
                        None => None,
                        Some(Err(e)) => Some(Err(e)),
                        Some(Ok(out)) => {
                            if !mint_fee_defined(mint_fee, epoch, out) || mint_transfer_fee(mint_fee, epoch, out) > out {
                                None
                            } else {
                                Some(Ok((out - mint_transfer_fee(mint_fee, epoch, out)) as u64))
                            }
                        },
                    }
                }
            },
        }
    }
}

/// Quote for selling `wsol_amount_in` of wrapped SOL; see
/// `clmm_quote_wsol`.
pub fn clmm_quote_exact_input_wsol(
    pool_state: &ClmmPoolState,
    wsol_mint: [u8; 32],
    wsol_amount_in: u64,
    mint_fee: &MintFeeInfo,
    epoch: u64,
    clmm_params: &Option<ClmmParams>,
) -> (r: Result<u64, ErrorCode>)
    requires
        clmm_quote_wsol(*pool_state, wsol_mint@, wsol_amount_in, *mint_fee, epoch, *clmm_params) is Some,
    ensures
        Some(r) == clmm_quote_wsol(*pool_state, wsol_mint@, wsol_amount_in, *mint_fee, epoch, *clmm_params),
{
    if wsol_amount_in == 0 || pool_state.liquidity == 0 {
        return Ok(0);
    }
    let params = match clmm_params {
        Some(p) => p,
        None => {
            return Err(ErrorCode::InvalidClmmParams);
        },
    };
    let zero_for_one = if key_eq(&pool_state.token_mint_0, &wsol_mint) {
        true
    } else if key_eq(&pool_state.token_mint_1, &wsol_mint) {
        false
    } else {
        return Err(ErrorCode::InvalidTokenPair);
    };
    let token_amount_out = clmm_quote_swap_exec(pool_state, params, wsol_amount_in, zero_for_one)?;
    let transfer_fee = get_transfer_fee(mint_fee, epoch, token_amount_out)?;
    let final_output = match transfer_fee {
        0 => token_amount_out,
        _ => token_amount_out - transfer_fee,
    };
    Ok(final_output)
}

/// Quote for selling `token_amount_in` of the token for wrapped SOL: zero
/// for no input or no liquidity; `InvalidClmmParams` without parameters;
/// the token's transfer fee comes off the input; `InvalidTokenPair` when
/// neither mint is wrapped SOL; else the swap's output (see
/// `clmm_quote_swap`, token 0 to 1 when token 1 is wrapped SOL).
pub open spec fn clmm_quote_token(
    pool: ClmmPoolState,
    wsol_mint: Seq<u8>,
    token_amount_in: u64,
    mint_fee: MintFeeInfo,
    epoch: u64,
    params: Option<ClmmParams>,
) -> Option<Result<u64, ErrorCode>> {
    if token_amount_in == 0 || pool.liquidity == 0 {
        Some(Ok(0))
    } else {
        match params {
            None => Some(Err(ErrorCode::InvalidClmmParams)),
            Some(p) => {
                if !mint_fee_defined(mint_fee, epoch, token_amount_in) || mint_transfer_fee(mint_fee, epoch, token_amount_in)
                    > token_amount_in {
                    None
                } else {
                    let actual = (token_amount_in - mint_transfer_fee(mint_fee, epoch, token_amount_in)) as u64;
                    if pool.token_mint_0@ != wsol_mint && pool.token_mint_1@ != wsol_mint {
                        Some(Err(ErrorCode::InvalidTokenPair))
                    } else {
                        let zero_for_one = pool.token_mint_0@ != wsol_mint;
                        clmm_quote_swap(pool, p, actual, zero_for_one)
                    }
                }
            },
        }
    }
}

/// Quote for selling `token_amount_in` of the token for wrapped SOL; see
/// `clmm_quote_token`.
pub fn clmm_quote_exact_input_token(
    pool_state: &ClmmPoolState,
    wsol_mint: [u8; 32],
    token_amount_in: u64,
    mint_fee: &MintFeeInfo,
    epoch: u64,
    clmm_params: &Option<ClmmParams>,
) -> (r: Result<u64, ErrorCode>)
    requires
        clmm_quote_token(*pool_state, wsol_mint@, token_amount_in, *mint_fee, epoch, *clmm_params) is Some,
    ensures
        Some(r) == clmm_quote_token(*pool_state, wsol_mint@, token_amount_in, *mint_fee, epoch, *clmm_params),
{
    if token_amount_in == 0 || pool_state.liquidity == 0 {
        return Ok(0);
    }
    let params = match clmm_params {
        Some(p) => p,
        None => {
            return Err(ErrorCode::InvalidClmmParams);
        },
    };
    let transfer_fee = get_transfer_fee(mint_fee, epoch, token_amount_in)?;
    let actual_token_amount_in = match transfer_fee {
        0 => token_amount_in,
        _ => token_amount_in - transfer_fee,
    };
    let zero_for_one = if key_eq(&pool_state.token_mint_0, &wsol_mint) {
        false
    } else if key_eq(&pool_state.token_mint_1, &wsol_mint) {
        true
    } else {
        return Err(ErrorCode::InvalidTokenPair);
    };
    clmm_quote_swap_exec(pool_state, params, actual_token_amount_in, zero_for_one)
}

/// The `u64` limb `k` (0 to 223) of a bitmap extension account: the
/// positive side's 112 limbs, then the negative side's.
pub open spec fn extension_limb(d: Seq<u8>, k: int) -> u64 {
    le_value(d, 40 + 8 * k, 8) as u64
}

/// Eight little-endian `u64` from byte `off`.
fn read_row(data: &Vec<u8>, off: usize) -> (r: [u64; 8])
    requires
        off + 64 <= data@.len(),
    ensures
        forall|j: int| 0 <= j < 8 ==> r[j] as nat == le_value(data@, off + 8 * j, 8),
{
    assert(data@.len() == data.len());
    let mut row: [u64; 8] = [0u64; 8];
    let mut j: usize = 0;
    while j < 8
        invariant
            j <= 8,
            off + 64 <= data@.len(),
            data@.len() <= usize::MAX,
            forall|k: int| 0 <= k < j ==> row[k] as nat == le_value(data@, off + 8 * k, 8),
        decreases 8 - j,
    {
        row[j] = read_u64(data, off + 8 * j);
        j += 1;
    }
    row
}

impl TickArrayBitmapExtension {
    /// Reads a bitmap extension account: `None` when it does not belong to
    /// the CLMM program; `InvalidAccountData` when it holds under 1832
    /// bytes; else the pool address at byte 8 and the positive then the
    /// negative bitmaps from byte 40 (see `extension_limb`).
    pub fn parse_from_account_info(account_info: &AccountView) -> (r: Result<Option<TickArrayBitmapExtension>, ErrorCode>)
        ensures
            account_info.owner@ != CLMM_PROGRAM_ID@ ==> r == Ok::<Option<TickArrayBitmapExtension>, ErrorCode>(None),
            account_info.owner@ == CLMM_PROGRAM_ID@ && account_info.data@.len() < 1832 ==> r == Err::<
                Option<TickArrayBitmapExtension>,
                ErrorCode,
            >(ErrorCode::InvalidAccountData),
            account_info.owner@ == CLMM_PROGRAM_ID@ && account_info.data@.len() >= 1832 ==> (r matches Ok(Some(e))
                && e.pool_id@ == account_info.data@.subrange(8, 40)
                && forall|i: int, j: int| 0 <= i < 14 && 0 <= j < 8 ==> e.positive_tick_array_bitmap[i][j] == extension_limb(account_info.data@, 8 * i + j)
                    && e.negative_tick_array_bitmap[i][j] == extension_limb(account_info.data@, 112 + 8 * i + j)),
    {
        if !key_eq(&account_info.owner, &CLMM_PROGRAM_ID) {
            return Ok(None);
        }
        let data = &account_info.data;
        if data.len() < 8 + 32 + 64 * EXTENSION_TICKARRAY_BITMAP_SIZE * 2 {
            return Err(ErrorCode::InvalidAccountData);
        }
        let pool_id = read_key(data, 8);
        let mut positive_tick_array_bitmap: [[u64; 8]; 14] = [[0u64; 8]; 14];
        let mut negative_tick_array_bitmap: [[u64; 8]; 14] = [[0u64; 8]; 14];
        let mut i: usize = 0;
        while i < EXTENSION_TICKARRAY_BITMAP_SIZE
            invariant
                i <= 14,
                data@.len() >= 1832,
                forall|a: int, b: int| 0 <= a < i && 0 <= b < 8 ==> positive_tick_array_bitmap[a][b] == extension_limb(data@, 8 * a + b),
            decreases 14 - i,
        {
            positive_tick_array_bitmap[i] = read_row(data, 40 + 64 * i);
            i += 1;
        }
        let mut i: usize = 0;
        while i < EXTENSION_TICKARRAY_BITMAP_SIZE
            invariant
                i <= 14,
                data@.len() >= 1832,
                forall|a: int, b: int| 0 <= a < 14 && 0 <= b < 8 ==> positive_tick_array_bitmap[a][b] == extension_limb(data@, 8 * a + b),
                forall|a: int, b: int| 0 <= a < i && 0 <= b < 8 ==> negative_tick_array_bitmap[a][b] == extension_limb(data@, 112 + 8 * a + b),
            decreases 14 - i,
        {
            negative_tick_array_bitmap[i] = read_row(data, 40 + 896 + 64 * i);
            i += 1;
        }
        Ok(Some(TickArrayBitmapExtension { pool_id, positive_tick_array_bitmap, negative_tick_array_bitmap }))
    }
}

} // verus!
