use vstd::prelude::*;

use vstd::arithmetic::power2::pow2;

use crate::errors::ErrorCode;
use crate::q64_math::{or_zero, safe_mul_div_cast, spec_mul_div};
use crate::u256_muldiv::{hi_lo, lemma_words_digits, u256_modulus, word_base, U256Muldiv};
use crate::wide::{
    div_rounding_up_u256, mul_div_ceil_u256, mul_div_floor_u256, u256_checked_add, u256_checked_mul,
    u256_checked_shl, u256_checked_sub, u256_div_rem, u256_overflowing_shr, Rounding,
};

verus! {

/// The lowest square-root price, Q64.64.
pub const MIN_SQRT_PRICE_X64: u128 = 4295048016;

/// The highest square-root price, Q64.64.
pub const MAX_SQRT_PRICE_X64: u128 = 79226673521066979257578248091;

/// The lowest tick.
pub const MIN_TICK: i32 = -443636;

/// The highest tick.
pub const MAX_TICK: i32 = 443636;

/// Fee rates are over one million.
pub const FEE_RATE_DENOMINATOR: u32 = 1_000_000;

/// 2^64.
#[verifier::inline]
pub open spec fn q64() -> nat {
    0x1_0000_0000_0000_0000nat
}

/// 2^128.
#[verifier::inline]
pub open spec fn q128() -> nat {
    0x1_0000_0000_0000_0000_0000_0000_0000_0000nat
}

/// `n / d` rounded up.
pub open spec fn ceil_div(n: nat, d: nat) -> nat {
    ((n + d - 1) as nat) / d
}

/// A `u128` as a 256-bit value.
pub fn widen_u128(x: u128) -> (r: U256Muldiv)
    ensures
        r@ == x,
{
    U256Muldiv::new(0, x)
}

/// The low 128 bits of a 256-bit value.
pub fn low_u128(v: &U256Muldiv) -> (r: u128)
    ensures
        r == v@ % q128(),
{
    proof {
        lemma_words_digits(v.items);
        let b = word_base() as int;
        let w0 = v.items[0] as int;
        let w1 = v.items[1] as int;
        let w2 = v.items[2] as int;
        let w3 = v.items[3] as int;
        let rest = w2 + b * w3;
        assert(v@ == (w0 + b * w1) + (b * b) * rest) by (nonlinear_arith)
            requires v@ == w0 + b * (w1 + b * (w2 + b * w3)), rest == w2 + b * w3;
        assert(0 <= w0 + b * w1 < b * b) by (nonlinear_arith)
            requires 0 <= w0 < b, 0 <= w1 < b, b == 0x1_0000_0000_0000_0000int;
        assert(0 <= rest) by (nonlinear_arith)
            requires 0 <= w2, 0 <= w3, b > 0, rest == w2 + b * w3;
        vstd::arithmetic::div_mod::lemma_mod_multiples_vanish(rest, w0 + b * w1, b * b);
        vstd::arithmetic::div_mod::lemma_small_mod((w0 + b * w1) as nat, (b * b) as nat);
    }
    hi_lo(v.items[1], v.items[0])
}

/// `(a * b) >> 64`, cut to 128 bits.
pub open spec fn mul_shr_64_spec(a: u128, b: u128) -> u128 {
    (((a as nat) * (b as nat) / q64()) % q128()) as u128
}

/// `(a * b) >> 64` over 256 bits, cut to 128 bits.
pub fn mul_shr_64(a: u128, b: u128) -> (r: u128)
    ensures
        r == mul_shr_64_spec(a, b),
{
    let x = widen_u128(a);
    let y = widen_u128(b);
    proof {
        assert(a * b < u256_modulus()) by (nonlinear_arith)
            requires a < 0x1_0000_0000_0000_0000_0000_0000_0000_0000int, b < 0x1_0000_0000_0000_0000_0000_0000_0000_0000int;
        vstd::arithmetic::power2::lemma2_to64();
    }
    let product = match u256_checked_mul(&x, &y) {
        Some(p) => p,
        None => {
            proof {
                assert(false);
            }
            return 0;
        },
    };
    let (shifted, _) = u256_overflowing_shr(&product, 64);
    low_u128(&shifted)
}

/// The bit of `|tick|` that selects the `k`-th factor (1 to 18).
pub open spec fn tick_mask(k: int) -> u32 {
    if 1 <= k <= 18 {
        (1u32 << (k as u32)) as u32
    } else {
        0
    }
}

/// The `k`-th Q64.64 factor (1 to 18): `1.0001^(-2^k / 2)`, as the reference
/// implementation tabulates it.
pub open spec fn tick_factor(k: int) -> u128 {
    if k == 1 {
        0xfff97272373d4000
    } else if k == 2 {
        0xfff2e50f5f657000
    } else if k == 3 {
        0xffe5caca7e10f000
    } else if k == 4 {
        0xffcb9843d60f7000
    } else if k == 5 {
        0xff973b41fa98e800
    } else if k == 6 {
        0xff2ea16466c9b000
    } else if k == 7 {
        0xfe5dee046a9a3800
    } else if k == 8 {
        0xfcbe86c7900bb000
    } else if k == 9 {
        0xf987a7253ac65800
    } else if k == 10 {
        0xf3392b0822bb6000
    } else if k == 11 {
        0xe7159475a2caf000
    } else if k == 12 {
        0xd097f3bdfd2f2000
    } else if k == 13 {
        0xa9f746462d9f8000
    } else if k == 14 {
        0x70d869a156f31c00
    } else if k == 15 {
        0x31be135f97ed3200
    } else if k == 16 {
        0x9aa508b5b85a500
    } else if k == 17 {
        0x5d6af8dedc582c
    } else if k == 18 {
        0x2216e584f5fa
    } else {
        0
    }
}

/// The ratio after the factors of bits 0 to `k` of `abs_tick` are applied:
/// bit 0 starts it at `0xfffcb933bd6fb800` or `2^64`, each later set bit
/// multiplies it by its factor (see `mul_shr_64_spec`).
pub open spec fn ratio_upto(abs_tick: u32, k: int) -> u128
    decreases k,
{
    if k <= 0 {
        if abs_tick & 0x1 != 0 {
            0xfffcb933bd6fb800
        } else {
            0x1_0000_0000_0000_0000
        }
    } else {
        let prev = ratio_upto(abs_tick, k - 1);
        if abs_tick & tick_mask(k) != 0 {
            mul_shr_64_spec(prev, tick_factor(k))
        } else {
            prev
        }
    }
}

/// The Q64.64 ratio `1.0001^(-abs_tick / 2)`, built from one factor per set
/// bit of `abs_tick` as the reference implementation does.
pub open spec fn sqrt_ratio_of(abs_tick: u32) -> u128 {
    ratio_upto(abs_tick, 18)
}

/// `|tick|`.
pub open spec fn abs_tick(tick: i32) -> int {
    if tick < 0 {
        -tick
    } else {
        tick as int
    }
}

/// The Q64.64 square-root price at `tick`: `InvalidTickIndex` beyond the
/// tick range; for positive ticks the ratio is inverted as `u128::MAX / r`.
pub open spec fn sqrt_price_at_tick(tick: i32) -> Result<u128, ErrorCode> {
    if abs_tick(tick) > MAX_TICK {
        Err(ErrorCode::InvalidTickIndex)
    } else {
        let ratio = sqrt_ratio_of(abs_tick(tick) as u32);
        if tick > 0 {
            Ok((u128::MAX / ratio) as u128)
        } else {
            Ok(ratio)
        }
    }
}

/// With no bit of the tick set, no factor applies: the ratio stays 2^64.
proof fn lemma_ratio_upto_zero(k: int)
    ensures
        ratio_upto(0, k) == 0x1_0000_0000_0000_0000u128,
    decreases k,
{
    assert(forall|m: u32| #[trigger] (0u32 & m) == 0u32) by (bit_vector);
    if k > 0 {
        lemma_ratio_upto_zero(k - 1);
        assert(0u32 & tick_mask(k) == 0u32);
    } else {
        assert(0u32 & 0x1u32 == 0u32);
    }
}

/// The price at tick 0 is one (2^64 in Q64.64), and every tick beyond the
/// tick range is refused with `InvalidTickIndex`.
pub proof fn law_sqrt_price_at_tick_origin_and_range(tick: i32)
    ensures
        sqrt_price_at_tick(0) == Ok::<u128, ErrorCode>(0x1_0000_0000_0000_0000u128),
        abs_tick(tick) > MAX_TICK ==> sqrt_price_at_tick(tick) == Err::<u128, ErrorCode>(ErrorCode::InvalidTickIndex),
{
    lemma_ratio_upto_zero(18);
    assert(abs_tick(0) == 0);
}

/// Whether computing the price at `tick` takes no absolute value of
/// `i32::MIN` and divides by no zero ratio.
pub open spec fn sqrt_price_at_tick_defined(tick: i32) -> bool {
    &&& tick != i32::MIN
    &&& (tick > 0 && abs_tick(tick) <= MAX_TICK) ==> sqrt_ratio_of(abs_tick(tick) as u32) != 0
}

/// The Q64.64 square-root price at `tick`; see `sqrt_price_at_tick`.
pub fn get_sqrt_price_at_tick(tick: i32) -> (r: Result<u128, ErrorCode>)
    requires
        sqrt_price_at_tick_defined(tick),
    ensures
        r == sqrt_price_at_tick(tick),
{
    let abs_tick: u32 = if tick < 0 {
        (-tick) as u32
    } else {
        tick as u32
    };
    if abs_tick > MAX_TICK as u32 {
        return Err(ErrorCode::InvalidTickIndex);
    }
    let mut ratio: u128 = if abs_tick & 0x1 != 0 {
        0xfffcb933bd6fb800u128
    } else {
        1u128 << 64u32
    };
    proof {
        crate::bit_facts::lemma_constant_shifts();
    }
    let factors: [u128; 18] = [
        0xfff97272373d4000u128,
        0xfff2e50f5f657000u128,
        0xffe5caca7e10f000u128,
        0xffcb9843d60f7000u128,
        0xff973b41fa98e800u128,
        0xff2ea16466c9b000u128,
        0xfe5dee046a9a3800u128,
        0xfcbe86c7900bb000u128,
        0xf987a7253ac65800u128,
        0xf3392b0822bb6000u128,
        0xe7159475a2caf000u128,
        0xd097f3bdfd2f2000u128,
        0xa9f746462d9f8000u128,
        0x70d869a156f31c00u128,
        0x31be135f97ed3200u128,
        0x9aa508b5b85a500u128,
        0x5d6af8dedc582cu128,
        0x2216e584f5fau128,
    ];
    assert(forall|j: int| 0 <= j < 18 ==> factors[j] == tick_factor(j + 1));
    let mut k: u32 = 1;
    while k <= 18
        invariant
            1 <= k <= 19,
            ratio == ratio_upto(abs_tick, k - 1),
            forall|j: int| 0 <= j < 18 ==> factors[j] == tick_factor(j + 1),
        decreases 19 - k,
    {
        let mask: u32 = 1u32 << k;
        if abs_tick & mask != 0 {
            ratio = mul_shr_64(ratio, factors[(k - 1) as usize]);
        }
        k += 1;
    }
    if tick > 0 {
        ratio = u128::MAX / ratio;
    }
    Ok(ratio)
}

/// The token-0 amount between two square-root prices for `liquidity`:
/// `L * 2^64 * (upper - lower) / upper / lower`, each division rounded as
/// asked; `InvalidSqrtPrice` for a zero lower price and `MaxTokenOverflow`
/// beyond `u64`.
pub open spec fn delta_amount_0(a: u128, b: u128, liquidity: u128, round_up: bool) -> Result<u64, ErrorCode> {
    let lower = if a > b { b } else { a };
    let upper = if a > b { a } else { b };
    if lower == 0 {
        Err(ErrorCode::InvalidSqrtPrice)
    } else {
        let num = (liquidity * q64() * (upper - lower)) as nat;
        let v = if round_up {
            ceil_div(ceil_div(num, upper as nat), lower as nat)
        } else {
            num / (upper as nat) / (lower as nat)
        };
        if v > u64::MAX {
            Err(ErrorCode::MaxTokenOverflow)
        } else {
            Ok(v as u64)
        }
    }
}

/// The token-1 amount between two square-root prices for `liquidity`:
/// `L * (upper - lower) / 2^64`, rounded as asked; `MaxTokenOverflow`
/// beyond `u64`.
pub open spec fn delta_amount_1(a: u128, b: u128, liquidity: u128, round_up: bool) -> Result<u64, ErrorCode> {
    let lower = if a > b { b } else { a };
    let upper = if a > b { a } else { b };
    let num = (liquidity * (upper - lower)) as nat;
    let v = if round_up {
        ceil_div(num, q64())
    } else {
        num / q64()
    };
    if v > u64::MAX {
        Err(ErrorCode::MaxTokenOverflow)
    } else {
        Ok(v as u64)
    }
}

/// `ceil(x * y / d) <= x` when `y <= d`.
proof fn lemma_ceil_mul_div_le(x: nat, y: nat, d: nat)
    requires
        0 < d,
        y <= d,
    ensures
        ceil_div(x * y, d) <= x,
        (x * y) / d <= x,
{
    assert(x * y <= x * d) by (nonlinear_arith)
        requires y <= d;
    assert(((x * y + d - 1) as nat) < (x + 1) * d) by (nonlinear_arith)
        requires x * y <= x * d, d > 0;
    vstd::arithmetic::div_mod::lemma_div_by_multiple_is_strongly_ordered((x * y + d - 1) as int, ((x + 1) * d) as int, (x + 1) as int, d as int);
    vstd::arithmetic::div_mod::lemma_div_is_ordered((x * y) as int, (x * d) as int, d as int);
    vstd::arithmetic::div_mod::lemma_div_by_multiple(x as int, d as int);
    vstd::arithmetic::div_mod::lemma_div_by_multiple((x + 1) as int, d as int);
    assert(ceil_div(x * y, d) == ((x * y + d - 1) as int) / (d as int));
}

/// The token-0 amount between two prices; see `delta_amount_0`.
pub fn get_delta_amount_0_unsigned(sqrt_price_a_x64: u128, sqrt_price_b_x64: u128, liquidity: u128, round_up: bool) -> (r:
    Result<u64, ErrorCode>)
    ensures
        r == delta_amount_0(sqrt_price_a_x64, sqrt_price_b_x64, liquidity, round_up),
{
    let (sqrt_price_lower, sqrt_price_upper) = if sqrt_price_a_x64 > sqrt_price_b_x64 {
        (sqrt_price_b_x64, sqrt_price_a_x64)
    } else {
        (sqrt_price_a_x64, sqrt_price_b_x64)
    };
    if sqrt_price_lower == 0 {
        return Err(ErrorCode::InvalidSqrtPrice);
    }
    proof {
        vstd::arithmetic::power2::lemma2_to64();
        assert(liquidity * q64() < u256_modulus()) by (nonlinear_arith)
            requires liquidity < 0x1_0000_0000_0000_0000_0000_0000_0000_0000int;
    }
    let numerator_1 = match u256_checked_shl(&widen_u128(liquidity), 64) {
        Some(v) => v,
        None => {
            proof {
                assert(false);
            }
            return Err(ErrorCode::MaxTokenOverflow);
        },
    };
    let numerator_2 = widen_u128(sqrt_price_upper - sqrt_price_lower);
    let upper = widen_u128(sqrt_price_upper);
    let lower = widen_u128(sqrt_price_lower);
    let ghost n1: nat = numerator_1@;
    let ghost n2: nat = numerator_2@;
    proof {
        lemma_ceil_mul_div_le(n1, n2, sqrt_price_upper as nat);
        assert(n1 * n2 == (liquidity * q64() * (sqrt_price_upper - sqrt_price_lower)) as nat) by (nonlinear_arith)
            requires n1 == liquidity * q64(), n2 == sqrt_price_upper - sqrt_price_lower;
    }
    let result = if round_up {
        let intermediate = match mul_div_ceil_u256(numerator_1, numerator_2, upper) {
            Ok(v) => v,
            Err(e) => {
                return Err(e);
            },
        };
        div_rounding_up_u256(intermediate, lower)
    } else {
        let intermediate = match mul_div_floor_u256(numerator_1, numerator_2, upper) {
            Ok(v) => v,
            Err(e) => {
                return Err(e);
            },
        };
        let (q, _) = u256_div_rem(&intermediate, &lower);
        q
    };
    let max = widen_u128(u64::MAX as u128);
    if result.gt(max) {
        return Err(ErrorCode::MaxTokenOverflow);
    }
    proof {
        lemma_words_digits(result.items);
    }
    Ok(result.items[0])
}

/// The token-1 amount between two prices; see `delta_amount_1`.
pub fn get_delta_amount_1_unsigned(sqrt_price_a_x64: u128, sqrt_price_b_x64: u128, liquidity: u128, round_up: bool) -> (r:
    Result<u64, ErrorCode>)
    ensures
        r == delta_amount_1(sqrt_price_a_x64, sqrt_price_b_x64, liquidity, round_up),
{
    let (sqrt_price_lower, sqrt_price_upper) = if sqrt_price_a_x64 > sqrt_price_b_x64 {
        (sqrt_price_b_x64, sqrt_price_a_x64)
    } else {
        (sqrt_price_a_x64, sqrt_price_b_x64)
    };
    let q = widen_u128(1u128 << 64u32);
    proof {
        crate::bit_facts::lemma_constant_shifts();
        let d = (sqrt_price_upper - sqrt_price_lower) as nat;
        lemma_ceil_mul_div_le(liquidity as nat, d, q128());
        assert(liquidity * d < u256_modulus()) by (nonlinear_arith)
            requires liquidity < 0x1_0000_0000_0000_0000_0000_0000_0000_0000int, d < 0x1_0000_0000_0000_0000_0000_0000_0000_0000int;
        assert(ceil_div((liquidity as nat) * d, q64()) <= (liquidity as nat) * d) by (nonlinear_arith)
            requires (liquidity as nat) * d >= 0;
        assert(((liquidity as nat) * d) / q64() <= (liquidity as nat) * d) by (nonlinear_arith)
            requires (liquidity as nat) * d >= 0;
    }
    let result = if round_up {
        match mul_div_ceil_u256(widen_u128(liquidity), widen_u128(sqrt_price_upper - sqrt_price_lower), q) {
            Ok(v) => v,
            Err(e) => {
                return Err(e);
            },
        }
    } else {
        match mul_div_floor_u256(widen_u128(liquidity), widen_u128(sqrt_price_upper - sqrt_price_lower), q) {
            Ok(v) => v,
            Err(e) => {
                return Err(e);
            },
        }
    };
    let max = widen_u128(u64::MAX as u128);
    if result.gt(max) {
        return Err(ErrorCode::MaxTokenOverflow);
    }
    proof {
        lemma_words_digits(result.items);
    }
    Ok(result.items[0])
}

/// The square-root price after moving `amount` of token 0 into (`add`) or
/// out of the pool: `ceil(L 2^64 P / (L 2^64 ± amount P))`, cut to 128 bits.
pub open spec fn next_price_from_amount_0(p: u128, liquidity: u128, amount: u64, add: bool) -> u128 {
    if amount == 0 {
        p
    } else {
        let n1 = (liquidity * q64()) as nat;
        let product = (amount * p) as nat;
        if add {
            (ceil_div(n1 * (p as nat), n1 + product) % q128()) as u128
        } else {
            (ceil_div(n1 * (p as nat), (n1 - product) as nat) % q128()) as u128
        }
    }
}

/// Whether `next_price_from_amount_0` is computed without a zero divisor, a
/// negative denominator or an overflow.
pub open spec fn next_price_from_amount_0_defined(p: u128, liquidity: u128, amount: u64, add: bool) -> bool {
    let n1 = (liquidity * q64()) as nat;
    let product = (amount * p) as nat;
    amount == 0 || if add {
        n1 + product > 0
    } else {
        product < n1 && ceil_div(n1 * (p as nat), (n1 - product) as nat) < u256_modulus()
    }
}

/// `ceil(x * y / d) <= y` when `x <= d`.
proof fn lemma_ceil_ratio_le(x: nat, y: nat, d: nat)
    requires
        0 < d,
        x <= d,
    ensures
        ceil_div(x * y, d) <= y,
{
    assert(x * y == y * x) by (nonlinear_arith);
    lemma_ceil_mul_div_le(y, x, d);
}

/// The square-root price after a token-0 amount; see
/// `next_price_from_amount_0`.
pub fn get_next_sqrt_price_from_amount_0_rounding_up(sqrt_price_x64: u128, liquidity: u128, amount: u64, add: bool) -> (r: u128)
    requires
        next_price_from_amount_0_defined(sqrt_price_x64, liquidity, amount, add),
    ensures
        r == next_price_from_amount_0(sqrt_price_x64, liquidity, amount, add),
{
    if amount == 0 {
        return sqrt_price_x64;
    }
    proof {
        vstd::arithmetic::power2::lemma2_to64();
        assert(liquidity * q64() < 0x1_0000_0000_0000_0000_0000_0000_0000_0000_0000_0000_0000_0000int) by (nonlinear_arith)
            requires liquidity < 0x1_0000_0000_0000_0000_0000_0000_0000_0000int;
        assert(amount * sqrt_price_x64 < 0x1_0000_0000_0000_0000_0000_0000_0000_0000_0000_0000_0000_0000int) by (nonlinear_arith)
            requires amount < 0x1_0000_0000_0000_0000int, sqrt_price_x64 < 0x1_0000_0000_0000_0000_0000_0000_0000_0000int;
    }
    let numerator_1 = match u256_checked_shl(&widen_u128(liquidity), 64) {
        Some(v) => v,
        None => {
            proof {
                assert(false);
            }
            return 0;
        },
    };
    let price = widen_u128(sqrt_price_x64);
    let product = match u256_checked_mul(&widen_u128(amount as u128), &price) {
        Some(v) => v,
        None => {
            proof {
                assert(false);
            }
            return 0;
        },
    };
    let ghost n1 = numerator_1@;
    let ghost pr = product@;
    if add {
        let denominator = match u256_checked_add(&numerator_1, &product) {
            Some(v) => v,
            None => {
                proof {
                    assert(false);
                }
                return 0;
            },
        };
        proof {
            lemma_ceil_ratio_le(n1, sqrt_price_x64 as nat, (n1 + pr) as nat);
        }
        let result = match mul_div_ceil_u256(numerator_1, price, denominator) {
            Ok(v) => v,
            Err(_) => {
                proof {
                    assert(false);
                }
                return 0;
            },
        };
        low_u128(&result)
    } else {
        let denominator = match u256_checked_sub(&numerator_1, &product) {
            Some(v) => v,
            None => {
                proof {
                    assert(false);
                }
                return 0;
            },
        };
        let result = match mul_div_ceil_u256(numerator_1, price, denominator) {
            Ok(v) => v,
            Err(_) => {
                proof {
                    assert(false);
                }
                return 0;
            },
        };
        low_u128(&result)
    }
}

/// The square-root price after moving `amount` of token 1 into (`add`) or
/// out of the pool: `P + amount 2^64 / L` rounded down, or
/// `P - ceil(amount 2^64 / L)`.
pub open spec fn next_price_from_amount_1(p: u128, liquidity: u128, amount: u64, add: bool) -> u128 {
    let shifted = (amount * q64()) as nat;
    if add {
        (p + shifted / (liquidity as nat)) as u128
    } else {
        (p - ceil_div(shifted, liquidity as nat)) as u128
    }
}

/// Whether `next_price_from_amount_1` is computed with a nonzero liquidity
/// and without leaving `u128`.
pub open spec fn next_price_from_amount_1_defined(p: u128, liquidity: u128, amount: u64, add: bool) -> bool {
    let shifted = (amount * q64()) as nat;
    liquidity != 0 && if add {
        p + shifted / (liquidity as nat) <= u128::MAX
    } else {
        ceil_div(shifted, liquidity as nat) <= p
    }
}

/// The square-root price after a token-1 amount; see
/// `next_price_from_amount_1`.
pub fn get_next_sqrt_price_from_amount_1_rounding_down(sqrt_price_x64: u128, liquidity: u128, amount: u64, add: bool) -> (r: u128)
    requires
        next_price_from_amount_1_defined(sqrt_price_x64, liquidity, amount, add),
    ensures
        r == next_price_from_amount_1(sqrt_price_x64, liquidity, amount, add),
{
    proof {
        vstd::arithmetic::power2::lemma2_to64();
        assert(amount * q64() < q128()) by (nonlinear_arith)
            requires amount < 0x1_0000_0000_0000_0000int;
    }
    let shifted = match u256_checked_shl(&widen_u128(amount as u128), 64) {
        Some(v) => v,
        None => {
            proof {
                assert(false);
            }
            return 0;
        },
    };
    let l = widen_u128(liquidity);
    let ghost sh = shifted@;
    if add {
        let (quotient, _) = u256_div_rem(&shifted, &l);
        proof {
            vstd::arithmetic::div_mod::lemma_div_is_ordered_by_denominator(sh as int, 1, liquidity as int);
            vstd::arithmetic::div_mod::lemma_small_mod(quotient@, q128());
        }
        let q = low_u128(&quotient);
        sqrt_price_x64 + q
    } else {
        let quotient = div_rounding_up_u256(shifted, l);
        proof {
            assert(ceil_div(sh, liquidity as nat) <= sh) by (nonlinear_arith)
                requires liquidity >= 1, ceil_div(sh, liquidity as nat) == ((sh + liquidity - 1) as nat) / (liquidity as nat);
            vstd::arithmetic::div_mod::lemma_small_mod(quotient@, q128());
        }
        let q = low_u128(&quotient);
        sqrt_price_x64 - q
    }
}

/// The square-root price after `amount_in` enters the pool:
/// `InvalidSqrtPrice` for a zero price, `LiquidityInsufficient` for zero
/// liquidity; token 0 in for `zero_for_one`, else token 1.
pub open spec fn next_price_from_input(p: u128, liquidity: u128, amount_in: u64, zero_for_one: bool) -> Result<u128, ErrorCode> {
    if p == 0 {
        Err(ErrorCode::InvalidSqrtPrice)
    } else if liquidity == 0 {
        Err(ErrorCode::LiquidityInsufficient)
    } else if zero_for_one {
        Ok(next_price_from_amount_0(p, liquidity, amount_in, true))
    } else {
        Ok(next_price_from_amount_1(p, liquidity, amount_in, true))
    }
}

/// Whether `next_price_from_input` stays within `u128`.
pub open spec fn next_price_from_input_defined(p: u128, liquidity: u128, amount_in: u64, zero_for_one: bool) -> bool {
    p == 0 || liquidity == 0 || zero_for_one || next_price_from_amount_1_defined(p, liquidity, amount_in, true)
}

/// The square-root price after `amount_in` enters the pool; see
/// `next_price_from_input`.
pub fn get_next_sqrt_price_from_input(sqrt_price_x64: u128, liquidity: u128, amount_in: u64, zero_for_one: bool) -> (r:
    Result<u128, ErrorCode>)
    requires
        next_price_from_input_defined(sqrt_price_x64, liquidity, amount_in, zero_for_one),
    ensures
        r == next_price_from_input(sqrt_price_x64, liquidity, amount_in, zero_for_one),
{
    if sqrt_price_x64 == 0 {
        return Err(ErrorCode::InvalidSqrtPrice);
    }
    if liquidity == 0 {
        return Err(ErrorCode::LiquidityInsufficient);
    }
    if zero_for_one {
        proof {
            assert(liquidity * q64() > 0) by (nonlinear_arith)
                requires liquidity > 0;
            assert(amount_in * sqrt_price_x64 >= 0) by (nonlinear_arith);
        }
        Ok(get_next_sqrt_price_from_amount_0_rounding_up(sqrt_price_x64, liquidity, amount_in, true))
    } else {
        Ok(get_next_sqrt_price_from_amount_1_rounding_down(sqrt_price_x64, liquidity, amount_in, true))
    }
}

/// The input (or output) amount that moves the price from `current` to
/// `target`: token 0 for `zero_for_one` inputs, token 1 otherwise, rounded
/// up for inputs and down for outputs. An amount beyond `u64` gives `None`;
/// any other failure gives `SqrtPriceLimitOverflow`.
pub open spec fn amount_in_range(current: u128, target: u128, liquidity: u128, zero_for_one: bool, is_base_input: bool) -> Result<
    Option<u64>,
    ErrorCode,
> {
    let r = if is_base_input {
        if zero_for_one {
            delta_amount_0(target, current, liquidity, true)
        } else {
            delta_amount_1(current, target, liquidity, true)
        }
    } else {
        if zero_for_one {
            delta_amount_1(target, current, liquidity, false)
        } else {
            delta_amount_0(current, target, liquidity, false)
        }
    };
    match r {
        Ok(a) => Ok(Some(a)),
        Err(e) => if e == ErrorCode::MaxTokenOverflow {
            Ok(None)
        } else {
            Err(ErrorCode::SqrtPriceLimitOverflow)
        },
    }
}

/// The amount that moves the price to the target; see `amount_in_range`.
pub fn calculate_amount_in_range(
    sqrt_price_current_x64: u128,
    sqrt_price_target_x64: u128,
    liquidity: u128,
    zero_for_one: bool,
    is_base_input: bool,
) -> (r: Result<Option<u64>, ErrorCode>)
    ensures
        r == amount_in_range(sqrt_price_current_x64, sqrt_price_target_x64, liquidity, zero_for_one, is_base_input),
{
    let result = if is_base_input {
        if zero_for_one {
            get_delta_amount_0_unsigned(sqrt_price_target_x64, sqrt_price_current_x64, liquidity, true)
        } else {
            get_delta_amount_1_unsigned(sqrt_price_current_x64, sqrt_price_target_x64, liquidity, true)
        }
    } else {
        if zero_for_one {
            get_delta_amount_1_unsigned(sqrt_price_target_x64, sqrt_price_current_x64, liquidity, false)
        } else {
            get_delta_amount_0_unsigned(sqrt_price_current_x64, sqrt_price_target_x64, liquidity, false)
        }
    };
    match result {
        Ok(amount) => Ok(Some(amount)),
        Err(e) => {
            if e == ErrorCode::MaxTokenOverflow {
                Ok(None)
            } else {
                Err(ErrorCode::SqrtPriceLimitOverflow)
            }
        },
    }
}

/// One step of a swap towards a target price.
#[derive(Debug, Clone, Copy, Default)]
pub struct SwapStep {
    pub sqrt_price_next_x64: u128,
    pub amount_in: u64,
    pub amount_out: u64,
    pub fee_amount: u64,
}

/// The remaining input net of the fee rate (over one million), rounded
/// down.
pub open spec fn less_fee(amount_remaining: u64, fee_rate: u64) -> u64 {
    or_zero(spec_mul_div(amount_remaining as u128, (1_000_000 - (fee_rate as u32)) as u128, 1_000_000, Rounding::Down)) as u64
}

/// A step of a swap from `current` towards `target`: the price moves to the
/// target when the remaining input net of fees covers the range, else to
/// where the net input takes it; the input and output are the amounts
/// between the two prices (the input kept as the range amount when the
/// target is reached on an exact-input swap); the fee is what is left of
/// the remaining input when the target is not reached, else the fee rate
/// applied on top of the input, rounded up. `None` where the computation
/// fails (a fee rate over one million, a price beyond `u128`, an input
/// above the remaining amount).
pub open spec fn swap_step(
    current: u128,
    target: u128,
    liquidity: u128,
    amount_remaining: u64,
    fee_rate: u64,
    is_base_input: bool,
    zero_for_one: bool,
) -> Option<Result<SwapStep, ErrorCode>> {
    let less = less_fee(amount_remaining, fee_rate);
    if (fee_rate as u32) > FEE_RATE_DENOMINATOR {
        None
    } else {
        match amount_in_range(current, target, liquidity, zero_for_one, is_base_input) {
            Err(e) => Some(Err(e)),
            Ok(range) => {
                let in0: u64 = match range {
                    Some(a) => a,
                    None => 0,
                };
                let reach = range is Some && less >= in0;
                if !reach && !next_price_from_input_defined(current, liquidity, less, zero_for_one) {
                    None
                } else {
                    let next_r = if reach {
                        Ok(target)
                    } else {
                        next_price_from_input(current, liquidity, less, zero_for_one)
                    };
                    match next_r {
                        Err(e) => Some(Err(e)),
                        Ok(next) => {
                            let max = target == next;
                            let in_r = if max && is_base_input {
                                Ok(in0)
                            } else if zero_for_one {
                                delta_amount_0(next, current, liquidity, true)
                            } else {
                                delta_amount_1(current, next, liquidity, true)
                            };
                            match in_r {
                                Err(e) => Some(Err(e)),
                                Ok(amount_in) => {
                                    let out_r = if max && !is_base_input {
                                        Ok(0u64)
                                    } else if zero_for_one {
                                        delta_amount_1(next, current, liquidity, false)
                                    } else {
                                        delta_amount_0(current, next, liquidity, false)
                                    };
                                    match out_r {
                                        Err(e) => Some(Err(e)),
                                        Ok(out0) => {
                                            let amount_out = if !is_base_input && out0 > amount_remaining {
                                                amount_remaining
                                            } else {
                                                out0
                                            };
                                            if is_base_input && next != target {
                                                if amount_in > amount_remaining {
                                                    None
                                                } else {
                                                    Some(
                                                        Ok(
                                                            SwapStep {
                                                                sqrt_price_next_x64: next,
                                                                amount_in,
                                                                amount_out,
                                                                fee_amount: (amount_remaining - amount_in) as u64,
                                                            },
                                                        ),
                                                    )
                                                }
                                            } else {
                                                let fee = or_zero(
                                                    spec_mul_div(
                                                        amount_in as u128,
                                                        fee_rate as u128,
                                                        (1_000_000 - (fee_rate as u32)) as u128,
                                                        Rounding::Up,
                                                    ),
                                                ) as u64;
                                                Some(
                                                    Ok(
                                                        SwapStep {
                                                            sqrt_price_next_x64: next,
                                                            amount_in,
                                                            amount_out,
                                                            fee_amount: fee,
                                                        },
                                                    ),
                                                )
                                            }
                                        },
                                    }
                                },
                            }
                        },
                    }
                }
            },
        }
    }
}

/// A quotient rounded up is at most `c` exactly when the numerator is at
/// most `c` times the divisor; one rounded down is below `c` when the
/// numerator is.
proof fn lemma_ceil_div_compare(n: nat, d: nat, c: nat)
    requires
        d > 0,
    ensures
        ceil_div(n, d) <= c <==> n <= c * d,
        n < c * d ==> n / d < c,
{
    let m = (n + d - 1) as nat;
    vstd::arithmetic::div_mod::lemma_fundamental_div_mod(m as int, d as int);
    vstd::arithmetic::div_mod::lemma_fundamental_div_mod(n as int, d as int);
    let q = m / d;
    let r = m % d;
    if n <= c * d {
        assert(q <= c) by (nonlinear_arith)
            requires m == d * q + r, r >= 0, m == n + d - 1, n <= c * d, d > 0;
    } else {
        assert(q > c) by (nonlinear_arith)
            requires m == d * q + r, r < d, m == n + d - 1, n > c * d, d > 0;
    }
    if n < c * d {
        let q2 = n / d;
        assert(q2 < c) by (nonlinear_arith)
            requires n == d * q2 + n % d, n % d >= 0, n < c * d, d > 0;
    }
}

/// With the input at most the remaining amount net of the fee rate, the
/// input and the fee charged on top of it stay within the remaining amount.
proof fn lemma_clmm_fee_on_top_fits(amount_in: u64, amount_remaining: u64, fee_rate: u64)
    requires
        fee_rate <= 1_000_000,
        amount_in <= less_fee(amount_remaining, fee_rate),
    ensures
        amount_in + (or_zero(spec_mul_div(amount_in as u128, fee_rate as u128, (1_000_000 - (fee_rate as u32)) as u128, Rounding::Up))
            as u64) <= amount_remaining,
{
    let dd: int = 1_000_000 - fee_rate;
    let rem: int = amount_remaining as int;
    let a: int = amount_in as int;
    assert((fee_rate as u32) == fee_rate);
    let prod: int = rem * dd;
    assert(0 <= prod <= rem * 1_000_000) by (nonlinear_arith)
        requires prod == rem * dd, rem >= 0, 0 <= dd <= 1_000_000;
    vstd::arithmetic::div_mod::lemma_fundamental_div_mod(prod, 1_000_000);
    assert(prod / 1_000_000 <= rem) by (nonlinear_arith)
        requires prod <= rem * 1_000_000, prod == 1_000_000 * (prod / 1_000_000) + prod % 1_000_000, prod % 1_000_000 >= 0;
    assert(a * 1_000_000 <= prod) by (nonlinear_arith)
        requires a <= prod / 1_000_000, prod == 1_000_000 * (prod / 1_000_000) + prod % 1_000_000, prod % 1_000_000 >= 0;
    if dd > 0 {
        assert(a * fee_rate <= (rem - a) * dd) by (nonlinear_arith)
            requires a * 1_000_000 <= rem * dd, dd == 1_000_000 - fee_rate;
        assert(a <= rem) by (nonlinear_arith)
            requires a * fee_rate <= (rem - a) * dd, dd > 0, a >= 0, fee_rate >= 0;
        assert(a * fee_rate >= 0) by (nonlinear_arith)
            requires a >= 0, fee_rate >= 0;
        lemma_ceil_div_compare((a * fee_rate) as nat, dd as nat, (rem - a) as nat);
        assert((rem - a) < word_base() * word_base());
    } else {
        assert(a * 1_000_000 <= 0) by (nonlinear_arith)
            requires a * 1_000_000 <= prod, prod == rem * dd, dd == 0;
    }
}

/// A step whose input does not cover the range to its target stops
/// strictly short of the target, and moves the price no further than it.
proof fn lemma_clmm_short_step(current: u128, target: u128, liquidity: u128, less: u64, zero_for_one: bool)
    requires
        zero_for_one ==> target <= current,
        !zero_for_one ==> current <= target,
        amount_in_range(current, target, liquidity, zero_for_one, true) matches Ok(range) && match range {
            Some(a) => a > less,
            None => true,
        },
        next_price_from_input_defined(current, liquidity, less, zero_for_one),
    ensures
        next_price_from_input(current, liquidity, less, zero_for_one) matches Ok(p) ==> (zero_for_one ==> target < p
            <= current) && (!zero_for_one ==> current <= p < target),
{
    if current > 0 && liquidity > 0 {
        if zero_for_one {
            // The token-0 amount to reach the target exceeds what goes in.
            let x = (liquidity * q64() * (current - target)) as nat;
            assert(liquidity * q64() * (current - target) >= 0) by (nonlinear_arith)
                requires liquidity >= 0, current >= target;
            let c1 = ceil_div(x, current as nat);
            let v = ceil_div(c1, target as nat);
            assert(target > 0);
            assert(v > less);
            lemma_ceil_div_compare(c1, target as nat, less as nat);
            assert(c1 > less * target);
            lemma_ceil_div_compare(x, current as nat, (less * target) as nat);
            assert(x > less * target * current);
            if less == 0 {
                assert(current > target) by (nonlinear_arith)
                    requires x > 0, x == liquidity * q64() * (current - target), current >= target;
            } else {
                let n1 = (liquidity * q64()) as nat;
                let product = (less * current) as nat;
                let n = n1 * (current as nat);
                let d = n1 + product;
                assert(d > 0 && n <= current * d) by (nonlinear_arith)
                    requires n1 == liquidity * q64(), liquidity > 0, d == n1 + product, product == less * current, n == n1 * current,
                        less >= 0, current >= 0;
                assert(n > target * d) by (nonlinear_arith)
                    requires
                        n == n1 * current,
                        n1 == liquidity * q64(),
                        d == n1 + product,
                        product == less * current,
                        x == liquidity * q64() * (current - target),
                        x > less * target * current;
                lemma_ceil_div_compare(n, d, current as nat);
                lemma_ceil_div_compare(n, d, target as nat);
                vstd::arithmetic::div_mod::lemma_small_mod(ceil_div(n, d), q128());
            }
        } else {
            let num = (liquidity * (target - current)) as nat;
            assert(liquidity * (target - current) >= 0) by (nonlinear_arith)
                requires liquidity >= 0, target >= current;
            let shifted = (less * q64()) as nat;
            assert(less * q64() >= 0) by (nonlinear_arith)
                requires less >= 0;
            assert(less * q64() < q128()) by (nonlinear_arith)
                requires less < 0x1_0000_0000_0000_0000int;
            lemma_ceil_div_compare(num, q64(), less as nat);
            assert(num > less * q64());
            assert(shifted < (target - current) * liquidity) by (nonlinear_arith)
                requires num > less * q64(), num == liquidity * (target - current), shifted == less * q64();
            lemma_ceil_div_compare(shifted, liquidity as nat, (target - current) as nat);
        }
    }
}

/// A swap step of an exact input spends at most the remaining input, its
/// fee included, and leaves the price between the current price and the
/// target.
pub proof fn law_clmm_swap_step_bounds(
    current: u128,
    target: u128,
    liquidity: u128,
    amount_remaining: u64,
    fee_rate: u64,
    zero_for_one: bool,
)
    requires
        fee_rate <= 1_000_000,
        zero_for_one ==> target <= current,
        !zero_for_one ==> current <= target,
    ensures
        swap_step(current, target, liquidity, amount_remaining, fee_rate, true, zero_for_one) matches Some(Ok(c)) ==> {
            &&& c.amount_in + c.fee_amount <= amount_remaining
            &&& zero_for_one ==> target <= c.sqrt_price_next_x64 <= current
            &&& !zero_for_one ==> current <= c.sqrt_price_next_x64 <= target
        },
{
    let less = less_fee(amount_remaining, fee_rate);
    match amount_in_range(current, target, liquidity, zero_for_one, true) {
        Ok(range) => {
            let in0: u64 = match range {
                Some(a) => a,
                None => 0,
            };
            let reach = range is Some && less >= in0;
            if reach {
                lemma_clmm_fee_on_top_fits(in0, amount_remaining, fee_rate);
            } else if next_price_from_input_defined(current, liquidity, less, zero_for_one) {
                lemma_clmm_short_step(current, target, liquidity, less, zero_for_one);
            }
        },
        Err(_) => {},
    }
}

/// One step of a swap towards a target price; see `swap_step`.
pub fn compute_swap_step(
    sqrt_price_current_x64: u128,
    sqrt_price_target_x64: u128,
    liquidity: u128,
    amount_remaining: u64,
    fee_rate: u64,
    is_base_input: bool,
    zero_for_one: bool,
) -> (r: Result<SwapStep, ErrorCode>)
    requires
        swap_step(
            sqrt_price_current_x64,
            sqrt_price_target_x64,
            liquidity,
            amount_remaining,
            fee_rate,
            is_base_input,
            zero_for_one,
        ) is Some,
    ensures
        Some(r) == swap_step(
            sqrt_price_current_x64,
            sqrt_price_target_x64,
            liquidity,
            amount_remaining,
            fee_rate,
            is_base_input,
            zero_for_one,
        ),
{
    let mut swap_step = SwapStep { sqrt_price_next_x64: 0, amount_in: 0, amount_out: 0, fee_amount: 0 };
    let fee_rate_u32 = fee_rate as u32;
    let net_rate = FEE_RATE_DENOMINATOR - fee_rate_u32;
    let amount_remaining_less_fee = safe_mul_div_cast(
        amount_remaining as u128,
        net_rate as u128,
        FEE_RATE_DENOMINATOR as u128,
        Rounding::Down,
    ) as u64;
    let amount_in_range = calculate_amount_in_range(
        sqrt_price_current_x64,
        sqrt_price_target_x64,
        liquidity,
        zero_for_one,
        is_base_input,
    )?;
    if let Some(amount_in) = amount_in_range {
        swap_step.amount_in = amount_in;
    }
    swap_step.sqrt_price_next_x64 = if amount_in_range.is_some() && amount_remaining_less_fee >= swap_step.amount_in {
        sqrt_price_target_x64
    } else {
        get_next_sqrt_price_from_input(sqrt_price_current_x64, liquidity, amount_remaining_less_fee, zero_for_one)?
    };
    let max = sqrt_price_target_x64 == swap_step.sqrt_price_next_x64;
    if zero_for_one {
        if !(max && is_base_input) {
            swap_step.amount_in = get_delta_amount_0_unsigned(swap_step.sqrt_price_next_x64, sqrt_price_current_x64, liquidity, true)?;
        }
        if !(max && !is_base_input) {
            swap_step.amount_out = get_delta_amount_1_unsigned(swap_step.sqrt_price_next_x64, sqrt_price_current_x64, liquidity, false)?;
        }
    } else {
        if !(max && is_base_input) {
            swap_step.amount_in = get_delta_amount_1_unsigned(sqrt_price_current_x64, swap_step.sqrt_price_next_x64, liquidity, true)?;
        }
        if !(max && !is_base_input) {
            swap_step.amount_out = get_delta_amount_0_unsigned(sqrt_price_current_x64, swap_step.sqrt_price_next_x64, liquidity, false)?;
        }
    }
    if !is_base_input && swap_step.amount_out > amount_remaining {
        swap_step.amount_out = amount_remaining;
    }
    swap_step.fee_amount = if is_base_input && swap_step.sqrt_price_next_x64 != sqrt_price_target_x64 {
        amount_remaining - swap_step.amount_in
    } else {
        safe_mul_div_cast(swap_step.amount_in as u128, fee_rate as u128, net_rate as u128, Rounding::Up) as u64
    };
    Ok(swap_step)
}

/// `liquidity` moved by a signed delta: `LiquidityInsufficient` when it
/// would go below zero, `CalculateOverflow` beyond `u128`.
pub open spec fn liquidity_add_delta(liquidity: u128, delta: i128) -> Result<u128, ErrorCode> {
    if delta < 0 {
        if liquidity < -delta {
            Err(ErrorCode::LiquidityInsufficient)
        } else {
            Ok((liquidity + delta) as u128)
        }
    } else {
        if liquidity + delta > u128::MAX {
            Err(ErrorCode::CalculateOverflow)
        } else {
            Ok((liquidity + delta) as u128)
        }
    }
}

/// `liquidity` moved by a signed delta; see `liquidity_add_delta`. The
/// delta must not be `i128::MIN`, whose negation overflows.
pub fn add_delta(liquidity: u128, liquidity_delta: i128) -> (r: Result<u128, ErrorCode>)
    requires
        liquidity_delta != i128::MIN,
    ensures
        r == liquidity_add_delta(liquidity, liquidity_delta),
{
    if liquidity_delta < 0 {
        let delta = (-liquidity_delta) as u128;
        match liquidity.checked_sub(delta) {
            Some(v) => Ok(v),
            None => Err(ErrorCode::LiquidityInsufficient),
        }
    } else {
        let delta = liquidity_delta as u128;
        match liquidity.checked_add(delta) {
            Some(v) => Ok(v),
            None => Err(ErrorCode::CalculateOverflow),
        }
    }
}

/// The amount of wrapped SOL that moves the price between two square-root
/// prices: token 0's amount when wrapped SOL is token 0, else token 1's,
/// rounded as asked; zero for zero liquidity; `None` beyond `u64`; other
/// failures pass through.
pub open spec fn clmm_amount_in_range(current: u128, target: u128, liquidity: u128, wsol_is_token_0: bool, round_up: bool) -> Result<
    Option<u64>,
    ErrorCode,
> {
    if liquidity == 0 {
        Ok(Some(0))
    } else {
        let r = if wsol_is_token_0 {
            delta_amount_0(current, target, liquidity, round_up)
        } else {
            delta_amount_1(current, target, liquidity, round_up)
        };
        match r {
            Ok(a) => Ok(Some(a)),
            Err(e) => if e == ErrorCode::MaxTokenOverflow {
                Ok(None)
            } else {
                Err(e)
            },
        }
    }
}

/// The wrapped SOL that moves the price between two prices; see
/// `clmm_amount_in_range`.
pub fn calculate_clmm_amount_in_range(
    sqrt_price_current: u128,
    sqrt_price_target: u128,
    liquidity: u128,
    wsol_is_token_0: bool,
    round_up: bool,
) -> (r: Result<Option<u64>, ErrorCode>)
    ensures
        r == clmm_amount_in_range(sqrt_price_current, sqrt_price_target, liquidity, wsol_is_token_0, round_up),
{
    if liquidity == 0 {
        return Ok(Some(0));
    }
    let result = if wsol_is_token_0 {
        get_delta_amount_0_unsigned(sqrt_price_current, sqrt_price_target, liquidity, round_up)
    } else {
        get_delta_amount_1_unsigned(sqrt_price_current, sqrt_price_target, liquidity, round_up)
    };
    match result {
        Ok(amount) => Ok(Some(amount)),
        Err(e) => {
            if e == ErrorCode::MaxTokenOverflow {
                Ok(None)
            } else {
                Err(e)
            }
        },
    }
}

/// The index of the highest set bit of `p`.
pub open spec fn msb(p: u128) -> nat {
    choose|k: nat| k < 128 && #[trigger] pow2(k) <= p && p < pow2(k + 1)
}

/// The highest set bit is the only `k` with `2^k <= p < 2^(k+1)`.
pub proof fn lemma_msb(p: u128, k: nat)
    requires
        k < 128,
        pow2(k) <= p,
        p < pow2(k + 1),
    ensures
        msb(p) == k,
{
    let m = msb(p);
    assert(m < 128 && pow2(m) <= p && p < pow2(m + 1));
    if m + 1 < k {
        vstd::arithmetic::power2::lemma_pow2_strictly_increases(m + 1, k);
    } else if k + 1 < m {
        vstd::arithmetic::power2::lemma_pow2_strictly_increases(k + 1, m);
    }
}

/// The fractional bits of `log2` of a normalised ratio, found by repeated
/// squaring: each of `n` rounds squares `r`, adds `bit` when the square
/// reaches 2 (bit 127), renormalises and halves `bit`.
pub open spec fn log2_fraction(r: u128, bit: i128, n: nat) -> int
    decreases n,
{
    if n == 0 {
        0
    } else {
        let rr = (r * r) as u128;
        let more = rr >> 127u32;
        let next = rr >> ((63 + more) as u32);
        bit * (more as int) + log2_fraction(next, bit >> 1u32, (n - 1) as nat)
    }
}

/// The ratio `p` normalised so that its highest bit is bit 63.
pub open spec fn normalised_ratio(p: u128) -> u128 {
    let m = msb(p) as int;
    if m >= 64 {
        (p as nat / pow2((m - 63) as nat)) as u128
    } else {
        (p as nat * pow2((63 - m) as nat)) as u128
    }
}

/// `log_sqrt(1.0001)(p)` times 2^64, from the integer and 16 fractional bits
/// of `log2 p`.
pub open spec fn log_sqrt_estimate(p: u128) -> int {
    let int_x32 = (msb(p) - 64) * 0x1_0000_0000int;
    let frac = log2_fraction(normalised_ratio(p), 0x8000_0000_0000_0000, 16);
    (int_x32 + frac / 0x1_0000_0000int) * 59543866431248int
}

/// The tick of a square-root price: the greatest tick whose price is at most
/// `p`, chosen between the two candidates around the estimate
/// `log_sqrt_estimate` (the higher one when its price is at most `p`);
/// `InvalidSqrtPrice` outside `[MIN_SQRT_PRICE_X64, MAX_SQRT_PRICE_X64)`.
pub open spec fn tick_at_sqrt_price(p: u128) -> Result<i32, ErrorCode> {
    if p < MIN_SQRT_PRICE_X64 || p >= MAX_SQRT_PRICE_X64 {
        Err(ErrorCode::InvalidSqrtPrice)
    } else {
        let l = log_sqrt_estimate(p);
        let low = ((l - 184467440737095516int) / 0x1_0000_0000_0000_0000int) as i32;
        let high = ((l + 15793534762490258745int) / 0x1_0000_0000_0000_0000int) as i32;
        if low == high {
            Ok(low)
        } else {
            match sqrt_price_at_tick(high) {
                Err(e) => Err(e),
                Ok(v) => if v <= p {
                    Ok(high)
                } else {
                    Ok(low)
                },
            }
        }
    }
}

/// Whether `tick_at_sqrt_price` checks a candidate tick whose price is
/// computed without fault.
pub open spec fn tick_at_sqrt_price_defined(p: u128) -> bool {
    let l = log_sqrt_estimate(p);
    let high = ((l + 15793534762490258745int) / 0x1_0000_0000_0000_0000int) as i32;
    p < MIN_SQRT_PRICE_X64 || p >= MAX_SQRT_PRICE_X64 || sqrt_price_at_tick_defined(high)
}

/// An arithmetic right shift by 64 is a floor division by 2^64.
pub proof fn lemma_i128_shr64(x: i128)
    ensures
        (x >> 64u32) as int == x as int / 0x1_0000_0000_0000_0000int,
{
    let q = x >> 64u32;
    assert((q as int) * 0x1_0000_0000_0000_0000int <= x as int && (x as int) < (q as int + 1) * 0x1_0000_0000_0000_0000int) by (bit_vector)
        requires q == x >> 64u32;
    vstd::arithmetic::div_mod::lemma_fundamental_div_mod(x as int, 0x1_0000_0000_0000_0000int);
    let d = x as int / 0x1_0000_0000_0000_0000int;
    assert(d == q as int) by (nonlinear_arith)
        requires
            (q as int) * 0x1_0000_0000_0000_0000int <= x as int,
            (x as int) < (q as int + 1) * 0x1_0000_0000_0000_0000int,
            x as int == 0x1_0000_0000_0000_0000int * d + (x as int % 0x1_0000_0000_0000_0000int),
            0 <= x as int % 0x1_0000_0000_0000_0000int < 0x1_0000_0000_0000_0000int;
}

/// Shifting a price so that its highest bit lands on bit 63 gives
/// `normalised_ratio`, which is below 2^64.
pub proof fn lemma_normalise(p: u128, m: u32)
    requires
        m < 128,
        pow2(m as nat) <= p,
        p < pow2((m + 1) as nat),
        msb(p) == m,
    ensures
        (if m >= 64 { p >> ((m - 63) as u32) } else { p << ((63 - m) as u32) }) == normalised_ratio(p),
        normalised_ratio(p) < 0x1_0000_0000_0000_0000u128,
{
    vstd::arithmetic::power2::lemma2_to64();
    if m >= 64 {
        let k = (m - 63) as u32;
        let z = pow2(k as nat);
        vstd::bits::lemma_u128_shr_is_div(p, k as u128);
        assert(p >> k == p >> (k as u128)) by (bit_vector);
        vstd::arithmetic::power2::lemma_pow2_adds(k as nat, 64);
        vstd::arithmetic::power2::lemma_pow2_pos(k as nat);
        assert(pow2((m + 1) as nat) == pow2(64) * z) by (nonlinear_arith)
            requires pow2((m + 1) as nat) == z * pow2(64), (m + 1) as nat == k as nat + 64;
        vstd::arithmetic::div_mod::lemma_div_by_multiple_is_strongly_ordered(p as int, pow2((m + 1) as nat) as int, pow2(64) as int, z as int);
        vstd::arithmetic::div_mod::lemma_div_by_multiple(pow2(64) as int, z as int);
        assert((p as nat / z) < 0x1_0000_0000_0000_0000);
    } else {
        let k = (63 - m) as u32;
        let z = pow2(k as nat);
        crate::q64_math::lemma_shl_one_u32(k);
        assert(p < 0x1_0000_0000_0000_0000u128) by {
            if m + 1 < 64 {
                vstd::arithmetic::power2::lemma_pow2_strictly_increases((m + 1) as nat, 64);
            }
        }
        assert(p << k == p * (1u128 << k)) by (bit_vector)
            requires p < 0x1_0000_0000_0000_0000u128, k < 64;
        vstd::arithmetic::power2::lemma_pow2_adds(k as nat, (m + 1) as nat);
        vstd::arithmetic::power2::lemma_pow2_pos(k as nat);
        assert(p * z < pow2((m + 1) as nat) * z) by (nonlinear_arith)
            requires p < pow2((m + 1) as nat), z > 0;
        assert(pow2((m + 1) as nat) * z == pow2(64)) by (nonlinear_arith)
            requires pow2(k as nat) * pow2((m + 1) as nat) == pow2((k + m + 1) as nat), z == pow2(k as nat), (k + m + 1) as nat == 64;
    }
}

/// The tick of a square-root price; see `tick_at_sqrt_price`.
pub fn get_tick_at_sqrt_price(sqrt_price_x64: u128) -> (r: Result<i32, ErrorCode>)
    requires
        tick_at_sqrt_price_defined(sqrt_price_x64),
    ensures
        r == tick_at_sqrt_price(sqrt_price_x64),
{
    if sqrt_price_x64 < MIN_SQRT_PRICE_X64 || sqrt_price_x64 >= MAX_SQRT_PRICE_X64 {
        return Err(ErrorCode::InvalidSqrtPrice);
    }
    let bits = crate::q64_math::bit_length(sqrt_price_x64);
    let msb_u: u32 = bits - 1;
    proof {
        lemma_msb(sqrt_price_x64, msb_u as nat);
        vstd::arithmetic::power2::lemma2_to64();
        vstd::arithmetic::power2::lemma2_to64_rest();
        if msb_u + 1 < 32 {
            vstd::arithmetic::power2::lemma_pow2_strictly_increases((msb_u + 1) as nat, 32);
        }
        if msb_u > 96 {
            vstd::arithmetic::power2::lemma_pow2_strictly_increases(96, msb_u as nat);
            assert(pow2(96) == 0x1_0000_0000_0000_0000_0000_0000) by {
                vstd::arithmetic::power2::lemma_pow2_adds(64, 32);
            }
        }
    }
    assert(32 <= msb_u <= 96);
    let log2p_integer_x32: i128 = (msb_u as i128 - 64) * 0x1_0000_0000i128;
    let mut bit: i128 = 0x8000_0000_0000_0000i128;
    let mut precision: u32 = 0;
    let mut log2p_fraction_x64: i128 = 0;
    let mut r: u128 = if msb_u >= 64 {
        sqrt_price_x64 >> (msb_u - 63)
    } else {
        sqrt_price_x64 << (63 - msb_u)
    };
    proof {
        lemma_normalise(sqrt_price_x64, msb_u);
    }
    assert(r == normalised_ratio(sqrt_price_x64));
    assert(r < 0x1_0000_0000_0000_0000u128);
    proof { crate::bit_facts::lemma_constant_shifts(); }
    while bit > 0 && precision < 16
        invariant
            precision <= 16,
            r < 0x1_0000_0000_0000_0000u128,
            bit == (0x8000_0000_0000_0000i128 >> precision),
            0 < bit <= 0x8000_0000_0000_0000i128,
            0 <= log2p_fraction_x64,
            log2p_fraction_x64 <= 0x1_0000_0000_0000_0000i128 - 2 * bit,
            log2p_fraction_x64 + log2_fraction(r, bit, (16 - precision) as nat)
                == log2_fraction(normalised_ratio(sqrt_price_x64), 0x8000_0000_0000_0000, 16),
        decreases 16 - precision,
    {
        let ghost r_old = r;
        let ghost bit_old = bit;
        assert(r * r < 0x1_0000_0000_0000_0000_0000_0000_0000_0000) by (nonlinear_arith)
            requires r < 0x1_0000_0000_0000_0000u128;
        let rr = r * r;
        let is_r_more_than_two = rr >> 127u32;
        proof {
            crate::bit_facts::lemma_log_round(rr, bit, precision);
        }
        let more_i: i128 = is_r_more_than_two as i128;
        proof {
            if more_i == 0 {
                assert(bit * more_i == 0);
            } else {
                assert(more_i == 1);
                assert(bit * more_i == bit) by (nonlinear_arith)
                    requires more_i == 1;
            }
        }
        let sh: u32 = 63 + (is_r_more_than_two as u32);
        r = rr >> sh;
        log2p_fraction_x64 = log2p_fraction_x64 + bit * more_i;
        bit = bit >> 1u32;
        precision += 1;
    }
    assert(precision == 16);
    let log2p_fraction_x32 = log2p_fraction_x64 >> 32u32;
    proof {
        crate::bit_facts::lemma_shr_32_nonneg(log2p_fraction_x64);
        assert(log2p_fraction_x64 as int / 0x1_0000_0000int < 0x1_0000_0000int) by (nonlinear_arith)
            requires log2p_fraction_x64 < 0x1_0000_0000_0000_0000int, log2p_fraction_x64 >= 0;
    }
    let log2p_x32 = log2p_integer_x32 + log2p_fraction_x32;
    let log_sqrt_10001_x64 = log2p_x32 * 59543866431248i128;
    assert(log_sqrt_10001_x64 == log_sqrt_estimate(sqrt_price_x64));
    let low_shifted = (log_sqrt_10001_x64 - 184467440737095516i128) >> 64u32;
    let high_shifted = (log_sqrt_10001_x64 + 15793534762490258745i128) >> 64u32;
    proof {
        lemma_i128_shr64((log_sqrt_10001_x64 - 184467440737095516i128) as i128);
        lemma_i128_shr64((log_sqrt_10001_x64 + 15793534762490258745i128) as i128);
    }
    let tick_low = low_shifted as i32;
    let tick_high = high_shifted as i32;
    if tick_low == tick_high {
        Ok(tick_low)
    } else if get_sqrt_price_at_tick(tick_high)? <= sqrt_price_x64 {
        Ok(tick_high)
    } else {
        Ok(tick_low)
    }
}

} // verus!
