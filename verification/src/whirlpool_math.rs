use vstd::prelude::*;

use vstd::arithmetic::power2::pow2;

use crate::clmm_math::{
    lemma_i128_shr64, lemma_msb, lemma_normalise, log2_fraction, low_u128, msb, normalised_ratio, widen_u128,
};
use crate::errors::ErrorCode;
use crate::sqrt_price_math::{
    delta_a_outcome, delta_b_outcome, div_round, flatten_delta, get_amount_delta_a, get_amount_delta_b,
    get_next_sqrt_price, law_next_sqrt_price_direction, lemma_div_round_against, lemma_div_round_strict,
    next_sqrt_price, next_sqrt_price_from_a, next_sqrt_price_from_b,
    try_get_amount_delta_a, try_get_amount_delta_b, AmountDeltaU64, FEE_RATE_MUL_VALUE,
};
use crate::u256_muldiv::u256_modulus;
use crate::wide::{u256_checked_mul, u256_overflowing_shr};

verus! {

/// The highest tick.
pub const MAX_TICK_INDEX: i32 = 443636;

/// The lowest tick.
pub const MIN_TICK_INDEX: i32 = -443636;

/// `(n0 * n1) >> 96`, capped at `u128::MAX`.
pub open spec fn mul_shift_96_spec(n0: u128, n1: u128) -> u128 {
    let v = (n0 as nat) * (n1 as nat) / pow2(96);
    if v > u128::MAX {
        u128::MAX
    } else {
        v as u128
    }
}

/// `(n0 * n1) >> 96` over 256 bits, capped at `u128::MAX`.
pub fn mul_shift_96(n0: u128, n1: u128) -> (r: u128)
    ensures
        r == mul_shift_96_spec(n0, n1),
{
    proof {
        assert(n0 * n1 < u256_modulus()) by (nonlinear_arith)
            requires n0 < 0x1_0000_0000_0000_0000_0000_0000_0000_0000int, n1 < 0x1_0000_0000_0000_0000_0000_0000_0000_0000int;
    }
    let product = match u256_checked_mul(&widen_u128(n0), &widen_u128(n1)) {
        Some(p) => p,
        None => {
            proof {
                assert(false);
            }
            return u128::MAX;
        },
    };
    let (result, _) = u256_overflowing_shr(&product, 96);
    if result.gt(widen_u128(u128::MAX)) {
        u128::MAX
    } else {
        proof {
            vstd::arithmetic::div_mod::lemma_small_mod(result@, 0x1_0000_0000_0000_0000_0000_0000_0000_0000nat);
        }
        low_u128(&result)
    }
}

/// The `k`-th factor (1 to 18) for positive ticks, Q32.96.
pub open spec fn positive_tick_factor(k: int) -> u128 {
    if k == 1 {
        79236085330515764027303304731
    } else if k == 2 {
        79244008939048815603706035061
    } else if k == 3 {
        79259858533276714757314932305
    } else if k == 4 {
        79291567232598584799939703904
    } else if k == 5 {
        79355022692464371645785046466
    } else if k == 6 {
        79482085999252804386437311141
    } else if k == 7 {
        79736823300114093921829183326
    } else if k == 8 {
        80248749790819932309965073892
    } else if k == 9 {
        81282483887344747381513967011
    } else if k == 10 {
        83390072131320151908154831281
    } else if k == 11 {
        87770609709833776024991924138
    } else if k == 12 {
        97234110755111693312479820773
    } else if k == 13 {
        119332217159966728226237229890
    } else if k == 14 {
        179736315981702064433883588727
    } else if k == 15 {
        407748233172238350107850275304
    } else if k == 16 {
        2098478828474011932436660412517
    } else if k == 17 {
        55581415166113811149459800483533
    } else if k == 18 {
        38992368544603139932233054999993551
    } else {
        0
    }
}

/// The `k`-th factor (1 to 18) for negative ticks, Q64.64.
pub open spec fn negative_tick_factor(k: int) -> u128 {
    if k == 1 {
        18444899583751176498
    } else if k == 2 {
        18443055278223354162
    } else if k == 3 {
        18439367220385604838
    } else if k == 4 {
        18431993317065449817
    } else if k == 5 {
        18417254355718160513
    } else if k == 6 {
        18387811781193591352
    } else if k == 7 {
        18329067761203520168
    } else if k == 8 {
        18212142134806087854
    } else if k == 9 {
        17980523815641551639
    } else if k == 10 {
        17526086738831147013
    } else if k == 11 {
        16651378430235024244
    } else if k == 12 {
        15030750278693429944
    } else if k == 13 {
        12247334978882834399
    } else if k == 14 {
        8131365268884726200
    } else if k == 15 {
        3584323654723342297
    } else if k == 16 {
        696457651847595233
    } else if k == 17 {
        26294789957452057
    } else if k == 18 {
        37481735321082
    } else {
        0
    }
}

/// The Q32.96 ratio `1.0001^(tick / 2)` for a nonnegative tick, after the
/// factors of bits 0 to `k`.
pub open spec fn positive_ratio_upto(tick: i32, k: int) -> u128
    decreases k,
{
    if k <= 0 {
        if tick & 1 != 0 {
            79232123823359799118286999567
        } else {
            79228162514264337593543950336
        }
    } else {
        let prev = positive_ratio_upto(tick, k - 1);
        if tick & ((1i32 << (k as u32)) as i32) != 0 {
            mul_shift_96_spec(prev, positive_tick_factor(k))
        } else {
            prev
        }
    }
}

/// The Q64.64 ratio `1.0001^(-abs_tick / 2)`, after the factors of bits 0
/// to `k`.
pub open spec fn negative_ratio_upto(abs_tick: i32, k: int) -> u128
    decreases k,
{
    if k <= 0 {
        if abs_tick & 1 != 0 {
            18445821805675392311
        } else {
            18446744073709551616
        }
    } else {
        let prev = negative_ratio_upto(abs_tick, k - 1);
        if abs_tick & ((1i32 << (k as u32)) as i32) != 0 {
            ((prev * negative_tick_factor(k)) / 0x1_0000_0000_0000_0000int) as u128
        } else {
            prev
        }
    }
}

/// The Q64.64 square-root price of a nonnegative tick.
pub fn get_sqrt_price_positive_tick(tick: i32) -> (r: u128)
    requires
        tick >= 0,
    ensures
        r == positive_ratio_upto(tick, 18) / 0x1_0000_0000,
{
    let mut ratio: u128 = if tick & 1 != 0 {
        79232123823359799118286999567u128
    } else {
        79228162514264337593543950336u128
    };
    let factors: [u128; 18] = [
        79236085330515764027303304731u128,
        79244008939048815603706035061u128,
        79259858533276714757314932305u128,
        79291567232598584799939703904u128,
        79355022692464371645785046466u128,
        79482085999252804386437311141u128,
        79736823300114093921829183326u128,
        80248749790819932309965073892u128,
        81282483887344747381513967011u128,
        83390072131320151908154831281u128,
        87770609709833776024991924138u128,
        97234110755111693312479820773u128,
        119332217159966728226237229890u128,
        179736315981702064433883588727u128,
        407748233172238350107850275304u128,
        2098478828474011932436660412517u128,
        55581415166113811149459800483533u128,
        38992368544603139932233054999993551u128,
    ];
    assert(forall|j: int| 0 <= j < 18 ==> factors[j] == positive_tick_factor(j + 1));
    let mut k: u32 = 1;
    while k <= 18
        invariant
            1 <= k <= 19,
            ratio == positive_ratio_upto(tick, k - 1),
            forall|j: int| 0 <= j < 18 ==> factors[j] == positive_tick_factor(j + 1),
        decreases 19 - k,
    {
        let mask: i32 = 1i32 << k;
        if tick & mask != 0 {
            ratio = mul_shift_96(ratio, factors[(k - 1) as usize]);
        }
        k += 1;
    }
    proof {
        assert(ratio >> 32u32 == ratio / 0x1_0000_0000) by (bit_vector);
    }
    ratio >> 32u32
}

/// The Q64.64 square-root price of a negative tick; the tick must not be
/// `i32::MIN`, whose absolute value overflows.
pub fn get_sqrt_price_negative_tick(tick: i32) -> (r: u128)
    requires
        tick < 0,
        tick != i32::MIN,
    ensures
        r == negative_ratio_upto((-tick) as i32, 18),
{
    let abs_tick = -tick;
    let mut ratio: u128 = if abs_tick & 1 != 0 {
        18445821805675392311u128
    } else {
        18446744073709551616u128
    };
    let factors: [u128; 18] = [
        18444899583751176498u128,
        18443055278223354162u128,
        18439367220385604838u128,
        18431993317065449817u128,
        18417254355718160513u128,
        18387811781193591352u128,
        18329067761203520168u128,
        18212142134806087854u128,
        17980523815641551639u128,
        17526086738831147013u128,
        16651378430235024244u128,
        15030750278693429944u128,
        12247334978882834399u128,
        8131365268884726200u128,
        3584323654723342297u128,
        696457651847595233u128,
        26294789957452057u128,
        37481735321082u128,
    ];
    assert(forall|j: int| 0 <= j < 18 ==> factors[j] == negative_tick_factor(j + 1));
    let mut k: u32 = 1;
    while k <= 18
        invariant
            1 <= k <= 19,
            ratio == negative_ratio_upto(abs_tick, k - 1),
            ratio <= 18446744073709551616u128,
            abs_tick == -tick,
            forall|j: int| 0 <= j < 18 ==> factors[j] == negative_tick_factor(j + 1),
        decreases 19 - k,
    {
        let mask: i32 = 1i32 << k;
        if abs_tick & mask != 0 {
            let f = factors[(k - 1) as usize];
            proof {
                assert(ratio * f <= 18446744073709551616u128 * 18446744073709551616u128) by (nonlinear_arith)
                    requires ratio <= 18446744073709551616u128, f < 18446744073709551616u128;
                assert(ratio * f / 0x1_0000_0000_0000_0000int <= ratio) by (nonlinear_arith)
                    requires f < 18446744073709551616u128, ratio >= 0;
            }
            let product = ratio * f;
            proof {
                crate::bit_facts::lemma_shr_64(product);
            }
            ratio = product >> 64u32;
        }
        k += 1;
    }
    ratio
}

/// The Q64.64 square-root price of a tick: the positive-tick ratio shifted
/// down to Q64.64, or the negative-tick ratio.
pub open spec fn sqrt_price_from_tick(tick: i32) -> u128 {
    if tick >= 0 {
        (positive_ratio_upto(tick, 18) / 0x1_0000_0000) as u128
    } else {
        negative_ratio_upto((-tick) as i32, 18)
    }
}

/// With no bit of the tick set, no factor applies: the ratio stays 2^96.
proof fn lemma_positive_ratio_upto_zero(k: int)
    ensures
        positive_ratio_upto(0, k) == 79228162514264337593543950336u128,
    decreases k,
{
    assert(forall|m: i32| #[trigger] (0i32 & m) == 0i32) by (bit_vector);
    if k > 0 {
        lemma_positive_ratio_upto_zero(k - 1);
        assert(0i32 & ((1i32 << (k as u32)) as i32) == 0i32);
    } else {
        assert(0i32 & 1i32 == 0i32);
    }
}

/// The square-root price at tick 0 is one: 2^64 in Q64.64.
pub proof fn law_sqrt_price_from_tick_origin()
    ensures
        sqrt_price_from_tick(0) == 0x1_0000_0000_0000_0000u128,
{
    lemma_positive_ratio_upto_zero(18);
    assert(79228162514264337593543950336u128 / 0x1_0000_0000u128 == 0x1_0000_0000_0000_0000u128);
}

/// The Q64.64 square-root price of a tick; see `sqrt_price_from_tick`.
pub fn sqrt_price_from_tick_index(tick: i32) -> (r: u128)
    requires
        tick != i32::MIN,
    ensures
        r == sqrt_price_from_tick(tick),
{
    if tick >= 0 {
        get_sqrt_price_positive_tick(tick)
    } else {
        get_sqrt_price_negative_tick(tick)
    }
}

/// An `i128` as an `i32`, or `fallback` when it does not fit.
pub open spec fn i32_or(v: int, fallback: i32) -> i32 {
    if i32::MIN <= v <= i32::MAX {
        v as i32
    } else {
        fallback
    }
}

/// `log_sqrt(1.0001)(p)` times 2^64, from the integer and 14 fractional bits
/// of `log2 p`.
pub open spec fn log_b_estimate(p: u128) -> int {
    let int_x32 = (msb(p) - 64) * 0x1_0000_0000int;
    let frac = log2_fraction(normalised_ratio(p), 0x8000_0000_0000_0000, 14);
    (int_x32 + frac / 0x1_0000_0000int) * 59543866431248int
}

/// The tick of a square-root price: the greater of the two candidates
/// around the estimate `log_b_estimate` when its price is at most `p`, else
/// the lesser; candidates that do not fit `i32` fall back to the tick range's
/// ends.
pub open spec fn tick_from_sqrt_price(p: u128) -> i32 {
    let l = log_b_estimate(p);
    let low = i32_or((l - 184467440737095516int) / 0x1_0000_0000_0000_0000int, MIN_TICK_INDEX);
    let high = i32_or((l + 15793534762490258745int) / 0x1_0000_0000_0000_0000int, MAX_TICK_INDEX);
    if low == high {
        low
    } else if sqrt_price_from_tick(high) <= p {
        high
    } else {
        low
    }
}

/// Whether `tick_from_sqrt_price` is computed without fault: a positive
/// price, and a higher candidate that is not `i32::MIN`.
pub open spec fn tick_from_sqrt_price_defined(p: u128) -> bool {
    let l = log_b_estimate(p);
    &&& p > 0
    &&& i32_or((l + 15793534762490258745int) / 0x1_0000_0000_0000_0000int, MAX_TICK_INDEX) != i32::MIN
}

/// The tick of a square-root price; see `tick_from_sqrt_price`.
pub fn tick_index_from_sqrt_price(sqrt_price: u128) -> (r: i32)
    requires
        tick_from_sqrt_price_defined(sqrt_price),
    ensures
        r == tick_from_sqrt_price(sqrt_price),
{
    let bits = crate::q64_math::bit_length(sqrt_price);
    let msb_u: u32 = bits - 1;
    proof {
        lemma_msb(sqrt_price, msb_u as nat);
        lemma_normalise(sqrt_price, msb_u);
    }
    let log2p_integer_x32: i128 = (msb_u as i128 - 64) * 0x1_0000_0000i128;
    let mut bit: i128 = 0x8000_0000_0000_0000i128;
    let mut precision: u32 = 0;
    let mut log2p_fraction_x64: i128 = 0;
    let mut r: u128 = if msb_u >= 64 {
        sqrt_price >> (msb_u - 63)
    } else {
        sqrt_price << (63 - msb_u)
    };
    proof { crate::bit_facts::lemma_constant_shifts(); }
    while bit > 0 && precision < 14
        invariant
            precision <= 14,
            r < 0x1_0000_0000_0000_0000u128,
            bit == (0x8000_0000_0000_0000i128 >> precision),
            0 < bit <= 0x8000_0000_0000_0000i128,
            0 <= log2p_fraction_x64,
            log2p_fraction_x64 <= 0x1_0000_0000_0000_0000i128 - 2 * bit,
            log2p_fraction_x64 + log2_fraction(r, bit, (14 - precision) as nat) == log2_fraction(
                normalised_ratio(sqrt_price),
                0x8000_0000_0000_0000,
                14,
            ),
        decreases 14 - precision,
    {
        assert(r * r < 0x1_0000_0000_0000_0000_0000_0000_0000_0000) by (nonlinear_arith)
            requires r < 0x1_0000_0000_0000_0000u128;
        let rr = r * r;
        let is_r_more_than_two = rr >> 127u32;
        proof {
            crate::bit_facts::lemma_log_round(rr, bit, precision);
        }
        let more_i: i128 = is_r_more_than_two as i128;
        proof {
            if more_i == 0 {
                assert(bit * more_i == 0);
            } else {
                assert(more_i == 1);
                assert(bit * more_i == bit) by (nonlinear_arith)
                    requires more_i == 1;
            }
        }
        let sh: u32 = 63 + (is_r_more_than_two as u32);
        r = rr >> sh;
        log2p_fraction_x64 = log2p_fraction_x64 + bit * more_i;
        bit = bit >> 1u32;
        precision += 1;
    }
    let log2p_fraction_x32 = log2p_fraction_x64 >> 32u32;
    proof {
        crate::bit_facts::lemma_shr_32_nonneg(log2p_fraction_x64);
        assert(log2p_fraction_x64 as int / 0x1_0000_0000int < 0x1_0000_0000int) by (nonlinear_arith)
            requires log2p_fraction_x64 < 0x1_0000_0000_0000_0000int, log2p_fraction_x64 >= 0;
    }
    let log2p_x32 = log2p_integer_x32 + log2p_fraction_x32;
    let logbp_x64 = log2p_x32 * 59543866431248i128;
    assert(logbp_x64 == log_b_estimate(sqrt_price));
    let low_shifted = (logbp_x64 - 184467440737095516i128) >> 64u32;
    let high_shifted = (logbp_x64 + 15793534762490258745i128) >> 64u32;
    proof {
        lemma_i128_shr64((logbp_x64 - 184467440737095516i128) as i128);
        lemma_i128_shr64((logbp_x64 + 15793534762490258745i128) as i128);
    }
    let tick_low: i32 = if i32::MIN as i128 <= low_shifted && low_shifted <= i32::MAX as i128 {
        low_shifted as i32
    } else {
        MIN_TICK_INDEX
    };
    let tick_high: i32 = if i32::MIN as i128 <= high_shifted && high_shifted <= i32::MAX as i128 {
        high_shifted as i32
    } else {
        MAX_TICK_INDEX
    };
    if tick_low == tick_high {
        tick_low
    } else {
        let actual_tick_high_sqrt_price: u128 = sqrt_price_from_tick_index(tick_high);
        if actual_tick_high_sqrt_price <= sqrt_price {
            tick_high
        } else {
            tick_low
        }
    }
}

/// `dividend / divisor` rounded towards negative infinity, for a positive
/// divisor; for a negative dividend, `dividend - divisor` must fit in
/// `i32`.
pub fn floor_division(dividend: i32, divisor: i32) -> (r: i32)
    requires
        divisor > 0,
        dividend < 0 ==> dividend - divisor >= i32::MIN,
    ensures
        r == dividend as int / divisor as int,
{
    if dividend >= 0 {
        dividend / divisor
    } else {
        let shifted = dividend - divisor + 1;
        proof {
            let x = dividend as int;
            let d = divisor as int;
            let a = -(shifted as int);
            vstd::arithmetic::div_mod::lemma_fundamental_div_mod(x, d);
            vstd::arithmetic::div_mod::lemma_fundamental_div_mod(a, d);
            let fq = x / d;
            let fr = x % d;
            let q = a / d;
            let rr = a % d;
            assert(a == -x + d - 1);
            assert(a == d * (-fq) + (d - 1 - fr)) by (nonlinear_arith)
                requires x == d * fq + fr, a == -x + d - 1;
            vstd::arithmetic::div_mod::lemma_fundamental_div_mod_converse_div(a, d, -fq, d - 1 - fr);
        }
        shifted / divisor
    }
}

/// `dividend / divisor` rounded up, cut to `i32`; the sum must fit in `u32`
/// and the divisor must not be zero.
pub fn ceil_division_u32(dividend: u32, divisor: u32) -> (r: i32)
    requires
        divisor > 0,
        dividend + divisor <= u32::MAX,
    ensures
        r == (((dividend + divisor - 1) as nat / divisor as nat) as u32) as i32,
{
    ((dividend + divisor - 1) / divisor) as i32
}

/// The amount of the specified token between two prices: token A when
/// the swap direction matches whether the amount is the input, else
/// token B; rounded up for an input.
pub open spec fn fixed_delta(current: u128, target: u128, liquidity: u128, is_input: bool, a_to_b: bool) -> Result<
    AmountDeltaU64,
    ErrorCode,
> {
    if a_to_b == is_input {
        delta_a_outcome(current, target, liquidity, is_input)
    } else {
        delta_b_outcome(current, target, liquidity, is_input)
    }
}

/// The amount of the other token between two prices, rounded the other
/// way.
pub open spec fn unfixed_delta(current: u128, target: u128, liquidity: u128, is_input: bool, a_to_b: bool) -> Result<
    AmountDeltaU64,
    ErrorCode,
> {
    if a_to_b == is_input {
        delta_b_outcome(current, target, liquidity, !is_input)
    } else {
        delta_a_outcome(current, target, liquidity, !is_input)
    }
}

/// The specified token's amount between two prices, overflow as an error;
/// see `fixed_delta`.
pub fn get_amount_fixed_delta(
    sqrt_price_current: u128,
    sqrt_price_target: u128,
    liquidity: u128,
    amount_specified_is_input: bool,
    a_to_b: bool,
) -> (r: Result<u64, ErrorCode>)
    ensures
        r == flatten_delta(fixed_delta(sqrt_price_current, sqrt_price_target, liquidity, amount_specified_is_input, a_to_b)),
{
    if a_to_b == amount_specified_is_input {
        get_amount_delta_a(sqrt_price_current, sqrt_price_target, liquidity, amount_specified_is_input)
    } else {
        get_amount_delta_b(sqrt_price_current, sqrt_price_target, liquidity, amount_specified_is_input)
    }
}

/// The other token's amount between two prices, overflow as an error; see
/// `unfixed_delta`.
pub fn get_amount_unfixed_delta(
    sqrt_price_current: u128,
    sqrt_price_target: u128,
    liquidity: u128,
    amount_specified_is_input: bool,
    a_to_b: bool,
) -> (r: Result<u64, ErrorCode>)
    ensures
        r == flatten_delta(unfixed_delta(sqrt_price_current, sqrt_price_target, liquidity, amount_specified_is_input, a_to_b)),
{
    if a_to_b == amount_specified_is_input {
        get_amount_delta_b(sqrt_price_current, sqrt_price_target, liquidity, !amount_specified_is_input)
    } else {
        get_amount_delta_a(sqrt_price_current, sqrt_price_target, liquidity, !amount_specified_is_input)
    }
}

/// The specified token's amount between two prices, overflow kept apart;
/// see `fixed_delta`.
pub fn try_get_amount_fixed_delta(
    sqrt_price_current: u128,
    sqrt_price_target: u128,
    liquidity: u128,
    amount_specified_is_input: bool,
    a_to_b: bool,
) -> (r: Result<AmountDeltaU64, ErrorCode>)
    ensures
        r == fixed_delta(sqrt_price_current, sqrt_price_target, liquidity, amount_specified_is_input, a_to_b),
{
    if a_to_b == amount_specified_is_input {
        try_get_amount_delta_a(sqrt_price_current, sqrt_price_target, liquidity, amount_specified_is_input)
    } else {
        try_get_amount_delta_b(sqrt_price_current, sqrt_price_target, liquidity, amount_specified_is_input)
    }
}

/// One step of an exact-input swap.
#[derive(Debug, Clone, Copy)]
pub struct SwapStepComputation {
    pub amount_in: u64,
    pub amount_out: u64,
    pub next_price: u128,
    pub fee_amount: u64,
}

/// The remaining input net of the fee rate (over one million), rounded
/// down.
pub open spec fn net_of_fee(amount_remaining: u64, fee_rate: u32) -> u64 {
    if fee_rate == 0 {
        amount_remaining
    } else {
        ((amount_remaining * (1_000_000 - fee_rate)) / 1_000_000) as u64
    }
}

/// A step of an exact-input swap from `current` towards `target`: with no
/// liquidity the price jumps to the target for nothing; else the price
/// moves to the target when the input net of fees covers the range, or to
/// where it takes it; the output is the other token's amount, the input the
/// specified token's (the range amount when the target is reached without
/// overflow); the fee is the rest of the remaining input when the target is
/// not reached, else the fee rate applied on top of the input, rounded up.
/// `None` where the computation fails (a fee rate over one million, an
/// input above the remaining amount).
pub open spec fn wp_swap_step(
    amount_remaining: u64,
    fee_rate: u32,
    liquidity: u128,
    current: u128,
    target: u128,
    a_to_b: bool,
) -> Option<Result<SwapStepComputation, ErrorCode>> {
    if liquidity == 0 {
        Some(Ok(SwapStepComputation { amount_in: 0, amount_out: 0, next_price: target, fee_amount: 0 }))
    } else if fee_rate > 1_000_000 {
        None
    } else {
        match fixed_delta(current, target, liquidity, true, a_to_b) {
            Err(e) => Some(Err(e)),
            Ok(init) => {
                let calc = net_of_fee(amount_remaining, fee_rate);
                let reach = match init {
                    AmountDeltaU64::Valid(v) => v <= calc,
                    AmountDeltaU64::ExceedsMax(_) => false,
                };
                let next_r = if reach {
                    Ok(target)
                } else if a_to_b {
                    next_sqrt_price_from_a(current, liquidity, calc, true)
                } else {
                    next_sqrt_price_from_b(current, liquidity, calc, true)
                };
                match next_r {
                    Err(e) => Some(Err(e)),
                    Ok(next) => {
                        let is_max = next == target;
                        match flatten_delta(unfixed_delta(current, next, liquidity, true, a_to_b)) {
                            Err(e) => Some(Err(e)),
                            Ok(amount_out) => {
                                let recompute = !is_max || init is ExceedsMax;
                                let in_r = if recompute {
                                    flatten_delta(fixed_delta(current, next, liquidity, true, a_to_b))
                                } else {
                                    Ok(init->Valid_0)
                                };
                                match in_r {
                                    Err(e) => Some(Err(e)),
                                    Ok(amount_in) => {
                                        if !is_max {
                                            if amount_in > amount_remaining {
                                                None
                                            } else {
                                                Some(Ok(SwapStepComputation {
                                                    amount_in,
                                                    amount_out,
                                                    next_price: next,
                                                    fee_amount: (amount_remaining - amount_in) as u64,
                                                }))
                                            }
                                        } else if fee_rate == 1_000_000 {
                                            None
                                        } else {
                                            let fee = if fee_rate == 0 {
                                                0
                                            } else {
                                                ((amount_in * fee_rate + (1_000_000 - fee_rate) - 1) / (1_000_000 - fee_rate as int)) as u64
                                            };
                                            Some(Ok(SwapStepComputation { amount_in, amount_out, next_price: next, fee_amount: fee }))
                                        }
                                    },
                                }
                            },
                        }
                    },
                }
            },
        }
    }
}

/// A step whose input does not cover the range to its target stops
/// strictly short of the target.
proof fn lemma_short_step_stops_before_target(current: u128, target: u128, liquidity: u128, calc: u64, a_to_b: bool)
    requires
        liquidity > 0,
        a_to_b ==> target <= current,
        !a_to_b ==> current <= target,
        fixed_delta(current, target, liquidity, true, a_to_b) matches Ok(init) && match init {
            AmountDeltaU64::Valid(v) => v > calc,
            AmountDeltaU64::ExceedsMax(_) => true,
        },
    ensures
        next_sqrt_price(current, liquidity, calc, true, a_to_b) matches Ok(p) ==> (a_to_b ==> p > target) && (!a_to_b ==> p
            < target),
{
    let q64: nat = 0x1_0000_0000_0000_0000;
    if a_to_b {
        let num = liquidity * (current - target);
        assert(num >= 0) by (nonlinear_arith)
            requires num == liquidity * (current - target), current >= target, liquidity >= 0;
        let x = (num * q64) as nat;
        assert(num * q64 >= 0) by (nonlinear_arith)
            requires num >= 0;
        let y = (current * target) as nat;
        assert(current * target >= 0) by (nonlinear_arith)
            requires current >= 0, target >= 0;
        let v = div_round(x, y, true);
        assert(v > calc);
        assert(y > 0);
        lemma_div_round_against(x, y, calc as nat);
        assert(x > calc * y);
        if calc == 0 {
            assert(current > target) by (nonlinear_arith)
                requires x > 0, x == num * q64, num == liquidity * (current - target), current >= target, liquidity > 0;
        } else if liquidity * current < 0x1_0000_0000_0000_0000_0000_0000_0000_0000_0000_0000_0000_0000 {
            let d = (liquidity * q64 + current * calc) as nat;
            let n = (liquidity * current * q64) as nat;
            assert(liquidity * q64 + current * calc > 0 && liquidity * current * q64 >= 0) by (nonlinear_arith)
                requires liquidity > 0, current >= 0, calc >= 0, q64 == 0x1_0000_0000_0000_0000;
            assert(n > target * d) by (nonlinear_arith)
                requires
                    n == liquidity * current * q64,
                    d == liquidity * q64 + current * calc,
                    x == liquidity * (current - target) * q64,
                    y == current * target,
                    x > calc * y;
            lemma_div_round_strict(n, d, target as nat);
        }
    } else {
        let prod = liquidity * (target - current);
        assert(prod >= 0) by (nonlinear_arith)
            requires prod == liquidity * (target - current), target >= current, liquidity >= 0;
        assert(calc * q64 <= 0xffff_ffff_ffff_ffff_0000_0000_0000_0000) by (nonlinear_arith)
            requires calc <= 0xffff_ffff_ffff_ffff, q64 == 0x1_0000_0000_0000_0000;
        lemma_div_round_against(prod as nat, q64, calc as nat);
        assert(prod > calc * q64);
        lemma_div_round_strict((calc * q64) as nat, liquidity as nat, (target - current) as nat);
        assert((calc * q64) < (target - current) * liquidity) by (nonlinear_arith)
            requires prod > calc * q64, prod == liquidity * (target - current);
    }
}

/// With the input at most the remaining amount net of the fee rate, the
/// input and the fee charged on top of it stay within the remaining amount.
proof fn lemma_fee_on_top_fits(amount_in: u64, amount_remaining: u64, fee_rate: u32)
    requires
        fee_rate < 1_000_000,
        amount_in <= net_of_fee(amount_remaining, fee_rate),
    ensures
        fee_rate > 0 ==> amount_in + (amount_in * fee_rate + (1_000_000 - fee_rate) - 1) / (1_000_000 - fee_rate as int)
            <= amount_remaining,
        fee_rate == 0 ==> amount_in <= amount_remaining,
{
    if fee_rate > 0 {
        let dd: int = 1_000_000 - fee_rate;
        let rem: int = amount_remaining as int;
        let a: int = amount_in as int;
        let prod: int = rem * dd;
        assert(prod >= 0) by (nonlinear_arith)
            requires prod == rem * dd, rem >= 0, dd > 0;
        vstd::arithmetic::div_mod::lemma_fundamental_div_mod(prod, 1_000_000);
        assert(prod / 1_000_000 <= rem) by (nonlinear_arith)
            requires prod == rem * dd, dd <= 1_000_000, rem >= 0, prod == 1_000_000 * (prod / 1_000_000) + prod % 1_000_000,
                prod % 1_000_000 >= 0;
        assert(a * 1_000_000 <= prod) by (nonlinear_arith)
            requires a <= prod / 1_000_000, prod == 1_000_000 * (prod / 1_000_000) + prod % 1_000_000, prod % 1_000_000 >= 0;
        assert(a * fee_rate <= (rem - a) * dd) by (nonlinear_arith)
            requires a * 1_000_000 <= rem * dd, dd == 1_000_000 - fee_rate;
        assert(a <= rem) by (nonlinear_arith)
            requires a * fee_rate <= (rem - a) * dd, dd > 0, a >= 0, fee_rate >= 0;
        let n: int = a * fee_rate + dd - 1;
        assert(n >= 0 && n < (rem - a + 1) * dd) by (nonlinear_arith)
            requires n == a * fee_rate + dd - 1, a * fee_rate <= (rem - a) * dd, dd > 0, a >= 0, fee_rate >= 0;
        lemma_div_round_strict(n as nat, dd as nat, (rem - a + 1) as nat);
    }
}

/// A swap step spends at most the remaining input, its fee included, and
/// leaves the price between the current price and the target.
pub proof fn law_swap_step_bounds(
    amount_remaining: u64,
    fee_rate: u32,
    liquidity: u128,
    current: u128,
    target: u128,
    a_to_b: bool,
)
    requires
        a_to_b ==> target <= current,
        !a_to_b ==> current <= target,
    ensures
        wp_swap_step(amount_remaining, fee_rate, liquidity, current, target, a_to_b) matches Some(Ok(c)) ==> {
            &&& c.amount_in + c.fee_amount <= amount_remaining
            &&& a_to_b ==> target <= c.next_price <= current
            &&& !a_to_b ==> current <= c.next_price <= target
        },
{
    if liquidity > 0 && fee_rate <= 1_000_000 {
        match fixed_delta(current, target, liquidity, true, a_to_b) {
            Ok(init) => {
                let calc = net_of_fee(amount_remaining, fee_rate);
                let reach = match init {
                    AmountDeltaU64::Valid(v) => v <= calc,
                    AmountDeltaU64::ExceedsMax(_) => false,
                };
                if reach {
                    if fee_rate < 1_000_000 {
                        lemma_fee_on_top_fits(init->Valid_0, amount_remaining, fee_rate);
                    }
                } else {
                    lemma_short_step_stops_before_target(current, target, liquidity, calc, a_to_b);
                    law_next_sqrt_price_direction(current, liquidity, calc, true, a_to_b);
                }
            },
            Err(_) => {},
        }
    }
}

/// One step of an exact-input swap; see `wp_swap_step`.
pub fn compute_swap_step(
    amount_remaining: u64,
    fee_rate: u32,
    liquidity: u128,
    sqrt_price_current: u128,
    sqrt_price_target: u128,
    a_to_b: bool,
) -> (r: Result<SwapStepComputation, ErrorCode>)
    requires
        wp_swap_step(amount_remaining, fee_rate, liquidity, sqrt_price_current, sqrt_price_target, a_to_b) is Some,
    ensures
        Some(r) == wp_swap_step(amount_remaining, fee_rate, liquidity, sqrt_price_current, sqrt_price_target, a_to_b),
{
    if liquidity == 0 {
        return Ok(SwapStepComputation { amount_in: 0, amount_out: 0, next_price: sqrt_price_target, fee_amount: 0 });
    }
    let initial_amount_fixed_delta = try_get_amount_fixed_delta(sqrt_price_current, sqrt_price_target, liquidity, true, a_to_b)?;
    let amount_calc: u64 = if fee_rate == 0 {
        amount_remaining
    } else {
        proof {
            assert(amount_remaining * (1_000_000 - fee_rate) <= u64::MAX * 1_000_000) by (nonlinear_arith)
                requires fee_rate <= 1_000_000, amount_remaining <= u64::MAX;
            assert((amount_remaining * (1_000_000 - fee_rate)) / 1_000_000 <= u64::MAX) by (nonlinear_arith)
                requires fee_rate <= 1_000_000, amount_remaining <= u64::MAX, fee_rate >= 0;
        }
        ((amount_remaining as u128) * (FEE_RATE_MUL_VALUE - fee_rate as u128) / FEE_RATE_MUL_VALUE) as u64
    };
    let next_sqrt_price = if initial_amount_fixed_delta.lte(amount_calc) {
        sqrt_price_target
    } else {
        get_next_sqrt_price(sqrt_price_current, liquidity, amount_calc, true, a_to_b)?
    };
    let is_max_swap = next_sqrt_price == sqrt_price_target;
    let amount_unfixed_delta = get_amount_unfixed_delta(sqrt_price_current, next_sqrt_price, liquidity, true, a_to_b)?;
    let amount_fixed_delta = if !is_max_swap || initial_amount_fixed_delta.exceeds_max() {
        get_amount_fixed_delta(sqrt_price_current, next_sqrt_price, liquidity, true, a_to_b)?
    } else {
        initial_amount_fixed_delta.value()
    };
    let amount_in = amount_fixed_delta;
    let amount_out = amount_unfixed_delta;
    let fee_amount = if !is_max_swap {
        amount_remaining - amount_in
    } else {
        if fee_rate == 0 {
            0
        } else {
            proof {
                assert(amount_in * fee_rate <= u64::MAX * 1_000_000) by (nonlinear_arith)
                    requires fee_rate <= 1_000_000, amount_in <= u64::MAX;
            }
            let numerator = amount_in as u128 * fee_rate as u128;
            let denominator = FEE_RATE_MUL_VALUE - fee_rate as u128;
            let fee_amount_128 = numerator / denominator;
            let remainder = numerator % denominator;
            proof {
                vstd::arithmetic::div_mod::lemma_fundamental_div_mod(numerator as int, denominator as int);
                assert(numerator / denominator <= numerator) by (nonlinear_arith)
                    requires denominator >= 1, numerator >= 0;
                let q = (numerator / denominator) as int;
                assert(numerator as int == q * denominator + remainder) by (nonlinear_arith)
                    requires numerator as int == denominator * q + remainder;
                if remainder > 0 {
                    assert((numerator + denominator - 1) as int == (q + 1) * denominator + (remainder - 1)) by (nonlinear_arith)
                        requires numerator as int == q * denominator + remainder;
                    assert((numerator + denominator - 1) / (denominator as int) == numerator / denominator + 1) by {
                        vstd::arithmetic::div_mod::lemma_fundamental_div_mod_converse_div(
                            (numerator + denominator - 1) as int,
                            denominator as int,
                            (numerator / denominator + 1) as int,
                            (remainder - 1) as int,
                        );
                    }
                } else {
                    assert((numerator + denominator - 1) as int == q * denominator + (denominator - 1)) by (nonlinear_arith)
                        requires numerator as int == q * denominator + remainder, remainder == 0;
                    assert((numerator + denominator - 1) / (denominator as int) == numerator / denominator) by {
                        vstd::arithmetic::div_mod::lemma_fundamental_div_mod_converse_div(
                            (numerator + denominator - 1) as int,
                            denominator as int,
                            (numerator / denominator) as int,
                            (denominator - 1) as int,
                        );
                    }
                }
            }
            if remainder > 0 {
                (fee_amount_128 + 1) as u64
            } else {
                fee_amount_128 as u64
            }
        }
    };
    Ok(SwapStepComputation { amount_in, amount_out, next_price: next_sqrt_price, fee_amount })
}

} // verus!
