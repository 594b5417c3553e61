use vstd::prelude::*;

use crate::errors::ErrorCode;
use crate::u256_muldiv::{
    hi_lo, lemma_word_pow_values, lemma_words_digits, u256_modulus, word_base, LoHi, U256Muldiv,
};

verus! {

pub const Q64_RESOLUTION: u8 = 64;
pub const Q64_MASK: u128 = 0xFFFF_FFFF_FFFF_FFFF;
pub const TO_Q64: u128 = 0x1_0000_0000_0000_0000;
pub const MAX_SQRT_PRICE_X64: u128 = 79226673515401279992447579055;
pub const MIN_SQRT_PRICE_X64: u128 = 4295048016;

/// Fee rates are in hundredths of a basis point: fee = amount * rate / 1_000_000.
pub const MAX_FEE_RATE: u16 = 60_000;
pub const FEE_RATE_MUL_VALUE: u128 = 1_000_000;

/// Protocol fee rates are in basis points of the fee: protocol fee = fee * rate / 10_000.
pub const MAX_PROTOCOL_FEE_RATE: u16 = 2_500;
pub const PROTOCOL_FEE_RATE_MUL_VALUE: u128 = 10_000;

/// `n / d`, plus one when `round_up` is set and the division is inexact;
/// zero for a zero divisor, as the 256-bit division gives.
pub open spec fn div_round(n: nat, d: nat, round_up: bool) -> nat {
    if d == 0 {
        0
    } else if round_up && n % d != 0 {
        n / d + 1
    } else {
        n / d
    }
}

/// The full 256-bit product of two `u128` values.
pub fn mul_u256(v: u128, n: u128) -> (r: U256Muldiv)
    ensures
        r@ == v * n,
{
    let vl = v.lo_u128();
    let vh = v.hi_u128();
    let nl = n.lo_u128();
    let nh = n.hi_u128();
    proof {
        let b = 0x1_0000_0000_0000_0000int;
        assert(vl * nl <= (b - 1) * (b - 1)) by (nonlinear_arith)
            requires 0 <= vl < b, 0 <= nl < b;
        assert(vl * nh <= (b - 1) * (b - 1)) by (nonlinear_arith)
            requires 0 <= vl < b, 0 <= nh < b;
        assert(vh * nl <= (b - 1) * (b - 1)) by (nonlinear_arith)
            requires 0 <= vh < b, 0 <= nl < b;
        assert(vh * nh <= (b - 1) * (b - 1)) by (nonlinear_arith)
            requires 0 <= vh < b, 0 <= nh < b;
    }
    let mut c0 = vl * nl;
    let a1 = vl * nh;
    let b0 = vh * nl;
    let mut c1 = c0.hi_u128() + a1.lo_u128() + b0.lo_u128();
    let ghost c0_first = c0;
    let ghost c1_first = c1;
    proof {
        let (vi, ni) = (v as int, n as int);
        vstd::arithmetic::div_mod::lemma_fundamental_div_mod(vi, 0x1_0000_0000_0000_0000);
        vstd::arithmetic::div_mod::lemma_fundamental_div_mod(ni, 0x1_0000_0000_0000_0000);
        vstd::arithmetic::div_mod::lemma_fundamental_div_mod(c0_first as int, 0x1_0000_0000_0000_0000);
        vstd::arithmetic::div_mod::lemma_fundamental_div_mod(a1 as int, 0x1_0000_0000_0000_0000);
        vstd::arithmetic::div_mod::lemma_fundamental_div_mod(b0 as int, 0x1_0000_0000_0000_0000);
        vstd::arithmetic::div_mod::lemma_fundamental_div_mod(c1_first as int, 0x1_0000_0000_0000_0000);
        let (c0h, c0l) = ((c0_first as int) / 0x1_0000_0000_0000_0000, (c0_first as int) % 0x1_0000_0000_0000_0000);
        let (a1h, a1l) = ((a1 as int) / 0x1_0000_0000_0000_0000, (a1 as int) % 0x1_0000_0000_0000_0000);
        let (b0h, b0l) = ((b0 as int) / 0x1_0000_0000_0000_0000, (b0 as int) % 0x1_0000_0000_0000_0000);
        let (c1h, c1l) = ((c1_first as int) / 0x1_0000_0000_0000_0000, (c1_first as int) % 0x1_0000_0000_0000_0000);
        let hh = (vh * nh) as int;
        assert(vi * ni == 0x1_0000_0000_0000_0000_0000_0000_0000_0000 * hh + 0x1_0000_0000_0000_0000 * (a1 + b0) + c0_first) by (nonlinear_arith)
            requires
                vi == 0x1_0000_0000_0000_0000 * vh + vl,
                ni == 0x1_0000_0000_0000_0000 * nh + nl,
                c0_first == vl * nl,
                a1 == vl * nh,
                b0 == vh * nl,
                hh == vh * nh,
        ;
        assert(vi * ni == 0x1_0000_0000_0000_0000_0000_0000_0000_0000 * (hh + c1h + a1h + b0h) + (0x1_0000_0000_0000_0000 * c1l + c0l));
        assert(vi * ni <= (u128::MAX as int) * (u128::MAX as int)) by (nonlinear_arith)
            requires
                0 <= vi <= u128::MAX,
                0 <= ni <= u128::MAX,
        ;
        assert(hh + c1h + a1h + b0h < 0x1_0000_0000_0000_0000_0000_0000_0000_0000);
    }
    c0 = hi_lo(c1.lo(), c0.lo());
    c1 = vh * nh + c1.hi_u128() + a1.hi_u128() + b0.hi_u128();
    let r = U256Muldiv::new(c1, c0);
    r
}

/// `n / d` as a `u128`, rounded up when `round_up` is set and the division is
/// inexact (zero for a zero divisor); `CalculateOverflow` when that does not
/// fit in 128 bits.
pub fn div_round_up_if_u256(n: U256Muldiv, d: U256Muldiv, round_up: bool) -> (r: Result<
    u128,
    ErrorCode,
>)
    ensures
        match r {
            Ok(v) => v == div_round(n@, d@, round_up),
            Err(e) => e == ErrorCode::CalculateOverflow && div_round(n@, d@, round_up)
                >= word_base() * word_base(),
        },
{
    let (quotient, remainder) = n.div(d, round_up);
    proof {
        lemma_words_digits(quotient.items);
        lemma_words_digits(remainder.items);
    }
    let result = if round_up && !remainder.is_zero() {
        let one = U256Muldiv::new(0, 1);
        proof {
            lemma_words_digits(n.items);
            lemma_word_pow_values();
            assert(d@ >= 2) by {
                if d@ == 1 {
                    assert(n@ % 1 == 0);
                }
            }
            vstd::arithmetic::div_mod::lemma_div_is_ordered_by_denominator(n@ as int, 2, d@ as int);
            vstd::arithmetic::div_mod::lemma_small_mod((n@ / d@ + 1) as nat, u256_modulus());
        }
        quotient.add(one)
    } else {
        quotient
    };
    result.try_into_u128()
}

/// `n / d`, rounded up when `round_up` is set and the division is inexact;
/// `DivideByZero` when `d` is zero.
pub fn div_round_up_if(n: u128, d: u128, round_up: bool) -> (r: Result<u128, ErrorCode>)
    ensures
        match r {
            Ok(v) => d != 0 && v == div_round(n as nat, d as nat, round_up),
            Err(e) => d == 0 && e == ErrorCode::DivideByZero,
        },
{
    if d == 0 {
        return Err(ErrorCode::DivideByZero);
    }
    let q = n / d;
    proof {
        if n % d > 0 {
            assert(d >= 2) by {
                if d == 1 {
                    assert(n % 1 == 0);
                }
            }
            vstd::arithmetic::div_mod::lemma_div_is_ordered_by_denominator(n as int, 2, d as int);
        }
    }
    Ok(
        if round_up && n % d > 0 {
            q + 1
        } else {
            q
        },
    )
}

/// The pair ordered with the smaller first.
pub fn increasing_price_order(sqrt_price_0: u128, sqrt_price_1: u128) -> (r: (u128, u128))
    ensures
        r.0 <= r.1,
        (r.0 == sqrt_price_0 && r.1 == sqrt_price_1) || (r.0 == sqrt_price_1 && r.1
            == sqrt_price_0),
{
    if sqrt_price_0 > sqrt_price_1 {
        (sqrt_price_1, sqrt_price_0)
    } else {
        (sqrt_price_0, sqrt_price_1)
    }
}

/// A token amount that either fits in a `u64` or overflowed with an error.
#[derive(Debug, Clone, Copy, PartialEq, Eq, Structural)]
pub enum AmountDeltaU64 {
    Valid(u64),
    ExceedsMax(ErrorCode),
}

impl AmountDeltaU64 {
    /// Whether the amount is valid and at most `other`.
    pub fn lte(&self, other: u64) -> (r: bool)
        ensures
            r == (match *self {
                AmountDeltaU64::Valid(v) => v <= other,
                AmountDeltaU64::ExceedsMax(_) => false,
            }),
    {
        match self {
            AmountDeltaU64::Valid(value) => *value <= other,
            AmountDeltaU64::ExceedsMax(_) => false,
        }
    }

    /// Whether the amount overflowed.
    pub fn exceeds_max(&self) -> (r: bool)
        ensures
            r == (*self is ExceedsMax),
    {
        match self {
            AmountDeltaU64::Valid(_) => false,
            AmountDeltaU64::ExceedsMax(_) => true,
        }
    }

    /// The amount of a valid delta.
    pub fn value(self) -> (r: u64)
        requires
            self is Valid,
        ensures
            r == self->Valid_0,
    {
        match self {
            AmountDeltaU64::Valid(value) => value,
            AmountDeltaU64::ExceedsMax(_) => 0,
        }
    }
}

/// The smaller and the larger of two prices.
pub open spec fn price_lower(p0: u128, p1: u128) -> nat {
    if p0 > p1 {
        p1 as nat
    } else {
        p0 as nat
    }
}

pub open spec fn price_upper(p0: u128, p1: u128) -> nat {
    if p0 > p1 {
        p0 as nat
    } else {
        p1 as nat
    }
}

/// The token A amount between two Q64.64 square-root prices for a
/// liquidity: `liquidity * (upper - lower) * 2^64 / (upper * lower)`,
/// rounded as asked, with the outcome for each overflow.
pub open spec fn delta_a_outcome(p0: u128, p1: u128, liquidity: u128, round_up: bool) -> Result<
    AmountDeltaU64,
    ErrorCode,
> {
    let lower = price_lower(p0, p1);
    let upper = price_upper(p0, p1);
    let num = liquidity * (upper - lower);
    if num >= 0x1_0000_0000_0000_0000_0000_0000_0000_0000_0000_0000_0000_0000 {
        Err(ErrorCode::CalculateOverflow)
    } else {
        let v = div_round((num * 0x1_0000_0000_0000_0000) as nat, upper * lower, round_up);
        if v >= 0x1_0000_0000_0000_0000_0000_0000_0000_0000 {
            Ok(AmountDeltaU64::ExceedsMax(ErrorCode::CalculateOverflow))
        } else if v > u64::MAX {
            Ok(AmountDeltaU64::ExceedsMax(ErrorCode::MaxTokenOverflow))
        } else {
            Ok(AmountDeltaU64::Valid(v as u64))
        }
    }
}

/// The token B amount between two Q64.64 square-root prices for a
/// liquidity: `liquidity * (upper - lower) / 2^64`, rounded as asked.
pub open spec fn delta_b_outcome(p0: u128, p1: u128, liquidity: u128, round_up: bool) -> Result<
    AmountDeltaU64,
    ErrorCode,
> {
    let prod = liquidity * (price_upper(p0, p1) - price_lower(p0, p1));
    let v = div_round(prod as nat, 0x1_0000_0000_0000_0000, round_up);
    if prod > u128::MAX || v > u64::MAX {
        Ok(AmountDeltaU64::ExceedsMax(ErrorCode::CalculateOverflow))
    } else {
        Ok(AmountDeltaU64::Valid(v as u64))
    }
}

/// A delta outcome as a plain result: an overflow becomes its error.
pub open spec fn flatten_delta(r: Result<AmountDeltaU64, ErrorCode>) -> Result<u64, ErrorCode> {
    match r {
        Ok(AmountDeltaU64::Valid(v)) => Ok(v),
        Ok(AmountDeltaU64::ExceedsMax(e)) => Err(e),
        Err(e) => Err(e),
    }
}

/// The change in token A between two prices; see `delta_a_outcome`.
pub fn try_get_amount_delta_a(
    sqrt_price_0: u128,
    sqrt_price_1: u128,
    liquidity: u128,
    round_up: bool,
) -> (r: Result<AmountDeltaU64, ErrorCode>)
    ensures
        r == delta_a_outcome(sqrt_price_0, sqrt_price_1, liquidity, round_up),
{
    let (sqrt_price_lower, sqrt_price_upper) = increasing_price_order(sqrt_price_0, sqrt_price_1);
    let sqrt_price_diff = sqrt_price_upper - sqrt_price_lower;
    let product = mul_u256(liquidity, sqrt_price_diff);
    proof {
        lemma_word_pow_values();
        assert(crate::u256_muldiv::word_pow(3) == 0x1_0000_0000_0000_0000_0000_0000_0000_0000_0000_0000_0000_0000);
    }
    let numerator = match product.checked_shift_word_left() {
        Some(v) => v,
        None => {
            return Err(ErrorCode::CalculateOverflow);
        },
    };
    let denominator = mul_u256(sqrt_price_upper, sqrt_price_lower);
    let (quotient, remainder) = numerator.div(denominator, round_up);
    proof {
        lemma_words_digits(quotient.items);
        lemma_words_digits(remainder.items);
    }
    let result = if round_up && !remainder.is_zero() {
        proof {
            lemma_words_digits(numerator.items);
            assert(denominator@ >= 2) by {
                if denominator@ == 1 {
                    assert(numerator@ % 1 == 0);
                }
            }
            vstd::arithmetic::div_mod::lemma_div_is_ordered_by_denominator(numerator@ as int, 2, denominator@ as int);
            vstd::arithmetic::div_mod::lemma_small_mod((numerator@ / denominator@ + 1) as nat, u256_modulus());
        }
        quotient.add(U256Muldiv::new(0, 1)).try_into_u128()
    } else {
        quotient.try_into_u128()
    };
    match result {
        Ok(result) => {
            if result > 0xffff_ffff_ffff_ffffu128 {
                return Ok(AmountDeltaU64::ExceedsMax(ErrorCode::MaxTokenOverflow));
            }
            Ok(AmountDeltaU64::Valid(result as u64))
        },
        Err(err) => Ok(AmountDeltaU64::ExceedsMax(err)),
    }
}

/// The change in token A between two prices, overflow as an error.
pub fn get_amount_delta_a(
    sqrt_price_0: u128,
    sqrt_price_1: u128,
    liquidity: u128,
    round_up: bool,
) -> (r: Result<u64, ErrorCode>)
    ensures
        r == flatten_delta(delta_a_outcome(sqrt_price_0, sqrt_price_1, liquidity, round_up)),
{
    match try_get_amount_delta_a(sqrt_price_0, sqrt_price_1, liquidity, round_up) {
        Ok(AmountDeltaU64::Valid(value)) => Ok(value),
        Ok(AmountDeltaU64::ExceedsMax(error)) => Err(error),
        Err(error) => Err(error),
    }
}

/// The change in token B between two prices; see `delta_b_outcome`.
pub fn try_get_amount_delta_b(
    sqrt_price_0: u128,
    sqrt_price_1: u128,
    liquidity: u128,
    round_up: bool,
) -> (r: Result<AmountDeltaU64, ErrorCode>)
    ensures
        r == delta_b_outcome(sqrt_price_0, sqrt_price_1, liquidity, round_up),
{
    let (sqrt_price_lower, sqrt_price_upper) = increasing_price_order(sqrt_price_0, sqrt_price_1);
    let n0 = liquidity;
    let n1 = sqrt_price_upper - sqrt_price_lower;
    if n0 == 0 || n1 == 0 {
        proof {
            assert(n0 * n1 == 0) by (nonlinear_arith) requires n0 == 0 || n1 == 0;
            assert(div_round(0, 0x1_0000_0000_0000_0000, round_up) == 0);
        }
        return Ok(AmountDeltaU64::Valid(0));
    }
    match n0.checked_mul(n1) {
        Some(p) => {
            let result = (p >> Q64_RESOLUTION) as u64;
            proof {
                assert(p >> 64u8 == p / 0x1_0000_0000_0000_0000) by (bit_vector);
                assert(p & 0xFFFF_FFFF_FFFF_FFFFu128 == p % 0x1_0000_0000_0000_0000) by (bit_vector);
            }
            let should_round = round_up && (p & Q64_MASK > 0);
            if should_round && result == u64::MAX {
                return Ok(AmountDeltaU64::ExceedsMax(ErrorCode::CalculateOverflow));
            }
            Ok(
                AmountDeltaU64::Valid(
                    if should_round {
                        result + 1
                    } else {
                        result
                    },
                ),
            )
        },
        None => Ok(AmountDeltaU64::ExceedsMax(ErrorCode::CalculateOverflow)),
    }
}

/// The change in token B between two prices, overflow as an error.
pub fn get_amount_delta_b(
    sqrt_price_0: u128,
    sqrt_price_1: u128,
    liquidity: u128,
    round_up: bool,
) -> (r: Result<u64, ErrorCode>)
    ensures
        r == flatten_delta(delta_b_outcome(sqrt_price_0, sqrt_price_1, liquidity, round_up)),
{
    match try_get_amount_delta_b(sqrt_price_0, sqrt_price_1, liquidity, round_up) {
        Ok(AmountDeltaU64::Valid(value)) => Ok(value),
        Ok(AmountDeltaU64::ExceedsMax(error)) => Err(error),
        Err(error) => Err(error),
    }
}

/// The next square-root price after adding (input) or removing (output)
/// `amount` of token A at `liquidity`, rounded up:
/// `liquidity * sqrt_price * 2^64 / (liquidity * 2^64 ± sqrt_price * amount)`.
pub open spec fn next_sqrt_price_from_a(
    sqrt_price: u128,
    liquidity: u128,
    amount: u64,
    amount_specified_is_input: bool,
) -> Result<u128, ErrorCode> {
    let product = sqrt_price * amount;
    let shifted = liquidity * 0x1_0000_0000_0000_0000;
    if amount == 0 {
        Ok(sqrt_price)
    } else if liquidity * sqrt_price >= 0x1_0000_0000_0000_0000_0000_0000_0000_0000_0000_0000_0000_0000 {
        Err(ErrorCode::CalculateOverflow)
    } else if !amount_specified_is_input && shifted <= product {
        Err(ErrorCode::DivideByZero)
    } else {
        let denominator = if amount_specified_is_input {
            shifted + product
        } else {
            shifted - product
        };
        let price = div_round((liquidity * sqrt_price * 0x1_0000_0000_0000_0000) as nat, denominator as nat, true);
        if price >= 0x1_0000_0000_0000_0000_0000_0000_0000_0000 {
            Err(ErrorCode::CalculateOverflow)
        } else if price < MIN_SQRT_PRICE_X64 || price > MAX_SQRT_PRICE_X64 {
            Err(ErrorCode::InvalidSqrtPrice)
        } else {
            Ok(price as u128)
        }
    }
}

/// The next square-root price after adding (input) or removing (output)
/// `amount` of token B at `liquidity`: the price moves by
/// `amount * 2^64 / liquidity`, rounded down for input and up for output so
/// that the price itself is rounded down.
pub open spec fn next_sqrt_price_from_b(
    sqrt_price: u128,
    liquidity: u128,
    amount: u64,
    amount_specified_is_input: bool,
) -> Result<u128, ErrorCode> {
    if liquidity == 0 {
        Err(ErrorCode::DivideByZero)
    } else {
        let delta = div_round((amount * 0x1_0000_0000_0000_0000) as nat, liquidity as nat, !amount_specified_is_input);
        if amount_specified_is_input {
            if sqrt_price + delta > u128::MAX {
                Err(ErrorCode::InvalidSqrtPrice)
            } else {
                Ok((sqrt_price + delta) as u128)
            }
        } else {
            if delta > sqrt_price {
                Err(ErrorCode::InvalidSqrtPrice)
            } else {
                Ok((sqrt_price - delta) as u128)
            }
        }
    }
}

/// The next square-root price from a token A amount; see `next_sqrt_price_from_a`.
pub fn get_next_sqrt_price_from_a_round_up(
    sqrt_price: u128,
    liquidity: u128,
    amount: u64,
    amount_specified_is_input: bool,
) -> (r: Result<u128, ErrorCode>)
    ensures
        r == next_sqrt_price_from_a(sqrt_price, liquidity, amount, amount_specified_is_input),
{
    if amount == 0 {
        return Ok(sqrt_price);
    }
    let product = mul_u256(sqrt_price, amount as u128);
    proof {
        lemma_word_pow_values();
        assert(crate::u256_muldiv::word_pow(3) == 0x1_0000_0000_0000_0000_0000_0000_0000_0000_0000_0000_0000_0000);
    }
    let numerator = match mul_u256(liquidity, sqrt_price).checked_shift_word_left() {
        Some(v) => v,
        None => {
            return Err(ErrorCode::CalculateOverflow);
        },
    };
    let liquidity_shift_left = U256Muldiv::new(0, liquidity).shift_word_left();
    proof {
        assert(liquidity * 0x1_0000_0000_0000_0000 < 0x1_0000_0000_0000_0000_0000_0000_0000_0000_0000_0000_0000_0000) by (nonlinear_arith)
            requires liquidity < 0x1_0000_0000_0000_0000_0000_0000_0000_0000;
        vstd::arithmetic::div_mod::lemma_small_mod((liquidity * 0x1_0000_0000_0000_0000) as nat, u256_modulus());
        assert(liquidity_shift_left@ == liquidity * 0x1_0000_0000_0000_0000);
        assert(product@ < 0x1_0000_0000_0000_0000_0000_0000_0000_0000_0000_0000_0000_0000) by (nonlinear_arith)
            requires product@ == sqrt_price * amount, sqrt_price < 0x1_0000_0000_0000_0000_0000_0000_0000_0000, amount < 0x1_0000_0000_0000_0000;
    }
    if !amount_specified_is_input && liquidity_shift_left.lte(product) {
        return Err(ErrorCode::DivideByZero);
    }
    let denominator = if amount_specified_is_input {
        proof {
            vstd::arithmetic::div_mod::lemma_small_mod((liquidity_shift_left@ + product@) as nat, u256_modulus());
        }
        liquidity_shift_left.add(product)
    } else {
        proof {
            vstd::arithmetic::div_mod::lemma_small_mod((liquidity_shift_left@ - product@) as nat, u256_modulus());
        }
        liquidity_shift_left.sub(product)
    };
    let price = match div_round_up_if_u256(numerator, denominator, true) {
        Ok(v) => v,
        Err(e) => {
            return Err(e);
        },
    };
    if price < MIN_SQRT_PRICE_X64 {
        return Err(ErrorCode::InvalidSqrtPrice);
    } else if price > MAX_SQRT_PRICE_X64 {
        return Err(ErrorCode::InvalidSqrtPrice);
    }
    Ok(price)
}

/// The next square-root price from a token B amount; see `next_sqrt_price_from_b`.
pub fn get_next_sqrt_price_from_b_round_down(
    sqrt_price: u128,
    liquidity: u128,
    amount: u64,
    amount_specified_is_input: bool,
) -> (r: Result<u128, ErrorCode>)
    ensures
        r == next_sqrt_price_from_b(sqrt_price, liquidity, amount, amount_specified_is_input),
{
    let amount_x64 = (amount as u128) << Q64_RESOLUTION;
    proof {
        let a = amount as u128;
        assert(a << 64u8 == a * 0x1_0000_0000_0000_0000) by (bit_vector)
            requires a < 0x1_0000_0000_0000_0000;
    }
    let delta = match div_round_up_if(amount_x64, liquidity, !amount_specified_is_input) {
        Ok(v) => v,
        Err(e) => {
            return Err(e);
        },
    };
    if amount_specified_is_input {
        match sqrt_price.checked_add(delta) {
            Some(v) => Ok(v),
            None => Err(ErrorCode::InvalidSqrtPrice),
        }
    } else {
        match sqrt_price.checked_sub(delta) {
            Some(v) => Ok(v),
            None => Err(ErrorCode::InvalidSqrtPrice),
        }
    }
}

/// The next square-root price after a swap step of `amount`: from token A
/// when `amount_specified_is_input == a_to_b`, else from token B.
pub open spec fn next_sqrt_price(
    sqrt_price: u128,
    liquidity: u128,
    amount: u64,
    amount_specified_is_input: bool,
    a_to_b: bool,
) -> Result<u128, ErrorCode> {
    if amount_specified_is_input == a_to_b {
        next_sqrt_price_from_a(sqrt_price, liquidity, amount, amount_specified_is_input)
    } else {
        next_sqrt_price_from_b(sqrt_price, liquidity, amount, amount_specified_is_input)
    }
}

/// The next square-root price after a swap step of `amount`: token A when
/// `amount_specified_is_input == a_to_b`, rounded up; token B otherwise,
/// rounded down.
pub fn get_next_sqrt_price(
    sqrt_price: u128,
    liquidity: u128,
    amount: u64,
    amount_specified_is_input: bool,
    a_to_b: bool,
) -> (r: Result<u128, ErrorCode>)
    ensures
        r == next_sqrt_price(sqrt_price, liquidity, amount, amount_specified_is_input, a_to_b),
{
    if amount_specified_is_input == a_to_b {
        get_next_sqrt_price_from_a_round_up(sqrt_price, liquidity, amount, amount_specified_is_input)
    } else {
        get_next_sqrt_price_from_b_round_down(
            sqrt_price,
            liquidity,
            amount,
            amount_specified_is_input,
        )
    }
}

/// Rounding up never gives less than rounding down, and at most one more.
pub(crate) proof fn lemma_div_round_up_by_one(n: nat, d: nat)
    ensures
        div_round(n, d, false) <= div_round(n, d, true) <= div_round(n, d, false) + 1,
{
}

/// The token A amount between two prices does not depend on their order,
/// and rounding it up gives the amount rounded down or one more.
pub proof fn law_delta_a_order_and_rounding(p0: u128, p1: u128, liquidity: u128)
    ensures
        delta_a_outcome(p0, p1, liquidity, true) == delta_a_outcome(p1, p0, liquidity, true),
        delta_a_outcome(p0, p1, liquidity, false) == delta_a_outcome(p1, p0, liquidity, false),
        flatten_delta(delta_a_outcome(p0, p1, liquidity, false)) matches Ok(down) ==> (flatten_delta(
            delta_a_outcome(p0, p1, liquidity, true),
        ) matches Ok(up) ==> down <= up <= down + 1),
{
    let lower = price_lower(p0, p1);
    let upper = price_upper(p0, p1);
    let num = liquidity * (upper - lower);
    lemma_div_round_up_by_one((num * 0x1_0000_0000_0000_0000) as nat, upper * lower);
}

/// The token B amount between two prices does not depend on their order,
/// and rounding it up gives the amount rounded down or one more.
pub proof fn law_delta_b_order_and_rounding(p0: u128, p1: u128, liquidity: u128)
    ensures
        delta_b_outcome(p0, p1, liquidity, true) == delta_b_outcome(p1, p0, liquidity, true),
        delta_b_outcome(p0, p1, liquidity, false) == delta_b_outcome(p1, p0, liquidity, false),
        flatten_delta(delta_b_outcome(p0, p1, liquidity, false)) matches Ok(down) ==> (flatten_delta(
            delta_b_outcome(p0, p1, liquidity, true),
        ) matches Ok(up) ==> down <= up <= down + 1),
{
    let prod = liquidity * (price_upper(p0, p1) - price_lower(p0, p1));
    if prod >= 0 {
        lemma_div_round_up_by_one(prod as nat, 0x1_0000_0000_0000_0000);
    }
}

/// A quotient rounded up stays at or below `p` when the numerator is at most
/// `p` times the divisor, and one rounded down stays at or above `p` when
/// the numerator is at least `p` times it.
pub(crate) proof fn lemma_div_round_against(n: nat, d: nat, p: nat)
    requires
        d > 0,
    ensures
        n <= p * d ==> div_round(n, d, true) <= p,
        n >= p * d ==> div_round(n, d, false) >= p,
{
    vstd::arithmetic::div_mod::lemma_fundamental_div_mod(n as int, d as int);
    let q = n / d;
    let r = n % d;
    if n <= p * d {
        if q > p || (q == p && r > 0) {
            assert(d * q + r > p * d) by (nonlinear_arith)
                requires q > p || (q == p && r > 0), d > 0, r >= 0, q >= 0;
        }
    }
    if n >= p * d {
        if q < p {
            assert(d * q + r < p * d) by (nonlinear_arith)
                requires q < p, d > 0, r < d, q >= 0;
        }
    }
}

/// The strict forms: a numerator above `p` times the divisor gives a
/// quotient rounded up above `p`; one below gives a quotient rounded down
/// below `p`.
pub(crate) proof fn lemma_div_round_strict(n: nat, d: nat, p: nat)
    requires
        d > 0,
    ensures
        n > p * d ==> div_round(n, d, true) > p,
        n < p * d ==> div_round(n, d, false) < p,
{
    vstd::arithmetic::div_mod::lemma_fundamental_div_mod(n as int, d as int);
    let q = n / d;
    let r = n % d;
    if n > p * d {
        if q < p {
            assert(d * q + r < p * d) by (nonlinear_arith)
                requires q < p, d > 0, r < d, q >= 0;
        }
        if q == p {
            assert(r > 0) by (nonlinear_arith)
                requires q == p, n == d * q + r, n > p * d;
        }
    }
    if n < p * d {
        if q >= p {
            assert(d * q + r >= p * d) by (nonlinear_arith)
                requires q >= p, d > 0, r >= 0;
        }
    }
}

/// A swap step moves the price the way of the swap: from A to B it never
/// rises, from B to A it never falls.
pub proof fn law_next_sqrt_price_direction(
    sqrt_price: u128,
    liquidity: u128,
    amount: u64,
    amount_specified_is_input: bool,
    a_to_b: bool,
)
    ensures
        next_sqrt_price(sqrt_price, liquidity, amount, amount_specified_is_input, a_to_b) matches Ok(p) ==> (a_to_b ==> p
            <= sqrt_price) && (!a_to_b ==> p >= sqrt_price),
{
    if amount_specified_is_input == a_to_b && amount > 0 {
        let product = sqrt_price * amount;
        let shifted = liquidity * 0x1_0000_0000_0000_0000;
        let n = (liquidity * sqrt_price * 0x1_0000_0000_0000_0000) as nat;
        assert(liquidity * sqrt_price * 0x1_0000_0000_0000_0000 >= 0 && product >= 0 && shifted >= 0) by (nonlinear_arith)
            requires
                product == sqrt_price * amount,
                shifted == liquidity * 0x1_0000_0000_0000_0000,
                liquidity >= 0,
                sqrt_price >= 0,
                amount >= 0;
        if amount_specified_is_input {
            let d = (shifted + product) as nat;
            if d > 0 {
                assert(n <= sqrt_price * d) by (nonlinear_arith)
                    requires
                        n == liquidity * sqrt_price * 0x1_0000_0000_0000_0000,
                        d == liquidity * 0x1_0000_0000_0000_0000 + sqrt_price * amount,
                        sqrt_price >= 0,
                        amount >= 0;
                lemma_div_round_against(n, d, sqrt_price as nat);
            }
        } else if shifted > product {
            let d = (shifted - product) as nat;
            assert(n >= sqrt_price * d) by (nonlinear_arith)
                requires
                    n == liquidity * sqrt_price * 0x1_0000_0000_0000_0000,
                    d == liquidity * 0x1_0000_0000_0000_0000 - sqrt_price * amount,
                    sqrt_price >= 0,
                    amount >= 0;
            lemma_div_round_against(n, d, sqrt_price as nat);
            lemma_div_round_up_by_one(n, d);
        }
    }
}

} // verus!
