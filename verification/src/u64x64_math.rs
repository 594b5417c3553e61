use vstd::prelude::*;

use crate::errors::ErrorCode;

verus! {

/// Bits of fraction in a Q64.64 number.
pub const SCALE_OFFSET: u8 = 64;

/// One in Q64.64.
pub const ONE: u128 = 0x1_0000_0000_0000_0000;

/// `ceil(a / b)` over `u64`.
pub fn ceil_div(a: u64, b: u64) -> (r: u64)
    requires
        b > 0,
    ensures
        r == (a as int + b - 1) / (b as int),
{
    let q = a / b;
    proof {
        vstd::arithmetic::div_mod::lemma_fundamental_div_mod(a as int, b as int);
        assert((q + 1) * b == b * q + b) by (nonlinear_arith);
        assert(q * b == b * q) by (nonlinear_arith);
        if a % b != 0 {
            vstd::arithmetic::div_mod::lemma_fundamental_div_mod_converse(
                a as int + b - 1, b as int, q + 1, a % b - 1);
        } else {
            vstd::arithmetic::div_mod::lemma_fundamental_div_mod_converse(
                a as int + b - 1, b as int, q as int, b - 1);
        }
        if b > 1 {
            vstd::arithmetic::div_mod::lemma_div_is_ordered_by_denominator(a as int, 2, b as int);
        }
    }
    if a % b != 0 {
        q + 1
    } else {
        q
    }
}

/// `ceil(a / b)` over `u128`.
pub fn ceil_div_u128(a: u128, b: u128) -> (r: u128)
    requires
        b > 0,
    ensures
        r == (a as int + b - 1) / (b as int),
{
    let q = a / b;
    proof {
        vstd::arithmetic::div_mod::lemma_fundamental_div_mod(a as int, b as int);
        assert((q + 1) * b == b * q + b) by (nonlinear_arith);
        assert(q * b == b * q) by (nonlinear_arith);
        if a % b != 0 {
            vstd::arithmetic::div_mod::lemma_fundamental_div_mod_converse(
                a as int + b - 1, b as int, q + 1, a % b - 1);
        } else {
            vstd::arithmetic::div_mod::lemma_fundamental_div_mod_converse(
                a as int + b - 1, b as int, q as int, b - 1);
        }
        if b > 1 {
            vstd::arithmetic::div_mod::lemma_div_is_ordered_by_denominator(a as int, 2, b as int);
        }
    }
    if a % b != 0 {
        q + 1
    } else {
        q
    }
}

/// Exponents at or past this bound overflow Q64.64 bin prices.
pub const MAX_EXPONENTIAL: u32 = 0x80000;

/// One in basis points.
pub const BASIS_POINT_MAX: u64 = 10_000;

/// `x * y >> 64`, or `None` when `x * y` overflows a `u128`.
pub open spec fn q64_mul_checked(x: int, y: int) -> Option<int> {
    if x * y > u128::MAX {
        None
    } else {
        Some(x * y / 0x1_0000_0000_0000_0000)
    }
}

/// Binary exponentiation over the exponent bits from `k` up to 18: at each
/// set bit the result takes the current power, and between bits the power
/// is squared; every product is shifted back to Q64.64 and must not
/// overflow.
pub open spec fn pow_steps(result: int, squared: int, exp: u32, k: nat) -> Option<int>
    decreases 19 - k,
{
    if k >= 19 {
        Some(result)
    } else {
        let r1 = if (exp >> (k as u32)) & 1u32 == 1u32 {
            q64_mul_checked(result, squared)
        } else {
            Some(result)
        };
        match r1 {
            None => None,
            Some(r) => if k < 18 {
                match q64_mul_checked(squared, squared) {
                    None => None,
                    Some(sq) => pow_steps(r, sq, exp, k + 1),
                }
            } else {
                pow_steps(r, squared, exp, k + 1)
            },
        }
    }
}

/// `base^exp` in Q64.64: one for a zero exponent; bases of one or more are
/// inverted as `u128::MAX / base` first (and the result inverted back) so
/// that the powers shrink; `None` for an exponent magnitude of 2^19 or
/// more, an overflow, or a zero result.
pub open spec fn spec_pow(base: u128, exp: i32) -> Option<u128> {
    if exp == 0 {
        Some(0x1_0000_0000_0000_0000)
    } else {
        let e: u32 = if exp < 0 {
            (-exp) as u32
        } else {
            exp as u32
        };
        if e >= MAX_EXPONENTIAL {
            None
        } else {
            let (squared, invert) = if base >= ONE {
                (u128::MAX / base, !(exp < 0))
            } else {
                (base, exp < 0)
            };
            pow_finish(pow_steps(ONE as int, squared as int, e, 0), invert)
        }
    }
}

/// The last step of `spec_pow`: `None` for an overflow or a zero result,
/// else the result, inverted when asked.
pub open spec fn pow_finish(r: Option<int>, invert: bool) -> Option<u128> {
    match r {
        None => None,
        Some(v) => if v == 0 {
            None
        } else if invert {
            Some(((u128::MAX as int) / v) as u128)
        } else {
            Some(v as u128)
        },
    }
}

/// `base^exp` in Q64.64; see `spec_pow`.
pub fn pow(base: u128, exp: i32) -> (r: Option<u128>)
    requires
        exp != i32::MIN,
    ensures
        r == spec_pow(base, exp),
{
    let mut invert = exp < 0;
    if exp == 0 {
        return Some(0x1_0000_0000_0000_0000);
    }
    let e: u32 = if invert {
        (-exp) as u32
    } else {
        exp as u32
    };
    if e >= MAX_EXPONENTIAL {
        return None;
    }
    let mut squared_base = base;
    let mut result = ONE;
    if squared_base >= result {
        squared_base = u128::MAX / squared_base;
        invert = !invert;
    }
    let ghost sq0 = squared_base;
    let mut k: u32 = 0;
    while k < 19
        invariant
            k <= 19,
            pow_steps(ONE as int, sq0 as int, e, 0) == pow_steps(result as int, squared_base as int, e, k as nat),
            spec_pow(base, exp) == pow_finish(pow_steps(ONE as int, sq0 as int, e, 0), invert),
        decreases 19 - k,
    {
        proof {
            assert(k as nat as u32 == k);
        }
        let ghost r_before = result;
        let ghost sq_before = squared_base;
        let bit = (e >> k) & 1u32 == 1u32;
        if bit {
            result = match result.checked_mul(squared_base) {
                Some(p) => {
                    proof {
                        crate::bit_facts::lemma_shr_64(p);
                    }
                    p >> 64u32
                },
                None => {
                    proof {
                        assert(q64_mul_checked(result as int, squared_base as int) is None);
                        assert(pow_steps(result as int, squared_base as int, e, k as nat) is None);
                    }
                    return None;
                },
            };
        }
        if k < 18 {
            squared_base = match squared_base.checked_mul(squared_base) {
                Some(p) => {
                    proof {
                        crate::bit_facts::lemma_shr_64(p);
                    }
                    p >> 64u32
                },
                None => {
                    proof {
                        assert(q64_mul_checked(squared_base as int, squared_base as int) is None);
                        assert(pow_steps(r_before as int, sq_before as int, e, k as nat) is None);
                    }
                    return None;
                },
            };
        }
        k += 1;
    }
    if result == 0 {
        return None;
    }
    if invert {
        result = u128::MAX / result;
    }
    Some(result)
}

/// The fee numerator after `period` periods of exponential decay:
/// `cliff * (1 - reduction_factor / 10_000)^period`, in Q64.64 arithmetic
/// (see `spec_pow`). `MathOverflow` for a reduction above 100%, a power or
/// product that overflows, or a fee that does not fit a `u64`.
pub open spec fn fee_in_period(cliff_fee_numerator: u64, reduction_factor: u64, period: u16) -> Result<
    u64,
    ErrorCode,
> {
    if period == 0 {
        Ok(cliff_fee_numerator)
    } else {
        let bps = reduction_factor * 0x1_0000_0000_0000_0000int / 10_000;
        if bps > ONE {
            Err(ErrorCode::MathOverflow)
        } else {
            match spec_pow((ONE - bps) as u128, period as i32) {
                None => Err(ErrorCode::MathOverflow),
                Some(p) => if p * cliff_fee_numerator > u128::MAX {
                    Err(ErrorCode::MathOverflow)
                } else {
                    let fee = p * cliff_fee_numerator / 0x1_0000_0000_0000_0000int;
                    if fee > u64::MAX {
                        Err(ErrorCode::MathOverflow)
                    } else {
                        Ok(fee as u64)
                    }
                },
            }
        }
    }
}

/// The fee numerator after `period` periods of exponential decay; see
/// `fee_in_period`.
pub fn get_fee_in_period(cliff_fee_numerator: u64, reduction_factor: u64, period: u16) -> (r: Result<
    u64,
    ErrorCode,
>)
    ensures
        r == fee_in_period(cliff_fee_numerator, reduction_factor, period),
{
    if period == 0 {
        return Ok(cliff_fee_numerator);
    }
    let shifted = (reduction_factor as u128) << 64u32;
    proof {
        let x = reduction_factor as u128;
        crate::bit_facts::lemma_shl_64(x);
    }
    let bps = shifted / (BASIS_POINT_MAX as u128);
    if bps > ONE {
        return Err(ErrorCode::MathOverflow);
    }
    let base = ONE - bps;
    let result = match pow(base, period as i32) {
        Some(p) => p,
        None => {
            return Err(ErrorCode::MathOverflow);
        },
    };
    let product = match result.checked_mul(cliff_fee_numerator as u128) {
        Some(p) => p,
        None => {
            return Err(ErrorCode::MathOverflow);
        },
    };
    proof {
        crate::bit_facts::lemma_shr_64(product);
    }
    let fee = product >> 64u32;
    if fee > 0xffff_ffff_ffff_ffffu128 {
        return Err(ErrorCode::MathOverflow);
    }
    Ok(fee as u64)
}

} // verus!
