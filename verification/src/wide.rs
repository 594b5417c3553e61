use vstd::prelude::*;

use vstd::arithmetic::power2::pow2;

use crate::errors::ErrorCode;
use crate::u256_muldiv::{lemma_words_digits, u256_modulus, words_value, U256Muldiv};

verus! {

/// 2^512.
#[verifier::inline]
pub open spec fn u512_modulus() -> nat {
    u256_modulus() * u256_modulus()
}

/// A 512-bit unsigned integer held as eight little-endian 64-bit words.
#[derive(Copy, Clone, Debug)]
pub struct U512Value {
    pub limbs: [u64; 8],
}

/// The low four words of eight.
pub open spec fn low_half(l: [u64; 8]) -> [u64; 4] {
    [l[0], l[1], l[2], l[3]]
}

/// The high four words of eight.
pub open spec fn high_half(l: [u64; 8]) -> [u64; 4] {
    [l[4], l[5], l[6], l[7]]
}

impl View for U512Value {
    type V = nat;

    open spec fn view(&self) -> nat {
        words_value(low_half(self.limbs)) + u256_modulus() * words_value(high_half(self.limbs))
    }
}

/// Every 512-bit value is below 2^512.
pub proof fn lemma_u512_bound(x: U512Value)
    ensures
        x@ < u512_modulus(),
{
    lemma_words_digits(low_half(x.limbs));
    lemma_words_digits(high_half(x.limbs));
    let m = u256_modulus() as int;
    let lo = words_value(low_half(x.limbs)) as int;
    let hi = words_value(high_half(x.limbs)) as int;
    assert(lo + m * hi < m * m) by (nonlinear_arith)
        requires 0 <= lo < m, 0 <= hi < m;
}

/// A 256-bit value widened to 512 bits.
pub fn widen(x: &U256Muldiv) -> (r: U512Value)
    ensures
        r@ == x@,
{
    let r = U512Value { limbs: [x.items[0], x.items[1], x.items[2], x.items[3], 0, 0, 0, 0] };
    proof {
        assert(low_half(r.limbs) =~= x.items);
        assert(words_value(high_half(r.limbs)) == 0);
    }
    r
}

/// The value as 256 bits, or `None` when it needs more.
pub fn narrow(x: &U512Value) -> (r: Option<U256Muldiv>)
    ensures
        match r {
            Some(v) => x@ < u256_modulus() && v@ == x@,
            None => x@ >= u256_modulus(),
        },
{
    proof {
        lemma_words_digits(low_half(x.limbs));
        lemma_words_digits(high_half(x.limbs));
    }
    if x.limbs[4] != 0 || x.limbs[5] != 0 || x.limbs[6] != 0 || x.limbs[7] != 0 {
        proof {
            assert(crate::u256_muldiv::spec_num_words(high_half(x.limbs)) > 0);
            let m = u256_modulus() as int;
            let hi = words_value(high_half(x.limbs)) as int;
            let lo = words_value(low_half(x.limbs)) as int;
            assert(lo + m * hi >= m) by (nonlinear_arith)
                requires hi >= 1, lo >= 0, m > 0;
        }
        None
    } else {
        let v = U256Muldiv { items: [x.limbs[0], x.limbs[1], x.limbs[2], x.limbs[3]] };
        proof {
            assert(v.items =~= low_half(x.limbs));
            assert(words_value(high_half(x.limbs)) == 0);
        }
        Some(v)
    }
}

/// `Uint::<256, 4>::checked_mul` of ruint: the product, or `None` when it
/// reaches 2^256.
#[verifier::external_body]
pub(crate) fn u256_checked_mul(a: &U256Muldiv, b: &U256Muldiv) -> (r: Option<U256Muldiv>)
    ensures
        match r {
            Some(v) => a@ * b@ < u256_modulus() && v@ == a@ * b@,
            None => a@ * b@ >= u256_modulus(),
        },
{
    let x = ruint::aliases::U256::from_limbs(a.items);
    let y = ruint::aliases::U256::from_limbs(b.items);
    match x.checked_mul(y) {
        Some(v) => Some(U256Muldiv { items: v.into_limbs() }),
        None => None,
    }
}

/// `Uint::<256, 4>::checked_add` of ruint: the sum, or `None` when it
/// reaches 2^256.
#[verifier::external_body]
pub(crate) fn u256_checked_add(a: &U256Muldiv, b: &U256Muldiv) -> (r: Option<U256Muldiv>)
    ensures
        match r {
            Some(v) => a@ + b@ < u256_modulus() && v@ == a@ + b@,
            None => a@ + b@ >= u256_modulus(),
        },
{
    let x = ruint::aliases::U256::from_limbs(a.items);
    let y = ruint::aliases::U256::from_limbs(b.items);
    match x.checked_add(y) {
        Some(v) => Some(U256Muldiv { items: v.into_limbs() }),
        None => None,
    }
}

/// `Uint::<256, 4>::checked_sub` of ruint: the difference, or `None` when
/// `b` exceeds `a`.
#[verifier::external_body]
pub(crate) fn u256_checked_sub(a: &U256Muldiv, b: &U256Muldiv) -> (r: Option<U256Muldiv>)
    ensures
        match r {
            Some(v) => a@ >= b@ && v@ == a@ - b@,
            None => a@ < b@,
        },
{
    let x = ruint::aliases::U256::from_limbs(a.items);
    let y = ruint::aliases::U256::from_limbs(b.items);
    match x.checked_sub(y) {
        Some(v) => Some(U256Muldiv { items: v.into_limbs() }),
        None => None,
    }
}

/// `Uint::<256, 4>::checked_div` of ruint: the floor quotient, or `None`
/// for a zero divisor.
#[verifier::external_body]
pub(crate) fn u256_checked_div(a: &U256Muldiv, b: &U256Muldiv) -> (r: Option<U256Muldiv>)
    ensures
        match r {
            Some(v) => b@ != 0 && v@ == a@ / b@,
            None => b@ == 0,
        },
{
    let x = ruint::aliases::U256::from_limbs(a.items);
    let y = ruint::aliases::U256::from_limbs(b.items);
    match x.checked_div(y) {
        Some(v) => Some(U256Muldiv { items: v.into_limbs() }),
        None => None,
    }
}

/// `Uint::<256, 4>::checked_shl` of ruint: the value times `2^n`, or `None`
/// when set bits would move past the top.
#[verifier::external_body]
pub(crate) fn u256_checked_shl(a: &U256Muldiv, n: usize) -> (r: Option<U256Muldiv>)
    ensures
        match r {
            Some(v) => a@ * pow2(n as nat) < u256_modulus() && v@ == a@ * pow2(n as nat),
            None => a@ * pow2(n as nat) >= u256_modulus(),
        },
{
    let x = ruint::aliases::U256::from_limbs(a.items);
    match x.checked_shl(n) {
        Some(v) => Some(U256Muldiv { items: v.into_limbs() }),
        None => None,
    }
}

/// `Uint::<256, 4>::overflowing_shr` of ruint: the value divided by `2^n`,
/// and whether set bits were shifted out.
#[verifier::external_body]
pub(crate) fn u256_overflowing_shr(a: &U256Muldiv, n: usize) -> (r: (U256Muldiv, bool))
    ensures
        r.0@ == a@ / pow2(n as nat),
        r.1 == (a@ % pow2(n as nat) != 0),
{
    let x = ruint::aliases::U256::from_limbs(a.items);
    let (v, lost) = x.overflowing_shr(n);
    (U256Muldiv { items: v.into_limbs() }, lost)
}

/// `Uint::<256, 4>::div_rem` of ruint: the floor quotient and remainder.
/// It panics on a zero divisor, which `requires` leaves out.
#[verifier::external_body]
pub(crate) fn u256_div_rem(a: &U256Muldiv, b: &U256Muldiv) -> (r: (U256Muldiv, U256Muldiv))
    requires
        b@ != 0,
    ensures
        r.0@ == a@ / b@,
        r.1@ == a@ % b@,
{
    let x = ruint::aliases::U256::from_limbs(a.items);
    let y = ruint::aliases::U256::from_limbs(b.items);
    let (q, m) = x.div_rem(y);
    (U256Muldiv { items: q.into_limbs() }, U256Muldiv { items: m.into_limbs() })
}

/// `Uint::<256, 4>::div_ceil` of ruint: the quotient rounded up. It panics
/// on a zero divisor, which `requires` leaves out.
#[verifier::external_body]
pub(crate) fn u256_div_ceil(a: &U256Muldiv, b: &U256Muldiv) -> (r: U256Muldiv)
    requires
        b@ != 0,
    ensures
        r@ == (a@ + b@ - 1) / (b@ as int),
{
    let x = ruint::aliases::U256::from_limbs(a.items);
    let y = ruint::aliases::U256::from_limbs(b.items);
    U256Muldiv { items: x.div_ceil(y).into_limbs() }
}

/// `Uint::<512, 8>::checked_mul` of ruint: the product, or `None` when it
/// reaches 2^512.
#[verifier::external_body]
pub(crate) fn u512_checked_mul(a: &U512Value, b: &U512Value) -> (r: Option<U512Value>)
    ensures
        match r {
            Some(v) => a@ * b@ < u512_modulus() && v@ == a@ * b@,
            None => a@ * b@ >= u512_modulus(),
        },
{
    let x = ruint::aliases::U512::from_limbs(a.limbs);
    let y = ruint::aliases::U512::from_limbs(b.limbs);
    match x.checked_mul(y) {
        Some(v) => Some(U512Value { limbs: v.into_limbs() }),
        None => None,
    }
}

/// `Uint::<512, 8>::div_rem` of ruint: the floor quotient and remainder.
/// It panics on a zero divisor, which `requires` leaves out.
#[verifier::external_body]
pub(crate) fn u512_div_rem(a: &U512Value, b: &U512Value) -> (r: (U512Value, U512Value))
    requires
        b@ != 0,
    ensures
        r.0@ == a@ / b@,
        r.1@ == a@ % b@,
{
    let x = ruint::aliases::U512::from_limbs(a.limbs);
    let y = ruint::aliases::U512::from_limbs(b.limbs);
    let (q, m) = x.div_rem(y);
    (U512Value { limbs: q.into_limbs() }, U512Value { limbs: m.into_limbs() })
}

/// `Uint::<512, 8>::div_ceil` of ruint: the quotient rounded up. It panics
/// on a zero divisor, which `requires` leaves out.
#[verifier::external_body]
pub(crate) fn u512_div_ceil(a: &U512Value, b: &U512Value) -> (r: U512Value)
    requires
        b@ != 0,
    ensures
        r@ == (a@ + b@ - 1) / (b@ as int),
{
    let x = ruint::aliases::U512::from_limbs(a.limbs);
    let y = ruint::aliases::U512::from_limbs(b.limbs);
    U512Value { limbs: x.div_ceil(y).into_limbs() }
}

/// How a division rounds.
#[derive(Clone, Copy, Debug, PartialEq, Eq, Structural)]
pub enum Rounding {
    Up,
    Down,
}

/// `n / d` rounded as asked.
pub open spec fn div_rounded(n: int, d: int, rounding: Rounding) -> int {
    match rounding {
        Rounding::Up => (n + d - 1) / d,
        Rounding::Down => n / d,
    }
}

/// `x * y / denominator` over 512 bits, rounded as asked: `None` for a zero
/// denominator or a result of 256 bits or more.
pub fn mul_div_u256(x: U256Muldiv, y: U256Muldiv, denominator: U256Muldiv, rounding: Rounding) -> (r:
    Option<U256Muldiv>)
    ensures
        match r {
            Some(v) => denominator@ != 0 && div_rounded((x@ * y@) as int, denominator@ as int, rounding)
                < u256_modulus() && v@ == div_rounded((x@ * y@) as int, denominator@ as int, rounding),
            None => denominator@ == 0 || div_rounded((x@ * y@) as int, denominator@ as int, rounding)
                >= u256_modulus(),
        },
{
    if denominator.is_zero() {
        return None;
    }
    let wx = widen(&x);
    let wy = widen(&y);
    let wd = widen(&denominator);
    proof {
        lemma_words_digits(x.items);
        lemma_words_digits(y.items);
        let m = u256_modulus() as int;
        assert(x@ * y@ < m * m) by (nonlinear_arith)
            requires 0 <= x@ < m, 0 <= y@ < m;
    }
    let prod = match u512_checked_mul(&wx, &wy) {
        Some(p) => p,
        None => {
            return None;
        },
    };
    let result = match rounding {
        Rounding::Up => u512_div_ceil(&prod, &wd),
        Rounding::Down => {
            let (quotient, _) = u512_div_rem(&prod, &wd);
            quotient
        },
    };
    narrow(&result)
}

/// `a * b / c` rounded down; `CalculateOverflow` for a zero `c` and
/// `MaxTokenOverflow` for a result of 256 bits or more.
pub fn mul_div_floor_u256(a: U256Muldiv, b: U256Muldiv, c: U256Muldiv) -> (r: Result<U256Muldiv, ErrorCode>)
    ensures
        match r {
            Ok(v) => c@ != 0 && v@ == a@ * b@ / c@,
            Err(e) => (c@ == 0 && e == ErrorCode::CalculateOverflow) || (c@ != 0 && a@ * b@ / c@
                >= u256_modulus() && e == ErrorCode::MaxTokenOverflow),
        },
{
    if c.is_zero() {
        return Err(ErrorCode::CalculateOverflow);
    }
    match mul_div_u256(a, b, c, Rounding::Down) {
        Some(v) => Ok(v),
        None => Err(ErrorCode::MaxTokenOverflow),
    }
}

/// `a * b / c` rounded up; `CalculateOverflow` for a zero `c` and
/// `MaxTokenOverflow` for a result of 256 bits or more.
pub fn mul_div_ceil_u256(a: U256Muldiv, b: U256Muldiv, c: U256Muldiv) -> (r: Result<U256Muldiv, ErrorCode>)
    ensures
        match r {
            Ok(v) => c@ != 0 && v@ == (a@ * b@ + c@ - 1) / (c@ as int),
            Err(e) => (c@ == 0 && e == ErrorCode::CalculateOverflow) || (c@ != 0 && (a@ * b@ + c@
                - 1) / (c@ as int) >= u256_modulus() && e == ErrorCode::MaxTokenOverflow),
        },
{
    if c.is_zero() {
        return Err(ErrorCode::CalculateOverflow);
    }
    match mul_div_u256(a, b, c, Rounding::Up) {
        Some(v) => Ok(v),
        None => Err(ErrorCode::MaxTokenOverflow),
    }
}

/// `a / b` rounded up. The divisor must not be zero.
pub fn div_rounding_up_u256(a: U256Muldiv, b: U256Muldiv) -> (r: U256Muldiv)
    requires
        b@ != 0,
    ensures
        r@ == (a@ + b@ - 1) / (b@ as int),
{
    let (quotient, remainder) = u256_div_rem(&a, &b);
    proof {
        lemma_words_digits(a.items);
        vstd::arithmetic::div_mod::lemma_fundamental_div_mod(a@ as int, b@ as int);
        let q = a@ as int / b@ as int;
        let m = a@ as int % b@ as int;
        assert(q * b@ == b@ * q) by (nonlinear_arith);
        assert((q + 1) * b@ == b@ * q + b@) by (nonlinear_arith);
        if m == 0 {
            vstd::arithmetic::div_mod::lemma_fundamental_div_mod_converse(a@ + b@ - 1, b@ as int, q, b@ - 1);
        } else {
            vstd::arithmetic::div_mod::lemma_fundamental_div_mod_converse(a@ + b@ - 1, b@ as int, q + 1, m - 1);
            if b@ > 1 {
                vstd::arithmetic::div_mod::lemma_div_is_ordered_by_denominator(a@ as int, 2, b@ as int);
            }
            vstd::arithmetic::div_mod::lemma_small_mod((q + 1) as nat, u256_modulus());
        }
    }
    if remainder.is_zero() {
        quotient
    } else {
        quotient.add(U256Muldiv::new(0, 1))
    }
}

} // verus!
