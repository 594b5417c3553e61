use vstd::prelude::*;

use vstd::arithmetic::power2::pow2;

use crate::pools::BASE_BPS;
use crate::u256_muldiv::{lemma_words_digits, word_base, U256Muldiv};
use crate::u64x64_math::{ONE, SCALE_OFFSET};
use crate::wide::{div_rounded, u256_checked_mul, u256_div_ceil, u256_div_rem, Rounding};

verus! {

/// `x * y / denominator` rounded as asked, when the denominator is not zero
/// and the result fits in a `u128`.
pub open spec fn spec_mul_div(x: u128, y: u128, denominator: u128, rounding: Rounding) -> Option<u128> {
    if denominator == 0 {
        None
    } else {
        let v = div_rounded(x * y, denominator as int, rounding);
        if v < word_base() * word_base() {
            Some(v as u128)
        } else {
            None
        }
    }
}

/// `(x * y) / denominator` over 256 bits; see `spec_mul_div`.
fn mul_div(x: u128, y: u128, denominator: u128, rounding: Rounding) -> (r: Option<u128>)
    ensures
        r == spec_mul_div(x, y, denominator, rounding),
{
    if denominator == 0 {
        return None;
    }
    let wx = U256Muldiv::new(0, x);
    let wy = U256Muldiv::new(0, y);
    let wd = U256Muldiv::new(0, denominator);
    proof {
        assert(x * y < 0x1_0000_0000_0000_0000_0000_0000_0000_0000_0000_0000_0000_0000_0000_0000_0000_0000) by (nonlinear_arith)
            requires x <= u128::MAX, y <= u128::MAX;
    }
    let prod = match u256_checked_mul(&wx, &wy) {
        Some(p) => p,
        None => {
            return None;
        },
    };
    let result = match rounding {
        Rounding::Up => u256_div_ceil(&prod, &wd),
        Rounding::Down => {
            let (quotient, _) = u256_div_rem(&prod, &wd);
            quotient
        },
    };
    match result.try_into_u128() {
        Ok(v) => Some(v),
        Err(_) => None,
    }
}

/// `2^offset` as a `u128`, or `None` when `offset >= 128`.
pub open spec fn pow2_u128(offset: u8) -> Option<u128> {
    if offset < 128 {
        Some(pow2(offset as nat) as u128)
    } else {
        None
    }
}

fn checked_pow2(offset: u8) -> (r: Option<u128>)
    ensures
        r == pow2_u128(offset),
{
    if offset < 128 {
        let v = 1u128 << offset;
        proof {
            vstd::arithmetic::power2::lemma_pow2_strictly_increases(offset as nat, 128);
            lemma_shl_one(offset);
        }
        Some(v)
    } else {
        None
    }
}

/// `1 << s` is `2^s` for a shift below 128.
proof fn lemma_shl_one(s: u8)
    requires
        s < 128,
    ensures
        (1u128 << s) as nat == pow2(s as nat),
    decreases s,
{
    if s == 0 {
        assert(1u128 << 0u8 == 1u128) by (bit_vector);
        vstd::arithmetic::power2::lemma2_to64();
    } else {
        lemma_shl_one((s - 1) as u8);
        assert((1u128 << s) == 2 * (1u128 << ((s - 1) as u8))) by (bit_vector)
            requires 0 < s < 128;
        vstd::arithmetic::power2::lemma_pow2_unfold(s as nat);
    }
}

/// `(x * y) >> offset`, rounded as asked; `None` for `offset >= 128` or an
/// oversized result.
fn mul_shr(x: u128, y: u128, offset: u8, rounding: Rounding) -> (r: Option<u128>)
    ensures
        r == (match pow2_u128(offset) {
            Some(d) => spec_mul_div(x, y, d, rounding),
            None => None,
        }),
{
    let denominator = checked_pow2(offset)?;
    mul_div(x, y, denominator, rounding)
}

/// `(x << offset) / y`, rounded as asked; `None` for `offset >= 128`, a zero
/// `y` or an oversized result.
fn shl_div(x: u128, y: u128, offset: u8, rounding: Rounding) -> (r: Option<u128>)
    ensures
        r == (match pow2_u128(offset) {
            Some(s) => spec_mul_div(x, s, y, rounding),
            None => None,
        }),
{
    let scale = checked_pow2(offset)?;
    mul_div(x, scale, y, rounding)
}

/// A value of `Some`, or zero.
pub open spec fn or_zero(r: Option<u128>) -> u128 {
    match r {
        Some(v) => v,
        None => 0,
    }
}

/// Q64.64 product `(a * b) >> 64`, rounded down; zero when it overflows.
pub fn q64_mul(a: u128, b: u128) -> (r: u128)
    ensures
        r == or_zero(spec_mul_div(a, b, 0x1_0000_0000_0000_0000, Rounding::Down)),
{
    proof {
        vstd::arithmetic::power2::lemma2_to64();
    }
    match mul_shr(a, b, SCALE_OFFSET, Rounding::Down) {
        Some(v) => v,
        None => 0,
    }
}

/// Q64.64 quotient `(a << 64) / b`, rounded down; zero for a zero divisor
/// or an overflow.
pub fn q64_div(a: u128, b: u128) -> (r: u128)
    ensures
        r == or_zero(spec_mul_div(a, 0x1_0000_0000_0000_0000, b, Rounding::Down)),
{
    proof {
        vstd::arithmetic::power2::lemma2_to64();
    }
    match shl_div(a, b, SCALE_OFFSET, Rounding::Down) {
        Some(v) => v,
        None => 0,
    }
}

/// A rate in parts per million as a Q64.64 fraction:
/// `bps * 2^64 / 1_000_000`, rounded down.
pub fn bps_to_q64(bps: u64) -> (r: u128)
    ensures
        r == or_zero(spec_mul_div(bps as u128, 0x1_0000_0000_0000_0000, 1_000_000, Rounding::Down)),
        r == (bps * 0x1_0000_0000_0000_0000int) / 1_000_000,
{
    let r = match mul_div(bps as u128, ONE, BASE_BPS as u128, Rounding::Down) {
        Some(v) => v,
        None => 0,
    };
    proof {
        assert((bps * 0x1_0000_0000_0000_0000int) / 1_000_000 < 0x1_0000_0000_0000_0000_0000_0000_0000_0000int) by (nonlinear_arith)
            requires bps <= u64::MAX;
    }
    r
}

/// `(x * y) >> offset` rounded as asked, zero when undefined.
pub fn safe_mul_shr_cast(x: u128, y: u128, offset: u8, rounding: Rounding) -> (r: u128)
    ensures
        r == or_zero(match pow2_u128(offset) {
            Some(d) => spec_mul_div(x, y, d, rounding),
            None => None,
        }),
{
    match mul_shr(x, y, offset, rounding) {
        Some(v) => v,
        None => 0,
    }
}

/// `(x << offset) / y` rounded as asked, zero when undefined.
pub fn safe_shl_div_cast(x: u128, y: u128, offset: u8, rounding: Rounding) -> (r: u128)
    ensures
        r == or_zero(match pow2_u128(offset) {
            Some(s) => spec_mul_div(x, s, y, rounding),
            None => None,
        }),
{
    match shl_div(x, y, offset, rounding) {
        Some(v) => v,
        None => 0,
    }
}

/// `x * y / denominator` rounded as asked, zero when undefined.
pub fn safe_mul_div_cast(x: u128, y: u128, denominator: u128, rounding: Rounding) -> (r: u128)
    ensures
        r == or_zero(spec_mul_div(x, y, denominator, rounding)),
{
    match mul_div(x, y, denominator, rounding) {
        Some(v) => v,
        None => 0,
    }
}

/// The number of significant bits of `n`: `128 - n.leading_zeros()`.
pub fn bit_length(n: u128) -> (r: u32)
    requires
        n > 0,
    ensures
        1 <= r <= 128,
        pow2((r - 1) as nat) <= n < pow2(r as nat),
{
    let mut r: u32 = 0;
    let mut m: u128 = n;
    proof {
        vstd::arithmetic::power2::lemma2_to64();
    }
    while m > 0
        invariant
            r <= 128,
            m == (n as nat) / pow2(r as nat),
            n > 0,
            r > 0 ==> n >= pow2((r - 1) as nat),
            m > 0 ==> r < 128,
        decreases m,
    {
        proof {
            vstd::arithmetic::power2::lemma_pow2_pos(r as nat);
            vstd::arithmetic::div_mod::lemma_div_denominator(n as int, pow2(r as nat) as int, 2);
            vstd::arithmetic::power2::lemma_pow2_adds(r as nat, 1);
            vstd::arithmetic::power2::lemma2_to64();
            // m >= 1 means n >= 2^r
            vstd::arithmetic::div_mod::lemma_fundamental_div_mod(n as int, pow2(r as nat) as int);
            assert(n >= pow2(r as nat)) by (nonlinear_arith)
                requires
                    m >= 1,
                    n == pow2(r as nat) * m + (n as nat) % pow2(r as nat),
                    (n as nat) % pow2(r as nat) >= 0,
            ;
            if r + 1 >= 128 {
                vstd::arithmetic::power2::lemma_pow2_strictly_increases(127, (r + 1) as nat);
                assert(pow2(128) == 0x1_0000_0000_0000_0000_0000_0000_0000_0000) by {
                    vstd::arithmetic::power2::lemma_pow2_adds(64, 64);
                }
                if r + 1 > 128 {
                    vstd::arithmetic::power2::lemma_pow2_strictly_increases(128, (r + 1) as nat);
                }
                assert((n as nat) / pow2((r + 1) as nat) == 0) by {
                    vstd::arithmetic::div_mod::lemma_basic_div(n as int, pow2((r + 1) as nat) as int);
                }
            }
        }
        m = m / 2;
        r = r + 1;
    }
    proof {
        vstd::arithmetic::power2::lemma_pow2_pos(r as nat);
        if n >= pow2(r as nat) {
            vstd::arithmetic::div_mod::lemma_div_is_ordered(pow2(r as nat) as int, n as int, pow2(r as nat) as int);
            vstd::arithmetic::div_mod::lemma_div_by_multiple(1, pow2(r as nat) as int);
        }
    }
    r
}

/// `floor(sqrt(n))` by Newton's iteration from a power of two above the root.
pub fn integer_sqrt_u128(n: u128) -> (r: u128)
    ensures
        r * r <= n < (r + 1) * (r + 1),
{
    if n == 0 {
        return 0;
    }
    if n <= 1 {
        return n;
    }
    let bits = bit_length(n);
    let e = (bits + 1) / 2;
    proof {
        vstd::arithmetic::power2::lemma_pow2_adds(e as nat, e as nat);
        vstd::arithmetic::power2::lemma_pow2_strictly_increases(e as nat, 128);
        if 2 * e > bits {
            vstd::arithmetic::power2::lemma_pow2_strictly_increases(bits as nat, 2 * e as nat);
        }
        lemma_shl_one_u32(e);
    }
    let mut x: u128 = 1u128 << e;
    proof {
        vstd::arithmetic::power2::lemma2_to64();
        vstd::arithmetic::power2::lemma_pow2_pos(e as nat);
        if e < 64 {
            vstd::arithmetic::power2::lemma_pow2_strictly_increases(e as nat, 64);
        }
        assert(x * x > n);
        assert forall|s: int| s >= 0 && #[trigger] square(s) <= n implies s <= x by {
            if s > x {
                assert(s * s > x * x) by (nonlinear_arith)
                    requires s > x, x >= 0;
            }
        }
    }
    loop
        invariant
            n >= 2,
            1 <= x <= 0x1_0000_0000_0000_0000,
            forall|s: int| s >= 0 && #[trigger] square(s) <= n ==> s <= x,
        decreases x,
    {
        proof {
            if x >= 2 {
                vstd::arithmetic::div_mod::lemma_div_is_ordered_by_denominator(n as int, 2, x as int);
            } else {
                if n >= 4 {
                    assert(square(2) <= n);
                }
            }
        }
        let y = (x + n / x) / 2;
        proof {
            lemma_newton_step(n as int, x as int);
        }
        if y >= x {
            proof {
                lemma_newton_stop(n as int, x as int);
            }
            return x;
        }
        x = y;
    }
}

/// `s * s`.
pub open spec fn square(s: int) -> int {
    s * s
}

/// `1 << e` is `2^e` for a shift below 128.
pub proof fn lemma_shl_one_u32(e: u32)
    requires
        e < 128,
    ensures
        (1u128 << e) as nat == pow2(e as nat),
{
    lemma_shl_one(e as u8);
    assert((1u128 << e) == (1u128 << (e as u8))) by (bit_vector)
        requires e < 128;
}

/// A Newton step never falls below the integer root, and moves down while
/// the guess squared exceeds `n`.
proof fn lemma_newton_step(n: int, x: int)
    requires
        n >= 2,
        x >= 1,
    ensures
        forall|s: int| s >= 0 && #[trigger] square(s) <= n ==> s <= (x + n / x) / 2,
        x * x > n ==> (x + n / x) / 2 < x,
        (x + n / x) / 2 >= 1,
{
    let q = n / x;
    vstd::arithmetic::div_mod::lemma_fundamental_div_mod(n, x);
    assert forall|s: int| s >= 0 && #[trigger] square(s) <= n implies s <= (x + n / x) / 2 by {
        if 2 * s - x > 0 {
            assert(n >= (2 * s - x) * x) by (nonlinear_arith)
                requires s * s <= n, 2 * s - x > 0, x >= 1;
            assert(q >= 2 * s - x) by (nonlinear_arith)
                requires n >= (2 * s - x) * x, n == x * q + n % x, 0 <= n % x < x, x >= 1;
        }
    }
    if x * x > n {
        assert(q < x) by (nonlinear_arith)
            requires x * x > n, n == x * q + n % x, 0 <= n % x, x >= 1;
    }
    if x == 1 {
        assert(q == n);
    } else {
        assert(x + q >= 2) by (nonlinear_arith)
            requires x >= 2, q >= 0;
    }
    assert(q >= 0) by (nonlinear_arith)
        requires n >= 0, x >= 1, n == x * q + n % x, n % x < x;
}

/// When a Newton step does not move down, the guess is the integer root.
proof fn lemma_newton_stop(n: int, x: int)
    requires
        n >= 2,
        x >= 1,
        (x + n / x) / 2 >= x,
        forall|s: int| s >= 0 && #[trigger] square(s) <= n ==> s <= x,
    ensures
        x * x <= n < (x + 1) * (x + 1),
{
    lemma_newton_step(n, x);
    if x * x > n {
        assert(false);
    }
    if (x + 1) * (x + 1) <= n {
        assert(square(x + 1) <= n);
        assert(x + 1 <= x);
    }
}


/// Whether `r` is the integer square root of `n`.
pub open spec fn is_isqrt(n: u128, r: u128) -> bool {
    r * r <= n < (r + 1) * (r + 1)
}

/// The integer square root: the `r` with `r * r <= n < (r + 1) * (r + 1)`.
pub open spec fn isqrt(n: u128) -> u128 {
    choose|r: u128| #[trigger] is_isqrt(n, r)
}

/// The integer square root is the one root that brackets `n`.
pub proof fn lemma_isqrt_unique(n: u128, r: u128)
    requires
        r * r <= n < (r + 1) * (r + 1),
    ensures
        isqrt(n) == r,
        r < 0x1_0000_0000_0000_0000,
{
    assert(is_isqrt(n, r));
    let q = isqrt(n);
    assert(q * q <= n < (q + 1) * (q + 1));
    if q < r {
        assert((q + 1) * (q + 1) <= r * r) by (nonlinear_arith)
            requires q < r, 0 <= q;
    }
    if r < q {
        assert((r + 1) * (r + 1) <= q * q) by (nonlinear_arith)
            requires r < q, 0 <= r;
    }
    if r >= 0x1_0000_0000_0000_0000 {
        assert(r * r >= 0x1_0000_0000_0000_0000 * 0x1_0000_0000_0000_0000) by (nonlinear_arith)
            requires r >= 0x1_0000_0000_0000_0000;
    }
}

} // verus!
