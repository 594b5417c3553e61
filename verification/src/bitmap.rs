use vstd::prelude::*;

use vstd::arithmetic::power2::pow2;

verus! {

/// The number that little-endian 64-bit limbs stand for.
pub open spec fn limbs_value(s: Seq<u64>) -> nat
    decreases s.len(),
{
    if s.len() == 0 {
        0
    } else {
        s[0] as nat + 0x1_0000_0000_0000_0000nat * limbs_value(s.drop_first())
    }
}

/// A 1024-bit bitmap held as sixteen little-endian 64-bit limbs.
#[derive(Copy, Clone, Debug)]
pub struct U1024Value {
    pub limbs: [u64; 16],
}

impl View for U1024Value {
    type V = nat;

    open spec fn view(&self) -> nat {
        limbs_value(self.limbs@)
    }
}

/// A 512-bit bitmap held as eight little-endian 64-bit limbs.
#[derive(Copy, Clone, Debug)]
pub struct U512Bits {
    pub limbs: [u64; 8],
}

impl View for U512Bits {
    type V = nat;

    open spec fn view(&self) -> nat {
        limbs_value(self.limbs@)
    }
}

/// Whether bit `i` of `v` is set.
pub open spec fn bit_of(v: nat, i: nat) -> bool {
    (v / pow2(i)) % 2 == 1
}

/// The index of the highest set bit of a positive `v`.
pub open spec fn highest_bit(v: nat) -> nat {
    choose|k: nat| #[trigger] pow2(k) <= v && v < pow2(k + 1)
}

/// The number of leading zeros of `v` in `n` bits.
pub open spec fn leading_zeros_of(v: nat, n: nat) -> nat {
    if v == 0 {
        n
    } else {
        (n - 1 - highest_bit(v)) as nat
    }
}

/// The number of trailing zeros of `v`, or `n` for zero.
pub open spec fn trailing_zeros_of(v: nat, n: nat) -> nat {
    if v == 0 {
        n
    } else {
        choose|k: nat| v % #[trigger] pow2(k) == 0 && bit_of(v, k)
    }
}

/// `n` limbs stand for less than `2^(64 n)`.
pub proof fn lemma_limbs_bound(s: Seq<u64>)
    ensures
        limbs_value(s) < pow2(64 * s.len()),
    decreases s.len(),
{
    vstd::arithmetic::power2::lemma2_to64();
    if s.len() > 0 {
        lemma_limbs_bound(s.drop_first());
        let rest = limbs_value(s.drop_first());
        let p = pow2(64 * (s.len() - 1) as nat);
        vstd::arithmetic::power2::lemma_pow2_adds(64, 64 * (s.len() - 1) as nat);
        assert(s[0] as nat + 0x1_0000_0000_0000_0000nat * rest < 0x1_0000_0000_0000_0000nat * p) by (nonlinear_arith)
            requires s[0] < 0x1_0000_0000_0000_0000nat, rest < p;
    }
}

/// Bit `i` of `2^p` is set exactly when `i == p`.
pub proof fn lemma_bit_of_pow2(p: nat, i: nat)
    ensures
        bit_of(pow2(p), i) == (i == p),
{
    vstd::arithmetic::power2::lemma_pow2_pos(i);
    vstd::arithmetic::power2::lemma_pow2_pos(p);
    if i <= p {
        vstd::arithmetic::power2::lemma_pow2_subtracts(i, p);
        if i < p {
            vstd::arithmetic::power2::lemma_pow2_unfold((p - i) as nat);
            vstd::arithmetic::div_mod::lemma_mod_multiples_basic(pow2((p - i - 1) as nat) as int, 2);
            assert(pow2((p - i) as nat) == 2 * pow2((p - i - 1) as nat));
            assert(pow2((p - i - 1) as nat) * 2 == 2 * pow2((p - i - 1) as nat)) by (nonlinear_arith);
        } else {
            assert(pow2(0) == 1) by {
                vstd::arithmetic::power2::lemma2_to64();
            }
        }
    } else {
        vstd::arithmetic::power2::lemma_pow2_strictly_increases(p, i);
        vstd::arithmetic::div_mod::lemma_basic_div(pow2(p) as int, pow2(i) as int);
    }
}

/// A value with a set bit is not zero.
pub proof fn lemma_bit_nonzero(v: nat, i: nat)
    requires
        bit_of(v, i),
    ensures
        v != 0,
{
    vstd::arithmetic::power2::lemma_pow2_pos(i);
    if v == 0 {
        vstd::arithmetic::div_mod::lemma_basic_div(0, pow2(i) as int);
    }
}

/// A value below `2^n` with no set bit below `n` is zero.
pub proof fn lemma_no_bits_zero(v: nat, n: nat)
    requires
        v < pow2(n),
        forall|i: nat| i < n ==> !#[trigger] bit_of(v, i),
    ensures
        v == 0,
    decreases n,
{
    if n == 0 {
        vstd::arithmetic::power2::lemma2_to64();
    } else {
        let h = v / 2;
        vstd::arithmetic::power2::lemma2_to64();
        assert(!bit_of(v, 0));
        assert(v % 2 == 0);
        vstd::arithmetic::power2::lemma_pow2_unfold(n);
        assert forall|i: nat| i < (n - 1) as nat implies !#[trigger] bit_of(h, i) by {
            assert(!bit_of(v, i + 1));
            vstd::arithmetic::power2::lemma_pow2_unfold(i + 1);
            vstd::arithmetic::power2::lemma_pow2_pos(i);
            vstd::arithmetic::div_mod::lemma_div_denominator(v as int, 2, pow2(i) as int);
        }
        assert(h < pow2((n - 1) as nat));
        lemma_no_bits_zero(h, (n - 1) as nat);
    }
}

/// ruint's `Uint::<1024, 16>` shifted left (`<<`, which wraps): the value
/// times `2^shift`, modulo `2^1024`.
#[verifier::external_body]
pub(crate) fn u1024_shl(a: &U1024Value, shift: usize) -> (r: U1024Value)
    ensures
        r@ == (a@ * pow2(shift as nat)) % pow2(1024),
{
    let x = ruint::aliases::U1024::from_limbs(a.limbs);
    U1024Value { limbs: (x << shift).into_limbs() }
}

/// ruint's `Uint::<1024, 16>` shifted right (`>>`): the value divided by
/// `2^shift`.
#[verifier::external_body]
pub(crate) fn u1024_shr(a: &U1024Value, shift: usize) -> (r: U1024Value)
    ensures
        r@ == a@ / pow2(shift as nat),
{
    let x = ruint::aliases::U1024::from_limbs(a.limbs);
    U1024Value { limbs: (x >> shift).into_limbs() }
}

/// ruint's `Uint::<1024, 16>` bitwise and (`&`): each bit is set when it is
/// set in both values.
#[verifier::external_body]
pub(crate) fn u1024_bitand(a: &U1024Value, b: &U1024Value) -> (r: U1024Value)
    ensures
        forall|i: nat| i < 1024 ==> #[trigger] bit_of(r@, i) == (bit_of(a@, i) && bit_of(b@, i)),
{
    let x = ruint::aliases::U1024::from_limbs(a.limbs);
    let y = ruint::aliases::U1024::from_limbs(b.limbs);
    U1024Value { limbs: (x & y).into_limbs() }
}

/// ruint's `Uint::<1024, 16>::is_zero`.
#[verifier::external_body]
pub(crate) fn u1024_is_zero(a: &U1024Value) -> (r: bool)
    ensures
        r == (a@ == 0),
{
    ruint::aliases::U1024::from_limbs(a.limbs).is_zero()
}

/// ruint's `Uint::<1024, 16>::leading_zeros`: 1024 for zero.
#[verifier::external_body]
pub(crate) fn u1024_leading_zeros(a: &U1024Value) -> (r: usize)
    ensures
        r == leading_zeros_of(a@, 1024),
{
    ruint::aliases::U1024::from_limbs(a.limbs).leading_zeros()
}

/// ruint's `Uint::<1024, 16>::trailing_zeros`: 1024 for zero.
#[verifier::external_body]
pub(crate) fn u1024_trailing_zeros(a: &U1024Value) -> (r: usize)
    ensures
        r == trailing_zeros_of(a@, 1024),
{
    ruint::aliases::U1024::from_limbs(a.limbs).trailing_zeros()
}

/// ruint's `Uint::<512, 8>::bit`: whether bit `index` is set (false past
/// the width).
#[verifier::external_body]
pub(crate) fn u512_bit(a: &U512Bits, index: usize) -> (r: bool)
    ensures
        r == (index < 512 && bit_of(a@, index as nat)),
{
    ruint::aliases::U512::from_limbs(a.limbs).bit(index)
}

/// ruint's `Uint::<512, 8>` shifted left (`<<`, which wraps): the value
/// times `2^shift`, modulo `2^512`.
#[verifier::external_body]
pub(crate) fn u512_shl(a: &U512Bits, shift: usize) -> (r: U512Bits)
    ensures
        r@ == (a@ * pow2(shift as nat)) % pow2(512),
{
    let x = ruint::aliases::U512::from_limbs(a.limbs);
    U512Bits { limbs: (x << shift).into_limbs() }
}

/// ruint's `Uint::<512, 8>` shifted right (`>>`): the value divided by
/// `2^shift`.
#[verifier::external_body]
pub(crate) fn u512_shr(a: &U512Bits, shift: usize) -> (r: U512Bits)
    ensures
        r@ == a@ / pow2(shift as nat),
{
    let x = ruint::aliases::U512::from_limbs(a.limbs);
    U512Bits { limbs: (x >> shift).into_limbs() }
}

/// ruint's `Uint::<512, 8>::is_zero`.
#[verifier::external_body]
pub(crate) fn u512_is_zero(a: &U512Bits) -> (r: bool)
    ensures
        r == (a@ == 0),
{
    ruint::aliases::U512::from_limbs(a.limbs).is_zero()
}

/// ruint's `Uint::<512, 8>::leading_zeros`: 512 for zero.
#[verifier::external_body]
pub(crate) fn u512_leading_zeros(a: &U512Bits) -> (r: usize)
    ensures
        r == leading_zeros_of(a@, 512),
{
    ruint::aliases::U512::from_limbs(a.limbs).leading_zeros()
}

/// ruint's `Uint::<512, 8>::trailing_zeros`: 512 for zero.
#[verifier::external_body]
pub(crate) fn u512_trailing_zeros(a: &U512Bits) -> (r: usize)
    ensures
        r == trailing_zeros_of(a@, 512),
{
    ruint::aliases::U512::from_limbs(a.limbs).trailing_zeros()
}

/// Every positive value has a highest set bit.
pub proof fn lemma_highest_bit(v: nat)
    requires
        v > 0,
    ensures
        pow2(highest_bit(v)) <= v,
        v < pow2(highest_bit(v) + 1),
    decreases v,
{
    vstd::arithmetic::power2::lemma2_to64();
    if v == 1 {
        assert(pow2(0) <= v && v < pow2(0 + 1));
    } else {
        lemma_highest_bit(v / 2);
        let k = highest_bit(v / 2);
        vstd::arithmetic::power2::lemma_pow2_unfold(k + 1);
        vstd::arithmetic::power2::lemma_pow2_unfold(k + 2);
        assert(pow2(k + 1) <= v && v < pow2(k + 1 + 1));
    }
}

/// Every positive value has a lowest set bit, below which it is a multiple
/// of the power of two.
pub proof fn lemma_trailing_zeros(v: nat, n: nat)
    requires
        v > 0,
    ensures
        v % pow2(trailing_zeros_of(v, n)) == 0,
        bit_of(v, trailing_zeros_of(v, n)),
    decreases v,
{
    vstd::arithmetic::power2::lemma2_to64();
    if v % 2 == 1 {
        assert(v % pow2(0) == 0 && bit_of(v, 0));
    } else {
        lemma_trailing_zeros(v / 2, n);
        let k = trailing_zeros_of(v / 2, n);
        vstd::arithmetic::power2::lemma_pow2_unfold(k + 1);
        vstd::arithmetic::power2::lemma_pow2_pos(k);
        vstd::arithmetic::div_mod::lemma_div_denominator(v as int, 2, pow2(k) as int);
        vstd::arithmetic::div_mod::lemma_fundamental_div_mod((v / 2) as int, pow2(k) as int);
        let j = (v / 2) / pow2(k);
        assert(v == pow2(k + 1) * j) by (nonlinear_arith)
            requires v == 2 * (v / 2), v / 2 == pow2(k) * j, pow2(k + 1) == 2 * pow2(k);
        vstd::arithmetic::div_mod::lemma_mod_multiples_basic(j as int, pow2(k + 1) as int);
        assert(j * pow2(k + 1) == pow2(k + 1) * j) by (nonlinear_arith);
        assert(v % pow2(k + 1) == 0 && bit_of(v, k + 1));
    }
}

/// A value with bit `i` set is at least `2^i`.
pub proof fn lemma_bit_lower_bound(v: nat, i: nat)
    requires
        bit_of(v, i),
    ensures
        pow2(i) <= v,
{
    vstd::arithmetic::power2::lemma_pow2_pos(i);
    if v < pow2(i) {
        vstd::arithmetic::div_mod::lemma_basic_div(v as int, pow2(i) as int);
    }
}

/// `n` zero limbs stand for zero.
pub proof fn lemma_limbs_zero(s: Seq<u64>)
    requires
        forall|i: int| 0 <= i < s.len() ==> s[i] == 0,
    ensures
        limbs_value(s) == 0,
    decreases s.len(),
{
    if s.len() > 0 {
        lemma_limbs_zero(s.drop_first());
    }
}

/// The 1024-bit value one.
pub fn u1024_one() -> (r: U1024Value)
    ensures
        r@ == 1,
{
    let r = U1024Value { limbs: [1u64, 0, 0, 0, 0, 0, 0, 0, 0, 0, 0, 0, 0, 0, 0, 0] };
    proof {
        lemma_limbs_zero(r.limbs@.drop_first());
    }
    r
}

/// `2^p mod 2^n` is `2^p` below `n` and zero from `n` on.
pub proof fn lemma_pow2_mod(p: nat, n: nat)
    ensures
        p < n ==> pow2(p) % pow2(n) == pow2(p),
        p >= n ==> pow2(p) % pow2(n) == 0,
{
    vstd::arithmetic::power2::lemma_pow2_pos(n);
    if p < n {
        vstd::arithmetic::power2::lemma_pow2_strictly_increases(p, n);
        vstd::arithmetic::div_mod::lemma_small_mod(pow2(p), pow2(n));
    } else {
        vstd::arithmetic::power2::lemma_pow2_adds((p - n) as nat, n);
        vstd::arithmetic::div_mod::lemma_mod_multiples_basic(pow2((p - n) as nat) as int, pow2(n) as int);
    }
}

/// The bitwise and of a value with `2^p mod 2^n` is nonzero exactly when
/// `p < n` and bit `p` of the value is set.
pub proof fn lemma_mask_test(v: nat, mask: nat, masked: nat, p: nat, n: nat)
    requires
        mask == pow2(p) % pow2(n),
        masked < pow2(n),
        forall|i: nat| i < n ==> #[trigger] bit_of(masked, i) == (bit_of(v, i) && bit_of(mask, i)),
    ensures
        (masked != 0) == (p < n && bit_of(v, p)),
{
    lemma_pow2_mod(p, n);
    if p < n && bit_of(v, p) {
        lemma_bit_of_pow2(p, p);
        assert(bit_of(masked, p));
        lemma_bit_nonzero(masked, p);
    } else {
        assert forall|i: nat| i < n implies !#[trigger] bit_of(masked, i) by {
            if p < n {
                lemma_bit_of_pow2(p, i);
            } else {
                vstd::arithmetic::power2::lemma_pow2_pos(i);
                vstd::arithmetic::div_mod::lemma_basic_div(0, pow2(i) as int);
            }
        }
        lemma_no_bits_zero(masked, n);
    }
}

/// A value shifted left by `k` within `n` bits, when nonzero, has at most
/// `n - 1 - k` leading zeros.
pub proof fn lemma_shl_leading_zeros(v: nat, k: nat, n: nat)
    requires
        k < n,
        (v * pow2(k)) % pow2(n) != 0,
    ensures
        leading_zeros_of((v * pow2(k)) % pow2(n), n) <= n - 1 - k,
        highest_bit((v * pow2(k)) % pow2(n)) < n,
{
    let s = (v * pow2(k)) % pow2(n);
    vstd::arithmetic::power2::lemma_pow2_pos(k);
    vstd::arithmetic::power2::lemma_pow2_pos((n - k) as nat);
    vstd::arithmetic::power2::lemma_pow2_adds(k, (n - k) as nat);
    assert(v * pow2(k) == pow2(k) * v) by (nonlinear_arith);
    vstd::arithmetic::div_mod::lemma_truncate_middle(v as int, pow2(k) as int, pow2((n - k) as nat) as int);
    assert(s == pow2(k) * (v % pow2((n - k) as nat)));
    let t = v % pow2((n - k) as nat);
    assert(t >= 1) by {
        if t == 0 {
            assert(pow2(k) * t == 0) by (nonlinear_arith)
                requires t == 0;
        }
    }
    assert(s >= pow2(k)) by (nonlinear_arith)
        requires s == pow2(k) * t, t >= 1, pow2(k) > 0;
    lemma_highest_bit(s);
    let h = highest_bit(s);
    if h < k {
        vstd::arithmetic::power2::lemma_pow2_strictly_increases(h + 1, k);
    }
    vstd::arithmetic::div_mod::lemma_mod_bound(v as int * pow2(k) as int, pow2(n) as int);
    if h >= n {
        vstd::arithmetic::power2::lemma_pow2_strictly_increases(n, h);
    }
}

/// A value below `2^n` shifted right by `c`, when nonzero, has fewer than
/// `n - c` trailing zeros.
pub proof fn lemma_shr_trailing_zeros(v: nat, c: nat, n: nat)
    requires
        v < pow2(n),
        c <= n,
        v / pow2(c) != 0,
    ensures
        trailing_zeros_of(v / pow2(c), n) < n - c,
{
    let s = v / pow2(c);
    vstd::arithmetic::power2::lemma_pow2_pos(c);
    vstd::arithmetic::power2::lemma_pow2_adds(c, (n - c) as nat);
    vstd::arithmetic::div_mod::lemma_div_by_multiple_is_strongly_ordered(v as int, pow2(n) as int, pow2((n - c) as nat) as int, pow2(c) as int);
    assert(pow2(c) * pow2((n - c) as nat) == pow2((n - c) as nat) * pow2(c)) by (nonlinear_arith);
    vstd::arithmetic::div_mod::lemma_div_by_multiple(pow2((n - c) as nat) as int, pow2(c) as int);
    lemma_trailing_zeros(s, n);
    let t = trailing_zeros_of(s, n);
    lemma_bit_lower_bound(s, t);
    if t >= n - c {
        if t > n - c {
            vstd::arithmetic::power2::lemma_pow2_strictly_increases((n - c) as nat, t);
        }
    }
}

} // verus!
