use vstd::prelude::*;

use vstd::arithmetic::power2::pow2;

use crate::u256_muldiv::{
    lemma_word_pow_values, lemma_words_digits, u256_modulus, word_base, word_pow, words_value,
};

verus! {

/// The value of the lowest `i` words of `w`.
pub open spec fn prefix_value(w: [u64; 4], i: nat) -> nat
    decreases i,
{
    if i == 0 {
        0
    } else {
        prefix_value(w, (i - 1) as nat) + w[i - 1] as nat * word_pow((i - 1) as nat)
    }
}

/// One more word of prefix.
pub proof fn lemma_prefix_step(w: [u64; 4], i: nat)
    ensures
        prefix_value(w, i + 1) == prefix_value(w, i) + w[i as int] as nat * word_pow(i),
        word_pow(i + 1) == word_base() * word_pow(i),
{
    assert((i + 1 - 1) as nat == i);
}

/// The prefix only looks at the words below `i`.
pub proof fn lemma_prefix_frame(a: [u64; 4], c: [u64; 4], i: nat)
    requires
        forall|j: int| 0 <= j < i ==> a[j] == c[j],
    ensures
        prefix_value(a, i) == prefix_value(c, i),
    decreases i,
{
    if i > 0 {
        lemma_prefix_frame(a, c, (i - 1) as nat);
    }
}

/// All four words make up the whole value.
pub proof fn lemma_prefix_full(w: [u64; 4])
    ensures
        prefix_value(w, 4) == words_value(w),
{
    lemma_word_pow_values();
    reveal_with_fuel(prefix_value, 5);
    let b = word_base() as int;
    let (a0, a1, a2, a3) = (w[0] as int, w[1] as int, w[2] as int, w[3] as int);
    assert(prefix_value(w, 4) == a0 + a1 * b + a2 * (b * b) + a3 * (b * b * b));
    assert(a0 + a1 * b + a2 * (b * b) + a3 * (b * b * b) == a0 + b * (a1 + b * (a2 + b * a3)))
        by (nonlinear_arith);
}

/// The bound on a prefix.
pub proof fn lemma_prefix_bound(w: [u64; 4], i: nat)
    requires
        i <= 4,
    ensures
        prefix_value(w, i) < word_pow(i),
    decreases i,
{
    if i > 0 {
        let k = (i - 1) as nat;
        lemma_prefix_bound(w, k);
        lemma_prefix_step(w, k);
        let p = prefix_value(w, k) as int;
        let wp = word_pow(k) as int;
        let d = w[k as int] as int;
        let b = word_base() as int;
        assert(p + d * wp < b * wp) by (nonlinear_arith)
            requires
                0 <= p < wp,
                0 <= d < b,
        ;
    }
}

/// 2^64, 2^128 and 2^256 as powers of two.
pub proof fn lemma_pow2_word_values()
    ensures
        pow2(64) == word_base(),
        pow2(128) == word_base() * word_base(),
        pow2(192) == word_base() * word_base() * word_base(),
        pow2(256) == u256_modulus(),
{
    lemma_word_pow_values();
    vstd::arithmetic::power2::lemma2_to64();
    vstd::arithmetic::power2::lemma_pow2_adds(64, 64);
    vstd::arithmetic::power2::lemma_pow2_adds(128, 64);
    vstd::arithmetic::power2::lemma_pow2_adds(128, 128);
    let b: int = 0x1_0000_0000_0000_0000;
    assert(b * b * (b * b) == u256_modulus());
}

/// Distributing a factor over one digit step.
pub proof fn lemma_distrib_step(x: int, c: int, b: int, p: int)
    by (nonlinear_arith)
    ensures
        (x + b * c) * p == x * p + b * (c * p),
{
}

/// Distributing a factor over a four-digit number.
pub proof fn lemma_distrib4(x0: int, x1: int, x2: int, x3: int, b: int, p: int)
    ensures
        (x0 + b * (x1 + b * (x2 + b * x3))) * p == x0 * p + b * (x1 * p + b * (x2 * p + b * (x3
            * p))),
{
    lemma_distrib_step(x2, x3, b, p);
    lemma_distrib_step(x1, x2 + b * x3, b, p);
    lemma_distrib_step(x0, x1 + b * (x2 + b * x3), b, p);
}

/// `(q + m pu) p == q p + m b` when `pu p == b`.
pub proof fn lemma_shr_digit(q: int, m: int, pu: int, p: int, b: int)
    by (nonlinear_arith)
    requires
        p * pu == b,
    ensures
        (q + m * pu) * p == q * p + m * b,
{
}

/// `word_pow(k)` is `2^(64 k)`.
pub proof fn lemma_word_pow_is_pow2(k: nat)
    ensures
        word_pow(k) == pow2(64 * k),
    decreases k,
{
    if k == 0 {
        vstd::arithmetic::power2::lemma2_to64();
    } else {
        lemma_word_pow_is_pow2((k - 1) as nat);
        lemma_pow2_word_values();
        vstd::arithmetic::power2::lemma_pow2_adds(64, 64 * (k - 1) as nat);
        assert(64 + 64 * (k - 1) as nat == 64 * k);
    }
}

/// A word shifted left by `t` bits splits into the low word that stays and
/// the high bits that move to the next word.
pub proof fn lemma_word_shl_split(w: u64, t: u64)
    requires
        0 < t < 64,
    ensures
        (w >> ((64 - t) as u64)) as nat == w as nat / pow2((64 - t) as nat),
        w as nat * pow2(t as nat) == (w << t) as nat + (w >> ((64 - t) as u64)) as nat
            * word_base(),
{
    let u = (64 - t) as u64;
    let hi = w >> u;
    vstd::bits::lemma_u64_shr_is_div(w, u);
    vstd::arithmetic::power2::lemma_pow2_pos(u as nat);
    vstd::arithmetic::power2::lemma_pow2_pos(t as nat);
    vstd::arithmetic::power2::lemma_pow2_adds(u as nat, t as nat);
    lemma_pow2_word_values();
    let pu = pow2(u as nat) as int;
    let pt = pow2(t as nat) as int;
    assert(pu * pt == word_base());
    vstd::arithmetic::div_mod::lemma_fundamental_div_mod(w as int, pu);
    let m = (w as int) % pu;
    assert(hi as int * pu <= w as int) by (nonlinear_arith)
        requires
            hi as int == (w as int) / pu,
            w as int == pu * ((w as int) / pu) + (w as int) % pu,
            (w as int) % pu >= 0,
    ;
    vstd::bits::lemma_u64_shl_is_mul(hi, u);
    assert(((w & (0xffff_ffff_ffff_ffffu64 >> t)) + ((w >> u) << u)) as int == w as int)
        by (bit_vector)
        requires
            0 < t < 64,
            u == 64 - t,
    ;
    assert((w << t) == ((w & (0xffff_ffff_ffff_ffffu64 >> t)) << t)) by (bit_vector)
        requires
            0 < t < 64,
    ;
    let mw = w & (0xffff_ffff_ffff_ffffu64 >> t);
    assert(mw as int == m);
    assert(m * pt < word_base()) by (nonlinear_arith)
        requires
            0 <= m < pu,
            pt > 0,
            pu * pt == word_base(),
    ;
    vstd::bits::lemma_u64_shl_is_mul(mw, t);
    assert(w as int * pt == (w << t) as int + hi as int * word_base()) by (nonlinear_arith)
        requires
            w as int == pu * hi + m,
            (w << t) as int == m * pt,
            pu * pt == word_base(),
    ;
}

/// A word shifted right by `s` bits, with the low bits of the next word
/// moved in above it.
pub proof fn lemma_word_shr_parts(x: u64, y: u64, s: u64)
    requires
        0 < s < 64,
    ensures
        (x >> s) as nat == x as nat / pow2(s as nat),
        (y << ((64 - s) as u64)) as nat == (y as nat % pow2(s as nat)) * pow2((64 - s) as nat),
        ((x >> s) | (y << ((64 - s) as u64))) as nat == (x >> s) as nat + (y << ((64 - s) as u64)) as nat,
        (x as nat / pow2(s as nat)) < pow2((64 - s) as nat),
{
    let u = (64 - s) as u64;
    vstd::bits::lemma_u64_shr_is_div(x, s);
    vstd::bits::lemma_u64_shr_is_div(y, s);
    lemma_word_shl_split(y, u);
    assert((64 - u) as u64 == s);
    vstd::arithmetic::power2::lemma_pow2_pos(u as nat);
    vstd::arithmetic::power2::lemma_pow2_pos(s as nat);
    vstd::arithmetic::power2::lemma_pow2_adds(s as nat, u as nat);
    lemma_pow2_word_values();
    let ps = pow2(s as nat) as int;
    let pu = pow2(u as nat) as int;
    vstd::arithmetic::div_mod::lemma_fundamental_div_mod(y as int, ps);
    assert((y << u) as int == ((y as int) % ps) * pu) by (nonlinear_arith)
        requires
            y as int * pu == (y << u) as int + ((y as int) / ps) * word_base(),
            y as int == ps * ((y as int) / ps) + (y as int) % ps,
            ps * pu == word_base(),
    ;
    assert(((x >> s) | (y << u)) as int == (x >> s) as int + (y << u) as int) by (bit_vector)
        requires
            0 < s < 64,
            u == 64 - s,
    ;
    assert((x >> s) < (1u64 << u)) by (bit_vector)
        requires
            0 < s < 64,
            u == 64 - s,
    ;
    vstd::bits::lemma_u64_pow2_no_overflow(u as nat);
    vstd::bits::lemma_u64_shl_is_mul(1u64, u);
}

/// Left shift of four words by `s` bits, the top bits dropped.
pub proof fn lemma_shl_bits_value(w: [u64; 4], r: [u64; 4], s: u64)
    requires
        0 < s < 64,
        r[0] == w[0] << s,
        r[1] == (w[1] << s) | (w[0] >> ((64 - s) as u64)),
        r[2] == (w[2] << s) | (w[1] >> ((64 - s) as u64)),
        r[3] == (w[3] << s) | (w[2] >> ((64 - s) as u64)),
    ensures
        words_value(r) == (words_value(w) * pow2(s as nat)) % u256_modulus(),
{
    let u = (64 - s) as u64;
    lemma_word_shl_split(w[0], s);
    lemma_word_shl_split(w[1], s);
    lemma_word_shl_split(w[2], s);
    lemma_word_shl_split(w[3], s);
    let x0 = w[0];
    let x1 = w[1];
    let x2 = w[2];
    let x3 = w[3];
    assert(((x1 << s) | (x0 >> u)) as int == (x1 << s) as int + (x0 >> u) as int) by (bit_vector)
        requires
            0 < s < 64,
            u == 64 - s,
    ;
    assert(((x2 << s) | (x1 >> u)) as int == (x2 << s) as int + (x1 >> u) as int) by (bit_vector)
        requires
            0 < s < 64,
            u == 64 - s,
    ;
    assert(((x3 << s) | (x2 >> u)) as int == (x3 << s) as int + (x2 >> u) as int) by (bit_vector)
        requires
            0 < s < 64,
            u == 64 - s,
    ;
    lemma_word_pow_values();
    lemma_words_digits(r);
    let b = word_base() as int;
    let p = pow2(s as nat) as int;
    let (l0, l1, l2, l3) = ((x0 << s) as int, (x1 << s) as int, (x2 << s) as int, (x3 << s) as int);
    let (h0, h1, h2, h3) = ((x0 >> u) as int, (x1 >> u) as int, (x2 >> u) as int, (x3 >> u) as int);
    let v = words_value(w) as int;
    let rv = words_value(r) as int;
    assert(v == x0 + b * (x1 + b * (x2 + b * x3)));
    assert(rv == l0 + b * ((l1 + h0) + b * ((l2 + h1) + b * (l3 + h2))));
    let bl: int = 0x1_0000_0000_0000_0000;
    assert(b == bl);
    lemma_distrib4(x0 as int, x1 as int, x2 as int, x3 as int, bl, p);
    let (y0, y1, y2, y3) = (x0 * p, x1 * p, x2 * p, x3 * p);
    assert(v * p == y0 + bl * (y1 + bl * (y2 + bl * y3)));
    assert(v * p == rv + h3 * u256_modulus()) by (nonlinear_arith)
        requires
            v * p == y0 + 0x1_0000_0000_0000_0000 * (y1 + 0x1_0000_0000_0000_0000 * (y2 + 0x1_0000_0000_0000_0000 * y3)),
            y0 == l0 + h0 * 0x1_0000_0000_0000_0000,
            y1 == l1 + h1 * 0x1_0000_0000_0000_0000,
            y2 == l2 + h2 * 0x1_0000_0000_0000_0000,
            y3 == l3 + h3 * 0x1_0000_0000_0000_0000,
            rv == l0 + 0x1_0000_0000_0000_0000 * ((l1 + h0) + 0x1_0000_0000_0000_0000 * ((l2 + h1) + 0x1_0000_0000_0000_0000 * (l3 + h2))),
    ;
    vstd::arithmetic::div_mod::lemma_fundamental_div_mod_converse(
        v * p,
        u256_modulus() as int,
        h3,
        rv,
    );
}

/// Right shift of four words by `s` bits.
pub proof fn lemma_shr_bits_value(w: [u64; 4], r: [u64; 4], s: u64)
    requires
        0 < s < 64,
        r[0] == (w[0] >> s) | (w[1] << ((64 - s) as u64)),
        r[1] == (w[1] >> s) | (w[2] << ((64 - s) as u64)),
        r[2] == (w[2] >> s) | (w[3] << ((64 - s) as u64)),
        r[3] == w[3] >> s,
    ensures
        words_value(r) == words_value(w) / pow2(s as nat),
{
    let u = (64 - s) as u64;
    lemma_word_shr_parts(w[0], w[1], s);
    lemma_word_shr_parts(w[1], w[2], s);
    lemma_word_shr_parts(w[2], w[3], s);
    lemma_word_shr_parts(w[3], w[3], s);
    vstd::arithmetic::power2::lemma_pow2_pos(s as nat);
    vstd::arithmetic::power2::lemma_pow2_adds(s as nat, u as nat);
    lemma_pow2_word_values();
    let b = word_base() as int;
    let p = pow2(s as nat) as int;
    let pu = pow2(u as nat) as int;
    let (x0, x1, x2, x3) = (w[0] as int, w[1] as int, w[2] as int, w[3] as int);
    vstd::arithmetic::div_mod::lemma_fundamental_div_mod(x0, p);
    vstd::arithmetic::div_mod::lemma_fundamental_div_mod(x1, p);
    vstd::arithmetic::div_mod::lemma_fundamental_div_mod(x2, p);
    vstd::arithmetic::div_mod::lemma_fundamental_div_mod(x3, p);
    let (q0, q1, q2, q3) = (x0 / p, x1 / p, x2 / p, x3 / p);
    let (m0, m1, m2, m3) = (x0 % p, x1 % p, x2 % p, x3 % p);
    let v = words_value(w) as int;
    let rv = words_value(r) as int;
    assert(v == x0 + b * (x1 + b * (x2 + b * x3)));
    assert(rv == (q0 + m1 * pu) + b * ((q1 + m2 * pu) + b * ((q2 + m3 * pu) + b * q3)));
    let bl: int = 0x1_0000_0000_0000_0000;
    assert(b == bl);
    lemma_distrib4(q0 + m1 * pu, q1 + m2 * pu, q2 + m3 * pu, q3, bl, p);
    lemma_shr_digit(q0, m1, pu, p, b);
    lemma_shr_digit(q1, m2, pu, p, b);
    lemma_shr_digit(q2, m3, pu, p, b);
    vstd::arithmetic::mul::lemma_mul_is_commutative(p, q0);
    vstd::arithmetic::mul::lemma_mul_is_commutative(p, q1);
    vstd::arithmetic::mul::lemma_mul_is_commutative(p, q2);
    vstd::arithmetic::mul::lemma_mul_is_commutative(p, q3);
    let (z0, z1, z2, z3) = ((q0 + m1 * pu) * p, (q1 + m2 * pu) * p, (q2 + m3 * pu) * p, q3 * p);
    assert(rv * p == z0 + bl * (z1 + bl * (z2 + bl * z3)));
    assert(v == rv * p + m0) by (nonlinear_arith)
        requires
            rv * p == z0 + 0x1_0000_0000_0000_0000 * (z1 + 0x1_0000_0000_0000_0000 * (z2 + 0x1_0000_0000_0000_0000 * z3)),
            z0 == q0 * p + m1 * 0x1_0000_0000_0000_0000,
            z1 == q1 * p + m2 * 0x1_0000_0000_0000_0000,
            z2 == q2 * p + m3 * 0x1_0000_0000_0000_0000,
            z3 == q3 * p,
            v == x0 + 0x1_0000_0000_0000_0000 * (x1 + 0x1_0000_0000_0000_0000 * (x2 + 0x1_0000_0000_0000_0000 * x3)),
            x0 == q0 * p + m0,
            x1 == q1 * p + m1,
            x2 == q2 * p + m2,
            x3 == q3 * p + m3,
    ;
    vstd::arithmetic::div_mod::lemma_fundamental_div_mod_converse(v, p, rv, m0);
}

/// One column of an addition with carry.
pub proof fn lemma_add_column(
    r0: [u64; 4],
    r1: [u64; 4],
    a: [u64; 4],
    c: [u64; 4],
    i: nat,
    carry: int,
    t: int,
)
    requires
        i < 4,
        prefix_value(r0, i) + carry * word_pow(i) == prefix_value(a, i) + prefix_value(c, i),
        t == a[i as int] + c[i as int] + carry,
        t >= 0,
        r1[i as int] == t % (word_base() as int),
        forall|j: int| 0 <= j < i ==> r1[j] == r0[j],
    ensures
        prefix_value(r1, i + 1) + (t / (word_base() as int)) * word_pow(i + 1) == prefix_value(a, i + 1)
            + prefix_value(c, i + 1),
{
    lemma_prefix_frame(r0, r1, i);
    lemma_prefix_step(r1, i);
    lemma_prefix_step(a, i);
    lemma_prefix_step(c, i);
    let wp = word_pow(i) as int;
    vstd::arithmetic::div_mod::lemma_fundamental_div_mod(t, word_base() as int);
    let (q, m) = (t / 0x1_0000_0000_0000_0000, t % 0x1_0000_0000_0000_0000);
    assert(t * wp == m * wp + q * (0x1_0000_0000_0000_0000 * wp)) by (nonlinear_arith)
        requires
            t == 0x1_0000_0000_0000_0000 * q + m,
    ;
    assert((a[i as int] + c[i as int] + carry) * wp == a[i as int] * wp + c[i as int] * wp + carry * wp)
        by (nonlinear_arith);
}

/// One column of a subtraction with borrow.
pub proof fn lemma_sub_column(
    r0: [u64; 4],
    r1: [u64; 4],
    a: [u64; 4],
    c: [u64; 4],
    i: nat,
    borrow: int,
    nb: int,
)
    requires
        i < 4,
        prefix_value(r0, i) == prefix_value(a, i) - prefix_value(c, i) + borrow * word_pow(i),
        r1[i as int] == a[i as int] - c[i as int] - borrow + nb * word_base(),
        forall|j: int| 0 <= j < i ==> r1[j] == r0[j],
    ensures
        prefix_value(r1, i + 1) == prefix_value(a, i + 1) - prefix_value(c, i + 1) + nb * word_pow(
            i + 1,
        ),
{
    lemma_prefix_frame(r0, r1, i);
    lemma_prefix_step(r1, i);
    lemma_prefix_step(a, i);
    lemma_prefix_step(c, i);
    let wp = word_pow(i) as int;
    let (x, y) = (a[i as int] as int, c[i as int] as int);
    assert((x - y - borrow + nb * 0x1_0000_0000_0000_0000) * wp == x * wp - y * wp - borrow * wp + nb * (0x1_0000_0000_0000_0000 * wp))
        by (nonlinear_arith);
}

/// Multiplying by `2^d` and then by `2^e`, both modulo 2^256, is
/// multiplying by `2^(d + e)`.
pub proof fn lemma_mod_mul_pow2(v: nat, d: nat, e: nat)
    ensures
        ((v * pow2(d)) % u256_modulus()) * pow2(e) % u256_modulus() == (v * pow2(d + e))
            % u256_modulus(),
{
    let m = u256_modulus() as int;
    vstd::arithmetic::div_mod::lemma_mul_mod_noop_left((v * pow2(d)) as int, pow2(e) as int, m);
    vstd::arithmetic::mul::lemma_mul_is_associative(v as int, pow2(d) as int, pow2(e) as int);
    vstd::arithmetic::power2::lemma_pow2_adds(d, e);
}

/// A shift of 256 bits or more leaves nothing modulo 2^256.
pub proof fn lemma_shl_overflow(v: nat, n: nat)
    requires
        n >= 256,
    ensures
        (v * pow2(n)) % u256_modulus() == 0,
{
    lemma_pow2_word_values();
    vstd::arithmetic::power2::lemma_pow2_adds(256, (n - 256) as nat);
    assert(256 + (n - 256) as nat == n);
    vstd::arithmetic::mul::lemma_mul_is_associative(
        v as int,
        pow2((n - 256) as nat) as int,
        u256_modulus() as int,
    );
    vstd::arithmetic::mul::lemma_mul_is_commutative(
        pow2((n - 256) as nat) as int,
        u256_modulus() as int,
    );
    vstd::arithmetic::div_mod::lemma_mod_multiples_basic(
        (v * pow2((n - 256) as nat)) as int,
        u256_modulus() as int,
    );
}

/// Dividing by `2^d` and then by `2^e` is dividing by `2^(d + e)`.
pub proof fn lemma_div_pow2_twice(v: nat, d: nat, e: nat)
    ensures
        v / pow2(d) / pow2(e) == v / pow2(d + e),
{
    vstd::arithmetic::power2::lemma_pow2_pos(d);
    vstd::arithmetic::power2::lemma_pow2_pos(e);
    vstd::arithmetic::power2::lemma_pow2_adds(d, e);
    vstd::arithmetic::div_mod::lemma_div_denominator(v as int, pow2(d) as int, pow2(e) as int);
}

/// A number below 2^256 divided by `2^n` with `n >= 256` is zero.
pub proof fn lemma_shr_overflow(v: nat, n: nat)
    requires
        n >= 256,
        v < u256_modulus(),
    ensures
        v / pow2(n) == 0,
{
    lemma_pow2_word_values();
    if n > 256 {
        vstd::arithmetic::power2::lemma_pow2_strictly_increases(256, n);
    }
    vstd::arithmetic::div_mod::lemma_basic_div(v as int, pow2(n) as int);
}

/// `B^x B^y == B^(x + y)` for the word base `B`.
pub proof fn lemma_word_pow_adds(x: nat, y: nat)
    ensures
        word_pow(x) * word_pow(y) == word_pow(x + y),
    decreases x,
{
    if x > 0 {
        lemma_word_pow_adds((x - 1) as nat, y);
        assert((x + y - 1) as nat == (x - 1) as nat + y);
        let (wx, wx1, wy, wxy, wxy1) = (
            word_pow(x) as int,
            word_pow((x - 1) as nat) as int,
            word_pow(y) as int,
            word_pow(x + y) as int,
            word_pow((x + y - 1) as nat) as int,
        );
        assert(wx == word_base() * wx1);
        assert(wxy == word_base() * wxy1);
        assert(wx * wy == wxy) by (nonlinear_arith)
            requires
                wx == word_base() * wx1,
                wxy == word_base() * wxy1,
                wx1 * wy == wxy1,
        ;
    } else {
        assert(word_pow(0) == 1);
        assert(x + y == y);
    }
}

/// Word powers grow with the exponent.
pub proof fn lemma_word_pow_mono(x: nat, y: nat)
    requires
        x <= y,
    ensures
        1 <= word_pow(x) <= word_pow(y),
    decreases y,
{
    if y > x {
        lemma_word_pow_mono(x, (y - 1) as nat);
    } else if x > 0 {
        lemma_word_pow_mono(0, (x - 1) as nat);
    }
}

/// Words at or above `p` are zero when the value is below `B^p`.
pub proof fn lemma_high_words_zero(w: [u64; 4], p: nat)
    requires
        p <= 4,
        words_value(w) < word_pow(p),
    ensures
        forall|q: int| p <= q < 4 ==> w[q] == 0,
{
    lemma_words_digits(w);
    assert forall|q: int| p <= q < 4 implies w[q] == 0 by {
        if w[q] != 0 {
            assert(crate::u256_muldiv::spec_num_words(w) >= q + 1);
            lemma_word_pow_mono(p, (crate::u256_muldiv::spec_num_words(w) - 1) as nat);
        }
    }
}

/// The prefix up to the number of significant words is the whole value.
pub proof fn lemma_prefix_num_words(w: [u64; 4])
    ensures
        prefix_value(w, crate::u256_muldiv::spec_num_words(w)) == words_value(w),
{
    lemma_prefix_full(w);
    let n = crate::u256_muldiv::spec_num_words(w);
    lemma_prefix_step(w, 3);
    lemma_prefix_step(w, 2);
    lemma_prefix_step(w, 1);
    lemma_prefix_step(w, 0);
    if n < 4 {
        assert(w[3] == 0);
        assert(prefix_value(w, 4) == prefix_value(w, 3));
    }
    if n < 3 {
        assert(w[2] == 0);
        assert(prefix_value(w, 3) == prefix_value(w, 2));
    }
    if n < 2 {
        assert(w[1] == 0);
        assert(prefix_value(w, 2) == prefix_value(w, 1));
    }
    if n < 1 {
        assert(w[0] == 0);
        assert(prefix_value(w, 1) == prefix_value(w, 0));
    }
}

/// Replacing one word changes the value by the difference at that word's weight.
pub proof fn lemma_update_word_value(r0: [u64; 4], r1: [u64; 4], p: int, v: u64)
    requires
        0 <= p < 4,
        r1[p] == v,
        forall|q: int| 0 <= q < 4 && q != p ==> r1[q] == r0[q],
    ensures
        words_value(r1) + r0[p] * word_pow(p as nat) == words_value(r0) + v * word_pow(p as nat),
{
    lemma_word_pow_values();
    let (a0, a1, a2, a3) = (r0[0] as int, r0[1] as int, r0[2] as int, r0[3] as int);
    let (c0, c1, c2, c3) = (r1[0] as int, r1[1] as int, r1[2] as int, r1[3] as int);
    let (v0, v1) = (words_value(r0) as int, words_value(r1) as int);
    let vv = v as int;
    let w = word_pow(p as nat) as int;
    if p == 0 {
        assert(v1 + a0 * w == v0 + vv * w) by (nonlinear_arith)
            requires
                v0 == a0 + 0x1_0000_0000_0000_0000 * (a1 + 0x1_0000_0000_0000_0000 * (a2 + 0x1_0000_0000_0000_0000 * a3)),
                v1 == c0 + 0x1_0000_0000_0000_0000 * (c1 + 0x1_0000_0000_0000_0000 * (c2 + 0x1_0000_0000_0000_0000 * c3)),
                c0 == vv, c1 == a1, c2 == a2, c3 == a3, w == 1;
    } else if p == 1 {
        assert(v1 + a1 * w == v0 + vv * w) by (nonlinear_arith)
            requires
                v0 == a0 + 0x1_0000_0000_0000_0000 * (a1 + 0x1_0000_0000_0000_0000 * (a2 + 0x1_0000_0000_0000_0000 * a3)),
                v1 == c0 + 0x1_0000_0000_0000_0000 * (c1 + 0x1_0000_0000_0000_0000 * (c2 + 0x1_0000_0000_0000_0000 * c3)),
                c0 == a0, c1 == vv, c2 == a2, c3 == a3, w == 0x1_0000_0000_0000_0000;
    } else if p == 2 {
        assert(v1 + a2 * w == v0 + vv * w) by (nonlinear_arith)
            requires
                v0 == a0 + 0x1_0000_0000_0000_0000 * (a1 + 0x1_0000_0000_0000_0000 * (a2 + 0x1_0000_0000_0000_0000 * a3)),
                v1 == c0 + 0x1_0000_0000_0000_0000 * (c1 + 0x1_0000_0000_0000_0000 * (c2 + 0x1_0000_0000_0000_0000 * c3)),
                c0 == a0, c1 == a1, c2 == vv, c3 == a3, w == 0x1_0000_0000_0000_0000 * 0x1_0000_0000_0000_0000;
    } else {
        assert(v1 + a3 * w == v0 + vv * w) by (nonlinear_arith)
            requires
                v0 == a0 + 0x1_0000_0000_0000_0000 * (a1 + 0x1_0000_0000_0000_0000 * (a2 + 0x1_0000_0000_0000_0000 * a3)),
                v1 == c0 + 0x1_0000_0000_0000_0000 * (c1 + 0x1_0000_0000_0000_0000 * (c2 + 0x1_0000_0000_0000_0000 * c3)),
                c0 == a0, c1 == a1, c2 == a2, c3 == vv, w == 0x1_0000_0000_0000_0000 * 0x1_0000_0000_0000_0000 * 0x1_0000_0000_0000_0000;
    }
}

/// The weight of the running carry of a multiplication row: zero once the
/// carry would fall past the top word.
pub open spec fn carry_weight(e: nat) -> nat {
    if e < 4 {
        word_pow(e)
    } else {
        0
    }
}

/// One multiply-accumulate step of a multiplication row, at a word that
/// exists.
pub proof fn lemma_mul_column(
    r0: [u64; 4],
    r1: [u64; 4],
    rs: int,
    a: [u64; 4],
    i: nat,
    j: nat,
    y: int,
    k: int,
    extra: int,
    t: int,
)
    requires
        i + j < 4,
        i < 4,
        0 <= y,
        0 <= k,
        words_value(r0) + k * carry_weight(i + j) + extra * u256_modulus() == rs + prefix_value(
            a,
            i,
        ) * y * word_pow(j),
        t == a[i as int] * y + r0[(i + j) as int] + k,
        r1[(i + j) as int] == t % (word_base() as int),
        forall|q: int| 0 <= q < 4 && q != i + j ==> r1[q] == r0[q],
    ensures
        words_value(r1) + (t / (word_base() as int)) * carry_weight(i + j + 1) + (if i + j + 1 == 4 {
            extra + t / (word_base() as int)
        } else {
            extra
        }) * u256_modulus() == rs + prefix_value(a, i + 1) * y * word_pow(j),
{
    let e = i + j;
    lemma_update_word_value(r0, r1, e as int, (t % (word_base() as int)) as u64);
    lemma_prefix_step(a, i);
    lemma_prefix_step(r0, e);
    lemma_word_pow_adds(i, j);
    lemma_word_pow_values();
    let w = word_pow(e) as int;
    let wpi = word_pow(i) as int;
    let wpj = word_pow(j) as int;
    let pa = prefix_value(a, i) as int;
    let x = a[i as int] as int;
    let z = r0[e as int] as int;
    vstd::arithmetic::div_mod::lemma_fundamental_div_mod(t, 0x1_0000_0000_0000_0000);
    let q = t / 0x1_0000_0000_0000_0000;
    let m = t % 0x1_0000_0000_0000_0000;
    assert(m * w + q * (0x1_0000_0000_0000_0000 * w) == t * w) by (nonlinear_arith)
        requires
            t == 0x1_0000_0000_0000_0000 * q + m,
    ;
    assert(t * w == x * y * w + z * w + k * w) by (nonlinear_arith)
        requires
            t == x * y + z + k,
    ;
    assert((pa + x * wpi) * y * wpj == pa * y * wpj + x * y * (wpi * wpj)) by (nonlinear_arith);
    assert(word_pow(e + 1) == 0x1_0000_0000_0000_0000 * w);
    assert(carry_weight(e) == w);
    let (v0, v1) = (words_value(r0) as int, words_value(r1) as int);
    assert(v1 + z * w == v0 + m * w);
    let rhs = rs + (pa + x * wpi) * y * wpj;
    let we1 = word_pow(e + 1) as int;
    assert(v1 + q * we1 + extra * u256_modulus() == rhs) by (nonlinear_arith)
        requires
            v1 + z * w == v0 + m * w,
            v0 + k * w + extra * u256_modulus() == rs + pa * y * wpj,
            m * w + q * (0x1_0000_0000_0000_0000 * w) == t * w,
            t * w == x * y * w + z * w + k * w,
            (pa + x * wpi) * y * wpj == pa * y * wpj + x * y * (wpi * wpj),
            wpi * wpj == w,
            we1 == 0x1_0000_0000_0000_0000 * w,
            rhs == rs + (pa + x * wpi) * y * wpj,
    ;
    assert(prefix_value(a, i + 1) * y * word_pow(j) == rhs - rs);
    assert(t / (word_base() as int) == q);
    if e + 1 == 4 {
        assert(word_pow(e + 1) == u256_modulus());
        assert(carry_weight(e + 1) == 0);
        assert(q * we1 == q * u256_modulus());
        assert(v1 + q * 0 + (extra + q) * u256_modulus() == rhs);
    } else {
        assert(carry_weight(e + 1) == word_pow(e + 1));
    }
}

/// A multiply step whose product falls wholly past the top word.
pub proof fn lemma_mul_column_dropped(a: [u64; 4], i: nat, j: nat, y: int)
    requires
        i + j >= 4,
    ensures
        prefix_value(a, i + 1) * y * word_pow(j) == prefix_value(a, i) * y * word_pow(j) + (a[i as int]
            * y * word_pow((i + j - 4) as nat)) * u256_modulus(),
{
    lemma_prefix_step(a, i);
    lemma_word_pow_adds(i, j);
    lemma_word_pow_adds(4, (i + j - 4) as nat);
    lemma_word_pow_values();
    assert(4 + (i + j - 4) as nat == i + j);
    let wpi = word_pow(i) as int;
    let wpj = word_pow(j) as int;
    let pa = prefix_value(a, i) as int;
    let x = a[i as int] as int;
    let w4 = word_pow((i + j - 4) as nat) as int;
    assert((pa + x * wpi) * y * wpj == pa * y * wpj + x * y * (wpi * wpj)) by (nonlinear_arith);
    assert(x * y * (u256_modulus() * w4) == (x * y * w4) * u256_modulus()) by (nonlinear_arith);
}

/// Closing a multiplication row: the row's value joins the accumulated
/// product modulo 2^256.
pub proof fn lemma_mul_row_done(
    res: nat,
    start: nat,
    a: nat,
    pb: nat,
    bj: nat,
    wj: nat,
    extra: int,
)
    requires
        res < u256_modulus(),
        start == (a * pb) % u256_modulus(),
        res + extra * u256_modulus() == start + a * bj * wj,
    ensures
        res == (a * (pb + bj * wj)) % u256_modulus(),
{
    let m = u256_modulus() as int;
    vstd::arithmetic::div_mod::lemma_fundamental_div_mod((a * pb) as int, m);
    let f = (a * pb) as int / m;
    assert(a * (pb + bj * wj) == a * pb + a * bj * wj) by (nonlinear_arith);
    vstd::arithmetic::mul::lemma_mul_is_commutative(m, f);
    vstd::arithmetic::div_mod::lemma_fundamental_div_mod_converse(
        (a * (pb + bj * wj)) as int,
        m,
        f + extra,
        res as int,
    );
}

/// The product of a number below `B^m` and one below `B^j`, when
/// `m + j <= 4`, is below `B^(m + j)` and is not reduced modulo 2^256.
pub proof fn lemma_mul_row_bound(a: nat, pb: nat, m: nat, j: nat)
    requires
        a < word_pow(m),
        pb < word_pow(j),
    ensures
        m + j <= 4 ==> a * pb < word_pow(m + j) && (a * pb) % u256_modulus() == a * pb,
{
    lemma_word_pow_adds(m, j);
    assert(a * pb < word_pow(m) * word_pow(j)) by (nonlinear_arith)
        requires
            a < word_pow(m),
            pb < word_pow(j),
    ;
    if m + j <= 4 {
        lemma_word_pow_mono(m + j, 4);
        lemma_word_pow_values();
        vstd::arithmetic::div_mod::lemma_small_mod(a * pb, u256_modulus());
    }
}

/// The value of the words of `w` from index `j` up, as a number of its own.
pub open spec fn high_value(w: [u64; 4], j: nat) -> nat
    decreases 4 - j,
{
    if j >= 4 {
        0
    } else {
        w[j as int] as nat + word_base() * high_value(w, j + 1)
    }
}

/// All words from index 0 up make the whole value; words from the number of
/// significant words up make zero.
pub proof fn lemma_high_value_ends(w: [u64; 4])
    ensures
        high_value(w, 0) == words_value(w),
        high_value(w, crate::u256_muldiv::spec_num_words(w)) == 0,
{
    reveal_with_fuel(high_value, 5);
    let n = crate::u256_muldiv::spec_num_words(w);
    assert(high_value(w, 4) == 0);
    if n <= 3 {
        assert(high_value(w, 3) == 0);
    }
    if n <= 2 {
        assert(high_value(w, 2) == 0);
    }
    if n <= 1 {
        assert(high_value(w, 1) == 0);
    }
}

/// Appending one low digit to a number, and dividing by `d`: the quotient
/// gains one digit and the remainder is that of the remainder with the digit.
pub proof fn lemma_div_append_digit(h: nat, w: nat, d: nat, base: nat)
    requires
        d > 0,
        base > 0,
    ensures
        (h * base + w) / d == (h / d) * base + ((h % d) * base + w) / d,
        (h * base + w) % d == ((h % d) * base + w) % d,
{
    let (hi, di, bi, wi) = (h as int, d as int, base as int, w as int);
    vstd::arithmetic::div_mod::lemma_fundamental_div_mod(hi, di);
    let (q, r) = (hi / di, hi % di);
    let u = r * bi + wi;
    vstd::arithmetic::div_mod::lemma_fundamental_div_mod(u, di);
    let (q2, r2) = (u / di, u % di);
    assert(hi * bi + wi == (q * bi + q2) * di + r2) by (nonlinear_arith)
        requires
            hi == di * q + r,
            u == r * bi + wi,
            u == di * q2 + r2,
    ;
    vstd::arithmetic::div_mod::lemma_fundamental_div_mod_converse(hi * bi + wi, di, q * bi + q2, r2);
}

/// One step of binary long division: doubling the dividend and adding a bit.
pub proof fn lemma_div_double(x: nat, b: nat, d: nat)
    requires
        d > 0,
        b <= 1,
    ensures
        2 * (x % d) + b >= d ==> (2 * x + b) / d == 2 * (x / d) + 1 && (2 * x + b) % d == 2 * (x
            % d) + b - d,
        2 * (x % d) + b < d ==> (2 * x + b) / d == 2 * (x / d) && (2 * x + b) % d == 2 * (x % d)
            + b,
{
    let (xi, di) = (x as int, d as int);
    vstd::arithmetic::div_mod::lemma_fundamental_div_mod(xi, di);
    let (q, r) = (xi / di, xi % di);
    let u = 2 * r + b;
    if u >= di {
        assert(2 * xi + b == (2 * q + 1) * di + (u - di)) by (nonlinear_arith)
            requires
                xi == di * q + r,
                u == 2 * r + b,
        ;
        vstd::arithmetic::div_mod::lemma_fundamental_div_mod_converse(2 * xi + b, di, 2 * q + 1, u - di);
    } else {
        assert(2 * xi + b == (2 * q) * di + u) by (nonlinear_arith)
            requires
                xi == di * q + r,
                u == 2 * r + b,
        ;
        vstd::arithmetic::div_mod::lemma_fundamental_div_mod_converse(2 * xi + b, di, 2 * q, u);
    }
}

/// The dividend bits above position `k - 1`: halving the prefix at `k - 1`
/// gives the prefix at `k`, plus its lowest bit.
pub proof fn lemma_bit_prefix(n: nat, k: nat)
    requires
        k >= 1,
    ensures
        (n / pow2((k - 1) as nat)) as int == 2 * ((n / pow2(k)) as int) + ((n / pow2((k - 1) as nat))
            as int) % 2,
{
    lemma_div_pow2_twice(n, (k - 1) as nat, 1);
    vstd::arithmetic::power2::lemma2_to64();
    assert((k - 1) as nat + 1 == k);
    let x = n / pow2((k - 1) as nat);
    assert(x / 2 == n / pow2(k));
    vstd::arithmetic::div_mod::lemma_fundamental_div_mod(x as int, 2);
    assert((x as int) / 2 == x / 2);
    assert((x as int) % 2 == x % 2);
    assert(x as int == 2 * ((x as int) / 2) + (x as int) % 2);
}

/// `n / 2^k` of a number below 2^256 is below `2^(256 - k)`.
pub proof fn lemma_shifted_bound(n: nat, k: nat)
    requires
        n < u256_modulus(),
        k <= 256,
    ensures
        n / pow2(k) < pow2((256 - k) as nat),
{
    lemma_pow2_word_values();
    vstd::arithmetic::power2::lemma_pow2_adds(k, (256 - k) as nat);
    assert(k + (256 - k) as nat == 256);
    vstd::arithmetic::power2::lemma_pow2_pos(k);
    vstd::arithmetic::power2::lemma_pow2_pos((256 - k) as nat);
    let pk = pow2(k) as int;
    let pr = pow2((256 - k) as nat) as int;
    vstd::arithmetic::div_mod::lemma_fundamental_div_mod(n as int, pk);
    assert((n as int) / pk < pr) by (nonlinear_arith)
        requires
            n as int == pk * ((n as int) / pk) + (n as int) % pk,
            (n as int) % pk >= 0,
            (n as int) < pk * pr,
            pk > 0,
    ;
}

/// The top bit of the top word is set exactly when twice the value reaches 2^256.
pub proof fn lemma_top_bit(w: [u64; 4])
    ensures
        (w[3] >= 0x8000_0000_0000_0000) == (2 * words_value(w) >= u256_modulus()),
{
    let (a0, a1, a2, a3) = (w[0] as int, w[1] as int, w[2] as int, w[3] as int);
    let v = words_value(w) as int;
    assert(v == a0 + 0x1_0000_0000_0000_0000 * (a1 + 0x1_0000_0000_0000_0000 * (a2 + 0x1_0000_0000_0000_0000 * a3)));
    if a3 >= 0x8000_0000_0000_0000 {
        assert(2 * v >= u256_modulus()) by (nonlinear_arith)
            requires
                v == a0 + 0x1_0000_0000_0000_0000 * (a1 + 0x1_0000_0000_0000_0000 * (a2 + 0x1_0000_0000_0000_0000 * a3)),
                a3 >= 0x8000_0000_0000_0000,
                a0 >= 0,
                a1 >= 0,
                a2 >= 0,
        ;
    } else {
        assert(2 * v < u256_modulus()) by (nonlinear_arith)
            requires
                v == a0 + 0x1_0000_0000_0000_0000 * (a1 + 0x1_0000_0000_0000_0000 * (a2 + 0x1_0000_0000_0000_0000 * a3)),
                a3 < 0x8000_0000_0000_0000,
                0 <= a0 < 0x1_0000_0000_0000_0000,
                0 <= a1 < 0x1_0000_0000_0000_0000,
                0 <= a2 < 0x1_0000_0000_0000_0000,
        ;
    }
}

/// The lowest bit of the lowest word is the parity of the value.
pub proof fn lemma_low_bit(w: [u64; 4])
    ensures
        (w[0] & 1) as int == (words_value(w) as int) % 2,
{
    lemma_words_digits(w);
    let x = w[0];
    assert((x & 1) == x % 2) by (bit_vector);
    vstd::arithmetic::div_mod::lemma_mod_mod(words_value(w) as int, 2, 0x8000_0000_0000_0000);
}

} // verus!
