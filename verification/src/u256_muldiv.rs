use vstd::prelude::*;

use crate::errors::ErrorCode;
use crate::u256_proofs::{
    carry_weight, lemma_add_column, lemma_div_pow2_twice, lemma_high_words_zero, lemma_mul_column,
    lemma_mul_column_dropped, lemma_mul_row_bound, lemma_mul_row_done, lemma_prefix_bound,
    lemma_prefix_num_words, lemma_prefix_step, lemma_update_word_value, lemma_bit_prefix,
    lemma_div_double, lemma_low_bit, lemma_shifted_bound, lemma_top_bit, high_value,
    lemma_high_value_ends, lemma_div_append_digit, lemma_word_pow_mono, lemma_mod_mul_pow2, lemma_pow2_word_values,
    lemma_prefix_full, lemma_shl_bits_value, lemma_shl_overflow, lemma_shr_bits_value,
    lemma_shr_overflow, lemma_sub_column, prefix_value,
};
use vstd::arithmetic::power2::pow2;

verus! {

/// 2^64, the radix of one word.
#[verifier::inline]
pub open spec fn word_base() -> nat {
    0x1_0000_0000_0000_0000nat
}

/// 2^256, the modulus of `U256Muldiv` arithmetic.
#[verifier::inline]
pub open spec fn u256_modulus() -> nat {
    0x1_0000_0000_0000_0000_0000_0000_0000_0000_0000_0000_0000_0000_0000_0000_0000_0000nat
}

/// The number that four little-endian 64-bit words stand for.
pub open spec fn words_value(w: [u64; 4]) -> nat {
    w[0] as nat + word_base() * (w[1] as nat + word_base() * (w[2] as nat + word_base() * (w[3] as nat)))
}

/// `2^(64 k)`.
pub open spec fn word_pow(k: nat) -> nat
    decreases k,
{
    if k == 0 {
        1
    } else {
        word_base() * word_pow((k - 1) as nat)
    }
}

/// The number of significant words of `w`: one more than the index of its
/// highest nonzero word, or zero when all words are zero.
pub open spec fn spec_num_words(w: [u64; 4]) -> nat {
    if w[3] != 0 {
        4
    } else if w[2] != 0 {
        3
    } else if w[1] != 0 {
        2
    } else if w[0] != 0 {
        1
    } else {
        0
    }
}

pub proof fn lemma_word_pow_values()
    ensures
        word_pow(0) == 1,
        word_pow(1) == word_base(),
        word_pow(2) == word_base() * word_base(),
        word_pow(3) == word_base() * word_base() * word_base(),
        word_pow(4) == u256_modulus(),
        word_base() * word_base() * word_base() * word_base() == u256_modulus(),
{
    reveal_with_fuel(word_pow, 5);
    assert(word_base() * word_base() * word_base() * word_base() == u256_modulus());
    assert(word_pow(4) == word_base() * (word_base() * (word_base() * word_base())));
    assert(word_base() * (word_base() * (word_base() * word_base())) == u256_modulus());
    assert(word_pow(3) == word_base() * (word_base() * word_base()));
    assert(word_base() * (word_base() * word_base()) == word_base() * word_base() * word_base());
}

/// Each word is the corresponding base-2^64 digit of the value, and the
/// value is below `2^(64 n)` where `n` is the number of significant words.
pub proof fn lemma_words_digits(w: [u64; 4])
    ensures
        words_value(w) < u256_modulus(),
        words_value(w) % word_base() == w[0] as nat,
        words_value(w) / word_base() == w[1] as nat + word_base() * (w[2] as nat + word_base() * (w[3] as nat)),
        words_value(w) / word_base() / word_base() == w[2] as nat + word_base() * (w[3] as nat),
        words_value(w) / word_base() / word_base() / word_base() == w[3] as nat,
        words_value(w) < word_pow(spec_num_words(w)),
        spec_num_words(w) > 0 ==> words_value(w) >= word_pow((spec_num_words(w) - 1) as nat),
        words_value(w) == 0 <==> spec_num_words(w) == 0,
{
    lemma_word_pow_values();
    let b = word_base() as int;
    let (a0, a1, a2, a3) = (w[0] as int, w[1] as int, w[2] as int, w[3] as int);
    let t3 = a3;
    let t2 = a2 + b * t3;
    let t1 = a1 + b * t2;
    let v = a0 + b * t1;
    assert(v == words_value(w));
    assert(0 <= a0 < b && 0 <= a1 < b && 0 <= a2 < b && 0 <= a3 < b);
    lemma_digit_step(a0, t1, b);
    lemma_digit_step(a1, t2, b);
    lemma_digit_step(a2, t3, b);
    assert(t3 < b);
    assert(t2 < b * b) by (nonlinear_arith)
        requires t2 == a2 + b * t3, 0 <= a2 < b, 0 <= t3 < b;
    assert(t1 < b * b * b) by (nonlinear_arith)
        requires t1 == a1 + b * t2, 0 <= a1 < b, 0 <= t2 < b * b;
    assert(v < b * b * b * b) by (nonlinear_arith)
        requires v == a0 + b * t1, 0 <= a0 < b, 0 <= t1 < b * b * b;
    assert(t2 >= 0 && t1 >= 0);
    if a3 != 0 {
        assert(v >= b * b * b) by (nonlinear_arith)
            requires v == a0 + b * (a1 + b * (a2 + b * a3)), a3 >= 1, a0 >= 0, a1 >= 0, a2 >= 0, b > 0;
    } else if a2 != 0 {
        assert(v < b * b * b) by (nonlinear_arith)
            requires v == a0 + b * (a1 + b * a2), 0 <= a0 < b, 0 <= a1 < b, 0 <= a2 < b;
        assert(v >= b * b) by (nonlinear_arith)
            requires v == a0 + b * (a1 + b * a2), a2 >= 1, a0 >= 0, a1 >= 0, b > 0;
    } else if a1 != 0 {
        assert(v < b * b) by (nonlinear_arith)
            requires v == a0 + b * a1, 0 <= a0 < b, 0 <= a1 < b;
        assert(v >= b) by (nonlinear_arith)
            requires v == a0 + b * a1, a1 >= 1, a0 >= 0, b > 0;
    } else {
        assert(v == a0);
    }
}

/// `(d + b q) % b == d` and `(d + b q) / b == q` for a digit `d < b`.
pub proof fn lemma_digit_step(d: int, q: int, b: int)
    requires
        0 <= d < b,
        0 <= q,
    ensures
        (d + b * q) % b == d,
        (d + b * q) / b == q,
{
    vstd::arithmetic::mul::lemma_mul_is_commutative(b, q);
    vstd::arithmetic::div_mod::lemma_fundamental_div_mod_converse(d + b * q, b, q, d);
}

pub const NUM_WORDS: usize = 4;
pub const U64_RESOLUTION: u32 = 64;
pub const U64_MAX: u128 = 0xffff_ffff_ffff_ffff;

/// A 256-bit unsigned integer held as four little-endian 64-bit words.
#[derive(Copy, Clone, Debug)]
pub struct U256Muldiv {
    pub items: [u64; 4],
}

impl View for U256Muldiv {
    type V = nat;

    open spec fn view(&self) -> nat {
        words_value(self.items)
    }
}

/// Split of a `u128` into its low and high 64-bit halves.
pub trait LoHi {
    spec fn spec_u128(&self) -> u128;

    fn lo(self) -> (r: u64)
        ensures
            r as nat == self.spec_u128() as nat % word_base(),
    ;

    fn hi(self) -> (r: u64)
        ensures
            r as nat == self.spec_u128() as nat / word_base(),
    ;

    fn lo_u128(self) -> (r: u128)
        ensures
            r as nat == self.spec_u128() as nat % word_base(),
    ;

    fn hi_u128(self) -> (r: u128)
        ensures
            r as nat == self.spec_u128() as nat / word_base(),
    ;
}

impl LoHi for u128 {
    open spec fn spec_u128(&self) -> u128 {
        *self
    }

    fn lo(self) -> (r: u64) {
        proof {
            crate::bit_facts::lemma_low_64(self);
        }
        (self & U64_MAX) as u64
    }

    fn lo_u128(self) -> (r: u128) {
        proof {
            crate::bit_facts::lemma_low_64(self);
        }
        self & U64_MAX
    }

    fn hi(self) -> (r: u64) {
        proof {
            crate::bit_facts::lemma_shr_64(self);
        }
        (self >> U64_RESOLUTION) as u64
    }

    fn hi_u128(self) -> (r: u128) {
        proof {
            crate::bit_facts::lemma_shr_64(self);
        }
        self >> U64_RESOLUTION
    }
}

/// Joins two 64-bit words into `hi * 2^64 + lo`.
pub fn hi_lo(hi: u64, lo: u64) -> (r: u128)
    ensures
        r as nat == hi as nat * word_base() + lo as nat,
{
    proof {
        assert((((hi as u128) << 64u32) | (lo as u128)) == (hi as u128) * 0x1_0000_0000_0000_0000u128 + (lo as u128)) by (bit_vector);
    }
    ((hi as u128) << U64_RESOLUTION) | (lo as u128)
}

impl U256Muldiv {
    /// The number `h * 2^128 + l`.
    pub fn new(h: u128, l: u128) -> (r: Self)
        ensures
            r@ == h as nat * word_base() * word_base() + l as nat,
    {
        let r = U256Muldiv { items: [l.lo(), l.hi(), h.lo(), h.hi()] };
        proof {
            let b = word_base() as int;
            let li = l as int;
            let hi = h as int;
            vstd::arithmetic::div_mod::lemma_fundamental_div_mod(li, b);
            vstd::arithmetic::div_mod::lemma_fundamental_div_mod(hi, b);
            let (l0, l1, h0, h1) = (li % b, li / b, hi % b, hi / b);
            assert(l0 + b * (l1 + b * (h0 + b * h1)) == hi * b * b + li) by (nonlinear_arith)
                requires
                    li == b * l1 + l0,
                    hi == b * h1 + h0,
            ;
        }
        r
    }

    fn copy(&self) -> (r: Self)
        ensures
            r == *self,
    {
        let items: [u64; 4] = self.items;
        U256Muldiv { items }
    }

    fn update_word(&mut self, index: usize, value: u64)
        requires
            index < 4,
        ensures
            final(self).items@ == old(self).items@.update(index as int, value),
    {
        self.items[index] = value;
    }

    fn num_words(&self) -> (r: usize)
        ensures
            r as nat == spec_num_words(self.items),
    {
        let mut i: usize = NUM_WORDS;
        while i > 0
            invariant
                i <= 4,
                forall|j: int| i <= j < 4 ==> self.items[j] == 0,
            decreases i,
        {
            i -= 1;
            if self.items[i] != 0 {
                return i + 1;
            }
        }
        0
    }

    /// The word at `index`, counting from the least significant.
    pub fn get_word(&self, index: usize) -> (r: u64)
        requires
            index < 4,
        ensures
            r == self.items[index as int],
    {
        self.items[index]
    }

    /// The word at `index`, widened to `u128`.
    pub fn get_word_u128(&self, index: usize) -> (r: u128)
        requires
            index < 4,
        ensures
            r == self.items[index as int] as u128,
    {
        self.items[index] as u128
    }

    /// Shift left by one word, dropping the top word.
    pub fn shift_word_left(&self) -> (r: Self)
        ensures
            r.items[0] == 0,
            r.items[1] == self.items[0],
            r.items[2] == self.items[1],
            r.items[3] == self.items[2],
            r@ == (self@ * word_base()) % u256_modulus(),
    {
        let mut result = U256Muldiv::new(0, 0);
        proof { lemma_words_digits(result.items); }
        let mut i: usize = NUM_WORDS - 1;
        while i > 0
            invariant
                i <= 3,
                result.items[0] == 0,
                forall|j: int| 1 <= j <= i ==> result.items[j] == 0,
                forall|j: int| i < j < 4 ==> result.items[j] == self.items[j - 1],
            decreases i,
        {
            i -= 1;
            result.items[i + 1] = self.items[i];
        }
        proof { lemma_shift_word_left_value(self.items, result.items); }
        result
    }

    /// Shift left by one word, or `None` when the top word is nonzero.
    pub fn checked_shift_word_left(&self) -> (r: Option<Self>)
        ensures
            r is None <==> self.items[3] != 0,
            r is None <==> self@ >= word_pow(3),
            r matches Some(v) ==> v@ == self@ * word_base(),
    {
        proof {
            lemma_words_digits(self.items);
            lemma_word_pow_values();
        }
        let element = self.items[NUM_WORDS - 1];
        if element > 0 {
            None
        } else {
            let v = self.shift_word_left();
            proof {
                lemma_word_pow_values();
                assert(self@ < word_pow(3));
                assert(self@ * word_base() < u256_modulus()) by (nonlinear_arith)
                    requires self@ < word_base() * word_base() * word_base(),
                        word_base() * word_base() * word_base() * word_base() == u256_modulus();
                vstd::arithmetic::div_mod::lemma_small_mod(self@ * word_base(), u256_modulus());
            }
            Some(v)
        }
    }

    /// Logical left shift by `shift_amount` bits; bits shifted past the top
    /// are dropped.
    pub fn shift_left(&self, shift_amount: u32) -> (r: Self)
        ensures
            r@ == (self@ * pow2(shift_amount as nat)) % u256_modulus(),
    {
        let mut shift_amount = shift_amount;
        if shift_amount >= U64_RESOLUTION * (NUM_WORDS as u32) {
            proof { lemma_shl_overflow(self@, shift_amount as nat); }
            let z = U256Muldiv::new(0, 0);
            proof { lemma_words_digits(z.items); }
            return z;
        }
        let ghost total = shift_amount;
        let mut result = self.copy();
        proof {
            lemma_words_digits(self.items);
            vstd::arithmetic::power2::lemma2_to64();
            vstd::arithmetic::div_mod::lemma_small_mod(self@, u256_modulus());
            assert((total - shift_amount) as nat == 0);
            assert(self@ * pow2(0) == self@);
            assert(result@ == self@);
        }
        while shift_amount >= U64_RESOLUTION
            invariant
                shift_amount <= total < 256,
                result@ == (self@ * pow2((total - shift_amount) as nat)) % u256_modulus(),
            decreases shift_amount,
        {
            let ghost before = result@;
            result = result.shift_word_left();
            proof {
                lemma_pow2_word_values();
                lemma_mod_mul_pow2(self@, (total - shift_amount) as nat, 64);
                assert((total - shift_amount) as nat + 64 == (total - (shift_amount - 64)) as nat);
            }
            shift_amount -= U64_RESOLUTION;
        }
        if shift_amount == 0 {
            return result;
        }
        let ghost w = result.items;
        let ghost s = shift_amount as u64;
        let mut i: usize = NUM_WORDS - 1;
        while i > 0
            invariant
                0 < s < 64,
                s == shift_amount as u64,
                i <= 3,
                forall|j: int| 0 <= j <= i ==> result.items[j] == w[j],
                forall|j: int|
                    i < j < 4 ==> result.items[j] == (w[j] << s) | (w[j - 1] >> ((64 - s) as u64)),
            decreases i,
        {
            let hi = result.items[i] << shift_amount;
            let lo = result.items[i - 1] >> (U64_RESOLUTION - shift_amount);
            proof {
                let x = result.items[i as int];
                let y = result.items[i - 1];
                let sa = shift_amount;
                crate::bit_facts::lemma_shift_widths(x, y, sa);
            }
            result.items[i] = hi | lo;
            i -= 1;
        }
        let low = result.items[0] << shift_amount;
        proof {
            let x = result.items[0];
            let sa = shift_amount;
            crate::bit_facts::lemma_shift_widths(x, x, sa);
        }
        result.items[0] = low;
        proof {
            lemma_shl_bits_value(w, result.items, s);
            lemma_mod_mul_pow2(self@, (total - shift_amount) as nat, s as nat);
        }
        result
    }

    /// Logical right shift by `shift_amount` bits.
    pub fn shift_right(&self, shift_amount: u32) -> (r: Self)
        ensures
            r@ == self@ / pow2(shift_amount as nat),
    {
        let mut shift_amount = shift_amount;
        proof { lemma_words_digits(self.items); }
        if shift_amount >= U64_RESOLUTION * (NUM_WORDS as u32) {
            proof { lemma_shr_overflow(self@, shift_amount as nat); }
            let z = U256Muldiv::new(0, 0);
            proof { lemma_words_digits(z.items); }
            return z;
        }
        let ghost total = shift_amount;
        let mut result = self.copy();
        proof {
            vstd::arithmetic::power2::lemma2_to64();
            assert((total - shift_amount) as nat == 0);
            assert(self@ / pow2(0) == self@);
            assert(result@ == self@);
        }
        while shift_amount >= U64_RESOLUTION
            invariant
                shift_amount <= total < 256,
                result@ == self@ / pow2((total - shift_amount) as nat),
            decreases shift_amount,
        {
            result = result.shift_word_right();
            proof {
                lemma_pow2_word_values();
                lemma_div_pow2_twice(self@, (total - shift_amount) as nat, 64);
                assert((total - shift_amount) as nat + 64 == (total - (shift_amount - 64)) as nat);
            }
            shift_amount -= U64_RESOLUTION;
        }
        if shift_amount == 0 {
            return result;
        }
        let ghost w = result.items;
        let ghost s = shift_amount as u64;
        let mut i: usize = 0;
        while i < NUM_WORDS - 1
            invariant
                0 < s < 64,
                s == shift_amount as u64,
                i <= 3,
                forall|j: int| i <= j < 4 ==> result.items[j] == w[j],
                forall|j: int|
                    0 <= j < i ==> result.items[j] == (w[j] >> s) | (w[j + 1] << ((64 - s) as u64)),
            decreases 3 - i,
        {
            let lo = result.items[i] >> shift_amount;
            let hi = result.items[i + 1] << (U64_RESOLUTION - shift_amount);
            proof {
                let x = result.items[i as int];
                let y = result.items[i + 1];
                let sa = shift_amount;
                crate::bit_facts::lemma_shift_widths(x, y, sa);
            }
            result.items[i] = lo | hi;
            i += 1;
        }
        let top = result.items[3] >> shift_amount;
        proof {
            let x = result.items[3];
            let sa = shift_amount;
            crate::bit_facts::lemma_shift_widths(x, x, sa);
        }
        result.items[3] = top;
        proof {
            lemma_shr_bits_value(w, result.items, s);
            lemma_div_pow2_twice(self@, (total - shift_amount) as nat, s as nat);
        }
        result
    }

    /// Shift right by one word.
    pub fn shift_word_right(&self) -> (r: Self)
        ensures
            r.items[0] == self.items[1],
            r.items[1] == self.items[2],
            r.items[2] == self.items[3],
            r.items[3] == 0,
            r@ == self@ / word_base(),
    {
        let mut result = U256Muldiv::new(0, 0);
        proof { lemma_words_digits(result.items); }
        let mut i: usize = 0;
        while i < NUM_WORDS - 1
            invariant
                i <= 3,
                result.items[3] == 0,
                forall|j: int| i <= j < 4 ==> result.items[j] == 0,
                forall|j: int| 0 <= j < i ==> result.items[j] == self.items[j + 1],
            decreases 3 - i,
        {
            result.items[i] = self.items[i + 1];
            i += 1;
        }
        proof { lemma_words_digits(self.items); }
        result
    }

    /// Whether the two numbers are equal.
    pub fn eq(&self, other: U256Muldiv) -> (r: bool)
        ensures
            r == (self@ == other@),
    {
        proof {
            lemma_words_digits(self.items);
            lemma_words_digits(other.items);
        }
        let mut i: usize = 0;
        while i < 4
            invariant
                i <= 4,
                forall|j: int| 0 <= j < i ==> self.items[j] == other.items[j],
            decreases 4 - i,
        {
            if self.items[i] != other.items[i] {
                return false;
            }
            i += 1;
        }
        true
    }

    /// Whether `self < other`.
    pub fn lt(&self, other: U256Muldiv) -> (r: bool)
        ensures
            r == (self@ < other@),
    {
        let mut i: usize = 4;
        while i > 0
            invariant
                i <= 4,
                forall|j: int| i <= j < 4 ==> self.items[j] == other.items[j],
            decreases i,
        {
            i -= 1;
            if self.items[i] < other.items[i] {
                proof { lemma_lex_order(self.items, other.items, i as int); }
                return true;
            } else if self.items[i] > other.items[i] {
                proof { lemma_lex_order(other.items, self.items, i as int); }
                return false;
            }
        }
        proof { lemma_words_digits(self.items); lemma_words_digits(other.items); }
        false
    }

    /// Whether `self > other`.
    pub fn gt(&self, other: U256Muldiv) -> (r: bool)
        ensures
            r == (self@ > other@),
    {
        let mut i: usize = 4;
        while i > 0
            invariant
                i <= 4,
                forall|j: int| i <= j < 4 ==> self.items[j] == other.items[j],
            decreases i,
        {
            i -= 1;
            if self.items[i] < other.items[i] {
                proof { lemma_lex_order(self.items, other.items, i as int); }
                return false;
            } else if self.items[i] > other.items[i] {
                proof { lemma_lex_order(other.items, self.items, i as int); }
                return true;
            }
        }
        proof { lemma_words_digits(self.items); lemma_words_digits(other.items); }
        false
    }

    /// Whether `self <= other`.
    pub fn lte(&self, other: U256Muldiv) -> (r: bool)
        ensures
            r == (self@ <= other@),
    {
        let mut i: usize = 4;
        while i > 0
            invariant
                i <= 4,
                forall|j: int| i <= j < 4 ==> self.items[j] == other.items[j],
            decreases i,
        {
            i -= 1;
            if self.items[i] < other.items[i] {
                proof { lemma_lex_order(self.items, other.items, i as int); }
                return true;
            } else if self.items[i] > other.items[i] {
                proof { lemma_lex_order(other.items, self.items, i as int); }
                return false;
            }
        }
        proof { lemma_words_digits(self.items); lemma_words_digits(other.items); }
        true
    }

    /// Whether `self >= other`.
    pub fn gte(&self, other: U256Muldiv) -> (r: bool)
        ensures
            r == (self@ >= other@),
    {
        let mut i: usize = 4;
        while i > 0
            invariant
                i <= 4,
                forall|j: int| i <= j < 4 ==> self.items[j] == other.items[j],
            decreases i,
        {
            i -= 1;
            if self.items[i] < other.items[i] {
                proof { lemma_lex_order(self.items, other.items, i as int); }
                return false;
            } else if self.items[i] > other.items[i] {
                proof { lemma_lex_order(other.items, self.items, i as int); }
                return true;
            }
        }
        proof { lemma_words_digits(self.items); lemma_words_digits(other.items); }
        true
    }

    /// The value as a `u128`, or `CalculateOverflow` when it needs more
    /// than two words.
    pub fn try_into_u128(&self) -> (r: Result<u128, ErrorCode>)
        ensures
            match r {
                Ok(x) => self@ < word_base() * word_base() && x as nat == self@,
                Err(e) => self@ >= word_base() * word_base() && e == ErrorCode::CalculateOverflow,
            },
    {
        proof {
            lemma_words_digits(self.items);
            lemma_word_pow_values();
        }
        if self.num_words() > 2 {
            return Err(ErrorCode::CalculateOverflow);
        }
        Ok(hi_lo(self.items[1], self.items[0]))
    }

    /// The additive inverse modulo 2^256: the `r` below 2^256 with
    /// `r + self ≡ 0 (mod 2^256)`.
    pub fn get_add_inverse(&self) -> (r: Self)
        ensures
            r@ == (u256_modulus() - self@) % (u256_modulus() as int),
    {
        proof { lemma_words_digits(self.items); }
        if self.eq(U256Muldiv::new(0, 0)) {
            let z = U256Muldiv::new(0, 0);
            proof { lemma_words_digits(z.items); }
            return z;
        }
        let max = U256Muldiv::new(u128::MAX, u128::MAX);
        let one = U256Muldiv::new(0, 1);
        let d = max.sub(*self);
        let r = d.add(one);
        proof {
            assert(max@ == u256_modulus() - 1);
            vstd::arithmetic::div_mod::lemma_small_mod((u256_modulus() - 1 - self@) as nat, u256_modulus());
            vstd::arithmetic::div_mod::lemma_small_mod((u256_modulus() - self@) as nat, u256_modulus());
        }
        r
    }

    /// `(self + other) mod 2^256`: the carry out of the top word is dropped.
    pub fn add(&self, other: U256Muldiv) -> (r: Self)
        ensures
            r@ == (self@ + other@) % u256_modulus(),
    {
        let mut result = U256Muldiv::new(0, 0);
        let mut carry: u128 = 0;
        let mut i: usize = 0;
        while i < NUM_WORDS
            invariant
                i <= 4,
                carry <= 1,
                prefix_value(result.items, i as nat) + carry * word_pow(i as nat) == prefix_value(
                    self.items,
                    i as nat,
                ) + prefix_value(other.items, i as nat),
            decreases 4 - i,
        {
            let x = self.get_word_u128(i);
            let y = other.get_word_u128(i);
            let t = x + y + carry;
            let ghost r0 = result.items;
            result.update_word(i, t.lo());
            proof {
                lemma_add_column(r0, result.items, self.items, other.items, i as nat, carry as int, t as int);
            }
            carry = t.hi_u128();
            i += 1;
        }
        proof {
            lemma_prefix_full(result.items);
            lemma_prefix_full(self.items);
            lemma_prefix_full(other.items);
            lemma_word_pow_values();
            lemma_words_digits(result.items);
            vstd::arithmetic::div_mod::lemma_fundamental_div_mod_converse(
                (self@ + other@) as int,
                u256_modulus() as int,
                carry as int,
                result@ as int,
            );
        }
        result
    }

    /// `(self - other) mod 2^256`: a borrow out of the top word wraps around.
    pub fn sub(&self, other: U256Muldiv) -> (r: Self)
        ensures
            r@ == (self@ - other@) % (u256_modulus() as int),
    {
        let mut result = U256Muldiv::new(0, 0);
        let mut carry: u64 = 0;
        let mut i: usize = 0;
        while i < NUM_WORDS
            invariant
                i <= 4,
                carry <= 1,
                prefix_value(result.items, i as nat) == prefix_value(self.items, i as nat)
                    - prefix_value(other.items, i as nat) + carry * word_pow(i as nat),
            decreases 4 - i,
        {
            let x = self.get_word(i);
            let y = other.get_word(i);
            let t0 = x.wrapping_sub(y);
            let overflowing0 = x < y;
            let t1 = t0.wrapping_sub(carry);
            let overflowing1 = t0 < carry;
            let ghost r0 = result.items;
            result.update_word(i, t1);
            let nb: u64 = if overflowing0 || overflowing1 { 1 } else { 0 };
            proof {
                lemma_sub_column(r0, result.items, self.items, other.items, i as nat, carry as int, nb as int);
            }
            carry = nb;
            i += 1;
        }
        proof {
            lemma_prefix_full(result.items);
            lemma_prefix_full(self.items);
            lemma_prefix_full(other.items);
            lemma_word_pow_values();
            lemma_words_digits(result.items);
            vstd::arithmetic::div_mod::lemma_fundamental_div_mod_converse(
                self@ - other@,
                u256_modulus() as int,
                -(carry as int),
                result@ as int,
            );
        }
        result
    }

    /// `(self * other) mod 2^256`: schoolbook multiplication over the
    /// significant words, dropping everything past the top word.
    pub fn mul(&self, other: U256Muldiv) -> (r: Self)
        ensures
            r@ == (self@ * other@) % u256_modulus(),
    {
        let mut result = U256Muldiv::new(0, 0);
        let m = self.num_words();
        let n = other.num_words();
        proof {
            lemma_words_digits(result.items);
            lemma_words_digits(self.items);
            lemma_words_digits(other.items);
            lemma_word_pow_values();
            assert(prefix_value(other.items, 0) == 0);
            assert(self@ * 0 == 0);
            vstd::arithmetic::div_mod::lemma_small_mod(0, u256_modulus());
        }
        let mut j: usize = 0;
        while j < n
            invariant
                m as nat == spec_num_words(self.items),
                n as nat == spec_num_words(other.items),
                m <= 4,
                n <= 4,
                j <= n,
                result@ == (self@ * prefix_value(other.items, j as nat)) % u256_modulus(),
                j + m <= 4 ==> forall|p: int| j + m <= p < 4 ==> result.items[p] == 0,
            decreases n - j,
        {
            let ghost r_start = result.items;
            let ghost mut extra: int = 0;
            let mut k: u128 = 0;
            let mut i: usize = 0;
            proof {
                assert(prefix_value(self.items, 0) == 0);
            }
            while i < m
                invariant
                    m as nat == spec_num_words(self.items),
                    m <= 4,
                    j < n <= 4,
                    i <= m,
                    k < 0x1_0000_0000_0000_0000,
                    forall|p: int| i + j <= p < 4 ==> result.items[p] == r_start[p],
                    j + m < 4 ==> r_start[(j + m) as int] == 0,
                    words_value(result.items) + k * carry_weight((i + j) as nat) + extra
                        * u256_modulus() == words_value(r_start) + prefix_value(self.items, i as nat)
                        * other.items[j as int] * word_pow(j as nat),
                decreases m - i,
            {
                let x = self.get_word_u128(i);
                let y = other.get_word_u128(j);
                if i + j < NUM_WORDS {
                    let z = result.get_word_u128(i + j);
                    proof {
                        assert(x * y <= 0xffff_ffff_ffff_ffff * 0xffff_ffff_ffff_ffff) by (nonlinear_arith)
                            requires
                                x <= 0xffff_ffff_ffff_ffff,
                                y <= 0xffff_ffff_ffff_ffff,
                        ;
                        vstd::arithmetic::div_mod::lemma_small_mod(
                            (x * y) as nat,
                            0x1_0000_0000_0000_0000_0000_0000_0000_0000nat,
                        );
                    }
                    let t = x.wrapping_mul(y).wrapping_add(z).wrapping_add(k);
                    let ghost r0 = result.items;
                    result.update_word(i + j, t.lo());
                    proof {
                        lemma_mul_column(
                            r0,
                            result.items,
                            words_value(r_start) as int,
                            self.items,
                            i as nat,
                            j as nat,
                            y as int,
                            k as int,
                            extra,
                            t as int,
                        );
                        if i + j + 1 == 4 {
                            extra = extra + t / 0x1_0000_0000_0000_0000;
                        }
                    }
                    k = t.hi_u128();
                } else {
                    proof {
                        lemma_mul_column_dropped(self.items, i as nat, j as nat, y as int);
                        extra = extra + x * y * word_pow((i + j - 4) as nat);
                    }
                }
                i += 1;
            }
            let ghost before = result.items;
            proof {
                if j + m < 4 {
                    assert(before[(j + m) as int] == r_start[(j + m) as int]);
                    assert(carry_weight((j + m) as nat) == word_pow((j + m) as nat));
                } else {
                    assert(carry_weight((j + m) as nat) == 0);
                }
            }
            if j + m < NUM_WORDS {
                result.update_word(j + m, k as u64);
                proof {
                    lemma_update_word_value(before, result.items, (j + m) as int, k as u64);
                }
            }
            proof {
                lemma_prefix_num_words(self.items);
                lemma_prefix_step(other.items, j as nat);
                lemma_mul_row_done(
                    words_value(result.items),
                    words_value(r_start),
                    self@,
                    prefix_value(other.items, j as nat),
                    other.items[j as int] as nat,
                    word_pow(j as nat),
                    extra,
                );
                lemma_words_digits(result.items);
                lemma_words_digits(self.items);
                lemma_prefix_bound(other.items, (j + 1) as nat);
                lemma_mul_row_bound(self@, prefix_value(other.items, (j + 1) as nat), m as nat, (j + 1) as nat);
                if j + 1 + m <= 4 {
                    lemma_prefix_bound(other.items, (j + 1) as nat);
                    lemma_high_words_zero(result.items, (j + 1 + m) as nat);
                }
            }
            j += 1;
        }
        proof {
            lemma_prefix_num_words(other.items);
        }
        result
    }

    /// `(self / divisor, self % divisor)`; the remainder is computed only
    /// when `return_remainder` is set and is zero otherwise; both are zero
    /// for a zero divisor.
    pub fn div(&self, divisor: U256Muldiv, return_remainder: bool) -> (r: (Self, Self))
        ensures
            r.0@ == (if divisor@ == 0 { 0 } else { self@ / divisor@ }),
            r.1@ == (if divisor@ != 0 && return_remainder { self@ % divisor@ } else { 0 }),
    {
        let zero = U256Muldiv::new(0, 0);
        proof {
            lemma_words_digits(divisor.items);
            lemma_words_digits(zero.items);
        }
        if divisor.num_words() == 0 {
            return (zero, U256Muldiv::new(0, 0));
        }
        self.div_nonzero(divisor, return_remainder)
    }

    /// `(self / divisor, self % divisor)` for a divisor that is not zero; see
    /// `div`.
    fn div_nonzero(&self, divisor: U256Muldiv, return_remainder: bool) -> (r: (Self, Self))
        requires
            divisor@ != 0,
        ensures
            r.0@ == self@ / divisor@,
            r.1@ == (if return_remainder { self@ % divisor@ } else { 0 }),
    {
        let dividend = self.copy();
        let zero = U256Muldiv::new(0, 0);
        let num_dividend_words = dividend.num_words();
        let num_divisor_words = divisor.num_words();
        proof {
            lemma_words_digits(self.items);
            lemma_words_digits(divisor.items);
            lemma_words_digits(zero.items);
            vstd::arithmetic::div_mod::lemma_small_mod(0, divisor@);
            vstd::arithmetic::div_mod::lemma_basic_div(0, divisor@ as int);
        }
        // A zero dividend.
        if num_dividend_words == 0 {
            return (zero, U256Muldiv::new(0, 0));
        }
        // A dividend with fewer words than the divisor is below it.
        if num_dividend_words < num_divisor_words {
            proof {
                lemma_word_pow_mono(num_dividend_words as nat, (num_divisor_words - 1) as nat);
                vstd::arithmetic::div_mod::lemma_small_mod(self@, divisor@);
                vstd::arithmetic::div_mod::lemma_basic_div(self@ as int, divisor@ as int);
            }
            if return_remainder {
                return (zero, dividend);
            } else {
                return (zero, U256Muldiv::new(0, 0));
            }
        }
        // Both fit in 128 bits.
        if num_dividend_words < 3 {
            proof {
                lemma_word_pow_values();
                lemma_word_pow_mono(num_dividend_words as nat, 2);
            }
            let dividend = match dividend.try_into_u128() {
                Ok(v) => v,
                Err(_) => {
                    proof { assert(false); }
                    return (zero, zero);
                },
            };
            let divisor = match divisor.try_into_u128() {
                Ok(v) => v,
                Err(_) => {
                    proof { assert(false); }
                    return (zero, zero);
                },
            };
            let quotient = dividend / divisor;
            let q = U256Muldiv::new(0, quotient);
            if return_remainder {
                let remainder = dividend % divisor;
                return (q, U256Muldiv::new(0, remainder));
            } else {
                return (q, U256Muldiv::new(0, 0));
            }
        }
        // A single-word divisor: long division one word at a time.
        if num_divisor_words == 1 {
            let mut quotient = U256Muldiv::new(0, 0);
            let mut k: u128 = 0;
            let mut j: usize = num_dividend_words;
            proof {
                lemma_high_value_ends(self.items);
                lemma_words_digits(quotient.items);
                assert(divisor@ == divisor.items[0]);
            }
            while j > 0
                invariant
                    j <= 4,
                    dividend == *self,
                    divisor@ == divisor.items[0],
                    divisor@ > 0,
                    k == high_value(self.items, j as nat) % divisor@,
                    quotient@ == (high_value(self.items, j as nat) / divisor@) * word_pow(j as nat),
                    forall|p: int| 0 <= p < j ==> quotient.items[p] == 0,
                decreases j,
            {
                j -= 1;
                let ghost h = high_value(self.items, (j + 1) as nat);
                let ghost before = quotient.items;
                proof {
                    vstd::arithmetic::div_mod::lemma_mod_bound(h as int, divisor@ as int);
                    assert(k < 0x1_0000_0000_0000_0000);
                    vstd::arithmetic::div_mod::lemma_small_mod(k as nat, 0x1_0000_0000_0000_0000nat);
                }
                let d1 = hi_lo(k.lo(), dividend.get_word(j));
                let d2 = divisor.get_word_u128(0);
                let q = d1 / d2;
                proof {
                    lemma_div_append_digit(h, self.items[j as int] as nat, divisor@, 0x1_0000_0000_0000_0000nat);
                    assert(q < 0x1_0000_0000_0000_0000) by {
                        vstd::arithmetic::div_mod::lemma_div_is_ordered(
                            d1 as int, (d2 * 0x1_0000_0000_0000_0000 - 1) as int, d2 as int);
                        assert(d2 * 0x1_0000_0000_0000_0000 - 1 == (0x1_0000_0000_0000_0000 - 1) * d2 + (d2 - 1)) by (nonlinear_arith);
                        vstd::arithmetic::div_mod::lemma_fundamental_div_mod_converse(
                            (d2 * 0x1_0000_0000_0000_0000 - 1) as int, d2 as int,
                            0x1_0000_0000_0000_0000 - 1, d2 - 1);
                    }
                    vstd::arithmetic::div_mod::lemma_fundamental_div_mod(d1 as int, d2 as int);
                    vstd::arithmetic::div_mod::lemma_small_mod(q as nat, 0x1_0000_0000_0000_0000nat);
                }
                k = d1 - d2 * q;
                quotient.update_word(j, q.lo());
                proof {
                    lemma_update_word_value(before, quotient.items, j as int, q as u64);
                    lemma_prefix_step(quotient.items, j as nat);
                    let hq = h / divisor@;
                    assert(high_value(self.items, j as nat) == self.items[j as int] + 0x1_0000_0000_0000_0000 * h);
                    assert(word_pow((j + 1) as nat) == 0x1_0000_0000_0000_0000 * word_pow(j as nat));
                    assert(hq * word_pow((j + 1) as nat) + q * word_pow(j as nat)
                        == (hq * 0x1_0000_0000_0000_0000 + q) * word_pow(j as nat)) by (nonlinear_arith)
                        requires
                            word_pow((j + 1) as nat) == 0x1_0000_0000_0000_0000 * word_pow(j as nat);
                    assert(h * 0x1_0000_0000_0000_0000 + self.items[j as int] == high_value(self.items, j as nat));
                }
            }
            proof {
                assert(word_pow(0) == 1);
                lemma_high_value_ends(self.items);
                assert(j == 0);
                assert(word_pow(j as nat) == 1);
                let hx = high_value(self.items, j as nat) / divisor@;
                let wj = word_pow(j as nat);
                assert(quotient@ == hx * wj);
                assert(quotient@ == hx) by (nonlinear_arith)
                    requires
                        quotient@ == hx * wj,
                        wj == 1,
                ;
                assert(quotient@ == high_value(self.items, 0) / divisor@);
            }
            if return_remainder {
                return (quotient, U256Muldiv::new(0, k));
            } else {
                return (quotient, U256Muldiv::new(0, 0));
            }
        }
        // The general case: at least three dividend words and two divisor words.
        let (quotient, remainder) = self.div_by_bits(divisor);
        if return_remainder {
            (quotient, remainder)
        } else {
            (quotient, U256Muldiv::new(0, 0))
        }
    }

    /// Binary long division, one dividend bit at a time from the top.
    fn div_by_bits(&self, divisor: U256Muldiv) -> (r: (Self, Self))
        requires
            divisor@ > 0,
        ensures
            r.0@ == self@ / divisor@,
            r.1@ == self@ % divisor@,
    {
        let mut quotient = U256Muldiv::new(0, 0);
        let mut remainder = U256Muldiv::new(0, 0);
        let mut k: u32 = 256;
        proof {
            lemma_words_digits(self.items);
            lemma_words_digits(quotient.items);
            lemma_words_digits(remainder.items);
            lemma_shr_overflow(self@, 256);
            vstd::arithmetic::div_mod::lemma_small_mod(0, divisor@);
            vstd::arithmetic::div_mod::lemma_basic_div(0, divisor@ as int);
        }
        while k > 0
            invariant
                k <= 256,
                divisor@ > 0,
                quotient@ == (self@ / pow2(k as nat)) / divisor@,
                remainder@ == (self@ / pow2(k as nat)) % divisor@,
            decreases k,
        {
            let ghost x = self@ / pow2(k as nat);
            let ghost x1 = self@ / pow2((k - 1) as nat);
            let ghost d = divisor@;
            let ghost r = remainder@;
            let ghost qv = quotient@;
            let shifted = self.shift_right(k - 1);
            let bit = shifted.items[0] & 1;
            let top = remainder.items[3] >= 0x8000_0000_0000_0000;
            proof {
                lemma_words_digits(self.items);
                lemma_words_digits(divisor.items);
                lemma_bit_prefix(self@, k as nat);
                lemma_low_bit(shifted.items);
                lemma_top_bit(remainder.items);
                lemma_pow2_word_values();
                vstd::arithmetic::power2::lemma2_to64();
                vstd::arithmetic::div_mod::lemma_mod_bound(x as int, d as int);
                lemma_div_double(x, bit as nat, d);
                lemma_shifted_bound(self@, k as nat);
                vstd::arithmetic::power2::lemma_pow2_adds((256 - k) as nat, 1);
                assert((256 - k) as nat + 1 <= 256);
                if (256 - k) as nat + 1 < 256 {
                    vstd::arithmetic::power2::lemma_pow2_strictly_increases((256 - k) as nat + 1, 256);
                }
                assert(qv <= x) by {
                    vstd::arithmetic::div_mod::lemma_div_is_ordered_by_denominator(x as int, 1, d as int);
                }
            }
            let doubled = remainder.shift_left(1);
            let mut rem = doubled.add(U256Muldiv::new(0, bit as u128));
            let mut q = quotient.shift_left(1);
            proof {
                assert(2 * qv < u256_modulus());
                vstd::arithmetic::div_mod::lemma_small_mod(2 * qv, u256_modulus());
                if top {
                    assert(doubled@ == 2 * r - u256_modulus()) by {
                        vstd::arithmetic::div_mod::lemma_fundamental_div_mod_converse(
                            2 * r as int, u256_modulus() as int, 1, 2 * r - u256_modulus());
                    }
                } else {
                    vstd::arithmetic::div_mod::lemma_small_mod(2 * r, u256_modulus());
                }
                vstd::arithmetic::div_mod::lemma_small_mod((doubled@ + bit) as nat, u256_modulus());
            }
            if top || rem.gte(divisor) {
                let ghost before = rem@;
                rem = rem.sub(divisor);
                q = q.add(U256Muldiv::new(0, 1));
                proof {
                    vstd::arithmetic::div_mod::lemma_small_mod((2 * qv + 1) as nat, u256_modulus());
                    if top {
                        vstd::arithmetic::div_mod::lemma_fundamental_div_mod_converse(
                            before - d, u256_modulus() as int, -1, 2 * r + bit - d);
                    } else {
                        vstd::arithmetic::div_mod::lemma_small_mod((before - d) as nat, u256_modulus());
                    }
                }
            }
            quotient = q;
            remainder = rem;
            k -= 1;
        }
        proof {
            vstd::arithmetic::power2::lemma2_to64();
            assert(k == 0);
            assert(self@ / pow2(0) == self@);
        }
        (quotient, remainder)
    }

    /// Whether the value is zero.
    pub fn is_zero(self) -> (r: bool)
        ensures
            r == (self@ == 0),
    {
        proof { lemma_words_digits(self.items); }
        let mut i: usize = 0;
        while i < NUM_WORDS
            invariant
                i <= 4,
                forall|j: int| 0 <= j < i ==> self.items[j] == 0,
            decreases 4 - i,
        {
            if self.items[i] != 0 {
                proof { lemma_words_digits(self.items); }
                return false;
            }
            i += 1;
        }
        true
    }
}

/// The value of a word-left-shifted array is the value times 2^64, modulo 2^256.
proof fn lemma_shift_word_left_value(w: [u64; 4], r: [u64; 4])
    requires
        r[0] == 0,
        r[1] == w[0],
        r[2] == w[1],
        r[3] == w[2],
    ensures
        words_value(r) == (words_value(w) * word_base()) % u256_modulus(),
{
    lemma_word_pow_values();
    lemma_words_digits(r);
    let b = word_base() as int;
    let m = u256_modulus() as int;
    let (a0, a1, a2, a3) = (w[0] as int, w[1] as int, w[2] as int, w[3] as int);
    let rv = words_value(r) as int;
    assert(rv == b * (a0 + b * (a1 + b * a2)));
    assert(words_value(w) * b == rv + a3 * m) by (nonlinear_arith)
        requires
            words_value(w) == a0 + b * (a1 + b * (a2 + b * a3)),
            rv == b * (a0 + b * (a1 + b * a2)),
            m == b * b * b * b;
    vstd::arithmetic::div_mod::lemma_fundamental_div_mod_converse(words_value(w) * b, m, a3, rv);
}

/// If the words agree above index `i` and `a[i] < c[i]`, then `a < c`.
proof fn lemma_lex_order(a: [u64; 4], c: [u64; 4], i: int)
    requires
        0 <= i < 4,
        a[i] < c[i],
        forall|j: int| i < j < 4 ==> a[j] == c[j],
    ensures
        words_value(a) < words_value(c),
{
    let b = word_base() as int;
    let (a0, a1, a2, a3) = (a[0] as int, a[1] as int, a[2] as int, a[3] as int);
    let (c0, c1, c2, c3) = (c[0] as int, c[1] as int, c[2] as int, c[3] as int);
    assert(0 <= a0 < b && 0 <= a1 < b && 0 <= a2 < b && 0 <= a3 < b);
    assert(0 <= c0 < b && 0 <= c1 < b && 0 <= c2 < b && 0 <= c3 < b);
    if i == 3 {
        assert(a0 + b * (a1 + b * (a2 + b * a3)) < c0 + b * (c1 + b * (c2 + b * c3))) by (nonlinear_arith)
            requires 0 <= a0 < b, 0 <= a1 < b, 0 <= a2 < b, a3 + 1 <= c3, c0 >= 0, c1 >= 0, c2 >= 0;
    } else if i == 2 {
        assert(a0 + b * (a1 + b * a2) < c0 + b * (c1 + b * c2)) by (nonlinear_arith)
            requires 0 <= a0 < b, 0 <= a1 < b, a2 + 1 <= c2, c0 >= 0, c1 >= 0;
        assert(a0 + b * (a1 + b * (a2 + b * a3)) < c0 + b * (c1 + b * (c2 + b * c3))) by (nonlinear_arith)
            requires a0 + b * (a1 + b * a2) < c0 + b * (c1 + b * c2), a3 == c3, b > 0;
    } else if i == 1 {
        assert(a0 + b * a1 < c0 + b * c1) by (nonlinear_arith)
            requires 0 <= a0 < b, a1 + 1 <= c1, c0 >= 0;
        assert(a0 + b * (a1 + b * (a2 + b * a3)) < c0 + b * (c1 + b * (c2 + b * c3))) by (nonlinear_arith)
            requires a0 + b * a1 < c0 + b * c1, a3 == c3, a2 == c2, b > 0;
    } else {
        assert(a0 + b * (a1 + b * (a2 + b * a3)) < c0 + b * (c1 + b * (c2 + b * c3))) by (nonlinear_arith)
            requires a0 < c0, a3 == c3, a2 == c2, a1 == c1;
    }
}


/// Subtracting what was added gives the value back: for values below
/// 2^256, `(a + b) mod 2^256` less `b`, mod 2^256, is `a` (what `add` then
/// `sub` compute).
pub proof fn law_u256_add_then_sub(a: nat, b: nat)
    requires
        a < u256_modulus(),
        b < u256_modulus(),
    ensures
        (((a + b) % u256_modulus()) as int - b) % (u256_modulus() as int) == a,
{
    let m = u256_modulus() as int;
    if a + b < m {
        vstd::arithmetic::div_mod::lemma_small_mod((a + b) as nat, m as nat);
        vstd::arithmetic::div_mod::lemma_small_mod(a, m as nat);
    } else {
        vstd::arithmetic::div_mod::lemma_fundamental_div_mod_converse((a + b) as int, m, 1, a + b - m);
        vstd::arithmetic::div_mod::lemma_fundamental_div_mod_converse(a - m, m, -1, a as int);
    }
}

/// A value plus its additive inverse (what `get_add_inverse` computes)
/// wraps to zero.
pub proof fn law_u256_add_inverse(a: nat)
    requires
        a < u256_modulus(),
    ensures
        (a + ((u256_modulus() - a) % (u256_modulus() as int))) % (u256_modulus() as int) == 0,
{
    let m = u256_modulus() as int;
    if a == 0 {
        vstd::arithmetic::div_mod::lemma_fundamental_div_mod_converse(m, m, 1, 0);
        vstd::arithmetic::div_mod::lemma_small_mod(0, m as nat);
    } else {
        vstd::arithmetic::div_mod::lemma_small_mod((m - a) as nat, m as nat);
        vstd::arithmetic::div_mod::lemma_fundamental_div_mod_converse(m, m, 1, 0);
    }
}

/// Dividing a product that does not wrap by one factor gives the other
/// (what `mul` then `div` compute).
pub proof fn law_u256_mul_then_div(a: nat, b: nat)
    requires
        b > 0,
        a * b < u256_modulus(),
    ensures
        ((a * b) % u256_modulus()) / b == a,
{
    vstd::arithmetic::div_mod::lemma_small_mod(a * b, u256_modulus());
    vstd::arithmetic::div_mod::lemma_fundamental_div_mod_converse((a * b) as int, b as int, a as int, 0);
}

/// Shifting left then right by the same amount gives the value back when
/// no bit is shifted out (what `shift_left` then `shift_right` compute).
pub proof fn law_u256_shift_round_trip(a: nat, k: nat)
    requires
        a * pow2(k) < u256_modulus(),
    ensures
        ((a * pow2(k)) % u256_modulus()) / pow2(k) == a,
{
    vstd::arithmetic::power2::lemma_pow2_pos(k);
    law_u256_mul_then_div(a, pow2(k));
}

} // verus!
