use vstd::prelude::*;

verus! {

/// A 32-byte account address.
pub type Key = [u8; 32];

/// An account as the logic reads it: its address, its owner program and its data.
#[derive(Clone, Debug)]
pub struct AccountView {
    pub key: [u8; 32],
    pub owner: [u8; 32],
    pub data: Vec<u8>,
}

/// The 32-byte key whose bytes are `s`.
pub open spec fn key_of(s: Seq<u8>) -> [u8; 32] {
    choose|k: [u8; 32]| k@ == s
}

/// A key is the key of its own bytes.
pub proof fn lemma_key_of(k: [u8; 32])
    ensures
        key_of(k@) == k,
{
    let c = key_of(k@);
    assert(c@ == k@);
    assert(c =~= k) by {
        assert forall|i: int| 0 <= i < 32 implies c[i] == k[i] by {
            assert(c@[i] == k@[i]);
        }
    }
}

/// The little-endian number held in `n` bytes of `s` from `off`.
pub open spec fn le_value(s: Seq<u8>, off: int, n: nat) -> nat
    decreases n,
{
    if n == 0 {
        0
    } else {
        s[off] as nat + 256 * le_value(s, off + 1, (n - 1) as nat)
    }
}

/// Whether two addresses are the same.
pub fn key_eq(a: &[u8; 32], b: &[u8; 32]) -> (r: bool)
    ensures
        r == (a@ == b@),
{
    let mut i: usize = 0;
    while i < 32
        invariant
            i <= 32,
            forall|j: int| 0 <= j < i ==> a[j] == b[j],
        decreases 32 - i,
    {
        if a[i] != b[i] {
            return false;
        }
        i += 1;
    }
    proof {
        assert(a@ =~= b@);
    }
    true
}

/// The 32 bytes of `data` from `off`, as an address.
pub fn read_key(data: &Vec<u8>, off: usize) -> (r: [u8; 32])
    requires
        off + 32 <= data.len(),
    ensures
        r@ == data@.subrange(off as int, off + 32),
{
    let mut r: [u8; 32] = [0u8; 32];
    let mut i: usize = 0;
    while i < 32
        invariant
            i <= 32,
            off + 32 <= data.len(),
            forall|j: int| 0 <= j < i ==> r[j] == data@[off + j],
        decreases 32 - i,
    {
        r[i] = data[off + i];
        i += 1;
    }
    proof {
        assert(r@ =~= data@.subrange(off as int, off + 32));
    }
    r
}

/// The little-endian `u64` at `off`.
pub fn read_u64(data: &Vec<u8>, off: usize) -> (r: u64)
    requires
        off + 8 <= data.len(),
    ensures
        r as nat == le_value(data@, off as int, 8),
{
    let mut r: u64 = 0;
    let mut i: usize = 8;
    proof {
        reveal_with_fuel(le_value, 9);
        vstd::arithmetic::power2::lemma2_to64();
    }
    while i > 0
        invariant
            i <= 8,
            off + 8 <= data.len(),
            r as nat == le_value(data@, off + i, (8 - i) as nat),
            r < vstd::arithmetic::power2::pow2((8 * (8 - i)) as nat),
        decreases i,
    {
        i -= 1;
        let b = data[off + i];
        proof {
            lemma_le_step(data@, off + i, (8 - i - 1) as nat, r as nat);
            vstd::arithmetic::power2::lemma_pow2_adds(8, (8 * (8 - i - 1)) as nat);
            vstd::arithmetic::power2::lemma2_to64();
            assert(8 + 8 * (8 - i - 1) == 8 * (8 - i));
            assert(r * 256 + b < vstd::arithmetic::power2::pow2((8 * (8 - i)) as nat)) by (nonlinear_arith)
                requires
                    r < vstd::arithmetic::power2::pow2((8 * (8 - i - 1)) as nat),
                    b < 256,
                    vstd::arithmetic::power2::pow2((8 * (8 - i)) as nat) == 256
                        * vstd::arithmetic::power2::pow2((8 * (8 - i - 1)) as nat),
            ;
            vstd::arithmetic::power2::lemma2_to64_rest();
            assert(vstd::arithmetic::power2::pow2(64) == 0x1_0000_0000_0000_0000);
            if i > 0 {
                vstd::arithmetic::power2::lemma_pow2_strictly_increases((8 * (8 - i)) as nat, 64);
            }
        }
        r = r * 256 + b as u64;
    }
    r
}

/// Appending one more significant byte to a little-endian number.
pub proof fn lemma_le_step(s: Seq<u8>, off: int, n: nat, v: nat)
    requires
        v == le_value(s, off + 1, n),
    ensures
        le_value(s, off, n + 1) == s[off] as nat + 256 * v,
{
    assert((n + 1 - 1) as nat == n);
}

/// The little-endian `u32` at `off`.
pub fn read_u32(data: &Vec<u8>, off: usize) -> (r: u32)
    requires
        off + 4 <= data.len(),
    ensures
        r as nat == le_value(data@, off as int, 4),
{
    proof {
        reveal_with_fuel(le_value, 5);
    }
    let b0 = data[off] as u32;
    let b1 = data[off + 1] as u32;
    let b2 = data[off + 2] as u32;
    let b3 = data[off + 3] as u32;
    b0 + 256 * (b1 + 256 * (b2 + 256 * b3))
}

/// The little-endian `u16` at `off`.
pub fn read_u16(data: &Vec<u8>, off: usize) -> (r: u16)
    requires
        off + 2 <= data.len(),
    ensures
        r as nat == le_value(data@, off as int, 2),
{
    proof {
        reveal_with_fuel(le_value, 3);
    }
    let b0 = data[off] as u16;
    let b1 = data[off + 1] as u16;
    b0 + 256 * b1
}

/// The little-endian `u128` at `off`: two `u64` halves.
pub fn read_u128(data: &Vec<u8>, off: usize) -> (r: u128)
    requires
        off + 16 <= data.len(),
    ensures
        r as nat == le_value(data@, off as int, 16),
{
    let lo = read_u64(data, off);
    let hi = read_u64(data, off + 8);
    proof {
        lemma_le_split(data@, off as int, 8, 8);
        vstd::arithmetic::power2::lemma2_to64();
        assert(vstd::arithmetic::power2::pow2(8 * 8) == 0x1_0000_0000_0000_0000);
    }
    (hi as u128) * 0x1_0000_0000_0000_0000 + lo as u128
}

/// A little-endian number splits into its low `a` bytes and the next `b` bytes.
pub proof fn lemma_le_split(s: Seq<u8>, off: int, a: nat, b: nat)
    ensures
        le_value(s, off, a + b) == le_value(s, off, a) + vstd::arithmetic::power2::pow2(8 * a)
            * le_value(s, off + a, b),
    decreases a,
{
    if a == 0 {
        vstd::arithmetic::power2::lemma2_to64();
        assert(off + a == off);
    } else {
        lemma_le_split(s, off + 1, (a - 1) as nat, b);
        assert((a + b - 1) as nat == (a - 1) as nat + b);
        assert(off + 1 + (a - 1) as nat == off + a);
        vstd::arithmetic::power2::lemma_pow2_adds(8, 8 * (a - 1) as nat);
        assert(8 + 8 * (a - 1) as nat == 8 * a);
        vstd::arithmetic::power2::lemma2_to64();
        let p = vstd::arithmetic::power2::pow2(8 * (a - 1) as nat) as int;
        let x = le_value(s, off + 1, (a - 1) as nat) as int;
        let y = le_value(s, off + a, b) as int;
        assert(256 * (x + p * y) == 256 * x + (256 * p) * y) by (nonlinear_arith);
    }
}

/// The byte at `off`.
pub fn read_u8(data: &Vec<u8>, off: usize) -> (r: u8)
    requires
        off < data.len(),
    ensures
        r == data@[off as int],
{
    data[off]
}

} // verus!
