use vstd::prelude::*;

use crate::bytes::{key_eq, le_value, read_key, read_u128, read_u16, read_u32, read_u64, AccountView};
use crate::errors::ErrorCode;
use crate::clmm::clmm_price;
use crate::pools::WHIRLPOOL_PROGRAM_ID;
use crate::q64_math::{safe_mul_div_cast, safe_mul_shr_cast};
use crate::sqrt_price_math::{
    MAX_SQRT_PRICE_X64, MIN_SQRT_PRICE_X64, delta_a_outcome, delta_b_outcome, flatten_delta, get_amount_delta_a,
    get_amount_delta_b, price_lower, price_upper,
};
use crate::u64x64_math::ONE;
use crate::wide::Rounding;
use crate::token_fee::{get_transfer_fee, mint_fee_defined, mint_transfer_fee, MintFeeInfo, TOKEN_PROGRAM_ID};
use crate::whirlpool_math::{
    MAX_TICK_INDEX, MIN_TICK_INDEX, compute_swap_step, wp_swap_step, SwapStepComputation,
    ceil_division_u32, floor_division, sqrt_price_from_tick, sqrt_price_from_tick_index, tick_from_sqrt_price,
    tick_from_sqrt_price_defined, tick_index_from_sqrt_price,
};

verus! {

/// Ticks per Whirlpool tick array.
pub const WHIRLPOOL_TICK_ARRAY_SIZE: usize = 88;

/// Bytes of one tick in a fixed tick array, and of an initialized tick in a
/// dynamic one.
pub const WHIRLPOOL_TICK_LEN: usize = 113;

/// The discriminator of a dynamic tick array account.
pub const DYNAMIC_TICK_ARRAY_DISCRIMINATOR: [u8; 8] = [17, 216, 246, 142, 225, 199, 218, 56];

/// The discriminator of a fixed tick array account.
pub const FIXED_TICK_ARRAY_DISCRIMINATOR: [u8; 8] = [42, 50, 55, 254, 208, 36, 111, 186];

/// How a tick array account lays out its ticks.
#[derive(Debug, Clone, Copy, PartialEq, Eq, Structural)]
pub enum TickArrayType {
    /// Every tick stored at a fixed size.
    Fixed,
    /// A bitmap of initialized ticks, each stored in full only when
    /// initialized.
    Dynamic,
}

/// A Whirlpool tick.
#[derive(Debug, Clone, Copy, Default)]
pub struct WhirlpoolTick {
    pub initialized: u8,
    pub liquidity_net: i128,
    pub liquidity_gross: u128,
    pub fee_growth_outside_a: u128,
    pub fee_growth_outside_b: u128,
    pub reward_growths_outside: [u128; 3],
}

impl WhirlpoolTick {
    /// Whether the tick is initialized.
    pub fn is_initialized(&self) -> (r: bool)
        ensures
            r == (self.initialized != 0),
    {
        self.initialized != 0
    }
}

/// The payload of an initialized tick in a dynamic tick array.
#[derive(Debug, Clone, Copy, Default)]
pub struct DynamicTickData {
    pub liquidity_net: i128,
    pub liquidity_gross: u128,
    pub fee_growth_outside_a: u128,
    pub fee_growth_outside_b: u128,
    pub reward_growths_outside: [u128; 3],
}

/// A tick of a dynamic tick array.
#[derive(Debug, Clone, Copy)]
pub enum DynamicTick {
    Uninitialized,
    Initialized(DynamicTickData),
}

impl DynamicTick {
    /// The tick in the fixed layout: all zero when uninitialized, else
    /// flagged initialized with the payload's fields.
    pub fn to_tick(self) -> (r: WhirlpoolTick)
        ensures
            match self {
                DynamicTick::Uninitialized => r == (WhirlpoolTick {
                    initialized: 0,
                    liquidity_net: 0,
                    liquidity_gross: 0,
                    fee_growth_outside_a: 0,
                    fee_growth_outside_b: 0,
                    reward_growths_outside: [0u128, 0u128, 0u128],
                }),
                DynamicTick::Initialized(d) => r == (WhirlpoolTick {
                    initialized: 1,
                    liquidity_net: d.liquidity_net,
                    liquidity_gross: d.liquidity_gross,
                    fee_growth_outside_a: d.fee_growth_outside_a,
                    fee_growth_outside_b: d.fee_growth_outside_b,
                    reward_growths_outside: d.reward_growths_outside,
                }),
            },
    {
        match self {
            DynamicTick::Uninitialized => WhirlpoolTick {
                initialized: 0,
                liquidity_net: 0,
                liquidity_gross: 0,
                fee_growth_outside_a: 0,
                fee_growth_outside_b: 0,
                reward_growths_outside: [0u128, 0u128, 0u128],
            },
            DynamicTick::Initialized(data) => WhirlpoolTick {
                initialized: 1,
                liquidity_net: data.liquidity_net,
                liquidity_gross: data.liquidity_gross,
                fee_growth_outside_a: data.fee_growth_outside_a,
                fee_growth_outside_b: data.fee_growth_outside_b,
                reward_growths_outside: data.reward_growths_outside,
            },
        }
    }
}

/// The tick stored at byte `off` of an account: the flag byte, then the
/// signed and gross liquidity, the two fee growths and three reward
/// growths, each 16 bytes.
pub open spec fn tick_fields_at(d: Seq<u8>, off: int, initialized: u8) -> WhirlpoolTick {
    WhirlpoolTick {
        initialized,
        liquidity_net: le_value(d, off + 1, 16) as u128 as i128,
        liquidity_gross: le_value(d, off + 17, 16) as u128,
        fee_growth_outside_a: le_value(d, off + 33, 16) as u128,
        fee_growth_outside_b: le_value(d, off + 49, 16) as u128,
        reward_growths_outside: [
            le_value(d, off + 65, 16) as u128,
            le_value(d, off + 81, 16) as u128,
            le_value(d, off + 97, 16) as u128,
        ],
    }
}

/// Reads the tick at byte `off` with the given flag; see `tick_fields_at`.
fn read_tick_fields(data: &Vec<u8>, off: usize, initialized: u8) -> (r: WhirlpoolTick)
    requires
        off + 113 <= data@.len(),
    ensures
        r == tick_fields_at(data@, off as int, initialized),
{
    assert(data@.len() == data.len());
    WhirlpoolTick {
        initialized,
        liquidity_net: read_u128(data, off + 1) as i128,
        liquidity_gross: read_u128(data, off + 17),
        fee_growth_outside_a: read_u128(data, off + 33),
        fee_growth_outside_b: read_u128(data, off + 49),
        reward_growths_outside: [read_u128(data, off + 65), read_u128(data, off + 81), read_u128(data, off + 97)],
    }
}

/// The number of set bits among the lowest `n` bits of `x`.
pub open spec fn count_ones_below(x: u128, n: nat) -> nat
    decreases n,
{
    if n == 0 {
        0
    } else {
        count_ones_below(x, (n - 1) as nat) + if (x >> ((n - 1) as u128)) & 1u128 == 1u128 {
            1nat
        } else {
            0nat
        }
    }
}

/// The number of set bits of `x`: `x.count_ones()`.
pub fn count_ones_u128(x: u128) -> (r: u32)
    ensures
        r == count_ones_below(x, 128),
{
    let mut count: u32 = 0;
    let mut k: u32 = 0;
    while k < 128
        invariant
            k <= 128,
            count == count_ones_below(x, k as nat),
            count <= k,
        decreases 128 - k,
    {
        proof {
            assert((x >> (k as u128)) == (x >> k)) by (bit_vector);
        }
        if (x >> k) & 1u128 == 1u128 {
            count += 1;
        }
        k += 1;
    }
    count
}

/// A Whirlpool tick array account read in place, with its layout.
#[derive(Debug, Clone)]
pub struct WhirlpoolTickArrayRef {
    pub data: Vec<u8>,
    pub array_type: TickArrayType,
}

/// The layout a tick array account's discriminator names; `None` for any
/// other account or one under 8 bytes.
pub open spec fn array_type_of(d: Seq<u8>) -> Option<TickArrayType> {
    if d.len() < 8 {
        None
    } else if d.subrange(0, 8) == FIXED_TICK_ARRAY_DISCRIMINATOR@ {
        Some(TickArrayType::Fixed)
    } else if d.subrange(0, 8) == DYNAMIC_TICK_ARRAY_DISCRIMINATOR@ {
        Some(TickArrayType::Dynamic)
    } else {
        None
    }
}

/// The first 8 bytes of `data`, as an array.
fn read_discriminator(data: &Vec<u8>) -> (r: [u8; 8])
    requires
        data@.len() >= 8,
    ensures
        r@ == data@.subrange(0, 8),
{
    let mut r: [u8; 8] = [0u8; 8];
    let mut i: usize = 0;
    while i < 8
        invariant
            i <= 8,
            data@.len() >= 8,
            forall|j: int| 0 <= j < i ==> r[j] == data@[j],
        decreases 8 - i,
    {
        r[i] = data[i];
        i += 1;
    }
    assert(r@ =~= data@.subrange(0, 8));
    r
}

/// Whether two discriminators are the same.
fn discriminator_eq(a: &[u8; 8], b: &[u8; 8]) -> (r: bool)
    ensures
        r == (a@ == b@),
{
    let mut i: usize = 0;
    while i < 8
        invariant
            i <= 8,
            forall|j: int| 0 <= j < i ==> a[j] == b[j],
        decreases 8 - i,
    {
        if a[i] != b[i] {
            return false;
        }
        i += 1;
    }
    assert(a@ =~= b@);
    true
}

impl WhirlpoolTickArrayRef {
    /// The layout of a tick array account; `InvalidAccountData` for an
    /// unknown discriminator or an account under 8 bytes.
    pub fn detect_array_type(account_info: &AccountView) -> (r: Result<TickArrayType, ErrorCode>)
        ensures
            match array_type_of(account_info.data@) {
                Some(t) => r == Ok::<TickArrayType, ErrorCode>(t),
                None => r == Err::<TickArrayType, ErrorCode>(ErrorCode::InvalidAccountData),
            },
    {
        let data = &account_info.data;
        if data.len() < 8 {
            return Err(ErrorCode::InvalidAccountData);
        }
        let discriminator = read_discriminator(data);
        if discriminator_eq(&discriminator, &FIXED_TICK_ARRAY_DISCRIMINATOR) {
            Ok(TickArrayType::Fixed)
        } else if discriminator_eq(&discriminator, &DYNAMIC_TICK_ARRAY_DISCRIMINATOR) {
            Ok(TickArrayType::Dynamic)
        } else {
            Err(ErrorCode::InvalidAccountData)
        }
    }

    /// A tick array read from an account; errors as `detect_array_type`.
    pub fn new(account_info: &AccountView) -> (r: Result<Self, ErrorCode>)
        ensures
            match array_type_of(account_info.data@) {
                Some(t) => r matches Ok(a) && a.array_type == t && a.data@ == account_info.data@,
                None => r matches Err(e) && e == ErrorCode::InvalidAccountData,
            },
    {
        let array_type = Self::detect_array_type(account_info)?;
        let data = account_info.data.clone();
        assert(data@ =~= account_info.data@);
        Ok(WhirlpoolTickArrayRef { data, array_type })
    }

    /// The array's first tick, at byte 8 in both layouts.
    pub fn start_tick_index(&self) -> (r: i32)
        requires
            self.data@.len() >= 12,
        ensures
            r == le_value(self.data@, 8, 4) as u32 as i32,
    {
        read_u32(&self.data, 8) as i32
    }

    /// The pool the array belongs to: after the ticks in the fixed layout,
    /// at byte 12 in the dynamic one.
    pub fn whirlpool(&self) -> (r: [u8; 32])
        requires
            self.array_type == TickArrayType::Fixed ==> self.data@.len() >= 9988,
            self.array_type == TickArrayType::Dynamic ==> self.data@.len() >= 44,
        ensures
            self.array_type == TickArrayType::Fixed ==> r@ == self.data@.subrange(9956, 9988),
            self.array_type == TickArrayType::Dynamic ==> r@ == self.data@.subrange(12, 44),
    {
        match self.array_type {
            TickArrayType::Fixed => read_key(&self.data, 12 + WHIRLPOOL_TICK_ARRAY_SIZE * WHIRLPOOL_TICK_LEN),
            TickArrayType::Dynamic => read_key(&self.data, 12),
        }
    }

    /// The initialized-tick bitmap of a dynamic array (byte 44); `None` for
    /// a fixed one.
    pub fn get_tick_bitmap(&self) -> (r: Option<u128>)
        requires
            self.array_type == TickArrayType::Dynamic ==> self.data@.len() >= 60,
        ensures
            self.array_type == TickArrayType::Fixed ==> r is None,
            self.array_type == TickArrayType::Dynamic ==> r == Some(le_value(self.data@, 44, 16) as u128),
    {
        match self.array_type {
            TickArrayType::Fixed => None,
            TickArrayType::Dynamic => Some(read_u128(&self.data, 44)),
        }
    }
}

/// The all-zero tick.
pub open spec fn zero_tick() -> WhirlpoolTick {
    WhirlpoolTick {
        initialized: 0,
        liquidity_net: 0,
        liquidity_gross: 0,
        fee_growth_outside_a: 0,
        fee_growth_outside_b: 0,
        reward_growths_outside: [0u128, 0u128, 0u128],
    }
}

/// Where the tick at position `off` starts among a dynamic array's ticks:
/// 113 bytes per initialized tick before it (per the bitmap at byte 44)
/// and one per uninitialized one. `InvalidTickIndex` for a negative
/// position, `InvalidAccountData` for an account under 60 bytes.
pub open spec fn dynamic_byte_offset(d: Seq<u8>, off: int) -> Result<int, ErrorCode> {
    if off < 0 {
        Err(ErrorCode::InvalidTickIndex)
    } else if d.len() < 60 {
        Err(ErrorCode::InvalidAccountData)
    } else {
        let bitmap = le_value(d, 44, 16) as u128;
        let mask = (((1u128 << (off as u128)) as int) - 1) as u128;
        let init = count_ones_below(bitmap & mask, 128);
        Ok(init * 113 + (off - init))
    }
}

/// The tick stored at a byte offset among a dynamic array's ticks (from
/// byte 60): its flag byte 0 for an uninitialized tick, 1 for an
/// initialized one followed by its fields; `InvalidDynTick` for another
/// flag or fewer than 113 bytes left.
pub open spec fn dynamic_tick_at(d: Seq<u8>, byte_offset: int) -> Result<WhirlpoolTick, ErrorCode> {
    let actual = 60 + byte_offset;
    if d.len() < actual + 113 {
        Err(ErrorCode::InvalidDynTick)
    } else if d[actual] == 0 {
        Ok(zero_tick())
    } else if d[actual] == 1 {
        Ok(tick_fields_at(d, actual, 1))
    } else {
        Err(ErrorCode::InvalidDynTick)
    }
}

/// The tick at position `off` of an array: `InvalidTickIndex` past 87;
/// in a fixed array the 113 bytes from `12 + 113 off` as stored; in a
/// dynamic one see `dynamic_byte_offset` and `dynamic_tick_at`. `None`
/// where the reading fails.
pub open spec fn tick_by_offset(a: WhirlpoolTickArrayRef, off: int) -> Option<Result<WhirlpoolTick, ErrorCode>> {
    let d = a.data@;
    if off >= 88 {
        Some(Err(ErrorCode::InvalidTickIndex))
    } else if off < 0 {
        None
    } else {
        match a.array_type {
            TickArrayType::Fixed => {
                let o = 12 + off * 113;
                if d.len() < o + 113 {
                    None
                } else {
                    Some(Ok(tick_fields_at(d, o, d[o])))
                }
            },
            TickArrayType::Dynamic => match dynamic_byte_offset(d, off) {
                Err(e) => Some(Err(e)),
                Ok(bo) => Some(dynamic_tick_at(d, bo)),
            },
        }
    }
}

/// The position of `tick` in an array starting at `start`, rounded down;
/// `InvalidTickSpacing` for a zero spacing.
pub open spec fn tick_offset_in(start: i32, tick: i32, tick_spacing: u16) -> Result<int, ErrorCode> {
    if tick_spacing == 0 {
        Err(ErrorCode::InvalidTickSpacing)
    } else {
        Ok((tick - start) / (tick_spacing as int))
    }
}

/// The array's first tick as stored.
pub open spec fn array_start(a: WhirlpoolTickArrayRef) -> i32 {
    le_value(a.data@, 8, 4) as u32 as i32
}

/// The tick at index `tick` of an array: its position (see
/// `tick_offset_in`), `InvalidTickIndex` outside 0 to 87, else
/// `tick_by_offset`. `None` where the reading fails.
pub open spec fn tick_at_index(a: WhirlpoolTickArrayRef, tick: i32, tick_spacing: u16) -> Option<Result<WhirlpoolTick, ErrorCode>> {
    if a.data@.len() < 12 || tick - array_start(a) < i32::MIN || tick - array_start(a) > i32::MAX {
        None
    } else {
        match tick_offset_in(array_start(a), tick, tick_spacing) {
            Err(e) => Some(Err(e)),
            Ok(o) => if o < 0 || o >= 88 {
                Some(Err(ErrorCode::InvalidTickIndex))
            } else {
                tick_by_offset(a, o)
            },
        }
    }
}

impl WhirlpoolTickArrayRef {
    /// Where a tick starts among a dynamic array's ticks; see
    /// `dynamic_byte_offset`.
    pub fn calculate_dynamic_byte_offset(&self, tick_offset: isize) -> (r: Result<usize, ErrorCode>)
        requires
            tick_offset < 128,
        ensures
            match dynamic_byte_offset(self.data@, tick_offset as int) {
                Ok(b) => r == Ok::<usize, ErrorCode>(b as usize) && 0 <= b <= tick_offset * 113,
                Err(e) => r == Err::<usize, ErrorCode>(e),
            },
    {
        if tick_offset < 0 {
            return Err(ErrorCode::InvalidTickIndex);
        }
        let data = &self.data;
        if data.len() < 60 {
            return Err(ErrorCode::InvalidAccountData);
        }
        let tick_bitmap = read_u128(data, 44);
        let shift = tick_offset as u32;
        proof {
            assert((1u128 << shift) >= 1) by (bit_vector)
                requires shift < 128;
            assert((1u128 << shift) == (1u128 << (tick_offset as u128))) by (bit_vector)
                requires shift < 128, shift == tick_offset;
        }
        let mask = (1u128 << shift) - 1;
        let initialized_ticks = count_ones_u128(tick_bitmap & mask) as usize;
        proof {
            assert(count_ones_below(tick_bitmap & mask, 128) <= 128) by {
                lemma_count_ones_bound(tick_bitmap & mask, 128);
            }
            assert(count_ones_below(tick_bitmap & mask, 128) <= tick_offset) by {
                lemma_count_ones_masked(tick_bitmap, tick_offset as nat);
            }
        }
        let uninitialized_ticks = tick_offset as usize - initialized_ticks;
        let byte_offset = initialized_ticks * 113 + uninitialized_ticks * 1;
        Ok(byte_offset)
    }

    /// The tick at a byte offset among a dynamic array's ticks; see
    /// `dynamic_tick_at`.
    pub fn get_dynamic_tick_at_byte_offset(&self, byte_offset: usize) -> (r: Result<WhirlpoolTick, ErrorCode>)
        requires
            byte_offset + 60 + 113 <= usize::MAX,
        ensures
            r == dynamic_tick_at(self.data@, byte_offset as int),
    {
        let data = &self.data;
        let actual_offset = 60 + byte_offset;
        if data.len() < actual_offset + WHIRLPOOL_TICK_LEN {
            return Err(ErrorCode::InvalidDynTick);
        }
        let variant = data[actual_offset];
        if variant == 0 {
            Ok(
                WhirlpoolTick {
                    initialized: 0,
                    liquidity_net: 0,
                    liquidity_gross: 0,
                    fee_growth_outside_a: 0,
                    fee_growth_outside_b: 0,
                    reward_growths_outside: [0u128, 0u128, 0u128],
                },
            )
        } else if variant == 1 {
            Ok(read_tick_fields(data, actual_offset, 1))
        } else {
            Err(ErrorCode::InvalidDynTick)
        }
    }

    /// The tick at a position of the array; see `tick_by_offset`.
    pub fn get_tick_by_offset(&self, offset: usize) -> (r: Result<WhirlpoolTick, ErrorCode>)
        requires
            tick_by_offset(*self, offset as int) is Some,
        ensures
            Some(r) == tick_by_offset(*self, offset as int),
    {
        if offset >= WHIRLPOOL_TICK_ARRAY_SIZE {
            return Err(ErrorCode::InvalidTickIndex);
        }
        match self.array_type {
            TickArrayType::Fixed => {
                let tick_offset = 12 + offset * WHIRLPOOL_TICK_LEN;
                let flag = self.data[tick_offset];
                Ok(read_tick_fields(&self.data, tick_offset, flag))
            },
            TickArrayType::Dynamic => {
                let byte_offset = self.calculate_dynamic_byte_offset(offset as isize)?;
                proof {
                    assert(byte_offset <= 88 * 113);
                }
                self.get_dynamic_tick_at_byte_offset(byte_offset)
            },
        }
    }

    /// The position of `tick_index` in the array, rounded down; see
    /// `tick_offset_in`.
    pub fn get_tick_offset(&self, tick_index: i32, tick_spacing: u16) -> (r: Result<isize, ErrorCode>)
        requires
            self.data@.len() >= 12,
            i32::MIN <= tick_index - array_start(*self) <= i32::MAX,
        ensures
            match tick_offset_in(array_start(*self), tick_index, tick_spacing) {
                Ok(o) => r matches Ok(v) && v as int == o,
                Err(e) => r == Err::<isize, ErrorCode>(e),
            },
    {
        if tick_spacing == 0 {
            return Err(ErrorCode::InvalidTickSpacing);
        }
        let start_tick_index = self.start_tick_index();
        let lhs = tick_index - start_tick_index;
        let rhs = tick_spacing as i32;
        proof {
            crate::clmm::lemma_floor_from_trunc(lhs as int, rhs as int);
            vstd::arithmetic::div_mod::lemma_fundamental_div_mod(lhs as int, rhs as int);
        }
        let d = lhs / rhs;
        let r = lhs % rhs;
        proof {
            let f = (lhs as int) / (rhs as int);
            if lhs < 0 {
                assert(f >= lhs) by (nonlinear_arith)
                    requires
                        (lhs as int) == rhs * f + ((lhs as int) % (rhs as int)),
                        0 <= (lhs as int) % (rhs as int) < rhs,
                        rhs >= 1,
                        lhs < 0;
            } else {
                assert(0 <= f <= lhs) by (nonlinear_arith)
                    requires
                        (lhs as int) == rhs * f + ((lhs as int) % (rhs as int)),
                        0 <= (lhs as int) % (rhs as int) < rhs,
                        rhs >= 1,
                        lhs >= 0;
            }
        }
        let offset = if r < 0 {
            d - 1
        } else {
            d
        };
        Ok(offset as isize)
    }

    /// The tick at index `tick_index`; see `tick_at_index`.
    pub fn get_tick(&self, tick_index: i32, tick_spacing: u16) -> (r: Result<WhirlpoolTick, ErrorCode>)
        requires
            tick_at_index(*self, tick_index, tick_spacing) is Some,
        ensures
            Some(r) == tick_at_index(*self, tick_index, tick_spacing),
    {
        let tick_offset = self.get_tick_offset(tick_index, tick_spacing)?;
        if tick_offset < 0 || tick_offset >= WHIRLPOOL_TICK_ARRAY_SIZE as isize {
            return Err(ErrorCode::InvalidTickIndex);
        }
        assert((tick_offset as usize) as int == tick_offset as int);
        self.get_tick_by_offset(tick_offset as usize)
    }
}

/// At most `n` of the lowest `n` bits are set.
pub proof fn lemma_count_ones_bound(x: u128, n: nat)
    ensures
        count_ones_below(x, n) <= n,
    decreases n,
{
    if n > 0 {
        lemma_count_ones_bound(x, (n - 1) as nat);
    }
}

/// Masking to the lowest `k` bits leaves at most `k` set.
pub proof fn lemma_count_ones_masked(x: u128, k: nat)
    requires
        k < 128,
    ensures
        count_ones_below(x & (((1u128 << (k as u128)) as int - 1) as u128), 128) <= k,
{
    let m = (((1u128 << (k as u128)) as int - 1) as u128);
    assert forall|i: nat| k <= i < 128 implies (#[trigger] ((x & m) >> (i as u128))) & 1u128 == 0u128 by {
        let kk = k as u128;
        let ii = i as u128;
        assert(((x & ((((1u128 << kk) as int - 1) as u128))) >> ii) & 1u128 == 0u128) by (bit_vector)
            requires kk <= ii < 128, kk < 128;
    }
    lemma_count_ones_high_zero(x & m, k, 128);
    lemma_count_ones_bound(x & m, k);
}

/// Bits at or above `k` that are clear add nothing to the count.
proof fn lemma_count_ones_high_zero(x: u128, k: nat, n: nat)
    requires
        k <= n,
        forall|i: nat| k <= i < n ==> (#[trigger] (x >> (i as u128))) & 1u128 == 0u128,
    ensures
        count_ones_below(x, n) == count_ones_below(x, k),
    decreases n,
{
    if n > k {
        lemma_count_ones_high_zero(x, k, (n - 1) as nat);
    }
    lemma_count_ones_bound(x, k);
}

/// The fixed-array search down from index `search` (by the spacing) for an
/// initialized tick below `tick`, within the array; unreadable ticks are
/// skipped. `None` where the computation fails.
pub open spec fn fixed_search_down(a: WhirlpoolTickArrayRef, search: int, tick: i32, tick_spacing: u16) -> Option<Option<i32>>
    decreases (if search >= array_start(a) { search - array_start(a) + 1 } else { 0 }),
{
    if tick_spacing == 0 || a.data@.len() < 12 {
        None
    } else if search < array_start(a) {
        Some(None)
    } else {
        match tick_at_index(a, search as i32, tick_spacing) {
            None => None,
            Some(t) => {
                if t matches Ok(tk) && tk.initialized != 0 && search < tick {
                    Some(Some(search as i32))
                } else if search - tick_spacing < i32::MIN {
                    None
                } else {
                    fixed_search_down(a, search - tick_spacing, tick, tick_spacing)
                }
            },
        }
    }
}

/// The fixed-array search up from index `search` (by the spacing) for an
/// initialized tick below `max`; unreadable ticks are skipped. `None` where
/// the computation fails.
pub open spec fn fixed_search_up(a: WhirlpoolTickArrayRef, search: int, max: int, tick_spacing: u16) -> Option<Option<i32>>
    decreases (if search < max { max - search } else { 0 }),
{
    if tick_spacing == 0 {
        None
    } else if search >= max {
        Some(None)
    } else {
        match tick_at_index(a, search as i32, tick_spacing) {
            None => None,
            Some(t) => {
                if t matches Ok(tk) && tk.initialized != 0 {
                    Some(Some(search as i32))
                } else if search + tick_spacing > i32::MAX {
                    None
                } else {
                    fixed_search_up(a, search + tick_spacing, max, tick_spacing)
                }
            },
        }
    }
}

/// The next initialized tick of a fixed array from `tick`: below it
/// searching down (`a_to_b`), or above it searching up to the array's end.
/// `None` (outer) where the computation fails.
pub open spec fn fixed_next_tick(a: WhirlpoolTickArrayRef, tick: i32, tick_spacing: u16, a_to_b: bool) -> Option<Option<i32>> {
    if a.data@.len() < 12 {
        None
    } else if a_to_b {
        fixed_search_down(a, tick as int, tick, tick_spacing)
    } else {
        let first = tick + tick_spacing;
        let max = array_start(a) + 88 * tick_spacing;
        if first > i32::MAX || max > i32::MAX {
            None
        } else {
            fixed_search_up(a, first, max, tick_spacing)
        }
    }
}

/// The dynamic-array search by position from `curr` for a set bit of the
/// bitmap (down for `a_to_b`, else up), within positions 0 to 87: the tick
/// of the first found.
pub open spec fn dynamic_search(bitmap: u128, curr: int, a_to_b: bool, start: i32, tick_spacing: u16) -> Option<i32>
    decreases (if a_to_b { curr + 1 } else { 88 - curr }),
{
    if curr < 0 || curr >= 88 {
        None
    } else if bitmap & ((1u128 << (curr as u128)) as u128) != 0 {
        Some((curr * tick_spacing + start) as i32)
    } else if a_to_b {
        dynamic_search(bitmap, curr - 1, a_to_b, start, tick_spacing)
    } else {
        dynamic_search(bitmap, curr + 1, a_to_b, start, tick_spacing)
    }
}

/// The next initialized tick of a dynamic array from `tick`: none outside
/// the array's range (shifted down one spacing for `!a_to_b`); else by the
/// bitmap from the tick's position (the next one up for `!a_to_b`). `None`
/// (outer) where the computation fails.
pub open spec fn dynamic_next_tick(a: WhirlpoolTickArrayRef, tick: i32, tick_spacing: u16, a_to_b: bool) -> Option<Option<i32>> {
    let d = a.data@;
    if d.len() < 60 {
        None
    } else {
        let start = array_start(a);
        let span = 88 * tick_spacing;
        let lower = if a_to_b { start as int } else { start - tick_spacing };
        let upper = if a_to_b { start + span } else { start + span - tick_spacing };
        if start + span > i32::MAX || (!a_to_b && (lower < i32::MIN || upper < i32::MIN)) {
            None
        } else if tick < lower || tick >= upper {
            Some(None)
        } else {
            match tick_offset_in(start, tick, tick_spacing) {
                Err(_) => Some(None),
                Ok(o) => {
                    let curr = if a_to_b { o } else { o + 1 };
                    Some(dynamic_search(le_value(d, 44, 16) as u128, curr, a_to_b, start, tick_spacing))
                },
            }
        }
    }
}

/// The next initialized tick of an array in the swap's direction.
pub open spec fn array_next_tick(a: WhirlpoolTickArrayRef, tick: i32, tick_spacing: u16, a_to_b: bool) -> Option<Option<i32>> {
    match a.array_type {
        TickArrayType::Fixed => fixed_next_tick(a, tick, tick_spacing, a_to_b),
        TickArrayType::Dynamic => dynamic_next_tick(a, tick, tick_spacing, a_to_b),
    }
}

impl WhirlpoolTickArrayRef {
    /// The next initialized tick of a fixed array; see `fixed_next_tick`.
    pub fn get_next_initialized_tick_fixed(&self, tick_index: i32, tick_spacing: u16, a_to_b: bool) -> (r: Option<i32>)
        requires
            fixed_next_tick(*self, tick_index, tick_spacing, a_to_b) is Some,
        ensures
            Some(r) == fixed_next_tick(*self, tick_index, tick_spacing, a_to_b),
    {
        let start_tick_index = self.start_tick_index();
        let mut search_index = tick_index;
        if a_to_b {
            while search_index >= start_tick_index
                invariant
                    self.data@.len() >= 12,
                    start_tick_index == array_start(*self),
                    fixed_search_down(*self, search_index as int, tick_index, tick_spacing) is Some,
                    fixed_search_down(*self, search_index as int, tick_index, tick_spacing) == fixed_next_tick(
                        *self,
                        tick_index,
                        tick_spacing,
                        a_to_b,
                    ),
                decreases (if search_index >= start_tick_index { search_index - start_tick_index + 1 } else { 0 }),
            {
                match self.get_tick(search_index, tick_spacing) {
                    Ok(tick) => {
                        if tick.is_initialized() && search_index < tick_index {
                            return Some(search_index);
                        }
                    },
                    Err(_) => {},
                }
                search_index -= tick_spacing as i32;
            }
        } else {
            search_index += tick_spacing as i32;
            let max_tick = start_tick_index + WHIRLPOOL_TICK_ARRAY_SIZE as i32 * tick_spacing as i32;
            while search_index < max_tick
                invariant
                    self.data@.len() >= 12,
                    max_tick == array_start(*self) + 88 * tick_spacing,
                    fixed_search_up(*self, search_index as int, max_tick as int, tick_spacing) is Some,
                    fixed_search_up(*self, search_index as int, max_tick as int, tick_spacing) == fixed_next_tick(
                        *self,
                        tick_index,
                        tick_spacing,
                        a_to_b,
                    ),
                decreases (if search_index < max_tick { max_tick - search_index } else { 0 }),
            {
                match self.get_tick(search_index, tick_spacing) {
                    Ok(tick) => {
                        if tick.is_initialized() {
                            return Some(search_index);
                        }
                    },
                    Err(_) => {},
                }
                search_index += tick_spacing as i32;
            }
        }
        None
    }

    /// The next initialized tick of a dynamic array; see
    /// `dynamic_next_tick`.
    pub fn get_next_initialized_tick_dynamic(&self, tick_index: i32, tick_spacing: u16, a_to_b: bool) -> (r: Option<i32>)
        requires
            self.array_type == TickArrayType::Dynamic,
            dynamic_next_tick(*self, tick_index, tick_spacing, a_to_b) is Some,
        ensures
            Some(r) == dynamic_next_tick(*self, tick_index, tick_spacing, a_to_b),
    {
        let start_tick_index = self.start_tick_index();
        let mut lower = start_tick_index;
        let mut upper = start_tick_index + WHIRLPOOL_TICK_ARRAY_SIZE as i32 * tick_spacing as i32;
        if !a_to_b {
            lower -= tick_spacing as i32;
            upper -= tick_spacing as i32;
        }
        if tick_index < lower || tick_index >= upper {
            return None;
        }
        let offset = match self.get_tick_offset(tick_index, tick_spacing) {
            Ok(offset) => offset,
            Err(_) => {
                return None;
            },
        };
        proof {
            let sp = tick_spacing as int;
            let lhs = tick_index - start_tick_index;
            vstd::arithmetic::div_mod::lemma_fundamental_div_mod(lhs, sp);
            let o = lhs / sp;
            if a_to_b {
                assert(0 <= o < 88) by (nonlinear_arith)
                    requires lhs == sp * o + lhs % sp, 0 <= lhs % sp < sp, 0 <= lhs < 88 * sp, sp >= 1;
            } else {
                assert(-1 <= o < 87) by (nonlinear_arith)
                    requires lhs == sp * o + lhs % sp, 0 <= lhs % sp < sp, -sp <= lhs < 87 * sp, sp >= 1;
            }
        }
        let mut curr_offset = offset as i32;
        if !a_to_b {
            curr_offset += 1;
        }
        let bitmap = match self.get_tick_bitmap() {
            Some(b) => b,
            None => {
                return None;
            },
        };
        while 0 <= curr_offset && curr_offset < WHIRLPOOL_TICK_ARRAY_SIZE as i32
            invariant
                start_tick_index == array_start(*self),
                bitmap == le_value(self.data@, 44, 16) as u128,
                -1 <= curr_offset <= 88,
                dynamic_search(bitmap, curr_offset as int, a_to_b, start_tick_index, tick_spacing) == dynamic_next_tick(
                    *self,
                    tick_index,
                    tick_spacing,
                    a_to_b,
                )->0,
                start_tick_index + 88 * tick_spacing <= i32::MAX,
                start_tick_index >= i32::MIN,
                dynamic_next_tick(*self, tick_index, tick_spacing, a_to_b) is Some,
            decreases (if a_to_b { curr_offset + 1 } else { 88 - curr_offset }),
        {
            proof {
                assert((1u128 << (curr_offset as u128)) == (1u128 << (curr_offset as u32))) by (bit_vector)
                    requires 0 <= curr_offset < 88;
                assert(curr_offset * tick_spacing <= 87 * tick_spacing) by (nonlinear_arith)
                    requires curr_offset <= 87, tick_spacing >= 0;
                assert(curr_offset * tick_spacing >= 0) by (nonlinear_arith)
                    requires curr_offset >= 0, tick_spacing >= 0;
            }
            let initialized = (bitmap & (1u128 << (curr_offset as u32))) != 0;
            if initialized {
                return Some((curr_offset * tick_spacing as i32) + start_tick_index);
            }
            curr_offset = if a_to_b {
                curr_offset - 1
            } else {
                curr_offset + 1
            };
        }
        None
    }

    /// The next initialized tick of the array; see `array_next_tick`.
    pub fn get_next_initialized_tick_index(&self, tick_index: i32, tick_spacing: u16, a_to_b: bool) -> (r: Option<i32>)
        requires
            array_next_tick(*self, tick_index, tick_spacing, a_to_b) is Some,
        ensures
            Some(r) == array_next_tick(*self, tick_index, tick_spacing, a_to_b),
    {
        match self.array_type {
            TickArrayType::Fixed => self.get_next_initialized_tick_fixed(tick_index, tick_spacing, a_to_b),
            TickArrayType::Dynamic => self.get_next_initialized_tick_dynamic(tick_index, tick_spacing, a_to_b),
        }
    }
}

/// The cap on a total fee rate (10%, over one million).
pub const FEE_RATE_HARD_LIMIT: u32 = 100_000;

/// The scale of the volatility accumulator per tick group.
pub const VOLATILITY_ACCUMULATOR_SCALE_FACTOR: u32 = 1000;

/// The denominator of the adaptive fee control factor.
pub const ADAPTIVE_FEE_CONTROL_FACTOR_DENOMINATOR: u32 = 1_000_000;

/// A price limit of zero means none.
pub const NO_EXPLICIT_SQRT_PRICE_LIMIT: u128 = 0u128;

/// The adaptive fee's fixed parameters.
#[derive(Debug, Clone, Copy)]
pub struct AdaptiveFeeConstants {
    pub filter_period: u16,
    pub decay_period: u16,
    pub reduction_factor: u16,
    pub adaptive_fee_control_factor: u32,
    pub max_volatility_accumulator: u32,
    pub tick_group_size: u16,
    pub major_swap_threshold_ticks: u16,
}

/// The adaptive fee's state.
#[derive(Debug, Clone, Copy)]
pub struct AdaptiveFeeVariables {
    pub last_reference_update_timestamp: u64,
    pub last_major_swap_timestamp: u64,
    pub volatility_reference: u32,
    pub tick_group_index_reference: i32,
    pub volatility_accumulator: u32,
}

/// The references after an update at `timestamp`: reset to the current
/// accumulator and tick group once the decay period has passed since the
/// last update (elapsed time saturating at zero), else unchanged.
pub open spec fn updated_reference(v: AdaptiveFeeVariables, tick_group_index: i32, timestamp: u64, c: AdaptiveFeeConstants) -> AdaptiveFeeVariables {
    let elapsed = if timestamp >= v.last_reference_update_timestamp {
        timestamp - v.last_reference_update_timestamp
    } else {
        0
    };
    if elapsed >= c.decay_period {
        AdaptiveFeeVariables {
            volatility_reference: v.volatility_accumulator,
            tick_group_index_reference: tick_group_index,
            last_reference_update_timestamp: timestamp,
            ..v
        }
    } else {
        v
    }
}

/// The accumulator at `tick_group_index`: the reference plus 1000 per tick
/// group of distance from the reference group (both saturating), capped at
/// the maximum.
pub open spec fn updated_accumulator(v: AdaptiveFeeVariables, tick_group_index: i32, c: AdaptiveFeeConstants) -> AdaptiveFeeVariables {
    let delta = if tick_group_index >= v.tick_group_index_reference {
        tick_group_index - v.tick_group_index_reference
    } else {
        v.tick_group_index_reference - tick_group_index
    };
    let vd = if delta * 1000 > u32::MAX {
        u32::MAX as int
    } else {
        delta * 1000
    };
    let sum = if v.volatility_reference + vd > u32::MAX {
        u32::MAX as int
    } else {
        v.volatility_reference + vd
    };
    AdaptiveFeeVariables {
        volatility_accumulator: if sum < c.max_volatility_accumulator {
            sum as u32
        } else {
            c.max_volatility_accumulator
        },
        ..v
    }
}

/// Whether `updated_accumulator` is computed without overflow.
pub open spec fn accumulator_update_defined(v: AdaptiveFeeVariables, tick_group_index: i32) -> bool {
    let d = tick_group_index - v.tick_group_index_reference;
    i32::MIN < d <= i32::MAX
}

impl AdaptiveFeeVariables {
    /// Moves the references on; see `updated_reference`.
    pub fn update_reference(&mut self, tick_group_index: i32, timestamp: u64, constants: &AdaptiveFeeConstants) -> (r: Result<(), ErrorCode>)
        ensures
            r == Ok::<(), ErrorCode>(()),
            *final(self) == updated_reference(*old(self), tick_group_index, timestamp, *constants),
    {
        let time_delta = timestamp.saturating_sub(self.last_reference_update_timestamp);
        if time_delta >= constants.decay_period as u64 {
            self.volatility_reference = self.volatility_accumulator;
            self.tick_group_index_reference = tick_group_index;
            self.last_reference_update_timestamp = timestamp;
        }
        Ok(())
    }

    /// Sets the accumulator for a tick group; see `updated_accumulator`.
    pub fn update_volatility_accumulator(&mut self, tick_group_index: i32, constants: &AdaptiveFeeConstants) -> (r: Result<(), ErrorCode>)
        requires
            accumulator_update_defined(*old(self), tick_group_index),
        ensures
            r == Ok::<(), ErrorCode>(()),
            *final(self) == updated_accumulator(*old(self), tick_group_index, *constants),
    {
        let d = tick_group_index - self.tick_group_index_reference;
        let tick_group_delta = if d < 0 {
            -d
        } else {
            d
        };
        let delta_u64 = (tick_group_delta as u32) as u64 * VOLATILITY_ACCUMULATOR_SCALE_FACTOR as u64;
        let volatility_delta: u32 = if delta_u64 > u32::MAX as u64 {
            u32::MAX
        } else {
            delta_u64 as u32
        };
        let sum = self.volatility_reference.saturating_add(volatility_delta);
        self.volatility_accumulator = if sum < constants.max_volatility_accumulator {
            sum
        } else {
            constants.max_volatility_accumulator
        };
        Ok(())
    }

    /// Records `timestamp` as the last major swap when the price moved at
    /// least the threshold in ticks.
    pub fn update_major_swap_timestamp(
        &mut self,
        pre_sqrt_price: u128,
        post_sqrt_price: u128,
        timestamp: u64,
        constants: &AdaptiveFeeConstants,
    ) -> (r: Result<(), ErrorCode>)
        requires
            tick_from_sqrt_price_defined(pre_sqrt_price),
            tick_from_sqrt_price_defined(post_sqrt_price),
            i32::MIN < tick_from_sqrt_price(post_sqrt_price) - tick_from_sqrt_price(pre_sqrt_price) <= i32::MAX,
        ensures
            r == Ok::<(), ErrorCode>(()),
            ({
                let d = tick_from_sqrt_price(post_sqrt_price) - tick_from_sqrt_price(pre_sqrt_price);
                let ad = if d < 0 { -d } else { d };
                *final(self) == if ad >= constants.major_swap_threshold_ticks {
                    AdaptiveFeeVariables { last_major_swap_timestamp: timestamp, ..*old(self) }
                } else {
                    *old(self)
                }
            }),
    {
        let pre_tick = tick_index_from_sqrt_price(pre_sqrt_price);
        let post_tick = tick_index_from_sqrt_price(post_sqrt_price);
        let d = post_tick - pre_tick;
        let tick_delta = if d < 0 {
            -d
        } else {
            d
        };
        if tick_delta >= constants.major_swap_threshold_ticks as i32 {
            self.last_major_swap_timestamp = timestamp;
        }
        Ok(())
    }
}

/// The adaptive fee of a pool: its parameters and state.
#[derive(Debug, Clone, Copy)]
pub struct AdaptiveFeeInfo {
    pub constants: AdaptiveFeeConstants,
    pub variables: AdaptiveFeeVariables,
}

/// The fee rate of a swap: fixed, or adaptive to how far the price has
/// moved in tick groups.
#[derive(Debug, Clone, Copy)]
pub enum FeeRateManager {
    Adaptive {
        a_to_b: bool,
        tick_group_index: i32,
        static_fee_rate: u16,
        adaptive_fee_constants: AdaptiveFeeConstants,
        adaptive_fee_variables: AdaptiveFeeVariables,
        core_tick_group_range_lower_bound: Option<(i32, u128)>,
        core_tick_group_range_upper_bound: Option<(i32, u128)>,
    },
    Static { static_fee_rate: u16 },
}

/// The fee rate manager at the start of a swap: static without adaptive
/// fee information; else at the current tick's group, with references
/// updated at `timestamp`, and the core range of tick groups (those within
/// reach of the maximum accumulator from the reference group), each end
/// with its square-root price when it lies inside the tick range. `None`
/// where the computation fails.
pub open spec fn fee_rate_manager_new(
    a_to_b: bool,
    current_tick_index: i32,
    timestamp: u64,
    static_fee_rate: u16,
    info: Option<AdaptiveFeeInfo>,
) -> Option<FeeRateManager> {
    match info {
        None => Some(FeeRateManager::Static { static_fee_rate }),
        Some(i) => {
            let c = i.constants;
            let g = c.tick_group_size as int;
            if g == 0 || (current_tick_index < 0 && current_tick_index - g < i32::MIN) {
                None
            } else {
                let tgi = (current_tick_index as int / g) as i32;
                let v = updated_reference(i.variables, tgi, timestamp, c);
                if c.max_volatility_accumulator < v.volatility_reference || c.max_volatility_accumulator - v.volatility_reference
                    + 1000 > u32::MAX {
                    None
                } else {
                    let delta = ((((c.max_volatility_accumulator - v.volatility_reference + 999) as nat / 1000) as u32) as i32) as int;
                    let lo = v.tick_group_index_reference - delta;
                    let hi = v.tick_group_index_reference + delta;
                    let lo_tick = lo * g;
                    let hi_tick = hi * g + g;
                    if lo < i32::MIN || hi > i32::MAX || lo_tick < i32::MIN || lo_tick > i32::MAX || hi * g < i32::MIN
                        || hi * g > i32::MAX || hi_tick > i32::MAX || hi_tick < i32::MIN || (hi_tick < 443636 && hi_tick
                        == i32::MIN) {
                        None
                    } else {
                        Some(
                            FeeRateManager::Adaptive {
                                a_to_b,
                                tick_group_index: tgi,
                                static_fee_rate,
                                adaptive_fee_constants: c,
                                adaptive_fee_variables: v,
                                core_tick_group_range_lower_bound: if lo_tick > -443636 {
                                    Some((lo as i32, sqrt_price_from_tick(lo_tick as i32)))
                                } else {
                                    None
                                },
                                core_tick_group_range_upper_bound: if hi_tick < 443636 {
                                    Some((hi as i32, sqrt_price_from_tick(hi_tick as i32)))
                                } else {
                                    None
                                },
                            },
                        )
                    }
                }
            }
        },
    }
}

/// The adaptive fee rate at the current accumulator:
/// `control * (accumulator * group size)^2 / 1e12`, capped at the hard
/// limit.
pub open spec fn adaptive_fee_rate(c: AdaptiveFeeConstants, v: AdaptiveFeeVariables) -> u32 {
    let crossed = v.volatility_accumulator * c.tick_group_size;
    let fee = (c.adaptive_fee_control_factor * (crossed * crossed)) / 1_000_000_000_000int;
    if fee > FEE_RATE_HARD_LIMIT {
        FEE_RATE_HARD_LIMIT
    } else {
        fee as u32
    }
}

/// The total fee rate: the static one, plus the adaptive one capped
/// together at the hard limit.
pub open spec fn total_fee_rate(m: FeeRateManager) -> u32 {
    match m {
        FeeRateManager::Static { static_fee_rate } => static_fee_rate as u32,
        FeeRateManager::Adaptive { static_fee_rate, adaptive_fee_constants, adaptive_fee_variables, .. } => {
            let t = static_fee_rate + adaptive_fee_rate(adaptive_fee_constants, adaptive_fee_variables);
            if t > FEE_RATE_HARD_LIMIT {
                FEE_RATE_HARD_LIMIT
            } else {
                t as u32
            }
        },
    }
}

/// Whether `total_fee_rate` is computed without overflow.
pub open spec fn total_fee_rate_defined(m: FeeRateManager) -> bool {
    match m {
        FeeRateManager::Static { .. } => true,
        FeeRateManager::Adaptive { adaptive_fee_constants, adaptive_fee_variables, .. } => adaptive_fee_variables.volatility_accumulator
            * adaptive_fee_constants.tick_group_size <= u32::MAX,
    }
}

/// The manager after its accumulator is updated for the current group.
pub open spec fn manager_accumulated(m: FeeRateManager) -> FeeRateManager {
    match m {
        FeeRateManager::Static { .. } => m,
        FeeRateManager::Adaptive {
            a_to_b,
            tick_group_index,
            static_fee_rate,
            adaptive_fee_constants,
            adaptive_fee_variables,
            core_tick_group_range_lower_bound,
            core_tick_group_range_upper_bound,
        } => FeeRateManager::Adaptive {
            a_to_b,
            tick_group_index,
            static_fee_rate,
            adaptive_fee_constants,
            adaptive_fee_variables: updated_accumulator(adaptive_fee_variables, tick_group_index, adaptive_fee_constants),
            core_tick_group_range_lower_bound,
            core_tick_group_range_upper_bound,
        },
    }
}

/// Whether `manager_accumulated` is computed without overflow.
pub open spec fn manager_accumulated_defined(m: FeeRateManager) -> bool {
    match m {
        FeeRateManager::Static { .. } => true,
        FeeRateManager::Adaptive { tick_group_index, adaptive_fee_variables, .. } => accumulator_update_defined(
            adaptive_fee_variables,
            tick_group_index,
        ),
    }
}

/// The manager moved one tick group in the swap's direction.
pub open spec fn manager_advanced(m: FeeRateManager) -> FeeRateManager {
    match m {
        FeeRateManager::Static { .. } => m,
        FeeRateManager::Adaptive {
            a_to_b,
            tick_group_index,
            static_fee_rate,
            adaptive_fee_constants,
            adaptive_fee_variables,
            core_tick_group_range_lower_bound,
            core_tick_group_range_upper_bound,
        } => FeeRateManager::Adaptive {
            a_to_b,
            tick_group_index: (if a_to_b { tick_group_index - 1 } else { tick_group_index + 1 }) as i32,
            static_fee_rate,
            adaptive_fee_constants,
            adaptive_fee_variables,
            core_tick_group_range_lower_bound,
            core_tick_group_range_upper_bound,
        },
    }
}

/// Whether `manager_advanced` stays in `i32`.
pub open spec fn manager_advanced_defined(m: FeeRateManager) -> bool {
    match m {
        FeeRateManager::Static { .. } => true,
        FeeRateManager::Adaptive { a_to_b, tick_group_index, .. } => if a_to_b {
            tick_group_index > i32::MIN
        } else {
            tick_group_index < i32::MAX
        },
    }
}

/// Whether the group lies below the core range's lower end.
pub open spec fn below_core(bound: Option<(i32, u128)>, tick_group_index: i32) -> bool {
    match bound {
        Some((i, _)) => tick_group_index < i,
        None => false,
    }
}

/// Whether the group lies above the core range's upper end.
pub open spec fn above_core(bound: Option<(i32, u128)>, tick_group_index: i32) -> bool {
    match bound {
        Some((i, _)) => tick_group_index > i,
        None => false,
    }
}

/// The square-root price of a core range end.
pub open spec fn bound_price(bound: Option<(i32, u128)>) -> u128 {
    match bound {
        Some((_, p)) => p,
        None => 0,
    }
}

/// The square-root price target bounded to the current tick group's edge in
/// the swap's direction, and whether the adaptive update is skipped: skipped
/// with the target unchanged for a static manager (not skipped), a zero
/// control factor or no liquidity; outside the core range the target is
/// only kept from crossing back into it.
pub open spec fn bounded_target(m: FeeRateManager, sqrt_price: u128, liquidity: u128) -> (u128, bool) {
    match m {
        FeeRateManager::Static { .. } => (sqrt_price, false),
        FeeRateManager::Adaptive {
            a_to_b,
            tick_group_index,
            adaptive_fee_constants,
            core_tick_group_range_lower_bound,
            core_tick_group_range_upper_bound,
            ..
        } => {
            if adaptive_fee_constants.adaptive_fee_control_factor == 0 || liquidity == 0 {
                (sqrt_price, true)
            } else if below_core(core_tick_group_range_lower_bound, tick_group_index) {
                let lp = bound_price(core_tick_group_range_lower_bound);
                if a_to_b {
                    (sqrt_price, true)
                } else {
                    (if sqrt_price < lp { sqrt_price } else { lp }, true)
                }
            } else if above_core(core_tick_group_range_upper_bound, tick_group_index) {
                let up = bound_price(core_tick_group_range_upper_bound);
                if a_to_b {
                    (if sqrt_price > up { sqrt_price } else { up }, true)
                } else {
                    (sqrt_price, true)
                }
            } else {
                let g = adaptive_fee_constants.tick_group_size as int;
                let boundary = if a_to_b {
                    tick_group_index * g
                } else {
                    tick_group_index * g + g
                };
                let bp = sqrt_price_from_tick(boundary as i32);
                (
                    if a_to_b {
                        if sqrt_price > bp { sqrt_price } else { bp }
                    } else {
                        if sqrt_price < bp { sqrt_price } else { bp }
                    },
                    false,
                )
            }
        },
    }
}

/// Whether `bounded_target` is computed without overflow.
pub open spec fn bounded_target_defined(m: FeeRateManager, sqrt_price: u128, liquidity: u128) -> bool {
    match m {
        FeeRateManager::Static { .. } => true,
        FeeRateManager::Adaptive { a_to_b, tick_group_index, adaptive_fee_constants, .. } => {
            let g = adaptive_fee_constants.tick_group_size as int;
            let boundary = if a_to_b {
                tick_group_index * g
            } else {
                tick_group_index * g + g
            };
            i32::MIN < tick_group_index * g <= i32::MAX && i32::MIN < boundary <= i32::MAX
        },
    }
}

/// The manager after a step whose adaptive update was skipped: the tick
/// reached (the next tick's when its price was reached, else the price's
/// tick) gives the last tick group traversed (one less for an upward swap
/// ending on a group boundary); the manager jumps there and updates its
/// accumulator when that is beyond its group, then moves one group on.
/// `None` where the computation fails.
pub open spec fn manager_after_skip(m: FeeRateManager, sqrt_price: u128, next_tick_sqrt_price: u128, next_tick_index: i32) -> Option<
    FeeRateManager,
> {
    match m {
        FeeRateManager::Static { .. } => Some(m),
        FeeRateManager::Adaptive {
            a_to_b,
            tick_group_index,
            static_fee_rate,
            adaptive_fee_constants,
            adaptive_fee_variables,
            core_tick_group_range_lower_bound,
            core_tick_group_range_upper_bound,
        } => {
            let g = adaptive_fee_constants.tick_group_size as int;
            if g == 0 || (sqrt_price != next_tick_sqrt_price && !tick_from_sqrt_price_defined(sqrt_price)) {
                None
            } else {
                let t = if sqrt_price == next_tick_sqrt_price {
                    next_tick_index
                } else {
                    tick_from_sqrt_price(sqrt_price)
                };
                let on_boundary = if sqrt_price == next_tick_sqrt_price {
                    crate::clmm::trunc_rem(next_tick_index as int, g) == 0
                } else {
                    crate::clmm::trunc_rem(t as int, g) == 0 && t != i32::MIN && sqrt_price == sqrt_price_from_tick(t)
                };
                if sqrt_price != next_tick_sqrt_price && crate::clmm::trunc_rem(t as int, g) == 0 && t == i32::MIN {
                    None
                } else if !(on_boundary && !a_to_b) && t < 0 && t - g < i32::MIN {
                    None
                } else if on_boundary && !a_to_b && crate::clmm::trunc_div(t as int, g) - 1 < i32::MIN {
                    None
                } else {
                    let last = if on_boundary && !a_to_b {
                        crate::clmm::trunc_div(t as int, g) - 1
                    } else {
                        (t as int) / g
                    };
                    let jump = (a_to_b && last < tick_group_index) || (!a_to_b && last > tick_group_index);
                    let tgi1 = if jump { last } else { tick_group_index as int };
                    if jump && !accumulator_update_defined(adaptive_fee_variables, last as i32) {
                        None
                    } else {
                        let v1 = if jump {
                            updated_accumulator(adaptive_fee_variables, last as i32, adaptive_fee_constants)
                        } else {
                            adaptive_fee_variables
                        };
                        let tgi2 = if a_to_b { tgi1 - 1 } else { tgi1 + 1 };
                        if tgi2 < i32::MIN || tgi2 > i32::MAX {
                            None
                        } else {
                            Some(
                                FeeRateManager::Adaptive {
                                    a_to_b,
                                    tick_group_index: tgi2 as i32,
                                    static_fee_rate,
                                    adaptive_fee_constants,
                                    adaptive_fee_variables: v1,
                                    core_tick_group_range_lower_bound,
                                    core_tick_group_range_upper_bound,
                                },
                            )
                        }
                    }
                }
            }
        },
    }
}

impl FeeRateManager {
    /// The fee rate manager at the start of a swap; see
    /// `fee_rate_manager_new`.
    pub fn new(
        a_to_b: bool,
        current_tick_index: i32,
        timestamp: u64,
        static_fee_rate: u16,
        adaptive_fee_info: &Option<AdaptiveFeeInfo>,
    ) -> (r: Result<Self, ErrorCode>)
        requires
            fee_rate_manager_new(a_to_b, current_tick_index, timestamp, static_fee_rate, *adaptive_fee_info) is Some,
        ensures
            r == Ok::<Self, ErrorCode>(fee_rate_manager_new(a_to_b, current_tick_index, timestamp, static_fee_rate, *adaptive_fee_info)->0),
    {
        match adaptive_fee_info {
            None => Ok(FeeRateManager::Static { static_fee_rate }),
            Some(info) => {
                let tick_group_size = info.constants.tick_group_size as i32;
                let tick_group_index = floor_division(current_tick_index, tick_group_size);
                let adaptive_fee_constants = info.constants;
                let mut adaptive_fee_variables = info.variables;
                adaptive_fee_variables.update_reference(tick_group_index, timestamp, &adaptive_fee_constants)?;
                let max_delta = ceil_division_u32(
                    adaptive_fee_constants.max_volatility_accumulator - adaptive_fee_variables.volatility_reference,
                    VOLATILITY_ACCUMULATOR_SCALE_FACTOR,
                );
                let lower_index = adaptive_fee_variables.tick_group_index_reference - max_delta;
                let upper_index = adaptive_fee_variables.tick_group_index_reference + max_delta;
                let lower_tick = lower_index * tick_group_size;
                let upper_tick = upper_index * tick_group_size + tick_group_size;
                let lower_bound = if lower_tick > -443636 {
                    Some((lower_index, sqrt_price_from_tick_index(lower_tick)))
                } else {
                    None
                };
                let upper_bound = if upper_tick < 443636 {
                    Some((upper_index, sqrt_price_from_tick_index(upper_tick)))
                } else {
                    None
                };
                Ok(
                    FeeRateManager::Adaptive {
                        a_to_b,
                        tick_group_index,
                        static_fee_rate,
                        adaptive_fee_constants,
                        adaptive_fee_variables,
                        core_tick_group_range_lower_bound: lower_bound,
                        core_tick_group_range_upper_bound: upper_bound,
                    },
                )
            },
        }
    }

    /// Updates the accumulator for the current group; see
    /// `manager_accumulated`.
    pub fn update_volatility_accumulator(&mut self) -> (r: Result<(), ErrorCode>)
        requires
            manager_accumulated_defined(*old(self)),
        ensures
            r == Ok::<(), ErrorCode>(()),
            *final(self) == manager_accumulated(*old(self)),
    {
        match *self {
            FeeRateManager::Static { .. } => Ok(()),
            FeeRateManager::Adaptive {
                a_to_b,
                tick_group_index,
                static_fee_rate,
                adaptive_fee_constants,
                adaptive_fee_variables,
                core_tick_group_range_lower_bound,
                core_tick_group_range_upper_bound,
            } => {
                let mut v = adaptive_fee_variables;
                v.update_volatility_accumulator(tick_group_index, &adaptive_fee_constants)?;
                *self = FeeRateManager::Adaptive {
                    a_to_b,
                    tick_group_index,
                    static_fee_rate,
                    adaptive_fee_constants,
                    adaptive_fee_variables: v,
                    core_tick_group_range_lower_bound,
                    core_tick_group_range_upper_bound,
                };
                Ok(())
            },
        }
    }

    /// Moves one tick group in the swap's direction; see
    /// `manager_advanced`.
    pub fn advance_tick_group(&mut self)
        requires
            manager_advanced_defined(*old(self)),
        ensures
            *final(self) == manager_advanced(*old(self)),
    {
        match *self {
            FeeRateManager::Static { .. } => {},
            FeeRateManager::Adaptive {
                a_to_b,
                tick_group_index,
                static_fee_rate,
                adaptive_fee_constants,
                adaptive_fee_variables,
                core_tick_group_range_lower_bound,
                core_tick_group_range_upper_bound,
            } => {
                *self = FeeRateManager::Adaptive {
                    a_to_b,
                    tick_group_index: if a_to_b {
                        tick_group_index - 1
                    } else {
                        tick_group_index + 1
                    },
                    static_fee_rate,
                    adaptive_fee_constants,
                    adaptive_fee_variables,
                    core_tick_group_range_lower_bound,
                    core_tick_group_range_upper_bound,
                };
            },
        }
    }

    /// Moves on after a step whose adaptive update was skipped; see
    /// `manager_after_skip`.
    pub fn advance_tick_group_after_skip(&mut self, sqrt_price: u128, next_tick_sqrt_price: u128, next_tick_index: i32) -> (r:
        Result<(), ErrorCode>)
        requires
            manager_after_skip(*old(self), sqrt_price, next_tick_sqrt_price, next_tick_index) is Some,
        ensures
            r == Ok::<(), ErrorCode>(()),
            *final(self) == manager_after_skip(*old(self), sqrt_price, next_tick_sqrt_price, next_tick_index)->0,
    {
        match *self {
            FeeRateManager::Static { .. } => Ok(()),
            FeeRateManager::Adaptive {
                a_to_b,
                tick_group_index,
                static_fee_rate,
                adaptive_fee_constants,
                adaptive_fee_variables,
                core_tick_group_range_lower_bound,
                core_tick_group_range_upper_bound,
            } => {
                let g = adaptive_fee_constants.tick_group_size as i32;
                let (tick_index, is_on_tick_group_boundary) = if sqrt_price == next_tick_sqrt_price {
                    (next_tick_index, next_tick_index % g == 0)
                } else {
                    let t = tick_index_from_sqrt_price(sqrt_price);
                    let on = t % g == 0 && sqrt_price == sqrt_price_from_tick_index(t);
                    (t, on)
                };
                let last_traversed = if is_on_tick_group_boundary && !a_to_b {
                    tick_index / g - 1
                } else {
                    floor_division(tick_index, g)
                };
                let mut tgi = tick_group_index;
                let mut v = adaptive_fee_variables;
                if (a_to_b && last_traversed < tgi) || (!a_to_b && last_traversed > tgi) {
                    tgi = last_traversed;
                    v.update_volatility_accumulator(tgi, &adaptive_fee_constants)?;
                }
                tgi = if a_to_b {
                    tgi - 1
                } else {
                    tgi + 1
                };
                *self = FeeRateManager::Adaptive {
                    a_to_b,
                    tick_group_index: tgi,
                    static_fee_rate,
                    adaptive_fee_constants,
                    adaptive_fee_variables: v,
                    core_tick_group_range_lower_bound,
                    core_tick_group_range_upper_bound,
                };
                Ok(())
            },
        }
    }

    /// The adaptive fee rate; see `adaptive_fee_rate`.
    pub fn compute_adaptive_fee_rate(constants: &AdaptiveFeeConstants, variables: &AdaptiveFeeVariables) -> (r: u32)
        requires
            variables.volatility_accumulator * constants.tick_group_size <= u32::MAX,
        ensures
            r == adaptive_fee_rate(*constants, *variables),
    {
        let crossed = variables.volatility_accumulator * constants.tick_group_size as u32;
        proof {
            assert((crossed as u64) * (crossed as u64) <= u64::MAX) by (nonlinear_arith)
                requires crossed <= u32::MAX;
            assert(constants.adaptive_fee_control_factor * ((crossed as u64) * (crossed as u64)) <= u32::MAX * u64::MAX) by (nonlinear_arith)
                requires constants.adaptive_fee_control_factor <= u32::MAX, (crossed as u64) * (crossed as u64) <= u64::MAX;
        }
        let squared = crossed as u64 * crossed as u64;
        assert(ADAPTIVE_FEE_CONTROL_FACTOR_DENOMINATOR as u128 == 1_000_000u128);
        assert(VOLATILITY_ACCUMULATOR_SCALE_FACTOR as u128 == 1000u128);
        let denominator = ADAPTIVE_FEE_CONTROL_FACTOR_DENOMINATOR as u128 * VOLATILITY_ACCUMULATOR_SCALE_FACTOR as u128
            * VOLATILITY_ACCUMULATOR_SCALE_FACTOR as u128;
        let fee_rate = (constants.adaptive_fee_control_factor as u128 * squared as u128) / denominator;
        if fee_rate > FEE_RATE_HARD_LIMIT as u128 {
            FEE_RATE_HARD_LIMIT
        } else {
            fee_rate as u32
        }
    }

    /// The total fee rate; see `total_fee_rate`.
    pub fn get_total_fee_rate(&self) -> (r: u32)
        requires
            total_fee_rate_defined(*self),
        ensures
            r == total_fee_rate(*self),
    {
        match self {
            FeeRateManager::Static { static_fee_rate } => *static_fee_rate as u32,
            FeeRateManager::Adaptive { static_fee_rate, adaptive_fee_constants, adaptive_fee_variables, .. } => {
                let adaptive = Self::compute_adaptive_fee_rate(adaptive_fee_constants, adaptive_fee_variables);
                let total = *static_fee_rate as u32 + adaptive;
                if total > FEE_RATE_HARD_LIMIT {
                    FEE_RATE_HARD_LIMIT
                } else {
                    total
                }
            },
        }
    }

    /// The target bounded to the tick group's edge; see `bounded_target`.
    pub fn get_bounded_sqrt_price_target(&self, sqrt_price: u128, curr_liquidity: u128) -> (r: (u128, bool))
        requires
            bounded_target_defined(*self, sqrt_price, curr_liquidity),
        ensures
            r == bounded_target(*self, sqrt_price, curr_liquidity),
    {
        match self {
            FeeRateManager::Static { .. } => (sqrt_price, false),
            FeeRateManager::Adaptive {
                a_to_b,
                tick_group_index,
                adaptive_fee_constants,
                core_tick_group_range_lower_bound,
                core_tick_group_range_upper_bound,
                ..
            } => {
                if adaptive_fee_constants.adaptive_fee_control_factor == 0 {
                    return (sqrt_price, true);
                }
                if curr_liquidity == 0 {
                    return (sqrt_price, true);
                }
                if let Some((lower_index, lower_price)) = core_tick_group_range_lower_bound {
                    if *tick_group_index < *lower_index {
                        if *a_to_b {
                            return (sqrt_price, true);
                        } else {
                            return (if sqrt_price < *lower_price { sqrt_price } else { *lower_price }, true);
                        }
                    }
                }
                if let Some((upper_index, upper_price)) = core_tick_group_range_upper_bound {
                    if *tick_group_index > *upper_index {
                        if *a_to_b {
                            return (if sqrt_price > *upper_price { sqrt_price } else { *upper_price }, true);
                        } else {
                            return (sqrt_price, true);
                        }
                    }
                }
                let g = adaptive_fee_constants.tick_group_size as i32;
                let boundary_tick_index = if *a_to_b {
                    *tick_group_index * g
                } else {
                    *tick_group_index * g + g
                };
                let boundary_sqrt_price = sqrt_price_from_tick_index(boundary_tick_index);
                let bounded = if *a_to_b {
                    if sqrt_price > boundary_sqrt_price { sqrt_price } else { boundary_sqrt_price }
                } else {
                    if sqrt_price < boundary_sqrt_price { sqrt_price } else { boundary_sqrt_price }
                };
                (bounded, false)
            },
        }
    }
}

/// The next initialized tick over the arrays from position `idx`,
/// searching from `search`: the first array that has one gives its position
/// and the tick; moving down (`a_to_b`) the search goes on from the end of
/// the array just searched in the one before, moving up from the start of
/// the next; running out of arrays gives the tick range's end (with the
/// last position, or 0 below the first). `None` where the computation
/// fails.
pub open spec fn next_tick_over(arrays: Seq<WhirlpoolTickArrayRef>, idx: int, search: i32, tick_spacing: u16, a_to_b: bool) -> Option<
    (usize, i32),
>
    decreases (if a_to_b { idx + 1 } else { arrays.len() - idx }),
{
    let len = arrays.len();
    let last = if len == 0 { 0 } else { len - 1 };
    if idx < 0 {
        None
    } else if idx >= len {
        Some((last as usize, if a_to_b { MIN_TICK_INDEX } else { MAX_TICK_INDEX }))
    } else {
        match array_next_tick(arrays[idx], search, tick_spacing, a_to_b) {
            None => None,
            Some(Some(t)) => Some((idx as usize, t)),
            Some(None) => {
                if a_to_b {
                    if idx == 0 {
                        Some((0, MIN_TICK_INDEX))
                    } else {
                        let a = arrays[idx];
                        let next_search = array_start(a) + 88 * tick_spacing - 1;
                        if a.data@.len() < 12 || next_search > i32::MAX || next_search < i32::MIN || array_start(a) + 88 * tick_spacing > i32::MAX {
                            None
                        } else {
                            next_tick_over(arrays, idx - 1, next_search as i32, tick_spacing, a_to_b)
                        }
                    }
                } else {
                    if idx + 1 >= len {
                        Some(((len - 1) as usize, MAX_TICK_INDEX))
                    } else if arrays[idx + 1].data@.len() < 12 {
                        None
                    } else {
                        next_tick_over(arrays, idx + 1, array_start(arrays[idx + 1]), tick_spacing, a_to_b)
                    }
                }
            },
        }
    }
}

/// The next initialized tick over the arrays; see `next_tick_over`.
pub fn get_next_initialized_tick(
    tick_arrays: &Vec<WhirlpoolTickArrayRef>,
    current_tick: i32,
    tick_spacing: u16,
    a_to_b: bool,
    start_array_index: usize,
) -> (r: Result<(usize, i32), ErrorCode>)
    requires
        next_tick_over(tick_arrays@, start_array_index as int, current_tick, tick_spacing, a_to_b) is Some,
    ensures
        r == Ok::<(usize, i32), ErrorCode>(next_tick_over(tick_arrays@, start_array_index as int, current_tick, tick_spacing, a_to_b)->0),
{
    let mut array_index = start_array_index;
    let mut search_tick = current_tick;
    loop
        invariant
            next_tick_over(tick_arrays@, array_index as int, search_tick, tick_spacing, a_to_b) is Some,
            next_tick_over(tick_arrays@, array_index as int, search_tick, tick_spacing, a_to_b) == next_tick_over(
                tick_arrays@,
                start_array_index as int,
                current_tick,
                tick_spacing,
                a_to_b,
            ),
        decreases (if a_to_b { array_index + 1 } else { tick_arrays@.len() - array_index }),
    {
        if array_index >= tick_arrays.len() {
            let last = if tick_arrays.len() == 0 {
                0
            } else {
                tick_arrays.len() - 1
            };
            return if a_to_b {
                Ok((last, MIN_TICK_INDEX))
            } else {
                Ok((last, MAX_TICK_INDEX))
            };
        }
        let array = &tick_arrays[array_index];
        if let Some(next_tick) = array.get_next_initialized_tick_index(search_tick, tick_spacing, a_to_b) {
            return Ok((array_index, next_tick));
        }
        if a_to_b {
            if array_index == 0 {
                return Ok((0, MIN_TICK_INDEX));
            }
            proof {
                assert(array_next_tick(tick_arrays@[array_index as int], search_tick, tick_spacing, a_to_b) == Some(
                    None::<i32>,
                ));
                assert(*array == tick_arrays@[array_index as int]);
            }
            let start = array.start_tick_index();
            let span: i32 = 88i32 * (tick_spacing as i32);
            array_index -= 1;
            search_tick = start + span - 1;
        } else {
            array_index += 1;
            if array_index >= tick_arrays.len() {
                return Ok((tick_arrays.len() - 1, MAX_TICK_INDEX));
            }
            search_tick = tick_arrays[array_index].start_tick_index();
        }
    }
}

/// The square-root price of the next tick, and the step's target: that
/// price, or the limit when the limit comes first in the swap's direction.
pub open spec fn next_sqrt_prices(next_tick_index: i32, sqrt_price_limit: u128, a_to_b: bool) -> (u128, u128) {
    let p = sqrt_price_from_tick(next_tick_index);
    (
        p,
        if a_to_b {
            if sqrt_price_limit > p { sqrt_price_limit } else { p }
        } else {
            if sqrt_price_limit < p { sqrt_price_limit } else { p }
        },
    )
}

/// The next tick's price and the step's target; see `next_sqrt_prices`.
pub fn get_next_sqrt_prices(next_tick_index: i32, sqrt_price_limit: u128, a_to_b: bool) -> (r: Result<(u128, u128), ErrorCode>)
    requires
        next_tick_index != i32::MIN,
    ensures
        r == Ok::<(u128, u128), ErrorCode>(next_sqrt_prices(next_tick_index, sqrt_price_limit, a_to_b)),
{
    let next_tick_price = sqrt_price_from_tick_index(next_tick_index);
    let next_sqrt_price_limit = if a_to_b {
        if sqrt_price_limit > next_tick_price { sqrt_price_limit } else { next_tick_price }
    } else {
        if sqrt_price_limit < next_tick_price { sqrt_price_limit } else { next_tick_price }
    };
    Ok((next_tick_price, next_sqrt_price_limit))
}

/// The position of `tick_index` in the array at `array_index`, rounded
/// down: `InvalidTickIndex` for a zero spacing or a missing array.
pub open spec fn tick_offset_at(arrays: Seq<WhirlpoolTickArrayRef>, array_index: int, tick_index: i32, tick_spacing: u16) -> Result<
    int,
    ErrorCode,
> {
    if tick_spacing == 0 || array_index >= arrays.len() {
        Err(ErrorCode::InvalidTickIndex)
    } else {
        Ok((tick_index - array_start(arrays[array_index])) / (tick_spacing as int))
    }
}

/// The position of a tick in an array; see `tick_offset_at`.
pub fn get_tick_offset(array_index: usize, tick_index: i32, tick_spacing: u16, tick_arrays: &Vec<WhirlpoolTickArrayRef>) -> (r: Result<
    isize,
    ErrorCode,
>)
    requires
        array_index < tick_arrays@.len() && tick_spacing != 0 ==> tick_arrays@[array_index as int].data@.len() >= 12
            && i32::MIN <= tick_index - array_start(tick_arrays@[array_index as int]) <= i32::MAX,
    ensures
        match tick_offset_at(tick_arrays@, array_index as int, tick_index, tick_spacing) {
            Ok(o) => r matches Ok(v) && v as int == o,
            Err(e) => r == Err::<isize, ErrorCode>(e),
        },
{
    if tick_spacing == 0 {
        return Err(ErrorCode::InvalidTickIndex);
    }
    if array_index >= tick_arrays.len() {
        return Err(ErrorCode::InvalidTickIndex);
    }
    let array = &tick_arrays[array_index];
    match array.get_tick_offset(tick_index, tick_spacing) {
        Ok(v) => Ok(v),
        Err(_) => {
            proof {
                assert(false);
            }
            Err(ErrorCode::InvalidTickIndex)
        },
    }
}


/// A Whirlpool pool as the quotes read it.
#[derive(Debug, Clone, Copy)]
pub struct WhirlpoolPoolState {
    pub program_id_index: usize,
    pub pool_index: usize,
    pub oracle_index: usize,
    pub vault_a_index: usize,
    pub vault_b_index: usize,
    pub tick_array_0_index: usize,
    pub tick_array_1_index: usize,
    pub tick_array_2_index: usize,
    pub token_mint_a: [u8; 32],
    pub token_mint_b: [u8; 32],
    pub sqrt_price: u128,
    pub tick_spacing: u16,
    pub tick_current_index: i32,
    pub liquidity: u128,
    pub trade_fee_rate: u64,
    pub price: u128,
}

/// The amounts of token A and token B a swap moves.
#[derive(Debug, Clone, Copy)]
pub struct SwapUpdate {
    pub amount_a: u64,
    pub amount_b: u64,
}

/// The stretch of a swap up to the next initialized tick: where the tick
/// is, its square-root price, and the price the steps aim for.
#[derive(Debug, Clone, Copy)]
pub struct WpSegment {
    pub next_array_index: usize,
    pub next_tick_index: i32,
    pub next_tick_sqrt_price: u128,
    pub sqrt_price_target: u128,
}

/// The state of a Whirlpool swap between steps; `segment` is the stretch
/// being swapped through, if any.
#[derive(Debug, Clone, Copy)]
pub struct WpSwapState {
    pub amount_remaining: u64,
    pub amount_calculated: u64,
    pub sqrt_price: u128,
    pub tick_index: i32,
    pub liquidity: u128,
    pub array_index: usize,
    pub fee_sum: u64,
    pub fee_rate_manager: FeeRateManager,
    pub segment: Option<WpSegment>,
}

/// The price limit of a swap: the given one, or the price range's end in
/// the swap's direction when none is given.
pub open spec fn wp_limit(given: u128, a_to_b: bool) -> u128 {
    if given == NO_EXPLICIT_SQRT_PRICE_LIMIT {
        if a_to_b {
            MIN_SQRT_PRICE_X64
        } else {
            MAX_SQRT_PRICE_X64
        }
    } else {
        given
    }
}

/// The stretch from the current tick: the next initialized tick over the
/// arrays (see `next_tick_over`) and its prices (see `next_sqrt_prices`).
/// `None` where the computation fails.
pub open spec fn wp_segment(arrays: Seq<WhirlpoolTickArrayRef>, tick_spacing: u16, limit: u128, a_to_b: bool, st: WpSwapState) -> Option<
    WpSegment,
> {
    match next_tick_over(arrays, st.array_index as int, st.tick_index, tick_spacing, a_to_b) {
        None => None,
        Some((ai, t)) => if t == i32::MIN {
            None
        } else {
            Some(
                WpSegment {
                    next_array_index: ai,
                    next_tick_index: t,
                    next_tick_sqrt_price: next_sqrt_prices(t, limit, a_to_b).0,
                    sqrt_price_target: next_sqrt_prices(t, limit, a_to_b).1,
                },
            )
        },
    }
}

/// The liquidity once the tick at `tick_index` in the array at `ai` is
/// crossed: changed by the tick's net liquidity (negated moving down) when
/// the array is there and the tick reads and is initialized, unchanged
/// otherwise; `LiquidityInsufficient` below zero, `CalculateOverflow`
/// above the `u128` range. `None` where reading the tick fails or the net
/// liquidity cannot be negated.
pub open spec fn crossed_liquidity(
    arrays: Seq<WhirlpoolTickArrayRef>,
    ai: int,
    tick_index: i32,
    tick_spacing: u16,
    a_to_b: bool,
    liquidity: u128,
) -> Option<Result<u128, ErrorCode>> {
    if ai >= arrays.len() {
        Some(Ok(liquidity))
    } else {
        match tick_at_index(arrays[ai], tick_index, tick_spacing) {
            None => None,
            Some(Err(_)) => Some(Ok(liquidity)),
            Some(Ok(tick)) => if tick.initialized == 0 {
                Some(Ok(liquidity))
            } else if tick.liquidity_net == i128::MIN {
                None
            } else {
                let net: int = if a_to_b {
                    -tick.liquidity_net
                } else {
                    tick.liquidity_net as int
                };
                if liquidity + net < 0 {
                    Some(Err(ErrorCode::LiquidityInsufficient))
                } else if liquidity + net > u128::MAX {
                    Some(Err(ErrorCode::CalculateOverflow))
                } else {
                    Some(Ok((liquidity + net) as u128))
                }
            },
        }
    }
}

/// One step of a Whirlpool swap. Without a stretch it finds the next one
/// (see `wp_segment`). Within one: the fee manager's accumulator is updated,
/// the total fee rate and the bounded target taken, and a swap step (see
/// `wp_swap_step`) made; the input and fee come off the remaining amount,
/// the output and fee are added up (`CalculateOverflow` on any overflow);
/// reaching the tick's price crosses its liquidity (see
/// `crossed_liquidity`), moves to the next array when the tick is the
/// first (moving down) or last (moving up) of its array, and sets the tick
/// (one below the crossed one moving down); else a moved price sets the
/// tick of the new price. The manager then advances a tick group (or
/// catches up after a skipped update), and the stretch ends when the input
/// is used up or its target reached. `None` where the computation fails.
#[verifier::opaque]
pub open spec fn wp_step(
    pool: WhirlpoolPoolState,
    arrays: Seq<WhirlpoolTickArrayRef>,
    limit: u128,
    a_to_b: bool,
    st: WpSwapState,
) -> Option<Result<WpSwapState, ErrorCode>> {
    let sp = pool.tick_spacing;
    match st.segment {
        None => match wp_segment(arrays, sp, limit, a_to_b, st) {
            None => None,
            Some(seg) => Some(Ok(WpSwapState { segment: Some(seg), ..st })),
        },
        Some(seg) => {
            let m0 = st.fee_rate_manager;
            if !manager_accumulated_defined(m0) {
                None
            } else {
                let m1 = manager_accumulated(m0);
                if !total_fee_rate_defined(m1) || !bounded_target_defined(m1, seg.sqrt_price_target, st.liquidity) {
                    None
                } else {
                    let fee_rate = total_fee_rate(m1);
                    let bounded = bounded_target(m1, seg.sqrt_price_target, st.liquidity);
                    match wp_swap_step(st.amount_remaining, fee_rate, st.liquidity, st.sqrt_price, bounded.0, a_to_b) {
                        None => None,
                        Some(Err(e)) => Some(Err(e)),
                        Some(Ok(c)) => {
                            if st.amount_remaining < c.amount_in || st.amount_remaining - c.amount_in < c.fee_amount
                                || st.amount_calculated + c.amount_out > u64::MAX || st.fee_sum + c.fee_amount > u64::MAX {
                                Some(Err(ErrorCode::CalculateOverflow))
                            } else {
                                let remaining = (st.amount_remaining - c.amount_in - c.fee_amount) as u64;
                                let calculated = (st.amount_calculated + c.amount_out) as u64;
                                let fee_sum = (st.fee_sum + c.fee_amount) as u64;
                                let crossed: Option<Result<(u128, usize, i32), ErrorCode>> = if c.next_price
                                    == seg.next_tick_sqrt_price {
                                    match crossed_liquidity(arrays, seg.next_array_index as int, seg.next_tick_index, sp, a_to_b, st.liquidity) {
                                        None => None,
                                        Some(Err(e)) => Some(Err(e)),
                                        Some(Ok(liq)) => {
                                            let nai = seg.next_array_index;
                                            if sp != 0 && nai < arrays.len() && (arrays[nai as int].data@.len() < 12
                                                || seg.next_tick_index - array_start(arrays[nai as int]) < i32::MIN
                                                || seg.next_tick_index - array_start(arrays[nai as int]) > i32::MAX) {
                                                None
                                            } else {
                                                match tick_offset_at(arrays, nai as int, seg.next_tick_index, sp) {
                                                    Err(e) => Some(Err(e)),
                                                    Ok(off) => {
                                                        let moves = (a_to_b && off == 0) || (!a_to_b && off == 87);
                                                        if (moves && nai + 1 > usize::MAX) || (a_to_b && seg.next_tick_index == i32::MIN) {
                                                            None
                                                        } else {
                                                            Some(
                                                                Ok(
                                                                    (
                                                                        liq,
                                                                        if moves {
                                                                            (nai + 1) as usize
                                                                        } else {
                                                                            nai
                                                                        },
                                                                        if a_to_b {
                                                                            (seg.next_tick_index - 1) as i32
                                                                        } else {
                                                                            seg.next_tick_index
                                                                        },
                                                                    ),
                                                                ),
                                                            )
                                                        }
                                                    },
                                                }
                                            }
                                        },
                                    }
                                } else if c.next_price != st.sqrt_price {
                                    if !tick_from_sqrt_price_defined(c.next_price) {
                                        None
                                    } else {
                                        Some(Ok((st.liquidity, st.array_index, tick_from_sqrt_price(c.next_price))))
                                    }
                                } else {
                                    Some(Ok((st.liquidity, st.array_index, st.tick_index)))
                                };
                                match crossed {
                                    None => None,
                                    Some(Err(e)) => Some(Err(e)),
                                    Some(Ok((liq, ai, tick))) => {
                                        let m2: Option<FeeRateManager> = if !bounded.1 {
                                            if manager_advanced_defined(m1) {
                                                Some(manager_advanced(m1))
                                            } else {
                                                None
                                            }
                                        } else {
                                            manager_after_skip(m1, c.next_price, seg.next_tick_sqrt_price, seg.next_tick_index)
                                        };
                                        match m2 {
                                            None => None,
                                            Some(m) => Some(
                                                Ok(
                                                    WpSwapState {
                                                        amount_remaining: remaining,
                                                        amount_calculated: calculated,
                                                        sqrt_price: c.next_price,
                                                        tick_index: tick,
                                                        liquidity: liq,
                                                        array_index: ai,
                                                        fee_sum,
                                                        fee_rate_manager: m,
                                                        segment: if remaining == 0 || c.next_price == seg.sqrt_price_target {
                                                            None
                                                        } else {
                                                            Some(seg)
                                                        },
                                                    },
                                                ),
                                            ),
                                        }
                                    },
                                }
                            }
                        },
                    }
                }
            }
        },
    }
}


/// One step of a Whirlpool swap; see `wp_step`.
pub fn whirlpool_swap_step(
    pool_state: &WhirlpoolPoolState,
    tick_arrays: &Vec<WhirlpoolTickArrayRef>,
    sqrt_price_limit: u128,
    a_to_b: bool,
    st: WpSwapState,
) -> (r: Result<WpSwapState, ErrorCode>)
    requires
        wp_step(*pool_state, tick_arrays@, sqrt_price_limit, a_to_b, st) is Some,
    ensures
        Some(r) == wp_step(*pool_state, tick_arrays@, sqrt_price_limit, a_to_b, st),
        r matches Ok(s2) ==> s2.amount_remaining <= st.amount_remaining,
{
    proof {
        reveal(wp_step);
    }
    let seg = match st.segment {
        None => {
            let (next_array_index, next_tick_index) = get_next_initialized_tick(
                tick_arrays,
                st.tick_index,
                pool_state.tick_spacing,
                a_to_b,
                st.array_index,
            )?;
            let (next_tick_sqrt_price, sqrt_price_target) = get_next_sqrt_prices(next_tick_index, sqrt_price_limit, a_to_b)?;
            let segment = WpSegment { next_array_index, next_tick_index, next_tick_sqrt_price, sqrt_price_target };
            return Ok(WpSwapState { segment: Some(segment), ..st });
        },
        Some(seg) => seg,
    };
    let mut fee_rate_manager = st.fee_rate_manager;
    fee_rate_manager.update_volatility_accumulator()?;
    let total_fee_rate = fee_rate_manager.get_total_fee_rate();
    let (bounded_sqrt_price_target, adaptive_fee_update_skipped) = fee_rate_manager.get_bounded_sqrt_price_target(
        seg.sqrt_price_target,
        st.liquidity,
    );
    let c = compute_swap_step(
        st.amount_remaining,
        total_fee_rate,
        st.liquidity,
        st.sqrt_price,
        bounded_sqrt_price_target,
        a_to_b,
    )?;
    let amount_remaining = match st.amount_remaining.checked_sub(c.amount_in) {
        Some(v) => v,
        None => {
            return Err(ErrorCode::CalculateOverflow);
        },
    };
    let amount_remaining = match amount_remaining.checked_sub(c.fee_amount) {
        Some(v) => v,
        None => {
            return Err(ErrorCode::CalculateOverflow);
        },
    };
    let amount_calculated = match st.amount_calculated.checked_add(c.amount_out) {
        Some(v) => v,
        None => {
            return Err(ErrorCode::CalculateOverflow);
        },
    };
    let fee_sum = match st.fee_sum.checked_add(c.fee_amount) {
        Some(v) => v,
        None => {
            return Err(ErrorCode::CalculateOverflow);
        },
    };
    let mut liquidity = st.liquidity;
    let mut array_index = st.array_index;
    let mut tick_index = st.tick_index;
    if c.next_price == seg.next_tick_sqrt_price {
        if seg.next_array_index < tick_arrays.len() {
            let array = &tick_arrays[seg.next_array_index];
            if let Ok(tick) = array.get_tick(seg.next_tick_index, pool_state.tick_spacing) {
                if tick.is_initialized() {
                    let liquidity_net = if a_to_b {
                        -tick.liquidity_net
                    } else {
                        tick.liquidity_net
                    };
                    liquidity = if liquidity_net < 0 {
                        match liquidity.checked_sub((-liquidity_net) as u128) {
                            Some(v) => v,
                            None => {
                                return Err(ErrorCode::LiquidityInsufficient);
                            },
                        }
                    } else {
                        match liquidity.checked_add(liquidity_net as u128) {
                            Some(v) => v,
                            None => {
                                return Err(ErrorCode::CalculateOverflow);
                            },
                        }
                    };
                }
            }
        }
        let tick_offset = get_tick_offset(seg.next_array_index, seg.next_tick_index, pool_state.tick_spacing, tick_arrays)?;
        array_index = if (a_to_b && tick_offset == 0) || (!a_to_b && tick_offset == 87) {
            seg.next_array_index + 1
        } else {
            seg.next_array_index
        };
        tick_index = if a_to_b {
            seg.next_tick_index - 1
        } else {
            seg.next_tick_index
        };
    } else if c.next_price != st.sqrt_price {
        tick_index = tick_index_from_sqrt_price(c.next_price);
    }
    let sqrt_price = c.next_price;
    if !adaptive_fee_update_skipped {
        fee_rate_manager.advance_tick_group();
    } else {
        fee_rate_manager.advance_tick_group_after_skip(sqrt_price, seg.next_tick_sqrt_price, seg.next_tick_index)?;
    }
    let segment = if amount_remaining == 0 || sqrt_price == seg.sqrt_price_target {
        None
    } else {
        Some(seg)
    };
    Ok(
        WpSwapState {
            amount_remaining,
            amount_calculated,
            sqrt_price,
            tick_index,
            liquidity,
            array_index,
            fee_sum,
            fee_rate_manager,
            segment,
        },
    )
}


/// A Whirlpool swap run for at most `fuel` steps (see `wp_step`) from
/// `st`, until, between stretches, the input is used up or the price
/// reaches the limit: the final state. `None` where the computation fails
/// or the steps run out.
pub open spec fn wp_run(
    pool: WhirlpoolPoolState,
    arrays: Seq<WhirlpoolTickArrayRef>,
    limit: u128,
    a_to_b: bool,
    st: WpSwapState,
    fuel: nat,
) -> Option<Result<WpSwapState, ErrorCode>>
    decreases fuel,
{
    if st.segment is None && !(st.amount_remaining > 0 && limit != st.sqrt_price) {
        Some(Ok(st))
    } else if fuel == 0 {
        None
    } else {
        match wp_step(pool, arrays, limit, a_to_b, st) {
            None => None,
            Some(Err(e)) => Some(Err(e)),
            Some(Ok(s2)) => wp_run(pool, arrays, limit, a_to_b, s2, (fuel - 1) as nat),
        }
    }
}

/// Two runs that both finish end alike.
pub proof fn lemma_wp_run_fuel(
    pool: WhirlpoolPoolState,
    arrays: Seq<WhirlpoolTickArrayRef>,
    limit: u128,
    a_to_b: bool,
    st: WpSwapState,
    f1: nat,
    f2: nat,
)
    requires
        wp_run(pool, arrays, limit, a_to_b, st, f1) is Some,
        wp_run(pool, arrays, limit, a_to_b, st, f2) is Some,
    ensures
        wp_run(pool, arrays, limit, a_to_b, st, f1) == wp_run(pool, arrays, limit, a_to_b, st, f2),
    decreases f1,
{
    if !(st.segment is None && !(st.amount_remaining > 0 && limit != st.sqrt_price)) {
        match wp_step(pool, arrays, limit, a_to_b, st) {
            Some(Ok(s2)) => {
                lemma_wp_run_fuel(pool, arrays, limit, a_to_b, s2, (f1 - 1) as nat, (f2 - 1) as nat);
            },
            _ => {},
        }
    }
}

/// The state a Whirlpool swap of `amount` starts in.
pub open spec fn wp_initial_state(pool: WhirlpoolPoolState, amount: u64, m: FeeRateManager) -> WpSwapState {
    WpSwapState {
        amount_remaining: amount,
        amount_calculated: 0,
        sqrt_price: pool.sqrt_price,
        tick_index: pool.tick_current_index,
        liquidity: pool.liquidity,
        array_index: 0,
        fee_sum: 0,
        fee_rate_manager: m,
        segment: None,
    }
}

/// The outcome of an exact-input Whirlpool swap of `amount` in the given
/// direction: `InvalidSqrtPriceLimit` for a limit (see `wp_limit`) not
/// beyond the current price; else, with the fee manager of the pool's fee
/// rate and the adaptive fee information at `timestamp`, the finished run
/// (see `wp_run`) from the pool's state gives the amounts of token A and
/// token B: the input used on the input side, the output on the other.
/// `None` where the computation fails or the run does not finish.
pub open spec fn whirlpool_swap_outcome(
    pool: WhirlpoolPoolState,
    arrays: Seq<WhirlpoolTickArrayRef>,
    amount: u64,
    sqrt_price_limit: u128,
    a_to_b: bool,
    adaptive_fee_info: Option<AdaptiveFeeInfo>,
    timestamp: u64,
) -> Option<Result<SwapUpdate, ErrorCode>> {
    let limit = wp_limit(sqrt_price_limit, a_to_b);
    if (a_to_b && limit >= pool.sqrt_price) || (!a_to_b && limit <= pool.sqrt_price) {
        Some(Err(ErrorCode::InvalidSqrtPriceLimit))
    } else {
        match fee_rate_manager_new(a_to_b, pool.tick_current_index, timestamp, pool.trade_fee_rate as u16, adaptive_fee_info) {
            None => None,
            Some(m) => {
                let st0 = wp_initial_state(pool, amount, m);
                if !(exists|f: nat| #[trigger] wp_run(pool, arrays, limit, a_to_b, st0, f) is Some) {
                    None
                } else {
                    let f = choose|f: nat| #[trigger] wp_run(pool, arrays, limit, a_to_b, st0, f) is Some;
                    match wp_run(pool, arrays, limit, a_to_b, st0, f)->0 {
                        Err(e) => Some(Err(e)),
                        Ok(fin) => {
                            let used = (amount - fin.amount_remaining) as u64;
                            if a_to_b {
                                Some(Ok(SwapUpdate { amount_a: used, amount_b: fin.amount_calculated }))
                            } else {
                                Some(Ok(SwapUpdate { amount_a: fin.amount_calculated, amount_b: used }))
                            }
                        },
                    }
                }
            },
        }
    }
}

/// A zero price limit asks for no limit: the swap goes as with the end of
/// the price range in its direction as the limit.
pub proof fn law_zero_limit_is_range_end(
    pool: WhirlpoolPoolState,
    arrays: Seq<WhirlpoolTickArrayRef>,
    amount: u64,
    a_to_b: bool,
    adaptive_fee_info: Option<AdaptiveFeeInfo>,
    timestamp: u64,
)
    ensures
        whirlpool_swap_outcome(pool, arrays, amount, 0, a_to_b, adaptive_fee_info, timestamp) == whirlpool_swap_outcome(
            pool,
            arrays,
            amount,
            if a_to_b {
                MIN_SQRT_PRICE_X64
            } else {
                MAX_SQRT_PRICE_X64
            },
            a_to_b,
            adaptive_fee_info,
            timestamp,
        ),
{
    assert(wp_limit(0, a_to_b) == wp_limit(if a_to_b { MIN_SQRT_PRICE_X64 } else { MAX_SQRT_PRICE_X64 }, a_to_b));
}

/// An exact-input Whirlpool swap over the given tick arrays; see
/// `whirlpool_swap_outcome`.
#[verifier::loop_isolation(false)]
pub fn whirlpool_swap_internal(
    pool_state: &WhirlpoolPoolState,
    tick_arrays: &Vec<WhirlpoolTickArrayRef>,
    amount: u64,
    sqrt_price_limit: u128,
    a_to_b: bool,
    adaptive_fee_info: &Option<AdaptiveFeeInfo>,
    timestamp: u64,
) -> (r: Result<SwapUpdate, ErrorCode>)
    requires
        whirlpool_swap_outcome(*pool_state, tick_arrays@, amount, sqrt_price_limit, a_to_b, *adaptive_fee_info, timestamp) is Some,
    ensures
        Some(r) == whirlpool_swap_outcome(*pool_state, tick_arrays@, amount, sqrt_price_limit, a_to_b, *adaptive_fee_info, timestamp),
{
    let adjusted_sqrt_price_limit = if sqrt_price_limit == NO_EXPLICIT_SQRT_PRICE_LIMIT {
        if a_to_b {
            MIN_SQRT_PRICE_X64
        } else {
            MAX_SQRT_PRICE_X64
        }
    } else {
        sqrt_price_limit
    };
    if (a_to_b && adjusted_sqrt_price_limit >= pool_state.sqrt_price) || (!a_to_b && adjusted_sqrt_price_limit
        <= pool_state.sqrt_price) {
        return Err(ErrorCode::InvalidSqrtPriceLimit);
    }
    let fee_rate_manager = FeeRateManager::new(
        a_to_b,
        pool_state.tick_current_index,
        timestamp,
        pool_state.trade_fee_rate as u16,
        adaptive_fee_info,
    )?;
    let mut state = WpSwapState {
        amount_remaining: amount,
        amount_calculated: 0,
        sqrt_price: pool_state.sqrt_price,
        tick_index: pool_state.tick_current_index,
        liquidity: pool_state.liquidity,
        array_index: 0,
        fee_sum: 0,
        fee_rate_manager,
        segment: None,
    };
    let ghost st0 = state;
    assert(st0 == wp_initial_state(*pool_state, amount, fee_rate_manager));
    let ghost fuel: nat = choose|f: nat| #[trigger] wp_run(*pool_state, tick_arrays@, adjusted_sqrt_price_limit, a_to_b, st0, f) is Some;
    let ghost goal = wp_run(*pool_state, tick_arrays@, adjusted_sqrt_price_limit, a_to_b, st0, fuel);
    while state.segment.is_some() || (state.amount_remaining > 0 && adjusted_sqrt_price_limit != state.sqrt_price)
        invariant
            state.amount_remaining <= amount,
            wp_run(*pool_state, tick_arrays@, adjusted_sqrt_price_limit, a_to_b, state, fuel) is Some,
            wp_run(*pool_state, tick_arrays@, adjusted_sqrt_price_limit, a_to_b, state, fuel) == goal,
        decreases fuel,
    {
        state = whirlpool_swap_step(pool_state, tick_arrays, adjusted_sqrt_price_limit, a_to_b, state)?;
        proof {
            fuel = (fuel - 1) as nat;
        }
    }
    let used = amount - state.amount_remaining;
    if a_to_b {
        Ok(SwapUpdate { amount_a: used, amount_b: state.amount_calculated })
    } else {
        Ok(SwapUpdate { amount_a: state.amount_calculated, amount_b: used })
    }
}


/// What a Whirlpool quote swaps over: the tick arrays, the price limit and
/// the pool's adaptive fee information, if any.
pub struct WhirlpoolParams {
    pub tick_arrays: Vec<WhirlpoolTickArrayRef>,
    pub sqrt_price_limit: u128,
    pub oracle_info: Box<Option<AdaptiveFeeInfo>>,
}

/// Quote for selling `wsol_amount_in` of wrapped SOL at `timestamp`: zero
/// for no input, no liquidity or no tick arrays; `InvalidClmmParams`
/// without parameters; else the output of the swap (A to B when A is
/// wrapped SOL; see `whirlpool_swap_outcome`) less the token's transfer
/// fee, zero when the fee is larger.
pub open spec fn whirlpool_quote_wsol(
    pool: WhirlpoolPoolState,
    wsol_mint: Seq<u8>,
    wsol_amount_in: u64,
    mint_fee: MintFeeInfo,
    epoch: u64,
    params: Option<WhirlpoolParams>,
    timestamp: u64,
) -> Option<Result<u64, ErrorCode>> {
    if wsol_amount_in == 0 || pool.liquidity == 0 {
        Some(Ok(0))
    } else {
        match params {
            None => Some(Err(ErrorCode::InvalidClmmParams)),
            Some(p) => if p.tick_arrays@.len() == 0 {
                Some(Ok(0))
            } else {
                let a_to_b = pool.token_mint_a@ == wsol_mint;
                match whirlpool_swap_outcome(pool, p.tick_arrays@, wsol_amount_in, p.sqrt_price_limit, a_to_b, *p.oracle_info, timestamp) {
                    None => None,
                    Some(Err(e)) => Some(Err(e)),
                    Some(Ok(u)) => {
                        let out = if a_to_b {
                            u.amount_b
                        } else {
                            u.amount_a
                        };
                        if !mint_fee_defined(mint_fee, epoch, out) {
                            None
                        } else if mint_transfer_fee(mint_fee, epoch, out) > out {
                            Some(Ok(0))
                        } else {
                            Some(Ok((out - mint_transfer_fee(mint_fee, epoch, out)) as u64))
                        }
                    },
                }
            },
        }
    }
}

/// A wrapped SOL quote reports what the swap pays out, not what it takes
/// in: the output the swap run adds up step by step (whatever the number
/// of steps allowed, as long as the run finishes), less the token's
/// transfer fee.
pub proof fn law_wsol_quote_is_swap_output(
    pool: WhirlpoolPoolState,
    wsol_mint: Seq<u8>,
    wsol_amount_in: u64,
    mint_fee: MintFeeInfo,
    epoch: u64,
    params: WhirlpoolParams,
    timestamp: u64,
)
    requires
        wsol_amount_in > 0,
        pool.liquidity > 0,
        params.tick_arrays@.len() > 0,
    ensures
        whirlpool_quote_wsol(pool, wsol_mint, wsol_amount_in, mint_fee, epoch, Some(params), timestamp) matches Some(Ok(q)) ==> {
            let a_to_b = pool.token_mint_a@ == wsol_mint;
            let limit = wp_limit(params.sqrt_price_limit, a_to_b);
            let m = fee_rate_manager_new(a_to_b, pool.tick_current_index, timestamp, pool.trade_fee_rate as u16, *params.oracle_info);
            m is Some && forall|f: nat|
                #![trigger wp_run(pool, params.tick_arrays@, limit, a_to_b, wp_initial_state(pool, wsol_amount_in, m->0), f)]
                wp_run(pool, params.tick_arrays@, limit, a_to_b, wp_initial_state(pool, wsol_amount_in, m->0), f) matches Some(
                    Ok(fin),
                ) ==> q == if mint_transfer_fee(mint_fee, epoch, fin.amount_calculated) > fin.amount_calculated {
                    0
                } else {
                    fin.amount_calculated - mint_transfer_fee(mint_fee, epoch, fin.amount_calculated)
                }
        },
{
    let a_to_b = pool.token_mint_a@ == wsol_mint;
    let limit = wp_limit(params.sqrt_price_limit, a_to_b);
    let arrays = params.tick_arrays@;
    if let Some(Ok(q)) = whirlpool_quote_wsol(pool, wsol_mint, wsol_amount_in, mint_fee, epoch, Some(params), timestamp) {
        let m = fee_rate_manager_new(a_to_b, pool.tick_current_index, timestamp, pool.trade_fee_rate as u16, *params.oracle_info)->0;
        let st0 = wp_initial_state(pool, wsol_amount_in, m);
        let g = choose|f: nat| #[trigger] wp_run(pool, arrays, limit, a_to_b, st0, f) is Some;
        assert forall|f: nat| #[trigger] wp_run(pool, arrays, limit, a_to_b, st0, f) is Some implies wp_run(
            pool,
            arrays,
            limit,
            a_to_b,
            st0,
            f,
        ) == wp_run(pool, arrays, limit, a_to_b, st0, g) by {
            lemma_wp_run_fuel(pool, arrays, limit, a_to_b, st0, f, g);
        }
    }
}

/// A token quote on a plain token reports what the swap pays out in
/// wrapped SOL: the output the swap run of the whole input adds up (A to B
/// when B is wrapped SOL), whatever the number of steps allowed, as long
/// as the run finishes.
pub proof fn law_token_quote_is_swap_output(
    pool: WhirlpoolPoolState,
    wsol_mint: Seq<u8>,
    token_amount_in: u64,
    mint_fee: MintFeeInfo,
    epoch: u64,
    params: WhirlpoolParams,
    timestamp: u64,
)
    requires
        token_amount_in > 0,
        pool.liquidity > 0,
        params.tick_arrays@.len() > 0,
        mint_fee.owner@ == TOKEN_PROGRAM_ID@,
    ensures
        whirlpool_quote_token(pool, wsol_mint, token_amount_in, mint_fee, epoch, Some(params), timestamp) matches Some(Ok(q)) ==> {
            let a_to_b = pool.token_mint_b@ == wsol_mint;
            let limit = wp_limit(params.sqrt_price_limit, a_to_b);
            let m = fee_rate_manager_new(a_to_b, pool.tick_current_index, timestamp, pool.trade_fee_rate as u16, *params.oracle_info);
            m is Some && forall|f: nat|
                #![trigger wp_run(pool, params.tick_arrays@, limit, a_to_b, wp_initial_state(pool, token_amount_in, m->0), f)]
                wp_run(pool, params.tick_arrays@, limit, a_to_b, wp_initial_state(pool, token_amount_in, m->0), f) matches Some(
                    Ok(fin),
                ) ==> q == fin.amount_calculated
        },
{
    let a_to_b = pool.token_mint_b@ == wsol_mint;
    let limit = wp_limit(params.sqrt_price_limit, a_to_b);
    let arrays = params.tick_arrays@;
    if let Some(Ok(q)) = whirlpool_quote_token(pool, wsol_mint, token_amount_in, mint_fee, epoch, Some(params), timestamp) {
        let m = fee_rate_manager_new(a_to_b, pool.tick_current_index, timestamp, pool.trade_fee_rate as u16, *params.oracle_info)->0;
        let st0 = wp_initial_state(pool, token_amount_in, m);
        let g = choose|f: nat| #[trigger] wp_run(pool, arrays, limit, a_to_b, st0, f) is Some;
        assert forall|f: nat| #[trigger] wp_run(pool, arrays, limit, a_to_b, st0, f) is Some implies wp_run(
            pool,
            arrays,
            limit,
            a_to_b,
            st0,
            f,
        ) == wp_run(pool, arrays, limit, a_to_b, st0, g) by {
            lemma_wp_run_fuel(pool, arrays, limit, a_to_b, st0, f, g);
        }
    }
}

/// Crossing an initialized tick moves the liquidity by the tick's net
/// liquidity: taken off moving down (A to B), added moving up.
pub proof fn law_crossing_moves_liquidity_by_net(
    arrays: Seq<WhirlpoolTickArrayRef>,
    ai: int,
    tick_index: i32,
    tick_spacing: u16,
    a_to_b: bool,
    liquidity: u128,
)
    ensures
        crossed_liquidity(arrays, ai, tick_index, tick_spacing, a_to_b, liquidity) matches Some(Ok(l)) ==> (0 <= ai < arrays.len()
            ==> (tick_at_index(arrays[ai], tick_index, tick_spacing) matches Some(Ok(tick)) ==> (tick.initialized != 0 ==> l
            == if a_to_b {
            liquidity - tick.liquidity_net
        } else {
            liquidity + tick.liquidity_net
        }))),
{
}

/// Quote for selling `wsol_amount_in` of wrapped SOL; see
/// `whirlpool_quote_wsol`.
pub fn whirlpool_quote_exact_input_wsol(
    pool_state: &WhirlpoolPoolState,
    wsol_mint: [u8; 32],
    wsol_amount_in: u64,
    token_mint_info: &MintFeeInfo,
    epoch: u64,
    whirlpool_params: &Option<WhirlpoolParams>,
    timestamp: u64,
) -> (r: Result<u64, ErrorCode>)
    requires
        whirlpool_quote_wsol(*pool_state, wsol_mint@, wsol_amount_in, *token_mint_info, epoch, *whirlpool_params, timestamp) is Some,
    ensures
        Some(r) == whirlpool_quote_wsol(*pool_state, wsol_mint@, wsol_amount_in, *token_mint_info, epoch, *whirlpool_params, timestamp),
{
    if wsol_amount_in == 0 || pool_state.liquidity == 0 {
        return Ok(0);
    }
    let params = match whirlpool_params {
        Some(p) => p,
        None => {
            return Err(ErrorCode::InvalidClmmParams);
        },
    };
    if params.tick_arrays.len() == 0 {
        return Ok(0);
    }
    let a_to_b = key_eq(&pool_state.token_mint_a, &wsol_mint);
    let swap_result = whirlpool_swap_internal(
        pool_state,
        &params.tick_arrays,
        wsol_amount_in,
        params.sqrt_price_limit,
        a_to_b,
        &*params.oracle_info,
        timestamp,
    )?;
    let token_amount_out = if a_to_b {
        swap_result.amount_b
    } else {
        swap_result.amount_a
    };
    let transfer_fee = get_transfer_fee(token_mint_info, epoch, token_amount_out)?;
    let final_output = match transfer_fee {
        0 => token_amount_out,
        _ => match token_amount_out.checked_sub(transfer_fee) {
            Some(v) => v,
            None => 0,
        },
    };
    Ok(final_output)
}

/// Quote for selling `token_amount_in` of the token for wrapped SOL at
/// `timestamp`: zero for no input or no liquidity; the token's transfer fee
/// comes off the input (leaving zero when larger), and no input left gives
/// zero; `InvalidClmmParams` without parameters; zero without tick arrays;
/// else the swap's output (A to B when B is wrapped SOL; see
/// `whirlpool_swap_outcome`).
pub open spec fn whirlpool_quote_token(
    pool: WhirlpoolPoolState,
    wsol_mint: Seq<u8>,
    token_amount_in: u64,
    mint_fee: MintFeeInfo,
    epoch: u64,
    params: Option<WhirlpoolParams>,
    timestamp: u64,
) -> Option<Result<u64, ErrorCode>> {
    if token_amount_in == 0 || pool.liquidity == 0 {
        Some(Ok(0))
    } else if !mint_fee_defined(mint_fee, epoch, token_amount_in) {
        None
    } else {
        let fee = mint_transfer_fee(mint_fee, epoch, token_amount_in);
        let actual: u64 = if fee > token_amount_in {
            0
        } else {
            (token_amount_in - fee) as u64
        };
        if actual == 0 {
            Some(Ok(0))
        } else {
            match params {
                None => Some(Err(ErrorCode::InvalidClmmParams)),
                Some(p) => if p.tick_arrays@.len() == 0 {
                    Some(Ok(0))
                } else {
                    let a_to_b = pool.token_mint_b@ == wsol_mint;
                    match whirlpool_swap_outcome(pool, p.tick_arrays@, actual, p.sqrt_price_limit, a_to_b, *p.oracle_info, timestamp) {
                        None => None,
                        Some(Err(e)) => Some(Err(e)),
                        Some(Ok(u)) => Some(
                            Ok(
                                if a_to_b {
                                    u.amount_b
                                } else {
                                    u.amount_a
                                },
                            ),
                        ),
                    }
                },
            }
        }
    }
}

/// Quote for selling `token_amount_in` of the token for wrapped SOL; see
/// `whirlpool_quote_token`.
pub fn whirlpool_quote_exact_input_token(
    pool_state: &WhirlpoolPoolState,
    wsol_mint: [u8; 32],
    token_amount_in: u64,
    token_mint_info: &MintFeeInfo,
    epoch: u64,
    whirlpool_params: &Option<WhirlpoolParams>,
    timestamp: u64,
) -> (r: Result<u64, ErrorCode>)
    requires
        whirlpool_quote_token(*pool_state, wsol_mint@, token_amount_in, *token_mint_info, epoch, *whirlpool_params, timestamp) is Some,
    ensures
        Some(r) == whirlpool_quote_token(*pool_state, wsol_mint@, token_amount_in, *token_mint_info, epoch, *whirlpool_params, timestamp),
{
    if token_amount_in == 0 || pool_state.liquidity == 0 {
        return Ok(0);
    }
    let transfer_fee = get_transfer_fee(token_mint_info, epoch, token_amount_in)?;
    let actual_token_amount_in = match transfer_fee {
        0 => token_amount_in,
        _ => match token_amount_in.checked_sub(transfer_fee) {
            Some(v) => v,
            None => 0,
        },
    };
    if actual_token_amount_in == 0 {
        return Ok(0);
    }
    let params = match whirlpool_params {
        Some(p) => p,
        None => {
            return Err(ErrorCode::InvalidClmmParams);
        },
    };
    if params.tick_arrays.len() == 0 {
        return Ok(0);
    }
    let a_to_b = key_eq(&pool_state.token_mint_b, &wsol_mint);
    let swap_result = whirlpool_swap_internal(
        pool_state,
        &params.tick_arrays,
        actual_token_amount_in,
        params.sqrt_price_limit,
        a_to_b,
        &*params.oracle_info,
        timestamp,
    )?;
    let wsol_amount_out = if a_to_b {
        swap_result.amount_b
    } else {
        swap_result.amount_a
    };
    Ok(wsol_amount_out)
}


/// The system program's address.
pub const SYSTEM_PROGRAM_ID: [u8; 32] = [
    0, 0, 0, 0, 0, 0, 0, 0, 0, 0, 0, 0, 0, 0, 0, 0, 0, 0, 0, 0, 0, 0, 0, 0, 0, 0, 0, 0, 0, 0, 0, 0,
];

/// The pool fields as stored in a Whirlpool account.
pub open spec fn whirlpool_read(s: WhirlpoolPoolState, d: Seq<u8>, ma: [u8; 32], mb: [u8; 32]) -> WhirlpoolPoolState {
    WhirlpoolPoolState {
        token_mint_a: ma,
        token_mint_b: mb,
        sqrt_price: le_value(d, 65, 16) as u128,
        tick_spacing: le_value(d, 41, 2) as u16,
        tick_current_index: le_value(d, 81, 4) as u32 as i32,
        liquidity: le_value(d, 49, 16) as u128,
        trade_fee_rate: le_value(d, 45, 2) as u64,
        ..s
    }
}

/// Reads a Whirlpool pool into `pool_state` after checking that it belongs
/// to the Whirlpool program and pairs wrapped SOL with `token_mint`:
/// `InvalidPoolOwner`, `InvalidTokenPair` or `TokenMismatch` otherwise; on
/// error the state is unchanged.
pub fn parse_whirlpool_pool_data(
    pool_index: &usize,
    wsol_mint: [u8; 32],
    token_mint: [u8; 32],
    accounts: &Vec<AccountView>,
    pool_state: &mut WhirlpoolPoolState,
) -> (r: Result<(), ErrorCode>)
    requires
        *pool_index < accounts.len(),
        accounts@[*pool_index as int].owner@ == WHIRLPOOL_PROGRAM_ID@ ==> accounts@[*pool_index as int].data@.len() >= 213,
    ensures
        ({
            let d = accounts@[*pool_index as int].data@;
            let ma = d.subrange(101, 133);
            let mb = d.subrange(181, 213);
            if accounts@[*pool_index as int].owner@ != WHIRLPOOL_PROGRAM_ID@ {
                r == Err::<(), ErrorCode>(ErrorCode::InvalidPoolOwner) && *final(pool_state) == *old(pool_state)
            } else if ma != wsol_mint@ && mb != wsol_mint@ {
                r == Err::<(), ErrorCode>(ErrorCode::InvalidTokenPair) && *final(pool_state) == *old(pool_state)
            } else if (if ma == wsol_mint@ { mb } else { ma }) != token_mint@ {
                r == Err::<(), ErrorCode>(ErrorCode::TokenMismatch) && *final(pool_state) == *old(pool_state)
            } else {
                r == Ok::<(), ErrorCode>(()) && final(pool_state).token_mint_a@ == ma && final(pool_state).token_mint_b@ == mb
                    && *final(pool_state) == whirlpool_read(*old(pool_state), d, final(pool_state).token_mint_a, final(pool_state).token_mint_b)
            }
        }),
{
    let pool_account = &accounts[*pool_index];
    if !key_eq(&pool_account.owner, &WHIRLPOOL_PROGRAM_ID) {
        return Err(ErrorCode::InvalidPoolOwner);
    }
    let pool_data = &pool_account.data;
    let tick_spacing = read_u16(pool_data, 41);
    let fee_rate = read_u16(pool_data, 45);
    let liquidity = read_u128(pool_data, 49);
    let sqrt_price = read_u128(pool_data, 65);
    let tick_current_index = read_u32(pool_data, 81) as i32;
    let token_mint_a = read_key(pool_data, 101);
    let token_mint_b = read_key(pool_data, 181);
    let other_mint = if key_eq(&token_mint_a, &wsol_mint) {
        token_mint_b
    } else if key_eq(&token_mint_b, &wsol_mint) {
        token_mint_a
    } else {
        return Err(ErrorCode::InvalidTokenPair);
    };
    if !key_eq(&other_mint, &token_mint) {
        return Err(ErrorCode::TokenMismatch);
    }
    pool_state.token_mint_a = token_mint_a;
    pool_state.token_mint_b = token_mint_b;
    pool_state.sqrt_price = sqrt_price;
    pool_state.tick_spacing = tick_spacing;
    pool_state.tick_current_index = tick_current_index;
    pool_state.liquidity = liquidity;
    pool_state.trade_fee_rate = fee_rate as u64;
    Ok(())
}

/// The layout of a tick array account of the Whirlpool program; `None` for
/// another owner, an account under 8 bytes or an unknown discriminator.
pub open spec fn whirlpool_array_type(a: AccountView) -> Option<TickArrayType> {
    if a.owner@ != WHIRLPOOL_PROGRAM_ID@ {
        None
    } else {
        array_type_of(a.data@)
    }
}

/// The tick arrays kept of one account: its bytes and layout, or none.
pub open spec fn kept_array(a: AccountView) -> Seq<(Seq<u8>, TickArrayType)> {
    match whirlpool_array_type(a) {
        None => Seq::empty(),
        Some(t) => seq![(a.data@, t)],
    }
}

/// The bytes and layout of each tick array.
pub open spec fn arrays_view(v: Seq<WhirlpoolTickArrayRef>) -> Seq<(Seq<u8>, TickArrayType)> {
    v.map_values(|a: WhirlpoolTickArrayRef| (a.data@, a.array_type))
}

/// A tick array read from an account; see `whirlpool_array_type`.
fn parse_whirlpool_tick_array(tick_array_info: &AccountView) -> (r: Result<Option<WhirlpoolTickArrayRef>, ErrorCode>)
    ensures
        match whirlpool_array_type(*tick_array_info) {
            None => r matches Ok(None),
            Some(t) => r matches Ok(Some(a)) && a.array_type == t && a.data@ == tick_array_info.data@,
        },
{
    if !key_eq(&tick_array_info.owner, &WHIRLPOOL_PROGRAM_ID) {
        return Ok(None);
    }
    if tick_array_info.data.len() < 8 {
        return Ok(None);
    }
    match WhirlpoolTickArrayRef::new(tick_array_info) {
        Ok(tick_array_ref) => Ok(Some(tick_array_ref)),
        Err(_) => Ok(None),
    }
}

/// The tick arrays of three accounts, in order, leaving out those that are
/// not Whirlpool tick arrays; see `kept_array`.
pub fn parse_whirlpool_tick_arrays_three(
    tick_array_0: &AccountView,
    tick_array_1: &AccountView,
    tick_array_2: &AccountView,
) -> (r: Result<Vec<WhirlpoolTickArrayRef>, ErrorCode>)
    ensures
        r matches Ok(v) && arrays_view(v@) == kept_array(*tick_array_0) + kept_array(*tick_array_1) + kept_array(*tick_array_2),
{
    let mut tick_arrays: Vec<WhirlpoolTickArrayRef> = Vec::new();
    if let Some(tick_array_ref) = parse_whirlpool_tick_array(tick_array_0)? {
        tick_arrays.push(tick_array_ref);
    }
    let ghost v0 = tick_arrays@;
    assert(arrays_view(v0) =~= kept_array(*tick_array_0));
    if let Some(tick_array_ref) = parse_whirlpool_tick_array(tick_array_1)? {
        tick_arrays.push(tick_array_ref);
    }
    let ghost v1 = tick_arrays@;
    assert(arrays_view(v1) =~= kept_array(*tick_array_0) + kept_array(*tick_array_1));
    if let Some(tick_array_ref) = parse_whirlpool_tick_array(tick_array_2)? {
        tick_arrays.push(tick_array_ref);
    }
    assert(arrays_view(tick_arrays@) =~= kept_array(*tick_array_0) + kept_array(*tick_array_1) + kept_array(*tick_array_2));
    Ok(tick_arrays)
}

/// The adaptive fee information stored in an oracle account: the constants
/// from byte 48, the variables from byte 80.
pub open spec fn oracle_read(d: Seq<u8>) -> AdaptiveFeeInfo {
    AdaptiveFeeInfo {
        constants: AdaptiveFeeConstants {
            filter_period: le_value(d, 48, 2) as u16,
            decay_period: le_value(d, 50, 2) as u16,
            reduction_factor: le_value(d, 52, 2) as u16,
            adaptive_fee_control_factor: le_value(d, 56, 4) as u32,
            max_volatility_accumulator: le_value(d, 60, 4) as u32,
            tick_group_size: le_value(d, 64, 2) as u16,
            major_swap_threshold_ticks: le_value(d, 66, 2) as u16,
        },
        variables: AdaptiveFeeVariables {
            last_reference_update_timestamp: le_value(d, 80, 8) as u64,
            last_major_swap_timestamp: le_value(d, 88, 8) as u64,
            volatility_reference: le_value(d, 96, 4) as u32,
            tick_group_index_reference: le_value(d, 100, 4) as u32 as i32,
            volatility_accumulator: le_value(d, 104, 4) as u32,
        },
    }
}

/// The adaptive fee information of a pool's oracle account: none for an
/// empty account of the system program (an oracle not yet made), one of
/// another program than Whirlpool's, or one under 264 bytes; else see
/// `oracle_read`.
pub fn parse_whirlpool_oracle_adaptive_fee(oracle_info: &AccountView) -> (r: Result<Option<AdaptiveFeeInfo>, ErrorCode>)
    ensures
        r == Ok::<Option<AdaptiveFeeInfo>, ErrorCode>(
            if (oracle_info.owner@ == SYSTEM_PROGRAM_ID@ && oracle_info.data@.len() == 0) || oracle_info.owner@
                != WHIRLPOOL_PROGRAM_ID@ || oracle_info.data@.len() < 264 {
                None
            } else {
                Some(oracle_read(oracle_info.data@))
            },
        ),
{
    if key_eq(&oracle_info.owner, &SYSTEM_PROGRAM_ID) && oracle_info.data.len() == 0 {
        return Ok(None);
    }
    if !key_eq(&oracle_info.owner, &WHIRLPOOL_PROGRAM_ID) {
        return Ok(None);
    }
    let data = &oracle_info.data;
    if data.len() < 264 {
        return Ok(None);
    }
    let constants = AdaptiveFeeConstants {
        filter_period: read_u16(data, 48),
        decay_period: read_u16(data, 50),
        reduction_factor: read_u16(data, 52),
        adaptive_fee_control_factor: read_u32(data, 56),
        max_volatility_accumulator: read_u32(data, 60),
        tick_group_size: read_u16(data, 64),
        major_swap_threshold_ticks: read_u16(data, 66),
    };
    let variables = AdaptiveFeeVariables {
        last_reference_update_timestamp: read_u64(data, 80),
        last_major_swap_timestamp: read_u64(data, 88),
        volatility_reference: read_u32(data, 96),
        tick_group_index_reference: read_u32(data, 100) as i32,
        volatility_accumulator: read_u32(data, 104),
    };
    Ok(Some(AdaptiveFeeInfo { constants, variables }))
}

/// Sets the pool's price: zero without liquidity, else as for CLMM pools
/// (see `clmm_price`) with token B in place of token 1.
pub fn calculate_whirlpool_price(pool_state: &mut WhirlpoolPoolState, wsol_mint: [u8; 32]) -> (r: Result<(), ErrorCode>)
    ensures
        r == Ok::<(), ErrorCode>(()),
        *final(pool_state) == (WhirlpoolPoolState {
            price: if old(pool_state).liquidity == 0 {
                0
            } else {
                clmm_price(old(pool_state).sqrt_price, old(pool_state).token_mint_b@ == wsol_mint@)
            },
            ..*old(pool_state)
        }),
{
    if pool_state.liquidity == 0 {
        pool_state.price = 0;
        return Ok(());
    }
    proof {
        vstd::arithmetic::power2::lemma2_to64();
    }
    let mut price_q64 = pool_state.sqrt_price;
    price_q64 = safe_mul_shr_cast(price_q64, price_q64, 64, Rounding::Down);
    if !key_eq(&pool_state.token_mint_b, &wsol_mint) {
        price_q64 = safe_mul_div_cast(ONE, ONE, price_q64, Rounding::Down);
    }
    pool_state.price = price_q64;
    Ok(())
}

/// The wrapped SOL that moves between two prices: zero without liquidity,
/// else the token-A (when wrapped SOL is token A) or token-B change (see
/// `delta_a_outcome`, `delta_b_outcome`), with its error.
pub fn calculate_whirlpool_amount_in_range(
    sqrt_price_current: u128,
    sqrt_price_target: u128,
    liquidity: u128,
    wsol_is_token_a: bool,
    round_up: bool,
) -> (r: Result<Option<u64>, ErrorCode>)
    requires
        liquidity != 0 && wsol_is_token_a ==> price_lower(sqrt_price_current, sqrt_price_target) > 0 || liquidity * (price_upper(
            sqrt_price_current,
            sqrt_price_target,
        ) - price_lower(sqrt_price_current, sqrt_price_target)) >= 0x1_0000_0000_0000_0000_0000_0000_0000_0000_0000_0000_0000_0000,
    ensures
        r == (if liquidity == 0 {
            Ok::<Option<u64>, ErrorCode>(Some(0))
        } else {
            match flatten_delta(
                if wsol_is_token_a {
                    delta_a_outcome(sqrt_price_current, sqrt_price_target, liquidity, round_up)
                } else {
                    delta_b_outcome(sqrt_price_current, sqrt_price_target, liquidity, round_up)
                },
            ) {
                Ok(v) => Ok(Some(v)),
                Err(e) => Err(e),
            }
        }),
{
    if liquidity == 0 {
        return Ok(Some(0));
    }
    let result = if wsol_is_token_a {
        get_amount_delta_a(sqrt_price_current, sqrt_price_target, liquidity, round_up)
    } else {
        get_amount_delta_b(sqrt_price_current, sqrt_price_target, liquidity, round_up)
    };
    match result {
        Ok(amount) => Ok(Some(amount)),
        Err(e) => Err(e),
    }
}

} // verus!
