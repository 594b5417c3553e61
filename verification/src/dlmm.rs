use vstd::prelude::*;

use crate::bytes::{key_eq, le_value, read_key, read_u16, read_u32, read_u64, AccountView};
use crate::errors::ErrorCode;
use crate::pools::DLMM_PROGRAM_ID;
use crate::q64_math::{or_zero, pow2_u128, safe_mul_shr_cast, safe_shl_div_cast, spec_mul_div};
use crate::token_fee::{get_transfer_fee, mint_fee_defined, mint_transfer_fee, MintFeeInfo, TOKEN_PROGRAM_ID};
use crate::u64x64_math::{pow, spec_pow, ONE, SCALE_OFFSET};
use crate::wide::Rounding;

verus! {

/// Bins per bin array.
pub const MAX_BIN_PER_ARRAY: usize = 70;

/// A DLMM pair: where its accounts sit, its mints, active bin and fee
/// parameters.
#[derive(Debug, Clone, Copy)]
pub struct DlmmPoolState {
    pub program_id_index: usize,
    pub event_authority_index: usize,
    pub oracle_index: usize,
    pub pool_index: usize,
    pub token_x_mint: [u8; 32],
    pub token_y_mint: [u8; 32],
    pub active_id: i32,
    pub bin_step: u16,
    pub base_factor: u16,
    pub variable_fee_control: u32,
    pub max_volatility_accumulator: u32,
    pub base_fee_power_factor: u8,
    /// Fee rate over 1e9.
    pub total_fee_rate: u64,
    pub base_fee: u64,
    pub price: u128,
    pub volatility_accumulator: u32,
    pub volatility_reference: u32,
    pub index_reference: i32,
    pub reserve_x_index: usize,
    pub reserve_y_index: usize,
    pub bin_array_minus_1_index: usize,
    pub bin_array_0_index: usize,
    pub bin_array_1_index: usize,
}

/// One bin's liquidity, price and the most input it can take, fees included.
#[derive(Debug, Clone, Copy, Default)]
pub struct BinState {
    pub amount_x: u64,
    pub amount_y: u64,
    /// Q64.64 price.
    pub price: u128,
    pub max_amount_in_with_fees: u64,
}

/// The `i32` stored little-endian at `off`.
pub open spec fn i32_at(data: Seq<u8>, off: int) -> i32 {
    le_value(data, off, 4) as u32 as i32
}

/// The pair fields as stored in a DLMM pair account, the mints aside.
pub open spec fn dlmm_read(s: DlmmPoolState, d: Seq<u8>, x: [u8; 32], y: [u8; 32]) -> DlmmPoolState {
    DlmmPoolState {
        token_x_mint: x,
        token_y_mint: y,
        active_id: i32_at(d, 76),
        bin_step: le_value(d, 80, 2) as u16,
        base_factor: le_value(d, 8, 2) as u16,
        variable_fee_control: le_value(d, 16, 4) as u32,
        max_volatility_accumulator: le_value(d, 20, 4) as u32,
        base_fee_power_factor: d[34],
        volatility_accumulator: le_value(d, 40, 4) as u32,
        volatility_reference: le_value(d, 44, 4) as u32,
        index_reference: i32_at(d, 48),
        ..s
    }
}

/// Reads a DLMM pair into `pool_state` after checking that it belongs to the
/// DLMM program and pairs wrapped SOL with `token_mint`:
/// `InvalidPoolOwner`, `InvalidTokenPair` or `TokenMismatch` otherwise; on
/// error the state is unchanged.
pub fn parse_dlmm_pool_data(
    pool_index: &usize,
    wsol_mint: [u8; 32],
    token_mint: [u8; 32],
    accounts: &Vec<AccountView>,
    pool_state: &mut DlmmPoolState,
) -> (r: Result<(), ErrorCode>)
    requires
        *pool_index < accounts.len(),
        accounts@[*pool_index as int].owner@ == DLMM_PROGRAM_ID@ ==> accounts@[*pool_index as int].data@.len() >= 152,
    ensures
        ({
            let d = accounts@[*pool_index as int].data@;
            let x = d.subrange(88, 120);
            let y = d.subrange(120, 152);
            if accounts@[*pool_index as int].owner@ != DLMM_PROGRAM_ID@ {
                r == Err::<(), ErrorCode>(ErrorCode::InvalidPoolOwner) && *final(pool_state) == *old(pool_state)
            } else if x != wsol_mint@ && y != wsol_mint@ {
                r == Err::<(), ErrorCode>(ErrorCode::InvalidTokenPair) && *final(pool_state) == *old(pool_state)
            } else if (if x == wsol_mint@ { y } else { x }) != token_mint@ {
                r == Err::<(), ErrorCode>(ErrorCode::TokenMismatch) && *final(pool_state) == *old(pool_state)
            } else {
                r == Ok::<(), ErrorCode>(()) && final(pool_state).token_x_mint@ == x
                    && final(pool_state).token_y_mint@ == y && *final(pool_state) == dlmm_read(
                    *old(pool_state),
                    d,
                    final(pool_state).token_x_mint,
                    final(pool_state).token_y_mint,
                )
            }
        }),
{
    let pool_account = &accounts[*pool_index];
    if !key_eq(&pool_account.owner, &DLMM_PROGRAM_ID) {
        return Err(ErrorCode::InvalidPoolOwner);
    }
    let pool_data = &pool_account.data;
    let base_factor = read_u16(pool_data, 8);
    let variable_fee_control = read_u32(pool_data, 16);
    let max_volatility_accumulator = read_u32(pool_data, 20);
    let base_fee_power_factor = pool_data[34];
    let volatility_accumulator = read_u32(pool_data, 40);
    let volatility_reference = read_u32(pool_data, 44);
    let index_reference = read_u32(pool_data, 48) as i32;
    let active_id = read_u32(pool_data, 76) as i32;
    let bin_step = read_u16(pool_data, 80);
    let token_x_mint = read_key(pool_data, 88);
    let token_y_mint = read_key(pool_data, 120);
    let other_mint = if key_eq(&token_x_mint, &wsol_mint) {
        token_y_mint
    } else if key_eq(&token_y_mint, &wsol_mint) {
        token_x_mint
    } else {
        return Err(ErrorCode::InvalidTokenPair);
    };
    if !key_eq(&other_mint, &token_mint) {
        return Err(ErrorCode::TokenMismatch);
    }
    pool_state.token_x_mint = token_x_mint;
    pool_state.token_y_mint = token_y_mint;
    pool_state.active_id = active_id;
    pool_state.bin_step = bin_step;
    pool_state.base_factor = base_factor;
    pool_state.variable_fee_control = variable_fee_control;
    pool_state.max_volatility_accumulator = max_volatility_accumulator;
    pool_state.base_fee_power_factor = base_fee_power_factor;
    pool_state.volatility_accumulator = volatility_accumulator;
    pool_state.volatility_reference = volatility_reference;
    pool_state.index_reference = index_reference;
    Ok(())
}

/// The Q64.64 growth factor per bin: `1 + bin_step / 10_000`.
pub open spec fn bin_base(bin_step: u16) -> u128 {
    (ONE + bin_step * 0x1_0000_0000_0000_0000int / 10_000) as u128
}

/// The Q64.64 price of a bin: the growth factor to the bin id.
pub open spec fn bin_price(bin_id: i32, bin_step: u16) -> Option<u128> {
    spec_pow(bin_base(bin_step), bin_id)
}

fn bin_base_of(bin_step: u16) -> (r: u128)
    ensures
        r == bin_base(bin_step),
{
    let shifted = (bin_step as u128) << 64u32;
    proof {
        let x = bin_step as u128;
        crate::bit_facts::lemma_shl_64(x);
    }
    let bps = shifted / 10000u128;
    ONE + bps
}

/// The Q64.64 price of a bin; `MathOverflow` when the power overflows.
pub fn calculate_bin_price(bin_id: i32, bin_step: u16) -> (r: Result<u128, ErrorCode>)
    requires
        bin_id != i32::MIN,
    ensures
        match bin_price(bin_id, bin_step) {
            Some(p) => r == Ok::<u128, ErrorCode>(p),
            None => r == Err::<u128, ErrorCode>(ErrorCode::MathOverflow),
        },
{
    let base = bin_base_of(bin_step);
    match pow(base, bin_id) {
        Some(p) => Ok(p),
        None => Err(ErrorCode::MathOverflow),
    }
}

/// A bin price as wrapped SOL per token: unchanged when token Y is wrapped
/// SOL; otherwise the reciprocal is taken of `2^128` wrapped to 128 bits,
/// which is zero.
pub open spec fn directional_bin_price(price: u128, token_y_is_wsol: bool) -> u128 {
    if token_y_is_wsol {
        price
    } else {
        0
    }
}

/// The price of the active bin as wrapped SOL per token; `ZeroPrice` when
/// the bin price is zero. The bin price must be defined.
pub fn calculate_dlmm_price(pool: &DlmmPoolState, wsol_mint: [u8; 32]) -> (r: Result<u128, ErrorCode>)
    requires
        pool.active_id != i32::MIN,
        bin_price(pool.active_id, pool.bin_step) is Some,
    ensures
        ({
            let p = bin_price(pool.active_id, pool.bin_step)->0;
            if pool.token_y_mint@ != wsol_mint@ && p == 0 {
                r == Err::<u128, ErrorCode>(ErrorCode::ZeroPrice)
            } else {
                r == Ok::<u128, ErrorCode>(directional_bin_price(p, pool.token_y_mint@ == wsol_mint@))
            }
        }),
{
    let base = bin_base_of(pool.bin_step);
    let mut price_q64 = match pow(base, pool.active_id) {
        Some(p) => p,
        None => {
            return Err(ErrorCode::MathOverflow);
        },
    };
    if !key_eq(&pool.token_y_mint, &wsol_mint) {
        if price_q64 == 0 {
            return Err(ErrorCode::ZeroPrice);
        }
        let wrapped: u128 = ONE << 64u32;
        proof {
            crate::bit_facts::lemma_constant_shifts();
        }
        price_q64 = wrapped / price_q64;
    }
    Ok(price_q64)
}

/// Sets the pair's price from its active bin, as wrapped SOL per token:
/// `MathOverflow` when the bin price overflows, `ZeroPrice` when it is zero.
pub fn get_dlmm_price_from_bin_array(wsol_mint: [u8; 32], pool_state: &mut DlmmPoolState) -> (r: Result<(), ErrorCode>)
    requires
        old(pool_state).active_id != i32::MIN,
    ensures
        match bin_price(old(pool_state).active_id, old(pool_state).bin_step) {
            None => r == Err::<(), ErrorCode>(ErrorCode::MathOverflow) && *final(pool_state) == *old(pool_state),
            Some(p) => if p == 0 {
                r == Err::<(), ErrorCode>(ErrorCode::ZeroPrice) && *final(pool_state) == *old(pool_state)
            } else {
                r == Ok::<(), ErrorCode>(()) && *final(pool_state) == (DlmmPoolState {
                    price: directional_bin_price(p, old(pool_state).token_y_mint@ == wsol_mint@),
                    ..*old(pool_state)
                })
            },
        },
{
    let active_id = pool_state.active_id;
    let mut price_q64 = calculate_bin_price(active_id, pool_state.bin_step)?;
    if price_q64 == 0 {
        return Err(ErrorCode::ZeroPrice);
    }
    if !key_eq(&pool_state.token_y_mint, &wsol_mint) {
        let wrapped: u128 = ONE << 64u32;
        proof {
            crate::bit_facts::lemma_constant_shifts();
        }
        price_q64 = wrapped / price_q64;
    }
    pool_state.price = price_q64;
    Ok(())
}

/// The volatility accumulator at `active_id`: the reference plus 10_000 per
/// bin of distance from the reference index, capped at the maximum.
pub open spec fn volatility_at(pool: DlmmPoolState, active_id: i32) -> u32 {
    let delta = if pool.index_reference >= active_id {
        pool.index_reference - active_id
    } else {
        active_id - pool.index_reference
    };
    let va = pool.volatility_reference + delta * 10_000;
    if va < pool.max_volatility_accumulator {
        va as u32
    } else {
        pool.max_volatility_accumulator
    }
}

/// The volatility accumulator at `active_id`; see `volatility_at`.
pub fn calculate_volatility_accumulator(pool_state: &DlmmPoolState, active_id: i32) -> (r: Result<u32, ErrorCode>)
    ensures
        r == Ok::<u32, ErrorCode>(volatility_at(*pool_state, active_id)),
{
    let diff = (pool_state.index_reference as i64) - (active_id as i64);
    let delta_id: u64 = if diff >= 0 {
        diff as u64
    } else {
        (-diff) as u64
    };
    let volatility_accumulator = (pool_state.volatility_reference as u64) + delta_id * 10_000;
    let capped = if volatility_accumulator < pool_state.max_volatility_accumulator as u64 {
        volatility_accumulator
    } else {
        pool_state.max_volatility_accumulator as u64
    };
    Ok(capped as u32)
}

/// The variable fee over 1e11, rounded up: `ceil(control * (va * bin_step)^2 / 1e11)`.
pub open spec fn dlmm_variable_fee(control: u32, va: u32, bin_step: u16) -> int {
    let x = va * bin_step;
    (control * (x * x) + 99_999_999_999) / 100_000_000_000
}

/// Whether the variable fee is computed without overflow.
pub open spec fn dlmm_variable_fee_defined(control: u32, va: u32, bin_step: u16) -> bool {
    let x = va * bin_step;
    control * (x * x) + 99_999_999_999 <= u128::MAX
}

fn variable_fee_of(control: u32, va: u32, bin_step: u16) -> (r: u128)
    requires
        dlmm_variable_fee_defined(control, va, bin_step),
    ensures
        r == dlmm_variable_fee(control, va, bin_step),
{
    proof {
        assert(va * bin_step <= 0xffff_ffff * 0xffff) by (nonlinear_arith)
            requires va <= 0xffff_ffff, bin_step <= 0xffff;
    }
    let x = (va as u128) * (bin_step as u128);
    proof {
        assert(x * x <= 0xffff_ffff_ffff * 0xffff_ffff_ffff) by (nonlinear_arith)
            requires x <= 0xffff_ffff_ffff, x >= 0;
        assert(control * (x * x) >= 0) by (nonlinear_arith)
            requires control >= 0, x >= 0;
    }
    let square_vfa_bin = x * x;
    let v_fee = (control as u128) * square_vfa_bin;
    (v_fee + 99_999_999_999u128) / 100_000_000_000u128
}

/// `10^k`.
pub open spec fn pow10(k: nat) -> nat
    decreases k,
{
    if k == 0 {
        1
    } else {
        10 * pow10((k - 1) as nat)
    }
}

/// The base fee over 1e9: `base_factor * bin_step * 10 * 10^power`.
pub open spec fn dlmm_base_fee(pool: DlmmPoolState) -> int {
    pool.base_factor * pool.bin_step * 10 * pow10(pool.base_fee_power_factor as nat)
}

/// Whether the pair's fee rates are computed without overflow.
pub open spec fn dlmm_fee_rate_defined(pool: DlmmPoolState) -> bool {
    &&& pow10(pool.base_fee_power_factor as nat) <= u128::MAX
    &&& dlmm_base_fee(pool) <= u128::MAX
    &&& pool.variable_fee_control > 0 ==> dlmm_variable_fee_defined(pool.variable_fee_control, pool.volatility_accumulator, pool.bin_step)
    &&& dlmm_base_fee(pool) + (if pool.variable_fee_control > 0 {
        dlmm_variable_fee(pool.variable_fee_control, pool.volatility_accumulator, pool.bin_step)
    } else {
        0
    }) <= u128::MAX
}

fn pow10_u128(k: u8) -> (r: u128)
    requires
        pow10(k as nat) <= u128::MAX,
    ensures
        r == pow10(k as nat),
{
    let mut r: u128 = 1;
    let mut i: u8 = 0;
    while i < k
        invariant
            i <= k,
            r == pow10(i as nat),
            pow10(k as nat) <= u128::MAX,
        decreases k - i,
    {
        proof {
            lemma_pow10_mono((i + 1) as nat, k as nat);
        }
        r = r * 10;
        i += 1;
    }
    r
}

/// Powers of ten grow with the exponent.
pub proof fn lemma_pow10_mono(a: nat, b: nat)
    requires
        a <= b,
    ensures
        pow10(a) <= pow10(b),
    decreases b,
{
    if a < b {
        lemma_pow10_mono(a, (b - 1) as nat);
    }
}

/// Sets the pair's base fee (cut to 64 bits) and its total fee rate: base
/// plus variable, capped at 1e8 (10%).
pub fn calculate_dlmm_total_fee_rate(pool_state: &mut DlmmPoolState) -> (r: Result<(), ErrorCode>)
    requires
        dlmm_fee_rate_defined(*old(pool_state)),
    ensures
        r is Ok,
        ({
            let s = *old(pool_state);
            let total = dlmm_base_fee(s) + if s.variable_fee_control > 0 {
                dlmm_variable_fee(s.variable_fee_control, s.volatility_accumulator, s.bin_step)
            } else {
                0
            };
            *final(pool_state) == (DlmmPoolState {
                base_fee: dlmm_base_fee(s) as u64,
                total_fee_rate: if total < 100_000_000 { total as u64 } else { 100_000_000 },
                ..s
            })
        }),
{
    let p10 = pow10_u128(pool_state.base_fee_power_factor);
    proof {
        let a = pool_state.base_factor as int;
        let b = pool_state.bin_step as int;
        assert(a * b * 10 <= 0xffff * 0xffff * 10) by (nonlinear_arith)
            requires 0 <= a <= 0xffff, 0 <= b <= 0xffff;
        assert(a * b * 10 * p10 >= 0) by (nonlinear_arith)
            requires a >= 0, b >= 0, p10 >= 0;
    }
    let base_fee = (pool_state.base_factor as u128) * (pool_state.bin_step as u128) * 10u128 * p10;
    let variable_fee = if pool_state.variable_fee_control > 0 {
        variable_fee_of(pool_state.variable_fee_control, pool_state.volatility_accumulator, pool_state.bin_step)
    } else {
        0
    };
    let total_fee = base_fee + variable_fee;
    let total_fee = if total_fee < 100_000_000u128 {
        total_fee
    } else {
        100_000_000u128
    };
    pool_state.base_fee = base_fee as u64;
    pool_state.total_fee_rate = total_fee as u64;
    Ok(())
}

/// The fee rate at `active_id`: the stored total when the variable fee is
/// off or the volatility there is unchanged, else the base fee plus the
/// variable fee at that volatility (cut to 64 bits), capped at 1e8.
pub open spec fn dynamic_fee_rate(pool: DlmmPoolState, active_id: i32) -> u64 {
    let va = volatility_at(pool, active_id);
    if pool.variable_fee_control == 0 || va == pool.volatility_accumulator {
        pool.total_fee_rate
    } else {
        let t = pool.base_fee + dlmm_variable_fee(pool.variable_fee_control, va, pool.bin_step) as u64;
        if t < 100_000_000 {
            t as u64
        } else {
            100_000_000
        }
    }
}

/// Whether the fee rate at `active_id` is computed without overflow and is
/// at most 100%.
pub open spec fn dynamic_fee_defined(pool: DlmmPoolState, active_id: i32) -> bool {
    let va = volatility_at(pool, active_id);
    &&& pool.total_fee_rate <= 1_000_000_000
    &&& pool.variable_fee_control != 0 && va != pool.volatility_accumulator ==> {
        &&& dlmm_variable_fee_defined(pool.variable_fee_control, va, pool.bin_step)
        &&& pool.base_fee + dlmm_variable_fee(pool.variable_fee_control, va, pool.bin_step) as u64 <= u64::MAX
    }
}

/// The fee rate at `active_id`; see `dynamic_fee_rate`.
pub fn calculate_dynamic_total_fee_rate(pool: &DlmmPoolState, active_id: i32) -> (r: u64)
    requires
        dynamic_fee_defined(*pool, active_id),
    ensures
        r == dynamic_fee_rate(*pool, active_id),
        r <= 1_000_000_000,
{
    if pool.variable_fee_control == 0 {
        return pool.total_fee_rate;
    }
    let volatility_accumulator = match calculate_volatility_accumulator(pool, active_id) {
        Ok(v) => v,
        Err(_) => {
            return pool.total_fee_rate;
        },
    };
    if volatility_accumulator == pool.volatility_accumulator {
        return pool.total_fee_rate;
    }
    let variable_fee = variable_fee_of(pool.variable_fee_control, volatility_accumulator, pool.bin_step);
    let total_fee = pool.base_fee + variable_fee as u64;
    if total_fee < 100_000_000u64 {
        total_fee
    } else {
        100_000_000u64
    }
}

/// The fee to add to `amount` so that it remains after the fee:
/// `ceil(amount * rate / (1e9 - rate))`, cut to 64 bits.
pub open spec fn fee_on_top(amount: u64, rate: u64) -> u64 {
    ((amount * rate + (1_000_000_000 - rate) - 1) / (1_000_000_000 - rate)) as u64
}

/// The fee to add to `amount` at the rate of `active_id`; see `fee_on_top`.
/// The rate must be below 100%.
pub fn compute_fee(pool: &DlmmPoolState, amount: u64, active_id: i32) -> (r: u64)
    requires
        dynamic_fee_defined(*pool, active_id),
        dynamic_fee_rate(*pool, active_id) < 1_000_000_000,
    ensures
        r == fee_on_top(amount, dynamic_fee_rate(*pool, active_id)),
{
    let total_fee_rate = calculate_dynamic_total_fee_rate(pool, active_id);
    let denominator = 1_000_000_000u128 - total_fee_rate as u128;
    proof {
        assert(amount * total_fee_rate <= u64::MAX * 1_000_000_000) by (nonlinear_arith)
            requires amount <= u64::MAX, total_fee_rate <= 1_000_000_000;
    }
    let fee = (amount as u128) * (total_fee_rate as u128) + denominator - 1;
    (fee / denominator) as u64
}

/// The fee within `amount_with_fees`: `ceil(amount * rate / 1e9)`.
pub open spec fn fee_within(amount: u64, rate: u64) -> u64 {
    ((amount * rate + 999_999_999) / 1_000_000_000) as u64
}

/// The fee within `amount_with_fees` at the rate of `active_id`; see
/// `fee_within`.
pub fn compute_fee_from_amount(pool: &DlmmPoolState, amount_with_fees: u64, active_id: i32) -> (r: u64)
    requires
        dynamic_fee_defined(*pool, active_id),
    ensures
        r == fee_within(amount_with_fees, dynamic_fee_rate(*pool, active_id)),
        r <= amount_with_fees,
{
    let total_fee_rate = calculate_dynamic_total_fee_rate(pool, active_id);
    proof {
        assert(amount_with_fees * total_fee_rate <= u64::MAX * 1_000_000_000) by (nonlinear_arith)
            requires amount_with_fees <= u64::MAX, total_fee_rate <= 1_000_000_000;
        assert((amount_with_fees * total_fee_rate + 999_999_999) / 1_000_000_000 <= amount_with_fees) by (nonlinear_arith)
            requires total_fee_rate <= 1_000_000_000, amount_with_fees >= 0;
    }
    let fee_amount = (amount_with_fees as u128) * (total_fee_rate as u128) + 999_999_999;
    (fee_amount / 1_000_000_000) as u64
}

/// The most a bin can pay out in the direction of the swap.
pub open spec fn max_amount_out(amount_y: u64, amount_x: u64, swap_for_y: bool) -> u64 {
    if swap_for_y {
        amount_y
    } else {
        amount_x
    }
}

/// The most a bin can pay out in the direction of the swap.
pub fn get_max_amount_out(amount_y: u64, amount_x: u64, swap_for_y: bool) -> (r: u64)
    ensures
        r == max_amount_out(amount_y, amount_x, swap_for_y),
{
    if swap_for_y {
        amount_y
    } else {
        amount_x
    }
}

/// The input that empties a bin, fees aside: Y over the price, or X times
/// the price, both rounded up in Q64.64 and cut to 64 bits (zero when
/// undefined).
pub open spec fn max_amount_in(amount_y: u64, amount_x: u64, price: u128, swap_for_y: bool) -> u64 {
    if swap_for_y {
        or_zero(spec_mul_div(amount_y as u128, 0x1_0000_0000_0000_0000, price, Rounding::Up)) as u64
    } else {
        or_zero(spec_mul_div(amount_x as u128, price, 0x1_0000_0000_0000_0000, Rounding::Up)) as u64
    }
}

/// The input that empties a bin; see `max_amount_in`.
pub fn get_max_amount_in(amount_y: u64, amount_x: u64, price: u128, swap_for_y: bool) -> (r: u64)
    ensures
        r == max_amount_in(amount_y, amount_x, price, swap_for_y),
{
    proof {
        vstd::arithmetic::power2::lemma2_to64();
    }
    if swap_for_y {
        safe_shl_div_cast(amount_y as u128, price, SCALE_OFFSET, Rounding::Up) as u64
    } else {
        safe_mul_shr_cast(amount_x as u128, price, SCALE_OFFSET, Rounding::Up) as u64
    }
}

/// The output for `amount_in` at a bin price: the price times X in, or Y
/// in over the price, rounded down in Q64.64 and cut to 64 bits (zero when
/// undefined).
pub open spec fn amount_out(amount_in: u64, price: u128, swap_for_y: bool) -> u64 {
    if swap_for_y {
        or_zero(spec_mul_div(price, amount_in as u128, 0x1_0000_0000_0000_0000, Rounding::Down)) as u64
    } else {
        or_zero(spec_mul_div(amount_in as u128, 0x1_0000_0000_0000_0000, price, Rounding::Down)) as u64
    }
}

/// The output for an input at a bin price; see `amount_out`.
pub fn get_amount_out(amount_in: u64, price: u128, swap_for_y: bool) -> (r: u64)
    ensures
        r == amount_out(amount_in, price, swap_for_y),
{
    proof {
        vstd::arithmetic::power2::lemma2_to64();
    }
    if swap_for_y {
        safe_mul_shr_cast(price, amount_in as u128, SCALE_OFFSET, Rounding::Down) as u64
    } else {
        safe_shl_div_cast(amount_in as u128, price, SCALE_OFFSET, Rounding::Down) as u64
    }
}

/// A swap of `amount_in` within one bin: all of it when it is at most the
/// bin's capacity (the fee within it taken off before pricing, the output
/// capped by the bin's liquidity), else the capacity for all the bin holds.
/// Returns (input used, output).
pub open spec fn swap_in_bin(pool: DlmmPoolState, amount_in: u64, bin: BinState, swap_for_y: bool, bin_id: i32) -> (u64, u64) {
    let max_out = max_amount_out(bin.amount_y, bin.amount_x, swap_for_y);
    if amount_in == 0 {
        (0, 0)
    } else if amount_in > bin.max_amount_in_with_fees {
        (bin.max_amount_in_with_fees, max_out)
    } else {
        let after = (amount_in - fee_within(amount_in, dynamic_fee_rate(pool, bin_id))) as u64;
        let out = amount_out(after, bin.price, swap_for_y);
        (amount_in, if out < max_out { out } else { max_out })
    }
}

/// A swap within one bin; see `swap_in_bin`.
pub fn calculate_swap_in_bin(pool: &DlmmPoolState, amount_in: u64, bin_state: &BinState, swap_for_y: bool, bin_id: i32) -> (r: Result<(u64, u64), ErrorCode>)
    requires
        dynamic_fee_defined(*pool, bin_id),
    ensures
        r == Ok::<(u64, u64), ErrorCode>(swap_in_bin(*pool, amount_in, *bin_state, swap_for_y, bin_id)),
{
    if amount_in == 0 {
        return Ok((0, 0));
    }
    let max_amount_out = get_max_amount_out(bin_state.amount_y, bin_state.amount_x, swap_for_y);
    let max_amount_in = bin_state.max_amount_in_with_fees;
    if amount_in > max_amount_in {
        Ok((max_amount_in, max_amount_out))
    } else {
        let fee = compute_fee_from_amount(pool, amount_in, bin_id);
        let amount_in_after_fee = amount_in - fee;
        let amount_out = get_amount_out(amount_in_after_fee, bin_state.price, swap_for_y);
        let capped = if amount_out < max_amount_out {
            amount_out
        } else {
            max_amount_out
        };
        Ok((amount_in, capped))
    }
}

/// `a + b`, or zero when it overflows.
pub open spec fn add_or_zero(a: u64, b: u64) -> u64 {
    if a + b > u64::MAX {
        0
    } else {
        (a + b) as u64
    }
}

/// The output of swapping `remaining` through the bins from position `k`,
/// added to `total`: each bin takes what it can (see `swap_in_bin`) until
/// the input runs out; an overflowing total resets to zero.
pub open spec fn bins_output(pool: DlmmPoolState, remaining: u64, total: u64, swap_for_y: bool, bins: Seq<(i32, BinState)>, k: nat) -> u64
    decreases bins.len() - k,
{
    if k >= bins.len() || remaining == 0 {
        total
    } else {
        let (used, out) = swap_in_bin(pool, remaining, bins[k as int].1, swap_for_y, bins[k as int].0);
        bins_output(
            pool,
            if remaining >= used { (remaining - used) as u64 } else { 0 },
            add_or_zero(total, out),
            swap_for_y,
            bins,
            k + 1,
        )
    }
}

/// Whether every bin's fee rate is defined.
pub open spec fn bins_fee_defined(pool: DlmmPoolState, bins: Seq<(i32, BinState)>) -> bool {
    forall|i: int| 0 <= i < bins.len() ==> #[trigger] dynamic_fee_defined(pool, bins[i].0)
}

/// The output of swapping `amount_in` through bins ordered in the swap's
/// direction; see `bins_output`.
pub fn calculate_exact_output_across_bins_optimized(pool: &DlmmPoolState, amount_in: u64, swap_for_y: bool, ordered_bins: &Vec<(i32, BinState)>) -> (r: Result<u64, ErrorCode>)
    requires
        bins_fee_defined(*pool, ordered_bins@),
    ensures
        r == Ok::<u64, ErrorCode>(bins_output(*pool, amount_in, 0, swap_for_y, ordered_bins@, 0)),
{
    let mut remaining_amount_in = amount_in;
    let mut total_amount_out: u64 = 0;
    let mut k: usize = 0;
    while k < ordered_bins.len() && remaining_amount_in != 0
        invariant
            k <= ordered_bins.len(),
            bins_fee_defined(*pool, ordered_bins@),
            bins_output(*pool, amount_in, 0, swap_for_y, ordered_bins@, 0) == bins_output(*pool, remaining_amount_in, total_amount_out, swap_for_y, ordered_bins@, k as nat),
        decreases ordered_bins.len() - k,
    {
        let (bin_id, bin_state) = ordered_bins[k];
        proof {
            assert(dynamic_fee_defined(*pool, ordered_bins@[k as int].0));
        }
        let (amount_in_consumed, amount_out_produced) = calculate_swap_in_bin(pool, remaining_amount_in, &bin_state, swap_for_y, bin_id)?;
        remaining_amount_in = match remaining_amount_in.checked_sub(amount_in_consumed) {
            Some(v) => v,
            None => 0,
        };
        total_amount_out = match total_amount_out.checked_add(amount_out_produced) {
            Some(v) => v,
            None => 0,
        };
        k += 1;
    }
    Ok(total_amount_out)
}

/// Quote for selling `wsol_amount_in` of wrapped SOL through the bins:
/// X to Y when X is wrapped SOL, Y to X when Y is; `InvalidTokenPair`
/// otherwise; the token's transfer fee comes off the output.
pub fn dlmm_quote_exact_input_wsol_optimized(
    pool: &DlmmPoolState,
    wsol_mint: [u8; 32],
    wsol_amount_in: u64,
    ordered_bins: &Vec<(i32, BinState)>,
    mint_fee: &MintFeeInfo,
    epoch: u64,
) -> (r: Result<u64, ErrorCode>)
    requires
        bins_fee_defined(*pool, ordered_bins@),
        ({
            let out = bins_output(*pool, wsol_amount_in, 0, pool.token_x_mint@ == wsol_mint@, ordered_bins@, 0);
            mint_fee_defined(*mint_fee, epoch, out) && mint_transfer_fee(*mint_fee, epoch, out) <= out
        }),
    ensures
        ({
            let swap_for_y = pool.token_x_mint@ == wsol_mint@;
            let out = bins_output(*pool, wsol_amount_in, 0, swap_for_y, ordered_bins@, 0);
            if pool.token_x_mint@ != wsol_mint@ && pool.token_y_mint@ != wsol_mint@ {
                r == Err::<u64, ErrorCode>(ErrorCode::InvalidTokenPair)
            } else {
                r == Ok::<u64, ErrorCode>((out - mint_transfer_fee(*mint_fee, epoch, out)) as u64)
            }
        }),
        r matches Ok(o) ==> (mint_fee.owner@ == TOKEN_PROGRAM_ID@ && ordered_bins@.len() == 1 && 0 < wsol_amount_in
            <= ordered_bins@[0].1.max_amount_in_with_fees ==> {
            let bin = ordered_bins@[0].1;
            let rate = dynamic_fee_rate(*pool, ordered_bins@[0].0);
            let after = wsol_amount_in - (wsol_amount_in * rate + 999_999_999) / 1_000_000_000;
            let q64 = 0x1_0000_0000_0000_0000int;
            &&& pool.token_x_mint@ == wsol_mint@ && bin.price * after / q64 <= u64::MAX ==> o == if bin.price * after / q64
                < bin.amount_y {
                bin.price * after / q64
            } else {
                bin.amount_y as int
            }
            &&& pool.token_x_mint@ != wsol_mint@ && bin.price > 0 && after * q64 / (bin.price as int) <= u64::MAX ==> o
                == if after * q64 / (bin.price as int) < bin.amount_x {
                after * q64 / (bin.price as int)
            } else {
                bin.amount_x as int
            }
        }),
{
    let swap_for_y = if key_eq(&pool.token_x_mint, &wsol_mint) {
        true
    } else if key_eq(&pool.token_y_mint, &wsol_mint) {
        false
    } else {
        return Err(ErrorCode::InvalidTokenPair);
    };
    let token_amount_out = calculate_exact_output_across_bins_optimized(pool, wsol_amount_in, swap_for_y, ordered_bins)?;
    let transfer_fee = get_transfer_fee(mint_fee, epoch, token_amount_out)?;
    let token_amount_out = match transfer_fee {
        0 => token_amount_out,
        _ => token_amount_out - transfer_fee,
    };
    proof {
        if ordered_bins@.len() == 1 && 0 < wsol_amount_in <= ordered_bins@[0].1.max_amount_in_with_fees {
            assert(dynamic_fee_defined(*pool, ordered_bins@[0].0));
            law_bin_swap_prices_the_input(*pool, wsol_amount_in, ordered_bins@[0].1, swap_for_y, ordered_bins@[0].0);
            reveal_with_fuel(bins_output, 2);
        }
    }
    Ok(token_amount_out)
}

/// Quote for selling `token_amount_in` of the token for wrapped SOL through
/// the bins: its transfer fee comes off first; Y to X when X is wrapped SOL,
/// X to Y when Y is; `InvalidTokenPair` otherwise.
pub fn dlmm_quote_exact_input_token_optimized(
    pool_state: &DlmmPoolState,
    wsol_mint: [u8; 32],
    token_amount_in: u64,
    ordered_bins: &Vec<(i32, BinState)>,
    mint_fee: &MintFeeInfo,
    epoch: u64,
) -> (r: Result<u64, ErrorCode>)
    requires
        bins_fee_defined(*pool_state, ordered_bins@),
        pool_state.token_x_mint@ == wsol_mint@ || pool_state.token_y_mint@ == wsol_mint@ ==> mint_fee_defined(*mint_fee, epoch, token_amount_in)
            && mint_transfer_fee(*mint_fee, epoch, token_amount_in) <= token_amount_in,
    ensures
        ({
            let net = (token_amount_in - mint_transfer_fee(*mint_fee, epoch, token_amount_in)) as u64;
            if pool_state.token_x_mint@ == wsol_mint@ {
                r == Ok::<u64, ErrorCode>(bins_output(*pool_state, net, 0, false, ordered_bins@, 0))
            } else if pool_state.token_y_mint@ == wsol_mint@ {
                r == Ok::<u64, ErrorCode>(bins_output(*pool_state, net, 0, true, ordered_bins@, 0))
            } else {
                r == Err::<u64, ErrorCode>(ErrorCode::InvalidTokenPair)
            }
        }),
{
    let swap_for_y = if key_eq(&pool_state.token_x_mint, &wsol_mint) {
        false
    } else if key_eq(&pool_state.token_y_mint, &wsol_mint) {
        true
    } else {
        return Err(ErrorCode::InvalidTokenPair);
    };
    let transfer_fee = get_transfer_fee(mint_fee, epoch, token_amount_in)?;
    let token_amount_in = match transfer_fee {
        0 => token_amount_in,
        _ => token_amount_in - transfer_fee,
    };
    calculate_exact_output_across_bins_optimized(pool_state, token_amount_in, swap_for_y, ordered_bins)
}


/// The index stored in a bin array (the low 32 bits of its `i64`).
pub open spec fn bin_array_index(d: Seq<u8>) -> i32 {
    i32_at(d, 8)
}

/// The first bin id of a bin array.
pub open spec fn bin_array_start(d: Seq<u8>) -> int {
    bin_array_index(d) * MAX_BIN_PER_ARRAY
}

/// Whether a bin array's ids fit in `i32`.
pub open spec fn bin_array_fits(d: Seq<u8>) -> bool {
    i32::MIN <= bin_array_start(d) && bin_array_start(d) + 69 <= i32::MAX
}

/// The first and last bin ids of a bin array; `None` when the account does
/// not belong to the DLMM program or holds under 16 bytes.
pub open spec fn bin_array_range(a: AccountView) -> Option<(i32, i32)> {
    if a.owner@ != DLMM_PROGRAM_ID@ || a.data@.len() < 16 {
        None
    } else {
        Some((bin_array_start(a.data@) as i32, (bin_array_start(a.data@) + 69) as i32))
    }
}

/// Whether reading a bin array's range overflows `i32`.
pub open spec fn bin_array_range_overflows(a: AccountView) -> bool {
    a.owner@ == DLMM_PROGRAM_ID@ && a.data@.len() >= 16 && !bin_array_fits(a.data@)
}

/// The first and last bin ids of a bin array; see `bin_array_range`.
pub fn get_bin_array_range(bin_array_account: &AccountView) -> (r: Result<Option<(i32, i32)>, ErrorCode>)
    requires
        !bin_array_range_overflows(*bin_array_account),
    ensures
        r == Ok::<Option<(i32, i32)>, ErrorCode>(bin_array_range(*bin_array_account)),
{
    if !key_eq(&bin_array_account.owner, &DLMM_PROGRAM_ID) {
        return Ok(None);
    }
    let data = &bin_array_account.data;
    if data.len() < 16 {
        return Ok(None);
    }
    let index = read_u32(data, 8) as i32;
    let start_bin_id = index * 70;
    let end_bin_id = start_bin_id + 69;
    Ok(Some((start_bin_id, end_bin_id)))
}

/// X held by bin `i` of a bin array.
pub open spec fn bin_amount_x(d: Seq<u8>, i: int) -> u64 {
    le_value(d, 56 + i * 144, 8) as u64
}

/// Y held by bin `i` of a bin array.
pub open spec fn bin_amount_y(d: Seq<u8>, i: int) -> u64 {
    le_value(d, 56 + i * 144 + 8, 8) as u64
}

/// Whether a bin price is past the limit in the swap's direction: below it
/// for X to Y, above it for Y to X.
pub open spec fn past_limit(price: u128, price_limit: u128, swap_for_y: bool) -> bool {
    if swap_for_y {
        price < price_limit
    } else {
        price > price_limit
    }
}

/// The scan of bins of a bin array starting at id `start`: positions
/// `first - j` (X to Y) or `first + j` (Y to X) for `j` from the given one
/// below `count`. Bins without liquidity on the output side are skipped;
/// the others are priced (as wrapped SOL per token, see
/// `directional_bin_price`) and collected with their fee-inclusive capacity
/// until a price is past the limit or 30 bins are collected, which ends the
/// scan with `true`. A bin price that overflows ends it with `MathOverflow`.
/// Gives what is collected and the result; `None` where the computation
/// fails (a read past the data, a zero price to invert, a fee rate of 100%
/// or more, a capacity over `u64`).
pub open spec fn scan_bins(
    pool: DlmmPoolState,
    d: Seq<u8>,
    start: int,
    first: int,
    count: int,
    j: int,
    swap_for_y: bool,
    price_limit: u128,
    y_is_wsol: bool,
    acc: Seq<(i32, BinState)>,
) -> Option<(Seq<(i32, BinState)>, Result<bool, ErrorCode>)>
    decreases count - j,
{
    if j >= count {
        Some((acc, Ok(false)))
    } else {
        let i = if swap_for_y {
            first - j
        } else {
            first + j
        };
        if 56 + i * 144 + 16 > d.len() {
            None
        } else {
            let ax = bin_amount_x(d, i);
            let ay = bin_amount_y(d, i);
            let liquid = if swap_for_y {
                ay > 0
            } else {
                ax > 0
            };
            if !liquid {
                scan_bins(pool, d, start, first, count, j + 1, swap_for_y, price_limit, y_is_wsol, acc)
            } else {
                let bin_id = (start + i) as i32;
                match bin_price(bin_id, pool.bin_step) {
                    None => Some((acc, Err(ErrorCode::MathOverflow))),
                    Some(p) => {
                        if !y_is_wsol && p == 0 {
                            None
                        } else {
                            let price = directional_bin_price(p, y_is_wsol);
                            if past_limit(price, price_limit, swap_for_y) || acc.len() >= 30 {
                                Some((acc, Ok(true)))
                            } else if !dynamic_fee_defined(pool, bin_id) || dynamic_fee_rate(pool, bin_id)
                                >= 1_000_000_000 {
                                None
                            } else {
                                let max_in = max_amount_in(ay, ax, price, swap_for_y);
                                let fee = fee_on_top(max_in, dynamic_fee_rate(pool, bin_id));
                                if max_in + fee > u64::MAX {
                                    None
                                } else {
                                    let bin = BinState {
                                        amount_x: ax,
                                        amount_y: ay,
                                        price,
                                        max_amount_in_with_fees: (max_in + fee) as u64,
                                    };
                                    scan_bins(
                                        pool,
                                        d,
                                        start,
                                        first,
                                        count,
                                        j + 1,
                                        swap_for_y,
                                        price_limit,
                                        y_is_wsol,
                                        acc.push((bin_id, bin)),
                                    )
                                }
                            }
                        }
                    },
                }
            }
        }
    }
}

/// Which bins of an array starting at `start` a scan visits, as (first
/// position, count): from the active bin, or the whole array when the
/// active bin lies beyond it in the swap's direction; `None` when it lies
/// behind.
pub open spec fn scan_plan(active_id: i32, start: int, swap_for_y: bool) -> Option<(int, int)> {
    let end = start + 69;
    if start <= active_id <= end {
        let s = active_id - start;
        if swap_for_y {
            Some((s, s + 1))
        } else {
            Some((s, 70 - s))
        }
    } else if swap_for_y && active_id > end {
        Some((69, 70))
    } else if !swap_for_y && active_id < start {
        Some((0, 70))
    } else {
        None
    }
}

/// The outcome of scanning one bin array after the bins in `acc`: an array
/// that does not belong to the DLMM program, or that lies behind the active
/// bin, adds nothing and gives `false`; otherwise see `scan_bins`. `None`
/// where the computation fails.
#[verifier::opaque]
pub open spec fn selective_outcome(
    pool: DlmmPoolState,
    a: AccountView,
    active_id: i32,
    swap_for_y: bool,
    price_limit: u128,
    wsol_mint: Seq<u8>,
    acc: Seq<(i32, BinState)>,
) -> Option<(Seq<(i32, BinState)>, Result<bool, ErrorCode>)> {
    let d = a.data@;
    if a.owner@ != DLMM_PROGRAM_ID@ {
        Some((acc, Ok(false)))
    } else if d.len() < 16 || !bin_array_fits(d) {
        None
    } else {
        match scan_plan(active_id, bin_array_start(d), swap_for_y) {
            None => Some((acc, Ok(false))),
            Some((first, count)) => scan_bins(
                pool,
                d,
                bin_array_start(d),
                first,
                count,
                0,
                swap_for_y,
                price_limit,
                pool.token_y_mint@ == wsol_mint,
                acc,
            ),
        }
    }
}

/// Collects the bins of one bin array that a swap from `active_id` would
/// cross, up to the price limit; returns whether the limit (or 30 bins) was
/// reached. See `selective_outcome`.
pub fn parse_bin_array_data_selective(
    pool: &DlmmPoolState,
    bin_array_account: &AccountView,
    active_id: i32,
    swap_for_y: bool,
    price_limit: u128,
    all_relevant_bins: &mut Vec<(i32, BinState)>,
    wsol_mint: [u8; 32],
) -> (r: Result<bool, ErrorCode>)
    requires
        selective_outcome(*pool, *bin_array_account, active_id, swap_for_y, price_limit, wsol_mint@, old(all_relevant_bins)@) is Some,
    ensures
        ({
            let o = selective_outcome(*pool, *bin_array_account, active_id, swap_for_y, price_limit, wsol_mint@, old(all_relevant_bins)@)->0;
            final(all_relevant_bins)@ == o.0 && r == o.1
        }),
{
    proof {
        reveal(selective_outcome);
    }
    if !key_eq(&bin_array_account.owner, &DLMM_PROGRAM_ID) {
        return Ok(false);
    }
    let data = &bin_array_account.data;
    let index = read_u32(data, 8) as i32;
    let start_bin_id = index * 70;
    let end_bin_id = start_bin_id + 69;
    let is_active_array = active_id >= start_bin_id && active_id <= end_bin_id;
    let first: usize;
    let count: usize;
    if is_active_array {
        let s = (active_id - start_bin_id) as usize;
        first = s;
        count = if swap_for_y {
            s + 1
        } else {
            70 - s
        };
    } else if swap_for_y && active_id > end_bin_id {
        first = 69;
        count = 70;
    } else if !swap_for_y && active_id < start_bin_id {
        first = 0;
        count = 70;
    } else {
        return Ok(false);
    }
    let y_is_wsol = key_eq(&pool.token_y_mint, &wsol_mint);
    let ghost d = data@;
    let ghost start = start_bin_id as int;
    let ghost initial = old(all_relevant_bins)@;
    assert(start == bin_array_start(d));
    let mut j: usize = 0;
    while j < count
        invariant
            j <= count,
            count <= 70,
            first < 70,
            swap_for_y ==> count == first + 1,
            !swap_for_y ==> first + count == 70,
            d == data@,
            start == start_bin_id,
            start == bin_array_start(d),
            initial == old(all_relevant_bins)@,
            selective_outcome(*pool, *bin_array_account, active_id, swap_for_y, price_limit, wsol_mint@, initial)
                == scan_bins(*pool, d, start, first as int, count as int, 0, swap_for_y, price_limit, y_is_wsol, initial),
            i32::MIN <= start && start + 69 <= i32::MAX,
            y_is_wsol == (pool.token_y_mint@ == wsol_mint@),
            scan_bins(*pool, d, start, first as int, count as int, j as int, swap_for_y, price_limit, y_is_wsol, all_relevant_bins@) is Some,
            scan_bins(*pool, d, start, first as int, count as int, j as int, swap_for_y, price_limit, y_is_wsol, all_relevant_bins@)
                == scan_bins(*pool, d, start, first as int, count as int, 0, swap_for_y, price_limit, y_is_wsol, initial),
        decreases count - j,
    {
        let i: usize = if swap_for_y {
            first - j
        } else {
            first + j
        };
        let bin_offset = 56 + i * 144;
        let amount_x = read_u64(data, bin_offset);
        let amount_y = read_u64(data, bin_offset + 8);
        let liquid = if swap_for_y {
            amount_y > 0
        } else {
            amount_x > 0
        };
        if liquid {
            assert(start + i != i32::MIN) by {
                vstd::arithmetic::div_mod::lemma_mod_multiples_basic(bin_array_index(d) as int, 70);
            }
            let bin_id = start_bin_id + i as i32;
            let mut price = calculate_bin_price(bin_id, pool.bin_step)?;
            if !y_is_wsol {
                let wrapped: u128 = ONE << 64u32;
                proof {
                    crate::bit_facts::lemma_constant_shifts();
                }
                price = wrapped / price;
            }
            let stop = if swap_for_y {
                price < price_limit
            } else {
                price > price_limit
            };
            if stop || all_relevant_bins.len() >= 30 {
                return Ok(true);
            }
            let max_amount_in = get_max_amount_in(amount_y, amount_x, price, swap_for_y);
            let max_fee = compute_fee(pool, max_amount_in, bin_id);
            let max_amount_in_with_fees = max_amount_in + max_fee;
            all_relevant_bins.push(
                (bin_id, BinState { amount_x, amount_y, price, max_amount_in_with_fees }),
            );
        }
        j += 1;
    }
    Ok(false)
}

/// Whether a bin array's range holds `id`.
pub open spec fn range_holds(r: Option<(i32, i32)>, id: i32) -> bool {
    match r {
        Some((lo, hi)) => lo <= id && id <= hi,
        None => false,
    }
}

/// Where the active bin's array sits among the three given (0: the one
/// before, 1: the one expected, 2: the one after): the expected array when
/// it holds the active bin, else the first of the others that does; `None`
/// when the expected array has no range or none holds it.
pub open spec fn active_array_position(before: AccountView, expected: AccountView, after: AccountView, active_id: i32) -> Option<int> {
    match bin_array_range(expected) {
        None => None,
        Some(r) => {
            if range_holds(Some(r), active_id) {
                Some(1)
            } else if range_holds(bin_array_range(before), active_id) {
                Some(0)
            } else if range_holds(bin_array_range(after), active_id) {
                Some(2)
            } else {
                None
            }
        },
    }
}

/// Whether locating the active bin's array reads a range that overflows.
pub open spec fn locate_overflows(before: AccountView, expected: AccountView, after: AccountView, active_id: i32) -> bool {
    ||| bin_array_range_overflows(expected)
    ||| {
        &&& bin_array_range(expected) is Some
        &&& !range_holds(bin_array_range(expected), active_id)
        &&& (bin_array_range_overflows(before) || (!range_holds(bin_array_range(before), active_id)
            && bin_array_range_overflows(after)))
    }
}

/// The array visited `k`-th when the scan starts at position `start`:
/// towards position 2 for X to Y, from `start` upwards for Y to X; in both
/// directions `3 - start` arrays are visited.
pub open spec fn scan_position(start: int, k: int, swap_for_y: bool) -> int {
    if swap_for_y {
        2 - k
    } else {
        start + k
    }
}

/// The outcome of scanning the arrays from the `k`-th visit on, after the
/// bins in `acc`, stopping once an array reports the limit reached; an
/// error ends it. `None` where the computation fails.
pub open spec fn scan_arrays(
    pool: DlmmPoolState,
    arrays: Seq<AccountView>,
    start: int,
    k: int,
    active_id: i32,
    swap_for_y: bool,
    price_limit: u128,
    wsol_mint: Seq<u8>,
    acc: Seq<(i32, BinState)>,
    reached: bool,
) -> Option<(Seq<(i32, BinState)>, Result<(), ErrorCode>)>
    decreases 3 - start - k,
{
    if k >= 3 - start || reached {
        Some((acc, Ok(())))
    } else {
        let a = arrays[scan_position(start, k, swap_for_y)];
        match selective_outcome(pool, a, active_id, swap_for_y, price_limit, wsol_mint, acc) {
            None => None,
            Some((next, Err(e))) => Some((next, Err(e))),
            Some((next, Ok(b))) => scan_arrays(
                pool,
                arrays,
                start,
                k + 1,
                active_id,
                swap_for_y,
                price_limit,
                wsol_mint,
                next,
                b,
            ),
        }
    }
}

/// The bins a swap from `active_id` would cross, read from the three bin
/// arrays around it: the array holding the active bin is located, then it
/// and its neighbours are scanned (see `scan_arrays`) against the sell
/// pool's price when buying, the buy pool's price otherwise. No bins when
/// the active bin's array is not found. `None` where the computation fails.
pub open spec fn bin_arrays_outcome(
    pool: DlmmPoolState,
    arrays: Seq<AccountView>,
    active_id: i32,
    swap_for_y: bool,
    buy_pool_price: u128,
    sell_pool_price: u128,
    wsol_mint: Seq<u8>,
    is_buy: bool,
) -> Option<(Seq<(i32, BinState)>, Result<(), ErrorCode>)> {
    let price_limit = if is_buy {
        sell_pool_price
    } else {
        buy_pool_price
    };
    if locate_overflows(arrays[0], arrays[1], arrays[2], active_id) {
        None
    } else {
        match active_array_position(arrays[0], arrays[1], arrays[2], active_id) {
            None => Some((Seq::empty(), Ok(()))),
            Some(start) => scan_arrays(
                pool,
                arrays,
                start,
                0,
                active_id,
                swap_for_y,
                price_limit,
                wsol_mint,
                Seq::empty(),
                false,
            ),
        }
    }
}

/// The bins a swap from `active_id` would cross, in the order it crosses
/// them, read from the bin arrays at the three given positions of
/// `accounts`; see `bin_arrays_outcome`.
pub fn parse_dlmm_bin_arrays_optimized(
    pool: &DlmmPoolState,
    accounts: &Vec<AccountView>,
    bin_array_minus_1_index: usize,
    bin_array_0_index: usize,
    bin_array_1_index: usize,
    active_id: i32,
    swap_for_y: bool,
    buy_pool_price: u128,
    sell_pool_price: u128,
    wsol_mint: [u8; 32],
    is_buy: bool,
) -> (r: Result<Vec<(i32, BinState)>, ErrorCode>)
    requires
        bin_array_minus_1_index < accounts.len(),
        bin_array_0_index < accounts.len(),
        bin_array_1_index < accounts.len(),
        bin_arrays_outcome(
            *pool,
            seq![accounts@[bin_array_minus_1_index as int], accounts@[bin_array_0_index as int], accounts@[bin_array_1_index as int]],
            active_id,
            swap_for_y,
            buy_pool_price,
            sell_pool_price,
            wsol_mint@,
            is_buy,
        ) is Some,
    ensures
        ({
            let o = bin_arrays_outcome(
                *pool,
                seq![accounts@[bin_array_minus_1_index as int], accounts@[bin_array_0_index as int], accounts@[bin_array_1_index as int]],
                active_id,
                swap_for_y,
                buy_pool_price,
                sell_pool_price,
                wsol_mint@,
                is_buy,
            )->0;
            match o.1 {
                Ok(_) => r matches Ok(v) && v@ == o.0,
                Err(e) => r == Err::<Vec<(i32, BinState)>, ErrorCode>(e),
            }
        }),
{
    let ghost arrays = seq![accounts@[bin_array_minus_1_index as int], accounts@[bin_array_0_index as int], accounts@[bin_array_1_index as int]];
    let mut all_relevant_bins: Vec<(i32, BinState)> = Vec::new();
    let price_limit = if is_buy {
        sell_pool_price
    } else {
        buy_pool_price
    };
    let all_bin_array_indices: [usize; 3] = [bin_array_minus_1_index, bin_array_0_index, bin_array_1_index];
    let mut found: Option<usize> = None;
    let range_0 = get_bin_array_range(&accounts[bin_array_0_index])?;
    if let Some(array_range) = range_0 {
        if active_id >= array_range.0 && active_id <= array_range.1 {
            found = Some(1);
        } else {
            let range_before = get_bin_array_range(&accounts[bin_array_minus_1_index])?;
            if range_holds_exec(range_before, active_id) {
                found = Some(0);
            } else {
                let range_after = get_bin_array_range(&accounts[bin_array_1_index])?;
                if range_holds_exec(range_after, active_id) {
                    found = Some(2);
                }
            }
        }
    }
    assert(match active_array_position(arrays[0], arrays[1], arrays[2], active_id) {
        Some(p) => found == Some(p as usize),
        None => found is None,
    });
    if let Some(start) = found {
        let visits = 3 - start;
        let mut reached_limit = false;
        let mut k: usize = 0;
        while k < visits && !reached_limit
            invariant
                start <= 2,
                visits == 3 - start,
                k <= visits,
                all_bin_array_indices@ == seq![bin_array_minus_1_index, bin_array_0_index, bin_array_1_index],
                bin_array_minus_1_index < accounts.len(),
                bin_array_0_index < accounts.len(),
                bin_array_1_index < accounts.len(),
                arrays == seq![accounts@[bin_array_minus_1_index as int], accounts@[bin_array_0_index as int], accounts@[bin_array_1_index as int]],
                bin_arrays_outcome(*pool, arrays, active_id, swap_for_y, buy_pool_price, sell_pool_price, wsol_mint@, is_buy)
                    == scan_arrays(*pool, arrays, start as int, 0, active_id, swap_for_y, price_limit, wsol_mint@, Seq::empty(), false),
                price_limit == (if is_buy { sell_pool_price } else { buy_pool_price }),
                scan_arrays(*pool, arrays, start as int, k as int, active_id, swap_for_y, price_limit, wsol_mint@, all_relevant_bins@, reached_limit) is Some,
                scan_arrays(*pool, arrays, start as int, k as int, active_id, swap_for_y, price_limit, wsol_mint@, all_relevant_bins@, reached_limit)
                    == scan_arrays(*pool, arrays, start as int, 0, active_id, swap_for_y, price_limit, wsol_mint@, Seq::empty(), false),
            decreases visits - k,
        {
            let position = if swap_for_y {
                2 - k
            } else {
                start + k
            };
            let array_index = all_bin_array_indices[position];
            assert(accounts@[array_index as int] == arrays[scan_position(start as int, k as int, swap_for_y)]);
            reached_limit = parse_bin_array_data_selective(
                pool,
                &accounts[array_index],
                active_id,
                swap_for_y,
                price_limit,
                &mut all_relevant_bins,
                wsol_mint,
            )?;
            k += 1;
        }
    }
    Ok(all_relevant_bins)
}

/// Whether a bin array's range holds `id`; see `range_holds`.
fn range_holds_exec(range: Option<(i32, i32)>, id: i32) -> (r: bool)
    ensures
        r == range_holds(range, id),
{
    match range {
        Some((lo, hi)) => lo <= id && id <= hi,
        None => false,
    }
}


/// Within one bin the input, its fee taken off (parts per billion, rounded
/// up), is priced at the bin's price: selling X for Y pays
/// `price * x / 2^64`, selling Y for X pays `y * 2^64 / price`, both
/// rounded down and capped by what the bin holds of the token paid out.
pub proof fn law_bin_swap_prices_the_input(pool: DlmmPoolState, amount_in: u64, bin: BinState, swap_for_y: bool, bin_id: i32)
    requires
        dynamic_fee_defined(pool, bin_id),
        0 < amount_in <= bin.max_amount_in_with_fees,
    ensures
        ({
            let rate = dynamic_fee_rate(pool, bin_id);
            let after = amount_in - (amount_in * rate + 999_999_999) / 1_000_000_000;
            let (used, out) = swap_in_bin(pool, amount_in, bin, swap_for_y, bin_id);
            let q64 = 0x1_0000_0000_0000_0000int;
            &&& used == amount_in
            &&& swap_for_y && bin.price * after / q64 <= u64::MAX ==> out == if bin.price * after / q64 < bin.amount_y {
                bin.price * after / q64
            } else {
                bin.amount_y as int
            }
            &&& !swap_for_y && bin.price > 0 && after * q64 / (bin.price as int) <= u64::MAX ==> out == if after * q64 / (bin.price as int)
                < bin.amount_x {
                after * q64 / (bin.price as int)
            } else {
                bin.amount_x as int
            }
        }),
{
    let rate = dynamic_fee_rate(pool, bin_id);
    assert(rate <= 1_000_000_000);
    let fee = (amount_in * rate + 999_999_999) / 1_000_000_000;
    assert(0 <= fee <= amount_in) by (nonlinear_arith)
        requires fee == (amount_in * rate + 999_999_999) / 1_000_000_000, rate <= 1_000_000_000, rate >= 0, amount_in >= 0;
    assert(fee_within(amount_in, rate) == fee);
    let after = (amount_in - fee) as u64;
    let q64 = 0x1_0000_0000_0000_0000int;
    if swap_for_y {
        assert(bin.price * after >= 0) by (nonlinear_arith)
            requires bin.price >= 0, after >= 0;
    } else if bin.price > 0 {
        assert(after * q64 >= 0) by (nonlinear_arith)
            requires after >= 0, q64 > 0;
    }
}

} // verus!
