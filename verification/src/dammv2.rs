use vstd::prelude::*;

use crate::bytes::{key_eq, read_key, read_u128, read_u16, read_u32, read_u64, AccountView, le_value};
use crate::cpmm::u64_at;
use crate::errors::ErrorCode;
use crate::pools::DAMMV2_PROGRAM_ID;
use crate::q64_math::{or_zero, safe_mul_div_cast, spec_mul_div};
use crate::u256_muldiv::{lemma_words_digits, u256_modulus, U256Muldiv};
use crate::u64x64_math::{fee_in_period, get_fee_in_period, ONE};
use crate::wide::{div_rounded, mul_div_u256, u256_checked_add, u256_checked_div, u256_checked_mul,
    u256_checked_shl, u256_overflowing_shr, Rounding};

verus! {

/// A DAMM v2 pool: where its accounts sit, its mints, price, liquidity and
/// fee parameters.
#[derive(Debug, Clone, Copy)]
pub struct Dammv2PoolState {
    pub program_id_index: usize,
    pub event_authority_index: usize,
    pub pool_authority_index: usize,
    pub pool_index: usize,
    pub token_a_vault_index: usize,
    pub token_b_vault_index: usize,
    pub token_a_mint: [u8; 32],
    pub token_b_mint: [u8; 32],
    pub sqrt_price: u128,
    pub cliff_fee_numerator: u64,
    pub fee_scheduler_mode: u8,
    pub number_of_period: u16,
    pub period_frequency: u64,
    pub reduction_factor: u64,
    pub liquidity: u128,
    pub collect_fee_mode: u8,
    pub dynamic_fee_initialized: u8,
    pub variable_fee_control: u32,
    pub bin_step: u16,
    pub volatility_accumulator: u128,
    pub activation_type: u8,
    pub activation_point: u64,
    /// Fee numerator over 1e9.
    pub total_fee_rate: u64,
    pub price: u128,
}

/// The pool fields as stored in a DAMM v2 pool account, the mints aside.
pub open spec fn dammv2_read(s: Dammv2PoolState, d: Seq<u8>, a: [u8; 32], b: [u8; 32]) -> Dammv2PoolState {
    Dammv2PoolState {
        token_a_mint: a,
        token_b_mint: b,
        sqrt_price: le_value(d, 456, 16) as u128,
        cliff_fee_numerator: u64_at(d, 8),
        fee_scheduler_mode: d[16],
        number_of_period: le_value(d, 22, 2) as u16,
        period_frequency: u64_at(d, 24),
        reduction_factor: u64_at(d, 32),
        dynamic_fee_initialized: d[56],
        variable_fee_control: le_value(d, 68, 4) as u32,
        bin_step: le_value(d, 72, 2) as u16,
        volatility_accumulator: le_value(d, 120, 16) as u128,
        activation_type: d[480],
        activation_point: u64_at(d, 472),
        liquidity: le_value(d, 360, 16) as u128,
        collect_fee_mode: d[484],
        ..s
    }
}

/// Reads a DAMM v2 pool into `pool_state` after checking that it belongs to
/// the DAMM v2 program and pairs wrapped SOL with `token_mint`:
/// `InvalidPoolOwner`, `InvalidTokenPair`, `TokenMismatch` or
/// `ZeroLiquidity` otherwise; on error the state is unchanged.
pub fn parse_dammv2_pool_data(
    pool_index: &usize,
    wsol_mint: [u8; 32],
    token_mint: [u8; 32],
    accounts: &Vec<AccountView>,
    pool_state: &mut Dammv2PoolState,
) -> (r: Result<(), ErrorCode>)
    requires
        *pool_index < accounts.len(),
        accounts@[*pool_index as int].owner@ == DAMMV2_PROGRAM_ID@ ==> accounts@[*pool_index as int].data@.len() >= 485,
    ensures
        ({
            let d = accounts@[*pool_index as int].data@;
            let a = d.subrange(168, 200);
            let b = d.subrange(200, 232);
            if accounts@[*pool_index as int].owner@ != DAMMV2_PROGRAM_ID@ {
                r == Err::<(), ErrorCode>(ErrorCode::InvalidPoolOwner) && *final(pool_state) == *old(pool_state)
            } else if a != wsol_mint@ && b != wsol_mint@ {
                r == Err::<(), ErrorCode>(ErrorCode::InvalidTokenPair) && *final(pool_state) == *old(pool_state)
            } else if (if a == wsol_mint@ { b } else { a }) != token_mint@ {
                r == Err::<(), ErrorCode>(ErrorCode::TokenMismatch) && *final(pool_state) == *old(pool_state)
            } else if le_value(d, 360, 16) == 0 {
                r == Err::<(), ErrorCode>(ErrorCode::ZeroLiquidity) && *final(pool_state) == *old(pool_state)
            } else {
                r == Ok::<(), ErrorCode>(()) && final(pool_state).token_a_mint@ == a
                    && final(pool_state).token_b_mint@ == b && *final(pool_state) == dammv2_read(
                    *old(pool_state),
                    d,
                    final(pool_state).token_a_mint,
                    final(pool_state).token_b_mint,
                )
            }
        }),
{
    let pool_account = &accounts[*pool_index];
    if !key_eq(&pool_account.owner, &DAMMV2_PROGRAM_ID) {
        return Err(ErrorCode::InvalidPoolOwner);
    }
    let pool_data = &pool_account.data;
    let cliff_fee_numerator = read_u64(pool_data, 8);
    let fee_scheduler_mode = pool_data[16];
    let number_of_period = read_u16(pool_data, 22);
    let period_frequency = read_u64(pool_data, 24);
    let reduction_factor = read_u64(pool_data, 32);
    let dynamic_fee_initialized = pool_data[56];
    let variable_fee_control = read_u32(pool_data, 68);
    let bin_step = read_u16(pool_data, 72);
    let volatility_accumulator = read_u128(pool_data, 120);
    let pool_offset: usize = 168;
    let token_a_mint = read_key(pool_data, pool_offset);
    let token_b_mint = read_key(pool_data, pool_offset + 32);
    let other_mint = if key_eq(&token_a_mint, &wsol_mint) {
        token_b_mint
    } else if key_eq(&token_b_mint, &wsol_mint) {
        token_a_mint
    } else {
        return Err(ErrorCode::InvalidTokenPair);
    };
    if !key_eq(&other_mint, &token_mint) {
        return Err(ErrorCode::TokenMismatch);
    }
    let liquidity = read_u128(pool_data, 360);
    if liquidity == 0 {
        return Err(ErrorCode::ZeroLiquidity);
    }
    let sqrt_price = read_u128(pool_data, 456);
    let activation_point = read_u64(pool_data, 472);
    let activation_type = pool_data[480];
    let collect_fee_mode = pool_data[484];
    pool_state.token_a_mint = token_a_mint;
    pool_state.token_b_mint = token_b_mint;
    pool_state.sqrt_price = sqrt_price;
    pool_state.cliff_fee_numerator = cliff_fee_numerator;
    pool_state.fee_scheduler_mode = fee_scheduler_mode;
    pool_state.number_of_period = number_of_period;
    pool_state.period_frequency = period_frequency;
    pool_state.reduction_factor = reduction_factor;
    pool_state.dynamic_fee_initialized = dynamic_fee_initialized;
    pool_state.variable_fee_control = variable_fee_control;
    pool_state.bin_step = bin_step;
    pool_state.volatility_accumulator = volatility_accumulator;
    pool_state.activation_type = activation_type;
    pool_state.activation_point = activation_point;
    pool_state.liquidity = liquidity;
    pool_state.collect_fee_mode = collect_fee_mode;
    Ok(())
}

/// Sets the pool's Q64.64 price `sqrt_price^2 >> 64` when token B is wrapped
/// SOL; for the other orientation the reciprocal is taken of `2^128`
/// wrapped to 128 bits, which is zero, so the price is set to zero.
/// `ZeroPrice` when the squared price rounds to zero.
pub fn calculate_dammv2_price(pool: &mut Dammv2PoolState, wsol_mint: [u8; 32]) -> (r: Result<(), ErrorCode>)
    requires
        old(pool).sqrt_price * old(pool).sqrt_price <= u128::MAX,
    ensures
        ({
            let p = old(pool).sqrt_price * old(pool).sqrt_price / 0x1_0000_0000_0000_0000int;
            if p == 0 {
                r == Err::<(), ErrorCode>(ErrorCode::ZeroPrice) && *final(pool) == *old(pool)
            } else {
                r == Ok::<(), ErrorCode>(()) && *final(pool) == (Dammv2PoolState {
                    price: if old(pool).token_b_mint@ != wsol_mint@ {
                        0
                    } else {
                        p as u128
                    },
                    ..*old(pool)
                })
            }
        }),
{
    let sqrt_price_q64 = pool.sqrt_price;
    let squared = sqrt_price_q64 * sqrt_price_q64;
    proof {
        assert(squared >> 64u32 == squared / 0x1_0000_0000_0000_0000u128) by (bit_vector);
    }
    let mut price_q64 = squared >> 64u32;
    if price_q64 == 0 {
        return Err(ErrorCode::ZeroPrice);
    }
    if !key_eq(&pool.token_b_mint, &wsol_mint) {
        let wrapped: u128 = ONE << 64u32;
        proof {
            assert((0x1_0000_0000_0000_0000u128 << 64u32) == 0u128) by (bit_vector);
        }
        price_q64 = wrapped / price_q64;
    }
    pool.price = price_q64;
    Ok(())
}

/// The number of periods that have passed: all of them before activation,
/// else the elapsed points over the period frequency, capped.
pub open spec fn passed_periods(
    number_of_period: u16,
    period_frequency: u64,
    current_point: u64,
    activation_point: u64,
) -> u64 {
    if current_point < activation_point {
        number_of_period as u64
    } else {
        let p = ((current_point - activation_point) / (period_frequency as int)) as u64;
        if p < number_of_period {
            p
        } else {
            number_of_period as u64
        }
    }
}

/// The base fee numerator at `current_point`: the cliff fee without a
/// schedule; a linear decrease of `reduction_factor` per period (floored at
/// zero) in mode 0; an exponential decay (see `fee_in_period`) in mode 1;
/// `InvalidFeeSchedulerMode` otherwise.
pub open spec fn base_fee_numerator(
    cliff_fee_numerator: u64,
    fee_scheduler_mode: u8,
    number_of_period: u16,
    period_frequency: u64,
    reduction_factor: u64,
    current_point: u64,
    activation_point: u64,
) -> Result<u64, ErrorCode> {
    if period_frequency == 0 {
        Ok(cliff_fee_numerator)
    } else {
        let period = passed_periods(number_of_period, period_frequency, current_point, activation_point);
        if fee_scheduler_mode == 0 {
            if cliff_fee_numerator >= period * reduction_factor {
                Ok((cliff_fee_numerator - period * reduction_factor) as u64)
            } else {
                Ok(0)
            }
        } else if fee_scheduler_mode == 1 {
            fee_in_period(cliff_fee_numerator, reduction_factor, period as u16)
        } else {
            Err(ErrorCode::InvalidFeeSchedulerMode)
        }
    }
}

/// Whether the linear schedule's reduction fits in a `u64`.
pub open spec fn base_fee_defined(
    fee_scheduler_mode: u8,
    number_of_period: u16,
    period_frequency: u64,
    reduction_factor: u64,
    current_point: u64,
    activation_point: u64,
) -> bool {
    period_frequency == 0 || fee_scheduler_mode != 0 || passed_periods(
        number_of_period,
        period_frequency,
        current_point,
        activation_point,
    ) * reduction_factor <= u64::MAX
}

/// The base fee numerator; see `base_fee_numerator`.
pub fn get_current_base_fee_numerator(
    cliff_fee_numerator: u64,
    fee_scheduler_mode: u8,
    number_of_period: u16,
    period_frequency: u64,
    reduction_factor: u64,
    current_point: u64,
    activation_point: u64,
) -> (r: Result<u64, ErrorCode>)
    requires
        base_fee_defined(fee_scheduler_mode, number_of_period, period_frequency, reduction_factor, current_point, activation_point),
    ensures
        r == base_fee_numerator(cliff_fee_numerator, fee_scheduler_mode, number_of_period, period_frequency, reduction_factor, current_point, activation_point),
{
    if period_frequency == 0 {
        return Ok(cliff_fee_numerator);
    }
    let period = if current_point < activation_point {
        number_of_period as u64
    } else {
        let elapsed = current_point - activation_point;
        let period = elapsed / period_frequency;
        if period < number_of_period as u64 {
            period
        } else {
            number_of_period as u64
        }
    };
    match fee_scheduler_mode {
        0 => {
            let reduction = period * reduction_factor;
            let fee_numerator = match cliff_fee_numerator.checked_sub(reduction) {
                Some(v) => v,
                None => 0,
            };
            Ok(fee_numerator)
        },
        1 => {
            let period_u16: u16 = if period <= 0xffff {
                period as u16
            } else {
                0xffff
            };
            get_fee_in_period(cliff_fee_numerator, reduction_factor, period_u16)
        },
        _ => Err(ErrorCode::InvalidFeeSchedulerMode),
    }
}

/// The variable fee: `ceil((volatility * bin_step)^2 * control / 1e11)`.
pub open spec fn variable_fee(volatility_accumulator: u128, bin_step: u16, variable_fee_control: u32) -> int {
    let x = volatility_accumulator * bin_step;
    (x * x * variable_fee_control + 99_999_999_999) / 100_000_000_000
}

/// Whether the variable fee is computed without overflow.
pub open spec fn variable_fee_defined(volatility_accumulator: u128, bin_step: u16, variable_fee_control: u32) -> bool {
    let x = volatility_accumulator * bin_step;
    x <= u128::MAX && x * x <= u128::MAX && x * x * variable_fee_control + 99_999_999_999 <= u128::MAX
}

/// The variable fee; see `variable_fee`.
pub fn get_variable_fee(volatility_accumulator: u128, bin_step: u16, variable_fee_control: u32) -> (r: Result<u128, ErrorCode>)
    requires
        variable_fee_defined(volatility_accumulator, bin_step, variable_fee_control),
    ensures
        r == Ok::<u128, ErrorCode>(variable_fee(volatility_accumulator, bin_step, variable_fee_control) as u128),
{
    let vfa_bin = volatility_accumulator * (bin_step as u128);
    let square_vfa_bin = vfa_bin * vfa_bin;
    let v_fee = square_vfa_bin * (variable_fee_control as u128);
    let scaled_v_fee = (v_fee + 99_999_999_999u128) / 100_000_000_000u128;
    Ok(scaled_v_fee)
}

/// The pool's total fee numerator before the cap: base plus variable (the
/// variable fee cut to 64 bits), or the base fee's error.
pub open spec fn total_fee_numerator(pool: Dammv2PoolState, current_point: u64) -> Result<int, ErrorCode> {
    match base_fee_numerator(
        pool.cliff_fee_numerator,
        pool.fee_scheduler_mode,
        pool.number_of_period,
        pool.period_frequency,
        pool.reduction_factor,
        current_point,
        pool.activation_point,
    ) {
        Err(e) => Err(e),
        Ok(base) => Ok(base + if pool.dynamic_fee_initialized != 0 {
            variable_fee(pool.volatility_accumulator, pool.bin_step, pool.variable_fee_control) as u64 as int
        } else {
            0
        }),
    }
}

/// Whether the pool's fee numerator is computed without overflow.
pub open spec fn dammv2_fee_defined(pool: Dammv2PoolState, current_point: u64) -> bool {
    &&& base_fee_defined(pool.fee_scheduler_mode, pool.number_of_period, pool.period_frequency, pool.reduction_factor, current_point, pool.activation_point)
    &&& pool.dynamic_fee_initialized != 0 ==> variable_fee_defined(pool.volatility_accumulator, pool.bin_step, pool.variable_fee_control)
    &&& total_fee_numerator(pool, current_point) matches Ok(t) ==> t <= u64::MAX
}

/// The total fee numerator, base plus variable; see `total_fee_numerator`.
pub fn get_total_trading_fee_numerator(pool: &Dammv2PoolState, current_point: u64) -> (r: Result<u64, ErrorCode>)
    requires
        dammv2_fee_defined(*pool, current_point),
    ensures
        match total_fee_numerator(*pool, current_point) {
            Ok(t) => r == Ok::<u64, ErrorCode>(t as u64),
            Err(e) => r == Err::<u64, ErrorCode>(e),
        },
{
    let base_fee_numerator = get_current_base_fee_numerator(
        pool.cliff_fee_numerator,
        pool.fee_scheduler_mode,
        pool.number_of_period,
        pool.period_frequency,
        pool.reduction_factor,
        current_point,
        pool.activation_point,
    )?;
    let variable_fee = if pool.dynamic_fee_initialized != 0 {
        get_variable_fee(pool.volatility_accumulator, pool.bin_step, pool.variable_fee_control)? as u64
    } else {
        0
    };
    Ok(base_fee_numerator + variable_fee)
}

/// The cap on the fee numerator: 50%.
pub const MAX_FEE_NUMERATOR: u64 = 500_000_000;

/// Sets the pool's total fee numerator, capped at 50%.
pub fn calculate_dammv2_total_fee_rate(pool: &mut Dammv2PoolState, current_point: u64) -> (r: Result<(), ErrorCode>)
    requires
        dammv2_fee_defined(*old(pool), current_point),
    ensures
        match total_fee_numerator(*old(pool), current_point) {
            Ok(t) => r == Ok::<(), ErrorCode>(()) && *final(pool) == (Dammv2PoolState {
                total_fee_rate: if t < 500_000_000 { t as u64 } else { 500_000_000 },
                ..*old(pool)
            }),
            Err(e) => r == Err::<(), ErrorCode>(e) && *final(pool) == *old(pool),
        },
{
    let total_fee_numerator = get_total_trading_fee_numerator(pool, current_point)?;
    let final_fee_numerator = if total_fee_numerator < MAX_FEE_NUMERATOR {
        total_fee_numerator
    } else {
        MAX_FEE_NUMERATOR
    };
    pool.total_fee_rate = final_fee_numerator;
    Ok(())
}

/// Whether fees are taken from the input for a swap direction:
/// `InvalidCollectFeeMode` for an unknown mode.
pub open spec fn fees_on_input(collect_fee_mode: u8, a_to_b: bool) -> Result<bool, ErrorCode> {
    if collect_fee_mode == 0 {
        Ok(false)
    } else if collect_fee_mode == 1 {
        Ok(!a_to_b)
    } else {
        Err(ErrorCode::InvalidCollectFeeMode)
    }
}

/// Where the fee of a swap is taken.
#[derive(Debug, Clone, Copy)]
pub struct FeeMode {
    pub fees_on_input: bool,
}

/// Where the fee of a swap is taken; see `fees_on_input`.
pub fn get_fee_mode(collect_fee_mode: u8, a_to_b: bool) -> (r: Result<FeeMode, ErrorCode>)
    ensures
        match fees_on_input(collect_fee_mode, a_to_b) {
            Ok(b) => r matches Ok(m) && m.fees_on_input == b,
            Err(e) => r == Err::<FeeMode, ErrorCode>(e),
        },
{
    let fees_on_input = match (collect_fee_mode, a_to_b) {
        (0, true) => false,
        (0, false) => false,
        (1, true) => false,
        (1, false) => true,
        _ => {
            return Err(ErrorCode::InvalidCollectFeeMode);
        },
    };
    Ok(FeeMode { fees_on_input })
}

/// The fee on `amount` at the capped fee numerator over 1e9, rounded up and
/// cut to 64 bits.
pub open spec fn dammv2_fee(pool: Dammv2PoolState, amount: u64, current_point: u64) -> Result<u64, ErrorCode> {
    match total_fee_numerator(pool, current_point) {
        Err(e) => Err(e),
        Ok(t) => {
            let n = if t < 500_000_000 { t } else { 500_000_000 };
            Ok(or_zero(spec_mul_div(amount as u128, n as u128, 1_000_000_000, Rounding::Up)) as u64)
        },
    }
}

/// The fee on `amount`; see `dammv2_fee`.
pub fn calculate_fee_on_amount_detailed(pool: &Dammv2PoolState, amount: u64, current_point: u64) -> (r: Result<u64, ErrorCode>)
    requires
        dammv2_fee_defined(*pool, current_point),
    ensures
        r == dammv2_fee(*pool, amount, current_point),
{
    let total_fee_numerator = get_total_trading_fee_numerator(pool, current_point)?;
    let max_fee_numerator: u64 = 500_000_000;
    let final_fee_numerator = if total_fee_numerator < max_fee_numerator {
        total_fee_numerator
    } else {
        max_fee_numerator
    };
    let total_fee = safe_mul_div_cast(amount as u128, final_fee_numerator as u128, 1_000_000_000u128, Rounding::Up) as u64;
    Ok(total_fee)
}

/// The square-root price after adding `amount` of token A:
/// `ceil(liquidity * sqrt_price / (liquidity + amount * sqrt_price))`, or
/// `MathOverflow` for a zero denominator.
pub open spec fn next_sqrt_price_from_amount_a(sqrt_price: u128, liquidity: u128, amount: u64) -> Result<u128, ErrorCode> {
    let den = liquidity + amount * sqrt_price;
    if amount == 0 {
        Ok(sqrt_price)
    } else if den == 0 {
        Err(ErrorCode::MathOverflow)
    } else {
        Ok(((liquidity * sqrt_price + den - 1) / den) as u128)
    }
}

/// The square-root price after adding token A; see
/// `next_sqrt_price_from_amount_a`. It never exceeds `sqrt_price`.
pub fn get_next_sqrt_price_from_amount_a(sqrt_price: u128, liquidity: u128, amount: u64) -> (r: Result<u128, ErrorCode>)
    ensures
        r == next_sqrt_price_from_amount_a(sqrt_price, liquidity, amount),
        r matches Ok(p) ==> p <= sqrt_price,
{
    if amount == 0 {
        return Ok(sqrt_price);
    }
    let sp = U256Muldiv::new(0, sqrt_price);
    let liq = U256Muldiv::new(0, liquidity);
    let amt = U256Muldiv::new(0, amount as u128);
    proof {
        assert(amount * sqrt_price < 0x1_0000_0000_0000_0000_0000_0000_0000_0000_0000_0000_0000_0000) by (nonlinear_arith)
            requires amount <= u64::MAX, sqrt_price <= u128::MAX;
    }
    let product = match u256_checked_mul(&amt, &sp) {
        Some(p) => p,
        None => {
            return Err(ErrorCode::MathOverflow);
        },
    };
    proof {
        assert(liq@ + product@ < u256_modulus());
    }
    let denominator = match u256_checked_add(&liq, &product) {
        Some(d) => d,
        None => {
            return Err(ErrorCode::MathOverflow);
        },
    };
    let result = match mul_div_u256(liq, sp, denominator, Rounding::Up) {
        Some(v) => v,
        None => {
            proof {
                if denominator@ != 0 {
                    lemma_ceil_le_price(liquidity as int, sqrt_price as int, (amount * sqrt_price) as int);
                }
            }
            return Err(ErrorCode::MathOverflow);
        },
    };
    proof {
        lemma_ceil_le_price(liquidity as int, sqrt_price as int, (amount * sqrt_price) as int);
    }
    match result.try_into_u128() {
        Ok(v) => Ok(v),
        Err(_) => Err(ErrorCode::MathOverflow),
    }
}

/// `ceil(l * s / (l + p)) <= s` for a positive denominator.
pub proof fn lemma_ceil_le_price(l: int, s: int, p: int)
    requires
        l >= 0,
        s >= 0,
        p >= 0,
        l + p > 0,
    ensures
        (l * s + (l + p) - 1) / (l + p) <= s,
{
    let d = l + p;
    assert(l * s + d - 1 < (s + 1) * d) by (nonlinear_arith)
        requires d == l + p, l >= 0, s >= 0, p >= 0, d > 0;
    vstd::arithmetic::div_mod::lemma_div_is_ordered(l * s + d - 1, (s + 1) * d - 1, d);
    assert((s + 1) * d - 1 == s * d + (d - 1)) by (nonlinear_arith);
    vstd::arithmetic::div_mod::lemma_fundamental_div_mod_converse((s + 1) * d - 1, d, s, d - 1);
}

/// The square-root price after adding `amount` of token B:
/// `sqrt_price + amount * 2^128 / liquidity`.
pub open spec fn next_sqrt_price_from_amount_b(sqrt_price: u128, liquidity: u128, amount: u64) -> int {
    sqrt_price + amount * 0x1_0000_0000_0000_0000_0000_0000_0000_0000int / (liquidity as int)
}

/// The square-root price after adding token B; see
/// `next_sqrt_price_from_amount_b`. The liquidity must be positive and the
/// new price must fit in a `u128`.
pub fn get_next_sqrt_price_from_amount_b(sqrt_price: u128, liquidity: u128, amount: u64) -> (r: Result<u128, ErrorCode>)
    requires
        liquidity > 0,
        next_sqrt_price_from_amount_b(sqrt_price, liquidity, amount) <= u128::MAX,
    ensures
        r == Ok::<u128, ErrorCode>(next_sqrt_price_from_amount_b(sqrt_price, liquidity, amount) as u128),
{
    let amt = U256Muldiv::new(0, amount as u128);
    let liq = U256Muldiv::new(0, liquidity);
    let sp = U256Muldiv::new(0, sqrt_price);
    proof {
        vstd::arithmetic::power2::lemma2_to64();
        vstd::arithmetic::power2::lemma_pow2_adds(64, 64);
        assert(vstd::arithmetic::power2::pow2(128) == 0x1_0000_0000_0000_0000_0000_0000_0000_0000);
        assert(amount * 0x1_0000_0000_0000_0000_0000_0000_0000_0000int < u256_modulus()) by (nonlinear_arith)
            requires amount <= u64::MAX;
    }
    let shifted = match u256_checked_shl(&amt, 128) {
        Some(v) => v,
        None => {
            return Err(ErrorCode::MathOverflow);
        },
    };
    let quotient = match u256_checked_div(&shifted, &liq) {
        Some(v) => v,
        None => {
            return Err(ErrorCode::MathOverflow);
        },
    };
    proof {
        vstd::arithmetic::div_mod::lemma_div_is_ordered_by_denominator(shifted@ as int, 1, liquidity as int);
    }
    let result = match u256_checked_add(&sp, &quotient) {
        Some(v) => v,
        None => {
            return Err(ErrorCode::MathOverflow);
        },
    };
    match result.try_into_u128() {
        Ok(v) => Ok(v),
        Err(_) => Err(ErrorCode::MathOverflow),
    }
}

/// The token A amount between two square-root prices:
/// `liquidity * (upper - lower) / (lower * upper)`, rounded down;
/// `MathOverflow` when it exceeds a `u64`.
pub open spec fn delta_amount_a(lower: u128, upper: u128, liquidity: u128) -> Result<u64, ErrorCode> {
    let v = liquidity * (upper - lower) / (lower * upper);
    if v > u64::MAX {
        Err(ErrorCode::MathOverflow)
    } else {
        Ok(v as u64)
    }
}

/// The token A amount between two square-root prices; see `delta_amount_a`.
pub fn get_delta_amount_a(lower_sqrt_price: u128, upper_sqrt_price: u128, liquidity: u128) -> (r: Result<u64, ErrorCode>)
    requires
        0 < lower_sqrt_price <= upper_sqrt_price,
    ensures
        r == delta_amount_a(lower_sqrt_price, upper_sqrt_price, liquidity),
{
    let n1 = U256Muldiv::new(0, liquidity);
    let n2 = U256Muldiv::new(0, upper_sqrt_price - lower_sqrt_price);
    let lo = U256Muldiv::new(0, lower_sqrt_price);
    let up = U256Muldiv::new(0, upper_sqrt_price);
    proof {
        assert(lower_sqrt_price * upper_sqrt_price < u256_modulus()) by (nonlinear_arith)
            requires lower_sqrt_price <= u128::MAX, upper_sqrt_price <= u128::MAX;
        assert(lower_sqrt_price * upper_sqrt_price > 0) by (nonlinear_arith)
            requires lower_sqrt_price > 0, upper_sqrt_price > 0;
    }
    let denominator = match u256_checked_mul(&lo, &up) {
        Some(v) => v,
        None => {
            return Err(ErrorCode::MathOverflow);
        },
    };
    let result = match mul_div_u256(n1, n2, denominator, Rounding::Down) {
        Some(v) => v,
        None => {
            proof {
                let prod = liquidity * (upper_sqrt_price - lower_sqrt_price);
                assert(prod < u256_modulus()) by (nonlinear_arith)
                    requires prod == liquidity * (upper_sqrt_price - lower_sqrt_price), liquidity <= u128::MAX, upper_sqrt_price - lower_sqrt_price <= u128::MAX, upper_sqrt_price >= lower_sqrt_price;
                vstd::arithmetic::div_mod::lemma_div_is_ordered_by_denominator(prod, 1, denominator@ as int);
            }
            return Err(ErrorCode::MathOverflow);
        },
    };
    let max = U256Muldiv::new(0, 0xffff_ffff_ffff_ffffu128);
    if result.gt(max) {
        return Err(ErrorCode::MathOverflow);
    }
    match result.try_into_u128() {
        Ok(v) => Ok(v as u64),
        Err(_) => Err(ErrorCode::MathOverflow),
    }
}

/// The token B amount between two square-root prices:
/// `liquidity * (upper - lower) >> 128`; `MathOverflow` when it exceeds a
/// `u64`.
pub open spec fn delta_amount_b(lower: u128, upper: u128, liquidity: u128) -> Result<u64, ErrorCode> {
    let v = liquidity * (upper - lower) / 0x1_0000_0000_0000_0000_0000_0000_0000_0000int;
    if v > u64::MAX {
        Err(ErrorCode::MathOverflow)
    } else {
        Ok(v as u64)
    }
}

/// The token B amount between two square-root prices; see `delta_amount_b`.
pub fn get_delta_amount_b(lower_sqrt_price: u128, upper_sqrt_price: u128, liquidity: u128) -> (r: Result<u64, ErrorCode>)
    requires
        lower_sqrt_price <= upper_sqrt_price,
    ensures
        r == delta_amount_b(lower_sqrt_price, upper_sqrt_price, liquidity),
{
    let liq = U256Muldiv::new(0, liquidity);
    let delta = U256Muldiv::new(0, upper_sqrt_price - lower_sqrt_price);
    proof {
        assert(liquidity * (upper_sqrt_price - lower_sqrt_price) < u256_modulus()) by (nonlinear_arith)
            requires liquidity <= u128::MAX, upper_sqrt_price - lower_sqrt_price <= u128::MAX, upper_sqrt_price >= lower_sqrt_price;
        vstd::arithmetic::power2::lemma2_to64();
        vstd::arithmetic::power2::lemma_pow2_adds(64, 64);
        assert(vstd::arithmetic::power2::pow2(128) == 0x1_0000_0000_0000_0000_0000_0000_0000_0000);
    }
    let prod = match u256_checked_mul(&liq, &delta) {
        Some(v) => v,
        None => {
            return Err(ErrorCode::MathOverflow);
        },
    };
    let (result, _) = u256_overflowing_shr(&prod, 128);
    let max = U256Muldiv::new(0, 0xffff_ffff_ffff_ffffu128);
    if result.gt(max) {
        return Err(ErrorCode::MathOverflow);
    }
    match result.try_into_u128() {
        Ok(v) => Ok(v as u64),
        Err(_) => Err(ErrorCode::MathOverflow),
    }
}

/// The token B out for `amount_in` of token A: the price falls to
/// `next_sqrt_price_from_amount_a` and the output is the B between them.
pub open spec fn swap_result_a_to_b(sqrt_price: u128, liquidity: u128, amount_in: u64) -> Result<u64, ErrorCode> {
    match next_sqrt_price_from_amount_a(sqrt_price, liquidity, amount_in) {
        Err(e) => Err(e),
        Ok(next) => delta_amount_b(next, sqrt_price, liquidity),
    }
}

/// The token A out for `amount_in` of token B: the price rises to
/// `next_sqrt_price_from_amount_b` and the output is the A between them.
pub open spec fn swap_result_b_to_a(sqrt_price: u128, liquidity: u128, amount_in: u64) -> Result<u64, ErrorCode> {
    delta_amount_a(sqrt_price, next_sqrt_price_from_amount_b(sqrt_price, liquidity, amount_in) as u128, liquidity)
}

/// Whether a B-to-A swap is free of panics: positive price and liquidity,
/// and a new price that fits in a `u128`.
pub open spec fn b_to_a_defined(sqrt_price: u128, liquidity: u128, amount_in: u64) -> bool {
    sqrt_price > 0 && liquidity > 0 && next_sqrt_price_from_amount_b(sqrt_price, liquidity, amount_in) <= u128::MAX
}

/// The token B out for token A in; see `swap_result_a_to_b`.
pub fn get_swap_result_from_a_to_b(sqrt_price: u128, liquidity: u128, amount_in: u64) -> (r: Result<u64, ErrorCode>)
    ensures
        r == swap_result_a_to_b(sqrt_price, liquidity, amount_in),
{
    let next_sqrt_price = get_next_sqrt_price_from_amount_a(sqrt_price, liquidity, amount_in)?;
    get_delta_amount_b(next_sqrt_price, sqrt_price, liquidity)
}

/// The token A out for token B in; see `swap_result_b_to_a`.
pub fn get_swap_result_from_b_to_a(sqrt_price: u128, liquidity: u128, amount_in: u64) -> (r: Result<u64, ErrorCode>)
    requires
        b_to_a_defined(sqrt_price, liquidity, amount_in),
    ensures
        r == swap_result_b_to_a(sqrt_price, liquidity, amount_in),
{
    let next_sqrt_price = get_next_sqrt_price_from_amount_b(sqrt_price, liquidity, amount_in)?;
    proof {
        assert(amount_in * 0x1_0000_0000_0000_0000_0000_0000_0000_0000int / (liquidity as int) >= 0) by (nonlinear_arith)
            requires amount_in >= 0, liquidity > 0;
    }
    get_delta_amount_a(sqrt_price, next_sqrt_price, liquidity)
}

/// `a - b`, or zero when `b` is larger.
pub open spec fn sat_sub(a: u64, b: u64) -> u64 {
    if a >= b {
        (a - b) as u64
    } else {
        0
    }
}

/// A DAMM v2 quote for `amount_in` in the direction `a_to_b`: the fee comes
/// off the input or the output per the pool's fee mode (floored at zero),
/// and the curve output in between. Zero for zero input or liquidity.
pub open spec fn dammv2_quote(pool: Dammv2PoolState, a_to_b: bool, amount_in: u64, current_point: u64) -> Result<u64, ErrorCode> {
    if amount_in == 0 || pool.liquidity == 0 {
        Ok(0)
    } else {
        match fees_on_input(pool.collect_fee_mode, a_to_b) {
            Err(e) => Err(e),
            Ok(on_input) => {
                let fee_in = dammv2_fee(pool, amount_in, current_point);
                if on_input && fee_in is Err {
                    fee_in
                } else {
                    let actual_in = if on_input { sat_sub(amount_in, fee_in->Ok_0) } else { amount_in };
                    let out = if a_to_b {
                        swap_result_a_to_b(pool.sqrt_price, pool.liquidity, actual_in)
                    } else {
                        swap_result_b_to_a(pool.sqrt_price, pool.liquidity, actual_in)
                    };
                    match out {
                        Err(e) => Err(e),
                        Ok(o) => if on_input {
                            Ok(o)
                        } else {
                            match dammv2_fee(pool, o, current_point) {
                                Err(e) => Err(e),
                                Ok(f) => Ok(sat_sub(o, f)),
                            }
                        },
                    }
                }
            },
        }
    }
}

/// Whether a DAMM v2 quote is free of panics: the fee numerator is
/// computed without overflow, and a B-to-A swap is defined for any input up
/// to `amount_in`.
pub open spec fn dammv2_quote_defined(pool: Dammv2PoolState, a_to_b: bool, amount_in: u64, current_point: u64) -> bool {
    &&& dammv2_fee_defined(pool, current_point)
    &&& !a_to_b && pool.liquidity != 0 ==> forall|x: u64| x <= amount_in ==> #[trigger] b_to_a_defined(pool.sqrt_price, pool.liquidity, x)
}

fn dammv2_swap(pool: &Dammv2PoolState, a_to_b: bool, amount_in: u64, current_point: u64) -> (r: Result<u64, ErrorCode>)
    requires
        dammv2_quote_defined(*pool, a_to_b, amount_in, current_point),
    ensures
        r == dammv2_quote(*pool, a_to_b, amount_in, current_point),
{
    if amount_in == 0 {
        return Ok(0);
    }
    if pool.liquidity == 0 {
        return Ok(0);
    }
    let fee_mode = get_fee_mode(pool.collect_fee_mode, a_to_b)?;
    let actual_amount_in = if fee_mode.fees_on_input {
        let total_fee = calculate_fee_on_amount_detailed(pool, amount_in, current_point)?;
        match amount_in.checked_sub(total_fee) {
            Some(v) => v,
            None => 0,
        }
    } else {
        amount_in
    };
    let output_amount = if a_to_b {
        get_swap_result_from_a_to_b(pool.sqrt_price, pool.liquidity, actual_amount_in)?
    } else {
        proof {
            assert(b_to_a_defined(pool.sqrt_price, pool.liquidity, actual_amount_in));
        }
        get_swap_result_from_b_to_a(pool.sqrt_price, pool.liquidity, actual_amount_in)?
    };
    let final_output = if !fee_mode.fees_on_input {
        let total_fee = calculate_fee_on_amount_detailed(pool, output_amount, current_point)?;
        match output_amount.checked_sub(total_fee) {
            Some(v) => v,
            None => 0,
        }
    } else {
        output_amount
    };
    Ok(final_output)
}

/// Quote for selling `wsol_amount_in` of wrapped SOL: A to B when token A is
/// wrapped SOL, B to A when token B is; `InvalidTokenPair` otherwise; see
/// `dammv2_quote`.
pub fn dammv2_quote_exact_input_wsol(pool: &Dammv2PoolState, wsol_mint: [u8; 32], wsol_amount_in: u64, current_point: u64) -> (r: Result<u64, ErrorCode>)
    requires
        dammv2_quote_defined(*pool, pool.token_a_mint@ == wsol_mint@, wsol_amount_in, current_point),
    ensures
        r == (if wsol_amount_in == 0 || pool.liquidity == 0 {
            Ok(0)
        } else if pool.token_a_mint@ == wsol_mint@ {
            dammv2_quote(*pool, true, wsol_amount_in, current_point)
        } else if pool.token_b_mint@ == wsol_mint@ {
            dammv2_quote(*pool, false, wsol_amount_in, current_point)
        } else {
            Err(ErrorCode::InvalidTokenPair)
        }),
{
    if wsol_amount_in == 0 || pool.liquidity == 0 {
        return Ok(0);
    }
    let a_to_b = if key_eq(&pool.token_a_mint, &wsol_mint) {
        true
    } else if key_eq(&pool.token_b_mint, &wsol_mint) {
        false
    } else {
        return Err(ErrorCode::InvalidTokenPair);
    };
    dammv2_swap(pool, a_to_b, wsol_amount_in, current_point)
}

/// Quote for selling `token_amount_in` of the token for wrapped SOL: B to A
/// when token A is wrapped SOL, A to B when token B is; `InvalidTokenPair`
/// otherwise; see `dammv2_quote`.
pub fn dammv2_quote_exact_input_token(pool: &Dammv2PoolState, wsol_mint: [u8; 32], token_amount_in: u64, current_point: u64) -> (r: Result<u64, ErrorCode>)
    requires
        dammv2_quote_defined(*pool, pool.token_a_mint@ != wsol_mint@, token_amount_in, current_point),
    ensures
        r == (if token_amount_in == 0 || pool.liquidity == 0 {
            Ok(0)
        } else if pool.token_a_mint@ == wsol_mint@ {
            dammv2_quote(*pool, false, token_amount_in, current_point)
        } else if pool.token_b_mint@ == wsol_mint@ {
            dammv2_quote(*pool, true, token_amount_in, current_point)
        } else {
            Err(ErrorCode::InvalidTokenPair)
        }),
{
    if token_amount_in == 0 || pool.liquidity == 0 {
        return Ok(0);
    }
    let a_to_b = if key_eq(&pool.token_a_mint, &wsol_mint) {
        false
    } else if key_eq(&pool.token_b_mint, &wsol_mint) {
        true
    } else {
        return Err(ErrorCode::InvalidTokenPair);
    };
    dammv2_swap(pool, a_to_b, token_amount_in, current_point)
}

} // verus!
