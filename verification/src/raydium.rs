use vstd::prelude::*;

use crate::bytes::{key_eq, read_key, read_u64, AccountView};
use crate::cpmm::u64_at;
use crate::errors::ErrorCode;
use crate::pools::{BASE_BPS, RAYDIUM_PROGRAM_ID, WSOL_MINT};
use crate::u64x64_math::{ceil_div_u128, ONE};

verus! {

/// A Raydium AMM v4 pool: where its accounts sit, its mints, reserves and fees.
#[derive(Debug, Clone, Copy)]
pub struct RaydiumPoolState {
    pub program_id_index: usize,
    pub event_authority_index: usize,
    pub pool_index: usize,
    pub base_vault_index: usize,
    pub quote_vault_index: usize,
    pub base_mint: [u8; 32],
    pub quote_mint: [u8; 32],
    pub base_reserve: u64,
    pub quote_reserve: u64,
    /// Trade fee rate in parts per million.
    pub trade_fee_rate: u64,
    pub swap_fee_numerator: u64,
    pub swap_fee_denominator: u64,
    pub base_need_take_pnl: u64,
    pub quote_need_take_pnl: u64,
    pub price: u128,
    pub has_wsol_pool: bool,
}

/// The accounts a Raydium parse reads are there and hold enough bytes.
pub open spec fn raydium_parse_readable(
    pool_index: usize,
    accounts: Seq<AccountView>,
    state: RaydiumPoolState,
) -> bool {
    &&& pool_index < accounts.len()
    &&& accounts[pool_index as int].owner@ == RAYDIUM_PROGRAM_ID@ ==> {
        &&& accounts[pool_index as int].data@.len() >= 464
        &&& state.base_vault_index < accounts.len()
        &&& state.quote_vault_index < accounts.len()
        &&& accounts[state.base_vault_index as int].data@.len() >= 72
        &&& accounts[state.quote_vault_index as int].data@.len() >= 72
    }
}

/// The state after the mints are read: `has_wsol_pool` and the mints set.
pub open spec fn raydium_with_mints(
    state: RaydiumPoolState,
    data: Seq<u8>,
    base_mint: [u8; 32],
    quote_mint: [u8; 32],
) -> RaydiumPoolState {
    RaydiumPoolState {
        has_wsol_pool: data.subrange(400, 432) == WSOL_MINT@ || data.subrange(432, 464)
            == WSOL_MINT@,
        base_mint,
        quote_mint,
        ..state
    }
}

/// Reads a Raydium pool and its vault balances into `pool_state`, after
/// checking that the pool belongs to the Raydium program.
pub fn parse_raydium_pool_data(
    pool_index: &usize,
    accounts: &Vec<AccountView>,
    pool_state: &mut RaydiumPoolState,
) -> (r: Result<(), ErrorCode>)
    requires
        raydium_parse_readable(*pool_index, accounts@, *old(pool_state)),
    ensures
        ({
            let data = accounts@[*pool_index as int].data@;
            let s = *old(pool_state);
            let base = u64_at(accounts@[s.base_vault_index as int].data@, 64);
            let quote = u64_at(accounts@[s.quote_vault_index as int].data@, 64);
            let m = raydium_with_mints(s, data, final(pool_state).base_mint, final(pool_state).quote_mint);
            if accounts@[*pool_index as int].owner@ != RAYDIUM_PROGRAM_ID@ {
                r == Err::<(), ErrorCode>(ErrorCode::InvalidPoolOwner) && *final(pool_state) == s
            } else {
                &&& final(pool_state).base_mint@ == data.subrange(400, 432)
                &&& final(pool_state).quote_mint@ == data.subrange(432, 464)
                &&& if base == 0 || quote == 0 {
                    r == Err::<(), ErrorCode>(ErrorCode::ZeroLiquidity) && *final(pool_state) == m
                } else {
                    r == Ok::<(), ErrorCode>(()) && *final(pool_state) == RaydiumPoolState {
                        base_reserve: base,
                        quote_reserve: quote,
                        swap_fee_numerator: u64_at(data, 176),
                        swap_fee_denominator: u64_at(data, 184),
                        base_need_take_pnl: u64_at(data, 192),
                        quote_need_take_pnl: u64_at(data, 200),
                        ..m
                    }
                }
            }
        }),
{
    let pool_account = &accounts[*pool_index];
    if !key_eq(&pool_account.owner, &RAYDIUM_PROGRAM_ID) {
        return Err(ErrorCode::InvalidPoolOwner);
    }
    let pool_data = &pool_account.data;
    let base_mint = read_key(pool_data, 400);
    let quote_mint = read_key(pool_data, 432);
    pool_state.has_wsol_pool = key_eq(&base_mint, &WSOL_MINT) || key_eq(&quote_mint, &WSOL_MINT);
    pool_state.base_mint = base_mint;
    pool_state.quote_mint = quote_mint;
    let base_reserve = read_u64(&accounts[pool_state.base_vault_index].data, 64);
    let quote_reserve = read_u64(&accounts[pool_state.quote_vault_index].data, 64);
    if base_reserve == 0 || quote_reserve == 0 {
        return Err(ErrorCode::ZeroLiquidity);
    }
    let swap_fee_numerator = read_u64(pool_data, 176);
    let swap_fee_denominator = read_u64(pool_data, 184);
    let base_need_take_pnl = read_u64(pool_data, 192);
    let quote_need_take_pnl = read_u64(pool_data, 200);
    pool_state.base_reserve = base_reserve;
    pool_state.quote_reserve = quote_reserve;
    pool_state.swap_fee_numerator = swap_fee_numerator;
    pool_state.swap_fee_denominator = swap_fee_denominator;
    pool_state.base_need_take_pnl = base_need_take_pnl;
    pool_state.quote_need_take_pnl = quote_need_take_pnl;
    Ok(())
}

/// The reserve that prices are quoted in and the one priced: wrapped SOL
/// over the token when the pool holds wrapped SOL, else quote over base.
pub open spec fn raydium_price_sides(pool: RaydiumPoolState) -> (u64, u64) {
    if pool.has_wsol_pool {
        if pool.base_mint@ == WSOL_MINT@ {
            (pool.base_reserve, pool.quote_reserve)
        } else {
            (pool.quote_reserve, pool.base_reserve)
        }
    } else {
        (pool.quote_reserve, pool.base_reserve)
    }
}

/// Sets the Q64.64 price (see `raydium_price_sides`) and the trade fee rate
/// in parts per million.
pub fn calculate_raydium_price(pool_state: &mut RaydiumPoolState) -> (r: Result<(), ErrorCode>)
    requires
        raydium_price_sides(*old(pool_state)).1 > 0,
        old(pool_state).swap_fee_denominator > 0,
        old(pool_state).swap_fee_numerator * 1_000_000 <= u64::MAX,
    ensures
        r is Ok,
        *final(pool_state) == (RaydiumPoolState {
            price: (raydium_price_sides(*old(pool_state)).0 * 0x1_0000_0000_0000_0000int
                / (raydium_price_sides(*old(pool_state)).1 as int)) as u128,
            trade_fee_rate: (old(pool_state).swap_fee_numerator * 1_000_000
                / (old(pool_state).swap_fee_denominator as int)) as u64,
            ..*old(pool_state)
        }),
{
    let (num, den) = if pool_state.has_wsol_pool {
        if key_eq(&pool_state.base_mint, &WSOL_MINT) {
            (pool_state.base_reserve, pool_state.quote_reserve)
        } else {
            (pool_state.quote_reserve, pool_state.base_reserve)
        }
    } else {
        (pool_state.quote_reserve, pool_state.base_reserve)
    };
    proof {
        assert(num * ONE <= u128::MAX) by (nonlinear_arith)
            requires num <= u64::MAX, ONE == 0x1_0000_0000_0000_0000u128;
    }
    let price = (num as u128) * ONE / (den as u128);
    let trade_fee_rate = (pool_state.swap_fee_numerator * BASE_BPS) / pool_state.swap_fee_denominator;
    pool_state.price = price;
    pool_state.trade_fee_rate = trade_fee_rate;
    Ok(())
}

/// The swap fee on `amount`: `ceil(amount * numerator / denominator)`, cut
/// to 64 bits.
pub open spec fn raydium_swap_fee(pool: RaydiumPoolState, amount: u64) -> u64 {
    ((amount * pool.swap_fee_numerator + pool.swap_fee_denominator - 1)
        / (pool.swap_fee_denominator as int)) as u64
}

/// The (input, output) reserves net of the pending PnL for selling into the
/// side `sell_wsol` names.
pub open spec fn raydium_adjusted_reserves(pool: RaydiumPoolState, sell_wsol: bool) -> (int, int) {
    let base_is_wsol = pool.base_mint@ == WSOL_MINT@;
    let base = pool.base_reserve - pool.base_need_take_pnl;
    let quote = pool.quote_reserve - pool.quote_need_take_pnl;
    if base_is_wsol == sell_wsol {
        (base, quote)
    } else {
        (quote, base)
    }
}

/// Whether a Raydium quote stays clear of underflow: the fee at most the
/// input and the pending PnL at most each reserve.
pub open spec fn raydium_quote_defined(pool: RaydiumPoolState, amount: u64) -> bool {
    &&& pool.swap_fee_denominator > 0
    &&& raydium_swap_fee(pool, amount) <= amount
    &&& pool.base_need_take_pnl <= pool.base_reserve
    &&& pool.quote_need_take_pnl <= pool.quote_reserve
}

/// The constant-product output of a Raydium swap: zero for zero input (and,
/// when selling wrapped SOL, for an input eaten by the fee), `ZeroLiquidity`
/// for an empty side.
pub open spec fn raydium_quote(pool: RaydiumPoolState, amount: u64, sell_wsol: bool) -> Result<
    u64,
    ErrorCode,
> {
    let after = amount - raydium_swap_fee(pool, amount);
    let (rin, rout) = raydium_adjusted_reserves(pool, sell_wsol);
    if amount == 0 || (sell_wsol && after == 0) {
        Ok(0)
    } else if rin == 0 || rout == 0 {
        Err(ErrorCode::ZeroLiquidity)
    } else {
        Ok((after * rout / (rin + after)) as u64)
    }
}

fn raydium_swap(pool_state: &RaydiumPoolState, amount_in: u64, sell_wsol: bool) -> (r: Result<
    u64,
    ErrorCode,
>)
    requires
        raydium_quote_defined(*pool_state, amount_in),
    ensures
        r == raydium_quote(*pool_state, amount_in, sell_wsol),
{
    if amount_in == 0 {
        return Ok(0);
    }
    proof {
        assert(amount_in * pool_state.swap_fee_numerator <= u64::MAX * u64::MAX) by (nonlinear_arith)
            requires amount_in <= u64::MAX, pool_state.swap_fee_numerator <= u64::MAX;
    }
    let swap_fee = ceil_div_u128(
        amount_in as u128 * pool_state.swap_fee_numerator as u128,
        pool_state.swap_fee_denominator as u128,
    ) as u64;
    let amount_in_after_fee = amount_in - swap_fee;
    if sell_wsol && amount_in_after_fee == 0 {
        return Ok(0);
    }
    let base_is_wsol = key_eq(&pool_state.base_mint, &WSOL_MINT);
    let (adjusted_input_reserve, adjusted_output_reserve) = if base_is_wsol == sell_wsol {
        (
            pool_state.base_reserve - pool_state.base_need_take_pnl,
            pool_state.quote_reserve - pool_state.quote_need_take_pnl,
        )
    } else {
        (
            pool_state.quote_reserve - pool_state.quote_need_take_pnl,
            pool_state.base_reserve - pool_state.base_need_take_pnl,
        )
    };
    if adjusted_input_reserve == 0 || adjusted_output_reserve == 0 {
        return Err(ErrorCode::ZeroLiquidity);
    }
    let denominator = adjusted_input_reserve as u128 + amount_in_after_fee as u128;
    proof {
        assert(amount_in_after_fee * adjusted_output_reserve <= u64::MAX * u64::MAX) by (nonlinear_arith)
            requires amount_in_after_fee <= u64::MAX, adjusted_output_reserve <= u64::MAX;
    }
    let amount_out = (amount_in_after_fee as u128 * adjusted_output_reserve as u128) / denominator;
    Ok(amount_out as u64)
}

/// Quote for selling `wsol_amount_in` of wrapped SOL; see `raydium_quote`.
pub fn raydium_quote_exact_input_wsol(pool_state: &RaydiumPoolState, wsol_amount_in: u64) -> (r:
    Result<u64, ErrorCode>)
    requires
        raydium_quote_defined(*pool_state, wsol_amount_in),
    ensures
        r == raydium_quote(*pool_state, wsol_amount_in, true),
{
    raydium_swap(pool_state, wsol_amount_in, true)
}

/// Quote for selling `token_amount_in` of the token; see `raydium_quote`.
pub fn raydium_quote_exact_input_token(pool_state: &RaydiumPoolState, token_amount_in: u64) -> (r:
    Result<u64, ErrorCode>)
    requires
        raydium_quote_defined(*pool_state, token_amount_in),
    ensures
        r == raydium_quote(*pool_state, token_amount_in, false),
{
    raydium_swap(pool_state, token_amount_in, false)
}


/// Floor division leaves a remainder below the divisor.
proof fn lemma_raydium_floor_bounds(n: int, d: int)
    requires
        n >= 0,
        d > 0,
    ensures
        d * (n / d) <= n,
        n < d * (n / d + 1),
{
    vstd::arithmetic::div_mod::lemma_fundamental_div_mod(n, d);
    assert(d * (n / d + 1) == d * (n / d) + d) by (nonlinear_arith);
}

/// A Raydium quote sells into the reserve of the token sold (wrapped SOL's
/// when `sell_wsol`), net of the pending PnL, and pays out the largest amount
/// of the other reserve that keeps the product of the two from falling,
/// with the swap fee (rounded up) taken off the input.
pub proof fn law_raydium_quote_keeps_product(pool: RaydiumPoolState, amount: u64, sell_wsol: bool)
    requires
        raydium_quote_defined(pool, amount),
        pool.swap_fee_numerator <= pool.swap_fee_denominator,
    ensures
        raydium_quote(pool, amount, sell_wsol) matches Ok(o) ==> {
            let b = pool.base_reserve - pool.base_need_take_pnl;
            let q = pool.quote_reserve - pool.quote_need_take_pnl;
            let wsol_is_base = pool.base_mint@ == WSOL_MINT@;
            let rin = if wsol_is_base == sell_wsol { b } else { q };
            let rout = if wsol_is_base == sell_wsol { q } else { b };
            let a = amount - (amount * pool.swap_fee_numerator + pool.swap_fee_denominator - 1) / (pool.swap_fee_denominator as int);
            rin > 0 && rout > 0 ==> (rin + a) * (rout - o) >= rin * rout && (rin + a) * (rout - o - 1) < rin * rout
        },
{
    let (rin, rout) = raydium_adjusted_reserves(pool, sell_wsol);
    let fee = (amount * pool.swap_fee_numerator + pool.swap_fee_denominator - 1) / (pool.swap_fee_denominator as int);
    assert(0 <= fee <= amount) by (nonlinear_arith)
        requires
            fee == (amount * pool.swap_fee_numerator + pool.swap_fee_denominator - 1) / (pool.swap_fee_denominator as int),
            pool.swap_fee_numerator <= pool.swap_fee_denominator,
            pool.swap_fee_denominator > 0,
            amount >= 0,
            pool.swap_fee_numerator >= 0;
    assert(raydium_swap_fee(pool, amount) == fee);
    let a = amount - raydium_swap_fee(pool, amount);
    if rin > 0 && rout > 0 {
        if amount == 0 || (sell_wsol && a == 0) {
            assert(amount * pool.swap_fee_numerator + pool.swap_fee_denominator - 1 >= 0) by (nonlinear_arith)
                requires amount >= 0, pool.swap_fee_numerator >= 0, pool.swap_fee_denominator > 0;
            assert((rin + a) * (rout - 0 - 1) < rin * rout) by (nonlinear_arith)
                requires a == 0, rin > 0, rout > 0;
        } else {
            let n = a * rout;
            let d = rin + a;
            assert(n >= 0) by (nonlinear_arith)
                requires n == a * rout, a >= 0, rout >= 0;
            lemma_raydium_floor_bounds(n, d);
            let o = n / d;
            assert(0 <= o < rout) by (nonlinear_arith)
                requires d * o <= n, n == a * rout, d == rin + a, rin > 0, rout > 0, a >= 0, o == n / d, n >= 0, d > 0;
            assert(d * (rout - o) >= rin * rout) by (nonlinear_arith)
                requires d * o <= n, n == a * rout, d == rin + a;
            assert(d * (rout - o - 1) < rin * rout) by (nonlinear_arith)
                requires n < d * (o + 1), n == a * rout, d == rin + a;
        }
    }
}

} // verus!
