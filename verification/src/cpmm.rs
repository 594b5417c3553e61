use vstd::prelude::*;

use crate::bytes::{key_eq, le_value, read_key, read_u64, AccountView};
use crate::errors::ErrorCode;
use crate::pools::CPMM_PROGRAM_ID;
use crate::token_fee::{get_transfer_fee, mint_fee_defined, mint_transfer_fee, MintFeeInfo, TOKEN_PROGRAM_ID};

verus! {

/// A constant-product pool: where its accounts sit, its reserves, mints and fees.
#[derive(Debug, Clone, Copy)]
pub struct CpmmPoolState {
    pub program_id_index: usize,
    pub pool_index: usize,
    pub authority_index: usize,
    pub observation_state_index: usize,
    pub config_index: usize,
    pub token0_vault_index: usize,
    pub token1_vault_index: usize,
    pub token0_reserve: u64,
    pub token1_reserve: u64,
    pub token0_mint: [u8; 32],
    pub token1_mint: [u8; 32],
    /// Trade fee rate in parts per million.
    pub trade_fee_rate: u64,
    /// Creator fee rate in parts per million.
    pub creator_fee_rate: u64,
    pub price: u128,
    pub enable_creator_fee: bool,
    /// 0: both tokens, 1: only token 0, 2: only token 1.
    pub creator_fee_on: u8,
    pub protocol_fees_token_0: u64,
    pub protocol_fees_token_1: u64,
    pub fund_fees_token_0: u64,
    pub fund_fees_token_1: u64,
    pub creator_fees_token_0: u64,
    pub creator_fees_token_1: u64,
    /// Trade plus creator fee rate, in parts per million.
    pub total_fee_rate: u64,
}

/// The `u64` stored little-endian at `off`.
pub open spec fn u64_at(data: Seq<u8>, off: int) -> u64 {
    le_value(data, off, 8) as u64
}

/// The mints of a pool account's data.
pub open spec fn cpmm_mints(data: Seq<u8>) -> (Seq<u8>, Seq<u8>) {
    (data.subrange(168, 200), data.subrange(200, 232))
}

/// Whether a pool's mints pair wrapped SOL with `token_mint`.
pub open spec fn cpmm_pair_ok(data: Seq<u8>, wsol_mint: Seq<u8>, token_mint: Seq<u8>) -> bool {
    let (m0, m1) = cpmm_mints(data);
    (m0 == wsol_mint && m1 == token_mint) || (m0 != wsol_mint && m1 == wsol_mint && m0
        == token_mint)
}

/// The error that pair validation gives, if any.
pub open spec fn cpmm_pair_error(data: Seq<u8>, wsol_mint: Seq<u8>, token_mint: Seq<u8>) -> Option<
    ErrorCode,
> {
    let (m0, m1) = cpmm_mints(data);
    if m0 != wsol_mint && m1 != wsol_mint {
        Some(ErrorCode::InvalidTokenPair)
    } else if !cpmm_pair_ok(data, wsol_mint, token_mint) {
        Some(ErrorCode::TokenMismatch)
    } else {
        None
    }
}

/// The accounts a pool parse reads are there and hold enough bytes, as far
/// as the parse gets.
pub open spec fn cpmm_parse_readable(
    pool_index: usize,
    config_index: usize,
    wsol_mint: Seq<u8>,
    token_mint: Seq<u8>,
    accounts: Seq<AccountView>,
    state: CpmmPoolState,
) -> bool {
    &&& pool_index < accounts.len()
    &&& config_index < accounts.len()
    &&& accounts[pool_index as int].owner@ == CPMM_PROGRAM_ID@ ==> {
        let data = accounts[pool_index as int].data@;
        &&& data.len() >= 232
        &&& cpmm_pair_error(data, wsol_mint, token_mint) is None && data.subrange(8, 40)
            == accounts[config_index as int].key@ ==> {
            &&& state.token0_vault_index < accounts.len()
            &&& state.token1_vault_index < accounts.len()
            &&& accounts[state.token0_vault_index as int].data@.len() >= 72
            &&& accounts[state.token1_vault_index as int].data@.len() >= 72
            &&& (u64_at(accounts[state.token0_vault_index as int].data@, 64) != 0 && u64_at(
                accounts[state.token1_vault_index as int].data@,
                64,
            ) != 0) ==> {
                &&& accounts[config_index as int].data@.len() >= 116
                &&& data.len() >= 413
                &&& data[390] != 0 ==> u64_at(accounts[config_index as int].data@, 12) + u64_at(
                    accounts[config_index as int].data@,
                    108,
                ) <= u64::MAX
            }
        }
    }
}

/// A pool state with its reserves read from its vaults.
pub open spec fn cpmm_with_reserves(state: CpmmPoolState, accounts: Seq<AccountView>) -> CpmmPoolState {
    CpmmPoolState {
        token0_reserve: u64_at(accounts[state.token0_vault_index as int].data@, 64),
        token1_reserve: u64_at(accounts[state.token1_vault_index as int].data@, 64),
        ..state
    }
}

/// A pool state with everything the parse reads filled in.
pub open spec fn cpmm_parsed(
    state: CpmmPoolState,
    accounts: Seq<AccountView>,
    pool_index: usize,
    config_index: usize,
    token0_mint: [u8; 32],
    token1_mint: [u8; 32],
) -> CpmmPoolState {
    let data = accounts[pool_index as int].data@;
    let config = accounts[config_index as int].data@;
    let s = cpmm_with_reserves(state, accounts);
    let trade_fee_rate = u64_at(config, 12);
    let creator_fee_rate = u64_at(config, 108);
    let enable_creator_fee = data[390] != 0;
    CpmmPoolState {
        creator_fee_rate,
        token0_mint,
        token1_mint,
        protocol_fees_token_0: u64_at(data, 341),
        protocol_fees_token_1: u64_at(data, 349),
        fund_fees_token_0: u64_at(data, 357),
        fund_fees_token_1: u64_at(data, 365),
        creator_fee_on: data[389],
        enable_creator_fee,
        creator_fees_token_0: u64_at(data, 397),
        creator_fees_token_1: u64_at(data, 405),
        trade_fee_rate,
        total_fee_rate: if enable_creator_fee {
            (trade_fee_rate + creator_fee_rate) as u64
        } else {
            trade_fee_rate
        },
        ..s
    }
}

/// Reads a constant-product pool and its config into `pool_state`, after
/// checking that the pool belongs to the CPMM program, pairs wrapped SOL with
/// `token_mint`, and uses the given config. The reserves are read from the
/// vaults that `pool_state` names.
pub fn parse_cpmm_pool_data(
    pool_index: &usize,
    config_index: &usize,
    wsol_mint: [u8; 32],
    token_mint: [u8; 32],
    accounts: &Vec<AccountView>,
    pool_state: &mut CpmmPoolState,
) -> (r: Result<(), ErrorCode>)
    requires
        cpmm_parse_readable(*pool_index, *config_index, wsol_mint@, token_mint@, accounts@, *old(pool_state)),
    ensures
        ({
            let data = accounts@[*pool_index as int].data@;
            let owner_ok = accounts@[*pool_index as int].owner@ == CPMM_PROGRAM_ID@;
            let config_ok = data.subrange(8, 40) == accounts@[*config_index as int].key@;
            let reserved = cpmm_with_reserves(*old(pool_state), accounts@);
            if !owner_ok {
                r == Err::<(), ErrorCode>(ErrorCode::InvalidPoolOwner) && *final(pool_state) == *old(pool_state)
            } else if cpmm_pair_error(data, wsol_mint@, token_mint@) is Some {
                r == Err::<(), ErrorCode>(cpmm_pair_error(data, wsol_mint@, token_mint@)->0)
                    && *final(pool_state) == *old(pool_state)
            } else if !config_ok {
                r == Err::<(), ErrorCode>(ErrorCode::InvalidAccount) && *final(pool_state) == *old(pool_state)
            } else if reserved.token0_reserve == 0 || reserved.token1_reserve == 0 {
                r == Err::<(), ErrorCode>(ErrorCode::ZeroLiquidity) && *final(pool_state) == reserved
            } else {
                r == Ok::<(), ErrorCode>(()) && *final(pool_state) == cpmm_parsed(
                    *old(pool_state),
                    accounts@,
                    *pool_index,
                    *config_index,
                    final(pool_state).token0_mint,
                    final(pool_state).token1_mint,
                ) && final(pool_state).token0_mint@ == cpmm_mints(data).0
                    && final(pool_state).token1_mint@ == cpmm_mints(data).1
            }
        }),
{
    let pool_account = &accounts[*pool_index];
    let amm_config_account = &accounts[*config_index];
    if !key_eq(&pool_account.owner, &CPMM_PROGRAM_ID) {
        return Err(ErrorCode::InvalidPoolOwner);
    }
    let pool_data = &pool_account.data;
    let token0_mint = read_key(pool_data, 168);
    let token1_mint = read_key(pool_data, 200);
    let other_mint = if key_eq(&token0_mint, &wsol_mint) {
        token1_mint
    } else if key_eq(&token1_mint, &wsol_mint) {
        token0_mint
    } else {
        return Err(ErrorCode::InvalidTokenPair);
    };
    if !key_eq(&other_mint, &token_mint) {
        return Err(ErrorCode::TokenMismatch);
    }
    let amm_config_key = read_key(pool_data, 8);
    if !key_eq(&amm_config_key, &amm_config_account.key) {
        return Err(ErrorCode::InvalidAccount);
    }
    pool_state.token0_reserve = read_u64(&accounts[pool_state.token0_vault_index].data, 64);
    pool_state.token1_reserve = read_u64(&accounts[pool_state.token1_vault_index].data, 64);
    if pool_state.token0_reserve == 0 || pool_state.token1_reserve == 0 {
        return Err(ErrorCode::ZeroLiquidity);
    }
    let trade_fee_rate = read_u64(&amm_config_account.data, 12);
    let creator_fee_rate = read_u64(&amm_config_account.data, 108);
    pool_state.creator_fee_rate = creator_fee_rate;
    pool_state.token0_mint = token0_mint;
    pool_state.token1_mint = token1_mint;
    pool_state.protocol_fees_token_0 = read_u64(pool_data, 341);
    pool_state.protocol_fees_token_1 = read_u64(pool_data, 349);
    pool_state.fund_fees_token_0 = read_u64(pool_data, 357);
    pool_state.fund_fees_token_1 = read_u64(pool_data, 365);
    pool_state.creator_fee_on = pool_data[389];
    pool_state.enable_creator_fee = pool_data[390] != 0;
    pool_state.creator_fees_token_0 = read_u64(pool_data, 397);
    pool_state.creator_fees_token_1 = read_u64(pool_data, 405);
    pool_state.trade_fee_rate = trade_fee_rate;
    pool_state.total_fee_rate = if pool_state.enable_creator_fee {
        trade_fee_rate + creator_fee_rate
    } else {
        trade_fee_rate
    };
    Ok(())
}

/// Whether the creator fee is taken from the input when `input_mint` is
/// sold into the pool.
pub open spec fn creator_fee_on_input(pool: CpmmPoolState, input_mint: Seq<u8>) -> bool {
    pool.enable_creator_fee && match pool.creator_fee_on {
        0 => true,
        1 => input_mint == pool.token0_mint@,
        2 => input_mint != pool.token0_mint@,
        _ => false,
    }
}

/// Whether the creator fee is taken from the input when `input_mint` is
/// sold into the pool.
pub fn is_creator_fee_on_input(pool: &CpmmPoolState, input_mint: [u8; 32]) -> (r: bool)
    ensures
        r == creator_fee_on_input(*pool, input_mint@),
{
    if !pool.enable_creator_fee {
        return false;
    }
    let is_input_token0 = key_eq(&input_mint, &pool.token0_mint);
    match pool.creator_fee_on {
        0 => true,
        1 => is_input_token0,
        2 => !is_input_token0,
        _ => false,
    }
}

/// Whether the accrued fees of each side fit in a `u64`.
pub open spec fn cpmm_fee_sums_fit(pool: CpmmPoolState) -> bool {
    pool.protocol_fees_token_0 + pool.fund_fees_token_0 + pool.creator_fees_token_0 <= u64::MAX
        && pool.protocol_fees_token_1 + pool.fund_fees_token_1 + pool.creator_fees_token_1
        <= u64::MAX
}

/// A vault's reserve less the fees accrued in it, or zero when the fees
/// exceed the reserve.
pub open spec fn reserve_less_fees(reserve: u64, fees: int) -> u64 {
    if reserve >= fees {
        (reserve - fees) as u64
    } else {
        0
    }
}

/// The liquidity that trades can use on each side.
pub open spec fn cpmm_available(pool: CpmmPoolState) -> (u64, u64) {
    (
        reserve_less_fees(
            pool.token0_reserve,
            pool.protocol_fees_token_0 + pool.fund_fees_token_0 + pool.creator_fees_token_0,
        ),
        reserve_less_fees(
            pool.token1_reserve,
            pool.protocol_fees_token_1 + pool.fund_fees_token_1 + pool.creator_fees_token_1,
        ),
    )
}

/// The reserves less the protocol, fund and creator fees accrued in them.
pub fn vault_amount_without_fee(pool_state: &CpmmPoolState) -> (r: (u64, u64))
    requires
        cpmm_fee_sums_fit(*pool_state),
    ensures
        r == cpmm_available(*pool_state),
{
    let fees0 = pool_state.protocol_fees_token_0 + pool_state.fund_fees_token_0
        + pool_state.creator_fees_token_0;
    let fees1 = pool_state.protocol_fees_token_1 + pool_state.fund_fees_token_1
        + pool_state.creator_fees_token_1;
    let r0 = match pool_state.token0_reserve.checked_sub(fees0) {
        Some(v) => v,
        None => 0,
    };
    let r1 = match pool_state.token1_reserve.checked_sub(fees1) {
        Some(v) => v,
        None => 0,
    };
    (r0, r1)
}

/// The available (wrapped SOL, token) reserves: token 0 is taken as wrapped
/// SOL when its mint is `wsol_mint`, else token 1.
pub open spec fn cpmm_wsol_token_reserves(pool: CpmmPoolState, wsol_mint: Seq<u8>) -> (u64, u64) {
    let (a0, a1) = cpmm_available(pool);
    if pool.token0_mint@ == wsol_mint {
        (a0, a1)
    } else {
        (a1, a0)
    }
}

/// Sets the pool's price: wrapped SOL per token in Q64.64 over the
/// available reserves; `ZeroLiquidity` when either side is empty.
pub fn calculate_cpmm_price(wsol_mint: [u8; 32], pool_state: &mut CpmmPoolState) -> (r: Result<
    (),
    ErrorCode,
>)
    requires
        cpmm_fee_sums_fit(*old(pool_state)),
    ensures
        ({
            let (w, t) = cpmm_wsol_token_reserves(*old(pool_state), wsol_mint@);
            if w == 0 || t == 0 {
                r == Err::<(), ErrorCode>(ErrorCode::ZeroLiquidity) && *final(pool_state) == *old(
                    pool_state,
                )
            } else {
                r == Ok::<(), ErrorCode>(()) && *final(pool_state) == CpmmPoolState {
                    price: (w * 0x1_0000_0000_0000_0000 / (t as int)) as u128,
                    ..*old(pool_state)
                }
            }
        }),
{
    let (token0_reserve, token1_reserve) = vault_amount_without_fee(pool_state);
    let (wsol_reserve, token_reserve) = if key_eq(&pool_state.token0_mint, &wsol_mint) {
        (token0_reserve, token1_reserve)
    } else {
        (token1_reserve, token0_reserve)
    };
    if !(wsol_reserve > 0 && token_reserve > 0) {
        return Err(ErrorCode::ZeroLiquidity);
    }
    let shifted = (wsol_reserve as u128) << 64u32;
    proof {
        let w = wsol_reserve as u128;
        assert(w << 64u32 == w * 0x1_0000_0000_0000_0000) by (bit_vector)
            requires w < 0x1_0000_0000_0000_0000u128;
    }
    let price_q64 = shifted / (token_reserve as u128);
    pool_state.price = price_q64;
    Ok(())
}

/// A fee of `rate` parts per million on `x`, rounded up.
pub open spec fn ceil_ppm(x: int, rate: int) -> int {
    (x * rate + 999_999) / 1_000_000
}

/// The input left for the curve after the trade fee and, when taken on the
/// input, the creator fee.
pub open spec fn cpmm_input_after_fees(pool: CpmmPoolState, amount_in: u64, on_input: bool) -> int {
    amount_in - ceil_ppm(amount_in as int, pool.trade_fee_rate as int) - if on_input {
        ceil_ppm(amount_in as int, pool.creator_fee_rate as int)
    } else {
        0
    }
}

/// The constant-product output for `after_fee` into reserves `(rin, rout)`,
/// less the creator fee when it is taken on the output.
pub open spec fn cpmm_curve_output(
    pool: CpmmPoolState,
    after_fee: int,
    rin: int,
    rout: int,
    on_input: bool,
) -> int {
    let out = after_fee * rout / (rin + after_fee);
    if !on_input && pool.enable_creator_fee {
        out - ceil_ppm(out, pool.creator_fee_rate as int)
    } else {
        out
    }
}

/// Whether a swap's fee deductions stay non-negative: the fees on the input
/// do not exceed it and the creator fee on the output does not exceed it.
pub open spec fn cpmm_swap_defined(
    pool: CpmmPoolState,
    amount_in: u64,
    rin: int,
    rout: int,
    on_input: bool,
) -> bool {
    let after = cpmm_input_after_fees(pool, amount_in, on_input);
    after >= 0 && cpmm_curve_output(pool, after, rin, rout, on_input) >= 0
}

/// The swap output before any transfer fee: see `cpmm_input_after_fees` and
/// `cpmm_curve_output`.
pub open spec fn cpmm_swap_output(
    pool: CpmmPoolState,
    amount_in: u64,
    rin: int,
    rout: int,
    on_input: bool,
) -> int {
    cpmm_curve_output(pool, cpmm_input_after_fees(pool, amount_in, on_input), rin, rout, on_input)
}

/// The output of selling `amount_in` into reserves `(rin, rout)`: fees as in
/// `cpmm_swap_output`.
fn cpmm_swap(pool: &CpmmPoolState, amount_in: u64, rin: u64, rout: u64, on_input: bool) -> (r: u128)
    requires
        rin > 0,
        rout > 0,
        cpmm_swap_defined(*pool, amount_in, rin as int, rout as int, on_input),
    ensures
        r == cpmm_swap_output(*pool, amount_in, rin as int, rout as int, on_input),
        r < rout,
{
    let amt = amount_in as u128;
    proof {
        assert(amt * pool.trade_fee_rate <= 0xffff_ffff_ffff_ffff * 0xffff_ffff_ffff_ffff) by (nonlinear_arith)
            requires amt <= 0xffff_ffff_ffff_ffff, pool.trade_fee_rate <= 0xffff_ffff_ffff_ffff;
        assert(amt * pool.creator_fee_rate <= 0xffff_ffff_ffff_ffff * 0xffff_ffff_ffff_ffff) by (nonlinear_arith)
            requires amt <= 0xffff_ffff_ffff_ffff, pool.creator_fee_rate <= 0xffff_ffff_ffff_ffff;
    }
    let trade_fee = (amt * (pool.trade_fee_rate as u128) + 999999) / 1000000;
    let after_fee = if on_input {
        let creator_fee = (amt * (pool.creator_fee_rate as u128) + 999999) / 1000000;
        amt - trade_fee - creator_fee
    } else {
        amt - trade_fee
    };
    proof {
        assert(after_fee * rout <= 0xffff_ffff_ffff_ffff * 0xffff_ffff_ffff_ffff) by (nonlinear_arith)
            requires after_fee <= 0xffff_ffff_ffff_ffff, rout <= 0xffff_ffff_ffff_ffff;
        assert(after_fee * rout / (rin + after_fee) < rout) by (nonlinear_arith)
            requires rin > 0, rout > 0, after_fee >= 0;
    }
    let numerator = after_fee * (rout as u128);
    let denominator = (rin as u128) + after_fee;
    let mut out = numerator / denominator;
    if !on_input && pool.enable_creator_fee {
        proof {
            assert(out * pool.creator_fee_rate <= 0xffff_ffff_ffff_ffff * 0xffff_ffff_ffff_ffff) by (nonlinear_arith)
                requires out <= 0xffff_ffff_ffff_ffff, pool.creator_fee_rate <= 0xffff_ffff_ffff_ffff;
        }
        let creator_fee = (out * (pool.creator_fee_rate as u128) + 999999) / 1000000;
        out = out - creator_fee;
    }
    out
}

/// Whether a quote for `amount_in` of wrapped SOL into `pool` is free of
/// underflow: see `cpmm_swap_defined`, and the token's transfer fee is
/// defined and at most the output.
pub open spec fn cpmm_quote_wsol_defined(
    pool: CpmmPoolState,
    wsol_mint: Seq<u8>,
    amount_in: u64,
    mint_fee: MintFeeInfo,
    epoch: u64,
) -> bool {
    let (w, t) = cpmm_wsol_token_reserves(pool, wsol_mint);
    let on_input = creator_fee_on_input(pool, wsol_mint);
    let out = cpmm_swap_output(pool, amount_in, w as int, t as int, on_input);
    (pool.token0_mint@ == wsol_mint || pool.token1_mint@ == wsol_mint) && w > 0 && t > 0 ==> {
        &&& cpmm_swap_defined(pool, amount_in, w as int, t as int, on_input)
        &&& mint_fee_defined(mint_fee, epoch, out as u64)
        &&& mint_transfer_fee(mint_fee, epoch, out as u64) <= out
    }
}

/// Quote for selling `wsol_amount_in` of wrapped SOL for the pool's token:
/// the constant-product output after the trade and creator fees, less the
/// token's transfer fee at `epoch`. `InvalidTokenPair` when neither side is
/// wrapped SOL; `ZeroLiquidity` when a side is empty.
pub fn cpmm_quote_exact_input_wsol(
    pool: &CpmmPoolState,
    wsol_mint: [u8; 32],
    wsol_amount_in: u64,
    mint_fee: &MintFeeInfo,
    epoch: u64,
) -> (r: Result<u64, ErrorCode>)
    requires
        cpmm_fee_sums_fit(*pool),
        cpmm_quote_wsol_defined(*pool, wsol_mint@, wsol_amount_in, *mint_fee, epoch),
    ensures
        ({
            let (w, t) = cpmm_wsol_token_reserves(*pool, wsol_mint@);
            let out = cpmm_swap_output(
                *pool,
                wsol_amount_in,
                w as int,
                t as int,
                creator_fee_on_input(*pool, wsol_mint@),
            );
            if !(pool.token0_mint@ == wsol_mint@ || pool.token1_mint@ == wsol_mint@) {
                r == Err::<u64, ErrorCode>(ErrorCode::InvalidTokenPair)
            } else if w == 0 || t == 0 {
                r == Err::<u64, ErrorCode>(ErrorCode::ZeroLiquidity)
            } else {
                r == Ok::<u64, ErrorCode>((out - mint_transfer_fee(*mint_fee, epoch, out as u64)) as u64)
            }
        }),
        r matches Ok(o) ==> !pool.enable_creator_fee ==> {
            let (a0, a1) = cpmm_available(*pool);
            let win: int = if pool.token0_mint@ == wsol_mint@ { a0 as int } else { a1 as int };
            let tout: int = if pool.token0_mint@ == wsol_mint@ { a1 as int } else { a0 as int };
            let a = wsol_amount_in - (wsol_amount_in * pool.trade_fee_rate + 999_999) / 1_000_000;
            &&& (win + a) * (tout - o) >= win * tout
            &&& mint_fee.owner@ == TOKEN_PROGRAM_ID@ ==> (win + a) * (tout - o - 1) < win * tout
        },
{
    let (token0_reserve, token1_reserve) = vault_amount_without_fee(pool);
    let (wsol_reserve, token_reserve) = if key_eq(&pool.token0_mint, &wsol_mint) {
        (token0_reserve, token1_reserve)
    } else if key_eq(&pool.token1_mint, &wsol_mint) {
        (token1_reserve, token0_reserve)
    } else {
        return Err(ErrorCode::InvalidTokenPair);
    };
    if !(wsol_reserve > 0 && token_reserve > 0) {
        return Err(ErrorCode::ZeroLiquidity);
    }
    let on_input = is_creator_fee_on_input(pool, wsol_mint);
    let mut token_amount_out = cpmm_swap(pool, wsol_amount_in, wsol_reserve, token_reserve, on_input);
    let transfer_fee = get_transfer_fee(mint_fee, epoch, token_amount_out as u64)?;
    let ghost out = token_amount_out as int;
    token_amount_out = match transfer_fee {
        0 => token_amount_out,
        _ => token_amount_out - transfer_fee as u128,
    };
    proof {
        if !pool.enable_creator_fee {
            law_cpmm_swap_keeps_product(*pool, wsol_amount_in, wsol_reserve, token_reserve, false);
            let a = wsol_amount_in - (wsol_amount_in * pool.trade_fee_rate + 999_999) / 1_000_000;
            let o = token_amount_out as int;
            assert((wsol_reserve + a) * (token_reserve - o) >= (wsol_reserve + a) * (token_reserve - out)) by (nonlinear_arith)
                requires o <= out, wsol_reserve + a >= 0;
        }
    }
    Ok(token_amount_out as u64)
}

/// Whether a quote for `amount_in` of the token into `pool` is free of
/// underflow: the token's transfer fee is defined and at most the input,
/// and see `cpmm_swap_defined`.
pub open spec fn cpmm_quote_token_defined(
    pool: CpmmPoolState,
    wsol_mint: Seq<u8>,
    amount_in: u64,
    mint_fee: MintFeeInfo,
    epoch: u64,
) -> bool {
    let (w, t) = cpmm_wsol_token_reserves(pool, wsol_mint);
    let net_in = amount_in - mint_transfer_fee(mint_fee, epoch, amount_in);
    let token_mint = if pool.token0_mint@ == wsol_mint {
        pool.token1_mint@
    } else {
        pool.token0_mint@
    };
    &&& mint_fee_defined(mint_fee, epoch, amount_in)
    &&& mint_transfer_fee(mint_fee, epoch, amount_in) <= amount_in
    &&& (pool.token0_mint@ == wsol_mint || pool.token1_mint@ == wsol_mint) && w > 0 && t > 0
        ==> cpmm_swap_defined(
        pool,
        net_in as u64,
        t as int,
        w as int,
        creator_fee_on_input(pool, token_mint),
    )
}

/// Quote for selling `token_amount_in` of the pool's token for wrapped SOL:
/// the token's transfer fee at `epoch` comes off the input first, then the
/// constant-product output after the trade and creator fees.
/// `InvalidTokenPair` when neither side is wrapped SOL; `ZeroLiquidity`
/// when a side is empty.
pub fn cpmm_quote_exact_input_token(
    pool: &CpmmPoolState,
    wsol_mint: [u8; 32],
    token_amount_in: u64,
    mint_fee: &MintFeeInfo,
    epoch: u64,
) -> (r: Result<u64, ErrorCode>)
    requires
        cpmm_fee_sums_fit(*pool),
        cpmm_quote_token_defined(*pool, wsol_mint@, token_amount_in, *mint_fee, epoch),
    ensures
        ({
            let (w, t) = cpmm_wsol_token_reserves(*pool, wsol_mint@);
            let net_in = (token_amount_in - mint_transfer_fee(*mint_fee, epoch, token_amount_in)) as u64;
            let token_mint = if pool.token0_mint@ == wsol_mint@ {
                pool.token1_mint@
            } else {
                pool.token0_mint@
            };
            let out = cpmm_swap_output(
                *pool,
                net_in,
                t as int,
                w as int,
                creator_fee_on_input(*pool, token_mint),
            );
            if !(pool.token0_mint@ == wsol_mint@ || pool.token1_mint@ == wsol_mint@) {
                r == Err::<u64, ErrorCode>(ErrorCode::InvalidTokenPair)
            } else if w == 0 || t == 0 {
                r == Err::<u64, ErrorCode>(ErrorCode::ZeroLiquidity)
            } else {
                r == Ok::<u64, ErrorCode>(out as u64)
            }
        }),
        r matches Ok(o) ==> !pool.enable_creator_fee && mint_fee.owner@ == TOKEN_PROGRAM_ID@ ==> {
            let (a0, a1) = cpmm_available(*pool);
            let tin: int = if pool.token0_mint@ == wsol_mint@ { a1 as int } else { a0 as int };
            let wout: int = if pool.token0_mint@ == wsol_mint@ { a0 as int } else { a1 as int };
            let a = token_amount_in - (token_amount_in * pool.trade_fee_rate + 999_999) / 1_000_000;
            &&& (tin + a) * (wout - o) >= tin * wout
            &&& (tin + a) * (wout - o - 1) < tin * wout
        },
{
    let transfer_fee = get_transfer_fee(mint_fee, epoch, token_amount_in)?;
    let token_amount_in = match transfer_fee {
        0 => token_amount_in,
        _ => token_amount_in - transfer_fee,
    };
    let (token0_reserve, token1_reserve) = vault_amount_without_fee(pool);
    let (token_reserve, wsol_reserve) = if key_eq(&pool.token0_mint, &wsol_mint) {
        (token1_reserve, token0_reserve)
    } else if key_eq(&pool.token1_mint, &wsol_mint) {
        (token0_reserve, token1_reserve)
    } else {
        return Err(ErrorCode::InvalidTokenPair);
    };
    if !(token_reserve > 0 && wsol_reserve > 0) {
        return Err(ErrorCode::ZeroLiquidity);
    }
    let token_mint = if key_eq(&pool.token0_mint, &wsol_mint) {
        pool.token1_mint
    } else {
        pool.token0_mint
    };
    let on_input = is_creator_fee_on_input(pool, token_mint);
    let wsol_amount_out = cpmm_swap(pool, token_amount_in, token_reserve, wsol_reserve, on_input);
    proof {
        if !pool.enable_creator_fee {
            law_cpmm_swap_keeps_product(*pool, token_amount_in, token_reserve, wsol_reserve, false);
        }
    }
    Ok(wsol_amount_out as u64)
}


/// Floor division leaves a remainder below the divisor: the quotient `q` of
/// `n` over `d` satisfies `d * q <= n < d * (q + 1)`.
proof fn lemma_floor_bounds(n: int, d: int)
    requires
        n >= 0,
        d > 0,
    ensures
        d * (n / d) <= n,
        n < d * (n / d + 1),
{
    vstd::arithmetic::div_mod::lemma_fundamental_div_mod(n, d);
    assert(d * (n / d + 1) == d * (n / d) + d) by (nonlinear_arith);
}

/// The constant-product curve: selling `amount_in` into reserves
/// `(rin, rout)` pays out the largest amount that keeps the product of the
/// two reserves from falling, once the trade fee (and, when it is taken on
/// the input, the creator fee) is taken off the input, each fee in parts
/// per million rounded up.
pub proof fn law_cpmm_swap_keeps_product(pool: CpmmPoolState, amount_in: u64, rin: u64, rout: u64, on_input: bool)
    requires
        rin > 0,
        rout > 0,
        cpmm_swap_defined(pool, amount_in, rin as int, rout as int, on_input),
        on_input || !pool.enable_creator_fee,
    ensures
        ({
            let fee = (amount_in * pool.trade_fee_rate + 999_999) / 1_000_000 + if on_input {
                (amount_in * pool.creator_fee_rate + 999_999) / 1_000_000
            } else {
                0
            };
            let a = amount_in - fee;
            let out = cpmm_swap_output(pool, amount_in, rin as int, rout as int, on_input);
            &&& 0 <= out < rout
            &&& (rin + a) * (rout - out) >= rin * rout
            &&& (rin + a) * (rout - out - 1) < rin * rout
        }),
{
    let a = cpmm_input_after_fees(pool, amount_in, on_input);
    let d = rin + a;
    let n = a * rout;
    assert(n >= 0) by (nonlinear_arith)
        requires a >= 0, rout >= 0, n == a * rout;
    lemma_floor_bounds(n, d);
    let q = n / d;
    assert(q >= 0) by (nonlinear_arith)
        requires n >= 0, d > 0, q == n / d;
    assert(q < rout) by (nonlinear_arith)
        requires d * q <= n, n == a * rout, d == rin + a, rin > 0, rout > 0, a >= 0;
    assert(d * (rout - q) >= rin * rout) by (nonlinear_arith)
        requires d * q <= n, n == a * rout, d == rin + a;
    assert(d * (rout - q - 1) < rin * rout) by (nonlinear_arith)
        requires n < d * (q + 1), n == a * rout, d == rin + a;
}


/// With the creator fee taken on the output, the swap pays the largest
/// amount that keeps the product of the reserves from falling (for the
/// input net of the trade fee) less the creator fee on it, in parts per
/// million rounded up.
pub proof fn law_cpmm_creator_fee_on_output(pool: CpmmPoolState, amount_in: u64, rin: u64, rout: u64, g: int)
    requires
        rin > 0,
        rout > 0,
        pool.enable_creator_fee,
        cpmm_swap_defined(pool, amount_in, rin as int, rout as int, false),
        ({
            let a = amount_in - (amount_in * pool.trade_fee_rate + 999_999) / 1_000_000;
            &&& 0 <= g
            &&& (rin + a) * (rout - g) >= rin * rout
            &&& (rin + a) * (rout - g - 1) < rin * rout
        }),
    ensures
        cpmm_swap_output(pool, amount_in, rin as int, rout as int, false) == g - (g * pool.creator_fee_rate + 999_999) / 1_000_000,
{
    let a = cpmm_input_after_fees(pool, amount_in, false);
    let d = rin + a;
    let n = a * rout;
    assert(d * g <= n) by (nonlinear_arith)
        requires d * (rout - g) >= rin * rout, d == rin + a, n == a * rout;
    assert(n < d * g + d) by (nonlinear_arith)
        requires d * (rout - g - 1) < rin * rout, d == rin + a, n == a * rout;
    assert(d > 0);
    vstd::arithmetic::div_mod::lemma_fundamental_div_mod_converse(n, d, g, n - d * g);
}

} // verus!
