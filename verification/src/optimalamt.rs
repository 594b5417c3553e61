use vstd::prelude::*;

use crate::clmm::{clmm_quote_exact_input_token, clmm_quote_exact_input_wsol, clmm_quote_token, clmm_quote_wsol, ClmmParams};
use crate::comparison::{pool_index_of, price_of, MidPoolInfo, ParsedPoolState, TwoHopTokenInfo};
use crate::cpmm::{
    cpmm_fee_sums_fit, cpmm_quote_exact_input_token, cpmm_quote_exact_input_wsol, cpmm_quote_token_defined,
    cpmm_quote_wsol_defined, cpmm_swap_output, cpmm_wsol_token_reserves, creator_fee_on_input, CpmmPoolState,
};
use crate::dammv2::{dammv2_quote, dammv2_quote_defined, dammv2_quote_exact_input_token, dammv2_quote_exact_input_wsol, Dammv2PoolState};
use crate::dlmm::{bins_fee_defined, bins_output, dlmm_quote_exact_input_token_optimized, dlmm_quote_exact_input_wsol_optimized, BinState, DlmmPoolState};
use crate::bytes::{key_eq, le_value, read_u64, AccountView};
use crate::clmm_math::{calculate_clmm_amount_in_range, clmm_amount_in_range};
use crate::errors::ErrorCode;
use crate::q64_math::{integer_sqrt_u128, isqrt, lemma_isqrt_unique, or_zero, safe_mul_div_cast, spec_mul_div};
use crate::sqrt_price_math::{delta_a_outcome, delta_b_outcome, flatten_delta, price_lower, price_upper};
use crate::u64x64_math::ONE;
use crate::wide::Rounding;
use crate::pools::WSOL_MINT;
use crate::pump::{
    creator_fee_bps, pump_buy_quote_output, pump_quote_exact_input_token, pump_quote_exact_input_token_output_token,
    pump_quote_exact_input_wsol, pump_quote_token, pump_quote_token_token, pump_quote_wsol, pump_sell_defined,
    pump_sell_output, transfer_fee_fits, PumpPoolState,
};
use crate::raydium::{raydium_quote, raydium_quote_defined, raydium_quote_exact_input_token, raydium_quote_exact_input_wsol};
use crate::token_fee::{mint_fee_defined, mint_transfer_fee, MintFeeInfo};
use crate::whirlpool::{calculate_whirlpool_amount_in_range, WhirlpoolPoolState, whirlpool_quote_exact_input_token, whirlpool_quote_exact_input_wsol, whirlpool_quote_token, whirlpool_quote_wsol, WhirlpoolParams};

verus! {

/// What the quotes read of the clock: the epoch (for transfer fees), the
/// slot and the time (for DAMM v2 fee schedules and Whirlpool adaptive
/// fees).
#[derive(Debug, Clone, Copy)]
pub struct ClockView {
    pub epoch: u64,
    pub slot: u64,
    pub unix_timestamp: u64,
}

/// The point a DAMM v2 pool's fee schedule runs on: the slot or the time
/// by its activation type; `None` for another type.
pub open spec fn dammv2_point(state: Dammv2PoolState, clock: ClockView) -> Option<u64> {
    if state.activation_type == 0 {
        Some(clock.slot)
    } else if state.activation_type == 1 {
        Some(clock.unix_timestamp)
    } else {
        None
    }
}

/// The DAMM v2 fee schedule's point; see `dammv2_point`.
pub fn dammv2_current_point(state: &Dammv2PoolState, clock: &ClockView) -> (r: Result<u64, ErrorCode>)
    ensures
        match dammv2_point(*state, *clock) {
            Some(p) => r == Ok::<u64, ErrorCode>(p),
            None => r == Err::<u64, ErrorCode>(ErrorCode::InvalidActivationType),
        },
{
    match state.activation_type {
        0 => Ok(clock.slot),
        1 => Ok(clock.unix_timestamp),
        _ => Err(ErrorCode::InvalidActivationType),
    }
}

/// The constant-product quote for selling wrapped SOL, as
/// `cpmm_quote_exact_input_wsol` states it.
pub open spec fn cpmm_buy(pool: CpmmPoolState, amount: u64, mint: MintFeeInfo, epoch: u64) -> Result<u64, ErrorCode> {
    let (w, t) = cpmm_wsol_token_reserves(pool, WSOL_MINT@);
    let out = cpmm_swap_output(pool, amount, w as int, t as int, creator_fee_on_input(pool, WSOL_MINT@));
    if !(pool.token0_mint@ == WSOL_MINT@ || pool.token1_mint@ == WSOL_MINT@) {
        Err(ErrorCode::InvalidTokenPair)
    } else if w == 0 || t == 0 {
        Err(ErrorCode::ZeroLiquidity)
    } else {
        Ok((out - mint_transfer_fee(mint, epoch, out as u64)) as u64)
    }
}

/// The constant-product quote for selling the token, as
/// `cpmm_quote_exact_input_token` states it.
pub open spec fn cpmm_sell(pool: CpmmPoolState, amount: u64, mint: MintFeeInfo, epoch: u64) -> Result<u64, ErrorCode> {
    let (w, t) = cpmm_wsol_token_reserves(pool, WSOL_MINT@);
    let net_in = (amount - mint_transfer_fee(mint, epoch, amount)) as u64;
    let token_mint = if pool.token0_mint@ == WSOL_MINT@ {
        pool.token1_mint@
    } else {
        pool.token0_mint@
    };
    let out = cpmm_swap_output(pool, net_in, t as int, w as int, creator_fee_on_input(pool, token_mint));
    if !(pool.token0_mint@ == WSOL_MINT@ || pool.token1_mint@ == WSOL_MINT@) {
        Err(ErrorCode::InvalidTokenPair)
    } else if w == 0 || t == 0 {
        Err(ErrorCode::ZeroLiquidity)
    } else {
        Ok(out as u64)
    }
}

/// The DLMM quote for selling wrapped SOL over the ordered bins, as
/// `dlmm_quote_exact_input_wsol_optimized` states it.
pub open spec fn dlmm_buy(pool: DlmmPoolState, amount: u64, bins: Seq<(i32, BinState)>, mint: MintFeeInfo, epoch: u64) -> Result<u64, ErrorCode> {
    let out = bins_output(pool, amount, 0, pool.token_x_mint@ == WSOL_MINT@, bins, 0);
    if pool.token_x_mint@ != WSOL_MINT@ && pool.token_y_mint@ != WSOL_MINT@ {
        Err(ErrorCode::InvalidTokenPair)
    } else {
        Ok((out - mint_transfer_fee(mint, epoch, out)) as u64)
    }
}

/// The DLMM quote for selling the token over the ordered bins, as
/// `dlmm_quote_exact_input_token_optimized` states it.
pub open spec fn dlmm_sell(pool: DlmmPoolState, amount: u64, bins: Seq<(i32, BinState)>, mint: MintFeeInfo, epoch: u64) -> Result<u64, ErrorCode> {
    let net = (amount - mint_transfer_fee(mint, epoch, amount)) as u64;
    if pool.token_x_mint@ == WSOL_MINT@ {
        Ok(bins_output(pool, net, 0, false, bins, 0))
    } else if pool.token_y_mint@ == WSOL_MINT@ {
        Ok(bins_output(pool, net, 0, true, bins, 0))
    } else {
        Err(ErrorCode::InvalidTokenPair)
    }
}

/// The DAMM v2 quote in one direction, as its quote functions state it.
pub open spec fn dammv2_side(pool: Dammv2PoolState, wsol_in: bool, amount: u64, point: u64) -> Result<u64, ErrorCode> {
    if amount == 0 || pool.liquidity == 0 {
        Ok(0)
    } else if pool.token_a_mint@ == WSOL_MINT@ {
        dammv2_quote(pool, wsol_in, amount, point)
    } else if pool.token_b_mint@ == WSOL_MINT@ {
        dammv2_quote(pool, !wsol_in, amount, point)
    } else {
        Err(ErrorCode::InvalidTokenPair)
    }
}

/// Whether the pump pool's fee rates add up within 64 bits.
pub open spec fn pump_fees_fit(pool: PumpPoolState) -> bool {
    pool.lp_fee_basis_points + pool.protocol_fee_basis_points + creator_fee_bps(pool) <= u64::MAX
}

/// The quote for selling `amount` of wrapped SOL on a pool for the token
/// (whose mint is `mint`): each kind's own quote (see `cpmm_buy`,
/// `dlmm_buy`, `dammv2_side`, `pump_quote_wsol`, `raydium_quote`,
/// `clmm_quote_wsol`, `whirlpool_quote_wsol`); `NoProfit` for a DLMM pool
/// without bins, `InvalidActivationType` for a DAMM v2 pool of an unknown
/// activation type. `None` where the kind's quote is not defined.
#[verifier::opaque]
pub open spec fn buy_quote(
    pool: ParsedPoolState,
    amount: u64,
    bins: Option<Seq<(i32, BinState)>>,
    clmm: Option<ClmmParams>,
    whirlpool: Option<WhirlpoolParams>,
    mint: MintFeeInfo,
    clock: ClockView,
) -> Option<Result<u64, ErrorCode>> {
    let epoch = clock.epoch;
    match pool {
        ParsedPoolState::CPMM { state } => if cpmm_fee_sums_fit(state) && cpmm_quote_wsol_defined(state, WSOL_MINT@, amount, mint, epoch) {
            Some(cpmm_buy(state, amount, mint, epoch))
        } else {
            None
        },
        ParsedPoolState::DLMM { state } => match bins {
            None => Some(Err(ErrorCode::NoProfit)),
            Some(b) => {
                let out = bins_output(state, amount, 0, state.token_x_mint@ == WSOL_MINT@, b, 0);
                if bins_fee_defined(state, b) && mint_fee_defined(mint, epoch, out) && mint_transfer_fee(mint, epoch, out) <= out {
                    Some(dlmm_buy(state, amount, b, mint, epoch))
                } else {
                    None
                }
            },
        },
        ParsedPoolState::DAMMV2 { state } => match dammv2_point(state, clock) {
            None => Some(Err(ErrorCode::InvalidActivationType)),
            Some(p) => if dammv2_quote_defined(state, state.token_a_mint@ == WSOL_MINT@, amount, p) {
                Some(dammv2_side(state, true, amount, p))
            } else {
                None
            },
        },
        ParsedPoolState::PUMP { state } => if pump_fees_fit(state) && pump_sell_defined(state, amount) && (state.quote_mint@ == WSOL_MINT@
            ==> transfer_fee_fits(pump_buy_quote_output(state, amount), mint, epoch)) && (state.quote_mint@ != WSOL_MINT@
            && state.base_mint@ == WSOL_MINT@ ==> transfer_fee_fits(pump_sell_output(state, amount), mint, epoch)) {
            Some(pump_quote_wsol(state, amount, mint, epoch))
        } else {
            None
        },
        ParsedPoolState::RAYDIUM { state } => if raydium_quote_defined(state, amount) {
            Some(raydium_quote(state, amount, true))
        } else {
            None
        },
        ParsedPoolState::CLMM { state } => clmm_quote_wsol(state, WSOL_MINT@, amount, mint, epoch, clmm),
        ParsedPoolState::WHIRLPOOL { state } => whirlpool_quote_wsol(state, WSOL_MINT@, amount, mint, epoch, whirlpool, clock.unix_timestamp),
    }
}

/// The bins as a sequence, if any.
pub open spec fn bins_view(bins: Option<Vec<(i32, BinState)>>) -> Option<Seq<(i32, BinState)>> {
    match bins {
        None => None,
        Some(v) => Some(v@),
    }
}

/// Quote for selling wrapped SOL on the buy pool; see `buy_quote`.
pub fn quote_buy_token_with_wsol_optimized(
    pool_state: &ParsedPoolState,
    wsol_amount_in: u64,
    ordered_bins: &Option<Vec<(i32, BinState)>>,
    buy_clmm_params: &Option<ClmmParams>,
    buy_whirlpool_params: &Option<WhirlpoolParams>,
    token_mint_info: &MintFeeInfo,
    clock: &ClockView,
) -> (r: Result<u64, ErrorCode>)
    requires
        buy_quote(*pool_state, wsol_amount_in, bins_view(*ordered_bins), *buy_clmm_params, *buy_whirlpool_params, *token_mint_info, *clock) is Some,
    ensures
        Some(r) == buy_quote(*pool_state, wsol_amount_in, bins_view(*ordered_bins), *buy_clmm_params, *buy_whirlpool_params, *token_mint_info, *clock),
{
    proof {
        reveal(buy_quote);
    }
    match pool_state {
        ParsedPoolState::CPMM { state } => cpmm_quote_exact_input_wsol(state, WSOL_MINT, wsol_amount_in, token_mint_info, clock.epoch),
        ParsedPoolState::DLMM { state } => match ordered_bins {
            Some(bins) => dlmm_quote_exact_input_wsol_optimized(state, WSOL_MINT, wsol_amount_in, bins, token_mint_info, clock.epoch),
            None => Err(ErrorCode::NoProfit),
        },
        ParsedPoolState::DAMMV2 { state } => {
            let current_point = dammv2_current_point(state, clock)?;
            dammv2_quote_exact_input_wsol(state, WSOL_MINT, wsol_amount_in, current_point)
        },
        ParsedPoolState::PUMP { state } => pump_quote_exact_input_wsol(state, wsol_amount_in, token_mint_info, clock.epoch),
        ParsedPoolState::RAYDIUM { state } => raydium_quote_exact_input_wsol(state, wsol_amount_in),
        ParsedPoolState::CLMM { state } => clmm_quote_exact_input_wsol(state, WSOL_MINT, wsol_amount_in, token_mint_info, clock.epoch, buy_clmm_params),
        ParsedPoolState::WHIRLPOOL { state } => whirlpool_quote_exact_input_wsol(
            state,
            WSOL_MINT,
            wsol_amount_in,
            token_mint_info,
            clock.epoch,
            buy_whirlpool_params,
            clock.unix_timestamp,
        ),
    }
}

/// The quote for selling `amount` of the token (whose mint is `mint`) on a
/// pool for wrapped SOL: each kind's own quote (see `cpmm_sell`,
/// `dlmm_sell`, `dammv2_side`, `pump_quote_token`, `raydium_quote`,
/// `clmm_quote_token`, `whirlpool_quote_token`); `NoProfit` for a DLMM
/// pool without bins, `InvalidActivationType` for a DAMM v2 pool of an
/// unknown activation type. `None` where the kind's quote is not defined.
#[verifier::opaque]
pub open spec fn sell_quote(
    pool: ParsedPoolState,
    amount: u64,
    bins: Option<Seq<(i32, BinState)>>,
    clmm: Option<ClmmParams>,
    whirlpool: Option<WhirlpoolParams>,
    mint: MintFeeInfo,
    clock: ClockView,
) -> Option<Result<u64, ErrorCode>> {
    let epoch = clock.epoch;
    match pool {
        ParsedPoolState::CPMM { state } => if cpmm_fee_sums_fit(state) && cpmm_quote_token_defined(state, WSOL_MINT@, amount, mint, epoch) {
            Some(cpmm_sell(state, amount, mint, epoch))
        } else {
            None
        },
        ParsedPoolState::DLMM { state } => match bins {
            None => Some(Err(ErrorCode::NoProfit)),
            Some(b) => if bins_fee_defined(state, b) && (state.token_x_mint@ == WSOL_MINT@ || state.token_y_mint@ == WSOL_MINT@
                ==> mint_fee_defined(mint, epoch, amount) && mint_transfer_fee(mint, epoch, amount) <= amount) {
                Some(dlmm_sell(state, amount, b, mint, epoch))
            } else {
                None
            },
        },
        ParsedPoolState::DAMMV2 { state } => match dammv2_point(state, clock) {
            None => Some(Err(ErrorCode::InvalidActivationType)),
            Some(p) => if dammv2_quote_defined(state, state.token_a_mint@ != WSOL_MINT@, amount, p) {
                Some(dammv2_side(state, false, amount, p))
            } else {
                None
            },
        },
        ParsedPoolState::PUMP { state } => if pump_fees_fit(state) && mint_fee_defined(mint, epoch, amount) && mint_transfer_fee(mint, epoch, amount)
            <= amount && pump_sell_defined(state, (amount - mint_transfer_fee(mint, epoch, amount)) as u64) {
            Some(pump_quote_token(state, amount, mint, epoch))
        } else {
            None
        },
        ParsedPoolState::RAYDIUM { state } => if raydium_quote_defined(state, amount) {
            Some(raydium_quote(state, amount, false))
        } else {
            None
        },
        ParsedPoolState::CLMM { state } => clmm_quote_token(state, WSOL_MINT@, amount, mint, epoch, clmm),
        ParsedPoolState::WHIRLPOOL { state } => whirlpool_quote_token(state, WSOL_MINT@, amount, mint, epoch, whirlpool, clock.unix_timestamp),
    }
}

/// Quote for selling the token on the sell pool; see `sell_quote`.
pub fn quote_sell_token_for_wsol_optimized(
    pool_state: &ParsedPoolState,
    token_amount_in: u64,
    ordered_bins: &Option<Vec<(i32, BinState)>>,
    sell_clmm_params: &Option<ClmmParams>,
    sell_whirlpool_params: &Option<WhirlpoolParams>,
    token_mint_info: &MintFeeInfo,
    clock: &ClockView,
) -> (r: Result<u64, ErrorCode>)
    requires
        sell_quote(*pool_state, token_amount_in, bins_view(*ordered_bins), *sell_clmm_params, *sell_whirlpool_params, *token_mint_info, *clock) is Some,
    ensures
        Some(r) == sell_quote(*pool_state, token_amount_in, bins_view(*ordered_bins), *sell_clmm_params, *sell_whirlpool_params, *token_mint_info, *clock),
{
    proof {
        reveal(sell_quote);
    }
    match pool_state {
        ParsedPoolState::CPMM { state } => cpmm_quote_exact_input_token(state, WSOL_MINT, token_amount_in, token_mint_info, clock.epoch),
        ParsedPoolState::DLMM { state } => match ordered_bins {
            Some(bins) => dlmm_quote_exact_input_token_optimized(state, WSOL_MINT, token_amount_in, bins, token_mint_info, clock.epoch),
            None => Err(ErrorCode::NoProfit),
        },
        ParsedPoolState::DAMMV2 { state } => {
            let current_point = dammv2_current_point(state, clock)?;
            dammv2_quote_exact_input_token(state, WSOL_MINT, token_amount_in, current_point)
        },
        ParsedPoolState::PUMP { state } => pump_quote_exact_input_token(state, token_amount_in, token_mint_info, clock.epoch),
        ParsedPoolState::RAYDIUM { state } => raydium_quote_exact_input_token(state, token_amount_in),
        ParsedPoolState::CLMM { state } => clmm_quote_exact_input_token(state, WSOL_MINT, token_amount_in, token_mint_info, clock.epoch, sell_clmm_params),
        ParsedPoolState::WHIRLPOOL { state } => whirlpool_quote_exact_input_token(
            state,
            WSOL_MINT,
            token_amount_in,
            token_mint_info,
            clock.epoch,
            sell_whirlpool_params,
            clock.unix_timestamp,
        ),
    }
}


/// The quote for trading `amount` of token 1 for token 2 on the middle
/// pool: pump and Raydium pools quote it (see `pump_quote_token_token`,
/// `raydium_quote`); a DAMM v2 pool of an unknown activation type gives
/// `InvalidActivationType`; any other middle pool gives `NoProfit`, having
/// no token-to-token quote. `None` where the quote is not defined.
#[verifier::opaque]
pub open spec fn mid_quote(
    m: MidPoolInfo,
    amount: u64,
    mint1: MintFeeInfo,
    mint2: MintFeeInfo,
    clock: ClockView,
) -> Option<Result<u64, ErrorCode>> {
    let epoch = clock.epoch;
    match *m.pool_state {
        ParsedPoolState::PUMP { state } => {
            let net = (amount - mint_transfer_fee(mint1, epoch, amount)) as u64;
            if pump_fees_fit(state) && mint_fee_defined(mint1, epoch, amount) && mint_transfer_fee(mint1, epoch, amount) <= amount
                && pump_sell_defined(state, net) && transfer_fee_fits(
                if m.is_mid_a2b {
                    pump_sell_output(state, net)
                } else {
                    pump_buy_quote_output(state, net)
                },
                mint2,
                epoch,
            ) {
                Some(pump_quote_token_token(state, m.is_mid_a2b, amount, mint1, mint2, epoch))
            } else {
                None
            }
        },
        ParsedPoolState::RAYDIUM { state } => if raydium_quote_defined(state, amount) {
            Some(raydium_quote(state, amount, false))
        } else {
            None
        },
        ParsedPoolState::DAMMV2 { state } => match dammv2_point(state, clock) {
            None => Some(Err(ErrorCode::InvalidActivationType)),
            Some(_) => Some(Err(ErrorCode::NoProfit)),
        },
        _ => Some(Err(ErrorCode::NoProfit)),
    }
}

/// Quote for trading token 1 for token 2 on the middle pool; see
/// `mid_quote`.
pub fn quote_mid_token1_for_token2_optimized(
    mid_pool_info: &MidPoolInfo,
    token_amount_in: u64,
    token1_mint_info: &MintFeeInfo,
    token2_mint_info: &MintFeeInfo,
    clock: &ClockView,
) -> (r: Result<u64, ErrorCode>)
    requires
        mid_quote(*mid_pool_info, token_amount_in, *token1_mint_info, *token2_mint_info, *clock) is Some,
    ensures
        Some(r) == mid_quote(*mid_pool_info, token_amount_in, *token1_mint_info, *token2_mint_info, *clock),
{
    proof {
        reveal(mid_quote);
    }
    match &*mid_pool_info.pool_state {
        ParsedPoolState::PUMP { state } => pump_quote_exact_input_token_output_token(
            state,
            mid_pool_info.is_mid_a2b,
            token_amount_in,
            token1_mint_info,
            token2_mint_info,
            clock.epoch,
        ),
        ParsedPoolState::RAYDIUM { state } => raydium_quote_exact_input_token(state, token_amount_in),
        ParsedPoolState::DAMMV2 { state } => {
            let _current_point = dammv2_current_point(state, clock)?;
            Err(ErrorCode::NoProfit)
        },
        _ => Err(ErrorCode::NoProfit),
    }
}

/// What the profit computation reads of each pool besides its state: the
/// DLMM bins, CLMM parameters and Whirlpool parameters of the buy, middle
/// and sell pools.
pub struct ArbitrageParams {
    pub buy_ordered_bins: Option<Vec<(i32, BinState)>>,
    pub mid_ordered_bins: Option<Vec<(i32, BinState)>>,
    pub sell_ordered_bins: Option<Vec<(i32, BinState)>>,
    pub buy_clmm_params: Option<ClmmParams>,
    pub mid_clmm_params: Option<ClmmParams>,
    pub sell_clmm_params: Option<ClmmParams>,
    pub buy_whirlpool_params: Option<WhirlpoolParams>,
    pub mid_whirlpool_params: Option<WhirlpoolParams>,
    pub sell_whirlpool_params: Option<WhirlpoolParams>,
}

/// `x` clamped to the `i64` range.
pub open spec fn sat_i64(x: int) -> i64 {
    if x > i64::MAX {
        i64::MAX
    } else if x < i64::MIN {
        i64::MIN
    } else {
        x as i64
    }
}

/// Where token 1's mint sits: from the middle pool in a three-hop trade,
/// from the two-hop information otherwise.
pub open spec fn token1_index(mid: Option<MidPoolInfo>, two_hop: Option<TwoHopTokenInfo>) -> Option<usize> {
    match mid {
        Some(m) => Some(m.token1_mint_index),
        None => match two_hop {
            Some(t) => Some(t.token_mint_index),
            None => None,
        },
    }
}

/// The profit of trading `amount` of wrapped SOL around the pools, with
/// the token amounts: zero for no input; `NoProfit` without token
/// information; else buy token 1 (see `buy_quote`), trade it for token 2
/// in a three-hop trade (see `mid_quote`), and sell what came out (see
/// `sell_quote`); a zero amount on the way gives all zeros. The profit is
/// the wrapped SOL out less in, each as an `i64`, saturating; the token
/// amounts are what was sold and token 2's amount (zero in two hops).
/// `mints` holds the mints by account position. `None` where a quote is
/// not defined or a mint is missing.
#[verifier::opaque]
pub open spec fn arb_profit(
    buy: ParsedPoolState,
    mid: Option<MidPoolInfo>,
    sell: ParsedPoolState,
    amount: u64,
    params: ArbitrageParams,
    mints: Seq<MintFeeInfo>,
    clock: ClockView,
    two_hop: Option<TwoHopTokenInfo>,
) -> Option<Result<(i64, u64, u64), ErrorCode>> {
    if amount == 0 {
        Some(Ok((0, 0, 0)))
    } else {
        match token1_index(mid, two_hop) {
            None => Some(Err(ErrorCode::NoProfit)),
            Some(k) => if k >= mints.len() {
                None
            } else {
                match buy_quote(buy, amount, bins_view(params.buy_ordered_bins), params.buy_clmm_params, params.buy_whirlpool_params, mints[k as int], clock) {
                    None => None,
                    Some(Err(e)) => Some(Err(e)),
                    Some(Ok(out1)) => if out1 == 0 {
                        Some(Ok((0, 0, 0)))
                    } else {
                        let after_mid: Option<Result<(u64, u64, MintFeeInfo), ErrorCode>> = match mid {
                            None => Some(Ok((out1, 0, mints[k as int]))),
                            Some(m) => if m.token2_mint_index >= mints.len() {
                                None
                            } else {
                                match mid_quote(m, out1, mints[k as int], mints[m.token2_mint_index as int], clock) {
                                    None => None,
                                    Some(Err(e)) => Some(Err(e)),
                                    Some(Ok(o2)) => Some(Ok((o2, o2, mints[m.token2_mint_index as int]))),
                                }
                            },
                        };
                        match after_mid {
                            None => None,
                            Some(Err(e)) => Some(Err(e)),
                            Some(Ok((tok, t2, sell_mint))) => if mid is Some && t2 == 0 {
                                Some(Ok((0, 0, 0)))
                            } else {
                                match sell_quote(sell, tok, bins_view(params.sell_ordered_bins), params.sell_clmm_params, params.sell_whirlpool_params, sell_mint, clock) {
                                    None => None,
                                    Some(Err(e)) => Some(Err(e)),
                                    Some(Ok(w)) => Some(Ok((sat_i64((w as i64) - (amount as i64)), tok, t2))),
                                }
                            },
                        }
                    },
                }
            },
        }
    }
}

/// The profit of a trade of `wsol_amount_in`; see `arb_profit`.
pub fn calculate_arbitrage_profit_optimized(
    buy_pool_state: &ParsedPoolState,
    mid_pool_info: Option<&MidPoolInfo>,
    sell_pool_state: &ParsedPoolState,
    wsol_amount_in: u64,
    arbitrage_params: &ArbitrageParams,
    mint_infos: &Vec<MintFeeInfo>,
    clock: &ClockView,
    two_hop_token_info: Option<&TwoHopTokenInfo>,
) -> (r: Result<(i64, u64, u64), ErrorCode>)
    requires
        arb_profit(*buy_pool_state, opt_mid(mid_pool_info), *sell_pool_state, wsol_amount_in, *arbitrage_params, mint_infos@, *clock, opt_two_hop(two_hop_token_info)) is Some,
    ensures
        Some(r) == arb_profit(*buy_pool_state, opt_mid(mid_pool_info), *sell_pool_state, wsol_amount_in, *arbitrage_params, mint_infos@, *clock, opt_two_hop(two_hop_token_info)),
{
    proof {
        reveal(arb_profit);
    }
    if wsol_amount_in == 0 {
        return Ok((0, 0, 0));
    }
    let token1_mint_index = if let Some(mid_info) = mid_pool_info {
        mid_info.token1_mint_index
    } else if let Some(two_hop_info) = two_hop_token_info {
        two_hop_info.token_mint_index
    } else {
        return Err(ErrorCode::NoProfit);
    };
    let token1_mint_info = &mint_infos[token1_mint_index];
    let mut token_amount_out = quote_buy_token_with_wsol_optimized(
        buy_pool_state,
        wsol_amount_in,
        &arbitrage_params.buy_ordered_bins,
        &arbitrage_params.buy_clmm_params,
        &arbitrage_params.buy_whirlpool_params,
        token1_mint_info,
        clock,
    )?;
    if token_amount_out == 0 {
        return Ok((0, 0, 0));
    }
    let mut token2_amount_out: u64 = 0;
    if let Some(mid_pool_state) = mid_pool_info {
        let token2_mint_info = &mint_infos[mid_pool_state.token2_mint_index];
        token2_amount_out = quote_mid_token1_for_token2_optimized(
            mid_pool_state,
            token_amount_out,
            token1_mint_info,
            token2_mint_info,
            clock,
        )?;
        if token2_amount_out == 0 {
            return Ok((0, 0, 0));
        }
        token_amount_out = token2_amount_out;
    }
    let sell_token_mint_info = if let Some(mid_pool_state) = mid_pool_info {
        &mint_infos[mid_pool_state.token2_mint_index]
    } else {
        token1_mint_info
    };
    let wsol_amount_out = quote_sell_token_for_wsol_optimized(
        sell_pool_state,
        token_amount_out,
        &arbitrage_params.sell_ordered_bins,
        &arbitrage_params.sell_clmm_params,
        &arbitrage_params.sell_whirlpool_params,
        sell_token_mint_info,
        clock,
    )?;
    let out_i: i64 = wsol_amount_out as i64;
    let in_i: i64 = wsol_amount_in as i64;
    let diff: i128 = out_i as i128 - in_i as i128;
    let profit: i64 = if diff > i64::MAX as i128 {
        i64::MAX
    } else if diff < i64::MIN as i128 {
        i64::MIN
    } else {
        diff as i64
    };
    Ok((profit, token_amount_out, token2_amount_out))
}

/// An optional middle pool by value.
pub open spec fn opt_mid(m: Option<&MidPoolInfo>) -> Option<MidPoolInfo> {
    match m {
        Some(x) => Some(*x),
        None => None,
    }
}

/// An optional two-hop token information by value.
pub open spec fn opt_two_hop(t: Option<&TwoHopTokenInfo>) -> Option<TwoHopTokenInfo> {
    match t {
        Some(x) => Some(*x),
        None => None,
    }
}


/// The square-root price (Q64.64) that matches a price of wrapped SOL per
/// token: the integer square root times 2^32, inverted (2^128 over it,
/// rounded as given) when wrapped SOL is not the pool's second token.
pub open spec fn sqrt_limit_of(price: u128, invert: bool, rounding: Rounding) -> u128 {
    let q = (isqrt(price) * 0x1_0000_0000) as u128;
    if invert {
        or_zero(spec_mul_div(ONE, ONE, q, rounding))
    } else {
        q
    }
}

/// The square-root price matching a price; see `sqrt_limit_of`.
pub fn sqrt_limit(price: u128, invert: bool, rounding: Rounding) -> (r: u128)
    ensures
        r == sqrt_limit_of(price, invert, rounding),
{
    let root = integer_sqrt_u128(price);
    proof {
        lemma_isqrt_unique(price, root);
        crate::bit_facts::lemma_shl_32(root);
    }
    let q = root << 32u32;
    if invert {
        safe_mul_div_cast(ONE, ONE, q, rounding)
    } else {
        q
    }
}

/// `amount * ratio` over 2^64, rounded down (zero when undefined), cut to
/// 64 bits.
pub open spec fn reserve_share(amount: u64, ratio: u128) -> u64 {
    or_zero(spec_mul_div(amount as u128, ratio, ONE, Rounding::Down)) as u64
}

/// The sum of a field of the bins, from the first `k`.
pub open spec fn bins_sum(bins: Seq<(i32, BinState)>, k: nat, field: int) -> nat
    decreases k,
{
    if k == 0 {
        0
    } else {
        let b = bins[k - 1].1;
        let v: nat = if field == 0 {
            b.max_amount_in_with_fees as nat
        } else if field == 1 {
            b.amount_x as nat
        } else {
            b.amount_y as nat
        };
        bins_sum(bins, (k - 1) as nat, field) + v
    }
}

/// The sum of a field of the bins: their most input (0), their token X
/// (1) or their token Y (2); see `bins_sum`.
fn sum_bins(bins: &Vec<(i32, BinState)>, field: u8) -> (r: u64)
    requires
        bins_sum(bins@, bins@.len(), field as int) <= u64::MAX,
    ensures
        r == bins_sum(bins@, bins@.len(), field as int),
{
    let mut total: u64 = 0;
    let mut i: usize = 0;
    while i < bins.len()
        invariant
            i <= bins@.len(),
            total == bins_sum(bins@, i as nat, field as int),
            bins_sum(bins@, bins@.len(), field as int) <= u64::MAX,
        decreases bins@.len() - i,
    {
        proof {
            lemma_bins_sum_grows(bins@, (i + 1) as nat, bins@.len(), field as int);
        }
        let b = bins[i].1;
        let v = if field == 0 {
            b.max_amount_in_with_fees
        } else if field == 1 {
            b.amount_x
        } else {
            b.amount_y
        };
        total = total + v;
        i += 1;
    }
    total
}

/// The sums only grow with more bins.
proof fn lemma_bins_sum_grows(bins: Seq<(i32, BinState)>, j: nat, k: nat, field: int)
    requires
        j <= k <= bins.len(),
    ensures
        bins_sum(bins, j, field) <= bins_sum(bins, k, field),
    decreases k,
{
    if j < k {
        lemma_bins_sum_grows(bins, j, (k - 1) as nat, field);
    }
}

/// The 64-bit amount at byte 64 of a token account (its balance), when
/// the account is there with the bytes.
pub open spec fn vault_balance(accounts: Seq<AccountView>, index: usize) -> Option<u64> {
    if index >= accounts.len() || accounts[index as int].data@.len() < 72 {
        None
    } else {
        Some(le_value(accounts[index as int].data@, 64, 8) as u64)
    }
}

/// The most wrapped SOL worth putting into the buy pool: for reserve pools
/// the wrapped SOL reserve (the wrapped SOL vault's balance for DAMM v2)
/// times `max_profit_ratio`; for DLMM the bins' most input in total (zero
/// without bins); for CLMM and Whirlpool pools the wrapped SOL that moves
/// the price to the sell pool's price (see `sqrt_limit_of`), 10 when that
/// overflows for CLMM. `None` where a vault is missing, the bins' total
/// overflows or the range amount is not defined.
pub open spec fn max_input_buy(
    pool: ParsedPoolState,
    max_profit_ratio: u128,
    bins: Option<Seq<(i32, BinState)>>,
    accounts: Seq<AccountView>,
    sell_pool_price: u128,
) -> Option<Result<u64, ErrorCode>> {
    match pool {
        ParsedPoolState::CPMM { state } => Some(
            Ok(
                reserve_share(
                    if state.token0_mint@ == WSOL_MINT@ {
                        state.token0_reserve
                    } else {
                        state.token1_reserve
                    },
                    max_profit_ratio,
                ),
            ),
        ),
        ParsedPoolState::DLMM { .. } => match bins {
            None => Some(Ok(0)),
            Some(b) => if bins_sum(b, b.len(), 0) <= u64::MAX {
                Some(Ok(bins_sum(b, b.len(), 0) as u64))
            } else {
                None
            },
        },
        ParsedPoolState::DAMMV2 { state } => match vault_balance(
            accounts,
            if state.token_a_mint@ == WSOL_MINT@ {
                state.token_a_vault_index
            } else {
                state.token_b_vault_index
            },
        ) {
            None => None,
            Some(bal) => Some(Ok(reserve_share(bal, max_profit_ratio))),
        },
        ParsedPoolState::PUMP { state } => Some(
            Ok(
                reserve_share(
                    if state.quote_mint@ == WSOL_MINT@ {
                        state.quote_reserve
                    } else {
                        state.base_reserve
                    },
                    max_profit_ratio,
                ),
            ),
        ),
        ParsedPoolState::RAYDIUM { state } => Some(
            Ok(
                reserve_share(
                    if state.base_mint@ == WSOL_MINT@ {
                        state.base_reserve
                    } else {
                        state.quote_reserve
                    },
                    max_profit_ratio,
                ),
            ),
        ),
        ParsedPoolState::CLMM { state } => {
            let target = sqrt_limit_of(sell_pool_price, state.token_mint_1@ != WSOL_MINT@, Rounding::Down);
            match clmm_amount_in_range(state.sqrt_price_x64, target, state.liquidity, state.token_mint_0@ == WSOL_MINT@, false) {
                Err(e) => Some(Err(e)),
                Ok(o) => Some(
                    Ok(
                        match o {
                            Some(v) => v,
                            None => 10,
                        },
                    ),
                ),
            }
        },
        ParsedPoolState::WHIRLPOOL { state } => {
            let target = sqrt_limit_of(sell_pool_price, state.token_mint_b@ != WSOL_MINT@, Rounding::Down);
            whirlpool_range_input(state, target)
        },
    }
}

/// The wrapped SOL that moves a Whirlpool pool's price to `target` (see
/// `calculate_whirlpool_amount_in_range`, rounded down): zero without
/// liquidity. `None` where the token-A amount is not defined.
pub open spec fn whirlpool_range_input(state: WhirlpoolPoolState, target: u128) -> Option<Result<u64, ErrorCode>> {
    let wsol_is_a = state.token_mint_a@ == WSOL_MINT@;
    if state.liquidity != 0 && wsol_is_a && !(price_lower(state.sqrt_price, target) > 0 || state.liquidity * (price_upper(
        state.sqrt_price,
        target,
    ) - price_lower(state.sqrt_price, target)) >= 0x1_0000_0000_0000_0000_0000_0000_0000_0000_0000_0000_0000_0000) {
        None
    } else if state.liquidity == 0 {
        Some(Ok(0))
    } else {
        match flatten_delta(
            if wsol_is_a {
                delta_a_outcome(state.sqrt_price, target, state.liquidity, false)
            } else {
                delta_b_outcome(state.sqrt_price, target, state.liquidity, false)
            },
        ) {
            Ok(v) => Some(Ok(v)),
            Err(e) => Some(Err(e)),
        }
    }
}

/// The Whirlpool range input; see `whirlpool_range_input`.
fn whirlpool_input_in_range(state: &WhirlpoolPoolState, target: u128) -> (r: Result<u64, ErrorCode>)
    requires
        whirlpool_range_input(*state, target) is Some,
    ensures
        Some(r) == whirlpool_range_input(*state, target),
{
    let wsol_is_token_a = key_eq(&state.token_mint_a, &WSOL_MINT);
    match calculate_whirlpool_amount_in_range(state.sqrt_price, target, state.liquidity, wsol_is_token_a, false)? {
        Some(v) => Ok(v),
        None => Ok(10),
    }
}

/// The most wrapped SOL worth putting into the buy pool; see
/// `max_input_buy`.
pub fn get_max_effective_input_wsol_from_buy(
    buy_pool_state: &ParsedPoolState,
    max_profit_ratio: u128,
    buy_ordered_bins: &Option<Vec<(i32, BinState)>>,
    accounts: &Vec<AccountView>,
    sell_pool_price: u128,
) -> (r: Result<u64, ErrorCode>)
    requires
        max_input_buy(*buy_pool_state, max_profit_ratio, bins_view(*buy_ordered_bins), accounts@, sell_pool_price) is Some,
    ensures
        Some(r) == max_input_buy(*buy_pool_state, max_profit_ratio, bins_view(*buy_ordered_bins), accounts@, sell_pool_price),
{
    let v = match buy_pool_state {
        ParsedPoolState::CPMM { state } => {
            let wsol_reserve = if key_eq(&state.token0_mint, &WSOL_MINT) {
                state.token0_reserve
            } else {
                state.token1_reserve
            };
            safe_mul_div_cast(wsol_reserve as u128, max_profit_ratio, ONE, Rounding::Down) as u64
        },
        ParsedPoolState::DLMM { .. } => match buy_ordered_bins {
            Some(bins) => sum_bins(bins, 0),
            None => 0,
        },
        ParsedPoolState::DAMMV2 { state } => {
            let wsol_vault_index = if key_eq(&state.token_a_mint, &WSOL_MINT) {
                state.token_a_vault_index
            } else {
                state.token_b_vault_index
            };
            let wsol_balance = read_u64(&accounts[wsol_vault_index].data, 64);
            safe_mul_div_cast(wsol_balance as u128, max_profit_ratio, ONE, Rounding::Down) as u64
        },
        ParsedPoolState::PUMP { state } => {
            let wsol_reserve = if key_eq(&state.quote_mint, &WSOL_MINT) {
                state.quote_reserve
            } else {
                state.base_reserve
            };
            safe_mul_div_cast(wsol_reserve as u128, max_profit_ratio, ONE, Rounding::Down) as u64
        },
        ParsedPoolState::RAYDIUM { state } => {
            let wsol_reserve = if key_eq(&state.base_mint, &WSOL_MINT) {
                state.base_reserve
            } else {
                state.quote_reserve
            };
            safe_mul_div_cast(wsol_reserve as u128, max_profit_ratio, ONE, Rounding::Down) as u64
        },
        ParsedPoolState::CLMM { state } => {
            let wsol_is_token_0 = key_eq(&state.token_mint_0, &WSOL_MINT);
            let target = sqrt_limit(sell_pool_price, !key_eq(&state.token_mint_1, &WSOL_MINT), Rounding::Down);
            match calculate_clmm_amount_in_range(state.sqrt_price_x64, target, state.liquidity, wsol_is_token_0, false)? {
                Some(v) => v,
                None => 10,
            }
        },
        ParsedPoolState::WHIRLPOOL { state } => {
            let target = sqrt_limit(sell_pool_price, !key_eq(&state.token_mint_b, &WSOL_MINT), Rounding::Down);
            whirlpool_input_in_range(state, target)?
        },
    };
    Ok(v)
}

/// The most wrapped SOL worth taking out of the sell pool: as
/// `max_input_buy` for reserve pools, CLMM and Whirlpool pools (against
/// the buy pool's price); for DLMM the bins' wrapped SOL in total (token Y
/// when that is wrapped SOL, else token X; zero without bins).
pub open spec fn max_input_sell(
    pool: ParsedPoolState,
    max_profit_ratio: u128,
    bins: Option<Seq<(i32, BinState)>>,
    accounts: Seq<AccountView>,
    buy_pool_price: u128,
) -> Option<Result<u64, ErrorCode>> {
    match pool {
        ParsedPoolState::DLMM { state } => match bins {
            None => Some(Ok(0)),
            Some(b) => {
                let field: int = if state.token_y_mint@ == WSOL_MINT@ {
                    2
                } else {
                    1
                };
                if bins_sum(b, b.len(), field) <= u64::MAX {
                    Some(Ok(bins_sum(b, b.len(), field) as u64))
                } else {
                    None
                }
            },
        },
        _ => max_input_buy(pool, max_profit_ratio, bins, accounts, buy_pool_price),
    }
}

/// The most wrapped SOL worth taking out of the sell pool; see
/// `max_input_sell`.
pub fn get_max_effective_input_wsol_form_sell(
    sell_pool_state: &ParsedPoolState,
    max_profit_ratio: u128,
    sell_ordered_bins: &Option<Vec<(i32, BinState)>>,
    accounts: &Vec<AccountView>,
    buy_pool_price: u128,
) -> (r: Result<u64, ErrorCode>)
    requires
        max_input_sell(*sell_pool_state, max_profit_ratio, bins_view(*sell_ordered_bins), accounts@, buy_pool_price) is Some,
    ensures
        Some(r) == max_input_sell(*sell_pool_state, max_profit_ratio, bins_view(*sell_ordered_bins), accounts@, buy_pool_price),
{
    match sell_pool_state {
        ParsedPoolState::DLMM { state } => match sell_ordered_bins {
            Some(bins) => {
                if key_eq(&state.token_y_mint, &WSOL_MINT) {
                    Ok(sum_bins(bins, 2))
                } else {
                    Ok(sum_bins(bins, 1))
                }
            },
            None => Ok(0),
        },
        _ => get_max_effective_input_wsol_from_buy(sell_pool_state, max_profit_ratio, sell_ordered_bins, accounts, buy_pool_price),
    }
}


/// The rounds of the amount search: three with a middle pool, five
/// without.
pub open spec fn search_rounds(mid: Option<MidPoolInfo>) -> u8 {
    if mid is Some {
        3
    } else {
        5
    }
}

/// The amount search from `[left, right]` after `it` rounds with the best
/// so far `(profit, amount, token 1 out, token 2 out)`: while the range is
/// wider than `precision` and rounds are left, it tries the range's sum
/// over `first_denom` (first round) or its midpoint, keeps a strictly
/// better profit, and narrows the range: to the left of the amount tried
/// when the profit is negative or the amount lies beyond the best one,
/// else to its right. `None` where a profit is not defined, the range is
/// inverted, its ends overflow when added, or the first divisor is zero.
pub open spec fn search_run(
    buy: ParsedPoolState,
    mid: Option<MidPoolInfo>,
    sell: ParsedPoolState,
    params: ArbitrageParams,
    mints: Seq<MintFeeInfo>,
    clock: ClockView,
    two_hop: Option<TwoHopTokenInfo>,
    left: u64,
    right: u64,
    precision: u64,
    first_denom: u64,
    it: u8,
    best: (i64, u64, u64, u64),
) -> Option<Result<(i64, u64, u64, u64), ErrorCode>>
    decreases (if search_rounds(mid) > it { search_rounds(mid) - it } else { 0 }),
{
    if right < left {
        None
    } else if !(right - left > precision && it < search_rounds(mid)) {
        Some(Ok(best))
    } else if left + right > u64::MAX || (it == 0 && first_denom == 0) {
        None
    } else {
        let amount: u64 = if it == 0 {
            ((left + right) / (first_denom as int)) as u64
        } else {
            ((left + right) / 2) as u64
        };
        match arb_profit(buy, mid, sell, amount, params, mints, clock, two_hop) {
            None => None,
            Some(Err(e)) => Some(Err(e)),
            Some(Ok((p, t1, t2))) => {
                let best2 = if p > best.0 {
                    (p, amount, t1, t2)
                } else {
                    best
                };
                let (l2, r2) = if p < 0 || amount > best2.1 {
                    (left, amount)
                } else {
                    (amount, right)
                };
                search_run(buy, mid, sell, params, mints, clock, two_hop, l2, r2, precision, first_denom, (it + 1) as u8, best2)
            },
        }
    }
}

/// The amount search; see `search_run`.
#[verifier::loop_isolation(false)]
pub fn binary_search_optimal_amount(
    buy_pool_state: &ParsedPoolState,
    mid_pool_state: Option<&MidPoolInfo>,
    sell_pool_state: &ParsedPoolState,
    arbitrage_params: &ArbitrageParams,
    mint_infos: &Vec<MintFeeInfo>,
    clock: &ClockView,
    left: u64,
    right: u64,
    precision: u64,
    first_denom: u64,
    max_profit: i64,
    best_amount: u64,
    max_token1_amount_out: u64,
    max_token2_amount_out: u64,
    two_hop_token_info: Option<&TwoHopTokenInfo>,
) -> (r: Result<(i64, u64, u64, u64), ErrorCode>)
    requires
        search_run(
            *buy_pool_state,
            opt_mid(mid_pool_state),
            *sell_pool_state,
            *arbitrage_params,
            mint_infos@,
            *clock,
            opt_two_hop(two_hop_token_info),
            left,
            right,
            precision,
            first_denom,
            0,
            (max_profit, best_amount, max_token1_amount_out, max_token2_amount_out),
        ) is Some,
    ensures
        Some(r) == search_run(
            *buy_pool_state,
            opt_mid(mid_pool_state),
            *sell_pool_state,
            *arbitrage_params,
            mint_infos@,
            *clock,
            opt_two_hop(two_hop_token_info),
            left,
            right,
            precision,
            first_denom,
            0,
            (max_profit, best_amount, max_token1_amount_out, max_token2_amount_out),
        ),
{
    let ghost gmid = opt_mid(mid_pool_state);
    let ghost two_hop = opt_two_hop(two_hop_token_info);
    let ghost goal = search_run(
        *buy_pool_state,
        gmid,
        *sell_pool_state,
        *arbitrage_params,
        mint_infos@,
        *clock,
        two_hop,
        left,
        right,
        precision,
        first_denom,
        0,
        (max_profit, best_amount, max_token1_amount_out, max_token2_amount_out),
    );
    let mut left = left;
    let mut right = right;
    let mut max_profit = max_profit;
    let mut best_amount = best_amount;
    let mut max_token1_amount_out = max_token1_amount_out;
    let mut max_token2_amount_out = max_token2_amount_out;
    let mut iterations: u8 = 0;
    let max_loop: u8 = if mid_pool_state.is_some() {
        3
    } else {
        5
    };
    loop
        invariant
            max_loop == search_rounds(gmid),
            iterations <= max_loop,
            search_run(
                *buy_pool_state,
                gmid,
                *sell_pool_state,
                *arbitrage_params,
                mint_infos@,
                *clock,
                two_hop,
                left,
                right,
                precision,
                first_denom,
                iterations,
                (max_profit, best_amount, max_token1_amount_out, max_token2_amount_out),
            ) == goal,
            goal is Some,
        decreases max_loop - iterations,
    {
        if !(right - left > precision && iterations < max_loop) {
            return Ok((max_profit, best_amount, max_token1_amount_out, max_token2_amount_out));
        }
        let amount = if iterations == 0 {
            (left + right) / first_denom
        } else {
            (left + right) / 2
        };
        let (mid_profit, mid_token_out, mid_token2_out) = calculate_arbitrage_profit_optimized(
            buy_pool_state,
            mid_pool_state,
            sell_pool_state,
            amount,
            arbitrage_params,
            mint_infos,
            clock,
            two_hop_token_info,
        )?;
        iterations += 1;
        if mid_profit > max_profit {
            max_profit = mid_profit;
            best_amount = amount;
            max_token1_amount_out = mid_token_out;
            max_token2_amount_out = mid_token2_out;
        }
        if mid_profit < 0 {
            right = amount;
        } else {
            if amount > best_amount {
                right = amount;
            } else {
                left = amount;
            }
        }
    }
}


/// The outcome of an amount search: the amount, what comes back in
/// total (the amount plus the least profit), the profit, the token
/// amounts, the pools' positions, and where the intermediate tokens'
/// accounts sit.
#[derive(Debug, Clone, Copy)]
pub struct OptimizationResult {
    pub optimal_wsol_amount: u64,
    pub total_wsol_out: u64,
    pub max_profit: u64,
    pub max_token1_amount_out: u64,
    pub max_token2_amount_out: u64,
    pub buy_pool_index: usize,
    pub mid_pool_index: Option<usize>,
    pub sell_pool_index: usize,
    pub token1_mint_index: usize,
    pub token1_program_index: usize,
    pub token1_account_index: usize,
    pub token2_mint_index: Option<usize>,
    pub token2_program_index: Option<usize>,
    pub token2_account_index: Option<usize>,
    pub is_3hop: bool,
}

/// Where the intermediate tokens' accounts sit: both tokens' from the
/// middle pool in a three-hop trade, the one token's from the two-hop
/// information otherwise, all zero without either.
pub open spec fn token_indices(mid: Option<MidPoolInfo>, two_hop: Option<TwoHopTokenInfo>) -> (
    usize,
    usize,
    usize,
    Option<usize>,
    Option<usize>,
    Option<usize>,
    bool,
) {
    match mid {
        Some(m) => (
            m.token1_mint_index,
            m.token1_program_index,
            m.token1_mint_token_account_index,
            Some(m.token2_mint_index),
            Some(m.token2_program_index),
            Some(m.token2_mint_token_account_index),
            true,
        ),
        None => match two_hop {
            Some(t) => (t.token_mint_index, t.token_program_index, t.mint_token_account_index, None, None, None, false),
            None => (0, 0, 0, None, None, None, false),
        },
    }
}

/// Where the intermediate tokens' accounts sit; see `token_indices`.
pub fn extract_token_indices(mid_pool_info: Option<&MidPoolInfo>, two_hop_token_info: Option<&TwoHopTokenInfo>) -> (r: (
    usize,
    usize,
    usize,
    Option<usize>,
    Option<usize>,
    Option<usize>,
    bool,
))
    ensures
        r == token_indices(opt_mid(mid_pool_info), opt_two_hop(two_hop_token_info)),
{
    if let Some(mid_info) = mid_pool_info {
        (
            mid_info.token1_mint_index,
            mid_info.token1_program_index,
            mid_info.token1_mint_token_account_index,
            Some(mid_info.token2_mint_index),
            Some(mid_info.token2_program_index),
            Some(mid_info.token2_mint_token_account_index),
            true,
        )
    } else if let Some(two_hop_info) = two_hop_token_info {
        (two_hop_info.token_mint_index, two_hop_info.token_program_index, two_hop_info.mint_token_account_index, None, None, None, false)
    } else {
        (0, 0, 0, None, None, None, false)
    }
}

/// Whether a pool is a Whirlpool, CLMM or DLMM pool, and its price.
pub open spec fn pool_info(p: ParsedPoolState) -> (bool, bool, bool, u128) {
    match p {
        ParsedPoolState::DLMM { state } => (false, false, true, state.price),
        ParsedPoolState::CLMM { state } => (false, true, false, state.price),
        ParsedPoolState::WHIRLPOOL { state } => (true, false, false, state.price),
        ParsedPoolState::CPMM { state } => (false, false, false, state.price),
        ParsedPoolState::DAMMV2 { state } => (false, false, false, state.price),
        ParsedPoolState::PUMP { state } => (false, false, false, state.price),
        ParsedPoolState::RAYDIUM { state } => (false, false, false, state.price),
    }
}

/// The pool's kind flags and price; see `pool_info`.
pub fn extract_pool_info(pool_state: &ParsedPoolState) -> (r: (bool, bool, bool, u128))
    ensures
        r == pool_info(*pool_state),
{
    match pool_state {
        ParsedPoolState::DLMM { state } => (false, false, true, state.price),
        ParsedPoolState::CLMM { state } => (false, true, false, state.price),
        ParsedPoolState::WHIRLPOOL { state } => (true, false, false, state.price),
        ParsedPoolState::CPMM { state } => (false, false, false, state.price),
        ParsedPoolState::DAMMV2 { state } => (false, false, false, state.price),
        ParsedPoolState::PUMP { state } => (false, false, false, state.price),
        ParsedPoolState::RAYDIUM { state } => (false, false, false, state.price),
    }
}

/// The search's outcome for `amount` with `profit` and the token amounts.
pub open spec fn opt_result(
    buy: ParsedPoolState,
    mid: Option<MidPoolInfo>,
    sell: ParsedPoolState,
    two_hop: Option<TwoHopTokenInfo>,
    amount: u64,
    profit: u64,
    t1: u64,
    t2: u64,
    min_profit: u32,
) -> OptimizationResult {
    let ti = token_indices(mid, two_hop);
    OptimizationResult {
        optimal_wsol_amount: amount,
        total_wsol_out: (amount + min_profit) as u64,
        max_profit: profit,
        max_token1_amount_out: t1,
        max_token2_amount_out: t2,
        buy_pool_index: pool_index_of(buy),
        mid_pool_index: match mid {
            Some(m) => Some(pool_index_of(*m.pool_state)),
            None => None,
        },
        sell_pool_index: pool_index_of(sell),
        token1_mint_index: ti.0,
        token1_program_index: ti.1,
        token1_account_index: ti.2,
        token2_mint_index: ti.3,
        token2_program_index: ti.4,
        token2_account_index: ti.5,
        is_3hop: ti.6,
    }
}

/// The search for the best amount of wrapped SOL: `NoProfit` for a
/// balance under 100_000; the range runs from zero to a third of the
/// smaller of the two pools' most effective inputs (see `max_input_buy`,
/// `max_input_sell`, against each other's price); a first trade of at most
/// 100_000 must profit (else `NoProfit`), and when the range is that small
/// and the profit above `min_profit` it is the outcome. Otherwise a second
/// trade at a hundred-and-sixtieth of the range (when beyond the first)
/// moves the range's start there if it profits more, else ends the range
/// there with a finer precision (10_000 in place of 100_000) and a first
/// divisor of 8 for a range beyond 16_000_000 (else 5); the search (see
/// `search_run`) then runs, and its best profit must exceed `min_profit`
/// (else `NoProfit`). `None` where a step is not defined or the total
/// overflows.
#[verifier::opaque]
pub open spec fn optimal_outcome(
    buy: ParsedPoolState,
    mid: Option<MidPoolInfo>,
    sell: ParsedPoolState,
    max_wsol_balance: u64,
    accounts: Seq<AccountView>,
    max_profit_ratio: u128,
    min_profit: u32,
    two_hop: Option<TwoHopTokenInfo>,
    params: ArbitrageParams,
    mints: Seq<MintFeeInfo>,
    clock: ClockView,
) -> Option<Result<OptimizationResult, ErrorCode>> {
    if max_wsol_balance < 100_000 {
        Some(Err(ErrorCode::NoProfit))
    } else {
        match max_input_buy(buy, max_profit_ratio, bins_view(params.buy_ordered_bins), accounts, price_of(sell)) {
            None => None,
            Some(Err(e)) => Some(Err(e)),
            Some(Ok(mb)) => match max_input_sell(sell, max_profit_ratio, bins_view(params.sell_ordered_bins), accounts, price_of(buy)) {
                None => None,
                Some(Err(e)) => Some(Err(e)),
                Some(Ok(ms)) => {
                    let right0: u64 = ((if mb < ms { mb } else { ms }) / 3) as u64;
                    let tp: u64 = if 100_000 < right0 { 100_000 } else { right0 };
                    match arb_profit(buy, mid, sell, tp, params, mints, clock, two_hop) {
                        None => None,
                        Some(Err(e)) => Some(Err(e)),
                        Some(Ok((p, t1, t2))) => if p <= 0 {
                            Some(Err(ErrorCode::NoProfit))
                        } else if right0 <= 100_000 && p > min_profit {
                            if tp + min_profit > u64::MAX {
                                None
                            } else {
                                Some(Ok(opt_result(buy, mid, sell, two_hop, tp, p as u64, t1, t2, min_profit)))
                            }
                        } else {
                            let tp2: u64 = (right0 / 160) as u64;
                            let start: Option<Result<(u64, u64, u64, u64, (i64, u64, u64, u64)), ErrorCode>> = if tp < tp2 {
                                match arb_profit(buy, mid, sell, tp2, params, mints, clock, two_hop) {
                                    None => None,
                                    Some(Err(e)) => Some(Err(e)),
                                    Some(Ok((p2, a2, b2))) => if p2 > p {
                                        Some(Ok((tp2, right0, 100_000u64, 5u64, (p2, tp2, a2, b2))))
                                    } else {
                                        Some(Ok((0u64, tp2, 10_000u64, if tp2 > 16_000_000 { 8u64 } else { 5u64 }, (p, tp, t1, t2))))
                                    },
                                }
                            } else {
                                Some(Ok((0u64, right0, 100_000u64, 5u64, (p, tp, t1, t2))))
                            };
                            match start {
                                None => None,
                                Some(Err(e)) => Some(Err(e)),
                                Some(Ok((l, r, prec, fd, best))) => match search_run(buy, mid, sell, params, mints, clock, two_hop, l, r, prec, fd, 0, best) {
                                    None => None,
                                    Some(Err(e)) => Some(Err(e)),
                                    Some(Ok((fp, fa, f1, f2))) => if fp <= min_profit {
                                        Some(Err(ErrorCode::NoProfit))
                                    } else if fa + min_profit > u64::MAX {
                                        None
                                    } else {
                                        Some(Ok(opt_result(buy, mid, sell, two_hop, fa, fp as u64, f1, f2, min_profit)))
                                    },
                                },
                            }
                        },
                    }
                },
            },
        }
    }
}

/// The search for the best amount of wrapped SOL; see `optimal_outcome`.
pub fn find_optimal_wsol_amount_golden_section(
    buy_pool_state: &ParsedPoolState,
    mid_pool_info: Option<&MidPoolInfo>,
    sell_pool_state: &ParsedPoolState,
    max_wsol_balance: u64,
    accounts: &Vec<AccountView>,
    max_profit_ratio: u128,
    min_profit: u32,
    two_hop_token_info: Option<&TwoHopTokenInfo>,
    arbitrage_params: &ArbitrageParams,
    mint_infos: &Vec<MintFeeInfo>,
    clock: &ClockView,
) -> (r: Result<OptimizationResult, ErrorCode>)
    requires
        optimal_outcome(
            *buy_pool_state,
            opt_mid(mid_pool_info),
            *sell_pool_state,
            max_wsol_balance,
            accounts@,
            max_profit_ratio,
            min_profit,
            opt_two_hop(two_hop_token_info),
            *arbitrage_params,
            mint_infos@,
            *clock,
        ) is Some,
    ensures
        Some(r) == optimal_outcome(
            *buy_pool_state,
            opt_mid(mid_pool_info),
            *sell_pool_state,
            max_wsol_balance,
            accounts@,
            max_profit_ratio,
            min_profit,
            opt_two_hop(two_hop_token_info),
            *arbitrage_params,
            mint_infos@,
            *clock,
        ),
        r matches Ok(o) ==> o.optimal_wsol_amount > 0,
{
    proof {
        law_optimal_amount_is_positive(
            *buy_pool_state,
            opt_mid(mid_pool_info),
            *sell_pool_state,
            max_wsol_balance,
            accounts@,
            max_profit_ratio,
            min_profit,
            opt_two_hop(two_hop_token_info),
            *arbitrage_params,
            mint_infos@,
            *clock,
        );
        reveal(optimal_outcome);
    }
    let mut precision: u64 = 100_000;
    if max_wsol_balance < precision {
        return Err(ErrorCode::NoProfit);
    }
    let (_, _, _, buy_pool_price) = extract_pool_info(buy_pool_state);
    let (_, _, _, sell_pool_price) = extract_pool_info(sell_pool_state);
    let max_effective_input_buy_wsol = get_max_effective_input_wsol_from_buy(
        buy_pool_state,
        max_profit_ratio,
        &arbitrage_params.buy_ordered_bins,
        accounts,
        sell_pool_price,
    )?;
    let max_effective_input_sell_wsol = get_max_effective_input_wsol_form_sell(
        sell_pool_state,
        max_profit_ratio,
        &arbitrage_params.sell_ordered_bins,
        accounts,
        buy_pool_price,
    )?;
    let mut left: u64 = 0;
    let smaller = if max_effective_input_buy_wsol < max_effective_input_sell_wsol {
        max_effective_input_buy_wsol
    } else {
        max_effective_input_sell_wsol
    };
    let mut right: u64 = smaller / 3;
    let test_point: u64 = if 100_000 < right {
        100_000
    } else {
        right
    };
    let (profit, token_amount_out, token2_amount_out) = calculate_arbitrage_profit_optimized(
        buy_pool_state,
        mid_pool_info,
        sell_pool_state,
        test_point,
        arbitrage_params,
        mint_infos,
        clock,
        two_hop_token_info,
    )?;
    if profit <= 0 {
        return Err(ErrorCode::NoProfit);
    }
    if right <= 100_000 && profit > min_profit as i64 {
        let (token1_mint_index, token1_program_index, token1_account_index, token2_mint_index, token2_program_index, token2_account_index, is_3hop) =
            extract_token_indices(mid_pool_info, two_hop_token_info);
        let mid_pool_index = match mid_pool_info {
            Some(m) => Some(m.pool_state.get_pool_index()),
            None => None,
        };
        return Ok(
            OptimizationResult {
                optimal_wsol_amount: test_point,
                max_profit: profit as u64,
                max_token1_amount_out: token_amount_out,
                max_token2_amount_out: token2_amount_out,
                total_wsol_out: test_point + min_profit as u64,
                buy_pool_index: buy_pool_state.get_pool_index(),
                mid_pool_index,
                sell_pool_index: sell_pool_state.get_pool_index(),
                token1_mint_index,
                token1_program_index,
                token1_account_index,
                token2_mint_index,
                token2_program_index,
                token2_account_index,
                is_3hop,
            },
        );
    }
    let mut first_denom: u64 = 5;
    let mut max_profit = profit;
    let mut best_amount = test_point;
    let mut max_token1_amount_out = token_amount_out;
    let mut max_token2_amount_out = token2_amount_out;
    let test_point2 = right / 160;
    if test_point < test_point2 {
        let (profit2, token_amount_out2, token2_amount_out2) = calculate_arbitrage_profit_optimized(
            buy_pool_state,
            mid_pool_info,
            sell_pool_state,
            test_point2,
            arbitrage_params,
            mint_infos,
            clock,
            two_hop_token_info,
        )?;
        if profit2 > profit {
            max_profit = profit2;
            best_amount = test_point2;
            max_token1_amount_out = token_amount_out2;
            max_token2_amount_out = token2_amount_out2;
            left = test_point2;
        } else {
            right = test_point2;
            if right > 16_000_000 {
                first_denom = 8;
            }
            precision = 10_000;
        }
    }
    let (final_max_profit, final_best_amount, final_max_token1_amount_out, final_max_token2_amount_out) = binary_search_optimal_amount(
        buy_pool_state,
        mid_pool_info,
        sell_pool_state,
        arbitrage_params,
        mint_infos,
        clock,
        left,
        right,
        precision,
        first_denom,
        max_profit,
        best_amount,
        max_token1_amount_out,
        max_token2_amount_out,
        two_hop_token_info,
    )?;
    if final_max_profit <= min_profit as i64 {
        return Err(ErrorCode::NoProfit);
    }
    let (token1_mint_index, token1_program_index, token1_account_index, token2_mint_index, token2_program_index, token2_account_index, is_3hop) =
        extract_token_indices(mid_pool_info, two_hop_token_info);
    let mid_pool_index = match mid_pool_info {
        Some(m) => Some(m.pool_state.get_pool_index()),
        None => None,
    };
    Ok(
        OptimizationResult {
            optimal_wsol_amount: final_best_amount,
            max_profit: final_max_profit as u64,
            max_token1_amount_out: final_max_token1_amount_out,
            max_token2_amount_out: final_max_token2_amount_out,
            total_wsol_out: final_best_amount + min_profit as u64,
            buy_pool_index: buy_pool_state.get_pool_index(),
            mid_pool_index,
            sell_pool_index: sell_pool_state.get_pool_index(),
            token1_mint_index,
            token1_program_index,
            token1_account_index,
            token2_mint_index,
            token2_program_index,
            token2_account_index,
            is_3hop,
        },
    )
}

/// A trade of nothing makes no profit.
proof fn lemma_no_amount_no_profit(
    buy: ParsedPoolState,
    mid: Option<MidPoolInfo>,
    sell: ParsedPoolState,
    params: ArbitrageParams,
    mints: Seq<MintFeeInfo>,
    clock: ClockView,
    two_hop: Option<TwoHopTokenInfo>,
)
    ensures
        arb_profit(buy, mid, sell, 0, params, mints, clock, two_hop) == Some(Ok::<(i64, u64, u64), ErrorCode>((0, 0, 0))),
{
    reveal(arb_profit);
}

/// The amount search keeps a best trade of positive profit and amount.
proof fn lemma_search_keeps_positive(
    buy: ParsedPoolState,
    mid: Option<MidPoolInfo>,
    sell: ParsedPoolState,
    params: ArbitrageParams,
    mints: Seq<MintFeeInfo>,
    clock: ClockView,
    two_hop: Option<TwoHopTokenInfo>,
    left: u64,
    right: u64,
    precision: u64,
    first_denom: u64,
    it: u8,
    best: (i64, u64, u64, u64),
)
    requires
        best.0 > 0,
        best.1 > 0,
    ensures
        search_run(buy, mid, sell, params, mints, clock, two_hop, left, right, precision, first_denom, it, best) matches Some(Ok(f))
            ==> f.0 > 0 && f.1 > 0,
    decreases (if search_rounds(mid) > it { search_rounds(mid) - it } else { 0 }),
{
    if right >= left && right - left > precision && it < search_rounds(mid) && left + right <= u64::MAX && !(it == 0
        && first_denom == 0) {
        let amount: u64 = if it == 0 {
            ((left + right) / (first_denom as int)) as u64
        } else {
            ((left + right) / 2) as u64
        };
        lemma_no_amount_no_profit(buy, mid, sell, params, mints, clock, two_hop);
        match arb_profit(buy, mid, sell, amount, params, mints, clock, two_hop) {
            Some(Ok((p, t1, t2))) => {
                let best2 = if p > best.0 {
                    (p, amount, t1, t2)
                } else {
                    best
                };
                let (l2, r2) = if p < 0 || amount > best2.1 {
                    (left, amount)
                } else {
                    (amount, right)
                };
                lemma_search_keeps_positive(buy, mid, sell, params, mints, clock, two_hop, l2, r2, precision, first_denom, (it + 1) as u8, best2);
            },
            _ => {},
        }
    }
}

/// The amount the search settles on is never zero: a trade of nothing
/// makes no profit, and the search only keeps a profitable one.
pub proof fn law_optimal_amount_is_positive(
    buy: ParsedPoolState,
    mid: Option<MidPoolInfo>,
    sell: ParsedPoolState,
    max_wsol_balance: u64,
    accounts: Seq<AccountView>,
    max_profit_ratio: u128,
    min_profit: u32,
    two_hop: Option<TwoHopTokenInfo>,
    params: ArbitrageParams,
    mints: Seq<MintFeeInfo>,
    clock: ClockView,
)
    ensures
        optimal_outcome(buy, mid, sell, max_wsol_balance, accounts, max_profit_ratio, min_profit, two_hop, params, mints, clock) matches Some(
            Ok(o),
        ) ==> o.optimal_wsol_amount > 0,
{
    reveal(optimal_outcome);
    lemma_no_amount_no_profit(buy, mid, sell, params, mints, clock, two_hop);
    if max_wsol_balance >= 100_000 {
        match max_input_buy(buy, max_profit_ratio, bins_view(params.buy_ordered_bins), accounts, price_of(sell)) {
            Some(Ok(mb)) => match max_input_sell(sell, max_profit_ratio, bins_view(params.sell_ordered_bins), accounts, price_of(buy)) {
                Some(Ok(ms)) => {
                    let right0: u64 = ((if mb < ms { mb } else { ms }) / 3) as u64;
                    let tp: u64 = if 100_000 < right0 { 100_000 } else { right0 };
                    match arb_profit(buy, mid, sell, tp, params, mints, clock, two_hop) {
                        Some(Ok((p, t1, t2))) => if p > 0 && !(right0 <= 100_000 && p > min_profit) {
                            let tp2: u64 = (right0 / 160) as u64;
                            if tp < tp2 {
                                match arb_profit(buy, mid, sell, tp2, params, mints, clock, two_hop) {
                                    Some(Ok((p2, a2, b2))) => if p2 > p {
                                        lemma_search_keeps_positive(buy, mid, sell, params, mints, clock, two_hop, tp2, right0, 100_000, 5, 0, (p2, tp2, a2, b2));
                                    } else {
                                        lemma_search_keeps_positive(buy, mid, sell, params, mints, clock, two_hop, 0, tp2, 10_000, if tp2 > 16_000_000 { 8 } else { 5 }, 0, (p, tp, t1, t2));
                                    },
                                    _ => {},
                                }
                            } else {
                                lemma_search_keeps_positive(buy, mid, sell, params, mints, clock, two_hop, 0, right0, 100_000, 5, 0, (p, tp, t1, t2));
                            }
                        },
                        _ => {},
                    }
                },
                _ => {},
            },
            _ => {},
        }
    }
}

} // verus!
