use vstd::prelude::*;

use crate::bytes::AccountView;
use crate::comparison::{GlobalArbitrageAnalysis, MidPoolInfo, ParsedPoolState};
use crate::errors::ErrorCode;
use crate::optimalamt::{find_optimal_wsol_amount_golden_section, optimal_outcome, ArbitrageParams, ClockView, OptimizationResult};
use crate::token_fee::MintFeeInfo;

verus! {

/// The checks the entry point makes before it reads the pools: a direct
/// swap needs a positive amount (`ZeroAmountInput`), and there must be at
/// least one token group (`NoValidMintFound`), in that order.
pub fn check_request(is_dir_swap: u8, amount_in: u64, group_count: usize) -> (r: Result<(), ErrorCode>)
    ensures
        r == (if is_dir_swap == 1 && amount_in == 0 {
            Err::<(), ErrorCode>(ErrorCode::ZeroAmountInput)
        } else if group_count == 0 {
            Err::<(), ErrorCode>(ErrorCode::NoValidMintFound)
        } else {
            Ok::<(), ErrorCode>(())
        }),
{
    if is_dir_swap == 1 && amount_in == 0 {
        return Err(ErrorCode::ZeroAmountInput);
    }
    if group_count == 0 {
        return Err(ErrorCode::NoValidMintFound);
    }
    Ok(())
}

/// How the entry point ends when it finds nothing to trade: with `error`
/// when asked to fail (`is_fail` is 1), else quietly.
pub fn settle_without_trade(is_fail: u8, error: ErrorCode) -> (r: Result<(), ErrorCode>)
    ensures
        r == (if is_fail == 1 {
            Err::<(), ErrorCode>(error)
        } else {
            Ok::<(), ErrorCode>(())
        }),
{
    if is_fail == 1 {
        Err(error)
    } else {
        Ok(())
    }
}

/// The middle pool an analysis chose, if any.
pub open spec fn analysis_mid(a: GlobalArbitrageAnalysis) -> Option<MidPoolInfo> {
    match a.mid_pool_state {
        Some(m) => Some(*m),
        None => None,
    }
}

/// The search for the best amount of wrapped SOL on the route an analysis
/// chose (see `optimal_outcome`), with the wrapped SOL balance as the most
/// that can be spent.
pub fn calculate_optimal_wsol_amount(
    analysis: &GlobalArbitrageAnalysis,
    wsol_balance: u64,
    accounts: &Vec<AccountView>,
    min_profit: u32,
    arbitrage_params: &ArbitrageParams,
    mint_infos: &Vec<MintFeeInfo>,
    clock: &ClockView,
) -> (r: Result<OptimizationResult, ErrorCode>)
    requires
        analysis.buy_pool_state is Some,
        analysis.sell_pool_state is Some,
        optimal_outcome(
            *analysis.buy_pool_state->0,
            analysis_mid(*analysis),
            *analysis.sell_pool_state->0,
            wsol_balance,
            accounts@,
            analysis.max_profit_ratio,
            min_profit,
            analysis.two_hop_token_info,
            *arbitrage_params,
            mint_infos@,
            *clock,
        ) is Some,
    ensures
        Some(r) == optimal_outcome(
            *analysis.buy_pool_state->0,
            analysis_mid(*analysis),
            *analysis.sell_pool_state->0,
            wsol_balance,
            accounts@,
            analysis.max_profit_ratio,
            min_profit,
            analysis.two_hop_token_info,
            *arbitrage_params,
            mint_infos@,
            *clock,
        ),
{
    let buy_pool_state: &ParsedPoolState = match &analysis.buy_pool_state {
        Some(b) => &**b,
        None => {
            return Err(ErrorCode::InvalidAccount);
        },
    };
    let sell_pool_state: &ParsedPoolState = match &analysis.sell_pool_state {
        Some(s) => &**s,
        None => {
            return Err(ErrorCode::InvalidAccount);
        },
    };
    let mid_pool_info: Option<&MidPoolInfo> = match &analysis.mid_pool_state {
        Some(m) => Some(&**m),
        None => None,
    };
    find_optimal_wsol_amount_golden_section(
        buy_pool_state,
        mid_pool_info,
        sell_pool_state,
        wsol_balance,
        accounts,
        analysis.max_profit_ratio,
        min_profit,
        analysis.two_hop_token_info.as_ref(),
        arbitrage_params,
        mint_infos,
        clock,
    )
}

} // verus!
