use second_anchor::comparison::ParsedPoolState;
use second_anchor::optimalamt::{
    binary_search_optimal_amount, calculate_arbitrage_profit_optimized, extract_pool_info, extract_token_indices,
    ArbitrageParams, ClockView,
};
use second_anchor::comparison::TwoHopTokenInfo;
use second_anchor::errors::ErrorCode;
use second_anchor::pools::WSOL_MINT;
use second_anchor::raydium::{raydium_quote_exact_input_token, raydium_quote_exact_input_wsol, RaydiumPoolState};
use second_anchor::token_fee::{MintFeeInfo, TOKEN_PROGRAM_ID};

fn raydium(pool_index: usize, base_reserve: u64, quote_reserve: u64) -> RaydiumPoolState {
    RaydiumPoolState {
        program_id_index: 0,
        event_authority_index: 0,
        pool_index,
        base_vault_index: 0,
        quote_vault_index: 0,
        base_mint: WSOL_MINT,
        quote_mint: [5u8; 32],
        base_reserve,
        quote_reserve,
        trade_fee_rate: 2500,
        swap_fee_numerator: 25,
        swap_fee_denominator: 10_000,
        base_need_take_pnl: 0,
        quote_need_take_pnl: 0,
        price: 0,
        has_wsol_pool: true,
    }
}

fn no_params() -> ArbitrageParams {
    ArbitrageParams {
        buy_ordered_bins: None,
        mid_ordered_bins: None,
        sell_ordered_bins: None,
        buy_clmm_params: None,
        mid_clmm_params: None,
        sell_clmm_params: None,
        buy_whirlpool_params: None,
        mid_whirlpool_params: None,
        sell_whirlpool_params: None,
    }
}

fn clock() -> ClockView {
    ClockView { epoch: 0, slot: 0, unix_timestamp: 0 }
}

#[test]
fn raydium_quotes() {
    let p = raydium(0, 1_000_000, 2_000_000);
    assert_eq!(raydium_quote_exact_input_wsol(&p, 10_000), Ok(19752));
    assert_eq!(raydium_quote_exact_input_token(&p, 10_000), Ok(4962));
    assert_eq!(raydium_quote_exact_input_wsol(&p, 0), Ok(0));
    let empty = raydium(0, 1_000_000, 0);
    assert_eq!(raydium_quote_exact_input_wsol(&empty, 10_000), Err(ErrorCode::ZeroLiquidity));
}

#[test]
fn profit_of_a_round_trip() {
    let buy = ParsedPoolState::RAYDIUM { state: raydium(1, 1_000_000, 2_000_000) };
    let sell = ParsedPoolState::RAYDIUM { state: raydium(2, 1_000_000, 4_000_000) };
    let mints = vec![MintFeeInfo { owner: TOKEN_PROGRAM_ID, transfer_fee_config: None }];
    let info = TwoHopTokenInfo { token_mint_index: 0, token_program_index: 0, mint_token_account_index: 0 };
    let (profit, out, out2) =
        calculate_arbitrage_profit_optimized(&buy, None, &sell, 10_000, &no_params(), &mints, &clock(), Some(&info)).unwrap();
    assert_eq!(out, 19752);
    assert_eq!(out2, 0);
    let fee = (19752u64 * 25 + 9_999) / 10_000;
    let after = 19752 - fee;
    let back = after * 1_000_000 / (4_000_000 + after);
    assert_eq!(profit, back as i64 - 10_000);
    assert_eq!(
        calculate_arbitrage_profit_optimized(&buy, None, &sell, 10_000, &no_params(), &mints, &clock(), None),
        Err(ErrorCode::NoProfit)
    );
    assert_eq!(calculate_arbitrage_profit_optimized(&buy, None, &sell, 0, &no_params(), &mints, &clock(), None), Ok((0, 0, 0)));
}

#[test]
fn search_keeps_the_best_amount() {
    let buy = ParsedPoolState::RAYDIUM { state: raydium(1, 1_000_000_000, 2_000_000_000) };
    let sell = ParsedPoolState::RAYDIUM { state: raydium(2, 1_000_000_000, 1_000_000_000) };
    let mints = vec![MintFeeInfo { owner: TOKEN_PROGRAM_ID, transfer_fee_config: None }];
    let info = TwoHopTokenInfo { token_mint_index: 0, token_program_index: 0, mint_token_account_index: 0 };
    let (best_profit, best_amount, _, _) = binary_search_optimal_amount(
        &buy,
        None,
        &sell,
        &no_params(),
        &mints,
        &clock(),
        0,
        100_000_000,
        1_000,
        5,
        i64::MIN,
        0,
        0,
        0,
        Some(&info),
    )
    .unwrap();
    let (p, _, _) =
        calculate_arbitrage_profit_optimized(&buy, None, &sell, best_amount, &no_params(), &mints, &clock(), Some(&info)).unwrap();
    assert_eq!(p, best_profit);
    assert!(best_amount > 0);
}

#[test]
fn token_indices_and_pool_info() {
    let info = TwoHopTokenInfo { token_mint_index: 3, token_program_index: 4, mint_token_account_index: 5 };
    assert_eq!(extract_token_indices(None, Some(&info)), (3, 4, 5, None, None, None, false));
    assert_eq!(extract_token_indices(None, None), (0, 0, 0, None, None, None, false));
    let p = ParsedPoolState::RAYDIUM { state: raydium(1, 1, 1) };
    assert_eq!(extract_pool_info(&p), (false, false, false, 0));
}
