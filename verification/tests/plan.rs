use second_anchor::bytes::AccountView;
use second_anchor::clmm::{clmm_quote_exact_input_wsol, ClmmParams, ClmmPoolState};
use second_anchor::comparison::{GlobalArbitrageAnalysis, ParsedPoolState, TwoHopTokenInfo};
use second_anchor::cpmm::CpmmPoolState;
use second_anchor::entry::{calculate_optimal_wsol_amount, check_request, settle_without_trade};
use second_anchor::errors::ErrorCode;
use second_anchor::optimalamt::{find_optimal_wsol_amount_golden_section, sqrt_limit, ArbitrageParams, ClockView, OptimizationResult};
use second_anchor::params::{get_clmm_params, get_ordered_bins_for_pools, get_whirlpool_params, prepare_arbitrage_params};
use second_anchor::pools::{CLMM_PROGRAM_ID, WHIRLPOOL_PROGRAM_ID, WSOL_MINT};
use second_anchor::raydium::RaydiumPoolState;
use second_anchor::swap_plan::{
    arbitrage_real_profit, build_clmm_swap_instruction_data, build_whirlpool_swap_instruction_data, cpmm_swap_data, cpmm_vaults,
    get_valid_bin_arrays, meteora_swap_data, pump_buy_data, pump_sell_data, raydium_swap_data, sell_token_indices,
    token_account_amount, whirlpool_a_to_b, CPMM_SWAP_BASE_INPUT_DISCRIMINATOR, METEORA_SWAP_DISCRIMINATOR,
    PUMP_BUY_DISCRIMINATOR, PUMP_SELL_DISCRIMINATOR, SWAP_V2_DISCRIMINATOR,
};
use second_anchor::swap_plan::{clmm_input_vaults, clmm_vaults, cpmm_input_vaults};
use second_anchor::token_fee::{MintFeeInfo, TOKEN_PROGRAM_ID};
use second_anchor::wide::Rounding;
use second_anchor::whirlpool::WhirlpoolPoolState;

const Q64: u128 = 1u128 << 64;

fn expected(discriminator: &[u8], a: u64, b: u64) -> Vec<u8> {
    let mut v = discriminator.to_vec();
    v.extend_from_slice(&a.to_le_bytes());
    v.extend_from_slice(&b.to_le_bytes());
    v
}

fn account(key: u8, owner: [u8; 32], len: usize) -> AccountView {
    AccountView { key: [key; 32], owner, data: vec![0u8; len] }
}

fn raydium(pool_index: usize, base_reserve: u64, quote_reserve: u64) -> RaydiumPoolState {
    RaydiumPoolState {
        program_id_index: 0,
        event_authority_index: 0,
        pool_index,
        base_vault_index: 0,
        quote_vault_index: 0,
        base_mint: WSOL_MINT,
        quote_mint: [5u8; 32],
        base_reserve,
        quote_reserve,
        trade_fee_rate: 2500,
        swap_fee_numerator: 25,
        swap_fee_denominator: 10_000,
        base_need_take_pnl: 0,
        quote_need_take_pnl: 0,
        price: 0,
        has_wsol_pool: true,
    }
}

fn cpmm(token0_mint: [u8; 32]) -> CpmmPoolState {
    CpmmPoolState {
        program_id_index: 0,
        pool_index: 1,
        authority_index: 2,
        observation_state_index: 3,
        config_index: 4,
        token0_vault_index: 5,
        token1_vault_index: 6,
        token0_reserve: 0,
        token1_reserve: 0,
        token0_mint,
        token1_mint: [7u8; 32],
        trade_fee_rate: 0,
        creator_fee_rate: 0,
        price: 0,
        enable_creator_fee: false,
        creator_fee_on: 0,
        protocol_fees_token_0: 0,
        protocol_fees_token_1: 0,
        fund_fees_token_0: 0,
        fund_fees_token_1: 0,
        creator_fees_token_0: 0,
        creator_fees_token_1: 0,
        total_fee_rate: 0,
    }
}

fn whirlpool(mint_b: [u8; 32]) -> WhirlpoolPoolState {
    WhirlpoolPoolState {
        program_id_index: 0,
        pool_index: 0,
        oracle_index: 3,
        vault_a_index: 0,
        vault_b_index: 0,
        tick_array_0_index: 0,
        tick_array_1_index: 1,
        tick_array_2_index: 2,
        token_mint_a: [4u8; 32],
        token_mint_b: mint_b,
        sqrt_price: Q64,
        tick_spacing: 64,
        tick_current_index: 0,
        liquidity: 1_000_000,
        trade_fee_rate: 3000,
        price: 0,
    }
}

fn clmm(pool_index: usize) -> ClmmPoolState {
    ClmmPoolState {
        program_id_index: 0,
        pool_index,
        amm_config_index: 0,
        observation_key_index: 0,
        token_vault_0_index: 0,
        token_vault_1_index: 0,
        tick_array_minus_1_index: 0,
        tick_array_0_index: 1,
        tick_array_1_index: 2,
        bitmap_extension_index: 3,
        token_mint_0: [4u8; 32],
        token_mint_1: WSOL_MINT,
        sqrt_price_x64: Q64,
        tick_current: 0,
        tick_spacing: 60,
        liquidity: 1_000_000,
        trade_fee_rate: 2500,
        price: Q64,
    }
}

fn result(is_3hop: bool) -> OptimizationResult {
    OptimizationResult {
        optimal_wsol_amount: 1,
        total_wsol_out: 2,
        max_profit: 1,
        max_token1_amount_out: 3,
        max_token2_amount_out: 4,
        buy_pool_index: 0,
        mid_pool_index: None,
        sell_pool_index: 1,
        token1_mint_index: 10,
        token1_program_index: 11,
        token1_account_index: 12,
        token2_mint_index: Some(20),
        token2_program_index: Some(21),
        token2_account_index: Some(22),
        is_3hop,
    }
}

#[test]
fn swap_instruction_data_bytes() {
    assert_eq!(cpmm_swap_data(5), expected(&CPMM_SWAP_BASE_INPUT_DISCRIMINATOR, 5, 0));
    assert_eq!(meteora_swap_data(1_000_000_000), expected(&METEORA_SWAP_DISCRIMINATOR, 1_000_000_000, 0));
    assert_eq!(raydium_swap_data(258), vec![9, 2, 1, 0, 0, 0, 0, 0, 0, 0, 0, 0, 0, 0, 0, 0, 0]);
    assert_eq!(pump_buy_data(7, u64::MAX), expected(&PUMP_BUY_DISCRIMINATOR, 7, u64::MAX));
    assert_eq!(pump_sell_data(9, 3), expected(&PUMP_SELL_DISCRIMINATOR, 9, 3));
}

#[test]
fn concentrated_swap_instruction_data() {
    let mut clmm = expected(&SWAP_V2_DISCRIMINATOR, 42, 0);
    clmm.extend_from_slice(&0u128.to_le_bytes());
    clmm.push(1);
    assert_eq!(build_clmm_swap_instruction_data(42), clmm);
    assert_eq!(build_clmm_swap_instruction_data(42).len(), 41);
    let mut wp = expected(&SWAP_V2_DISCRIMINATOR, 42, 0);
    wp.extend_from_slice(&0u128.to_le_bytes());
    wp.extend_from_slice(&[1, 1, 0]);
    assert_eq!(build_whirlpool_swap_instruction_data(42, true), wp);
    let last = build_whirlpool_swap_instruction_data(42, false);
    assert_eq!(last[41], 0);
    assert_eq!(last.len(), 43);
}

#[test]
fn whirlpool_direction() {
    assert!(whirlpool_a_to_b(true, true));
    assert!(!whirlpool_a_to_b(true, false));
    assert!(!whirlpool_a_to_b(false, true));
    assert!(whirlpool_a_to_b(false, false));
}

#[test]
fn cpmm_vaults_follow_wsol() {
    assert_eq!(cpmm_vaults(&cpmm(WSOL_MINT), true), (5, 6));
    assert_eq!(cpmm_vaults(&cpmm(WSOL_MINT), false), (6, 5));
    assert_eq!(cpmm_vaults(&cpmm([8u8; 32]), true), (6, 5));
    assert_eq!(cpmm_vaults(&cpmm([8u8; 32]), false), (5, 6));
}

#[test]
fn sell_token_positions() {
    assert_eq!(sell_token_indices(&result(false)), (10, 11, 12));
    assert_eq!(sell_token_indices(&result(true)), (20, 21, 22));
}

#[test]
fn real_profit_after_swaps() {
    assert_eq!(arbitrage_real_profit(1_000, 900, 10), Ok(90));
    assert_eq!(arbitrage_real_profit(914, 900, 10), Err(ErrorCode::NoProfit));
    assert_eq!(arbitrage_real_profit(915, 900, 10), Ok(5));
    assert_eq!(arbitrage_real_profit(800, 900, 0), Err(ErrorCode::NoProfit));
}

#[test]
fn token_account_amount_at_byte_64() {
    let mut data = vec![0u8; 165];
    data[64..72].copy_from_slice(&123_456_789u64.to_le_bytes());
    assert_eq!(token_account_amount(&data), 123_456_789);
}

#[test]
fn valid_bin_arrays_are_owned_by_the_program() {
    let program = [3u8; 32];
    let accounts = vec![
        account(3, [0u8; 32], 0),
        account(1, program, 10),
        account(2, [9u8; 32], 10),
        account(4, program, 10),
    ];
    assert_eq!(get_valid_bin_arrays(&accounts, &vec![1, 2, 3], 0), vec![1, 3]);
    assert_eq!(get_valid_bin_arrays(&accounts, &vec![2], 0), Vec::<usize>::new());
    assert_eq!(get_valid_bin_arrays(&accounts, &vec![3, 1, 3], 0), vec![3, 1, 3]);
}

#[test]
fn request_checks() {
    assert_eq!(check_request(1, 0, 3), Err(ErrorCode::ZeroAmountInput));
    assert_eq!(check_request(1, 0, 0), Err(ErrorCode::ZeroAmountInput));
    assert_eq!(check_request(0, 0, 0), Err(ErrorCode::NoValidMintFound));
    assert_eq!(check_request(1, 5, 2), Ok(()));
    assert_eq!(settle_without_trade(1, ErrorCode::NoProfit), Err(ErrorCode::NoProfit));
    assert_eq!(settle_without_trade(0, ErrorCode::NoProfit), Ok(()));
}

#[test]
fn sqrt_limits() {
    // sqrt(4 * 2^64) = 2 * 2^32, shifted to Q64.64: 2^65
    assert_eq!(sqrt_limit(4 * Q64, false, Rounding::Down), 2 * Q64);
    // inverted: 2^128 / 2^65 = 2^63
    assert_eq!(sqrt_limit(4 * Q64, true, Rounding::Down), Q64 / 2);
    // 2^128 / 3 * 2^32 rounds differently up and down
    let q = 3u128 << 32;
    let down = sqrt_limit(9, true, Rounding::Down);
    let up = sqrt_limit(9, true, Rounding::Up);
    assert_eq!(up, down + 1);
    assert_eq!(down, u128::MAX / q);
}

#[test]
fn whirlpool_params_read_accounts() {
    let accounts = vec![
        account(0, [1u8; 32], 10),
        account(1, [1u8; 32], 10),
        account(2, [1u8; 32], 10),
        account(3, [1u8; 32], 0),
    ];
    let buy = ParsedPoolState::WHIRLPOOL { state: whirlpool(WSOL_MINT) };
    let sell = ParsedPoolState::RAYDIUM { state: raydium(0, 1, 1) };
    let (b, m, s) = get_whirlpool_params(&accounts, &buy, None, &sell, 0, 4 * Q64).unwrap();
    let b = b.unwrap();
    assert!(m.is_none());
    assert!(s.is_none());
    assert_eq!(b.sqrt_price_limit, 2 * Q64);
    assert!(b.tick_arrays.is_empty());
    assert!(b.oracle_info.is_none());
    let buy_inverted = ParsedPoolState::WHIRLPOOL { state: whirlpool([6u8; 32]) };
    let (b2, _, _) = get_whirlpool_params(&accounts, &buy_inverted, None, &sell, 0, 4 * Q64).unwrap();
    assert_eq!(b2.unwrap().sqrt_price_limit, Q64 / 2);
    let (b3, _, s3) = get_whirlpool_params(&accounts, &sell, None, &buy, 4 * Q64, 0).unwrap();
    assert!(b3.is_none());
    assert_eq!(s3.unwrap().sqrt_price_limit, 2 * Q64);
    let _ = WHIRLPOOL_PROGRAM_ID;
}

#[test]
fn clmm_params_errors_and_bitmap() {
    let short_pool = vec![
        account(0, [1u8; 32], 10),
        account(1, [1u8; 32], 10),
        account(2, [1u8; 32], 10),
        account(3, [1u8; 32], 10),
        account(4, CLMM_PROGRAM_ID, 1000),
    ];
    let buy = ParsedPoolState::CLMM { state: clmm(4) };
    let sell = ParsedPoolState::RAYDIUM { state: raydium(0, 1, 1) };
    assert_eq!(get_clmm_params(&short_pool, &buy, None, &sell, 0, 0).err(), Some(ErrorCode::InvalidAccountData));
    let mut short_ext = short_pool.clone();
    short_ext[3] = account(3, CLMM_PROGRAM_ID, 100);
    short_ext[4] = account(4, CLMM_PROGRAM_ID, 1032);
    assert_eq!(get_clmm_params(&short_ext, &buy, None, &sell, 0, 0).err(), Some(ErrorCode::InvalidAccountData));
    let mut good = short_pool.clone();
    let mut pool = account(4, CLMM_PROGRAM_ID, 1032);
    pool.data[904..912].copy_from_slice(&77u64.to_le_bytes());
    pool.data[1024..1032].copy_from_slice(&88u64.to_le_bytes());
    good[4] = pool;
    let (b, m, s) = get_clmm_params(&good, &buy, None, &sell, 0, 4 * Q64).unwrap();
    let b = b.unwrap();
    assert!(m.is_none() && s.is_none());
    assert_eq!(b.tick_array_bitmap[0], 77);
    assert_eq!(b.tick_array_bitmap[15], 88);
    assert_eq!(b.sqrt_price_limit_x64, 2 * Q64);
    assert!(b.bitmap_extension.is_none());
    assert!(b.tick_array_states.is_empty());
}

#[test]
fn no_bins_without_dlmm_pools() {
    let accounts = vec![account(0, [1u8; 32], 10)];
    let buy = ParsedPoolState::RAYDIUM { state: raydium(0, 1, 1) };
    let sell = ParsedPoolState::RAYDIUM { state: raydium(0, 1, 1) };
    let (b, m, s) = get_ordered_bins_for_pools(&accounts, &buy, None, &sell, 1, 2).unwrap();
    assert!(b.is_none() && m.is_none() && s.is_none());
    let p = prepare_arbitrage_params(&accounts, &buy, None, &sell).unwrap();
    assert!(p.buy_ordered_bins.is_none() && p.sell_clmm_params.is_none() && p.mid_whirlpool_params.is_none());
}

fn no_params() -> ArbitrageParams {
    ArbitrageParams {
        buy_ordered_bins: None,
        mid_ordered_bins: None,
        sell_ordered_bins: None,
        buy_clmm_params: None,
        mid_clmm_params: None,
        sell_clmm_params: None,
        buy_whirlpool_params: None,
        mid_whirlpool_params: None,
        sell_whirlpool_params: None,
    }
}

#[test]
fn optimal_amount_on_the_chosen_route() {
    let buy_state = ParsedPoolState::RAYDIUM { state: raydium(0, 1_000_000_000_000, 2_000_000_000_000) };
    let sell_state = ParsedPoolState::RAYDIUM { state: raydium(1, 1_000_000_000_000, 1_900_000_000_000) };
    let analysis = GlobalArbitrageAnalysis {
        max_profit_ratio: 1u128 << 62,
        buy_pool_state: Some(Box::new(buy_state)),
        mid_pool_state: None,
        sell_pool_state: Some(Box::new(sell_state)),
        two_hop_token_info: Some(TwoHopTokenInfo { token_mint_index: 2, token_program_index: 3, mint_token_account_index: 4 }),
    };
    let mut vault = vec![0u8; 165];
    vault[64..72].copy_from_slice(&1_000_000_000_000u64.to_le_bytes());
    let accounts = vec![
        AccountView { key: [1u8; 32], owner: [0u8; 32], data: vault.clone() },
        AccountView { key: [2u8; 32], owner: [0u8; 32], data: vault },
    ];
    let mints = vec![MintFeeInfo { owner: TOKEN_PROGRAM_ID, transfer_fee_config: None }; 5];
    let clock = ClockView { epoch: 0, slot: 0, unix_timestamp: 0 };
    let params = no_params();
    let direct = find_optimal_wsol_amount_golden_section(
        &buy_state,
        None,
        &sell_state,
        50_000,
        &accounts,
        1u128 << 62,
        0,
        analysis.two_hop_token_info.as_ref(),
        &params,
        &mints,
        &clock,
    );
    assert_eq!(direct.err(), Some(ErrorCode::NoProfit));
    let r = calculate_optimal_wsol_amount(&analysis, 50_000, &accounts, 0, &params, &mints, &clock);
    assert_eq!(r.err(), Some(ErrorCode::NoProfit));
}

#[test]
fn vaults_by_input_and_leg() {
    assert_eq!(cpmm_input_vaults(&cpmm([8u8; 32]), &[8u8; 32]), (5, 6));
    assert_eq!(cpmm_input_vaults(&cpmm([8u8; 32]), &[7u8; 32]), (6, 5));
    let mut c = clmm(4);
    c.token_vault_0_index = 7;
    c.token_vault_1_index = 9;
    assert_eq!(clmm_vaults(&c, true), (7, 9));
    assert_eq!(clmm_vaults(&c, false), (9, 7));
    assert_eq!(clmm_input_vaults(&c, &[4u8; 32]), (7, 9));
    assert_eq!(clmm_input_vaults(&c, &WSOL_MINT), (9, 7));
}

#[test]
fn clmm_zero_limit_is_the_range_end() {
    let mut pool = clmm(0);
    pool.sqrt_price_x64 = 79226673521066979257578248091;
    let mint = MintFeeInfo { owner: TOKEN_PROGRAM_ID, transfer_fee_config: None };
    let with_limit = |limit: u128| {
        Some(ClmmParams { tick_array_states: vec![], bitmap_extension: None, sqrt_price_limit_x64: limit, tick_array_bitmap: [0u64; 16] })
    };
    let zero = clmm_quote_exact_input_wsol(&pool, WSOL_MINT, 1_000, &mint, 0, &with_limit(0));
    let end = clmm_quote_exact_input_wsol(&pool, WSOL_MINT, 1_000, &mint, 0, &with_limit(79226673521066979257578248091));
    assert_eq!(zero, Err(ErrorCode::InvalidSqrtPriceLimit));
    assert_eq!(end, zero);
}
