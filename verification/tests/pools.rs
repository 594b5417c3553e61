use second_anchor::bytes::AccountView;
use second_anchor::comparison::{analyze_global_arbitrage_opportunities, analyze_global_checked, parse_pool_checked, parse_pool_with_state, pool_data_ready, ParsedPoolState};
use second_anchor::pools::{PoolData, TokenPoolGroup};
use second_anchor::dammv2::Dammv2PoolState;
use second_anchor::dlmm::calculate_bin_price;
use second_anchor::errors::ErrorCode;
use second_anchor::optimalamt::{dammv2_current_point, ClockView};
use second_anchor::pools::{get_pool_type, PoolType, WHIRLPOOL_PROGRAM_ID, WSOL_MINT};
use second_anchor::pump::{is_pump_pool, PUMP_FUN_PROGRAM_ID};
use second_anchor::token_fee::{
    get_transfer_fee, is_token_2022, MintFeeInfo, TransferFeeConfigView, TransferFeeView, TOKEN_2022_PROGRAM_ID,
    TOKEN_PROGRAM_ID,
};
use second_anchor::whirlpool::{
    calculate_whirlpool_price, parse_whirlpool_oracle_adaptive_fee, parse_whirlpool_pool_data,
    parse_whirlpool_tick_arrays_three, whirlpool_quote_exact_input_token, whirlpool_quote_exact_input_wsol,
    whirlpool_swap_internal, WhirlpoolParams, WhirlpoolPoolState, FIXED_TICK_ARRAY_DISCRIMINATOR, SYSTEM_PROGRAM_ID,
};

const Q64: u128 = 1u128 << 64;

fn whirlpool_state(mint_a: [u8; 32], mint_b: [u8; 32], sqrt_price: u128, liquidity: u128) -> WhirlpoolPoolState {
    WhirlpoolPoolState {
        program_id_index: 0,
        pool_index: 0,
        oracle_index: 0,
        vault_a_index: 0,
        vault_b_index: 0,
        tick_array_0_index: 0,
        tick_array_1_index: 0,
        tick_array_2_index: 0,
        token_mint_a: mint_a,
        token_mint_b: mint_b,
        sqrt_price,
        tick_spacing: 64,
        tick_current_index: 0,
        liquidity,
        trade_fee_rate: 3000,
        price: 0,
    }
}

fn whirlpool_account(owner: [u8; 32], mint_a: [u8; 32], mint_b: [u8; 32]) -> AccountView {
    let mut data = vec![0u8; 653];
    data[41..43].copy_from_slice(&64u16.to_le_bytes());
    data[45..47].copy_from_slice(&3000u16.to_le_bytes());
    data[49..65].copy_from_slice(&7_000_000u128.to_le_bytes());
    data[65..81].copy_from_slice(&Q64.to_le_bytes());
    data[81..85].copy_from_slice(&(-5i32).to_le_bytes());
    data[101..133].copy_from_slice(&mint_a);
    data[181..213].copy_from_slice(&mint_b);
    AccountView { key: [9u8; 32], owner, data }
}

fn plain_mint() -> MintFeeInfo {
    MintFeeInfo { owner: TOKEN_PROGRAM_ID, transfer_fee_config: None }
}

#[test]
fn pool_type_of_program() {
    assert_eq!(get_pool_type(WHIRLPOOL_PROGRAM_ID), Ok(Some(PoolType::WHIRLPOOL)));
    assert_eq!(get_pool_type([3u8; 32]), Ok(None));
}

#[test]
fn whirlpool_pool_is_read() {
    let token = [5u8; 32];
    let accounts = vec![whirlpool_account(WHIRLPOOL_PROGRAM_ID, WSOL_MINT, token)];
    let mut state = whirlpool_state([0u8; 32], [0u8; 32], 0, 0);
    assert_eq!(parse_whirlpool_pool_data(&0, WSOL_MINT, token, &accounts, &mut state), Ok(()));
    assert_eq!(state.tick_spacing, 64);
    assert_eq!(state.trade_fee_rate, 3000);
    assert_eq!(state.liquidity, 7_000_000);
    assert_eq!(state.sqrt_price, Q64);
    assert_eq!(state.tick_current_index, -5);
    assert_eq!(state.token_mint_a, WSOL_MINT);
    assert_eq!(state.token_mint_b, token);
}

#[test]
fn whirlpool_pool_errors() {
    let token = [5u8; 32];
    let mut state = whirlpool_state([0u8; 32], [0u8; 32], 0, 0);
    let wrong_owner = vec![whirlpool_account([1u8; 32], WSOL_MINT, token)];
    assert_eq!(parse_whirlpool_pool_data(&0, WSOL_MINT, token, &wrong_owner, &mut state), Err(ErrorCode::InvalidPoolOwner));
    let no_wsol = vec![whirlpool_account(WHIRLPOOL_PROGRAM_ID, [6u8; 32], token)];
    assert_eq!(parse_whirlpool_pool_data(&0, WSOL_MINT, token, &no_wsol, &mut state), Err(ErrorCode::InvalidTokenPair));
    let other = vec![whirlpool_account(WHIRLPOOL_PROGRAM_ID, WSOL_MINT, [7u8; 32])];
    assert_eq!(parse_whirlpool_pool_data(&0, WSOL_MINT, token, &other, &mut state), Err(ErrorCode::TokenMismatch));
    assert_eq!(state.liquidity, 0);
}

#[test]
fn whirlpool_price_is_inverted_unless_b_is_wsol() {
    let mut s = whirlpool_state([5u8; 32], WSOL_MINT, 2 * Q64, 1);
    calculate_whirlpool_price(&mut s, WSOL_MINT).unwrap();
    assert_eq!(s.price, 4 * Q64);
    let mut t = whirlpool_state(WSOL_MINT, [5u8; 32], 2 * Q64, 1);
    calculate_whirlpool_price(&mut t, WSOL_MINT).unwrap();
    assert_eq!(t.price, Q64 / 4);
    let mut z = whirlpool_state(WSOL_MINT, [5u8; 32], 2 * Q64, 0);
    calculate_whirlpool_price(&mut z, WSOL_MINT).unwrap();
    assert_eq!(z.price, 0);
}

#[test]
fn whirlpool_oracle_is_read() {
    let empty = AccountView { key: [1u8; 32], owner: SYSTEM_PROGRAM_ID, data: vec![] };
    assert_eq!(parse_whirlpool_oracle_adaptive_fee(&empty).unwrap().is_none(), true);
    let mut data = vec![0u8; 264];
    data[48..50].copy_from_slice(&30u16.to_le_bytes());
    data[50..52].copy_from_slice(&600u16.to_le_bytes());
    data[56..60].copy_from_slice(&1500u32.to_le_bytes());
    data[64..66].copy_from_slice(&64u16.to_le_bytes());
    data[100..104].copy_from_slice(&(-3i32).to_le_bytes());
    let oracle = AccountView { key: [1u8; 32], owner: WHIRLPOOL_PROGRAM_ID, data };
    let info = parse_whirlpool_oracle_adaptive_fee(&oracle).unwrap().unwrap();
    assert_eq!(info.constants.filter_period, 30);
    assert_eq!(info.constants.decay_period, 600);
    assert_eq!(info.constants.adaptive_fee_control_factor, 1500);
    assert_eq!(info.constants.tick_group_size, 64);
    assert_eq!(info.variables.tick_group_index_reference, -3);
    let short = AccountView { key: [1u8; 32], owner: WHIRLPOOL_PROGRAM_ID, data: vec![0u8; 100] };
    assert!(parse_whirlpool_oracle_adaptive_fee(&short).unwrap().is_none());
}

#[test]
fn whirlpool_tick_arrays_keep_only_whirlpool_arrays() {
    let mut data = vec![0u8; 12];
    data[0..8].copy_from_slice(&FIXED_TICK_ARRAY_DISCRIMINATOR);
    let good = AccountView { key: [1u8; 32], owner: WHIRLPOOL_PROGRAM_ID, data: data.clone() };
    let foreign = AccountView { key: [2u8; 32], owner: [3u8; 32], data: data.clone() };
    let unknown = AccountView { key: [4u8; 32], owner: WHIRLPOOL_PROGRAM_ID, data: vec![1u8; 12] };
    let arrays = parse_whirlpool_tick_arrays_three(&good, &foreign, &unknown).unwrap();
    assert_eq!(arrays.len(), 1);
    assert_eq!(arrays[0].data, data);
}

#[test]
fn whirlpool_quotes_without_arrays_or_params() {
    let s = whirlpool_state(WSOL_MINT, [5u8; 32], Q64, 1_000_000);
    let none: Option<WhirlpoolParams> = None;
    assert_eq!(
        whirlpool_quote_exact_input_wsol(&s, WSOL_MINT, 1000, &plain_mint(), 0, &none, 0),
        Err(ErrorCode::InvalidClmmParams)
    );
    let empty = Some(WhirlpoolParams { tick_arrays: vec![], sqrt_price_limit: 0, oracle_info: Box::new(None) });
    assert_eq!(whirlpool_quote_exact_input_wsol(&s, WSOL_MINT, 1000, &plain_mint(), 0, &empty, 0), Ok(0));
    assert_eq!(whirlpool_quote_exact_input_token(&s, WSOL_MINT, 0, &plain_mint(), 0, &empty, 0), Ok(0));
}

#[test]
fn whirlpool_swap_refuses_a_limit_behind_the_price() {
    let s = whirlpool_state(WSOL_MINT, [5u8; 32], Q64, 1_000_000);
    assert_eq!(whirlpool_swap_internal(&s, &vec![], 1000, Q64, true, &None, 0).err(), Some(ErrorCode::InvalidSqrtPriceLimit));
    assert_eq!(whirlpool_swap_internal(&s, &vec![], 1000, Q64 - 1, false, &None, 0).err(), Some(ErrorCode::InvalidSqrtPriceLimit));
}

#[test]
fn transfer_fees() {
    assert_eq!(get_transfer_fee(&plain_mint(), 5, 1000), Ok(0));
    let schedule_old = TransferFeeView { epoch: 0, maximum_fee: 1_000_000, transfer_fee_basis_points: 100 };
    let schedule_new = TransferFeeView { epoch: 10, maximum_fee: 5, transfer_fee_basis_points: 500 };
    let mint = MintFeeInfo {
        owner: TOKEN_2022_PROGRAM_ID,
        transfer_fee_config: Some(TransferFeeConfigView { older_transfer_fee: schedule_old, newer_transfer_fee: schedule_new }),
    };
    assert_eq!(get_transfer_fee(&mint, 5, 1000), Ok(10));
    assert_eq!(get_transfer_fee(&mint, 5, 1001), Ok(11));
    assert_eq!(get_transfer_fee(&mint, 10, 1000), Ok(5));
    assert!(is_token_2022(TOKEN_2022_PROGRAM_ID));
    assert!(!is_token_2022(TOKEN_PROGRAM_ID));
}

#[test]
fn pump_pool_authority_is_derived() {
    let mint = [42u8; 32];
    let program = anchor_lang::prelude::Pubkey::new_from_array(PUMP_FUN_PROGRAM_ID);
    let (pda, _) = anchor_lang::prelude::Pubkey::find_program_address(&[b"pool-authority", mint.as_ref()], &program);
    assert!(is_pump_pool(&mint, &pda.to_bytes()));
    assert!(!is_pump_pool(&mint, &mint));
}

#[test]
fn dammv2_point_by_activation_type() {
    let clock = ClockView { epoch: 1, slot: 77, unix_timestamp: 1_700_000_000 };
    let mut s = Dammv2PoolState {
        program_id_index: 0,
        event_authority_index: 0,
        pool_authority_index: 0,
        pool_index: 0,
        token_a_vault_index: 0,
        token_b_vault_index: 0,
        token_a_mint: [0u8; 32],
        token_b_mint: [0u8; 32],
        sqrt_price: 0,
        cliff_fee_numerator: 0,
        fee_scheduler_mode: 0,
        number_of_period: 0,
        period_frequency: 0,
        reduction_factor: 0,
        liquidity: 0,
        collect_fee_mode: 0,
        dynamic_fee_initialized: 0,
        variable_fee_control: 0,
        bin_step: 0,
        volatility_accumulator: 0,
        activation_type: 0,
        activation_point: 0,
        total_fee_rate: 0,
        price: 0,
    };
    assert_eq!(dammv2_current_point(&s, &clock), Ok(77));
    s.activation_type = 1;
    assert_eq!(dammv2_current_point(&s, &clock), Ok(1_700_000_000));
    s.activation_type = 2;
    assert_eq!(dammv2_current_point(&s, &clock), Err(ErrorCode::InvalidActivationType));
}

#[test]
fn dlmm_bin_price_at_zero_is_one() {
    assert_eq!(calculate_bin_price(0, 25), Ok(Q64));
    assert_eq!(calculate_bin_price(1, 10_000), Ok(36893488147419103236));
}

fn whirlpool_entry() -> PoolData {
    PoolData::WHIRLPOOL {
        program_id_index: 0,
        pool_index: 0,
        oracle_index: 0,
        vault_a_index: 0,
        vault_b_index: 0,
        tick_array_0_index: 0,
        tick_array_1_index: 0,
        tick_array_2_index: 0,
    }
}

fn clock0() -> ClockView {
    ClockView { epoch: 0, slot: 0, unix_timestamp: 0 }
}

#[test]
fn pool_entry_is_read_and_priced() {
    let token = [5u8; 32];
    let accounts = vec![whirlpool_account(WHIRLPOOL_PROGRAM_ID, token, WSOL_MINT)];
    match parse_pool_with_state(&whirlpool_entry(), &accounts, false, WSOL_MINT, token, &clock0()) {
        Ok(ParsedPoolState::WHIRLPOOL { state }) => {
            assert_eq!(state.token_mint_a, token);
            assert_eq!(state.token_mint_b, WSOL_MINT);
            assert_eq!(state.liquidity, 7_000_000);
            assert_eq!(state.price, Q64);
        },
        _ => panic!("expected a Whirlpool pool"),
    }
    let wrong_owner = vec![whirlpool_account([1u8; 32], token, WSOL_MINT)];
    assert!(matches!(
        parse_pool_with_state(&whirlpool_entry(), &wrong_owner, false, WSOL_MINT, token, &clock0()),
        Err(ErrorCode::InvalidPoolOwner)
    ));
}

#[test]
fn one_pool_gives_no_trade() {
    let token = [5u8; 32];
    let mut accounts = vec![whirlpool_account(WHIRLPOOL_PROGRAM_ID, token, WSOL_MINT)];
    accounts.push(AccountView { key: token, owner: [0u8; 32], data: vec![] });
    let group = TokenPoolGroup {
        token_mint_index: 1,
        token_program_index: 1,
        mint_token_account_index: 1,
        pools: vec![whirlpool_entry()],
        is_3hop: false,
        token2_mint_index: None,
        token2_program_index: None,
        token2_mint_token_account_index: None,
    };
    let groups = vec![group];
    let a = analyze_global_arbitrage_opportunities(&groups, &accounts, false, &clock0()).unwrap();
    assert_eq!(a.max_profit_ratio, 0);
    assert!(a.buy_pool_state.is_none() && a.sell_pool_state.is_none() && a.two_hop_token_info.is_none());
    assert!(matches!(
        analyze_global_arbitrage_opportunities(&groups, &accounts, true, &clock0()),
        Err(ErrorCode::InvalidTokenPair)
    ));
}

#[test]
fn checked_search_refuses_what_cannot_be_searched() {
    let token = [5u8; 32];
    let mut accounts = vec![whirlpool_account(WHIRLPOOL_PROGRAM_ID, token, WSOL_MINT)];
    accounts.push(AccountView { key: token, owner: [0u8; 32], data: vec![] });
    assert!(pool_data_ready(&whirlpool_entry(), &accounts, false, WSOL_MINT, token, &clock0()));
    let two_hop = TokenPoolGroup {
        token_mint_index: 1,
        token_program_index: 1,
        mint_token_account_index: 1,
        pools: vec![whirlpool_entry()],
        is_3hop: false,
        token2_mint_index: None,
        token2_program_index: None,
        token2_mint_token_account_index: None,
    };
    let plain = analyze_global_arbitrage_opportunities(&vec![two_hop.clone()], &accounts, true, &clock0());
    let checked = analyze_global_checked(&vec![two_hop.clone()], &accounts, true, &clock0());
    assert!(matches!(plain, Err(ErrorCode::InvalidTokenPair)));
    assert!(matches!(checked, Some(Err(ErrorCode::InvalidTokenPair))));
    // A three-hop group, first in the list, without its second token's
    // positions cannot be searched.
    let lacking = TokenPoolGroup { token2_mint_index: Some(1), ..two_hop.clone() };
    assert!(analyze_global_checked(&vec![lacking, two_hop], &accounts, false, &clock0()).is_none());
}

#[test]
fn whirlpool_zero_limit_is_the_range_end() {
    let s = whirlpool_state(WSOL_MINT, [5u8; 32], 4295048016, 1_000_000);
    let zero = whirlpool_swap_internal(&s, &vec![], 1000, 0, true, &None, 0);
    let end = whirlpool_swap_internal(&s, &vec![], 1000, 4295048016, true, &None, 0);
    assert_eq!(zero.err(), Some(ErrorCode::InvalidSqrtPriceLimit));
    assert_eq!(end.err(), Some(ErrorCode::InvalidSqrtPriceLimit));
}

/// The accounts of a pump pool trading token `[7; 32]` against wrapped
/// SOL, with flat fees from its fee config (its creator is no pump.fun
/// authority), and the pool's entry.
fn pump_accounts(lp: u64, protocol: u64) -> (Vec<AccountView>, PoolData) {
    let mut pool = vec![0u8; 256];
    pool[11..43].copy_from_slice(&[1u8; 32]);
    pool[43..75].copy_from_slice(&[7u8; 32]);
    pool[75..107].copy_from_slice(&WSOL_MINT);
    let vault = |amount: u64| {
        let mut d = vec![0u8; 72];
        d[64..72].copy_from_slice(&amount.to_le_bytes());
        d
    };
    let mut config = vec![0u8; 65];
    config[41..49].copy_from_slice(&lp.to_le_bytes());
    config[49..57].copy_from_slice(&protocol.to_le_bytes());
    let mut mint = vec![0u8; 82];
    mint[36..44].copy_from_slice(&1_000_000_000u64.to_le_bytes());
    let accounts = vec![
        AccountView { key: [2u8; 32], owner: [0u8; 32], data: pool },
        AccountView { key: [3u8; 32], owner: [0u8; 32], data: vault(1_000_000) },
        AccountView { key: [4u8; 32], owner: [0u8; 32], data: vault(2_000_000) },
        AccountView { key: [5u8; 32], owner: [0u8; 32], data: config },
        AccountView { key: [7u8; 32], owner: [0u8; 32], data: mint },
    ];
    let entry = PoolData::PUMP {
        program_id_index: 0,
        pool_index: 0,
        global_config_index: 3,
        event_authority_index: 0,
        coin_creator_vault_ata_index: 0,
        coin_creator_vault_authority_index: 0,
        pump_fee_wallet_index: 0,
        pump_fee_wallet_ata_index: 0,
        global_vol_accumulator_index: 0,
        user_vol_accumulator_index: 0,
        system_program_index: 0,
        associated_token_program_index: 0,
        base_vault_index: 1,
        quote_vault_index: 2,
        fee_config_index: 3,
        fee_program_index: 0,
    };
    (accounts, entry)
}

#[test]
fn pump_fees_that_fit_only_as_a_sum() {
    let token = [7u8; 32];
    // The fees add up within 64 bits, but not a hundred times over.
    let (accounts, entry) = pump_accounts(u64::MAX / 2, u64::MAX / 4);
    assert!(pool_data_ready(&entry, &accounts, false, WSOL_MINT, token, &clock0()));
    match parse_pool_with_state(&entry, &accounts, false, WSOL_MINT, token, &clock0()) {
        Ok(ParsedPoolState::PUMP { state }) => {
            assert_eq!(state.trade_fee_rate, u64::MAX / 2 + u64::MAX / 4);
            assert_eq!(state.price, (2_000_000u128 << 64) / 1_000_000);
        },
        other => panic!("unexpected {:?}", other),
    }
    // One pool in its group: nothing is priced, so the search goes on.
    let group = TokenPoolGroup {
        token_mint_index: 4,
        token_program_index: 4,
        mint_token_account_index: 4,
        pools: vec![entry],
        is_3hop: false,
        token2_mint_index: None,
        token2_program_index: None,
        token2_mint_token_account_index: None,
    };
    let found = analyze_global_checked(&vec![group], &accounts, false, &clock0()).unwrap().unwrap();
    assert_eq!(found.max_profit_ratio, 0);
}

#[test]
fn pump_fees_whose_sum_overflows() {
    let token = [7u8; 32];
    let (accounts, entry) = pump_accounts(u64::MAX, 5);
    assert!(!pool_data_ready(&entry, &accounts, false, WSOL_MINT, token, &clock0()));
    assert!(parse_pool_checked(&entry, &accounts, false, WSOL_MINT, token, &clock0()).is_none());
    // A direct swap only reads the pool.
    assert!(pool_data_ready(&entry, &accounts, true, WSOL_MINT, token, &clock0()));
    match parse_pool_with_state(&entry, &accounts, true, WSOL_MINT, token, &clock0()) {
        Ok(ParsedPoolState::PUMP { state }) => assert_eq!(state.lp_fee_basis_points, u64::MAX),
        other => panic!("unexpected {:?}", other),
    }
}
