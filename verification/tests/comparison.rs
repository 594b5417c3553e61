use second_anchor::comparison::{
    calculate_2hop_profit_factor, find_best_2hop_arbitrage, find_best_3hop_arbitrage, find_valid_3hop_paths,
    get_directional_price, get_pool_trade_direction, ParsedPoolState,
};
use second_anchor::cpmm::CpmmPoolState;
use second_anchor::pools::{PoolType, WSOL_MINT};

const Q64: u128 = 1u128 << 64;

fn cpmm(pool_index: usize, mint0: [u8; 32], mint1: [u8; 32], price: u128) -> ParsedPoolState {
    ParsedPoolState::CPMM {
        state: CpmmPoolState {
            program_id_index: 0,
            pool_index,
            authority_index: 0,
            observation_state_index: 0,
            config_index: 0,
            token0_vault_index: 0,
            token1_vault_index: 0,
            token0_reserve: 0,
            token1_reserve: 0,
            token0_mint: mint0,
            token1_mint: mint1,
            trade_fee_rate: 0,
            creator_fee_rate: 0,
            price,
            enable_creator_fee: false,
            creator_fee_on: 0,
            protocol_fees_token_0: 0,
            protocol_fees_token_1: 0,
            fund_fees_token_0: 0,
            fund_fees_token_1: 0,
            creator_fees_token_0: 0,
            creator_fees_token_1: 0,
            total_fee_rate: 0,
        },
    }
}

fn token(b: u8) -> [u8; 32] {
    [b; 32]
}

#[test]
fn pool_accessors() {
    let p = cpmm(7, WSOL_MINT, token(1), Q64);
    assert_eq!(p.get_pool_type(), Some(PoolType::CPMM));
    assert_eq!(p.get_pool_index(), 7);
    let (a, b, w) = p.get_pool_tokens();
    assert_eq!(a, WSOL_MINT);
    assert_eq!(b, token(1));
    assert!(w);
    let (_, _, w2) = cpmm(8, token(1), token(2), Q64).get_pool_tokens();
    assert!(!w2);
}

#[test]
fn two_hop_profit_factor() {
    assert_eq!(calculate_2hop_profit_factor(Q64, 2 * Q64, 0, 0), Some(2 * Q64));
    assert_eq!(calculate_2hop_profit_factor(Q64, 2 * Q64, Q64 / 2, 0), Some(Q64));
    assert_eq!(calculate_2hop_profit_factor(Q64, 2 * Q64, Q64 + 1, 0), None);
}

#[test]
fn two_hop_finds_the_best_pair() {
    let pools = vec![
        cpmm(10, WSOL_MINT, token(1), Q64),
        cpmm(11, WSOL_MINT, token(1), 2 * Q64),
        cpmm(12, WSOL_MINT, token(1), 3 * Q64),
    ];
    let data = vec![(Q64, 0u128), (2 * Q64, 0u128), (3 * Q64, 0u128)];
    let a = find_best_2hop_arbitrage(&data, &pools).unwrap();
    assert_eq!(a.max_profit_ratio, 2 * Q64);
    assert_eq!(a.buy_pool_state.unwrap().get_pool_index(), 10);
    assert_eq!(a.sell_pool_state.unwrap().get_pool_index(), 12);
    assert!(a.mid_pool_state.is_none());
}

#[test]
fn two_hop_finds_nothing_without_profit() {
    let pools = vec![cpmm(10, WSOL_MINT, token(1), Q64), cpmm(11, WSOL_MINT, token(1), Q64)];
    let data = vec![(Q64, 0u128), (Q64, 0u128)];
    let a = find_best_2hop_arbitrage(&data, &pools).unwrap();
    assert_eq!(a.max_profit_ratio, 0);
    assert!(a.buy_pool_state.is_none());
    assert!(a.sell_pool_state.is_none());
}

#[test]
fn directional_prices() {
    let p = cpmm(1, WSOL_MINT, token(1), 2 * Q64);
    assert_eq!(get_directional_price(&p, 2 * Q64, true, WSOL_MINT), Some(2 * Q64));
    assert_eq!(get_directional_price(&p, 2 * Q64, true, token(1)), Some(Q64 / 2));
    assert_eq!(get_directional_price(&p, 0, true, token(1)), None);
    let t = cpmm(2, token(1), token(2), 4 * Q64);
    assert_eq!(get_directional_price(&t, 4 * Q64, false, token(2)), Some(4 * Q64));
    assert_eq!(get_directional_price(&t, 4 * Q64, false, token(1)), Some(Q64 / 4));
    assert_eq!(get_directional_price(&t, 4 * Q64, false, token(3)), None);
    assert!(get_pool_trade_direction(&t, token(1)));
    assert!(!get_pool_trade_direction(&t, token(2)));
}

#[test]
fn three_hop_routes_are_found_in_order() {
    let pools = vec![
        cpmm(0, WSOL_MINT, token(1), Q64),
        cpmm(1, token(1), token(2), Q64),
        cpmm(2, token(2), WSOL_MINT, Q64),
    ];
    let paths = find_valid_3hop_paths(&pools).unwrap();
    assert_eq!(paths.len(), 2);
    assert_eq!(paths[0].wsol_to_token1_idx, 0);
    assert_eq!(paths[0].token1_to_token2_idx, 1);
    assert_eq!(paths[0].token2_to_wsol_idx, 2);
    assert_eq!(paths[0].token1_mint, token(1));
    assert_eq!(paths[0].token2_mint, token(2));
    assert_eq!(paths[1].wsol_to_token1_idx, 2);
    assert_eq!(paths[1].token2_to_wsol_idx, 0);
}

#[test]
fn three_hop_picks_the_profitable_route() {
    let pools = vec![
        cpmm(20, WSOL_MINT, token(1), Q64),
        cpmm(21, token(1), token(2), 2 * Q64),
        cpmm(22, token(2), WSOL_MINT, Q64),
    ];
    let data = vec![(Q64, 0u128), (2 * Q64, 0u128), (Q64, 0u128)];
    let a = find_best_3hop_arbitrage(&data, &pools).unwrap();
    assert_eq!(a.max_profit_ratio, Q64);
    assert_eq!(a.buy_pool_state.unwrap().get_pool_index(), 20);
    assert_eq!(a.mid_pool_state.unwrap().get_pool_index(), 21);
    assert_eq!(a.sell_pool_state.unwrap().get_pool_index(), 22);
    assert!(a.is_mid_a2b);
}
