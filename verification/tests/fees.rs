use second_anchor::errors::ErrorCode;
use second_anchor::pump::{is_pump_pool, pump_buy_ready, pump_sell_ready, PumpPoolState};
use second_anchor::swap_plan::{pump_leg_buys, pump_sell_quote_ready, raydium_token_program, Leg, RaydiumTokenProgram};
use second_anchor::token_fee::{
    get_transfer_fee_from_data, mint_fee_is_defined, read_mint_fee_info, MintFeeInfo, TransferFeeConfigView, TransferFeeView,
    TOKEN_2022_PROGRAM_ID, TOKEN_PROGRAM_ID,
};

/// A Token-2022 mint's bytes: the base mint (initialized), then, when a
/// fee extension is given, the padding, the account type and the
/// transfer-fee extension.
fn mint_bytes(fees: Option<((u64, u64, u16), (u64, u64, u16))>) -> Vec<u8> {
    let mut d = vec![0u8; 82];
    d[45] = 1; // is_initialized
    if let Some((older, newer)) = fees {
        d.resize(165, 0);
        d.push(1); // account type: mint
        d.extend_from_slice(&1u16.to_le_bytes()); // transfer-fee config
        d.extend_from_slice(&108u16.to_le_bytes());
        d.extend_from_slice(&[0u8; 72]); // two authorities and the withheld amount
        for (epoch, max, bps) in [older, newer] {
            d.extend_from_slice(&epoch.to_le_bytes());
            d.extend_from_slice(&max.to_le_bytes());
            d.extend_from_slice(&bps.to_le_bytes());
        }
    }
    d
}

#[test]
fn mint_bytes_give_the_fee_schedules() {
    let data = mint_bytes(Some(((0, 1_000, 100), (10, 5_000, 200))));
    let info = read_mint_fee_info(TOKEN_2022_PROGRAM_ID, &data).unwrap();
    assert_eq!(
        info.transfer_fee_config,
        Some(TransferFeeConfigView {
            older_transfer_fee: TransferFeeView { epoch: 0, maximum_fee: 1_000, transfer_fee_basis_points: 100 },
            newer_transfer_fee: TransferFeeView { epoch: 10, maximum_fee: 5_000, transfer_fee_basis_points: 200 },
        })
    );
    assert_eq!(get_transfer_fee_from_data(TOKEN_2022_PROGRAM_ID, &data, 5, 10_000), Ok(100));
    assert_eq!(get_transfer_fee_from_data(TOKEN_2022_PROGRAM_ID, &data, 10, 10_000), Ok(200));
    assert_eq!(get_transfer_fee_from_data(TOKEN_2022_PROGRAM_ID, &data, 10, 1_000_000_000), Ok(5_000));
}

#[test]
fn mint_without_fee_extension_or_bytes() {
    let plain = mint_bytes(None);
    assert!(read_mint_fee_info(TOKEN_2022_PROGRAM_ID, &plain).unwrap().transfer_fee_config.is_none());
    assert_eq!(get_transfer_fee_from_data(TOKEN_2022_PROGRAM_ID, &plain, 3, 1_000), Ok(0));
    let junk = vec![7u8; 10];
    assert_eq!(get_transfer_fee_from_data(TOKEN_2022_PROGRAM_ID, &junk, 3, 1_000), Err(ErrorCode::InvalidAccountData));
    assert!(matches!(read_mint_fee_info(TOKEN_2022_PROGRAM_ID, &junk), Err(ErrorCode::InvalidAccountData)));
    assert_eq!(get_transfer_fee_from_data(TOKEN_PROGRAM_ID, &junk, 3, 1_000), Ok(0));
}

#[test]
fn fee_definedness() {
    let config = TransferFeeConfigView {
        older_transfer_fee: TransferFeeView { epoch: 0, maximum_fee: u64::MAX, transfer_fee_basis_points: 65_535 },
        newer_transfer_fee: TransferFeeView { epoch: 0, maximum_fee: u64::MAX, transfer_fee_basis_points: 65_535 },
    };
    let mint = MintFeeInfo { owner: TOKEN_2022_PROGRAM_ID, transfer_fee_config: Some(config) };
    assert!(mint_fee_is_defined(&mint, 0, 1_000));
    assert!(!mint_fee_is_defined(&mint, 0, u64::MAX));
    let classic = MintFeeInfo { owner: TOKEN_PROGRAM_ID, transfer_fee_config: Some(config) };
    assert!(mint_fee_is_defined(&classic, 0, u64::MAX));
}

fn pump(lp: u64) -> PumpPoolState {
    PumpPoolState {
        program_id_index: 0,
        pool_index: 0,
        global_config_index: 0,
        event_authority_index: 0,
        coin_creator_vault_ata_index: 0,
        coin_creator_vault_authority_index: 0,
        pump_fee_wallet_index: 0,
        pump_fee_wallet_ata_index: 0,
        global_vol_accumulator_index: 0,
        user_vol_accumulator_index: 0,
        system_program_index: 0,
        associated_token_program_index: 0,
        base_vault_index: 0,
        quote_vault_index: 0,
        base_mint: [5u8; 32],
        quote_mint: [6u8; 32],
        trade_fee_rate: 0,
        price: 0,
        base_reserve: 1_000_000,
        quote_reserve: 2_000_000,
        lp_fee_basis_points: lp,
        protocol_fee_basis_points: 5,
        coin_creator_fee_basis_points: 0,
        fee_config_index: 0,
        fee_program_index: 0,
        creator: [0u8; 32],
        coin_creator: [0u8; 32],
        has_wsol_pool: false,
    }
}

#[test]
fn pump_readiness() {
    assert!(pump_buy_ready(&pump(20), 1_000));
    assert!(!pump_buy_ready(&pump(20), 1_000_000));
    assert!(!pump_buy_ready(&pump(u64::MAX), 1_000));
    assert!(pump_sell_ready(&pump(20), 1_000));
    assert!(!pump_sell_ready(&pump(u64::MAX), 1_000));
    let classic = MintFeeInfo { owner: TOKEN_PROGRAM_ID, transfer_fee_config: None };
    assert!(pump_sell_quote_ready(&pump(20), 1_000, &classic, 0));
    assert!(!pump_sell_quote_ready(&pump(u64::MAX), 1_000, &classic, 0));
}

#[test]
fn pump_pool_check_on_unrelated_creator() {
    assert!(!is_pump_pool(&[3u8; 32], &[0u8; 32]));
}

#[test]
fn leg_decisions() {
    let p = pump(20);
    assert!(pump_leg_buys(&p, Leg::Buy, &[9u8; 32]));
    assert!(!pump_leg_buys(&p, Leg::Sell, &[5u8; 32]));
    assert!(pump_leg_buys(&p, Leg::Mid, &[5u8; 32]));
    assert!(!pump_leg_buys(&p, Leg::Mid, &[6u8; 32]));
    assert_eq!(raydium_token_program(Leg::Buy), RaydiumTokenProgram::OfOutput);
    assert_eq!(raydium_token_program(Leg::Sell), RaydiumTokenProgram::OfInput);
    assert_eq!(raydium_token_program(Leg::Mid), RaydiumTokenProgram::Classic);
}
