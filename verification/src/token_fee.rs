use vstd::prelude::*;

use crate::bytes::key_eq;
use crate::errors::ErrorCode;
use anchor_spl::token_2022::spl_token_2022::extension::transfer_fee::TransferFeeConfig;
use anchor_spl::token_2022::spl_token_2022::extension::{BaseStateWithExtensions, StateWithExtensions};
use anchor_spl::token_2022::spl_token_2022::state::Mint as SplMint;

verus! {

/// The classic SPL Token program address.
pub const TOKEN_PROGRAM_ID: [u8; 32] = [
    6, 221, 246, 225, 215, 101, 161, 147, 217, 203, 225, 70, 206, 235, 121, 172,
    28, 180, 133, 237, 95, 91, 55, 145, 58, 140, 245, 133, 126, 255, 0, 169,
];

/// The Token-2022 program address.
pub const TOKEN_2022_PROGRAM_ID: [u8; 32] = [
    6, 221, 246, 225, 238, 117, 143, 222, 24, 66, 93, 188, 228, 108, 205, 218,
    182, 26, 252, 77, 131, 185, 13, 39, 254, 189, 249, 40, 216, 161, 139, 252,
];

/// One transfer-fee schedule of a Token-2022 mint.
#[derive(Clone, Copy, Debug, PartialEq, Eq, Structural)]
pub struct TransferFeeView {
    pub epoch: u64,
    pub maximum_fee: u64,
    pub transfer_fee_basis_points: u16,
}

/// The transfer-fee extension of a mint: the schedule before and from the
/// newer schedule's epoch.
#[derive(Clone, Copy, Debug, PartialEq, Eq, Structural)]
pub struct TransferFeeConfigView {
    pub older_transfer_fee: TransferFeeView,
    pub newer_transfer_fee: TransferFeeView,
}

/// What the fee logic reads of a mint account: its owner program and its
/// transfer-fee extension, if it has one.
#[derive(Clone, Copy, Debug)]
pub struct MintFeeInfo {
    pub owner: [u8; 32],
    pub transfer_fee_config: Option<TransferFeeConfigView>,
}

/// `ceil(amount * bps / 10_000)`, the uncapped transfer fee.
pub open spec fn raw_transfer_fee(fee: TransferFeeView, amount: u64) -> nat {
    ((amount * fee.transfer_fee_basis_points + 9_999) / 10_000) as nat
}

/// Whether the transfer fee on `amount` is defined: the uncapped fee fits in
/// a `u64` (always so for rates up to 100%).
pub open spec fn transfer_fee_defined(fee: TransferFeeView, amount: u64) -> bool {
    fee.transfer_fee_basis_points == 0 || amount == 0 || raw_transfer_fee(fee, amount)
        <= u64::MAX
}

/// The transfer fee on `amount`: zero for a zero rate or amount, else the
/// rounded-up fee capped at the schedule's maximum.
pub open spec fn transfer_fee(fee: TransferFeeView, amount: u64) -> nat {
    if fee.transfer_fee_basis_points == 0 || amount == 0 {
        0
    } else if raw_transfer_fee(fee, amount) < fee.maximum_fee {
        raw_transfer_fee(fee, amount)
    } else {
        fee.maximum_fee as nat
    }
}

/// `TransferFee::calculate_fee` of Token-2022: the claimed result is the
/// fee of `transfer_fee` when the uncapped fee fits in a `u64`, and `None`
/// when it does not.
#[verifier::external_body]
fn calculate_transfer_fee(fee: TransferFeeView, pre_fee_amount: u64) -> (r: Option<u64>)
    ensures
        r == (if transfer_fee_defined(fee, pre_fee_amount) {
            Some(transfer_fee(fee, pre_fee_amount) as u64)
        } else {
            None
        }),
{
    let schedule = anchor_spl::token_2022::spl_token_2022::extension::transfer_fee::TransferFee {
        epoch: fee.epoch.into(),
        maximum_fee: fee.maximum_fee.into(),
        transfer_fee_basis_points: fee.transfer_fee_basis_points.into(),
    };
    schedule.calculate_fee(pre_fee_amount)
}

/// The schedule in force at `epoch`.
pub open spec fn epoch_fee(config: TransferFeeConfigView, epoch: u64) -> TransferFeeView {
    if epoch >= config.newer_transfer_fee.epoch {
        config.newer_transfer_fee
    } else {
        config.older_transfer_fee
    }
}

/// The schedule in force at `epoch`.
pub fn get_epoch_fee(config: &TransferFeeConfigView, epoch: u64) -> (r: TransferFeeView)
    ensures
        r == epoch_fee(*config, epoch),
{
    if epoch >= config.newer_transfer_fee.epoch {
        config.newer_transfer_fee
    } else {
        config.older_transfer_fee
    }
}

/// Whether the transfer fee of `mint` on `amount` at `epoch` is defined.
pub open spec fn mint_fee_defined(mint: MintFeeInfo, epoch: u64, amount: u64) -> bool {
    mint.owner@ == TOKEN_PROGRAM_ID@ || match mint.transfer_fee_config {
        Some(config) => transfer_fee_defined(epoch_fee(config, epoch), amount),
        None => true,
    }
}

/// The transfer fee that moving `amount` of `mint` at `epoch` costs: zero
/// for a classic SPL token or a mint without the fee extension.
pub open spec fn mint_transfer_fee(mint: MintFeeInfo, epoch: u64, amount: u64) -> nat {
    if mint.owner@ == TOKEN_PROGRAM_ID@ {
        0
    } else {
        match mint.transfer_fee_config {
            Some(config) => transfer_fee(epoch_fee(config, epoch), amount),
            None => 0,
        }
    }
}

/// The transfer fee that moving `pre_fee_amount` of `mint` costs at
/// `epoch`; see `mint_transfer_fee`.
pub fn get_transfer_fee(mint: &MintFeeInfo, epoch: u64, pre_fee_amount: u64) -> (r: Result<
    u64,
    ErrorCode,
>)
    requires
        mint_fee_defined(*mint, epoch, pre_fee_amount),
    ensures
        r matches Ok(fee) && fee == mint_transfer_fee(*mint, epoch, pre_fee_amount),
{
    if key_eq(&mint.owner, &TOKEN_PROGRAM_ID) {
        return Ok(0);
    }
    let fee = match mint.transfer_fee_config {
        Some(config) => {
            let schedule = get_epoch_fee(&config, epoch);
            match calculate_transfer_fee(schedule, pre_fee_amount) {
                Some(f) => f,
                None => {
                    proof {
                        assert(false);
                    }
                    0
                },
            }
        },
        None => 0,
    };
    Ok(fee)
}

/// Whether the transfer fee of `mint` on `amount` at `epoch` is defined;
/// see `mint_fee_defined`.
pub fn mint_fee_is_defined(mint: &MintFeeInfo, epoch: u64, amount: u64) -> (r: bool)
    ensures
        r == mint_fee_defined(*mint, epoch, amount),
{
    if key_eq(&mint.owner, &TOKEN_PROGRAM_ID) {
        return true;
    }
    match mint.transfer_fee_config {
        None => true,
        Some(config) => {
            let fee = get_epoch_fee(&config, epoch);
            if fee.transfer_fee_basis_points == 0 || amount == 0 {
                return true;
            }
            let bps = fee.transfer_fee_basis_points as u128;
            proof {
                assert(amount * bps <= 0xffff_ffff_ffff_ffff * 0xffff) by (nonlinear_arith)
                    requires amount <= 0xffff_ffff_ffff_ffffu64, bps <= 0xffff;
            }
            let raw = ((amount as u128) * bps + 9_999) / 10_000;
            raw <= u64::MAX as u128
        },
    }
}

/// Whether a token program is Token-2022.
pub fn is_token_2022(token_program_id: [u8; 32]) -> (r: bool)
    ensures
        r == (token_program_id@ == TOKEN_2022_PROGRAM_ID@),
{
    key_eq(&token_program_id, &TOKEN_2022_PROGRAM_ID)
}

/// What a Token-2022 mint account's bytes hold of transfer fees: nothing
/// when they do not unpack as a mint with extensions; else the mint's
/// transfer-fee extension, if it has one.
pub uninterp spec fn spl_mint_transfer_fee_config(data: Seq<u8>) -> Option<Option<TransferFeeConfigView>>;

/// `StateWithExtensions::<Mint>::unpack` of Token-2022 on a mint account's
/// bytes, then `get_extension::<TransferFeeConfig>`. The claim is only that
/// the outcome (no mint, a mint without the extension, or the extension's
/// two schedules) is the one named `spl_mint_transfer_fee_config` for these
/// bytes; how the bytes are laid out is not stated.
#[verifier::external_body]
fn unpack_mint_transfer_fee(data: &Vec<u8>) -> (r: Option<Option<TransferFeeConfigView>>)
    ensures
        r == spl_mint_transfer_fee_config(data@),
{
    let mint = match StateWithExtensions::<SplMint>::unpack(&data[..]) {
        Ok(m) => m,
        Err(_) => return None,
    };
    let c = match mint.get_extension::<TransferFeeConfig>() {
        Ok(c) => c,
        Err(_) => return Some(None),
    };
    let (o, n) = (&c.older_transfer_fee, &c.newer_transfer_fee);
    let older = TransferFeeView { epoch: o.epoch.into(), maximum_fee: o.maximum_fee.into(), transfer_fee_basis_points: o.transfer_fee_basis_points.into() };
    let newer = TransferFeeView { epoch: n.epoch.into(), maximum_fee: n.maximum_fee.into(), transfer_fee_basis_points: n.transfer_fee_basis_points.into() };
    Some(Some(TransferFeeConfigView { older_transfer_fee: older, newer_transfer_fee: newer }))
}

/// What the fee logic reads of a mint account from its owner and bytes: a
/// classic SPL token has no transfer fee; any other mint must unpack as a
/// Token-2022 mint (`InvalidAccountData` otherwise), with its transfer-fee
/// extension if it has one.
pub open spec fn mint_info_of(owner: [u8; 32], data: Seq<u8>) -> Result<MintFeeInfo, ErrorCode> {
    if owner@ == TOKEN_PROGRAM_ID@ {
        Ok(MintFeeInfo { owner, transfer_fee_config: None })
    } else {
        match spl_mint_transfer_fee_config(data) {
            None => Err(ErrorCode::InvalidAccountData),
            Some(cfg) => Ok(MintFeeInfo { owner, transfer_fee_config: cfg }),
        }
    }
}

/// Reads what the fee logic needs of a mint account; see `mint_info_of`.
pub fn read_mint_fee_info(owner: [u8; 32], mint_data: &Vec<u8>) -> (r: Result<MintFeeInfo, ErrorCode>)
    ensures
        r == mint_info_of(owner, mint_data@),
{
    if key_eq(&owner, &TOKEN_PROGRAM_ID) {
        return Ok(MintFeeInfo { owner, transfer_fee_config: None });
    }
    match unpack_mint_transfer_fee(mint_data) {
        None => Err(ErrorCode::InvalidAccountData),
        Some(cfg) => Ok(MintFeeInfo { owner, transfer_fee_config: cfg }),
    }
}

/// The transfer fee that moving `pre_fee_amount` of the mint whose owner and
/// bytes are given costs at `epoch`: zero for a classic SPL token;
/// `InvalidAccountData` for bytes that are no Token-2022 mint; `MathOverflow`
/// where the fee is not defined (the uncapped fee exceeds 64 bits); else
/// `mint_transfer_fee`.
pub fn get_transfer_fee_from_data(owner: [u8; 32], mint_data: &Vec<u8>, epoch: u64, pre_fee_amount: u64) -> (r: Result<
    u64,
    ErrorCode,
>)
    ensures
        owner@ == TOKEN_PROGRAM_ID@ ==> r == Ok::<u64, ErrorCode>(0),
        owner@ != TOKEN_PROGRAM_ID@ ==> match spl_mint_transfer_fee_config(mint_data@) {
            None => r == Err::<u64, ErrorCode>(ErrorCode::InvalidAccountData),
            Some(cfg) => {
                let m = MintFeeInfo { owner, transfer_fee_config: cfg };
                if mint_fee_defined(m, epoch, pre_fee_amount) {
                    r == Ok::<u64, ErrorCode>(mint_transfer_fee(m, epoch, pre_fee_amount) as u64)
                } else {
                    r == Err::<u64, ErrorCode>(ErrorCode::MathOverflow)
                }
            },
        },
{
    let mint = read_mint_fee_info(owner, mint_data)?;
    match mint.transfer_fee_config {
        Some(config) => {
            if key_eq(&mint.owner, &TOKEN_PROGRAM_ID) {
                return Ok(0);
            }
            let schedule = get_epoch_fee(&config, epoch);
            match calculate_transfer_fee(schedule, pre_fee_amount) {
                Some(f) => Ok(f),
                None => Err(ErrorCode::MathOverflow),
            }
        },
        None => Ok(0),
    }
}

} // verus!
