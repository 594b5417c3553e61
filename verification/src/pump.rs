use vstd::prelude::*;

use crate::bytes::{key_eq, read_key, read_u64, AccountView};
use crate::cpmm::u64_at;
use crate::errors::ErrorCode;
use crate::pools::WSOL_MINT;
use crate::token_fee::{get_transfer_fee, mint_fee_defined, mint_transfer_fee, MintFeeInfo, TOKEN_PROGRAM_ID};
use crate::u64x64_math::{ceil_div, ceil_div_u128};

verus! {

/// The pump.fun bonding-curve program, which owns the pool authorities of
/// tokens that graduated from it.
pub const PUMP_FUN_PROGRAM_ID: [u8; 32] = [
    1, 86, 224, 246, 147, 102, 90, 207, 68, 219, 21, 104, 191, 23, 91, 170,
    81, 137, 203, 151, 245, 210, 255, 59, 101, 93, 43, 182, 253, 109, 24, 176,
];

/// A pump AMM pool: where its many accounts sit, its mints, reserves and fees.
#[derive(Debug, Clone, Copy)]
pub struct PumpPoolState {
    pub program_id_index: usize,
    pub pool_index: usize,
    pub global_config_index: usize,
    pub event_authority_index: usize,
    pub coin_creator_vault_ata_index: usize,
    pub coin_creator_vault_authority_index: usize,
    pub pump_fee_wallet_index: usize,
    pub pump_fee_wallet_ata_index: usize,
    pub global_vol_accumulator_index: usize,
    pub user_vol_accumulator_index: usize,
    pub system_program_index: usize,
    pub associated_token_program_index: usize,
    pub base_vault_index: usize,
    pub quote_vault_index: usize,
    pub base_mint: [u8; 32],
    pub quote_mint: [u8; 32],
    /// Total fee in basis points.
    pub trade_fee_rate: u64,
    pub price: u128,
    pub base_reserve: u64,
    pub quote_reserve: u64,
    pub lp_fee_basis_points: u64,
    pub protocol_fee_basis_points: u64,
    pub coin_creator_fee_basis_points: u64,
    pub fee_config_index: usize,
    pub fee_program_index: usize,
    /// The pool's creator, which tells pump.fun pools apart.
    pub creator: [u8; 32],
    /// The coin's creator, who earns the creator fee.
    pub coin_creator: [u8; 32],
    pub has_wsol_pool: bool,
}

/// The position of the first account whose address is `target_mint`, or
/// `InvalidAccount` when there is none.
pub fn find_mint_account_index(accounts: &Vec<AccountView>, target_mint: &[u8; 32]) -> (r: Result<
    usize,
    ErrorCode,
>)
    ensures
        match r {
            Ok(i) => i < accounts.len() && accounts@[i as int].key@ == target_mint@ && forall|j: int|
                0 <= j < i ==> accounts@[j].key@ != target_mint@,
            Err(e) => e == ErrorCode::InvalidAccount && forall|j: int|
                0 <= j < accounts.len() ==> accounts@[j].key@ != target_mint@,
        },
{
    let mut index: usize = 0;
    while index < accounts.len()
        invariant
            index <= accounts.len(),
            forall|j: int| 0 <= j < index ==> accounts@[j].key@ != target_mint@,
        decreases accounts.len() - index,
    {
        if key_eq(&accounts[index].key, target_mint) {
            return Ok(index);
        }
        index += 1;
    }
    Err(ErrorCode::InvalidAccount)
}

/// One market-cap band of the pump.fun fee schedule.
#[derive(Clone, Copy, Debug)]
pub struct FeeTier {
    pub market_cap_lamports_threshold: u128,
    pub lp_fee_bps: u64,
    pub protocol_fee_bps: u64,
    pub creator_fee_bps: u64,
}

/// The fees of a tier.
pub open spec fn tier_fees(t: FeeTier) -> (u64, u64, u64) {
    (t.lp_fee_bps, t.protocol_fee_bps, t.creator_fee_bps)
}

/// The fees of the last tier among the first `n` whose threshold is at most
/// `market_cap`; `(25, 5, 0)` when there is none.
pub open spec fn last_tier_at_most(tiers: Seq<FeeTier>, market_cap: u128, n: nat) -> (u64, u64, u64)
    decreases n,
{
    if n == 0 {
        (25, 5, 0)
    } else if market_cap >= tiers[n - 1].market_cap_lamports_threshold {
        tier_fees(tiers[n - 1])
    } else {
        last_tier_at_most(tiers, market_cap, (n - 1) as nat)
    }
}

/// The fees for `market_cap`: the first tier's when the cap is below its
/// threshold, else those of the highest tier the cap reaches.
pub open spec fn fee_tier_for(tiers: Seq<FeeTier>, market_cap: u64) -> (u64, u64, u64) {
    if (market_cap as u128) < tiers[0].market_cap_lamports_threshold {
        tier_fees(tiers[0])
    } else {
        last_tier_at_most(tiers, market_cap as u128, tiers.len())
    }
}

/// The fees for `market_cap` in a tier table; see `fee_tier_for`.
pub fn calculate_fee_tier(fee_tiers: &Vec<FeeTier>, market_cap: u64) -> (r: (u64, u64, u64))
    requires
        fee_tiers.len() > 0,
    ensures
        r == fee_tier_for(fee_tiers@, market_cap),
{
    let market_cap_u128 = market_cap as u128;
    let first_tier = fee_tiers[0];
    if market_cap_u128 < first_tier.market_cap_lamports_threshold {
        return (first_tier.lp_fee_bps, first_tier.protocol_fee_bps, first_tier.creator_fee_bps);
    }
    let mut i: usize = fee_tiers.len();
    while i > 0
        invariant
            i <= fee_tiers.len(),
            fee_tiers.len() > 0,
            market_cap_u128 == market_cap as u128,
            market_cap_u128 >= fee_tiers@[0].market_cap_lamports_threshold,
            last_tier_at_most(fee_tiers@, market_cap_u128, fee_tiers.len() as nat) == last_tier_at_most(
                fee_tiers@,
                market_cap_u128,
                i as nat,
            ),
        decreases i,
    {
        let tier = fee_tiers[i - 1];
        if market_cap_u128 >= tier.market_cap_lamports_threshold {
            return (tier.lp_fee_bps, tier.protocol_fee_bps, tier.creator_fee_bps);
        }
        i -= 1;
    }
    (25, 5, 0)
}

/// The pump.fun fee schedule by market cap in lamports.
pub open spec fn pump_fee_tiers() -> Seq<FeeTier> {
    seq![
        FeeTier { market_cap_lamports_threshold: 0u128, lp_fee_bps: 2, protocol_fee_bps: 93, creator_fee_bps: 30 },
        FeeTier { market_cap_lamports_threshold: 420000000000u128, lp_fee_bps: 20, protocol_fee_bps: 5, creator_fee_bps: 95 },
        FeeTier { market_cap_lamports_threshold: 1470000000000u128, lp_fee_bps: 20, protocol_fee_bps: 5, creator_fee_bps: 90 },
        FeeTier { market_cap_lamports_threshold: 2460000000000u128, lp_fee_bps: 20, protocol_fee_bps: 5, creator_fee_bps: 85 },
        FeeTier { market_cap_lamports_threshold: 3440000000000u128, lp_fee_bps: 20, protocol_fee_bps: 5, creator_fee_bps: 80 },
        FeeTier { market_cap_lamports_threshold: 4420000000000u128, lp_fee_bps: 20, protocol_fee_bps: 5, creator_fee_bps: 75 },
        FeeTier { market_cap_lamports_threshold: 9820000000000u128, lp_fee_bps: 20, protocol_fee_bps: 5, creator_fee_bps: 70 },
        FeeTier { market_cap_lamports_threshold: 14740000000000u128, lp_fee_bps: 20, protocol_fee_bps: 5, creator_fee_bps: 65 },
        FeeTier { market_cap_lamports_threshold: 19650000000000u128, lp_fee_bps: 20, protocol_fee_bps: 5, creator_fee_bps: 60 },
        FeeTier { market_cap_lamports_threshold: 24560000000000u128, lp_fee_bps: 20, protocol_fee_bps: 5, creator_fee_bps: 55 },
        FeeTier { market_cap_lamports_threshold: 29470000000000u128, lp_fee_bps: 20, protocol_fee_bps: 5, creator_fee_bps: 50 },
        FeeTier { market_cap_lamports_threshold: 34380000000000u128, lp_fee_bps: 20, protocol_fee_bps: 5, creator_fee_bps: 45 },
        FeeTier { market_cap_lamports_threshold: 39300000000000u128, lp_fee_bps: 20, protocol_fee_bps: 5, creator_fee_bps: 40 },
        FeeTier { market_cap_lamports_threshold: 44210000000000u128, lp_fee_bps: 20, protocol_fee_bps: 5, creator_fee_bps: 35 },
        FeeTier { market_cap_lamports_threshold: 49120000000000u128, lp_fee_bps: 20, protocol_fee_bps: 5, creator_fee_bps: 30 },
        FeeTier { market_cap_lamports_threshold: 54030000000000u128, lp_fee_bps: 20, protocol_fee_bps: 5, creator_fee_bps: 28 },
        FeeTier { market_cap_lamports_threshold: 58940000000000u128, lp_fee_bps: 20, protocol_fee_bps: 5, creator_fee_bps: 25 },
        FeeTier { market_cap_lamports_threshold: 63860000000000u128, lp_fee_bps: 20, protocol_fee_bps: 5, creator_fee_bps: 23 },
        FeeTier { market_cap_lamports_threshold: 68770000000000u128, lp_fee_bps: 20, protocol_fee_bps: 5, creator_fee_bps: 20 },
        FeeTier { market_cap_lamports_threshold: 73681000000000u128, lp_fee_bps: 20, protocol_fee_bps: 5, creator_fee_bps: 18 },
        FeeTier { market_cap_lamports_threshold: 78590000000000u128, lp_fee_bps: 20, protocol_fee_bps: 5, creator_fee_bps: 15 },
        FeeTier { market_cap_lamports_threshold: 83500000000000u128, lp_fee_bps: 20, protocol_fee_bps: 5, creator_fee_bps: 13 },
        FeeTier { market_cap_lamports_threshold: 88400000000000u128, lp_fee_bps: 20, protocol_fee_bps: 5, creator_fee_bps: 10 },
        FeeTier { market_cap_lamports_threshold: 93330000000000u128, lp_fee_bps: 20, protocol_fee_bps: 5, creator_fee_bps: 8 },
        FeeTier { market_cap_lamports_threshold: 98240000000000u128, lp_fee_bps: 20, protocol_fee_bps: 5, creator_fee_bps: 5 },
    ]
}

/// The pump.fun fee schedule by market cap in lamports; see `pump_fee_tiers`.
pub fn get_hardcoded_fee_tiers() -> (r: Vec<FeeTier>)
    ensures
        r@ == pump_fee_tiers(),
{
    vec![
        FeeTier { market_cap_lamports_threshold: 0u128, lp_fee_bps: 2, protocol_fee_bps: 93, creator_fee_bps: 30 },
        FeeTier { market_cap_lamports_threshold: 420000000000u128, lp_fee_bps: 20, protocol_fee_bps: 5, creator_fee_bps: 95 },
        FeeTier { market_cap_lamports_threshold: 1470000000000u128, lp_fee_bps: 20, protocol_fee_bps: 5, creator_fee_bps: 90 },
        FeeTier { market_cap_lamports_threshold: 2460000000000u128, lp_fee_bps: 20, protocol_fee_bps: 5, creator_fee_bps: 85 },
        FeeTier { market_cap_lamports_threshold: 3440000000000u128, lp_fee_bps: 20, protocol_fee_bps: 5, creator_fee_bps: 80 },
        FeeTier { market_cap_lamports_threshold: 4420000000000u128, lp_fee_bps: 20, protocol_fee_bps: 5, creator_fee_bps: 75 },
        FeeTier { market_cap_lamports_threshold: 9820000000000u128, lp_fee_bps: 20, protocol_fee_bps: 5, creator_fee_bps: 70 },
        FeeTier { market_cap_lamports_threshold: 14740000000000u128, lp_fee_bps: 20, protocol_fee_bps: 5, creator_fee_bps: 65 },
        FeeTier { market_cap_lamports_threshold: 19650000000000u128, lp_fee_bps: 20, protocol_fee_bps: 5, creator_fee_bps: 60 },
        FeeTier { market_cap_lamports_threshold: 24560000000000u128, lp_fee_bps: 20, protocol_fee_bps: 5, creator_fee_bps: 55 },
        FeeTier { market_cap_lamports_threshold: 29470000000000u128, lp_fee_bps: 20, protocol_fee_bps: 5, creator_fee_bps: 50 },
        FeeTier { market_cap_lamports_threshold: 34380000000000u128, lp_fee_bps: 20, protocol_fee_bps: 5, creator_fee_bps: 45 },
        FeeTier { market_cap_lamports_threshold: 39300000000000u128, lp_fee_bps: 20, protocol_fee_bps: 5, creator_fee_bps: 40 },
        FeeTier { market_cap_lamports_threshold: 44210000000000u128, lp_fee_bps: 20, protocol_fee_bps: 5, creator_fee_bps: 35 },
        FeeTier { market_cap_lamports_threshold: 49120000000000u128, lp_fee_bps: 20, protocol_fee_bps: 5, creator_fee_bps: 30 },
        FeeTier { market_cap_lamports_threshold: 54030000000000u128, lp_fee_bps: 20, protocol_fee_bps: 5, creator_fee_bps: 28 },
        FeeTier { market_cap_lamports_threshold: 58940000000000u128, lp_fee_bps: 20, protocol_fee_bps: 5, creator_fee_bps: 25 },
        FeeTier { market_cap_lamports_threshold: 63860000000000u128, lp_fee_bps: 20, protocol_fee_bps: 5, creator_fee_bps: 23 },
        FeeTier { market_cap_lamports_threshold: 68770000000000u128, lp_fee_bps: 20, protocol_fee_bps: 5, creator_fee_bps: 20 },
        FeeTier { market_cap_lamports_threshold: 73681000000000u128, lp_fee_bps: 20, protocol_fee_bps: 5, creator_fee_bps: 18 },
        FeeTier { market_cap_lamports_threshold: 78590000000000u128, lp_fee_bps: 20, protocol_fee_bps: 5, creator_fee_bps: 15 },
        FeeTier { market_cap_lamports_threshold: 83500000000000u128, lp_fee_bps: 20, protocol_fee_bps: 5, creator_fee_bps: 13 },
        FeeTier { market_cap_lamports_threshold: 88400000000000u128, lp_fee_bps: 20, protocol_fee_bps: 5, creator_fee_bps: 10 },
        FeeTier { market_cap_lamports_threshold: 93330000000000u128, lp_fee_bps: 20, protocol_fee_bps: 5, creator_fee_bps: 8 },
        FeeTier { market_cap_lamports_threshold: 98240000000000u128, lp_fee_bps: 20, protocol_fee_bps: 5, creator_fee_bps: 5 },
    ]
}

/// The flat fees stored in a fee-config account: three little-endian
/// `u64` basis-point values from byte 41; `InvalidAccount` when the data is
/// shorter than 65 bytes.
pub fn parse_flat_fees(fee_config_data: &Vec<u8>) -> (r: Result<(u64, u64, u64), ErrorCode>)
    ensures
        match r {
            Ok(f) => fee_config_data.len() >= 65 && f == (
                u64_at(fee_config_data@, 41),
                u64_at(fee_config_data@, 49),
                u64_at(fee_config_data@, 57),
            ),
            Err(e) => fee_config_data.len() < 65 && e == ErrorCode::InvalidAccount,
        },
{
    if fee_config_data.len() < 65 {
        return Err(ErrorCode::InvalidAccount);
    }
    let offset: usize = 41;
    let lp_fee_bps = read_u64(fee_config_data, offset);
    let protocol_fee_bps = read_u64(fee_config_data, offset + 8);
    let creator_fee_bps = read_u64(fee_config_data, offset + 16);
    Ok((lp_fee_bps, protocol_fee_bps, creator_fee_bps))
}

/// The seed of a pump.fun pool authority's address, ahead of the mint:
/// `"pool-authority"`.
pub const POOL_AUTHORITY_SEED: [u8; 14] = [112, 111, 111, 108, 45, 97, 117, 116, 104, 111, 114, 105, 116, 121];

/// The program address derived from the seeds `seed` and `key` under the
/// program `program_id`, or none where no bump seed gives a valid address.
pub uninterp spec fn program_address(seed: Seq<u8>, key: Seq<u8>, program_id: Seq<u8>) -> Option<Seq<u8>>;

/// The address of the pump.fun pool authority derived for a mint; see
/// `program_address`.
pub open spec fn pump_pool_authority(mint: Seq<u8>) -> Option<Seq<u8>> {
    program_address(POOL_AUTHORITY_SEED@, mint, PUMP_FUN_PROGRAM_ID@)
}

/// `Pubkey::try_find_program_address` with the seeds `seed` and `key` under
/// `program_id`. The claim is only that what it returns (an address, or
/// none when no bump seed works) is the one derived from these three,
/// named `program_address`; the hashing that derives it is not stated.
#[verifier::external_body]
fn find_program_address(seed: &[u8], key: &[u8; 32], program_id: &[u8; 32]) -> (r: Option<[u8; 32]>)
    ensures
        match r {
            Some(a) => program_address(seed@, key@, program_id@) == Some(a@),
            None => program_address(seed@, key@, program_id@) is None,
        },
{
    let program = anchor_lang::prelude::Pubkey::new_from_array(*program_id);
    match anchor_lang::prelude::Pubkey::try_find_program_address(&[seed, key.as_ref()], &program) {
        Some((pda, _)) => Some(pda.to_bytes()),
        None => None,
    }
}

/// Whether a pool was created by pump.fun for its mint: its creator is the
/// pool authority derived for the mint; `false` where no authority can be
/// derived.
pub fn is_pump_pool(base_mint: &[u8; 32], creator: &[u8; 32]) -> (r: bool)
    ensures
        r == (pump_pool_authority(base_mint@) == Some(creator@)),
{
    match find_program_address(POOL_AUTHORITY_SEED.as_slice(), base_mint, &PUMP_FUN_PROGRAM_ID) {
        Some(pda) => key_eq(&pda, creator),
        None => false,
    }
}

/// The market cap in lamports: `supply * quote_reserve / base_reserve`,
/// zero for an empty base side, cut to 64 bits.
pub open spec fn market_cap(pool: PumpPoolState, supply: u64) -> u64 {
    if pool.base_reserve == 0 {
        0
    } else {
        (supply * pool.quote_reserve / (pool.base_reserve as int)) as u64
    }
}

/// The market cap in lamports; see `market_cap`.
pub fn calculate_market_cap(pool_state: &PumpPoolState, supply: u64) -> (r: Result<u64, ErrorCode>)
    ensures
        r == Ok::<u64, ErrorCode>(market_cap(*pool_state, supply)),
{
    if pool_state.base_reserve == 0 {
        return Ok(0);
    }
    proof {
        assert(supply * pool_state.quote_reserve <= u64::MAX * u64::MAX) by (nonlinear_arith)
            requires supply <= u64::MAX, pool_state.quote_reserve <= u64::MAX;
    }
    let market_cap = ((supply as u128) * (pool_state.quote_reserve as u128) / (pool_state.base_reserve as u128)) as u64;
    Ok(market_cap)
}

/// The fees a pool charges: the market-cap tier for a pump.fun pool, else
/// the flat fees of the fee config.
pub open spec fn dynamic_fees(
    pool: PumpPoolState,
    supply: u64,
    token_mint: Seq<u8>,
    fee_config_data: Seq<u8>,
) -> Result<(u64, u64, u64), ErrorCode> {
    if pump_pool_authority(token_mint) != Some(pool.creator@) {
        if fee_config_data.len() < 65 {
            Err(ErrorCode::InvalidAccount)
        } else {
            Ok((u64_at(fee_config_data, 41), u64_at(fee_config_data, 49), u64_at(fee_config_data, 57)))
        }
    } else {
        Ok(fee_tier_for(pump_fee_tiers(), market_cap(pool, supply)))
    }
}

/// The fees a pool charges; see `dynamic_fees`.
pub fn compute_dynamic_fees(
    pool_state: &PumpPoolState,
    supply: u64,
    token_mint: &[u8; 32],
    fee_config_data: &Vec<u8>,
) -> (r: Result<(u64, u64, u64), ErrorCode>)
    ensures
        r == dynamic_fees(*pool_state, supply, token_mint@, fee_config_data@),
{
    let fee_tiers = get_hardcoded_fee_tiers();
    let is_pump = is_pump_pool(token_mint, &pool_state.creator);
    if !is_pump {
        let flat_fees = parse_flat_fees(fee_config_data)?;
        return Ok((flat_fees.0, flat_fees.1, flat_fees.2));
    }
    let market_cap = calculate_market_cap(pool_state, supply)?;
    let fees = calculate_fee_tier(&fee_tiers, market_cap);
    Ok((fees.0, fees.1, fees.2))
}

/// The mint a pump pool trades against wrapped SOL (its base mint when it
/// has no wrapped-SOL side).
pub open spec fn pump_token_mint(data: Seq<u8>) -> Seq<u8> {
    let base = data.subrange(43, 75);
    let quote = data.subrange(75, 107);
    if base == WSOL_MINT@ || quote == WSOL_MINT@ {
        if quote == WSOL_MINT@ {
            base
        } else {
            quote
        }
    } else {
        base
    }
}

/// The accounts a pump parse reads are there and hold enough bytes, as far
/// as the parse gets.
pub open spec fn pump_parse_readable(
    pool_index: usize,
    accounts: Seq<AccountView>,
    state: PumpPoolState,
) -> bool {
    &&& pool_index < accounts.len()
    &&& accounts[pool_index as int].data@.len() >= 256 ==> {
        &&& state.base_vault_index < accounts.len()
        &&& state.quote_vault_index < accounts.len()
        &&& accounts[state.base_vault_index as int].data@.len() >= 72
        &&& accounts[state.quote_vault_index as int].data@.len() >= 72
        &&& state.fee_config_index < accounts.len()
        &&& forall|j: int|
            0 <= j < accounts.len() && accounts[j].key@ == pump_token_mint(
                accounts[pool_index as int].data@,
            ) ==> accounts[j].data@.len() >= 44
    }
}

/// The state once the pool's mints, creators and reserves are read.
pub open spec fn pump_with_pool_fields(
    state: PumpPoolState,
    accounts: Seq<AccountView>,
    data: Seq<u8>,
    got: PumpPoolState,
) -> PumpPoolState {
    PumpPoolState {
        has_wsol_pool: data.subrange(43, 75) == WSOL_MINT@ || data.subrange(75, 107) == WSOL_MINT@,
        base_mint: got.base_mint,
        quote_mint: got.quote_mint,
        creator: got.creator,
        coin_creator: got.coin_creator,
        base_reserve: u64_at(accounts[state.base_vault_index as int].data@, 64),
        quote_reserve: u64_at(accounts[state.quote_vault_index as int].data@, 64),
        ..state
    }
}

/// Reads a pump pool, its vault balances and its fees into `pool_state`:
/// the fees are the market-cap tier for a pump.fun pool, else the flat fees
/// of the fee config. `InvalidAccount` for short pool data, a token mint
/// missing from the accounts, or short fee-config data; `ZeroLiquidity` for
/// an empty side.
pub fn parse_pump_pool_data(
    pool_index: &usize,
    accounts: &Vec<AccountView>,
    pool_state: &mut PumpPoolState,
) -> (r: Result<(), ErrorCode>)
    requires
        pump_parse_readable(*pool_index, accounts@, *old(pool_state)),
    ensures
        ({
            let data = accounts@[*pool_index as int].data@;
            let s = *old(pool_state);
            let f = *final(pool_state);
            let read = pump_with_pool_fields(s, accounts@, data, f);
            let mint = pump_token_mint(data);
            if data.len() < 256 {
                r == Err::<(), ErrorCode>(ErrorCode::InvalidAccount) && f == s
            } else {
                &&& f.base_mint@ == data.subrange(43, 75)
                &&& f.quote_mint@ == data.subrange(75, 107)
                &&& f.creator@ == data.subrange(11, 43)
                &&& f.coin_creator@ == data.subrange(211, 243)
                &&& if read.base_reserve == 0 || read.quote_reserve == 0 {
                    r == Err::<(), ErrorCode>(ErrorCode::ZeroLiquidity) && f == read
                } else if forall|j: int| 0 <= j < accounts@.len() ==> accounts@[j].key@ != mint {
                    r == Err::<(), ErrorCode>(ErrorCode::InvalidAccount) && f == read
                } else {
                    exists|j: int|
                        {
                            &&& 0 <= j < accounts@.len()
                            &&& accounts@[j].key@ == mint
                            &&& forall|i: int| 0 <= i < j ==> accounts@[i].key@ != mint
                            &&& match dynamic_fees(
                                read,
                                u64_at(accounts@[j].data@, 36),
                                mint,
                                accounts@[s.fee_config_index as int].data@,
                            ) {
                                Ok(fees) => r == Ok::<(), ErrorCode>(()) && f == (PumpPoolState {
                                    lp_fee_basis_points: fees.0,
                                    protocol_fee_basis_points: fees.1,
                                    coin_creator_fee_basis_points: fees.2,
                                    ..read
                                }),
                                Err(e) => r == Err::<(), ErrorCode>(e) && f == read,
                            }
                        }
                }
            }
        }),
{
    let pool_account = &accounts[*pool_index];
    let pool_data = &pool_account.data;
    if pool_data.len() < 256 {
        return Err(ErrorCode::InvalidAccount);
    }
    let base_mint = read_key(pool_data, 43);
    let quote_mint = read_key(pool_data, 75);
    pool_state.has_wsol_pool = key_eq(&base_mint, &WSOL_MINT) || key_eq(&quote_mint, &WSOL_MINT);
    pool_state.base_mint = base_mint;
    pool_state.quote_mint = quote_mint;
    let mint_from_pump = if pool_state.has_wsol_pool {
        if key_eq(&pool_state.quote_mint, &WSOL_MINT) {
            pool_state.base_mint
        } else {
            pool_state.quote_mint
        }
    } else {
        pool_state.base_mint
    };
    pool_state.creator = read_key(pool_data, 11);
    pool_state.coin_creator = read_key(pool_data, 211);
    pool_state.base_reserve = read_u64(&accounts[pool_state.base_vault_index].data, 64);
    pool_state.quote_reserve = read_u64(&accounts[pool_state.quote_vault_index].data, 64);
    if pool_state.base_reserve == 0 || pool_state.quote_reserve == 0 {
        return Err(ErrorCode::ZeroLiquidity);
    }
    let fee_config_account = &accounts[pool_state.fee_config_index];
    let mint_account_index = find_mint_account_index(accounts, &mint_from_pump)?;
    let supply = read_u64(&accounts[mint_account_index].data, 36);
    let (lp_fee, protocol_fee, creator_fee) = compute_dynamic_fees(
        pool_state,
        supply,
        &accounts[mint_account_index].key,
        &fee_config_account.data,
    )?;
    pool_state.lp_fee_basis_points = lp_fee;
    pool_state.protocol_fee_basis_points = protocol_fee;
    pool_state.coin_creator_fee_basis_points = creator_fee;
    Ok(())
}

/// Whether `j` is the first position of an account whose address is `key`.
pub open spec fn first_key_at(accounts: Seq<AccountView>, key: Seq<u8>, j: int) -> bool {
    &&& 0 <= j < accounts.len()
    &&& accounts[j].key@ == key
    &&& forall|i: int| 0 <= i < j ==> accounts[i].key@ != key
}

/// The first position of an account whose address is `key`.
pub open spec fn mint_index(accounts: Seq<AccountView>, key: Seq<u8>) -> int {
    choose|j: int| first_key_at(accounts, key, j)
}

/// The first position of an address is the one `mint_index` names.
pub proof fn lemma_mint_index(accounts: Seq<AccountView>, key: Seq<u8>, j: int)
    requires
        first_key_at(accounts, key, j),
    ensures
        mint_index(accounts, key) == j,
{
    let c = mint_index(accounts, key);
    assert(first_key_at(accounts, key, c));
    if c < j {
        assert(accounts[c].key@ != key);
    } else if j < c {
        assert(accounts[j].key@ != key);
    }
}

/// The creator fee in basis points: zero when the coin has no creator.
pub open spec fn creator_fee_bps(pool: PumpPoolState) -> u64 {
    if pool.coin_creator@ != Seq::new(32, |i: int| 0u8) {
        pool.coin_creator_fee_basis_points
    } else {
        0
    }
}

/// The creator fee in basis points: zero when the coin has no creator.
pub fn get_coin_creator_fee_basis_points(pool_state: &PumpPoolState) -> (r: u64)
    ensures
        r == creator_fee_bps(*pool_state),
{
    let zero: [u8; 32] = [0u8; 32];
    proof {
        assert(zero@ =~= Seq::new(32, |i: int| 0u8));
    }
    if !key_eq(&pool_state.coin_creator, &zero) {
        return pool_state.coin_creator_fee_basis_points;
    }
    0
}

/// The reserve prices are quoted in and the one priced: wrapped SOL over
/// the token when the pool holds wrapped SOL, else quote over base.
pub open spec fn pump_price_sides(pool: PumpPoolState) -> (u64, u64) {
    if pool.has_wsol_pool {
        if pool.quote_mint@ == WSOL_MINT@ {
            (pool.quote_reserve, pool.base_reserve)
        } else {
            (pool.base_reserve, pool.quote_reserve)
        }
    } else {
        (pool.quote_reserve, pool.base_reserve)
    }
}

/// Sets the Q64.64 price (see `pump_price_sides`) and the total fee in
/// basis points; an empty side sets the price to zero and leaves the fee.
pub fn calculate_pump_price(pool_state: &mut PumpPoolState) -> (r: Result<(), ErrorCode>)
    requires
        old(pool_state).lp_fee_basis_points + old(pool_state).protocol_fee_basis_points
            + creator_fee_bps(*old(pool_state)) <= u64::MAX,
    ensures
        r is Ok,
        ({
            let s = *old(pool_state);
            let (num, den) = pump_price_sides(s);
            if s.base_reserve == 0 || s.quote_reserve == 0 {
                *final(pool_state) == (PumpPoolState { price: 0, ..s })
            } else {
                *final(pool_state) == (PumpPoolState {
                    price: (num * 0x1_0000_0000_0000_0000int / (den as int)) as u128,
                    trade_fee_rate: (s.lp_fee_basis_points + s.protocol_fee_basis_points
                        + creator_fee_bps(s)) as u64,
                    ..s
                })
            }
        }),
{
    if pool_state.base_reserve == 0 || pool_state.quote_reserve == 0 {
        pool_state.price = 0;
        return Ok(());
    }
    let (num, den) = if pool_state.has_wsol_pool {
        if key_eq(&pool_state.quote_mint, &WSOL_MINT) {
            (pool_state.quote_reserve, pool_state.base_reserve)
        } else {
            (pool_state.base_reserve, pool_state.quote_reserve)
        }
    } else {
        (pool_state.quote_reserve, pool_state.base_reserve)
    };
    let shifted = (num as u128) << 64u32;
    proof {
        let w = num as u128;
        assert(w << 64u32 == w * 0x1_0000_0000_0000_0000) by (bit_vector)
            requires w < 0x1_0000_0000_0000_0000u128;
    }
    let price_q64 = shifted / (den as u128);
    pool_state.price = price_q64;
    pool_state.trade_fee_rate = pool_state.lp_fee_basis_points + pool_state.protocol_fee_basis_points;
    pool_state.trade_fee_rate = pool_state.trade_fee_rate + get_coin_creator_fee_basis_points(pool_state);
    Ok(())
}

/// A fee of `bps` basis points on `x`, rounded up.
pub open spec fn ceil_bps(x: int, bps: int) -> int {
    (x * bps + 9_999) / 10_000
}

/// The quote needed to buy `base_amount` (before fees): the constant-product
/// input rounded up and cut to 64 bits.
pub open spec fn pump_buy_cost(pool: PumpPoolState, base_amount: u64) -> u64 {
    ((pool.quote_reserve * base_amount + (pool.base_reserve - base_amount) - 1) / (pool.base_reserve
        - base_amount)) as u64
}

/// The cost of buying `base_amount` with its fees added, or `MathOverflow`
/// when that exceeds a `u64`.
pub open spec fn pump_buy_base_total(pool: PumpPoolState, base_amount: u64) -> Result<u64, ErrorCode> {
    let q = pump_buy_cost(pool, base_amount);
    let total = q + ceil_bps(q as int, pool.lp_fee_basis_points as int) + ceil_bps(
        q as int,
        pool.protocol_fee_basis_points as int,
    ) + ceil_bps(q as int, creator_fee_bps(pool) as int);
    if total > u64::MAX {
        Err(ErrorCode::MathOverflow)
    } else {
        Ok(total as u64)
    }
}

/// Whether a buy of `base_amount` of the base token can be priced (what
/// `pump_buy_base_input_internal` asks for): less than the base reserve,
/// and each fee rate times the cost fits 64 bits.
pub open spec fn pump_buy_ok(pool: PumpPoolState, base_amount: u64) -> bool {
    &&& base_amount < pool.base_reserve
    &&& pump_buy_cost(pool, base_amount) * pool.lp_fee_basis_points <= u64::MAX
    &&& pump_buy_cost(pool, base_amount) * pool.protocol_fee_basis_points <= u64::MAX
    &&& pump_buy_cost(pool, base_amount) * creator_fee_bps(pool) <= u64::MAX
}

/// Whether a buy of `base_amount` can be priced; see `pump_buy_ok`.
pub fn pump_buy_ready(pool_state: &PumpPoolState, base_amount: u64) -> (r: bool)
    ensures
        r == pump_buy_ok(*pool_state, base_amount),
{
    if base_amount >= pool_state.base_reserve {
        return false;
    }
    proof {
        assert(pool_state.quote_reserve * base_amount <= 0xffff_ffff_ffff_ffff * 0xffff_ffff_ffff_ffff) by (nonlinear_arith)
            requires pool_state.quote_reserve <= 0xffff_ffff_ffff_ffffu64, base_amount <= 0xffff_ffff_ffff_ffffu64;
    }
    let den = (pool_state.base_reserve - base_amount) as u128;
    let num = (pool_state.quote_reserve as u128) * (base_amount as u128);
    let cost = ((num + den - 1) / den) as u64;
    assert(cost == pump_buy_cost(*pool_state, base_amount));
    let creator = get_coin_creator_fee_basis_points(pool_state);
    proof {
        assert(cost * pool_state.lp_fee_basis_points <= u128::MAX) by (nonlinear_arith)
            requires cost <= 0xffff_ffff_ffff_ffffu64, pool_state.lp_fee_basis_points <= 0xffff_ffff_ffff_ffffu64;
        assert(cost * pool_state.protocol_fee_basis_points <= u128::MAX) by (nonlinear_arith)
            requires cost <= 0xffff_ffff_ffff_ffffu64, pool_state.protocol_fee_basis_points <= 0xffff_ffff_ffff_ffffu64;
        assert(cost * creator <= u128::MAX) by (nonlinear_arith)
            requires cost <= 0xffff_ffff_ffff_ffffu64, creator <= 0xffff_ffff_ffff_ffffu64;
    }
    (cost as u128) * (pool_state.lp_fee_basis_points as u128) <= u64::MAX as u128
        && (cost as u128) * (pool_state.protocol_fee_basis_points as u128) <= u64::MAX as u128
        && (cost as u128) * (creator as u128) <= u64::MAX as u128
}

/// The quote cost of buying `base_amount` of the base token, fees included;
/// see `pump_buy_base_total`.
pub fn pump_buy_base_input_internal(pool_state: &PumpPoolState, base_amount: u64) -> (r: Result<
    u64,
    ErrorCode,
>)
    requires
        base_amount < pool_state.base_reserve,
        pump_buy_cost(*pool_state, base_amount) * pool_state.lp_fee_basis_points <= u64::MAX,
        pump_buy_cost(*pool_state, base_amount) * pool_state.protocol_fee_basis_points <= u64::MAX,
        pump_buy_cost(*pool_state, base_amount) * creator_fee_bps(*pool_state) <= u64::MAX,
    ensures
        r == pump_buy_base_total(*pool_state, base_amount),
{
    proof {
        assert(pool_state.quote_reserve * base_amount <= u64::MAX * u64::MAX) by (nonlinear_arith)
            requires pool_state.quote_reserve <= u64::MAX, base_amount <= u64::MAX;
    }
    let numerator = (pool_state.quote_reserve as u128) * (base_amount as u128);
    let denominator = (pool_state.base_reserve as u128) - (base_amount as u128);
    let quote_amount_in = ceil_div_u128(numerator, denominator) as u64;
    let lp_fee = ceil_div(quote_amount_in * pool_state.lp_fee_basis_points, 10000);
    let protocol_fee = ceil_div(quote_amount_in * pool_state.protocol_fee_basis_points, 10000);
    let coin_creator_fee_basis_points = get_coin_creator_fee_basis_points(pool_state);
    let coin_creator_fee = ceil_div(quote_amount_in * coin_creator_fee_basis_points, 10000);
    let total = match quote_amount_in.checked_add(lp_fee) {
        Some(x) => match x.checked_add(protocol_fee) {
            Some(y) => y.checked_add(coin_creator_fee),
            None => None,
        },
        None => None,
    };
    match total {
        Some(t) => Ok(t),
        None => Err(ErrorCode::MathOverflow),
    }
}

/// The base bought with `quote_amount` of quote: the fees come off the
/// input as `quote * 10000 / (10000 + fee_bps)`, then the constant-product
/// output, cut to 64 bits. `ZeroLiquidity` for an empty side.
pub open spec fn pump_buy_quote_output(pool: PumpPoolState, quote_amount: u64) -> Result<u64, ErrorCode> {
    if pool.base_reserve == 0 || pool.quote_reserve == 0 {
        Err(ErrorCode::ZeroLiquidity)
    } else {
        let fee = pool.lp_fee_basis_points + pool.protocol_fee_basis_points + creator_fee_bps(pool);
        let effective = quote_amount * 10000 / (10000 + fee);
        Ok((pool.base_reserve * effective / (pool.quote_reserve + effective)) as u64)
    }
}

/// The base bought with `quote_amount`; see `pump_buy_quote_output`.
pub fn pump_buy_quote_input_internal(pool_state: &PumpPoolState, quote_amount: u64) -> (r: Result<
    u64,
    ErrorCode,
>)
    requires
        pool_state.lp_fee_basis_points + pool_state.protocol_fee_basis_points + creator_fee_bps(
            *pool_state,
        ) <= u64::MAX,
    ensures
        r == pump_buy_quote_output(*pool_state, quote_amount),
{
    if pool_state.base_reserve == 0 || pool_state.quote_reserve == 0 {
        return Err(ErrorCode::ZeroLiquidity);
    }
    let total_fee_rate = pool_state.lp_fee_basis_points + pool_state.protocol_fee_basis_points
        + get_coin_creator_fee_basis_points(pool_state);
    let denominator = 10000u128 + total_fee_rate as u128;
    let effective_quote = (quote_amount as u128 * 10000u128) / denominator;
    proof {
        assert(effective_quote <= quote_amount) by (nonlinear_arith)
            requires
                effective_quote == quote_amount * 10000 / (denominator as int),
                denominator >= 10000,
        ;
        assert(pool_state.base_reserve * effective_quote <= u64::MAX * u64::MAX) by (nonlinear_arith)
            requires pool_state.base_reserve <= u64::MAX, effective_quote <= u64::MAX;
    }
    let numerator = (pool_state.base_reserve as u128) * effective_quote;
    let denominator_effective = (pool_state.quote_reserve as u128) + effective_quote;
    let base_amount_out = (numerator / denominator_effective) as u64;
    Ok(base_amount_out)
}

/// The quote received for selling `base_amount`: the constant-product
/// output cut to 64 bits, less its fees, or zero when the fees eat it.
/// `ZeroLiquidity` for an empty side.
pub open spec fn pump_sell_output(pool: PumpPoolState, base_amount: u64) -> Result<u64, ErrorCode> {
    if pool.base_reserve == 0 || pool.quote_reserve == 0 {
        Err(ErrorCode::ZeroLiquidity)
    } else {
        let out = (pool.quote_reserve * base_amount / (pool.base_reserve + base_amount)) as u64;
        let fees = ceil_bps(out as int, pool.lp_fee_basis_points as int) + ceil_bps(
            out as int,
            pool.protocol_fee_basis_points as int,
        ) + ceil_bps(out as int, creator_fee_bps(pool) as int);
        if fees >= out {
            Ok(0)
        } else {
            Ok((out - fees) as u64)
        }
    }
}

/// Whether the sell fees are computed without overflow.
pub open spec fn pump_sell_defined(pool: PumpPoolState, base_amount: u64) -> bool {
    let out = (pool.quote_reserve * base_amount / (pool.base_reserve + base_amount)) as u64;
    pool.base_reserve == 0 || pool.quote_reserve == 0 || {
        &&& out * pool.lp_fee_basis_points <= u64::MAX
        &&& out * pool.protocol_fee_basis_points <= u64::MAX
        &&& out * creator_fee_bps(pool) <= u64::MAX
        &&& ceil_bps(out as int, pool.lp_fee_basis_points as int) + ceil_bps(
            out as int,
            pool.protocol_fee_basis_points as int,
        ) + ceil_bps(out as int, creator_fee_bps(pool) as int) <= u64::MAX
    }
}

/// Whether a sale of `base_amount` can be quoted; see `pump_sell_defined`.
pub fn pump_sell_ready(pool_state: &PumpPoolState, base_amount: u64) -> (r: bool)
    ensures
        r == pump_sell_defined(*pool_state, base_amount),
{
    if pool_state.base_reserve == 0 || pool_state.quote_reserve == 0 {
        return true;
    }
    proof {
        assert(pool_state.quote_reserve * base_amount <= 0xffff_ffff_ffff_ffff * 0xffff_ffff_ffff_ffff) by (nonlinear_arith)
            requires pool_state.quote_reserve <= 0xffff_ffff_ffff_ffffu64, base_amount <= 0xffff_ffff_ffff_ffffu64;
    }
    let num = (pool_state.quote_reserve as u128) * (base_amount as u128);
    let den = (pool_state.base_reserve as u128) + (base_amount as u128);
    let out = (num / den) as u64;
    assert(out == (pool_state.quote_reserve * base_amount / (pool_state.base_reserve + base_amount)) as u64);
    let creator = get_coin_creator_fee_basis_points(pool_state);
    let lp = pool_state.lp_fee_basis_points;
    let protocol = pool_state.protocol_fee_basis_points;
    proof {
        assert(out * lp <= 0xffff_ffff_ffff_ffff * 0xffff_ffff_ffff_ffff) by (nonlinear_arith)
            requires out <= 0xffff_ffff_ffff_ffffu64, lp <= 0xffff_ffff_ffff_ffffu64;
        assert(out * protocol <= 0xffff_ffff_ffff_ffff * 0xffff_ffff_ffff_ffff) by (nonlinear_arith)
            requires out <= 0xffff_ffff_ffff_ffffu64, protocol <= 0xffff_ffff_ffff_ffffu64;
        assert(out * creator <= 0xffff_ffff_ffff_ffff * 0xffff_ffff_ffff_ffff) by (nonlinear_arith)
            requires out <= 0xffff_ffff_ffff_ffffu64, creator <= 0xffff_ffff_ffff_ffffu64;
    }
    let a = (out as u128) * (lp as u128);
    let b = (out as u128) * (protocol as u128);
    let c = (out as u128) * (creator as u128);
    if a > u64::MAX as u128 || b > u64::MAX as u128 || c > u64::MAX as u128 {
        return false;
    }
    let total = (a + 9_999) / 10_000 + (b + 9_999) / 10_000 + (c + 9_999) / 10_000;
    total <= u64::MAX as u128
}

/// The quote received for selling `base_amount`; see `pump_sell_output`.
pub fn pump_sell_base_input_internal(pool_state: &PumpPoolState, base_amount: u64) -> (r: Result<
    u64,
    ErrorCode,
>)
    requires
        pump_sell_defined(*pool_state, base_amount),
    ensures
        r == pump_sell_output(*pool_state, base_amount),
{
    if pool_state.base_reserve == 0 || pool_state.quote_reserve == 0 {
        return Err(ErrorCode::ZeroLiquidity);
    }
    proof {
        assert(pool_state.quote_reserve * base_amount <= u64::MAX * u64::MAX) by (nonlinear_arith)
            requires pool_state.quote_reserve <= u64::MAX, base_amount <= u64::MAX;
    }
    let numerator = (pool_state.quote_reserve as u128) * (base_amount as u128);
    let denominator = (pool_state.base_reserve as u128) + (base_amount as u128);
    let quote_amount_out = (numerator / denominator) as u64;
    let lp_fee = ceil_div(quote_amount_out * pool_state.lp_fee_basis_points, 10000);
    let protocol_fee = ceil_div(quote_amount_out * pool_state.protocol_fee_basis_points, 10000);
    let coin_creator_fee_basis_points = get_coin_creator_fee_basis_points(pool_state);
    let coin_creator_fee = ceil_div(quote_amount_out * coin_creator_fee_basis_points, 10000);
    let total_fees = lp_fee + protocol_fee + coin_creator_fee;
    if total_fees >= quote_amount_out {
        return Ok(0);
    }
    let final_quote = quote_amount_out - total_fees;
    Ok(final_quote)
}

/// A result less a transfer fee, when the result is `Ok`.
pub open spec fn less_transfer_fee(r: Result<u64, ErrorCode>, mint_fee: MintFeeInfo, epoch: u64) -> Result<
    u64,
    ErrorCode,
> {
    match r {
        Ok(v) => Ok((v - mint_transfer_fee(mint_fee, epoch, v)) as u64),
        Err(e) => Err(e),
    }
}

/// Whether taking the transfer fee off an `Ok` result is defined and does
/// not underflow.
pub open spec fn transfer_fee_fits(r: Result<u64, ErrorCode>, mint_fee: MintFeeInfo, epoch: u64) -> bool {
    match r {
        Ok(v) => mint_fee_defined(mint_fee, epoch, v) && mint_transfer_fee(mint_fee, epoch, v) <= v,
        Err(_) => true,
    }
}

/// Quote for spending `wsol_amount` of wrapped SOL: a buy when wrapped SOL
/// is the quote side, a sell when it is the base side, then the token's
/// transfer fee comes off. Zero for zero input; `InvalidTokenPair` when
/// neither side is wrapped SOL.
pub open spec fn pump_quote_wsol(pool: PumpPoolState, wsol_amount: u64, mint_fee: MintFeeInfo, epoch: u64) -> Result<
    u64,
    ErrorCode,
> {
    if wsol_amount == 0 {
        Ok(0)
    } else if pool.quote_mint@ == WSOL_MINT@ {
        less_transfer_fee(pump_buy_quote_output(pool, wsol_amount), mint_fee, epoch)
    } else if pool.base_mint@ == WSOL_MINT@ {
        less_transfer_fee(pump_sell_output(pool, wsol_amount), mint_fee, epoch)
    } else {
        Err(ErrorCode::InvalidTokenPair)
    }
}

/// Quote for spending `wsol_amount` of wrapped SOL; see `pump_quote_wsol`.
pub fn pump_quote_exact_input_wsol(
    pool_state: &PumpPoolState,
    wsol_amount: u64,
    mint_fee: &MintFeeInfo,
    epoch: u64,
) -> (r: Result<u64, ErrorCode>)
    requires
        pool_state.lp_fee_basis_points + pool_state.protocol_fee_basis_points + creator_fee_bps(
            *pool_state,
        ) <= u64::MAX,
        pump_sell_defined(*pool_state, wsol_amount),
        pool_state.quote_mint@ == WSOL_MINT@ ==> transfer_fee_fits(
            pump_buy_quote_output(*pool_state, wsol_amount),
            *mint_fee,
            epoch,
        ),
        pool_state.quote_mint@ != WSOL_MINT@ && pool_state.base_mint@ == WSOL_MINT@
            ==> transfer_fee_fits(pump_sell_output(*pool_state, wsol_amount), *mint_fee, epoch),
    ensures
        r == pump_quote_wsol(*pool_state, wsol_amount, *mint_fee, epoch),
{
    if wsol_amount == 0 {
        return Ok(0);
    }
    let mut token_amount_out = if key_eq(&pool_state.quote_mint, &WSOL_MINT) {
        pump_buy_quote_input_internal(pool_state, wsol_amount)?
    } else if key_eq(&pool_state.base_mint, &WSOL_MINT) {
        pump_sell_base_input_internal(pool_state, wsol_amount)?
    } else {
        return Err(ErrorCode::InvalidTokenPair);
    };
    let transfer_fee = get_transfer_fee(mint_fee, epoch, token_amount_out)?;
    token_amount_out = match transfer_fee {
        0 => token_amount_out,
        _ => token_amount_out - transfer_fee,
    };
    Ok(token_amount_out)
}

/// Quote for spending `token_amount` of the token: its transfer fee comes
/// off first; a sell when the base side is not wrapped SOL, a buy when
/// wrapped SOL is the quote side. Zero for zero input; `InvalidTokenPair`
/// otherwise.
pub open spec fn pump_quote_token(pool: PumpPoolState, token_amount: u64, mint_fee: MintFeeInfo, epoch: u64) -> Result<
    u64,
    ErrorCode,
> {
    let net = (token_amount - mint_transfer_fee(mint_fee, epoch, token_amount)) as u64;
    if token_amount == 0 {
        Ok(0)
    } else if pool.base_mint@ != WSOL_MINT@ {
        pump_sell_output(pool, net)
    } else if pool.quote_mint@ == WSOL_MINT@ {
        pump_buy_quote_output(pool, net)
    } else {
        Err(ErrorCode::InvalidTokenPair)
    }
}

/// Quote for spending `token_amount` of the token; see `pump_quote_token`.
pub fn pump_quote_exact_input_token(
    pool_state: &PumpPoolState,
    token_amount: u64,
    mint_fee: &MintFeeInfo,
    epoch: u64,
) -> (r: Result<u64, ErrorCode>)
    requires
        pool_state.lp_fee_basis_points + pool_state.protocol_fee_basis_points + creator_fee_bps(
            *pool_state,
        ) <= u64::MAX,
        mint_fee_defined(*mint_fee, epoch, token_amount),
        mint_transfer_fee(*mint_fee, epoch, token_amount) <= token_amount,
        pump_sell_defined(
            *pool_state,
            (token_amount - mint_transfer_fee(*mint_fee, epoch, token_amount)) as u64,
        ),
    ensures
        r == pump_quote_token(*pool_state, token_amount, *mint_fee, epoch),
{
    if token_amount == 0 {
        return Ok(0);
    }
    let transfer_fee = get_transfer_fee(mint_fee, epoch, token_amount)?;
    let token_amount = match transfer_fee {
        0 => token_amount,
        _ => token_amount - transfer_fee,
    };
    if !key_eq(&pool_state.base_mint, &WSOL_MINT) {
        pump_sell_base_input_internal(pool_state, token_amount)
    } else if key_eq(&pool_state.quote_mint, &WSOL_MINT) {
        pump_buy_quote_input_internal(pool_state, token_amount)
    } else {
        Err(ErrorCode::InvalidTokenPair)
    }
}

/// Quote for a token-to-token hop: the first token's transfer fee comes
/// off the input, a sell (base to quote) or a buy, then the second token's
/// transfer fee comes off the output. Zero for zero input.
pub open spec fn pump_quote_token_token(
    pool: PumpPoolState,
    is_base_to_quote: bool,
    token_amount: u64,
    fee1: MintFeeInfo,
    fee2: MintFeeInfo,
    epoch: u64,
) -> Result<u64, ErrorCode> {
    let net = (token_amount - mint_transfer_fee(fee1, epoch, token_amount)) as u64;
    if token_amount == 0 {
        Ok(0)
    } else if is_base_to_quote {
        less_transfer_fee(pump_sell_output(pool, net), fee2, epoch)
    } else {
        less_transfer_fee(pump_buy_quote_output(pool, net), fee2, epoch)
    }
}

/// Quote for a token-to-token hop; see `pump_quote_token_token`.
pub fn pump_quote_exact_input_token_output_token(
    pool_state: &PumpPoolState,
    is_base_to_quote: bool,
    token_amount: u64,
    token1_fee: &MintFeeInfo,
    token2_fee: &MintFeeInfo,
    epoch: u64,
) -> (r: Result<u64, ErrorCode>)
    requires
        pool_state.lp_fee_basis_points + pool_state.protocol_fee_basis_points + creator_fee_bps(
            *pool_state,
        ) <= u64::MAX,
        mint_fee_defined(*token1_fee, epoch, token_amount),
        mint_transfer_fee(*token1_fee, epoch, token_amount) <= token_amount,
        ({
            let net = (token_amount - mint_transfer_fee(*token1_fee, epoch, token_amount)) as u64;
            &&& pump_sell_defined(*pool_state, net)
            &&& transfer_fee_fits(
                if is_base_to_quote {
                    pump_sell_output(*pool_state, net)
                } else {
                    pump_buy_quote_output(*pool_state, net)
                },
                *token2_fee,
                epoch,
            )
        }),
    ensures
        r == pump_quote_token_token(*pool_state, is_base_to_quote, token_amount, *token1_fee, *token2_fee, epoch),
{
    if token_amount == 0 {
        return Ok(0);
    }
    let transfer_fee = get_transfer_fee(token1_fee, epoch, token_amount)?;
    let token_amount = match transfer_fee {
        0 => token_amount,
        _ => token_amount - transfer_fee,
    };
    let mut token2_amount_out = if is_base_to_quote {
        pump_sell_base_input_internal(pool_state, token_amount)?
    } else {
        pump_buy_quote_input_internal(pool_state, token_amount)?
    };
    let transfer_fee = get_transfer_fee(token2_fee, epoch, token2_amount_out)?;
    token2_amount_out = match transfer_fee {
        0 => token2_amount_out,
        _ => token2_amount_out - transfer_fee,
    };
    Ok(token2_amount_out)
}


/// Floor division leaves a remainder below the divisor.
proof fn lemma_pump_floor_bounds(n: int, d: int)
    requires
        n >= 0,
        d > 0,
    ensures
        d * (n / d) <= n,
        n < d * (n / d + 1),
{
    vstd::arithmetic::div_mod::lemma_fundamental_div_mod(n, d);
    assert(d * (n / d + 1) == d * (n / d) + d) by (nonlinear_arith);
}

/// A buy pays in quote and takes out base along the constant product: with
/// the fees taken off the input as `quote * 10000 / (10000 + fee_bps)`, the
/// base bought is the largest amount that keeps the product of the two
/// reserves from falling.
pub proof fn law_pump_buy_keeps_product(pool: PumpPoolState, quote_amount: u64)
    requires
        pool.base_reserve > 0,
        pool.quote_reserve > 0,
    ensures
        pump_buy_quote_output(pool, quote_amount) matches Ok(out) ==> {
            let fee = pool.lp_fee_basis_points + pool.protocol_fee_basis_points + creator_fee_bps(pool);
            let e = quote_amount * 10000 / (10000 + fee);
            &&& out < pool.base_reserve
            &&& (pool.quote_reserve + e) * (pool.base_reserve - out) >= pool.base_reserve * pool.quote_reserve
            &&& (pool.quote_reserve + e) * (pool.base_reserve - out - 1) < pool.base_reserve * pool.quote_reserve
        },
{
    let fee = pool.lp_fee_basis_points + pool.protocol_fee_basis_points + creator_fee_bps(pool);
    let e = quote_amount * 10000 / (10000 + fee);
    let b = pool.base_reserve as int;
    let q = pool.quote_reserve as int;
    assert(e >= 0) by (nonlinear_arith)
        requires e == quote_amount * 10000 / (10000 + fee), fee >= 0, quote_amount >= 0;
    let n = b * e;
    let d = q + e;
    assert(n >= 0) by (nonlinear_arith)
        requires n == b * e, b >= 0, e >= 0;
    lemma_pump_floor_bounds(n, d);
    let o = n / d;
    assert(0 <= o < b) by (nonlinear_arith)
        requires d * o <= n, n == b * e, d == q + e, q > 0, b > 0, e >= 0, o == n / d, n >= 0, d > 0;
    assert(d * (b - o) >= b * q) by (nonlinear_arith)
        requires d * o <= n, n == b * e, d == q + e;
    assert(d * (b - o - 1) < b * q) by (nonlinear_arith)
        requires n < d * (o + 1), n == b * e, d == q + e;
}

/// A sale pays in base and takes out quote along the constant product: the
/// quote received, its fees taken off, never takes out more than keeps the
/// product of the two reserves from falling.
pub proof fn law_pump_sell_keeps_product(pool: PumpPoolState, base_amount: u64)
    requires
        pool.base_reserve > 0,
        pool.quote_reserve > 0,
    ensures
        pump_sell_output(pool, base_amount) matches Ok(out) ==> (pool.base_reserve + base_amount) * (pool.quote_reserve - out)
            >= pool.base_reserve * pool.quote_reserve,
{
    let b = pool.base_reserve as int;
    let q = pool.quote_reserve as int;
    let n = q * base_amount;
    let d = b + base_amount;
    assert(n >= 0) by (nonlinear_arith)
        requires n == q * base_amount, q >= 0, base_amount >= 0;
    lemma_pump_floor_bounds(n, d);
    let g = n / d;
    assert(0 <= g < q) by (nonlinear_arith)
        requires d * g <= n, n == q * base_amount, d == b + base_amount, b > 0, q > 0, base_amount >= 0, g == n / d, n >= 0, d > 0;
    assert(d * (q - g) >= b * q) by (nonlinear_arith)
        requires d * g <= n, n == q * base_amount, d == b + base_amount;
    if let Ok(out) = pump_sell_output(pool, base_amount) {
        assert(out <= g);
        assert(d * (q - out) >= d * (q - g)) by (nonlinear_arith)
            requires out <= g, d > 0;
    }
}


/// Spending wrapped SOL on a pump pool of a plain token trades along the
/// constant product on the side wrapped SOL is on: as the quote side it
/// buys base (the largest amount the product allows for the input net of
/// fees), as the base side it sells into the quote reserve without taking
/// out more than the product allows.
pub proof fn law_pump_wsol_quote_keeps_product(pool: PumpPoolState, wsol_amount: u64, mint_fee: MintFeeInfo, epoch: u64)
    requires
        pool.base_reserve > 0,
        pool.quote_reserve > 0,
        mint_fee.owner@ == TOKEN_PROGRAM_ID@,
    ensures
        pump_quote_wsol(pool, wsol_amount, mint_fee, epoch) matches Ok(o) ==> {
            let b = pool.base_reserve as int;
            let q = pool.quote_reserve as int;
            let fee = pool.lp_fee_basis_points + pool.protocol_fee_basis_points + creator_fee_bps(pool);
            let e = wsol_amount * 10000 / (10000 + fee);
            &&& pool.quote_mint@ == WSOL_MINT@ ==> (q + e) * (b - o) >= b * q && (q + e) * (b - o - 1) < b * q
            &&& pool.quote_mint@ != WSOL_MINT@ && pool.base_mint@ == WSOL_MINT@ ==> (b + wsol_amount) * (q - o) >= b * q
        },
{
    law_pump_buy_keeps_product(pool, wsol_amount);
    law_pump_sell_keeps_product(pool, wsol_amount);
    if wsol_amount == 0 {
        let fee = pool.lp_fee_basis_points + pool.protocol_fee_basis_points + creator_fee_bps(pool);
        assert(0int * 10000 / (10000 + fee) == 0) by (nonlinear_arith)
            requires fee >= 0;
        let b = pool.base_reserve as int;
        let q = pool.quote_reserve as int;
        assert((q + 0) * (b - 0 - 1) < b * q) by (nonlinear_arith)
            requires q > 0, b > 0;
    }
}

} // verus!
