use vstd::prelude::*;

use crate::bytes::{key_eq, le_value, read_u64, AccountView};
use crate::cpmm::CpmmPoolState;
use crate::errors::ErrorCode;
use crate::optimalamt::OptimizationResult;
use crate::pools::WSOL_MINT;
use crate::pump::{
    creator_fee_bps, get_coin_creator_fee_basis_points, pump_quote_exact_input_token, pump_quote_token, pump_sell_defined,
    pump_sell_ready, PumpPoolState,
};
use crate::clmm::ClmmPoolState;
use crate::token_fee::{get_transfer_fee, mint_fee_defined, mint_fee_is_defined, mint_transfer_fee, MintFeeInfo};

verus! {

/// The `n` little-endian bytes of `x` (its value modulo `256^n`).
pub open spec fn le_bytes(x: nat, n: nat) -> Seq<u8>
    decreases n,
{
    if n == 0 {
        Seq::empty()
    } else {
        seq![(x % 256) as u8] + le_bytes(x / 256, (n - 1) as nat)
    }
}

/// Appends the `n` little-endian bytes of `x`.
fn push_le(v: &mut Vec<u8>, x: u128, n: usize)
    requires
        n <= 16,
    ensures
        final(v)@ == old(v)@ + le_bytes(x as nat, n as nat),
{
    let mut y: u128 = x;
    let mut i: usize = 0;
    while i < n
        invariant
            i <= n,
            v@ + le_bytes(y as nat, (n - i) as nat) == old(v)@ + le_bytes(x as nat, n as nat),
        decreases n - i,
    {
        let ghost before = v@;
        let b = (y % 256) as u8;
        v.push(b);
        proof {
            let k = (n - i) as nat;
            assert(le_bytes(y as nat, k) == seq![(y as nat % 256) as u8] + le_bytes((y / 256) as nat, (k - 1) as nat));
            assert((n - (i + 1)) as nat == (k - 1) as nat);
            assert(v@ + le_bytes((y / 256) as nat, (k - 1) as nat) =~= before + le_bytes(y as nat, k));
        }
        y = y / 256;
        i += 1;
    }
    assert(le_bytes(y as nat, 0) =~= Seq::<u8>::empty());
    assert(v@ =~= v@ + le_bytes(y as nat, 0));
}

/// An 8-byte discriminator and two 64-bit amounts, little-endian.
pub open spec fn two_amounts_data(discriminator: Seq<u8>, a: u64, b: u64) -> Seq<u8> {
    discriminator + le_bytes(a as nat, 8) + le_bytes(b as nat, 8)
}

/// An instruction tag and two 64-bit amounts, little-endian.
fn two_amounts(discriminator: &[u8], a: u64, b: u64) -> (r: Vec<u8>)
    ensures
        r@ == two_amounts_data(discriminator@, a, b),
{
    let mut data: Vec<u8> = Vec::new();
    let mut i: usize = 0;
    while i < discriminator.len()
        invariant
            i <= discriminator@.len(),
            data@ == discriminator@.subrange(0, i as int),
        decreases discriminator@.len() - i,
    {
        data.push(discriminator[i]);
        proof {
            assert(discriminator@.subrange(0, i + 1) =~= discriminator@.subrange(0, i as int).push(discriminator@[i as int]));
        }
        i += 1;
    }
    assert(discriminator@.subrange(0, i as int) =~= discriminator@);
    push_le(&mut data, a as u128, 8);
    push_le(&mut data, b as u128, 8);
    data
}

/// The discriminator of the constant-product `swap_base_input`
/// instruction.
pub const CPMM_SWAP_BASE_INPUT_DISCRIMINATOR: [u8; 8] = [143, 190, 90, 218, 196, 30, 51, 222];

/// The discriminator of the DLMM and DAMM v2 `swap` instructions.
pub const METEORA_SWAP_DISCRIMINATOR: [u8; 8] = [248, 198, 158, 145, 225, 117, 135, 200];

/// The discriminator of the CLMM and Whirlpool `swap_v2` instructions.
pub const SWAP_V2_DISCRIMINATOR: [u8; 8] = [43, 4, 237, 11, 26, 201, 30, 98];

/// The discriminator of the pump AMM `buy` instruction.
pub const PUMP_BUY_DISCRIMINATOR: [u8; 8] = [102, 6, 61, 18, 1, 218, 235, 234];

/// The discriminator of the pump AMM `sell` instruction.
pub const PUMP_SELL_DISCRIMINATOR: [u8; 8] = [51, 230, 133, 164, 1, 127, 131, 173];

/// The Raydium AMM v4 `swap_base_in` instruction tag.
pub const RAYDIUM_SWAP_BASE_IN_TAG: [u8; 1] = [9];

/// The data of a constant-product `swap_base_input` of `trade_amount` with
/// no least output.
pub fn cpmm_swap_data(trade_amount: u64) -> (r: Vec<u8>)
    ensures
        r@ == two_amounts_data(CPMM_SWAP_BASE_INPUT_DISCRIMINATOR@, trade_amount, 0),
{
    two_amounts(&CPMM_SWAP_BASE_INPUT_DISCRIMINATOR, trade_amount, 0)
}

/// The data of a DLMM or DAMM v2 `swap` of `trade_amount` with no least
/// output.
pub fn meteora_swap_data(trade_amount: u64) -> (r: Vec<u8>)
    ensures
        r@ == two_amounts_data(METEORA_SWAP_DISCRIMINATOR@, trade_amount, 0),
{
    two_amounts(&METEORA_SWAP_DISCRIMINATOR, trade_amount, 0)
}

/// The data of a Raydium `swap_base_in` of `amount_in` with no least
/// output.
pub fn raydium_swap_data(amount_in: u64) -> (r: Vec<u8>)
    ensures
        r@ == two_amounts_data(RAYDIUM_SWAP_BASE_IN_TAG@, amount_in, 0),
{
    two_amounts(&RAYDIUM_SWAP_BASE_IN_TAG, amount_in, 0)
}

/// The data of a pump `buy` of `base_amount_out` for at most
/// `max_quote_amount_in`.
pub fn pump_buy_data(base_amount_out: u64, max_quote_amount_in: u64) -> (r: Vec<u8>)
    ensures
        r@ == two_amounts_data(PUMP_BUY_DISCRIMINATOR@, base_amount_out, max_quote_amount_in),
{
    two_amounts(&PUMP_BUY_DISCRIMINATOR, base_amount_out, max_quote_amount_in)
}

/// The data of a pump `sell` of `base_amount_in` for at least
/// `min_quote_amount_out`.
pub fn pump_sell_data(base_amount_in: u64, min_quote_amount_out: u64) -> (r: Vec<u8>)
    ensures
        r@ == two_amounts_data(PUMP_SELL_DISCRIMINATOR@, base_amount_in, min_quote_amount_out),
{
    two_amounts(&PUMP_SELL_DISCRIMINATOR, base_amount_in, min_quote_amount_out)
}

/// The data of a CLMM `swap_v2` of exactly `amount` in: no least output,
/// no price limit, the amount being the input.
pub open spec fn clmm_swap_v2_data(amount: u64) -> Seq<u8> {
    two_amounts_data(SWAP_V2_DISCRIMINATOR@, amount, 0) + le_bytes(0, 16) + seq![1u8]
}

/// The data of a CLMM `swap_v2`; see `clmm_swap_v2_data`.
pub fn build_clmm_swap_instruction_data(amount: u64) -> (r: Vec<u8>)
    ensures
        r@ == clmm_swap_v2_data(amount),
{
    let mut data = two_amounts(&SWAP_V2_DISCRIMINATOR, amount, 0);
    push_le(&mut data, 0, 16);
    data.push(1);
    data
}

/// The data of a Whirlpool `swapV2` of exactly `amount` in, in the given
/// direction: no least output, no price limit, the amount being the
/// input, and no remaining-accounts information.
pub open spec fn whirlpool_swap_v2_data(amount: u64, a_to_b: bool) -> Seq<u8> {
    two_amounts_data(SWAP_V2_DISCRIMINATOR@, amount, 0) + le_bytes(0, 16) + seq![1u8, if a_to_b { 1u8 } else { 0u8 }, 0u8]
}

/// The data of a Whirlpool `swapV2`; see `whirlpool_swap_v2_data`.
pub fn build_whirlpool_swap_instruction_data(amount: u64, a_to_b: bool) -> (r: Vec<u8>)
    ensures
        r@ == whirlpool_swap_v2_data(amount, a_to_b),
{
    let mut data = two_amounts(&SWAP_V2_DISCRIMINATOR, amount, 0);
    push_le(&mut data, 0, 16);
    data.push(1);
    data.push(if a_to_b {
        1
    } else {
        0
    });
    data.push(0);
    proof {
        assert(data@ =~= whirlpool_swap_v2_data(amount, a_to_b));
    }
    data
}

/// Which leg of the route a swap is: the buy from wrapped SOL, the middle
/// swap between two tokens of a three-hop route, or the sell back.
#[derive(PartialEq, Eq, Debug, Clone, Copy, Structural)]
pub enum Leg {
    Buy,
    Mid,
    Sell,
}

/// Whether a pump swap buys the pool's base token: on the buy leg it does,
/// on the sell leg it does not, and on the middle leg it does when the
/// swap's output is the base mint.
pub fn pump_leg_buys(pool_state: &PumpPoolState, leg: Leg, output_mint: &[u8; 32]) -> (r: bool)
    ensures
        r == match leg {
            Leg::Buy => true,
            Leg::Sell => false,
            Leg::Mid => pool_state.base_mint@ == output_mint@,
        },
{
    match leg {
        Leg::Buy => true,
        Leg::Sell => false,
        Leg::Mid => key_eq(&pool_state.base_mint, output_mint),
    }
}

/// The token program a Raydium swap hands on.
#[derive(PartialEq, Eq, Debug, Clone, Copy, Structural)]
pub enum RaydiumTokenProgram {
    /// The program of the token bought.
    OfOutput,
    /// The program of the token sold.
    OfInput,
    /// The classic token program.
    Classic,
}

/// Which token program a Raydium swap hands on, by its leg: the bought
/// token's on the buy leg, the sold token's on the sell leg, the classic
/// token program between two tokens (Raydium pools hold no Token-2022
/// token).
pub fn raydium_token_program(leg: Leg) -> (r: RaydiumTokenProgram)
    ensures
        r == match leg {
            Leg::Buy => RaydiumTokenProgram::OfOutput,
            Leg::Sell => RaydiumTokenProgram::OfInput,
            Leg::Mid => RaydiumTokenProgram::Classic,
        },
{
    match leg {
        Leg::Buy => RaydiumTokenProgram::OfOutput,
        Leg::Sell => RaydiumTokenProgram::OfInput,
        Leg::Mid => RaydiumTokenProgram::Classic,
    }
}

/// Whether a Whirlpool trade goes from token A to token B: buying the
/// token with wrapped SOL does when wrapped SOL is token A, selling it does
/// when wrapped SOL is token B.
pub fn whirlpool_a_to_b(is_buy: bool, wsol_is_token_a: bool) -> (r: bool)
    ensures
        r == (is_buy == wsol_is_token_a),
{
    if is_buy {
        wsol_is_token_a
    } else {
        !wsol_is_token_a
    }
}


/// The input and output vaults of a constant-product trade: the wrapped
/// SOL vault in and the token vault out when buying, the other way when
/// selling.
pub fn cpmm_vaults(pool_state: &CpmmPoolState, is_buy: bool) -> (r: (usize, usize))
    ensures
        ({
            let wsol_first = pool_state.token0_mint@ == WSOL_MINT@;
            let (w, t) = if wsol_first {
                (pool_state.token0_vault_index, pool_state.token1_vault_index)
            } else {
                (pool_state.token1_vault_index, pool_state.token0_vault_index)
            };
            r == if is_buy {
                (w, t)
            } else {
                (t, w)
            }
        }),
{
    let (w, t) = if key_eq(&pool_state.token0_mint, &WSOL_MINT) {
        (pool_state.token0_vault_index, pool_state.token1_vault_index)
    } else {
        (pool_state.token1_vault_index, pool_state.token0_vault_index)
    };
    if is_buy {
        (w, t)
    } else {
        (t, w)
    }
}

/// The mint, program and token-account positions of the token sold back
/// for wrapped SOL: token 2's in a three-hop trade, token 1's otherwise.
pub fn sell_token_indices(optimization_result: &OptimizationResult) -> (r: (usize, usize, usize))
    requires
        optimization_result.is_3hop ==> optimization_result.token2_mint_index is Some
            && optimization_result.token2_program_index is Some && optimization_result.token2_account_index is Some,
    ensures
        r == if optimization_result.is_3hop {
            (
                optimization_result.token2_mint_index->0,
                optimization_result.token2_program_index->0,
                optimization_result.token2_account_index->0,
            )
        } else {
            (optimization_result.token1_mint_index, optimization_result.token1_program_index, optimization_result.token1_account_index)
        },
{
    if optimization_result.is_3hop {
        match (
            optimization_result.token2_mint_index,
            optimization_result.token2_program_index,
            optimization_result.token2_account_index,
        ) {
            (Some(a), Some(b), Some(c)) => (a, b, c),
            _ => {
                proof {
                    assert(false);
                }
                (0, 0, 0)
            },
        }
    } else {
        (optimization_result.token1_mint_index, optimization_result.token1_program_index, optimization_result.token1_account_index)
    }
}

/// `a - b`, or zero below.
pub open spec fn sat_sub(a: u64, b: u64) -> u64 {
    if a >= b {
        (a - b) as u64
    } else {
        0
    }
}

/// The profit an arbitrage made: the wrapped SOL balance's gain over the
/// start, less the least profit asked for, each saturating at zero;
/// `NoProfit` unless above 4 lamports.
pub fn arbitrage_real_profit(after_wsol_balance: u64, initial_wsol_balance: u64, min_profit: u32) -> (r: Result<u64, ErrorCode>)
    ensures
        ({
            let gain = sat_sub(sat_sub(after_wsol_balance, initial_wsol_balance), min_profit as u64);
            if gain <= 4 {
                r == Err::<u64, ErrorCode>(ErrorCode::NoProfit)
            } else {
                r == Ok::<u64, ErrorCode>(gain)
            }
        }),
{
    let real_profit = after_wsol_balance.saturating_sub(initial_wsol_balance).saturating_sub(min_profit as u64);
    if real_profit <= 4 {
        return Err(ErrorCode::NoProfit);
    }
    Ok(real_profit)
}

/// Whether the quote behind a pump sell's least output is defined: see
/// `pump_quote_exact_input_token`.
pub open spec fn pump_sell_quote_ok(pool: PumpPoolState, amount: u64, mint: MintFeeInfo, epoch: u64) -> bool {
    &&& pool.lp_fee_basis_points + pool.protocol_fee_basis_points + creator_fee_bps(pool) <= u64::MAX
    &&& mint_fee_defined(mint, epoch, amount)
    &&& mint_transfer_fee(mint, epoch, amount) <= amount
    &&& pump_sell_defined(pool, (amount - mint_transfer_fee(mint, epoch, amount)) as u64)
}

/// Whether the quote behind a pump sell's least output can be made; see
/// `pump_sell_quote_ok`.
pub fn pump_sell_quote_ready(pool_state: &PumpPoolState, amount: u64, mint: &MintFeeInfo, epoch: u64) -> (r: bool)
    ensures
        r == pump_sell_quote_ok(*pool_state, amount, *mint, epoch),
{
    let creator = get_coin_creator_fee_basis_points(pool_state);
    if (pool_state.lp_fee_basis_points as u128) + (pool_state.protocol_fee_basis_points as u128) + (creator as u128) > u64::MAX as u128 {
        return false;
    }
    if !mint_fee_is_defined(mint, epoch, amount) {
        return false;
    }
    let fee = match get_transfer_fee(mint, epoch, amount) {
        Ok(f) => f,
        Err(_) => {
            return false;
        },
    };
    if fee > amount {
        return false;
    }
    pump_sell_ready(pool_state, amount - fee)
}

/// The least wrapped SOL asked for when selling `token_amount_balance` on a
/// pump pool: the planned total, or, when none was planned and wrapped SOL
/// is the pool's base, the quote for the balance (see `pump_quote_token`)
/// less 100, saturating.
pub fn pump_sell_min_out(
    pool_state: &PumpPoolState,
    total_wsol_out: u64,
    token_amount_balance: u64,
    token_mint_info: &MintFeeInfo,
    epoch: u64,
) -> (r: Result<u64, ErrorCode>)
    requires
        total_wsol_out == 0 && pool_state.base_mint@ == WSOL_MINT@ ==> pump_sell_quote_ok(*pool_state, token_amount_balance, *token_mint_info, epoch),
    ensures
        if total_wsol_out == 0 && pool_state.base_mint@ == WSOL_MINT@ {
            match pump_quote_token(*pool_state, token_amount_balance, *token_mint_info, epoch) {
                Ok(q) => r == Ok::<u64, ErrorCode>(sat_sub(q, 100)),
                Err(e) => r == Err::<u64, ErrorCode>(e),
            }
        } else {
            r == Ok::<u64, ErrorCode>(total_wsol_out)
        },
{
    if total_wsol_out == 0 && key_eq(&pool_state.base_mint, &WSOL_MINT) {
        let q = pump_quote_exact_input_token(pool_state, token_amount_balance, token_mint_info, epoch)?;
        return Ok(q.saturating_sub(100));
    }
    Ok(total_wsol_out)
}

/// The amount a token account holds: the little-endian word at byte 64
/// (after the mint and the owner), where the token programs keep it.
pub fn token_account_amount(data: &Vec<u8>) -> (r: u64)
    requires
        data@.len() >= 72,
    ensures
        r as nat == le_value(data@, 64, 8),
{
    read_u64(data, 64)
}

/// Whether the account at position `i` belongs to the program whose address
/// is that of the account at `program_id_index`.
pub open spec fn owned_by_program(accounts: Seq<AccountView>, program_id_index: usize) -> spec_fn(usize) -> bool {
    |i: usize| accounts[i as int].owner@ == accounts[program_id_index as int].key@
}

/// The bin arrays a DLMM swap is handed: those of the given positions whose
/// accounts the DLMM program (the account at `program_id_index`) owns, in
/// their order.
pub fn get_valid_bin_arrays(accounts: &Vec<AccountView>, bin_array_indices: &Vec<usize>, program_id_index: usize) -> (r: Vec<usize>)
    requires
        program_id_index < accounts.len(),
        forall|k: int| 0 <= k < bin_array_indices@.len() ==> #[trigger] bin_array_indices@[k] < accounts.len(),
    ensures
        r@ == bin_array_indices@.filter(owned_by_program(accounts@, program_id_index)),
{
    let ghost pred = owned_by_program(accounts@, program_id_index);
    let mut valid_arrays: Vec<usize> = Vec::new();
    let mut i: usize = 0;
    assert(bin_array_indices@.take(0).filter(pred) =~= Seq::<usize>::empty()) by {
        reveal(Seq::filter);
    }
    while i < bin_array_indices.len()
        invariant
            i <= bin_array_indices.len(),
            program_id_index < accounts.len(),
            forall|k: int| 0 <= k < bin_array_indices@.len() ==> #[trigger] bin_array_indices@[k] < accounts.len(),
            pred == owned_by_program(accounts@, program_id_index),
            valid_arrays@ == bin_array_indices@.take(i as int).filter(pred),
        decreases bin_array_indices.len() - i,
    {
        let index = bin_array_indices[i];
        let ghost next = bin_array_indices@.take(i as int + 1);
        assert(next.drop_last() =~= bin_array_indices@.take(i as int));
        assert(next.last() == index);
        assert(next.filter(pred) == (if pred(index) {
            next.drop_last().filter(pred).push(index)
        } else {
            next.drop_last().filter(pred)
        })) by {
            reveal(Seq::filter);
        }
        if key_eq(&accounts[index].owner, &accounts[program_id_index].key) {
            valid_arrays.push(index);
        }
        i += 1;
    }
    assert(bin_array_indices@.take(i as int) =~= bin_array_indices@);
    valid_arrays
}

/// The input and output vaults of a constant-product trade whose input is
/// the token `input_mint`: token 0's vault first when that is token 0.
pub fn cpmm_input_vaults(pool_state: &CpmmPoolState, input_mint: &[u8; 32]) -> (r: (usize, usize))
    ensures
        r == if pool_state.token0_mint@ == input_mint@ {
            (pool_state.token0_vault_index, pool_state.token1_vault_index)
        } else {
            (pool_state.token1_vault_index, pool_state.token0_vault_index)
        },
{
    if key_eq(&pool_state.token0_mint, input_mint) {
        (pool_state.token0_vault_index, pool_state.token1_vault_index)
    } else {
        (pool_state.token1_vault_index, pool_state.token0_vault_index)
    }
}

/// The input and output vaults of a CLMM buy or sell: token 0's vault in
/// when buying, token 1's when selling (wrapped SOL taken as token 0).
pub fn clmm_vaults(pool_state: &ClmmPoolState, is_buy: bool) -> (r: (usize, usize))
    ensures
        r == if is_buy {
            (pool_state.token_vault_0_index, pool_state.token_vault_1_index)
        } else {
            (pool_state.token_vault_1_index, pool_state.token_vault_0_index)
        },
{
    if is_buy {
        (pool_state.token_vault_0_index, pool_state.token_vault_1_index)
    } else {
        (pool_state.token_vault_1_index, pool_state.token_vault_0_index)
    }
}

/// The input and output vaults of a CLMM trade whose input is the token
/// `input_mint`: token 0's vault first when that is token 0.
pub fn clmm_input_vaults(pool_state: &ClmmPoolState, input_mint: &[u8; 32]) -> (r: (usize, usize))
    ensures
        r == if pool_state.token_mint_0@ == input_mint@ {
            (pool_state.token_vault_0_index, pool_state.token_vault_1_index)
        } else {
            (pool_state.token_vault_1_index, pool_state.token_vault_0_index)
        },
{
    if key_eq(&pool_state.token_mint_0, input_mint) {
        (pool_state.token_vault_0_index, pool_state.token_vault_1_index)
    } else {
        (pool_state.token_vault_1_index, pool_state.token_vault_0_index)
    }
}

} // verus!
