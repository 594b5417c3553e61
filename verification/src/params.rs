use vstd::prelude::*;

use crate::bytes::{key_eq, le_value, AccountView};
use crate::clmm::{
    arrays_read, arrays_view_of, arrays_well_formed, extension_limb, extract_tick_array_bitmap, lemma_arrays_read_same,
    parse_tick_array_states, ClmmParams, ClmmPoolState, TickArrayBitmapExtension,
};
use crate::comparison::{MidPoolInfo, ParsedPoolState};
use crate::dlmm::{bin_arrays_outcome, parse_dlmm_bin_arrays_optimized, BinState, DlmmPoolState};
use crate::errors::ErrorCode;
use crate::optimalamt::{bins_view, extract_pool_info, opt_mid, pool_info, sqrt_limit, sqrt_limit_of, ArbitrageParams};
use crate::pools::{CLMM_PROGRAM_ID, WHIRLPOOL_PROGRAM_ID, WSOL_MINT};
use crate::whirlpool::{
    arrays_view, kept_array, oracle_read, parse_whirlpool_oracle_adaptive_fee, parse_whirlpool_tick_arrays_three, AdaptiveFeeInfo,
    WhirlpoolParams, WhirlpoolPoolState, SYSTEM_PROGRAM_ID,
};
use crate::wide::Rounding;

verus! {

/// A copy of an account: the same address, owner and data.
fn copy_account(a: &AccountView) -> (r: AccountView)
    ensures
        r.key == a.key,
        r.owner == a.owner,
        r.data@ == a.data@,
{
    let data = a.data.clone();
    assert(data@ =~= a.data@);
    AccountView { key: a.key, owner: a.owner, data }
}

// ---------------------------------------------------------------------------
// CLMM
// ---------------------------------------------------------------------------

/// The accounts a CLMM pool's parameters are read from lie within `accounts`,
/// and its tick arrays, where the CLMM program owns them, are long enough.
pub open spec fn clmm_accounts_ok(state: ClmmPoolState, accounts: Seq<AccountView>) -> bool {
    &&& state.tick_array_minus_1_index < accounts.len()
    &&& state.tick_array_0_index < accounts.len()
    &&& state.tick_array_1_index < accounts.len()
    &&& state.bitmap_extension_index < accounts.len()
    &&& state.pool_index < accounts.len()
    &&& forall|k: usize| #![auto] (k == state.tick_array_minus_1_index || k == state.tick_array_0_index || k == state.tick_array_1_index)
        ==> accounts[k as int].owner@ == CLMM_PROGRAM_ID@ ==> accounts[k as int].data@.len() >= 44 + 60 * 168
}

/// Reading a CLMM pool's parameters fails, with `InvalidAccountData`, when
/// its bitmap extension belongs to the CLMM program but is shorter than 1832
/// bytes, or when the pool account is shorter than 1032 bytes.
pub open spec fn clmm_params_error(state: ClmmPoolState, accounts: Seq<AccountView>) -> Option<ErrorCode> {
    let ext = accounts[state.bitmap_extension_index as int];
    if ext.owner@ == CLMM_PROGRAM_ID@ && ext.data@.len() < 1832 {
        Some(ErrorCode::InvalidAccountData)
    } else if accounts[state.pool_index as int].data@.len() < 1032 {
        Some(ErrorCode::InvalidAccountData)
    } else {
        None
    }
}

/// `e` is the bitmap extension read from `account`: none when the CLMM
/// program does not own it, else its pool and its two bitmaps.
pub open spec fn extension_read(e: Option<TickArrayBitmapExtension>, account: AccountView) -> bool {
    if account.owner@ != CLMM_PROGRAM_ID@ {
        e is None
    } else {
        e matches Some(x) && x.pool_id@ == account.data@.subrange(8, 40) && forall|i: int, j: int|
            0 <= i < 14 && 0 <= j < 8 ==> x.positive_tick_array_bitmap[i][j] == extension_limb(account.data@, 8 * i + j)
                && x.negative_tick_array_bitmap[i][j] == extension_limb(account.data@, 112 + 8 * i + j)
    }
}

/// The three tick-array accounts of a CLMM pool, in order.
pub open spec fn clmm_tick_accounts(state: ClmmPoolState, accounts: Seq<AccountView>) -> Seq<AccountView> {
    seq![
        accounts[state.tick_array_minus_1_index as int],
        accounts[state.tick_array_0_index as int],
        accounts[state.tick_array_1_index as int],
    ]
}

/// `p` holds a CLMM pool's parameters as read from `accounts`, with the
/// price limit `limit`: the tick arrays its three tick-array accounts hold
/// (see `arrays_read`), the bitmap extension and the pool's own sixteen
/// bitmap words (from byte 904).
pub open spec fn clmm_params_read(p: ClmmParams, state: ClmmPoolState, accounts: Seq<AccountView>, limit: u128) -> bool {
    &&& arrays_well_formed(p.tick_array_states@)
    &&& arrays_view_of(p.tick_array_states@) == arrays_read(clmm_tick_accounts(state, accounts))
    &&& p.sqrt_price_limit_x64 == limit
    &&& extension_read(p.bitmap_extension, accounts[state.bitmap_extension_index as int])
    &&& forall|i: int| 0 <= i < 16 ==> p.tick_array_bitmap[i] as nat == le_value(accounts[state.pool_index as int].data@, 904 + 8 * i, 8)
}

/// Reads a CLMM pool's parameters with the price limit `limit`; see
/// `clmm_params_read` and `clmm_params_error`.
fn read_clmm_params(state: &ClmmPoolState, accounts: &Vec<AccountView>, limit: u128) -> (r: Result<ClmmParams, ErrorCode>)
    requires
        clmm_accounts_ok(*state, accounts@),
    ensures
        match clmm_params_error(*state, accounts@) {
            Some(e) => r == Err::<ClmmParams, ErrorCode>(e),
            None => r matches Ok(p) && clmm_params_read(p, *state, accounts@, limit),
        },
{
    let mut tick_arrays: Vec<AccountView> = Vec::new();
    tick_arrays.push(copy_account(&accounts[state.tick_array_minus_1_index]));
    tick_arrays.push(copy_account(&accounts[state.tick_array_0_index]));
    tick_arrays.push(copy_account(&accounts[state.tick_array_1_index]));
    assert forall|i: int| 0 <= i < tick_arrays@.len() implies (#[trigger] tick_arrays@[i]).owner@ == CLMM_PROGRAM_ID@
        ==> tick_arrays@[i].data@.len() >= 44 + 60 * 168 by {
        if i == 0 {
            assert(accounts@[state.tick_array_minus_1_index as int].owner@ == CLMM_PROGRAM_ID@ ==> accounts@[state.tick_array_minus_1_index as int].data@.len() >= 44 + 60 * 168);
        } else if i == 1 {
            assert(accounts@[state.tick_array_0_index as int].owner@ == CLMM_PROGRAM_ID@ ==> accounts@[state.tick_array_0_index as int].data@.len() >= 44 + 60 * 168);
        } else {
            assert(accounts@[state.tick_array_1_index as int].owner@ == CLMM_PROGRAM_ID@ ==> accounts@[state.tick_array_1_index as int].data@.len() >= 44 + 60 * 168);
        }
    }
    proof {
        lemma_arrays_read_same(tick_arrays@, clmm_tick_accounts(*state, accounts@));
    }
    let tick_array_states = parse_tick_array_states(&tick_arrays)?;
    let bitmap_extension = TickArrayBitmapExtension::parse_from_account_info(&accounts[state.bitmap_extension_index])?;
    let tick_array_bitmap = extract_tick_array_bitmap(&accounts[state.pool_index])?;
    Ok(ClmmParams { tick_array_states, bitmap_extension, sqrt_price_limit_x64: limit, tick_array_bitmap })
}

/// The price limit a CLMM pool trades to: none (zero) on a route with a
/// middle pool, else the square-root price matching the other pool's price
/// (inverted, rounded as given, when wrapped SOL is not the pool's second
/// token).
pub open spec fn clmm_limit_for(state: ClmmPoolState, has_mid: bool, other_price: u128, rounding: Rounding) -> u128 {
    if has_mid {
        0
    } else {
        sqrt_limit_of(other_price, state.token_mint_1@ != WSOL_MINT@, rounding)
    }
}

/// The accounts of every CLMM pool among the three are in place.
pub open spec fn clmm_pools_ok(buy: ParsedPoolState, mid: Option<MidPoolInfo>, sell: ParsedPoolState, accounts: Seq<AccountView>) -> bool {
    &&& (buy matches ParsedPoolState::CLMM { state } ==> clmm_accounts_ok(state, accounts))
    &&& (sell matches ParsedPoolState::CLMM { state } ==> clmm_accounts_ok(state, accounts))
    &&& (mid matches Some(m) ==> (*m.pool_state matches ParsedPoolState::CLMM { state } ==> clmm_accounts_ok(state, accounts)))
}

/// The error reading a pool's CLMM parameters gives, if it is a CLMM pool.
pub open spec fn clmm_side_error(p: ParsedPoolState, accounts: Seq<AccountView>) -> Option<ErrorCode> {
    match p {
        ParsedPoolState::CLMM { state } => clmm_params_error(state, accounts),
        _ => None,
    }
}

/// The first error met reading the buy, sell and middle pools' CLMM
/// parameters, in that order.
pub open spec fn clmm_error(buy: ParsedPoolState, mid: Option<MidPoolInfo>, sell: ParsedPoolState, accounts: Seq<AccountView>) -> Option<
    ErrorCode,
> {
    if clmm_side_error(buy, accounts) is Some {
        clmm_side_error(buy, accounts)
    } else if clmm_side_error(sell, accounts) is Some {
        clmm_side_error(sell, accounts)
    } else {
        match mid {
            Some(m) => clmm_side_error(*m.pool_state, accounts),
            None => None,
        }
    }
}

/// `slot` holds the parameters of `p` with the price limit `limit` where
/// `p` is a CLMM pool, and nothing otherwise.
pub open spec fn clmm_slot(slot: Option<ClmmParams>, p: ParsedPoolState, accounts: Seq<AccountView>, limit: u128) -> bool {
    match p {
        ParsedPoolState::CLMM { state } => slot matches Some(x) && clmm_params_read(x, state, accounts, limit),
        _ => slot is None,
    }
}

/// The price limit of `p` as the buy pool (rounded up) or the sell pool
/// (rounded down); zero where `p` is not a CLMM pool.
pub open spec fn clmm_side_limit(p: ParsedPoolState, has_mid: bool, other_price: u128, rounding: Rounding) -> u128 {
    match p {
        ParsedPoolState::CLMM { state } => clmm_limit_for(state, has_mid, other_price, rounding),
        _ => 0,
    }
}

fn clmm_side(p: &ParsedPoolState, accounts: &Vec<AccountView>, has_mid: bool, other_price: u128, rounding: Rounding) -> (r: Result<
    Option<ClmmParams>,
    ErrorCode,
>)
    requires
        *p matches ParsedPoolState::CLMM { state } ==> clmm_accounts_ok(state, accounts@),
    ensures
        match clmm_side_error(*p, accounts@) {
            Some(e) => r == Err::<Option<ClmmParams>, ErrorCode>(e),
            None => r matches Ok(s) && clmm_slot(s, *p, accounts@, clmm_side_limit(*p, has_mid, other_price, rounding)),
        },
{
    match p {
        ParsedPoolState::CLMM { state } => {
            let limit = if has_mid {
                0
            } else {
                sqrt_limit(other_price, !key_eq(&state.token_mint_1, &WSOL_MINT), rounding)
            };
            let params = read_clmm_params(state, accounts, limit)?;
            Ok(Some(params))
        },
        _ => Ok(None),
    }
}

/// The CLMM parameters of the buy, middle and sell pools: for each CLMM pool
/// its three tick arrays, bitmap extension and bitmap as read from
/// `accounts`, with the price limit the other pool's price sets (the sell
/// pool's price, rounded up, for the buy pool; the buy pool's, rounded down,
/// for the sell pool; none on a route with a middle pool, and none for the
/// middle pool); `None` for the other pools. The first error met (buy, sell,
/// then middle pool) is returned.
pub fn get_clmm_params(
    accounts: &Vec<AccountView>,
    buy_pool_state: &ParsedPoolState,
    mid_pool_state: Option<&MidPoolInfo>,
    sell_pool_state: &ParsedPoolState,
    buy_pool_price: u128,
    sell_pool_price: u128,
) -> (r: Result<(Option<ClmmParams>, Option<ClmmParams>, Option<ClmmParams>), ErrorCode>)
    requires
        clmm_pools_ok(*buy_pool_state, opt_mid(mid_pool_state), *sell_pool_state, accounts@),
    ensures
        match clmm_error(*buy_pool_state, opt_mid(mid_pool_state), *sell_pool_state, accounts@) {
            Some(e) => r == Err::<(Option<ClmmParams>, Option<ClmmParams>, Option<ClmmParams>), ErrorCode>(e),
            None => r matches Ok((b, m, s)) && {
                let has_mid = mid_pool_state is Some;
                &&& clmm_slot(b, *buy_pool_state, accounts@, clmm_side_limit(*buy_pool_state, has_mid, sell_pool_price, Rounding::Up))
                &&& clmm_slot(s, *sell_pool_state, accounts@, clmm_side_limit(*sell_pool_state, has_mid, buy_pool_price, Rounding::Down))
                &&& match mid_pool_state {
                    Some(mi) => clmm_slot(m, *mi.pool_state, accounts@, 0),
                    None => m is None,
                }
            },
        },
{
    let has_mid = mid_pool_state.is_some();
    let buy_clmm_params = clmm_side(buy_pool_state, accounts, has_mid, sell_pool_price, Rounding::Up)?;
    let sell_clmm_params = clmm_side(sell_pool_state, accounts, has_mid, buy_pool_price, Rounding::Down)?;
    let mid_clmm_params = match mid_pool_state {
        Some(mid_state) => {
            let p: &ParsedPoolState = &*mid_state.pool_state;
            let side = clmm_side(p, accounts, true, 0, Rounding::Down)?;
            side
        },
        None => None,
    };
    Ok((buy_clmm_params, mid_clmm_params, sell_clmm_params))
}

// ---------------------------------------------------------------------------
// Whirlpool
// ---------------------------------------------------------------------------

/// The accounts a Whirlpool's parameters are read from lie within `accounts`.
pub open spec fn whirlpool_accounts_ok(state: WhirlpoolPoolState, accounts: Seq<AccountView>) -> bool {
    &&& state.tick_array_0_index < accounts.len()
    &&& state.tick_array_1_index < accounts.len()
    &&& state.tick_array_2_index < accounts.len()
    &&& state.oracle_index < accounts.len()
}

/// The adaptive-fee data read from an oracle account: none when it is an
/// empty system account, when the Whirlpool program does not own it or when
/// it is shorter than 264 bytes.
pub open spec fn oracle_of(a: AccountView) -> Option<AdaptiveFeeInfo> {
    if (a.owner@ == SYSTEM_PROGRAM_ID@ && a.data@.len() == 0) || a.owner@ != WHIRLPOOL_PROGRAM_ID@ || a.data@.len() < 264 {
        None
    } else {
        Some(oracle_read(a.data@))
    }
}

/// `p` holds a Whirlpool's parameters as read from `accounts`, with the
/// price limit `limit`: the tick arrays its three accounts hold (in order)
/// and its oracle's adaptive-fee data.
pub open spec fn whirlpool_params_read(p: WhirlpoolParams, state: WhirlpoolPoolState, accounts: Seq<AccountView>, limit: u128) -> bool {
    &&& arrays_view(p.tick_arrays@) == kept_array(accounts[state.tick_array_0_index as int]) + kept_array(
        accounts[state.tick_array_1_index as int],
    ) + kept_array(accounts[state.tick_array_2_index as int])
    &&& p.sqrt_price_limit == limit
    &&& *p.oracle_info == oracle_of(accounts[state.oracle_index as int])
}

/// The price limit a Whirlpool trades to; see `clmm_limit_for` (with wrapped
/// SOL measured against the pool's token B).
pub open spec fn whirlpool_limit_for(state: WhirlpoolPoolState, has_mid: bool, other_price: u128, rounding: Rounding) -> u128 {
    if has_mid {
        0
    } else {
        sqrt_limit_of(other_price, state.token_mint_b@ != WSOL_MINT@, rounding)
    }
}

/// The price limit of `p` as the buy or the sell pool; zero where `p` is not
/// a Whirlpool.
pub open spec fn whirlpool_side_limit(p: ParsedPoolState, has_mid: bool, other_price: u128, rounding: Rounding) -> u128 {
    match p {
        ParsedPoolState::WHIRLPOOL { state } => whirlpool_limit_for(state, has_mid, other_price, rounding),
        _ => 0,
    }
}

/// `slot` holds the parameters of `p` with the price limit `limit` where
/// `p` is a Whirlpool, and nothing otherwise.
pub open spec fn whirlpool_slot(slot: Option<WhirlpoolParams>, p: ParsedPoolState, accounts: Seq<AccountView>, limit: u128) -> bool {
    match p {
        ParsedPoolState::WHIRLPOOL { state } => slot matches Some(x) && whirlpool_params_read(x, state, accounts, limit),
        _ => slot is None,
    }
}

/// The accounts of every Whirlpool among the three are in place.
pub open spec fn whirlpool_pools_ok(buy: ParsedPoolState, mid: Option<MidPoolInfo>, sell: ParsedPoolState, accounts: Seq<AccountView>) -> bool {
    &&& (buy matches ParsedPoolState::WHIRLPOOL { state } ==> whirlpool_accounts_ok(state, accounts))
    &&& (sell matches ParsedPoolState::WHIRLPOOL { state } ==> whirlpool_accounts_ok(state, accounts))
    &&& (mid matches Some(m) ==> (*m.pool_state matches ParsedPoolState::WHIRLPOOL { state } ==> whirlpool_accounts_ok(state, accounts)))
}

fn whirlpool_side(p: &ParsedPoolState, accounts: &Vec<AccountView>, has_mid: bool, other_price: u128, rounding: Rounding) -> (r:
    Option<WhirlpoolParams>)
    requires
        *p matches ParsedPoolState::WHIRLPOOL { state } ==> whirlpool_accounts_ok(state, accounts@),
    ensures
        whirlpool_slot(r, *p, accounts@, whirlpool_side_limit(*p, has_mid, other_price, rounding)),
{
    match p {
        ParsedPoolState::WHIRLPOOL { state } => {
            let limit = if has_mid {
                0
            } else {
                sqrt_limit(other_price, !key_eq(&state.token_mint_b, &WSOL_MINT), rounding)
            };
            let tick_arrays = match parse_whirlpool_tick_arrays_three(
                &accounts[state.tick_array_0_index],
                &accounts[state.tick_array_1_index],
                &accounts[state.tick_array_2_index],
            ) {
                Ok(v) => v,
                Err(_) => Vec::new(),
            };
            let oracle_info = match parse_whirlpool_oracle_adaptive_fee(&accounts[state.oracle_index]) {
                Ok(o) => o,
                Err(_) => None,
            };
            Some(WhirlpoolParams { tick_arrays, sqrt_price_limit: limit, oracle_info: Box::new(oracle_info) })
        },
        _ => None,
    }
}

/// The Whirlpool parameters of the buy, middle and sell pools: for each
/// Whirlpool the tick arrays of its three tick-array accounts and its
/// oracle's adaptive-fee data, with the price limit the other pool's price
/// sets (as in `get_clmm_params`); `None` for the other pools. Reading
/// these accounts does not fail.
pub fn get_whirlpool_params(
    accounts: &Vec<AccountView>,
    buy_pool_state: &ParsedPoolState,
    mid_pool_state: Option<&MidPoolInfo>,
    sell_pool_state: &ParsedPoolState,
    buy_pool_price: u128,
    sell_pool_price: u128,
) -> (r: Result<(Option<WhirlpoolParams>, Option<WhirlpoolParams>, Option<WhirlpoolParams>), ErrorCode>)
    requires
        whirlpool_pools_ok(*buy_pool_state, opt_mid(mid_pool_state), *sell_pool_state, accounts@),
    ensures
        r matches Ok((b, m, s)) && {
            let has_mid = mid_pool_state is Some;
            &&& whirlpool_slot(b, *buy_pool_state, accounts@, whirlpool_side_limit(*buy_pool_state, has_mid, sell_pool_price, Rounding::Up))
            &&& whirlpool_slot(s, *sell_pool_state, accounts@, whirlpool_side_limit(*sell_pool_state, has_mid, buy_pool_price, Rounding::Down))
            &&& match mid_pool_state {
                Some(mi) => whirlpool_slot(m, *mi.pool_state, accounts@, 0),
                None => m is None,
            }
        },
{
    let has_mid = mid_pool_state.is_some();
    let buy_whirlpool_params = whirlpool_side(buy_pool_state, accounts, has_mid, sell_pool_price, Rounding::Up);
    let sell_whirlpool_params = whirlpool_side(sell_pool_state, accounts, has_mid, buy_pool_price, Rounding::Down);
    let mid_whirlpool_params = match mid_pool_state {
        Some(mid_state) => {
            let p: &ParsedPoolState = &*mid_state.pool_state;
            whirlpool_side(p, accounts, true, 0, Rounding::Down)
        },
        None => None,
    };
    Ok((buy_whirlpool_params, mid_whirlpool_params, sell_whirlpool_params))
}

// ---------------------------------------------------------------------------
// DLMM
// ---------------------------------------------------------------------------

/// The three bin-array accounts of a DLMM pool lie within `accounts`.
pub open spec fn dlmm_accounts_ok(state: DlmmPoolState, accounts: Seq<AccountView>) -> bool {
    &&& state.bin_array_minus_1_index < accounts.len()
    &&& state.bin_array_0_index < accounts.len()
    &&& state.bin_array_1_index < accounts.len()
}

/// The direction a DLMM pool is swapped in, by its role on the route (0 for
/// the buy pool, 1 for the middle pool, 2 for the sell pool): the buy pool
/// takes wrapped SOL in, so it swaps for Y unless Y is wrapped SOL; the sell
/// pool gives wrapped SOL out, so it swaps for Y when Y is wrapped SOL; the
/// middle pool goes the route's way.
pub open spec fn bins_direction(state: DlmmPoolState, role: u8, mid_a2b: bool) -> bool {
    if role == 0 {
        state.token_y_mint@ != WSOL_MINT@
    } else if role == 1 {
        mid_a2b
    } else {
        state.token_y_mint@ == WSOL_MINT@
    }
}

/// The bins `p` crosses in its role on the route when it is a DLMM pool
/// (see `bin_arrays_outcome`, against the sell pool's price unless it is the
/// sell pool), nothing for another kind of pool; `None` where the scan is
/// not defined.
pub open spec fn bins_side(p: ParsedPoolState, accounts: Seq<AccountView>, role: u8, mid_a2b: bool, buy_price: u128, sell_price: u128) -> Option<
    Result<Option<Seq<(i32, BinState)>>, ErrorCode>,
> {
    match p {
        ParsedPoolState::DLMM { state } => match bin_arrays_outcome(
            state,
            seq![accounts[state.bin_array_minus_1_index as int], accounts[state.bin_array_0_index as int], accounts[state.bin_array_1_index as int]],
            state.active_id,
            bins_direction(state, role, mid_a2b),
            buy_price,
            sell_price,
            WSOL_MINT@,
            role != 2,
        ) {
            None => None,
            Some(o) => match o.1 {
                Ok(_) => Some(Ok(Some(o.0))),
                Err(e) => Some(Err(e)),
            },
        },
        _ => Some(Ok(None)),
    }
}

/// The bins of the middle pool, if there is one.
pub open spec fn mid_bins_side(mid: Option<MidPoolInfo>, accounts: Seq<AccountView>, buy_price: u128, sell_price: u128) -> Option<
    Result<Option<Seq<(i32, BinState)>>, ErrorCode>,
> {
    match mid {
        Some(m) => bins_side(*m.pool_state, accounts, 1, m.is_mid_a2b, buy_price, sell_price),
        None => Some(Ok(None)),
    }
}

/// The bins of the buy, middle and sell pools, or the first error met in
/// that order; `None` where a scan is not defined.
pub open spec fn ordered_bins(
    buy: ParsedPoolState,
    mid: Option<MidPoolInfo>,
    sell: ParsedPoolState,
    accounts: Seq<AccountView>,
    buy_price: u128,
    sell_price: u128,
) -> Option<Result<(Option<Seq<(i32, BinState)>>, Option<Seq<(i32, BinState)>>, Option<Seq<(i32, BinState)>>), ErrorCode>> {
    match bins_side(buy, accounts, 0, false, buy_price, sell_price) {
        None => None,
        Some(Err(e)) => Some(Err(e)),
        Some(Ok(b)) => match mid_bins_side(mid, accounts, buy_price, sell_price) {
            None => None,
            Some(Err(e)) => Some(Err(e)),
            Some(Ok(m)) => match bins_side(sell, accounts, 2, false, buy_price, sell_price) {
                None => None,
                Some(Err(e)) => Some(Err(e)),
                Some(Ok(s)) => Some(Ok((b, m, s))),
            },
        },
    }
}

/// The bin arrays of every DLMM pool among the three are in place.
pub open spec fn dlmm_pools_ok(buy: ParsedPoolState, mid: Option<MidPoolInfo>, sell: ParsedPoolState, accounts: Seq<AccountView>) -> bool {
    &&& (buy matches ParsedPoolState::DLMM { state } ==> dlmm_accounts_ok(state, accounts))
    &&& (sell matches ParsedPoolState::DLMM { state } ==> dlmm_accounts_ok(state, accounts))
    &&& (mid matches Some(m) ==> (*m.pool_state matches ParsedPoolState::DLMM { state } ==> dlmm_accounts_ok(state, accounts)))
}

fn bins_side_exec(
    p: &ParsedPoolState,
    accounts: &Vec<AccountView>,
    role: u8,
    mid_a2b: bool,
    buy_price: u128,
    sell_price: u128,
) -> (r: Result<Option<Vec<(i32, BinState)>>, ErrorCode>)
    requires
        *p matches ParsedPoolState::DLMM { state } ==> dlmm_accounts_ok(state, accounts@),
        bins_side(*p, accounts@, role, mid_a2b, buy_price, sell_price) is Some,
    ensures
        bins_side(*p, accounts@, role, mid_a2b, buy_price, sell_price) == Some(
            match r {
                Ok(b) => Ok(bins_view(b)),
                Err(e) => Err::<Option<Seq<(i32, BinState)>>, ErrorCode>(e),
            },
        ),
{
    match p {
        ParsedPoolState::DLMM { state } => {
            let swap_for_y = if role == 0 {
                !key_eq(&state.token_y_mint, &WSOL_MINT)
            } else if role == 1 {
                mid_a2b
            } else {
                key_eq(&state.token_y_mint, &WSOL_MINT)
            };
            let bins = parse_dlmm_bin_arrays_optimized(
                state,
                accounts,
                state.bin_array_minus_1_index,
                state.bin_array_0_index,
                state.bin_array_1_index,
                state.active_id,
                swap_for_y,
                buy_price,
                sell_price,
                WSOL_MINT,
                role != 2,
            )?;
            Ok(Some(bins))
        },
        _ => Ok(None),
    }
}

/// The bins each DLMM pool on the route would cross, in the order it
/// crosses them: the buy pool swapping wrapped SOL in, the middle pool the
/// route's way and the sell pool towards wrapped SOL; `None` for pools of
/// other kinds. See `ordered_bins`.
pub fn get_ordered_bins_for_pools(
    accounts: &Vec<AccountView>,
    buy_pool_state: &ParsedPoolState,
    mid_pool_state: Option<&MidPoolInfo>,
    sell_pool_state: &ParsedPoolState,
    buy_pool_price: u128,
    sell_pool_price: u128,
) -> (r: Result<(Option<Vec<(i32, BinState)>>, Option<Vec<(i32, BinState)>>, Option<Vec<(i32, BinState)>>), ErrorCode>)
    requires
        dlmm_pools_ok(*buy_pool_state, opt_mid(mid_pool_state), *sell_pool_state, accounts@),
        ordered_bins(*buy_pool_state, opt_mid(mid_pool_state), *sell_pool_state, accounts@, buy_pool_price, sell_pool_price) is Some,
    ensures
        ordered_bins(*buy_pool_state, opt_mid(mid_pool_state), *sell_pool_state, accounts@, buy_pool_price, sell_pool_price) == Some(
            match r {
                Ok((b, m, s)) => Ok((bins_view(b), bins_view(m), bins_view(s))),
                Err(e) => Err::<(Option<Seq<(i32, BinState)>>, Option<Seq<(i32, BinState)>>, Option<Seq<(i32, BinState)>>), ErrorCode>(e),
            },
        ),
{
    let buy_ordered_bins = bins_side_exec(buy_pool_state, accounts, 0, false, buy_pool_price, sell_pool_price)?;
    let mid_ordered_bins = match mid_pool_state {
        Some(mid_state) => {
            let p: &ParsedPoolState = &*mid_state.pool_state;
            let side = bins_side_exec(p, accounts, 1, mid_state.is_mid_a2b, buy_pool_price, sell_pool_price)?;
            side
        },
        None => None,
    };
    let sell_ordered_bins = bins_side_exec(sell_pool_state, accounts, 2, false, buy_pool_price, sell_pool_price)?;
    Ok((buy_ordered_bins, mid_ordered_bins, sell_ordered_bins))
}

// ---------------------------------------------------------------------------
// All of them
// ---------------------------------------------------------------------------

/// The accounts every pool's parameters are read from are in place.
pub open spec fn params_accounts_ok(buy: ParsedPoolState, mid: Option<MidPoolInfo>, sell: ParsedPoolState, accounts: Seq<AccountView>) -> bool {
    &&& dlmm_pools_ok(buy, mid, sell, accounts)
    &&& clmm_pools_ok(buy, mid, sell, accounts)
    &&& whirlpool_pools_ok(buy, mid, sell, accounts)
}

fn clmm_side_ready(p: &ParsedPoolState, accounts: &Vec<AccountView>) -> (r: bool)
    ensures
        r == (*p matches ParsedPoolState::CLMM { state } ==> clmm_accounts_ok(state, accounts@)),
{
    match p {
        ParsedPoolState::CLMM { state } => {
            let n = accounts.len();
            if state.tick_array_minus_1_index >= n || state.tick_array_0_index >= n || state.tick_array_1_index >= n
                || state.bitmap_extension_index >= n || state.pool_index >= n {
                return false;
            }
            let i0 = state.tick_array_minus_1_index;
            let i1 = state.tick_array_0_index;
            let i2 = state.tick_array_1_index;
            let ok0 = !key_eq(&accounts[i0].owner, &CLMM_PROGRAM_ID) || accounts[i0].data.len() >= 44 + 60 * 168;
            let ok1 = !key_eq(&accounts[i1].owner, &CLMM_PROGRAM_ID) || accounts[i1].data.len() >= 44 + 60 * 168;
            let ok2 = !key_eq(&accounts[i2].owner, &CLMM_PROGRAM_ID) || accounts[i2].data.len() >= 44 + 60 * 168;
            proof {
                if ok0 && ok1 && ok2 {
                    assert forall|k: usize| #![auto] (k == i0 || k == i1 || k == i2) implies accounts@[k as int].owner@ == CLMM_PROGRAM_ID@
                        ==> accounts@[k as int].data@.len() >= 44 + 60 * 168 by {}
                }
            }
            ok0 && ok1 && ok2
        },
        _ => true,
    }
}

fn whirlpool_side_ready(p: &ParsedPoolState, accounts: &Vec<AccountView>) -> (r: bool)
    ensures
        r == (*p matches ParsedPoolState::WHIRLPOOL { state } ==> whirlpool_accounts_ok(state, accounts@)),
{
    match p {
        ParsedPoolState::WHIRLPOOL { state } => {
            let n = accounts.len();
            state.tick_array_0_index < n && state.tick_array_1_index < n && state.tick_array_2_index < n && state.oracle_index < n
        },
        _ => true,
    }
}

fn dlmm_side_ready(p: &ParsedPoolState, accounts: &Vec<AccountView>) -> (r: bool)
    ensures
        r == (*p matches ParsedPoolState::DLMM { state } ==> dlmm_accounts_ok(state, accounts@)),
{
    match p {
        ParsedPoolState::DLMM { state } => {
            let n = accounts.len();
            state.bin_array_minus_1_index < n && state.bin_array_0_index < n && state.bin_array_1_index < n
        },
        _ => true,
    }
}

/// Whether the accounts every pool's parameters are read from are in place;
/// see `params_accounts_ok`.
pub fn params_accounts_ready(
    accounts: &Vec<AccountView>,
    buy_pool_state: &ParsedPoolState,
    mid_pool_info: Option<&MidPoolInfo>,
    sell_pool_state: &ParsedPoolState,
) -> (r: bool)
    ensures
        r == params_accounts_ok(*buy_pool_state, opt_mid(mid_pool_info), *sell_pool_state, accounts@),
{
    let (mid_dlmm, mid_clmm, mid_whirlpool) = match mid_pool_info {
        Some(m) => {
            let p: &ParsedPoolState = &*m.pool_state;
            (dlmm_side_ready(p, accounts), clmm_side_ready(p, accounts), whirlpool_side_ready(p, accounts))
        },
        None => (true, true, true),
    };
    dlmm_side_ready(buy_pool_state, accounts) && dlmm_side_ready(sell_pool_state, accounts) && mid_dlmm
        && clmm_side_ready(buy_pool_state, accounts) && clmm_side_ready(sell_pool_state, accounts) && mid_clmm
        && whirlpool_side_ready(buy_pool_state, accounts) && whirlpool_side_ready(sell_pool_state, accounts) && mid_whirlpool
}

/// What the profit computation reads of the route's pools, read from
/// `accounts` at the buy and sell pools' prices: the DLMM bins (see
/// `get_ordered_bins_for_pools`), then the CLMM parameters (see
/// `get_clmm_params`), then the Whirlpool parameters (see
/// `get_whirlpool_params`). The first error met is returned.
pub fn prepare_arbitrage_params(
    accounts: &Vec<AccountView>,
    buy_pool_state: &ParsedPoolState,
    mid_pool_info: Option<&MidPoolInfo>,
    sell_pool_state: &ParsedPoolState,
) -> (r: Result<ArbitrageParams, ErrorCode>)
    requires
        params_accounts_ok(*buy_pool_state, opt_mid(mid_pool_info), *sell_pool_state, accounts@),
        ordered_bins(*buy_pool_state, opt_mid(mid_pool_info), *sell_pool_state, accounts@, pool_info(*buy_pool_state).3, pool_info(*sell_pool_state).3) is Some,
    ensures
        ({
            let bp = pool_info(*buy_pool_state).3;
            let sp = pool_info(*sell_pool_state).3;
            let has_mid = mid_pool_info is Some;
            match ordered_bins(*buy_pool_state, opt_mid(mid_pool_info), *sell_pool_state, accounts@, bp, sp) {
                Some(Err(e)) => r == Err::<ArbitrageParams, ErrorCode>(e),
                Some(Ok((b, m, s))) => match clmm_error(*buy_pool_state, opt_mid(mid_pool_info), *sell_pool_state, accounts@) {
                    Some(e) => r == Err::<ArbitrageParams, ErrorCode>(e),
                    None => r matches Ok(p) && {
                        &&& bins_view(p.buy_ordered_bins) == b
                        &&& bins_view(p.mid_ordered_bins) == m
                        &&& bins_view(p.sell_ordered_bins) == s
                        &&& clmm_slot(p.buy_clmm_params, *buy_pool_state, accounts@, clmm_side_limit(*buy_pool_state, has_mid, sp, Rounding::Up))
                        &&& clmm_slot(p.sell_clmm_params, *sell_pool_state, accounts@, clmm_side_limit(*sell_pool_state, has_mid, bp, Rounding::Down))
                        &&& whirlpool_slot(p.buy_whirlpool_params, *buy_pool_state, accounts@, whirlpool_side_limit(*buy_pool_state, has_mid, sp, Rounding::Up))
                        &&& whirlpool_slot(p.sell_whirlpool_params, *sell_pool_state, accounts@, whirlpool_side_limit(*sell_pool_state, has_mid, bp, Rounding::Down))
                        &&& match mid_pool_info {
                            Some(mi) => clmm_slot(p.mid_clmm_params, *mi.pool_state, accounts@, 0) && whirlpool_slot(p.mid_whirlpool_params, *mi.pool_state, accounts@, 0),
                            None => p.mid_clmm_params is None && p.mid_whirlpool_params is None,
                        }
                    },
                },
                None => false,
            }
        }),
{
    let (_, _, _, buy_pool_price) = extract_pool_info(buy_pool_state);
    let (_, _, _, sell_pool_price) = extract_pool_info(sell_pool_state);
    let (buy_ordered_bins, mid_ordered_bins, sell_ordered_bins) = get_ordered_bins_for_pools(
        accounts,
        buy_pool_state,
        mid_pool_info,
        sell_pool_state,
        buy_pool_price,
        sell_pool_price,
    )?;
    let (buy_clmm_params, mid_clmm_params, sell_clmm_params) = get_clmm_params(
        accounts,
        buy_pool_state,
        mid_pool_info,
        sell_pool_state,
        buy_pool_price,
        sell_pool_price,
    )?;
    let (buy_whirlpool_params, mid_whirlpool_params, sell_whirlpool_params) = match get_whirlpool_params(
        accounts,
        buy_pool_state,
        mid_pool_info,
        sell_pool_state,
        buy_pool_price,
        sell_pool_price,
    ) {
        Ok(t) => t,
        Err(e) => {
            return Err(e);
        },
    };
    Ok(
        ArbitrageParams {
            buy_ordered_bins,
            mid_ordered_bins,
            sell_ordered_bins,
            buy_clmm_params,
            mid_clmm_params,
            sell_clmm_params,
            buy_whirlpool_params,
            mid_whirlpool_params,
            sell_whirlpool_params,
        },
    )
}

} // verus!
