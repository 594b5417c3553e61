use vstd::prelude::*;

use crate::bytes::{key_eq, key_of, lemma_key_of};
use crate::bytes::AccountView;
use crate::clmm::{calculate_clmm_price, clmm_price, clmm_read, parse_clmm_pool_data, ClmmPoolState};
use crate::cpmm::{
    calculate_cpmm_price, cpmm_fee_sums_fit, cpmm_mints, cpmm_pair_error, cpmm_parse_readable, cpmm_parsed, cpmm_with_reserves,
    cpmm_wsol_token_reserves, parse_cpmm_pool_data, u64_at, CpmmPoolState,
};
use crate::dammv2::{
    calculate_dammv2_price, calculate_dammv2_total_fee_rate, dammv2_fee_defined, dammv2_read, parse_dammv2_pool_data,
    total_fee_numerator, Dammv2PoolState,
};
use crate::bytes::le_value;
use crate::dlmm::{
    bin_price, calculate_dlmm_total_fee_rate, directional_bin_price, dlmm_base_fee, dlmm_fee_rate_defined, dlmm_read,
    dlmm_variable_fee, get_dlmm_price_from_bin_array, parse_dlmm_pool_data, DlmmPoolState,
};
use crate::optimalamt::{dammv2_current_point, dammv2_point, ClockView};
use crate::errors::ErrorCode;
use crate::pools::{PoolData, PoolType, TokenPoolGroup, CLMM_PROGRAM_ID, CPMM_PROGRAM_ID, DAMMV2_PROGRAM_ID, DLMM_PROGRAM_ID, RAYDIUM_PROGRAM_ID, WHIRLPOOL_PROGRAM_ID, WSOL_MINT};
use crate::pump::{
    get_coin_creator_fee_basis_points, calculate_pump_price, creator_fee_bps, dynamic_fees, first_key_at, lemma_mint_index, mint_index, parse_pump_pool_data,
    pump_parse_readable, pump_price_sides, pump_token_mint, pump_with_pool_fields, PumpPoolState,
};
use crate::q64_math::{bps_to_q64, or_zero, q64_mul, safe_mul_div_cast, spec_mul_div};
use crate::raydium::{
    calculate_raydium_price, parse_raydium_pool_data, raydium_parse_readable, raydium_price_sides, raydium_with_mints,
    RaydiumPoolState,
};
use crate::u64x64_math::ONE;
use crate::whirlpool::{calculate_whirlpool_price, parse_whirlpool_pool_data, whirlpool_read, WhirlpoolPoolState};
use crate::wide::Rounding;

verus! {

/// A pool's state once read, by kind.
#[derive(Debug, Clone, Copy)]
pub enum ParsedPoolState {
    CPMM { state: CpmmPoolState },
    DLMM { state: DlmmPoolState },
    DAMMV2 { state: Dammv2PoolState },
    PUMP { state: PumpPoolState },
    RAYDIUM { state: RaydiumPoolState },
    CLMM { state: ClmmPoolState },
    WHIRLPOOL { state: WhirlpoolPoolState },
}

/// The kind of a read pool.
pub open spec fn pool_type_of(p: ParsedPoolState) -> PoolType {
    match p {
        ParsedPoolState::CPMM { .. } => PoolType::CPMM,
        ParsedPoolState::DLMM { .. } => PoolType::DLMM,
        ParsedPoolState::DAMMV2 { .. } => PoolType::DAMMV2,
        ParsedPoolState::PUMP { .. } => PoolType::PUMP,
        ParsedPoolState::RAYDIUM { .. } => PoolType::RAYDIUM,
        ParsedPoolState::CLMM { .. } => PoolType::CLMM,
        ParsedPoolState::WHIRLPOOL { .. } => PoolType::WHIRLPOOL,
    }
}

/// Where a read pool's own account sits.
pub open spec fn pool_index_of(p: ParsedPoolState) -> usize {
    match p {
        ParsedPoolState::CPMM { state } => state.pool_index,
        ParsedPoolState::DLMM { state } => state.pool_index,
        ParsedPoolState::DAMMV2 { state } => state.pool_index,
        ParsedPoolState::PUMP { state } => state.pool_index,
        ParsedPoolState::RAYDIUM { state } => state.pool_index,
        ParsedPoolState::CLMM { state } => state.pool_index,
        ParsedPoolState::WHIRLPOOL { state } => state.pool_index,
    }
}

/// A read pool's two mints, in the pool's own order.
pub open spec fn pool_mints(p: ParsedPoolState) -> ([u8; 32], [u8; 32]) {
    match p {
        ParsedPoolState::CPMM { state } => (state.token0_mint, state.token1_mint),
        ParsedPoolState::DLMM { state } => (state.token_x_mint, state.token_y_mint),
        ParsedPoolState::DAMMV2 { state } => (state.token_a_mint, state.token_b_mint),
        ParsedPoolState::PUMP { state } => (state.base_mint, state.quote_mint),
        ParsedPoolState::RAYDIUM { state } => (state.base_mint, state.quote_mint),
        ParsedPoolState::CLMM { state } => (state.token_mint_0, state.token_mint_1),
        ParsedPoolState::WHIRLPOOL { state } => (state.token_mint_a, state.token_mint_b),
    }
}

/// Whether one of a pool's mints is wrapped SOL.
pub open spec fn has_wsol(p: ParsedPoolState) -> bool {
    pool_mints(p).0@ == WSOL_MINT@ || pool_mints(p).1@ == WSOL_MINT@
}

impl ParsedPoolState {
    /// The pool's kind; see `pool_type_of`.
    pub fn get_pool_type(&self) -> (r: Option<PoolType>)
        ensures
            r == Some(pool_type_of(*self)),
    {
        match self {
            ParsedPoolState::CPMM { .. } => Some(PoolType::CPMM),
            ParsedPoolState::DLMM { .. } => Some(PoolType::DLMM),
            ParsedPoolState::DAMMV2 { .. } => Some(PoolType::DAMMV2),
            ParsedPoolState::PUMP { .. } => Some(PoolType::PUMP),
            ParsedPoolState::RAYDIUM { .. } => Some(PoolType::RAYDIUM),
            ParsedPoolState::CLMM { .. } => Some(PoolType::CLMM),
            ParsedPoolState::WHIRLPOOL { .. } => Some(PoolType::WHIRLPOOL),
        }
    }

    /// Where the pool's own account sits; see `pool_index_of`.
    pub fn get_pool_index(&self) -> (r: usize)
        ensures
            r == pool_index_of(*self),
    {
        match self {
            ParsedPoolState::CPMM { state } => state.pool_index,
            ParsedPoolState::DLMM { state } => state.pool_index,
            ParsedPoolState::DAMMV2 { state } => state.pool_index,
            ParsedPoolState::PUMP { state } => state.pool_index,
            ParsedPoolState::RAYDIUM { state } => state.pool_index,
            ParsedPoolState::CLMM { state } => state.pool_index,
            ParsedPoolState::WHIRLPOOL { state } => state.pool_index,
        }
    }

    /// The pool's two mints and whether one is wrapped SOL; see
    /// `pool_mints`, `has_wsol`.
    pub fn get_pool_tokens(&self) -> (r: ([u8; 32], [u8; 32], bool))
        ensures
            r.0 == pool_mints(*self).0,
            r.1 == pool_mints(*self).1,
            r.2 == has_wsol(*self),
    {
        let (a, b) = match self {
            ParsedPoolState::CPMM { state } => (state.token0_mint, state.token1_mint),
            ParsedPoolState::DLMM { state } => (state.token_x_mint, state.token_y_mint),
            ParsedPoolState::DAMMV2 { state } => (state.token_a_mint, state.token_b_mint),
            ParsedPoolState::PUMP { state } => (state.base_mint, state.quote_mint),
            ParsedPoolState::RAYDIUM { state } => (state.base_mint, state.quote_mint),
            ParsedPoolState::CLMM { state } => (state.token_mint_0, state.token_mint_1),
            ParsedPoolState::WHIRLPOOL { state } => (state.token_mint_a, state.token_mint_b),
        };
        let w = key_eq(&a, &WSOL_MINT) || key_eq(&b, &WSOL_MINT);
        (a, b, w)
    }
}

/// A rate in parts per million as a Q64.64 fraction, rounded down.
pub open spec fn q64_fee(rate: int) -> u128 {
    ((rate * 0x1_0000_0000_0000_0000int) / 1_000_000) as u128
}

/// A pool's fee rate in parts per million as the comparison reads it: the
/// total rate for constant-product pools, the total over a thousand for
/// DLMM and DAMM v2, the trade rate times a hundred for pump, the trade
/// rate otherwise.
pub open spec fn fee_rate_of(p: ParsedPoolState) -> int {
    match p {
        ParsedPoolState::CPMM { state } => state.total_fee_rate as int,
        ParsedPoolState::DLMM { state } => (state.total_fee_rate / 1000) as int,
        ParsedPoolState::DAMMV2 { state } => (state.total_fee_rate / 1000) as int,
        ParsedPoolState::PUMP { state } => state.trade_fee_rate * 100,
        ParsedPoolState::RAYDIUM { state } => state.trade_fee_rate as int,
        ParsedPoolState::CLMM { state } => state.trade_fee_rate as int,
        ParsedPoolState::WHIRLPOOL { state } => state.trade_fee_rate as int,
    }
}

/// A read pool's price.
pub open spec fn price_of(p: ParsedPoolState) -> u128 {
    match p {
        ParsedPoolState::CPMM { state } => state.price,
        ParsedPoolState::DLMM { state } => state.price,
        ParsedPoolState::DAMMV2 { state } => state.price,
        ParsedPoolState::PUMP { state } => state.price,
        ParsedPoolState::RAYDIUM { state } => state.price,
        ParsedPoolState::CLMM { state } => state.price,
        ParsedPoolState::WHIRLPOOL { state } => state.price,
    }
}

/// Whether the fee rate can be formed: the pump rate times a hundred
/// fits 64 bits.
pub open spec fn fee_rate_fits(p: ParsedPoolState) -> bool {
    fee_rate_of(p) <= u64::MAX
}

/// A pool's price and fee as a Q64.64 fraction; see `fee_rate_of`.
pub open spec fn price_and_fee(p: ParsedPoolState) -> (u128, u128) {
    (price_of(p), q64_fee(fee_rate_of(p)))
}

/// A pool's price and Q64.64 fee; see `price_and_fee`.
pub fn extract_price_and_fee(pool: &ParsedPoolState) -> (r: (u128, u128))
    requires
        fee_rate_fits(*pool),
    ensures
        r == price_and_fee(*pool),
{
    match pool {
        ParsedPoolState::CPMM { state } => (state.price, bps_to_q64(state.total_fee_rate)),
        ParsedPoolState::DLMM { state } => (state.price, bps_to_q64(state.total_fee_rate / 1000)),
        ParsedPoolState::DAMMV2 { state } => (state.price, bps_to_q64(state.total_fee_rate / 1000)),
        ParsedPoolState::PUMP { state } => (state.price, bps_to_q64(state.trade_fee_rate * 100)),
        ParsedPoolState::RAYDIUM { state } => (state.price, bps_to_q64(state.trade_fee_rate)),
        ParsedPoolState::CLMM { state } => (state.price, bps_to_q64(state.trade_fee_rate)),
        ParsedPoolState::WHIRLPOOL { state } => (state.price, bps_to_q64(state.trade_fee_rate)),
    }
}

/// What the search for an arbitrage among a token's pools found: the
/// profit ratio (Q64.64, over one) and the pools to buy on, trade through
/// and sell on.
#[derive(Debug, Clone, Copy)]
pub struct TokenArbitrageAnalysis {
    pub max_profit_ratio: u128,
    pub buy_pool_state: Option<ParsedPoolState>,
    pub mid_pool_state: Option<ParsedPoolState>,
    pub sell_pool_state: Option<ParsedPoolState>,
    pub is_mid_a2b: bool,
}

/// The analysis that found nothing.
pub open spec fn no_arbitrage() -> TokenArbitrageAnalysis {
    TokenArbitrageAnalysis {
        max_profit_ratio: 0,
        buy_pool_state: None,
        mid_pool_state: None,
        sell_pool_state: None,
        is_mid_a2b: false,
    }
}

/// The Q64.64 factor of buying at `price_buy` and selling at `price_sell`
/// (wrapped SOL per token) with the two fees: the price ratio (rounded up)
/// times the product of the two fee complements, rounded down. `None` for
/// a fee above one or a zero ratio.
pub open spec fn profit_factor_2hop(price_buy: u128, price_sell: u128, fee_buy: u128, fee_sell: u128) -> Option<u128> {
    if fee_buy > ONE || fee_sell > ONE {
        None
    } else {
        let fee_factor = or_zero(spec_mul_div((ONE - fee_buy) as u128, (ONE - fee_sell) as u128, ONE, Rounding::Down));
        let price_product = or_zero(spec_mul_div(price_sell, ONE, price_buy, Rounding::Up));
        if price_product == 0 {
            None
        } else {
            Some(or_zero(spec_mul_div(price_product, fee_factor, ONE, Rounding::Down)))
        }
    }
}

/// The profit factor of a two-hop trade; see `profit_factor_2hop`.
pub fn calculate_2hop_profit_factor(price_buy: u128, price_sell: u128, fee_buy: u128, fee_sell: u128) -> (r: Option<u128>)
    ensures
        r == profit_factor_2hop(price_buy, price_sell, fee_buy, fee_sell),
{
    let fee_factor_buy = ONE.checked_sub(fee_buy)?;
    let fee_factor_sell = ONE.checked_sub(fee_sell)?;
    let fee_factor = q64_mul(fee_factor_buy, fee_factor_sell);
    let price_product = safe_mul_div_cast(price_sell, ONE, price_buy, Rounding::Up);
    if price_product == 0 {
        return None;
    }
    Some(safe_mul_div_cast(price_product, fee_factor, ONE, Rounding::Down))
}

/// The factor of buying on pool `i` and selling on pool `j`: none for the
/// same pool, a zero price, or a sell price not above the buy price; else
/// see `profit_factor_2hop`.
pub open spec fn pair_profit(d: Seq<(u128, u128)>, i: int, j: int) -> Option<u128> {
    if i == j || d[i].0 == 0 || d[j].0 == 0 || d[j].0 <= d[i].0 {
        None
    } else {
        profit_factor_2hop(d[i].0, d[j].0, d[i].1, d[j].1)
    }
}

/// The best factor above one among the first `k` ordered pairs (buy pool
/// first, then sell pool, in order), with its pair; the first pair wins a
/// tie. `(0, 0, 0)` when none is above one.
pub open spec fn best_2hop(d: Seq<(u128, u128)>, k: nat) -> (u128, int, int)
    decreases k,
{
    if k == 0 {
        (0, 0, 0)
    } else {
        let prev = best_2hop(d, (k - 1) as nat);
        let n = d.len() as int;
        let i = (k - 1) / n;
        let j = (k - 1) % n;
        match pair_profit(d, i, j) {
            Some(f) => if f > ONE && f > prev.0 {
                (f, i, j)
            } else {
                prev
            },
            None => prev,
        }
    }
}

/// The best two-hop trade among the pools: buy and sell pools with the
/// profit ratio less one when the best factor (see `best_2hop`) is above
/// one, else nothing.
pub open spec fn two_hop_analysis(d: Seq<(u128, u128)>, pools: Seq<ParsedPoolState>) -> TokenArbitrageAnalysis {
    let b = best_2hop(d, (d.len() * d.len()) as nat);
    if b.0 > ONE {
        TokenArbitrageAnalysis {
            max_profit_ratio: (b.0 - ONE) as u128,
            buy_pool_state: Some(pools[b.1]),
            mid_pool_state: None,
            sell_pool_state: Some(pools[b.2]),
            is_mid_a2b: false,
        }
    } else {
        no_arbitrage()
    }
}

/// The best two-hop trade; see `two_hop_analysis`.
pub fn find_best_2hop_arbitrage(pool_data: &Vec<(u128, u128)>, parsed_pools: &Vec<ParsedPoolState>) -> (r: Result<
    TokenArbitrageAnalysis,
    ErrorCode,
>)
    requires
        pool_data@.len() == parsed_pools@.len(),
    ensures
        r == Ok::<TokenArbitrageAnalysis, ErrorCode>(two_hop_analysis(pool_data@, parsed_pools@)),
{
    let n = pool_data.len();
    let ghost d = pool_data@;
    let mut best_buy_idx: usize = 0;
    let mut best_sell_idx: usize = 0;
    let mut best_profit_ratio: u128 = 0;
    let mut i: usize = 0;
    assert(0 * n == 0) by (nonlinear_arith);
    while i < n
        invariant
            i <= n,
            n == pool_data@.len(),
            d == pool_data@,
            best_2hop(d, (i * n) as nat) == (best_profit_ratio, best_buy_idx as int, best_sell_idx as int),
            best_profit_ratio != 0 ==> best_buy_idx < n && best_sell_idx < n,
            i * n <= n * n,
        decreases n - i,
    {
        let mut j: usize = 0;
        while j < n
            invariant
                i < n,
                j <= n,
                n == pool_data@.len(),
                d == pool_data@,
                best_2hop(d, (i * n + j) as nat) == (best_profit_ratio, best_buy_idx as int, best_sell_idx as int),
                best_profit_ratio != 0 ==> best_buy_idx < n && best_sell_idx < n,
            decreases n - j,
        {
            proof {
                vstd::arithmetic::div_mod::lemma_fundamental_div_mod_converse((i * n + j) as int, n as int, i as int, j as int);
                assert((i * n + j + 1) as nat - 1 == (i * n + j) as nat);
            }
            if i != j {
                let (price_buy, fee_buy) = pool_data[i];
                let (price_sell, fee_sell) = pool_data[j];
                if price_buy != 0 && price_sell != 0 && price_sell > price_buy {
                    if let Some(profit_factor) = calculate_2hop_profit_factor(price_buy, price_sell, fee_buy, fee_sell) {
                        if profit_factor > ONE && profit_factor > best_profit_ratio {
                            best_profit_ratio = profit_factor;
                            best_buy_idx = i;
                            best_sell_idx = j;
                        }
                    }
                }
            }
            j += 1;
        }
        proof {
            assert(i * n + n == (i + 1) * n) by (nonlinear_arith);
            assert((i + 1) * n <= n * n) by (nonlinear_arith)
                requires i + 1 <= n;
        }
        i += 1;
    }
    proof {
        assert(i == n);
    }
    if best_profit_ratio > ONE {
        Ok(
            TokenArbitrageAnalysis {
                max_profit_ratio: best_profit_ratio - ONE,
                buy_pool_state: Some(parsed_pools[best_buy_idx]),
                mid_pool_state: None,
                sell_pool_state: Some(parsed_pools[best_sell_idx]),
                is_mid_a2b: false,
            },
        )
    } else {
        Ok(
            TokenArbitrageAnalysis {
                max_profit_ratio: 0,
                buy_pool_state: None,
                mid_pool_state: None,
                sell_pool_state: None,
                is_mid_a2b: false,
            },
        )
    }
}


/// A three-hop route: wrapped SOL to token 1 on one pool, token 1 to token
/// 2 on another, token 2 back to wrapped SOL on a third.
#[derive(Debug, Clone, Copy)]
pub struct ThreeHopPath {
    pub wsol_to_token1_idx: usize,
    pub token1_to_token2_idx: usize,
    pub token2_to_wsol_idx: usize,
    pub token1_mint: [u8; 32],
    pub token2_mint: [u8; 32],
}

/// A pool's position with its two mints.
pub type PoolEntry = (usize, [u8; 32], [u8; 32]);

/// The pools among the first `k` that do (`with_wsol`) or do not trade
/// wrapped SOL, in order, each with its position and mints.
pub open spec fn pool_entries(pools: Seq<ParsedPoolState>, k: nat, with_wsol: bool) -> Seq<PoolEntry>
    decreases k,
{
    if k == 0 {
        Seq::empty()
    } else {
        let prev = pool_entries(pools, (k - 1) as nat, with_wsol);
        let p = pools[k - 1];
        if has_wsol(p) == with_wsol {
            prev.push(((k - 1) as usize, pool_mints(p).0, pool_mints(p).1))
        } else {
            prev
        }
    }
}

/// The mint of a wrapped-SOL pool that is not wrapped SOL (the second when
/// the first is wrapped SOL, else the first).
pub open spec fn other_than_wsol(a: [u8; 32], b: [u8; 32]) -> [u8; 32] {
    if a@ == WSOL_MINT@ {
        b
    } else {
        a
    }
}

/// The route through wrapped-SOL pool `w1`, token pool `t` and
/// wrapped-SOL pool `w2`, when `t` trades `w1`'s token for another that
/// `w2` trades, `w2` being another pool than `w1`.
pub open spec fn route(w1: PoolEntry, t: PoolEntry, w2: PoolEntry) -> Option<ThreeHopPath> {
    let token1 = other_than_wsol(w1.1, w1.2);
    let token2: Option<[u8; 32]> = if t.1@ == token1@ {
        Some(t.2)
    } else if t.2@ == token1@ {
        Some(t.1)
    } else {
        None
    };
    match token2 {
        None => None,
        Some(token2) => if w1.0 == w2.0 || other_than_wsol(w2.1, w2.2)@ != token2@ {
            None
        } else {
            Some(
                ThreeHopPath {
                    wsol_to_token1_idx: w1.0,
                    token1_to_token2_idx: t.0,
                    token2_to_wsol_idx: w2.0,
                    token1_mint: token1,
                    token2_mint: token2,
                },
            )
        },
    }
}

/// A route as a sequence of none or one.
pub open spec fn route_seq(o: Option<ThreeHopPath>) -> Seq<ThreeHopPath> {
    match o {
        None => Seq::empty(),
        Some(p) => seq![p],
    }
}

/// The routes through `w1` and `t` ending at the first `k` wrapped-SOL
/// pools.
pub open spec fn routes_last(ws: Seq<PoolEntry>, w1: PoolEntry, t: PoolEntry, k: nat) -> Seq<ThreeHopPath>
    decreases k,
{
    if k == 0 {
        Seq::empty()
    } else {
        routes_last(ws, w1, t, (k - 1) as nat) + route_seq(route(w1, t, ws[k - 1]))
    }
}

/// The routes starting at `w1` through the first `k` token pools.
pub open spec fn routes_mid(ws: Seq<PoolEntry>, ts: Seq<PoolEntry>, w1: PoolEntry, k: nat) -> Seq<ThreeHopPath>
    decreases k,
{
    if k == 0 {
        Seq::empty()
    } else {
        routes_mid(ws, ts, w1, (k - 1) as nat) + routes_last(ws, w1, ts[k - 1], ws.len())
    }
}

/// The routes starting at the first `k` wrapped-SOL pools.
pub open spec fn routes_first(ws: Seq<PoolEntry>, ts: Seq<PoolEntry>, k: nat) -> Seq<ThreeHopPath>
    decreases k,
{
    if k == 0 {
        Seq::empty()
    } else {
        routes_first(ws, ts, (k - 1) as nat) + routes_mid(ws, ts, ws[k - 1], ts.len())
    }
}

/// Every three-hop route among the pools, in the order of the first pool,
/// then the middle pool, then the last.
pub open spec fn valid_3hop_paths(pools: Seq<ParsedPoolState>) -> Seq<ThreeHopPath> {
    let ws = pool_entries(pools, pools.len(), true);
    let ts = pool_entries(pools, pools.len(), false);
    routes_first(ws, ts, ws.len())
}

/// A token pool that does not connect to `w1`'s token gives no route.
proof fn lemma_no_routes(ws: Seq<PoolEntry>, w1: PoolEntry, t: PoolEntry, k: nat)
    requires
        t.1@ != other_than_wsol(w1.1, w1.2)@,
        t.2@ != other_than_wsol(w1.1, w1.2)@,
    ensures
        routes_last(ws, w1, t, k) == Seq::<ThreeHopPath>::empty(),
    decreases k,
{
    if k > 0 {
        lemma_no_routes(ws, w1, t, (k - 1) as nat);
        assert(routes_last(ws, w1, t, k) =~= Seq::<ThreeHopPath>::empty());
    }
}

/// Every three-hop route among the pools; see `valid_3hop_paths`.
pub fn find_valid_3hop_paths(parsed_pools: &Vec<ParsedPoolState>) -> (r: Result<Vec<ThreeHopPath>, ErrorCode>)
    ensures
        r matches Ok(v) && v@ == valid_3hop_paths(parsed_pools@),
{
    let mut paths: Vec<ThreeHopPath> = Vec::new();
    let mut wsol_pools: Vec<PoolEntry> = Vec::new();
    let mut token_pools: Vec<PoolEntry> = Vec::new();
    let mut idx: usize = 0;
    while idx < parsed_pools.len()
        invariant
            idx <= parsed_pools@.len(),
            wsol_pools@ == pool_entries(parsed_pools@, idx as nat, true),
            token_pools@ == pool_entries(parsed_pools@, idx as nat, false),
        decreases parsed_pools@.len() - idx,
    {
        let (token_a, token_b, has_wsol) = parsed_pools[idx].get_pool_tokens();
        if has_wsol {
            wsol_pools.push((idx, token_a, token_b));
        } else {
            token_pools.push((idx, token_a, token_b));
        }
        idx += 1;
    }
    let ghost ws = wsol_pools@;
    let ghost ts = token_pools@;
    let mut a: usize = 0;
    while a < wsol_pools.len()
        invariant
            a <= ws.len(),
            ws == wsol_pools@,
            ts == token_pools@,
            paths@ == routes_first(ws, ts, a as nat),
        decreases ws.len() - a,
    {
        let (wsol_pool1_idx, token1_a, token1_b) = wsol_pools[a];
        let w1: PoolEntry = (wsol_pool1_idx, token1_a, token1_b);
        let token1 = if key_eq(&token1_a, &WSOL_MINT) {
            token1_b
        } else {
            token1_a
        };
        let ghost before_a = paths@;
        let mut b: usize = 0;
        while b < token_pools.len()
            invariant
                a < ws.len(),
                b <= ts.len(),
                ws == wsol_pools@,
                ts == token_pools@,
                w1 == ws[a as int],
                w1 == (wsol_pool1_idx, token1_a, token1_b),
                token1 == other_than_wsol(w1.1, w1.2),
                before_a == routes_first(ws, ts, a as nat),
                paths@ == before_a + routes_mid(ws, ts, w1, b as nat),
            decreases ts.len() - b,
        {
            let (token_pool_idx, token2_a, token2_b) = token_pools[b];
            let t: PoolEntry = (token_pool_idx, token2_a, token2_b);
            let ghost before_b = paths@;
            let token2 = if key_eq(&token2_a, &token1) {
                token2_b
            } else if key_eq(&token2_b, &token1) {
                token2_a
            } else {
                proof {
                    lemma_no_routes(ws, w1, t, ws.len());
                    assert(paths@ =~= before_a + routes_mid(ws, ts, w1, (b + 1) as nat));
                }
                b += 1;
                continue;
            };
            let mut c: usize = 0;
            while c < wsol_pools.len()
                invariant
                    a < ws.len(),
                    b < ts.len(),
                    c <= ws.len(),
                    ws == wsol_pools@,
                    ts == token_pools@,
                    w1 == ws[a as int],
                    t == ts[b as int],
                    w1 == (wsol_pool1_idx, token1_a, token1_b),
                    t == (token_pool_idx, token2_a, token2_b),
                    token1 == other_than_wsol(w1.1, w1.2),
                    t.1@ == token1@ ==> token2 == t.2,
                    t.1@ != token1@ ==> t.2@ == token1@ && token2 == t.1,
                    before_a == routes_first(ws, ts, a as nat),
                    before_b == before_a + routes_mid(ws, ts, w1, b as nat),
                    paths@ == before_b + routes_last(ws, w1, t, c as nat),
                decreases ws.len() - c,
            {
                let (wsol_pool2_idx, token3_a, token3_b) = wsol_pools[c];
                let ghost before_c = paths@;
                if wsol_pool1_idx != wsol_pool2_idx {
                    let token3 = if key_eq(&token3_a, &WSOL_MINT) {
                        token3_b
                    } else {
                        token3_a
                    };
                    if key_eq(&token3, &token2) {
                        paths.push(
                            ThreeHopPath {
                                wsol_to_token1_idx: wsol_pool1_idx,
                                token1_to_token2_idx: token_pool_idx,
                                token2_to_wsol_idx: wsol_pool2_idx,
                                token1_mint: token1,
                                token2_mint: token2,
                            },
                        );
                    }
                }
                proof {
                    let w2 = ws[c as int];
                    assert(w2 == (wsol_pool2_idx, token3_a, token3_b));
                    assert(routes_last(ws, w1, t, (c + 1) as nat) == routes_last(ws, w1, t, c as nat) + route_seq(route(w1, t, w2)));
                    assert(paths@ =~= before_c + route_seq(route(w1, t, w2)));
                    assert(paths@ =~= before_b + routes_last(ws, w1, t, (c + 1) as nat));
                }
                c += 1;
            }
            proof {
                assert(paths@ =~= before_a + routes_mid(ws, ts, w1, (b + 1) as nat));
            }
            b += 1;
        }
        proof {
            assert(paths@ =~= routes_first(ws, ts, (a + 1) as nat));
        }
        a += 1;
    }
    Ok(paths)
}

/// The price of `target` through a pool from its stored price: a pool with
/// wrapped SOL stores wrapped SOL per token, giving it as is for wrapped SOL
/// and its inverse (2^128 over it, rounded down) for the token; a token
/// pool stores token B per token A, as is for B and inverted for A. `None`
/// for a zero price to invert or a target the pool does not trade.
pub open spec fn directional_price(pool: ParsedPoolState, stored_price: u128, is_wsol_involved: bool, target_token: [u8; 32]) -> Option<u128> {
    let inverse = if stored_price == 0 {
        None
    } else {
        Some(or_zero(spec_mul_div(ONE, ONE, stored_price, Rounding::Down)))
    };
    if is_wsol_involved {
        if target_token@ == WSOL_MINT@ {
            Some(stored_price)
        } else {
            inverse
        }
    } else if target_token@ == pool_mints(pool).1@ {
        Some(stored_price)
    } else if target_token@ == pool_mints(pool).0@ {
        inverse
    } else {
        None
    }
}

/// The price of a token through a pool; see `directional_price`.
pub fn get_directional_price(pool: &ParsedPoolState, stored_price: u128, is_wsol_involved: bool, target_token: [u8; 32]) -> (r: Option<u128>)
    ensures
        r == directional_price(*pool, stored_price, is_wsol_involved, target_token),
{
    let (token_a, token_b, _) = pool.get_pool_tokens();
    if is_wsol_involved {
        if key_eq(&target_token, &WSOL_MINT) {
            Some(stored_price)
        } else {
            if stored_price == 0 {
                return None;
            }
            Some(safe_mul_div_cast(ONE, ONE, stored_price, Rounding::Down))
        }
    } else {
        if key_eq(&target_token, &token_b) {
            Some(stored_price)
        } else if key_eq(&target_token, &token_a) {
            if stored_price == 0 {
                return None;
            }
            Some(safe_mul_div_cast(ONE, ONE, stored_price, Rounding::Down))
        } else {
            None
        }
    }
}

/// Whether a trade into a pool with `token_in` goes from its first mint
/// to its second.
pub fn get_pool_trade_direction(pool: &ParsedPoolState, token_in: [u8; 32]) -> (r: bool)
    ensures
        r == (pool_mints(*pool).0@ == token_in@),
{
    match pool {
        ParsedPoolState::CPMM { state } => key_eq(&state.token0_mint, &token_in),
        ParsedPoolState::DLMM { state } => key_eq(&state.token_x_mint, &token_in),
        ParsedPoolState::DAMMV2 { state } => key_eq(&state.token_a_mint, &token_in),
        ParsedPoolState::PUMP { state } => key_eq(&state.base_mint, &token_in),
        ParsedPoolState::RAYDIUM { state } => key_eq(&state.base_mint, &token_in),
        ParsedPoolState::CLMM { state } => key_eq(&state.token_mint_0, &token_in),
        ParsedPoolState::WHIRLPOOL { state } => key_eq(&state.token_mint_a, &token_in),
    }
}

/// The Q64.64 profit ratio of a route: the three directional prices
/// (token 1 from the first pool, token 2 from the middle one, wrapped SOL
/// from the last; see `directional_price`) multiplied in turn, then by the
/// product of the three fee complements, all rounded down; the part above
/// one, or zero. `None` for a route past the pools, a missing price, a fee
/// above one or a zero price product.
pub open spec fn profit_ratio_3hop(path: ThreeHopPath, d: Seq<(u128, u128)>, pools: Seq<ParsedPoolState>) -> Option<u128> {
    let i1 = path.wsol_to_token1_idx as int;
    let i2 = path.token1_to_token2_idx as int;
    let i3 = path.token2_to_wsol_idx as int;
    if i1 >= d.len() || i2 >= d.len() || i3 >= d.len() || i1 >= pools.len() || i2 >= pools.len() || i3 >= pools.len() {
        None
    } else {
        let (price1, fee1) = d[i1];
        let (price2, fee2) = d[i2];
        let (price3, fee3) = d[i3];
        match (
            directional_price(pools[i1], price1, true, path.token1_mint),
            directional_price(pools[i2], price2, false, path.token2_mint),
            directional_price(pools[i3], price3, true, WSOL_MINT),
        ) {
            (Some(s1), Some(s2), Some(s3)) => if fee1 > ONE || fee2 > ONE || fee3 > ONE {
                None
            } else {
                let p12 = or_zero(spec_mul_div(s1, s2, ONE, Rounding::Down));
                let p = or_zero(spec_mul_div(p12, s3, ONE, Rounding::Down));
                if p12 == 0 || p == 0 {
                    None
                } else {
                    let f12 = or_zero(spec_mul_div((ONE - fee1) as u128, (ONE - fee2) as u128, ONE, Rounding::Down));
                    let f = or_zero(spec_mul_div(f12, (ONE - fee3) as u128, ONE, Rounding::Down));
                    let total = or_zero(spec_mul_div(p, f, ONE, Rounding::Down));
                    Some(
                        if total > ONE {
                            (total - ONE) as u128
                        } else {
                            0
                        },
                    )
                }
            },
            _ => None,
        }
    }
}

/// The profit ratio of a route; see `profit_ratio_3hop`.
pub fn calculate_3hop_profit_ratio(path: &ThreeHopPath, pool_data: &Vec<(u128, u128)>, parsed_pools: &Vec<ParsedPoolState>) -> (r: Option<
    u128,
>)
    ensures
        r == profit_ratio_3hop(*path, pool_data@, parsed_pools@),
{
    if path.wsol_to_token1_idx >= pool_data.len() || path.token1_to_token2_idx >= pool_data.len() || path.token2_to_wsol_idx
        >= pool_data.len() || path.wsol_to_token1_idx >= parsed_pools.len() || path.token1_to_token2_idx >= parsed_pools.len()
        || path.token2_to_wsol_idx >= parsed_pools.len() {
        return None;
    }
    let (price1, fee1) = pool_data[path.wsol_to_token1_idx];
    let (price2, fee2) = pool_data[path.token1_to_token2_idx];
    let (price3, fee3) = pool_data[path.token2_to_wsol_idx];
    let step1_price = get_directional_price(&parsed_pools[path.wsol_to_token1_idx], price1, true, path.token1_mint)?;
    let step2_price = get_directional_price(&parsed_pools[path.token1_to_token2_idx], price2, false, path.token2_mint)?;
    let step3_price = get_directional_price(&parsed_pools[path.token2_to_wsol_idx], price3, true, WSOL_MINT)?;
    let fee_factor1 = ONE.checked_sub(fee1)?;
    let fee_factor2 = ONE.checked_sub(fee2)?;
    let fee_factor3 = ONE.checked_sub(fee3)?;
    let price_product_12 = safe_mul_div_cast(step1_price, step2_price, ONE, Rounding::Down);
    if price_product_12 == 0 {
        return None;
    }
    let price_product = safe_mul_div_cast(price_product_12, step3_price, ONE, Rounding::Down);
    if price_product == 0 {
        return None;
    }
    let fee_product_12 = safe_mul_div_cast(fee_factor1, fee_factor2, ONE, Rounding::Down);
    let fee_product = safe_mul_div_cast(fee_product_12, fee_factor3, ONE, Rounding::Down);
    let total_factor = safe_mul_div_cast(price_product, fee_product, ONE, Rounding::Down);
    if total_factor > ONE {
        Some(total_factor - ONE)
    } else {
        Some(0)
    }
}

/// The best ratio among the first `k` routes, with the route's position;
/// the first route wins a tie, and a ratio must be above zero to count.
pub open spec fn best_3hop(paths: Seq<ThreeHopPath>, d: Seq<(u128, u128)>, pools: Seq<ParsedPoolState>, k: nat) -> (u128, Option<int>)
    decreases k,
{
    if k == 0 {
        (0, None)
    } else {
        let prev = best_3hop(paths, d, pools, (k - 1) as nat);
        match profit_ratio_3hop(paths[k - 1], d, pools) {
            Some(r) => if r > prev.0 {
                (r, Some(k - 1))
            } else {
                prev
            },
            None => prev,
        }
    }
}

/// The best three-hop trade among the pools: over the routes (see
/// `valid_3hop_paths`), the best ratio (see `best_3hop`) with its three
/// pools, the middle trade going from the middle pool's first mint when
/// that is token 1; nothing without a route with a ratio above zero.
pub open spec fn three_hop_analysis(d: Seq<(u128, u128)>, pools: Seq<ParsedPoolState>) -> TokenArbitrageAnalysis {
    let paths = valid_3hop_paths(pools);
    let b = best_3hop(paths, d, pools, paths.len());
    match b.1 {
        None => no_arbitrage(),
        Some(k) => {
            let path = paths[k];
            TokenArbitrageAnalysis {
                max_profit_ratio: b.0,
                buy_pool_state: Some(pools[path.wsol_to_token1_idx as int]),
                mid_pool_state: Some(pools[path.token1_to_token2_idx as int]),
                sell_pool_state: Some(pools[path.token2_to_wsol_idx as int]),
                is_mid_a2b: pool_mints(pools[path.token1_to_token2_idx as int]).0@ == path.token1_mint@,
            }
        },
    }
}

/// A best ratio with a route only comes from a route within the pools.
proof fn lemma_best_3hop_found(paths: Seq<ThreeHopPath>, d: Seq<(u128, u128)>, pools: Seq<ParsedPoolState>, k: nat)
    requires
        k <= paths.len(),
    ensures
        best_3hop(paths, d, pools, k).1 matches Some(i) ==> 0 <= i < k && profit_ratio_3hop(paths[i], d, pools) is Some,
    decreases k,
{
    if k > 0 {
        lemma_best_3hop_found(paths, d, pools, (k - 1) as nat);
    }
}

/// The best three-hop trade; see `three_hop_analysis`.
pub fn find_best_3hop_arbitrage(pool_data: &Vec<(u128, u128)>, parsed_pools: &Vec<ParsedPoolState>) -> (r: Result<
    TokenArbitrageAnalysis,
    ErrorCode,
>)
    ensures
        r == Ok::<TokenArbitrageAnalysis, ErrorCode>(three_hop_analysis(pool_data@, parsed_pools@)),
{
    let valid_paths = find_valid_3hop_paths(parsed_pools)?;
    let ghost paths = valid_paths@;
    if valid_paths.len() == 0 {
        return Ok(
            TokenArbitrageAnalysis {
                max_profit_ratio: 0,
                buy_pool_state: None,
                mid_pool_state: None,
                sell_pool_state: None,
                is_mid_a2b: false,
            },
        );
    }
    let mut best_profit_ratio: u128 = 0;
    let mut best_path: Option<usize> = None;
    let mut k: usize = 0;
    while k < valid_paths.len()
        invariant
            k <= paths.len(),
            paths == valid_paths@,
            paths == valid_3hop_paths(parsed_pools@),
            best_3hop(paths, pool_data@, parsed_pools@, k as nat) == (
                best_profit_ratio,
                match best_path {
                    Some(i) => Some(i as int),
                    None => None::<int>,
                },
            ),
        decreases paths.len() - k,
    {
        if let Some(profit_ratio) = calculate_3hop_profit_ratio(&valid_paths[k], pool_data, parsed_pools) {
            if profit_ratio > best_profit_ratio {
                best_profit_ratio = profit_ratio;
                best_path = Some(k);
            }
        }
        k += 1;
    }
    proof {
        lemma_best_3hop_found(paths, pool_data@, parsed_pools@, paths.len());
    }
    match best_path {
        Some(i) => {
            let path = valid_paths[i];
            let is_mid_a2b = get_pool_trade_direction(&parsed_pools[path.token1_to_token2_idx], path.token1_mint);
            Ok(
                TokenArbitrageAnalysis {
                    max_profit_ratio: best_profit_ratio,
                    buy_pool_state: Some(parsed_pools[path.wsol_to_token1_idx]),
                    mid_pool_state: Some(parsed_pools[path.token1_to_token2_idx]),
                    sell_pool_state: Some(parsed_pools[path.token2_to_wsol_idx]),
                    is_mid_a2b,
                },
            )
        },
        None => Ok(
            TokenArbitrageAnalysis {
                max_profit_ratio: 0,
                buy_pool_state: None,
                mid_pool_state: None,
                sell_pool_state: None,
                is_mid_a2b: false,
            },
        ),
    }
}

/// Every pool's fee rate can be formed; see `fee_rate_fits`.
pub open spec fn fee_rates_fit(pools: Seq<ParsedPoolState>) -> bool {
    forall|i: int| 0 <= i < pools.len() ==> fee_rate_fits(#[trigger] pools[i])
}

/// The prices and fees of the pools, in order.
pub open spec fn pools_price_and_fee(pools: Seq<ParsedPoolState>) -> Seq<(u128, u128)> {
    pools.map_values(|p: ParsedPoolState| price_and_fee(p))
}

/// The prices and fees of the pools; see `price_and_fee`.
fn collect_price_and_fee(parsed_pools: &Vec<ParsedPoolState>) -> (r: Vec<(u128, u128)>)
    requires
        fee_rates_fit(parsed_pools@),
    ensures
        r@ == pools_price_and_fee(parsed_pools@),
{
    let mut pool_data: Vec<(u128, u128)> = Vec::new();
    let mut i: usize = 0;
    while i < parsed_pools.len()
        invariant
            i <= parsed_pools@.len(),
            fee_rates_fit(parsed_pools@),
            pool_data@ == pools_price_and_fee(parsed_pools@).subrange(0, i as int),
        decreases parsed_pools@.len() - i,
    {
        let pf = extract_price_and_fee(&parsed_pools[i]);
        pool_data.push(pf);
        proof {
            assert(pools_price_and_fee(parsed_pools@).subrange(0, i + 1) =~= pools_price_and_fee(parsed_pools@).subrange(
                0,
                i as int,
            ).push(pf));
        }
        i += 1;
    }
    assert(pools_price_and_fee(parsed_pools@).subrange(0, i as int) =~= pools_price_and_fee(parsed_pools@));
    pool_data
}

/// The best two-hop trade among a token's pools from their prices and
/// fees; see `two_hop_analysis`.
pub fn analyze_2hop_arbitrage_only(parsed_pools: &Vec<ParsedPoolState>) -> (r: Result<TokenArbitrageAnalysis, ErrorCode>)
    requires
        fee_rates_fit(parsed_pools@),
    ensures
        r == Ok::<TokenArbitrageAnalysis, ErrorCode>(two_hop_analysis(pools_price_and_fee(parsed_pools@), parsed_pools@)),
{
    let pool_data = collect_price_and_fee(parsed_pools);
    find_best_2hop_arbitrage(&pool_data, parsed_pools)
}

/// The best three-hop trade among a token's pools from their prices and
/// fees: nothing under three pools, else see `three_hop_analysis`.
pub fn analyze_3hop_arbitrage_only(parsed_pools: &Vec<ParsedPoolState>) -> (r: Result<TokenArbitrageAnalysis, ErrorCode>)
    requires
        fee_rates_fit(parsed_pools@),
    ensures
        r == Ok::<TokenArbitrageAnalysis, ErrorCode>(
            if parsed_pools@.len() >= 3 {
                three_hop_analysis(pools_price_and_fee(parsed_pools@), parsed_pools@)
            } else {
                no_arbitrage()
            },
        ),
{
    let pool_data = collect_price_and_fee(parsed_pools);
    if pool_data.len() >= 3 {
        find_best_3hop_arbitrage(&pool_data, parsed_pools)
    } else {
        Ok(
            TokenArbitrageAnalysis {
                max_profit_ratio: 0,
                buy_pool_state: None,
                mid_pool_state: None,
                sell_pool_state: None,
                is_mid_a2b: false,
            },
        )
    }
}


/// The middle pool of a three-hop trade, its direction, and where the two
/// intermediate tokens' mint, program and token accounts sit.
#[derive(Debug, Clone)]
pub struct MidPoolInfo {
    pub is_mid_a2b: bool,
    pub pool_state: Box<ParsedPoolState>,
    pub token1_mint_index: usize,
    pub token2_mint_index: usize,
    pub token1_program_index: usize,
    pub token2_program_index: usize,
    pub token1_mint_token_account_index: usize,
    pub token2_mint_token_account_index: usize,
}

/// Where the traded token's mint, program and token accounts sit in a
/// two-hop trade.
#[derive(Debug, Clone, Copy)]
pub struct TwoHopTokenInfo {
    pub token_mint_index: usize,
    pub token_program_index: usize,
    pub mint_token_account_index: usize,
}


/// An all-zero 32-byte key.
pub const ZERO_KEY: [u8; 32] = [
    0, 0, 0, 0, 0, 0, 0, 0, 0, 0, 0, 0, 0, 0, 0, 0, 0, 0, 0, 0, 0, 0, 0, 0, 0, 0, 0, 0, 0, 0, 0, 0,
];

/// A constant-product pool's state holding its accounts' positions.
pub open spec fn cpmm_init(
    program_id_index: usize,
    pool_index: usize,
    authority_index: usize,
    config_index: usize,
    token0_vault_index: usize,
    token1_vault_index: usize,
    observation_state_index: usize,
) -> CpmmPoolState {
    CpmmPoolState {
        program_id_index,
        pool_index,
        authority_index,
        observation_state_index,
        config_index,
        token0_vault_index,
        token1_vault_index,
        token0_reserve: 0,
        token1_reserve: 0,
        token0_mint: ZERO_KEY,
        token1_mint: ZERO_KEY,
        trade_fee_rate: 0,
        creator_fee_rate: 0,
        price: 0,
        enable_creator_fee: false,
        creator_fee_on: 0,
        protocol_fees_token_0: 0,
        protocol_fees_token_1: 0,
        fund_fees_token_0: 0,
        fund_fees_token_1: 0,
        creator_fees_token_0: 0,
        creator_fees_token_1: 0,
        total_fee_rate: 0,
    }
}

/// Reading a constant-product pool and (but for a direct swap) pricing it
/// go through: see `cpmm_parse_readable`, and, to price it, the fee sums
/// fit whatever the mints.
pub open spec fn cpmm_pool_ok(init: CpmmPoolState, accounts: Seq<AccountView>, wsol: Seq<u8>, token: Seq<u8>, is_dir_swap: bool) -> bool {
    &&& cpmm_parse_readable(init.pool_index, init.config_index, wsol, token, accounts, init)
    &&& !is_dir_swap ==> forall|m0: [u8; 32], m1: [u8; 32]|
        #![trigger cpmm_parsed(init, accounts, init.pool_index, init.config_index, m0, m1)]
        cpmm_fee_sums_fit(cpmm_parsed(init, accounts, init.pool_index, init.config_index, m0, m1))
}

/// What reading (and, but for a direct swap, pricing) a constant-product
/// pool gives: `InvalidPoolOwner` unless the program owns the pool,
/// the pair's error (see `cpmm_pair_error`), `InvalidAccount` when the
/// pool does not name the config account, `ZeroLiquidity` for an empty
/// vault; else the pool read (see `cpmm_parsed`), then priced: wrapped SOL
/// per token in Q64.64 over the available reserves, `ZeroLiquidity` when
/// either is empty.
pub open spec fn cpmm_outcome(init: CpmmPoolState, accounts: Seq<AccountView>, wsol: Seq<u8>, token: Seq<u8>, is_dir_swap: bool) -> Result<
    CpmmPoolState,
    ErrorCode,
> {
    let pi = init.pool_index;
    let ci = init.config_index;
    let data = accounts[pi as int].data@;
    if accounts[pi as int].owner@ != CPMM_PROGRAM_ID@ {
        Err(ErrorCode::InvalidPoolOwner)
    } else if cpmm_pair_error(data, wsol, token) is Some {
        Err(cpmm_pair_error(data, wsol, token)->0)
    } else if data.subrange(8, 40) != accounts[ci as int].key@ {
        Err(ErrorCode::InvalidAccount)
    } else if cpmm_with_reserves(init, accounts).token0_reserve == 0 || cpmm_with_reserves(init, accounts).token1_reserve == 0 {
        Err(ErrorCode::ZeroLiquidity)
    } else {
        let s = cpmm_parsed(init, accounts, pi, ci, key_of(cpmm_mints(data).0), key_of(cpmm_mints(data).1));
        if is_dir_swap {
            Ok(s)
        } else {
            let (w, t) = cpmm_wsol_token_reserves(s, wsol);
            if w == 0 || t == 0 {
                Err(ErrorCode::ZeroLiquidity)
            } else {
                Ok(CpmmPoolState { price: (w * 0x1_0000_0000_0000_0000int / (t as int)) as u128, ..s })
            }
        }
    }
}

/// A constant-product pool read and priced, or only read for a direct
/// swap; see `cpmm_outcome`.
fn parse_cpmm_with_state(
    init: CpmmPoolState,
    wsol_mint: [u8; 32],
    token_mint: [u8; 32],
    accounts: &Vec<AccountView>,
    is_dir_swap: bool,
) -> (r: Result<ParsedPoolState, ErrorCode>)
    requires
        cpmm_pool_ok(init, accounts@, wsol_mint@, token_mint@, is_dir_swap),
    ensures
        r matches Ok(p) ==> p matches ParsedPoolState::CPMM { state } && state.pool_index == init.pool_index,
        r == match cpmm_outcome(init, accounts@, wsol_mint@, token_mint@, is_dir_swap) {
            Ok(s) => Ok::<ParsedPoolState, ErrorCode>(ParsedPoolState::CPMM { state: s }),
            Err(e) => Err(e),
        },
{
    let mut pool_state = init;
    let pool_index = init.pool_index;
    let config_index = init.config_index;
    parse_cpmm_pool_data(&pool_index, &config_index, wsol_mint, token_mint, accounts, &mut pool_state)?;
    proof {
        lemma_key_of(pool_state.token0_mint);
        lemma_key_of(pool_state.token1_mint);
    }
    if is_dir_swap {
        return Ok(ParsedPoolState::CPMM { state: pool_state });
    }
    calculate_cpmm_price(wsol_mint, &mut pool_state)?;
    Ok(ParsedPoolState::CPMM { state: pool_state })
}

/// A DLMM pool's state holding its accounts' positions.
pub open spec fn dlmm_init(
    program_id_index: usize,
    event_authority_index: usize,
    oracle_index: usize,
    pool_index: usize,
    reserve_x_index: usize,
    reserve_y_index: usize,
    bin_array_minus_1_index: usize,
    bin_array_0_index: usize,
    bin_array_1_index: usize,
) -> DlmmPoolState {
    DlmmPoolState {
        program_id_index,
        event_authority_index,
        oracle_index,
        pool_index,
        token_x_mint: ZERO_KEY,
        token_y_mint: ZERO_KEY,
        active_id: 0,
        bin_step: 0,
        base_factor: 0,
        variable_fee_control: 0,
        max_volatility_accumulator: 0,
        base_fee_power_factor: 0,
        total_fee_rate: 0,
        base_fee: 0,
        price: 0,
        volatility_accumulator: 0,
        volatility_reference: 0,
        index_reference: 0,
        reserve_x_index,
        reserve_y_index,
        bin_array_minus_1_index,
        bin_array_0_index,
        bin_array_1_index,
    }
}

/// Reading a DLMM pool, and (but for a direct swap) pricing it and forming
/// its fee, go through: the pool holds its fields; to price it, its active
/// bin is not the lowest `i32` and its fee is defined whatever its mints
/// and price.
pub open spec fn dlmm_pool_ok(init: DlmmPoolState, accounts: Seq<AccountView>, is_dir_swap: bool) -> bool {
    let pi = init.pool_index;
    let d = accounts[pi as int].data@;
    &&& pi < accounts.len()
    &&& accounts[pi as int].owner@ == DLMM_PROGRAM_ID@ ==> d.len() >= 152
    &&& !is_dir_swap ==> forall|x: [u8; 32], y: [u8; 32]|
        #![trigger dlmm_read(init, d, x, y)]
        dlmm_read(init, d, x, y).active_id != i32::MIN
    &&& !is_dir_swap ==> forall|x: [u8; 32], y: [u8; 32], p: u128|
        #![trigger dlmm_read(init, d, x, y), dlmm_with_price(dlmm_read(init, d, x, y), p)]
        dlmm_fee_rate_defined(dlmm_with_price(dlmm_read(init, d, x, y), p))
}

/// A DLMM state with another price.
pub open spec fn dlmm_with_price(s: DlmmPoolState, p: u128) -> DlmmPoolState {
    DlmmPoolState { price: p, ..s }
}

/// A DLMM state with its base fee and total fee rate (capped at
/// 100_000_000) formed.
pub open spec fn dlmm_fee_formed(s: DlmmPoolState) -> DlmmPoolState {
    let total = dlmm_base_fee(s) + if s.variable_fee_control > 0 {
        dlmm_variable_fee(s.variable_fee_control, s.volatility_accumulator, s.bin_step)
    } else {
        0
    };
    DlmmPoolState {
        base_fee: dlmm_base_fee(s) as u64,
        total_fee_rate: if total < 100_000_000 {
            total as u64
        } else {
            100_000_000
        },
        ..s
    }
}

/// What reading (and, but for a direct swap, pricing and forming the fee
/// of) a DLMM pool gives: `InvalidPoolOwner` unless the program owns it,
/// `InvalidTokenPair` unless one of its mints is wrapped SOL,
/// `TokenMismatch` unless the other is the token; else the pool read (see
/// `dlmm_read`), then its active bin's price (`MathOverflow` where not
/// defined, `ZeroPrice` for zero) as wrapped SOL per token, and its fee.
pub open spec fn dlmm_outcome(init: DlmmPoolState, accounts: Seq<AccountView>, wsol: Seq<u8>, token: Seq<u8>, is_dir_swap: bool) -> Result<
    DlmmPoolState,
    ErrorCode,
> {
    let d = accounts[init.pool_index as int].data@;
    let x = d.subrange(88, 120);
    let y = d.subrange(120, 152);
    if accounts[init.pool_index as int].owner@ != DLMM_PROGRAM_ID@ {
        Err(ErrorCode::InvalidPoolOwner)
    } else if x != wsol && y != wsol {
        Err(ErrorCode::InvalidTokenPair)
    } else if (if x == wsol {
        y
    } else {
        x
    }) != token {
        Err(ErrorCode::TokenMismatch)
    } else {
        let s = dlmm_read(init, d, key_of(x), key_of(y));
        if is_dir_swap {
            Ok(s)
        } else {
            match bin_price(s.active_id, s.bin_step) {
                None => Err(ErrorCode::MathOverflow),
                Some(p) => if p == 0 {
                    Err(ErrorCode::ZeroPrice)
                } else {
                    Ok(dlmm_fee_formed(DlmmPoolState { price: directional_bin_price(p, s.token_y_mint@ == wsol), ..s }))
                },
            }
        }
    }
}

/// A DLMM pool read, priced and its fee formed, or only read for a direct
/// swap; see `dlmm_outcome`.
fn parse_dlmm_with_state(
    init: DlmmPoolState,
    wsol_mint: [u8; 32],
    token_mint: [u8; 32],
    accounts: &Vec<AccountView>,
    is_dir_swap: bool,
) -> (r: Result<ParsedPoolState, ErrorCode>)
    requires
        dlmm_pool_ok(init, accounts@, is_dir_swap),
    ensures
        r matches Ok(p) ==> p matches ParsedPoolState::DLMM { state } && state.pool_index == init.pool_index,
        r == match dlmm_outcome(init, accounts@, wsol_mint@, token_mint@, is_dir_swap) {
            Ok(s) => Ok::<ParsedPoolState, ErrorCode>(ParsedPoolState::DLMM { state: s }),
            Err(e) => Err(e),
        },
{
    let mut pool_state = init;
    let pool_index = init.pool_index;
    parse_dlmm_pool_data(&pool_index, wsol_mint, token_mint, accounts, &mut pool_state)?;
    proof {
        lemma_key_of(pool_state.token_x_mint);
        lemma_key_of(pool_state.token_y_mint);
    }
    let ghost d = accounts@[pool_index as int].data@;
    assert(pool_state == dlmm_read(init, d, pool_state.token_x_mint, pool_state.token_y_mint));
    if is_dir_swap {
        return Ok(ParsedPoolState::DLMM { state: pool_state });
    }
    get_dlmm_price_from_bin_array(wsol_mint, &mut pool_state)?;
    assert(pool_state == dlmm_with_price(dlmm_read(init, d, pool_state.token_x_mint, pool_state.token_y_mint), pool_state.price));
    calculate_dlmm_total_fee_rate(&mut pool_state)?;
    Ok(ParsedPoolState::DLMM { state: pool_state })
}

/// A DAMM v2 pool's state holding its accounts' positions.
pub open spec fn dammv2_init(
    program_id_index: usize,
    event_authority_index: usize,
    pool_authority_index: usize,
    pool_index: usize,
    token_a_vault_index: usize,
    token_b_vault_index: usize,
) -> Dammv2PoolState {
    Dammv2PoolState {
        program_id_index,
        event_authority_index,
        pool_authority_index,
        pool_index,
        token_a_vault_index,
        token_b_vault_index,
        token_a_mint: ZERO_KEY,
        token_b_mint: ZERO_KEY,
        sqrt_price: 0,
        cliff_fee_numerator: 0,
        fee_scheduler_mode: 0,
        number_of_period: 0,
        period_frequency: 0,
        reduction_factor: 0,
        liquidity: 0,
        collect_fee_mode: 0,
        dynamic_fee_initialized: 0,
        variable_fee_control: 0,
        bin_step: 0,
        volatility_accumulator: 0,
        activation_type: 0,
        activation_point: 0,
        total_fee_rate: 0,
        price: 0,
    }
}

/// A DAMM v2 state with another price.
pub open spec fn dammv2_with_price(s: Dammv2PoolState, p: u128) -> Dammv2PoolState {
    Dammv2PoolState { price: p, ..s }
}

/// Reading a DAMM v2 pool, pricing it and forming its fee at the clock's
/// point go through: the pool holds its fields, the square-root price
/// squared fits 128 bits, and the fee is defined whatever the mints and
/// price.
pub open spec fn dammv2_pool_ok(init: Dammv2PoolState, accounts: Seq<AccountView>, clock: ClockView, is_dir_swap: bool) -> bool {
    let pi = init.pool_index;
    let d = accounts[pi as int].data@;
    &&& pi < accounts.len()
    &&& accounts[pi as int].owner@ == DAMMV2_PROGRAM_ID@ ==> d.len() >= 485
    &&& !is_dir_swap ==> forall|a: [u8; 32], b: [u8; 32]|
        #![trigger dammv2_read(init, d, a, b)]
        dammv2_read(init, d, a, b).sqrt_price * dammv2_read(init, d, a, b).sqrt_price <= u128::MAX
    &&& !is_dir_swap ==> forall|a: [u8; 32], b: [u8; 32], p: u128|
        #![trigger dammv2_with_price(dammv2_read(init, d, a, b), p)]
        match dammv2_point(dammv2_read(init, d, a, b), clock) {
            Some(point) => dammv2_fee_defined(dammv2_with_price(dammv2_read(init, d, a, b), p), point),
            None => true,
        }
}

/// What reading (and, but for a direct swap, pricing and forming the fee
/// of) a DAMM v2 pool gives: `InvalidPoolOwner`, `InvalidTokenPair`,
/// `TokenMismatch` as for the other pools, `ZeroLiquidity` without
/// liquidity; else the pool read (see `dammv2_read`), priced from its
/// square-root price (`ZeroPrice` for zero; zero when token B is not
/// wrapped SOL), then its fee at the clock's point (`InvalidActivationType`
/// for an unknown activation type; see `total_fee_numerator`, capped at
/// 500_000_000).
pub open spec fn dammv2_outcome(
    init: Dammv2PoolState,
    accounts: Seq<AccountView>,
    wsol: Seq<u8>,
    token: Seq<u8>,
    is_dir_swap: bool,
    clock: ClockView,
) -> Result<Dammv2PoolState, ErrorCode> {
    let d = accounts[init.pool_index as int].data@;
    let a = d.subrange(168, 200);
    let b = d.subrange(200, 232);
    if accounts[init.pool_index as int].owner@ != DAMMV2_PROGRAM_ID@ {
        Err(ErrorCode::InvalidPoolOwner)
    } else if a != wsol && b != wsol {
        Err(ErrorCode::InvalidTokenPair)
    } else if (if a == wsol {
        b
    } else {
        a
    }) != token {
        Err(ErrorCode::TokenMismatch)
    } else if le_value(d, 360, 16) == 0 {
        Err(ErrorCode::ZeroLiquidity)
    } else {
        let s = dammv2_read(init, d, key_of(a), key_of(b));
        if is_dir_swap {
            Ok(s)
        } else {
            let p = s.sqrt_price * s.sqrt_price / 0x1_0000_0000_0000_0000int;
            if p == 0 {
                Err(ErrorCode::ZeroPrice)
            } else {
                let s2 = Dammv2PoolState {
                    price: if s.token_b_mint@ != wsol {
                        0
                    } else {
                        p as u128
                    },
                    ..s
                };
                match dammv2_point(s2, clock) {
                    None => Err(ErrorCode::InvalidActivationType),
                    Some(pt) => match total_fee_numerator(s2, pt) {
                        Ok(t) => Ok(
                            Dammv2PoolState {
                                total_fee_rate: if t < 500_000_000 {
                                    t as u64
                                } else {
                                    500_000_000
                                },
                                ..s2
                            },
                        ),
                        Err(e) => Err(e),
                    },
                }
            }
        }
    }
}

/// A DAMM v2 pool read, priced and its fee formed at the clock's point, or
/// only read for a direct swap; see `dammv2_outcome`.
fn parse_dammv2_with_state(
    init: Dammv2PoolState,
    wsol_mint: [u8; 32],
    token_mint: [u8; 32],
    accounts: &Vec<AccountView>,
    is_dir_swap: bool,
    clock: &ClockView,
) -> (r: Result<ParsedPoolState, ErrorCode>)
    requires
        dammv2_pool_ok(init, accounts@, *clock, is_dir_swap),
    ensures
        r matches Ok(p) ==> p matches ParsedPoolState::DAMMV2 { state } && state.pool_index == init.pool_index,
        r == match dammv2_outcome(init, accounts@, wsol_mint@, token_mint@, is_dir_swap, *clock) {
            Ok(s) => Ok::<ParsedPoolState, ErrorCode>(ParsedPoolState::DAMMV2 { state: s }),
            Err(e) => Err(e),
        },
{
    let mut pool_state = init;
    let pool_index = init.pool_index;
    parse_dammv2_pool_data(&pool_index, wsol_mint, token_mint, accounts, &mut pool_state)?;
    proof {
        lemma_key_of(pool_state.token_a_mint);
        lemma_key_of(pool_state.token_b_mint);
    }
    let ghost d = accounts@[pool_index as int].data@;
    let ghost read = dammv2_read(init, d, pool_state.token_a_mint, pool_state.token_b_mint);
    assert(pool_state == read);
    if is_dir_swap {
        return Ok(ParsedPoolState::DAMMV2 { state: pool_state });
    }
    calculate_dammv2_price(&mut pool_state, wsol_mint)?;
    assert(pool_state == dammv2_with_price(read, pool_state.price));
    let current_point = dammv2_current_point(&pool_state, clock)?;
    assert(dammv2_point(read, *clock) == Some(current_point));
    calculate_dammv2_total_fee_rate(&mut pool_state, current_point)?;
    Ok(ParsedPoolState::DAMMV2 { state: pool_state })
}

/// A pump pool's state holding its accounts' positions, with the global
/// config's address as both creators.
pub open spec fn pump_init(p: PoolData, accounts: Seq<AccountView>) -> PumpPoolState {
    match p {
        PoolData::PUMP {
            program_id_index,
            pool_index,
            global_config_index,
            event_authority_index,
            coin_creator_vault_ata_index,
            coin_creator_vault_authority_index,
            pump_fee_wallet_index,
            pump_fee_wallet_ata_index,
            global_vol_accumulator_index,
            user_vol_accumulator_index,
            system_program_index,
            associated_token_program_index,
            base_vault_index,
            quote_vault_index,
            fee_config_index,
            fee_program_index,
        } => PumpPoolState {
            program_id_index,
            pool_index,
            global_config_index,
            event_authority_index,
            coin_creator_vault_ata_index,
            coin_creator_vault_authority_index,
            pump_fee_wallet_index,
            pump_fee_wallet_ata_index,
            global_vol_accumulator_index,
            user_vol_accumulator_index,
            system_program_index,
            associated_token_program_index,
            base_vault_index,
            quote_vault_index,
            base_mint: ZERO_KEY,
            quote_mint: ZERO_KEY,
            trade_fee_rate: 0,
            price: 0,
            base_reserve: 0,
            quote_reserve: 0,
            lp_fee_basis_points: 0,
            protocol_fee_basis_points: 0,
            coin_creator_fee_basis_points: 0,
            fee_config_index,
            fee_program_index,
            coin_creator: accounts[global_config_index as int].key,
            creator: accounts[global_config_index as int].key,
            has_wsol_pool: false,
        },
        _ => arbitrary(),
    }
}

/// The total fee of a pump pool in basis points.
pub open spec fn pump_total_bps(f: PumpPoolState) -> int {
    f.lp_fee_basis_points + f.protocol_fee_basis_points + creator_fee_bps(f)
}

/// Reading a pump pool and (but for a direct swap) pricing it go through:
/// see `pump_parse_readable`, and, to price it, the read pool's three fees
/// add up within 64 bits.
pub open spec fn pump_pool_ok(init: PumpPoolState, accounts: Seq<AccountView>, is_dir_swap: bool) -> bool {
    &&& pump_parse_readable(init.pool_index, accounts, init)
    &&& !is_dir_swap ==> (pump_outcome(init, accounts, true) matches Ok(f) ==> pump_total_bps(f) <= u64::MAX)
}

/// A pump state priced: wrapped SOL per token in Q64.64 over its reserves
/// (zero with an empty reserve) and its total fee in basis points.
pub open spec fn pump_priced(s: PumpPoolState) -> PumpPoolState {
    let (num, den) = pump_price_sides(s);
    if s.base_reserve == 0 || s.quote_reserve == 0 {
        PumpPoolState { price: 0, ..s }
    } else {
        PumpPoolState {
            price: (num * 0x1_0000_0000_0000_0000int / (den as int)) as u128,
            trade_fee_rate: (s.lp_fee_basis_points + s.protocol_fee_basis_points + creator_fee_bps(s)) as u64,
            ..s
        }
    }
}

/// What reading (and, but for a direct swap, pricing) a pump pool gives:
/// `InvalidAccount` for a pool account under 256 bytes; else the pool's
/// mints, creators and vault reserves read (`ZeroLiquidity` for an empty
/// reserve), `InvalidAccount` when no account is the token's mint, then
/// the fees the first such mint account and the fee config set (see
/// `dynamic_fees`, with its error), then the price (see `pump_priced`).
pub open spec fn pump_outcome(init: PumpPoolState, accounts: Seq<AccountView>, is_dir_swap: bool) -> Result<PumpPoolState, ErrorCode> {
    let data = accounts[init.pool_index as int].data@;
    if data.len() < 256 {
        Err(ErrorCode::InvalidAccount)
    } else {
        let got = PumpPoolState {
            base_mint: key_of(data.subrange(43, 75)),
            quote_mint: key_of(data.subrange(75, 107)),
            creator: key_of(data.subrange(11, 43)),
            coin_creator: key_of(data.subrange(211, 243)),
            ..init
        };
        let read = pump_with_pool_fields(init, accounts, data, got);
        let mint = pump_token_mint(data);
        if read.base_reserve == 0 || read.quote_reserve == 0 {
            Err(ErrorCode::ZeroLiquidity)
        } else if forall|j: int| 0 <= j < accounts.len() ==> accounts[j].key@ != mint {
            Err(ErrorCode::InvalidAccount)
        } else {
            let j = mint_index(accounts, mint);
            match dynamic_fees(read, u64_at(accounts[j].data@, 36), mint, accounts[init.fee_config_index as int].data@) {
                Err(e) => Err(e),
                Ok(fees) => {
                    let f = PumpPoolState {
                        lp_fee_basis_points: fees.0,
                        protocol_fee_basis_points: fees.1,
                        coin_creator_fee_basis_points: fees.2,
                        ..read
                    };
                    if is_dir_swap {
                        Ok(f)
                    } else {
                        Ok(pump_priced(f))
                    }
                },
            }
        }
    }
}

/// A pump pool read and priced, or only read for a direct swap; see
/// `pump_outcome`.
fn parse_pump_with_state(init: PumpPoolState, accounts: &Vec<AccountView>, is_dir_swap: bool) -> (r: Result<ParsedPoolState, ErrorCode>)
    requires
        pump_pool_ok(init, accounts@, is_dir_swap),
        init.trade_fee_rate == 0,
    ensures
        r matches Ok(p) ==> p matches ParsedPoolState::PUMP { state } && state.pool_index == init.pool_index,
        r == match pump_outcome(init, accounts@, is_dir_swap) {
            Ok(s) => Ok::<ParsedPoolState, ErrorCode>(ParsedPoolState::PUMP { state: s }),
            Err(e) => Err(e),
        },
{
    let mut pool_state = init;
    let pool_index = init.pool_index;
    let ghost data = accounts@[pool_index as int].data@;
    let r0 = parse_pump_pool_data(&pool_index, accounts, &mut pool_state);
    proof {
        if data.len() >= 256 {
            lemma_key_of(pool_state.base_mint);
            lemma_key_of(pool_state.quote_mint);
            lemma_key_of(pool_state.creator);
            lemma_key_of(pool_state.coin_creator);
            let got = PumpPoolState {
                base_mint: key_of(data.subrange(43, 75)),
                quote_mint: key_of(data.subrange(75, 107)),
                creator: key_of(data.subrange(11, 43)),
                coin_creator: key_of(data.subrange(211, 243)),
                ..init
            };
            assert(pump_with_pool_fields(init, accounts@, data, got) == pump_with_pool_fields(init, accounts@, data, pool_state));
            let mint = pump_token_mint(data);
            if exists|j: int| 0 <= j < accounts@.len() && accounts@[j].key@ == mint {
                let read = pump_with_pool_fields(init, accounts@, data, pool_state);
                if read.base_reserve != 0 && read.quote_reserve != 0 {
                    let j = choose|j: int|
                        {
                            &&& 0 <= j < accounts@.len()
                            &&& accounts@[j].key@ == mint
                            &&& forall|i: int| 0 <= i < j ==> accounts@[i].key@ != mint
                            &&& match dynamic_fees(
                                read,
                                u64_at(accounts@[j].data@, 36),
                                mint,
                                accounts@[init.fee_config_index as int].data@,
                            ) {
                                Ok(fees) => r0 == Ok::<(), ErrorCode>(()) && pool_state == (PumpPoolState {
                                    lp_fee_basis_points: fees.0,
                                    protocol_fee_basis_points: fees.1,
                                    coin_creator_fee_basis_points: fees.2,
                                    ..read
                                }),
                                Err(e) => r0 == Err::<(), ErrorCode>(e) && pool_state == read,
                            }
                        };
                    assert(first_key_at(accounts@, mint, j));
                    lemma_mint_index(accounts@, mint, j);
                }
            }
        }
    }
    r0?;
    assert(pump_outcome(init, accounts@, true) == Ok::<PumpPoolState, ErrorCode>(pool_state));
    assert(pool_state.trade_fee_rate == init.trade_fee_rate);
    if is_dir_swap {
        return Ok(ParsedPoolState::PUMP { state: pool_state });
    }
    calculate_pump_price(&mut pool_state)?;
    Ok(ParsedPoolState::PUMP { state: pool_state })
}

/// Whether a pump pool can be read (and, but for a direct swap, priced);
/// see `pump_pool_ok`. The pool is read (see `pump_outcome`) and its fees
/// added up.
pub fn pump_pool_ready(init: &PumpPoolState, accounts: &Vec<AccountView>, is_dir_swap: bool) -> (r: bool)
    requires
        pump_parse_readable(init.pool_index, accounts@, *init),
        init.trade_fee_rate == 0,
    ensures
        r == pump_pool_ok(*init, accounts@, is_dir_swap),
{
    if is_dir_swap {
        return true;
    }
    match parse_pump_with_state(*init, accounts, true) {
        Ok(ParsedPoolState::PUMP { state }) => {
            let creator = get_coin_creator_fee_basis_points(&state);
            (state.lp_fee_basis_points as u128) + (state.protocol_fee_basis_points as u128) + (creator as u128) <= u64::MAX as u128
        },
        Ok(_) => false,
        Err(_) => true,
    }
}

/// A Raydium pool's state holding its accounts' positions.
pub open spec fn raydium_init(
    program_id_index: usize,
    event_authority_index: usize,
    pool_index: usize,
    base_vault_index: usize,
    quote_vault_index: usize,
) -> RaydiumPoolState {
    RaydiumPoolState {
        program_id_index,
        event_authority_index,
        pool_index,
        base_vault_index,
        quote_vault_index,
        base_mint: ZERO_KEY,
        quote_mint: ZERO_KEY,
        base_reserve: 0,
        quote_reserve: 0,
        trade_fee_rate: 0,
        price: 0,
        swap_fee_numerator: 0,
        swap_fee_denominator: 0,
        base_need_take_pnl: 0,
        quote_need_take_pnl: 0,
        has_wsol_pool: false,
    }
}

/// Reading a Raydium pool and (but for a direct swap) pricing it go
/// through: see `raydium_parse_readable`, and, to price it, the swap fee's
/// denominator is not zero and its numerator times a million fits 64 bits.
pub open spec fn raydium_pool_ok(init: RaydiumPoolState, accounts: Seq<AccountView>, is_dir_swap: bool) -> bool {
    let d = accounts[init.pool_index as int].data@;
    &&& raydium_parse_readable(init.pool_index, accounts, init)
    &&& !is_dir_swap && accounts[init.pool_index as int].owner@ == RAYDIUM_PROGRAM_ID@ ==> u64_at(d, 184) > 0 && u64_at(d, 176) * 1_000_000 <= u64::MAX
}

/// What reading (and, but for a direct swap, pricing) a Raydium pool
/// gives: `InvalidPoolOwner` unless the program owns it; else its mints and
/// vault reserves read (`ZeroLiquidity` for an empty reserve) with its swap
/// fee and pending amounts, then priced: wrapped SOL per token in Q64.64
/// over the reserves and the swap fee in millionths.
pub open spec fn raydium_outcome(init: RaydiumPoolState, accounts: Seq<AccountView>, is_dir_swap: bool) -> Result<RaydiumPoolState, ErrorCode> {
    let data = accounts[init.pool_index as int].data@;
    let base = u64_at(accounts[init.base_vault_index as int].data@, 64);
    let quote = u64_at(accounts[init.quote_vault_index as int].data@, 64);
    if accounts[init.pool_index as int].owner@ != RAYDIUM_PROGRAM_ID@ {
        Err(ErrorCode::InvalidPoolOwner)
    } else if base == 0 || quote == 0 {
        Err(ErrorCode::ZeroLiquidity)
    } else {
        let m = raydium_with_mints(init, data, key_of(data.subrange(400, 432)), key_of(data.subrange(432, 464)));
        let s = RaydiumPoolState {
            base_reserve: base,
            quote_reserve: quote,
            swap_fee_numerator: u64_at(data, 176),
            swap_fee_denominator: u64_at(data, 184),
            base_need_take_pnl: u64_at(data, 192),
            quote_need_take_pnl: u64_at(data, 200),
            ..m
        };
        if is_dir_swap {
            Ok(s)
        } else {
            Ok(
                RaydiumPoolState {
                    price: (raydium_price_sides(s).0 * 0x1_0000_0000_0000_0000int / (raydium_price_sides(s).1 as int)) as u128,
                    trade_fee_rate: (s.swap_fee_numerator * 1_000_000 / (s.swap_fee_denominator as int)) as u64,
                    ..s
                },
            )
        }
    }
}

/// A Raydium pool read and priced, or only read for a direct swap; see
/// `raydium_outcome`.
fn parse_raydium_with_state(init: RaydiumPoolState, accounts: &Vec<AccountView>, is_dir_swap: bool) -> (r: Result<ParsedPoolState, ErrorCode>)
    requires
        raydium_pool_ok(init, accounts@, is_dir_swap),
    ensures
        r matches Ok(p) ==> p matches ParsedPoolState::RAYDIUM { state } && state.pool_index == init.pool_index,
        r == match raydium_outcome(init, accounts@, is_dir_swap) {
            Ok(s) => Ok::<ParsedPoolState, ErrorCode>(ParsedPoolState::RAYDIUM { state: s }),
            Err(e) => Err(e),
        },
{
    let mut pool_state = init;
    let pool_index = init.pool_index;
    let r0 = parse_raydium_pool_data(&pool_index, accounts, &mut pool_state);
    proof {
        if accounts@[pool_index as int].owner@ == RAYDIUM_PROGRAM_ID@ {
            lemma_key_of(pool_state.base_mint);
            lemma_key_of(pool_state.quote_mint);
        }
    }
    r0?;
    if is_dir_swap {
        return Ok(ParsedPoolState::RAYDIUM { state: pool_state });
    }
    calculate_raydium_price(&mut pool_state)?;
    Ok(ParsedPoolState::RAYDIUM { state: pool_state })
}

/// What reading (and, but for a direct swap, pricing) a CLMM pool gives:
/// `InvalidPoolOwner`, `InvalidTokenPair`, `TokenMismatch` as for the other
/// pools; else the pool and its config read (see `clmm_read`), then priced
/// from its square-root price (see `clmm_price`).
pub open spec fn clmm_outcome(init: ClmmPoolState, accounts: Seq<AccountView>, wsol: Seq<u8>, token: Seq<u8>, is_dir_swap: bool) -> Result<
    ClmmPoolState,
    ErrorCode,
> {
    let d = accounts[init.pool_index as int].data@;
    let c = accounts[init.amm_config_index as int].data@;
    let m0 = d.subrange(73, 105);
    let m1 = d.subrange(105, 137);
    if accounts[init.pool_index as int].owner@ != CLMM_PROGRAM_ID@ {
        Err(ErrorCode::InvalidPoolOwner)
    } else if m0 != wsol && m1 != wsol {
        Err(ErrorCode::InvalidTokenPair)
    } else if (if m0 == wsol {
        m1
    } else {
        m0
    }) != token {
        Err(ErrorCode::TokenMismatch)
    } else {
        let s = clmm_read(init, d, c, key_of(m0), key_of(m1));
        if is_dir_swap {
            Ok(s)
        } else {
            Ok(ClmmPoolState { price: clmm_price(s.sqrt_price_x64, s.token_mint_1@ == wsol), ..s })
        }
    }
}

/// A CLMM pool read and priced, or only read for a direct swap; see
/// `clmm_outcome`.
fn parse_clmm_with_state(
    init: ClmmPoolState,
    wsol_mint: [u8; 32],
    token_mint: [u8; 32],
    accounts: &Vec<AccountView>,
    is_dir_swap: bool,
) -> (r: Result<ParsedPoolState, ErrorCode>)
    requires
        clmm_pool_ok(init, accounts@),
    ensures
        r matches Ok(p) ==> p matches ParsedPoolState::CLMM { state } && state.pool_index == init.pool_index,
        r == match clmm_outcome(init, accounts@, wsol_mint@, token_mint@, is_dir_swap) {
            Ok(s) => Ok::<ParsedPoolState, ErrorCode>(ParsedPoolState::CLMM { state: s }),
            Err(e) => Err(e),
        },
{
    let mut pool_state = init;
    let pool_index = init.pool_index;
    let amm_config_index = init.amm_config_index;
    parse_clmm_pool_data(&pool_index, &amm_config_index, wsol_mint, token_mint, accounts, &mut pool_state)?;
    proof {
        lemma_key_of(pool_state.token_mint_0);
        lemma_key_of(pool_state.token_mint_1);
    }
    if is_dir_swap {
        return Ok(ParsedPoolState::CLMM { state: pool_state });
    }
    calculate_clmm_price(&mut pool_state, wsol_mint)?;
    Ok(ParsedPoolState::CLMM { state: pool_state })
}

/// Reading a CLMM pool goes through: the pool and its config hold their
/// fields.
pub open spec fn clmm_pool_ok(init: ClmmPoolState, accounts: Seq<AccountView>) -> bool {
    &&& init.pool_index < accounts.len()
    &&& init.amm_config_index < accounts.len()
    &&& accounts[init.pool_index as int].owner@ == CLMM_PROGRAM_ID@ ==> accounts[init.pool_index as int].data@.len() >= 273
    &&& accounts[init.amm_config_index as int].data@.len() >= 51
}

/// Reading a Whirlpool pool goes through: the pool holds its fields.
pub open spec fn whirlpool_pool_ok(init: WhirlpoolPoolState, accounts: Seq<AccountView>) -> bool {
    &&& init.pool_index < accounts.len()
    &&& accounts[init.pool_index as int].owner@ == WHIRLPOOL_PROGRAM_ID@ ==> accounts[init.pool_index as int].data@.len() >= 213
}

/// What reading and pricing a Whirlpool pool gives (for a direct swap
/// too): `InvalidPoolOwner`, `InvalidTokenPair`, `TokenMismatch` as for the
/// other pools; else the pool read (see `whirlpool_read`), priced from its
/// square-root price (see `clmm_price`), zero without liquidity.
pub open spec fn whirlpool_outcome(init: WhirlpoolPoolState, accounts: Seq<AccountView>, wsol: Seq<u8>, token: Seq<u8>) -> Result<
    WhirlpoolPoolState,
    ErrorCode,
> {
    let d = accounts[init.pool_index as int].data@;
    let ma = d.subrange(101, 133);
    let mb = d.subrange(181, 213);
    if accounts[init.pool_index as int].owner@ != WHIRLPOOL_PROGRAM_ID@ {
        Err(ErrorCode::InvalidPoolOwner)
    } else if ma != wsol && mb != wsol {
        Err(ErrorCode::InvalidTokenPair)
    } else if (if ma == wsol {
        mb
    } else {
        ma
    }) != token {
        Err(ErrorCode::TokenMismatch)
    } else {
        let s = whirlpool_read(init, d, key_of(ma), key_of(mb));
        Ok(
            WhirlpoolPoolState {
                price: if s.liquidity == 0 {
                    0
                } else {
                    clmm_price(s.sqrt_price, s.token_mint_b@ == wsol)
                },
                ..s
            },
        )
    }
}

/// A Whirlpool pool read and priced (also for a direct swap); see
/// `whirlpool_outcome`.
fn parse_whirlpool_with_state(
    init: WhirlpoolPoolState,
    wsol_mint: [u8; 32],
    token_mint: [u8; 32],
    accounts: &Vec<AccountView>,
) -> (r: Result<ParsedPoolState, ErrorCode>)
    requires
        whirlpool_pool_ok(init, accounts@),
    ensures
        r matches Ok(p) ==> p matches ParsedPoolState::WHIRLPOOL { state } && state.pool_index == init.pool_index,
        r == match whirlpool_outcome(init, accounts@, wsol_mint@, token_mint@) {
            Ok(s) => Ok::<ParsedPoolState, ErrorCode>(ParsedPoolState::WHIRLPOOL { state: s }),
            Err(e) => Err(e),
        },
{
    let mut pool_state = init;
    let pool_index = init.pool_index;
    parse_whirlpool_pool_data(&pool_index, wsol_mint, token_mint, accounts, &mut pool_state)?;
    proof {
        lemma_key_of(pool_state.token_mint_a);
        lemma_key_of(pool_state.token_mint_b);
    }
    calculate_whirlpool_price(&mut pool_state, wsol_mint)?;
    Ok(ParsedPoolState::WHIRLPOOL { state: pool_state })
}

/// A CLMM pool's state holding its accounts' positions.
pub open spec fn clmm_init(p: PoolData) -> ClmmPoolState {
    match p {
        PoolData::CLMM {
            program_id_index,
            pool_index,
            amm_config_index,
            observation_key_index,
            bitmap_extension_index,
            token_vault_0_index,
            token_vault_1_index,
            tick_array_minus_1_index,
            tick_array_0_index,
            tick_array_1_index,
        } => ClmmPoolState {
            program_id_index,
            pool_index,
            amm_config_index,
            observation_key_index,
            token_vault_0_index,
            token_vault_1_index,
            tick_array_minus_1_index,
            tick_array_0_index,
            tick_array_1_index,
            bitmap_extension_index,
            token_mint_0: ZERO_KEY,
            token_mint_1: ZERO_KEY,
            sqrt_price_x64: 0,
            tick_current: 0,
            tick_spacing: 0,
            liquidity: 0,
            trade_fee_rate: 0,
            price: 0,
        },
        _ => arbitrary(),
    }
}

/// A Whirlpool pool's state holding its accounts' positions.
pub open spec fn whirlpool_init(p: PoolData) -> WhirlpoolPoolState {
    match p {
        PoolData::WHIRLPOOL {
            program_id_index,
            pool_index,
            oracle_index,
            vault_a_index,
            vault_b_index,
            tick_array_0_index,
            tick_array_1_index,
            tick_array_2_index,
        } => WhirlpoolPoolState {
            program_id_index,
            pool_index,
            oracle_index,
            vault_a_index,
            vault_b_index,
            tick_array_0_index,
            tick_array_1_index,
            tick_array_2_index,
            token_mint_a: ZERO_KEY,
            token_mint_b: ZERO_KEY,
            sqrt_price: 0,
            tick_spacing: 0,
            tick_current_index: 0,
            liquidity: 0,
            trade_fee_rate: 0,
            price: 0,
        },
        _ => arbitrary(),
    }
}

/// The kind of pool an entry of the account list describes.
pub open spec fn pool_data_type(p: PoolData) -> PoolType {
    match p {
        PoolData::CPMM { .. } => PoolType::CPMM,
        PoolData::DLMM { .. } => PoolType::DLMM,
        PoolData::DAMMV2 { .. } => PoolType::DAMMV2,
        PoolData::PUMP { .. } => PoolType::PUMP,
        PoolData::RAYDIUM { .. } => PoolType::RAYDIUM,
        PoolData::CLMM { .. } => PoolType::CLMM,
        PoolData::WHIRLPOOL { .. } => PoolType::WHIRLPOOL,
    }
}

/// Where the pool's own account sits for an entry of the account list.
pub open spec fn pool_data_index(p: PoolData) -> usize {
    match p {
        PoolData::CPMM { pool_index, .. } => pool_index,
        PoolData::DLMM { pool_index, .. } => pool_index,
        PoolData::DAMMV2 { pool_index, .. } => pool_index,
        PoolData::PUMP { pool_index, .. } => pool_index,
        PoolData::RAYDIUM { pool_index, .. } => pool_index,
        PoolData::CLMM { pool_index, .. } => pool_index,
        PoolData::WHIRLPOOL { pool_index, .. } => pool_index,
    }
}

/// Whether reading (and, but for a direct swap, pricing) the pool an entry
/// describes goes through; see each kind's condition.
pub open spec fn pool_data_ok(p: PoolData, accounts: Seq<AccountView>, wsol: Seq<u8>, token: Seq<u8>, clock: ClockView, is_dir_swap: bool) -> bool {
    match p {
        PoolData::CPMM {
            program_id_index,
            pool_index,
            authority_index,
            config_index,
            token0_vault_index,
            token1_vault_index,
            observation_state_index,
        } => cpmm_pool_ok(
            cpmm_init(program_id_index, pool_index, authority_index, config_index, token0_vault_index, token1_vault_index, observation_state_index),
            accounts,
            wsol,
            token,
            is_dir_swap,
        ),
        PoolData::DLMM {
            program_id_index,
            event_authority_index,
            oracle_index,
            pool_index,
            reserve_x_index,
            reserve_y_index,
            bin_array_minus_1_index,
            bin_array_0_index,
            bin_array_1_index,
        } => dlmm_pool_ok(
            dlmm_init(
                program_id_index,
                event_authority_index,
                oracle_index,
                pool_index,
                reserve_x_index,
                reserve_y_index,
                bin_array_minus_1_index,
                bin_array_0_index,
                bin_array_1_index,
            ),
            accounts,
            is_dir_swap,
        ),
        PoolData::DAMMV2 {
            program_id_index,
            event_authority_index,
            pool_authority_index,
            pool_index,
            token_a_vault_index,
            token_b_vault_index,
        } => dammv2_pool_ok(
            dammv2_init(program_id_index, event_authority_index, pool_authority_index, pool_index, token_a_vault_index, token_b_vault_index),
            accounts,
            clock,
            is_dir_swap,
        ),
        PoolData::PUMP { global_config_index, .. } => global_config_index < accounts.len() && pump_pool_ok(pump_init(p, accounts), accounts, is_dir_swap),
        PoolData::RAYDIUM { program_id_index, pool_index, event_authority_index, base_vault_index, quote_vault_index } => raydium_pool_ok(
            raydium_init(program_id_index, event_authority_index, pool_index, base_vault_index, quote_vault_index),
            accounts,
            is_dir_swap,
        ),
        PoolData::CLMM { .. } => clmm_pool_ok(clmm_init(p), accounts),
        PoolData::WHIRLPOOL { .. } => whirlpool_pool_ok(whirlpool_init(p), accounts),
    }
}

/// What reading the pool an entry describes gives, by its kind; see each
/// kind's outcome.
pub open spec fn pool_outcome(
    p: PoolData,
    accounts: Seq<AccountView>,
    is_dir_swap: bool,
    wsol: Seq<u8>,
    token: Seq<u8>,
    clock: ClockView,
) -> Result<ParsedPoolState, ErrorCode> {
    match p {
        PoolData::CPMM {
            program_id_index,
            pool_index,
            authority_index,
            config_index,
            token0_vault_index,
            token1_vault_index,
            observation_state_index,
        } => match cpmm_outcome(
            cpmm_init(program_id_index, pool_index, authority_index, config_index, token0_vault_index, token1_vault_index, observation_state_index),
            accounts,
            wsol,
            token,
            is_dir_swap,
        ) {
            Ok(s) => Ok(ParsedPoolState::CPMM { state: s }),
            Err(e) => Err(e),
        },
        PoolData::DLMM {
            program_id_index,
            event_authority_index,
            oracle_index,
            pool_index,
            reserve_x_index,
            reserve_y_index,
            bin_array_minus_1_index,
            bin_array_0_index,
            bin_array_1_index,
        } => match dlmm_outcome(
            dlmm_init(
                program_id_index,
                event_authority_index,
                oracle_index,
                pool_index,
                reserve_x_index,
                reserve_y_index,
                bin_array_minus_1_index,
                bin_array_0_index,
                bin_array_1_index,
            ),
            accounts,
            wsol,
            token,
            is_dir_swap,
        ) {
            Ok(s) => Ok(ParsedPoolState::DLMM { state: s }),
            Err(e) => Err(e),
        },
        PoolData::DAMMV2 {
            program_id_index,
            event_authority_index,
            pool_authority_index,
            pool_index,
            token_a_vault_index,
            token_b_vault_index,
        } => match dammv2_outcome(
            dammv2_init(program_id_index, event_authority_index, pool_authority_index, pool_index, token_a_vault_index, token_b_vault_index),
            accounts,
            wsol,
            token,
            is_dir_swap,
            clock,
        ) {
            Ok(s) => Ok(ParsedPoolState::DAMMV2 { state: s }),
            Err(e) => Err(e),
        },
        PoolData::PUMP { .. } => match pump_outcome(pump_init(p, accounts), accounts, is_dir_swap) {
            Ok(s) => Ok(ParsedPoolState::PUMP { state: s }),
            Err(e) => Err(e),
        },
        PoolData::RAYDIUM { program_id_index, pool_index, event_authority_index, base_vault_index, quote_vault_index } => match raydium_outcome(
            raydium_init(program_id_index, event_authority_index, pool_index, base_vault_index, quote_vault_index),
            accounts,
            is_dir_swap,
        ) {
            Ok(s) => Ok(ParsedPoolState::RAYDIUM { state: s }),
            Err(e) => Err(e),
        },
        PoolData::CLMM { .. } => match clmm_outcome(clmm_init(p), accounts, wsol, token, is_dir_swap) {
            Ok(s) => Ok(ParsedPoolState::CLMM { state: s }),
            Err(e) => Err(e),
        },
        PoolData::WHIRLPOOL { .. } => match whirlpool_outcome(whirlpool_init(p), accounts, wsol, token) {
            Ok(s) => Ok(ParsedPoolState::WHIRLPOOL { state: s }),
            Err(e) => Err(e),
        },
    }
}

/// Whether the accounts the pool of an entry names can be read: for every
/// kind but pump this is `pool_data_ok`; for a pump pool it leaves out the
/// bound on the sum of the fees it reads.
pub open spec fn pool_data_readable(
    p: PoolData,
    accounts: Seq<AccountView>,
    wsol: Seq<u8>,
    token: Seq<u8>,
    clock: ClockView,
    is_dir_swap: bool,
) -> bool {
    match p {
        PoolData::PUMP { global_config_index, .. } => global_config_index < accounts.len() && pump_parse_readable(
            pump_init(p, accounts).pool_index,
            accounts,
            pump_init(p, accounts),
        ),
        _ => pool_data_ok(p, accounts, wsol, token, clock, is_dir_swap),
    }
}

/// The starting state of a pump entry's pool; `None` for another kind.
fn pump_init_state(pool_data: &PoolData, accounts: &Vec<AccountView>) -> (r: Option<PumpPoolState>)
    requires
        pool_data matches PoolData::PUMP { global_config_index, .. } ==> global_config_index < accounts@.len(),
    ensures
        r is Some <==> pool_data is PUMP,
        r matches Some(s) ==> s == pump_init(*pool_data, accounts@),
{
    match pool_data {
        PoolData::PUMP {
            program_id_index,
            pool_index,
            global_config_index,
            event_authority_index,
            coin_creator_vault_ata_index,
            coin_creator_vault_authority_index,
            pump_fee_wallet_index,
            pump_fee_wallet_ata_index,
            global_vol_accumulator_index,
            user_vol_accumulator_index,
            system_program_index,
            associated_token_program_index,
            base_vault_index,
            quote_vault_index,
            fee_config_index,
            fee_program_index,
        } => {
            let config_key = accounts[*global_config_index].key;
            Some(
                PumpPoolState {
                    program_id_index: *program_id_index,
                    pool_index: *pool_index,
                    global_config_index: *global_config_index,
                    event_authority_index: *event_authority_index,
                    coin_creator_vault_ata_index: *coin_creator_vault_ata_index,
                    coin_creator_vault_authority_index: *coin_creator_vault_authority_index,
                    pump_fee_wallet_index: *pump_fee_wallet_index,
                    pump_fee_wallet_ata_index: *pump_fee_wallet_ata_index,
                    global_vol_accumulator_index: *global_vol_accumulator_index,
                    user_vol_accumulator_index: *user_vol_accumulator_index,
                    system_program_index: *system_program_index,
                    associated_token_program_index: *associated_token_program_index,
                    base_vault_index: *base_vault_index,
                    quote_vault_index: *quote_vault_index,
                    base_mint: ZERO_KEY,
                    quote_mint: ZERO_KEY,
                    trade_fee_rate: 0,
                    price: 0,
                    base_reserve: 0,
                    quote_reserve: 0,
                    lp_fee_basis_points: 0,
                    protocol_fee_basis_points: 0,
                    coin_creator_fee_basis_points: 0,
                    fee_config_index: *fee_config_index,
                    fee_program_index: *fee_program_index,
                    coin_creator: config_key,
                    creator: config_key,
                    has_wsol_pool: false,
                },
            )
        },
        _ => None,
    }
}

/// Whether the pool of an entry can be read (and, but for a direct swap,
/// priced); see `pool_data_ok`. A pump pool is read to add up its fees.
pub fn pool_data_ready(
    pool_data: &PoolData,
    accounts: &Vec<AccountView>,
    is_dir_swap: bool,
    wsol_mint: [u8; 32],
    token_mint: [u8; 32],
    clock: &ClockView,
) -> (r: bool)
    requires
        pool_data_readable(*pool_data, accounts@, wsol_mint@, token_mint@, *clock, is_dir_swap),
    ensures
        r == pool_data_ok(*pool_data, accounts@, wsol_mint@, token_mint@, *clock, is_dir_swap),
{
    match pump_init_state(pool_data, accounts) {
        Some(init) => pump_pool_ready(&init, accounts, is_dir_swap),
        None => true,
    }
}

/// The pool an entry describes, read where it can be (see
/// `pool_data_ready`): `None` unless `pool_data_ok` holds, else what
/// `parse_pool_with_state` gives (see `pool_outcome`).
pub fn parse_pool_checked(
    pool_data: &PoolData,
    accounts: &Vec<AccountView>,
    is_dir_swap: bool,
    wsol_mint: [u8; 32],
    token_mint: [u8; 32],
    clock: &ClockView,
) -> (r: Option<Result<ParsedPoolState, ErrorCode>>)
    requires
        pool_data_readable(*pool_data, accounts@, wsol_mint@, token_mint@, *clock, is_dir_swap),
    ensures
        r is Some <==> pool_data_ok(*pool_data, accounts@, wsol_mint@, token_mint@, *clock, is_dir_swap),
        r matches Some(x) ==> x == pool_outcome(*pool_data, accounts@, is_dir_swap, wsol_mint@, token_mint@, *clock),
{
    if !pool_data_ready(pool_data, accounts, is_dir_swap, wsol_mint, token_mint, clock) {
        return None;
    }
    Some(parse_pool_with_state(pool_data, accounts, is_dir_swap, wsol_mint, token_mint, clock))
}

/// Reads the pool an entry of the account list describes, pairing wrapped
/// SOL with `token_mint`, and prices it and forms its fee unless the swap
/// is direct (a Whirlpool pool is priced either way); DAMM v2 fees run on
/// the clock: see `pool_outcome`. The pool comes back of the entry's kind,
/// with the entry's pool position.
pub fn parse_pool_with_state(
    pool_data: &PoolData,
    accounts: &Vec<AccountView>,
    is_dir_swap: bool,
    wsol_mint: [u8; 32],
    token_mint: [u8; 32],
    clock: &ClockView,
) -> (r: Result<ParsedPoolState, ErrorCode>)
    requires
        pool_data_ok(*pool_data, accounts@, wsol_mint@, token_mint@, *clock, is_dir_swap),
    ensures
        r matches Ok(p) ==> pool_type_of(p) == pool_data_type(*pool_data) && pool_index_of(p) == pool_data_index(*pool_data),
        r == pool_outcome(*pool_data, accounts@, is_dir_swap, wsol_mint@, token_mint@, *clock),
{
    match pool_data {
        PoolData::CPMM {
            program_id_index,
            pool_index,
            authority_index,
            config_index,
            token0_vault_index,
            token1_vault_index,
            observation_state_index,
        } => {
            let init = CpmmPoolState {
                program_id_index: *program_id_index,
                pool_index: *pool_index,
                authority_index: *authority_index,
                observation_state_index: *observation_state_index,
                config_index: *config_index,
                token0_vault_index: *token0_vault_index,
                token1_vault_index: *token1_vault_index,
                token0_reserve: 0,
                token1_reserve: 0,
                token0_mint: ZERO_KEY,
                token1_mint: ZERO_KEY,
                trade_fee_rate: 0,
                creator_fee_rate: 0,
                price: 0,
                enable_creator_fee: false,
                creator_fee_on: 0,
                protocol_fees_token_0: 0,
                protocol_fees_token_1: 0,
                fund_fees_token_0: 0,
                fund_fees_token_1: 0,
                creator_fees_token_0: 0,
                creator_fees_token_1: 0,
                total_fee_rate: 0,
            };
            parse_cpmm_with_state(init, wsol_mint, token_mint, accounts, is_dir_swap)
        },
        PoolData::DLMM {
            program_id_index,
            event_authority_index,
            oracle_index,
            pool_index,
            reserve_x_index,
            reserve_y_index,
            bin_array_minus_1_index,
            bin_array_0_index,
            bin_array_1_index,
        } => {
            let init = DlmmPoolState {
                program_id_index: *program_id_index,
                event_authority_index: *event_authority_index,
                oracle_index: *oracle_index,
                pool_index: *pool_index,
                token_x_mint: ZERO_KEY,
                token_y_mint: ZERO_KEY,
                active_id: 0,
                bin_step: 0,
                base_factor: 0,
                variable_fee_control: 0,
                max_volatility_accumulator: 0,
                base_fee_power_factor: 0,
                total_fee_rate: 0,
                base_fee: 0,
                price: 0,
                volatility_accumulator: 0,
                volatility_reference: 0,
                index_reference: 0,
                reserve_x_index: *reserve_x_index,
                reserve_y_index: *reserve_y_index,
                bin_array_minus_1_index: *bin_array_minus_1_index,
                bin_array_0_index: *bin_array_0_index,
                bin_array_1_index: *bin_array_1_index,
            };
            parse_dlmm_with_state(init, wsol_mint, token_mint, accounts, is_dir_swap)
        },
        PoolData::DAMMV2 {
            program_id_index,
            event_authority_index,
            pool_authority_index,
            pool_index,
            token_a_vault_index,
            token_b_vault_index,
        } => {
            let init = Dammv2PoolState {
                program_id_index: *program_id_index,
                event_authority_index: *event_authority_index,
                pool_authority_index: *pool_authority_index,
                pool_index: *pool_index,
                token_a_vault_index: *token_a_vault_index,
                token_b_vault_index: *token_b_vault_index,
                token_a_mint: ZERO_KEY,
                token_b_mint: ZERO_KEY,
                sqrt_price: 0,
                cliff_fee_numerator: 0,
                fee_scheduler_mode: 0,
                number_of_period: 0,
                period_frequency: 0,
                reduction_factor: 0,
                liquidity: 0,
                collect_fee_mode: 0,
                dynamic_fee_initialized: 0,
                variable_fee_control: 0,
                bin_step: 0,
                volatility_accumulator: 0,
                activation_type: 0,
                activation_point: 0,
                total_fee_rate: 0,
                price: 0,
            };
            parse_dammv2_with_state(init, wsol_mint, token_mint, accounts, is_dir_swap, clock)
        },
        PoolData::PUMP { .. } => match pump_init_state(pool_data, accounts) {
            Some(init) => parse_pump_with_state(init, accounts, is_dir_swap),
            // Not reached: a pump entry always has a starting state.
            None => Err(ErrorCode::InvalidAccount),
        },
        PoolData::RAYDIUM { program_id_index, pool_index, event_authority_index, base_vault_index, quote_vault_index } => {
            let init = RaydiumPoolState {
                program_id_index: *program_id_index,
                event_authority_index: *event_authority_index,
                pool_index: *pool_index,
                base_vault_index: *base_vault_index,
                quote_vault_index: *quote_vault_index,
                base_mint: ZERO_KEY,
                quote_mint: ZERO_KEY,
                base_reserve: 0,
                quote_reserve: 0,
                trade_fee_rate: 0,
                price: 0,
                swap_fee_numerator: 0,
                swap_fee_denominator: 0,
                base_need_take_pnl: 0,
                quote_need_take_pnl: 0,
                has_wsol_pool: false,
            };
            parse_raydium_with_state(init, accounts, is_dir_swap)
        },
        PoolData::CLMM {
            program_id_index,
            pool_index,
            amm_config_index,
            observation_key_index,
            bitmap_extension_index,
            token_vault_0_index,
            token_vault_1_index,
            tick_array_minus_1_index,
            tick_array_0_index,
            tick_array_1_index,
        } => {
            let init = ClmmPoolState {
                program_id_index: *program_id_index,
                pool_index: *pool_index,
                amm_config_index: *amm_config_index,
                observation_key_index: *observation_key_index,
                token_vault_0_index: *token_vault_0_index,
                token_vault_1_index: *token_vault_1_index,
                tick_array_minus_1_index: *tick_array_minus_1_index,
                tick_array_0_index: *tick_array_0_index,
                tick_array_1_index: *tick_array_1_index,
                bitmap_extension_index: *bitmap_extension_index,
                token_mint_0: ZERO_KEY,
                token_mint_1: ZERO_KEY,
                sqrt_price_x64: 0,
                tick_current: 0,
                tick_spacing: 0,
                liquidity: 0,
                trade_fee_rate: 0,
                price: 0,
            };
            parse_clmm_with_state(init, wsol_mint, token_mint, accounts, is_dir_swap)
        },
        PoolData::WHIRLPOOL {
            program_id_index,
            pool_index,
            oracle_index,
            vault_a_index,
            vault_b_index,
            tick_array_0_index,
            tick_array_1_index,
            tick_array_2_index,
        } => {
            let init = WhirlpoolPoolState {
                program_id_index: *program_id_index,
                pool_index: *pool_index,
                oracle_index: *oracle_index,
                vault_a_index: *vault_a_index,
                vault_b_index: *vault_b_index,
                tick_array_0_index: *tick_array_0_index,
                tick_array_1_index: *tick_array_1_index,
                tick_array_2_index: *tick_array_2_index,
                token_mint_a: ZERO_KEY,
                token_mint_b: ZERO_KEY,
                sqrt_price: 0,
                tick_spacing: 0,
                tick_current_index: 0,
                liquidity: 0,
                trade_fee_rate: 0,
                price: 0,
            };
            parse_whirlpool_with_state(init, wsol_mint, token_mint, accounts)
        },
    }
}


/// The outcome of the search over all token groups: the best profit ratio
/// and the pools and token positions of the best trade.
pub struct GlobalArbitrageAnalysis {
    pub max_profit_ratio: u128,
    pub buy_pool_state: Option<Box<ParsedPoolState>>,
    pub mid_pool_state: Option<Box<MidPoolInfo>>,
    pub sell_pool_state: Option<Box<ParsedPoolState>>,
    pub two_hop_token_info: Option<TwoHopTokenInfo>,
}

/// The best trade found so far while going over the token groups.
pub struct AnalysisState {
    pub global_max_profit: u128,
    pub best_buy_pool_state: Option<Box<ParsedPoolState>>,
    pub best_sell_pool_state: Option<Box<ParsedPoolState>>,
    pub best_mid_pool_state: Option<Box<MidPoolInfo>>,
    pub best_two_hop_token_info: Option<TwoHopTokenInfo>,
}

/// The profit ratio of buying on `buy` and selling on `sell`: the two-hop
/// factor of their prices and fees (see `profit_factor_2hop`) less one,
/// when the sell price is above the buy price and the factor above one.
pub open spec fn two_hop_ratio(buy: ParsedPoolState, sell: ParsedPoolState) -> Option<u128> {
    let (pb, fb) = price_and_fee(buy);
    let (ps, fs) = price_and_fee(sell);
    if pb == 0 || ps <= pb {
        None
    } else {
        match profit_factor_2hop(pb, ps, fb, fs) {
            Some(f) => if f > ONE {
                Some((f - ONE) as u128)
            } else {
                None
            },
            None => None,
        }
    }
}

/// What the recorded best trade says of itself: a trade with a ratio above
/// zero has its buy and sell pools, a two-hop trade (no middle pool) has
/// the ratio of those two pools (see `two_hop_ratio`), and a three-hop
/// trade has its middle pool.
pub open spec fn trade_consistent(ratio: u128, buy: Option<Box<ParsedPoolState>>, mid: Option<Box<MidPoolInfo>>, sell: Option<Box<ParsedPoolState>>, three_hop: bool) -> bool {
    ratio > 0 ==> {
        &&& buy is Some
        &&& sell is Some
        &&& !three_hop ==> mid is None && two_hop_ratio(*buy->0, *sell->0) == Some(ratio)
        &&& three_hop ==> mid is Some
    }
}

/// The recorded best trade of a search state is consistent; see
/// `trade_consistent`.
pub open spec fn state_consistent(s: AnalysisState, three_hop: bool) -> bool {
    &&& trade_consistent(s.global_max_profit, s.best_buy_pool_state, s.best_mid_pool_state, s.best_sell_pool_state, three_hop)
    &&& !three_hop ==> s.best_mid_pool_state is None
}

/// The best pair found among the first `k` pairs is a pair of pools whose
/// factor it is.
proof fn lemma_best_2hop_found(d: Seq<(u128, u128)>, k: nat)
    requires
        d.len() > 0,
        k <= d.len() * d.len(),
    ensures
        best_2hop(d, k).0 > 0 ==> {
            let b = best_2hop(d, k);
            &&& 0 <= b.1 < d.len()
            &&& 0 <= b.2 < d.len()
            &&& pair_profit(d, b.1, b.2) == Some(b.0)
        },
    decreases k,
{
    if k > 0 {
        lemma_best_2hop_found(d, (k - 1) as nat);
        let n = d.len() as int;
        let p = k - 1;
        assert(0 <= p / n < n && 0 <= p % n < n) by (nonlinear_arith)
            requires 0 <= p < n * n, n > 0;
    }
}

/// A two-hop analysis that finds a trade reports the ratio of its two pools.
proof fn lemma_two_hop_analysis_ratio(pools: Seq<ParsedPoolState>)
    ensures
        ({
            let a = two_hop_analysis(pools_price_and_fee(pools), pools);
            a.max_profit_ratio > 0 ==> a.buy_pool_state is Some && a.sell_pool_state is Some && a.mid_pool_state is None
                && two_hop_ratio(a.buy_pool_state->0, a.sell_pool_state->0) == Some(a.max_profit_ratio)
        }),
{
    let d = pools_price_and_fee(pools);
    let a = two_hop_analysis(d, pools);
    if a.max_profit_ratio > 0 {
        let n = d.len();
        assert(n > 0) by {
            if n == 0 {
                assert(best_2hop(d, 0) == (0u128, 0int, 0int));
            }
        }
        lemma_best_2hop_found(d, n * n);
        let b = best_2hop(d, n * n);
        assert(d[b.1] == price_and_fee(pools[b.1]));
        assert(d[b.2] == price_and_fee(pools[b.2]));
    }
}

/// The two-hop token positions of a group.
pub open spec fn group_two_hop(g: TokenPoolGroup) -> TwoHopTokenInfo {
    TwoHopTokenInfo {
        token_mint_index: g.token_mint_index,
        token_program_index: g.token_program_index,
        mint_token_account_index: g.mint_token_account_index,
    }
}

/// The middle pool of a three-hop trade with the group's token positions:
/// token 1 is the group's first token when the first token account's key
/// is the buy pool's token (its mint other than wrapped SOL), else the
/// group's second token.
pub open spec fn mid_info_of(a: TokenArbitrageAnalysis, g: TokenPoolGroup, accounts: Seq<AccountView>) -> MidPoolInfo {
    let buy = a.buy_pool_state->0;
    let token1_mint = if pool_mints(buy).0@ == WSOL_MINT@ {
        pool_mints(buy).1
    } else {
        pool_mints(buy).0
    };
    let first = accounts[g.token_mint_index as int].key@ == token1_mint@;
    let t1 = (g.token_mint_index, g.token_program_index, g.mint_token_account_index);
    let t2 = (g.token2_mint_index->0, g.token2_program_index->0, g.token2_mint_token_account_index->0);
    let (x, y) = if first {
        (t1, t2)
    } else {
        (t2, t1)
    };
    MidPoolInfo {
        is_mid_a2b: a.is_mid_a2b,
        pool_state: Box::new(a.mid_pool_state->0),
        token1_mint_index: x.0,
        token2_mint_index: y.0,
        token1_program_index: x.1,
        token2_program_index: y.1,
        token1_mint_token_account_index: x.2,
        token2_mint_token_account_index: y.2,
    }
}

/// Whether a better trade can be recorded from an analysis and its group:
/// a three-hop analysis has its buy pool and the group its second token's
/// positions, and the group's first token account is there.
pub open spec fn update_ok(a: TokenArbitrageAnalysis, g: TokenPoolGroup, accounts: Seq<AccountView>) -> bool {
    a.mid_pool_state is Some ==> {
        &&& a.buy_pool_state is Some
        &&& g.token_mint_index < accounts.len()
        &&& g.token2_mint_index is Some
        &&& g.token2_program_index is Some
        &&& g.token2_mint_token_account_index is Some
    }
}

/// An optional boxed pool by value.
pub open spec fn unbox_pool(p: Option<Box<ParsedPoolState>>) -> Option<ParsedPoolState> {
    match p {
        Some(b) => Some(*b),
        None => None,
    }
}

/// An optional pool, boxed.
pub open spec fn box_pool(p: Option<ParsedPoolState>) -> Option<Box<ParsedPoolState>> {
    match p {
        Some(x) => Some(Box::new(x)),
        None => None,
    }
}

/// The search state once a better trade is recorded; see
/// `update_best_analysis`.
pub open spec fn recorded(st: AnalysisState, a: TokenArbitrageAnalysis, g: TokenPoolGroup, accounts: Seq<AccountView>) -> AnalysisState {
    AnalysisState {
        global_max_profit: a.max_profit_ratio,
        best_buy_pool_state: box_pool(a.buy_pool_state),
        best_sell_pool_state: box_pool(a.sell_pool_state),
        best_mid_pool_state: if a.mid_pool_state is Some {
            Some(Box::new(mid_info_of(a, g, accounts)))
        } else {
            None
        },
        best_two_hop_token_info: if a.mid_pool_state is Some {
            st.best_two_hop_token_info
        } else {
            Some(group_two_hop(g))
        },
    }
}

/// Records a better trade: its profit ratio, its buy and sell pools, and
/// the middle pool with both tokens' positions (see `mid_info_of`) for
/// three hops, the group's token positions for two.
pub fn update_best_analysis(
    analysis: TokenArbitrageAnalysis,
    token_group: &TokenPoolGroup,
    accounts: &Vec<AccountView>,
    analysis_state: &mut AnalysisState,
) -> (r: Result<(), ErrorCode>)
    requires
        update_ok(analysis, *token_group, accounts@),
    ensures
        r is Ok,
        final(analysis_state).global_max_profit == analysis.max_profit_ratio,
        unbox_pool(final(analysis_state).best_buy_pool_state) == analysis.buy_pool_state,
        unbox_pool(final(analysis_state).best_sell_pool_state) == analysis.sell_pool_state,
        analysis.mid_pool_state is Some ==> final(analysis_state).best_mid_pool_state == Some(
            Box::new(mid_info_of(analysis, *token_group, accounts@)),
        ) && final(analysis_state).best_two_hop_token_info == old(analysis_state).best_two_hop_token_info,
        analysis.mid_pool_state is None ==> final(analysis_state).best_mid_pool_state is None
            && final(analysis_state).best_two_hop_token_info == Some(group_two_hop(*token_group)),
        *final(analysis_state) == recorded(*old(analysis_state), analysis, *token_group, accounts@),
{
    analysis_state.global_max_profit = analysis.max_profit_ratio;
    if let Some(mid_state) = analysis.mid_pool_state {
        let buy_state = match analysis.buy_pool_state {
            Some(b) => b,
            None => {
                proof {
                    assert(false);
                }
                return Ok(());
            },
        };
        let buy_pool_tokens = buy_state.get_pool_tokens();
        let token1_mint = if key_eq(&buy_pool_tokens.0, &WSOL_MINT) {
            buy_pool_tokens.1
        } else {
            buy_pool_tokens.0
        };
        let token1_account_key = accounts[token_group.token_mint_index].key;
        let (t2_mint, t2_program, t2_account) = match (
            token_group.token2_mint_index,
            token_group.token2_program_index,
            token_group.token2_mint_token_account_index,
        ) {
            (Some(a), Some(b), Some(c)) => (a, b, c),
            _ => {
                proof {
                    assert(false);
                }
                return Ok(());
            },
        };
        let t1 = (token_group.token_mint_index, token_group.token_program_index, token_group.mint_token_account_index);
        let t2 = (t2_mint, t2_program, t2_account);
        let (token1_indices, token2_indices) = if key_eq(&token1_account_key, &token1_mint) {
            (t1, t2)
        } else {
            (t2, t1)
        };
        analysis_state.best_mid_pool_state = Some(
            Box::new(
                MidPoolInfo {
                    is_mid_a2b: analysis.is_mid_a2b,
                    pool_state: Box::new(mid_state),
                    token1_mint_index: token1_indices.0,
                    token2_mint_index: token2_indices.0,
                    token1_program_index: token1_indices.1,
                    token2_program_index: token2_indices.1,
                    token1_mint_token_account_index: token1_indices.2,
                    token2_mint_token_account_index: token2_indices.2,
                },
            ),
        );
    } else {
        analysis_state.best_two_hop_token_info = Some(
            TwoHopTokenInfo {
                token_mint_index: token_group.token_mint_index,
                token_program_index: token_group.token_program_index,
                mint_token_account_index: token_group.mint_token_account_index,
            },
        );
        analysis_state.best_mid_pool_state = None;
    }
    analysis_state.best_buy_pool_state = match analysis.buy_pool_state {
        Some(b) => Some(Box::new(b)),
        None => None,
    };
    analysis_state.best_sell_pool_state = match analysis.sell_pool_state {
        Some(s) => Some(Box::new(s)),
        None => None,
    };
    Ok(())
}


/// The key of a group's token mint account.
pub open spec fn group_key(g: TokenPoolGroup, accounts: Seq<AccountView>) -> Seq<u8> {
    accounts[g.token_mint_index as int].key@
}

/// Whether a group's pools can all be read against its token; see
/// `pool_data_ok`.
pub open spec fn group_ok(g: TokenPoolGroup, accounts: Seq<AccountView>, clock: ClockView, is_dir_swap: bool) -> bool {
    &&& g.token_mint_index < accounts.len()
    &&& forall|i: int| 0 <= i < g.pools@.len() ==> pool_data_ok(#[trigger] g.pools@[i], accounts, WSOL_MINT@, group_key(g, accounts), clock, is_dir_swap)
}

/// Whether every group's pools can be read; see `group_ok`.
pub open spec fn groups_ok(gs: Seq<TokenPoolGroup>, accounts: Seq<AccountView>, clock: ClockView, is_dir_swap: bool) -> bool {
    forall|k: int| 0 <= k < gs.len() ==> group_ok(#[trigger] gs[k], accounts, clock, is_dir_swap)
}

/// The pools among `pools` that read without error against `token`, in
/// order; see `pool_outcome`.
pub open spec fn parsed_pools_of(pools: Seq<PoolData>, accounts: Seq<AccountView>, is_dir_swap: bool, token: Seq<u8>, clock: ClockView) -> Seq<
    ParsedPoolState,
>
    decreases pools.len(),
{
    if pools.len() == 0 {
        Seq::empty()
    } else {
        let prev = parsed_pools_of(pools.drop_last(), accounts, is_dir_swap, token, clock);
        match pool_outcome(pools.last(), accounts, is_dir_swap, WSOL_MINT@, token, clock) {
            Ok(p) => prev.push(p),
            Err(_) => prev,
        }
    }
}

/// The pools of a group that read without error against its token, in
/// order.
pub open spec fn group_pools(g: TokenPoolGroup, accounts: Seq<AccountView>, is_dir_swap: bool, clock: ClockView) -> Seq<ParsedPoolState> {
    parsed_pools_of(g.pools@, accounts, is_dir_swap, group_key(g, accounts), clock)
}

/// The pools of a group that read without error against its token, in
/// order; see `group_pools`.
fn parse_group_pools(token_group: &TokenPoolGroup, accounts: &Vec<AccountView>, is_dir_swap: bool, clock: &ClockView) -> (r: Vec<
    ParsedPoolState,
>)
    requires
        group_ok(*token_group, accounts@, *clock, is_dir_swap),
    ensures
        r@.len() <= token_group.pools@.len(),
        r@ == group_pools(*token_group, accounts@, is_dir_swap, *clock),
{
    let token_mint = accounts[token_group.token_mint_index].key;
    let mut parsed_pools: Vec<ParsedPoolState> = Vec::new();
    let mut i: usize = 0;
    let ghost pools = token_group.pools@;
    assert(pools.take(0) =~= Seq::<PoolData>::empty());
    while i < token_group.pools.len()
        invariant
            i <= token_group.pools@.len(),
            pools == token_group.pools@,
            group_ok(*token_group, accounts@, *clock, is_dir_swap),
            token_mint@ == group_key(*token_group, accounts@),
            parsed_pools@.len() <= i,
            parsed_pools@ == parsed_pools_of(pools.take(i as int), accounts@, is_dir_swap, token_mint@, *clock),
        decreases token_group.pools@.len() - i,
    {
        assert(pool_data_ok(token_group.pools@[i as int], accounts@, WSOL_MINT@, group_key(*token_group, accounts@), *clock, is_dir_swap));
        let ghost next = pools.take(i as int + 1);
        assert(next.drop_last() =~= pools.take(i as int));
        assert(next.last() == pools[i as int]);
        if let Ok(parsed_state) = parse_pool_with_state(&token_group.pools[i], accounts, is_dir_swap, WSOL_MINT, token_mint, clock) {
            parsed_pools.push(parsed_state);
        }
        i += 1;
    }
    assert(pools.take(i as int) =~= pools);
    parsed_pools
}

/// One two-hop group's turn in the search, and whether the search ends
/// there: for a direct swap, a group with two read pools gives its first two
/// as the buy and sell pools (and its token positions) and ends the search;
/// otherwise its best two-hop trade (see `two_hop_analysis`) is recorded
/// (see `recorded`) when its ratio beats the best so far.
pub open spec fn two_hop_step(st: AnalysisState, g: TokenPoolGroup, accounts: Seq<AccountView>, is_dir_swap: bool, clock: ClockView) -> (
    AnalysisState,
    bool,
) {
    let parsed = group_pools(g, accounts, is_dir_swap, clock);
    if is_dir_swap && parsed.len() >= 2 {
        (
            AnalysisState {
                best_buy_pool_state: Some(Box::new(parsed[0])),
                best_sell_pool_state: Some(Box::new(parsed[1])),
                best_two_hop_token_info: Some(group_two_hop(g)),
                ..st
            },
            true,
        )
    } else if parsed.len() >= 2 {
        let a = two_hop_analysis(pools_price_and_fee(parsed), parsed);
        if a.max_profit_ratio > st.global_max_profit {
            (recorded(st, a, g, accounts), false)
        } else {
            (st, false)
        }
    } else {
        (st, false)
    }
}

/// The search state after the first `k` two-hop groups from `st`, and
/// whether the search has ended; see `two_hop_step`.
pub open spec fn two_hop_run(
    gs: Seq<TokenPoolGroup>,
    k: nat,
    st: AnalysisState,
    accounts: Seq<AccountView>,
    is_dir_swap: bool,
    clock: ClockView,
) -> (AnalysisState, bool)
    decreases k,
{
    if k == 0 {
        (st, false)
    } else {
        let prev = two_hop_run(gs, (k - 1) as nat, st, accounts, is_dir_swap, clock);
        if prev.1 {
            prev
        } else {
            two_hop_step(prev.0, gs[k - 1], accounts, is_dir_swap, clock)
        }
    }
}

/// Once the search has ended it stays where it ended.
proof fn lemma_two_hop_run_ended(
    gs: Seq<TokenPoolGroup>,
    k: nat,
    j: nat,
    st: AnalysisState,
    accounts: Seq<AccountView>,
    is_dir_swap: bool,
    clock: ClockView,
)
    requires
        k <= j,
        two_hop_run(gs, k, st, accounts, is_dir_swap, clock).1,
    ensures
        two_hop_run(gs, j, st, accounts, is_dir_swap, clock) == two_hop_run(gs, k, st, accounts, is_dir_swap, clock),
    decreases j,
{
    if k < j {
        lemma_two_hop_run_ended(gs, k, (j - 1) as nat, st, accounts, is_dir_swap, clock);
    }
}

/// A three-hop group's turn in the search: its best three-hop trade (see
/// `three_hop_analysis`), when it has at least three read pools, is
/// recorded (see `recorded`) when its ratio beats the best so far.
pub open spec fn three_hop_step(st: AnalysisState, g: TokenPoolGroup, accounts: Seq<AccountView>, is_dir_swap: bool, clock: ClockView) -> AnalysisState {
    let parsed = group_pools(g, accounts, is_dir_swap, clock);
    if parsed.len() >= 3 {
        let a = three_hop_analysis(pools_price_and_fee(parsed), parsed);
        if a.max_profit_ratio > st.global_max_profit {
            recorded(st, a, g, accounts)
        } else {
            st
        }
    } else {
        st
    }
}

/// The fee rates of the pools a two-hop search prices can be formed: those
/// of each group with two read pools, unless the swap is direct.
pub open spec fn two_hop_fees_fit(gs: Seq<TokenPoolGroup>, accounts: Seq<AccountView>, is_dir_swap: bool, clock: ClockView) -> bool {
    forall|k: int|
        0 <= k < gs.len() && !is_dir_swap && group_pools(#[trigger] gs[k], accounts, is_dir_swap, clock).len() >= 2 ==> fee_rates_fit(
            group_pools(gs[k], accounts, is_dir_swap, clock),
        )
}

/// The fee rates of the pools a three-hop group's search prices can be
/// formed: those of the group when it has three read pools.
pub open spec fn three_hop_fees_fit(g: TokenPoolGroup, accounts: Seq<AccountView>, is_dir_swap: bool, clock: ClockView) -> bool {
    group_pools(g, accounts, is_dir_swap, clock).len() >= 3 ==> fee_rates_fit(group_pools(g, accounts, is_dir_swap, clock))
}

/// The fee rates of the pools the search over the groups prices can be
/// formed; see `two_hop_fees_fit` and `three_hop_fees_fit`.
pub open spec fn search_fees_fit(gs: Seq<TokenPoolGroup>, accounts: Seq<AccountView>, is_dir_swap: bool, clock: ClockView) -> bool {
    if has_3hop_group(gs) {
        gs.len() > 0 ==> three_hop_fees_fit(gs[0], accounts, is_dir_swap, clock)
    } else {
        two_hop_fees_fit(gs, accounts, is_dir_swap, clock)
    }
}

/// Goes over two-hop token groups: reads each group's pools; for a direct
/// swap the first group with two pools gives its first two pools as the
/// buy and sell pools and ends the search; otherwise a group's best
/// two-hop trade (see `analyze_2hop_arbitrage_only`) is recorded when its
/// profit ratio beats the best so far. The best ratio never falls, and
/// (but for a direct swap) the recorded trade stays consistent with it (see
/// `state_consistent`).
pub fn process_2hop_token_groups(
    token_groups: &Vec<TokenPoolGroup>,
    accounts: &Vec<AccountView>,
    is_dir_swap: bool,
    analysis_state: &mut AnalysisState,
    clock: &ClockView,
) -> (r: Result<(), ErrorCode>)
    requires
        groups_ok(token_groups@, accounts@, *clock, is_dir_swap),
        two_hop_fees_fit(token_groups@, accounts@, is_dir_swap, *clock),
        state_consistent(*old(analysis_state), false),
    ensures
        r is Ok,
        final(analysis_state).global_max_profit >= old(analysis_state).global_max_profit,
        !is_dir_swap ==> state_consistent(*final(analysis_state), false),
        *final(analysis_state) == two_hop_run(token_groups@, token_groups@.len(), *old(analysis_state), accounts@, is_dir_swap, *clock).0,
{
    let mut k: usize = 0;
    let ghost st0 = *analysis_state;
    while k < token_groups.len()
        invariant
            k <= token_groups@.len(),
            groups_ok(token_groups@, accounts@, *clock, is_dir_swap),
            two_hop_fees_fit(token_groups@, accounts@, is_dir_swap, *clock),
            analysis_state.global_max_profit >= old(analysis_state).global_max_profit,
            !is_dir_swap ==> state_consistent(*analysis_state, false),
            st0 == *old(analysis_state),
            two_hop_run(token_groups@, k as nat, st0, accounts@, is_dir_swap, *clock) == (*analysis_state, false),
        decreases token_groups@.len() - k,
    {
        let token_group = &token_groups[k];
        assert(group_ok(token_groups@[k as int], accounts@, *clock, is_dir_swap));
        let parsed_pools = parse_group_pools(token_group, accounts, is_dir_swap, clock);
        if is_dir_swap && parsed_pools.len() >= 2 {
            analysis_state.best_buy_pool_state = Some(Box::new(parsed_pools[0]));
            analysis_state.best_sell_pool_state = Some(Box::new(parsed_pools[1]));
            analysis_state.best_two_hop_token_info = Some(
                TwoHopTokenInfo {
                    token_mint_index: token_group.token_mint_index,
                    token_program_index: token_group.token_program_index,
                    mint_token_account_index: token_group.mint_token_account_index,
                },
            );
            proof {
                assert(two_hop_run(token_groups@, (k + 1) as nat, st0, accounts@, is_dir_swap, *clock) == (*analysis_state, true));
                lemma_two_hop_run_ended(token_groups@, (k + 1) as nat, token_groups@.len(), st0, accounts@, is_dir_swap, *clock);
            }
            return Ok(());
        }
        if parsed_pools.len() >= 2 {
            if let Ok(token_analysis) = analyze_2hop_arbitrage_only(&parsed_pools) {
                if token_analysis.max_profit_ratio > analysis_state.global_max_profit {
                    proof {
                        lemma_two_hop_analysis_ratio(parsed_pools@);
                    }
                    update_best_analysis(token_analysis, token_group, accounts, analysis_state)?;
                }
            }
        }
        k += 1;
    }
    Ok(())
}

/// Whether a three-hop group can have a better trade recorded: its second
/// token's positions are all given.
pub open spec fn three_hop_group_ok(g: TokenPoolGroup) -> bool {
    g.token2_mint_index is Some && g.token2_program_index is Some && g.token2_mint_token_account_index is Some
}

/// Goes over a three-hop token group: reads its pools and records its best
/// three-hop trade (see `analyze_3hop_arbitrage_only`) when there are at
/// least three pools and its profit ratio beats the best so far. The best
/// ratio never falls, and the recorded trade stays consistent with it (see
/// `state_consistent`).
pub fn process_3hop_token_group(
    token_group: &TokenPoolGroup,
    accounts: &Vec<AccountView>,
    is_dir_swap: bool,
    analysis_state: &mut AnalysisState,
    clock: &ClockView,
) -> (r: Result<(), ErrorCode>)
    requires
        group_ok(*token_group, accounts@, *clock, is_dir_swap),
        three_hop_group_ok(*token_group),
        three_hop_fees_fit(*token_group, accounts@, is_dir_swap, *clock),
        state_consistent(*old(analysis_state), true),
    ensures
        r is Ok,
        final(analysis_state).global_max_profit >= old(analysis_state).global_max_profit,
        state_consistent(*final(analysis_state), true),
        *final(analysis_state) == three_hop_step(*old(analysis_state), *token_group, accounts@, is_dir_swap, *clock),
{
    let parsed_pools = parse_group_pools(token_group, accounts, is_dir_swap, clock);
    if parsed_pools.len() >= 3 {
        if let Ok(token_analysis) = analyze_3hop_arbitrage_only(&parsed_pools) {
            if token_analysis.max_profit_ratio > analysis_state.global_max_profit {
                update_best_analysis(token_analysis, token_group, accounts, analysis_state)?;
            }
        }
    }
    Ok(())
}

/// Whether any group carries a second token.
pub open spec fn has_3hop_group(gs: Seq<TokenPoolGroup>) -> bool {
    exists|k: int| 0 <= k < gs.len() && (#[trigger] gs[k]).token2_mint_index is Some
}

/// The search state after going over the token groups from `st`: the
/// first group alone as a three-hop group when any group carries a second
/// token (see `three_hop_step`), else all of them as two-hop groups (see
/// `two_hop_run`).
pub open spec fn groups_outcome(gs: Seq<TokenPoolGroup>, st: AnalysisState, accounts: Seq<AccountView>, is_dir_swap: bool, clock: ClockView) -> AnalysisState {
    if has_3hop_group(gs) {
        three_hop_step(st, gs[0], accounts, is_dir_swap, clock)
    } else {
        two_hop_run(gs, gs.len(), st, accounts, is_dir_swap, clock).0
    }
}

/// Goes over the token groups: the first group alone when any carries a
/// second token (see `process_3hop_token_group`), else all of them as two-hop
/// groups (see `process_2hop_token_groups`). The best ratio never falls,
/// and (but for a direct two-hop swap) the recorded trade stays consistent
/// with it (see `state_consistent`).
pub fn process_token_groups(
    token_groups: &Vec<TokenPoolGroup>,
    accounts: &Vec<AccountView>,
    is_dir_swap: bool,
    analysis_state: &mut AnalysisState,
    clock: &ClockView,
) -> (r: Result<(), ErrorCode>)
    requires
        groups_ok(token_groups@, accounts@, *clock, is_dir_swap),
        has_3hop_group(token_groups@) ==> three_hop_group_ok(token_groups@[0]),
        search_fees_fit(token_groups@, accounts@, is_dir_swap, *clock),
        state_consistent(*old(analysis_state), has_3hop_group(token_groups@)),
    ensures
        r is Ok,
        final(analysis_state).global_max_profit >= old(analysis_state).global_max_profit,
        !is_dir_swap || has_3hop_group(token_groups@) ==> state_consistent(*final(analysis_state), has_3hop_group(token_groups@)),
        *final(analysis_state) == groups_outcome(token_groups@, *old(analysis_state), accounts@, is_dir_swap, *clock),
{
    let mut is_3hop_group = false;
    let mut k: usize = 0;
    while k < token_groups.len()
        invariant
            k <= token_groups@.len(),
            is_3hop_group <==> exists|j: int| 0 <= j < k && (#[trigger] token_groups@[j]).token2_mint_index is Some,
        decreases token_groups@.len() - k,
    {
        if token_groups[k].token2_mint_index.is_some() {
            is_3hop_group = true;
        }
        k += 1;
    }
    assert(is_3hop_group == has_3hop_group(token_groups@));
    if is_3hop_group {
        if token_groups.len() > 0 {
            assert(group_ok(token_groups@[0], accounts@, *clock, is_dir_swap));
            process_3hop_token_group(&token_groups[0], accounts, is_dir_swap, analysis_state, clock)?;
        }
    } else {
        process_2hop_token_groups(token_groups, accounts, is_dir_swap, analysis_state, clock)?;
    }
    Ok(())
}

/// The search state before any group: nothing found.
pub open spec fn empty_search() -> AnalysisState {
    AnalysisState {
        global_max_profit: 0,
        best_buy_pool_state: None,
        best_sell_pool_state: None,
        best_mid_pool_state: None,
        best_two_hop_token_info: None,
    }
}

/// Whether a pool's fee rate can be formed; see `fee_rate_fits`.
pub fn fee_rate_ready(pool: &ParsedPoolState) -> (r: bool)
    ensures
        r == fee_rate_fits(*pool),
{
    match pool {
        ParsedPoolState::PUMP { state } => (state.trade_fee_rate as u128) * 100 <= u64::MAX as u128,
        _ => true,
    }
}

fn fee_rates_ready(pools: &Vec<ParsedPoolState>) -> (r: bool)
    ensures
        r == fee_rates_fit(pools@),
{
    let mut i: usize = 0;
    while i < pools.len()
        invariant
            i <= pools@.len(),
            forall|j: int| 0 <= j < i ==> fee_rate_fits(#[trigger] pools@[j]),
        decreases pools.len() - i,
    {
        if !fee_rate_ready(&pools[i]) {
            return false;
        }
        i += 1;
    }
    true
}

/// Whether the fee rates of the pools the search over the groups prices can
/// be formed; see `search_fees_fit`. The groups' pools are read to tell.
pub fn search_fees_ready(token_groups: &Vec<TokenPoolGroup>, accounts: &Vec<AccountView>, is_dir_swap: bool, clock: &ClockView) -> (r: bool)
    requires
        groups_ok(token_groups@, accounts@, *clock, is_dir_swap),
    ensures
        r == search_fees_fit(token_groups@, accounts@, is_dir_swap, *clock),
{
    let mut is_3hop_group = false;
    let mut k: usize = 0;
    while k < token_groups.len()
        invariant
            k <= token_groups@.len(),
            is_3hop_group <==> exists|j: int| 0 <= j < k && (#[trigger] token_groups@[j]).token2_mint_index is Some,
        decreases token_groups@.len() - k,
    {
        if token_groups[k].token2_mint_index.is_some() {
            is_3hop_group = true;
        }
        k += 1;
    }
    assert(is_3hop_group == has_3hop_group(token_groups@));
    if is_3hop_group {
        if token_groups.len() == 0 {
            return true;
        }
        assert(group_ok(token_groups@[0], accounts@, *clock, is_dir_swap));
        let parsed = parse_group_pools(&token_groups[0], accounts, is_dir_swap, clock);
        return parsed.len() < 3 || fee_rates_ready(&parsed);
    }
    if is_dir_swap {
        assert(two_hop_fees_fit(token_groups@, accounts@, is_dir_swap, *clock));
        return true;
    }
    let mut k: usize = 0;
    while k < token_groups.len()
        invariant
            k <= token_groups@.len(),
            !is_dir_swap,
            !has_3hop_group(token_groups@),
            groups_ok(token_groups@, accounts@, *clock, is_dir_swap),
            forall|j: int|
                0 <= j < k && group_pools(#[trigger] token_groups@[j], accounts@, is_dir_swap, *clock).len() >= 2 ==> fee_rates_fit(
                    group_pools(token_groups@[j], accounts@, is_dir_swap, *clock),
                ),
        decreases token_groups@.len() - k,
    {
        assert(group_ok(token_groups@[k as int], accounts@, *clock, is_dir_swap));
        let parsed = parse_group_pools(&token_groups[k], accounts, is_dir_swap, clock);
        if parsed.len() >= 2 && !fee_rates_ready(&parsed) {
            assert(!two_hop_fees_fit(token_groups@, accounts@, is_dir_swap, *clock)) by {
                assert(group_pools(token_groups@[k as int], accounts@, is_dir_swap, *clock).len() >= 2);
            }
            return false;
        }
        k += 1;
    }
    assert(two_hop_fees_fit(token_groups@, accounts@, is_dir_swap, *clock));
    true
}

/// What the search over all token groups gives, from nothing found:
/// `InvalidTokenPair` for a direct swap that found no pools; else the best
/// trade found (see `groups_outcome`).
pub open spec fn global_outcome(
    gs: Seq<TokenPoolGroup>,
    accounts: Seq<AccountView>,
    is_dir_swap: bool,
    clock: ClockView,
) -> Result<GlobalArbitrageAnalysis, ErrorCode> {
    let st = groups_outcome(gs, empty_search(), accounts, is_dir_swap, clock);
    if is_dir_swap && st.best_buy_pool_state is None {
        Err(ErrorCode::InvalidTokenPair)
    } else {
        Ok(
            GlobalArbitrageAnalysis {
                max_profit_ratio: st.global_max_profit,
                buy_pool_state: st.best_buy_pool_state,
                mid_pool_state: st.best_mid_pool_state,
                sell_pool_state: st.best_sell_pool_state,
                two_hop_token_info: st.best_two_hop_token_info,
            },
        )
    }
}

/// The search over all token groups (see `process_token_groups`), from
/// nothing found: `InvalidTokenPair` for a direct swap that found no pools;
/// else the best trade found.
pub fn analyze_global_arbitrage_opportunities(
    token_groups: &Vec<TokenPoolGroup>,
    accounts: &Vec<AccountView>,
    is_dir_swap: bool,
    clock: &ClockView,
) -> (r: Result<GlobalArbitrageAnalysis, ErrorCode>)
    requires
        groups_ok(token_groups@, accounts@, *clock, is_dir_swap),
        has_3hop_group(token_groups@) ==> three_hop_group_ok(token_groups@[0]),
        search_fees_fit(token_groups@, accounts@, is_dir_swap, *clock),
    ensures
        r matches Err(e) ==> is_dir_swap && e == ErrorCode::InvalidTokenPair,
        r matches Ok(a) ==> (is_dir_swap ==> a.buy_pool_state is Some),
        r == global_outcome(token_groups@, accounts@, is_dir_swap, *clock),
{
    let mut analysis_state = AnalysisState {
        global_max_profit: 0,
        best_buy_pool_state: None,
        best_sell_pool_state: None,
        best_mid_pool_state: None,
        best_two_hop_token_info: None,
    };
    process_token_groups(token_groups, accounts, is_dir_swap, &mut analysis_state, clock)?;
    if is_dir_swap && analysis_state.best_buy_pool_state.is_none() {
        return Err(ErrorCode::InvalidTokenPair);
    }
    Ok(
        GlobalArbitrageAnalysis {
            max_profit_ratio: analysis_state.global_max_profit,
            buy_pool_state: analysis_state.best_buy_pool_state,
            mid_pool_state: analysis_state.best_mid_pool_state,
            sell_pool_state: analysis_state.best_sell_pool_state,
            two_hop_token_info: analysis_state.best_two_hop_token_info,
        },
    )
}


/// Whether a group's pools can be read, but for the bound on pump fees;
/// see `pool_data_readable`.
pub open spec fn group_readable(g: TokenPoolGroup, accounts: Seq<AccountView>, clock: ClockView, is_dir_swap: bool) -> bool {
    &&& g.token_mint_index < accounts.len()
    &&& forall|i: int|
        0 <= i < g.pools@.len() ==> pool_data_readable(#[trigger] g.pools@[i], accounts, WSOL_MINT@, group_key(g, accounts), clock, is_dir_swap)
}

/// Whether every group's pools can be read, but for the bound on pump
/// fees; see `group_readable`.
pub open spec fn groups_readable(gs: Seq<TokenPoolGroup>, accounts: Seq<AccountView>, clock: ClockView, is_dir_swap: bool) -> bool {
    forall|k: int| 0 <= k < gs.len() ==> group_readable(#[trigger] gs[k], accounts, clock, is_dir_swap)
}

/// Whether a group's pools can all be read; see `group_ok`.
fn group_ready(token_group: &TokenPoolGroup, accounts: &Vec<AccountView>, is_dir_swap: bool, clock: &ClockView) -> (r: bool)
    requires
        group_readable(*token_group, accounts@, *clock, is_dir_swap),
    ensures
        r == group_ok(*token_group, accounts@, *clock, is_dir_swap),
{
    let token_mint = accounts[token_group.token_mint_index].key;
    let mut i: usize = 0;
    while i < token_group.pools.len()
        invariant
            i <= token_group.pools@.len(),
            group_readable(*token_group, accounts@, *clock, is_dir_swap),
            token_mint@ == group_key(*token_group, accounts@),
            forall|j: int|
                0 <= j < i ==> pool_data_ok(#[trigger] token_group.pools@[j], accounts@, WSOL_MINT@, group_key(*token_group, accounts@), *clock, is_dir_swap),
        decreases token_group.pools@.len() - i,
    {
        assert(pool_data_readable(token_group.pools@[i as int], accounts@, WSOL_MINT@, group_key(*token_group, accounts@), *clock, is_dir_swap));
        if !pool_data_ready(&token_group.pools[i], accounts, is_dir_swap, WSOL_MINT, token_mint, clock) {
            return false;
        }
        i += 1;
    }
    true
}

/// Whether a search over the groups can be made: every group's pools can be
/// read, a three-hop search has its second token's positions, and the fee
/// rates it prices can be formed.
pub open spec fn search_ready(gs: Seq<TokenPoolGroup>, accounts: Seq<AccountView>, is_dir_swap: bool, clock: ClockView) -> bool {
    &&& groups_ok(gs, accounts, clock, is_dir_swap)
    &&& has_3hop_group(gs) ==> three_hop_group_ok(gs[0])
    &&& search_fees_fit(gs, accounts, is_dir_swap, clock)
}

/// The search over all token groups where it can be made: `None` unless
/// `search_ready` holds, else what `analyze_global_arbitrage_opportunities`
/// gives (see `global_outcome`).
pub fn analyze_global_checked(
    token_groups: &Vec<TokenPoolGroup>,
    accounts: &Vec<AccountView>,
    is_dir_swap: bool,
    clock: &ClockView,
) -> (r: Option<Result<GlobalArbitrageAnalysis, ErrorCode>>)
    requires
        groups_readable(token_groups@, accounts@, *clock, is_dir_swap),
    ensures
        r is Some <==> search_ready(token_groups@, accounts@, is_dir_swap, *clock),
        r matches Some(x) ==> x == global_outcome(token_groups@, accounts@, is_dir_swap, *clock),
{
    let mut k: usize = 0;
    while k < token_groups.len()
        invariant
            k <= token_groups@.len(),
            groups_readable(token_groups@, accounts@, *clock, is_dir_swap),
            forall|j: int| 0 <= j < k ==> group_ok(#[trigger] token_groups@[j], accounts@, *clock, is_dir_swap),
        decreases token_groups@.len() - k,
    {
        assert(group_readable(token_groups@[k as int], accounts@, *clock, is_dir_swap));
        if !group_ready(&token_groups[k], accounts, is_dir_swap, clock) {
            return None;
        }
        k += 1;
    }
    assert(groups_ok(token_groups@, accounts@, *clock, is_dir_swap));
    let mut is_3hop_group = false;
    let mut k: usize = 0;
    while k < token_groups.len()
        invariant
            k <= token_groups@.len(),
            is_3hop_group <==> exists|j: int| 0 <= j < k && (#[trigger] token_groups@[j]).token2_mint_index is Some,
        decreases token_groups@.len() - k,
    {
        if token_groups[k].token2_mint_index.is_some() {
            is_3hop_group = true;
        }
        k += 1;
    }
    assert(is_3hop_group == has_3hop_group(token_groups@));
    if is_3hop_group {
        let g = &token_groups[0];
        if g.token2_mint_index.is_none() || g.token2_program_index.is_none() || g.token2_mint_token_account_index.is_none() {
            return None;
        }
    }
    if !search_fees_ready(token_groups, accounts, is_dir_swap, clock) {
        return None;
    }
    Some(analyze_global_arbitrage_opportunities(token_groups, accounts, is_dir_swap, clock))
}

/// The best factor never falls as more pairs are looked at.
proof fn lemma_best_2hop_grows(d: Seq<(u128, u128)>, j: nat, k: nat)
    requires
        j <= k,
    ensures
        best_2hop(d, j).0 <= best_2hop(d, k).0,
    decreases k,
{
    if j < k {
        lemma_best_2hop_grows(d, j, (k - 1) as nat);
    }
}

/// The best factor over the first `k` pairs is at least that of each of
/// them above one.
proof fn lemma_best_2hop_dominates(d: Seq<(u128, u128)>, k: nat, p: nat)
    requires
        p < k,
        d.len() > 0,
    ensures
        pair_profit(d, p as int / d.len() as int, p as int % d.len() as int) matches Some(f) ==> (f > ONE ==> best_2hop(d, k).0 >= f),
    decreases k,
{
    if p + 1 == k {
    } else {
        lemma_best_2hop_dominates(d, (k - 1) as nat, p);
        lemma_best_2hop_grows(d, (k - 1) as nat, k);
    }
}

/// The two-hop search finds the best trade: no pair of pools gives a
/// larger profit factor above one than the one it reports.
pub proof fn law_two_hop_is_best(d: Seq<(u128, u128)>, i: int, j: int)
    requires
        0 <= i < d.len(),
        0 <= j < d.len(),
    ensures
        pair_profit(d, i, j) matches Some(f) ==> (f > ONE ==> best_2hop(d, (d.len() * d.len()) as nat).0 >= f),
{
    let n = d.len() as int;
    let p = i * n + j;
    assert(0 <= p < n * n) by (nonlinear_arith)
        requires 0 <= i < n, 0 <= j < n, p == i * n + j;
    vstd::arithmetic::div_mod::lemma_fundamental_div_mod_converse(p, n, i, j);
    lemma_best_2hop_dominates(d, (n * n) as nat, p as nat);
}

/// The best ratio never falls as more routes are looked at.
proof fn lemma_best_3hop_grows(paths: Seq<ThreeHopPath>, d: Seq<(u128, u128)>, pools: Seq<ParsedPoolState>, j: nat, k: nat)
    requires
        j <= k,
    ensures
        best_3hop(paths, d, pools, j).0 <= best_3hop(paths, d, pools, k).0,
    decreases k,
{
    if j < k {
        lemma_best_3hop_grows(paths, d, pools, j, (k - 1) as nat);
    }
}

/// The three-hop search finds the best route: no route gives a larger
/// profit ratio than the one it reports.
pub proof fn law_three_hop_is_best(paths: Seq<ThreeHopPath>, d: Seq<(u128, u128)>, pools: Seq<ParsedPoolState>, q: int)
    requires
        0 <= q < paths.len(),
    ensures
        profit_ratio_3hop(paths[q], d, pools) matches Some(r) ==> best_3hop(paths, d, pools, paths.len()).0 >= r,
{
    lemma_best_3hop_grows(paths, d, pools, (q + 1) as nat, paths.len());
}

} // verus!
