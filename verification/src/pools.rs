use vstd::prelude::*;

use crate::bytes::key_eq;

verus! {

/// One in fee-rate units: rates are parts per million.
pub const BASE_BPS: u64 = 1_000_000;

/// How many accounts each pool kind takes in the account list, its program
/// account included.
pub const CPMM_ACCOUNT_COUNT: usize = 7;
pub const DLMM_ACCOUNT_COUNT: usize = 9;
pub const DAMMV2_ACCOUNT_COUNT: usize = 6;
pub const PUMP_ACCOUNT_COUNT: usize = 16;
pub const RAYDIUM_ACCOUNT_COUNT: usize = 5;
pub const CLMM_ACCOUNT_COUNT: usize = 10;
pub const WHIRLPOOL_ACCOUNT_COUNT: usize = 8;

/// The wrapped-SOL mint address as this program compares against it.
pub const WSOL_MINT: [u8; 32] = [
    6, 155, 136, 87, 254, 171, 129, 132, 251, 104, 127, 99, 70, 24, 192, 53,
    218, 196, 57, 220, 26, 235, 59, 85, 9, 160, 87, 149, 45, 129, 81, 81,
];

/// Program addresses of the supported pool programs.
pub const CPMM_PROGRAM_ID: [u8; 32] = [
    169, 42, 90, 139, 79, 41, 89, 82, 132, 37, 80, 170, 147, 253, 91, 149,
    181, 172, 230, 168, 235, 146, 12, 147, 148, 46, 67, 105, 12, 32, 236, 115,
];
pub const CLMM_PROGRAM_ID: [u8; 32] = [
    165, 213, 202, 158, 4, 207, 93, 181, 144, 183, 20, 186, 47, 227, 44, 177,
    89, 19, 63, 193, 193, 146, 183, 34, 87, 253, 7, 211, 156, 176, 64, 30,
];
pub const WHIRLPOOL_PROGRAM_ID: [u8; 32] = [
    14, 3, 104, 95, 142, 144, 144, 83, 228, 88, 18, 28, 102, 245, 167, 106,
    237, 199, 112, 106, 161, 28, 130, 248, 170, 149, 42, 143, 43, 120, 121, 169,
];
pub const RAYDIUM_PROGRAM_ID: [u8; 32] = [
    75, 217, 73, 196, 54, 2, 195, 63, 32, 119, 144, 237, 22, 163, 82, 76,
    161, 185, 151, 92, 241, 33, 162, 169, 12, 255, 236, 125, 248, 182, 138, 205,
];
pub const DLMM_PROGRAM_ID: [u8; 32] = [
    4, 233, 225, 47, 188, 132, 232, 38, 201, 50, 204, 233, 226, 100, 12, 206,
    21, 89, 12, 28, 98, 115, 176, 146, 87, 8, 186, 59, 133, 32, 176, 188,
];
pub const DAMMV2_PROGRAM_ID: [u8; 32] = [
    9, 45, 33, 53, 101, 122, 21, 156, 43, 135, 212, 182, 106, 112, 219, 142,
    151, 82, 56, 159, 247, 106, 175, 32, 108, 237, 6, 58, 56, 249, 90, 237,
];
pub const PUMP_PROGRAM_ID: [u8; 32] = [
    12, 20, 222, 252, 130, 94, 198, 118, 148, 37, 8, 24, 187, 101, 64, 101,
    244, 41, 141, 49, 86, 213, 113, 180, 212, 248, 9, 12, 24, 233, 168, 99,
];

/// The kinds of pool the program trades on.
#[derive(PartialEq, Eq, Debug, Clone, Copy, Structural)]
pub enum PoolType {
    CPMM,
    DLMM,
    DAMMV2,
    PUMP,
    RAYDIUM,
    CLMM,
    WHIRLPOOL,
}

/// Where one pool's accounts sit in the account list.
#[derive(PartialEq, Eq, Debug, Clone, Copy, Structural)]
pub enum PoolData {
    CPMM {
        program_id_index: usize,
        pool_index: usize,
        authority_index: usize,
        config_index: usize,
        token0_vault_index: usize,
        token1_vault_index: usize,
        observation_state_index: usize,
    },
    DLMM {
        program_id_index: usize,
        event_authority_index: usize,
        oracle_index: usize,
        pool_index: usize,
        reserve_x_index: usize,
        reserve_y_index: usize,
        bin_array_minus_1_index: usize,
        bin_array_0_index: usize,
        bin_array_1_index: usize,
    },
    DAMMV2 {
        program_id_index: usize,
        event_authority_index: usize,
        pool_authority_index: usize,
        pool_index: usize,
        token_a_vault_index: usize,
        token_b_vault_index: usize,
    },
    PUMP {
        program_id_index: usize,
        pool_index: usize,
        global_config_index: usize,
        event_authority_index: usize,
        coin_creator_vault_ata_index: usize,
        coin_creator_vault_authority_index: usize,
        pump_fee_wallet_index: usize,
        pump_fee_wallet_ata_index: usize,
        global_vol_accumulator_index: usize,
        user_vol_accumulator_index: usize,
        system_program_index: usize,
        associated_token_program_index: usize,
        base_vault_index: usize,
        quote_vault_index: usize,
        fee_config_index: usize,
        fee_program_index: usize,
    },
    RAYDIUM {
        program_id_index: usize,
        pool_index: usize,
        event_authority_index: usize,
        base_vault_index: usize,
        quote_vault_index: usize,
    },
    CLMM {
        program_id_index: usize,
        pool_index: usize,
        amm_config_index: usize,
        observation_key_index: usize,
        bitmap_extension_index: usize,
        token_vault_0_index: usize,
        token_vault_1_index: usize,
        tick_array_minus_1_index: usize,
        tick_array_0_index: usize,
        tick_array_1_index: usize,
    },
    WHIRLPOOL {
        program_id_index: usize,
        pool_index: usize,
        oracle_index: usize,
        vault_a_index: usize,
        vault_b_index: usize,
        tick_array_0_index: usize,
        tick_array_1_index: usize,
        tick_array_2_index: usize,
    },
}

/// One traded token with the pools found for it in the account list. A
/// three-hop group carries a second token.
#[derive(Debug, Clone)]
pub struct TokenPoolGroup {
    pub token_mint_index: usize,
    pub token_program_index: usize,
    pub mint_token_account_index: usize,
    pub pools: Vec<PoolData>,
    pub is_3hop: bool,
    pub token2_mint_index: Option<usize>,
    pub token2_program_index: Option<usize>,
    pub token2_mint_token_account_index: Option<usize>,
}

/// A token group with its pools as a sequence.
pub struct TokenPoolGroupView {
    pub token_mint_index: usize,
    pub token_program_index: usize,
    pub mint_token_account_index: usize,
    pub pools: Seq<PoolData>,
    pub is_3hop: bool,
    pub token2_mint_index: Option<usize>,
    pub token2_program_index: Option<usize>,
    pub token2_mint_token_account_index: Option<usize>,
}

impl View for TokenPoolGroup {
    type V = TokenPoolGroupView;

    open spec fn view(&self) -> TokenPoolGroupView {
        TokenPoolGroupView {
            token_mint_index: self.token_mint_index,
            token_program_index: self.token_program_index,
            mint_token_account_index: self.mint_token_account_index,
            pools: self.pools@,
            is_3hop: self.is_3hop,
            token2_mint_index: self.token2_mint_index,
            token2_program_index: self.token2_program_index,
            token2_mint_token_account_index: self.token2_mint_token_account_index,
        }
    }
}

/// The pool kind run by a program address, if it is one of ours.
pub open spec fn spec_pool_type(id: Seq<u8>) -> Option<PoolType> {
    if id == CPMM_PROGRAM_ID@ {
        Some(PoolType::CPMM)
    } else if id == DLMM_PROGRAM_ID@ {
        Some(PoolType::DLMM)
    } else if id == DAMMV2_PROGRAM_ID@ {
        Some(PoolType::DAMMV2)
    } else if id == PUMP_PROGRAM_ID@ {
        Some(PoolType::PUMP)
    } else if id == RAYDIUM_PROGRAM_ID@ {
        Some(PoolType::RAYDIUM)
    } else if id == CLMM_PROGRAM_ID@ {
        Some(PoolType::CLMM)
    } else if id == WHIRLPOOL_PROGRAM_ID@ {
        Some(PoolType::WHIRLPOOL)
    } else {
        None
    }
}

/// The pool kind run by a program address: always `Ok`, `None` for an
/// unknown program.
pub fn get_pool_type(pool_program_id: [u8; 32]) -> (r: Result<Option<PoolType>, crate::errors::ErrorCode>)
    ensures
        r == Ok::<Option<PoolType>, crate::errors::ErrorCode>(spec_pool_type(pool_program_id@)),
{
    if key_eq(&pool_program_id, &CPMM_PROGRAM_ID) {
        Ok(Some(PoolType::CPMM))
    } else if key_eq(&pool_program_id, &DLMM_PROGRAM_ID) {
        Ok(Some(PoolType::DLMM))
    } else if key_eq(&pool_program_id, &DAMMV2_PROGRAM_ID) {
        Ok(Some(PoolType::DAMMV2))
    } else if key_eq(&pool_program_id, &PUMP_PROGRAM_ID) {
        Ok(Some(PoolType::PUMP))
    } else if key_eq(&pool_program_id, &RAYDIUM_PROGRAM_ID) {
        Ok(Some(PoolType::RAYDIUM))
    } else if key_eq(&pool_program_id, &CLMM_PROGRAM_ID) {
        Ok(Some(PoolType::CLMM))
    } else if key_eq(&pool_program_id, &WHIRLPOOL_PROGRAM_ID) {
        Ok(Some(PoolType::WHIRLPOOL))
    } else {
        Ok(None)
    }
}

/// The number of accounts a pool of this kind takes.
pub open spec fn pool_account_count(t: PoolType) -> nat {
    match t {
        PoolType::CPMM => 7,
        PoolType::DLMM => 9,
        PoolType::DAMMV2 => 6,
        PoolType::PUMP => 16,
        PoolType::RAYDIUM => 5,
        PoolType::CLMM => 10,
        PoolType::WHIRLPOOL => 8,
    }
}

/// The account layout of a pool of kind `t` whose program account is at `i`.
pub open spec fn pool_layout(t: PoolType, i: usize) -> PoolData {
    match t {
        PoolType::CPMM => PoolData::CPMM {
            program_id_index: i,
            authority_index: (i + 1) as usize,
            config_index: (i + 2) as usize,
            observation_state_index: (i + 3) as usize,
            pool_index: (i + 4) as usize,
            token0_vault_index: (i + 5) as usize,
            token1_vault_index: (i + 6) as usize,
        },
        PoolType::DLMM => PoolData::DLMM {
            program_id_index: i,
            event_authority_index: (i + 1) as usize,
            oracle_index: (i + 2) as usize,
            pool_index: (i + 3) as usize,
            reserve_x_index: (i + 4) as usize,
            reserve_y_index: (i + 5) as usize,
            bin_array_minus_1_index: (i + 6) as usize,
            bin_array_0_index: (i + 7) as usize,
            bin_array_1_index: (i + 8) as usize,
        },
        PoolType::DAMMV2 => PoolData::DAMMV2 {
            program_id_index: i,
            event_authority_index: (i + 1) as usize,
            pool_authority_index: (i + 2) as usize,
            pool_index: (i + 3) as usize,
            token_a_vault_index: (i + 4) as usize,
            token_b_vault_index: (i + 5) as usize,
        },
        PoolType::PUMP => PoolData::PUMP {
            program_id_index: i,
            pool_index: (i + 1) as usize,
            global_config_index: (i + 2) as usize,
            event_authority_index: (i + 3) as usize,
            coin_creator_vault_ata_index: (i + 4) as usize,
            coin_creator_vault_authority_index: (i + 5) as usize,
            pump_fee_wallet_index: (i + 6) as usize,
            pump_fee_wallet_ata_index: (i + 7) as usize,
            global_vol_accumulator_index: (i + 8) as usize,
            user_vol_accumulator_index: (i + 9) as usize,
            system_program_index: (i + 10) as usize,
            associated_token_program_index: (i + 11) as usize,
            base_vault_index: (i + 12) as usize,
            quote_vault_index: (i + 13) as usize,
            fee_config_index: (i + 14) as usize,
            fee_program_index: (i + 15) as usize,
        },
        PoolType::RAYDIUM => PoolData::RAYDIUM {
            program_id_index: i,
            event_authority_index: (i + 1) as usize,
            pool_index: (i + 2) as usize,
            base_vault_index: (i + 3) as usize,
            quote_vault_index: (i + 4) as usize,
        },
        PoolType::CLMM => PoolData::CLMM {
            program_id_index: i,
            pool_index: (i + 1) as usize,
            amm_config_index: (i + 2) as usize,
            observation_key_index: (i + 3) as usize,
            bitmap_extension_index: (i + 4) as usize,
            token_vault_0_index: (i + 5) as usize,
            token_vault_1_index: (i + 6) as usize,
            tick_array_minus_1_index: (i + 7) as usize,
            tick_array_0_index: (i + 8) as usize,
            tick_array_1_index: (i + 9) as usize,
        },
        PoolType::WHIRLPOOL => PoolData::WHIRLPOOL {
            program_id_index: i,
            pool_index: (i + 1) as usize,
            oracle_index: (i + 2) as usize,
            vault_a_index: (i + 3) as usize,
            vault_b_index: (i + 4) as usize,
            tick_array_0_index: (i + 5) as usize,
            tick_array_1_index: (i + 6) as usize,
            tick_array_2_index: (i + 7) as usize,
        },
    }
}

/// The pools that follow position `i` of the account list: each starts at
/// a known program account and has all its accounts in the list. The scan
/// stops at the first account that is not such a start. Also returns where
/// it stopped.
pub open spec fn spec_parse_pools(keys: Seq<Seq<u8>>, i: nat) -> (Seq<PoolData>, nat)
    decreases keys.len() - i,
{
    if i >= keys.len() {
        (Seq::empty(), i)
    } else {
        match spec_pool_type(keys[i as int]) {
            None => (Seq::empty(), i),
            Some(t) => if i + pool_account_count(t) <= keys.len() && i + pool_account_count(t)
                <= usize::MAX {
                let rest = spec_parse_pools(keys, i + pool_account_count(t));
                (seq![pool_layout(t, i as usize)].add(rest.0), rest.1)
            } else {
                (Seq::empty(), i)
            },
        }
    }
}

/// Where a pool scan from `i` stops: no earlier than `i`, and within the
/// list when it moved.
pub proof fn lemma_parse_pools_end(keys: Seq<Seq<u8>>, i: nat)
    ensures
        spec_parse_pools(keys, i).1 >= i,
        spec_parse_pools(keys, i).1 == i || spec_parse_pools(keys, i).1 <= keys.len(),
        spec_parse_pools(keys, i).1 == i <==> spec_parse_pools(keys, i).0.len() == 0,
    decreases keys.len() - i,
{
    if i < keys.len() {
        match spec_pool_type(keys[i as int]) {
            None => {},
            Some(t) => {
                if i + pool_account_count(t) <= keys.len() && i + pool_account_count(t) <= usize::MAX {
                    lemma_parse_pools_end(keys, i + pool_account_count(t));
                }
            },
        }
    }
}

/// The token group headed at position `i`: its three token accounts (seven
/// when the fourth repeats the third, marking a three-hop group) and the
/// pools that follow.
pub open spec fn spec_group_at(keys: Seq<Seq<u8>>, i: nat) -> (TokenPoolGroupView, nat) {
    let is_3hop = keys[i + 3int] == keys[i + 2int];
    let start = if is_3hop {
        i + 7
    } else {
        i + 3
    };
    let pools = spec_parse_pools(keys, start);
    (
        TokenPoolGroupView {
            token_mint_index: i as usize,
            token_program_index: (i + 1) as usize,
            mint_token_account_index: (i + 2) as usize,
            pools: pools.0,
            is_3hop,
            token2_mint_index: if is_3hop {
                Some((i + 4) as usize)
            } else {
                None
            },
            token2_program_index: if is_3hop {
                Some((i + 5) as usize)
            } else {
                None
            },
            token2_mint_token_account_index: if is_3hop {
                Some((i + 6) as usize)
            } else {
                None
            },
        },
        pools.1,
    )
}

/// The token groups from position `i` on; groups without any pool are
/// left out.
pub open spec fn spec_parse_groups(keys: Seq<Seq<u8>>, i: nat) -> Seq<TokenPoolGroupView>
    decreases keys.len() + 8 - i,
{
    if i + 3 < keys.len() {
        let g = spec_group_at(keys, i);
        proof {
            lemma_parse_pools_end(keys, if keys[i + 3int] == keys[i + 2int] { i + 7 } else { i + 3 });
        }
        if g.0.pools.len() > 0 {
            seq![g.0].add(spec_parse_groups(keys, g.1))
        } else {
            spec_parse_groups(keys, g.1)
        }
    } else {
        Seq::empty()
    }
}

/// The account list's keys as sequences.
pub open spec fn key_seqs(keys: Seq<[u8; 32]>) -> Seq<Seq<u8>> {
    keys.map_values(|k: [u8; 32]| k@)
}

/// Reads the account list into token groups: see `spec_parse_groups`.
pub fn parse_token_groups(remaining_accounts: &Vec<[u8; 32]>) -> (r: Result<
    Vec<TokenPoolGroup>,
    crate::errors::ErrorCode,
>)
    requires
        remaining_accounts.len() + 16 <= usize::MAX,
    ensures
        r is Ok,
        r matches Ok(groups) ==> groups@.map_values(|g: TokenPoolGroup| g@) == spec_parse_groups(
            key_seqs(remaining_accounts@),
            0,
        ),
{
    let ghost keys = key_seqs(remaining_accounts@);
    let len = remaining_accounts.len();
    let mut current_index: usize = 0;
    let mut token_groups: Vec<TokenPoolGroup> = Vec::with_capacity(3);
    while current_index + 3 < len
        invariant
            len == remaining_accounts.len(),
            len + 16 <= usize::MAX,
            keys == key_seqs(remaining_accounts@),
            current_index <= len + 7,
            spec_parse_groups(keys, 0) =~= token_groups@.map_values(|g: TokenPoolGroup| g@).add(
                spec_parse_groups(keys, current_index as nat),
            ),
        decreases len + 8 - current_index,
    {
        let ghost start_index = current_index as nat;
        let token_mint_index = current_index;
        let token_program_index = current_index + 1;
        let mint_token_account_index = current_index + 2;
        let is_3hop = key_eq(&remaining_accounts[current_index + 3], &remaining_accounts[current_index + 2]);
        proof {
            assert(keys[current_index + 3] == remaining_accounts@[current_index + 3]@);
            assert(keys[current_index + 2] == remaining_accounts@[current_index + 2]@);
        }
        let (token2_mint_index, token2_program_index, token2_mint_token_account_index) = if is_3hop {
            (Some(current_index + 4), Some(current_index + 5), Some(current_index + 6))
        } else {
            (None, None, None)
        };
        let mut pools: Vec<PoolData> = Vec::with_capacity(6);
        current_index += if is_3hop {
            7
        } else {
            3
        };
        let ghost pools_start = current_index as nat;
        proof {
            lemma_parse_pools_end(keys, pools_start);
        }
        loop
            invariant_except_break
                len == remaining_accounts.len(),
                len + 16 <= usize::MAX,
                keys == key_seqs(remaining_accounts@),
                current_index <= len + 7,
                pools_start <= current_index,
                spec_parse_pools(keys, pools_start).0 =~= pools@.add(spec_parse_pools(keys, current_index as nat).0),
                spec_parse_pools(keys, pools_start).1 == spec_parse_pools(keys, current_index as nat).1,
                pools.len() > 0 ==> current_index <= len,
            ensures
                len == remaining_accounts.len(),
                current_index <= len + 7,
                spec_parse_pools(keys, pools_start).0 =~= pools@,
                spec_parse_pools(keys, pools_start).1 == current_index,
            decreases len + 8 - current_index,
        {
            if current_index >= len {
                break;
            }
            let pool_program_id = &remaining_accounts[current_index];
            proof {
                assert(keys[current_index as int] == pool_program_id@);
            }
            let ghost at = current_index as nat;
            match get_pool_type(*pool_program_id) {
                Ok(pool_type) => match pool_type {
                    Some(PoolType::CPMM) => {
                        if current_index + CPMM_ACCOUNT_COUNT <= len {
                            pools.push(PoolData::CPMM {
                                program_id_index: current_index,
                                authority_index: current_index + 1,
                                config_index: current_index + 2,
                                observation_state_index: current_index + 3,
                                pool_index: current_index + 4,
                                token0_vault_index: current_index + 5,
                                token1_vault_index: current_index + 6,
                            });
                            current_index += CPMM_ACCOUNT_COUNT;
                        } else {
                            break;
                        }
                    },
                    Some(PoolType::DLMM) => {
                        if current_index + DLMM_ACCOUNT_COUNT <= len {
                            pools.push(PoolData::DLMM {
                                program_id_index: current_index,
                                event_authority_index: current_index + 1,
                                oracle_index: current_index + 2,
                                pool_index: current_index + 3,
                                reserve_x_index: current_index + 4,
                                reserve_y_index: current_index + 5,
                                bin_array_minus_1_index: current_index + 6,
                                bin_array_0_index: current_index + 7,
                                bin_array_1_index: current_index + 8,
                            });
                            current_index += DLMM_ACCOUNT_COUNT;
                        } else {
                            break;
                        }
                    },
                    Some(PoolType::DAMMV2) => {
                        if current_index + DAMMV2_ACCOUNT_COUNT <= len {
                            pools.push(PoolData::DAMMV2 {
                                program_id_index: current_index,
                                event_authority_index: current_index + 1,
                                pool_authority_index: current_index + 2,
                                pool_index: current_index + 3,
                                token_a_vault_index: current_index + 4,
                                token_b_vault_index: current_index + 5,
                            });
                            current_index += DAMMV2_ACCOUNT_COUNT;
                        } else {
                            break;
                        }
                    },
                    Some(PoolType::PUMP) => {
                        if current_index + PUMP_ACCOUNT_COUNT <= len {
                            pools.push(PoolData::PUMP {
                                program_id_index: current_index,
                                pool_index: current_index + 1,
                                global_config_index: current_index + 2,
                                event_authority_index: current_index + 3,
                                coin_creator_vault_ata_index: current_index + 4,
                                coin_creator_vault_authority_index: current_index + 5,
                                pump_fee_wallet_index: current_index + 6,
                                pump_fee_wallet_ata_index: current_index + 7,
                                global_vol_accumulator_index: current_index + 8,
                                user_vol_accumulator_index: current_index + 9,
                                system_program_index: current_index + 10,
                                associated_token_program_index: current_index + 11,
                                base_vault_index: current_index + 12,
                                quote_vault_index: current_index + 13,
                                fee_config_index: current_index + 14,
                                fee_program_index: current_index + 15,
                            });
                            current_index += PUMP_ACCOUNT_COUNT;
                        } else {
                            break;
                        }
                    },
                    Some(PoolType::RAYDIUM) => {
                        if current_index + RAYDIUM_ACCOUNT_COUNT <= len {
                            pools.push(PoolData::RAYDIUM {
                                program_id_index: current_index,
                                event_authority_index: current_index + 1,
                                pool_index: current_index + 2,
                                base_vault_index: current_index + 3,
                                quote_vault_index: current_index + 4,
                            });
                            current_index += RAYDIUM_ACCOUNT_COUNT;
                        } else {
                            break;
                        }
                    },
                    Some(PoolType::CLMM) => {
                        if current_index + CLMM_ACCOUNT_COUNT <= len {
                            pools.push(PoolData::CLMM {
                                program_id_index: current_index,
                                pool_index: current_index + 1,
                                amm_config_index: current_index + 2,
                                observation_key_index: current_index + 3,
                                bitmap_extension_index: current_index + 4,
                                token_vault_0_index: current_index + 5,
                                token_vault_1_index: current_index + 6,
                                tick_array_minus_1_index: current_index + 7,
                                tick_array_0_index: current_index + 8,
                                tick_array_1_index: current_index + 9,
                            });
                            current_index += CLMM_ACCOUNT_COUNT;
                        } else {
                            break;
                        }
                    },
                    Some(PoolType::WHIRLPOOL) => {
                        if current_index + WHIRLPOOL_ACCOUNT_COUNT <= len {
                            pools.push(PoolData::WHIRLPOOL {
                                program_id_index: current_index,
                                pool_index: current_index + 1,
                                oracle_index: current_index + 2,
                                vault_a_index: current_index + 3,
                                vault_b_index: current_index + 4,
                                tick_array_0_index: current_index + 5,
                                tick_array_1_index: current_index + 6,
                                tick_array_2_index: current_index + 7,
                            });
                            current_index += WHIRLPOOL_ACCOUNT_COUNT;
                        } else {
                            break;
                        }
                    },
                    None => {
                        break;
                    },
                },
                Err(_) => {
                    break;
                },
            }
            proof {
                lemma_parse_pools_end(keys, current_index as nat);
            }
        }
        proof {
            lemma_parse_pools_end(keys, pools_start);
        }
        let ghost group_len = token_groups.len();
        if pools.len() > 0 {
            token_groups.push(
                TokenPoolGroup {
                    token_mint_index,
                    token_program_index,
                    mint_token_account_index,
                    pools,
                    is_3hop,
                    token2_mint_index,
                    token2_program_index,
                    token2_mint_token_account_index,
                },
            );
        }
        proof {
            let g = spec_group_at(keys, start_index);
            assert(g.1 == current_index);
            reveal_with_fuel(spec_parse_groups, 2);
        }
    }
    Ok(token_groups)
}

} // verus!
