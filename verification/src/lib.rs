//! Pricing, quoting and arbitrage-routing logic for a multi-DEX Solana
//! arbitrage program, with the integer math it rests on.

pub mod bit_facts;
pub mod bytes;
pub mod errors;
pub mod u256_muldiv;
pub mod u256_proofs;
pub mod sqrt_price_math;
pub mod pools;
pub mod token_fee;
pub mod cpmm;
pub mod u64x64_math;
pub mod raydium;
pub mod pump;
pub mod wide;
pub mod q64_math;
pub mod dammv2;
pub mod dlmm;
pub mod clmm_math;
pub mod clmm;
pub mod bitmap;
pub mod whirlpool_math;
pub mod whirlpool;
pub mod comparison;
pub mod optimalamt;
pub mod params;
pub mod entry;
pub mod swap_plan;
