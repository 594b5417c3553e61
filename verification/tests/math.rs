use second_anchor::clmm_math::{
    get_delta_amount_0_unsigned, get_delta_amount_1_unsigned, get_sqrt_price_at_tick, get_tick_at_sqrt_price,
};
use second_anchor::q64_math::{bps_to_q64, integer_sqrt_u128, q64_div, q64_mul, safe_mul_div_cast};
use second_anchor::sqrt_price_math::{get_amount_delta_a, get_amount_delta_b, get_next_sqrt_price};
use second_anchor::u256_muldiv::U256Muldiv;
use second_anchor::u64x64_math::ceil_div;
use second_anchor::whirlpool_math::{
    ceil_division_u32, floor_division, sqrt_price_from_tick_index, tick_index_from_sqrt_price,
};
use second_anchor::errors::ErrorCode;
use second_anchor::{clmm_math, whirlpool_math};
use second_anchor::wide::Rounding;

const Q64: u128 = 1u128 << 64;

fn words(v: &U256Muldiv) -> [u64; 4] {
    [v.get_word(0), v.get_word(1), v.get_word(2), v.get_word(3)]
}

#[test]
fn bps_to_q64_of_one_percent() {
    assert_eq!(bps_to_q64(10_000), Q64 / 100);
}

#[test]
fn q64_mul_and_div() {
    assert_eq!(q64_mul(3 * Q64, Q64 / 2), 3 * Q64 / 2);
    assert_eq!(q64_div(3 * Q64, 2 * Q64), 3 * Q64 / 2);
    assert_eq!(q64_div(1, 0), 0);
}

#[test]
fn safe_mul_div_uses_wide_products() {
    assert_eq!(safe_mul_div_cast(u128::MAX, u128::MAX, u128::MAX, Rounding::Down), u128::MAX);
    assert_eq!(safe_mul_div_cast(7, 1, 2, Rounding::Up), 4);
    assert_eq!(safe_mul_div_cast(7, 1, 2, Rounding::Down), 3);
    assert_eq!(safe_mul_div_cast(1, 1, 0, Rounding::Down), 0);
}

#[test]
fn integer_square_roots() {
    assert_eq!(integer_sqrt_u128(0), 0);
    assert_eq!(integer_sqrt_u128(10), 3);
    assert_eq!(integer_sqrt_u128(Q64), 1u128 << 32);
    assert_eq!(integer_sqrt_u128(u128::MAX), u64::MAX as u128);
}

#[test]
fn ceil_div_rounds_up() {
    assert_eq!(ceil_div(7, 2), 4);
    assert_eq!(ceil_div(8, 2), 4);
}

#[test]
fn u256_add_carries() {
    let a = U256Muldiv::new(0, u128::MAX);
    let b = U256Muldiv::new(0, 1);
    assert_eq!(words(&a.add(b)), [0, 0, 1, 0]);
}

#[test]
fn u256_sub_borrows() {
    let a = U256Muldiv::new(1, 0);
    let b = U256Muldiv::new(0, 1);
    assert_eq!(words(&a.sub(b)), [u64::MAX, u64::MAX, 0, 0]);
}

#[test]
fn u256_mul_and_div() {
    let a = U256Muldiv::new(0, Q64);
    let p = a.mul(a);
    assert_eq!(words(&p), [0, 0, 1, 0]);
    let (q, r) = p.div(U256Muldiv::new(0, 3), true);
    assert_eq!(words(&r), [1, 0, 0, 0]);
    assert_eq!(words(&q.mul(U256Muldiv::new(0, 3)).add(r)), [0, 0, 1, 0]);
}

#[test]
fn u256_shifts() {
    let one = U256Muldiv::new(0, 1);
    let s = one.shift_left(130);
    assert_eq!(words(&s), [0, 0, 4, 0]);
    assert_eq!(words(&s.shift_right(130)), [1, 0, 0, 0]);
    assert_eq!(words(&one.shift_left(256)), [0, 0, 0, 0]);
}

#[test]
fn u256_compare_and_narrow() {
    let small = U256Muldiv::new(0, 5);
    let big = U256Muldiv::new(1, 0);
    assert!(small.lt(big));
    assert!(big.gt(small));
    assert!(small.lte(small));
    assert!(small.eq(U256Muldiv::new(0, 5)));
    assert_eq!(small.try_into_u128(), Ok(5));
    assert!(big.try_into_u128().is_err());
    assert!(U256Muldiv::new(0, 0).is_zero());
}

#[test]
fn u256_add_inverse_wraps_to_zero() {
    let a = U256Muldiv::new(0, 1);
    let inv = a.get_add_inverse();
    assert_eq!(words(&inv), [u64::MAX; 4]);
    assert_eq!(words(&a.add(inv)), [0, 0, 0, 0]);
}

#[test]
fn u256_law_add_then_sub() {
    let a = U256Muldiv::new(0, 5);
    let b = U256Muldiv::new(u128::MAX, u128::MAX);
    assert_eq!(words(&a.add(b).sub(b)), words(&a));
}

#[test]
fn u256_law_mul_then_div() {
    let a = U256Muldiv::new(3, 77);
    let b = U256Muldiv::new(0, 1_000_003);
    let (q, _) = a.mul(b).div(b, false);
    assert_eq!(words(&q), words(&a));
}

#[test]
fn u256_law_shift_round_trip() {
    let a = U256Muldiv::new(0, 0xdead_beef);
    assert_eq!(words(&a.shift_left(100).shift_right(100)), words(&a));
}

#[test]
fn whirlpool_amount_deltas() {
    assert_eq!(get_amount_delta_a(Q64, 2 * Q64, 1_000_000, true), Ok(500_000));
    assert_eq!(get_amount_delta_b(Q64, 2 * Q64, 1_000_000, false), Ok(1_000_000));
    assert_eq!(get_amount_delta_b(2 * Q64, Q64, 1_000_000, true), Ok(1_000_000));
}

#[test]
fn whirlpool_next_sqrt_prices() {
    assert_eq!(get_next_sqrt_price(Q64, 1_000_000, 500_000, true, true), Ok(12297829382473034411));
    assert_eq!(get_next_sqrt_price(Q64, 1_000_000, 500_000, true, false), Ok(27670116110564327424));
}

#[test]
fn whirlpool_tick_prices_at_the_ends() {
    assert_eq!(sqrt_price_from_tick_index(0), Q64);
    assert_eq!(sqrt_price_from_tick_index(443636), 79226673515401279992447579055);
    assert_eq!(sqrt_price_from_tick_index(-443636), 4295048016);
    assert_eq!(tick_index_from_sqrt_price(Q64), 0);
    assert_eq!(tick_index_from_sqrt_price(4295048016), -443636);
    assert_eq!(tick_index_from_sqrt_price(79226673515401279992447579055), 443636);
}

#[test]
fn whirlpool_tick_of_a_tick_price() {
    let p = sqrt_price_from_tick_index(1000);
    assert_eq!(tick_index_from_sqrt_price(p), 1000);
    let q = sqrt_price_from_tick_index(-1000);
    assert_eq!(tick_index_from_sqrt_price(q), -1000);
    assert_eq!(tick_index_from_sqrt_price(q + 1), -1000);
}

#[test]
fn whirlpool_divisions() {
    assert_eq!(floor_division(-7, 2), -4);
    assert_eq!(floor_division(7, 2), 3);
    assert_eq!(floor_division(-8, 2), -4);
    assert_eq!(ceil_division_u32(7, 2), 4);
    assert_eq!(ceil_division_u32(8, 2), 4);
}

#[test]
fn clmm_tick_prices_at_the_ends() {
    assert_eq!(get_sqrt_price_at_tick(0), Ok(Q64));
    assert_eq!(get_sqrt_price_at_tick(443636), Ok(79226673521066979257578248091));
    assert_eq!(get_sqrt_price_at_tick(-443636), Ok(4295048016));
    assert_eq!(get_tick_at_sqrt_price(4295048016), Ok(-443636));
    assert_eq!(get_tick_at_sqrt_price(Q64), Ok(0));
}

#[test]
fn clmm_amount_deltas() {
    assert_eq!(get_delta_amount_0_unsigned(Q64, 2 * Q64, 1_000_000, true), Ok(500_000));
    assert_eq!(get_delta_amount_1_unsigned(Q64, 2 * Q64, 1_000_000, false), Ok(1_000_000));
}

#[test]
fn u256_division_by_zero_gives_zero() {
    let a = U256Muldiv::new(7, 9);
    let (q, r) = a.div(U256Muldiv::new(0, 0), true);
    assert_eq!(words(&q), [0, 0, 0, 0]);
    assert_eq!(words(&r), [0, 0, 0, 0]);
}

#[test]
fn whirlpool_zero_price_steps() {
    // Adding token A at a zero price and no liquidity gives no valid price.
    assert_eq!(get_next_sqrt_price(0, 0, 5, true, true), Err(ErrorCode::InvalidSqrtPrice));
    // A zero lower price gives no token A amount.
    assert_eq!(get_amount_delta_a(0, Q64, 1, true), Ok(0));
}

#[test]
fn whirlpool_delta_a_order_and_rounding() {
    let down = get_amount_delta_a(Q64, 3 * Q64, 1_000_001, false).unwrap();
    let up = get_amount_delta_a(Q64, 3 * Q64, 1_000_001, true).unwrap();
    assert_eq!(down, 666_667);
    assert_eq!(up, 666_668);
    assert_eq!(get_amount_delta_a(3 * Q64, Q64, 1_000_001, false), Ok(down));
    assert_eq!(get_amount_delta_a(3 * Q64, Q64, 1_000_001, true), Ok(up));
    let down_b = get_amount_delta_b(Q64, 3 * Q64 + 1, 7, false).unwrap();
    let up_b = get_amount_delta_b(3 * Q64 + 1, Q64, 7, true).unwrap();
    assert_eq!((down_b, up_b), (14, 15));
}

#[test]
fn whirlpool_next_price_moves_the_swap_way() {
    for amount in [1u64, 1_000, 500_000, 10_000_000] {
        for is_input in [true, false] {
            if let Ok(p) = get_next_sqrt_price(Q64, 1_000_000_000, amount, is_input, true) {
                assert!(p <= Q64);
            }
            if let Ok(p) = get_next_sqrt_price(Q64, 1_000_000_000, amount, is_input, false) {
                assert!(p >= Q64);
            }
        }
    }
}

#[test]
fn swap_steps_stay_within_input_and_range() {
    for amount in [10u64, 1_000, 100_000, 10_000_000] {
        // Token A in, the price moving down towards half of it.
        let s = whirlpool_math::compute_swap_step(amount, 3_000, 1_000_000_000, Q64, Q64 / 2, true).unwrap();
        assert!(s.amount_in + s.fee_amount <= amount);
        assert!(Q64 / 2 <= s.next_price && s.next_price <= Q64);
        // Token B in, the price moving up towards twice it.
        let s = whirlpool_math::compute_swap_step(amount, 3_000, 1_000_000_000, Q64, 2 * Q64, false).unwrap();
        assert!(s.amount_in + s.fee_amount <= amount);
        assert!(Q64 <= s.next_price && s.next_price <= 2 * Q64);
        let c = clmm_math::compute_swap_step(Q64, Q64 / 2, 1_000_000_000, amount, 2_500, true, true).unwrap();
        assert!(c.amount_in + c.fee_amount <= amount);
        assert!(Q64 / 2 <= c.sqrt_price_next_x64 && c.sqrt_price_next_x64 <= Q64);
        let c = clmm_math::compute_swap_step(Q64, 2 * Q64, 1_000_000_000, amount, 2_500, true, false).unwrap();
        assert!(c.amount_in + c.fee_amount <= amount);
        assert!(Q64 <= c.sqrt_price_next_x64 && c.sqrt_price_next_x64 <= 2 * Q64);
    }
    // A small range is crossed whole, its fee on top.
    let s = whirlpool_math::compute_swap_step(10_000_000, 3_000, 1_000, Q64, Q64 - 1_000_000, true).unwrap();
    assert_eq!(s.next_price, Q64 - 1_000_000);
    assert!(s.amount_in + s.fee_amount <= 10_000_000);
}
