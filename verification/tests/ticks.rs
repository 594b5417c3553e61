use second_anchor::clmm_math::get_sqrt_price_at_tick;
use second_anchor::errors::ErrorCode;
use second_anchor::whirlpool_math::{sqrt_price_from_tick_index, tick_index_from_sqrt_price};

const MAX_TICK: i32 = 443636;

#[test]
fn clmm_price_grows_with_the_tick() {
    let mut t = -MAX_TICK;
    while t < MAX_TICK {
        let a = get_sqrt_price_at_tick(t).unwrap();
        let b = get_sqrt_price_at_tick(t + 1).unwrap();
        assert!(a < b, "tick {}", t);
        t += 11;
    }
    assert_eq!(get_sqrt_price_at_tick(MAX_TICK + 1), Err(ErrorCode::InvalidTickIndex));
    assert_eq!(get_sqrt_price_at_tick(-MAX_TICK - 1), Err(ErrorCode::InvalidTickIndex));
}

#[test]
fn whirlpool_price_grows_and_inverts() {
    let mut t = -MAX_TICK;
    while t < MAX_TICK {
        let p = sqrt_price_from_tick_index(t);
        let q = sqrt_price_from_tick_index(t + 1);
        assert!(p < q, "tick {}", t);
        assert_eq!(tick_index_from_sqrt_price(p), t);
        assert_eq!(tick_index_from_sqrt_price(q - 1), t);
        t += 11;
    }
    assert_eq!(tick_index_from_sqrt_price(sqrt_price_from_tick_index(MAX_TICK)), MAX_TICK);
}
