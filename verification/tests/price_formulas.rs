use amm_price_monitor::price::bin_step_price;
use amm_price_monitor::price::bin_step_price_checked;
use amm_price_monitor::price::change_percent_scaled;
use amm_price_monitor::price::reserve_ratio_price;
use amm_price_monitor::price::reserve_ratio_price_checked;
use amm_price_monitor::price::sqrt_price_scaled;
use amm_price_monitor::price::sqrt_price_scaled_checked;
use amm_price_monitor::price::PRICE_SCALE;

#[test]
fn reserve_ratio_exact_value() {
    // 2 SOL (9 decimals) against 300 USDC (6 decimals): 150 quote per base.
    let price = reserve_ratio_price(2_000_000_000, 300_000_000, 9, 6);
    assert_eq!(price, 150 * PRICE_SCALE);
}

#[test]
fn reserve_ratio_zero_base_is_zero() {
    assert_eq!(reserve_ratio_price(0, 300_000_000, 9, 6), 0);
    assert_eq!(reserve_ratio_price_checked(0, 300_000_000, 9, 6), Some(0));
}

#[test]
fn reserve_ratio_zero_quote_is_zero() {
    assert_eq!(reserve_ratio_price(2_000_000_000, 0, 9, 6), 0);
}

#[test]
fn reserve_ratio_scale_invariant_example() {
    let once = reserve_ratio_price(1_234_567_890, 987_654_321, 9, 6);
    let doubled = reserve_ratio_price(2 * 1_234_567_890, 2 * 987_654_321, 9, 6);
    assert_eq!(once, doubled);
}

#[test]
fn reserve_ratio_checked_overflow_is_none() {
    assert_eq!(reserve_ratio_price_checked(1, u64::MAX, 30, 0), None);
}

#[test]
fn sqrt_price_unit_ratio_equal_decimals() {
    // sqrt_price of exactly 2^64 is a ratio of one; equal decimals keep it.
    let price = sqrt_price_scaled(1u128 << 64, 6, 6);
    assert_eq!(price, PRICE_SCALE);
}

#[test]
fn sqrt_price_half_ratio_squares() {
    // sqrt_price of 2^63 is a square-root ratio of one half: price one quarter.
    let price = sqrt_price_scaled(1u128 << 63, 6, 6);
    assert_eq!(price, PRICE_SCALE / 4);
}

#[test]
fn sqrt_price_decimal_adjustment() {
    // A ratio of one with 6 base decimals and 9 quote decimals scales by 10^3.
    let price = sqrt_price_scaled(1u128 << 64, 6, 9);
    assert_eq!(price, 1000 * PRICE_SCALE);
}

#[test]
fn sqrt_price_above_unit_ratio() {
    // A square-root price of 2^80 is a ratio of 2^32; equal decimals keep it.
    let price = sqrt_price_scaled(1u128 << 80, 6, 6);
    assert_eq!(price, (1u128 << 32) * PRICE_SCALE);
    // One above 2^64 rounds back down to exactly one.
    assert_eq!(sqrt_price_scaled((1u128 << 64) + 1, 6, 6), PRICE_SCALE);
}

#[test]
fn sqrt_price_checked_rejects_out_of_range() {
    assert_eq!(sqrt_price_scaled_checked(1u128 << 96, 6, 6), None);
    assert_eq!(sqrt_price_scaled_checked(1u128 << 64, 6, 30), None);
    assert_eq!(
        sqrt_price_scaled_checked((1u128 << 96) - 1, 6, 6),
        Some(sqrt_price_scaled((1u128 << 96) - 1, 6, 6))
    );
    assert_eq!(
        sqrt_price_scaled_checked(1u128 << 64, 6, 9),
        Some(1000 * PRICE_SCALE)
    );
}

#[test]
fn bin_step_zero_step_is_scale_constant() {
    let scale = 1000 * PRICE_SCALE;
    assert_eq!(bin_step_price(0, 0, scale), scale);
    assert_eq!(bin_step_price(5, 0, scale), scale);
    assert_eq!(bin_step_price(-5, 0, scale), scale);
    // The multiplier is exactly one for every bin, however far out.
    assert_eq!(bin_step_price(i32::MAX, 0, scale), scale);
    assert_eq!(bin_step_price_checked(100, 0, scale), Some(scale));
    assert_eq!(bin_step_price_checked(-1_000_000, 0, scale), Some(scale));
}

#[test]
fn bin_step_exact_positive_bin() {
    // One bin up at 100 basis points: scale * 10100 / 10000.
    let scale = 1000 * PRICE_SCALE;
    assert_eq!(bin_step_price(1, 100, scale), 1_010_000_000_000);
    // Two bins up at 10 basis points: scale * 10010^2 / 10000^2.
    assert_eq!(bin_step_price(2, 10, scale), 1_002_001_000_000);
}

#[test]
fn bin_step_exact_negative_bin() {
    // One bin down at 100 basis points: floor(scale * 10000 / 10100).
    let scale = 1000 * PRICE_SCALE;
    assert_eq!(bin_step_price(-1, 100, scale), 990_099_009_900);
}

#[test]
fn bin_step_monotonic_example() {
    let scale = 1000 * PRICE_SCALE;
    let below = bin_step_price(-2, 25, scale);
    let at = bin_step_price(-1, 25, scale);
    let base = bin_step_price(0, 25, scale);
    let above = bin_step_price(1, 25, scale);
    assert!(below < at && at < base && base < above);
}

#[test]
fn bin_step_realistic_negative_bin() {
    // A deep negative bin at 10 basis points, as a live discretized-bin pool
    // sits: (1.001)^-1963 * 1000, scaled. The walk loses less than one
    // output unit per step, so the value sits a hair under 140.56 * 10^9
    // times the venue constant of 1000.
    let scale = 1000 * PRICE_SCALE;
    let price = bin_step_price_checked(-1963, 10, scale).unwrap();
    assert!(139_000_000_000 < price && price < 142_000_000_000);
}

#[test]
fn bin_step_checked_overflow_is_none() {
    let scale = 1000 * PRICE_SCALE;
    // Doubling per bin outgrows 128 bits long before bin 200.
    assert_eq!(bin_step_price_checked(200, 10_000, scale), None);
    // A first shrinking step already overflows on a near-maximal constant.
    assert_eq!(bin_step_price_checked(-1, 10, u128::MAX), None);
    assert_eq!(bin_step_price_checked(0, 10_000, scale), Some(scale));
}

#[test]
fn change_percent_first_tick_is_zero() {
    assert_eq!(change_percent_scaled(None, 12345), 0);
}

#[test]
fn change_percent_hundred_to_hundred_ten_is_ten() {
    let prev = 100 * PRICE_SCALE;
    let cur = 110 * PRICE_SCALE;
    assert_eq!(change_percent_scaled(Some(prev), cur), (10 * PRICE_SCALE) as i128);
}

#[test]
fn change_percent_downward_is_negative() {
    let prev = 110 * PRICE_SCALE;
    let cur = 100 * PRICE_SCALE;
    // floor(10 * 100 / 110 scaled): -9.090909090...
    assert_eq!(change_percent_scaled(Some(prev), cur), -9_090_909_090i128);
}

#[test]
fn change_percent_zero_baseline_is_zero() {
    assert_eq!(change_percent_scaled(Some(0), 55), 0);
}

#[test]
fn change_percent_sub_resolution_move_keeps_its_sign() {
    // A move below one part in 10^11 still reports the smallest scaled unit
    // with the right sign: zero is reserved for exactly equal prices.
    let prev = 1000 * PRICE_SCALE;
    assert_eq!(change_percent_scaled(Some(prev), prev + 1), 1);
    assert_eq!(change_percent_scaled(Some(prev), prev - 1), -1);
}

#[test]
fn change_percent_equal_prices_is_zero() {
    let p = 150 * PRICE_SCALE;
    assert_eq!(change_percent_scaled(Some(p), p), 0);
}
