//! Price derivation: three exact fixed-point formulas, one per venue family.
//!
//! A derived price is an integer scaled by `PRICE_SCALE`: the stored value is
//! the floor of the mathematical price times `PRICE_SCALE`. Percent changes
//! use the same scale.

use vstd::prelude::*;
use vstd::arithmetic::power::pow;
use vstd::arithmetic::power::lemma_pow0;
use vstd::arithmetic::power::lemma_pow1;
use vstd::arithmetic::power::lemma_pow_adds;
use vstd::arithmetic::power::lemma_pow_positive;
use vstd::arithmetic::power2::pow2;
use vstd::arithmetic::power2::lemma_pow2_adds;
use vstd::arithmetic::div_mod::lemma_div_denominator;
use vstd::arithmetic::div_mod::lemma_div_multiples_vanish;
use vstd::arithmetic::div_mod::lemma_hoist_over_denominator;
use vstd::arithmetic::div_mod::lemma_fundamental_div_mod;

verus! {

/// Fixed-point scale of prices and percent changes: nine fractional decimal digits.
pub const PRICE_SCALE: u128 = 1_000_000_000;

/// Factor applied to a relative change to express it in scaled percent.
pub const CHANGE_FACTOR: u128 = 100 * PRICE_SCALE;

/// Basis-point denominator of the exponential bin-step formula.
pub const BIN_STEP_BASIS: u128 = 10_000;

pub open spec fn pow10(e: nat) -> nat
    decreases e,
{
    if e == 0 {
        1
    } else {
        10 * pow10((e - 1) as nat)
    }
}

pub proof fn lemma_pow10_pos(e: nat)
    ensures
        pow10(e) >= 1,
    decreases e,
{
    if e > 0 {
        lemma_pow10_pos((e - 1) as nat);
    }
}

pub proof fn lemma_pow10_increases(e1: nat, e2: nat)
    requires
        e1 <= e2,
    ensures
        pow10(e1) <= pow10(e2),
    decreases e2,
{
    if e1 < e2 {
        lemma_pow10_increases(e1, (e2 - 1) as nat);
        lemma_pow10_pos((e2 - 1) as nat);
    }
}

/// Ten to the power `e`, exact.
pub fn pow10_u128(e: u8) -> (r: u128)
    requires
        pow10(e as nat) <= u128::MAX,
    ensures
        r == pow10(e as nat),
{
    let mut i: u8 = 0;
    let mut acc: u128 = 1;
    while i < e
        invariant
            i <= e,
            acc == pow10(i as nat),
            pow10(e as nat) <= u128::MAX,
        decreases e - i,
    {
        proof {
            lemma_pow10_increases((i + 1) as nat, e as nat);
        }
        acc = acc * 10;
        i = i + 1;
    }
    acc
}

/// Ten to the power `e`, or `None` where the result exceeds `u128`.
pub fn pow10_checked(e: u8) -> (r: Option<u128>)
    ensures
        match r {
            Some(v) => v == pow10(e as nat),
            None => pow10(e as nat) > u128::MAX,
        },
{
    let mut i: u8 = 0;
    let mut acc: u128 = 1;
    while i < e
        invariant
            i <= e,
            acc == pow10(i as nat),
        decreases e - i,
    {
        match acc.checked_mul(10) {
            Some(next) => {
                acc = next;
            },
            None => {
                proof {
                    lemma_pow10_increases((i + 1) as nat, e as nat);
                }
                return None;
            },
        }
        i = i + 1;
    }
    Some(acc)
}

/// The reserve-ratio formula of constant-product venues, as an exact integer:
/// the floor of `(quote / 10^quote_decimals) / (base / 10^base_decimals)`
/// times `PRICE_SCALE`, and `0` as the defined fallback when `base == 0`.
pub open spec fn reserve_ratio_spec(
    base_reserve: nat,
    quote_reserve: nat,
    base_decimals: nat,
    quote_decimals: nat,
) -> int {
    if base_reserve == 0 {
        0
    } else {
        (quote_reserve * pow10(base_decimals) * PRICE_SCALE) as int / (base_reserve * pow10(
            quote_decimals,
        )) as int
    }
}

/// Reserve-ratio price. A zero base reserve yields `0` by policy, never an
/// error; callers that must distinguish "no liquidity" from a true zero price
/// check the reserves themselves.
pub fn reserve_ratio_price(
    base_reserve: u64,
    quote_reserve: u64,
    base_decimals: u8,
    quote_decimals: u8,
) -> (r: u128)
    requires
        quote_reserve * pow10(base_decimals as nat) * PRICE_SCALE <= u128::MAX,
        base_reserve * pow10(quote_decimals as nat) <= u128::MAX,
    ensures
        r == reserve_ratio_spec(
            base_reserve as nat,
            quote_reserve as nat,
            base_decimals as nat,
            quote_decimals as nat,
        ),
{
    if base_reserve == 0 {
        return 0;
    }
    if quote_reserve == 0 {
        proof {
            lemma_pow10_pos(base_decimals as nat);
            lemma_pow10_pos(quote_decimals as nat);
            assert(base_reserve * pow10(quote_decimals as nat) > 0) by (nonlinear_arith)
                requires
                    base_reserve >= 1,
                    pow10(quote_decimals as nat) >= 1,
            ;
        }
        return 0;
    }
    proof {
        lemma_pow10_pos(base_decimals as nat);
        lemma_pow10_pos(quote_decimals as nat);
        assert(pow10(base_decimals as nat) <= quote_reserve * pow10(base_decimals as nat)
            * PRICE_SCALE) by (nonlinear_arith)
            requires
                quote_reserve >= 1,
                pow10(base_decimals as nat) >= 1,
                PRICE_SCALE >= 1,
        ;
        assert(pow10(quote_decimals as nat) <= base_reserve * pow10(quote_decimals as nat))
            by (nonlinear_arith)
            requires
                base_reserve >= 1,
                pow10(quote_decimals as nat) >= 1,
        ;
        assert(quote_reserve * pow10(base_decimals as nat) <= quote_reserve * pow10(
            base_decimals as nat,
        ) * PRICE_SCALE) by (nonlinear_arith)
            requires
                quote_reserve >= 1,
                pow10(base_decimals as nat) >= 1,
                PRICE_SCALE >= 1,
        ;
        assert(base_reserve * pow10(quote_decimals as nat) > 0) by (nonlinear_arith)
            requires
                base_reserve >= 1,
                pow10(quote_decimals as nat) >= 1,
        ;
    }
    let scale_base = pow10_u128(base_decimals);
    let scale_quote = pow10_u128(quote_decimals);
    let numerator = (quote_reserve as u128) * scale_base * PRICE_SCALE;
    let denominator = (base_reserve as u128) * scale_quote;
    numerator / denominator
}

/// Whether the reserve-ratio derivation is exact in 128 bits for these inputs.
pub open spec fn reserve_ratio_in_range(
    base_reserve: nat,
    quote_reserve: nat,
    base_decimals: nat,
    quote_decimals: nat,
) -> bool {
    base_reserve == 0 || quote_reserve == 0 || (quote_reserve * pow10(base_decimals) * PRICE_SCALE
        <= u128::MAX && base_reserve * pow10(quote_decimals) <= u128::MAX)
}

/// Reserve-ratio price for any input: `None` exactly where the scaled
/// numerator or denominator exceeds `u128`.
pub fn reserve_ratio_price_checked(
    base_reserve: u64,
    quote_reserve: u64,
    base_decimals: u8,
    quote_decimals: u8,
) -> (r: Option<u128>)
    ensures
        match r {
            Some(v) => reserve_ratio_in_range(
                base_reserve as nat,
                quote_reserve as nat,
                base_decimals as nat,
                quote_decimals as nat,
            ) && v == reserve_ratio_spec(
                base_reserve as nat,
                quote_reserve as nat,
                base_decimals as nat,
                quote_decimals as nat,
            ),
            None => !reserve_ratio_in_range(
                base_reserve as nat,
                quote_reserve as nat,
                base_decimals as nat,
                quote_decimals as nat,
            ),
        },
{
    if base_reserve == 0 {
        return Some(0);
    }
    if quote_reserve == 0 {
        proof {
            lemma_pow10_pos(base_decimals as nat);
            lemma_pow10_pos(quote_decimals as nat);
            assert(base_reserve * pow10(quote_decimals as nat) > 0) by (nonlinear_arith)
                requires
                    base_reserve >= 1,
                    pow10(quote_decimals as nat) >= 1,
            ;
        }
        return Some(0);
    }
    proof {
        lemma_pow10_pos(base_decimals as nat);
        lemma_pow10_pos(quote_decimals as nat);
    }
    let scale_base = match pow10_checked(base_decimals) {
        Some(v) => v,
        None => {
            proof {
                assert(quote_reserve * pow10(base_decimals as nat) * PRICE_SCALE >= pow10(
                    base_decimals as nat,
                )) by (nonlinear_arith)
                    requires
                        quote_reserve >= 1,
                        pow10(base_decimals as nat) >= 1,
                        PRICE_SCALE >= 1,
                ;
            }
            return None;
        },
    };
    let scale_quote = match pow10_checked(quote_decimals) {
        Some(v) => v,
        None => {
            proof {
                assert(base_reserve * pow10(quote_decimals as nat) >= pow10(quote_decimals as nat))
                    by (nonlinear_arith)
                    requires
                        base_reserve >= 1,
                        pow10(quote_decimals as nat) >= 1,
                ;
            }
            return None;
        },
    };
    let numerator = match (quote_reserve as u128).checked_mul(scale_base) {
        Some(v) => match v.checked_mul(PRICE_SCALE) {
            Some(w) => w,
            None => {
                return None;
            },
        },
        None => {
            proof {
                assert(quote_reserve * pow10(base_decimals as nat) * PRICE_SCALE >= quote_reserve
                    * pow10(base_decimals as nat)) by (nonlinear_arith)
                    requires
                        quote_reserve >= 1,
                        pow10(base_decimals as nat) >= 1,
                        PRICE_SCALE >= 1,
                ;
            }
            return None;
        },
    };
    let denominator = match (base_reserve as u128).checked_mul(scale_quote) {
        Some(v) => v,
        None => {
            return None;
        },
    };
    proof {
        assert(base_reserve * pow10(quote_decimals as nat) > 0) by (nonlinear_arith)
            requires
                base_reserve >= 1,
                pow10(quote_decimals as nat) >= 1,
        ;
    }
    Some(numerator / denominator)
}

/// Doubling both reserves leaves the reserve-ratio price unchanged whenever
/// the base reserve is non-zero: the formula is scale-invariant.
pub proof fn lemma_reserve_ratio_scale_invariant(
    base_reserve: nat,
    quote_reserve: nat,
    base_decimals: nat,
    quote_decimals: nat,
)
    requires
        base_reserve > 0,
    ensures
        reserve_ratio_spec(2 * base_reserve, 2 * quote_reserve, base_decimals, quote_decimals)
            == reserve_ratio_spec(base_reserve, quote_reserve, base_decimals, quote_decimals),
{
    lemma_pow10_pos(base_decimals);
    lemma_pow10_pos(quote_decimals);
    assert(base_reserve * pow10(quote_decimals) >= 1) by (nonlinear_arith)
        requires
            base_reserve >= 1,
            pow10(quote_decimals) >= 1,
    ;
    assert((2 * quote_reserve) * pow10(base_decimals) * PRICE_SCALE == 2 * (quote_reserve * pow10(
        base_decimals,
    ) * PRICE_SCALE)) by (nonlinear_arith);
    assert((2 * base_reserve) * pow10(quote_decimals) == 2 * (base_reserve * pow10(
        quote_decimals,
    ))) by (nonlinear_arith);
    let a = (quote_reserve * pow10(base_decimals) * PRICE_SCALE) as int;
    let b = (base_reserve * pow10(quote_decimals)) as int;
    lemma_div_multiples_vanish(a, 2);
    lemma_div_denominator(2 * a, 2, b);
    assert((2 * a) / (2 * b) == a / b);
}

/// The square-root fixed-point formula of concentrated-liquidity venues, as
/// an exact integer: the floor of
/// `(sqrt_price / 2^64)^2 * 10^(quote_decimals - base_decimals)` times
/// `PRICE_SCALE`, written with both decimal scales on their own side so the
/// exponent may be negative.
pub open spec fn sqrt_price_spec(sqrt_price: nat, base_decimals: nat, quote_decimals: nat) -> int {
    (sqrt_price * sqrt_price * pow10(quote_decimals) * PRICE_SCALE) as int / (pow2(128) * pow10(
        base_decimals,
    )) as int
}

/// Square-root fixed-point price, exact over the admitted range: any
/// square-root price below `2^96` (squared, a ratio up to `2^64`, which is
/// what a 128-bit result carries) and decimal scales within the 128-bit
/// words. The bounds are machine limits; the checked variant covers every
/// input.
#[verifier::rlimit(100)]
pub fn sqrt_price_scaled(sqrt_price: u128, base_decimals: u8, quote_decimals: u8) -> (r: u128)
    requires
        sqrt_price < pow2(96),
        pow10(quote_decimals as nat) * PRICE_SCALE <= pow2(64),
        pow10(base_decimals as nat) <= u128::MAX,
    ensures
        r == sqrt_price_spec(sqrt_price as nat, base_decimals as nat, quote_decimals as nat),
{
    proof {
        vstd::arithmetic::power2::lemma2_to64();
        vstd::arithmetic::power2::lemma2_to64_rest();
        lemma_pow2_adds(32, 64);
        lemma_pow2_adds(64, 64);
        lemma_pow10_pos(base_decimals as nat);
        lemma_pow10_pos(quote_decimals as nat);
        assert(pow10(quote_decimals as nat) <= pow10(quote_decimals as nat) * PRICE_SCALE)
            by (nonlinear_arith)
            requires
                pow10(quote_decimals as nat) >= 1,
                PRICE_SCALE >= 1,
        ;
    }
    let q64: u128 = 0x1_0000_0000_0000_0000;
    let multiplier = pow10_u128(quote_decimals) * PRICE_SCALE;
    let base_scale = pow10_u128(base_decimals);
    let ghost m = (pow10(quote_decimals as nat) * PRICE_SCALE) as int;
    let ghost bs = pow10(base_decimals as nat) as int;
    let ghost p64 = pow2(64) as int;
    // Square the root in 64-bit limbs: the square is
    // carry * 2^128 + rem_high * 2^64 + rem_low.
    let high_limb = sqrt_price / q64;
    let low_limb = sqrt_price % q64;
    proof {
        vstd::arithmetic::div_mod::lemma_multiply_divide_lt(
            sqrt_price as int,
            pow2(32) as int,
            p64,
        );
        assert(high_limb * low_limb < pow2(32) * pow2(64)) by (nonlinear_arith)
            requires
                0 <= high_limb < pow2(32),
                0 <= low_limb < pow2(64),
        ;
        assert(high_limb * high_limb < pow2(32) * pow2(64)) by (nonlinear_arith)
            requires
                0 <= high_limb < pow2(32),
                pow2(32) <= pow2(64),
        ;
        assert(low_limb * low_limb < pow2(64) * pow2(64)) by (nonlinear_arith)
            requires
                0 <= low_limb < pow2(64),
        ;
    }
    let cross_twice = 2 * (high_limb * low_limb);
    let high_sq = high_limb * high_limb;
    let low_sq = low_limb * low_limb;
    let cross_high = cross_twice / q64;
    let cross_low = cross_twice % q64;
    let low_sq_high = low_sq / q64;
    let low_sq_low = low_sq % q64;
    let middle = cross_low + low_sq_high;
    let carry = high_sq + cross_high + middle / q64;
    let rem_high = middle % q64;
    let rem_low = low_sq_low;
    proof {
        lemma_fundamental_div_mod(sqrt_price as int, p64);
        lemma_fundamental_div_mod(cross_twice as int, p64);
        lemma_fundamental_div_mod(low_sq as int, p64);
        lemma_fundamental_div_mod(middle as int, p64);
        assert(sqrt_price * sqrt_price == carry * (p64 * p64) + rem_high * p64 + rem_low)
            by (nonlinear_arith)
            requires
                sqrt_price == p64 * high_limb + low_limb,
                cross_twice == 2 * (high_limb * low_limb),
                cross_twice == p64 * cross_high + cross_twice as int % p64,
                cross_low == cross_twice as int % p64,
                low_sq == low_limb * low_limb,
                low_sq == p64 * low_sq_high + low_sq_low,
                middle == cross_low + low_sq_high,
                middle == p64 * (middle as int / p64) + middle as int % p64,
                high_sq == high_limb * high_limb,
                carry == high_sq + cross_high + middle as int / p64,
                rem_high == middle as int % p64,
                rem_low == low_sq_low,
        ;
        assert(sqrt_price * sqrt_price < pow2(96) * pow2(96)) by (nonlinear_arith)
            requires
                0 <= sqrt_price < pow2(96),
        ;
        lemma_pow2_adds(96, 96);
        lemma_pow2_adds(128, 64);
        assert(carry < p64) by (nonlinear_arith)
            requires
                carry * (p64 * p64) + rem_high * p64 + rem_low == sqrt_price * sqrt_price,
                sqrt_price * sqrt_price < pow2(96) * pow2(96),
                pow2(96) * pow2(96) == pow2(128) * pow2(64),
                p64 * p64 == pow2(128),
                p64 == pow2(64),
                rem_high >= 0,
                rem_low >= 0,
                p64 >= 1,
        ;
    }
    // Scale by the quote-side factor and divide out 2^128 in two halves.
    proof {
        assert(carry * multiplier <= (p64 - 1) * p64 && rem_high * multiplier <= (p64 - 1) * p64
            && rem_low * multiplier <= (p64 - 1) * p64) by (nonlinear_arith)
            requires
                0 <= carry < p64,
                0 <= rem_high < p64,
                0 <= rem_low < p64,
                0 < multiplier <= p64,
        ;
        assert((rem_low * multiplier) as int / p64 <= p64 - 1) by (nonlinear_arith)
            requires
                0 <= rem_low * multiplier <= (p64 - 1) * p64,
                p64 >= 1,
        ;
    }
    let scaled_head = carry * multiplier;
    let scaled_tail = rem_high * multiplier + (rem_low * multiplier) / q64;
    let total = scaled_head + scaled_tail / q64;
    let result = total / base_scale;
    proof {
        let s = (sqrt_price * sqrt_price) as int;
        let e = rem_high * p64 + rem_low;
        // scaled_tail == floor(e * m / 2^64).
        lemma_hoist_over_denominator(rem_low as int * m, rem_high as int * m, pow2(64));
        assert(rem_low * m + (rem_high * m) * p64 == e * m) by (nonlinear_arith)
            requires
                e == rem_high * p64 + rem_low,
        ;
        // Y = floor(s * m / 2^64) == carry * m * 2^64 + scaled_tail.
        lemma_hoist_over_denominator(e * m, (carry as int * m) * p64, pow2(64));
        assert(e * m + ((carry as int * m) * p64) * p64 == s * m) by (nonlinear_arith)
            requires
                s == carry * (p64 * p64) + e,
        ;
        // total == floor(Y / 2^64) == floor(s * m / 2^128).
        lemma_hoist_over_denominator(e * m / p64, carry as int * m, pow2(64));
        assert(e * m / p64 + (carry as int * m) * p64 == (s * m) / p64);
        assert(total == ((s * m) / p64) / p64);
        assert(s * m >= 0) by (nonlinear_arith)
            requires
                s >= 0,
                m >= 0,
        ;
        lemma_div_denominator(s * m, p64, p64);
        assert(total == (s * m) / pow2(128) as int);
        // result == floor(s * m / (2^128 * bs)).
        lemma_div_denominator(s * m, pow2(128) as int, bs);
        assert(result == (s * m) / (pow2(128) * bs) as int);
        assert(s * m == sqrt_price * sqrt_price * pow10(quote_decimals as nat) * PRICE_SCALE)
            by (nonlinear_arith)
            requires
                s == sqrt_price * sqrt_price,
                m == pow10(quote_decimals as nat) * PRICE_SCALE,
        ;
    }
    result
}

/// Whether the square-root derivation is exact in the 256-bit decomposition
/// for these inputs.
pub open spec fn sqrt_price_in_range(
    sqrt_price: nat,
    base_decimals: nat,
    quote_decimals: nat,
) -> bool {
    sqrt_price < pow2(96) && pow10(quote_decimals) * PRICE_SCALE <= pow2(64) && pow10(
        base_decimals,
    ) <= u128::MAX
}

/// Square-root fixed-point price for any input: `None` exactly where the
/// input or the decimal scales exceed what the 256-bit decomposition carries.
pub fn sqrt_price_scaled_checked(sqrt_price: u128, base_decimals: u8, quote_decimals: u8) -> (r:
    Option<u128>)
    ensures
        match r {
            Some(v) => sqrt_price_in_range(
                sqrt_price as nat,
                base_decimals as nat,
                quote_decimals as nat,
            ) && v == sqrt_price_spec(
                sqrt_price as nat,
                base_decimals as nat,
                quote_decimals as nat,
            ),
            None => !sqrt_price_in_range(
                sqrt_price as nat,
                base_decimals as nat,
                quote_decimals as nat,
            ),
        },
{
    proof {
        vstd::arithmetic::power2::lemma2_to64();
        vstd::arithmetic::power2::lemma2_to64_rest();
        lemma_pow2_adds(32, 64);
        lemma_pow10_pos(quote_decimals as nat);
    }
    let q96: u128 = 0x1_0000_0000_0000_0000_0000_0000;
    let q64: u128 = 0x1_0000_0000_0000_0000;
    if sqrt_price >= q96 {
        return None;
    }
    let quote_scale = match pow10_checked(quote_decimals) {
        Some(v) => v,
        None => {
            proof {
                assert(pow10(quote_decimals as nat) * PRICE_SCALE >= pow10(quote_decimals as nat))
                    by (nonlinear_arith)
                    requires
                        pow10(quote_decimals as nat) >= 1,
                        PRICE_SCALE >= 1,
                ;
            }
            return None;
        },
    };
    let multiplier = match quote_scale.checked_mul(PRICE_SCALE) {
        Some(v) => v,
        None => {
            return None;
        },
    };
    if multiplier > q64 {
        return None;
    }
    match pow10_checked(base_decimals) {
        Some(_) => Some(sqrt_price_scaled(sqrt_price, base_decimals, quote_decimals)),
        None => None,
    }
}

/// When the square root of the price is exactly `2^64` (a ratio of one) and
/// the two assets use the same decimal scale, the derived price is exactly
/// one, that is `PRICE_SCALE`.
pub proof fn lemma_sqrt_price_unit(decimals: nat)
    ensures
        sqrt_price_spec(pow2(64), decimals, decimals) == PRICE_SCALE,
{
    vstd::arithmetic::power2::lemma2_to64();
    vstd::arithmetic::power2::lemma2_to64_rest();
    lemma_pow2_adds(64, 64);
    lemma_pow10_pos(decimals);
    let p = pow10(decimals) as int;
    assert(pow2(64) * pow2(64) * pow10(decimals) * PRICE_SCALE == pow2(128) * (p * PRICE_SCALE))
        by (nonlinear_arith)
        requires
            pow2(64) * pow2(64) == pow2(128),
            p == pow10(decimals),
    ;
    assert(pow2(128) > 0) by (nonlinear_arith)
        requires
            pow2(64) >= 1,
            pow2(64) * pow2(64) == pow2(128),
    ;
    assert(pow2(128) * (p * PRICE_SCALE) >= 0) by (nonlinear_arith)
        requires
            pow2(128) >= 0,
            p >= 1,
    ;
    lemma_div_denominator(pow2(128) * (p * PRICE_SCALE), pow2(128) as int, p);
    lemma_div_multiples_vanish(p * PRICE_SCALE, pow2(128) as int);
    lemma_div_multiples_vanish(PRICE_SCALE as int, p);
    assert(p * PRICE_SCALE == p * (PRICE_SCALE as int));
}

/// Power factor of the bin-step numerator, for either sign of `active_id`.
pub open spec fn bin_power_numerator(active_id: int, bin_step: nat) -> int {
    if active_id >= 0 {
        pow(BIN_STEP_BASIS + bin_step, active_id as nat)
    } else {
        pow(BIN_STEP_BASIS as int, (-active_id) as nat)
    }
}

/// Numerator of the exponential bin-step formula as an exact rational:
/// `scale_scaled * (1 + bin_step/10000)^active_id` has this numerator over
/// `bin_denominator`, for either sign of `active_id`.
pub open spec fn bin_numerator(active_id: int, bin_step: nat, scale_scaled: nat) -> int {
    scale_scaled * bin_power_numerator(active_id, bin_step)
}

/// Denominator of the exponential bin-step formula as an exact rational.
pub open spec fn bin_denominator(active_id: int, bin_step: nat) -> int {
    if active_id >= 0 {
        pow(BIN_STEP_BASIS as int, active_id as nat)
    } else {
        pow(BIN_STEP_BASIS + bin_step, (-active_id) as nat)
    }
}

/// The exact mathematical value of the exponential bin-step formula: the
/// floor of `(1 + bin_step/10000)^active_id` times the venue-specific scale
/// constant (itself already carried in `PRICE_SCALE` fixed point). The
/// executable derivation is the rounded walk `bin_price_rounded`, whose
/// distance from this value `lemma_bin_walk_error_bound` bounds.
pub open spec fn bin_step_spec(active_id: int, bin_step: nat, scale_scaled: nat) -> int {
    bin_numerator(active_id, bin_step, scale_scaled) / bin_denominator(active_id, bin_step)
}

/// Multiplier numerator of one bin-walk step: the walk grows by
/// `(10000 + bin_step)/10000` toward higher bins and shrinks by its inverse
/// toward lower ones.
pub open spec fn bin_factor_num(active_id: int, bin_step: nat) -> nat {
    if active_id >= 0 {
        (BIN_STEP_BASIS + bin_step) as nat
    } else {
        BIN_STEP_BASIS as nat
    }
}

/// Multiplier denominator of one bin-walk step.
pub open spec fn bin_factor_den(active_id: int, bin_step: nat) -> nat {
    if active_id >= 0 {
        BIN_STEP_BASIS as nat
    } else {
        (BIN_STEP_BASIS + bin_step) as nat
    }
}

/// How many multiplicative steps the walk takes: the bin distance from zero.
pub open spec fn bin_magnitude(active_id: int) -> nat {
    if active_id >= 0 {
        active_id as nat
    } else {
        (-active_id) as nat
    }
}

/// The rounded multiplicative walk: starting from the scale constant, each
/// step multiplies by `factor_num` and floor-divides by `factor_den`. This is
/// the fixed-point evaluation policy of the bin-step formula; its distance
/// from the exact rational is bounded by `lemma_bin_walk_error_bound`.
pub open spec fn bin_walk(
    scale_scaled: nat,
    factor_num: nat,
    factor_den: nat,
    steps: nat,
) -> int
    decreases steps,
{
    if steps == 0 {
        scale_scaled as int
    } else {
        (bin_walk(scale_scaled, factor_num, factor_den, (steps - 1) as nat) * factor_num) / (
        factor_den as int)
    }
}

/// The exponential bin-step price as derived: exactly the scale constant
/// when the bin step is zero (the multiplier is exactly one), and the
/// rounded walk of `bin_magnitude` steps otherwise.
pub open spec fn bin_price_rounded(active_id: int, bin_step: nat, scale_scaled: nat) -> int {
    if bin_step == 0 {
        scale_scaled as int
    } else {
        bin_walk(
            scale_scaled,
            bin_factor_num(active_id, bin_step),
            bin_factor_den(active_id, bin_step),
            bin_magnitude(active_id),
        )
    }
}

/// Whether the walk's 128-bit evaluation is exact for these inputs: every
/// intermediate product must fit. A zero bin step takes no products at all.
pub open spec fn bin_step_in_range(active_id: int, bin_step: nat, scale_scaled: nat) -> bool {
    bin_step == 0 || (forall|k: nat|
        k < bin_magnitude(active_id) ==> #[trigger] bin_walk(
            scale_scaled,
            bin_factor_num(active_id, bin_step),
            bin_factor_den(active_id, bin_step),
            k,
        ) * bin_factor_num(active_id, bin_step) <= u128::MAX)
}

/// Magnitude of `active_id` as an unsigned step count.
fn active_id_magnitude(active_id: i32) -> (r: u32)
    ensures
        r == bin_magnitude(active_id as int),
{
    if active_id >= 0 {
        active_id as u32
    } else {
        (-(active_id as i64)) as u32
    }
}

/// Exponential bin-step price, the rounded walk, exact over the admitted
/// range (the bounds are machine limits of the 128-bit products; the checked
/// variant covers every input). `scale_scaled` is the venue's calibration
/// constant in `PRICE_SCALE` fixed point, applied before the walk, which is
/// the same as applying it after exponentiation up to the stated rounding
/// bound. A zero bin step yields the scale constant for every bin.
pub fn bin_step_price(active_id: i32, bin_step: u16, scale_scaled: u128) -> (r: u128)
    requires
        bin_step_in_range(active_id as int, bin_step as nat, scale_scaled as nat),
    ensures
        r == bin_price_rounded(active_id as int, bin_step as nat, scale_scaled as nat),
        bin_step == 0 ==> r == scale_scaled,
{
    if bin_step == 0 {
        return scale_scaled;
    }
    let magnitude = active_id_magnitude(active_id);
    let factor_num: u128 = if active_id >= 0 {
        BIN_STEP_BASIS + bin_step as u128
    } else {
        BIN_STEP_BASIS
    };
    let factor_den: u128 = if active_id >= 0 {
        BIN_STEP_BASIS
    } else {
        BIN_STEP_BASIS + bin_step as u128
    };
    let mut i: u32 = 0;
    let mut acc: u128 = scale_scaled;
    while i < magnitude
        invariant
            i <= magnitude,
            magnitude == bin_magnitude(active_id as int),
            factor_num == bin_factor_num(active_id as int, bin_step as nat),
            factor_den == bin_factor_den(active_id as int, bin_step as nat),
            factor_den >= 1,
            bin_step_in_range(active_id as int, bin_step as nat, scale_scaled as nat),
            bin_step > 0,
            acc == bin_walk(
                scale_scaled as nat,
                factor_num as nat,
                factor_den as nat,
                i as nat,
            ),
        decreases magnitude - i,
    {
        proof {
            assert(bin_walk(scale_scaled as nat, factor_num as nat, factor_den as nat, i as nat)
                * factor_num <= u128::MAX);
        }
        acc = (acc * factor_num) / factor_den;
        i = i + 1;
    }
    acc
}

/// Exponential bin-step price for any input: `None` exactly where one of the
/// walk's 128-bit intermediate products would not fit.
pub fn bin_step_price_checked(active_id: i32, bin_step: u16, scale_scaled: u128) -> (r: Option<
    u128,
>)
    ensures
        match r {
            Some(v) => bin_step_in_range(active_id as int, bin_step as nat, scale_scaled as nat)
                && v == bin_price_rounded(active_id as int, bin_step as nat, scale_scaled as nat),
            None => !bin_step_in_range(active_id as int, bin_step as nat, scale_scaled as nat),
        },
{
    if bin_step == 0 {
        return Some(scale_scaled);
    }
    let magnitude = active_id_magnitude(active_id);
    let factor_num: u128 = if active_id >= 0 {
        BIN_STEP_BASIS + bin_step as u128
    } else {
        BIN_STEP_BASIS
    };
    let factor_den: u128 = if active_id >= 0 {
        BIN_STEP_BASIS
    } else {
        BIN_STEP_BASIS + bin_step as u128
    };
    let mut i: u32 = 0;
    let mut acc: u128 = scale_scaled;
    while i < magnitude
        invariant
            i <= magnitude,
            magnitude == bin_magnitude(active_id as int),
            factor_num == bin_factor_num(active_id as int, bin_step as nat),
            factor_den == bin_factor_den(active_id as int, bin_step as nat),
            factor_den >= 1,
            bin_step > 0,
            acc == bin_walk(
                scale_scaled as nat,
                factor_num as nat,
                factor_den as nat,
                i as nat,
            ),
            forall|k: nat|
                k < i ==> #[trigger] bin_walk(
                    scale_scaled as nat,
                    factor_num as nat,
                    factor_den as nat,
                    k,
                ) * factor_num <= u128::MAX,
        decreases magnitude - i,
    {
        match acc.checked_mul(factor_num) {
            Some(product) => {
                acc = product / factor_den;
            },
            None => {
                proof {
                    assert(bin_walk(
                        scale_scaled as nat,
                        factor_num as nat,
                        factor_den as nat,
                        i as nat,
                    ) * factor_num > u128::MAX);
                }
                return None;
            },
        }
        i = i + 1;
    }
    Some(acc)
}

/// A walk whose two factors are equal never moves: every step multiplies and
/// divides by the same amount, so the rounded walk is the scale constant at
/// every bin, which is what the zero-bin-step branch returns directly.
pub proof fn lemma_bin_walk_unit_factor(scale_scaled: nat, factor: nat, steps: nat)
    requires
        factor >= 1,
    ensures
        bin_walk(scale_scaled, factor, factor, steps) == scale_scaled,
    decreases steps,
{
    if steps > 0 {
        lemma_bin_walk_unit_factor(scale_scaled, factor, (steps - 1) as nat);
        vstd::arithmetic::div_mod::lemma_div_by_multiple(scale_scaled as int, factor as int);
    }
}

/// Powers are monotone in the base: `a^e <= b^e` for `1 <= a <= b`.
pub proof fn lemma_pow_le_base(a: int, b: int, e: nat)
    requires
        1 <= a <= b,
    ensures
        pow(a, e) <= pow(b, e),
    decreases e,
{
    lemma_pow0(a);
    lemma_pow0(b);
    lemma_pow1(a);
    lemma_pow1(b);
    if e > 0 {
        lemma_pow_le_base(a, b, (e - 1) as nat);
        lemma_pow_positive(a, (e - 1) as nat);
        lemma_pow_adds(a, (e - 1) as nat, 1);
        lemma_pow_adds(b, (e - 1) as nat, 1);
        assert((e - 1) as nat + 1 == e);
        assert(pow(a, e) == pow(a, (e - 1) as nat) * a);
        assert(pow(b, e) == pow(b, (e - 1) as nat) * b);
        assert(pow(a, (e - 1) as nat) * a <= pow(b, (e - 1) as nat) * b) by (nonlinear_arith)
            requires
                1 <= a <= b,
                1 <= pow(a, (e - 1) as nat) <= pow(b, (e - 1) as nat),
        ;
    }
}

/// How far the rounded walk sits from the exact rational
/// `scale * (factor_num/factor_den)^steps`, cross-multiplied: the walk never
/// exceeds it, and falls short of it by at most `steps * bound^steps`, for
/// any `bound` above both factors. For a shrinking walk (`bound` the
/// denominator) that is an absolute error below `steps` output units; for a
/// growing one it is a relative error below `steps / scale`.
#[verifier::rlimit(100)]
pub proof fn lemma_bin_walk_error_bound(
    scale_scaled: nat,
    factor_num: nat,
    factor_den: nat,
    bound: nat,
    steps: nat,
)
    requires
        1 <= factor_num <= bound,
        1 <= factor_den <= bound,
    ensures
        0 <= bin_walk(scale_scaled, factor_num, factor_den, steps),
        bin_walk(scale_scaled, factor_num, factor_den, steps) * pow(factor_den as int, steps)
            <= scale_scaled * pow(factor_num as int, steps),
        scale_scaled * pow(factor_num as int, steps) - bin_walk(
            scale_scaled,
            factor_num,
            factor_den,
            steps,
        ) * pow(factor_den as int, steps) <= steps * pow(bound as int, steps),
    decreases steps,
{
    lemma_pow0(factor_num as int);
    lemma_pow0(factor_den as int);
    lemma_pow0(bound as int);
    if steps > 0 {
        let prev: nat = (steps - 1) as nat;
        lemma_bin_walk_error_bound(scale_scaled, factor_num, factor_den, bound, prev);
        let w = bin_walk(scale_scaled, factor_num, factor_den, prev);
        let w_next = bin_walk(scale_scaled, factor_num, factor_den, steps);
        let fnum = factor_num as int;
        let fden = factor_den as int;
        lemma_pow_positive(fnum, prev);
        lemma_pow_positive(fden, prev);
        lemma_pow_positive(bound as int, prev);
        lemma_pow1(fnum);
        lemma_pow1(fden);
        lemma_pow1(bound as int);
        lemma_pow_adds(fnum, prev, 1);
        lemma_pow_adds(fden, prev, 1);
        lemma_pow_adds(bound as int, prev, 1);
        lemma_pow_le_base(fden, bound as int, prev);
        lemma_fundamental_div_mod(w * fnum, fden);
        vstd::arithmetic::div_mod::lemma_mod_division_less_than_divisor(w * fnum, fden);
        assert(w * fnum >= 0) by (nonlinear_arith)
            requires
                w >= 0,
                fnum >= 1,
        ;
        assert(w_next >= 0) by (nonlinear_arith)
            requires
                w * fnum == fden * w_next + (w * fnum) % fden,
                0 <= (w * fnum) % fden < fden,
                w * fnum >= 0,
                fden >= 1,
        ;
        assert(w_next * (pow(fden, prev) * fden) <= scale_scaled * (pow(fnum, prev) * fnum))
            by (nonlinear_arith)
            requires
                w * fnum == fden * w_next + (w * fnum) % fden,
                0 <= (w * fnum) % fden,
                w * pow(fden, prev) <= scale_scaled * pow(fnum, prev),
                pow(fden, prev) >= 1,
                fnum >= 1,
                fden >= 1,
        ;
        let rem = (w * fnum) % fden;
        assert(w_next * (pow(fden, prev) * fden) == (w * fnum - rem) * pow(fden, prev))
            by (nonlinear_arith)
            requires
                w * fnum == fden * w_next + rem,
        ;
        assert((w * fnum - rem) * pow(fden, prev) == fnum * (w * pow(fden, prev)) - rem * pow(
            fden,
            prev,
        )) by (nonlinear_arith);
        assert(scale_scaled * (pow(fnum, prev) * fnum) == fnum * (scale_scaled * pow(fnum, prev)))
            by (nonlinear_arith);
        assert(fnum * (scale_scaled * pow(fnum, prev)) - fnum * (w * pow(fden, prev)) <= bound * (
        prev * pow(bound as int, prev))) by (nonlinear_arith)
            requires
                scale_scaled * pow(fnum, prev) - w * pow(fden, prev) <= prev * pow(
                    bound as int,
                    prev,
                ),
                w * pow(fden, prev) <= scale_scaled * pow(fnum, prev),
                1 <= fnum <= bound,
                prev >= 0,
                pow(bound as int, prev) >= 1,
        ;
        assert(rem * pow(fden, prev) <= bound * pow(bound as int, prev)) by (nonlinear_arith)
            requires
                0 <= rem < fden,
                fden <= bound,
                0 <= pow(fden, prev) <= pow(bound as int, prev),
        ;
        assert(bound * (prev * pow(bound as int, prev)) + bound * pow(bound as int, prev) == steps
            * (pow(bound as int, prev) * (bound as int))) by (nonlinear_arith)
            requires
                steps == prev + 1,
        ;
        assert(rem * pow(fden, prev) >= 0) by (nonlinear_arith)
            requires
                rem >= 0,
                pow(fden, prev) >= 0,
        ;
    }
}

/// A bin step of zero makes the multiplier exactly one: the bin-step price is
/// the scale constant, whatever the active bin is.
pub proof fn lemma_bin_step_zero(active_id: int, scale_scaled: nat)
    ensures
        bin_step_spec(active_id, 0, scale_scaled) == scale_scaled,
{
    let magnitude = if active_id >= 0 {
        active_id as nat
    } else {
        (-active_id) as nat
    };
    lemma_pow_positive(BIN_STEP_BASIS as int, magnitude);
    assert(bin_power_numerator(active_id, 0) == pow(BIN_STEP_BASIS as int, magnitude));
    assert(bin_denominator(active_id, 0) == pow(BIN_STEP_BASIS as int, magnitude));
    lemma_div_multiples_vanish(scale_scaled as int, pow(BIN_STEP_BASIS as int, magnitude));
}

/// With a positive bin step, the bin-step price strictly increases with the
/// active bin: as exact rationals (both denominators are positive),
/// `price(active_id + 1) > price(active_id)`. The law is stated of the exact
/// rationals because any fixed-point rendering of two such prices can floor
/// to the same integer when the scale constant is small; the walk's distance
/// from these rationals is bounded by `lemma_bin_walk_error_bound`.
pub proof fn lemma_bin_step_monotonic(active_id: int, bin_step: nat, scale_scaled: nat)
    requires
        bin_step > 0,
        scale_scaled > 0,
    ensures
        bin_denominator(active_id, bin_step) > 0,
        bin_denominator(active_id + 1, bin_step) > 0,
        bin_numerator(active_id + 1, bin_step, scale_scaled) * bin_denominator(active_id, bin_step)
            > bin_numerator(active_id, bin_step, scale_scaled) * bin_denominator(
            active_id + 1,
            bin_step,
        ),
{
    let t = BIN_STEP_BASIS as int;
    let b = (BIN_STEP_BASIS + bin_step) as int;
    lemma_pow0(b);
    lemma_pow0(t);
    lemma_pow1(b);
    lemma_pow1(t);
    if active_id >= 0 {
        let k = active_id as nat;
        lemma_pow_positive(b, k);
        lemma_pow_positive(t, k);
        lemma_pow_adds(b, k, 1);
        lemma_pow_adds(t, k, 1);
        assert((scale_scaled * (pow(b, k) * b)) * pow(t, k) > (scale_scaled * pow(b, k)) * (pow(
            t,
            k,
        ) * t)) by (nonlinear_arith)
            requires
                scale_scaled >= 1,
                pow(b, k) >= 1,
                pow(t, k) >= 1,
                b > t,
                t > 0,
        ;
    } else if active_id == -1 {
        assert((scale_scaled * 1int) * b > (scale_scaled * t) * 1int) by (nonlinear_arith)
            requires
                scale_scaled >= 1,
                b > t,
                t > 0,
        ;
    } else {
        let k = (-active_id) as nat;
        let j = (k - 1) as nat;
        lemma_pow_positive(b, k);
        lemma_pow_positive(b, j);
        lemma_pow_positive(t, k);
        lemma_pow_positive(t, j);
        lemma_pow_adds(b, j, 1);
        lemma_pow_adds(t, j, 1);
        assert((scale_scaled * pow(t, j)) * (pow(b, j) * b) > (scale_scaled * (pow(t, j) * t))
            * pow(b, j)) by (nonlinear_arith)
            requires
                scale_scaled >= 1,
                pow(b, j) >= 1,
                pow(t, j) >= 1,
                b > t,
                t > 0,
        ;
    }
}

/// A walk whose growing factor is at least its denominator never falls
/// below its starting value: each step multiplies by at least as much as it
/// divides.
pub proof fn lemma_bin_walk_nondecreasing(
    scale_scaled: nat,
    factor_num: nat,
    factor_den: nat,
    steps: nat,
)
    requires
        factor_num >= factor_den,
        factor_den >= 1,
    ensures
        bin_walk(scale_scaled, factor_num, factor_den, steps) >= scale_scaled,
    decreases steps,
{
    if steps > 0 {
        let prev = (steps - 1) as nat;
        lemma_bin_walk_nondecreasing(scale_scaled, factor_num, factor_den, prev);
        let w = bin_walk(scale_scaled, factor_num, factor_den, prev);
        assert(w * factor_den <= w * factor_num) by (nonlinear_arith)
            requires
                w >= 0,
                factor_den <= factor_num,
        ;
        vstd::arithmetic::div_mod::lemma_div_is_ordered(
            w * factor_den,
            w * factor_num,
            factor_den as int,
        );
        vstd::arithmetic::div_mod::lemma_div_by_multiple(w, factor_den as int);
    }
}

/// Strict monotonicity of the executable rounded walk across one bin, away
/// from the fixed point's degenerate floors: with a positive bin step, a
/// calibration constant large enough that one growing step moves the value
/// by at least one output unit (`scale_scaled * bin_step >= BIN_STEP_BASIS`),
/// and — below bin zero — an upper-bin price that has not collapsed to zero,
/// the derived price at `active_id + 1` is strictly above the one at
/// `active_id`. The exact rational formula is strictly monotone everywhere
/// (`lemma_bin_step_monotonic`); this law covers the rounded values the
/// library actually returns.
pub proof fn lemma_bin_price_rounded_monotonic(active_id: int, bin_step: nat, scale_scaled: nat)
    requires
        bin_step > 0,
        scale_scaled * bin_step >= BIN_STEP_BASIS,
        active_id < 0 ==> bin_price_rounded(active_id + 1, bin_step, scale_scaled) >= 1,
    ensures
        bin_price_rounded(active_id + 1, bin_step, scale_scaled) > bin_price_rounded(
            active_id,
            bin_step,
            scale_scaled,
        ),
{
    let basis = BIN_STEP_BASIS as int;
    let grown = (BIN_STEP_BASIS + bin_step) as int;
    if active_id >= 0 {
        let k = active_id as nat;
        lemma_bin_walk_nondecreasing(
            scale_scaled,
            (BIN_STEP_BASIS + bin_step) as nat,
            BIN_STEP_BASIS as nat,
            k,
        );
        let w = bin_walk(
            scale_scaled,
            (BIN_STEP_BASIS + bin_step) as nat,
            BIN_STEP_BASIS as nat,
            k,
        );
        assert(bin_price_rounded(active_id, bin_step, scale_scaled) == w);
        assert(bin_price_rounded(active_id + 1, bin_step, scale_scaled) == (w * grown) / basis);
        assert(w * grown >= w * basis + basis) by (nonlinear_arith)
            requires
                w >= scale_scaled,
                scale_scaled >= 0,
                grown == basis + bin_step,
                scale_scaled * bin_step >= basis,
                bin_step >= 1,
                basis >= 1,
        ;
        lemma_hoist_over_denominator(w * basis, 1, BIN_STEP_BASIS as nat);
        vstd::arithmetic::div_mod::lemma_div_by_multiple(w, basis);
        vstd::arithmetic::div_mod::lemma_div_is_ordered(w * basis + basis, w * grown, basis);
    } else {
        let k = (-(active_id + 1)) as nat;
        let x = bin_price_rounded(active_id + 1, bin_step, scale_scaled);
        assert(bin_walk(scale_scaled, BIN_STEP_BASIS as nat, (BIN_STEP_BASIS + bin_step) as nat, k)
            == x);
        assert(bin_price_rounded(active_id, bin_step, scale_scaled) == (x * basis) / grown);
        assert(x * basis <= x * grown - 1) by (nonlinear_arith)
            requires
                x >= 1,
                basis + bin_step == grown,
                bin_step >= 1,
        ;
        assert(x * grown - 1 == (x - 1) * grown + (grown - 1)) by (nonlinear_arith);
        vstd::arithmetic::div_mod::lemma_fundamental_div_mod_converse_div(
            x * grown - 1,
            grown,
            x - 1,
            grown - 1,
        );
        vstd::arithmetic::div_mod::lemma_div_is_ordered(x * basis, x * grown - 1, grown);
    }
}

/// Percent change of `current` against `previous`, in `PRICE_SCALE` fixed
/// point. The magnitude is the floor of the exact value, rounded away from
/// zero to at least one unit whenever the prices differ (so the sign always
/// tells whether the price moved, as the formula's exact value does), and
/// capped at `i128::MAX` where the exact value or its 128-bit intermediate
/// product is out of range. A zero or absent previous price yields `0`:
/// there is no baseline to compare against.
pub open spec fn change_percent_spec(previous: nat, current: nat) -> int {
    if previous == 0 || current == previous {
        0
    } else if current > previous {
        let product = (current - previous) * CHANGE_FACTOR;
        if product > u128::MAX || product / previous as int > i128::MAX {
            i128::MAX as int
        } else if product / previous as int == 0 {
            1
        } else {
            product / previous as int
        }
    } else {
        let product = (previous - current) * CHANGE_FACTOR;
        if product > u128::MAX || product / previous as int > i128::MAX {
            -(i128::MAX as int)
        } else if product / previous as int == 0 {
            -1int
        } else {
            -(product / previous as int)
        }
    }
}

/// Percent change of a newly derived price against a venue's cache: exactly
/// `0` while no previous price exists, the capped percent change otherwise.
pub open spec fn change_from_cache_spec(previous: Option<u128>, current: nat) -> int {
    match previous {
        Option::None => 0int,
        Option::Some(p) => change_percent_spec(p as nat, current),
    }
}

/// Percent change against the cached previous price, in `PRICE_SCALE` fixed
/// point. The first tick, with no previous price, reports exactly `0`. For a
/// positive baseline the result is `0` exactly when the prices are equal: a
/// move smaller than one resolution unit (a relative change below one part
/// in 10^11) still reports the smallest scaled unit with the right sign.
/// `lemma_change_percent_sign` states the sign law.
pub fn change_percent_scaled(previous: Option<u128>, current: u128) -> (r: i128)
    ensures
        r == change_from_cache_spec(previous, current as nat),
        previous is None ==> r == 0,
{
    let p = match previous {
        Option::None => {
            return 0;
        },
        Option::Some(p) => p,
    };
    if p == 0 || current == p {
        return 0;
    }
    let max_mag: u128 = 0x7fff_ffff_ffff_ffff_ffff_ffff_ffff_ffff;
    proof {
        assert(max_mag == i128::MAX);
    }
    if current > p {
        let difference = current - p;
        match difference.checked_mul(CHANGE_FACTOR) {
            Some(product) => {
                let quotient = product / p;
                if quotient == 0 {
                    1
                } else if quotient > max_mag {
                    i128::MAX
                } else {
                    quotient as i128
                }
            },
            None => i128::MAX,
        }
    } else {
        let difference = p - current;
        match difference.checked_mul(CHANGE_FACTOR) {
            Some(product) => {
                let quotient = product / p;
                if quotient == 0 {
                    -1
                } else if quotient > max_mag {
                    -i128::MAX
                } else {
                    -(quotient as i128)
                }
            },
            None => -i128::MAX,
        }
    }
}

/// The sign of the reported percent change follows the comparison exactly,
/// for any positive baseline: positive when the price rose, negative when it
/// fell, and `0` only when the prices are equal.
pub proof fn lemma_change_percent_sign(previous: nat, current: nat)
    requires
        previous > 0,
    ensures
        (change_percent_spec(previous, current) > 0) <==> current > previous,
        (change_percent_spec(previous, current) < 0) <==> current < previous,
        (change_percent_spec(previous, current) == 0) <==> current == previous,
{
    let p = previous as int;
    let c = current as int;
    if current > previous {
        let product = (c - p) * (CHANGE_FACTOR as int);
        assert(product >= 0) by (nonlinear_arith)
            requires
                product == (c - p) * (CHANGE_FACTOR as int),
                c >= p,
                CHANGE_FACTOR >= 1,
        ;
        vstd::arithmetic::div_mod::lemma_div_pos_is_pos(product, p);
    } else if current < previous {
        let product = (p - c) * (CHANGE_FACTOR as int);
        assert(product >= 0) by (nonlinear_arith)
            requires
                product == (p - c) * (CHANGE_FACTOR as int),
                p >= c,
                CHANGE_FACTOR >= 1,
        ;
        vstd::arithmetic::div_mod::lemma_div_pos_is_pos(product, p);
    }
}

} // verus!