//! The normalized records that every venue converges to.

use vstd::prelude::*;
use crate::price;

verus! {

/// The unit of output: one normalized price observation from one venue.
/// Immutable once constructed and handed to the fan-out hub. `price` and
/// `change_percent` are integers in `crate::price::PRICE_SCALE` fixed point;
/// `change_percent` is always relative to the same venue's own prior value.
#[derive(Clone, Debug, PartialEq)]
pub struct PriceUpdate {
    pub symbol: String,
    pub price: u128,
    pub change_percent: i128,
    pub timestamp: u64,
    pub source: String,
    pub base_reserve: u64,
    pub quote_reserve: u64,
}

/// Structured view of a constant-product pool once its vault reserves have
/// been resolved: identifiers, the raw smallest-unit reserves, and the
/// derived price in `crate::price::PRICE_SCALE` fixed point.
#[derive(Clone, Debug, PartialEq)]
pub struct AmmInfo {
    pub pool_id: String,
    pub base_mint: String,
    pub quote_mint: String,
    pub base_reserve: u64,
    pub quote_reserve: u64,
    pub price: u128,
}

/// Builds the structured pool view once the vault reserves are resolved,
/// deriving the reserve-ratio price: `None` exactly where the derivation
/// falls outside the 128-bit fixed point.
pub fn amm_info_from_reserves(
    pool_id: String,
    base_mint: String,
    quote_mint: String,
    base_reserve: u64,
    quote_reserve: u64,
    base_decimals: u8,
    quote_decimals: u8,
) -> (r: Option<AmmInfo>)
    ensures
        match r {
            Some(info) => price::reserve_ratio_in_range(
                base_reserve as nat,
                quote_reserve as nat,
                base_decimals as nat,
                quote_decimals as nat,
            ) && info.price == price::reserve_ratio_spec(
                base_reserve as nat,
                quote_reserve as nat,
                base_decimals as nat,
                quote_decimals as nat,
            ) && info.pool_id@ == pool_id@ && info.base_mint@ == base_mint@ && info.quote_mint@
                == quote_mint@ && info.base_reserve == base_reserve && info.quote_reserve
                == quote_reserve,
            None => !price::reserve_ratio_in_range(
                base_reserve as nat,
                quote_reserve as nat,
                base_decimals as nat,
                quote_decimals as nat,
            ),
        },
{
    let derived = price::reserve_ratio_price_checked(
        base_reserve,
        quote_reserve,
        base_decimals,
        quote_decimals,
    );
    match derived {
        Some(price) => Some(
            AmmInfo { pool_id, base_mint, quote_mint, base_reserve, quote_reserve, price },
        ),
        None => None,
    }
}

} // verus!
