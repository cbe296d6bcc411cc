//! The per-venue monitor: decode a fetched pool account, derive the price,
//! compute the percent change against the venue's own cache, and publish one
//! normalized event.
//!
//! The network reads themselves happen outside the core: callers fetch the
//! account bytes and resolve token balances, and hand plain values in. Every
//! decision between those reads stands here.

use vstd::prelude::*;
use crate::diag;
use crate::events::PriceUpdate;
use crate::hub::FanOutHub;
use crate::price;

verus! {

/// Why one tick of a venue monitor yielded no event. Every variant is
/// recovered per tick: the monitor logs, skips the tick, and goes on with
/// its cache untouched.
#[derive(Clone, Debug, PartialEq)]
pub enum MonitorError {
    /// A point-in-time read from the ledger service failed.
    Fetch,
    /// The account bytes did not match the venue's layout; carries the raw
    /// length and a hex preview of the first bytes for diagnosis.
    Decode { data_len: usize, preview: String },
    /// The decoded fields fall outside what the 128-bit fixed-point
    /// derivation represents exactly; the tick is skipped like any other
    /// per-tick fault.
    Derive,
}

/// Fewest bytes a constant-product pool account may hold before the decoder
/// is even consulted.
pub const RAYDIUM_MIN_ACCOUNT_LEN: usize = 656;

/// Fewest bytes a discretized-bin pool account may hold before the decoder
/// is even consulted.
pub const METEORA_MIN_ACCOUNT_LEN: usize = 100;

/// The vault and mint addresses of a constant-product pool, each the 32 raw
/// bytes of an account address.
#[derive(Clone, Debug, PartialEq)]
pub struct RaydiumPoolKeys {
    pub coin_vault: Vec<u8>,
    pub pc_vault: Vec<u8>,
    pub coin_mint: Vec<u8>,
    pub pc_mint: Vec<u8>,
}

/// The fields a discretized-bin pool contributes: its two reserve-account
/// addresses and the active-bin coordinates.
#[derive(Clone, Debug, PartialEq)]
pub struct MeteoraPoolFields {
    pub reserve_x: Vec<u8>,
    pub reserve_y: Vec<u8>,
    pub active_id: i32,
    pub bin_step: u16,
}

/// The fields a concentrated-liquidity pool contributes: its two token-vault
/// addresses and the square-root price in 2^64 fixed point.
#[derive(Clone, Debug, PartialEq)]
pub struct OrcaPoolFields {
    pub token_vault_a: Vec<u8>,
    pub token_vault_b: Vec<u8>,
    pub sqrt_price: u128,
}

/// What the constant-product decoder yields on given bytes: a function of
/// the bytes alone, named rather than restated (the layout is the decoder
/// crate's). The tuple is vault and mint addresses in declaration order.
pub uninterp spec fn raydium_pool_fields(data: Seq<u8>) -> Option<
    (Seq<u8>, Seq<u8>, Seq<u8>, Seq<u8>),
>;

/// What the discretized-bin decoder yields on given bytes: a function of the
/// bytes alone. The tuple is the two reserve addresses, the active bin, and
/// the bin step.
pub uninterp spec fn meteora_pool_fields(data: Seq<u8>) -> Option<(Seq<u8>, Seq<u8>, i32, u16)>;

/// What the concentrated-liquidity decoder yields on given bytes: a function
/// of the bytes alone. The tuple is the two vault addresses and the
/// square-root price.
pub uninterp spec fn whirlpool_fields(data: Seq<u8>) -> Option<(Seq<u8>, Seq<u8>, u128)>;

/// Relies on carbon_raydium_amm_v4_decoder's AmmInfo::decode: a pure
/// function of the bytes that checks the layout and borsh-decodes it, `None`
/// when the bytes do not match. Addresses are 32 bytes each.
#[verifier::external_body]
fn decode_raydium_raw(data: &Vec<u8>) -> (r: Option<RaydiumPoolKeys>)
    ensures
        match r {
            Some(k) => raydium_pool_fields(data@) == Some(
                (k.coin_vault@, k.pc_vault@, k.coin_mint@, k.pc_mint@),
            ) && k.coin_vault@.len() == 32 && k.pc_vault@.len() == 32 && k.coin_mint@.len() == 32
                && k.pc_mint@.len() == 32,
            None => raydium_pool_fields(data@) is None,
        },
{
    let info = carbon_raydium_amm_v4_decoder::accounts::amm_info::AmmInfo::decode(
        data.as_slice(),
    )?;
    Some(
        RaydiumPoolKeys {
            coin_vault: info.coin_vault.to_bytes().to_vec(),
            pc_vault: info.pc_vault.to_bytes().to_vec(),
            coin_mint: info.coin_vault_mint.to_bytes().to_vec(),
            pc_mint: info.pc_vault_mint.to_bytes().to_vec(),
        },
    )
}

/// Relies on carbon_meteora_dlmm_decoder's LbPair::decode: a pure function
/// of the bytes that checks the discriminator and borsh-decodes the pair,
/// `None` when the bytes do not match. Addresses are 32 bytes each.
#[verifier::external_body]
fn decode_meteora_raw(data: &Vec<u8>) -> (r: Option<MeteoraPoolFields>)
    ensures
        match r {
            Some(f) => meteora_pool_fields(data@) == Some(
                (f.reserve_x@, f.reserve_y@, f.active_id, f.bin_step),
            ) && f.reserve_x@.len() == 32 && f.reserve_y@.len() == 32,
            None => meteora_pool_fields(data@) is None,
        },
{
    let pair = carbon_meteora_dlmm_decoder::accounts::lb_pair::LbPair::decode(data.as_slice())?;
    Some(
        MeteoraPoolFields {
            reserve_x: pair.reserve_x.to_bytes().to_vec(),
            reserve_y: pair.reserve_y.to_bytes().to_vec(),
            active_id: pair.active_id,
            bin_step: pair.bin_step,
        },
    )
}

/// Relies on orca_whirlpools_client's Whirlpool::from_bytes: a pure function
/// of the bytes that borsh-decodes the pool, an error when the bytes do not
/// match. Addresses are 32 bytes each.
#[verifier::external_body]
fn decode_whirlpool_raw(data: &Vec<u8>) -> (r: Option<OrcaPoolFields>)
    ensures
        match r {
            Some(f) => whirlpool_fields(data@) == Some(
                (f.token_vault_a@, f.token_vault_b@, f.sqrt_price),
            ) && f.token_vault_a@.len() == 32 && f.token_vault_b@.len() == 32,
            None => whirlpool_fields(data@) is None,
        },
{
    let pool = orca_whirlpools_client::Whirlpool::from_bytes(data.as_slice()).ok()?;
    Some(
        OrcaPoolFields {
            token_vault_a: pool.token_vault_a.to_bytes().to_vec(),
            token_vault_b: pool.token_vault_b.to_bytes().to_vec(),
            sqrt_price: pool.sqrt_price,
        },
    )
}

/// Decodes a constant-product pool account. Bytes shorter than
/// `RAYDIUM_MIN_ACCOUNT_LEN`, or bytes the decoder does not recognize, yield
/// the decode error with the raw length and hex preview.
pub fn decode_raydium_pool(data: &Vec<u8>) -> (r: Result<RaydiumPoolKeys, MonitorError>)
    ensures
        match r {
            Ok(k) => data@.len() >= RAYDIUM_MIN_ACCOUNT_LEN && raydium_pool_fields(data@) == Some(
                (k.coin_vault@, k.pc_vault@, k.coin_mint@, k.pc_mint@),
            ) && k.coin_vault@.len() == 32 && k.pc_vault@.len() == 32 && k.coin_mint@.len() == 32
                && k.pc_mint@.len() == 32,
            Err(e) => (data@.len() < RAYDIUM_MIN_ACCOUNT_LEN || raydium_pool_fields(data@)
                is None) && (e matches MonitorError::Decode { data_len, preview } && data_len
                == data@.len() && preview@ == diag::preview_spec(data@)),
        },
{
    if data.len() < RAYDIUM_MIN_ACCOUNT_LEN {
        return Err(
            MonitorError::Decode { data_len: data.len(), preview: diag::data_preview(data) },
        );
    }
    match decode_raydium_raw(data) {
        Some(keys) => Ok(keys),
        None => Err(
            MonitorError::Decode { data_len: data.len(), preview: diag::data_preview(data) },
        ),
    }
}

/// Decodes a discretized-bin pool account. Bytes shorter than
/// `METEORA_MIN_ACCOUNT_LEN`, or bytes the decoder does not recognize, yield
/// the decode error with the raw length and hex preview.
pub fn decode_meteora_pool(data: &Vec<u8>) -> (r: Result<MeteoraPoolFields, MonitorError>)
    ensures
        match r {
            Ok(f) => data@.len() >= METEORA_MIN_ACCOUNT_LEN && meteora_pool_fields(data@) == Some(
                (f.reserve_x@, f.reserve_y@, f.active_id, f.bin_step),
            ) && f.reserve_x@.len() == 32 && f.reserve_y@.len() == 32,
            Err(e) => (data@.len() < METEORA_MIN_ACCOUNT_LEN || meteora_pool_fields(data@)
                is None) && (e matches MonitorError::Decode { data_len, preview } && data_len
                == data@.len() && preview@ == diag::preview_spec(data@)),
        },
{
    if data.len() < METEORA_MIN_ACCOUNT_LEN {
        return Err(
            MonitorError::Decode { data_len: data.len(), preview: diag::data_preview(data) },
        );
    }
    match decode_meteora_raw(data) {
        Some(fields) => Ok(fields),
        None => Err(
            MonitorError::Decode { data_len: data.len(), preview: diag::data_preview(data) },
        ),
    }
}

/// Decodes a concentrated-liquidity pool account. Bytes the decoder does not
/// recognize yield the decode error with the raw length and hex preview.
pub fn decode_orca_pool(data: &Vec<u8>) -> (r: Result<OrcaPoolFields, MonitorError>)
    ensures
        match r {
            Ok(f) => whirlpool_fields(data@) == Some(
                (f.token_vault_a@, f.token_vault_b@, f.sqrt_price),
            ) && f.token_vault_a@.len() == 32 && f.token_vault_b@.len() == 32,
            Err(e) => whirlpool_fields(data@) is None && (e matches MonitorError::Decode {
                data_len,
                preview,
            } && data_len == data@.len() && preview@ == diag::preview_spec(data@)),
        },
{
    match decode_whirlpool_raw(data) {
        Some(fields) => Ok(fields),
        None => Err(
            MonitorError::Decode { data_len: data.len(), preview: diag::data_preview(data) },
        ),
    }
}

/// What one venue monitor carries across ticks: the previous successfully
/// derived price, absent until the first success and reset by a restart, so
/// the first event after either always reports a change of zero.
#[derive(Clone, Debug, PartialEq)]
pub struct MonitorState {
    pub previous_price: Option<u128>,
}

impl MonitorState {
    /// A fresh cache: no previous price.
    pub fn new() -> (r: MonitorState)
        ensures
            r.previous_price is None,
    {
        MonitorState { previous_price: Option::None }
    }
}

/// The constants of one monitored venue: the pair and venue identifiers
/// stamped on every event, the two assets' decimal scales, and the
/// calibration constant of the bin-step formula in `PRICE_SCALE` fixed
/// point (used by discretized-bin venues only).
pub struct VenueConfig {
    pub symbol: String,
    pub source: String,
    pub base_decimals: u8,
    pub quote_decimals: u8,
    pub bin_scale_scaled: u128,
}

/// One decoded, reserve-resolved observation of a venue's pool, as plain
/// values: everything a tick needs after the reads are done.
#[derive(Clone, Debug, PartialEq)]
pub enum VenueSample {
    /// Constant-product venue: the two raw vault reserves.
    Reserves { base_reserve: u64, quote_reserve: u64 },
    /// Concentrated-liquidity venue: square-root price in 2^64 fixed point,
    /// plus the resolved vault reserves.
    SqrtPrice { sqrt_price: u128, base_reserve: u64, quote_reserve: u64 },
    /// Discretized-bin venue: active bin and bin step, plus the resolved
    /// vault reserves.
    ActiveBin { active_id: i32, bin_step: u16, base_reserve: u64, quote_reserve: u64 },
}

impl VenueSample {
    /// The raw base-asset reserve carried by the sample.
    pub open spec fn spec_base_reserve(self) -> u64 {
        match self {
            VenueSample::Reserves { base_reserve, .. } => base_reserve,
            VenueSample::SqrtPrice { base_reserve, .. } => base_reserve,
            VenueSample::ActiveBin { base_reserve, .. } => base_reserve,
        }
    }

    /// The raw quote-asset reserve carried by the sample.
    pub open spec fn spec_quote_reserve(self) -> u64 {
        match self {
            VenueSample::Reserves { quote_reserve, .. } => quote_reserve,
            VenueSample::SqrtPrice { quote_reserve, .. } => quote_reserve,
            VenueSample::ActiveBin { quote_reserve, .. } => quote_reserve,
        }
    }
}

/// Whether the sample's derivation is exact in the 128-bit fixed point.
pub open spec fn sample_in_range(cfg: VenueConfig, sample: VenueSample) -> bool {
    match sample {
        VenueSample::Reserves { base_reserve, quote_reserve } => price::reserve_ratio_in_range(
            base_reserve as nat,
            quote_reserve as nat,
            cfg.base_decimals as nat,
            cfg.quote_decimals as nat,
        ),
        VenueSample::SqrtPrice { sqrt_price, .. } => price::sqrt_price_in_range(
            sqrt_price as nat,
            cfg.base_decimals as nat,
            cfg.quote_decimals as nat,
        ),
        VenueSample::ActiveBin { active_id, bin_step, .. } => price::bin_step_in_range(
            active_id as int,
            bin_step as nat,
            cfg.bin_scale_scaled as nat,
        ),
    }
}

/// The price the sample derives under the venue's formula, in `PRICE_SCALE`
/// fixed point.
pub open spec fn sample_price_spec(cfg: VenueConfig, sample: VenueSample) -> int {
    match sample {
        VenueSample::Reserves { base_reserve, quote_reserve } => price::reserve_ratio_spec(
            base_reserve as nat,
            quote_reserve as nat,
            cfg.base_decimals as nat,
            cfg.quote_decimals as nat,
        ),
        VenueSample::SqrtPrice { sqrt_price, .. } => price::sqrt_price_spec(
            sqrt_price as nat,
            cfg.base_decimals as nat,
            cfg.quote_decimals as nat,
        ),
        VenueSample::ActiveBin { active_id, bin_step, .. } => price::bin_price_rounded(
            active_id as int,
            bin_step as nat,
            cfg.bin_scale_scaled as nat,
        ),
    }
}

/// Applies the venue's derivation formula to one sample: the exact price
/// where the sample is in range, the derive error otherwise.
pub fn derive_price(cfg: &VenueConfig, sample: &VenueSample) -> (r: Result<u128, MonitorError>)
    ensures
        match r {
            Ok(v) => sample_in_range(*cfg, *sample) && v == sample_price_spec(*cfg, *sample),
            Err(e) => !sample_in_range(*cfg, *sample) && e is Derive,
        },
{
    let derived = match sample {
        VenueSample::Reserves { base_reserve, quote_reserve } => price::reserve_ratio_price_checked(
            *base_reserve,
            *quote_reserve,
            cfg.base_decimals,
            cfg.quote_decimals,
        ),
        VenueSample::SqrtPrice { sqrt_price, .. } => price::sqrt_price_scaled_checked(
            *sqrt_price,
            cfg.base_decimals,
            cfg.quote_decimals,
        ),
        VenueSample::ActiveBin { active_id, bin_step, .. } => price::bin_step_price_checked(
            *active_id,
            *bin_step,
            cfg.bin_scale_scaled,
        ),
    };
    match derived {
        Some(v) => Ok(v),
        None => Err(MonitorError::Derive),
    }
}

/// One tick of a venue monitor, after the reads: derive the price, compute
/// the percent change against this venue's own cache, build the immutable
/// event, publish it (a publish failure is reported to no one — it is not an
/// error for the producer), and cache the new price. A derivation failure
/// skips the tick and leaves the cache untouched.
pub fn process_tick(
    cfg: &VenueConfig,
    state: &mut MonitorState,
    hub: &FanOutHub,
    sample: &VenueSample,
    timestamp: u64,
) -> (r: Result<PriceUpdate, MonitorError>)
    ensures
        match r {
            Ok(ev) => sample_in_range(*cfg, *sample) && ev.price == sample_price_spec(
                *cfg,
                *sample,
            ) && ev.change_percent == price::change_from_cache_spec(
                old(state).previous_price,
                ev.price as nat,
            ) && ev.symbol@ == cfg.symbol@ && ev.source@ == cfg.source@ && ev.timestamp
                == timestamp && ev.base_reserve == sample.spec_base_reserve()
                && ev.quote_reserve == sample.spec_quote_reserve() && final(state).previous_price
                == Some(ev.price),
            Err(e) => !sample_in_range(*cfg, *sample) && e is Derive && *final(state) == *old(
                state,
            ),
        },
{
    let current_price = match derive_price(cfg, sample) {
        Ok(v) => v,
        Err(e) => {
            return Err(e);
        },
    };
    let change_percent = price::change_percent_scaled(state.previous_price, current_price);
    let (base_reserve, quote_reserve) = match sample {
        VenueSample::Reserves { base_reserve, quote_reserve } => (*base_reserve, *quote_reserve),
        VenueSample::SqrtPrice { base_reserve, quote_reserve, .. } => (
            *base_reserve,
            *quote_reserve,
        ),
        VenueSample::ActiveBin { base_reserve, quote_reserve, .. } => (
            *base_reserve,
            *quote_reserve,
        ),
    };
    let event = PriceUpdate {
        symbol: clone_string(&cfg.symbol),
        price: current_price,
        change_percent,
        timestamp,
        source: clone_string(&cfg.source),
        base_reserve,
        quote_reserve,
    };
    let published = PriceUpdate {
        symbol: clone_string(&event.symbol),
        price: event.price,
        change_percent: event.change_percent,
        timestamp: event.timestamp,
        source: clone_string(&event.source),
        base_reserve: event.base_reserve,
        quote_reserve: event.quote_reserve,
    };
    let _ = hub.publish(published);
    state.previous_price = Option::Some(current_price);
    Ok(event)
}

/// Relies on String::clone: the copy holds the same characters.
#[verifier::external_body]
fn clone_string(s: &String) -> (r: String)
    ensures
        r@ == s@,
{
    s.clone()
}

} // verus!
