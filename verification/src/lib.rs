//! Library core of a multi-venue liquidity-pool price monitor.
//!
//! Three venue families encode their pool state differently; each gets an
//! exact fixed-point price-derivation formula (`price`). A per-venue monitor
//! turns a decoded pool sample into a normalized event and keeps the cache
//! used for percent-change reporting (`monitor`, `events`). Events leave the
//! core through a bounded fan-out hub (`hub`), and a restart policy governs
//! how a failed monitor loop is resumed (`supervisor`).
//!
//! Prices and percent changes are carried as integers scaled by
//! `price::PRICE_SCALE` (nine fractional decimal digits), so every formula
//! has an exact arithmetic contract instead of floating-point behaviour.

pub mod diag;
pub mod events;
pub mod hub;
pub mod monitor;
pub mod price;
pub mod supervisor;
