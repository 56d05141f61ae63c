//! Core data model: assets, pairs, requests, positions, diagnostic entries,
//! and the error taxonomy of the engine.

use vstd::prelude::*;

verus! {

/// Number of discrete positions used to approximate the continuous curve.
/// A compiled-in precision constant: every successful approximation returns
/// exactly this many positions.
pub const NUM_POOLS_PRECISION: usize = 30;

/// Denominator of the fixed-point price representation: a stored price `p`
/// denotes the real price `p / PRICE_SCALE` (units of the pair's `end` asset
/// per unit of its `start` asset).
pub const PRICE_SCALE: u64 = 1_000_000;

/// Maximum admissible fee, in basis points (50%).
pub const MAX_FEE_BPS: u32 = 5000;

/// Largest sample count the range sampler accepts. This bound exists only so
/// that the tick arithmetic provably fits in 128-bit integers; the engine
/// itself always samples `NUM_POOLS_PRECISION` points.
pub const MAX_SAMPLES: usize = 4096;

/// An ordered pair of two distinct asset identifiers. The order fixes the
/// price convention: a price is quoted in units of `end` per unit of `start`.
#[derive(Clone, Copy, Debug, PartialEq, Eq, Structural)]
pub struct DirectedUnitPair {
    pub start: u64,
    pub end: u64,
}

impl DirectedUnitPair {
    /// The two sides of a directed pair must be distinct assets.
    pub open spec fn wf(self) -> bool {
        self.start != self.end
    }
}

/// A quantity of one asset.
#[derive(Clone, Copy, Debug, PartialEq, Eq, Structural)]
pub struct Value {
    pub asset_id: u64,
    pub amount: u64,
}

/// One invocation of the engine: the pair, the liquidity budget, the
/// reference price (fixed point, scaled by [`PRICE_SCALE`]), and the fee in
/// basis points. Constructed once per invocation and never mutated.
#[derive(Clone, Copy, Debug, PartialEq, Eq, Structural)]
pub struct ApproximationRequest {
    pub pair: DirectedUnitPair,
    pub input: Value,
    pub current_price: u64,
    pub fee_bps: u32,
}

/// One bounded-range constant-product position. Price bounds are fixed-point
/// (scaled by [`PRICE_SCALE`]); the reserve split is expressed as an
/// input-asset reserve and the counter-asset reserve implied by the
/// reference price.
#[derive(Clone, Copy, Debug, PartialEq, Eq, Structural)]
pub struct Position {
    /// Lower price bound of the range this position covers.
    pub lower_price: u128,
    /// Upper price bound of the range this position covers.
    pub upper_price: u128,
    /// Reserves denominated in the input asset.
    pub input_reserve: u64,
    /// Reserves denominated in the counter asset, implied by the reference
    /// price (truncated fixed-point product).
    pub counter_reserve: u64,
    /// Fee rate of this position, in basis points.
    pub fee_bps: u32,
}

/// One diagnostic record per sample: the sample index, its tick ("alpha"),
/// the position's payoff at the reference price, the reference price itself,
/// the pair, and the total constant-product invariant of the whole budget.
#[derive(Clone, Copy, Debug, PartialEq, Eq, Structural)]
pub struct SampleEntry {
    pub index: usize,
    pub alpha: u128,
    pub payoff: u128,
    pub current_price: u64,
    pub pair: DirectedUnitPair,
    pub total_k: u128,
}

/// Everything that can go wrong in one invocation of the engine.
#[derive(Clone, Copy, Debug, PartialEq, Eq, Structural)]
pub enum ApproximationError {
    /// The input value's asset is neither side of the pair.
    AssetNotInPair,
    /// The input amount is zero.
    ZeroAmount,
    /// The fee exceeds [`MAX_FEE_BPS`].
    FeeTooHigh,
    /// The fixed-point price is zero, i.e. the real price is not positive.
    NonPositivePrice,
    /// The counter-asset reserve implied by the budget and the price does
    /// not fit a 64-bit amount.
    ReserveOverflow,
}

impl ApproximationError {
    /// A short human-readable description of the failure.
    pub fn describe(&self) -> (r: &'static str)
        ensures
            r@.len() > 0,
            (match self {
                ApproximationError::AssetNotInPair => r@
                    == "the input asset is not part of the market pair"@,
                ApproximationError::ZeroAmount => r@
                    == "the quantity of liquidity supplied must be non-zero"@,
                ApproximationError::FeeTooHigh => r@ == "the maximum fee is 5000bps (50%)"@,
                ApproximationError::NonPositivePrice => r@ == "the current price must be positive"@,
                ApproximationError::ReserveOverflow => r@
                    == "the implied counter-asset reserve overflows"@,
            }),
    {
        proof {
            reveal_strlit("the input asset is not part of the market pair");
            reveal_strlit("the quantity of liquidity supplied must be non-zero");
            reveal_strlit("the maximum fee is 5000bps (50%)");
            reveal_strlit("the current price must be positive");
            reveal_strlit("the implied counter-asset reserve overflows");
        }
        match self {
            ApproximationError::AssetNotInPair => "the input asset is not part of the market pair",
            ApproximationError::ZeroAmount => "the quantity of liquidity supplied must be non-zero",
            ApproximationError::FeeTooHigh => "the maximum fee is 5000bps (50%)",
            ApproximationError::NonPositivePrice => "the current price must be positive",
            ApproximationError::ReserveOverflow => "the implied counter-asset reserve overflows",
        }
    }
}

} // verus!
