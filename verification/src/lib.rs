//! A curve-approximation engine for constant-product ("xyk") market making.
//!
//! Given a liquidity budget in one asset of a directed trading pair, a
//! reference price, and a fee rate, the engine constructs a fixed number of
//! discrete, bounded-range liquidity positions whose combined reserves
//! approximate a continuous constant-product curve. All prices are carried as
//! fixed-point integers scaled by [`types::PRICE_SCALE`]; all reserve
//! arithmetic is integer arithmetic with explicit truncation rules, so that
//! the sum of the per-position input-asset reserves equals the input amount
//! exactly.
//!
//! The pipeline is a strict linear sequence: validate the request, sample the
//! price range, build one position per sample, and (optionally) record one
//! diagnostic entry per sample. Every stage is deterministic: identical
//! requests produce identical position sequences and identical diagnostic
//! documents.

pub mod builder;
pub mod diagnostics;
pub mod engine;
pub mod laws;
pub mod sampler;
pub mod types;
