//! The engine pipeline: validate the request, sample the range, build the
//! positions, and (optionally) record diagnostics. A strict linear sequence
//! with no retry: any failure is terminal for the invocation.

use vstd::prelude::*;

use crate::builder::{build_positions, implied_counter_total, position_at};
use crate::types::{
    ApproximationError, ApproximationRequest, Position, MAX_FEE_BPS, NUM_POOLS_PRECISION,
};

verus! {

/// What the validator decides, as a function of the request alone. The
/// checks run in a fixed order — asset membership, non-zero amount, fee
/// bound, positive price — and the first failing check names the error.
pub open spec fn validate_spec(req: ApproximationRequest) -> Result<(), ApproximationError> {
    if req.input.asset_id != req.pair.start && req.input.asset_id != req.pair.end {
        Err(ApproximationError::AssetNotInPair)
    } else if req.input.amount == 0 {
        Err(ApproximationError::ZeroAmount)
    } else if req.fee_bps > MAX_FEE_BPS {
        Err(ApproximationError::FeeTooHigh)
    } else if req.current_price == 0 {
        Err(ApproximationError::NonPositivePrice)
    } else {
        Ok(())
    }
}

/// Rejects malformed requests before any computation. Pure predicate over
/// the request tuple: no side effects, no partial work.
pub fn validate(req: &ApproximationRequest) -> (r: Result<(), ApproximationError>)
    requires
        req.pair.wf(),
    ensures
        r == validate_spec(*req),
{
    if req.input.asset_id != req.pair.start && req.input.asset_id != req.pair.end {
        Err(ApproximationError::AssetNotInPair)
    } else if req.input.amount == 0 {
        Err(ApproximationError::ZeroAmount)
    } else if req.fee_bps > MAX_FEE_BPS {
        Err(ApproximationError::FeeTooHigh)
    } else if req.current_price == 0 {
        Err(ApproximationError::NonPositivePrice)
    } else {
        Ok(())
    }
}

/// The position sequence of a successful approximation: exactly
/// `NUM_POOLS_PRECISION` positions, the `i`-th built from the `i`-th sample.
pub open spec fn approximate_positions_spec(req: ApproximationRequest) -> Seq<Position> {
    Seq::new(
        NUM_POOLS_PRECISION as nat,
        |i: int|
            position_at(
                req.input.amount as int,
                req.current_price as int,
                req.fee_bps,
                NUM_POOLS_PRECISION as int,
                i,
            ),
    )
}

/// What the whole engine returns, as a function of the request alone:
/// the first validation failure if any, a reserve overflow if the implied
/// counter-asset total does not fit a 64-bit amount, and the full position
/// sequence otherwise.
pub open spec fn approximate_spec(req: ApproximationRequest) -> Result<
    Seq<Position>,
    ApproximationError,
> {
    match validate_spec(req) {
        Err(e) => Err(e),
        Ok(_) => if implied_counter_total(req.input.amount as int, req.current_price as int)
            > u64::MAX {
            Err(ApproximationError::ReserveOverflow)
        } else {
            Ok(approximate_positions_spec(req))
        },
    }
}

/// Approximates a constant-product curve with `NUM_POOLS_PRECISION`
/// bounded-range positions. Succeeds exactly on requests that pass
/// validation and whose implied counter-asset total is representable; the
/// returned sequence is pinned, element by element, to
/// [`approximate_spec`], so identical requests yield identical sequences.
pub fn approximate(req: &ApproximationRequest) -> (r: Result<Vec<Position>, ApproximationError>)
    requires
        req.pair.wf(),
    ensures
        (match r {
            Ok(positions) => approximate_spec(*req) == Result::<
                Seq<Position>,
                ApproximationError,
            >::Ok(positions@),
            Err(e) => approximate_spec(*req) == Result::<Seq<Position>, ApproximationError>::Err(
                e,
            ),
        }),
{
    match validate(req) {
        Err(e) => Err(e),
        Ok(_) => {
            assert((req.input.amount as int) * (req.current_price as int) <= u64::MAX * u64::MAX)
                by (nonlinear_arith)
                requires
                    0 <= req.input.amount <= u64::MAX,
                    0 <= req.current_price <= u64::MAX,
            ;
            let product: u128 = (req.input.amount as u128) * (req.current_price as u128);
            let total: u128 = product / (crate::types::PRICE_SCALE as u128);
            if total > u64::MAX as u128 {
                Err(ApproximationError::ReserveOverflow)
            } else {
                let positions = build_positions(
                    req.input.amount,
                    req.current_price,
                    req.fee_bps,
                    NUM_POOLS_PRECISION,
                );
                proof {
                    assert(positions@ =~= approximate_positions_spec(*req));
                }
                Ok(positions)
            }
        },
    }
}

/// Approximates the curve and additionally records one diagnostic entry
/// per sample. The positions are exactly those of [`approximate`]: the
/// recorder is additive and cannot alter or mask the builder's result, and
/// a request that fails validation fails before any sampling, so no
/// diagnostics exist for it.
pub fn approximate_with_diagnostics(req: &ApproximationRequest) -> (r: Result<
    (Vec<Position>, Vec<crate::types::SampleEntry>),
    ApproximationError,
>)
    requires
        req.pair.wf(),
    ensures
        (match r {
            Ok(out) => approximate_spec(*req) == Result::<
                Seq<Position>,
                ApproximationError,
            >::Ok(out.0@) && out.1@ == crate::diagnostics::diagnostic_entries_spec(*req),
            Err(e) => approximate_spec(*req) == Result::<Seq<Position>, ApproximationError>::Err(
                e,
            ),
        }),
{
    match approximate(req) {
        Err(e) => Err(e),
        Ok(positions) => {
            let entries = crate::diagnostics::build_entries(req);
            Ok((positions, entries))
        },
    }
}

} // verus!
