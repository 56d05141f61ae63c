use xyk_approx::engine::{approximate, approximate_with_diagnostics, validate};
use xyk_approx::types::{
    ApproximationError, ApproximationRequest, DirectedUnitPair, Position, Value,
    NUM_POOLS_PRECISION,
};

fn example_request() -> ApproximationRequest {
    // pair = (A, B), input = 1_000_000 of A, price = 2.0 (fixed point, scale
    // 1_000_000), fee = 30 bps.
    ApproximationRequest {
        pair: DirectedUnitPair { start: 1, end: 2 },
        input: Value {
            asset_id: 1,
            amount: 1_000_000,
        },
        current_price: 2_000_000,
        fee_bps: 30,
    }
}

#[test]
fn example_returns_full_position_count() {
    let positions = approximate(&example_request()).unwrap();
    assert_eq!(positions.len(), NUM_POOLS_PRECISION);
}

#[test]
fn example_positions_all_carry_the_fee() {
    let positions = approximate(&example_request()).unwrap();
    for p in &positions {
        assert_eq!(p.fee_bps, 30);
    }
}

#[test]
fn example_reserves_sum_to_the_input_amount() {
    let positions = approximate(&example_request()).unwrap();
    let total: u64 = positions.iter().map(|p| p.input_reserve).sum();
    assert_eq!(total, 1_000_000);
}

#[test]
fn example_counter_reserves_match_the_price() {
    // At price 2.0 every position's counter reserve is exactly twice its
    // input reserve, and the combined counter reserves equal the implied
    // total of 2_000_000.
    let positions = approximate(&example_request()).unwrap();
    let mut total: u64 = 0;
    for p in &positions {
        assert_eq!(p.counter_reserve, 2 * p.input_reserve);
        total += p.counter_reserve;
    }
    assert_eq!(total, 2_000_000);
}

#[test]
fn example_first_and_last_position_exact() {
    // base share = 1_000_000 / 30 = 33_333, remainder 10: the first ten
    // positions hold one extra unit. The sampled range is
    // [1_000_000, 4_000_000], cut into 30 equal subintervals of 100_000.
    let positions = approximate(&example_request()).unwrap();
    assert_eq!(
        positions[0],
        Position {
            lower_price: 1_000_000,
            upper_price: 1_100_000,
            input_reserve: 33_334,
            counter_reserve: 66_668,
            fee_bps: 30,
        }
    );
    assert_eq!(
        positions[29],
        Position {
            lower_price: 3_900_000,
            upper_price: 4_000_000,
            input_reserve: 33_333,
            counter_reserve: 66_666,
            fee_bps: 30,
        }
    );
}

#[test]
fn example_price_ranges_tile_the_sampled_range() {
    let positions = approximate(&example_request()).unwrap();
    for i in 1..positions.len() {
        assert_eq!(positions[i].lower_price, positions[i - 1].upper_price);
    }
    assert_eq!(positions[0].lower_price, 1_000_000);
    assert_eq!(positions[NUM_POOLS_PRECISION - 1].upper_price, 4_000_000);
}

#[test]
fn fee_above_bound_fails() {
    let mut req = example_request();
    req.fee_bps = 5001;
    assert_eq!(approximate(&req), Err(ApproximationError::FeeTooHigh));
}

#[test]
fn fee_at_bound_succeeds() {
    let mut req = example_request();
    req.fee_bps = 5000;
    let positions = approximate(&req).unwrap();
    assert_eq!(positions.len(), NUM_POOLS_PRECISION);
    assert!(positions.iter().all(|p| p.fee_bps == 5000));
}

#[test]
fn zero_amount_fails() {
    let mut req = example_request();
    req.input.amount = 0;
    assert_eq!(approximate(&req), Err(ApproximationError::ZeroAmount));
}

#[test]
fn foreign_asset_fails() {
    let mut req = example_request();
    req.input.asset_id = 9;
    assert_eq!(approximate(&req), Err(ApproximationError::AssetNotInPair));
}

#[test]
fn either_pair_side_is_accepted() {
    let mut req = example_request();
    req.input.asset_id = 2;
    let positions = approximate(&req).unwrap();
    assert_eq!(positions.len(), NUM_POOLS_PRECISION);
}

#[test]
fn zero_price_fails() {
    let mut req = example_request();
    req.current_price = 0;
    assert_eq!(approximate(&req), Err(ApproximationError::NonPositivePrice));
}

#[test]
fn oversized_budget_fails_with_reserve_overflow() {
    // The counter-asset reserve implied by this budget and price does not
    // fit a 64-bit amount.
    let mut req = example_request();
    req.input.amount = u64::MAX;
    req.current_price = u64::MAX;
    assert_eq!(approximate(&req), Err(ApproximationError::ReserveOverflow));
}

#[test]
fn validation_order_asset_before_amount_before_fee() {
    // All checks fail at once; the first check in the fixed order names the
    // error.
    let req = ApproximationRequest {
        pair: DirectedUnitPair { start: 1, end: 2 },
        input: Value {
            asset_id: 7,
            amount: 0,
        },
        current_price: 0,
        fee_bps: 9000,
    };
    assert_eq!(validate(&req), Err(ApproximationError::AssetNotInPair));
    let mut in_pair = req;
    in_pair.input.asset_id = 1;
    assert_eq!(validate(&in_pair), Err(ApproximationError::ZeroAmount));
    let mut nonzero = in_pair;
    nonzero.input.amount = 5;
    assert_eq!(validate(&nonzero), Err(ApproximationError::FeeTooHigh));
    let mut fee_ok = nonzero;
    fee_ok.fee_bps = 5000;
    assert_eq!(validate(&fee_ok), Err(ApproximationError::NonPositivePrice));
}

#[test]
fn smallest_budget_is_conserved() {
    let mut req = example_request();
    req.input.amount = 1;
    let positions = approximate(&req).unwrap();
    let total: u64 = positions.iter().map(|p| p.input_reserve).sum();
    assert_eq!(total, 1);
    assert_eq!(positions[0].input_reserve, 1);
    assert!(positions[1..].iter().all(|p| p.input_reserve == 0));
}

#[test]
fn largest_representable_budget_is_conserved() {
    // The largest budget that still passes the reserve check at price 1.0.
    let mut req = example_request();
    req.input.amount = u64::MAX;
    req.current_price = 1_000_000;
    let positions = approximate(&req).unwrap();
    let total: u128 = positions.iter().map(|p| p.input_reserve as u128).sum();
    assert_eq!(total, u64::MAX as u128);
}

#[test]
fn counter_residual_stays_below_the_position_count() {
    // A price of 1.5 truncates every per-position counter reserve: the
    // combined counter reserves stay within one unit per position of the
    // implied total.
    let req = ApproximationRequest {
        pair: DirectedUnitPair { start: 1, end: 2 },
        input: Value {
            asset_id: 1,
            amount: 29,
        },
        current_price: 1_500_000,
        fee_bps: 0,
    };
    let positions = approximate(&req).unwrap();
    let sum: u64 = positions.iter().map(|p| p.counter_reserve).sum();
    let implied: u64 = 29 * 1_500_000 / 1_000_000;
    assert_eq!(implied, 43);
    assert_eq!(sum, 29);
    assert!(sum <= implied);
    assert!(implied - sum < NUM_POOLS_PRECISION as u64);
}

#[test]
fn identical_requests_give_identical_positions() {
    let first = approximate(&example_request()).unwrap();
    let second = approximate(&example_request()).unwrap();
    assert_eq!(first, second);
}

#[test]
fn diagnostics_do_not_change_the_positions() {
    let plain = approximate(&example_request()).unwrap();
    let (with_diag, _entries) = approximate_with_diagnostics(&example_request()).unwrap();
    assert_eq!(plain, with_diag);
}

#[test]
fn failing_request_yields_no_diagnostics() {
    // The fee check fails before any sampling: the caller gets the error
    // and no entry is ever produced.
    let mut req = example_request();
    req.fee_bps = 5001;
    assert_eq!(
        approximate_with_diagnostics(&req),
        Err(ApproximationError::FeeTooHigh)
    );
}

#[test]
fn error_descriptions_are_stable() {
    assert_eq!(
        ApproximationError::FeeTooHigh.describe(),
        "the maximum fee is 5000bps (50%)"
    );
    assert_eq!(
        ApproximationError::ZeroAmount.describe(),
        "the quantity of liquidity supplied must be non-zero"
    );
}
