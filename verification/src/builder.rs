//! Position builder: turns each sampled tick into one bounded-range
//! constant-product position.
//!
//! The liquidity budget is split across the `n` positions so that no unit of
//! the input asset is created or destroyed: position `i` receives
//! `amount / n` units, plus one extra unit for the first `amount % n`
//! positions. The counter-asset reserve of each position is the fixed-point
//! product of its input-asset reserve with the reference price, truncated;
//! the build succeeds only when the counter-asset reserve implied by the
//! whole budget fits a 64-bit amount, which bounds every per-position
//! reserve as well.

use vstd::arithmetic::div_mod::{
    lemma_div_is_ordered, lemma_fundamental_div_mod, lemma_mod_division_less_than_divisor,
};
use vstd::arithmetic::mul::lemma_mul_inequality;
use vstd::prelude::*;

use crate::sampler::{range_lo, range_width, tick_lower_at, tick_upper_at};
use crate::types::{Position, MAX_SAMPLES, PRICE_SCALE};

verus! {

/// Input-asset reserve of the `i`-th of `n` positions: an even split of the
/// budget, with the remainder spread one unit at a time over the leading
/// positions.
pub open spec fn split_at(amount: int, n: int, i: int) -> int {
    amount / n + if i < amount % n {
        1int
    } else {
        0int
    }
}

/// Counter-asset reserve of the `i`-th of `n` positions: the fixed-point
/// product of its input-asset reserve with the reference price, truncated.
pub open spec fn counter_reserve_at(amount: int, price: int, n: int, i: int) -> int {
    (split_at(amount, n, i) * price) / (PRICE_SCALE as int)
}

/// Counter-asset reserve implied by the whole budget at the reference
/// price. The build fails unless this fits a 64-bit amount.
pub open spec fn implied_counter_total(amount: int, price: int) -> int {
    (amount * price) / (PRICE_SCALE as int)
}

/// The `i`-th of `n` positions of a build: it covers the `i`-th subinterval
/// of the sampled price range and carries the `i`-th share of the budget.
pub open spec fn position_at(amount: int, price: int, fee_bps: u32, n: int, i: int) -> Position {
    Position {
        lower_price: tick_lower_at(price, n, i) as u128,
        upper_price: tick_upper_at(price, n, i) as u128,
        input_reserve: split_at(amount, n, i) as u64,
        counter_reserve: counter_reserve_at(amount, price, n, i) as u64,
        fee_bps: fee_bps,
    }
}

/// Every share of the split stays within the budget.
pub proof fn lemma_split_in_range(amount: int, n: int, i: int)
    requires
        0 <= amount,
        1 <= n,
        0 <= i,
    ensures
        0 <= split_at(amount, n, i) <= amount,
{
    lemma_fundamental_div_mod(amount, n);
    lemma_mod_division_less_than_divisor(amount, n);
    let q = amount / n;
    let r = amount % n;
    assert(q >= 0) by (nonlinear_arith)
        requires
            amount >= 0,
            n >= 1,
            amount == n * q + r,
            0 <= r < n,
    ;
    if i < r {
        assert(q + 1 <= amount) by (nonlinear_arith)
            requires
                amount == n * q + r,
                q >= 0,
                n >= 1,
                r >= 1,
        ;
    } else {
        assert(q <= amount) by (nonlinear_arith)
            requires
                amount == n * q + r,
                q >= 0,
                n >= 1,
                r >= 0,
        ;
    }
}

/// Truncated fixed-point products are monotone in the reserve, so every
/// per-position counter reserve is bounded by the budget-wide one.
pub proof fn lemma_counter_reserve_bounded(amount: int, price: int, n: int, i: int)
    requires
        0 <= amount,
        0 <= price,
        1 <= n,
        0 <= i,
    ensures
        0 <= counter_reserve_at(amount, price, n, i) <= implied_counter_total(amount, price),
{
    lemma_split_in_range(amount, n, i);
    lemma_mul_inequality(split_at(amount, n, i), amount, price);
    lemma_div_is_ordered(split_at(amount, n, i) * price, amount * price, PRICE_SCALE as int);
    assert(split_at(amount, n, i) * price >= 0) by (nonlinear_arith)
        requires
            split_at(amount, n, i) >= 0,
            price >= 0,
    ;
    lemma_div_is_ordered(0, split_at(amount, n, i) * price, PRICE_SCALE as int);
}

/// Builds the `n` positions of one approximation, in ascending sample
/// order: the `i`-th element of the result is exactly `position_at(.., i)`.
pub fn build_positions(amount: u64, current_price: u64, fee_bps: u32, n: usize) -> (positions:
    Vec<Position>)
    requires
        1 <= current_price,
        1 <= n <= MAX_SAMPLES,
        implied_counter_total(amount as int, current_price as int) <= u64::MAX,
    ensures
        positions@.len() == n,
        forall|i: int|
            0 <= i < n ==> positions@[i] == position_at(
                amount as int,
                current_price as int,
                fee_bps,
                n as int,
                i,
            ),
{
    let base: u64 = amount / (n as u64);
    let rem: u64 = amount % (n as u64);
    let lo: u128 = if current_price / 2 < 1 {
        1
    } else {
        (current_price / 2) as u128
    };
    let hi: u128 = 2 * (current_price as u128);
    let width: u128 = hi - lo;
    let n128: u128 = n as u128;
    let scale: u128 = PRICE_SCALE as u128;
    let mut positions: Vec<Position> = Vec::new();
    let mut i: usize = 0;
    while i < n
        invariant
            1 <= current_price,
            1 <= n <= MAX_SAMPLES,
            implied_counter_total(amount as int, current_price as int) <= u64::MAX,
            base == amount as int / n as int,
            rem == amount as int % n as int,
            lo == range_lo(current_price as int),
            width == range_width(current_price as int),
            n128 == n,
            scale == PRICE_SCALE,
            i <= n,
            positions@.len() == i,
            forall|j: int|
                0 <= j < i ==> positions@[j] == position_at(
                    amount as int,
                    current_price as int,
                    fee_bps,
                    n as int,
                    j,
                ),
        decreases n - i,
    {
        proof {
            lemma_split_in_range(amount as int, n as int, i as int);
        }
        let input_reserve: u64 = if (i as u64) < rem {
            base + 1
        } else {
            base
        };
        assert(input_reserve == split_at(amount as int, n as int, i as int));
        assert((input_reserve as int) * (current_price as int) <= u64::MAX * u64::MAX)
            by (nonlinear_arith)
            requires
                0 <= input_reserve <= u64::MAX,
                0 <= current_price <= u64::MAX,
        ;
        let product: u128 = (input_reserve as u128) * (current_price as u128);
        let counter_wide: u128 = product / scale;
        proof {
            lemma_counter_reserve_bounded(amount as int, current_price as int, n as int, i as int);
        }
        let counter_reserve: u64 = counter_wide as u64;
        assert((i as u128) * width <= MAX_SAMPLES * (2 * u64::MAX as int)) by (nonlinear_arith)
            requires
                i <= MAX_SAMPLES,
                0 <= width <= 2 * u64::MAX as int,
        ;
        assert((i as u128 + 1) * width <= (MAX_SAMPLES + 1) * (2 * u64::MAX as int))
            by (nonlinear_arith)
            requires
                i + 1 <= MAX_SAMPLES + 1,
                0 <= width <= 2 * u64::MAX as int,
        ;
        let lower_price: u128 = lo + ((i as u128) * width) / n128;
        let upper_price: u128 = lo + ((i as u128 + 1) * width) / n128;
        let position = Position {
            lower_price,
            upper_price,
            input_reserve,
            counter_reserve,
            fee_bps,
        };
        assert(position == position_at(
            amount as int,
            current_price as int,
            fee_bps,
            n as int,
            i as int,
        ));
        positions.push(position);
        i = i + 1;
    }
    positions
}

} // verus!
