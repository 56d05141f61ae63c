//! The engine's stated laws, proved once and for all requests: the fixed
//! position count and ordering, exact conservation of the input-asset
//! reserves, the bounded truncation residual of the counter-asset reserves,
//! the validation rules, and determinism of both the position sequence and
//! the diagnostic document.

use vstd::arithmetic::div_mod::{lemma_fundamental_div_mod, lemma_mod_division_less_than_divisor};
use vstd::prelude::*;

use crate::builder::{
    counter_reserve_at, implied_counter_total, lemma_counter_reserve_bounded, lemma_split_in_range,
    position_at, split_at,
};
use crate::diagnostics::{diagnostic_entries_spec, diagnostics_doc};
use crate::sampler::{
    lemma_cut_points_in_range, range_hi, range_lo, tick_lower_at, tick_upper_at,
};
use crate::engine::{approximate_positions_spec, approximate_spec, validate_spec};
use crate::types::{
    ApproximationError, ApproximationRequest, Position, MAX_FEE_BPS, NUM_POOLS_PRECISION,
    PRICE_SCALE,
};

verus! {

/// Total input-asset reserve held by a sequence of positions.
pub open spec fn sum_input_reserves(positions: Seq<Position>) -> int
    decreases positions.len(),
{
    if positions.len() == 0 {
        0
    } else {
        sum_input_reserves(positions.drop_last()) + positions.last().input_reserve
    }
}

/// Total counter-asset reserve held by a sequence of positions.
pub open spec fn sum_counter_reserves(positions: Seq<Position>) -> int
    decreases positions.len(),
{
    if positions.len() == 0 {
        0
    } else {
        sum_counter_reserves(positions.drop_last()) + positions.last().counter_reserve
    }
}

/// Input-asset units held by the first `k` of `n` shares of the split:
/// `k` even shares plus one remainder unit each for the first
/// `min(k, amount % n)` of them.
pub open spec fn prefix_split_sum(amount: int, n: int, k: int) -> int {
    k * (amount / n) + if k <= amount % n {
        k
    } else {
        amount % n
    }
}

/// One step of the prefix sums of the split.
proof fn lemma_prefix_split_step(amount: int, n: int, k: int)
    requires
        0 <= amount,
        1 <= n,
        1 <= k <= n,
    ensures
        prefix_split_sum(amount, n, k) == prefix_split_sum(amount, n, k - 1) + split_at(
            amount,
            n,
            k - 1,
        ),
{
    lemma_mod_division_less_than_divisor(amount, n);
    assert(k * (amount / n) == (k - 1) * (amount / n) + amount / n) by (nonlinear_arith);
}

/// The whole split sums back to the amount: `n` even shares plus the
/// remainder.
proof fn lemma_prefix_split_total(amount: int, n: int)
    requires
        0 <= amount,
        1 <= n,
    ensures
        prefix_split_sum(amount, n, n) == amount,
{
    lemma_fundamental_div_mod(amount, n);
    lemma_mod_division_less_than_divisor(amount, n);
    assert(n * (amount / n) == (amount / n) * n) by (nonlinear_arith);
}

/// Partial sums of the input-asset reserves follow the split exactly.
proof fn lemma_sum_split_prefix(amount: int, price: int, fee_bps: u32, n: int, k: int)
    requires
        0 <= amount <= u64::MAX,
        1 <= n,
        0 <= k <= n,
    ensures
        sum_input_reserves(
            Seq::new(n as nat, |i: int| position_at(amount, price, fee_bps, n, i)).take(k),
        ) == prefix_split_sum(amount, n, k),
    decreases k,
{
    let whole = Seq::new(n as nat, |i: int| position_at(amount, price, fee_bps, n, i));
    lemma_mod_division_less_than_divisor(amount, n);
    if k == 0 {
        assert(whole.take(0).len() == 0);
        assert(k * (amount / n) == 0) by (nonlinear_arith)
            requires
                k == 0,
        ;
    } else {
        lemma_sum_split_prefix(amount, price, fee_bps, n, k - 1);
        assert(whole.take(k).drop_last() =~= whole.take(k - 1));
        assert(whole.take(k).last() == position_at(amount, price, fee_bps, n, k - 1));
        lemma_split_in_range(amount, n, k - 1);
        assert(position_at(amount, price, fee_bps, n, k - 1).input_reserve == split_at(
            amount,
            n,
            k - 1,
        ));
        lemma_prefix_split_step(amount, n, k);
    }
}

/// Integer division distributes over addition up to one unit of slack:
/// the sum of two truncated quotients never exceeds the truncated quotient
/// of the sum, and falls short of it by at most one.
proof fn lemma_div_superadditive(a: int, b: int, d: int)
    requires
        0 <= a,
        0 <= b,
        1 <= d,
    ensures
        a / d + b / d <= (a + b) / d <= a / d + b / d + 1,
{
    lemma_fundamental_div_mod(a, d);
    lemma_fundamental_div_mod(b, d);
    lemma_fundamental_div_mod(a + b, d);
    lemma_mod_division_less_than_divisor(a, d);
    lemma_mod_division_less_than_divisor(b, d);
    lemma_mod_division_less_than_divisor(a + b, d);
    assert(a / d + b / d <= (a + b) / d <= a / d + b / d + 1) by (nonlinear_arith)
        requires
            a == d * (a / d) + a % d,
            b == d * (b / d) + b % d,
            a + b == d * ((a + b) / d) + (a + b) % d,
            0 <= a % d < d,
            0 <= b % d < d,
            0 <= (a + b) % d < d,
            1 <= d,
    ;
}

/// Partial sums of the counter-asset reserves track the fixed-point value
/// of the input-asset units placed so far: truncation loses less than one
/// counter unit per join.
proof fn lemma_sum_counter_prefix(amount: int, price: int, fee_bps: u32, n: int, k: int)
    requires
        0 <= amount <= u64::MAX,
        0 <= price <= u64::MAX,
        1 <= n,
        0 <= k <= n,
        implied_counter_total(amount, price) <= u64::MAX,
    ensures
        sum_counter_reserves(
            Seq::new(n as nat, |i: int| position_at(amount, price, fee_bps, n, i)).take(k),
        ) <= (prefix_split_sum(amount, n, k) * price) / (PRICE_SCALE as int),
        k == 0 ==> sum_counter_reserves(
            Seq::new(n as nat, |i: int| position_at(amount, price, fee_bps, n, i)).take(k),
        ) == 0,
        1 <= k ==> (prefix_split_sum(amount, n, k) * price) / (PRICE_SCALE as int) - (k - 1)
            <= sum_counter_reserves(
            Seq::new(n as nat, |i: int| position_at(amount, price, fee_bps, n, i)).take(k),
        ),
    decreases k,
{
    let whole = Seq::new(n as nat, |i: int| position_at(amount, price, fee_bps, n, i));
    lemma_mod_division_less_than_divisor(amount, n);
    if k == 0 {
        assert(whole.take(0).len() == 0);
        assert(0int * (amount / n) == 0) by (nonlinear_arith);
        assert(prefix_split_sum(amount, n, 0) == 0);
        assert((0int * price) / (PRICE_SCALE as int) == 0);
    } else {
        lemma_sum_counter_prefix(amount, price, fee_bps, n, k - 1);
        assert(whole.take(k).drop_last() =~= whole.take(k - 1));
        assert(whole.take(k).last() == position_at(amount, price, fee_bps, n, k - 1));
        lemma_counter_reserve_bounded(amount, price, n, k - 1);
        assert(position_at(amount, price, fee_bps, n, k - 1).counter_reserve == counter_reserve_at(
            amount,
            price,
            n,
            k - 1,
        ));
        lemma_prefix_split_step(amount, n, k);
        lemma_split_in_range(amount, n, k - 1);
        assert(0 <= prefix_split_sum(amount, n, k - 1) * price) by (nonlinear_arith)
            requires
                0 <= prefix_split_sum(amount, n, k - 1),
                0 <= price,
        ;
        assert(0 <= split_at(amount, n, k - 1) * price) by (nonlinear_arith)
            requires
                0 <= split_at(amount, n, k - 1),
                0 <= price,
        ;
        lemma_div_superadditive(
            prefix_split_sum(amount, n, k - 1) * price,
            split_at(amount, n, k - 1) * price,
            PRICE_SCALE as int,
        );
        assert(prefix_split_sum(amount, n, k - 1) * price + split_at(amount, n, k - 1) * price
            == prefix_split_sum(amount, n, k) * price) by (nonlinear_arith)
            requires
                prefix_split_sum(amount, n, k - 1) + split_at(amount, n, k - 1)
                    == prefix_split_sum(amount, n, k),
        ;
    }
}

/// Every successful approximation returns exactly `NUM_POOLS_PRECISION`
/// positions, and the `i`-th of them is the one built from the `i`-th
/// sample: the order of the returned sequence is the sample order.
pub proof fn lemma_position_count_and_order(req: ApproximationRequest)
    ensures
        approximate_positions_spec(req).len() == NUM_POOLS_PRECISION,
        forall|i: int|
            0 <= i < NUM_POOLS_PRECISION ==> approximate_positions_spec(req)[i] == position_at(
                req.input.amount as int,
                req.current_price as int,
                req.fee_bps,
                NUM_POOLS_PRECISION as int,
                i,
            ),
{
}

/// Conservation of the budget: the input-asset reserves of the returned
/// positions sum exactly to the input amount — the approximation neither
/// creates nor destroys any unit of the supplied asset.
pub proof fn lemma_reserve_conservation(req: ApproximationRequest)
    requires
        approximate_spec(req) is Ok,
    ensures
        sum_input_reserves(approximate_positions_spec(req)) == req.input.amount,
{
    let amount = req.input.amount as int;
    let n = NUM_POOLS_PRECISION as int;
    lemma_sum_split_prefix(amount, req.current_price as int, req.fee_bps, n, n);
    let whole = Seq::new(
        n as nat,
        |i: int|
            position_at(amount, req.current_price as int, req.fee_bps, n, i),
    );
    assert(whole.take(n) =~= whole);
    lemma_prefix_split_total(amount, n);
}

/// Bounded truncation residual on the counter side: the counter-asset
/// reserves of the returned positions sum to at most the counter total
/// implied by the whole budget, and fall short of it by less than one unit
/// per position.
pub proof fn lemma_counter_residual_bounded(req: ApproximationRequest)
    requires
        approximate_spec(req) is Ok,
    ensures
        sum_counter_reserves(approximate_positions_spec(req)) <= implied_counter_total(
            req.input.amount as int,
            req.current_price as int,
        ),
        implied_counter_total(req.input.amount as int, req.current_price as int)
            - sum_counter_reserves(approximate_positions_spec(req)) < NUM_POOLS_PRECISION,
{
    let amount = req.input.amount as int;
    let price = req.current_price as int;
    let n = NUM_POOLS_PRECISION as int;
    lemma_sum_counter_prefix(amount, price, req.fee_bps, n, n);
    let whole = Seq::new(
        n as nat,
        |i: int| position_at(amount, price, req.fee_bps, n, i),
    );
    assert(whole.take(n) =~= whole);
    lemma_prefix_split_total(amount, n);
}

/// The positions tile the feasible price range: the first position starts
/// at the lower end of the sampled range, each position starts where the
/// previous one ends, and the last position ends at the upper end — so the
/// union of the price ranges spans the whole sampled range with no gap and
/// no overlap.
pub proof fn lemma_positions_tile_the_range(req: ApproximationRequest)
    requires
        approximate_spec(req) is Ok,
    ensures
        approximate_positions_spec(req)[0].lower_price == range_lo(req.current_price as int),
        approximate_positions_spec(req)[NUM_POOLS_PRECISION - 1].upper_price == range_hi(
            req.current_price as int,
        ),
        forall|i: int|
            0 <= i < NUM_POOLS_PRECISION - 1 ==> approximate_positions_spec(req)[i].upper_price
                == approximate_positions_spec(req)[i + 1].lower_price,
{
    let price = req.current_price as int;
    let n = NUM_POOLS_PRECISION as int;
    assert forall|i: int| 0 <= i <= n implies range_lo(price) <= #[trigger] tick_lower_at(
        price,
        n,
        i,
    ) <= range_hi(price) by {
        lemma_cut_points_in_range(price, n, i);
    }
    assert forall|i: int| 0 <= i < n implies range_lo(price) <= #[trigger] tick_upper_at(
        price,
        n,
        i,
    ) <= range_hi(price) by {
        lemma_cut_points_in_range(price, n, i + 1);
    }
    lemma_cut_points_in_range(price, n, 0);
    lemma_cut_points_in_range(price, n, n);
}

/// A fee above `MAX_FEE_BPS` always fails with `FeeTooHigh` on a request
/// that passes the checks made before the fee check (asset membership and
/// a non-zero amount); a fee of exactly `MAX_FEE_BPS` passes the fee
/// check, and succeeds whenever the remaining checks pass too.
pub proof fn lemma_fee_rule(req: ApproximationRequest)
    requires
        req.input.asset_id == req.pair.start || req.input.asset_id == req.pair.end,
        req.input.amount > 0,
    ensures
        req.fee_bps > MAX_FEE_BPS ==> approximate_spec(req) == Result::<
            Seq<Position>,
            ApproximationError,
        >::Err(ApproximationError::FeeTooHigh),
        (req.fee_bps <= MAX_FEE_BPS && req.current_price > 0 && implied_counter_total(
            req.input.amount as int,
            req.current_price as int,
        ) <= u64::MAX) ==> approximate_spec(req) is Ok,
{
}

/// A zero input amount always fails with `ZeroAmount` on a request whose
/// asset belongs to the pair (asset membership is checked first).
pub proof fn lemma_zero_amount_rule(req: ApproximationRequest)
    requires
        req.input.asset_id == req.pair.start || req.input.asset_id == req.pair.end,
    ensures
        req.input.amount == 0 ==> approximate_spec(req) == Result::<
            Seq<Position>,
            ApproximationError,
        >::Err(ApproximationError::ZeroAmount),
{
}

/// An input asset on neither side of the pair always fails with
/// `AssetNotInPair`, whatever the other fields hold; an asset equal to
/// either side passes the membership check, and succeeds whenever the
/// remaining checks pass too.
pub proof fn lemma_asset_rule(req: ApproximationRequest)
    ensures
        (req.input.asset_id != req.pair.start && req.input.asset_id != req.pair.end)
            ==> approximate_spec(req) == Result::<Seq<Position>, ApproximationError>::Err(
            ApproximationError::AssetNotInPair,
        ),
        ((req.input.asset_id == req.pair.start || req.input.asset_id == req.pair.end)
            && req.input.amount > 0 && req.fee_bps <= MAX_FEE_BPS && req.current_price > 0
            && implied_counter_total(req.input.amount as int, req.current_price as int)
            <= u64::MAX) ==> approximate_spec(req) is Ok,
{
}

/// Determinism: the engine's result and its diagnostic document are pure
/// functions of the request. [`crate::engine::approximate`] pins its
/// result to [`approximate_spec`], [`crate::diagnostics::build_entries`]
/// pins the entries to [`diagnostic_entries_spec`], and
/// [`crate::diagnostics::render_diagnostics`] pins the document bytes to
/// [`diagnostics_doc`]; so two calls on equal requests return equal
/// position sequences and byte-identical documents.
pub proof fn lemma_deterministic(first: ApproximationRequest, second: ApproximationRequest)
    requires
        first == second,
    ensures
        approximate_spec(first) == approximate_spec(second),
        validate_spec(first) == validate_spec(second),
        diagnostics_doc(diagnostic_entries_spec(first)) == diagnostics_doc(
            diagnostic_entries_spec(second),
        ),
{
}

} // verus!
