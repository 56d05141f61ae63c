//! Range sampler: deterministically places `n` ticks ("alphas") across the
//! feasible price range around a reference price.
//!
//! The sampled range is `[lo, hi]` with `lo = max(1, price / 2)` and
//! `hi = 2 * price`: one halving to one doubling of the reference price,
//! clamped below so the lower bound stays a positive fixed-point price. The
//! range is cut into `n` equal subintervals; the `i`-th tick is the midpoint
//! of the `i`-th subinterval (integer arithmetic, truncated), and the `i`-th
//! position later covers exactly that subinterval.

use vstd::arithmetic::div_mod::{
    lemma_div_is_ordered, lemma_div_multiples_vanish, lemma_div_of0, lemma_div_pos_is_pos,
    lemma_fundamental_div_mod,
};
use vstd::arithmetic::mul::lemma_mul_inequality;
use vstd::prelude::*;

use crate::types::MAX_SAMPLES;

verus! {

/// Lower end of the sampled price range: half the reference price, clamped
/// to stay a positive fixed-point price.
pub open spec fn range_lo(price: int) -> int {
    if price / 2 < 1 {
        1
    } else {
        price / 2
    }
}

/// Upper end of the sampled price range: twice the reference price.
pub open spec fn range_hi(price: int) -> int {
    2 * price
}

/// Width of the sampled price range.
pub open spec fn range_width(price: int) -> int {
    range_hi(price) - range_lo(price)
}

/// The `i`-th of `n` ticks: the midpoint of the `i`-th of `n` equal
/// subintervals of the sampled range, truncated to an integer.
pub open spec fn alpha_at(price: int, n: int, i: int) -> int {
    range_lo(price) + ((2 * i + 1) * range_width(price)) / (2 * n)
}

/// Lower price bound of the `i`-th of `n` subintervals of the sampled range.
pub open spec fn tick_lower_at(price: int, n: int, i: int) -> int {
    range_lo(price) + (i * range_width(price)) / n
}

/// Upper price bound of the `i`-th of `n` subintervals of the sampled range.
pub open spec fn tick_upper_at(price: int, n: int, i: int) -> int {
    range_lo(price) + ((i + 1) * range_width(price)) / n
}

/// The cut points of the sampled range stay inside it: for every
/// `0 <= i <= n`, the `i`-th cut `lo + (i * width) / n` lies between the
/// range ends, the zeroth cut is the lower end, and the `n`-th cut is the
/// upper end.
pub proof fn lemma_cut_points_in_range(price: int, n: int, i: int)
    requires
        1 <= price,
        1 <= n,
        0 <= i <= n,
    ensures
        range_lo(price) <= range_lo(price) + (i * range_width(price)) / n <= range_hi(price),
        i == 0 ==> range_lo(price) + (i * range_width(price)) / n == range_lo(price),
        i == n ==> range_lo(price) + (i * range_width(price)) / n == range_hi(price),
{
    let w = range_width(price);
    lemma_fundamental_div_mod(price, 2);
    assert(range_lo(price) <= price) by (nonlinear_arith)
        requires
            1 <= price,
            price == 2 * (price / 2) + price % 2,
            0 <= price % 2 < 2,
            range_lo(price) == if price / 2 < 1 {
                1int
            } else {
                price / 2
            },
    ;
    assert(0 <= w);
    assert(0 <= i * w) by (nonlinear_arith)
        requires
            0 <= i,
            0 <= w,
    ;
    lemma_div_pos_is_pos(i * w, n);
    lemma_mul_inequality(i, n, w);
    lemma_div_is_ordered(i * w, n * w, n);
    lemma_div_multiples_vanish(w, n);
    if i == 0 {
        assert(0int * w == 0) by (nonlinear_arith);
        lemma_div_of0(n);
    }
    if i == n {
        assert(i * w == n * w);
    }
}

/// Computes `max(1, price / 2)`, the lower end of the sampled range.
fn range_lo_exec(current_price: u64) -> (lo: u128)
    requires
        1 <= current_price,
    ensures
        lo == range_lo(current_price as int),
{
    let half: u64 = current_price / 2;
    if half < 1 {
        1
    } else {
        half as u128
    }
}

/// Emits the `n` ordered ticks spanning the sampled range around
/// `current_price`. Sampling never fails on a validated request: every tick
/// of every admissible price and sample count is representable.
pub fn sample_full_range(current_price: u64, n: usize) -> (alphas: Vec<u128>)
    requires
        1 <= current_price,
        1 <= n <= MAX_SAMPLES,
    ensures
        alphas@.len() == n,
        forall|i: int| 0 <= i < n ==> alphas@[i] == alpha_at(current_price as int, n as int, i),
{
    let lo: u128 = range_lo_exec(current_price);
    let hi: u128 = 2 * (current_price as u128);
    let width: u128 = hi - lo;
    let two_n: u128 = 2 * (n as u128);
    let mut alphas: Vec<u128> = Vec::new();
    let mut i: usize = 0;
    while i < n
        invariant
            1 <= current_price,
            1 <= n <= MAX_SAMPLES,
            lo == range_lo(current_price as int),
            hi == range_hi(current_price as int),
            width == range_width(current_price as int),
            two_n == 2 * n,
            i <= n,
            alphas@.len() == i,
            forall|j: int|
                0 <= j < i ==> alphas@[j] == alpha_at(current_price as int, n as int, j),
        decreases n - i,
    {
        let odd: u128 = 2 * (i as u128) + 1;
        assert(odd * width <= (2 * MAX_SAMPLES + 1) * (2 * u64::MAX as int)) by (nonlinear_arith)
            requires
                odd <= 2 * MAX_SAMPLES + 1,
                0 <= width <= 2 * u64::MAX as int,
        ;
        let alpha: u128 = lo + (odd * width) / two_n;
        alphas.push(alpha);
        i = i + 1;
    }
    alphas
}

} // verus!
