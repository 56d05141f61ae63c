use xyk_approx::diagnostics::render_diagnostics;
use xyk_approx::engine::approximate_with_diagnostics;
use xyk_approx::sampler::sample_full_range;
use xyk_approx::types::{
    ApproximationRequest, DirectedUnitPair, SampleEntry, Value, NUM_POOLS_PRECISION,
};

fn example_request() -> ApproximationRequest {
    ApproximationRequest {
        pair: DirectedUnitPair { start: 1, end: 2 },
        input: Value {
            asset_id: 1,
            amount: 1_000_000,
        },
        current_price: 2_000_000,
        fee_bps: 30,
    }
}

#[test]
fn one_entry_renders_exactly() {
    let entries = vec![SampleEntry {
        index: 0,
        alpha: 5,
        payoff: 7,
        current_price: 3,
        pair: DirectedUnitPair { start: 1, end: 2 },
        total_k: 21,
    }];
    let doc = render_diagnostics(&entries);
    let expected = "[{\"payoff\":7,\"current_price\":3,\"index\":0,\"pair\":{\"start\":1,\"end\":2},\"alpha\":5,\"total_k\":21}]";
    assert_eq!(doc, expected.as_bytes().to_vec());
}

#[test]
fn empty_entry_list_renders_an_empty_array() {
    let entries: Vec<SampleEntry> = Vec::new();
    assert_eq!(render_diagnostics(&entries), b"[]".to_vec());
}

#[test]
fn two_entries_are_joined_by_a_comma() {
    let first = SampleEntry {
        index: 0,
        alpha: 10,
        payoff: 0,
        current_price: 1,
        pair: DirectedUnitPair { start: 4, end: 5 },
        total_k: 0,
    };
    let second = SampleEntry { index: 1, ..first };
    let doc = render_diagnostics(&vec![first, second]);
    let expected = "[{\"payoff\":0,\"current_price\":1,\"index\":0,\"pair\":{\"start\":4,\"end\":5},\"alpha\":10,\"total_k\":0},{\"payoff\":0,\"current_price\":1,\"index\":1,\"pair\":{\"start\":4,\"end\":5},\"alpha\":10,\"total_k\":0}]";
    assert_eq!(doc, expected.as_bytes().to_vec());
}

#[test]
fn large_values_render_in_full_decimal() {
    let entries = vec![SampleEntry {
        index: 12,
        alpha: u128::MAX,
        payoff: 340,
        current_price: u64::MAX,
        pair: DirectedUnitPair { start: 0, end: 10 },
        total_k: u128::MAX,
    }];
    let doc = render_diagnostics(&entries);
    let expected = format!(
        "[{{\"payoff\":340,\"current_price\":{},\"index\":12,\"pair\":{{\"start\":0,\"end\":10}},\"alpha\":{},\"total_k\":{}}}]",
        u64::MAX,
        u128::MAX,
        u128::MAX
    );
    assert_eq!(doc, expected.as_bytes().to_vec());
}

#[test]
fn example_entries_follow_the_samples() {
    let (positions, entries) = approximate_with_diagnostics(&example_request()).unwrap();
    assert_eq!(entries.len(), NUM_POOLS_PRECISION);
    for (i, entry) in entries.iter().enumerate() {
        assert_eq!(entry.index, i);
        assert_eq!(entry.current_price, 2_000_000);
        assert_eq!(entry.pair, DirectedUnitPair { start: 1, end: 2 });
        // k = r1 * r2 with r1 = 1_000_000 and r2 = 2_000_000.
        assert_eq!(entry.total_k, 2_000_000_000_000);
        // The payoff at the reference price is both legs of the split:
        // twice the position's counter reserve.
        assert_eq!(entry.payoff, 2 * positions[i].counter_reserve as u128);
        // The tick is the midpoint of the position's price range.
        assert_eq!(
            entry.alpha,
            (positions[i].lower_price + positions[i].upper_price) / 2
        );
    }
}

#[test]
fn identical_requests_give_byte_identical_documents() {
    let (_, first) = approximate_with_diagnostics(&example_request()).unwrap();
    let (_, second) = approximate_with_diagnostics(&example_request()).unwrap();
    assert_eq!(render_diagnostics(&first), render_diagnostics(&second));
}

#[test]
fn sampled_ticks_are_ordered_and_span_the_range() {
    let alphas = sample_full_range(2_000_000, 30);
    assert_eq!(alphas.len(), 30);
    // Range [1_000_000, 4_000_000] in 30 subintervals: midpoints step by
    // 100_000 starting at 1_050_000.
    assert_eq!(alphas[0], 1_050_000);
    assert_eq!(alphas[29], 3_950_000);
    for i in 1..alphas.len() {
        assert_eq!(alphas[i], alphas[i - 1] + 100_000);
    }
}

#[test]
fn single_sample_sits_mid_range() {
    let alphas = sample_full_range(2_000_000, 1);
    assert_eq!(alphas, vec![2_500_000]);
}

#[test]
fn unit_price_sampling_stays_positive() {
    // The smallest positive fixed-point price: the clamped range is [1, 2].
    let alphas = sample_full_range(1, 30);
    assert_eq!(alphas.len(), 30);
    assert!(alphas.iter().all(|&a| a >= 1 && a <= 2));
}
