//! Diagnostic recorder: one entry per sample, and a renderer that turns the
//! ordered entries into a structured UTF-8 document (a JSON array of
//! records with the fields `payoff`, `current_price`, `index`, `pair`,
//! `alpha` and `total_k`).
//!
//! The recorder is strictly additive: it reads the same request the builder
//! reads and never changes what the builder returns. The rendered bytes are
//! a pure function of the entries, so equal entry sequences give
//! byte-identical documents. Byte values below are ASCII codes; each run of
//! literal bytes is named after the text it spells.

use vstd::prelude::*;

use crate::builder::{counter_reserve_at, implied_counter_total};
use crate::sampler::alpha_at;
use crate::types::{ApproximationRequest, SampleEntry, NUM_POOLS_PRECISION};

verus! {

/// Payoff of the `i`-th position at the reference price, in counter-asset
/// units: both legs of the reserve split are worth the position's counter
/// reserve there, so the payoff is twice that reserve.
pub open spec fn payoff_at(amount: int, price: int, n: int, i: int) -> int {
    2 * counter_reserve_at(amount, price, n, i)
}

/// Constant-product invariant of the whole budget: the input-asset reserve
/// times the counter-asset reserve implied by the reference price.
pub open spec fn total_k_spec(amount: int, price: int) -> int {
    amount * implied_counter_total(amount, price)
}

/// The `i`-th diagnostic entry of a request, as a function of the request
/// alone.
pub open spec fn entry_at(req: ApproximationRequest, n: int, i: int) -> SampleEntry {
    SampleEntry {
        index: i as usize,
        alpha: alpha_at(req.current_price as int, n, i) as u128,
        payoff: payoff_at(req.input.amount as int, req.current_price as int, n, i) as u128,
        current_price: req.current_price,
        pair: req.pair,
        total_k: total_k_spec(req.input.amount as int, req.current_price as int) as u128,
    }
}

/// The full ordered diagnostic record of a request: one entry per sample.
pub open spec fn diagnostic_entries_spec(req: ApproximationRequest) -> Seq<SampleEntry> {
    Seq::new(
        NUM_POOLS_PRECISION as nat,
        |i: int| entry_at(req, NUM_POOLS_PRECISION as int, i),
    )
}

/// Decimal digits of a non-negative integer, most significant first, as
/// ASCII bytes.
pub open spec fn decimal_digits(v: nat) -> Seq<u8>
    decreases v,
{
    if v < 10 {
        seq![(v + 48) as u8]
    } else {
        decimal_digits(v / 10).push((v % 10 + 48) as u8)
    }
}

/// Appends the decimal rendering of `v` to `out`.
fn append_decimal(out: &mut Vec<u8>, v: u128)
    ensures
        final(out)@ == old(out)@ + decimal_digits(v as nat),
{
    let mut digits: Vec<u8> = Vec::new();
    let mut x: u128 = v;
    let first: u8 = (x % 10) as u8 + 48;
    digits.push(first);
    x = x / 10;
    proof {
        if x == 0 {
            assert(digits@ =~= decimal_digits(v as nat));
        } else {
            assert(decimal_digits(v as nat) =~= decimal_digits(x as nat) + digits@);
        }
    }
    while x > 0
        invariant
            x == 0 ==> digits@ == decimal_digits(v as nat),
            x > 0 ==> decimal_digits(v as nat) == decimal_digits(x as nat) + digits@,
        decreases x,
    {
        let d: u8 = (x % 10) as u8 + 48;
        let ghost before = digits@;
        digits.insert(0, d);
        proof {
            assert(digits@ =~= seq![d] + before);
        }
        let ghost x_old = x;
        x = x / 10;
        proof {
            if x == 0 {
                assert(decimal_digits(x_old as nat) =~= seq![d]);
                assert(digits@ =~= decimal_digits(v as nat));
            } else {
                assert(decimal_digits(x_old as nat) =~= decimal_digits(x as nat) + seq![d]);
                assert(decimal_digits(v as nat) =~= decimal_digits(x as nat) + digits@);
            }
        }
    }
    let mut j: usize = 0;
    let ghost out_start = out@;
    while j < digits.len()
        invariant
            j <= digits@.len(),
            out@ == out_start + digits@.take(j as int),
        decreases digits@.len() - j,
    {
        let b: u8 = digits[j];
        out.push(b);
        j = j + 1;
        proof {
            assert(out@ =~= out_start + digits@.take(j as int));
        }
    }
    proof {
        assert(digits@.take(digits@.len() as int) =~= digits@);
    }
}

/// The literal run opening an entry, up to its first number:
/// `{"payoff":`.
pub open spec fn seg_payoff() -> Seq<u8> {
    seq![123u8, 34u8, 112u8, 97u8, 121u8, 111u8, 102u8, 102u8, 34u8, 58u8]
}

/// The literal run `,"current_price":`.
pub open spec fn seg_current_price() -> Seq<u8> {
    seq![
        44u8,
        34u8,
        99u8,
        117u8,
        114u8,
        114u8,
        101u8,
        110u8,
        116u8,
        95u8,
        112u8,
        114u8,
        105u8,
        99u8,
        101u8,
        34u8,
        58u8,
    ]
}

/// The literal run `,"index":`.
pub open spec fn seg_index() -> Seq<u8> {
    seq![44u8, 34u8, 105u8, 110u8, 100u8, 101u8, 120u8, 34u8, 58u8]
}

/// The literal run `,"pair":{"start":`.
pub open spec fn seg_pair_start() -> Seq<u8> {
    seq![
        44u8,
        34u8,
        112u8,
        97u8,
        105u8,
        114u8,
        34u8,
        58u8,
        123u8,
        34u8,
        115u8,
        116u8,
        97u8,
        114u8,
        116u8,
        34u8,
        58u8,
    ]
}

/// The literal run `,"end":`.
pub open spec fn seg_end() -> Seq<u8> {
    seq![44u8, 34u8, 101u8, 110u8, 100u8, 34u8, 58u8]
}

/// The literal run `},"alpha":` closing the pair record.
pub open spec fn seg_alpha() -> Seq<u8> {
    seq![125u8, 44u8, 34u8, 97u8, 108u8, 112u8, 104u8, 97u8, 34u8, 58u8]
}

/// The literal run `,"total_k":`.
pub open spec fn seg_total_k() -> Seq<u8> {
    seq![44u8, 34u8, 116u8, 111u8, 116u8, 97u8, 108u8, 95u8, 107u8, 34u8, 58u8]
}

/// One rendered entry record: the six fields in their fixed order, each
/// value in decimal, closed by `}`.
pub open spec fn entry_json(e: SampleEntry) -> Seq<u8> {
    seg_payoff() + decimal_digits(e.payoff as nat) + seg_current_price() + decimal_digits(
        e.current_price as nat,
    ) + seg_index() + decimal_digits(e.index as nat) + seg_pair_start() + decimal_digits(
        e.pair.start as nat,
    ) + seg_end() + decimal_digits(e.pair.end as nat) + seg_alpha() + decimal_digits(
        e.alpha as nat,
    ) + seg_total_k() + decimal_digits(e.total_k as nat) + seq![125u8]
}

/// The rendered records, in order, joined by commas.
pub open spec fn entries_body(entries: Seq<SampleEntry>) -> Seq<u8>
    decreases entries.len(),
{
    if entries.len() == 0 {
        Seq::empty()
    } else if entries.len() == 1 {
        entry_json(entries[0])
    } else {
        entries_body(entries.drop_last()) + seq![44u8] + entry_json(entries.last())
    }
}

/// The whole diagnostic document: the rendered records as one array,
/// `[` ... `]`.
pub open spec fn diagnostics_doc(entries: Seq<SampleEntry>) -> Seq<u8> {
    seq![91u8] + entries_body(entries) + seq![93u8]
}

/// Appends the literal run [`seg_payoff`] to `out`.
fn push_seg_payoff(out: &mut Vec<u8>)
    ensures
        final(out)@ == old(out)@ + seg_payoff(),
{
    let ghost start = out@;
    out.push(123);
    out.push(34);
    out.push(112);
    out.push(97);
    out.push(121);
    out.push(111);
    out.push(102);
    out.push(102);
    out.push(34);
    out.push(58);
    proof {
        assert(out@ =~= start + seg_payoff());
    }
}

/// Appends the literal run [`seg_current_price`] to `out`.
fn push_seg_current_price(out: &mut Vec<u8>)
    ensures
        final(out)@ == old(out)@ + seg_current_price(),
{
    let ghost start = out@;
    out.push(44);
    out.push(34);
    out.push(99);
    out.push(117);
    out.push(114);
    out.push(114);
    out.push(101);
    out.push(110);
    out.push(116);
    out.push(95);
    out.push(112);
    out.push(114);
    out.push(105);
    out.push(99);
    out.push(101);
    out.push(34);
    out.push(58);
    proof {
        assert(out@ =~= start + seg_current_price());
    }
}

/// Appends the literal run [`seg_index`] to `out`.
fn push_seg_index(out: &mut Vec<u8>)
    ensures
        final(out)@ == old(out)@ + seg_index(),
{
    let ghost start = out@;
    out.push(44);
    out.push(34);
    out.push(105);
    out.push(110);
    out.push(100);
    out.push(101);
    out.push(120);
    out.push(34);
    out.push(58);
    proof {
        assert(out@ =~= start + seg_index());
    }
}

/// Appends the literal run [`seg_pair_start`] to `out`.
fn push_seg_pair_start(out: &mut Vec<u8>)
    ensures
        final(out)@ == old(out)@ + seg_pair_start(),
{
    let ghost start = out@;
    out.push(44);
    out.push(34);
    out.push(112);
    out.push(97);
    out.push(105);
    out.push(114);
    out.push(34);
    out.push(58);
    out.push(123);
    out.push(34);
    out.push(115);
    out.push(116);
    out.push(97);
    out.push(114);
    out.push(116);
    out.push(34);
    out.push(58);
    proof {
        assert(out@ =~= start + seg_pair_start());
    }
}

/// Appends the literal run [`seg_end`] to `out`.
fn push_seg_end(out: &mut Vec<u8>)
    ensures
        final(out)@ == old(out)@ + seg_end(),
{
    let ghost start = out@;
    out.push(44);
    out.push(34);
    out.push(101);
    out.push(110);
    out.push(100);
    out.push(34);
    out.push(58);
    proof {
        assert(out@ =~= start + seg_end());
    }
}

/// Appends the literal run [`seg_alpha`] to `out`.
fn push_seg_alpha(out: &mut Vec<u8>)
    ensures
        final(out)@ == old(out)@ + seg_alpha(),
{
    let ghost start = out@;
    out.push(125);
    out.push(44);
    out.push(34);
    out.push(97);
    out.push(108);
    out.push(112);
    out.push(104);
    out.push(97);
    out.push(34);
    out.push(58);
    proof {
        assert(out@ =~= start + seg_alpha());
    }
}

/// Appends the literal run [`seg_total_k`] to `out`.
fn push_seg_total_k(out: &mut Vec<u8>)
    ensures
        final(out)@ == old(out)@ + seg_total_k(),
{
    let ghost start = out@;
    out.push(44);
    out.push(34);
    out.push(116);
    out.push(111);
    out.push(116);
    out.push(97);
    out.push(108);
    out.push(95);
    out.push(107);
    out.push(34);
    out.push(58);
    proof {
        assert(out@ =~= start + seg_total_k());
    }
}

/// Appends one rendered entry record to `out`.
#[verifier::rlimit(30)]
fn append_entry(out: &mut Vec<u8>, e: &SampleEntry)
    ensures
        final(out)@ == old(out)@ + entry_json(*e),
{
    let ghost start = out@;
    push_seg_payoff(out);
    append_decimal(out, e.payoff);
    push_seg_current_price(out);
    append_decimal(out, e.current_price as u128);
    push_seg_index(out);
    append_decimal(out, e.index as u128);
    push_seg_pair_start(out);
    append_decimal(out, e.pair.start as u128);
    push_seg_end(out);
    append_decimal(out, e.pair.end as u128);
    push_seg_alpha(out);
    append_decimal(out, e.alpha);
    push_seg_total_k(out);
    append_decimal(out, e.total_k);
    out.push(125);
    proof {
        assert(out@ =~= start + entry_json(*e));
    }
}

/// Builds the ordered diagnostic entries of a request: one per sample, in
/// sample order. Reads the same request the position builder reads and
/// computes the same intermediate values; it never touches the positions.
pub fn build_entries(req: &ApproximationRequest) -> (entries: Vec<SampleEntry>)
    requires
        1 <= req.current_price,
        1 <= req.input.amount,
        implied_counter_total(req.input.amount as int, req.current_price as int) <= u64::MAX,
    ensures
        entries@ == diagnostic_entries_spec(*req),
{
    let amount: u64 = req.input.amount;
    let price: u64 = req.current_price;
    let n: usize = NUM_POOLS_PRECISION;
    let alphas = crate::sampler::sample_full_range(price, n);
    let base: u64 = amount / (n as u64);
    let rem: u64 = amount % (n as u64);
    assert((amount as int) * (price as int) <= u64::MAX * u64::MAX) by (nonlinear_arith)
        requires
            0 <= amount <= u64::MAX,
            0 <= price <= u64::MAX,
    ;
    let budget_product: u128 = (amount as u128) * (price as u128);
    let counter_total: u128 = budget_product / (crate::types::PRICE_SCALE as u128);
    assert((amount as int) * (counter_total as int) <= u64::MAX * u64::MAX) by (nonlinear_arith)
        requires
            0 <= amount <= u64::MAX,
            0 <= counter_total <= u64::MAX,
    ;
    let total_k: u128 = (amount as u128) * counter_total;
    let mut entries: Vec<SampleEntry> = Vec::new();
    let mut i: usize = 0;
    while i < n
        invariant
            1 <= price,
            1 <= amount,
            implied_counter_total(amount as int, price as int) <= u64::MAX,
            amount == req.input.amount,
            price == req.current_price,
            n == NUM_POOLS_PRECISION,
            base == amount as int / n as int,
            rem == amount as int % n as int,
            total_k == total_k_spec(amount as int, price as int),
            alphas@.len() == n,
            forall|j: int| 0 <= j < n ==> alphas@[j] == alpha_at(price as int, n as int, j),
            i <= n,
            entries@.len() == i,
            forall|j: int| 0 <= j < i ==> entries@[j] == entry_at(*req, n as int, j),
        decreases n - i,
    {
        proof {
            crate::builder::lemma_split_in_range(amount as int, n as int, i as int);
            crate::builder::lemma_counter_reserve_bounded(
                amount as int,
                price as int,
                n as int,
                i as int,
            );
        }
        let input_reserve: u64 = if (i as u64) < rem {
            base + 1
        } else {
            base
        };
        assert((input_reserve as int) * (price as int) <= u64::MAX * u64::MAX) by (nonlinear_arith)
            requires
                0 <= input_reserve <= u64::MAX,
                0 <= price <= u64::MAX,
        ;
        let product: u128 = (input_reserve as u128) * (price as u128);
        let counter: u128 = product / (crate::types::PRICE_SCALE as u128);
        let payoff: u128 = 2 * counter;
        let alpha: u128 = alphas[i];
        let entry = SampleEntry {
            index: i,
            alpha,
            payoff,
            current_price: price,
            pair: req.pair,
            total_k,
        };
        assert(entry == entry_at(*req, n as int, i as int));
        entries.push(entry);
        i = i + 1;
    }
    proof {
        assert(entries@ =~= diagnostic_entries_spec(*req));
    }
    entries
}

/// Renders the ordered diagnostic entries as one structured document. The
/// result is pinned byte for byte to [`diagnostics_doc`], a pure function
/// of the entries: rendering the same entries twice gives identical bytes.
pub fn render_diagnostics(entries: &Vec<SampleEntry>) -> (out: Vec<u8>)
    ensures
        out@ == diagnostics_doc(entries@),
{
    let mut out: Vec<u8> = Vec::new();
    out.push(91);
    proof {
        assert(out@ =~= seq![91u8] + entries_body(entries@.take(0)));
    }
    let mut i: usize = 0;
    while i < entries.len()
        invariant
            i <= entries@.len(),
            out@ == seq![91u8] + entries_body(entries@.take(i as int)),
        decreases entries@.len() - i,
    {
        if i > 0 {
            out.push(44);
        }
        let entry = entries[i];
        append_entry(&mut out, &entry);
        proof {
            let taken = entries@.take(i + 1);
            assert(taken.drop_last() =~= entries@.take(i as int));
            assert(taken.last() == entries@[i as int]);
            if i == 0 {
                assert(entries_body(taken) == entry_json(entries@[0]));
                assert(out@ =~= seq![91u8] + entries_body(taken));
            } else {
                assert(entries_body(taken) == entries_body(entries@.take(i as int)) + seq![44u8]
                    + entry_json(entries@[i as int]));
                assert(out@ =~= seq![91u8] + entries_body(taken));
            }
        }
        i = i + 1;
    }
    proof {
        assert(entries@.take(entries@.len() as int) =~= entries@);
    }
    out.push(93);
    proof {
        assert(out@ =~= diagnostics_doc(entries@));
    }
    out
}

} // verus!
