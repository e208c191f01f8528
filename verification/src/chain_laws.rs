//! What holds of strike rows and window aggregates as a whole.
use vstd::prelude::*;

use crate::amount::Amount;
use crate::chain::{
    ascending, call_oi, call_oi_chg, gap, is_aggregate, is_atm, lemma_insert_keeps_sorted, put_oi,
    put_oi_chg, row_of, rows_at, rows_of, stably_sorted, sum_over, window_agg, window_first,
    window_last, window_rows, StrikeRow, WindowAgg, STRIKE_WINDOWS,
};
use crate::quotes::{side_data, OptionChainStrike};

verus! {

proof fn lemma_rows_at_last<N: Amount>(rows: Seq<StrikeRow<N>>)
    requires
        rows.len() > 0,
    ensures
        ({
            let k = rows.last().strike.spec_rank();
            &&& rows_at(rows, k).len() > 0
            &&& rows_at(rows, k).last() == rows.last()
            &&& rows_at(rows.drop_last(), k) == rows_at(rows, k).drop_last()
            &&& forall|j: i64|
                j != k ==> #[trigger] rows_at(rows.drop_last(), j) == rows_at(rows, j)
        }),
{
    reveal(Seq::filter);
    let k = rows.last().strike.spec_rank();
    assert(rows_at(rows, k) == rows_at(rows.drop_last(), k).push(rows.last()));
    assert(rows_at(rows, k).drop_last() =~= rows_at(rows.drop_last(), k));
}

proof fn lemma_rows_at_bound<N: Amount>(rows: Seq<StrikeRow<N>>, k: i64)
    requires
        ascending(rows),
        rows_at(rows, k).len() > 0,
    ensures
        rows.len() > 0,
        k <= rows.last().strike.spec_rank(),
    decreases rows.len(),
{
    reveal(Seq::filter);
    if rows.len() > 0 && rows.last().strike.spec_rank() != k {
        lemma_rows_at_bound(rows.drop_last(), k);
        assert(rows.drop_last().last().strike.spec_rank() <= rows.last().strike.spec_rank());
    }
}

/// Sorting a chain has one outcome: any two stable sorts of the same rows are equal.
pub proof fn sorted_rows_are_unique<N: Amount>(
    from: Seq<StrikeRow<N>>,
    a: Seq<StrikeRow<N>>,
    b: Seq<StrikeRow<N>>,
)
    requires
        stably_sorted(from, a),
        stably_sorted(from, b),
    ensures
        a == b,
{
    assert forall|k: i64| #[trigger] rows_at(a, k) == rows_at(b, k) by {
        assert(rows_at(a, k) == rows_at(from, k));
    }
    lemma_same_rows(a, b);
}

proof fn lemma_same_rows<N: Amount>(a: Seq<StrikeRow<N>>, b: Seq<StrikeRow<N>>)
    requires
        ascending(a),
        ascending(b),
        forall|k: i64| #[trigger] rows_at(a, k) == rows_at(b, k),
    ensures
        a == b,
    decreases a.len(),
{
    reveal(Seq::filter);
    if a.len() == 0 {
        if b.len() > 0 {
            lemma_rows_at_last(b);
            let k = b.last().strike.spec_rank();
            assert(rows_at(a, k) == rows_at(b, k));
        }
        assert(a =~= b);
    } else {
        let ka = a.last().strike.spec_rank();
        lemma_rows_at_last(a);
        assert(rows_at(a, ka) == rows_at(b, ka));
        lemma_rows_at_bound(b, ka);
        let kb = b.last().strike.spec_rank();
        lemma_rows_at_last(b);
        assert(rows_at(a, kb) == rows_at(b, kb));
        lemma_rows_at_bound(a, kb);
        assert(ka == kb);
        assert(a.last() == b.last());
        assert forall|k: i64| #[trigger] rows_at(a.drop_last(), k) == rows_at(
            b.drop_last(),
            k,
        ) by {
            assert(rows_at(a, k) == rows_at(b, k));
        }
        lemma_same_rows(a.drop_last(), b.drop_last());
        assert(a =~= a.drop_last().push(a.last()));
        assert(b =~= b.drop_last().push(b.last()));
    }
}

/// At most one row is at the money.
pub proof fn atm_is_unique<N: Amount>(rows: Seq<StrikeRow<N>>, spot: N, i: int, j: int)
    requires
        is_atm(rows, spot, i),
        is_atm(rows, spot, j),
    ensures
        i == j,
{
    if i < j {
        assert(gap(rows[j], spot) < gap(rows[i], spot));
    } else if j < i {
        assert(gap(rows[i], spot) < gap(rows[j], spot));
    }
}

/// A chain has one aggregate for each spot and window.
pub proof fn aggregate_is_unique<N: Amount>(
    rows: Seq<StrikeRow<N>>,
    spot: N,
    window: i64,
    a: WindowAgg<N>,
    b: WindowAgg<N>,
)
    requires
        is_aggregate(rows, spot, window, a),
        is_aggregate(rows, spot, window, b),
    ensures
        a == b,
{
    if rows.len() > 0 {
        let i = choose|i: int| #[trigger]
            is_atm(rows, spot, i) && a == window_agg(rows, i, window);
        let j = choose|j: int| #[trigger]
            is_atm(rows, spot, j) && b == window_agg(rows, j, window);
        atm_is_unique(rows, spot, i, j);
    }
}

/// A window lies inside the chain and holds the strike it is centred on.
pub proof fn window_holds_atm<N>(rows: Seq<StrikeRow<N>>, atm: int, window: int)
    requires
        0 <= atm < rows.len(),
    ensures
        0 <= window_first(atm, window) <= atm <= window_last(rows.len() as int, atm, window)
            < rows.len(),
        window_rows(rows, atm, window).len() > 0,
{
}

/// A window that reaches from any strike to both ends of the chain is the whole chain, and
/// so sums what the window 0 sums: every strike.
pub proof fn wide_window_is_whole_chain<N: Amount>(
    rows: Seq<StrikeRow<N>>,
    atm: int,
    window: i64,
)
    requires
        0 <= atm < rows.len(),
        window > 0,
        window >= rows.len() - 1,
    ensures
        window_rows(rows, atm, window as int) == rows,
        window_rows(rows, atm, 0) == rows,
        window_agg(rows, atm, window) == (WindowAgg {
            strike_window: window,
            ..window_agg(rows, atm, 0)
        }),
{
    assert(window_rows(rows, atm, window as int) =~= rows);
    assert(window_rows(rows, atm, 0) =~= rows);
}

/// Of two windows of strikes the wider one holds the narrower one; the whole chain holds
/// both.
pub proof fn wider_window_holds_narrower<N>(
    rows: Seq<StrikeRow<N>>,
    atm: int,
    narrow: int,
    wide: int,
)
    requires
        0 <= atm < rows.len(),
        0 < narrow,
        narrow <= wide || wide <= 0,
    ensures
        window_first(atm, wide) <= window_first(atm, narrow),
        window_last(rows.len() as int, atm, narrow) <= window_last(rows.len() as int, atm, wide),
{
}

/// On sorted rows the ends of a window enclose the strike at the money, and the ends of a
/// wider window, or of the whole chain, those of a narrower one.
pub proof fn wider_window_reaches_further<N: Amount>(
    rows: Seq<StrikeRow<N>>,
    spot: N,
    atm: int,
    narrow: i64,
    wide: i64,
    a: WindowAgg<N>,
    b: WindowAgg<N>,
)
    requires
        ascending(rows),
        is_atm(rows, spot, atm),
        0 < narrow,
        narrow <= wide || wide <= 0,
        is_aggregate(rows, spot, narrow, a),
        is_aggregate(rows, spot, wide, b),
    ensures
        b.min_strike.spec_rank() <= a.min_strike.spec_rank() <= rows[atm].strike.spec_rank()
            <= a.max_strike.spec_rank() <= b.max_strike.spec_rank(),
{
    lemma_aggregate_at(rows, spot, atm, narrow, a);
    lemma_aggregate_at(rows, spot, atm, wide, b);
    let n = rows.len() as int;
    let (lo_a, hi_a) = (window_first(atm, narrow as int), window_last(n, atm, narrow as int));
    let (lo_b, hi_b) = (window_first(atm, wide as int), window_last(n, atm, wide as int));
    assert(a.min_strike == rows[lo_a].strike && a.max_strike == rows[hi_a].strike);
    assert(b.min_strike == rows[lo_b].strike && b.max_strike == rows[hi_b].strike);
}

proof fn lemma_aggregate_at<N: Amount>(
    rows: Seq<StrikeRow<N>>,
    spot: N,
    atm: int,
    window: i64,
    agg: WindowAgg<N>,
)
    requires
        is_atm(rows, spot, atm),
        is_aggregate(rows, spot, window, agg),
    ensures
        agg == window_agg(rows, atm, window),
{
    let i = choose|i: int| #[trigger]
        is_atm(rows, spot, i) && agg == window_agg(rows, i, window);
    atm_is_unique(rows, spot, atm, i);
}

/// Whether the numbers for which `d` holds can be summed in order: zero is the least of
/// them, sums stay among them, and neither a further summand nor a larger one makes a sum
/// smaller. So it is with whole numbers from zero up, and with floating point numbers from
/// positive zero to infinity.
pub open spec fn adds_up<N: Amount>(d: spec_fn(N) -> bool) -> bool {
    &&& d(N::spec_zero())
    &&& forall|x: N| #[trigger] d(x) ==> N::spec_zero().spec_rank() <= x.spec_rank()
    &&& forall|x: N, c: N|
        d(x) && d(c) ==> d(#[trigger] x.spec_plus(c)) && x.spec_rank() <= x.spec_plus(
            c,
        ).spec_rank()
    &&& forall|x: N, y: N, c: N|
        d(x) && d(y) && d(c) && x.spec_rank() <= y.spec_rank() ==> (#[trigger] x.spec_plus(
            c,
        )).spec_rank() <= (#[trigger] y.spec_plus(c)).spec_rank()
}

proof fn lemma_sum_of_part<N: Amount>(
    d: spec_fn(N) -> bool,
    before: Seq<StrikeRow<N>>,
    rows: Seq<StrikeRow<N>>,
    f: spec_fn(StrikeRow<N>) -> N,
)
    requires
        adds_up(d),
        forall|i: int| 0 <= i < before.len() ==> d(f(#[trigger] before[i])),
        forall|i: int| 0 <= i < rows.len() ==> d(f(#[trigger] rows[i])),
    ensures
        d(sum_over(before, f)),
        d(sum_over(rows, f)),
        d(sum_over(before + rows, f)),
        sum_over(before, f).spec_rank() <= sum_over(before + rows, f).spec_rank(),
        sum_over(rows, f).spec_rank() <= sum_over(before + rows, f).spec_rank(),
    decreases before.len() + rows.len(),
{
    if rows.len() > 0 {
        let rest = rows.drop_last();
        lemma_sum_of_part(d, before, rest, f);
        assert((before + rows).drop_last() =~= before + rest);
        assert((before + rows).last() == rows.last());
        assert(d(f(rows[rows.len() - 1])));
    } else {
        assert(before + rows =~= before);
        if before.len() > 0 {
            let rest = before.drop_last();
            lemma_sum_of_part(d, rest, rows, f);
            assert(d(f(before[before.len() - 1])));
        }
    }
}

proof fn lemma_sum_of_range<N: Amount>(
    d: spec_fn(N) -> bool,
    rows: Seq<StrikeRow<N>>,
    f: spec_fn(StrikeRow<N>) -> N,
    lo: int,
    hi: int,
    lo_wide: int,
    hi_wide: int,
)
    requires
        adds_up(d),
        forall|i: int| 0 <= i < rows.len() ==> d(f(#[trigger] rows[i])),
        0 <= lo_wide <= lo <= hi <= hi_wide <= rows.len(),
    ensures
        sum_over(rows.subrange(lo, hi), f).spec_rank() <= sum_over(
            rows.subrange(lo_wide, hi_wide),
            f,
        ).spec_rank(),
{
    let left = rows.subrange(lo_wide, lo);
    let middle = rows.subrange(lo, hi);
    let right = rows.subrange(hi, hi_wide);
    assert forall|i: int| 0 <= i < (left + middle).len() implies d(
        f(#[trigger] (left + middle)[i]),
    ) by {
        assert((left + middle)[i] == rows[lo_wide + i]);
    }
    assert forall|i: int| 0 <= i < left.len() implies d(f(#[trigger] left[i])) by {
        assert(left[i] == rows[lo_wide + i]);
    }
    assert forall|i: int| 0 <= i < middle.len() implies d(f(#[trigger] middle[i])) by {
        assert(middle[i] == rows[lo + i]);
    }
    assert forall|i: int| 0 <= i < right.len() implies d(f(#[trigger] right[i])) by {
        assert(right[i] == rows[hi + i]);
    }
    lemma_sum_of_part(d, left, middle, f);
    lemma_sum_of_part(d, left + middle, right, f);
    assert(left + middle + right =~= rows.subrange(lo_wide, hi_wide));
}

/// A wider window, or the whole chain, has no less open interest than a narrower one, in
/// whatever numbers can be summed in order.
pub proof fn wider_window_sums_no_less<N: Amount>(
    d: spec_fn(N) -> bool,
    rows: Seq<StrikeRow<N>>,
    spot: N,
    narrow: i64,
    wide: i64,
    a: WindowAgg<N>,
    b: WindowAgg<N>,
)
    requires
        adds_up(d),
        rows.len() > 0,
        forall|i: int|
            0 <= i < rows.len() ==> d((#[trigger] rows[i]).call_oi) && d(rows[i].put_oi),
        0 < narrow,
        narrow <= wide || wide <= 0,
        is_aggregate(rows, spot, narrow, a),
        is_aggregate(rows, spot, wide, b),
    ensures
        a.call_oi.spec_rank() <= b.call_oi.spec_rank(),
        a.put_oi.spec_rank() <= b.put_oi.spec_rank(),
{
    let atm = choose|atm: int| #[trigger]
        is_atm(rows, spot, atm) && a == window_agg(rows, atm, narrow);
    lemma_aggregate_at(rows, spot, atm, wide, b);
    let n = rows.len() as int;
    let (lo_a, hi_a) = (window_first(atm, narrow as int), window_last(n, atm, narrow as int));
    let (lo_b, hi_b) = (window_first(atm, wide as int), window_last(n, atm, wide as int));
    lemma_sum_of_range(d, rows, call_oi(), lo_a, hi_a + 1, lo_b, hi_b + 1);
    lemma_sum_of_range(d, rows, put_oi(), lo_a, hi_a + 1, lo_b, hi_b + 1);
}

/// On sorted rows a wider window, or the whole chain, reaches no less far than a narrower
/// one, which encloses the strike at the money, and has no less open interest. Numbers are
/// compared by rank, in whatever numbers can be summed in order.
pub proof fn wider_window_holds_no_less<N: Amount>(
    d: spec_fn(N) -> bool,
    rows: Seq<StrikeRow<N>>,
    spot: N,
    atm: int,
    narrow: i64,
    wide: i64,
    a: WindowAgg<N>,
    b: WindowAgg<N>,
)
    requires
        adds_up(d),
        ascending(rows),
        forall|i: int|
            0 <= i < rows.len() ==> d((#[trigger] rows[i]).call_oi) && d(rows[i].put_oi),
        is_atm(rows, spot, atm),
        0 < narrow,
        narrow <= wide || wide <= 0,
        is_aggregate(rows, spot, narrow, a),
        is_aggregate(rows, spot, wide, b),
    ensures
        b.min_strike.spec_rank() <= a.min_strike.spec_rank() <= rows[atm].strike.spec_rank()
            <= a.max_strike.spec_rank() <= b.max_strike.spec_rank(),
        a.call_oi.spec_rank() <= b.call_oi.spec_rank(),
        a.put_oi.spec_rank() <= b.put_oi.spec_rank(),
{
    wider_window_reaches_further(rows, spot, atm, narrow, wide, a, b);
    wider_window_sums_no_less(d, rows, spot, narrow, wide, a, b);
}

/// In whole numbers a wider window, or the whole chain, has no less open interest than a
/// narrower one.
pub proof fn wider_window_has_no_less_oi(
    rows: Seq<StrikeRow<i64>>,
    spot: i64,
    narrow: i64,
    wide: i64,
    a: WindowAgg<i64>,
    b: WindowAgg<i64>,
)
    requires
        rows.len() > 0,
        forall|i: int|
            0 <= i < rows.len() ==> (#[trigger] rows[i]).call_oi >= 0 && rows[i].put_oi >= 0,
        0 < narrow,
        narrow <= wide || wide <= 0,
        is_aggregate(rows, spot, narrow, a),
        is_aggregate(rows, spot, wide, b),
    ensures
        a.call_oi <= b.call_oi,
        a.put_oi <= b.put_oi,
{
    let d = |x: i64| x >= 0;
    assert(adds_up(d));
    wider_window_sums_no_less(d, rows, spot, narrow, wide, a, b);
}

/// The strikes of a window on sorted rows lie between its reported ends.
pub proof fn window_ends_bound_its_strikes<N: Amount>(
    rows: Seq<StrikeRow<N>>,
    atm: int,
    window: i64,
    i: int,
)
    requires
        ascending(rows),
        0 <= atm < rows.len(),
        0 <= i < window_rows(rows, atm, window as int).len(),
    ensures
        window_agg(rows, atm, window).min_strike.spec_rank() <= window_rows(
            rows,
            atm,
            window as int,
        )[i].strike.spec_rank() <= window_agg(rows, atm, window).max_strike.spec_rank(),
{
    let lo = window_first(atm, window as int);
    let w = window_rows(rows, atm, window as int);
    assert(w[i] == rows[lo + i]);
    assert(w.first() == rows[lo]);
    assert(w.last() == rows[lo + w.len() - 1]);
}

/// A side without a previous open interest shows none of its open interest as change:
/// the row carries the present one in its place.
pub proof fn missing_prev_oi_is_no_change<N: Amount>(s: OptionChainStrike<N>)
    ensures
        side_data(s.call_options).prev_oi is None ==> row_of(s).call_prev_oi == row_of(s).call_oi,
        side_data(s.put_options).prev_oi is None ==> row_of(s).put_prev_oi == row_of(s).put_oi,
{
}

/// In whole numbers the change of such a side is zero.
pub proof fn missing_prev_oi_changes_by_zero(s: OptionChainStrike<i64>)
    ensures
        side_data(s.call_options).prev_oi is None ==> call_oi_chg::<i64>()(row_of(s)) == 0,
        side_data(s.put_options).prev_oi is None ==> put_oi_chg::<i64>()(row_of(s)) == 0,
{
}

/// The sum of `f` over the rows in unbounded whole numbers.
pub open spec fn exact_sum(
    rows: Seq<StrikeRow<i64>>,
    f: spec_fn(StrikeRow<i64>) -> i64,
) -> int
    decreases rows.len(),
{
    if rows.len() == 0 {
        0
    } else {
        exact_sum(rows.drop_last(), f) + f(rows.last())
    }
}

/// Whole-number sums are exact as long as none on the way leaves the 64-bit range.
pub proof fn whole_sums_are_exact(
    rows: Seq<StrikeRow<i64>>,
    f: spec_fn(StrikeRow<i64>) -> i64,
)
    requires
        forall|n: int|
            0 <= n <= rows.len() ==> i64::MIN <= #[trigger] exact_sum(rows.take(n), f)
                <= i64::MAX,
    ensures
        sum_over(rows, f) == exact_sum(rows, f),
    decreases rows.len(),
{
    assert(rows.take(rows.len() as int) =~= rows);
    if rows.len() > 0 {
        let h = rows.drop_last();
        assert forall|n: int| 0 <= n <= h.len() implies i64::MIN <= #[trigger] exact_sum(
            h.take(n),
            f,
        ) <= i64::MAX by {
            assert(h.take(n) =~= rows.take(n));
        }
        whole_sums_are_exact(h, f);
    }
}

/// A row carries what the response reports of its strike: each side's open interest, last
/// price and volume, and its volatility, calls as calls and puts as puts.
pub proof fn rows_carry_what_was_reported<N: Amount>(s: OptionChainStrike<N>)
    ensures
        row_of(s).strike == s.strike_price,
        s.call_options is Some && s.call_options->0.market_data is Some ==> {
            let m = s.call_options->0.market_data->0;
            &&& row_of(s).call_oi == m.oi
            &&& row_of(s).call_ltp == m.ltp
            &&& row_of(s).call_volume == m.volume
            &&& m.prev_oi is Some ==> row_of(s).call_prev_oi == m.prev_oi->0
            &&& m.prev_oi is None ==> row_of(s).call_prev_oi == m.oi
        },
        s.put_options is Some && s.put_options->0.market_data is Some ==> {
            let m = s.put_options->0.market_data->0;
            &&& row_of(s).put_oi == m.oi
            &&& row_of(s).put_ltp == m.ltp
            &&& row_of(s).put_volume == m.volume
            &&& m.prev_oi is Some ==> row_of(s).put_prev_oi == m.prev_oi->0
            &&& m.prev_oi is None ==> row_of(s).put_prev_oi == m.oi
        },
        s.call_options is Some && s.call_options->0.option_greeks is Some ==> row_of(s).call_iv
            == s.call_options->0.option_greeks->0.iv,
        s.put_options is Some && s.put_options->0.option_greeks is Some ==> row_of(s).put_iv
            == s.put_options->0.option_greeks->0.iv,
{
}

/// A side that was not reported is all zero in its row.
pub proof fn unreported_sides_are_zero<N: Amount>(s: OptionChainStrike<N>)
    ensures
        s.call_options is None || s.call_options->0.market_data is None ==> {
            &&& row_of(s).call_oi == N::spec_zero()
            &&& row_of(s).call_prev_oi == N::spec_zero()
            &&& row_of(s).call_ltp == N::spec_zero()
            &&& row_of(s).call_volume == N::spec_zero()
        },
        s.put_options is None || s.put_options->0.market_data is None ==> {
            &&& row_of(s).put_oi == N::spec_zero()
            &&& row_of(s).put_prev_oi == N::spec_zero()
            &&& row_of(s).put_ltp == N::spec_zero()
            &&& row_of(s).put_volume == N::spec_zero()
        },
        s.call_options is None || s.call_options->0.option_greeks is None ==> row_of(s).call_iv
            == N::spec_zero(),
        s.put_options is None || s.put_options->0.option_greeks is None ==> row_of(s).put_iv
            == N::spec_zero(),
{
}

/// Every strike of a chain has its row, in the chain's order.
pub proof fn every_strike_has_its_row<N: Amount>(chain: Seq<OptionChainStrike<N>>)
    ensures
        rows_of(chain).len() == chain.len(),
        forall|i: int| 0 <= i < chain.len() ==> #[trigger] rows_of(chain)[i] == row_of(chain[i]),
{
}

proof fn lemma_sorted_multiset<N: Amount>(a: Seq<StrikeRow<N>>, b: Seq<StrikeRow<N>>)
    requires
        ascending(b),
        a.len() == b.len(),
        forall|k: i64| #[trigger] rows_at(a, k) == rows_at(b, k),
    ensures
        a.to_multiset() == b.to_multiset(),
    decreases a.len(),
{
    broadcast use vstd::seq_lib::group_to_multiset_ensures;

    if a.len() == 0 {
        assert(a =~= b);
    } else {
        let r = a.last();
        let k = r.strike.spec_rank();
        lemma_rows_at_last(a);
        assert(rows_at(a, k) == rows_at(b, k));
        let p = lemma_last_at(b, k);
        assert(b[p] == r);
        let rest = b.remove(p);
        lemma_without_last_at(b, k, p);
        assert forall|j: i64| #[trigger] rows_at(a.drop_last(), j) == rows_at(rest, j) by {
            assert(rows_at(a, j) == rows_at(b, j));
        }
        assert forall|i: int, j: int| 0 <= i <= j < rest.len() implies (
        #[trigger] rest[i]).strike.spec_rank() <= (#[trigger] rest[j]).strike.spec_rank() by {
            let x = if i < p {
                i
            } else {
                i + 1
            };
            let y = if j < p {
                j
            } else {
                j + 1
            };
            assert(rest[i] == b[x] && rest[j] == b[y]);
        }
        lemma_sorted_multiset(a.drop_last(), rest);
        assert(a =~= a.drop_last().push(r));
        assert(b =~= rest.insert(p, r));
        assert(a.to_multiset() =~= a.drop_last().to_multiset().insert(r));
        assert(rest.to_multiset() =~= b.to_multiset().remove(r));
        assert(b.to_multiset().count(r) > 0);
        assert(a.to_multiset() =~= b.to_multiset());
    }
}

proof fn lemma_last_at<N: Amount>(rows: Seq<StrikeRow<N>>, k: i64) -> (p: int)
    requires
        rows_at(rows, k).len() > 0,
    ensures
        0 <= p < rows.len(),
        rows[p].strike.spec_rank() == k,
        rows[p] == rows_at(rows, k).last(),
        forall|i: int| p < i < rows.len() ==> (#[trigger] rows[i]).strike.spec_rank() != k,
    decreases rows.len(),
{
    reveal(Seq::filter);
    let last = rows.len() - 1;
    if rows.last().strike.spec_rank() == k {
        lemma_rows_at_last(rows);
        last
    } else {
        lemma_rows_at_last(rows);
        let p = lemma_last_at(rows.drop_last(), k);
        assert(rows[p] == rows.drop_last()[p]);
        assert forall|i: int| p < i < rows.len() implies (
        #[trigger] rows[i]).strike.spec_rank() != k by {
            if i < last {
                assert(rows.drop_last()[i] == rows[i]);
            }
        }
        p
    }
}

proof fn lemma_without_last_at<N: Amount>(rows: Seq<StrikeRow<N>>, k: i64, p: int)
    requires
        0 <= p < rows.len(),
        rows[p].strike.spec_rank() == k,
        forall|i: int| p < i < rows.len() ==> (#[trigger] rows[i]).strike.spec_rank() != k,
    ensures
        rows_at(rows, k).len() > 0,
        rows_at(rows.remove(p), k) == rows_at(rows, k).drop_last(),
        forall|j: i64| j != k ==> #[trigger] rows_at(rows.remove(p), j) == rows_at(rows, j),
    decreases rows.len(),
{
    let last = rows.len() - 1;
    lemma_rows_at_last(rows);
    if p == last {
        assert(rows.remove(p) =~= rows.drop_last());
    } else {
        let front = rows.drop_last();
        assert(front[p] == rows[p]);
        assert forall|i: int| p < i < front.len() implies (
        #[trigger] front[i]).strike.spec_rank() != k by {
            assert(front[i] == rows[i]);
        }
        lemma_without_last_at(front, k, p);
        let less = rows.remove(p);
        assert(less.drop_last() =~= front.remove(p));
        assert(less.last() == rows.last());
        lemma_rows_at_last(less);
        let e = rows.last().strike.spec_rank();
        assert(rows[last].strike.spec_rank() != k);
        assert(rows_at(less, e) =~= rows_at(less.drop_last(), e).push(rows.last()));
        assert(rows_at(rows, e) =~= rows_at(front, e).push(rows.last()));
        assert(rows_at(front, k) == rows_at(rows, k));
        assert(rows_at(less.drop_last(), k) == rows_at(less, k));
        assert forall|j: i64| j != k implies #[trigger] rows_at(less, j) == rows_at(rows, j) by {
            assert(rows_at(front.remove(p), j) == rows_at(front, j));
            if j != e {
                assert(rows_at(less.drop_last(), j) == rows_at(less, j));
                assert(rows_at(front, j) == rows_at(rows, j));
            }
        }
    }
}

/// Sorting neither loses nor adds nor changes a row, and puts the rows in ascending order
/// of their strikes' ranks.
pub proof fn sorting_keeps_every_row<N: Amount>(from: Seq<StrikeRow<N>>, to: Seq<StrikeRow<N>>)
    requires
        stably_sorted(from, to),
    ensures
        to.to_multiset() == from.to_multiset(),
        to.len() == from.len(),
        forall|i: int, j: int|
            0 <= i < j < to.len() ==> (#[trigger] to[i]).strike.spec_rank() <= (
            #[trigger] to[j]).strike.spec_rank(),
{
    assert forall|k: i64| #[trigger] rows_at(from, k) == rows_at(to, k) by {
        assert(rows_at(to, k) == rows_at(from, k));
    }
    lemma_sorted_multiset(from, to);
}

/// A further strike takes its place in the sorted chain behind every strike that is not
/// larger and before every larger one, and moves no other: so equal strikes stay in the
/// order in which they came.
pub proof fn further_strike_takes_its_place<N: Amount>(
    from: Seq<StrikeRow<N>>,
    row: StrikeRow<N>,
    before: Seq<StrikeRow<N>>,
    after: Seq<StrikeRow<N>>,
)
    requires
        stably_sorted(from, before),
        stably_sorted(from.push(row), after),
    ensures
        exists|p: int|
            0 <= p <= before.len() && after == #[trigger] before.insert(p, row) && (forall|i: int|
                0 <= i < p ==> (#[trigger] before[i]).strike.spec_rank()
                    <= row.strike.spec_rank()) && (forall|i: int|
                p <= i < before.len() ==> (#[trigger] before[i]).strike.spec_rank()
                    > row.strike.spec_rank()),
{
    let p = lemma_place(before, row);
    lemma_insert_keeps_sorted(from, before, p, row);
    sorted_rows_are_unique(from.push(row), after, before.insert(p, row));
    assert(after == before.insert(p, row));
}

proof fn lemma_place<N: Amount>(rows: Seq<StrikeRow<N>>, row: StrikeRow<N>) -> (p: int)
    requires
        ascending(rows),
    ensures
        0 <= p <= rows.len(),
        forall|i: int|
            0 <= i < p ==> (#[trigger] rows[i]).strike.spec_rank() <= row.strike.spec_rank(),
        forall|i: int|
            p <= i < rows.len() ==> (#[trigger] rows[i]).strike.spec_rank()
                > row.strike.spec_rank(),
    decreases rows.len(),
{
    if rows.len() == 0 {
        0
    } else if rows.last().strike.spec_rank() <= row.strike.spec_rank() {
        assert forall|i: int| 0 <= i < rows.len() implies (#[trigger] rows[i]).strike.spec_rank()
            <= row.strike.spec_rank() by {
            assert(rows[i].strike.spec_rank() <= rows[rows.len() - 1].strike.spec_rank());
        }
        rows.len() as int
    } else {
        let front = rows.drop_last();
        let p = lemma_place(front, row);
        assert forall|i: int| 0 <= i < p implies (#[trigger] rows[i]).strike.spec_rank()
            <= row.strike.spec_rank() by {
            assert(front[i] == rows[i]);
        }
        assert forall|i: int| p <= i < rows.len() implies (#[trigger] rows[i]).strike.spec_rank()
            > row.strike.spec_rank() by {
            if i < front.len() {
                assert(front[i] == rows[i]);
            }
        }
        p
    }
}

/// The strike at the money is the first of those whose distance from the spot, the
/// magnitude of the difference, has the lowest rank; every such strike is at the money.
pub proof fn atm_is_first_of_the_closest<N: Amount>(rows: Seq<StrikeRow<N>>, spot: N, i: int)
    ensures
        is_atm(rows, spot, i) <==> {
            &&& 0 <= i < rows.len()
            &&& forall|j: int|
                0 <= j < rows.len() ==> {
                    let here = rows[i].strike.spec_minus(spot).spec_magnitude().spec_rank();
                    let there = (#[trigger] rows[j]).strike.spec_minus(
                        spot,
                    ).spec_magnitude().spec_rank();
                    here <= there && (j < i ==> here < there)
                }
        },
{
    if is_atm(rows, spot, i) {
        assert forall|j: int| 0 <= j < rows.len() implies {
            let here = rows[i].strike.spec_minus(spot).spec_magnitude().spec_rank();
            let there = (#[trigger] rows[j]).strike.spec_minus(
                spot,
            ).spec_magnitude().spec_rank();
            here <= there && (j < i ==> here < there)
        } by {
            assert(gap(rows[i], spot) <= gap(rows[j], spot));
        }
    }
}

/// In whole numbers, as long as the differences fit in 64 bits, no strike lies closer to
/// the spot than the one at the money, on either side, and none before it as close.
pub proof fn whole_number_atm_is_closest(rows: Seq<StrikeRow<i64>>, spot: i64, i: int, j: int)
    requires
        is_atm(rows, spot, i),
        0 <= j < rows.len(),
        forall|k: int|
            0 <= k < rows.len() ==> i64::MIN < (#[trigger] rows[k]).strike - spot <= i64::MAX,
    ensures
        0 <= i < rows.len(),
        ({
            let here = if rows[i].strike >= spot {
                rows[i].strike - spot
            } else {
                spot - rows[i].strike
            };
            let there = if rows[j].strike >= spot {
                rows[j].strike - spot
            } else {
                spot - rows[j].strike
            };
            here <= there && (j < i ==> here < there)
        }),
{
    assert(gap(rows[i], spot) <= gap(rows[j], spot));
    assert(i64::MIN < rows[i].strike - spot <= i64::MAX);
    assert(i64::MIN < rows[j].strike - spot <= i64::MAX);
}

/// A chain without strikes sums to nothing.
pub proof fn empty_chain_sums_to_nothing<N: Amount>(spot: N, window: i64, agg: WindowAgg<N>)
    requires
        is_aggregate(Seq::empty(), spot, window, agg),
    ensures
        agg.strike_window == window,
        agg.call_oi == N::spec_zero(),
        agg.put_oi == N::spec_zero(),
        agg.call_oi_chg == N::spec_zero(),
        agg.put_oi_chg == N::spec_zero(),
        agg.min_strike == N::spec_zero(),
        agg.max_strike == N::spec_zero(),
{
}

/// A strike added at the end of a chain adds its own open interest to the sums over the
/// whole chain, and the difference between its present and its previous open interest, in
/// that order, to the sums of the changes; it becomes the last strike, and the first where
/// there was none.
pub proof fn further_strike_adds_to_the_whole<N: Amount>(
    rows: Seq<StrikeRow<N>>,
    row: StrikeRow<N>,
    spot: N,
    a: WindowAgg<N>,
    b: WindowAgg<N>,
)
    requires
        is_aggregate(rows, spot, 0, a),
        is_aggregate(rows.push(row), spot, 0, b),
    ensures
        b.strike_window == 0,
        b.call_oi == a.call_oi.spec_plus(row.call_oi),
        b.put_oi == a.put_oi.spec_plus(row.put_oi),
        b.call_oi_chg == a.call_oi_chg.spec_plus(row.call_oi.spec_minus(row.call_prev_oi)),
        b.put_oi_chg == a.put_oi_chg.spec_plus(row.put_oi.spec_minus(row.put_prev_oi)),
        b.max_strike == row.strike,
        rows.len() > 0 ==> b.min_strike == a.min_strike,
        rows.len() == 0 ==> b.min_strike == row.strike,
{
    reveal_with_fuel(sum_over, 2);
    let more = rows.push(row);
    let j = choose|j: int| #[trigger] is_atm(more, spot, j) && b == window_agg(more, j, 0);
    assert(window_rows(more, j, 0) =~= more);
    assert(more.drop_last() =~= rows);
    if rows.len() > 0 {
        let i = choose|i: int| #[trigger] is_atm(rows, spot, i) && a == window_agg(rows, i, 0);
        assert(window_rows(rows, i, 0) =~= rows);
    } else {
        assert(rows =~= Seq::empty());
    }
}

/// A window of `window` strikes on each side of the strike at the money is summed as if
/// those strikes were the whole chain: from `window` strikes before it, or the first
/// strike, to `window` strikes after it, or the last. A window of zero or less takes every
/// strike.
pub proof fn window_is_summed_on_its_own<N: Amount>(
    rows: Seq<StrikeRow<N>>,
    spot: N,
    atm: int,
    window: i64,
    a: WindowAgg<N>,
    b: WindowAgg<N>,
)
    requires
        is_atm(rows, spot, atm),
        is_aggregate(rows, spot, window, a),
        ({
            let n = rows.len() as int;
            let lo = if window <= 0 || atm - window < 0 { 0 } else { atm - window };
            let hi = if window <= 0 || atm + window >= n { n } else { atm + window + 1 };
            is_aggregate(rows.subrange(lo, hi), spot, 0, b)
        }),
    ensures
        a.strike_window == window,
        a.call_oi == b.call_oi,
        a.put_oi == b.put_oi,
        a.call_oi_chg == b.call_oi_chg,
        a.put_oi_chg == b.put_oi_chg,
        a.min_strike == b.min_strike,
        a.max_strike == b.max_strike,
{
    let n = rows.len() as int;
    let lo = if window <= 0 || atm - window < 0 { 0 } else { atm - window };
    let hi = if window <= 0 || atm + window >= n { n } else { atm + window + 1 };
    let part = rows.subrange(lo, hi);
    lemma_aggregate_at(rows, spot, atm, window, a);
    assert(window_rows(rows, atm, window as int) =~= part);
    assert(part.len() > 0);
    let j = choose|j: int| #[trigger] is_atm(part, spot, j) && b == window_agg(part, j, 0);
    assert(window_rows(part, j, 0) =~= part);
}

/// The sum of `f` over the rows in unbounded whole numbers.
pub open spec fn total(rows: Seq<StrikeRow<i64>>, f: spec_fn(StrikeRow<i64>) -> int) -> int
    decreases rows.len(),
{
    if rows.len() == 0 {
        0
    } else {
        total(rows.drop_last(), f) + f(rows.last())
    }
}

proof fn lemma_totals_subtract(
    rows: Seq<StrikeRow<i64>>,
    f: spec_fn(StrikeRow<i64>) -> int,
    g: spec_fn(StrikeRow<i64>) -> int,
    d: spec_fn(StrikeRow<i64>) -> int,
)
    requires
        forall|r: StrikeRow<i64>| #[trigger] d(r) == f(r) - g(r),
    ensures
        total(rows, d) == total(rows, f) - total(rows, g),
    decreases rows.len(),
{
    if rows.len() > 0 {
        lemma_totals_subtract(rows.drop_last(), f, g, d);
    }
}

/// Whether the numbers `f` can be summed over the rows within 64 bits, at every step.
pub open spec fn total_fits(
    rows: Seq<StrikeRow<i64>>,
    f: spec_fn(StrikeRow<i64>) -> int,
) -> bool {
    forall|n: int|
        0 <= n <= rows.len() ==> i64::MIN <= #[trigger] total(rows.take(n), f) <= i64::MAX
}

proof fn lemma_sum_is_total(
    rows: Seq<StrikeRow<i64>>,
    s: spec_fn(StrikeRow<i64>) -> i64,
    f: spec_fn(StrikeRow<i64>) -> int,
)
    requires
        total_fits(rows, f),
        forall|i: int| 0 <= i < rows.len() ==> s(#[trigger] rows[i]) == f(rows[i]),
    ensures
        sum_over(rows, s) == total(rows, f),
    decreases rows.len(),
{
    assert(rows.take(rows.len() as int) =~= rows);
    if rows.len() > 0 {
        let h = rows.drop_last();
        assert forall|n: int| 0 <= n <= h.len() implies i64::MIN <= #[trigger] total(
            h.take(n),
            f,
        ) <= i64::MAX by {
            assert(h.take(n) =~= rows.take(n));
        }
        assert forall|i: int| 0 <= i < h.len() implies s(#[trigger] h[i]) == f(h[i]) by {
            assert(h[i] == rows[i]);
        }
        lemma_sum_is_total(h, s, f);
        assert(s(rows[rows.len() - 1]) == f(rows[rows.len() - 1]));
        assert(i64::MIN <= total(rows.take(rows.len() as int), f) <= i64::MAX);
    }
}

/// In whole numbers, as long as nothing leaves the 64-bit range, an aggregate over the
/// whole chain has the exact sums of the open interest, and its changes are signed: the
/// present open interest less the previous one, summed, so that unwinding lowers them.
pub proof fn whole_number_aggregates_are_exact(
    rows: Seq<StrikeRow<i64>>,
    spot: i64,
    agg: WindowAgg<i64>,
)
    requires
        is_aggregate(rows, spot, 0, agg),
        forall|i: int|
            0 <= i < rows.len() ==> {
                let r = #[trigger] rows[i];
                &&& i64::MIN <= r.call_oi - r.call_prev_oi <= i64::MAX
                &&& i64::MIN <= r.put_oi - r.put_prev_oi <= i64::MAX
            },
        total_fits(rows, |r: StrikeRow<i64>| r.call_oi as int),
        total_fits(rows, |r: StrikeRow<i64>| r.put_oi as int),
        total_fits(rows, |r: StrikeRow<i64>| r.call_oi - r.call_prev_oi),
        total_fits(rows, |r: StrikeRow<i64>| r.put_oi - r.put_prev_oi),
    ensures
        agg.call_oi == total(rows, |r: StrikeRow<i64>| r.call_oi as int),
        agg.put_oi == total(rows, |r: StrikeRow<i64>| r.put_oi as int),
        agg.call_oi_chg == total(rows, |r: StrikeRow<i64>| r.call_oi as int) - total(
            rows,
            |r: StrikeRow<i64>| r.call_prev_oi as int,
        ),
        agg.put_oi_chg == total(rows, |r: StrikeRow<i64>| r.put_oi as int) - total(
            rows,
            |r: StrikeRow<i64>| r.put_prev_oi as int,
        ),
        agg.call_oi_chg == total(rows, |r: StrikeRow<i64>| r.call_oi - r.call_prev_oi),
        agg.put_oi_chg == total(rows, |r: StrikeRow<i64>| r.put_oi - r.put_prev_oi),
{
    let fc = |r: StrikeRow<i64>| r.call_oi as int;
    let fp = |r: StrikeRow<i64>| r.put_oi as int;
    let gc = |r: StrikeRow<i64>| r.call_prev_oi as int;
    let gp = |r: StrikeRow<i64>| r.put_prev_oi as int;
    let dc = |r: StrikeRow<i64>| r.call_oi - r.call_prev_oi;
    let dp = |r: StrikeRow<i64>| r.put_oi - r.put_prev_oi;
    lemma_totals_subtract(rows, fc, gc, dc);
    lemma_totals_subtract(rows, fp, gp, dp);
    lemma_sum_is_total(rows, call_oi(), fc);
    lemma_sum_is_total(rows, put_oi(), fp);
    lemma_sum_is_total(rows, call_oi_chg(), dc);
    lemma_sum_is_total(rows, put_oi_chg(), dp);
    if rows.len() > 0 {
        let i = choose|i: int| #[trigger] is_atm(rows, spot, i) && agg == window_agg(rows, i, 0);
        assert(window_rows(rows, i, 0) =~= rows);
    } else {
        assert(rows =~= Seq::empty());
    }
}

/// The windows that are stored and shown are 5, 10 and 20 strikes and the whole chain.
pub proof fn windows_are_four()
    ensures
        STRIKE_WINDOWS@ =~= seq![5i64, 10, 20, 0],
{
}

} // verus!
