//! Option-chain analytics: strike rows, the at-the-money strike, open interest summed
//! over a window of strikes.
use vstd::prelude::*;

use crate::amount::Amount;
use crate::quotes::{iv_of, market_data_of, side_data, side_iv, OptionChainStrike};

verus! {

/// Strike windows persisted every minute: ATM plus and minus so many strikes, 0 for the
/// whole chain.
pub const STRIKE_WINDOWS: [i64; 4] = [5, 10, 20, 0];

/// One strike of a chain, its two sides flattened.
#[derive(Debug, Clone, Copy)]
pub struct StrikeRow<N> {
    pub strike: N,
    pub call_oi: N,
    pub call_prev_oi: N,
    pub call_ltp: N,
    pub call_volume: N,
    pub call_iv: N,
    pub put_oi: N,
    pub put_prev_oi: N,
    pub put_ltp: N,
    pub put_volume: N,
    pub put_iv: N,
}

/// Open interest summed over a window of strikes.
#[derive(Debug, Clone, Copy, PartialEq)]
pub struct WindowAgg<N> {
    pub strike_window: i64,
    pub call_oi: N,
    pub put_oi: N,
    pub call_oi_chg: N,
    pub put_oi_chg: N,
    pub min_strike: N,
    pub max_strike: N,
}

/// `value`, or `fallback` where there is none.
pub open spec fn value_or<N>(value: Option<N>, fallback: N) -> N {
    match value {
        Some(v) => v,
        None => fallback,
    }
}

/// The row of one strike. A missing previous open interest is taken to equal the
/// present one.
pub open spec fn row_of<N: Amount>(s: OptionChainStrike<N>) -> StrikeRow<N> {
    let cm = side_data(s.call_options);
    let pm = side_data(s.put_options);
    StrikeRow {
        strike: s.strike_price,
        call_oi: cm.oi,
        call_prev_oi: value_or(cm.prev_oi, cm.oi),
        call_ltp: cm.ltp,
        call_volume: cm.volume,
        call_iv: side_iv(s.call_options),
        put_oi: pm.oi,
        put_prev_oi: value_or(pm.prev_oi, pm.oi),
        put_ltp: pm.ltp,
        put_volume: pm.volume,
        put_iv: side_iv(s.put_options),
    }
}

/// The rows of a chain, in the chain's order.
pub open spec fn rows_of<N: Amount>(chain: Seq<OptionChainStrike<N>>) -> Seq<StrikeRow<N>> {
    chain.map_values(|s: OptionChainStrike<N>| row_of(s))
}

/// The rows whose strike has rank `k`, in order.
pub open spec fn rows_at<N: Amount>(rows: Seq<StrikeRow<N>>, k: i64) -> Seq<StrikeRow<N>> {
    rows.filter(|r: StrikeRow<N>| r.strike.spec_rank() == k)
}

/// Whether the rows ascend by strike.
pub open spec fn ascending<N: Amount>(rows: Seq<StrikeRow<N>>) -> bool {
    forall|i: int, j: int|
        0 <= i <= j < rows.len() ==> (#[trigger] rows[i]).strike.spec_rank() <= (
        #[trigger] rows[j]).strike.spec_rank()
}

/// Whether `to` is `from` sorted by strike, rows of equal strikes in the order in which
/// they came.
pub open spec fn stably_sorted<N: Amount>(
    from: Seq<StrikeRow<N>>,
    to: Seq<StrikeRow<N>>,
) -> bool {
    &&& to.len() == from.len()
    &&& ascending(to)
    &&& forall|k: i64| #[trigger] rows_at(to, k) == rows_at(from, k)
}

fn strike_row<N: Amount>(s: &OptionChainStrike<N>) -> (r: StrikeRow<N>)
    ensures
        r == row_of(*s),
{
    let cm = market_data_of(&s.call_options);
    let pm = market_data_of(&s.put_options);
    StrikeRow {
        strike: s.strike_price,
        call_oi: cm.oi,
        // A missing previous OI makes the change 0, never the whole OI.
        call_prev_oi: match cm.prev_oi {
            Some(v) => v,
            None => cm.oi,
        },
        call_ltp: cm.ltp,
        call_volume: cm.volume,
        call_iv: iv_of(&s.call_options),
        put_oi: pm.oi,
        put_prev_oi: match pm.prev_oi {
            Some(v) => v,
            None => pm.oi,
        },
        put_ltp: pm.ltp,
        put_volume: pm.volume,
        put_iv: iv_of(&s.put_options),
    }
}

proof fn lemma_no_rows_at<N: Amount>(rows: Seq<StrikeRow<N>>, k: i64)
    requires
        forall|i: int| 0 <= i < rows.len() ==> (#[trigger] rows[i]).strike.spec_rank() != k,
    ensures
        rows_at(rows, k) == Seq::<StrikeRow<N>>::empty(),
    decreases rows.len(),
{
    reveal(Seq::filter);
    if rows.len() > 0 {
        lemma_no_rows_at(rows.drop_last(), k);
    }
}

proof fn lemma_rows_at_push<N: Amount>(rows: Seq<StrikeRow<N>>, r: StrikeRow<N>, k: i64)
    ensures
        rows_at(rows.push(r), k) == (if r.strike.spec_rank() == k {
            rows_at(rows, k).push(r)
        } else {
            rows_at(rows, k)
        }),
{
    reveal(Seq::filter);
    assert(rows.push(r).drop_last() =~= rows);
}

proof fn lemma_rows_at_add<N: Amount>(a: Seq<StrikeRow<N>>, b: Seq<StrikeRow<N>>, k: i64)
    ensures
        rows_at(a + b, k) == rows_at(a, k) + rows_at(b, k),
    decreases b.len(),
{
    if b.len() == 0 {
        assert(a + b =~= a);
        lemma_no_rows_at(b, k);
        assert(rows_at(a, k) + rows_at(b, k) =~= rows_at(a, k));
    } else {
        let h = b.drop_last();
        lemma_rows_at_add(a, h, k);
        lemma_rows_at_push(a + h, b.last(), k);
        lemma_rows_at_push(h, b.last(), k);
        assert(a + b =~= (a + h).push(b.last()));
        assert(b =~= h.push(b.last()));
        assert(rows_at(a + b, k) =~= rows_at(a, k) + rows_at(b, k));
    }
}

pub(crate) proof fn lemma_insert_keeps_sorted<N: Amount>(
    from: Seq<StrikeRow<N>>,
    to: Seq<StrikeRow<N>>,
    pos: int,
    r: StrikeRow<N>,
)
    requires
        stably_sorted(from, to),
        0 <= pos <= to.len(),
        forall|i: int|
            0 <= i < pos ==> (#[trigger] to[i]).strike.spec_rank() <= r.strike.spec_rank(),
        forall|i: int|
            pos <= i < to.len() ==> (#[trigger] to[i]).strike.spec_rank()
                > r.strike.spec_rank(),
    ensures
        stably_sorted(from.push(r), to.insert(pos, r)),
{
    let next = to.insert(pos, r);
    let a = to.subrange(0, pos);
    let b = to.subrange(pos, to.len() as int);
    assert(to =~= a + b);
    assert(next =~= a.push(r) + b);
    assert forall|k: i64| #[trigger] rows_at(next, k) == rows_at(from.push(r), k) by {
        lemma_rows_at_add(a, b, k);
        lemma_rows_at_add(a.push(r), b, k);
        lemma_rows_at_push(a, r, k);
        lemma_rows_at_push(from, r, k);
        assert(rows_at(to, k) == rows_at(from, k));
        if k == r.strike.spec_rank() {
            lemma_no_rows_at(b, k);
            assert(rows_at(a, k) + rows_at(b, k) =~= rows_at(a, k));
            assert(rows_at(a, k).push(r) + rows_at(b, k) =~= rows_at(a, k).push(r));
        }
    }
}

/// The rows of a chain, sorted by strike; strikes that occur twice keep their order.
pub fn to_strike_rows<N: Amount>(chain: &[OptionChainStrike<N>]) -> (rows: Vec<StrikeRow<N>>)
    ensures
        stably_sorted(rows_of(chain@), rows@),
{
    let mut rows: Vec<StrikeRow<N>> = Vec::new();
    let ghost all = rows_of(chain@);
    assert(all.take(0) =~= Seq::empty());
    let mut i: usize = 0;
    while i < chain.len()
        invariant
            i <= chain@.len(),
            all == rows_of(chain@),
            stably_sorted(all.take(i as int), rows@),
        decreases chain@.len() - i,
    {
        let row = strike_row(&chain[i]);
        let rank: i64 = row.strike.rank();
        let mut pos: usize = rows.len();
        let mut placed: bool = false;
        while !placed
            invariant
                pos <= rows@.len(),
                ascending(rows@),
                rank == row.strike.spec_rank(),
                forall|j: int|
                    pos <= j < rows@.len() ==> (#[trigger] rows@[j]).strike.spec_rank() > rank,
                placed ==> forall|j: int|
                    0 <= j < pos ==> (#[trigger] rows@[j]).strike.spec_rank() <= rank,
            decreases pos, (if placed {
                0int
            } else {
                1int
            }),
        {
            if pos == 0 {
                placed = true;
            } else if rows[pos - 1].strike.rank() <= rank {
                placed = true;
            } else {
                pos = pos - 1;
            }
        }
        proof {
            lemma_insert_keeps_sorted(all.take(i as int), rows@, pos as int, row);
            assert(all.take(i as int).push(row) =~= all.take(i + 1));
        }
        rows.insert(pos, row);
        i = i + 1;
    }
    assert(all.take(chain@.len() as int) =~= all);
    rows
}

/// How far a row's strike lies from `spot`, as a rank.
pub open spec fn gap<N: Amount>(row: StrikeRow<N>, spot: N) -> i64 {
    row.strike.spec_minus(spot).spec_magnitude().spec_rank()
}

/// Whether row `i` is at the money: no strike is closer to `spot`, and none before it as
/// close.
pub open spec fn is_atm<N: Amount>(rows: Seq<StrikeRow<N>>, spot: N, i: int) -> bool {
    &&& 0 <= i < rows.len()
    &&& forall|j: int| 0 <= j < rows.len() ==> gap(rows[i], spot) <= gap(#[trigger] rows[j], spot)
    &&& forall|j: int| 0 <= j < i ==> gap(rows[i], spot) < gap(#[trigger] rows[j], spot)
}

/// Index of the strike closest to spot; of two equally close, the first.
pub fn atm_index<N: Amount>(rows: &[StrikeRow<N>], spot: N) -> (r: Option<usize>)
    ensures
        r is None <==> rows@.len() == 0,
        r is Some ==> is_atm(rows@, spot, r->0 as int),
{
    if rows.len() == 0 {
        return None;
    }
    let mut best: usize = 0;
    let mut best_gap: i64 = rows[0].strike.minus(spot).magnitude().rank();
    let mut i: usize = 1;
    while i < rows.len()
        invariant
            1 <= i <= rows@.len(),
            best < i,
            best_gap == gap(rows@[best as int], spot),
            forall|j: int| 0 <= j < i ==> best_gap <= gap(#[trigger] rows@[j], spot),
            forall|j: int| 0 <= j < best ==> best_gap < gap(#[trigger] rows@[j], spot),
        decreases rows@.len() - i,
    {
        let g: i64 = rows[i].strike.minus(spot).magnitude().rank();
        if g < best_gap {
            best = i;
            best_gap = g;
        }
        i = i + 1;
    }
    Some(best)
}

/// First row of the window of `window` strikes on each side of row `atm`.
pub open spec fn window_first(atm: int, window: int) -> int {
    if window <= 0 || window > atm {
        0
    } else {
        atm - window
    }
}

/// Last row of the window of `window` strikes on each side of row `atm`, in a chain of
/// `len` rows.
pub open spec fn window_last(len: int, atm: int, window: int) -> int {
    if window <= 0 || atm + window > len - 1 {
        len - 1
    } else {
        atm + window
    }
}

/// The rows of the window.
pub open spec fn window_rows<N>(rows: Seq<StrikeRow<N>>, atm: int, window: int) -> Seq<
    StrikeRow<N>,
> {
    rows.subrange(window_first(atm, window), window_last(rows.len() as int, atm, window) + 1)
}

/// The sum of `f` over the rows, taken from the first row on.
pub open spec fn sum_over<N: Amount>(
    rows: Seq<StrikeRow<N>>,
    f: spec_fn(StrikeRow<N>) -> N,
) -> N
    decreases rows.len(),
{
    if rows.len() == 0 {
        N::spec_zero()
    } else {
        sum_over(rows.drop_last(), f).spec_plus(f(rows.last()))
    }
}

/// A row's open interest in calls.
pub open spec fn call_oi<N: Amount>() -> spec_fn(StrikeRow<N>) -> N {
    |r: StrikeRow<N>| r.call_oi
}

/// A row's open interest in puts.
pub open spec fn put_oi<N: Amount>() -> spec_fn(StrikeRow<N>) -> N {
    |r: StrikeRow<N>| r.put_oi
}

/// The change of a row's open interest in calls since the day before.
pub open spec fn call_oi_chg<N: Amount>() -> spec_fn(StrikeRow<N>) -> N {
    |r: StrikeRow<N>| r.call_oi.spec_minus(r.call_prev_oi)
}

/// The change of a row's open interest in puts since the day before.
pub open spec fn put_oi_chg<N: Amount>() -> spec_fn(StrikeRow<N>) -> N {
    |r: StrikeRow<N>| r.put_oi.spec_minus(r.put_prev_oi)
}

/// The aggregate of an empty chain.
pub open spec fn empty_agg<N: Amount>(window: i64) -> WindowAgg<N> {
    WindowAgg {
        strike_window: window,
        call_oi: N::spec_zero(),
        put_oi: N::spec_zero(),
        call_oi_chg: N::spec_zero(),
        put_oi_chg: N::spec_zero(),
        min_strike: N::spec_zero(),
        max_strike: N::spec_zero(),
    }
}

/// The aggregate of the window around row `atm`.
pub open spec fn window_agg<N: Amount>(
    rows: Seq<StrikeRow<N>>,
    atm: int,
    window: i64,
) -> WindowAgg<N> {
    let w = window_rows(rows, atm, window as int);
    WindowAgg {
        strike_window: window,
        call_oi: sum_over(w, call_oi()),
        put_oi: sum_over(w, put_oi()),
        call_oi_chg: sum_over(w, call_oi_chg()),
        put_oi_chg: sum_over(w, put_oi_chg()),
        min_strike: w.first().strike,
        max_strike: w.last().strike,
    }
}

impl<N: Amount> Default for WindowAgg<N> {
    fn default() -> (r: Self)
        ensures
            r == empty_agg::<N>(0),
    {
        WindowAgg {
            strike_window: 0,
            call_oi: N::zero(),
            put_oi: N::zero(),
            call_oi_chg: N::zero(),
            put_oi_chg: N::zero(),
            min_strike: N::zero(),
            max_strike: N::zero(),
        }
    }
}

/// Whether `agg` is the aggregate of the window of `window` strikes around the strike
/// closest to `spot`.
pub open spec fn is_aggregate<N: Amount>(
    rows: Seq<StrikeRow<N>>,
    spot: N,
    window: i64,
    agg: WindowAgg<N>,
) -> bool {
    if rows.len() == 0 {
        agg == empty_agg::<N>(window)
    } else {
        exists|atm: int| #[trigger] is_atm(rows, spot, atm) && agg == window_agg(rows, atm, window)
    }
}

/// Sums OI over ATM plus and minus `window` strikes (every strike where `window` is 0).
pub fn aggregate<N: Amount>(rows: &[StrikeRow<N>], spot: N, window: i64) -> (agg: WindowAgg<N>)
    ensures
        is_aggregate(rows@, spot, window, agg),
{
    let mut agg = WindowAgg::default();
    agg.strike_window = window;
    let atm: usize = match atm_index(rows, spot) {
        Some(i) => i,
        None => {
            return agg;
        },
    };
    let last: usize = rows.len() - 1;
    let lo: usize = if window <= 0 || window as u64 > atm as u64 {
        0
    } else {
        atm - window as usize
    };
    let hi: usize = if window <= 0 || window as u64 > (last - atm) as u64 {
        last
    } else {
        atm + window as usize
    };
    assert(lo == window_first(atm as int, window as int));
    assert(hi == window_last(rows@.len() as int, atm as int, window as int));
    assert(rows@.subrange(lo as int, lo as int) =~= Seq::empty());
    let mut i: usize = lo;
    while i <= hi
        invariant
            lo <= i <= hi + 1,
            hi < rows@.len(),
            agg.strike_window == window,
            agg.call_oi == sum_over(rows@.subrange(lo as int, i as int), call_oi()),
            agg.put_oi == sum_over(rows@.subrange(lo as int, i as int), put_oi()),
            agg.call_oi_chg == sum_over(rows@.subrange(lo as int, i as int), call_oi_chg()),
            agg.put_oi_chg == sum_over(rows@.subrange(lo as int, i as int), put_oi_chg()),
        decreases hi + 1 - i,
    {
        let r = rows[i];
        assert(rows@.subrange(lo as int, i + 1).drop_last() =~= rows@.subrange(
            lo as int,
            i as int,
        ));
        assert(rows@.subrange(lo as int, i + 1).last() == r);
        agg.call_oi = agg.call_oi.plus(r.call_oi);
        agg.put_oi = agg.put_oi.plus(r.put_oi);
        agg.call_oi_chg = agg.call_oi_chg.plus(r.call_oi.minus(r.call_prev_oi));
        agg.put_oi_chg = agg.put_oi_chg.plus(r.put_oi.minus(r.put_prev_oi));
        i = i + 1;
    }
    agg.min_strike = rows[lo].strike;
    agg.max_strike = rows[hi].strike;
    assert(agg == window_agg(rows@, atm as int, window));
    agg
}

} // verus!
