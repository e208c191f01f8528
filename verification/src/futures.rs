//! Index futures: picking the nearest one out of an instruments file.
use vstd::prelude::*;

use crate::calendar::{ist_date, ist_date_defined, ist_date_of};
use crate::text::{ends_with, has_suffix, same_text, suffixes_end_texts, texts};
use crate::text_map::{is_listed, TextMap};

verus! {

/// A future, as quotes and charts refer to it.
#[derive(Debug, Clone)]
pub struct FutureContract {
    pub underlying_symbol: String,
    pub instrument_key: String,
    pub trading_symbol: String,
}

/// One row of an instruments file.
#[derive(Debug, Clone)]
pub struct InstrumentRow {
    pub segment: String,
    pub instrument_type: String,
    pub underlying_symbol: String,
    pub instrument_key: String,
    pub trading_symbol: String,
    /// Milliseconds from the start of 1970 in UTC. Upstox gives 00:00 IST of the expiry
    /// date.
    pub expiry: i64,
}

/// Whether the row is a future on one of the wanted underlyings.
pub open spec fn is_wanted_future(row: InstrumentRow, wanted: Seq<Seq<char>>) -> bool {
    &&& row.instrument_type@ == "FUT"@
    &&& has_suffix(row.segment@, "_FO"@)
    &&& wanted.contains(row.underlying_symbol@)
}

/// The wanted futures among the rows, in order.
pub open spec fn wanted_futures(rows: Seq<InstrumentRow>, wanted: Seq<Seq<char>>) -> Seq<
    InstrumentRow,
> {
    rows.filter(|r: InstrumentRow| is_wanted_future(r, wanted))
}

/// Keeps the wanted futures of a stream of rows, so that the rest of a large file need
/// never be held.
#[derive(Debug)]
pub struct FutFilter {
    pub wanted: Vec<String>,
    pub rows: Vec<InstrumentRow>,
}

impl FutFilter {
    /// Whether these are the wanted futures among the rows `seen`.
    pub open spec fn holds(self, seen: Seq<InstrumentRow>) -> bool {
        self.rows@ == wanted_futures(seen, texts(self.wanted@))
    }

    /// A filter that has seen no row.
    pub fn new(wanted: Vec<String>) -> (r: FutFilter)
        ensures
            r.wanted == wanted,
            r.rows@ == Seq::<InstrumentRow>::empty(),
            r.holds(Seq::empty()),
    {
        let r = FutFilter { wanted, rows: Vec::new() };
        proof {
            reveal(Seq::filter);
        }
        r
    }

    /// Keeps the row if it is a wanted future.
    pub fn offer(&mut self, row: InstrumentRow)
        ensures
            final(self).wanted == old(self).wanted,
            final(self).rows@ == (if is_wanted_future(row, texts(old(self).wanted@)) {
                old(self).rows@.push(row)
            } else {
                old(self).rows@
            }),
            forall|seen: Seq<InstrumentRow>| #[trigger]
                old(self).holds(seen) ==> final(self).holds(seen.push(row)),
    {
        let ghost row_seen = row;
        let ghost was_wanted = self.wanted@;
        if same_text(row.instrument_type.as_str(), "FUT") && ends_with(row.segment.as_str(), "_FO")
            && is_listed(row.underlying_symbol.as_str(), &self.wanted) {
            self.rows.push(row);
        }
        proof {
            assert forall|seen: Seq<InstrumentRow>| #[trigger] old(self).holds(seen) implies self.holds(
                seen.push(row_seen),
            ) by {
                reveal(Seq::filter);
                assert(seen.push(row_seen).drop_last() =~= seen);
            }
        }
    }
}

/// Whether the row's contract still trades on `today`: it expires on that IST date or
/// later.
pub open spec fn still_trades(row: InstrumentRow, today: i32) -> bool {
    match ist_date(row.expiry as int) {
        Some(day) => day >= today,
        None => false,
    }
}

/// Whether row `i` is the nearest contract on `symbol` that still trades on `today`; of
/// two with one expiry, the first.
pub open spec fn is_nearest(
    rows: Seq<InstrumentRow>,
    today: i32,
    symbol: Seq<char>,
    i: int,
) -> bool {
    &&& 0 <= i < rows.len()
    &&& rows[i].underlying_symbol@ == symbol
    &&& still_trades(rows[i], today)
    &&& forall|j: int|
        0 <= j < rows.len() && (#[trigger] rows[j]).underlying_symbol@ == symbol && still_trades(
            rows[j],
            today,
        ) ==> rows[i].expiry <= rows[j].expiry && (j < i ==> rows[i].expiry < rows[j].expiry)
}

/// Whether some contract on `symbol` still trades on `today`.
pub open spec fn trades(rows: Seq<InstrumentRow>, today: i32, symbol: Seq<char>) -> bool {
    exists|i: int|
        0 <= i < rows.len() && (#[trigger] rows[i]).underlying_symbol@ == symbol && still_trades(
            rows[i],
            today,
        )
}

/// The contract that a row describes.
pub open spec fn contract_of(row: InstrumentRow) -> FutureContract {
    FutureContract {
        underlying_symbol: row.underlying_symbol,
        instrument_key: row.instrument_key,
        trading_symbol: row.trading_symbol,
    }
}

/// Whether `picked` holds, for each underlying on which a contract still trades, the
/// nearest one, and nothing else.
pub open spec fn holds_nearest(
    rows: Seq<InstrumentRow>,
    today: i32,
    picked: Map<Seq<char>, FutureContract>,
) -> bool {
    &&& forall|symbol: Seq<char>| #[trigger]
        picked.contains_key(symbol) <==> trades(rows, today, symbol)
    &&& forall|symbol: Seq<char>, i: int| #[trigger]
        is_nearest(rows, today, symbol, i) ==> picked[symbol] == contract_of(rows[i])
}

/// Upstox expiry epochs are 00:00 IST of the expiry date, so IST dates are compared, not
/// instants: a contract expiring on `today` still counts, since it trades until the
/// close.
pub fn pick_nearest_futures(rows: Vec<InstrumentRow>, today: i32) -> (r: TextMap<FutureContract>)
    requires
        forall|i: int|
            0 <= i < rows@.len() ==> ist_date_defined((#[trigger] rows@[i]).expiry as int),
    ensures
        r.wf(),
        holds_nearest(rows@, today, r.map()),
{
    let mut best: TextMap<usize> = TextMap::new();
    let mut i: usize = 0;
    while i < rows.len()
        invariant
            i <= rows@.len(),
            forall|j: int|
                0 <= j < rows@.len() ==> ist_date_defined((#[trigger] rows@[j]).expiry as int),
            best.wf(),
            forall|s: Seq<char>| #[trigger]
                best.map().contains_key(s) ==> is_nearest(
                    rows@.take(i as int),
                    today,
                    s,
                    best.map()[s] as int,
                ),
            forall|j: int|
                0 <= j < i && still_trades(#[trigger] rows@[j], today) ==> best.map().contains_key(
                    rows@[j].underlying_symbol@,
                ),
        decreases rows@.len() - i,
    {
        let ghost seen = rows@.take(i as int);
        let ghost next = rows@.take(i + 1);
        let ghost before = best.map();
        let trading: bool = match ist_date_of(rows[i].expiry) {
            Some(day) => day >= today,
            None => false,
        };
        if trading {
            let nearer: bool = match best.get(rows[i].underlying_symbol.as_str()) {
                Some(cur) => {
                    assert(is_nearest(seen, today, rows@[i as int].underlying_symbol@, *cur as int));
                    rows[i].expiry < rows[*cur].expiry
                },
                None => true,
            };
            if nearer {
                best.insert(rows[i].underlying_symbol.clone(), i);
            }
        }
        proof {
            assert forall|s: Seq<char>| #[trigger] best.map().contains_key(s) implies is_nearest(
                next,
                today,
                s,
                best.map()[s] as int,
            ) by {
                let p = best.map()[s] as int;
                if before.contains_key(s) {
                    let q = before[s] as int;
                    assert(is_nearest(seen, today, s, q));
                    assert(seen[q] == next[q]);
                }
                assert forall|j: int|
                    0 <= j < next.len() && (#[trigger] next[j]).underlying_symbol@ == s
                        && still_trades(next[j], today) implies next[p].expiry <= next[j].expiry
                    && (j < p ==> next[p].expiry < next[j].expiry) by {
                    if j < i {
                        assert(next[j] == seen[j]);
                        assert(rows@[j] == seen[j]);
                        assert(before.contains_key(s));
                    }
                }
            }
        }
        i = i + 1;
    }
    assert(rows@.take(rows@.len() as int) =~= rows@);
    let mut out: TextMap<FutureContract> = TextMap::new();
    let mut n: usize = 0;
    while n < best.len()
        invariant
            n <= best.list().len(),
            best.wf(),
            forall|s: Seq<char>| #[trigger]
                best.map().contains_key(s) ==> is_nearest(
                    rows@,
                    today,
                    s,
                    best.map()[s] as int,
                ),
            out.wf(),
            forall|s: Seq<char>| #[trigger]
                out.map().contains_key(s) ==> best.map().contains_key(s) && out.map()[s]
                    == contract_of(rows@[best.map()[s] as int]),
            forall|m: int|
                0 <= m < n ==> out.map().contains_key((#[trigger] best.list()[m]).0@),
        decreases best.list().len() - n,
    {
        let (symbol, at) = best.entry(n);
        assert(is_nearest(rows@, today, symbol@, *at as int));
        let row = &rows[*at];
        out.insert(
            symbol.clone(),
            FutureContract {
                underlying_symbol: row.underlying_symbol.clone(),
                instrument_key: row.instrument_key.clone(),
                trading_symbol: row.trading_symbol.clone(),
            },
        );
        n = n + 1;
    }
    proof {
        assert forall|s: Seq<char>| #[trigger] out.map().contains_key(s) <==> trades(
            rows@,
            today,
            s,
        ) by {
            if out.map().contains_key(s) {
                let p = best.map()[s] as int;
                assert(rows@[p].underlying_symbol@ == s && still_trades(rows@[p], today));
            }
            if trades(rows@, today, s) {
                let j = choose|j: int|
                    0 <= j < rows@.len() && (#[trigger] rows@[j]).underlying_symbol@ == s
                        && still_trades(rows@[j], today);
                assert(best.map().contains_key(s));
                let m = crate::text_map::key_position(best.list(), s);
                assert(best.list()[m].0@ == s);
            }
        }
        assert forall|s: Seq<char>, p: int| #[trigger] is_nearest(rows@, today, s, p) implies out.map()[s]
            == contract_of(rows@[p]) by {
            assert(trades(rows@, today, s)) by {
                assert(rows@[p].underlying_symbol@ == s);
            }
            assert(out.map().contains_key(s));
            nearest_is_unique(rows@, today, s, p, best.map()[s] as int);
        }
    }
    out
}

/// At most one row is the nearest of its underlying.
pub proof fn nearest_is_unique(
    rows: Seq<InstrumentRow>,
    today: i32,
    symbol: Seq<char>,
    i: int,
    j: int,
)
    requires
        is_nearest(rows, today, symbol, i),
        is_nearest(rows, today, symbol, j),
    ensures
        i == j,
{
    assert(rows[i].underlying_symbol@ == symbol && rows[j].underlying_symbol@ == symbol);
}

/// Where a contract still trades there is a nearest one.
pub proof fn nearest_exists(rows: Seq<InstrumentRow>, today: i32, symbol: Seq<char>)
    requires
        trades(rows, today, symbol),
    ensures
        exists|i: int| is_nearest(rows, today, symbol, i),
    decreases rows.len(),
{
    let rest = rows.drop_last();
    let last = rows.len() - 1;
    let last_counts = rows[last].underlying_symbol@ == symbol && still_trades(rows[last], today);
    if trades(rest, today, symbol) {
        nearest_exists(rest, today, symbol);
        let p = choose|p: int| is_nearest(rest, today, symbol, p);
        assert(rest[p] == rows[p]);
        let best = if last_counts && rows[last].expiry < rows[p].expiry {
            last
        } else {
            p
        };
        assert forall|j: int|
            0 <= j < rows.len() && (#[trigger] rows[j]).underlying_symbol@ == symbol
                && still_trades(rows[j], today) implies rows[best].expiry <= rows[j].expiry && (j
            < best ==> rows[best].expiry < rows[j].expiry) by {
            if j < last {
                assert(rest[j] == rows[j]);
            }
        }
        assert(is_nearest(rows, today, symbol, best));
    } else {
        assert forall|j: int|
            0 <= j < rows.len() && (#[trigger] rows[j]).underlying_symbol@ == symbol
                && still_trades(rows[j], today) implies j == last by {
            if j < last {
                assert(rest[j] == rows[j]);
            }
        }
        assert(is_nearest(rows, today, symbol, last));
    }
}

/// Every underlying that is picked at all is picked under its own symbol.
pub proof fn picked_under_own_symbol(
    rows: Seq<InstrumentRow>,
    today: i32,
    picked: Map<Seq<char>, FutureContract>,
    symbol: Seq<char>,
)
    requires
        holds_nearest(rows, today, picked),
        picked.contains_key(symbol),
    ensures
        picked[symbol].underlying_symbol@ == symbol,
{
    nearest_exists(rows, today, symbol);
    let i = choose|i: int| is_nearest(rows, today, symbol, i);
    assert(picked[symbol] == contract_of(rows[i]));
}

/// Out of an instruments file only wanted underlyings are picked: what is picked from the
/// rows that the filter keeps has a wanted symbol, and a wanted one is picked exactly where
/// one of its futures in the file still trades.
pub proof fn only_wanted_futures_are_picked(
    rows: Seq<InstrumentRow>,
    wanted: Seq<Seq<char>>,
    today: i32,
    picked: Map<Seq<char>, FutureContract>,
    symbol: Seq<char>,
)
    requires
        holds_nearest(wanted_futures(rows, wanted), today, picked),
    ensures
        picked.contains_key(symbol) ==> wanted.contains(symbol),
        picked.contains_key(symbol) <==> exists|i: int|
            0 <= i < rows.len() && is_wanted_future(#[trigger] rows[i], wanted)
                && rows[i].underlying_symbol@ == symbol && still_trades(rows[i], today),
{
    let p = |r: InstrumentRow| is_wanted_future(r, wanted);
    let kept = wanted_futures(rows, wanted);
    if picked.contains_key(symbol) {
        assert(trades(kept, today, symbol));
        let k = choose|k: int|
            0 <= k < kept.len() && (#[trigger] kept[k]).underlying_symbol@ == symbol
                && still_trades(kept[k], today);
        rows.lemma_filter_pred(p, k);
        rows.lemma_filter_contains_rev(p, kept[k]);
        let i = choose|i: int| 0 <= i < rows.len() && rows[i] == kept[k];
        assert(is_wanted_future(rows[i], wanted));
    }
    if exists|i: int|
        0 <= i < rows.len() && is_wanted_future(#[trigger] rows[i], wanted)
            && rows[i].underlying_symbol@ == symbol && still_trades(rows[i], today) {
        let i = choose|i: int|
            0 <= i < rows.len() && is_wanted_future(#[trigger] rows[i], wanted)
                && rows[i].underlying_symbol@ == symbol && still_trades(rows[i], today);
        rows.lemma_filter_contains(p, i);
        let k = choose|k: int| 0 <= k < kept.len() && kept[k] == rows[i];
        assert(kept[k].underlying_symbol@ == symbol);
        assert(trades(kept, today, symbol));
    }
}

/// A contract once picked stays picked through its expiry day: on every day from then up
/// to and on the IST date on which it expires it is still the nearest.
pub proof fn pick_lasts_until_expiry(
    rows: Seq<InstrumentRow>,
    symbol: Seq<char>,
    i: int,
    picked_on: i32,
    later: i32,
)
    requires
        is_nearest(rows, picked_on, symbol, i),
        picked_on <= later,
        later <= ist_date(rows[i].expiry as int)->0,
    ensures
        is_nearest(rows, later, symbol, i),
{
}

/// Contracts roll only forward: the contract picked on a later day never expires before
/// the one picked on an earlier day.
pub proof fn picks_roll_forward(
    rows: Seq<InstrumentRow>,
    symbol: Seq<char>,
    i: int,
    j: int,
    earlier: i32,
    later: i32,
)
    requires
        earlier <= later,
        is_nearest(rows, earlier, symbol, i),
        is_nearest(rows, later, symbol, j),
    ensures
        rows[i].expiry <= rows[j].expiry,
{
    assert(rows[j].underlying_symbol@ == symbol && still_trades(rows[j], earlier));
}

/// The order of the file does not matter: from lists of the same rows the same
/// underlyings are picked, and for each a contract of the same expiry, which is the same
/// contract wherever no other on that underlying shares the expiry.
pub proof fn row_order_does_not_matter(
    a: Seq<InstrumentRow>,
    b: Seq<InstrumentRow>,
    today: i32,
    symbol: Seq<char>,
)
    requires
        forall|row: InstrumentRow|
            #![trigger a.contains(row)]
            #![trigger b.contains(row)]
            a.contains(row) <==> b.contains(row),
    ensures
        trades(a, today, symbol) <==> trades(b, today, symbol),
        forall|i: int, j: int|
            #![trigger is_nearest(a, today, symbol, i), is_nearest(b, today, symbol, j)]
            is_nearest(a, today, symbol, i) && is_nearest(b, today, symbol, j) ==> {
                &&& a[i].expiry == b[j].expiry
                &&& (forall|k: int|
                    0 <= k < a.len() && (#[trigger] a[k]).underlying_symbol@ == symbol
                        && a[k].expiry == a[i].expiry ==> a[k] == a[i]) ==> a[i] == b[j]
            },
{
    if trades(a, today, symbol) {
        let i = choose|i: int|
            0 <= i < a.len() && (#[trigger] a[i]).underlying_symbol@ == symbol && still_trades(
                a[i],
                today,
            );
        assert(a.contains(a[i]));
        let j = choose|j: int| 0 <= j < b.len() && b[j] == a[i];
        assert(b[j].underlying_symbol@ == symbol);
    }
    if trades(b, today, symbol) {
        let j = choose|j: int|
            0 <= j < b.len() && (#[trigger] b[j]).underlying_symbol@ == symbol && still_trades(
                b[j],
                today,
            );
        assert(b.contains(b[j]));
        let i = choose|i: int| 0 <= i < a.len() && a[i] == b[j];
        assert(a[i].underlying_symbol@ == symbol);
    }
    assert forall|i: int, j: int|
        #![trigger is_nearest(a, today, symbol, i), is_nearest(b, today, symbol, j)]
        is_nearest(a, today, symbol, i) && is_nearest(b, today, symbol, j) implies {
        &&& a[i].expiry == b[j].expiry
        &&& (forall|k: int|
            0 <= k < a.len() && (#[trigger] a[k]).underlying_symbol@ == symbol && a[k].expiry
                == a[i].expiry ==> a[k] == a[i]) ==> a[i] == b[j]
    } by {
        assert(a.contains(a[i]));
        assert(b.contains(b[j]));
        let i_in_b = choose|m: int| 0 <= m < b.len() && b[m] == a[i];
        let j_in_a = choose|m: int| 0 <= m < a.len() && a[m] == b[j];
        assert(b[i_in_b].underlying_symbol@ == symbol);
        assert(a[j_in_a].underlying_symbol@ == symbol);
    }
}

/// The day after its expiry a contract is no longer picked.
pub proof fn pick_rolls_after_expiry(
    rows: Seq<InstrumentRow>,
    symbol: Seq<char>,
    i: int,
    today: i32,
)
    requires
        0 <= i < rows.len(),
        ist_date(rows[i].expiry as int) is Some,
        today > ist_date(rows[i].expiry as int)->0,
    ensures
        !is_nearest(rows, today, symbol, i),
{
}

/// A row is kept exactly where it is a future, of a segment that ends in `_FO`, on one of
/// the wanted underlyings.
pub proof fn kept_rows_are_wanted_futures(row: InstrumentRow, wanted: Seq<Seq<char>>)
    ensures
        is_wanted_future(row, wanted) <==> {
            &&& row.instrument_type@ == "FUT"@
            &&& exists|front: Seq<char>| row.segment@ == #[trigger] (front + "_FO"@)
            &&& exists|i: int| 0 <= i < wanted.len() && #[trigger] wanted[i]
                == row.underlying_symbol@
        },
{
    suffixes_end_texts(row.segment@, "_FO"@);
}

/// A further row of a file is kept at the end where it is wanted, and changes nothing
/// otherwise; no rows keep none.
pub proof fn rows_are_kept_in_turn(
    rows: Seq<InstrumentRow>,
    row: InstrumentRow,
    wanted: Seq<Seq<char>>,
)
    ensures
        wanted_futures(Seq::empty(), wanted) == Seq::<InstrumentRow>::empty(),
        is_wanted_future(row, wanted) ==> wanted_futures(rows.push(row), wanted)
            == wanted_futures(rows, wanted).push(row),
        !is_wanted_future(row, wanted) ==> wanted_futures(rows.push(row), wanted)
            == wanted_futures(rows, wanted),
{
    reveal(Seq::filter);
    assert(rows.push(row).drop_last() =~= rows);
}

/// What is picked for an underlying is one of its own rows, key and trading symbol
/// unchanged: one whose expiry falls on today in IST or later, the earliest of these, and
/// the first in the file of those that expire with it. Nothing is picked where no row of
/// the underlying expires today or later.
pub proof fn pick_is_the_earliest_not_yet_expired(
    rows: Seq<InstrumentRow>,
    today: i32,
    picked: Map<Seq<char>, FutureContract>,
    symbol: Seq<char>,
)
    requires
        holds_nearest(rows, today, picked),
    ensures
        ({
            let live = |r: InstrumentRow|
                r.underlying_symbol@ == symbol && -95746129 <= r.expiry as int / 86_400_000 + 719163
                    <= 95745399 && (r.expiry + 19_800_000) / 86_400_000 + 719163 >= today;
            &&& picked.contains_key(symbol) <==> exists|i: int|
                0 <= i < rows.len() && live(#[trigger] rows[i])
            &&& picked.contains_key(symbol) ==> exists|i: int|
                0 <= i < rows.len() && live(#[trigger] rows[i]) && picked[symbol].underlying_symbol
                    == rows[i].underlying_symbol && picked[symbol].instrument_key
                    == rows[i].instrument_key && picked[symbol].trading_symbol
                    == rows[i].trading_symbol && (forall|j: int|
                    0 <= j < rows.len() && live(#[trigger] rows[j]) ==> rows[i].expiry
                        <= rows[j].expiry && (j < i ==> rows[i].expiry < rows[j].expiry))
        }),
{
    let live = |r: InstrumentRow|
        r.underlying_symbol@ == symbol && -95746129 <= r.expiry as int / 86_400_000 + 719163
            <= 95745399 && (r.expiry + 19_800_000) / 86_400_000 + 719163 >= today;
    assert forall|r: InstrumentRow| #[trigger]
        live(r) <==> r.underlying_symbol@ == symbol && still_trades(r, today) by {}
    if exists|i: int| 0 <= i < rows.len() && live(#[trigger] rows[i]) {
        let i = choose|i: int| 0 <= i < rows.len() && live(#[trigger] rows[i]);
        assert(rows[i].underlying_symbol@ == symbol && still_trades(rows[i], today));
        assert(trades(rows, today, symbol));
    }
    if picked.contains_key(symbol) {
        nearest_exists(rows, today, symbol);
        let i = choose|i: int| is_nearest(rows, today, symbol, i);
        assert(picked[symbol] == contract_of(rows[i]));
        assert(live(rows[i]));
        assert forall|j: int| 0 <= j < rows.len() && live(#[trigger] rows[j]) implies rows[i].expiry
            <= rows[j].expiry && (j < i ==> rows[i].expiry < rows[j].expiry) by {
            assert(rows[j].underlying_symbol@ == symbol && still_trades(rows[j], today));
        }
    }
}

/// A filter that holds what it has seen of a file holds its wanted futures and no others.
pub proof fn filters_hold_the_wanted_futures(filter: FutFilter, seen: Seq<InstrumentRow>)
    ensures
        filter.holds(seen) <==> filter.rows@ == wanted_futures(seen, texts(filter.wanted@)),
{
}

} // verus!
