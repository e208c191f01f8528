//! The intraday-trend table: the day's snapshots, one row per check minute.
use vstd::prelude::*;

use crate::calendar::{day_in, day_text, format_day, is_day, is_plain_day, parse_day, Clock};
use crate::chain::STRIKE_WINDOWS;
use crate::checks::{
    check_defined, check_minute, check_of, minute_in, minute_of_day, round_up_is_least_multiple,
    TREND_INTERVALS,
};
use crate::indices::{index_at, index_position, index_spec, position_of, INDEX_COUNT};
use crate::live::RequestError;
use crate::text::{decimal_02, push_decimal_02, same_text};

verus! {

/// Asks for the trend of one index.
#[derive(Debug, Clone)]
pub struct TrendQuery {
    pub underlying: String,
    pub interval: Option<u32>,
    pub window: Option<i64>,
    pub date: Option<String>,
}

/// A stored snapshot of one strike window.
#[derive(Debug)]
pub struct SnapshotRow<N> {
    pub ts: String,
    pub expiry: String,
    pub call_oi: N,
    pub put_oi: N,
    pub call_oi_chg: N,
    pub put_oi_chg: N,
    pub spot: N,
    pub fut_ltp: Option<N>,
    pub fut_vwap: Option<N>,
}

/// One row of the trend table.
#[derive(Debug)]
pub struct TrendRowDto<N> {
    /// Bucket label `HH:MM`; for the still-open latest bucket, the time of the snapshot
    /// it currently holds (and `live` is true).
    pub time: String,
    pub live: bool,
    pub ts: String,
    pub expiry: String,
    pub call_oi: N,
    pub put_oi: N,
    pub call_oi_chg: N,
    pub put_oi_chg: N,
    pub spot: N,
    pub fut_ltp: Option<N>,
    pub fut_vwap: Option<N>,
}

/// The trend table.
#[derive(Debug)]
pub struct TrendDto<N> {
    pub underlying: &'static str,
    pub date: Option<String>,
    pub interval: u32,
    pub window: i64,
    /// Newest first.
    pub rows: Vec<TrendRowDto<N>>,
}

/// The check that a snapshot belongs to, where its timestamp has a minute.
pub open spec fn label_of<N>(row: SnapshotRow<N>, interval: u32) -> Option<int> {
    match minute_in(row.ts@) {
        Some(m) => Some(check_of(m, interval as int)),
        None => None,
    }
}

/// The last snapshot of each check.
pub open spec fn buckets_of<N>(rows: Seq<SnapshotRow<N>>, interval: u32) -> Map<
    int,
    SnapshotRow<N>,
>
    decreases rows.len(),
{
    if rows.len() == 0 {
        Map::empty()
    } else {
        let before = buckets_of(rows.drop_last(), interval);
        match label_of(rows.last(), interval) {
            Some(label) => before.insert(label, rows.last()),
            None => before,
        }
    }
}

/// Whether the checks of all snapshots can be computed in 32 bits.
pub open spec fn checks_defined<N>(rows: Seq<SnapshotRow<N>>, interval: u32) -> bool {
    forall|i: int|
        0 <= i < rows.len() && minute_in((#[trigger] rows[i]).ts@) is Some ==> check_defined(
            minute_in(rows[i].ts@)->0,
            interval as int,
        )
}

/// Whether the labels strictly descend.
pub open spec fn descending<N>(buckets: Seq<(u32, SnapshotRow<N>)>) -> bool {
    forall|i: int, j: int|
        0 <= i < j < buckets.len() ==> (#[trigger] buckets[i]).0 > (#[trigger] buckets[j]).0
}

/// Whether the list holds exactly the entries of the map.
pub open spec fn lists<N>(
    buckets: Seq<(u32, SnapshotRow<N>)>,
    map: Map<int, SnapshotRow<N>>,
) -> bool {
    &&& forall|i: int|
        0 <= i < buckets.len() ==> map.contains_key((#[trigger] buckets[i]).0 as int)
            && map[buckets[i].0 as int] == buckets[i].1
    &&& forall|label: int| #[trigger]
        map.contains_key(label) ==> exists|i: int|
            0 <= i < buckets.len() && (#[trigger] buckets[i]).0 == label
}

proof fn lemma_earlier_snapshot<N>(row: SnapshotRow<N>, rows: Seq<SnapshotRow<N>>, interval: u32)
    ensures
        buckets_of(seq![row] + rows, interval) == (match label_of(row, interval) {
            Some(label) => if buckets_of(rows, interval).contains_key(label) {
                buckets_of(rows, interval)
            } else {
                buckets_of(rows, interval).insert(label, row)
            },
            None => buckets_of(rows, interval),
        }),
    decreases rows.len(),
{
    let all = seq![row] + rows;
    if rows.len() == 0 {
        assert(all.drop_last() =~= Seq::empty());
        assert(all.last() == row);
        assert(buckets_of(rows, interval) =~= Map::empty());
        assert(buckets_of(all.drop_last(), interval) =~= Map::empty());
    } else {
        lemma_earlier_snapshot(row, rows.drop_last(), interval);
        assert(all.drop_last() =~= seq![row] + rows.drop_last());
        assert(all.last() == rows.last());
        let inner = buckets_of(rows.drop_last(), interval);
        match (label_of(row, interval), label_of(rows.last(), interval)) {
            (Some(a), Some(b)) => {
                if a == b {
                    assert(inner.insert(a, row).insert(b, rows.last()) =~= inner.insert(
                        b,
                        rows.last(),
                    ));
                } else {
                    assert(inner.insert(a, row).insert(b, rows.last()) =~= inner.insert(
                        b,
                        rows.last(),
                    ).insert(a, row));
                }
            },
            _ => {},
        }
    }
}

/// Puts the snapshots into buckets: each check keeps its last snapshot, and the checks
/// come newest first. Snapshots whose timestamp has no minute are left out.
pub fn bucket_rows<N>(rows: Vec<SnapshotRow<N>>, interval: u32) -> (r: Vec<(u32, SnapshotRow<N>)>)
    requires
        checks_defined(rows@, interval),
    ensures
        descending(r@),
        lists(r@, buckets_of(rows@, interval)),
{
    let ghost all = rows@;
    let mut rest = rows;
    let mut buckets: Vec<(u32, SnapshotRow<N>)> = Vec::new();
    assert(all.skip(all.len() as int) =~= Seq::empty());
    // Newest first: the first snapshot met of a check is its last.
    while rest.len() > 0
        invariant
            rest@.len() <= all.len(),
            rest@ == all.take(rest@.len() as int),
            checks_defined(all, interval),
            descending(buckets@),
            lists(buckets@, buckets_of(all.skip(rest@.len() as int), interval)),
        decreases rest@.len(),
    {
        let ghost n = rest@.len() as int;
        match rest.pop() {
            Some(row) => {
                proof {
                    assert(row == all[n - 1]);
                    assert(rest@ =~= all.take(n - 1));
                    assert(all.skip(n - 1) =~= seq![row] + all.skip(n));
                    lemma_earlier_snapshot(row, all.skip(n), interval);
                }
                match minute_of_day(row.ts.as_str()) {
                    Some(m) => {
                        let label: u32 = check_minute(m, interval);
                        put_bucket(
                            &mut buckets,
                            label,
                            row,
                            Ghost(buckets_of(all.skip(n), interval)),
                        );
                    },
                    None => {},
                }
            },
            None => {},
        }
    }
    assert(all.skip(0) =~= all);
    buckets
}

/// Gives the check `label` the snapshot `row` unless it has one.
fn put_bucket<N>(
    buckets: &mut Vec<(u32, SnapshotRow<N>)>,
    label: u32,
    row: SnapshotRow<N>,
    Ghost(map): Ghost<Map<int, SnapshotRow<N>>>,
)
    requires
        descending(old(buckets)@),
        lists(old(buckets)@, map),
    ensures
        descending(final(buckets)@),
        map.contains_key(label as int) ==> lists(final(buckets)@, map),
        !map.contains_key(label as int) ==> lists(final(buckets)@, map.insert(label as int, row)),
{
    let ghost before = buckets@;
    let mut pos: usize = buckets.len();
    let mut placed: bool = false;
    while !placed
        invariant
            pos <= buckets@.len(),
            buckets@ == before,
            descending(before),
            forall|j: int| pos <= j < buckets@.len() ==> (#[trigger] buckets@[j]).0 < label,
            placed ==> pos == 0 || buckets@[pos - 1].0 >= label,
        decreases pos, (if placed {
            0int
        } else {
            1int
        }),
    {
        if pos == 0 {
            placed = true;
        } else if buckets[pos - 1].0 >= label {
            placed = true;
        } else {
            pos = pos - 1;
        }
    }
    if pos > 0 && buckets[pos - 1].0 == label {
        assert(map.contains_key(before[pos - 1].0 as int));
        return;
    }
    buckets.insert(pos, (label, row));
    proof {
        let after = buckets@;
        let next = map.insert(label as int, row);
        assert forall|i: int| 0 <= i < pos implies (#[trigger] before[i]).0 > label by {
            if i < pos - 1 {
                assert(before[i].0 > before[pos - 1].0);
            }
        }
        if map.contains_key(label as int) {
            let i = choose|i: int| 0 <= i < before.len() && (#[trigger] before[i]).0 == label;
            assert(false);
        }
        assert forall|i: int, j: int| 0 <= i < j < after.len() implies (#[trigger] after[i]).0 > (
        #[trigger] after[j]).0 by {
            let a = if i < pos {
                i
            } else {
                i - 1
            };
            let b = if j < pos {
                j
            } else {
                j - 1
            };
            if i != pos {
                assert(after[i] == before[a]);
            }
            if j != pos {
                assert(after[j] == before[b]);
            }
        }
        assert forall|i: int| 0 <= i < after.len() implies next.contains_key(
            (#[trigger] after[i]).0 as int,
        ) && next[after[i].0 as int] == after[i].1 by {
            if i < pos {
                assert(after[i] == before[i]);
            } else if i > pos {
                assert(after[i] == before[i - 1]);
            }
        }
        assert forall|l: int| #[trigger] next.contains_key(l) implies exists|i: int|
            0 <= i < after.len() && (#[trigger] after[i]).0 == l by {
            if l == label {
                assert(after[pos as int].0 == l);
            } else {
                let i = choose|i: int| 0 <= i < before.len() && (#[trigger] before[i]).0 == l;
                if i < pos {
                    assert(after[i].0 == l);
                } else {
                    assert(after[i + 1].0 == l);
                }
            }
        }
    }
}

/// A minute as a whole number, where there is one.
pub open spec fn minute_value(minute: Option<u32>) -> Option<int> {
    match minute {
        Some(m) => Some(m as int),
        None => None,
    }
}

/// Whether a bucket is still open: its snapshot was taken before the check, and the
/// check has not passed.
pub open spec fn is_open(snap_minute: int, label: int, now_minute: Option<int>) -> bool {
    snap_minute < label && now_minute is Some && now_minute->0 <= label
}

/// The minute of a snapshot, or `label` where its timestamp has none.
pub open spec fn snap_minute<N>(row: SnapshotRow<N>, label: int) -> int {
    match minute_in(row.ts@) {
        Some(m) => m,
        None => label,
    }
}

/// A minute of day as `HH:MM`.
pub open spec fn minute_text(minute: int) -> Seq<char> {
    decimal_02((minute / 60) as nat) + ":"@ + decimal_02((minute % 60) as nat)
}

/// Whether `dto` is the table row of the bucket `label` that holds the snapshot `row`.
pub open spec fn is_trend_row<N>(
    row: SnapshotRow<N>,
    label: int,
    now_minute: Option<int>,
    dto: TrendRowDto<N>,
) -> bool {
    let open = is_open(snap_minute(row, label), label, now_minute);
    &&& dto.live == open
    &&& dto.time@ == minute_text(
        if open {
            snap_minute(row, label)
        } else {
            label
        },
    )
    &&& dto.ts == row.ts
    &&& dto.expiry == row.expiry
    &&& dto.call_oi == row.call_oi
    &&& dto.put_oi == row.put_oi
    &&& dto.call_oi_chg == row.call_oi_chg
    &&& dto.put_oi_chg == row.put_oi_chg
    &&& dto.spot == row.spot
    &&& dto.fut_ltp == row.fut_ltp
    &&& dto.fut_vwap == row.fut_vwap
}

/// The table row of one bucket. It is open until the snapshot for the label minute itself
/// has landed (the poller writes it a few seconds into that minute); once the label
/// minute has passed, it is closed either way.
pub fn trend_row<N>(label: u32, row: SnapshotRow<N>, now_minute: Option<u32>) -> (r: TrendRowDto<N>)
    ensures
        is_trend_row(row, label as int, minute_value(now_minute), r),
{
    let taken: u32 = match minute_of_day(row.ts.as_str()) {
        Some(m) => m,
        None => label,
    };
    let live: bool = taken < label && match now_minute {
        Some(n) => n <= label,
        None => false,
    };
    let shown: u32 = if live {
        taken
    } else {
        label
    };
    let mut time = String::new();
    push_decimal_02(&mut time, shown / 60);
    time.append(":");
    push_decimal_02(&mut time, shown % 60);
    assert(time@ =~= minute_text(shown as int));
    TrendRowDto {
        time,
        live,
        ts: row.ts,
        expiry: row.expiry,
        call_oi: row.call_oi,
        put_oi: row.put_oi,
        call_oi_chg: row.call_oi_chg,
        put_oi_chg: row.put_oi_chg,
        spot: row.spot,
        fut_ltp: row.fut_ltp,
        fut_vwap: row.fut_vwap,
    }
}

/// Whether `out` is the table of the snapshots `rows` at the given minute: one row for
/// each check that has a snapshot, newest first, with the last snapshot of that check.
pub open spec fn is_trend_table<N>(
    rows: Seq<SnapshotRow<N>>,
    interval: u32,
    now_minute: Option<int>,
    out: Seq<TrendRowDto<N>>,
) -> bool {
    exists|buckets: Seq<(u32, SnapshotRow<N>)>| #[trigger]
        is_table_of(buckets, rows, interval, now_minute, out)
}

/// Whether `out` is the table of the snapshots `rows`, sorted into these buckets.
pub open spec fn is_table_of<N>(
    buckets: Seq<(u32, SnapshotRow<N>)>,
    rows: Seq<SnapshotRow<N>>,
    interval: u32,
    now_minute: Option<int>,
    out: Seq<TrendRowDto<N>>,
) -> bool {
    &&& descending(buckets)
    &&& lists(buckets, buckets_of(rows, interval))
    &&& out.len() == buckets.len()
    &&& forall|i: int|
        0 <= i < out.len() ==> is_trend_row(
            buckets[i].1,
            buckets[i].0 as int,
            now_minute,
            #[trigger] out[i],
        )
}

/// The table of a day's snapshots. The "11:01" row (15 min) holds the last snapshot taken
/// in (10:46, 11:01], normally the one taken at 11:01 itself.
pub fn trend_rows<N>(rows: Vec<SnapshotRow<N>>, interval: u32, now_minute: Option<u32>) -> (out:
    Vec<TrendRowDto<N>>)
    requires
        checks_defined(rows@, interval),
    ensures
        is_trend_table(rows@, interval, minute_value(now_minute), out@),
{
    let ghost all = rows@;
    let mut rest = bucket_rows(rows, interval);
    let ghost buckets = rest@;
    let mut out: Vec<TrendRowDto<N>> = Vec::new();
    while rest.len() > 0
        invariant
            rest@.len() + out@.len() == buckets.len(),
            rest@ == buckets.skip(out@.len() as int),
            forall|i: int|
                0 <= i < out@.len() ==> is_trend_row(
                    buckets[i].1,
                    buckets[i].0 as int,
                    minute_value(now_minute),
                    #[trigger] out@[i],
                ),
        decreases rest@.len(),
    {
        let ghost n = out@.len() as int;
        let (label, row) = rest.remove(0);
        assert((label, row) == buckets[n]);
        assert(rest@ =~= buckets.skip(n + 1));
        out.push(trend_row(label, row, now_minute));
    }
    assert(is_table_of(buckets, all, interval, minute_value(now_minute), out@));
    out
}

/// Whether the trend table is offered at this interval.
pub open spec fn is_offered_interval(interval: u32) -> bool {
    interval == 5 || interval == 15 || interval == 30 || interval == 60
}

/// Whether snapshots of this strike window are stored.
pub open spec fn is_stored_window(window: i64) -> bool {
    window == 5 || window == 10 || window == 20 || window == 0
}

/// A trend request with its defaults filled in.
#[derive(Debug)]
pub struct TrendPlan {
    /// Position of the index.
    pub index: usize,
    pub interval: u32,
    pub window: i64,
    /// The day asked for; `None` for the most recent day with data.
    pub date: Option<String>,
}

impl TrendPlan {
    /// Only plans for what is stored and offered are made.
    pub open spec fn valid(self) -> bool {
        &&& self.index < INDEX_COUNT
        &&& is_offered_interval(self.interval)
        &&& is_stored_window(self.window)
    }
}

/// The interval asked for, 15 minutes unless stated.
pub open spec fn interval_of(q: TrendQuery) -> u32 {
    match q.interval {
        Some(i) => i,
        None => 15,
    }
}

/// The strike window asked for, 10 unless stated.
pub open spec fn window_of(q: TrendQuery) -> i64 {
    match q.window {
        Some(w) => w,
        None => 10,
    }
}

/// Whether `r` is the answer to the query: refused for the first of underlying, interval
/// and window that is not known, otherwise a plan that keeps the date if it is one.
pub open spec fn is_plan(
    q: TrendQuery,
    dated: bool,
    r: Result<TrendPlan, RequestError>,
) -> bool {
    if position_of(q.underlying@) is None {
        r == Err::<TrendPlan, RequestError>(RequestError::UnknownUnderlying)
    } else if !is_offered_interval(interval_of(q)) {
        r == Err::<TrendPlan, RequestError>(RequestError::UnknownInterval)
    } else if !is_stored_window(window_of(q)) {
        r == Err::<TrendPlan, RequestError>(RequestError::UnknownWindow)
    } else {
        &&& r is Ok
        &&& r->Ok_0.valid()
        &&& r->Ok_0.index == position_of(q.underlying@)->0
        &&& r->Ok_0.interval == interval_of(q)
        &&& r->Ok_0.window == window_of(q)
        &&& r->Ok_0.date == (if dated {
            q.date
        } else {
            None
        })
    }
}

fn offered_interval(interval: u32) -> (r: bool)
    ensures
        r == is_offered_interval(interval),
{
    let mut i: usize = 0;
    while i < 4
        invariant
            i <= 4,
            TREND_INTERVALS@.len() == 4,
            forall|j: int| 0 <= j < i ==> #[trigger] TREND_INTERVALS@[j] != interval,
        decreases 4 - i,
    {
        if TREND_INTERVALS[i] == interval {
            return true;
        }
        i = i + 1;
    }
    assert(TREND_INTERVALS@[0] == 5 && TREND_INTERVALS@[1] == 15 && TREND_INTERVALS@[2] == 30
        && TREND_INTERVALS@[3] == 60);
    false
}

fn stored_window(window: i64) -> (r: bool)
    ensures
        r == is_stored_window(window),
{
    let mut i: usize = 0;
    while i < 4
        invariant
            i <= 4,
            STRIKE_WINDOWS@.len() == 4,
            forall|j: int| 0 <= j < i ==> #[trigger] STRIKE_WINDOWS@[j] != window,
        decreases 4 - i,
    {
        if STRIKE_WINDOWS[i] == window {
            return true;
        }
        i = i + 1;
    }
    assert(STRIKE_WINDOWS@[0] == 5 && STRIKE_WINDOWS@[1] == 10 && STRIKE_WINDOWS@[2] == 20
        && STRIKE_WINDOWS@[3] == 0);
    false
}

/// Fills in the defaults of a query whose date is one (`dated`) or is not.
pub fn plan_query(q: TrendQuery, dated: bool) -> (r: Result<TrendPlan, RequestError>)
    ensures
        is_plan(q, dated, r),
{
    let index: usize = match index_position(q.underlying.as_str()) {
        Some(i) => i,
        None => {
            return Err(RequestError::UnknownUnderlying);
        },
    };
    let interval: u32 = match q.interval {
        Some(i) => i,
        None => 15,
    };
    if !offered_interval(interval) {
        return Err(RequestError::UnknownInterval);
    }
    let window: i64 = match q.window {
        Some(w) => w,
        None => 10,
    };
    if !stored_window(window) {
        return Err(RequestError::UnknownWindow);
    }
    Ok(
        TrendPlan {
            index,
            interval,
            window,
            date: if dated {
                q.date
            } else {
                None
            },
        },
    )
}

/// Whether the query names a date that can be read.
pub open spec fn is_dated(q: TrendQuery) -> bool {
    match q.date {
        Some(d) => day_in(d@) is Some,
        None => false,
    }
}

/// Checks a trend request and fills in its defaults.
pub fn plan_trend(q: TrendQuery) -> (r: Result<TrendPlan, RequestError>)
    ensures
        is_plan(q, is_dated(q), r),
{
    let dated: bool = match &q.date {
        Some(d) => parse_day(d.as_str()).is_some(),
        None => false,
    };
    plan_query(q, dated)
}

/// The latest timestamp text of a day.
pub open spec fn day_end(date: Seq<char>) -> Seq<char> {
    date + " 23:59:59"@
}

/// The earliest timestamp text of a day.
pub open spec fn day_start(date: Seq<char>) -> Seq<char> {
    date + " 00:00:00"@
}

/// What to do next about a trend request.
#[derive(Debug)]
pub enum TrendStep<N> {
    /// Find the most recent day with a snapshot of the index, up to a timestamp; report to
    /// [`trend_after_lookup`].
    FindLatestDay { underlying: &'static str, upto: String },
    /// Load the day's snapshots of the index and strike window, by timestamp; report to
    /// [`trend_after_load`].
    LoadDay { underlying: &'static str, window: i64, date: String, from: String, to: String },
    /// Answer.
    Reply(TrendDto<N>),
}

/// Whether the step is to load the day `date` for the plan.
pub open spec fn loads_day<N>(plan: TrendPlan, date: Seq<char>, step: TrendStep<N>) -> bool {
    match step {
        TrendStep::LoadDay { underlying, window, date: d, from, to } => {
            &&& underlying == index_at(plan.index as int).id
            &&& window == plan.window
            &&& d@ == date
            &&& from@ == day_start(date)
            &&& to@ == day_end(date)
        },
        _ => false,
    }
}

fn load_day<N>(plan: &TrendPlan, date: &str) -> (r: TrendStep<N>)
    requires
        plan.valid(),
    ensures
        loads_day(*plan, date@, r),
{
    let mut from = String::new();
    from.append(date);
    from.append(" 00:00:00");
    assert(from@ =~= day_start(date@));
    let mut to = String::new();
    to.append(date);
    to.append(" 23:59:59");
    assert(to@ =~= day_end(date@));
    TrendStep::LoadDay {
        underlying: index_spec(plan.index).id,
        window: plan.window,
        date: date.to_owned(),
        from,
        to,
    }
}

/// The first step: load the day asked for or, where none is, look for the most recent
/// day with data up to `today` (weekends, before the first poll).
pub fn trend_start<N>(plan: &TrendPlan, today: i32) -> (r: TrendStep<N>)
    requires
        plan.valid(),
        is_day(today as int),
    ensures
        match plan.date {
            Some(d) => loads_day(*plan, d@, r),
            None => r is FindLatestDay && r->FindLatestDay_underlying == index_at(
                plan.index as int,
            ).id && r->upto@ == day_end(day_text(today)),
        },
{
    match &plan.date {
        Some(d) => load_day(plan, d.as_str()),
        None => {
            let mut upto = format_day(today);
            upto.append(" 23:59:59");
            TrendStep::FindLatestDay { underlying: index_spec(plan.index).id, upto }
        },
    }
}

/// Whether the reply is the empty table, for want of any day with data.
pub open spec fn is_empty_reply<N>(plan: TrendPlan, dto: TrendDto<N>) -> bool {
    &&& dto.underlying == index_at(plan.index as int).id
    &&& dto.date is None
    &&& dto.interval == plan.interval
    &&& dto.window == plan.window
    &&& dto.rows@.len() == 0
}

/// The step after the most recent day has been looked for: load it, or answer with an
/// empty table where there is none.
pub fn trend_after_lookup<N>(plan: &TrendPlan, found: Option<String>) -> (r: TrendStep<N>)
    requires
        plan.valid(),
    ensures
        match found {
            Some(d) => loads_day(*plan, d@, r),
            None => r is Reply && is_empty_reply(*plan, r->Reply_0),
        },
{
    match found {
        Some(d) => load_day(plan, d.as_str()),
        None => TrendStep::Reply(
            TrendDto {
                underlying: index_spec(plan.index).id,
                date: None,
                interval: plan.interval,
                window: plan.window,
                rows: Vec::new(),
            },
        ),
    }
}

/// The minute of day that the clock shows, where `date` is the day it shows.
pub open spec fn current_minute_of(clock: Clock, date: Seq<char>) -> Option<int> {
    if day_text(clock.day) == date {
        minute_in(clock.text())
    } else {
        None
    }
}

/// The minute of day that the clock shows, where `date` is the day it shows.
pub fn current_minute(clock: &Clock, date: &str) -> (r: Option<u32>)
    requires
        clock.valid(),
    ensures
        minute_value(r) == current_minute_of(*clock, date@),
        is_plain_day(clock.day as int) && day_text(clock.day) == date@ ==> minute_value(r) == Some(
            clock.minute_of_day(),
        ),
{
    if same_text(format_day(clock.day).as_str(), date) {
        minute_of_day(clock.timestamp().as_str())
    } else {
        None
    }
}

/// The answer for a day whose snapshots have been loaded, at the given minute where that
/// day is today.
pub fn trend_reply_at<N>(
    plan: &TrendPlan,
    date: String,
    rows: Vec<SnapshotRow<N>>,
    now_minute: Option<u32>,
) -> (r: TrendDto<N>)
    requires
        plan.valid(),
    ensures
        r.underlying == index_at(plan.index as int).id,
        r.date == Some(date),
        r.interval == plan.interval,
        r.window == plan.window,
        is_trend_table(rows@, plan.interval, minute_value(now_minute), r.rows@),
{
    proof {
        assert forall|i: int|
            0 <= i < rows@.len() && minute_in((#[trigger] rows@[i]).ts@)
                is Some implies check_defined(
            minute_in(rows@[i].ts@)->0,
            plan.interval as int,
        ) by {
            let m = minute_in(rows@[i].ts@)->0;
            round_up_is_least_multiple(m - 1, plan.interval as int);
        }
    }
    TrendDto {
        underlying: index_spec(plan.index).id,
        date: Some(date),
        interval: plan.interval,
        window: plan.window,
        rows: trend_rows(rows, plan.interval, now_minute),
    }
}

/// The answer for a day whose snapshots have been loaded. A check whose snapshot has not
/// been taken yet today is still open.
pub fn trend_reply<N>(
    plan: &TrendPlan,
    date: String,
    rows: Vec<SnapshotRow<N>>,
    clock: &Clock,
) -> (r: TrendDto<N>)
    requires
        plan.valid(),
        clock.valid(),
    ensures
        r.underlying == index_at(plan.index as int).id,
        r.date == Some(date),
        r.interval == plan.interval,
        r.window == plan.window,
        is_trend_table(rows@, plan.interval, current_minute_of(*clock, date@), r.rows@),
{
    let now = current_minute(clock, date.as_str());
    trend_reply_at(plan, date, rows, now)
}

/// What the caller is told where the day's snapshots could not be read.
pub const QUERY_FAILED: &'static str = "query failed";

/// The answer after an attempt to load the day's snapshots: the table, also where the day
/// has none, or that the query failed.
pub fn trend_after_load<N>(
    plan: &TrendPlan,
    date: String,
    loaded: Option<Vec<SnapshotRow<N>>>,
    clock: &Clock,
) -> (r: Result<TrendDto<N>, &'static str>)
    requires
        plan.valid(),
        clock.valid(),
    ensures
        match loaded {
            Some(rows) => {
                &&& r is Ok
                &&& r->Ok_0.underlying == index_at(plan.index as int).id
                &&& r->Ok_0.date == Some(date)
                &&& r->Ok_0.interval == plan.interval
                &&& r->Ok_0.window == plan.window
                &&& is_trend_table(
                    rows@,
                    plan.interval,
                    current_minute_of(*clock, date@),
                    r->Ok_0.rows@,
                )
            },
            None => r is Err && r->Err_0@ == "query failed"@,
        },
{
    match loaded {
        Some(rows) => Ok(trend_reply(plan, date, rows, clock)),
        None => Err(QUERY_FAILED),
    }
}

} // verus!
