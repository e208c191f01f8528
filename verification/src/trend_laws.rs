//! What holds of the trend table as a whole.
use vstd::prelude::*;

use crate::calendar::{day_text, formatted_date, parsed_date, time_text, Clock};
use crate::checks::{
    check_at_or_after_snapshot, check_covers_its_interval, check_defined, check_of,
    check_within_trading_day, checks_are_stable, checks_keep_order, minute_in,
    round_up_is_least_multiple, CLOSE_CHECK_MINUTE, OPEN_CHECK_MINUTE,
};
use crate::indices::{index_at, position_of};
use crate::live::RequestError;
use crate::text::{decimal, decimal_02, digit};
use crate::trend::{
    buckets_of, checks_defined, current_minute_of, day_end, day_start, descending, is_dated, is_empty_reply,
    is_open, is_plan, is_table_of, is_trend_row, is_trend_table, label_of, lists, loads_day,
    minute_value, snap_minute, SnapshotRow, TrendDto, TrendPlan, TrendQuery, TrendRowDto, TrendStep,
};

verus! {

/// Whether `i` is the last snapshot of the check `label`.
pub open spec fn is_last_of_check<N>(
    rows: Seq<SnapshotRow<N>>,
    interval: u32,
    label: int,
    i: int,
) -> bool {
    &&& 0 <= i < rows.len()
    &&& label_of(rows[i], interval) == Some(label)
    &&& forall|j: int| i < j < rows.len() ==> label_of(#[trigger] rows[j], interval) != Some(label)
}

/// Every check that has a snapshot has a row, and the row holds the last of them.
pub proof fn row_holds_last_snapshot<N>(rows: Seq<SnapshotRow<N>>, interval: u32, label: int)
    ensures
        buckets_of(rows, interval).contains_key(label) <==> exists|i: int|
            0 <= i < rows.len() && label_of(#[trigger] rows[i], interval) == Some(label),
        forall|i: int| #[trigger]
            is_last_of_check(rows, interval, label, i) ==> buckets_of(rows, interval).contains_key(
                label,
            ) && buckets_of(rows, interval)[label] == rows[i],
        buckets_of(rows, interval).contains_key(label) ==> exists|i: int| #[trigger]
            is_last_of_check(rows, interval, label, i),
    decreases rows.len(),
{
    if rows.len() > 0 {
        let rest = rows.drop_last();
        let last = rows.len() - 1;
        row_holds_last_snapshot(rest, interval, label);
        if label_of(rows.last(), interval) == Some(label) {
            assert(is_last_of_check(rows, interval, label, last));
            assert forall|i: int| #[trigger]
                is_last_of_check(rows, interval, label, i) implies buckets_of(
                rows,
                interval,
            )[label] == rows[i] by {
                if i < last {
                    assert(label_of(rows[last], interval) == Some(label));
                }
            }
        } else {
            assert forall|i: int| #[trigger]
                is_last_of_check(rows, interval, label, i) implies is_last_of_check(
                rest,
                interval,
                label,
                i,
            ) by {
                assert forall|j: int| i < j < rest.len() implies label_of(
                    #[trigger] rest[j],
                    interval,
                ) != Some(label) by {
                    assert(rest[j] == rows[j]);
                }
            }
            if buckets_of(rest, interval).contains_key(label) {
                let i = choose|i: int| #[trigger] is_last_of_check(rest, interval, label, i);
                assert(rest[i] == rows[i]);
                assert forall|j: int| i < j < rows.len() implies label_of(
                    #[trigger] rows[j],
                    interval,
                ) != Some(label) by {
                    if j < last {
                        assert(rest[j] == rows[j]);
                    }
                }
                assert(is_last_of_check(rows, interval, label, i));
            }
            if exists|i: int|
                0 <= i < rows.len() && label_of(#[trigger] rows[i], interval) == Some(label) {
                let i = choose|i: int|
                    0 <= i < rows.len() && label_of(#[trigger] rows[i], interval) == Some(label);
                assert(rest[i] == rows[i]);
            }
        }
    }
}

/// The buckets of a table are determined: two newest-first lists of the same buckets are
/// equal.
pub proof fn buckets_are_unique<N>(
    map: Map<int, SnapshotRow<N>>,
    a: Seq<(u32, SnapshotRow<N>)>,
    b: Seq<(u32, SnapshotRow<N>)>,
)
    requires
        descending(a),
        descending(b),
        lists(a, map),
        lists(b, map),
    ensures
        a == b,
    decreases a.len(),
{
    if a.len() == 0 {
        if b.len() > 0 {
            assert(map.contains_key(b[0].0 as int));
        }
        assert(a =~= b);
    } else {
        assert(map.contains_key(a[0].0 as int));
        let ib = choose|i: int| 0 <= i < b.len() && (#[trigger] b[i]).0 == a[0].0 as int;
        assert(map.contains_key(b[0].0 as int));
        let ia = choose|i: int| 0 <= i < a.len() && (#[trigger] a[i]).0 == b[0].0 as int;
        if ib > 0 {
            assert(b[0].0 > b[ib].0);
            if ia > 0 {
                assert(a[0].0 > a[ia].0);
            }
        }
        assert(a[0].0 == b[0].0);
        assert(a[0] == b[0]);
        let top = a[0].0 as int;
        let ra = a.drop_first();
        let rb = b.drop_first();
        let rest = map.remove(top);
        lemma_rest_of_list(map, a);
        lemma_rest_of_list(map, b);
        buckets_are_unique(rest, ra, rb);
        assert(a =~= seq![a[0]] + ra);
        assert(b =~= seq![b[0]] + rb);
    }
}

proof fn lemma_rest_of_list<N>(map: Map<int, SnapshotRow<N>>, a: Seq<(u32, SnapshotRow<N>)>)
    requires
        a.len() > 0,
        descending(a),
        lists(a, map),
    ensures
        descending(a.drop_first()),
        lists(a.drop_first(), map.remove(a[0].0 as int)),
{
    let r = a.drop_first();
    let rest = map.remove(a[0].0 as int);
    assert(forall|i: int| 0 <= i < r.len() ==> #[trigger] r[i] == a[i + 1]);
    assert forall|i: int, j: int| 0 <= i < j < r.len() implies (#[trigger] r[i]).0 > (
    #[trigger] r[j]).0 by {
        assert(a[i + 1].0 > a[j + 1].0);
    }
    assert forall|i: int| 0 <= i < r.len() implies rest.contains_key((#[trigger] r[i]).0 as int)
        && rest[r[i].0 as int] == r[i].1 by {
        assert(a[0].0 > a[i + 1].0);
        assert(map.contains_key(a[i + 1].0 as int));
    }
    assert forall|l: int| #[trigger] rest.contains_key(l) implies exists|i: int|
        0 <= i < r.len() && (#[trigger] r[i]).0 == l by {
        assert(map.contains_key(l));
        let i = choose|i: int| 0 <= i < a.len() && (#[trigger] a[i]).0 == l;
        assert(r[i - 1].0 == l);
    }
}

/// A table row is never labelled before its snapshot, and snapshots of the trading day
/// are labelled between the opening and the closing check.
pub proof fn labels_follow_snapshots<N>(row: SnapshotRow<N>, interval: u32)
    requires
        interval > 0,
        minute_in(row.ts@) is Some,
    ensures
        label_of(row, interval)->0 >= minute_in(row.ts@)->0,
        minute_in(row.ts@)->0 <= CLOSE_CHECK_MINUTE ==> OPEN_CHECK_MINUTE <= label_of(
            row,
            interval,
        )->0 <= CLOSE_CHECK_MINUTE,
{
    let m = minute_in(row.ts@)->0;
    assert(m >= 0);
    check_at_or_after_snapshot(m, interval as int);
    if m <= CLOSE_CHECK_MINUTE {
        check_within_trading_day(m, interval as int);
    }
}

/// On any day but today, and once its label minute has passed, a row is closed.
pub proof fn past_rows_are_closed<N>(
    row: SnapshotRow<N>,
    label: int,
    now_minute: Option<int>,
    dto: TrendRowDto<N>,
)
    requires
        is_trend_row(row, label, now_minute, dto),
        now_minute is Some ==> now_minute->0 > label,
    ensures
        !dto.live,
{
}

/// A row whose snapshot was taken in the label minute itself is closed.
pub proof fn complete_rows_are_closed<N>(
    row: SnapshotRow<N>,
    label: int,
    now_minute: Option<int>,
    dto: TrendRowDto<N>,
)
    requires
        is_trend_row(row, label, now_minute, dto),
        minute_in(row.ts@) == Some(label),
    ensures
        !dto.live,
{
}

/// As long as no snapshot lies in the future, only the newest row can be open.
pub proof fn only_newest_row_is_live<N>(
    rows: Seq<SnapshotRow<N>>,
    interval: u32,
    now: int,
    out: Seq<TrendRowDto<N>>,
    i: int,
)
    requires
        interval > 0,
        is_trend_table(rows, interval, Some(now), out),
        forall|j: int|
            0 <= j < rows.len() && minute_in((#[trigger] rows[j]).ts@) is Some ==> minute_in(
                rows[j].ts@,
            )->0 <= now,
        0 <= i < out.len(),
        out[i].live,
    ensures
        i == 0,
{
    let buckets = choose|buckets: Seq<(u32, SnapshotRow<N>)>| #[trigger]
        is_table_of(buckets, rows, interval, Some(now), out);
    if i > 0 {
        let top = buckets[0].0 as int;
        let label = buckets[i].0 as int;
        let map = buckets_of(rows, interval);
        assert(top > label);
        assert(map.contains_key(top) && map.contains_key(label));
        row_holds_last_snapshot(rows, interval, top);
        row_holds_last_snapshot(rows, interval, label);
        let p = choose|p: int| #[trigger] is_last_of_check(rows, interval, top, p);
        let q = choose|q: int| #[trigger] is_last_of_check(rows, interval, label, q);
        let mp = minute_in(rows[p].ts@)->0;
        let mq = minute_in(rows[q].ts@)->0;
        assert(is_trend_row(buckets[i].1, label, Some(now), out[i]));
        assert(is_open(snap_minute(rows[q], label), label, Some(now)));
        assert(mp <= now <= label);
        assert(mp >= 0 && mq >= 0);
        checks_are_stable(mq, interval as int);
        check_at_or_after_snapshot(mq, interval as int);
        checks_keep_order(mp, label, interval as int);
        assert(check_of(mp, interval as int) == top);
    }
}

/// A day without snapshots has an empty table, whatever the interval and the time.
pub proof fn empty_day_has_empty_table<N>(
    interval: u32,
    now_minute: Option<int>,
    out: Seq<TrendRowDto<N>>,
)
    requires
        is_trend_table(Seq::empty(), interval, now_minute, out),
    ensures
        out.len() == 0,
{
    let buckets = choose|buckets: Seq<(u32, SnapshotRow<N>)>| #[trigger]
        is_table_of(buckets, Seq::empty(), interval, now_minute, out);
    if buckets.len() > 0 {
        assert(buckets_of(Seq::<SnapshotRow<N>>::empty(), interval).contains_key(
            buckets[0].0 as int,
        ));
    }
}

/// Whether `a` does not come after `b` in the order of their characters, as timestamps
/// are compared where they are stored.
pub open spec fn text_le(a: Seq<char>, b: Seq<char>) -> bool
    decreases a.len(),
{
    if a.len() == 0 {
        true
    } else if b.len() == 0 {
        false
    } else if a[0] != b[0] {
        a[0] < b[0]
    } else {
        text_le(a.drop_first(), b.drop_first())
    }
}

proof fn lemma_common_beginning(p: Seq<char>, a: Seq<char>, b: Seq<char>)
    ensures
        text_le(p + a, p + b) == text_le(a, b),
    decreases p.len(),
{
    if p.len() == 0 {
        assert(p + a =~= a);
        assert(p + b =~= b);
    } else {
        lemma_common_beginning(p.drop_first(), a, b);
        assert((p + a).drop_first() =~= p.drop_first() + a);
        assert((p + b).drop_first() =~= p.drop_first() + b);
    }
}

proof fn lemma_place_by_place(a: Seq<char>, b: Seq<char>)
    requires
        a.len() == b.len(),
        forall|i: int| 0 <= i < a.len() ==> #[trigger] a[i] <= b[i],
    ensures
        text_le(a, b),
    decreases a.len(),
{
    if a.len() > 0 && a[0] == b[0] {
        let ra = a.drop_first();
        let rb = b.drop_first();
        assert forall|i: int| 0 <= i < ra.len() implies #[trigger] ra[i] <= rb[i] by {
            assert(a[i + 1] <= b[i + 1]);
        }
        lemma_place_by_place(ra, rb);
    } else if a.len() > 0 {
        assert(a[0] <= b[0]);
    }
}

/// What the poller stamps a snapshot with lies within the bounds of its day, so the
/// table of that day includes it.
pub proof fn timestamps_lie_in_their_day(clock: Clock)
    requires
        clock.valid(),
    ensures
        text_le(day_start(day_text(clock.day)), clock.text()),
        text_le(clock.text(), day_end(day_text(clock.day))),
{
    let date = day_text(clock.day);
    let t = time_text(clock.hour as int, clock.minute as int, clock.second as int);
    let own = " "@ + t;
    reveal_strlit(" ");
    reveal_strlit(":");
    reveal_strlit(" 00:00:00");
    reveal_strlit(" 23:59:59");
    reveal_with_fuel(decimal, 2);
    assert(clock.text() =~= date + own);
    let h = clock.hour as nat;
    let m = clock.minute as nat;
    let s = clock.second as nat;
    assert(own =~= seq![
        ' ',
        digit(h / 10),
        digit(h % 10),
        ':',
        digit(m / 10),
        digit(m % 10),
        ':',
        digit(s / 10),
        digit(s % 10),
    ]);
    lemma_common_beginning(date, " 00:00:00"@, own);
    lemma_common_beginning(date, own, " 23:59:59"@);
    lemma_place_by_place(" 00:00:00"@, own);
    if h / 10 == 2 {
        lemma_place_by_place(own, " 23:59:59"@);
    } else {
        assert(own.drop_first()[0] < " 23:59:59"@.drop_first()[0]);
        reveal_with_fuel(text_le, 3);
    }
}

/// A snapshot belongs to the check of its minute at the very interval asked for, and to
/// none where its timestamp has no minute. Up to the closing check that check is 09:16,
/// 15:31 or one minute past a multiple of the interval, and a snapshot taken at such a
/// minute after 09:16 is labelled with it.
pub proof fn labels_keep_to_the_interval<N>(row: SnapshotRow<N>, interval: u32)
    requires
        interval > 0,
    ensures
        label_of(row, interval) is Some <==> minute_in(row.ts@) is Some,
        minute_in(row.ts@) is Some ==> {
            let m = minute_in(row.ts@)->0;
            let label = label_of(row, interval)->0;
            &&& label == check_of(m, interval as int)
            &&& m <= 15 * 60 + 31 ==> label == 9 * 60 + 16 || label == 15 * 60 + 31 || (label - 1)
                % (interval as int) == 0
            &&& 9 * 60 + 16 < m <= 15 * 60 + 31 && (m - 1) % (interval as int) == 0 ==> label == m
            &&& m == 9 * 60 + 16 || m == 15 * 60 + 31 ==> label == m
        },
{
    if minute_in(row.ts@) is Some {
        let m = minute_in(row.ts@)->0;
        assert(m >= 0);
        check_at_or_after_snapshot(m, interval as int);
        if m <= CLOSE_CHECK_MINUTE {
            check_within_trading_day(m, interval as int);
        }
        if 9 * 60 + 16 < m <= 15 * 60 + 31 && (m - 1) % (interval as int) == 0 {
            check_covers_its_interval(m, interval as int, m);
        }
    }
}

/// Every row of a table stands for the check of its own snapshot at the interval asked for.
/// It is open exactly where that snapshot was taken before the check and the minute now is
/// not past it, and shows the minute of the snapshot while it is open and of the check
/// once it is closed.
pub proof fn rows_stand_for_their_checks<N>(
    rows: Seq<SnapshotRow<N>>,
    interval: u32,
    now_minute: Option<int>,
    out: Seq<TrendRowDto<N>>,
    i: int,
)
    requires
        is_trend_table(rows, interval, now_minute, out),
        0 <= i < out.len(),
    ensures
        minute_in(out[i].ts@) is Some,
        ({
            let taken = minute_in(out[i].ts@)->0;
            let label = check_of(taken, interval as int);
            let open = taken < label && now_minute is Some && now_minute->0 <= label;
            let shown = if open {
                taken
            } else {
                label
            };
            &&& out[i].live <==> open
            &&& out[i].time@ == decimal_02((shown / 60) as nat) + seq![':'] + decimal_02(
                (shown % 60) as nat,
            )
        }),
{
    reveal_strlit(":");
    let buckets = choose|buckets: Seq<(u32, SnapshotRow<N>)>| #[trigger]
        is_table_of(buckets, rows, interval, now_minute, out);
    let label = buckets[i].0 as int;
    assert(is_trend_row(buckets[i].1, label, now_minute, out[i]));
    assert(buckets_of(rows, interval).contains_key(label));
    row_holds_last_snapshot(rows, interval, label);
    let p = choose|p: int| #[trigger] is_last_of_check(rows, interval, label, p);
    assert(buckets[i].1 == rows[p]);
    assert(":"@ =~= seq![':']);
}

/// Of any two rows of a table the first stands for the later check: the newest comes
/// first, and no check has two rows.
pub proof fn rows_come_newest_first<N>(
    rows: Seq<SnapshotRow<N>>,
    interval: u32,
    now_minute: Option<int>,
    out: Seq<TrendRowDto<N>>,
    i: int,
    j: int,
)
    requires
        is_trend_table(rows, interval, now_minute, out),
        0 <= i < j < out.len(),
    ensures
        check_of(minute_in(out[i].ts@)->0, interval as int) > check_of(
            minute_in(out[j].ts@)->0,
            interval as int,
        ),
{
    let buckets = choose|buckets: Seq<(u32, SnapshotRow<N>)>| #[trigger]
        is_table_of(buckets, rows, interval, now_minute, out);
    lemma_row_label(rows, interval, now_minute, out, buckets, i);
    lemma_row_label(rows, interval, now_minute, out, buckets, j);
    assert(buckets[i].0 > buckets[j].0);
}

proof fn lemma_row_label<N>(
    rows: Seq<SnapshotRow<N>>,
    interval: u32,
    now_minute: Option<int>,
    out: Seq<TrendRowDto<N>>,
    buckets: Seq<(u32, SnapshotRow<N>)>,
    i: int,
)
    requires
        is_table_of(buckets, rows, interval, now_minute, out),
        0 <= i < out.len(),
    ensures
        minute_in(out[i].ts@) is Some,
        check_of(minute_in(out[i].ts@)->0, interval as int) == buckets[i].0,
{
    let label = buckets[i].0 as int;
    assert(is_trend_row(buckets[i].1, label, now_minute, out[i]));
    assert(buckets_of(rows, interval).contains_key(label));
    row_holds_last_snapshot(rows, interval, label);
    let p = choose|p: int| #[trigger] is_last_of_check(rows, interval, label, p);
    assert(buckets[i].1 == rows[p]);
}

/// Every row of a table carries, unchanged, the last of the snapshots that belong to its
/// check.
pub proof fn rows_carry_the_last_snapshot<N>(
    rows: Seq<SnapshotRow<N>>,
    interval: u32,
    now_minute: Option<int>,
    out: Seq<TrendRowDto<N>>,
    i: int,
)
    requires
        is_trend_table(rows, interval, now_minute, out),
        0 <= i < out.len(),
    ensures
        exists|p: int|
            0 <= p < rows.len() && out[i].ts == (#[trigger] rows[p]).ts && out[i].expiry
                == rows[p].expiry && out[i].call_oi == rows[p].call_oi && out[i].put_oi
                == rows[p].put_oi && out[i].call_oi_chg == rows[p].call_oi_chg
                && out[i].put_oi_chg == rows[p].put_oi_chg && out[i].spot == rows[p].spot
                && out[i].fut_ltp == rows[p].fut_ltp && out[i].fut_vwap == rows[p].fut_vwap && (
            forall|q: int|
                p < q < rows.len() && minute_in((#[trigger] rows[q]).ts@) is Some ==> check_of(
                    minute_in(rows[q].ts@)->0,
                    interval as int,
                ) != check_of(minute_in(out[i].ts@)->0, interval as int)),
{
    let buckets = choose|buckets: Seq<(u32, SnapshotRow<N>)>| #[trigger]
        is_table_of(buckets, rows, interval, now_minute, out);
    lemma_row_label(rows, interval, now_minute, out, buckets, i);
    let label = buckets[i].0 as int;
    assert(is_trend_row(buckets[i].1, label, now_minute, out[i]));
    assert(buckets_of(rows, interval).contains_key(label));
    row_holds_last_snapshot(rows, interval, label);
    let p = choose|p: int| #[trigger] is_last_of_check(rows, interval, label, p);
    assert(buckets[i].1 == rows[p]);
    assert forall|q: int|
        p < q < rows.len() && minute_in((#[trigger] rows[q]).ts@) is Some implies check_of(
        minute_in(rows[q].ts@)->0,
        interval as int,
    ) != check_of(minute_in(out[i].ts@)->0, interval as int) by {
        assert(label_of(rows[q], interval) != Some(label));
    }
}

/// No snapshot is left out: whichever has a minute, its check has a row.
pub proof fn every_snapshot_has_a_row<N>(
    rows: Seq<SnapshotRow<N>>,
    interval: u32,
    now_minute: Option<int>,
    out: Seq<TrendRowDto<N>>,
    p: int,
)
    requires
        is_trend_table(rows, interval, now_minute, out),
        0 <= p < rows.len(),
        minute_in(rows[p].ts@) is Some,
    ensures
        exists|i: int|
            0 <= i < out.len() && check_of(
                minute_in((#[trigger] out[i]).ts@)->0,
                interval as int,
            ) == check_of(minute_in(rows[p].ts@)->0, interval as int),
{
    let buckets = choose|buckets: Seq<(u32, SnapshotRow<N>)>| #[trigger]
        is_table_of(buckets, rows, interval, now_minute, out);
    let label = check_of(minute_in(rows[p].ts@)->0, interval as int);
    assert(label_of(rows[p], interval) == Some(label));
    row_holds_last_snapshot(rows, interval, label);
    assert(buckets_of(rows, interval).contains_key(label));
    let i = choose|i: int| 0 <= i < buckets.len() && (#[trigger] buckets[i]).0 == label;
    lemma_row_label(rows, interval, now_minute, out, buckets, i);
    assert(check_of(minute_in(out[i].ts@)->0, interval as int) == label);
}

/// The row of a single bucket carries its snapshot unchanged. It is open exactly where the
/// snapshot was taken before the label and the minute now is not past it, and shows the
/// snapshot's minute while open, the label once closed.
pub proof fn single_rows_carry_their_snapshot<N>(
    row: SnapshotRow<N>,
    label: int,
    now_minute: Option<int>,
    dto: TrendRowDto<N>,
)
    requires
        is_trend_row(row, label, now_minute, dto),
        label >= 0,
    ensures
        dto.ts == row.ts,
        dto.expiry == row.expiry,
        dto.call_oi == row.call_oi,
        dto.put_oi == row.put_oi,
        dto.call_oi_chg == row.call_oi_chg,
        dto.put_oi_chg == row.put_oi_chg,
        dto.spot == row.spot,
        dto.fut_ltp == row.fut_ltp,
        dto.fut_vwap == row.fut_vwap,
        dto.live <==> minute_in(row.ts@) is Some && minute_in(row.ts@)->0 < label && now_minute
            is Some && now_minute->0 <= label,
        ({
            let shown = if dto.live {
                minute_in(row.ts@)->0
            } else {
                label
            };
            dto.time@ == decimal_02((shown / 60) as nat) + seq![':'] + decimal_02(
                (shown % 60) as nat,
            )
        }),
{
    reveal_strlit(":");
    assert(":"@ =~= seq![':']);
}

/// Buckets strictly descend by label, and hold exactly the entries of the map they list.
pub proof fn buckets_list_their_map<N>(
    buckets: Seq<(u32, SnapshotRow<N>)>,
    map: Map<int, SnapshotRow<N>>,
)
    ensures
        descending(buckets) <==> forall|i: int, j: int|
            0 <= i < j < buckets.len() ==> (#[trigger] buckets[i]).0 > (#[trigger] buckets[j]).0,
        lists(buckets, map) ==> forall|i: int|
            0 <= i < buckets.len() ==> map.contains_key((#[trigger] buckets[i]).0 as int)
                && map[buckets[i].0 as int] == buckets[i].1,
        lists(buckets, map) ==> forall|label: int| #[trigger]
            map.contains_key(label) ==> exists|i: int|
                0 <= i < buckets.len() && (#[trigger] buckets[i]).0 == label,
{
}

/// The minute of the day is taken as it is, where there is one.
pub proof fn minutes_are_taken_as_they_are(minute: Option<u32>)
    ensures
        minute is Some <==> minute_value(minute) is Some,
        minute is Some ==> minute_value(minute)->0 == minute->0,
{
}

/// A request is planned exactly where it names a known index, and an interval and a window
/// that are offered or none; then the plan has what was asked for, 15 minutes and 10
/// strikes where nothing was, and the date where it is one. Of several things that are
/// wrong the first is refused: index, interval, window.
pub proof fn plans_do_what_was_asked(
    q: TrendQuery,
    dated: bool,
    r: Result<TrendPlan, RequestError>,
)
    requires
        is_plan(q, dated, r),
    ensures
        ({
            let known = position_of(q.underlying@) is Some;
            let interval_ok = q.interval is None || q.interval->0 == 5 || q.interval->0 == 15
                || q.interval->0 == 30 || q.interval->0 == 60;
            let window_ok = q.window is None || q.window->0 == 5 || q.window->0 == 10 || q.window->0
                == 20 || q.window->0 == 0;
            &&& r is Ok <==> known && interval_ok && window_ok
            &&& !known ==> r->Err_0 is UnknownUnderlying
            &&& known && !interval_ok ==> r->Err_0 is UnknownInterval
            &&& known && interval_ok && !window_ok ==> r->Err_0 is UnknownWindow
        }),
        r is Ok ==> {
            let plan = r->Ok_0;
            &&& plan.index == position_of(q.underlying@)->0
            &&& q.interval is Some ==> plan.interval == q.interval->0
            &&& q.interval is None ==> plan.interval == 15
            &&& q.window is Some ==> plan.window == q.window->0
            &&& q.window is None ==> plan.window == 10
            &&& dated ==> plan.date == q.date
            &&& !dated ==> plan.date is None
            &&& plan.valid()
        },
{
}

/// A plan is valid for one of the three indices, four intervals and four windows.
pub proof fn valid_plans_are_for_what_is_offered(plan: TrendPlan)
    ensures
        plan.valid() <==> {
            &&& plan.index <= 2
            &&& plan.interval == 5 || plan.interval == 15 || plan.interval == 30 || plan.interval
                == 60
            &&& plan.window == 5 || plan.window == 10 || plan.window == 20 || plan.window == 0
        },
{
}

/// A query is dated exactly where it has a date and that reads as year, month and day.
pub proof fn dated_queries_have_a_date(q: TrendQuery)
    ensures
        is_dated(q) <==> q.date is Some && parsed_date(q.date->0@, "%Y-%m-%d"@) is Some,
{
}

/// A day is loaded for the index and the window of the plan, from its first second to its
/// last.
pub proof fn days_are_loaded_whole<N>(plan: TrendPlan, date: Seq<char>, step: TrendStep<N>)
    requires
        loads_day(plan, date, step),
    ensures
        step is LoadDay,
        step->LoadDay_underlying == index_at(plan.index as int).id,
        step->window == plan.window,
        step->date@ == date,
        step->from@ == date + " 00:00:00"@,
        step->to@ == date + " 23:59:59"@,
{
}

/// The most recent day is looked for up to the last second of today.
pub proof fn days_end_at_their_last_second(date: Seq<char>)
    ensures
        day_end(date) == date + " 23:59:59"@,
        day_start(date) == date + " 00:00:00"@,
{
}

/// Without any day with data the table is empty and dateless, for the index, interval and
/// window asked for.
pub proof fn empty_replies_are_for_the_plan<N>(plan: TrendPlan, dto: TrendDto<N>)
    requires
        is_empty_reply(plan, dto),
    ensures
        dto.underlying == index_at(plan.index as int).id,
        dto.date is None,
        dto.interval == plan.interval,
        dto.window == plan.window,
        dto.rows@.len() == 0,
{
}

/// There is a minute now exactly on the day that the clock shows, and it is the one that
/// the clock's reading holds.
pub proof fn now_is_on_the_day_shown(clock: Clock, date: Seq<char>)
    ensures
        date == formatted_date(clock.day, "%Y-%m-%d"@) ==> current_minute_of(clock, date)
            == minute_in(clock.text()),
        date != formatted_date(clock.day, "%Y-%m-%d"@) ==> current_minute_of(clock, date) is None,
{
}

/// A further snapshot takes over the check of its minute at the interval asked for, from
/// whichever held it, and touches no other check; one without a minute touches none.
pub proof fn further_snapshot_takes_its_check<N>(
    rows: Seq<SnapshotRow<N>>,
    row: SnapshotRow<N>,
    interval: u32,
)
    ensures
        buckets_of(Seq::<SnapshotRow<N>>::empty(), interval) == Map::<int, SnapshotRow<N>>::empty(),
        minute_in(row.ts@) is Some ==> buckets_of(rows.push(row), interval) == buckets_of(
            rows,
            interval,
        ).insert(check_of(minute_in(row.ts@)->0, interval as int), row),
        minute_in(row.ts@) is None ==> buckets_of(rows.push(row), interval) == buckets_of(
            rows,
            interval,
        ),
{
    assert(rows.push(row).drop_last() =~= rows);
}

/// The checks of any snapshots can be told at every interval up to a day.
pub proof fn checks_are_defined_up_to_a_day<N>(rows: Seq<SnapshotRow<N>>, interval: u32)
    requires
        0 < interval <= 1440,
    ensures
        checks_defined(rows, interval),
{
    assert forall|i: int|
        0 <= i < rows.len() && minute_in((#[trigger] rows[i]).ts@) is Some implies check_defined(
        minute_in(rows[i].ts@)->0,
        interval as int,
    ) by {
        round_up_is_least_multiple(minute_in(rows[i].ts@)->0 - 1, interval as int);
    }
}

} // verus!
