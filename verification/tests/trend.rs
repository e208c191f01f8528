use upstox_market::calendar::{parse_day, Clock};
use upstox_market::live::RequestError;
use upstox_market::trend::{
    bucket_rows, current_minute, plan_query, plan_trend, trend_after_load, trend_after_lookup,
    trend_reply, trend_reply_at, trend_row, trend_rows, trend_start, SnapshotRow, TrendPlan,
    TrendQuery, TrendStep,
};

fn snap(time: &str, call_oi: i64) -> SnapshotRow<i64> {
    SnapshotRow {
        ts: format!("2026-09-24 {time}"),
        expiry: "2026-09-29".to_string(),
        call_oi,
        put_oi: 2,
        call_oi_chg: 3,
        put_oi_chg: 4,
        spot: 5,
        fut_ltp: Some(6),
        fut_vwap: None,
    }
}

fn query(underlying: &str) -> TrendQuery {
    TrendQuery { underlying: underlying.to_string(), interval: None, window: None, date: None }
}

fn plan(date: Option<&str>) -> TrendPlan {
    plan_trend(TrendQuery { date: date.map(|d| d.to_string()), ..query("NIFTY") }).unwrap()
}

fn clock(date: &str, hour: u32, minute: u32) -> Clock {
    Clock::new(parse_day(date).unwrap(), hour, minute, 4).unwrap()
}

#[test]
fn each_check_keeps_its_last_snapshot() {
    let rows = vec![
        snap("09:15:02", 1),
        snap("09:16:02", 2),
        snap("09:17:02", 3),
        snap("09:30:02", 4),
        snap("bad", 99),
        snap("09:31:02", 5),
        snap("09:32:02", 6),
    ];
    let buckets = bucket_rows(rows, 15);
    let got: Vec<(u32, i64)> = buckets.iter().map(|(l, r)| (*l, r.call_oi)).collect();
    assert_eq!(got, vec![(586, 6), (571, 5), (556, 2)]);
    // Out of order, the later in the list still wins.
    let got: Vec<i64> = bucket_rows(vec![snap("09:31:02", 1), snap("09:20:02", 2)], 15)
        .iter()
        .map(|(_, r)| r.call_oi)
        .collect();
    assert_eq!(got, vec![2]);
}

#[test]
fn table_is_newest_first_and_only_the_newest_is_live() {
    let rows = || vec![snap("09:16:02", 1), snap("09:31:02", 2), snap("09:35:02", 3)];
    let at = |now: Option<u32>| {
        trend_rows(rows(), 15, now)
            .into_iter()
            .map(|r| (r.time, r.live, r.call_oi))
            .collect::<Vec<(String, bool, i64)>>()
    };
    let row = |time: &str, live: bool, oi: i64| (time.to_string(), live, oi);
    // At 09:35 the 09:46 check is still open and shows the snapshot's own time.
    assert_eq!(
        at(Some(575)),
        vec![row("09:35", true, 3), row("09:31", false, 2), row("09:16", false, 1)]
    );
    // In the label minute itself it is open until the snapshot lands.
    assert_eq!(at(Some(586))[0], row("09:35", true, 3));
    // Once the minute has passed it is closed either way.
    assert_eq!(at(Some(587))[0], row("09:46", false, 3));
    // On another day nothing is open.
    assert_eq!(at(None)[0], row("09:46", false, 3));
}

#[test]
fn table_rows_carry_their_snapshot() {
    let r = trend_row(931, snap("15:02:02", 1), None);
    assert_eq!((r.time.as_str(), r.live), ("15:31", false));
    assert_eq!((r.ts.as_str(), r.expiry.as_str()), ("2026-09-24 15:02:02", "2026-09-29"));
    assert_eq!((r.call_oi, r.put_oi, r.call_oi_chg, r.put_oi_chg, r.spot), (1, 2, 3, 4, 5));
    assert_eq!((r.fut_ltp, r.fut_vwap), (Some(6), None));
    assert!(!trend_row(931, snap("15:31:02", 1), Some(931)).live);
}

#[test]
fn queries_are_checked_in_turn() {
    assert_eq!(plan_trend(query("DAX")).unwrap_err(), RequestError::UnknownUnderlying);
    let bad = TrendQuery { interval: Some(7), window: Some(3), ..query("NIFTY") };
    assert_eq!(plan_trend(bad).unwrap_err(), RequestError::UnknownInterval);
    let bad = TrendQuery { window: Some(3), ..query("NIFTY") };
    assert_eq!(plan_trend(bad).unwrap_err(), RequestError::UnknownWindow);
    let p = plan_trend(query("banknifty")).unwrap();
    assert_eq!((p.index, p.interval, p.window), (1, 15, 10));
    assert!(p.date.is_none());
    for (interval, window) in [(5, 5), (15, 10), (30, 20), (60, 0)] {
        let q = TrendQuery { interval: Some(interval), window: Some(window), ..query("SENSEX") };
        let p = plan_trend(q).unwrap();
        assert_eq!((p.index, p.interval, p.window), (2, interval, window));
    }
}

#[test]
fn unreadable_dates_count_as_none() {
    assert_eq!(plan(Some("2026-09-24")).date.as_deref(), Some("2026-09-24"));
    assert_eq!(plan(Some("yesterday")).date, None);
    let q = TrendQuery { date: Some("x".to_string()), ..query("NIFTY") };
    assert_eq!(plan_query(q.clone(), true).unwrap().date.as_deref(), Some("x"));
    assert_eq!(plan_query(q, false).unwrap().date, None);
}

#[test]
fn requests_go_step_by_step() {
    let today = parse_day("2026-09-26").unwrap();
    match trend_start::<i64>(&plan(Some("2026-09-24")), today) {
        TrendStep::LoadDay { underlying, window, date, from, to } => {
            assert_eq!((underlying, window, date.as_str()), ("NIFTY", 10, "2026-09-24"));
            assert_eq!(from, "2026-09-24 00:00:00");
            assert_eq!(to, "2026-09-24 23:59:59");
        }
        _ => panic!("expected to load the day"),
    }
    match trend_start::<i64>(&plan(None), today) {
        TrendStep::FindLatestDay { underlying, upto } => {
            assert_eq!((underlying, upto.as_str()), ("NIFTY", "2026-09-26 23:59:59"));
        }
        _ => panic!("expected to look for a day"),
    }
    match trend_after_lookup::<i64>(&plan(None), Some("2026-09-25".to_string())) {
        TrendStep::LoadDay { date, .. } => assert_eq!(date, "2026-09-25"),
        _ => panic!("expected to load the day"),
    }
    match trend_after_lookup::<i64>(&plan(None), None) {
        TrendStep::Reply(dto) => {
            assert_eq!((dto.underlying, dto.interval, dto.window), ("NIFTY", 15, 10));
            assert!(dto.date.is_none() && dto.rows.is_empty());
        }
        _ => panic!("expected an empty table"),
    }
}

#[test]
fn timestamps_lie_within_the_loaded_day() {
    for (h, m) in [(0, 0), (9, 16), (19, 59), (23, 59)] {
        let ts = clock("2026-09-24", h, m).timestamp();
        assert!("2026-09-24 00:00:00" <= ts.as_str() && ts.as_str() <= "2026-09-24 23:59:59");
    }
}

#[test]
fn replies_are_live_only_today() {
    let c = clock("2026-09-24", 9, 35);
    assert_eq!(current_minute(&c, "2026-09-24"), Some(575));
    assert_eq!(current_minute(&c, "2026-09-23"), None);
    let rows = || vec![snap("09:31:02", 2), snap("09:35:02", 3)];
    let day = "2026-09-24".to_string();
    let dto = trend_reply(&plan(None), day.clone(), rows(), &c);
    assert_eq!(dto.date.as_deref(), Some("2026-09-24"));
    assert_eq!((dto.underlying, dto.interval, dto.window), ("NIFTY", 15, 10));
    assert_eq!((dto.rows[0].time.as_str(), dto.rows[0].live), ("09:35", true));
    let later = trend_reply(&plan(None), day.clone(), rows(), &clock("2026-09-25", 9, 35));
    assert_eq!((later.rows[0].time.as_str(), later.rows[0].live), ("09:46", false));
    let fixed = trend_reply_at(&plan(None), day, rows(), Some(586));
    assert!(fixed.rows[0].live && !fixed.rows[1].live);
}

#[test]
fn failed_reads_are_told_from_empty_days() {
    let c = clock("2026-09-24", 9, 35);
    let after = |loaded: Option<Vec<SnapshotRow<i64>>>| {
        trend_after_load(&plan(Some("2026-09-24")), "2026-09-24".to_string(), loaded, &c)
    };
    assert_eq!(after(None).unwrap_err(), "query failed");
    let empty = after(Some(vec![])).unwrap();
    assert_eq!(empty.date.as_deref(), Some("2026-09-24"));
    assert!(empty.rows.is_empty());
    let dto = after(Some(vec![snap("09:31:02", 2), snap("09:35:02", 3)])).unwrap();
    assert_eq!((dto.underlying, dto.interval, dto.window), ("NIFTY", 15, 10));
    let got: Vec<(&str, bool)> = dto.rows.iter().map(|r| (r.time.as_str(), r.live)).collect();
    assert_eq!(got, vec![("09:35", true), ("09:31", false)]);
}
