use upstox_market::futures::{pick_nearest_futures, FutFilter, FutureContract, InstrumentRow};

const DAY: i64 = 86_400_000;

/// A future expiring at 00:00 IST of day 719163 + `day`.
fn future(symbol: &str, key: &str, day: i64) -> InstrumentRow {
    InstrumentRow {
        segment: "NSE_FO".to_string(),
        instrument_type: "FUT".to_string(),
        underlying_symbol: symbol.to_string(),
        instrument_key: key.to_string(),
        trading_symbol: format!("{symbol} FUT"),
        expiry: day * DAY - 19_800_000,
    }
}

#[test]
fn only_wanted_futures_are_kept() {
    let mut f = FutFilter::new(vec!["NIFTY".to_string(), "SENSEX".to_string()]);
    f.offer(future("NIFTY", "1", 1));
    f.offer(future("OTHER", "2", 1));
    f.offer(InstrumentRow { instrument_type: "CE".to_string(), ..future("NIFTY", "3", 1) });
    f.offer(InstrumentRow { segment: "NSE_EQ".to_string(), ..future("NIFTY", "4", 1) });
    f.offer(InstrumentRow { segment: "BSE_FO".to_string(), ..future("SENSEX", "5", 1) });
    let keys: Vec<&str> = f.rows.iter().map(|r| r.instrument_key.as_str()).collect();
    assert_eq!(keys, vec!["1", "5"]);
    assert_eq!(f.wanted.len(), 2);
}

#[test]
fn nearest_contract_is_picked_for_each_underlying() {
    let rows = || {
        vec![
            future("A", "a-late", 40),
            future("A", "a-first", 10),
            future("A", "a-twin", 10),
            future("B", "b-gone", 3),
            InstrumentRow { expiry: i64::MAX, ..future("C", "c-never", 0) },
        ]
    };
    let today = |d: i32| 719163 + d;
    let p = pick_nearest_futures(rows(), today(5));
    assert_eq!(p.len(), 1);
    let a = p.get("A").unwrap();
    assert_eq!(
        (a.underlying_symbol.as_str(), a.instrument_key.as_str(), a.trading_symbol.as_str()),
        ("A", "a-first", "A FUT")
    );
    // The same contract through its expiry day, the later one from the day after.
    assert_eq!(pick_nearest_futures(rows(), today(10)).get("A").unwrap().instrument_key, "a-first");
    assert_eq!(pick_nearest_futures(rows(), today(11)).get("A").unwrap().instrument_key, "a-late");
    assert_eq!(pick_nearest_futures(rows(), today(41)).len(), 0);
    assert_eq!(pick_nearest_futures(rows(), today(3)).get("B").unwrap().instrument_key, "b-gone");
    assert_eq!(pick_nearest_futures(vec![], today(0)).len(), 0);
}

#[test]
fn row_order_plays_no_part() {
    let rows = vec![future("A", "a2", 20), future("B", "b1", 7), future("A", "a1", 10)];
    let mut turned = rows.clone();
    turned.reverse();
    for day in [719163, 719170, 719173, 719174] {
        let p = pick_nearest_futures(rows.clone(), day);
        let q = pick_nearest_futures(turned.clone(), day);
        assert_eq!(p.len(), q.len());
        for s in ["A", "B"] {
            let key = |m: Option<&FutureContract>| m.map(|f| f.instrument_key.clone());
            assert_eq!(key(p.get(s)), key(q.get(s)));
        }
    }
}

#[test]
fn picks_never_roll_back() {
    let rows = vec![future("A", "3", 30), future("A", "1", 10), future("A", "2", 20)];
    let keys: Vec<String> = (0..=30)
        .map(|d| pick_nearest_futures(rows.clone(), 719163 + d))
        .map(|p| p.get("A").unwrap().instrument_key.clone())
        .collect();
    let mut sorted = keys.clone();
    sorted.sort();
    assert_eq!(keys, sorted);
    assert_eq!((keys[0].as_str(), keys[11].as_str(), keys[30].as_str()), ("1", "2", "3"));
}

#[test]
fn files_yield_wanted_symbols_only() {
    let mut f = FutFilter::new(vec!["A".to_string(), "B".to_string(), "D".to_string()]);
    f.offer(future("A", "a", 10));
    f.offer(future("C", "c", 10));
    f.offer(InstrumentRow { instrument_type: "PE".to_string(), ..future("B", "b", 10) });
    f.offer(future("D", "d", 3));
    let p = pick_nearest_futures(f.rows, 719163 + 5);
    // "C" is not wanted, "B" has no future, and that of "D" has expired.
    assert_eq!(p.len(), 1);
    assert_eq!(p.get("A").unwrap().instrument_key, "a");
}
