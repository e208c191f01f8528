//! Documented responses, carried through the library in double precision.
use chrono::{FixedOffset, NaiveDate};
use serde_json::Value;
use upstox_market::amount::Amount;
use upstox_market::calendar::{parse_day, IST_OFFSET_SECS};
use upstox_market::chain::{aggregate, atm_index, to_strike_rows, StrikeRow, WindowAgg};
use upstox_market::futures::{pick_nearest_futures, FutFilter, InstrumentRow};
use upstox_market::quotes::{
    num, opt_num, MarketData, NumericField, OptionChainStrike, OptionGreeks, OptionSide,
};

#[derive(Clone, Copy, Debug, PartialEq)]
struct Real(f64);

impl Amount for Real {
    fn spec_zero() -> Self {
        unreachable!()
    }
    fn spec_plus(self, _: Self) -> Self {
        unreachable!()
    }
    fn spec_minus(self, _: Self) -> Self {
        unreachable!()
    }
    fn spec_magnitude(self) -> Self {
        unreachable!()
    }
    fn spec_rank(self) -> i64 {
        unreachable!()
    }
    fn spec_is_positive(self) -> bool {
        unreachable!()
    }
    fn zero() -> Self {
        Real(0.0)
    }
    fn plus(self, other: Self) -> Self {
        Real(self.0 + other.0)
    }
    fn minus(self, other: Self) -> Self {
        Real(self.0 - other.0)
    }
    fn magnitude(self) -> Self {
        Real(self.0.abs())
    }
    fn rank(self) -> i64 {
        let bits = self.0.to_bits() as i64;
        bits ^ (((bits >> 63) as u64) >> 1) as i64
    }
    fn is_positive(self) -> bool {
        self.0 > 0.0
    }
}

fn field(v: Option<&Value>) -> NumericField<Real> {
    match v {
        Some(Value::Number(n)) => NumericField::Number(n.as_f64().map(Real)),
        Some(Value::String(s)) => NumericField::Text(s.trim().parse().ok().map(Real)),
        _ => NumericField::Other,
    }
}

fn text(v: Option<&Value>) -> String {
    v.and_then(|t| t.as_str()).unwrap_or("").to_string()
}

fn side(v: &Value) -> OptionSide<Real> {
    OptionSide {
        instrument_key: text(v.get("instrument_key")),
        market_data: v.get("market_data").filter(|m| !m.is_null()).map(|m| MarketData {
            ltp: num(field(m.get("ltp"))),
            volume: num(field(m.get("volume"))),
            oi: num(field(m.get("oi"))),
            prev_oi: opt_num(field(m.get("prev_oi"))),
            close_price: num(field(m.get("close_price"))),
        }),
        option_greeks: v.get("option_greeks").filter(|g| !g.is_null()).map(|g| OptionGreeks {
            iv: num(field(g.get("iv"))),
            delta: num(field(g.get("delta"))),
        }),
    }
}

fn chain(v: &Value) -> Vec<OptionChainStrike<Real>> {
    v.as_array()
        .unwrap()
        .iter()
        .map(|s| OptionChainStrike {
            expiry: text(s.get("expiry")),
            strike_price: num(field(s.get("strike_price"))),
            underlying_spot_price: num(field(s.get("underlying_spot_price"))),
            call_options: s.get("call_options").map(side),
            put_options: s.get("put_options").map(side),
        })
        .collect()
}

#[test]
fn parses_documented_option_chain_sample() {
    let body = r#"{"status":"success","data":[{"expiry":"2025-02-13","pcr":7515.3,"strike_price":21100,
        "underlying_key":"NSE_INDEX|Nifty 50","underlying_spot_price":22976.2,
        "call_options":{"instrument_key":"NSE_FO|51059","market_data":{"ltp":2449.9,"volume":0,"oi":750,
          "close_price":2449.9,"bid_price":1856.65,"bid_qty":1125,"ask_price":1941.65,"ask_qty":1125,"prev_oi":1500},
          "option_greeks":{"vega":4.1731,"theta":-472.8941,"gamma":0.0001,"delta":0.743,"iv":262.31,"pop":40.56}},
        "put_options":{"instrument_key":"NSE_FO|51060","market_data":{"ltp":0.3,"volume":22315725,"oi":5636475,
          "close_price":0.35,"bid_price":0.3,"bid_qty":1979400,"ask_price":0.35,"ask_qty":2152500,"prev_oi":null},
          "option_greeks":null}}]}"#;
    let env: Value = serde_json::from_str(body).unwrap();
    let data = chain(env.get("data").unwrap());
    let s = &data[0];
    assert_eq!(s.strike_price, Real(21100.0));
    let call = s.call_options.as_ref().unwrap().market_data.as_ref().unwrap();
    assert_eq!(call.oi, Real(750.0));
    assert_eq!(call.prev_oi, Some(Real(1500.0)));
    let put = s.put_options.as_ref().unwrap().market_data.as_ref().unwrap();
    assert_eq!(put.prev_oi, None);
    // The rows carry the volatility, and zero where there are no greeks.
    let rows = to_strike_rows(&data);
    assert_eq!(rows[0].call_iv, Real(262.31));
    assert_eq!(rows[0].put_iv, Real(0.0));
}

#[test]
fn null_prev_oi_counts_as_no_change() {
    let body = r#"[{"expiry":"2025-02-13","strike_price":21100,"underlying_spot_price":22976.2,
        "call_options":{"instrument_key":"NSE_FO|1","market_data":{"oi":750,"prev_oi":1500}},
        "put_options":{"instrument_key":"NSE_FO|2","market_data":{"oi":5636475,"prev_oi":null}}}]"#;
    let v: Value = serde_json::from_str(body).unwrap();
    let rows = to_strike_rows(&chain(&v));
    let agg = aggregate(&rows, Real(22976.2), 0);
    assert_eq!(agg.call_oi_chg, Real(-750.0));
    assert_eq!(agg.put_oi_chg, Real(0.0));
    assert_eq!(agg.put_oi, Real(5636475.0));
}

fn row(strike: f64, call_oi: f64, call_prev: f64, put_oi: f64, put_prev: f64) -> StrikeRow<Real> {
    StrikeRow {
        strike: Real(strike),
        call_oi: Real(call_oi),
        call_prev_oi: Real(call_prev),
        call_ltp: Real(0.0),
        call_volume: Real(0.0),
        call_iv: Real(0.0),
        put_oi: Real(put_oi),
        put_prev_oi: Real(put_prev),
        put_ltp: Real(0.0),
        put_volume: Real(0.0),
        put_iv: Real(0.0),
    }
}

#[test]
fn aggregates_atm_window_and_whole_chain() {
    let rows = vec![
        row(100.0, 1.0, 0.0, 10.0, 5.0),
        row(200.0, 2.0, 1.0, 20.0, 5.0),
        row(300.0, 3.0, 1.0, 30.0, 5.0),
        row(400.0, 4.0, 1.0, 40.0, 5.0),
        row(500.0, 5.0, 1.0, 50.0, 5.0),
    ];
    // spot 310: ATM 300; one strike on each side: 200 to 400
    let w1 = aggregate(&rows, Real(310.0), 1);
    assert_eq!((w1.call_oi, w1.put_oi), (Real(9.0), Real(90.0)));
    assert_eq!((w1.call_oi_chg, w1.put_oi_chg), (Real(6.0), Real(75.0)));
    assert_eq!((w1.min_strike, w1.max_strike), (Real(200.0), Real(400.0)));
    // window larger than chain clamps
    let w9 = aggregate(&rows, Real(110.0), 9);
    assert_eq!((w9.min_strike, w9.max_strike), (Real(100.0), Real(500.0)));
    let all = aggregate(&rows, Real(310.0), 0);
    assert_eq!(all.call_oi, Real(15.0));
    let none: [StrikeRow<Real>; 0] = [];
    assert_eq!(
        aggregate(&none, Real(100.0), 5),
        WindowAgg { strike_window: 5, ..Default::default() }
    );
}

#[test]
fn numbers_texts_and_nulls() {
    let v: Value =
        serde_json::from_str(r#"{"a":1.5,"b":" 2.25 ","c":null,"d":"x","e":[1]}"#).unwrap();
    assert_eq!(num(field(v.get("a"))), Real(1.5));
    assert_eq!(num(field(v.get("b"))), Real(2.25));
    assert_eq!(num(field(v.get("c"))), Real(0.0));
    assert_eq!(num(field(v.get("d"))), Real(0.0));
    assert_eq!(num(field(v.get("e"))), Real(0.0));
    assert_eq!(num(field(v.get("missing"))), Real(0.0));
    assert_eq!(opt_num(field(v.get("a"))), Some(Real(1.5)));
    assert_eq!(opt_num(field(v.get("b"))), Some(Real(2.25)));
    assert_eq!(opt_num(field(v.get("c"))), None);
    assert_eq!(opt_num(field(v.get("d"))), None);
}

#[test]
fn rank_orders_doubles_totally() {
    let rows =
        [row(f64::NAN, 0.0, 0.0, 0.0, 0.0), row(-1.5, 0.0, 0.0, 0.0, 0.0), row(2.0, 0.0, 0.0, 0.0, 0.0)];
    assert!(rows[1].strike.rank() < rows[2].strike.rank());
    assert!(rows[2].strike.rank() < rows[0].strike.rank());
    // A strike that is no number is never the closest.
    assert_eq!(atm_index(&rows, Real(100.0)), Some(2));
}

/// Epoch millis of 00:00 IST on `y-m-d`, the form Upstox uses for expiry.
fn ist_midnight_ms(y: i32, m: u32, d: u32) -> i64 {
    NaiveDate::from_ymd_opt(y, m, d)
        .unwrap()
        .and_hms_opt(0, 0, 0)
        .unwrap()
        .and_local_timezone(FixedOffset::east_opt(IST_OFFSET_SECS).unwrap())
        .unwrap()
        .timestamp_millis()
}

#[test]
fn filters_instruments_stream_to_nearest_future() {
    let sep = ist_midnight_ms(2026, 9, 24);
    let oct = ist_midnight_ms(2026, 10, 29);
    let nov = ist_midnight_ms(2026, 11, 26);
    let aug = ist_midnight_ms(2026, 8, 27);
    let json = format!(
        r#"[
        {{"segment":"NSE_INDEX","instrument_type":"INDEX","instrument_key":"NSE_INDEX|Nifty 50"}},
        {{"segment":"NSE_FO","instrument_type":"FUT","underlying_symbol":"NIFTY","instrument_key":"NSE_FO|3","trading_symbol":"NIFTY FUT NOV","expiry":{nov}}},
        {{"segment":"NSE_FO","instrument_type":"FUT","underlying_symbol":"NIFTY","instrument_key":"NSE_FO|2","trading_symbol":"NIFTY FUT OCT","expiry":{oct}}},
        {{"segment":"NSE_FO","instrument_type":"FUT","underlying_symbol":"NIFTY","instrument_key":"NSE_FO|1","trading_symbol":"NIFTY FUT SEP","expiry":{sep}}},
        {{"segment":"NSE_FO","instrument_type":"FUT","underlying_symbol":"NIFTY","instrument_key":"NSE_FO|0","trading_symbol":"NIFTY FUT AUG","expiry":{aug}}},
        {{"segment":"NSE_FO","instrument_type":"CE","underlying_symbol":"NIFTY","instrument_key":"NSE_FO|9","expiry":{sep}}},
        {{"segment":"NSE_FO","instrument_type":"FUT","underlying_symbol":"RELIANCE","instrument_key":"NSE_FO|7","expiry":{sep}}}
    ]"#
    );
    let wanted = vec!["NIFTY".to_string()];
    let rows = |json: &str| {
        let v: Value = serde_json::from_str(json).unwrap();
        let mut filter = FutFilter::new(wanted.clone());
        for r in v.as_array().unwrap() {
            filter.offer(InstrumentRow {
                segment: text(r.get("segment")),
                instrument_type: text(r.get("instrument_type")),
                underlying_symbol: text(r.get("underlying_symbol")),
                instrument_key: text(r.get("instrument_key")),
                trading_symbol: text(r.get("trading_symbol")),
                expiry: num(field(r.get("expiry"))).0 as i64,
            });
        }
        filter.rows
    };
    assert_eq!(rows(&json).len(), 4);
    let date = |d: u32| parse_day(&format!("2026-09-{d:02}")).unwrap();

    // Before expiry day: the September contract.
    let picked = pick_nearest_futures(rows(&json), date(16));
    assert_eq!(picked.get("NIFTY").unwrap().instrument_key, "NSE_FO|1");
    assert!(!picked.contains_key("RELIANCE"));
    // On expiry day itself September still trades, so it is still picked.
    assert_eq!(
        pick_nearest_futures(rows(&json), date(24)).get("NIFTY").unwrap().instrument_key,
        "NSE_FO|1"
    );
    // The day after, it rolls to October.
    assert_eq!(
        pick_nearest_futures(rows(&json), date(25)).get("NIFTY").unwrap().instrument_key,
        "NSE_FO|2"
    );
}

#[test]
fn wider_windows_hold_no_less_in_double_precision() {
    // Summands of very different sizes, so that the sums are rounded.
    let rows: Vec<StrikeRow<Real>> = (0..12)
        .map(|i| {
            let oi = [0.1, 1e16, 3.3, 0.0, 7e-300, 2.5e15][i % 6];
            row(100.5 * (i as f64 + 1.0), oi, 0.0, oi * 1.7, 0.0)
        })
        .collect();
    for spot in [0.0, 333.3, 700.25, 5000.0] {
        let atm = rows[atm_index(&rows, Real(spot)).unwrap()].strike.0;
        for (narrow, wide) in [(1, 2), (2, 5), (5, 11), (1, 0), (11, 0)] {
            let a = aggregate(&rows, Real(spot), narrow);
            let b = aggregate(&rows, Real(spot), wide);
            assert!(b.min_strike.0 <= a.min_strike.0 && a.min_strike.0 <= atm);
            assert!(atm <= a.max_strike.0 && a.max_strike.0 <= b.max_strike.0);
            assert!(a.call_oi.0 <= b.call_oi.0 && a.put_oi.0 <= b.put_oi.0);
        }
    }
}

#[test]
fn numbers_from_zero_up_add_up_in_double_precision() {
    let list = [0.0, f64::MIN_POSITIVE, 5e-324, 0.1, 1.0, 3.3, 1e16, f64::MAX, f64::INFINITY];
    let nums: Vec<Real> = list.iter().map(|x| Real(*x)).collect();
    for x in &nums {
        assert!(Real::zero().rank() <= x.rank());
        for c in &nums {
            assert!(x.rank() <= x.plus(*c).rank());
            for y in nums.iter().filter(|y| x.rank() <= y.rank()) {
                assert!(x.plus(*c).rank() <= y.plus(*c).rank());
            }
        }
    }
}
