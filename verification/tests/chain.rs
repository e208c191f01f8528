use upstox_market::amount::Amount;
use upstox_market::chain::{
    aggregate, atm_index, to_strike_rows, StrikeRow, WindowAgg, STRIKE_WINDOWS,
};
use upstox_market::quotes::{MarketData, OptionChainStrike, OptionGreeks, OptionSide};

fn row(strike: i64, call_oi: i64, put_oi: i64) -> StrikeRow<i64> {
    StrikeRow {
        strike,
        call_oi,
        call_prev_oi: 0,
        call_ltp: 0,
        call_volume: 0,
        call_iv: 0,
        put_oi,
        put_prev_oi: put_oi,
        put_ltp: 0,
        put_volume: 0,
        put_iv: 0,
    }
}

fn strike(price: i64, key: &str, oi: i64, prev_oi: Option<i64>) -> OptionChainStrike<i64> {
    OptionChainStrike {
        expiry: "2026-09-24".to_string(),
        strike_price: price,
        underlying_spot_price: 250,
        call_options: Some(OptionSide {
            instrument_key: key.to_string(),
            market_data: Some(MarketData { ltp: 7, volume: 8, oi, prev_oi, close_price: 9 }),
            option_greeks: Some(OptionGreeks { iv: 11, delta: 12 }),
        }),
        put_options: None,
    }
}

#[test]
fn rows_are_sorted_and_equal_strikes_keep_their_order() {
    let chain = vec![
        strike(300, "c", 3, Some(1)),
        strike(100, "a", 1, None),
        strike(300, "d", 4, Some(2)),
        strike(200, "b", 2, Some(0)),
    ];
    let rows = to_strike_rows(&chain);
    let got: Vec<(i64, i64, i64)> =
        rows.iter().map(|r| (r.strike, r.call_oi, r.call_prev_oi)).collect();
    assert_eq!(got, vec![(100, 1, 1), (200, 2, 0), (300, 3, 1), (300, 4, 2)]);
    assert_eq!((rows[0].call_ltp, rows[0].call_volume, rows[0].call_iv), (7, 8, 11));
    // A missing side is all zero.
    assert_eq!((rows[0].put_oi, rows[0].put_prev_oi, rows[0].put_iv), (0, 0, 0));
    let none: [OptionChainStrike<i64>; 0] = [];
    assert!(to_strike_rows(&none).is_empty());
}

#[test]
fn sorting_does_not_depend_on_arrival() {
    let a = to_strike_rows(&[strike(2, "x", 20, None), strike(1, "y", 10, None)]);
    let b = to_strike_rows(&[strike(1, "y", 10, None), strike(2, "x", 20, None)]);
    let key = |r: &StrikeRow<i64>| (r.strike, r.call_oi);
    assert_eq!(a.iter().map(key).collect::<Vec<_>>(), b.iter().map(key).collect::<Vec<_>>());
}

#[test]
fn closest_strike_is_at_the_money() {
    let rows = [row(100, 0, 0), row(200, 0, 0), row(300, 0, 0)];
    assert_eq!(atm_index(&rows, 260), Some(2));
    assert_eq!(atm_index(&rows, 240), Some(1));
    // Of two equally close strikes the first.
    assert_eq!(atm_index(&rows, 150), Some(0));
    assert_eq!(atm_index(&rows, 9999), Some(2));
    assert_eq!(atm_index(&rows[..0], 9999), None);
}

#[test]
fn windows_sum_their_strikes() {
    let rows: Vec<StrikeRow<i64>> = (1..=9).map(|i| row(i * 100, i, 10 * i)).collect();
    let w = aggregate(&rows, 500, 2);
    assert_eq!((w.strike_window, w.min_strike, w.max_strike), (2, 300, 700));
    assert_eq!((w.call_oi, w.put_oi), (25, 250));
    assert_eq!((w.call_oi_chg, w.put_oi_chg), (25, 0));
    // At the edge the window is cut off.
    let e = aggregate(&rows, 100, 2);
    assert_eq!((e.min_strike, e.max_strike, e.call_oi), (100, 300, 6));
    // A negative window is the whole chain, as 0 is.
    assert_eq!(aggregate(&rows, 500, -3).call_oi, 45);
    assert_eq!(aggregate(&rows, 500, 0).call_oi, 45);
    assert_eq!(aggregate(&rows, 500, i64::MAX).call_oi, 45);
}

#[test]
fn wide_windows_agree_with_the_whole_chain() {
    let rows: Vec<StrikeRow<i64>> = (1..=4).map(|i| row(i * 50, i, i)).collect();
    let whole = aggregate(&rows, 120, 0);
    let wide = aggregate(&rows, 120, 4);
    assert_eq!(wide, WindowAgg { strike_window: 4, ..whole });
}

#[test]
fn empty_chains_aggregate_to_zero() {
    let none: [StrikeRow<i64>; 0] = [];
    assert_eq!(
        aggregate(&none, 5, 10),
        WindowAgg {
            strike_window: 10,
            call_oi: 0,
            put_oi: 0,
            call_oi_chg: 0,
            put_oi_chg: 0,
            min_strike: 0,
            max_strike: 0
        }
    );
    assert_eq!(STRIKE_WINDOWS, [5, 10, 20, 0]);
}

#[test]
fn whole_numbers_stop_at_the_ends() {
    assert_eq!(Amount::plus(i64::MAX, 1), i64::MAX);
    assert_eq!(Amount::plus(i64::MIN, -1), i64::MIN);
    assert_eq!(Amount::plus(2i64, 3), 5);
    assert_eq!(Amount::minus(i64::MIN, 1), i64::MIN);
    assert_eq!(Amount::minus(i64::MAX, -1), i64::MAX);
    assert_eq!(Amount::minus(2i64, 5), -3);
    assert_eq!(Amount::magnitude(i64::MIN), i64::MAX);
    assert_eq!(Amount::magnitude(-4i64), 4);
    assert_eq!(Amount::rank(-4i64), -4);
    assert!(Amount::is_positive(1i64));
    assert!(!Amount::is_positive(0i64));
    assert_eq!(<i64 as Amount>::zero(), 0);
}

#[test]
fn defaults_are_empty() {
    let m: MarketData<i64> = Default::default();
    assert_eq!((m.ltp, m.volume, m.oi, m.prev_oi, m.close_price), (0, 0, 0, None, 0));
    let g: OptionGreeks<i64> = Default::default();
    assert_eq!((g.iv, g.delta), (0, 0));
    let s: OptionSide<i64> = Default::default();
    assert_eq!(s.instrument_key, "");
    assert!(s.market_data.is_none() && s.option_greeks.is_none());
}

#[test]
fn wider_windows_hold_no_less() {
    let rows: Vec<StrikeRow<i64>> = (1..=9).map(|i| row(i * 100, i, 10 - i)).collect();
    for spot in [0, 340, 560, 2000] {
        let atm = rows[atm_index(&rows, spot).unwrap()].strike;
        for (narrow, wide) in [(1, 1), (1, 2), (2, 8), (3, 0), (8, -1)] {
            let a = aggregate(&rows, spot, narrow);
            let b = aggregate(&rows, spot, wide);
            assert!(b.min_strike <= a.min_strike && a.min_strike <= atm);
            assert!(atm <= a.max_strike && a.max_strike <= b.max_strike);
            assert!(a.call_oi <= b.call_oi && a.put_oi <= b.put_oi);
        }
        // One strike less than the chain has already reaches both ends.
        let near = aggregate(&rows, spot, 8);
        assert_eq!((near.call_oi, near.min_strike, near.max_strike), (45, 100, 900));
    }
}
