use upstox_market::calendar::{parse_day, Clock};
use upstox_market::client::{key_quotes, UpstoxError};
use upstox_market::futures::FutureContract;
use upstox_market::indices::{BSE_INSTRUMENTS_URL, NSE_INSTRUMENTS_URL};
use upstox_market::live::{market_live, MarketDataState};
use upstox_market::poller::{failure_message, read_chain, Action, Poller};
use upstox_market::quotes::{MarketData, OptionChainStrike, OptionSide, Quote};
use upstox_market::text_map::TextMap;

const MINUTE: u64 = 60_000_000_000;

fn clock(hour: u32, minute: u32) -> Clock {
    Clock::new(parse_day("2026-09-24").unwrap(), hour, minute, 2).unwrap()
}

fn expiry() -> i32 {
    parse_day("2026-09-29").unwrap()
}

fn futures(list: &[(&str, &str)]) -> TextMap<FutureContract> {
    let mut m = TextMap::new();
    for (symbol, key) in list {
        m.insert(
            symbol.to_string(),
            FutureContract {
                underlying_symbol: symbol.to_string(),
                instrument_key: key.to_string(),
                trading_symbol: format!("{symbol} SEP FUT"),
            },
        );
    }
    m
}

fn strike(price: i64, spot: i64, oi: i64) -> OptionChainStrike<i64> {
    OptionChainStrike {
        expiry: "2026-09-29".to_string(),
        strike_price: price,
        underlying_spot_price: spot,
        call_options: Some(OptionSide {
            market_data: Some(MarketData { oi, prev_oi: Some(1), ..Default::default() }),
            ..Default::default()
        }),
        put_options: None,
    }
}

fn quote(token: &str, last_price: i64, average_price: i64) -> Quote<i64> {
    Quote { instrument_token: token.to_string(), last_price, average_price, volume: 0, oi: 0 }
}

fn down() -> UpstoxError {
    UpstoxError::Http("down".to_string())
}

/// A poller whose files are resolved, asked to quote its futures at 10:00.
fn quoting() -> Poller<i64> {
    let mut p: Poller<i64> = Poller::new();
    assert!(matches!(p.wake(&clock(10, 0), 0), Action::FetchFutures { .. }));
    let nse = futures(&[("NIFTY", "NSE_FO|1"), ("BANKNIFTY", "NSE_FO|2")]);
    assert!(matches!(p.futures_arrived(Ok(nse), 1), Action::FetchFutures { .. }));
    let bse = futures(&[("SENSEX", "BSE_FO|3")]);
    assert!(matches!(p.futures_arrived(Ok(bse), 2), Action::ReadClock));
    match p.hours_checked(&clock(10, 0)) {
        Action::FetchQuotes { mut keys } => {
            keys.sort();
            assert_eq!(keys, vec!["BSE_FO|3", "NSE_FO|1", "NSE_FO|2"]);
        }
        _ => panic!("expected quotes"),
    }
    p
}

#[test]
fn sleeps_outside_market_hours() {
    let mut p: Poller<i64> = Poller::new();
    assert!(matches!(p.wake(&clock(8, 59), 0), Action::Sleep));
    assert!(matches!(p.wake(&clock(15, 32), 0), Action::Sleep));
    let saturday = Clock::new(parse_day("2026-09-26").unwrap(), 10, 0, 2).unwrap();
    assert!(matches!(p.wake(&saturday, 0), Action::Sleep));
    assert!(matches!(p.wake(&clock(9, 0), 0), Action::FetchFutures { .. }));
}

#[test]
fn files_are_fetched_before_the_open_and_chains_after() {
    let mut p: Poller<i64> = Poller::new();
    match p.wake(&clock(9, 0), 0) {
        Action::FetchFutures { url, wanted, today } => {
            assert_eq!(url, NSE_INSTRUMENTS_URL);
            assert_eq!(wanted, vec!["NIFTY", "BANKNIFTY"]);
            assert_eq!(today, parse_day("2026-09-24").unwrap());
        }
        _ => panic!("expected the first file"),
    }
    match p.futures_arrived(Ok(futures(&[("NIFTY", "NSE_FO|1")])), 5) {
        Action::FetchFutures { url, wanted, .. } => {
            assert_eq!(url, BSE_INSTRUMENTS_URL);
            assert_eq!(wanted, vec!["SENSEX"]);
        }
        _ => panic!("expected the second file"),
    }
    assert!(matches!(p.futures_arrived(Err(down()), 6), Action::ReadClock));
    assert!(matches!(p.hours_checked(&clock(9, 14)), Action::Sleep));
}

#[test]
fn failed_files_are_retried_on_their_own() {
    let mut p: Poller<i64> = Poller::new();
    p.wake(&clock(9, 0), 0);
    p.futures_arrived(Ok(futures(&[("NIFTY", "NSE_FO|1")])), 0);
    assert!(matches!(p.futures_arrived(Err(down()), 0), Action::ReadClock));
    p.hours_checked(&clock(9, 0));
    // Nine minutes on the failed file still waits, and the other is resolved.
    assert!(matches!(p.wake(&clock(9, 9), 9 * MINUTE), Action::ReadClock));
    p.hours_checked(&clock(9, 9));
    match p.wake(&clock(9, 10), 10 * MINUTE) {
        Action::FetchFutures { url, .. } => assert_eq!(url, BSE_INSTRUMENTS_URL),
        _ => panic!("expected the failed file"),
    }
    // Its symbols come in beside those of the other file.
    p.futures_arrived(Ok(futures(&[("SENSEX", "BSE_FO|3")])), 10 * MINUTE);
    assert!(p.futures.contains_key("NIFTY") && p.futures.contains_key("SENSEX"));
    p.hours_checked(&clock(9, 10));
    // The next day both are due again, and a symbol that is not found is dropped.
    let next = Clock::new(parse_day("2026-09-25").unwrap(), 9, 0, 2).unwrap();
    match p.wake(&next, 1440 * MINUTE) {
        Action::FetchFutures { url, .. } => assert_eq!(url, NSE_INSTRUMENTS_URL),
        _ => panic!("expected the first file"),
    }
    p.futures_arrived(Ok(futures(&[("BANKNIFTY", "NSE_FO|2")])), 1440 * MINUTE);
    assert!(!p.futures.contains_key("NIFTY"));
    assert!(p.futures.contains_key("BANKNIFTY") && p.futures.contains_key("SENSEX"));
}

#[test]
fn a_round_publishes_every_index() {
    let mut p = quoting();
    let quotes = key_quotes(vec![quote("NSE_FO|1", 25000, 24990), quote("NSE_FO|2", 0, 7)]);
    match p.quotes_arrived(Ok(quotes)) {
        Action::FetchExpiry { index, today } => {
            assert_eq!((index, today), (0, parse_day("2026-09-24").unwrap()));
        }
        _ => panic!("expected the first expiry"),
    }
    match p.expiry_arrived(Ok(expiry())) {
        Action::FetchChain { index, expiry: e } => assert_eq!((index, e), (0, expiry())),
        _ => panic!("expected the first chain"),
    }
    let chain = vec![strike(300, 0, 30), strike(100, 190, 10), strike(200, 555, 20)];
    match p.chain_arrived(Ok(chain)) {
        Action::Publish { index, snapshots, live } => {
            assert_eq!(index, 0);
            let windows: Vec<i64> = snapshots.iter().map(|s| s.strike_window).collect();
            assert_eq!(windows, vec![5, 10, 20, 0]);
            for s in &snapshots {
                assert_eq!(s.ts, "2026-09-24 10:00:02");
                assert_eq!((s.underlying, s.expiry.as_str()), ("NIFTY", "2026-09-29"));
                assert_eq!((s.call_oi, s.call_oi_chg, s.put_oi, s.put_oi_chg), (60, 57, 0, 0));
                assert_eq!((s.spot, s.fut_ltp, s.fut_vwap), (190, Some(25000), Some(24990)));
            }
            assert_eq!(live.expiry.as_deref(), Some("2026-09-29"));
            assert_eq!((live.spot, live.atm_strike), (Some(190), Some(200)));
            assert_eq!(live.future_symbol.as_deref(), Some("NIFTY SEP FUT"));
            assert_eq!((live.fut_ltp, live.fut_vwap), (Some(25000), Some(24990)));
            assert_eq!(live.updated_at.as_deref(), Some("2026-09-24 10:00:02"));
            assert_eq!(live.last_error, None);
            let strikes: Vec<i64> = live.chain.iter().map(|r| r.strike).collect();
            assert_eq!(strikes, vec![100, 200, 300]);
        }
        _ => panic!("expected a publication"),
    }
    assert!(matches!(p.recorded(), Action::FetchExpiry { index: 1, .. }));
    p.expiry_arrived(Ok(expiry()));
    match p.chain_arrived(Ok(vec![strike(1, 1, 1)])) {
        Action::Publish { live, .. } => {
            // A price of zero is no price.
            assert_eq!((live.fut_ltp, live.fut_vwap), (None, Some(7)));
        }
        _ => panic!("expected a publication"),
    }
    p.recorded();
    p.expiry_arrived(Ok(expiry()));
    match p.chain_arrived(Ok(vec![strike(1, 1, 1)])) {
        Action::Publish { index, live, .. } => {
            assert_eq!(index, 2);
            assert_eq!((live.fut_ltp, live.fut_vwap), (None, None));
            assert_eq!(live.future_symbol.as_deref(), Some("SENSEX SEP FUT"));
        }
        _ => panic!("expected a publication"),
    }
    assert!(matches!(p.recorded(), Action::Sleep));
    // The next minute no file is due, and the expiries of the day are known.
    assert!(matches!(p.wake(&clock(10, 1), MINUTE), Action::ReadClock));
    assert!(matches!(p.hours_checked(&clock(10, 1)), Action::FetchQuotes { .. }));
    assert!(matches!(p.quotes_arrived(Err(down())), Action::FetchChain { index: 0, .. }));
}

#[test]
fn failures_are_recorded_index_by_index() {
    let mut p = quoting();
    p.quotes_arrived(Err(down()));
    match p.expiry_arrived(Err(down())) {
        Action::Fail { index, message } => {
            assert_eq!((index, message.as_str()), (0, "http error: down"));
        }
        _ => panic!("expected a failure"),
    }
    p.recorded();
    p.expiry_arrived(Ok(expiry()));
    match p.chain_arrived(Err(UpstoxError::Api { status: 401, body: "no".to_string() })) {
        Action::Fail { index, message } => {
            assert_eq!(index, 1);
            assert_eq!(
                message,
                "Upstox rejected the analytics token (HTTP 401/403) \u{2014} regenerate it"
            );
        }
        _ => panic!("expected a failure"),
    }
    p.recorded();
    p.expiry_arrived(Ok(expiry()));
    match p.chain_arrived(Ok(vec![])) {
        Action::Fail { message, .. } => assert_eq!(
            message,
            "decode error: empty option chain for SENSEX expiry 2026-09-29"
        ),
        _ => panic!("expected a failure"),
    }
    assert!(matches!(p.recorded(), Action::Sleep));
    // The failed expiry is asked for again in the next minute, the others are not.
    p.wake(&clock(10, 1), MINUTE);
    p.hours_checked(&clock(10, 1));
    assert!(matches!(p.quotes_arrived(Err(down())), Action::FetchExpiry { index: 0, .. }));
    p.expiry_arrived(Err(down()));
    assert!(matches!(p.recorded(), Action::FetchChain { index: 1, .. }));
}

#[test]
fn chains_need_a_spot_price() {
    let (rows, spot) = read_chain(0, expiry(), &vec![strike(2, 0, 0), strike(1, 7, 0)]).unwrap();
    assert_eq!((rows.len(), rows[0].strike, spot), (2, 1, 7));
    let err = read_chain(1, expiry(), &vec![strike(2, 0, 0), strike(1, -7, 0)]).unwrap_err();
    assert_eq!(
        err.message(),
        "decode error: empty option chain for BANKNIFTY expiry 2026-09-29"
    );
    assert_eq!(failure_message(&down()), "http error: down");
}

#[test]
fn page_shows_what_was_stored() {
    let mut p = quoting();
    p.quotes_arrived(Err(down()));
    p.expiry_arrived(Ok(expiry()));
    let chain = (1..=30).map(|i| strike(i * 100, 1510, i * i)).collect();
    match p.chain_arrived(Ok(chain)) {
        Action::Publish { index, snapshots, live } => {
            let mut state: MarketDataState<i64> = MarketDataState::new(true);
            state.record_success(index, live);
            let page = market_live(&state);
            let windows = &page.indices[0].windows;
            assert_eq!(windows.len(), snapshots.len());
            for (w, s) in windows.iter().zip(&snapshots) {
                assert_eq!(w.strike_window, s.strike_window);
                assert_eq!((w.call_oi, w.call_oi_chg), (s.call_oi, s.call_oi_chg));
                assert_eq!((w.put_oi, w.put_oi_chg), (s.put_oi, s.put_oi_chg));
                // Without quotes there are no futures prices.
                assert_eq!((s.fut_ltp, s.fut_vwap), (None, None));
            }
            // Strikes 1000 to 2000: the squares of 10 to 20.
            assert_eq!(snapshots[0].call_oi, 2585);
        }
        _ => panic!("expected a publication"),
    }
}
