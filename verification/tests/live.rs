use upstox_market::chain::StrikeRow;
use upstox_market::live::{
    market_live, market_option_chain, ChainQuery, IndexLive, MarketDataState, RequestError,
};

fn row(strike: i64, call_oi: i64) -> StrikeRow<i64> {
    StrikeRow {
        strike,
        call_oi,
        call_prev_oi: 0,
        call_ltp: 0,
        call_volume: 0,
        call_iv: 0,
        put_oi: 0,
        put_prev_oi: 0,
        put_ltp: 0,
        put_volume: 0,
        put_iv: 0,
    }
}

fn live() -> IndexLive<i64> {
    IndexLive {
        expiry: Some("2026-09-24".to_string()),
        spot: Some(210),
        atm_strike: Some(200),
        future_symbol: Some("NIFTY FUT".to_string()),
        fut_ltp: Some(211),
        fut_vwap: None,
        updated_at: Some("2026-09-24 10:00:02".to_string()),
        last_error: None,
        chain: (1..=30).map(|i| row(i * 100, i)).collect(),
    }
}

#[test]
fn page_shows_every_index() {
    let mut state: MarketDataState<i64> = MarketDataState::new(true);
    state.record_success(1, live());
    let page = market_live(&state);
    assert!(page.configured);
    let ids: Vec<&str> = page.indices.iter().map(|d| d.underlying).collect();
    assert_eq!(ids, vec!["NIFTY", "BANKNIFTY", "SENSEX"]);
    assert!(page.indices[0].windows.is_empty() && page.indices[0].live.spot.is_none());
    let bank = &page.indices[1];
    assert_eq!(bank.live.expiry.as_deref(), Some("2026-09-24"));
    assert_eq!(bank.live.chain.len(), 30);
    // ATM is the second strike: 5, 10 and 20 strikes up, 1 down, then everything.
    let got: Vec<(i64, i64, i64)> =
        bank.windows.iter().map(|w| (w.strike_window, w.max_strike, w.call_oi)).collect();
    assert_eq!(got, vec![(5, 700, 28), (10, 1200, 78), (20, 2200, 253), (0, 3000, 465)]);
    assert!(!market_live(&MarketDataState::<i64>::new(false)).configured);
}

#[test]
fn windows_need_a_spot_and_a_chain() {
    let mut state: MarketDataState<i64> = MarketDataState::new(true);
    state.record_success(0, IndexLive { chain: vec![], ..live() });
    state.record_success(1, IndexLive { spot: None, ..live() });
    let page = market_live(&state);
    assert!(page.indices[0].windows.is_empty());
    assert!(page.indices[1].windows.is_empty());
}

#[test]
fn failures_keep_the_last_chain() {
    let mut state: MarketDataState<i64> = MarketDataState::new(true);
    // The first failure is news, even before any success.
    assert!(state.record_failure(0, "a".to_string()));
    assert_eq!(state.live(0).last_error.as_deref(), Some("a"));
    assert!(state.live(0).expiry.is_none());
    // The same error again is not; another one is.
    assert!(!state.record_failure(0, "a".to_string()));
    assert!(state.record_failure(0, "b".to_string()));
    state.record_success(0, live());
    assert_eq!(state.live(0).last_error, None);
    assert!(state.record_failure(0, "b".to_string()));
    let kept = state.live(0);
    assert_eq!(kept.last_error.as_deref(), Some("b"));
    assert_eq!(kept.spot, Some(210));
    assert_eq!(kept.chain.len(), 30);
    assert_eq!(kept.updated_at.as_deref(), Some("2026-09-24 10:00:02"));
    assert!(state.live(1).last_error.is_none());
}

#[test]
fn chains_are_found_by_index() {
    let mut state: MarketDataState<i64> = MarketDataState::new(true);
    state.record_success(2, live());
    let ask = |id: &str| {
        market_option_chain(&state, &ChainQuery { underlying: id.to_string() })
    };
    let dto = ask("sensex").unwrap();
    assert_eq!(dto.underlying, "SENSEX");
    assert_eq!((dto.spot, dto.atm_strike, dto.strikes.len()), (Some(210), Some(200), 30));
    assert_eq!(dto.expiry.as_deref(), Some("2026-09-24"));
    assert_eq!(dto.updated_at.as_deref(), Some("2026-09-24 10:00:02"));
    let empty = ask("NIFTY").unwrap();
    assert!(empty.expiry.is_none() && empty.strikes.is_empty());
    assert_eq!(ask("DAX").unwrap_err(), RequestError::UnknownUnderlying);
}

#[test]
fn refusals_are_explained() {
    assert_eq!(RequestError::UnknownUnderlying.message(), "unknown underlying");
    assert_eq!(
        RequestError::UnknownInterval.message(),
        "interval must be one of 5, 15, 30, 60"
    );
    assert_eq!(RequestError::UnknownWindow.message(), "window must be one of 5, 10, 20, 0");
}
