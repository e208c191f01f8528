use upstox_market::calendar::parse_day;
use upstox_market::client::{
    check_download, check_response, decode_failure, key_quotes, nearest_day, nearest_expiry,
    option_chain_url, option_contracts_url, quotes_url, request_of, request_url, UpstoxError,
};
use upstox_market::quotes::Quote;

fn texts(list: &[&str]) -> Vec<String> {
    list.iter().map(|s| s.to_string()).collect()
}

fn quote(token: &str, last_price: i64) -> Quote<i64> {
    Quote {
        instrument_token: token.to_string(),
        last_price,
        average_price: 0,
        volume: 0,
        oi: 0,
    }
}

#[test]
fn requests_carry_their_parameters() {
    assert_eq!(
        option_contracts_url("NSE_INDEX|Nifty 50").unwrap(),
        "https://api.upstox.com/v2/option/contract?instrument_key=NSE_INDEX%7CNifty+50"
    );
    assert_eq!(
        option_chain_url("BSE_INDEX|SENSEX", parse_day("2026-09-24").unwrap()).unwrap(),
        "https://api.upstox.com/v2/option/chain?instrument_key=BSE_INDEX%7CSENSEX&expiry_date=2026-09-24"
    );
    assert_eq!(
        quotes_url(&texts(&["NSE_FO|1", "BSE_FO|2"])).unwrap().unwrap(),
        "https://api.upstox.com/v2/market-quote/quotes?instrument_key=NSE_FO%7C1%2CBSE_FO%7C2"
    );
    assert!(quotes_url(&texts(&[])).is_none());
}

#[test]
fn unbuildable_urls_are_decode_errors() {
    let params = vec![("a b".to_string(), "c&d".to_string())];
    assert_eq!(request_url("/x", &params).unwrap(), "https://api.upstox.com/v2/x?a+b=c%26d");
    match request_of(Err("bad".to_string())) {
        Err(UpstoxError::Decode(m)) => assert_eq!(m, "bad"),
        _ => panic!("expected a decode error"),
    }
    assert_eq!(request_of(Ok("https://a/".to_string())).unwrap(), "https://a/");
}

#[test]
fn errors_say_what_happened() {
    assert_eq!(UpstoxError::Http("refused".to_string()).message(), "http error: refused");
    assert_eq!(
        UpstoxError::Api { status: 500, body: "oops".to_string() }.message(),
        "upstox api returned HTTP 500: oops"
    );
    assert_eq!(UpstoxError::Decode("eof".to_string()).message(), "decode error: eof");
    assert_eq!(
        decode_failure("/option/chain", "eof at 1").message(),
        "decode error: /option/chain: eof at 1"
    );
}

#[test]
fn only_401_and_403_are_unauthorized() {
    let api = |status: u16| UpstoxError::Api { status, body: String::new() };
    assert!(api(401).is_unauthorized());
    assert!(api(403).is_unauthorized());
    assert!(!api(400).is_unauthorized());
    assert!(!api(404).is_unauthorized());
    assert!(!UpstoxError::Decode("401".to_string()).is_unauthorized());
    assert!(!UpstoxError::Http("403".to_string()).is_unauthorized());
}

#[test]
fn error_bodies_are_cut() {
    assert!(check_response(200, "x").is_ok());
    assert!(check_response(299, "x").is_ok());
    assert!(check_response(199, "x").is_err());
    let long: String = "\u{20b9}".repeat(301);
    match check_response(300, &long) {
        Err(UpstoxError::Api { status, body }) => {
            assert_eq!(status, 300);
            assert_eq!(body, "\u{20b9}".repeat(300));
        }
        _ => panic!("expected an API error"),
    }
    match check_response(404, "not found") {
        Err(UpstoxError::Api { status, body }) => {
            assert_eq!((status, body.as_str()), (404, "not found"));
        }
        _ => panic!("expected an API error"),
    }
    assert!(check_download(204).is_ok());
    match check_download(503) {
        Err(UpstoxError::Api { status, body }) => assert_eq!((status, body.as_str()), (503, "")),
        _ => panic!("expected an API error"),
    }
}

#[test]
fn nearest_expiry_is_the_first_from_today_on() {
    let expiries = texts(&["2026-10-01", "2026-09-17", "soon", "2026-09-24", "2026-09-24"]);
    let day = |s: &str| parse_day(s).unwrap();
    let key = "NSE_INDEX|Nifty 50";
    assert_eq!(nearest_expiry(&expiries, day("2026-09-18"), key).unwrap(), day("2026-09-24"));
    // Expiry day itself counts.
    assert_eq!(nearest_expiry(&expiries, day("2026-09-24"), key).unwrap(), day("2026-09-24"));
    assert_eq!(nearest_expiry(&expiries, day("2026-09-25"), key).unwrap(), day("2026-10-01"));
    assert_eq!(
        nearest_expiry(&expiries, day("2026-10-02"), key).unwrap_err().message(),
        "decode error: no live option expiry for NSE_INDEX|Nifty 50"
    );
    assert_eq!(nearest_day(&vec![None, Some(7), Some(5)], 5, "k").unwrap(), 5);
    assert!(nearest_day(&vec![None, Some(4)], 5, "k").is_err());
}

#[test]
fn quotes_are_keyed_by_their_own_token() {
    let book = key_quotes(vec![quote("NSE_FO|1", 10), quote("NSE_FO|2", 20), quote("NSE_FO|1", 30)]);
    assert_eq!(book.len(), 2);
    assert_eq!(book.get("NSE_FO|2").unwrap().last_price, 20);
    assert_eq!(book.get("NSE_FO|1").unwrap().last_price, 30);
    assert!(book.get("NSE_FO:NIFTY").is_none());
}
