use upstox_market::indices::{
    index_position, index_spec, known_index, BSE_INSTRUMENTS_URL, INDEX_COUNT, NSE_INSTRUMENTS_URL,
};

#[test]
fn indices_are_known_in_any_case() {
    assert_eq!(known_index("NIFTY"), Some("NIFTY"));
    assert_eq!(known_index("banknifty"), Some("BANKNIFTY"));
    assert_eq!(known_index("Sensex"), Some("SENSEX"));
    assert_eq!(known_index("NIFTY "), None);
    assert_eq!(known_index(""), None);
    assert_eq!(known_index("n\u{131}fty"), None);
    assert_eq!(index_position("sEnSeX"), Some(2));
    for i in 0..INDEX_COUNT {
        assert_eq!(index_position(index_spec(i).id), Some(i));
    }
}

#[test]
fn indices_are_described() {
    let n = index_spec(0);
    assert_eq!(
        (n.id, n.underlying_key, n.future_symbol, n.instruments_url),
        ("NIFTY", "NSE_INDEX|Nifty 50", "NIFTY", NSE_INSTRUMENTS_URL)
    );
    let b = index_spec(1);
    assert_eq!(
        (b.id, b.underlying_key, b.future_symbol, b.instruments_url),
        ("BANKNIFTY", "NSE_INDEX|Nifty Bank", "BANKNIFTY", NSE_INSTRUMENTS_URL)
    );
    let s = index_spec(2);
    assert_eq!(
        (s.id, s.underlying_key, s.future_symbol, s.instruments_url),
        ("SENSEX", "BSE_INDEX|SENSEX", "SENSEX", BSE_INSTRUMENTS_URL)
    );
}
