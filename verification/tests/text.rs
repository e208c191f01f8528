use upstox_market::text::{
    ends_with, eq_ignore_ascii_case, join, push_decimal, push_decimal_02, same_text,
};
use upstox_market::text_map::{is_listed, TextMap};

fn list(items: &[&str]) -> Vec<String> {
    items.iter().map(|s| s.to_string()).collect()
}

#[test]
fn decimals_are_written() {
    let mut s = String::from("n=");
    push_decimal(&mut s, 0);
    s.push(' ');
    push_decimal(&mut s, 90210);
    s.push(' ');
    push_decimal(&mut s, u32::MAX);
    assert_eq!(s, "n=0 90210 4294967295");
    let mut t = String::new();
    push_decimal_02(&mut t, 7);
    push_decimal_02(&mut t, 42);
    push_decimal_02(&mut t, 100);
    assert_eq!(t, "0742100");
}

#[test]
fn texts_are_compared() {
    assert!(same_text("a\u{20b9}", "a\u{20b9}"));
    assert!(!same_text("a", "ab"));
    assert!(!same_text("ab", "aB"));
    assert!(ends_with("NSE_FO", "_FO"));
    assert!(ends_with("_FO", "_FO"));
    assert!(!ends_with("FO", "_FO"));
    assert!(!ends_with("NSE_FOX", "_FO"));
    assert!(eq_ignore_ascii_case("NiFtY", "nIfTy"));
    assert!(!eq_ignore_ascii_case("\u{e4}", "\u{c4}"));
}

#[test]
fn lists_are_joined() {
    assert_eq!(join(&list(&[]), ","), "");
    assert_eq!(join(&list(&["a"]), ","), "a");
    assert_eq!(join(&list(&["a", "", "c"]), ", "), "a, , c");
    assert!(is_listed("b", &list(&["a", "b"])));
    assert!(!is_listed("B", &list(&["a", "b"])));
}

#[test]
fn maps_hold_one_value_per_key() {
    let mut m: TextMap<i32> = TextMap::new();
    assert_eq!(m.len(), 0);
    m.insert("a".to_string(), 1);
    m.insert("b".to_string(), 2);
    m.insert("a".to_string(), 3);
    assert_eq!(m.len(), 2);
    assert_eq!(m.get("a"), Some(&3));
    assert_eq!(m.get("c"), None);
    assert_eq!(m.entry(1), (&"b".to_string(), &2));

    let mut more: TextMap<i32> = TextMap::new();
    more.insert("b".to_string(), 20);
    more.insert("c".to_string(), 30);
    m.remove_listed(&list(&["a", "x"]));
    assert!(!m.contains_key("a") && m.contains_key("b"));
    m.extend(more);
    assert_eq!((m.get("a"), m.get("b"), m.get("c")), (None, Some(&20), Some(&30)));
    assert_eq!(m.len(), 2);
}
