use aegis_ai_runtime::text::{chars_of, decimal_string, join2, join3, starts_with, str_eq};

#[test]
fn substring_predicates() {
    assert!(starts_with("weather:today", "weather:"));
    assert!(!starts_with("weather", "weather:"));
    assert!(starts_with("x", ""));
    assert!(str_eq("execute", "execute"));
    assert!(!str_eq("execute", "execut"));
}

#[test]
fn decimal_notation() {
    assert_eq!(decimal_string(0), "0");
    assert_eq!(decimal_string(7), "7");
    assert_eq!(decimal_string(1725029869123), "1725029869123");
    assert_eq!(decimal_string(u128::MAX), u128::MAX.to_string());
}

#[test]
fn joining_and_chars() {
    assert_eq!(join2("a", "bc"), "abc");
    assert_eq!(join3("a", "b", "c"), "abc");
    assert_eq!(chars_of("hé"), vec!['h', 'é']);
}
