use aytest1::text::{chars_of, decimal_string, push_decimal};

#[test]
fn chars_are_listed_in_order() {
    assert_eq!(chars_of(""), Vec::<char>::new());
    assert_eq!(chars_of("a/\u{e9}\u{1f600}"), vec!['a', '/', '\u{e9}', '\u{1f600}']);
}

#[test]
fn decimal_numerals() {
    assert_eq!(decimal_string(0), "0");
    assert_eq!(decimal_string(7), "7");
    assert_eq!(decimal_string(10), "10");
    assert_eq!(decimal_string(1234567890), "1234567890");
    assert_eq!(decimal_string(u64::MAX), "18446744073709551615");
}

#[test]
fn decimal_is_appended() {
    let mut s = "n=".to_string();
    push_decimal(&mut s, 405);
    assert_eq!(s, "n=405");
}
