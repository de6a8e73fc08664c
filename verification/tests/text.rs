use meroshare_tui::form::form_outcome;
use meroshare_tui::text::{fmt_money, parse_i64, trim_owned};

#[test]
fn money_groups_thousands() {
    assert_eq!(fmt_money("1234567.89"), "1,234,567.89");
    assert_eq!(fmt_money("1000.00"), "1,000.00");
    assert_eq!(fmt_money("999.99"), "999.99");
}

#[test]
fn money_keeps_sign() {
    assert_eq!(fmt_money("-1234.50"), "-1,234.50");
    assert_eq!(fmt_money("-0.00"), "-0.00");
    assert_eq!(fmt_money("--12.30"), "-12.30");
}

#[test]
fn money_small_and_empty_parts() {
    assert_eq!(fmt_money("0.00"), "0.00");
    assert_eq!(fmt_money("12.5"), "12.5");
    assert_eq!(fmt_money(".5"), ".5");
    assert_eq!(fmt_money("123456."), "123,456.");
}

#[test]
fn money_first_dot_splits() {
    assert_eq!(fmt_money("1234.5.6"), "1,234.5.6");
}

#[test]
fn money_grouping_dropping_commas_gives_digits() {
    let s = fmt_money("9876543210.12");
    assert_eq!(s, "9,876,543,210.12");
    assert_eq!(s.replace(',', ""), "9876543210.12");
}

#[test]
fn parse_through_form_outcome() {
    let v = |id: &str| {
        ["n", id, "u", "p", "d", "c"].iter().map(|s| s.to_string()).collect::<Vec<String>>()
    };
    assert_eq!(form_outcome(&v("007")).unwrap().client_id, 7);
    assert_eq!(form_outcome(&v("-0")).unwrap().client_id, 0);
    assert_eq!(form_outcome(&v("9223372036854775807")).unwrap().client_id, i64::MAX);
    assert!(form_outcome(&v("+")).is_err());
    assert!(form_outcome(&v("1_000")).is_err());
    assert!(form_outcome(&v("+-5")).is_err());
    assert!(form_outcome(&v("12345678901234567890123")).is_err());
    assert!(form_outcome(&v("-9223372036854775809")).is_err());
}

#[test]
fn parse_direct() {
    assert_eq!(parse_i64("-9223372036854775808"), Some(i64::MIN));
    assert_eq!(parse_i64(""), None);
    assert_eq!(parse_i64(" 1"), None);
    assert_eq!(parse_i64("+12"), Some(12));
}

#[test]
fn trim_cases() {
    assert_eq!(trim_owned(""), "");
    assert_eq!(trim_owned(" \t\n "), "");
    assert_eq!(trim_owned("\u{85}a b\u{2028}"), "a b");
    assert_eq!(trim_owned("\u{200b}x"), "\u{200b}x");
    for s in ["  x  ", "\u{3000}y\u{205f}", "\u{1680}\u{2000}\u{200a}z\u{202f}\u{2029}\r\x0b\x0c"] {
        assert_eq!(trim_owned(s), s.trim());
    }
}
