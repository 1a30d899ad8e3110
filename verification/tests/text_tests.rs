use gunita::months::{month_key, month_label};
use gunita::filetype::extension;
use gunita::text::{chars_lt, decimal_string, parse_usize, str_eq};

fn parse(s: &str) -> Option<usize> {
    parse_usize(&s.chars().collect())
}

#[test]
fn parses_like_std() {
    for s in ["0", "42", "+7", "007", "", "+", "-", "-3", "4a", " 4", "18446744073709551615", "18446744073709551616", "99999999999999999999999"] {
        assert_eq!(parse(s), s.parse::<usize>().ok(), "input {s:?}");
    }
}

#[test]
fn writes_decimals() {
    assert_eq!(decimal_string(0), "0");
    assert_eq!(decimal_string(7777), "7777");
    assert_eq!(decimal_string(u64::MAX), u64::MAX.to_string());
}

#[test]
fn compares_text() {
    let v = |s: &str| s.chars().collect::<Vec<char>>();
    assert!(chars_lt(&v("2024-01-01"), &v("2024-01-02")));
    assert!(chars_lt(&v(""), &v("a")));
    assert!(!chars_lt(&v("b"), &v("b")));
    assert!(chars_lt(&v("ab"), &v("abc")));
    assert!(!chars_lt(&v("abc"), &v("ab")));
    assert!(chars_lt(&v("Z"), &v("a")));
    assert!(str_eq("x", "x"));
    assert!(!str_eq("x", "xy"));
    assert_eq!(extension("MiXeD.CR2"), "cr2");
}

#[test]
fn month_keys() {
    assert_eq!(month_key(Some("2024-03-15T10:00:00Z")), "2024-03");
    assert_eq!(month_key(Some("2024-03")), "2024-03");
    assert_eq!(month_key(Some("2024-3")), "unknown");
    assert_eq!(month_key(None), "unknown");
}

#[test]
fn month_labels() {
    assert_eq!(month_label("2024-03"), "March 2024");
    assert_eq!(month_label("1999-12"), "December 1999");
    assert_eq!(month_label("2024-13"), "Unknown 2024");
    assert_eq!(month_label("unknown"), "Unknown Date");
    assert_eq!(month_label("2024"), "2024");
    assert_eq!(month_label("2024-01-extra"), "January 2024");
    assert_eq!(month_label("-01"), "January ");
}
