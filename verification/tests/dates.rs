use gelder::calendar::{civil_from_days, format_epoch_ms_date};
use gelder::numbers::{decimal_string, parse_i64};

fn date(s: &str) -> Option<String> {
    format_epoch_ms_date(s)
}

#[test]
fn epoch_start_is_new_year_1970() {
    assert_eq!(date("0"), Some("Jan 1, 1970".to_string()));
}

#[test]
fn milliseconds_within_a_day_keep_the_day() {
    assert_eq!(date("86399999"), Some("Jan 1, 1970".to_string()));
    assert_eq!(date("86400000"), Some("Jan 2, 1970".to_string()));
}

#[test]
fn recent_timestamp() {
    assert_eq!(date("1700000000000"), Some("Nov 14, 2023".to_string()));
}

#[test]
fn leap_day_2000() {
    assert_eq!(date("951782400000"), Some("Feb 29, 2000".to_string()));
    assert_eq!(date("951868800000"), Some("Mar 1, 2000".to_string()));
}

#[test]
fn negative_timestamps_fall_before_the_epoch() {
    assert_eq!(date("-1"), Some("Dec 31, 1969".to_string()));
    assert_eq!(date("-31536000000"), Some("Jan 1, 1969".to_string()));
}

#[test]
fn extreme_timestamps() {
    assert_eq!(date("9223372036854775807"), Some("Aug 17, 292278994".to_string()));
    assert_eq!(date("-9223372036854775808"), Some("May 16, -292275055".to_string()));
}

#[test]
fn a_leading_plus_is_accepted() {
    assert_eq!(date("+0"), Some("Jan 1, 1970".to_string()));
}

#[test]
fn text_that_is_not_an_integer_has_no_date() {
    assert_eq!(date(""), None);
    assert_eq!(date("-"), None);
    assert_eq!(date("+"), None);
    assert_eq!(date("abc"), None);
    assert_eq!(date(" 5"), None);
    assert_eq!(date("5 "), None);
    assert_eq!(date("1.5"), None);
    assert_eq!(date("+-1"), None);
    assert_eq!(date("9223372036854775808"), None);
    assert_eq!(date("-9223372036854775809"), None);
}

#[test]
fn parse_i64_matches_std() {
    for s in [
        "0", "-0", "+0", "007", "-42", "+42", "9223372036854775807", "-9223372036854775808",
        "9223372036854775808", "-9223372036854775809", "", "-", "+", "x1", "1x", "١",
        "00000000000000000000000000000000000001", "99999999999999999999999999",
    ] {
        assert_eq!(parse_i64(s), s.parse::<i64>().ok(), "input {:?}", s);
    }
}

#[test]
fn civil_dates_of_day_numbers() {
    assert_eq!(civil_from_days(0), (1970, 1, 1));
    assert_eq!(civil_from_days(-1), (1969, 12, 31));
    assert_eq!(civil_from_days(-719468), (0, 3, 1));
    assert_eq!(civil_from_days(-719469), (0, 2, 29));
    assert_eq!(civil_from_days(10957), (2000, 1, 1));
    assert_eq!(civil_from_days(11016), (2000, 2, 29));
    assert_eq!(civil_from_days(47482), (2100, 1, 1));
    assert_eq!(civil_from_days(47540), (2100, 2, 28));
    assert_eq!(civil_from_days(47541), (2100, 3, 1));
}

#[test]
fn consecutive_days_have_consecutive_dates() {
    let mut prev = civil_from_days(-800_000);
    for n in -799_999i64..800_000 {
        let cur = civil_from_days(n);
        let next_in_month = (prev.0, prev.1, prev.2 + 1);
        let next_month = (prev.0, prev.1 + 1, 1);
        let next_year = (prev.0 + 1, 1, 1);
        assert!(cur == next_in_month || (cur == next_month && cur.2 == 1) || (cur == next_year && prev.1 == 12));
        prev = cur;
    }
}

#[test]
fn decimal_text() {
    assert_eq!(decimal_string(0), "0");
    assert_eq!(decimal_string(1234567890), "1234567890");
    assert_eq!(decimal_string(u128::MAX), u128::MAX.to_string());
}
