use gelder::money::{amount_label, format_amount};
use gelder::text::{escape_xml, str_eq};

#[test]
fn escapes_the_five_special_characters() {
    assert_eq!(escape_xml("a<b>&\"'"), "a&lt;b&gt;&amp;&quot;&apos;");
}

#[test]
fn plain_text_is_unchanged() {
    assert_eq!(escape_xml("Hello, world! \u{2705}"), "Hello, world! \u{2705}");
    assert_eq!(escape_xml(""), "");
}

#[test]
fn an_entity_is_escaped_again() {
    assert_eq!(escape_xml("&amp;"), "&amp;amp;");
}

#[test]
fn escaped_text_has_no_markup() {
    let out = escape_xml("<script>alert('x' + \"y\")</script>");
    assert!(!out.contains('<') && !out.contains('>') && !out.contains('"') && !out.contains('\''));
}

#[test]
fn string_equality() {
    assert!(str_eq("abc", "abc"));
    assert!(!str_eq("abc", "abd"));
    assert!(!str_eq("abc", "ab"));
    assert!(str_eq("", ""));
}

#[test]
fn amount_in_dollars_and_cents() {
    assert_eq!(format_amount(12345, "usd"), "USD $123.45");
    assert_eq!(format_amount(5, "eur"), "EUR $0.05");
    assert_eq!(format_amount(100, "usd"), "USD $1.00");
    assert_eq!(format_amount(0, "usd"), "USD $0.00");
    assert_eq!(format_amount(1999, "Cad"), "CAD $19.99");
}

#[test]
fn amount_upper_cases_with_unicode_rules() {
    assert_eq!(format_amount(1, "stra\u{df}e"), "STRASSE $0.01");
}

#[test]
fn large_amount() {
    assert_eq!(format_amount(123_456_789_012, "usd"), "USD $1234567890.12");
}

#[test]
fn amount_label_takes_the_currency_as_given() {
    assert_eq!(amount_label(250, "usd"), "usd $2.50");
}
