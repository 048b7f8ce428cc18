//! Money amounts as they are shown on an invoice: "USD $123.45".

use vstd::prelude::*;
use crate::numbers::{decimal, digit, digit_char, push_decimal};
use crate::text::push_char;

verus! {

/// What std's `str::to_uppercase` gives for a string (its Unicode uppercase
/// mapping, which may change the length, e.g. 'ß' becomes "SS").
pub uninterp spec fn uppercase_of(s: Seq<char>) -> Seq<char>;

/// Text made only of ASCII characters.
pub open spec fn is_ascii_text(s: Seq<char>) -> bool {
    forall|i: int| 0 <= i < s.len() ==> ((#[trigger] s[i]) as u32) < 128
}

/// ASCII text with its lower-case letters raised to upper case.
pub open spec fn ascii_upper(s: Seq<char>) -> Seq<char> {
    Seq::new(s.len(), |i: int| if 'a' <= s[i] && s[i] <= 'z' { ((s[i] as u32) - 32) as char } else { s[i] })
}

/// std's `str::to_uppercase`: the contract names its result `uppercase_of`
/// of the argument, and states it for ASCII text, where each lower-case
/// letter becomes its upper-case letter and every other character stays.
/// Beyond ASCII, which characters map to what is left to std's Unicode
/// tables and not stated here.
#[verifier::external_body]
fn to_uppercase(s: &str) -> (r: String)
    ensures
        r@ == uppercase_of(s@),
        is_ascii_text(s@) ==> r@ == ascii_upper(s@),
{
    s.to_uppercase()
}

/// Two decimal digits of `n` (0..=99), with a leading zero below ten.
pub open spec fn two_digits(n: nat) -> Seq<char> {
    seq![digit_char((n / 10) as int), digit_char((n % 10) as int)]
}

/// "<CURRENCY> $<dollars>.<cents>" for an amount in cents.
pub open spec fn amount_text(cents: nat, currency_upper: Seq<char>) -> Seq<char> {
    currency_upper + seq![' ', '$'] + decimal(cents / 100) + seq!['.'] + two_digits(cents % 100)
}

/// The label of an amount in cents, given the currency code already in upper case.
pub fn amount_label(amount_cents: u64, currency_upper: &str) -> (r: String)
    ensures
        r@ == amount_text(amount_cents as nat, currency_upper@),
{
    let mut out = String::from_str(currency_upper);
    push_char(&mut out, ' ');
    push_char(&mut out, '$');
    push_decimal(&mut out, (amount_cents / 100) as u128);
    push_char(&mut out, '.');
    let rest = amount_cents % 100;
    push_char(&mut out, digit((rest / 10) as u8));
    push_char(&mut out, digit((rest % 10) as u8));
    assert(out@ =~= amount_text(amount_cents as nat, currency_upper@));
    out
}

/// Formats an amount in cents with its currency code in upper case, two
/// decimals: `format_amount(12345, "usd")` is "USD $123.45". The amount is
/// computed exactly in integers. A computation through `f64` (dividing the
/// cents by 100.0 and printing two decimals) agrees up to about 7·10^15 cents
/// and may differ in the last cent above that, where `f64` loses precision:
/// 7756989328521376 cents gives "…213.76" here, "…213.77" through `f64`.
pub fn format_amount(amount_cents: u64, currency: &str) -> (r: String)
    ensures
        r@ == amount_text(amount_cents as nat, uppercase_of(currency@)),
        is_ascii_text(currency@) ==> r@ == amount_text(amount_cents as nat, ascii_upper(currency@)),
{
    let upper = to_uppercase(currency);
    amount_label(amount_cents, upper.as_str())
}

} // verus!
