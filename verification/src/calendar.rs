//! Proleptic Gregorian calendar arithmetic on day numbers counted from
//! 1970-01-01 (day 0), and the conversion of a day number back to a date.

use vstd::prelude::*;
use vstd::arithmetic::div_mod::lemma_fundamental_div_mod_converse;
use crate::numbers::{
    decimal, is_ascii_digit, lemma_decimal_digits, lemma_decimal_injective, parse_i64, parse_i64_spec, push_decimal,
    push_signed_decimal, signed_decimal,
};
use crate::text::push_char;

verus! {

/// Gregorian leap-year rule (year 0 is a leap year; negative years follow the
/// same rule, the proleptic calendar).
pub open spec fn is_leap_year(y: int) -> bool {
    y % 4 == 0 && (y % 100 != 0 || y % 400 == 0)
}

/// Number of days of month `m` (1 = January) in year `y`.
pub open spec fn days_in_month(y: int, m: int) -> int {
    if m == 2 {
        if is_leap_year(y) { 29 } else { 28 }
    } else if m == 4 || m == 6 || m == 9 || m == 11 {
        30
    } else {
        31
    }
}

/// Days before the first of month `m` in a common (non-leap) year.
pub open spec fn common_days_before_month(m: int) -> int {
    if m <= 1 { 0 }
    else if m == 2 { 31 }
    else if m == 3 { 59 }
    else if m == 4 { 90 }
    else if m == 5 { 120 }
    else if m == 6 { 151 }
    else if m == 7 { 181 }
    else if m == 8 { 212 }
    else if m == 9 { 243 }
    else if m == 10 { 273 }
    else if m == 11 { 304 }
    else { 334 }
}

/// Days between January 1st of year `y` and the first of month `m`.
pub open spec fn days_before_month(y: int, m: int) -> int {
    common_days_before_month(m) + if m > 2 && is_leap_year(y) { 1int } else { 0int }
}

/// Leap years among the years 1..=y (for y >= 0; for negative y the same
/// floor-division formula continues the count downwards).
pub open spec fn leap_years_through(y: int) -> int {
    y / 4 - y / 100 + y / 400
}

/// Days from 1970-01-01 to January 1st of year `y` (negative before 1970).
pub open spec fn days_before_year(y: int) -> int {
    365 * (y - 1970) + leap_years_through(y - 1) - leap_years_through(1969)
}

/// The day number of date `y-m-d`: days since 1970-01-01.
pub open spec fn day_number(y: int, m: int, d: int) -> int {
    days_before_year(y) + days_before_month(y, m) + d - 1
}

/// `y-m-d` names a day of the calendar.
pub open spec fn is_valid_date(y: int, m: int, d: int) -> bool {
    1 <= m <= 12 && 1 <= d <= days_in_month(y, m)
}

/// The date (year, month, day) whose day number is `n`.
pub open spec fn date_of_day(n: int) -> (int, int, int) {
    choose|y: int, m: int, d: int| is_valid_date(y, m, d) && day_number(y, m, d) == n
}

// ---------------------------------------------------------------------------
// Arithmetic facts.

/// Counting leap years one year further adds one exactly for a leap year.
proof fn lemma_leap_step(y: int)
    ensures
        leap_years_through(y) - leap_years_through(y - 1) == (if is_leap_year(y) { 1int } else { 0int }),
{
    assert(y / 4 - (y - 1) / 4 == (if y % 4 == 0 { 1int } else { 0int }));
    assert(y / 100 - (y - 1) / 100 == (if y % 100 == 0 { 1int } else { 0int }));
    assert(y / 400 - (y - 1) / 400 == (if y % 400 == 0 { 1int } else { 0int }));
    assert(y % 400 == 0 ==> y % 100 == 0);
    assert(y % 100 == 0 ==> y % 4 == 0);
}

/// A year is one day longer exactly when it is a leap year.
pub proof fn lemma_year_length(y: int)
    ensures
        days_before_year(y + 1) - days_before_year(y) == (if is_leap_year(y) { 366int } else { 365int }),
{
    lemma_leap_step(y);
}

/// Counting leap years is monotone.
proof fn lemma_leap_years_monotone(a: int, b: int)
    requires
        a <= b,
    ensures
        leap_years_through(a) <= leap_years_through(b),
    decreases b - a,
{
    if a < b {
        lemma_leap_step(b);
        lemma_leap_years_monotone(a, b - 1);
    }
}

/// A later year starts on a later day.
proof fn lemma_days_before_year_strict(a: int, b: int)
    requires
        a < b,
    ensures
        days_before_year(a) + 365 <= days_before_year(b),
{
    lemma_leap_years_monotone(a - 1, b - 1);
}

/// Days before a month and its own length never run past the year.
proof fn lemma_month_bounds(y: int, m: int)
    requires
        1 <= m <= 12,
    ensures
        days_before_month(y, m) + days_in_month(y, m) <= (if is_leap_year(y) { 366int } else { 365int }),
        m < 12 ==> days_before_month(y, m) + days_in_month(y, m) == days_before_month(y, m + 1),
        0 <= days_before_month(y, m),
{
}

/// Within one year, a later month starts after the earlier one ends.
proof fn lemma_month_order(y: int, m1: int, m2: int)
    requires
        1 <= m1 < m2 <= 12,
    ensures
        days_before_month(y, m1) + days_in_month(y, m1) <= days_before_month(y, m2),
    decreases m2 - m1,
{
    lemma_month_bounds(y, m1);
    if m1 + 1 < m2 {
        lemma_month_order(y, m1 + 1, m2);
        lemma_month_bounds(y, m1 + 1);
    }
}

/// A valid date falls inside its own year.
proof fn lemma_day_in_year(y: int, m: int, d: int)
    requires
        is_valid_date(y, m, d),
    ensures
        days_before_year(y) <= day_number(y, m, d) < days_before_year(y + 1),
{
    lemma_month_bounds(y, m);
    lemma_year_length(y);
}

/// Different valid dates have different day numbers.
pub proof fn lemma_day_number_injective(y1: int, m1: int, d1: int, y2: int, m2: int, d2: int)
    requires
        is_valid_date(y1, m1, d1),
        is_valid_date(y2, m2, d2),
        day_number(y1, m1, d1) == day_number(y2, m2, d2),
    ensures
        y1 == y2 && m1 == m2 && d1 == d2,
{
    lemma_day_in_year(y1, m1, d1);
    lemma_day_in_year(y2, m2, d2);
    if y1 < y2 {
        if y1 + 1 < y2 {
            lemma_days_before_year_strict(y1 + 1, y2);
        }
    } else if y2 < y1 {
        if y2 + 1 < y1 {
            lemma_days_before_year_strict(y2 + 1, y1);
        }
    } else {
        if m1 < m2 {
            lemma_month_order(y1, m1, m2);
        } else if m2 < m1 {
            lemma_month_order(y1, m2, m1);
        }
    }
}

// ---------------------------------------------------------------------------
// Day number -> date, by eras of 400 years starting on March 1st.

/// Day (from 0000-03-01 of its era) on which March-year `yoe` of the era starts.
spec fn march_year_start(yoe: int) -> int {
    365 * yoe + yoe / 4 - yoe / 100
}

/// March-based year of the era that contains day `doe` of the era.
spec fn year_of_era(doe: int) -> int {
    (doe - doe / 1460 + doe / 36524 - doe / 146096) / 365
}

spec fn era_day_ok(doe: int) -> bool {
    let yoe = year_of_era(doe);
    let doy = doe - march_year_start(yoe);
    &&& 0 <= yoe <= 399
    &&& 0 <= doy <= 365
    &&& (doy == 365 ==> is_leap_year(yoe + 1))
}

proof fn lemma_era_day(doe: int)
    requires
        0 <= doe <= 146096,
    ensures
        era_day_ok(doe),
{
    assert(era_day_ok(doe)) by (nonlinear_arith)
        requires
            0 <= doe <= 146096,
    ;
}

/// March-based month index (0 = March .. 11 = February) of day `doy` of a March-year.
spec fn march_month(doy: int) -> int {
    (5 * doy + 2) / 153
}

/// Day of month of day `doy` of a March-year.
spec fn march_day(doy: int) -> int {
    doy - (153 * march_month(doy) + 2) / 5 + 1
}

spec fn month_day_ok(doy: int) -> bool {
    let mp = march_month(doy);
    let d = march_day(doy);
    &&& 0 <= mp <= 11
    &&& 1 <= d
    &&& (mp < 10 ==> doy == common_days_before_month(mp + 3) - 59 + d - 1 && d <= days_in_month(1, mp + 3))
    &&& (mp == 10 ==> doy == 306 + d - 1 && d <= 31)
    &&& (mp == 11 ==> doy == 337 + d - 1 && d <= 29)
}

proof fn lemma_month_day(doy: int)
    requires
        0 <= doy <= 365,
    ensures
        month_day_ok(doy),
{
    assert(month_day_ok(doy)) by (nonlinear_arith)
        requires
            0 <= doy <= 365,
    ;
}

/// Leap years repeat every 400 years.
proof fn lemma_leap_periodic(x: int, e: int)
    ensures
        is_leap_year(x + 400 * e) == is_leap_year(x),
{
    vstd::arithmetic::div_mod::lemma_fundamental_div_mod(x, 4);
    vstd::arithmetic::div_mod::lemma_fundamental_div_mod(x, 100);
    vstd::arithmetic::div_mod::lemma_fundamental_div_mod(x, 400);
    lemma_fundamental_div_mod_converse(x + 400 * e, 4, x / 4 + 100 * e, x % 4);
    lemma_fundamental_div_mod_converse(x + 400 * e, 100, x / 100 + 4 * e, x % 100);
    lemma_fundamental_div_mod_converse(x + 400 * e, 400, x / 400 + e, x % 400);
}

/// Shifting a March-year by whole eras shifts its start by whole eras of days.
proof fn lemma_era_shift(yoe: int, e: int)
    requires
        0 <= yoe < 400,
    ensures
        march_year_start(yoe) + 146097 * e == 365 * (yoe + 400 * e) + leap_years_through(yoe + 400 * e),
{
    vstd::arithmetic::div_mod::lemma_fundamental_div_mod(yoe, 4);
    vstd::arithmetic::div_mod::lemma_fundamental_div_mod(yoe, 100);
    lemma_fundamental_div_mod_converse(yoe + 400 * e, 4, yoe / 4 + 100 * e, yoe % 4);
    lemma_fundamental_div_mod_converse(yoe + 400 * e, 100, yoe / 100 + 4 * e, yoe % 100);
    lemma_fundamental_div_mod_converse(yoe + 400 * e, 400, e, yoe);
}

/// The date computed from day number `n` by era arithmetic.
spec fn civil_of(n: int) -> (int, int, int) {
    let z = n + 719468;
    let era = z / 146097;
    let doe = z % 146097;
    let yoe = year_of_era(doe);
    let doy = doe - march_year_start(yoe);
    let mp = march_month(doy);
    let d = march_day(doy);
    let m = if mp < 10 { mp + 3 } else { mp - 9 };
    let y = yoe + 400 * era + if m <= 2 { 1int } else { 0int };
    (y, m, d)
}

/// The era computation yields a valid date with day number `n`.
proof fn lemma_civil_of(n: int)
    ensures
        is_valid_date(civil_of(n).0, civil_of(n).1, civil_of(n).2),
        day_number(civil_of(n).0, civil_of(n).1, civil_of(n).2) == n,
{
    let z = n + 719468;
    let era = z / 146097;
    let doe = z % 146097;
    vstd::arithmetic::div_mod::lemma_fundamental_div_mod(z, 146097);
    assert(0 <= doe < 146097) by {
        vstd::arithmetic::div_mod::lemma_mod_bound(z, 146097);
    }
    lemma_era_day(doe);
    let yoe = year_of_era(doe);
    let doy = doe - march_year_start(yoe);
    lemma_month_day(doy);
    let mp = march_month(doy);
    let d = march_day(doy);
    let big_y = yoe + 400 * era;
    lemma_era_shift(yoe, era);
    lemma_leap_periodic(yoe + 1, era);
    lemma_leap_step(big_y);
    lemma_year_length(big_y);
    assert(z == era * 146097 + doe);
    assert(days_before_year(big_y) + 59 + (if is_leap_year(big_y) { 1int } else { 0int })
        == 365 * big_y + leap_years_through(big_y) - 719468);
}

/// Every day number has exactly one date: `date_of_day` is that date.
pub proof fn lemma_date_of_day(n: int)
    ensures
        is_valid_date(date_of_day(n).0, date_of_day(n).1, date_of_day(n).2),
        day_number(date_of_day(n).0, date_of_day(n).1, date_of_day(n).2) == n,
        forall|y: int, m: int, d: int|
            is_valid_date(y, m, d) && day_number(y, m, d) == n ==> (y, m, d) == date_of_day(n),
{
    lemma_civil_of(n);
    let (y0, m0, d0) = civil_of(n);
    assert(is_valid_date(y0, m0, d0) && day_number(y0, m0, d0) == n);
    let (y1, m1, d1) = date_of_day(n);
    assert forall|y: int, m: int, d: int|
        is_valid_date(y, m, d) && day_number(y, m, d) == n implies (y, m, d) == date_of_day(n) by {
        lemma_day_number_injective(y, m, d, y1, m1, d1);
    }
}

// ---------------------------------------------------------------------------
// Executable conversion and formatting.

/// Floor division of a negative number through non-negative arithmetic.
proof fn lemma_floor_div_negative(z: int, k: int)
    requires
        z < 0,
        k > 0,
    ensures
        z / k == -((-(z + 1)) / k) - 1,
{
    let w = -(z + 1);
    let q = w / k;
    let r = w % k;
    vstd::arithmetic::div_mod::lemma_fundamental_div_mod(w, k);
    vstd::arithmetic::div_mod::lemma_mod_pos_bound(w, k);
    assert(z == (-q - 1) * k + (k - r - 1)) by (nonlinear_arith)
        requires
            w == k * q + r,
            z == -w - 1,
    ;
    lemma_fundamental_div_mod_converse(z, k, -q - 1, k - r - 1);
}

/// `n / k` rounded towards negative infinity (`i64::div_euclid` for `k > 0`).
fn floor_div(n: i64, k: i64) -> (q: i64)
    requires
        k > 0,
    ensures
        q as int == n as int / k as int,
{
    if n >= 0 {
        ((n as u64) / (k as u64)) as i64
    } else {
        proof {
            lemma_floor_div_negative(n as int, k as int);
        }
        let w: u64 = (-(n as i128 + 1)) as u64;
        let q = w / (k as u64);
        assert(q as int <= w as int) by (nonlinear_arith)
            requires
                q == w / (k as u64),
                k > 0,
        ;
        0i64 - (q as i64) - 1
    }
}

/// The date (year, month, day) of day number `days`.
pub fn civil_from_days(days: i64) -> (r: (i64, u8, u8))
    requires
        -200_000_000_000 <= days <= 200_000_000_000,
    ensures
        (r.0 as int, r.1 as int, r.2 as int) == date_of_day(days as int),
{
    let z: i64 = days + 719468;
    let era: i64 = floor_div(z, 146097);
    proof {
        vstd::arithmetic::div_mod::lemma_fundamental_div_mod(z as int, 146097);
    }
    let doe: u64 = (z - era * 146097) as u64;
    assert(doe as int == (z as int) % 146097);
    proof {
        lemma_era_day(doe as int);
    }
    let yoe: u64 = (doe - doe / 1460 + doe / 36524 - doe / 146096) / 365;
    assert(yoe as int == year_of_era(doe as int));
    let doy: u64 = doe - (365 * yoe + yoe / 4 - yoe / 100);
    proof {
        lemma_month_day(doy as int);
    }
    let mp: u64 = (5 * doy + 2) / 153;
    let d: u64 = doy - (153 * mp + 2) / 5 + 1;
    let m: u64 = if mp < 10 { mp + 3 } else { mp - 9 };
    let y: i64 = yoe as i64 + 400 * era + if m <= 2 { 1i64 } else { 0i64 };
    proof {
        lemma_civil_of(days as int);
        lemma_date_of_day(days as int);
        assert((y as int, m as int, d as int) == civil_of(days as int));
    }
    (y, m as u8, d as u8)
}

/// Three-letter English abbreviation of month `m`.
pub open spec fn month_abbreviation(m: int) -> Seq<char> {
    if m == 1 { seq!['J', 'a', 'n'] }
    else if m == 2 { seq!['F', 'e', 'b'] }
    else if m == 3 { seq!['M', 'a', 'r'] }
    else if m == 4 { seq!['A', 'p', 'r'] }
    else if m == 5 { seq!['M', 'a', 'y'] }
    else if m == 6 { seq!['J', 'u', 'n'] }
    else if m == 7 { seq!['J', 'u', 'l'] }
    else if m == 8 { seq!['A', 'u', 'g'] }
    else if m == 9 { seq!['S', 'e', 'p'] }
    else if m == 10 { seq!['O', 'c', 't'] }
    else if m == 11 { seq!['N', 'o', 'v'] }
    else { seq!['D', 'e', 'c'] }
}

/// "Mon D, YYYY" for a date.
pub open spec fn date_text(y: int, m: int, d: int) -> Seq<char> {
    month_abbreviation(m) + seq![' '] + decimal(d as nat) + seq![',', ' '] + signed_decimal(y)
}

/// The text of the calendar day of an epoch-milliseconds timestamp given as a
/// decimal string, or nothing when the string is not an `i64`.
pub open spec fn epoch_ms_date_text(s: Seq<char>) -> Option<Seq<char>> {
    match parse_i64_spec(s) {
        Some(ms) => {
            let (y, m, d) = date_of_day(ms as int / 86_400_000);
            Some(date_text(y, m, d))
        },
        None => None,
    }
}

/// The month names are Jan, Feb, ..., Dec in order of month number, no two
/// alike.
pub proof fn lemma_month_abbreviations()
    ensures
        month_abbreviation(1) == seq!['J', 'a', 'n'],
        month_abbreviation(2) == seq!['F', 'e', 'b'],
        month_abbreviation(3) == seq!['M', 'a', 'r'],
        month_abbreviation(4) == seq!['A', 'p', 'r'],
        month_abbreviation(5) == seq!['M', 'a', 'y'],
        month_abbreviation(6) == seq!['J', 'u', 'n'],
        month_abbreviation(7) == seq!['J', 'u', 'l'],
        month_abbreviation(8) == seq!['A', 'u', 'g'],
        month_abbreviation(9) == seq!['S', 'e', 'p'],
        month_abbreviation(10) == seq!['O', 'c', 't'],
        month_abbreviation(11) == seq!['N', 'o', 'v'],
        month_abbreviation(12) == seq!['D', 'e', 'c'],
        forall|m1: int, m2: int|
            1 <= m1 <= 12 && 1 <= m2 <= 12 && m1 != m2 ==> #[trigger] month_abbreviation(m1)
                != #[trigger] month_abbreviation(m2),
        forall|m: int| 1 <= m <= 12 ==> (#[trigger] month_abbreviation(m)).len() == 3,
{
    assert forall|m1: int, m2: int|
        1 <= m1 <= 12 && 1 <= m2 <= 12 && m1 != m2 implies #[trigger] month_abbreviation(m1)
            != #[trigger] month_abbreviation(m2) by {
        let a = month_abbreviation(m1);
        let b = month_abbreviation(m2);
        assert(a[0] != b[0] || a[1] != b[1] || a[2] != b[2]);
    }
}

proof fn lemma_signed_decimal_injective(a: int, b: int)
    requires
        signed_decimal(a) == signed_decimal(b),
    ensures
        a == b,
{
    lemma_decimal_digits((-a) as nat);
    lemma_decimal_digits((-b) as nat);
    lemma_decimal_digits(a as nat);
    lemma_decimal_digits(b as nat);
    if a < 0 && b < 0 {
        assert(signed_decimal(a).skip(1) =~= decimal((-a) as nat));
        assert(signed_decimal(b).skip(1) =~= decimal((-b) as nat));
        lemma_decimal_injective((-a) as nat, (-b) as nat);
    } else if a < 0 {
        assert(signed_decimal(a)[0] == '-');
        assert(is_ascii_digit(decimal(b as nat)[0]));
    } else if b < 0 {
        assert(signed_decimal(b)[0] == '-');
        assert(is_ascii_digit(decimal(a as nat)[0]));
    } else {
        lemma_decimal_injective(a as nat, b as nat);
    }
}

/// Different calendar dates have different texts: the month, the day and
/// the year can each be read back from "Mon D, YYYY".
pub proof fn lemma_date_text_injective(y1: int, m1: int, d1: int, y2: int, m2: int, d2: int)
    requires
        is_valid_date(y1, m1, d1),
        is_valid_date(y2, m2, d2),
        date_text(y1, m1, d1) == date_text(y2, m2, d2),
    ensures
        y1 == y2,
        m1 == m2,
        d1 == d2,
{
    lemma_month_abbreviations();
    let t = date_text(y1, m1, d1);
    assert(t.take(3) =~= month_abbreviation(m1));
    assert(date_text(y2, m2, d2).take(3) =~= month_abbreviation(m2));
    let a = decimal(d1 as nat);
    let b = decimal(d2 as nat);
    lemma_decimal_digits(d1 as nat);
    lemma_decimal_digits(d2 as nat);
    let u = t.skip(4);
    assert(u =~= a + seq![',', ' '] + signed_decimal(y1));
    assert(date_text(y2, m2, d2).skip(4) =~= b + seq![',', ' '] + signed_decimal(y2));
    assert(u[a.len() as int] == ',');
    assert(u[b.len() as int] == ',');
    if a.len() < b.len() {
        assert(u[a.len() as int] == b[a.len() as int]);
        assert(is_ascii_digit(b[a.len() as int]));
    } else if b.len() < a.len() {
        assert(u[b.len() as int] == a[b.len() as int]);
        assert(is_ascii_digit(a[b.len() as int]));
    }
    assert(u.take(a.len() as int) =~= a);
    assert(u.take(b.len() as int) =~= b);
    lemma_decimal_injective(d1 as nat, d2 as nat);
    assert(u.skip(a.len() as int + 2) =~= signed_decimal(y1));
    assert(date_text(y2, m2, d2).skip(4).skip(b.len() as int + 2) =~= signed_decimal(y2));
    lemma_signed_decimal_injective(y1, y2);
}

/// Different days have different date texts.
pub proof fn lemma_day_text_injective(n1: int, n2: int)
    ensures
        date_text(date_of_day(n1).0, date_of_day(n1).1, date_of_day(n1).2) == date_text(
            date_of_day(n2).0,
            date_of_day(n2).1,
            date_of_day(n2).2,
        ) ==> n1 == n2,
{
    lemma_date_of_day(n1);
    lemma_date_of_day(n2);
    let (y1, m1, d1) = date_of_day(n1);
    let (y2, m2, d2) = date_of_day(n2);
    if date_text(y1, m1, d1) == date_text(y2, m2, d2) {
        lemma_date_text_injective(y1, m1, d1, y2, m2, d2);
    }
}

fn push_month_abbreviation(out: &mut String, m: u8)
    requires
        1 <= m <= 12,
    ensures
        final(out)@ == old(out)@ + month_abbreviation(m as int),
{
    let (a, b, c) = if m == 1 { ('J', 'a', 'n') }
        else if m == 2 { ('F', 'e', 'b') }
        else if m == 3 { ('M', 'a', 'r') }
        else if m == 4 { ('A', 'p', 'r') }
        else if m == 5 { ('M', 'a', 'y') }
        else if m == 6 { ('J', 'u', 'n') }
        else if m == 7 { ('J', 'u', 'l') }
        else if m == 8 { ('A', 'u', 'g') }
        else if m == 9 { ('S', 'e', 'p') }
        else if m == 10 { ('O', 'c', 't') }
        else if m == 11 { ('N', 'o', 'v') }
        else { ('D', 'e', 'c') };
    push_char(out, a);
    push_char(out, b);
    push_char(out, c);
    assert(final(out)@ =~= old(out)@ + month_abbreviation(m as int));
}

/// Formats an epoch-milliseconds timestamp string as "Mon D, YYYY" (the UTC
/// calendar day), or `None` when the string is not a decimal `i64`.
pub fn format_epoch_ms_date(epoch_ms: &str) -> (r: Option<String>)
    ensures
        r.is_some() == epoch_ms_date_text(epoch_ms@).is_some(),
        r matches Some(t) ==> epoch_ms_date_text(epoch_ms@) == Some(t@),
{
    let ms = match parse_i64(epoch_ms) {
        Some(ms) => ms,
        None => return None,
    };
    let days = floor_div(ms, 86_400_000);
    let (y, m, d) = civil_from_days(days);
    proof {
        lemma_date_of_day(days as int);
    }
    let mut out = String::new();
    push_month_abbreviation(&mut out, m);
    push_char(&mut out, ' ');
    push_decimal(&mut out, d as u128);
    push_char(&mut out, ',');
    push_char(&mut out, ' ');
    push_signed_decimal(&mut out, y);
    assert(out@ =~= date_text(y as int, m as int, d as int));
    Some(out)
}

} // verus!
