//! Wall-clock readings, record ids, and timestamp text.

use vstd::prelude::*;
use std::sync::atomic::AtomicU64;
use std::sync::atomic::Ordering;
use crate::numbers::{decimal, decimal_string, is_ascii_digit, lemma_decimal_digits, lemma_decimal_injective, push_decimal};
use crate::text::push_char;

verus! {

/// `std::time::UNIX_EPOCH.elapsed()` in nanoseconds, `None` when the clock
/// reads before the epoch. It depends on the clock, so nothing is promised
/// about the value.
#[verifier::external_body]
fn epoch_elapsed_nanos() -> (r: Option<u128>) {
    std::time::UNIX_EPOCH.elapsed().ok().map(|d| d.as_nanos())
}

/// The text of a record id: nanoseconds since the epoch, '-', a counter.
pub open spec fn id_text(nanos: nat, counter: u64) -> Seq<char> {
    decimal(nanos) + seq!['-'] + decimal(counter as nat)
}

/// Ids made of different clock readings or different counter values differ:
/// the counter keeps ids unique within a process even when the clock does
/// not move.
pub proof fn lemma_id_text_injective(n1: nat, c1: u64, n2: nat, c2: u64)
    requires
        id_text(n1, c1) == id_text(n2, c2),
    ensures
        n1 == n2,
        c1 == c2,
{
    let a = decimal(n1);
    let b = decimal(n2);
    lemma_decimal_digits(n1);
    lemma_decimal_digits(n2);
    let t = id_text(n1, c1);
    assert(t[a.len() as int] == '-');
    assert(id_text(n2, c2)[b.len() as int] == '-');
    if a.len() < b.len() {
        assert(t[a.len() as int] == b[a.len() as int]);
        assert(is_ascii_digit(b[a.len() as int]));
    } else if b.len() < a.len() {
        assert(t[b.len() as int] == a[b.len() as int]);
        assert(is_ascii_digit(a[b.len() as int]));
    }
    assert(a.len() == b.len());
    assert(t.take(a.len() as int) =~= a);
    assert(id_text(n2, c2).take(b.len() as int) =~= b);
    lemma_decimal_injective(n1, n2);
    assert(t.skip(a.len() as int + 1) =~= decimal(c1 as nat));
    assert(id_text(n2, c2).skip(b.len() as int + 1) =~= decimal(c2 as nat));
    lemma_decimal_injective(c1 as nat, c2 as nat);
}

/// The nanoseconds of a clock reading, 0 when the clock could not be read.
pub open spec fn reading_nanos(reading: Option<u128>) -> nat {
    match reading {
        Some(n) => n as nat,
        None => 0,
    }
}

/// The id made of a clock reading (0 when the clock could not be read) and a
/// counter value.
pub fn format_id(elapsed_nanos: Option<u128>, counter: u64) -> (r: String)
    ensures
        r@ == id_text(reading_nanos(elapsed_nanos), counter),
{
    let nanos: u128 = match elapsed_nanos {
        Some(n) => n,
        None => 0,
    };
    let mut r = decimal_string(nanos);
    push_char(&mut r, '-');
    push_decimal(&mut r, counter as u128);
    assert(r@ =~= id_text(nanos as nat, counter));
    r
}

/// Millisecond timestamp text: decimal milliseconds since the epoch, or
/// empty when the clock could not be read.
pub open spec fn millis_text(elapsed_nanos: Option<u128>) -> Seq<char> {
    match elapsed_nanos {
        Some(n) => decimal((n / 1_000_000) as nat),
        None => Seq::empty(),
    }
}

/// The millisecond timestamp text of a clock reading.
pub fn format_millis(elapsed_nanos: Option<u128>) -> (r: String)
    ensures
        r@ == millis_text(elapsed_nanos),
{
    match elapsed_nanos {
        Some(n) => decimal_string(n / 1_000_000),
        None => String::new(),
    }
}

/// The current time as decimal epoch milliseconds (empty when the clock reads
/// before the epoch).
pub fn unix_now_ms_string() -> (r: String)
    ensures
        exists|reading: Option<u128>| r@ == millis_text(reading),
{
    let reading = epoch_elapsed_nanos();
    format_millis(reading)
}

/// A fresh record id: the current epoch nanoseconds and the next value of
/// `counter`, which is advanced.
pub fn new_id(counter: &AtomicU64) -> (r: String)
    ensures
        exists|reading: Option<u128>, c: u64| r@ == id_text(reading_nanos(reading), c),
{
    let reading = epoch_elapsed_nanos();
    let c = counter.fetch_add(1, Ordering::Relaxed);
    format_id(reading, c)
}

} // verus!
