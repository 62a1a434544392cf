//! The `YYYY-MM-DD` text of a date.

#![allow(deprecated)]

use chrono::TimeZone;
use vstd::prelude::*;

use crate::calendar::valid_date;

verus! {

pub open spec fn digit_char(d: int) -> char {
    if d == 0 { '0' }
    else if d == 1 { '1' }
    else if d == 2 { '2' }
    else if d == 3 { '3' }
    else if d == 4 { '4' }
    else if d == 5 { '5' }
    else if d == 6 { '6' }
    else if d == 7 { '7' }
    else if d == 8 { '8' }
    else { '9' }
}

/// The value of a decimal digit, or -1 for any other character.
pub open spec fn digit_value(c: char) -> int {
    if c == '0' { 0 }
    else if c == '1' { 1 }
    else if c == '2' { 2 }
    else if c == '3' { 3 }
    else if c == '4' { 4 }
    else if c == '5' { 5 }
    else if c == '6' { 6 }
    else if c == '7' { 7 }
    else if c == '8' { 8 }
    else if c == '9' { 9 }
    else { -1 }
}

/// The decimal digits of `n`, with leading zeros up to `width` digits.
pub open spec fn zero_padded(n: nat, width: nat) -> Seq<char>
    decreases n, width,
{
    if n < 10 && width <= 1 {
        seq![digit_char(n as int)]
    } else {
        zero_padded(n / 10, if width > 0 { (width - 1) as nat } else { 0 }) + seq![digit_char((n % 10) as int)]
    }
}

/// A year as four digits when it lies in 0..=9999, else signed and padded
/// to at least four digits.
pub open spec fn year_text(year: int) -> Seq<char> {
    if 0 <= year <= 9999 {
        zero_padded(year as nat, 4)
    } else if year < 0 {
        seq!['-'] + zero_padded((-year) as nat, 4)
    } else {
        seq!['+'] + zero_padded(year as nat, 4)
    }
}

/// The text of a date: year, then month and day as two digits each,
/// separated by hyphens.
pub open spec fn date_text(year: int, month: int, day: int) -> Seq<char> {
    year_text(year) + seq!['-'] + zero_padded(month as nat, 2) + seq!['-'] + zero_padded(day as nat, 2)
}

pub open spec fn is_digit(c: char) -> bool {
    digit_value(c) >= 0
}

/// Reads back (year, month, day) from a ten-character `YYYY-MM-DD` text.
pub open spec fn parse_date_text(s: Seq<char>) -> Option<(int, int, int)> {
    if s.len() == 10 && s[4] == '-' && s[7] == '-' && is_digit(s[0]) && is_digit(s[1])
        && is_digit(s[2]) && is_digit(s[3]) && is_digit(s[5]) && is_digit(s[6])
        && is_digit(s[8]) && is_digit(s[9]) {
        Some((
            ((digit_value(s[0]) * 10 + digit_value(s[1])) * 10 + digit_value(s[2])) * 10 + digit_value(s[3]),
            digit_value(s[5]) * 10 + digit_value(s[6]),
            digit_value(s[8]) * 10 + digit_value(s[9]),
        ))
    } else {
        None
    }
}

proof fn lemma_digit_round_trip(d: int)
    requires
        0 <= d < 10,
    ensures
        digit_value(digit_char(d)) == d,
{
}

proof fn lemma_two_digits(n: nat)
    requires
        n < 100,
    ensures
        zero_padded(n, 2) == seq![digit_char((n / 10) as int), digit_char((n % 10) as int)],
{
    reveal_with_fuel(zero_padded, 3);
    assert(zero_padded(n / 10, 1) == seq![digit_char((n / 10) as int)]);
}

proof fn lemma_four_digits(n: nat)
    requires
        n < 10000,
    ensures
        zero_padded(n, 4) == seq![
            digit_char((n / 10 / 10 / 10) as int),
            digit_char((n / 10 / 10 % 10) as int),
            digit_char((n / 10 % 10) as int),
            digit_char((n % 10) as int),
        ],
{
    reveal_with_fuel(zero_padded, 5);
    assert(zero_padded(n / 10 / 10 / 10, 1) == seq![digit_char((n / 10 / 10 / 10) as int)]);
    assert(zero_padded(n / 10 / 10, 2) == seq![digit_char((n / 10 / 10 / 10) as int), digit_char((n / 10 / 10 % 10) as int)]);
}

/// Reading back the text of a date with a year from 0 to 9999 gives the
/// same year, month and day.
pub proof fn lemma_date_text_round_trip(year: int, month: int, day: int)
    requires
        0 <= year <= 9999,
        valid_date(year, month, day),
    ensures
        parse_date_text(date_text(year, month, day)) == Some((year, month, day)),
{
    let y = year as nat;
    lemma_four_digits(y);
    lemma_two_digits(month as nat);
    lemma_two_digits(day as nat);
    let s = date_text(year, month, day);
    lemma_digit_round_trip((y / 10 / 10 / 10) as int);
    lemma_digit_round_trip((y / 10 / 10 % 10) as int);
    lemma_digit_round_trip((y / 10 % 10) as int);
    lemma_digit_round_trip((y % 10) as int);
    lemma_digit_round_trip(month / 10);
    lemma_digit_round_trip(month % 10);
    lemma_digit_round_trip(day / 10);
    lemma_digit_round_trip(day % 10);
    assert(s.len() == 10);
    assert(s[0] == digit_char((y / 10 / 10 / 10) as int));
    assert(s[3] == digit_char((y % 10) as int));
    assert(s[4] == '-');
    assert(s[5] == digit_char(month / 10));
    assert(s[6] == digit_char(month % 10));
    assert(s[7] == '-');
    assert(s[8] == digit_char(day / 10));
    assert(s[9] == digit_char(day % 10));
}

/// Relies on chrono's `Utc.ymd(..).format("%Y-%m-%d")`: `%Y` writes years
/// 0..=9999 as four digits and others with a sign and at least four digits;
/// `%m` and `%d` write two digits. `ymd` panics on an invalid date.
#[verifier::external_body]
pub(crate) fn format_ymd(year: i32, month: u32, day: u32) -> (r: String)
    requires
        valid_date(year as int, month as int, day as int),
    ensures
        r@ == date_text(year as int, month as int, day as int),
{
    chrono::Utc.ymd(year, month, day).format("%Y-%m-%d").to_string()
}

} // verus!
