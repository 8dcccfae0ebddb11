//! Dates as the bank prints them: `dd.mm.yyyy`.

use crate::number::{dec, dec_chars, pad_zeros, read_signed, read_unsigned, signed_value,
    unsigned_value, zero_padded};
use crate::text::{push_all, split, split_on, string_of, trim, trimmed, views};
use vstd::prelude::*;

verus! {

/// Leap years of the proleptic Gregorian calendar.
pub open spec fn is_leap_year(year: int) -> bool {
    year % 4 == 0 && (year % 100 != 0 || year % 400 == 0)
}

pub open spec fn days_in_month(year: int, month: int) -> int {
    if month == 2 {
        if is_leap_year(year) {
            29
        } else {
            28
        }
    } else if month == 4 || month == 6 || month == 9 || month == 11 {
        30
    } else {
        31
    }
}

/// The days of the calendar from year -9999 to year 9999.
pub open spec fn is_calendar_date(year: int, month: int, day: int) -> bool {
    -9999 <= year <= 9999 && 1 <= month <= 12 && 1 <= day <= days_in_month(year, month)
}

/// `time::Date::from_calendar_date`, with its month made by
/// `time::Month::try_from`: it gives a date exactly for the days of the
/// calendar from year -9999 to year 9999.
#[verifier::external_body]
fn calendar_date_exists(year: i32, month: u8, day: u8) -> (r: bool)
    ensures
        r == is_calendar_date(year as int, month as int, day as int),
{
    match time::Month::try_from(month) {
        Ok(month) => time::Date::from_calendar_date(year, month, day).is_ok(),
        Err(_) => false,
    }
}

/// A year in four places, the minus sign of a negative one counted among them.
pub open spec fn year_text(year: int) -> Seq<char> {
    if year < 0 {
        seq!['-'] + zero_padded(dec((-year) as nat), 3)
    } else {
        zero_padded(dec(year as nat), 4)
    }
}

/// The ISO notation `YYYY-MM-DD`.
pub open spec fn iso(year: int, month: int, day: int) -> Seq<char> {
    year_text(year) + seq!['-'] + zero_padded(dec(month as nat), 2) + seq!['-'] + zero_padded(
        dec(day as nat),
        2,
    )
}

/// The year, month and day that a printed date names.
pub open spec fn date_parts(s: Seq<char>) -> Option<(int, int, int)> {
    let parts = split(trim(s), '.');
    if parts.len() != 3 {
        None
    } else {
        match (
            unsigned_value(trim(parts[0])),
            unsigned_value(trim(parts[1])),
            signed_value(trim(parts[2])),
        ) {
            (Some(day), Some(month), Some(year)) => if is_calendar_date(
                year,
                month as int,
                day as int,
            ) {
                Some((year, month as int, day as int))
            } else {
                None
            },
            _ => None,
        }
    }
}

/// The ISO notation of a printed date.
pub open spec fn tr_date(s: Seq<char>) -> Option<Seq<char>> {
    match date_parts(s) {
        Some((year, month, day)) => Some(iso(year, month, day)),
        None => None,
    }
}

fn iso_chars(year: i64, month: u64, day: u64) -> (r: Vec<char>)
    requires
        -9999 <= year <= 9999,
    ensures
        r@ == iso(year as int, month as int, day as int),
{
    let mut r: Vec<char> = Vec::new();
    if year < 0 {
        r.push('-');
        let digits = pad_zeros(dec_chars((-year) as u64), 3);
        push_all(&mut r, &digits);
    } else {
        let digits = pad_zeros(dec_chars(year as u64), 4);
        push_all(&mut r, &digits);
    }
    proof {
        assert(r@ =~= year_text(year as int));
    }
    r.push('-');
    let digits = pad_zeros(dec_chars(month), 2);
    push_all(&mut r, &digits);
    r.push('-');
    let digits = pad_zeros(dec_chars(day), 2);
    push_all(&mut r, &digits);
    proof {
        assert(r@ =~= iso(year as int, month as int, day as int));
    }
    r
}

/// Reads a printed date; `None` where the text is no date of the calendar.
pub fn parse_tr_date(s: &[char]) -> (r: Option<String>)
    ensures
        match r {
            Some(date) => tr_date(s@) == Some(date@),
            None => tr_date(s@) is None,
        },
{
    let parts = split_on(trimmed(s), '.');
    let ghost texts = views(parts@);
    if parts.len() != 3 {
        return None;
    }
    proof {
        assert(texts[0] == parts@[0]@ && texts[1] == parts@[1]@ && texts[2] == parts@[2]@);
    }
    match (
        read_unsigned(trimmed(&parts[0]), 255),
        read_unsigned(trimmed(&parts[1]), 255),
        read_signed(trimmed(&parts[2]), 2147483647),
    ) {
        (Some(day), Some(month), Some(year)) => {
            if calendar_date_exists(year as i32, month as u8, day as u8) {
                let iso = iso_chars(year, month, day);
                Some(string_of(&iso))
            } else {
                None
            }
        },
        _ => None,
    }
}

} // verus!
