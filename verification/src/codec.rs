//! The textual form the store keeps: dates as `YYYY-MM-DD`, times as
//! `HH:MM` (24-hour). Formatting and parsing are exact inverses on valid
//! values, which is what keeps a persisted record identical after a reload.

use vstd::prelude::*;
use crate::appointment::{Date, Time, valid_date, valid_time};

verus! {

pub open spec fn digit_char(d: int) -> char {
    if d == 0 {
        '0'
    } else if d == 1 {
        '1'
    } else if d == 2 {
        '2'
    } else if d == 3 {
        '3'
    } else if d == 4 {
        '4'
    } else if d == 5 {
        '5'
    } else if d == 6 {
        '6'
    } else if d == 7 {
        '7'
    } else if d == 8 {
        '8'
    } else {
        '9'
    }
}

pub open spec fn is_digit(c: char) -> bool {
    48 <= c as int <= 57
}

pub open spec fn digit_of(c: char) -> int {
    c as int - 48
}

/// The ten characters `YYYY-MM-DD` that encode a date.
pub open spec fn date_chars(d: Date) -> Seq<char> {
    seq![
        digit_char(d.year as int / 1000 % 10),
        digit_char(d.year as int / 100 % 10),
        digit_char(d.year as int / 10 % 10),
        digit_char(d.year as int % 10),
        '-',
        digit_char(d.month as int / 10),
        digit_char(d.month as int % 10),
        '-',
        digit_char(d.day as int / 10),
        digit_char(d.day as int % 10),
    ]
}

/// The five characters `HH:MM` that encode a time of day.
pub open spec fn time_chars(t: Time) -> Seq<char> {
    seq![
        digit_char(t.hour as int / 10),
        digit_char(t.hour as int % 10),
        ':',
        digit_char(t.minute as int / 10),
        digit_char(t.minute as int % 10),
    ]
}

/// What a stored date string means: `Some` exactly on well-shaped text
/// that names a valid calendar date, `None` on anything else.
pub open spec fn parse_date_spec(s: Seq<char>) -> Option<Date> {
    if s.len() == 10 && is_digit(s[0]) && is_digit(s[1]) && is_digit(s[2]) && is_digit(s[3])
        && s[4] == '-' && is_digit(s[5]) && is_digit(s[6]) && s[7] == '-' && is_digit(s[8])
        && is_digit(s[9]) {
        let d = Date {
            year: (digit_of(s[0]) * 1000 + digit_of(s[1]) * 100 + digit_of(s[2]) * 10 + digit_of(
                s[3],
            )) as i32,
            month: (digit_of(s[5]) * 10 + digit_of(s[6])) as u8,
            day: (digit_of(s[8]) * 10 + digit_of(s[9])) as u8,
        };
        if valid_date(d) {
            Some(d)
        } else {
            None
        }
    } else {
        None
    }
}

/// What a stored time string means: `Some` exactly on well-shaped text
/// that names a valid time of day, `None` on anything else.
pub open spec fn parse_time_spec(s: Seq<char>) -> Option<Time> {
    if s.len() == 5 && is_digit(s[0]) && is_digit(s[1]) && s[2] == ':' && is_digit(s[3])
        && is_digit(s[4]) {
        let t = Time {
            hour: (digit_of(s[0]) * 10 + digit_of(s[1])) as u8,
            minute: (digit_of(s[3]) * 10 + digit_of(s[4])) as u8,
        };
        if valid_time(t) {
            Some(t)
        } else {
            None
        }
    } else {
        None
    }
}

fn digit_str(d: u8) -> (r: &'static str)
    requires
        d <= 9,
    ensures
        r@.len() == 1,
        r@[0] == digit_char(d as int),
{
    proof {
        reveal_strlit("0");
        reveal_strlit("1");
        reveal_strlit("2");
        reveal_strlit("3");
        reveal_strlit("4");
        reveal_strlit("5");
        reveal_strlit("6");
        reveal_strlit("7");
        reveal_strlit("8");
        reveal_strlit("9");
    }
    match d {
        0 => "0",
        1 => "1",
        2 => "2",
        3 => "3",
        4 => "4",
        5 => "5",
        6 => "6",
        7 => "7",
        8 => "8",
        _ => "9",
    }
}

fn char_to_digit(c: char) -> (r: Option<u8>)
    ensures
        r is Some <==> is_digit(c),
        r is Some ==> r->0 as int == digit_of(c),
{
    let v = c as u32;
    if 48 <= v && v <= 57 {
        Some((v - 48) as u8)
    } else {
        None
    }
}

/// Render a date in the store's `YYYY-MM-DD` form.
pub fn format_date(d: &Date) -> (r: String)
    requires
        valid_date(*d),
    ensures
        r@ == date_chars(*d),
{
    proof {
        reveal_strlit("-");
    }
    let mut s = String::new();
    s.append(digit_str(((d.year / 1000) % 10) as u8));
    s.append(digit_str(((d.year / 100) % 10) as u8));
    s.append(digit_str(((d.year / 10) % 10) as u8));
    s.append(digit_str((d.year % 10) as u8));
    s.append("-");
    s.append(digit_str(d.month / 10));
    s.append(digit_str(d.month % 10));
    s.append("-");
    s.append(digit_str(d.day / 10));
    s.append(digit_str(d.day % 10));
    proof {
        assert(s@ =~= date_chars(*d));
    }
    s
}

/// Render a time of day in the store's `HH:MM` form.
pub fn format_time(t: &Time) -> (r: String)
    requires
        valid_time(*t),
    ensures
        r@ == time_chars(*t),
{
    proof {
        reveal_strlit(":");
    }
    let mut s = String::new();
    s.append(digit_str(t.hour / 10));
    s.append(digit_str(t.hour % 10));
    s.append(":");
    s.append(digit_str(t.minute / 10));
    s.append(digit_str(t.minute % 10));
    proof {
        assert(s@ =~= time_chars(*t));
    }
    s
}

/// Read a date back from its stored text.
pub fn parse_date(s: &str) -> (r: Option<Date>)
    ensures
        r == parse_date_spec(s@),
{
    let n = s.unicode_len();
    if n != 10 {
        return None;
    }
    let sep1 = s.get_char(4);
    let sep2 = s.get_char(7);
    if sep1 != '-' || sep2 != '-' {
        return None;
    }
    let d0 = char_to_digit(s.get_char(0));
    let d1 = char_to_digit(s.get_char(1));
    let d2 = char_to_digit(s.get_char(2));
    let d3 = char_to_digit(s.get_char(3));
    let d5 = char_to_digit(s.get_char(5));
    let d6 = char_to_digit(s.get_char(6));
    let d8 = char_to_digit(s.get_char(8));
    let d9 = char_to_digit(s.get_char(9));
    match (d0, d1, d2, d3, d5, d6, d8, d9) {
        (
            Some(y0),
            Some(y1),
            Some(y2),
            Some(y3),
            Some(m0),
            Some(m1),
            Some(a0),
            Some(a1),
        ) => {
            let year: i32 = y0 as i32 * 1000 + y1 as i32 * 100 + y2 as i32 * 10 + y3 as i32;
            let month: u8 = m0 * 10 + m1;
            let day: u8 = a0 * 10 + a1;
            let d = Date { year, month, day };
            if d.is_valid() {
                Some(d)
            } else {
                None
            }
        },
        _ => None,
    }
}

/// Read a time of day back from its stored text.
pub fn parse_time(s: &str) -> (r: Option<Time>)
    ensures
        r == parse_time_spec(s@),
{
    let n = s.unicode_len();
    if n != 5 {
        return None;
    }
    if s.get_char(2) != ':' {
        return None;
    }
    let d0 = char_to_digit(s.get_char(0));
    let d1 = char_to_digit(s.get_char(1));
    let d3 = char_to_digit(s.get_char(3));
    let d4 = char_to_digit(s.get_char(4));
    match (d0, d1, d3, d4) {
        (Some(h0), Some(h1), Some(m0), Some(m1)) => {
            let t = Time { hour: h0 * 10 + h1, minute: m0 * 10 + m1 };
            if t.is_valid() {
                Some(t)
            } else {
                None
            }
        },
        _ => None,
    }
}

/// A date formatted by `format_date` parses back to the same date: the
/// stored `YYYY-MM-DD` text round-trips exactly.
pub proof fn lemma_date_round_trip(d: Date)
    requires
        valid_date(d),
    ensures
        parse_date_spec(date_chars(d)) == Some(d),
{
    let s = date_chars(d);
    let y = d.year as int;
    let m = d.month as int;
    let a = d.day as int;
    assert(digit_of(s[0]) == y / 1000 % 10 && digit_of(s[1]) == y / 100 % 10 && digit_of(s[2]) == y
        / 10 % 10 && digit_of(s[3]) == y % 10);
    assert(y / 1000 % 10 * 1000 + y / 100 % 10 * 100 + y / 10 % 10 * 10 + y % 10 == y) by {
        assert(y / 1000 % 10 == y / 1000);
        assert(y / 100 == (y / 1000) * 10 + y / 100 % 10) by (nonlinear_arith)
            requires 0 <= y <= 9999;
        assert(y / 10 == (y / 100) * 10 + y / 10 % 10) by (nonlinear_arith)
            requires 0 <= y <= 9999;
        assert(y == (y / 10) * 10 + y % 10) by (nonlinear_arith)
            requires 0 <= y <= 9999;
    }
    assert(m / 10 * 10 + m % 10 == m);
    assert(a / 10 * 10 + a % 10 == a);
}

/// A time formatted by `format_time` parses back to the same time.
pub proof fn lemma_time_round_trip(t: Time)
    requires
        valid_time(t),
    ensures
        parse_time_spec(time_chars(t)) == Some(t),
{
    let s = time_chars(t);
    let h = t.hour as int;
    let m = t.minute as int;
    assert(h / 10 * 10 + h % 10 == h);
    assert(m / 10 * 10 + m % 10 == m);
}

} // verus!
