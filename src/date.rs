//! Today's date, in the `YYYY-MM-DD` form that names journal pages.

use vstd::prelude::*;
use vstd::string::*;
use chrono::Datelike;

verus! {

/// The decimal digit `d`.
pub open spec fn digit(d: nat) -> char {
    seq!['0', '1', '2', '3', '4', '5', '6', '7', '8', '9'][d as int]
}

/// The decimal form of `n`, without leading zeros.
pub open spec fn decimal(n: nat) -> Seq<char>
    decreases n,
{
    if n < 10 {
        seq![digit(n)]
    } else {
        decimal(n / 10) + seq![digit(n % 10)]
    }
}

/// The decimal form of `n`, padded with zeros to two digits.
pub open spec fn two_digits(n: nat) -> Seq<char> {
    if n < 10 {
        seq!['0', digit(n)]
    } else {
        decimal(n)
    }
}

/// The name of the journal page of a date: the year, then month and day on
/// two digits each, joined by dashes.
pub open spec fn date_text(year: int, month: nat, day: nat) -> Seq<char> {
    let y = if year < 0 {
        seq!['-'] + decimal((-year) as nat)
    } else {
        decimal(year as nat)
    };
    y + seq!['-'] + two_digits(month) + seq!['-'] + two_digits(day)
}

fn push_digit(out: &mut String, d: u64)
    requires
        d < 10,
    ensures
        final(out)@ == old(out)@.push(digit(d as nat)),
{
    let s = match d {
        0 => "0",
        1 => "1",
        2 => "2",
        3 => "3",
        4 => "4",
        5 => "5",
        6 => "6",
        7 => "7",
        8 => "8",
        _ => "9",
    };
    proof {
        reveal_strlit("0");
        reveal_strlit("1");
        reveal_strlit("2");
        reveal_strlit("3");
        reveal_strlit("4");
        reveal_strlit("5");
        reveal_strlit("6");
        reveal_strlit("7");
        reveal_strlit("8");
        reveal_strlit("9");
    }
    out.append(s);
    assert(final(out)@ =~= old(out)@.push(digit(d as nat)));
}

fn push_decimal(out: &mut String, n: u64)
    ensures
        final(out)@ == old(out)@ + decimal(n as nat),
    decreases n,
{
    if n >= 10 {
        push_decimal(out, n / 10);
        push_digit(out, n % 10);
        assert(final(out)@ =~= old(out)@ + decimal(n as nat));
    } else {
        push_digit(out, n);
        assert(final(out)@ =~= old(out)@ + decimal(n as nat));
    }
}

/// The name of the journal page of `year`-`month`-`day`.
pub fn date_string(year: i32, month: u32, day: u32) -> (r: String)
    ensures
        r@ == date_text(year as int, month as nat, day as nat),
{
    let mut out = String::new();
    if year < 0 {
        out.append("-");
        proof {
            reveal_strlit("-");
        }
        push_decimal(&mut out, (-(year as i64)) as u64);
    } else {
        push_decimal(&mut out, year as u64);
    }
    let ghost y = out@;
    out.append("-");
    if month < 10 {
        push_digit(&mut out, 0);
    }
    push_decimal(&mut out, month as u64);
    out.append("-");
    if day < 10 {
        push_digit(&mut out, 0);
    }
    push_decimal(&mut out, day as u64);
    proof {
        reveal_strlit("-");
        assert(out@ =~= date_text(year as int, month as nat, day as nat));
    }
    out
}

/// Relies on chrono's `Local::now` and `Datelike::{year, month, day}`: the
/// local date of this moment, whose month is 1 to 12 and whose day is 1 to 31,
/// as `Datelike` documents.
#[verifier::external_body]
fn local_date() -> (r: (i32, u32, u32))
    ensures
        1 <= r.1 <= 12,
        1 <= r.2 <= 31,
{
    let now = chrono::Local::now();
    (now.year(), now.month(), now.day())
}

/// The name of today's journal page.
pub fn todays_date() -> (r: String)
    ensures
        exists|y: i32, m: u32, d: u32|
            1 <= m <= 12 && 1 <= d <= 31 && r@ == date_text(y as int, m as nat, d as nat),
{
    let (y, m, d) = local_date();
    date_string(y, m, d)
}

} // verus!
