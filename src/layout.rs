//! The dated layout of the destination tree: `YYYY/MM-DD/<file name>`.

use vstd::prelude::*;
use chrono::{DateTime, Datelike, Local};

verus! {

/// A calendar date in the local time zone.
#[derive(PartialEq, Eq, Structural, Clone, Copy, Debug)]
pub struct CalendarDate {
    pub year: i32,
    pub month: u32,
    pub day: u32,
}

impl CalendarDate {
    pub open spec fn wf(&self) -> bool {
        1 <= self.month <= 12 && 1 <= self.day <= 31
    }
}

pub open spec fn digit(d: nat) -> char {
    if d == 0 { '0' }
    else if d == 1 { '1' }
    else if d == 2 { '2' }
    else if d == 3 { '3' }
    else if d == 4 { '4' }
    else if d == 5 { '5' }
    else if d == 6 { '6' }
    else if d == 7 { '7' }
    else if d == 8 { '8' }
    else { '9' }
}

/// The decimal digits of `n`, without leading zeros.
pub open spec fn decimal(n: nat) -> Seq<char>
    decreases n,
{
    if n < 10 {
        seq![digit(n)]
    } else {
        decimal(n / 10).push(digit(n % 10))
    }
}

/// The decimal digits of `n`, with zeros in front up to `width` characters.
pub open spec fn padded(n: nat, width: nat) -> Seq<char> {
    if decimal(n).len() >= width {
        decimal(n)
    } else {
        Seq::new((width - decimal(n).len()) as nat, |i: int| '0') + decimal(n)
    }
}

/// A year as four digits where it lies in 0..=9999, and otherwise as a
/// sign followed by at least four digits.
pub open spec fn year_text(y: int) -> Seq<char> {
    if 0 <= y <= 9999 {
        padded(y as nat, 4)
    } else if y < 0 {
        seq!['-'] + padded((-y) as nat, 4)
    } else {
        seq!['+'] + padded(y as nat, 4)
    }
}

/// The directory of a date below the destination root, `YYYY/MM-DD`.
pub open spec fn date_key_spec(d: CalendarDate) -> Seq<char> {
    year_text(d.year as int) + seq!['/'] + padded(d.month as nat, 2) + seq!['-'] + padded(
        d.day as nat,
        2,
    )
}

proof fn lemma_decimal_len(n: nat)
    ensures
        n < 10 ==> decimal(n).len() == 1,
        10 <= n < 100 ==> decimal(n).len() == 2,
        100 <= n < 1000 ==> decimal(n).len() == 3,
        1000 <= n < 10000 ==> decimal(n).len() == 4,
        10000 <= n ==> decimal(n).len() >= 5,
    decreases n,
{
    if n >= 10 {
        lemma_decimal_len(n / 10);
    }
}

fn digit_text(d: u32) -> (r: &'static str)
    requires
        d < 10,
    ensures
        r@ == seq![digit(d as nat)],
{
    if d == 0 {
        proof { reveal_strlit("0"); }
        "0"
    } else if d == 1 {
        proof { reveal_strlit("1"); }
        "1"
    } else if d == 2 {
        proof { reveal_strlit("2"); }
        "2"
    } else if d == 3 {
        proof { reveal_strlit("3"); }
        "3"
    } else if d == 4 {
        proof { reveal_strlit("4"); }
        "4"
    } else if d == 5 {
        proof { reveal_strlit("5"); }
        "5"
    } else if d == 6 {
        proof { reveal_strlit("6"); }
        "6"
    } else if d == 7 {
        proof { reveal_strlit("7"); }
        "7"
    } else if d == 8 {
        proof { reveal_strlit("8"); }
        "8"
    } else {
        proof { reveal_strlit("9"); }
        "9"
    }
}

fn push_decimal(out: &mut String, n: u32)
    ensures
        final(out)@ == old(out)@ + decimal(n as nat),
    decreases n,
{
    if n >= 10 {
        push_decimal(out, n / 10);
    }
    out.append(digit_text(n % 10));
    proof {
        if n >= 10 {
            assert(old(out)@ + decimal(n as nat) =~= old(out)@ + decimal((n / 10) as nat) + seq![digit((n % 10) as nat)]);
        } else {
            assert(decimal(n as nat) == seq![digit((n % 10) as nat)]);
        }
    }
}

fn push_padded(out: &mut String, n: u32, width: u32)
    requires
        width == 2 || width == 4,
    ensures
        final(out)@ == old(out)@ + padded(n as nat, width as nat),
{
    proof {
        lemma_decimal_len(n as nat);
        reveal_strlit("0");
    }
    let fill: u32 = if n < 10 {
        width - 1
    } else if n < 100 {
        width - 2
    } else if n < 1000 && width == 4 {
        1
    } else {
        0
    };
    assert(fill == 0 || fill == (width - decimal(n as nat).len()) as nat);
    assert(fill == 0 ==> decimal(n as nat).len() >= width);
    let ghost start = out@;
    let mut k: u32 = 0;
    while k < fill
        invariant
            k <= fill,
            out@ == start + Seq::new(k as nat, |i: int| '0'),
        decreases fill - k,
    {
        proof { reveal_strlit("0"); }
        out.append("0");
        k = k + 1;
        assert(out@ =~= start + Seq::new(k as nat, |i: int| '0'));
    }
    push_decimal(out, n);
    if fill == 0 {
        assert(out@ =~= start + padded(n as nat, width as nat));
    } else {
        assert(out@ =~= start + padded(n as nat, width as nat));
    }
}

/// The directory of a date below the destination root: the year, a
/// slash, then month and day as two digits each joined by a hyphen
/// (`2024/03-07`).
pub fn date_key(date: CalendarDate) -> (r: String)
    ensures
        r@ == date_key_spec(date),
{
    let mut out = String::new();
    if 0 <= date.year && date.year <= 9999 {
        push_padded(&mut out, date.year as u32, 4);
    } else if date.year < 0 {
        proof { reveal_strlit("-"); }
        out.append("-");
        let magnitude: u32 = (-(date.year as i64)) as u32;
        push_padded(&mut out, magnitude, 4);
    } else {
        proof { reveal_strlit("+"); }
        out.append("+");
        push_padded(&mut out, date.year as u32, 4);
    }
    proof { reveal_strlit("/"); }
    out.append("/");
    push_padded(&mut out, date.month, 2);
    proof { reveal_strlit("-"); }
    out.append("-");
    push_padded(&mut out, date.day, 2);
    out
}

/// Relies on chrono's `DateTime::from_timestamp`, which gives `None` for a
/// moment out of its range or an invalid nanosecond count, then on
/// `with_timezone(&Local)` for the calendar date in the machine's time
/// zone; `Datelike::month` ranges over 1 to 12 and `Datelike::day` over
/// 1 to 31.
#[verifier::external_body]
pub(crate) fn local_date(secs: i64, nanos: u32) -> (r: Option<CalendarDate>)
    ensures
        r is Some ==> r->0.wf(),
{
    match DateTime::from_timestamp(secs, nanos) {
        Some(utc) => {
            let local: DateTime<Local> = utc.with_timezone(&Local);
            Some(CalendarDate { year: local.year(), month: local.month(), day: local.day() })
        },
        None => None,
    }
}

} // verus!
