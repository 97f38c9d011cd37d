//! Dates and week identifiers derived from the current UTC time.

use chrono::Datelike;
use vstd::prelude::*;
use crate::text::{decimal, decimal_chars, string_of};

verus! {

/// The parts of the current UTC date that the library reads.
#[derive(Debug, Clone, Copy)]
pub struct UtcNow {
    pub year: i32,
    pub month: u32,
    pub day: u32,
    pub iso_year: i32,
    pub iso_week: u32,
}

/// A clock reading within the calendar's bounds: month 1 to 12, day 1 to 31,
/// ISO week 1 to 53.
pub open spec fn plausible_now(now: UtcNow) -> bool {
    1 <= now.month <= 12 && 1 <= now.day <= 31 && 1 <= now.iso_week <= 53
}

/// Calls `chrono::Utc::now` and reads its calendar date and ISO week.
/// The result depends on the clock; chrono's documentation bounds the month,
/// day and ISO week numbers.
#[verifier::external_body]
pub(crate) fn utc_now() -> (r: UtcNow)
    ensures
        1 <= r.month <= 12,
        1 <= r.day <= 31,
        1 <= r.iso_week <= 53,
{
    let now = chrono::Utc::now();
    let iso = now.iso_week();
    UtcNow { year: now.year(), month: now.month(), day: now.day(), iso_year: iso.year(), iso_week: iso.week() }
}

/// `s` padded on the left with `'0'` to at least `width` characters.
pub open spec fn zero_pad(s: Seq<char>, width: nat) -> Seq<char> {
    if s.len() >= width {
        s
    } else {
        Seq::new((width - s.len()) as nat, |i: int| '0') + s
    }
}

/// The decimal form of `n`, zero padded to `width` digits (`{:0width$}`).
pub open spec fn padded(n: nat, width: nat) -> Seq<char> {
    zero_pad(decimal(n), width)
}

/// The decimal digits of `n`, padded with zeros on the left to `width`.
pub fn padded_chars(n: u64, width: usize) -> (r: Vec<char>)
    ensures
        r@ == padded(n as nat, width as nat),
{
    let d = decimal_chars(n);
    if d.len() >= width {
        return d;
    }
    let mut r: Vec<char> = Vec::new();
    let fill = width - d.len();
    let mut i: usize = 0;
    while i < fill
        invariant
            i <= fill,
            r@ == Seq::new(i as nat, |k: int| '0'),
        decreases fill - i,
    {
        r.push('0');
        i += 1;
        assert(r@ =~= Seq::new(i as nat, |k: int| '0'));
    }
    let mut d2 = d;
    r.append(&mut d2);
    r
}

/// A year as chrono's `%Y` and `%G` print it: four digits, zero padded, with a
/// sign when outside 0..=9999.
pub open spec fn year_text(y: int) -> Seq<char> {
    if y < 0 {
        seq!['-'] + padded((-y) as nat, 4)
    } else if y > 9999 {
        seq!['+'] + decimal(y as nat)
    } else {
        padded(y as nat, 4)
    }
}

/// The digits of a year, as chrono writes `%Y`.
pub fn year_chars(y: i32) -> (r: Vec<char>)
    ensures
        r@ == year_text(y as int),
{
    if y < 0 {
        let m: u64 = (-(y as i64)) as u64;
        let mut r: Vec<char> = Vec::new();
        r.push('-');
        let mut p = padded_chars(m, 4);
        r.append(&mut p);
        assert(r@ =~= seq!['-'] + padded((-(y as int)) as nat, 4));
        r
    } else if y > 9999 {
        let mut r: Vec<char> = Vec::new();
        r.push('+');
        let mut p = decimal_chars(y as u64);
        r.append(&mut p);
        assert(r@ =~= seq!['+'] + decimal(y as nat));
        r
    } else {
        padded_chars(y as u64, 4)
    }
}

/// The ISO week identifier of a date, e.g. `2026-W10`.
pub open spec fn week_id_text(now: UtcNow) -> Seq<char> {
    year_text(now.iso_year as int) + "-W"@ + padded(now.iso_week as nat, 2)
}

/// The ISO week identifier (`%G-W%V`) of the given date.
pub fn week_id_of(now: UtcNow) -> (r: String)
    ensures
        r@ == week_id_text(now),
{
    proof {
        reveal_strlit("-W");
    }
    let mut v = year_chars(now.iso_year);
    v.push('-');
    v.push('W');
    let mut w = padded_chars(now.iso_week as u64, 2);
    v.append(&mut w);
    assert(v@ =~= week_id_text(now));
    string_of(v.as_slice())
}

/// The ISO week identifier of an ISO year and week, e.g. `2026-W10`.
pub open spec fn iso_week_id_text(year: int, week: nat) -> Seq<char> {
    year_text(year) + "-W"@ + padded(week, 2)
}

/// The ISO year and week of the date written at the start of a text
/// (`YYYY-MM-DD`, anything may follow), as chrono reads it; nothing when the
/// text does not start with a date.
pub uninterp spec fn leading_date_iso_week(text: Seq<char>) -> Option<(i32, u32)>;

/// Calls `chrono::NaiveDate::parse_and_remainder` with `%Y-%m-%d` and reads the
/// ISO week of the date; named `leading_date_iso_week` of the text. chrono
/// documents ISO week numbers as 1 to 53.
#[verifier::external_body]
fn iso_week_of_leading_date(text: &str) -> (r: Option<(i32, u32)>)
    ensures
        r == leading_date_iso_week(text@),
        r matches Some(w) ==> 1 <= w.1 <= 53,
{
    match chrono::NaiveDate::parse_and_remainder(text, "%Y-%m-%d") {
        Ok((date, _)) => {
            let week = date.iso_week();
            Some((week.year(), week.week()))
        },
        Err(_) => None,
    }
}

/// The ISO week identifier of the date at the start of a text, e.g.
/// `2026-W10` for `2026-03-04T00:00:00-08:00`; nothing when it starts with no date.
pub fn week_id_of_date_text(text: &str) -> (r: Option<String>)
    ensures
        match leading_date_iso_week(text@) {
            Some(w) => r matches Some(s) && s@ == iso_week_id_text(w.0 as int, w.1 as nat),
            None => r is None,
        },
{
    let (year, week) = match iso_week_of_leading_date(text) {
        Some(w) => w,
        None => return None,
    };
    proof {
        reveal_strlit("-W");
    }
    let mut v = year_chars(year);
    v.push('-');
    v.push('W');
    let mut w = padded_chars(week as u64, 2);
    v.append(&mut w);
    assert(v@ =~= iso_week_id_text(year as int, week as nat));
    Some(string_of(v.as_slice()))
}

/// The current ISO week identifier, e.g. `2026-W10`.
pub fn current_week_id() -> (r: String)
    ensures
        exists|now: UtcNow| plausible_now(now) && r@ == week_id_text(now),
{
    let now = utc_now();
    week_id_of(now)
}

/// A date as `%Y-%m-%d`.
pub open spec fn date_text(now: UtcNow) -> Seq<char> {
    year_text(now.year as int) + seq!['-'] + padded(now.month as nat, 2) + seq!['-'] + padded(
        now.day as nat,
        2,
    )
}

/// The given date as `%Y-%m-%d`.
pub fn date_of(now: UtcNow) -> (r: String)
    ensures
        r@ == date_text(now),
{
    let mut v = year_chars(now.year);
    v.push('-');
    let mut m = padded_chars(now.month as u64, 2);
    v.append(&mut m);
    v.push('-');
    let mut d = padded_chars(now.day as u64, 2);
    v.append(&mut d);
    assert(v@ =~= date_text(now));
    string_of(v.as_slice())
}

/// The month identifier used for cached monthly ads, e.g. `hmart-monthly-202603`.
pub open spec fn monthly_id_text(now: UtcNow) -> Seq<char> {
    "hmart-monthly-"@ + year_text(now.year as int) + padded(now.month as nat, 2)
}

/// The monthly-ad identifier (`hmart-monthly-%Y%m`) of the given date.
pub fn monthly_id_of(now: UtcNow) -> (r: String)
    ensures
        r@ == monthly_id_text(now),
{
    let mut v: Vec<char> = crate::text::chars_of("hmart-monthly-");
    let mut y = year_chars(now.year);
    v.append(&mut y);
    let mut m = padded_chars(now.month as u64, 2);
    v.append(&mut m);
    assert(v@ =~= monthly_id_text(now));
    string_of(v.as_slice())
}

/// The monthly-ad identifier of the current month.
pub fn current_monthly_id() -> (r: String)
    ensures
        exists|now: UtcNow| plausible_now(now) && r@ == monthly_id_text(now),
{
    let now = utc_now();
    monthly_id_of(now)
}

} // verus!
