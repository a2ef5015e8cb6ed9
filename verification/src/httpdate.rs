//! The `Date` response header: a timestamp taken from the system clock
//! through chrono, formatted by verified code.

use vstd::prelude::*;
use vstd::string::StrSliceExecFns;
use vstd::string::StringExecFns;
use crate::text::{dec_str, u64_to_dec};

verus! {

/// A UTC timestamp broken into plain fields. `weekday` counts from
/// Monday as 0.
pub struct HttpDate {
    pub weekday: u8,
    pub day: u8,
    pub month: u8,
    pub year: i32,
    pub hour: u8,
    pub minute: u8,
    pub second: u8,
}

impl HttpDate {
    /// Every field is within its calendar range.
    pub open spec fn wf(&self) -> bool {
        &&& self.weekday < 7
        &&& 1 <= self.day <= 31
        &&& 1 <= self.month <= 12
        &&& self.hour <= 23
        &&& self.minute <= 59
        &&& self.second <= 59
    }
}

/// Relies on `chrono::Utc::now` with the `Datelike`, `Timelike` and
/// `Weekday` accessors: their documentation bounds `month` to 1..=12,
/// `day` to 1..=31, `hour` to 0..=23, `minute` and `second` to 0..=59,
/// and `num_days_from_monday` to 0..=6. Nothing more is promised: the
/// clock's value is the machine's. `Utc::now` itself panics on a machine
/// whose clock is set before the Unix epoch.
#[verifier::external_body]
pub fn now_utc() -> (r: HttpDate)
    ensures
        r.wf(),
{
    let now: chrono::DateTime<chrono::Utc> = chrono::Utc::now();
    HttpDate {
        weekday: chrono::Datelike::weekday(&now).num_days_from_monday() as u8,
        day: chrono::Datelike::day(&now) as u8,
        month: chrono::Datelike::month(&now) as u8,
        year: chrono::Datelike::year(&now),
        hour: chrono::Timelike::hour(&now) as u8,
        minute: chrono::Timelike::minute(&now) as u8,
        second: chrono::Timelike::second(&now) as u8,
    }
}

/// Three-letter day tags, Monday first.
pub open spec fn weekday_abbrev(w: int) -> Seq<char> {
    if w == 0 {
        "Mon"@
    } else if w == 1 {
        "Tue"@
    } else if w == 2 {
        "Wed"@
    } else if w == 3 {
        "Thu"@
    } else if w == 4 {
        "Fri"@
    } else if w == 5 {
        "Sat"@
    } else {
        "Sun"@
    }
}

/// Writes the day tag.
pub fn weekday_str(w: u8) -> (r: &'static str)
    ensures
        r@ == weekday_abbrev(w as int),
{
    match w {
        0 => "Mon",
        1 => "Tue",
        2 => "Wed",
        3 => "Thu",
        4 => "Fri",
        5 => "Sat",
        _ => "Sun",
    }
}

/// Three-letter month tags as the `Date` header writes them; anything out
/// of range falls back to the June tag.
pub open spec fn month_abbrev(m: int) -> Seq<char> {
    if m == 1 {
        "Jan"@
    } else if m == 2 {
        "Feb"@
    } else if m == 3 {
        "Mar"@
    } else if m == 4 {
        "Apr"@
    } else if m == 5 {
        "May"@
    } else if m == 7 {
        "Jul"@
    } else if m == 8 {
        "Aug"@
    } else if m == 9 {
        "Sep"@
    } else if m == 10 {
        "Oct"@
    } else if m == 11 {
        "Nov"@
    } else if m == 12 {
        "Dec"@
    } else {
        "Jun"@
    }
}

/// Writes the month tag.
pub fn month_str(m: u8) -> (r: &'static str)
    ensures
        r@ == month_abbrev(m as int),
{
    match m {
        1 => "Jan",
        2 => "Feb",
        3 => "Mar",
        4 => "Apr",
        5 => "May",
        7 => "Jul",
        8 => "Aug",
        9 => "Sep",
        10 => "Oct",
        11 => "Nov",
        12 => "Dec",
        _ => "Jun",
    }
}

/// A number padded with `0` to at least two digits.
pub open spec fn pad2(n: int) -> Seq<char> {
    if 0 <= n < 10 {
        "0"@ + dec_str(n as nat)
    } else {
        dec_str(n as nat)
    }
}

/// Writes a small number padded to two digits.
pub fn pad2_str(n: u8) -> (r: String)
    ensures
        r@ == pad2(n as int),
{
    if n < 10 {
        let mut s = String::new();
        s.append("0");
        s.append(u64_to_dec(n as u64).as_str());
        assert(s@ =~= pad2(n as int));
        s
    } else {
        u64_to_dec(n as u64)
    }
}

/// A signed number in decimal.
pub open spec fn int_dec(n: int) -> Seq<char> {
    if n < 0 {
        "-"@ + dec_str((-n) as nat)
    } else {
        dec_str(n as nat)
    }
}

/// Writes a year in decimal.
pub fn year_str(y: i32) -> (r: String)
    ensures
        r@ == int_dec(y as int),
{
    if y < 0 {
        let v: i64 = -(y as i64);
        let mut s = String::new();
        s.append("-");
        s.append(u64_to_dec(v as u64).as_str());
        assert(s@ =~= int_dec(y as int));
        s
    } else {
        u64_to_dec(y as u64)
    }
}

/// The `Date` header value: day tag, padded day of month, month tag,
/// year, and a padded clock time, marked GMT.
pub open spec fn spec_date_line(d: HttpDate) -> Seq<char> {
    weekday_abbrev(d.weekday as int) + ", "@ + pad2(d.day as int) + " "@ + month_abbrev(
        d.month as int,
    ) + " "@ + int_dec(d.year as int) + " "@ + pad2(d.hour as int) + ":"@ + pad2(d.minute as int)
        + ":"@ + pad2(d.second as int) + " GMT"@
}

/// Formats a timestamp for the `Date` header.
pub fn format_http_date(d: &HttpDate) -> (r: String)
    ensures
        r@ == spec_date_line(*d),
{
    let mut s = String::new();
    s.append(weekday_str(d.weekday));
    s.append(", ");
    s.append(pad2_str(d.day).as_str());
    s.append(" ");
    s.append(month_str(d.month));
    s.append(" ");
    s.append(year_str(d.year).as_str());
    s.append(" ");
    s.append(pad2_str(d.hour).as_str());
    s.append(":");
    s.append(pad2_str(d.minute).as_str());
    s.append(":");
    s.append(pad2_str(d.second).as_str());
    s.append(" GMT");
    assert(s@ =~= spec_date_line(*d));
    s
}

} // verus!
