use vstd::prelude::*;

use crate::dispatch::{decimal, decimal_text};

verus! {

/// Gregorian leap years.
pub open spec fn is_leap(y: int) -> bool {
    (y % 4 == 0 && y % 100 != 0) || y % 400 == 0
}

pub open spec fn year_days(y: int) -> int {
    if is_leap(y) {
        366
    } else {
        365
    }
}

/// The length of month `m` (1 to 12) of year `y`.
pub open spec fn month_days(y: int, m: int) -> int {
    if m == 2 {
        if is_leap(y) {
            29
        } else {
            28
        }
    } else if m == 4 || m == 6 || m == 9 || m == 11 {
        30
    } else {
        31
    }
}

/// Days from 1970-01-01 to the first day of year `y`.
pub open spec fn days_before_year(y: int) -> int
    decreases y - 1970,
{
    if y <= 1970 {
        0
    } else {
        days_before_year(y - 1) + year_days(y - 1)
    }
}

/// Days from the first of the year to the first of month `m`.
pub open spec fn days_before_month(y: int, m: int) -> int
    decreases m,
{
    if m <= 1 {
        0
    } else {
        days_before_month(y, m - 1) + month_days(y, m - 1)
    }
}

/// A UTC instant broken into calendar fields.
#[derive(Clone, Copy, Debug, PartialEq, Eq, Structural)]
pub struct UtcTime {
    pub year: u64,
    pub month: u64,
    pub day: u64,
    pub hour: u64,
    pub minute: u64,
    pub second: u64,
    pub nanos: u32,
}

impl UtcTime {
    /// Each field lies in its range, and the day in its month.
    pub open spec fn valid(&self) -> bool {
        &&& self.year >= 1970
        &&& 1 <= self.month <= 12
        &&& 1 <= self.day <= month_days(self.year as int, self.month as int)
        &&& self.hour < 24
        &&& self.minute < 60
        &&& self.second < 60
        &&& self.nanos < 1_000_000_000
    }

    /// Whole seconds since 1970-01-01T00:00:00Z.
    pub open spec fn epoch_seconds(&self) -> int {
        (days_before_year(self.year as int) + days_before_month(self.year as int, self.month as int)
            + self.day - 1) * 86400 + self.hour * 3600 + self.minute * 60 + self.second
    }
}

fn leap_year(y: u64) -> (r: bool)
    ensures
        r == is_leap(y as int),
{
    (y % 4 == 0 && y % 100 != 0) || y % 400 == 0
}

fn year_length(y: u64) -> (r: u64)
    ensures
        r == year_days(y as int),
{
    if leap_year(y) {
        366
    } else {
        365
    }
}

fn month_length(y: u64, m: u64) -> (r: u64)
    ensures
        r == month_days(y as int, m as int),
{
    if m == 2 {
        if leap_year(y) {
            29
        } else {
            28
        }
    } else if m == 4 || m == 6 || m == 9 || m == 11 {
        30
    } else {
        31
    }
}

/// The calendar fields of an instant given as seconds and nanoseconds since
/// 1970-01-01T00:00:00Z.
pub fn utc_time(secs: u64, nanos: u32) -> (r: UtcTime)
    requires
        nanos < 1_000_000_000,
    ensures
        r.valid(),
        r.epoch_seconds() == secs,
        r.nanos == nanos,
{
    let total: u64 = secs / 86400;
    let rem: u64 = secs % 86400;
    let mut days: u64 = total;
    let mut y: u64 = 1970;
    while days >= year_length(y)
        invariant
            days + days_before_year(y as int) == total,
            1970 <= y <= 1970 + (total - days),
            total <= u64::MAX / 86400,
        decreases days,
    {
        days = days - year_length(y);
        y = y + 1;
    }
    proof {
        reveal_with_fuel(days_before_month, 13);
    }
    assert(days_before_month(y as int, 13) == year_days(y as int));
    let mut m: u64 = 1;
    while days >= month_length(y, m)
        invariant
            1 <= m <= 12,
            days + days_before_month(y as int, m as int) < year_days(y as int),
            days + days_before_month(y as int, m as int) + days_before_year(y as int) == total,
            days_before_month(y as int, 13) == year_days(y as int),
        decreases days,
    {
        days = days - month_length(y, m);
        m = m + 1;
        if m == 13 {
            assert(false);
        }
    }
    UtcTime {
        year: y,
        month: m,
        day: days + 1,
        hour: rem / 3600,
        minute: (rem % 3600) / 60,
        second: rem % 60,
        nanos,
    }
}

/// `n` in decimal, led by zeros up to `width` digits.
pub open spec fn padded(n: nat, width: nat) -> Seq<char> {
    if decimal(n).len() < width {
        Seq::new((width - decimal(n).len()) as nat, |i: int| '0') + decimal(n)
    } else {
        decimal(n)
    }
}

/// `n` in decimal, led by zeros up to `width` digits.
pub fn padded_text(n: u64, width: usize) -> (r: String)
    ensures
        r@ == padded(n as nat, width as nat),
{
    let digits = decimal_text(n);
    let len = digits.as_str().unicode_len();
    if len >= width {
        return digits;
    }
    let mut zeros = String::new();
    let mut k: usize = 0;
    while k < width - len
        invariant
            k <= width - len,
            zeros@ == Seq::new(k as nat, |i: int| '0'),
        decreases width - len - k,
    {
        proof {
            reveal_strlit("0");
        }
        zeros = zeros.concat("0");
        k = k + 1;
        assert(zeros@ =~= Seq::new(k as nat, |i: int| '0'));
    }
    zeros.concat(digits.as_str())
}

/// The timestamp that names a message file: `YYYY-MM-DDTHH:MM:SS.nnnnnnnnnZ`.
pub open spec fn timestamp_of(t: UtcTime) -> Seq<char> {
    padded(t.year as nat, 4) + "-"@ + padded(t.month as nat, 2) + "-"@ + padded(t.day as nat, 2)
        + "T"@ + padded(t.hour as nat, 2) + ":"@ + padded(t.minute as nat, 2) + ":"@ + padded(
        t.second as nat,
        2,
    ) + "."@ + padded(t.nanos as nat, 9) + "Z"@
}

/// Renders an instant as its timestamp.
pub fn timestamp_text(t: &UtcTime) -> (r: String)
    ensures
        r@ == timestamp_of(*t),
{
    let year = padded_text(t.year, 4);
    let month = padded_text(t.month, 2);
    let day = padded_text(t.day, 2);
    let hour = padded_text(t.hour, 2);
    let minute = padded_text(t.minute, 2);
    let second = padded_text(t.second, 2);
    let nanos = padded_text(t.nanos as u64, 9);
    year.concat("-").concat(month.as_str()).concat("-").concat(day.as_str()).concat("T").concat(
        hour.as_str(),
    ).concat(":").concat(minute.as_str()).concat(":").concat(second.as_str()).concat(".").concat(
        nanos.as_str(),
    ).concat("Z")
}

} // verus!
