//! Time stamps for the head of a diff: a count of seconds since the start of
//! 1970, written as a calendar date and a time of day in UTC.

use vstd::prelude::*;
use crate::bytes::{decimal, append_bytes, append_decimal};

verus! {

/// The seconds of a day.
pub const DAY_SECONDS: u64 = 86400;

/// Whether the year `y` is a leap year.
pub open spec fn is_leap(y: int) -> bool {
    y % 4 == 0 && (y % 100 != 0 || y % 400 == 0)
}

/// The number of days of the year `y`.
pub open spec fn year_days(y: int) -> int {
    if is_leap(y) {
        366
    } else {
        365
    }
}

/// The number of days of month `m` of the year `y`.
pub open spec fn month_days(y: int, m: int) -> int {
    if m == 2 {
        if is_leap(y) {
            29
        } else {
            28
        }
    } else if m == 4 || m == 6 || m == 9 || m == 11 {
        30
    } else {
        31
    }
}

/// The number of days from the start of 1970 to the start of the year `y`.
pub open spec fn days_to_year(y: int) -> int
    decreases y - 1970,
{
    if y <= 1970 {
        0
    } else {
        days_to_year(y - 1) + year_days(y - 1)
    }
}

/// The number of days from the start of the year `y` to the start of its
/// month `m`.
pub open spec fn days_to_month(y: int, m: int) -> int
    decreases m,
{
    if m <= 1 {
        0
    } else {
        days_to_month(y, m - 1) + month_days(y, m - 1)
    }
}

/// A day of the calendar.
#[derive(Clone, Copy, Debug)]
pub struct CivilDate {
    pub year: u64,
    pub month: u8,
    pub day: u8,
}

impl CivilDate {
    /// The date is one of the calendar, not before 1970.
    pub open spec fn wf(&self) -> bool {
        &&& self.year >= 1970
        &&& 1 <= self.month <= 12
        &&& 1 <= self.day <= month_days(self.year as int, self.month as int)
    }

    /// The number of days from the start of 1970 to this day.
    pub open spec fn days(&self) -> int {
        days_to_year(self.year as int) + days_to_month(self.year as int, self.month as int)
            + self.day - 1
    }
}

/// Whether the year `y` is a leap year.
pub fn leap_year(y: u64) -> (r: bool)
    ensures
        r == is_leap(y as int),
{
    y % 4 == 0 && (y % 100 != 0 || y % 400 == 0)
}

/// The number of days of month `m` of the year `y`.
pub fn days_in_month(y: u64, m: u8) -> (r: u64)
    ensures
        r == month_days(y as int, m as int),
{
    if m == 2 {
        if leap_year(y) {
            29
        } else {
            28
        }
    } else if m == 4 || m == 6 || m == 9 || m == 11 {
        30
    } else {
        31
    }
}

/// The start of a year is at least 365 days after the start of the year
/// before it.
pub proof fn lemma_days_to_year_grows(y: int)
    requires
        y >= 1970,
    ensures
        days_to_year(y) >= 365 * (y - 1970),
    decreases y - 1970,
{
    if y > 1970 {
        lemma_days_to_year_grows(y - 1);
    }
}

/// The number of leap years from the year 1 up to, not including, the year `y`.
pub open spec fn leaps_before(y: int) -> int {
    (y - 1) / 4 - (y - 1) / 100 + (y - 1) / 400
}

/// The days up to the start of a year are 365 for each year since 1970 and one
/// more for each leap year among them.
pub proof fn lemma_days_to_year_closed(y: int)
    requires
        y >= 1970,
    ensures
        days_to_year(y) == 365 * (y - 1970) + leaps_before(y) - leaps_before(1970),
    decreases y - 1970,
{
    if y > 1970 {
        lemma_days_to_year_closed(y - 1);
    }
}

/// The days of four hundred years, after which the calendar repeats.
pub const CYCLE_DAYS: u64 = 146097;

/// The day of the calendar that lies `days` days after the first of January
/// 1970.
pub fn civil_date(days: u64) -> (r: CivilDate)
    ensures
        r.wf(),
        r.days() == days,
{
    let cycles: u64 = days / CYCLE_DAYS;
    let mut year: u64 = 1970 + 400 * cycles;
    let mut rest: u64 = days % CYCLE_DAYS;
    proof {
        lemma_days_to_year_closed(year as int);
    }
    loop
        invariant
            year >= 1970,
            days_to_year(year as int) + rest == days,
        ensures
            rest < year_days(year as int),
        decreases rest,
    {
        proof {
            lemma_days_to_year_grows(year as int);
        }
        let in_year: u64 = if leap_year(year) {
            366
        } else {
            365
        };
        if rest < in_year {
            break ;
        }
        rest = rest - in_year;
        year = year + 1;
    }
    let mut month: u8 = 1;
    while month < 12 && rest >= days_in_month(year, month)
        invariant
            1 <= month <= 12,
            rest < year_days(year as int),
            days_to_year(year as int) + days_to_month(year as int, month as int) + rest == days,
            days_to_month(year as int, month as int) + rest < year_days(year as int),
        decreases 12 - month,
    {
        rest = rest - days_in_month(year, month);
        month = month + 1;
    }
    proof {
        if month == 12 {
            reveal_with_fuel(days_to_month, 13);
            assert(days_to_month(year as int, 12) == year_days(year as int) - 31);
        }
    }
    CivilDate { year: year, month: month, day: (rest + 1) as u8 }
}

/// `n` zeros.
pub open spec fn zeros(n: nat) -> Seq<u8> {
    Seq::new(n, |i: int| 48u8)
}

/// `n` in decimal, with zeros before it up to `width` digits.
pub open spec fn padded(n: nat, width: nat) -> Seq<u8> {
    if decimal(n).len() >= width {
        decimal(n)
    } else {
        zeros((width - decimal(n).len()) as nat) + decimal(n)
    }
}

/// Appends `n` in decimal to `out`, with zeros before it up to `width` digits.
pub fn append_padded(out: &mut Vec<u8>, n: u64, width: usize)
    ensures
        final(out)@ == old(out)@ + padded(n as nat, width as nat),
{
    let mut digits: Vec<u8> = Vec::new();
    append_decimal(&mut digits, n);
    let have: usize = digits.len();
    let mut i: usize = have;
    assert(out@ =~= old(out)@ + zeros(0));
    while i < width
        invariant
            have <= i,
            have == digits@.len(),
            digits@ == decimal(n as nat),
            i <= width || i == have,
            out@ == old(out)@ + zeros((i - have) as nat),
        decreases width - i,
    {
        out.push(48);
        i += 1;
        assert(out@ =~= old(out)@ + zeros((i - have) as nat));
    }
    append_bytes(out, digits.as_slice());
    assert(out@ =~= old(out)@ + padded(n as nat, width as nat));
}

/// The text of a time stamp: `YYYY-MM-DD HH:MM:SS`.
pub open spec fn stamp_text(date: CivilDate, second_of_day: nat) -> Seq<u8> {
    padded(date.year as nat, 4) + seq![45u8] + padded(date.month as nat, 2) + seq![45u8] + padded(
        date.day as nat,
        2,
    ) + seq![32u8] + padded(second_of_day / 3600, 2) + seq![58u8] + padded(
        second_of_day % 3600 / 60,
        2,
    ) + seq![58u8] + padded(second_of_day % 60, 2)
}

/// The time stamp of the moment `seconds` seconds after the start of 1970, in
/// UTC: the date of its day and the time within that day.
pub fn format_stamp(seconds: u64) -> (r: Vec<u8>)
    ensures
        exists|date: CivilDate|
            date.wf() && date.days() == seconds / DAY_SECONDS && r@ == #[trigger] stamp_text(
                date,
                (seconds % DAY_SECONDS) as nat,
            ),
{
    let date = civil_date(seconds / DAY_SECONDS);
    let of_day: u64 = seconds % DAY_SECONDS;
    let mut r: Vec<u8> = Vec::new();
    append_padded(&mut r, date.year, 4);
    r.push(45);
    append_padded(&mut r, date.month as u64, 2);
    r.push(45);
    append_padded(&mut r, date.day as u64, 2);
    r.push(32);
    append_padded(&mut r, of_day / 3600, 2);
    r.push(58);
    append_padded(&mut r, of_day % 3600 / 60, 2);
    r.push(58);
    append_padded(&mut r, of_day % 60, 2);
    assert(r@ =~= stamp_text(date, of_day as nat));
    r
}

} // verus!
