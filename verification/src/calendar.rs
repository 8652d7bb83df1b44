//! Validated calendar values: dates and timestamps of the proleptic
//! Gregorian calendar, together with the day-of-year arithmetic that the
//! progress computation rests on.

use vstd::prelude::*;

verus! {

/// Years outside this range are not representable in this calendar;
/// construction fails on them rather than clamping.
pub const MIN_YEAR: i32 = 0;

/// Upper bound of the representable year range.
pub const MAX_YEAR: i32 = 9999;

/// A year is representable when it lies in `[MIN_YEAR, MAX_YEAR]`.
pub open spec fn spec_valid_year(y: int) -> bool {
    MIN_YEAR <= y <= MAX_YEAR
}

/// Gregorian leap-year rule: divisible by 4, except centuries, which must
/// be divisible by 400.
pub open spec fn spec_is_leap_year(y: int) -> bool {
    (y % 4 == 0 && y % 100 != 0) || y % 400 == 0
}

/// Whether `year` is a leap year.
pub fn is_leap_year(year: i32) -> (r: bool)
    requires
        spec_valid_year(year as int),
    ensures
        r == spec_is_leap_year(year as int),
{
    (year % 4 == 0 && year % 100 != 0) || year % 400 == 0
}

/// Length in days of month `m` of year `y`.
pub open spec fn spec_days_in_month(y: int, m: int) -> int
    recommends
        1 <= m <= 12,
{
    if m == 2 {
        if spec_is_leap_year(y) {
            29
        } else {
            28
        }
    } else if m == 4 || m == 6 || m == 9 || m == 11 {
        30
    } else {
        31
    }
}

/// Number of days in year `y` before the first day of month `m`; the sum
/// of the lengths of months `1 .. m`.
pub open spec fn spec_days_before_month(y: int, m: int) -> int
    recommends
        1 <= m <= 13,
    decreases m,
{
    if m <= 1 {
        0
    } else {
        spec_days_before_month(y, m - 1) + spec_days_in_month(y, m - 1)
    }
}

/// Ordinal of the day `(y, m, d)` within year `y`, counted from 1 for
/// January 1.
pub open spec fn spec_day_of_year(y: int, m: int, d: int) -> int
    recommends
        spec_valid_date(y, m, d),
{
    spec_days_before_month(y, m) + d
}

/// Number of days in year `y`.
pub open spec fn spec_days_in_year(y: int) -> int {
    if spec_is_leap_year(y) {
        366
    } else {
        365
    }
}

/// A `(y, m, d)` triple names a day of the proleptic Gregorian calendar:
/// representable year, month in `[1, 12]`, day in `[1, length of month]`.
pub open spec fn spec_valid_date(y: int, m: int, d: int) -> bool {
    &&& spec_valid_year(y)
    &&& 1 <= m <= 12
    &&& 1 <= d <= spec_days_in_month(y, m)
}

/// Month lengths are between 28 and 31 days.
pub proof fn lemma_days_in_month_bounds(y: int, m: int)
    ensures
        28 <= spec_days_in_month(y, m) <= 31,
{
}

/// The day count before a month grows with the month, by at least 28 and
/// at most 31 days per month stepped over.
pub proof fn lemma_days_before_month_bounds(y: int, m: int)
    requires
        1 <= m <= 13,
    ensures
        28 * (m - 1) <= spec_days_before_month(y, m) <= 31 * (m - 1),
    decreases m,
{
    if m > 1 {
        lemma_days_before_month_bounds(y, m - 1);
    }
}

/// Later months have at least as many days before them; stepping past
/// month `m1` accounts for that month's full length.
pub proof fn lemma_days_before_month_monotonic(y: int, m1: int, m2: int)
    requires
        1 <= m1 <= m2 <= 13,
    ensures
        spec_days_before_month(y, m1) <= spec_days_before_month(y, m2),
        m1 < m2 ==> spec_days_before_month(y, m1) + spec_days_in_month(y, m1)
            <= spec_days_before_month(y, m2),
    decreases m2,
{
    if m1 < m2 {
        lemma_days_before_month_monotonic(y, m1, m2 - 1);
    }
}

/// The months of a year sum to its length: the day count before a
/// notional thirteenth month is the number of days in the year.
pub proof fn lemma_days_before_month_full_year(y: int)
    ensures
        spec_days_before_month(y, 13) == spec_days_in_year(y),
{
    reveal_with_fuel(spec_days_before_month, 14);
}

/// The day-of-year ordinal of a valid date lies in `[1, days in year]`.
pub proof fn lemma_day_of_year_bounds(y: int, m: int, d: int)
    requires
        spec_valid_date(y, m, d),
    ensures
        1 <= spec_day_of_year(y, m, d) <= spec_days_in_year(y),
{
    lemma_days_before_month_bounds(y, m);
    lemma_days_before_month_monotonic(y, m, 13);
    lemma_days_before_month_full_year(y);
}

/// Length in days of month `month` of year `year`.
pub fn days_in_month(year: i32, month: u8) -> (r: u8)
    requires
        spec_valid_year(year as int),
        1 <= month <= 12,
    ensures
        r == spec_days_in_month(year as int, month as int),
{
    if month == 2 {
        if is_leap_year(year) {
            29
        } else {
            28
        }
    } else if month == 4 || month == 6 || month == 9 || month == 11 {
        30
    } else {
        31
    }
}

/// Ordinal of the given day within its year, counted from 1 for January 1.
pub fn day_of_year(year: i32, month: u8, day: u8) -> (r: u32)
    requires
        spec_valid_date(year as int, month as int, day as int),
    ensures
        r == spec_day_of_year(year as int, month as int, day as int),
        1 <= r <= spec_days_in_year(year as int),
{
    let mut m: u8 = 1;
    let mut before: u32 = 0;
    while m < month
        invariant
            spec_valid_date(year as int, month as int, day as int),
            1 <= m <= month,
            before == spec_days_before_month(year as int, m as int),
            before <= 31 * (m - 1),
        decreases month - m,
    {
        proof {
            lemma_days_in_month_bounds(year as int, m as int);
        }
        before = before + days_in_month(year, m) as u32;
        m = m + 1;
    }
    proof {
        lemma_day_of_year_bounds(year as int, month as int, day as int);
    }
    before + day as u32
}

/// A validated `(year, month, day)` triple of the proleptic Gregorian
/// calendar. Only ever constructed from valid combinations: construction
/// from an invalid combination fails rather than clamping or wrapping.
#[derive(Clone, Copy, Debug, PartialEq, Eq, Structural)]
pub struct CalendarDate {
    pub year: i32,
    pub month: u8,
    pub day: u8,
}

impl CalendarDate {
    /// The date is a valid calendar day.
    pub open spec fn wf(self) -> bool {
        spec_valid_date(self.year as int, self.month as int, self.day as int)
    }

    /// Construct the date `(year, month, day)`, failing on any combination
    /// that is not a valid calendar day.
    pub fn new(year: i32, month: u8, day: u8) -> (r: Option<CalendarDate>)
        ensures
            r is Some <==> spec_valid_date(year as int, month as int, day as int),
            r == (if spec_valid_date(year as int, month as int, day as int) {
                Some((CalendarDate { year, month, day }))
            } else {
                None::<CalendarDate>
            }),
            r matches Some(date) ==> date.wf(),
    {
        if MIN_YEAR <= year && year <= MAX_YEAR && 1 <= month && month <= 12 {
            let limit: u8 = days_in_month(year, month);
            if 1 <= day && day <= limit {
                Some(CalendarDate { year, month, day })
            } else {
                None
            }
        } else {
            None
        }
    }
}

/// A timestamp with calendar-date and time-of-day resolution, anchored to
/// a single fixed reference timezone. Immutable once obtained.
#[derive(Clone, Copy, Debug, PartialEq, Eq, Structural)]
pub struct Instant {
    pub date: CalendarDate,
    pub hour: u8,
    pub minute: u8,
    pub second: u8,
}

/// A time of day has hour in `[0, 23]`, minute in `[0, 59]` and second in
/// `[0, 59]`.
pub open spec fn spec_valid_time(h: int, mi: int, s: int) -> bool {
    &&& 0 <= h <= 23
    &&& 0 <= mi <= 59
    &&& 0 <= s <= 59
}

impl Instant {
    /// The date is valid and the time of day is in range.
    pub open spec fn wf(self) -> bool {
        &&& self.date.wf()
        &&& spec_valid_time(self.hour as int, self.minute as int, self.second as int)
    }

    /// Construct the timestamp for the given date and time of day, failing
    /// on any invalid combination rather than normalizing it.
    pub fn new(year: i32, month: u8, day: u8, hour: u8, minute: u8, second: u8) -> (r: Option<
        Instant,
    >)
        ensures
            r is Some <==> spec_valid_date(year as int, month as int, day as int)
                && spec_valid_time(hour as int, minute as int, second as int),
            r matches Some(i) ==> i == (Instant {
                date: CalendarDate { year, month, day },
                hour,
                minute,
                second,
            }),
            r matches Some(i) ==> i.wf(),
    {
        match CalendarDate::new(year, month, day) {
            Some(date) => {
                if hour <= 23 && minute <= 59 && second <= 59 {
                    Some(Instant { date, hour, minute, second })
                } else {
                    None
                }
            },
            None => None,
        }
    }
}

} // verus!
