//! The year-progress computation: from a timestamp to the ratio of the
//! year that has elapsed, as an exact pair of second counts.

use vstd::prelude::*;

use crate::calendar::CalendarDate;
use crate::calendar::Instant;
use crate::calendar::day_of_year;
use crate::calendar::lemma_day_of_year_bounds;
use crate::calendar::lemma_days_before_month_full_year;
use crate::calendar::lemma_days_before_month_monotonic;
use crate::calendar::spec_day_of_year;
use crate::calendar::spec_days_in_year;

verus! {

/// Number of seconds in one calendar day.
pub const SECONDS_PER_DAY: u64 = 86400;

/// Seconds from January 1 of year `y` up to December 31 of year `y`: the
/// span between the year's two calendar boundaries, measured in whole
/// seconds (364 full days for a common year, 365 for a leap year).
pub open spec fn spec_year_duration_seconds(y: int) -> int {
    (spec_day_of_year(y, 12, 31) - spec_day_of_year(y, 1, 1)) * SECONDS_PER_DAY
}

/// Seconds from January 1 of year `y` up to the calendar date `(y, m, d)`.
/// The time of day plays no part: elapsed time is measured by whole
/// calendar days, so two timestamps on the same date yield the same count.
pub open spec fn spec_elapsed_seconds(y: int, m: int, d: int) -> int {
    (spec_day_of_year(y, m, d) - spec_day_of_year(y, 1, 1)) * SECONDS_PER_DAY
}

/// The elapsed-over-total ratio, as exact second counts: numerator the
/// seconds elapsed since the year began, denominator the seconds in the
/// whole year span. Nothing bounds the quotient to `[0, 1]` downstream;
/// consumers divide these counts themselves.
#[derive(Clone, Copy, Debug, PartialEq, Eq, Structural)]
pub struct ProgressRatio {
    pub elapsed_seconds: u64,
    pub total_seconds: u64,
}

impl ProgressRatio {
    /// The denominator covers at least 364 full days, so a quotient is
    /// always defined.
    pub open spec fn wf(self) -> bool {
        self.total_seconds >= 364 * SECONDS_PER_DAY
    }
}

/// Computes how far through its containing year a timestamp falls.
pub struct YearProgress {
    pub instant: Instant,
}

/// The ratio that `progress` yields for a timestamp: defined for every
/// valid timestamp, undefined (no value) otherwise.
pub open spec fn spec_progress(i: Instant) -> Option<ProgressRatio> {
    if i.wf() {
        Some(ProgressRatio {
            elapsed_seconds: spec_elapsed_seconds(
                i.date.year as int,
                i.date.month as int,
                i.date.day as int,
            ) as u64,
            total_seconds: spec_year_duration_seconds(i.date.year as int) as u64,
        })
    } else {
        None
    }
}

/// Endpoint law: for a timestamp dated December 31 of its year, the
/// elapsed span equals the total span, so the ratio is exactly one
/// (100 percent). The time of day plays no part in the ratio.
pub proof fn lemma_year_end_full_progress(i: Instant)
    requires
        i.wf(),
        i.date.month == 12,
        i.date.day == 31,
    ensures
        (spec_progress(i) matches Some(ratio) && ratio.elapsed_seconds == ratio.total_seconds),
{
    lemma_days_before_month_full_year(i.date.year as int);
}

/// Start-of-year law: for a timestamp dated January 1, no time has elapsed
/// in its year, so the ratio is exactly zero.
pub proof fn lemma_year_start_zero_progress(i: Instant)
    requires
        i.wf(),
        i.date.month == 1,
        i.date.day == 1,
    ensures
        (spec_progress(i) matches Some(ratio) && ratio.elapsed_seconds == 0),
{
}

/// Monotonicity law: within one year, as the timestamp's date advances the
/// ratio never decreases — the denominator stays the year's span and the
/// numerator never shrinks.
pub proof fn lemma_progress_monotonic(i1: Instant, i2: Instant)
    requires
        i1.wf(),
        i2.wf(),
        i1.date.year == i2.date.year,
        i1.date.month < i2.date.month || (i1.date.month == i2.date.month && i1.date.day
            <= i2.date.day),
    ensures
        ({
            &&& spec_progress(i1) matches Some(r1)
            &&& spec_progress(i2) matches Some(r2)
            &&& r1.total_seconds == r2.total_seconds
            &&& r1.elapsed_seconds <= r2.elapsed_seconds
        }),
{
    let y = i1.date.year as int;
    let m1 = i1.date.month as int;
    let d1 = i1.date.day as int;
    let m2 = i2.date.month as int;
    let d2 = i2.date.day as int;
    lemma_day_of_year_bounds(y, m1, d1);
    lemma_day_of_year_bounds(y, m2, d2);
    if m1 < m2 {
        lemma_days_before_month_monotonic(y, m1, m2);
    }
    assert(spec_day_of_year(y, m1, d1) <= spec_day_of_year(y, m2, d2));
}

impl YearProgress {
    /// The stored timestamp is valid.
    pub open spec fn wf(self) -> bool {
        self.instant.wf()
    }

    /// The year the stored timestamp falls in, derived on demand.
    pub open spec fn spec_year(self) -> int {
        self.instant.date.year as int
    }

    /// Wrap a timestamp; the year under consideration is the timestamp's own.
    pub fn new(instant: Instant) -> (r: YearProgress)
        ensures
            r.instant == instant,
    {
        YearProgress { instant }
    }

    /// January 1 of the timestamp's year; fails only for a year outside
    /// the representable range, which validity of the timestamp rules out.
    pub fn year_start(&self) -> (r: Option<CalendarDate>)
        requires
            self.wf(),
        ensures
            r == Some(
                (CalendarDate { year: self.instant.date.year, month: 1, day: 1 }),
            ),
    {
        CalendarDate::new(self.instant.date.year, 1, 1)
    }

    /// December 31 of the timestamp's year; fails only for a year outside
    /// the representable range, which validity of the timestamp rules out.
    pub fn year_end(&self) -> (r: Option<CalendarDate>)
        requires
            self.wf(),
        ensures
            r == Some(
                (CalendarDate { year: self.instant.date.year, month: 12, day: 31 }),
            ),
    {
        CalendarDate::new(self.instant.date.year, 12, 31)
    }

    /// Seconds between the year's two boundaries, December 31 minus
    /// January 1, computed from the boundaries themselves so that leap
    /// years come out longer without special-casing.
    pub fn year_duration(&self) -> (r: Option<u64>)
        requires
            self.wf(),
        ensures
            r == Some((spec_year_duration_seconds(self.spec_year()) as u64)),
            364 * SECONDS_PER_DAY <= spec_year_duration_seconds(self.spec_year()) <= 365
                * SECONDS_PER_DAY,
    {
        match (self.year_start(), self.year_end()) {
            (Some(start), Some(end)) => {
                proof {
                    lemma_days_before_month_full_year(self.spec_year());
                    assert(spec_day_of_year(self.spec_year(), 12, 31) == spec_days_in_year(
                        self.spec_year(),
                    ));
                }
                let start_day: u32 = day_of_year(start.year, start.month, start.day);
                let end_day: u32 = day_of_year(end.year, end.month, end.day);
                Some((end_day - start_day) as u64 * SECONDS_PER_DAY)
            },
            _ => None,
        }
    }

    /// Seconds from the start of the timestamp's year up to its calendar
    /// date. The time of day is discarded: elapsed time has whole-day
    /// granularity, by design.
    pub fn elapsed_duration(&self) -> (r: Option<u64>)
        requires
            self.wf(),
        ensures
            r == Some(
                (spec_elapsed_seconds(
                    self.spec_year(),
                    self.instant.date.month as int,
                    self.instant.date.day as int,
                ) as u64),
            ),
    {
        match self.year_start() {
            Some(start) => {
                let start_day: u32 = day_of_year(start.year, start.month, start.day);
                let date_day: u32 = day_of_year(
                    self.instant.date.year,
                    self.instant.date.month,
                    self.instant.date.day,
                );
                Some((date_day - start_day) as u64 * SECONDS_PER_DAY)
            },
            None => None,
        }
    }

    /// The elapsed and total second counts for the timestamp's year, whose
    /// quotient is the progress ratio. Succeeds on every valid timestamp;
    /// the result depends on the timestamp alone.
    pub fn progress(&self) -> (r: Option<ProgressRatio>)
        requires
            self.wf(),
        ensures
            r == spec_progress(self.instant),
            r matches Some(ratio) && ratio.wf(),
    {
        match (self.year_duration(), self.elapsed_duration()) {
            (Some(total), Some(elapsed)) => Some(
                ProgressRatio { elapsed_seconds: elapsed, total_seconds: total },
            ),
            _ => None,
        }
    }
}

} // verus!
