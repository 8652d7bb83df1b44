use year_progress::calendar::CalendarDate;
use year_progress::calendar::Instant;
use year_progress::calendar::day_of_year;
use year_progress::calendar::days_in_month;
use year_progress::calendar::is_leap_year;
use year_progress::progress::ProgressRatio;
use year_progress::progress::YearProgress;

fn percent(r: ProgressRatio) -> f64 {
    (r.elapsed_seconds as f64) / (r.total_seconds as f64) * 100.0
}

#[test]
fn invalid_date() {
    assert!(matches!(Instant::new(2022, 13, 32, 25, 60, 61), None));
}

#[test]
fn past_year_progress() {
    let instant = Instant::new(2022, 12, 31, 0, 0, 0).unwrap();
    let year_progress = YearProgress::new(instant)
        .progress()
        .expect("a valid progress value");

    assert_eq!(percent(year_progress), 100.00);
}

#[test]
fn future_year_progress() {
    let instant = Instant::new(2030, 1, 1, 0, 0, 0).unwrap();
    let year_progress = YearProgress::new(instant)
        .progress()
        .expect("a valid progress value");

    assert_eq!(percent(year_progress), 0.00);
}

#[test]
fn leap_year_duration() {
    let leap = Instant::new(2024, 6, 1, 0, 0, 0).unwrap();
    let seconds = YearProgress::new(leap).year_duration().unwrap();
    assert_eq!(seconds, 366 * 86400 - 86400);

    let common = Instant::new(2023, 6, 1, 0, 0, 0).unwrap();
    let seconds = YearProgress::new(common).year_duration().unwrap();
    assert_eq!(seconds, 364 * 86400);
}

#[test]
fn leap_year_endpoint() {
    let instant = Instant::new(2024, 12, 31, 23, 59, 59).unwrap();
    let ratio = YearProgress::new(instant).progress().unwrap();
    assert_eq!(ratio.elapsed_seconds, ratio.total_seconds);
    assert_eq!(percent(ratio), 100.00);
}

#[test]
fn elapsed_duration_mid_year() {
    let instant = Instant::new(2023, 7, 2, 15, 30, 45).unwrap();
    let elapsed = YearProgress::new(instant).elapsed_duration().unwrap();
    assert_eq!(elapsed, 182 * 86400);
}

#[test]
fn progress_monotonic_through_year() {
    let spring = Instant::new(2023, 3, 1, 0, 0, 0).unwrap();
    let summer = Instant::new(2023, 7, 4, 0, 0, 0).unwrap();
    let winter = Instant::new(2023, 12, 31, 0, 0, 0).unwrap();
    let a = YearProgress::new(spring).progress().unwrap();
    let b = YearProgress::new(summer).progress().unwrap();
    let c = YearProgress::new(winter).progress().unwrap();
    assert_eq!(a.total_seconds, b.total_seconds);
    assert_eq!(b.total_seconds, c.total_seconds);
    assert!(a.elapsed_seconds <= b.elapsed_seconds);
    assert!(b.elapsed_seconds <= c.elapsed_seconds);
    assert!(percent(a) <= percent(b));
    assert!(percent(b) <= percent(c));
}

#[test]
fn progress_idempotent() {
    let instant = Instant::new(2026, 10, 12, 9, 0, 0).unwrap();
    let calculator = YearProgress::new(instant);
    let first = calculator.progress();
    let second = calculator.progress();
    assert_eq!(first, second);
}

#[test]
fn time_of_day_does_not_change_progress() {
    let morning = Instant::new(2025, 8, 9, 0, 0, 1).unwrap();
    let evening = Instant::new(2025, 8, 9, 23, 59, 59).unwrap();
    let a = YearProgress::new(morning).progress().unwrap();
    let b = YearProgress::new(evening).progress().unwrap();
    assert_eq!(a, b);
}

#[test]
fn rejects_month_thirteen() {
    assert!(matches!(CalendarDate::new(2022, 13, 1), None));
}

#[test]
fn rejects_day_thirty_two() {
    assert!(matches!(CalendarDate::new(2022, 1, 32), None));
}

#[test]
fn rejects_month_and_day_zero() {
    assert!(matches!(CalendarDate::new(2022, 0, 1), None));
    assert!(matches!(CalendarDate::new(2022, 1, 0), None));
}

#[test]
fn rejects_invalid_time_of_day() {
    assert!(matches!(Instant::new(2022, 6, 15, 24, 0, 0), None));
    assert!(matches!(Instant::new(2022, 6, 15, 0, 60, 0), None));
    assert!(matches!(Instant::new(2022, 6, 15, 0, 0, 60), None));
}

#[test]
fn rejects_year_out_of_range() {
    assert!(matches!(CalendarDate::new(-1, 6, 15), None));
    assert!(matches!(CalendarDate::new(10000, 6, 15), None));
    assert!(matches!(CalendarDate::new(9999, 12, 31), Some(_)));
    assert!(matches!(CalendarDate::new(0, 1, 1), Some(_)));
}

#[test]
fn february_twenty_ninth() {
    assert!(matches!(CalendarDate::new(2024, 2, 29), Some(_)));
    assert!(matches!(CalendarDate::new(2023, 2, 29), None));
    assert!(matches!(CalendarDate::new(1900, 2, 29), None));
    assert!(matches!(CalendarDate::new(2000, 2, 29), Some(_)));
}

#[test]
fn accepted_date_keeps_its_fields() {
    let date = CalendarDate::new(2024, 2, 29).unwrap();
    assert_eq!(date.year, 2024);
    assert_eq!(date.month, 2);
    assert_eq!(date.day, 29);
}

#[test]
fn leap_year_rule() {
    assert!(is_leap_year(2024));
    assert!(!is_leap_year(2023));
    assert!(!is_leap_year(1900));
    assert!(is_leap_year(2000));
}

#[test]
fn month_lengths() {
    assert_eq!(days_in_month(2024, 2), 29);
    assert_eq!(days_in_month(2023, 2), 28);
    assert_eq!(days_in_month(2023, 4), 30);
    assert_eq!(days_in_month(2023, 1), 31);
    assert_eq!(days_in_month(2023, 12), 31);
}

#[test]
fn day_of_year_ordinals() {
    assert_eq!(day_of_year(2023, 1, 1), 1);
    assert_eq!(day_of_year(2023, 3, 1), 60);
    assert_eq!(day_of_year(2024, 3, 1), 61);
    assert_eq!(day_of_year(2023, 12, 31), 365);
    assert_eq!(day_of_year(2024, 12, 31), 366);
}

#[test]
fn year_boundaries_of_the_instant_year() {
    let instant = Instant::new(2026, 5, 4, 3, 2, 1).unwrap();
    let calculator = YearProgress::new(instant);
    let start = calculator.year_start().unwrap();
    let end = calculator.year_end().unwrap();
    assert_eq!(start, CalendarDate::new(2026, 1, 1).unwrap());
    assert_eq!(end, CalendarDate::new(2026, 12, 31).unwrap());
}
