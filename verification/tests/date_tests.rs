use dday_todo::date::leap_year;
use dday_todo::date::month_length;
use dday_todo::date::days_until_parsed;
use dday_todo::{calc_days_until, CalendarDate};

fn day(year: i32, month: u32, day: u32) -> CalendarDate {
    CalendarDate::new(year, month, day).expect("a day that exists")
}

#[test]
fn days_until_counts_days_before_the_target() {
    assert_eq!(calc_days_until("2024-01-10", &day(2024, 1, 5)), Some(5));
}

#[test]
fn days_until_is_zero_on_the_day() {
    assert_eq!(calc_days_until("2024-01-10", &day(2024, 1, 10)), Some(0));
}

#[test]
fn days_until_is_negative_after_the_target() {
    assert_eq!(calc_days_until("2024-01-10", &day(2024, 1, 15)), Some(-5));
}

#[test]
fn days_until_rejects_impossible_month_and_day() {
    assert_eq!(calc_days_until("2024-13-40", &day(2024, 1, 5)), None);
}

#[test]
fn days_until_rejects_empty_text() {
    assert_eq!(calc_days_until("", &day(2024, 1, 5)), None);
}

#[test]
fn days_until_rejects_text_that_is_no_date() {
    let today = day(2024, 1, 5);
    assert_eq!(calc_days_until("tomorrow", &today), None);
    assert_eq!(calc_days_until("2024/01/10", &today), None);
    assert_eq!(calc_days_until("2024-01-10 09:00", &today), None);
    assert_eq!(calc_days_until("2024-01", &today), None);
    assert_eq!(calc_days_until("2024-00-10", &today), None);
    assert_eq!(calc_days_until("2024-01-00", &today), None);
}

#[test]
fn days_until_rejects_days_that_do_not_exist() {
    let today = day(2024, 1, 5);
    assert_eq!(calc_days_until("2023-02-29", &today), None);
    assert_eq!(calc_days_until("2024-02-30", &today), None);
    assert_eq!(calc_days_until("2024-04-31", &today), None);
    assert_eq!(calc_days_until("1900-02-29", &today), None);
}

#[test]
fn days_until_crosses_a_leap_day() {
    assert_eq!(calc_days_until("2024-03-01", &day(2024, 2, 28)), Some(2));
    assert_eq!(calc_days_until("2023-03-01", &day(2023, 2, 28)), Some(1));
    assert_eq!(calc_days_until("2000-03-01", &day(2000, 2, 28)), Some(2));
}

#[test]
fn days_until_crosses_years() {
    assert_eq!(calc_days_until("2025-01-01", &day(2024, 12, 31)), Some(1));
    assert_eq!(calc_days_until("2025-01-01", &day(2024, 1, 1)), Some(366));
    assert_eq!(calc_days_until("2024-01-01", &day(2023, 1, 1)), Some(365));
    assert_eq!(calc_days_until("2014-01-01", &day(1614, 1, 1)), Some(365 * 400 + 97));
    assert_eq!(calc_days_until("1614-01-01", &day(2014, 1, 1)), Some(-(365 * 400 + 97)));
}

#[test]
fn days_until_reaches_year_zero_and_before() {
    assert_eq!(calc_days_until("0001-01-01", &day(0, 12, 31)), Some(1));
    assert_eq!(calc_days_until("0000-03-01", &day(0, 2, 28)), Some(2));
    assert_eq!(calc_days_until("0001-01-01", &day(-1, 1, 1)), Some(731));
}

#[test]
fn days_until_reads_shorter_numbers_too() {
    assert_eq!(calc_days_until("2024-1-5", &day(2024, 1, 5)), Some(0));
    assert_eq!(calc_days_until("2024-1-10", &day(2024, 1, 5)), Some(5));
}

#[test]
fn days_until_parsed_follows_the_parsed_date() {
    let today = day(2024, 1, 5);
    assert_eq!(days_until_parsed(Some(day(2024, 1, 8)), &today), Some(3));
    assert_eq!(days_until_parsed(Some(day(2023, 12, 31)), &today), Some(-5));
    assert_eq!(days_until_parsed(None, &today), None);
}

#[test]
fn days_until_spans_the_whole_range_of_years() {
    let first = day(-262143, 1, 1);
    let last = day(262142, 12, 31);
    assert_eq!(days_until_parsed(Some(last), &first), Some(191_491_528));
    assert_eq!(days_until_parsed(Some(first), &last), Some(-191_491_528));
}

#[test]
fn calendar_date_new_accepts_days_that_exist() {
    assert_eq!(
        CalendarDate::new(2024, 2, 29),
        Some(CalendarDate { year: 2024, month: 2, day: 29 })
    );
    assert_eq!(
        CalendarDate::new(2000, 2, 29),
        Some(CalendarDate { year: 2000, month: 2, day: 29 })
    );
    assert_eq!(
        CalendarDate::new(2023, 12, 31),
        Some(CalendarDate { year: 2023, month: 12, day: 31 })
    );
    assert!(CalendarDate::new(-262143, 1, 1).is_some());
    assert!(CalendarDate::new(262142, 12, 31).is_some());
}

#[test]
fn calendar_date_new_refuses_days_that_do_not_exist() {
    assert_eq!(CalendarDate::new(2023, 2, 29), None);
    assert_eq!(CalendarDate::new(1900, 2, 29), None);
    assert_eq!(CalendarDate::new(2024, 4, 31), None);
    assert_eq!(CalendarDate::new(2024, 0, 1), None);
    assert_eq!(CalendarDate::new(2024, 13, 1), None);
    assert_eq!(CalendarDate::new(2024, 1, 0), None);
    assert_eq!(CalendarDate::new(2024, 1, 32), None);
    assert_eq!(CalendarDate::new(-262144, 1, 1), None);
    assert_eq!(CalendarDate::new(262143, 1, 1), None);
    assert_eq!(CalendarDate::new(i32::MAX, 1, 1), None);
    assert_eq!(CalendarDate::new(i32::MIN, 1, 1), None);
}

#[test]
fn leap_years_follow_the_gregorian_rule() {
    assert!(leap_year(2024));
    assert!(leap_year(2000));
    assert!(leap_year(0));
    assert!(leap_year(-4));
    assert!(leap_year(-400));
    assert!(!leap_year(2023));
    assert!(!leap_year(1900));
    assert!(!leap_year(-100));
    assert!(!leap_year(-1));
    assert!(leap_year(i32::MIN));
    assert!(!leap_year(i32::MAX));
    assert!(leap_year(2_147_483_644));
    assert!(!leap_year(2_147_483_500));
}

#[test]
fn month_lengths_are_those_of_the_calendar() {
    let lengths: Vec<u32> = (1..=12).map(|m| month_length(2023, m)).collect();
    assert_eq!(lengths, vec![31, 28, 31, 30, 31, 30, 31, 31, 30, 31, 30, 31]);
    assert_eq!(month_length(2024, 2), 29);
    assert_eq!(month_length(1900, 2), 28);
}

#[test]
fn day_count_of_known_days() {
    assert_eq!(day(1, 1, 1).day_count(), 1);
    assert_eq!(day(1, 12, 31).day_count(), 365);
    assert_eq!(day(0, 12, 31).day_count(), 0);
    assert_eq!(day(1970, 1, 1).day_count(), 719_163);
    assert_eq!(day(2024, 1, 10).day_count(), 738_895);
}

#[test]
fn days_between_dates_agree_with_their_day_counts() {
    let today = day(2024, 1, 5);
    let years = [-262143, -401, -400, -100, -4, -1, 0, 1, 4, 100, 1900, 2000, 2023, 2024, 262142];
    for year in years {
        for month in 1..=12u32 {
            for d in [1u32, 15, 28, 29, 30, 31] {
                if let Some(target) = CalendarDate::new(year, month, d) {
                    assert_eq!(
                        days_until_parsed(Some(target), &today),
                        Some(target.day_count() - today.day_count())
                    );
                }
            }
        }
    }
}

#[test]
fn consecutive_days_are_one_day_apart() {
    let mut previous = day(2023, 12, 31);
    for month in 1..=12u32 {
        for d in 1..=month_length(2024, month) {
            let current = day(2024, month, d);
            assert_eq!(days_until_parsed(Some(current), &previous), Some(1));
            assert_eq!(current.day_count() - previous.day_count(), 1);
            previous = current;
        }
    }
    assert_eq!(day(2024, 12, 31).day_count() - day(2023, 12, 31).day_count(), 366);
}
