use chrono::{Datelike, NaiveDate};
use stockdb::analysis::calendar::{
    first_of_month, first_of_year, last_weekday, noon_utc, previous_weekday, utc_day, weekday,
    EPOCH_DAY,
};

fn day(y: i32, m: u32, d: u32) -> i32 {
    NaiveDate::from_ymd_opt(y, m, d).unwrap().num_days_from_ce()
}

#[test]
fn epoch_day_is_the_first_of_january_1970() {
    assert_eq!(EPOCH_DAY, day(1970, 1, 1));
    assert_eq!(EPOCH_DAY, 719_163);
}

#[test]
fn weekday_counts_from_monday() {
    // 2021-03-08 was a Monday.
    assert_eq!(weekday(day(2021, 3, 8)), 1);
    assert_eq!(weekday(day(2021, 3, 12)), 5);
    assert_eq!(weekday(day(2021, 3, 13)), 6);
    assert_eq!(weekday(day(2021, 3, 14)), 7);
    assert_eq!(weekday(1), 1);
    assert_eq!(weekday(0), 7);
    assert_eq!(weekday(-6), 1);
}

#[test]
fn weekday_agrees_with_the_calendar() {
    let mut d = day(1999, 12, 25);
    let end = day(2001, 1, 10);
    while d <= end {
        let date = NaiveDate::from_num_days_from_ce_opt(d).unwrap();
        assert_eq!(weekday(d), date.weekday().number_from_monday());
        d += 1;
    }
    for d in -20..20 {
        let date = NaiveDate::from_num_days_from_ce_opt(d).unwrap();
        assert_eq!(weekday(d), date.weekday().number_from_monday());
    }
}

#[test]
fn saturday_and_sunday_roll_back_to_friday() {
    let friday = day(2021, 3, 12);
    assert_eq!(last_weekday(day(2021, 3, 13)), friday);
    assert_eq!(last_weekday(day(2021, 3, 14)), friday);
}

#[test]
fn a_weekday_stays_where_it_is() {
    for d in day(2021, 3, 8)..=day(2021, 3, 12) {
        assert_eq!(last_weekday(d), d);
    }
}

#[test]
fn rollback_ends_on_a_weekday_not_after_the_day() {
    for d in day(2020, 1, 1)..day(2020, 3, 1) {
        let r = last_weekday(d);
        assert!(r <= d);
        assert!(d - r <= 2);
        assert!(weekday(r) <= 5);
    }
}

#[test]
fn the_weekday_before_monday_is_friday() {
    assert_eq!(previous_weekday(day(2021, 3, 15)), day(2021, 3, 12));
    assert_eq!(previous_weekday(day(2021, 3, 14)), day(2021, 3, 12));
    assert_eq!(previous_weekday(day(2021, 3, 12)), day(2021, 3, 11));
}

#[test]
fn first_of_month_is_the_first() {
    assert_eq!(first_of_month(day(2021, 3, 10)), day(2021, 3, 1));
    assert_eq!(first_of_month(day(2021, 3, 1)), day(2021, 3, 1));
    assert_eq!(first_of_month(day(2020, 2, 29)), day(2020, 2, 1));
    assert_eq!(first_of_month(day(2021, 12, 31)), day(2021, 12, 1));
}

#[test]
fn first_of_year_is_new_years_day() {
    assert_eq!(first_of_year(day(2021, 3, 10)), day(2021, 1, 1));
    assert_eq!(first_of_year(day(2020, 12, 31)), day(2020, 1, 1));
    assert_eq!(first_of_year(day(2021, 1, 1)), day(2021, 1, 1));
}

#[test]
fn first_days_agree_with_the_calendar() {
    let mut d = day(2019, 11, 20);
    let end = day(2020, 3, 5);
    while d <= end {
        let date = NaiveDate::from_num_days_from_ce_opt(d).unwrap();
        assert_eq!(first_of_month(d), day(date.year(), date.month(), 1));
        assert_eq!(first_of_year(d), day(date.year(), 1, 1));
        d += 1;
    }
}

#[test]
fn noon_is_twelve_hours_into_the_day() {
    assert_eq!(noon_utc(day(1970, 1, 1)), 43_200);
    assert_eq!(noon_utc(day(1970, 1, 2)), 86_400 + 43_200);
    assert_eq!(noon_utc(day(1969, 12, 31)), -43_200);
    let expected = NaiveDate::from_ymd_opt(2021, 3, 10)
        .unwrap()
        .and_hms_opt(12, 0, 0)
        .unwrap()
        .and_utc()
        .timestamp();
    assert_eq!(noon_utc(day(2021, 3, 10)), expected);
}

#[test]
fn an_instant_falls_on_its_utc_day() {
    assert_eq!(utc_day(0), day(1970, 1, 1));
    assert_eq!(utc_day(86_399), day(1970, 1, 1));
    assert_eq!(utc_day(86_400), day(1970, 1, 2));
    assert_eq!(utc_day(-1), day(1969, 12, 31));
    assert_eq!(utc_day(-86_400), day(1969, 12, 31));
    assert_eq!(utc_day(-86_401), day(1969, 12, 30));
    assert_eq!(utc_day(1_615_377_600), day(2021, 3, 10));
}
