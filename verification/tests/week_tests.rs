use timetable::week::{
    resolve_base_monday, resolve_week, visible_dates, AnchorError, Date, MAX_DAY_NUMBER,
    MIN_DAY_NUMBER,
};

fn day_number(y: i32, m: u32, d: u32) -> i64 {
    let date = chrono::NaiveDate::from_ymd_opt(y, m, d).unwrap();
    chrono::Datelike::num_days_from_ce(&date) as i64
}

fn date(y: i32, m: u32, d: u32) -> Date {
    Date::from_day_number(day_number(y, m, d)).unwrap()
}

#[test]
fn day_numbers_outside_the_supported_range_are_rejected() {
    assert!(Date::from_day_number(MIN_DAY_NUMBER - 1).is_none());
    assert!(Date::from_day_number(MAX_DAY_NUMBER + 1).is_none());
    assert!(Date::from_day_number(MIN_DAY_NUMBER).is_some());
    assert!(Date::from_day_number(MAX_DAY_NUMBER).is_some());
}

#[test]
fn base_monday_of_a_wednesday_is_two_days_earlier() {
    // 2025-09-01 is a Monday, so 2025-09-03 is a Wednesday.
    let today = date(2025, 9, 3);
    let monday = resolve_base_monday(today).unwrap();
    assert_eq!(monday, date(2025, 9, 1));
}

#[test]
fn base_monday_of_a_monday_is_itself() {
    let today = date(2025, 9, 1);
    assert_eq!(resolve_base_monday(today).unwrap(), today);
}

#[test]
fn base_monday_of_a_sunday_is_six_days_earlier() {
    let today = date(2025, 9, 7);
    assert_eq!(resolve_base_monday(today).unwrap(), date(2025, 9, 1));
}

#[test]
fn base_monday_crosses_month_and_year_boundaries() {
    // 2026-01-01 is a Thursday; its Monday is 2025-12-29.
    let today = date(2026, 1, 1);
    assert_eq!(resolve_base_monday(today).unwrap(), date(2025, 12, 29));
}

#[test]
fn week_offset_zero_is_the_base_monday_itself() {
    let monday = date(2025, 9, 1);
    assert_eq!(resolve_week(monday, 0), Ok(monday));
}

#[test]
fn week_offset_one_is_exactly_seven_days_later() {
    let monday = date(2025, 9, 1);
    assert_eq!(resolve_week(monday, 1), Ok(date(2025, 9, 8)));
}

#[test]
fn week_offset_minus_one_is_exactly_seven_days_earlier() {
    let monday = date(2025, 9, 1);
    assert_eq!(resolve_week(monday, -1), Ok(date(2025, 8, 25)));
}

#[test]
fn week_offsets_round_trip() {
    let monday = date(2025, 9, 1);
    for n in [1i64, 2, 5, 52, 10_000] {
        let away = resolve_week(monday, n).unwrap();
        assert_eq!(resolve_week(away, -n), Ok(monday));
        let back = resolve_week(monday, -n).unwrap();
        assert_eq!(resolve_week(back, n), Ok(monday));
    }
}

#[test]
fn extreme_week_offsets_fail_loudly_instead_of_wrapping() {
    let monday = date(2025, 9, 1);
    assert_eq!(resolve_week(monday, i64::MAX), Err(AnchorError));
    assert_eq!(resolve_week(monday, i64::MIN), Err(AnchorError));
    assert_eq!(resolve_week(monday, 1_000_000), Err(AnchorError));
    assert_eq!(resolve_week(monday, -1_000_000), Err(AnchorError));
}

#[test]
fn visible_dates_are_the_five_weekdays_from_the_monday() {
    let monday = date(2025, 9, 1);
    let dates = visible_dates(monday);
    assert_eq!(
        dates,
        vec![
            String::from("01/09/2025"),
            String::from("02/09/2025"),
            String::from("03/09/2025"),
            String::from("04/09/2025"),
            String::from("05/09/2025"),
        ]
    );
}

#[test]
fn visible_dates_cross_a_month_boundary_day_by_day() {
    // 2025-09-29 is a Monday; the week runs into October.
    let monday = date(2025, 9, 29);
    let dates = visible_dates(monday);
    assert_eq!(dates.len(), 5);
    assert_eq!(dates[0], "29/09/2025");
    assert_eq!(dates[1], "30/09/2025");
    assert_eq!(dates[2], "01/10/2025");
    assert_eq!(dates[3], "02/10/2025");
    assert_eq!(dates[4], "03/10/2025");
}
