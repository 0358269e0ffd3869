use extended_ui::date::{
    build_calendar_cells, civil_from_days, clamp_date_to_bounds, day_of_week, days_in_month,
    in_selected_range, is_date_allowed, is_leap_year, is_month_allowed, make_date, month_name,
    month_short_name, resolve_year_range, shift_month, today_utc_date, visible_calendar_row_count,
    SimpleDate,
};

fn d(year: i32, month: u32, day: u32) -> SimpleDate {
    SimpleDate { year, month, day }
}

#[test]
fn leap_years_follow_the_gregorian_rule() {
    assert!(is_leap_year(2000));
    assert!(!is_leap_year(1900));
    assert!(is_leap_year(2024));
    assert!(!is_leap_year(2023));
}

#[test]
fn month_lengths() {
    assert_eq!(days_in_month(2024, 2), 29);
    assert_eq!(days_in_month(2023, 2), 28);
    assert_eq!(days_in_month(2023, 4), 30);
    assert_eq!(days_in_month(2023, 12), 31);
    assert_eq!(days_in_month(2023, 13), 30);
}

#[test]
fn make_date_checks_month_and_day() {
    assert_eq!(make_date(2024, 2, 29), Some(d(2024, 2, 29)));
    assert_eq!(make_date(2023, 2, 29), None);
    assert_eq!(make_date(2024, 13, 1), None);
    assert_eq!(make_date(2024, 1, 0), None);
}

#[test]
fn dates_compare_by_year_month_day() {
    assert!(d(2023, 12, 31).precedes(&d(2024, 1, 1)));
    assert!(!d(2024, 1, 1).precedes(&d(2024, 1, 1)));
    assert!(d(2024, 1, 31).precedes(&d(2024, 2, 1)));
}

#[test]
fn bounds_allow_and_clamp() {
    let min = Some(d(2024, 1, 10));
    let max = Some(d(2024, 1, 20));
    assert!(is_date_allowed(d(2024, 1, 15), min, max));
    assert!(!is_date_allowed(d(2024, 1, 5), min, max));
    assert!(!is_date_allowed(d(2024, 1, 25), min, max));
    assert_eq!(clamp_date_to_bounds(d(2024, 1, 5), min, max), Some(d(2024, 1, 10)));
    assert_eq!(clamp_date_to_bounds(d(2024, 1, 25), min, max), Some(d(2024, 1, 20)));
    assert_eq!(clamp_date_to_bounds(d(2024, 1, 25), None, None), Some(d(2024, 1, 25)));
    // Bounds that exclude every date leave nothing.
    assert_eq!(
        clamp_date_to_bounds(d(2024, 1, 15), Some(d(2024, 2, 1)), Some(d(2024, 1, 1))),
        None
    );
}

#[test]
fn selected_range_in_either_order() {
    let a = Some(d(2024, 3, 1));
    let b = Some(d(2024, 3, 10));
    assert!(in_selected_range(d(2024, 3, 5), a, b));
    assert!(in_selected_range(d(2024, 3, 5), b, a));
    assert!(in_selected_range(d(2024, 3, 10), a, b));
    assert!(!in_selected_range(d(2024, 3, 11), a, b));
    assert!(!in_selected_range(d(2024, 3, 5), a, None));
}

#[test]
fn months_within_bounds() {
    let min = Some(d(2024, 3, 15));
    assert!(!is_month_allowed(2024, 2, min, None));
    assert!(is_month_allowed(2024, 3, min, None));
    assert!(!is_month_allowed(2024, 13, None, None));
    assert!(!is_month_allowed(2024, 5, None, Some(d(2024, 4, 30))));
}

#[test]
fn year_range_defaults_orders_and_widens() {
    assert_eq!(resolve_year_range(None, None, 2024), (1900, 2100));
    assert_eq!(
        resolve_year_range(Some(d(2030, 1, 1)), Some(d(2010, 1, 1)), 2050),
        (2010, 2050)
    );
    assert_eq!(resolve_year_range(None, None, 1800), (1800, 2100));
}

#[test]
fn shifting_months_crosses_years() {
    assert_eq!(shift_month(2024, 1, -1), (2023, 12));
    assert_eq!(shift_month(2023, 12, 1), (2024, 1));
    assert_eq!(shift_month(2024, 5, 13), (2025, 6));
    // Moving there and back returns to the start.
    let (y, m) = shift_month(2024, 5, -17);
    assert_eq!(shift_month(y, m, 17), (2024, 5));
}

#[test]
fn month_names() {
    assert_eq!(month_name(1), "January");
    assert_eq!(month_name(12), "December");
    assert_eq!(month_name(13), "Unknown");
    assert_eq!(month_short_name(12), "Dec");
    assert_eq!(month_short_name(0), "???");
}

#[test]
fn days_since_epoch_to_dates() {
    assert_eq!(civil_from_days(0), (1970, 1, 1));
    assert_eq!(civil_from_days(-1), (1969, 12, 31));
    assert_eq!(civil_from_days(19723), (2024, 1, 1));
    assert_eq!(civil_from_days(19782), (2024, 2, 29));
}

#[test]
fn today_from_the_clock() {
    assert_eq!(today_utc_date(Some(1_704_067_200)), d(2024, 1, 1));
    assert_eq!(today_utc_date(Some(1_704_067_200 + 86_399)), d(2024, 1, 1));
    assert_eq!(today_utc_date(None), d(1970, 1, 1));
}

#[test]
fn weekdays_start_on_sunday() {
    assert_eq!(day_of_week(d(2024, 1, 1)), 1);
    assert_eq!(day_of_week(d(2024, 2, 1)), 4);
    assert_eq!(day_of_week(d(2024, 9, 1)), 0);
    assert_eq!(day_of_week(d(1970, 1, 1)), 4);
}

#[test]
fn calendar_grid_of_february_2024() {
    let cells = build_calendar_cells(2024, 2);
    assert_eq!(cells.len(), 42);
    assert_eq!(cells[0].date, d(2024, 1, 29));
    assert!(!cells[0].in_current_month);
    assert_eq!(cells[3].date, d(2024, 2, 1));
    assert!(cells[3].in_current_month);
    assert_eq!(cells[31].date, d(2024, 2, 29));
    assert_eq!(cells[32].date, d(2024, 3, 1));
    assert!(!cells[32].in_current_month);
    assert_eq!(cells[41].date, d(2024, 3, 10));
}

#[test]
fn calendar_rows() {
    assert_eq!(visible_calendar_row_count(2024, 2), 5);
    assert_eq!(visible_calendar_row_count(2024, 9), 6);
    // A February starting on Monday fills exactly four weeks; at least five rows show.
    assert_eq!(visible_calendar_row_count(2021, 2), 5);
}

#[test]
fn consecutive_days_have_consecutive_weekdays() {
    assert_eq!(day_of_week(d(2023, 12, 31)), 0);
    assert_eq!(day_of_week(d(2024, 1, 1)), 1);
    assert_eq!(day_of_week(d(2024, 2, 28)), 3);
    assert_eq!(day_of_week(d(2024, 2, 29)), 4);
    assert_eq!(day_of_week(d(2024, 3, 1)), 5);
    assert_eq!(day_of_week(d(1900, 2, 28)), 3);
    assert_eq!(day_of_week(d(1900, 3, 1)), 4);
    assert_eq!(day_of_week(d(2000, 2, 29)), 2);
    assert_eq!(day_of_week(d(2000, 3, 1)), 3);
}

#[test]
fn clamping_within_ordered_bounds_always_succeeds() {
    let min = Some(d(2024, 1, 10));
    let max = Some(d(2024, 1, 10));
    assert_eq!(clamp_date_to_bounds(d(1999, 5, 5), min, max), Some(d(2024, 1, 10)));
    assert_eq!(clamp_date_to_bounds(d(2024, 1, 10), min, None), Some(d(2024, 1, 10)));
    assert_eq!(clamp_date_to_bounds(d(2030, 1, 1), None, max), Some(d(2024, 1, 10)));
}

#[test]
fn weekdays_follow_the_day_count() {
    for n in [0i64, 1, 6, 7, 365, 10_957, 19_723, 2_000_000] {
        let (year, month, day) = civil_from_days(n);
        assert_eq!(day_of_week(d(year, month, day)) as i64, (n + 4) % 7);
    }
}

#[test]
fn weekday_arithmetic_accepts_any_month_that_fits() {
    assert_eq!(day_of_week(d(2024, 13, 1)), 3);
}
