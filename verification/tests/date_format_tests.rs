use extended_ui::date::SimpleDate;
use extended_ui::date_format::{
    default_placeholder_for_format, default_separator_for_order, detect_separator,
    format_for_display, format_range_for_display, normalize_bound_value_for_mode,
    parse_date_pattern, parse_date_with_pattern, parse_iso_date, parse_picker_date,
    parse_picker_range, pattern_from_date_format, resolve_date_pattern, resolve_selection_mode,
    split_range_parts, DateFieldOrder, DateFormat, DatePattern, PickerSelectionMode,
};

fn d(year: i32, month: u32, day: u32) -> SimpleDate {
    SimpleDate { year, month, day }
}

fn chars(s: &str) -> Vec<char> {
    s.chars().collect()
}

fn p(order: DateFieldOrder, separator: char) -> DatePattern {
    DatePattern { order, separator }
}

#[test]
fn named_formats_and_separators() {
    assert_eq!(pattern_from_date_format(DateFormat::DayMonthYear), p(DateFieldOrder::DayMonthYear, '/'));
    assert_eq!(pattern_from_date_format(DateFormat::YearMonthDay), p(DateFieldOrder::YearMonthDay, '-'));
    assert_eq!(default_separator_for_order(DateFieldOrder::MonthDayYear), '/');
    assert_eq!(default_separator_for_order(DateFieldOrder::YearMonthDay), '-');
    assert_eq!(detect_separator(&chars("dd.mm")), Some('.'));
    assert_eq!(detect_separator(&chars("ddmm")), None);
}

#[test]
fn pattern_specifications() {
    assert_eq!(parse_date_pattern("dd.mm.yyyy", None), Some(p(DateFieldOrder::DayMonthYear, '.')));
    assert_eq!(parse_date_pattern(" YYYY-MM-DD ", None), Some(p(DateFieldOrder::YearMonthDay, '-')));
    assert_eq!(parse_date_pattern("mm/dd/yyyy", None), Some(p(DateFieldOrder::MonthDayYear, '/')));
    assert_eq!(parse_date_pattern("mm . dd . yy", None), Some(p(DateFieldOrder::MonthDayYear, '.')));
    // Whitespace joins letters into one field, so this has only one field.
    assert_eq!(parse_date_pattern("mm dd yyyy", None), None);
    assert_eq!(parse_date_pattern("dd/mm-yyyy", None), None);
    assert_eq!(parse_date_pattern("dd/mm", None), None);
    assert_eq!(parse_date_pattern("dd/mm/xx", None), None);
    assert_eq!(parse_date_pattern("   ", None), None);
    // A specification that names a format takes that format, with its own separator.
    assert_eq!(
        parse_date_pattern("ymd.", Some(DateFormat::YearMonthDay)),
        Some(p(DateFieldOrder::YearMonthDay, '.'))
    );
}

#[test]
fn dates_are_written_zero_padded() {
    let date = d(2024, 3, 5);
    assert_eq!(format_for_display(date, p(DateFieldOrder::MonthDayYear, '/')), "03/05/2024");
    assert_eq!(format_for_display(date, p(DateFieldOrder::DayMonthYear, '.')), "05.03.2024");
    assert_eq!(format_for_display(date, p(DateFieldOrder::YearMonthDay, '-')), "2024-03-05");
    assert_eq!(format_for_display(d(987, 12, 31), p(DateFieldOrder::YearMonthDay, '-')), "0987-12-31");
}

#[test]
fn placeholders() {
    assert_eq!(default_placeholder_for_format(p(DateFieldOrder::DayMonthYear, '.')), "DD.MM.YYYY");
    assert_eq!(default_placeholder_for_format(p(DateFieldOrder::YearMonthDay, '-')), "YYYY-MM-DD");
}

#[test]
fn ranges_are_written_with_a_dash() {
    let pat = p(DateFieldOrder::YearMonthDay, '-');
    assert_eq!(
        format_range_for_display(Some(d(2024, 3, 1)), Some(d(2024, 3, 5)), pat),
        "2024-03-01 - 2024-03-05"
    );
    assert_eq!(format_range_for_display(Some(d(2024, 3, 1)), None, pat), "2024-03-01");
    assert_eq!(format_range_for_display(None, Some(d(2024, 3, 5)), pat), "");
}

#[test]
fn iso_and_patterned_dates() {
    assert_eq!(parse_iso_date(&chars("2024-03-05")), Some(d(2024, 3, 5)));
    assert_eq!(parse_iso_date(&chars("2024-02-30")), None);
    assert_eq!(parse_iso_date(&chars("05.03.2024")), None);
    assert_eq!(
        parse_date_with_pattern(&chars("05.03.2024"), p(DateFieldOrder::DayMonthYear, '.')),
        Some(d(2024, 3, 5))
    );
}

#[test]
fn picker_dates_try_the_pattern_then_the_other_orders() {
    let dmy = p(DateFieldOrder::DayMonthYear, '/');
    assert_eq!(parse_picker_date(&chars("03/05/2024"), dmy), Some(d(2024, 5, 3)));
    assert_eq!(parse_picker_date(&chars(" 2024-03-05 "), dmy), Some(d(2024, 3, 5)));
    let mdy = p(DateFieldOrder::MonthDayYear, '/');
    assert_eq!(parse_picker_date(&chars("13/05/2024"), mdy), Some(d(2024, 5, 13)));
    assert_eq!(parse_picker_date(&chars(""), mdy), None);
    assert_eq!(parse_picker_date(&chars("not a date"), mdy), None);
}

#[test]
fn range_parts_and_ranges() {
    assert_eq!(split_range_parts(&chars("a - b")), Some((chars("a"), chars("b"))));
    assert_eq!(split_range_parts(&chars("a \u{2013} b")), Some((chars("a"), chars("b"))));
    assert_eq!(split_range_parts(&chars("a-b")), None);
    let dmy = p(DateFieldOrder::DayMonthYear, '/');
    assert_eq!(
        parse_picker_range(&chars("05/03/2024 - 01/03/2024"), dmy),
        Some((d(2024, 3, 1), Some(d(2024, 3, 5))))
    );
    // Trimming drops a dangling delimiter, which then no longer reads as a range.
    assert_eq!(parse_picker_range(&chars("05/03/2024 - "), dmy), None);
    assert_eq!(parse_picker_range(&chars("05/03/2024"), dmy), Some((d(2024, 3, 5), None)));
    assert_eq!(parse_picker_range(&chars("x - 01/03/2024"), dmy), None);
}

#[test]
fn bound_values_are_normalized() {
    let mdy = p(DateFieldOrder::MonthDayYear, '/');
    assert_eq!(normalize_bound_value_for_mode("2024-03-05", mdy, PickerSelectionMode::Single), "03/05/2024");
    assert_eq!(normalize_bound_value_for_mode("garbage", mdy, PickerSelectionMode::Single), "garbage");
    assert_eq!(
        normalize_bound_value_for_mode("2024-03-05 - 2024-03-01", mdy, PickerSelectionMode::Range),
        "03/01/2024 - 03/05/2024"
    );
}

#[test]
fn written_dates_read_back() {
    let pats = [
        p(DateFieldOrder::MonthDayYear, '/'),
        p(DateFieldOrder::DayMonthYear, '.'),
        p(DateFieldOrder::YearMonthDay, '-'),
        p(DateFieldOrder::DayMonthYear, '-'),
    ];
    for pat in pats {
        for date in [d(2024, 2, 29), d(1999, 12, 31), d(2001, 1, 2)] {
            let text = format_for_display(date, pat);
            assert_eq!(parse_picker_date(&chars(&text), pat), Some(date));
        }
    }
}

#[test]
fn picker_pattern_resolution() {
    let own = resolve_date_pattern(Some("dd.mm.yyyy"), None, true, Some("yyyy-mm-dd"), None, DateFormat::MonthDayYear);
    assert_eq!(own, p(DateFieldOrder::DayMonthYear, '.'));
    let bound = resolve_date_pattern(Some("bad"), None, true, Some("yyyy/mm/dd"), None, DateFormat::MonthDayYear);
    assert_eq!(bound, p(DateFieldOrder::YearMonthDay, '/'));
    let ignored = resolve_date_pattern(None, None, false, Some("yyyy/mm/dd"), None, DateFormat::DayMonthYear);
    assert_eq!(ignored, p(DateFieldOrder::DayMonthYear, '/'));
    assert_eq!(resolve_selection_mode(true), PickerSelectionMode::Range);
    assert_eq!(resolve_selection_mode(false), PickerSelectionMode::Single);
}

#[test]
fn shown_ranges_read_back() {
    let pat = DatePattern { order: DateFieldOrder::DayMonthYear, separator: '.' };
    let start = d(2024, 3, 5);
    let end = d(2024, 4, 1);
    let shown: Vec<char> = format_range_for_display(Some(start), Some(end), pat).chars().collect();
    assert_eq!(parse_picker_range(&shown, pat), Some((start, Some(end))));
    let reversed: Vec<char> = format_range_for_display(Some(end), Some(start), pat).chars().collect();
    assert_eq!(parse_picker_range(&reversed, pat), Some((start, Some(end))));
    let open: Vec<char> = format_range_for_display(Some(start), None, pat).chars().collect();
    assert_eq!(parse_picker_range(&open, pat), Some((start, None)));
}

#[test]
fn normalising_twice_is_normalising_once() {
    let pat = DatePattern { order: DateFieldOrder::MonthDayYear, separator: '/' };
    let once = normalize_bound_value_for_mode("2024-03-05", pat, PickerSelectionMode::Single);
    assert_eq!(once, "03/05/2024");
    assert_eq!(normalize_bound_value_for_mode(&once, pat, PickerSelectionMode::Single), once);
    assert_eq!(normalize_bound_value_for_mode("hello", pat, PickerSelectionMode::Single), "hello");
    let range = normalize_bound_value_for_mode("04/01/2024 - 03/05/2024", pat, PickerSelectionMode::Range);
    assert_eq!(range, "03/05/2024 - 04/01/2024");
    assert_eq!(normalize_bound_value_for_mode(&range, pat, PickerSelectionMode::Range), range);
}
