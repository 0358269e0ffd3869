use extended_ui::date::SimpleDate;
use extended_ui::date_format::{DateFieldOrder, DatePattern, PickerSelectionMode};
use extended_ui::date_picker::{
    close_if_unfocused, day_cell_flags, field_placeholder, lifted_z_index, new_picker_state,
    on_day_click, on_field_click, on_month_choice, on_month_step, on_month_toggle, on_year_choice,
    on_year_toggle, panel_layout, refresh_visuals, selection_text, should_lift_target,
    sync_bound_target, sync_header_toggle, sync_month_option, sync_year_option, write_back_value,
    DayTone, DATE_PICKER_OVERLAY_Z,
};
use extended_ui::widget_state::UIWidgetState;

fn d(year: i32, month: u32, day: u32) -> SimpleDate {
    SimpleDate { year, month, day }
}

fn ymd() -> DatePattern {
    DatePattern { order: DateFieldOrder::YearMonthDay, separator: '-' }
}

fn ui() -> UIWidgetState {
    UIWidgetState::default()
}

#[test]
fn new_picker_reads_its_value() {
    let s = new_picker_state("2024-03-05", None, None, ymd(), PickerSelectionMode::Single, d(2020, 1, 1));
    assert_eq!(s.selected, Some(d(2024, 3, 5)));
    assert_eq!((s.view_year, s.view_month), (2024, 3));
    assert_eq!((s.year_start, s.year_end), (1900, 2100));
    assert!(!s.month_list_open && !s.year_list_open && !s.pending_bound_write_back);

    let empty = new_picker_state("", None, None, ymd(), PickerSelectionMode::Single, d(2020, 6, 15));
    assert_eq!(empty.selected, None);
    assert_eq!((empty.view_year, empty.view_month), (2020, 6));

    let range = new_picker_state(
        "2024-03-01 - 2024-03-05",
        None,
        None,
        ymd(),
        PickerSelectionMode::Range,
        d(2020, 1, 1),
    );
    assert_eq!(range.range_start, Some(d(2024, 3, 1)));
    assert_eq!(range.range_end, Some(d(2024, 3, 5)));
    assert_eq!(range.selected, Some(d(2024, 3, 5)));
    assert_eq!(selection_text(&range, ymd(), PickerSelectionMode::Range), "2024-03-01 - 2024-03-05");
}

#[test]
fn field_click_toggles_the_popover() {
    let mut s = new_picker_state("", None, None, ymd(), PickerSelectionMode::Single, d(2024, 2, 1));
    let mut u = ui();
    assert!(on_field_click(&mut s, &mut u));
    assert!(u.open && u.focused && u.checked);
    s.month_list_open = true;
    assert!(on_field_click(&mut s, &mut u));
    assert!(!u.open && !s.month_list_open);
    u.disabled = true;
    assert!(!on_field_click(&mut s, &mut u));
    assert!(!u.open);
}

#[test]
fn month_buttons_move_the_calendar() {
    let mut s = new_picker_state("", None, None, ymd(), PickerSelectionMode::Single, d(2024, 12, 1));
    let mut u = ui();
    assert!(on_month_step(&mut s, &mut u, 1));
    assert_eq!((s.view_year, s.view_month), (2025, 1));
    assert!(u.open);
    assert!(on_month_step(&mut s, &mut u, -1));
    assert_eq!((s.view_year, s.view_month), (2024, 12));
    assert!(on_month_toggle(&mut s, &mut u));
    assert!(s.month_list_open);
    assert!(on_year_toggle(&mut s, &mut u));
    assert!(s.year_list_open && !s.month_list_open);
}

#[test]
fn choosing_a_month_keeps_the_day_within_it() {
    let mut s = new_picker_state("2024-01-31", None, None, ymd(), PickerSelectionMode::Single, d(2020, 1, 1));
    let mut u = ui();
    let written = on_month_choice(&mut s, &mut u, 2, false, ymd(), PickerSelectionMode::Single);
    assert_eq!(written, Some("2024-02-29".to_string()));
    assert_eq!(s.selected, Some(d(2024, 2, 29)));
    assert!(s.pending_bound_write_back);
    // A month outside 1..=12 is refused.
    assert_eq!(on_month_choice(&mut s, &mut u, 13, false, ymd(), PickerSelectionMode::Single), None);
    // A month with no day within the bounds is refused.
    s.min = Some(d(2024, 6, 1));
    assert_eq!(on_month_choice(&mut s, &mut u, 3, false, ymd(), PickerSelectionMode::Single), None);
}

#[test]
fn choosing_a_year() {
    let mut s = new_picker_state("2024-02-29", None, None, ymd(), PickerSelectionMode::Single, d(2020, 1, 1));
    let mut u = ui();
    let written = on_year_choice(&mut s, &mut u, 2023, false, ymd(), PickerSelectionMode::Single);
    assert_eq!(written, Some("2023-02-28".to_string()));
    assert_eq!(s.view_year, 2023);
    // Outside the list's span, an option click is refused.
    assert_eq!(on_year_choice(&mut s, &mut u, 1800, false, ymd(), PickerSelectionMode::Single), None);
}

#[test]
fn day_clicks_select_a_date_or_a_range() {
    let mut s = new_picker_state("", None, None, ymd(), PickerSelectionMode::Single, d(2024, 2, 10));
    let mut u = ui();
    u.open = true;
    let written = on_day_click(&mut s, &mut u, 3, ymd(), PickerSelectionMode::Single);
    assert_eq!(written, Some("2024-02-01".to_string()));
    assert_eq!(s.selected, Some(d(2024, 2, 1)));
    assert!(!u.open);

    let mut r = new_picker_state("", None, None, ymd(), PickerSelectionMode::Range, d(2024, 2, 10));
    let mut ru = ui();
    assert_eq!(on_day_click(&mut r, &mut ru, 10, ymd(), PickerSelectionMode::Range), Some("2024-02-08".to_string()));
    assert_eq!((r.range_start, r.range_end), (Some(d(2024, 2, 8)), None));
    let written = on_day_click(&mut r, &mut ru, 3, ymd(), PickerSelectionMode::Range);
    assert_eq!(written, Some("2024-02-01 - 2024-02-08".to_string()));
    assert_eq!((r.range_start, r.range_end), (Some(d(2024, 2, 1)), Some(d(2024, 2, 8))));

    // A cell below the shown rows is ignored.
    assert_eq!(on_day_click(&mut r, &mut ru, 40, ymd(), PickerSelectionMode::Range), None);
    // A disabled picker ignores clicks.
    ru.disabled = true;
    assert_eq!(on_day_click(&mut r, &mut ru, 5, ymd(), PickerSelectionMode::Range), None);
}

#[test]
fn day_cells_are_marked() {
    let s = new_picker_state("2024-02-01", Some(d(2024, 2, 5)), None, ymd(), PickerSelectionMode::Single, d(2020, 1, 1));
    let flags = day_cell_flags(&s, PickerSelectionMode::Single, false);
    assert_eq!(flags.len(), 42);
    assert!(flags[3].checked);
    assert_eq!(flags[3].tone, DayTone::Selected);
    assert!(flags[3].disabled);
    assert!(flags[0].readonly);
    assert!(flags[40].hidden);
    assert_eq!(flags[10].tone, DayTone::Normal);
}

#[test]
fn unfocused_pickers_close() {
    let mut s = new_picker_state("", None, None, ymd(), PickerSelectionMode::Single, d(2024, 2, 1));
    let mut u = ui();
    u.open = true;
    u.checked = true;
    s.year_list_open = true;
    close_if_unfocused(&mut s, &mut u);
    assert!(!u.open && !u.checked && !s.year_list_open);
}

#[test]
fn write_back_text() {
    let s = new_picker_state("", None, None, ymd(), PickerSelectionMode::Single, d(2024, 2, 1));
    assert_eq!(write_back_value(&s, "2024-2-3", ymd(), PickerSelectionMode::Single), "2024-02-03");
    assert_eq!(write_back_value(&s, "soon", ymd(), PickerSelectionMode::Single), "soon");
    assert_eq!(write_back_value(&s, "  ", ymd(), PickerSelectionMode::Single), "");
}

#[test]
fn bound_input_is_read_when_it_has_focus() {
    let mut s = new_picker_state("", None, None, ymd(), PickerSelectionMode::Single, d(2024, 2, 1));
    let mut u = ui();
    let r = sync_bound_target(&mut s, &mut u, "", "", "2024-5-6", ymd(), PickerSelectionMode::Single, true, false);
    assert_eq!(r.write_target, None);
    assert_eq!(r.picker_value, "2024-05-06");
    assert_eq!(r.selection_text, "2024-05-06");
    assert!(u.open && u.focused);
    assert_eq!(s.selected, Some(d(2024, 5, 6)));

    s.pending_bound_write_back = true;
    let w = sync_bound_target(&mut s, &mut u, "2024-05-06", "", "", ymd(), PickerSelectionMode::Single, false, false);
    assert_eq!(w.write_target, Some("2024-05-06".to_string()));
    assert!(!s.pending_bound_write_back);
    assert!(!u.focused);
}

#[test]
fn lifting_above_other_content() {
    let s = new_picker_state("", None, None, ymd(), PickerSelectionMode::Single, d(2024, 2, 1));
    assert!(!should_lift_target(&s, &ui(), false, false));
    assert!(should_lift_target(&s, &ui(), true, false));
    assert_eq!(lifted_z_index(5), DATE_PICKER_OVERLAY_Z);
    assert_eq!(lifted_z_index(50_000), 50_000);
}

#[test]
fn placeholders_and_visuals() {
    let dmy = DatePattern { order: DateFieldOrder::DayMonthYear, separator: '.' };
    assert_eq!(field_placeholder("", dmy, PickerSelectionMode::Range), "DD.MM.YYYY - DD.MM.YYYY");
    assert_eq!(field_placeholder(" Pick ", dmy, PickerSelectionMode::Single), " Pick ");

    let mut s = new_picker_state("", None, None, dmy, PickerSelectionMode::Single, d(2024, 2, 1));
    let mut u = ui();
    let v = refresh_visuals(&mut s, &u, "", None, None, "", dmy, PickerSelectionMode::Single);
    assert!(!v.has_value && !v.float_label);
    assert_eq!(v.field_text, "");
    u.focused = true;
    let v = refresh_visuals(&mut s, &u, "", None, None, "", dmy, PickerSelectionMode::Single);
    assert!(v.float_label);
    assert_eq!(v.field_text, "DD.MM.YYYY");
    let v = refresh_visuals(&mut s, &u, "01.02.2024", None, None, "", dmy, PickerSelectionMode::Single);
    assert!(v.has_value);
    assert_eq!(v.field_text, "01.02.2024");
    assert_eq!(s.selected, Some(d(2024, 2, 1)));
}

#[test]
fn month_and_year_lists() {
    let mut s = new_picker_state("2024-03-05", Some(d(2024, 3, 1)), Some(d(2026, 1, 1)), ymd(), PickerSelectionMode::Single, d(2020, 1, 1));
    let mut u = ui();
    u.open = true;
    s.year_list_open = true;
    let layout = panel_layout(&s, &u);
    assert!(layout.show_year_list && !layout.show_month_list && !layout.show_calendar);

    let mut button = ui();
    button.hovered = true;
    sync_header_toggle(&mut button, false);
    assert!(!button.checked && !button.hovered);

    let mut option = ui();
    sync_year_option(&mut option, 2024, &s, true);
    assert!(option.checked && !option.disabled);
    sync_year_option(&mut option, 2030, &s, true);
    assert!(!option.checked && option.disabled);

    let mut month = ui();
    sync_month_option(&mut month, 2, &s, false, true);
    assert!(month.disabled);
    sync_month_option(&mut month, 3, &s, false, true);
    assert!(month.checked && !month.disabled);
}
