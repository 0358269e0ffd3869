//! The date picker's state machine: what each click does to the calendar
//! view, the selection and the popover, how the picker's text value and the
//! bound input field are kept in step, and how each day cell is marked.

use vstd::prelude::*;

use crate::date::{
    build_calendar_cells, calendar_fits, clamp_date_to_bounds, days_in_month, in_selected_range,
    is_date_allowed, is_month_allowed, resolve_year_range, shift_month, shift_month_fits,
    spec_calendar_cell, spec_clamp_raw, spec_date_le, spec_date_lt, spec_days_in_month, spec_in_selected_range,
    spec_is_date_allowed, spec_is_month_allowed, spec_shift_month, spec_visible_rows,
    spec_year_range, visible_calendar_row_count, SimpleDate,
};
use crate::date_format::{
    default_placeholder_for_format, format_for_display, format_range_for_display, parse_picker_date,
    parse_picker_range, spec_format_for_display, spec_format_range, spec_parse_picker_date,
    spec_parse_picker_range, spec_placeholder, DatePattern, PickerSelectionMode,
};
use crate::text::{chars_of, extend_with_str, spec_trim, string_from_chars, trim_chars};
use crate::widget_state::UIWidgetState;

verus! {

/// Runtime state of one date picker: its selection, bounds, calendar view
/// and which header lists are open.
#[derive(Clone, Copy, Debug, PartialEq, Eq, Structural)]
pub struct DatePickerState {
    pub selected: Option<SimpleDate>,
    pub range_start: Option<SimpleDate>,
    pub range_end: Option<SimpleDate>,
    pub min: Option<SimpleDate>,
    pub max: Option<SimpleDate>,
    pub view_year: i32,
    pub view_month: u32,
    pub month_list_open: bool,
    pub year_list_open: bool,
    pub year_list_centered: bool,
    pub pending_bound_write_back: bool,
    pub year_start: i32,
    pub year_end: i32,
}

/// The z-index a picker (and its bound input) is lifted to while open.
pub const DATE_PICKER_OVERLAY_Z: i32 = 40000;

// ------------------------------------------------------------------
// Selection held by a text value
// ------------------------------------------------------------------

/// The selection a picker value holds, as `(selected, range_start,
/// range_end)`: in single mode the date it reads as; in range mode the range
/// it reads as, the selected date being its end, or its start while open.
pub open spec fn spec_parsed_selection(
    value: Seq<char>,
    pattern: DatePattern,
    mode: PickerSelectionMode,
) -> (Option<SimpleDate>, Option<SimpleDate>, Option<SimpleDate>) {
    match mode {
        PickerSelectionMode::Single => (spec_parse_picker_date(value, pattern), None, None),
        PickerSelectionMode::Range => {
            let r = spec_parse_picker_range(value, pattern);
            let start: Option<SimpleDate> = match r {
                Some((s, _)) => Some(s),
                None => None,
            };
            let end: Option<SimpleDate> = match r {
                Some((_, e)) => e,
                None => None,
            };
            (
                match end {
                    Some(e) => Some(e),
                    None => start,
                },
                start,
                end,
            )
        },
    }
}

fn parsed_selection(value: &Vec<char>, pattern: DatePattern, mode: PickerSelectionMode) -> (r: (
    Option<SimpleDate>,
    Option<SimpleDate>,
    Option<SimpleDate>,
))
    ensures
        r == spec_parsed_selection(value@, pattern, mode),
{
    match mode {
        PickerSelectionMode::Single => (parse_picker_date(value, pattern), None, None),
        PickerSelectionMode::Range => {
            let r = parse_picker_range(value, pattern);
            let start = match r {
                Some((s, _)) => Some(s),
                None => None,
            };
            let end = match r {
                Some((_, e)) => e,
                None => None,
            };
            let selected = match end {
                Some(e) => Some(e),
                None => start,
            };
            (selected, start, end)
        },
    }
}

/// A bound (`min` or `max` attribute) as a date, when given and readable.
pub open spec fn spec_parse_bound(text: Option<Seq<char>>, pattern: DatePattern) -> Option<SimpleDate> {
    match text {
        Some(t) => spec_parse_picker_date(t, pattern),
        None => None,
    }
}

/// Reads a `min` or `max` attribute.
pub fn parse_bound(text: Option<&str>, pattern: DatePattern) -> (r: Option<SimpleDate>)
    ensures
        r == spec_parse_bound(
            match text {
                Some(t) => Some(t@),
                None => None,
            },
            pattern,
        ),
{
    match text {
        Some(t) => parse_picker_date(&chars_of(t), pattern),
        None => None,
    }
}

/// The state of a new picker: the selection its value holds, its bounds,
/// the calendar showing the selected date (or `today`), lists closed, and the
/// year list spanning the bounds and the shown year.
pub open spec fn spec_new_picker_state(
    value: Seq<char>,
    min: Option<SimpleDate>,
    max: Option<SimpleDate>,
    pattern: DatePattern,
    mode: PickerSelectionMode,
    today: SimpleDate,
) -> DatePickerState {
    let (selected, range_start, range_end) = spec_parsed_selection(value, pattern, mode);
    let start = match selected {
        Some(d) => d,
        None => today,
    };
    let (ys, ye) = spec_year_range(min, max, start.year as int);
    DatePickerState {
        selected,
        range_start,
        range_end,
        min,
        max,
        view_year: start.year,
        view_month: start.month,
        month_list_open: false,
        year_list_open: false,
        year_list_centered: false,
        pending_bound_write_back: false,
        year_start: ys as i32,
        year_end: ye as i32,
    }
}

/// Creates the state of a picker whose value is `value`.
pub fn new_picker_state(
    value: &str,
    min: Option<SimpleDate>,
    max: Option<SimpleDate>,
    pattern: DatePattern,
    mode: PickerSelectionMode,
    today: SimpleDate,
) -> (s: DatePickerState)
    ensures
        s == spec_new_picker_state(value@, min, max, pattern, mode, today),
{
    let v = chars_of(value);
    let (selected, range_start, range_end) = parsed_selection(&v, pattern, mode);
    let start = match selected {
        Some(d) => d,
        None => today,
    };
    let (year_start, year_end) = resolve_year_range(min, max, start.year);
    DatePickerState {
        selected,
        range_start,
        range_end,
        min,
        max,
        view_year: start.year,
        view_month: start.month,
        month_list_open: false,
        year_list_open: false,
        year_list_centered: false,
        pending_bound_write_back: false,
        year_start,
        year_end,
    }
}

/// The text that shows the selection: the selected date in single mode, the
/// range in range mode (empty when nothing is selected).
pub open spec fn spec_selection_text(
    s: DatePickerState,
    pattern: DatePattern,
    mode: PickerSelectionMode,
) -> Seq<char> {
    match mode {
        PickerSelectionMode::Single => match s.selected {
            Some(d) => spec_format_for_display(d, pattern),
            None => Seq::empty(),
        },
        PickerSelectionMode::Range => spec_format_range(s.range_start, s.range_end, pattern),
    }
}

/// The text of the picker's selection.
pub fn selection_text(state: &DatePickerState, pattern: DatePattern, mode: PickerSelectionMode) -> (t:
    String)
    ensures
        t@ == spec_selection_text(*state, pattern, mode),
{
    match mode {
        PickerSelectionMode::Single => match state.selected {
            Some(d) => format_for_display(d, pattern),
            None => String::new(),
        },
        PickerSelectionMode::Range => format_range_for_display(
            state.range_start,
            state.range_end,
            pattern,
        ),
    }
}

/// The state after taking over the selection that the text `value` holds:
/// when it differs from the current selection, the selection is replaced
/// (a single date clears the range) and the calendar moves to the new
/// selected date, if any.
pub open spec fn spec_apply_value(
    s: DatePickerState,
    value: Seq<char>,
    pattern: DatePattern,
    mode: PickerSelectionMode,
) -> DatePickerState {
    let (sel, start, end) = spec_parsed_selection(value, pattern, mode);
    let changed = match mode {
        PickerSelectionMode::Single => sel != s.selected,
        PickerSelectionMode::Range => start != s.range_start || end != s.range_end || sel
            != s.selected,
    };
    if !changed {
        s
    } else {
        let s1 = DatePickerState { selected: sel, range_start: start, range_end: end, ..s };
        match sel {
            Some(d) => DatePickerState { view_year: d.year, view_month: d.month, ..s1 },
            None => s1,
        }
    }
}

/// Takes over the selection that the text `value` holds.
pub fn apply_picker_value(
    state: &mut DatePickerState,
    value: &str,
    pattern: DatePattern,
    mode: PickerSelectionMode,
)
    ensures
        *final(state) == spec_apply_value(*old(state), value@, pattern, mode),
{
    let v = chars_of(value);
    let (sel, start, end) = parsed_selection(&v, pattern, mode);
    let changed = match mode {
        PickerSelectionMode::Single => sel != state.selected,
        PickerSelectionMode::Range => start != state.range_start || end != state.range_end || sel
            != state.selected,
    };
    if changed {
        state.selected = sel;
        state.range_start = start;
        state.range_end = end;
        if let Some(d) = sel {
            state.view_year = d.year;
            state.view_month = d.month;
        }
    }
}

/// Re-reads the bounds and re-derives the year list from them and the shown
/// year.
pub fn refresh_bounds(state: &mut DatePickerState, min: Option<SimpleDate>, max: Option<SimpleDate>)
    ensures
        *final(state) == (DatePickerState {
            min,
            max,
            year_start: spec_year_range(min, max, old(state).view_year as int).0 as i32,
            year_end: spec_year_range(min, max, old(state).view_year as int).1 as i32,
            ..*old(state)
        }),
{
    state.min = min;
    state.max = max;
    let (ys, ye) = resolve_year_range(min, max, state.view_year);
    state.year_start = ys;
    state.year_end = ye;
}

// ------------------------------------------------------------------
// Popover and header lists
// ------------------------------------------------------------------

/// The popover closed: `open` and `checked` cleared and both lists closed.
pub open spec fn spec_closed(s: DatePickerState, ui: UIWidgetState) -> (DatePickerState, UIWidgetState) {
    (
        DatePickerState { month_list_open: false, year_list_open: false, year_list_centered: false, ..s },
        UIWidgetState { open: false, checked: false, ..ui },
    )
}

/// Closes the popover of a picker (another picker was opened).
pub fn close_popover(state: &mut DatePickerState, ui: &mut UIWidgetState)
    ensures
        (*final(state), *final(ui)) == spec_closed(*old(state), *old(ui)),
{
    ui.open = false;
    ui.checked = false;
    state.month_list_open = false;
    state.year_list_open = false;
    state.year_list_centered = false;
}

/// Closes the popover of a picker that lost focus while open.
pub fn close_if_unfocused(state: &mut DatePickerState, ui: &mut UIWidgetState)
    ensures
        (*final(state), *final(ui)) == (if !old(ui).focused && old(ui).open {
            spec_closed(*old(state), *old(ui))
        } else {
            (*old(state), *old(ui))
        }),
{
    if !ui.focused && ui.open {
        close_popover(state, ui);
    }
}

/// A click on the picker field: unless disabled, the picker takes focus and
/// its popover toggles (closing the lists when it closes).  Returns whether
/// the click was taken; the other pickers are then closed.
pub fn on_field_click(state: &mut DatePickerState, ui: &mut UIWidgetState) -> (taken: bool)
    ensures
        taken == !old(ui).disabled,
        !taken ==> *final(state) == *old(state) && *final(ui) == *old(ui),
        taken ==> final(ui).focused && final(ui).open == !old(ui).open && final(ui).checked
            == !old(ui).open && *final(ui) == (UIWidgetState {
            focused: true,
            open: !old(ui).open,
            checked: !old(ui).open,
            ..*old(ui)
        }),
        taken ==> *final(state) == (if old(ui).open {
            spec_closed(*old(state), *old(ui)).0
        } else {
            *old(state)
        }),
{
    if ui.disabled {
        return false;
    }
    let new_open = !ui.open;
    ui.focused = true;
    ui.open = new_open;
    ui.checked = new_open;
    if !new_open {
        state.month_list_open = false;
        state.year_list_open = false;
        state.year_list_centered = false;
    }
    true
}

/// The popover shown and focused: `focused`, `open` and `checked` set.
pub open spec fn spec_shown(ui: UIWidgetState) -> UIWidgetState {
    UIWidgetState { focused: true, open: true, checked: true, ..ui }
}

fn show(ui: &mut UIWidgetState)
    ensures
        *final(ui) == spec_shown(*old(ui)),
{
    ui.focused = true;
    ui.open = true;
    ui.checked = true;
}

/// The previous (`delta == -1`) or next (`delta == 1`) month button: unless
/// disabled, the calendar moves by `delta` months, the lists close and the
/// popover stays shown.  Returns whether the click was taken.
pub fn on_month_step(state: &mut DatePickerState, ui: &mut UIWidgetState, delta: i32) -> (taken: bool)
    requires
        old(ui).disabled || shift_month_fits(
            old(state).view_year as int,
            old(state).view_month as int,
            delta as int,
        ),
    ensures
        taken == !old(ui).disabled,
        !taken ==> *final(state) == *old(state) && *final(ui) == *old(ui),
        taken ==> *final(ui) == spec_shown(*old(ui)),
        taken ==> *final(state) == (DatePickerState {
            view_year: spec_shift_month(
                old(state).view_year as int,
                old(state).view_month as int,
                delta as int,
            ).0 as i32,
            view_month: spec_shift_month(
                old(state).view_year as int,
                old(state).view_month as int,
                delta as int,
            ).1 as u32,
            month_list_open: false,
            year_list_open: false,
            year_list_centered: false,
            ..*old(state)
        }),
{
    if ui.disabled {
        return false;
    }
    let (year, month) = shift_month(state.view_year, state.view_month, delta);
    state.view_year = year;
    state.view_month = month;
    state.month_list_open = false;
    state.year_list_open = false;
    state.year_list_centered = false;
    show(ui);
    true
}

/// The month header button: unless disabled, toggles the month list and
/// closes the year list.
pub fn on_month_toggle(state: &mut DatePickerState, ui: &mut UIWidgetState) -> (taken: bool)
    ensures
        taken == !old(ui).disabled,
        !taken ==> *final(state) == *old(state) && *final(ui) == *old(ui),
        taken ==> *final(ui) == spec_shown(*old(ui)),
        taken ==> *final(state) == (DatePickerState {
            month_list_open: !old(state).month_list_open,
            year_list_open: false,
            year_list_centered: false,
            ..*old(state)
        }),
{
    if ui.disabled {
        return false;
    }
    state.month_list_open = !state.month_list_open;
    state.year_list_open = false;
    state.year_list_centered = false;
    show(ui);
    true
}

/// The year header button: unless disabled, toggles the year list and
/// closes the month list.
pub fn on_year_toggle(state: &mut DatePickerState, ui: &mut UIWidgetState) -> (taken: bool)
    ensures
        taken == !old(ui).disabled,
        !taken ==> *final(state) == *old(state) && *final(ui) == *old(ui),
        taken ==> *final(ui) == spec_shown(*old(ui)),
        taken ==> *final(state) == (DatePickerState {
            year_list_open: !old(state).year_list_open,
            month_list_open: false,
            year_list_centered: false,
            ..*old(state)
        }),
{
    if ui.disabled {
        return false;
    }
    state.year_list_open = !state.year_list_open;
    state.month_list_open = false;
    state.year_list_centered = false;
    show(ui);
    true
}


// ------------------------------------------------------------------
// Choosing a month, a year or a day
// ------------------------------------------------------------------

/// The smaller of two integers.
pub open spec fn spec_min(a: int, b: int) -> int {
    if a < b {
        a
    } else {
        b
    }
}

/// The date moved into the bounds, or left as it is when the bounds cannot
/// hold it.
pub open spec fn spec_clamp_or_keep(d: SimpleDate, min: Option<SimpleDate>, max: Option<SimpleDate>) -> SimpleDate {
    if spec_is_date_allowed(spec_clamp_raw(d, min, max), min, max) {
        spec_clamp_raw(d, min, max)
    } else {
        d
    }
}

fn clamp_or_keep(d: SimpleDate, min: Option<SimpleDate>, max: Option<SimpleDate>) -> (r: SimpleDate)
    ensures
        r == spec_clamp_or_keep(d, min, max),
{
    match clamp_date_to_bounds(d, min, max) {
        Some(c) => c,
        None => d,
    }
}

/// The date that a choice in the header lists selects: `year`, `month` and
/// `day`, the day cut to the length of the month, then moved into the
/// bounds.
pub open spec fn spec_list_choice(s: DatePickerState, year: int, month: int, day: int) -> SimpleDate {
    spec_clamp_or_keep(
        SimpleDate {
            year: year as i32,
            month: month as u32,
            day: spec_min(day, spec_days_in_month(year, month)) as u32,
        },
        s.min,
        s.max,
    )
}

/// The state after a header-list choice selected `date` in single mode.
pub open spec fn spec_select(s: DatePickerState, date: SimpleDate) -> DatePickerState {
    DatePickerState {
        selected: Some(date),
        view_year: date.year,
        view_month: date.month,
        pending_bound_write_back: true,
        ..s
    }
}

fn list_choice(state: &DatePickerState, year: i32, month: u32, day: u32) -> (r: SimpleDate)
    ensures
        r == spec_list_choice(*state, year as int, month as int, day as int),
{
    let dim = days_in_month(year, month);
    let d = if day < dim {
        day
    } else {
        dim
    };
    clamp_or_keep(SimpleDate { year, month, day: d }, state.min, state.max)
}

/// The month a month-list click asks for, and whether it is taken: a click
/// on an option needs a month `1..=12`; a click on the list itself (the
/// option under the pointer) needs the list open and cuts the month into
/// `1..=12`.  Either way the picker must be enabled and some day of the
/// month must lie within the bounds.
pub open spec fn spec_month_request(
    s: DatePickerState,
    ui: UIWidgetState,
    month: int,
    from_list: bool,
) -> (bool, int) {
    let m = if from_list {
        if month < 1 {
            1
        } else if month > 12 {
            12
        } else {
            month
        }
    } else {
        month
    };
    let ok = !ui.disabled && (from_list ==> s.month_list_open) && (!from_list ==> 1 <= month
        <= 12) && spec_is_month_allowed(s.view_year as int, m, s.min, s.max);
    (ok, m)
}

/// Chooses `month` in the month list.  When taken, the calendar shows that
/// month of the shown year and the lists close; in single mode the date with
/// the selected day (or the 1st) in that month is selected and its text is
/// returned, to be written to the picker and its bound input.  In range mode
/// only the view changes.  The popover stays shown either way.
pub fn on_month_choice(
    state: &mut DatePickerState,
    ui: &mut UIWidgetState,
    month: u32,
    from_list: bool,
    pattern: DatePattern,
    mode: PickerSelectionMode,
) -> (written: Option<String>)
    ensures
        ({
            let (ok, m) = spec_month_request(*old(state), *old(ui), month as int, from_list);
            let s1 = DatePickerState {
                view_month: m as u32,
                month_list_open: false,
                year_list_open: false,
                year_list_centered: false,
                ..*old(state)
            };
            let day: int = match old(state).selected {
                Some(d) => d.day as int,
                None => 1,
            };
            let date = spec_list_choice(*old(state), old(state).view_year as int, m, day);
            &&& !ok ==> *final(state) == *old(state) && *final(ui) == *old(ui) && written is None
            &&& ok ==> *final(ui) == spec_shown(*old(ui))
            &&& (ok && mode == PickerSelectionMode::Range) ==> *final(state) == s1 && written is None
            &&& (ok && mode == PickerSelectionMode::Single) ==> *final(state) == spec_select(s1, date)
                && written is Some && written->0@ == spec_format_for_display(date, pattern)
        }),
{
    if ui.disabled {
        return None;
    }
    let m = if from_list {
        if !state.month_list_open {
            return None;
        }
        if month < 1 {
            1
        } else if month > 12 {
            12
        } else {
            month
        }
    } else {
        if !(1 <= month && month <= 12) {
            return None;
        }
        month
    };
    if !is_month_allowed(state.view_year, m, state.min, state.max) {
        return None;
    }
    state.view_month = m;
    state.month_list_open = false;
    state.year_list_open = false;
    state.year_list_centered = false;
    let day = match state.selected {
        Some(d) => d.day,
        None => 1,
    };
    let date = list_choice(state, state.view_year, m, day);
    show(ui);
    match mode {
        PickerSelectionMode::Range => None,
        PickerSelectionMode::Single => {
            state.selected = Some(date);
            state.view_year = date.year;
            state.view_month = date.month;
            state.pending_bound_write_back = true;
            Some(format_for_display(date, pattern))
        },
    }
}

/// The year a year-list click asks for, and whether it is taken: a click on
/// an option needs a year within the list's span; a click on the list itself
/// needs the list open and moves the year into the span.  Either way the
/// picker must be enabled.
pub open spec fn spec_year_request(
    s: DatePickerState,
    ui: UIWidgetState,
    year: int,
    from_list: bool,
) -> (bool, int) {
    let y = if from_list {
        if year < s.year_start {
            s.year_start as int
        } else if year > s.year_end {
            s.year_end as int
        } else {
            year
        }
    } else {
        year
    };
    let ok = !ui.disabled && (from_list ==> s.year_list_open) && (!from_list ==> s.year_start <= year
        <= s.year_end);
    (ok, y)
}

/// Chooses `year` in the year list.  When taken, the calendar shows that
/// year and the lists close; in single mode the selected month and day (or
/// the shown month and the 1st) in that year are selected and the text is
/// returned.  In range mode only the view changes.
pub fn on_year_choice(
    state: &mut DatePickerState,
    ui: &mut UIWidgetState,
    year: i32,
    from_list: bool,
    pattern: DatePattern,
    mode: PickerSelectionMode,
) -> (written: Option<String>)
    requires
        old(state).year_start <= old(state).year_end,
    ensures
        ({
            let (ok, y) = spec_year_request(*old(state), *old(ui), year as int, from_list);
            let s1 = DatePickerState {
                view_year: y as i32,
                month_list_open: false,
                year_list_open: false,
                year_list_centered: false,
                ..*old(state)
            };
            let (month, day): (int, int) = match old(state).selected {
                Some(d) => (d.month as int, d.day as int),
                None => (old(state).view_month as int, 1),
            };
            let date = spec_list_choice(*old(state), y, month, day);
            &&& !ok ==> *final(state) == *old(state) && *final(ui) == *old(ui) && written is None
            &&& ok ==> *final(ui) == spec_shown(*old(ui))
            &&& (ok && mode == PickerSelectionMode::Range) ==> *final(state) == s1 && written is None
            &&& (ok && mode == PickerSelectionMode::Single) ==> *final(state) == spec_select(s1, date)
                && written is Some && written->0@ == spec_format_for_display(date, pattern)
        }),
{
    if ui.disabled {
        return None;
    }
    let y = if from_list {
        if !state.year_list_open {
            return None;
        }
        if year < state.year_start {
            state.year_start
        } else if year > state.year_end {
            state.year_end
        } else {
            year
        }
    } else {
        if year < state.year_start || year > state.year_end {
            return None;
        }
        year
    };
    state.view_year = y;
    state.month_list_open = false;
    state.year_list_open = false;
    state.year_list_centered = false;
    let (month, day) = match state.selected {
        Some(d) => (d.month, d.day),
        None => (state.view_month, 1),
    };
    let date = list_choice(state, y, month, day);
    show(ui);
    match mode {
        PickerSelectionMode::Range => None,
        PickerSelectionMode::Single => {
            state.selected = Some(date);
            state.view_year = date.year;
            state.view_month = date.month;
            state.pending_bound_write_back = true;
            Some(format_for_display(date, pattern))
        },
    }
}

/// The selection after clicking the day `date` in range mode, as
/// `(selected, range_start, range_end)`: a click with no range, or a
/// complete one, starts a new range at `date`; a click while only the start
/// is set completes the range, the earlier date becoming its start.
pub open spec fn spec_range_click(s: DatePickerState, date: SimpleDate) -> (
    Option<SimpleDate>,
    Option<SimpleDate>,
    Option<SimpleDate>,
) {
    match (s.range_start, s.range_end) {
        (Some(start), None) => if spec_date_lt(date, start) {
            (Some(start), Some(date), Some(start))
        } else {
            (Some(date), Some(start), Some(date))
        },
        _ => (Some(date), Some(date), None),
    }
}

/// Clicks the day cell `index` of the grid.  A click is taken when the
/// picker is enabled, the cell is one of the shown rows, and its date lies
/// within the bounds.  The calendar then shows the cell's month and the lists
/// close.  In single mode the date is selected (clearing any range) and the
/// popover closes; in range mode the range grows as `spec_range_click` says
/// and the popover stays open.  The returned text shows the new selection.
pub fn on_day_click(
    state: &mut DatePickerState,
    ui: &mut UIWidgetState,
    index: usize,
    pattern: DatePattern,
    mode: PickerSelectionMode,
) -> (written: Option<String>)
    requires
        calendar_fits(old(state).view_year as int, old(state).view_month as int),
    ensures
        ({
            let vy = old(state).view_year as int;
            let vm = old(state).view_month as int;
            let ok = !old(ui).disabled && index < spec_visible_rows(vy, vm) * 7
                && spec_is_date_allowed(spec_calendar_cell(vy, vm, index as int).date, old(state).min, old(state).max);
            let date = spec_calendar_cell(vy, vm, index as int).date;
            let s1 = DatePickerState {
                view_year: date.year,
                view_month: date.month,
                month_list_open: false,
                year_list_open: false,
                year_list_centered: false,
                pending_bound_write_back: true,
                ..*old(state)
            };
            let (sel, start, end) = spec_range_click(*old(state), date);
            &&& !ok ==> *final(state) == *old(state) && *final(ui) == *old(ui) && written is None
            &&& (ok && mode == PickerSelectionMode::Single) ==> *final(state) == (DatePickerState {
                selected: Some(date),
                range_start: None,
                range_end: None,
                ..s1
            }) && *final(ui) == (UIWidgetState { focused: true, open: false, checked: false, ..*old(ui) })
                && written is Some && written->0@ == spec_format_for_display(date, pattern)
            &&& (ok && mode == PickerSelectionMode::Range) ==> *final(state) == (DatePickerState {
                selected: sel,
                range_start: start,
                range_end: end,
                ..s1
            }) && *final(ui) == spec_shown(*old(ui)) && written is Some && written->0@
                == spec_format_range(start, end, pattern)
        }),
{
    if ui.disabled {
        return None;
    }
    let cells = build_calendar_cells(state.view_year, state.view_month);
    let rows = visible_calendar_row_count(state.view_year, state.view_month);
    if index >= rows * 7 {
        return None;
    }
    let cell = cells[index];
    if !is_date_allowed(cell.date, state.min, state.max) {
        return None;
    }
    let date = cell.date;
    state.view_year = date.year;
    state.view_month = date.month;
    state.month_list_open = false;
    state.year_list_open = false;
    state.year_list_centered = false;
    state.pending_bound_write_back = true;
    match mode {
        PickerSelectionMode::Single => {
            state.selected = Some(date);
            state.range_start = None;
            state.range_end = None;
            ui.focused = true;
            ui.open = false;
            ui.checked = false;
            Some(format_for_display(date, pattern))
        },
        PickerSelectionMode::Range => {
            match (state.range_start, state.range_end) {
                (Some(start), None) => {
                    if date.precedes(&start) {
                        state.range_start = Some(date);
                        state.range_end = Some(start);
                        state.selected = Some(start);
                    } else {
                        state.range_start = Some(start);
                        state.range_end = Some(date);
                        state.selected = Some(date);
                    }
                },
                _ => {
                    state.range_start = Some(date);
                    state.range_end = None;
                    state.selected = Some(date);
                },
            }
            show(ui);
            Some(format_range_for_display(state.range_start, state.range_end, pattern))
        },
    }
}


// ------------------------------------------------------------------
// Keeping the picker and its bound input in step
// ------------------------------------------------------------------

/// The text written back to the bound input: the current selection when
/// there is one; else the picker's value re-shown when it reads as a date (or
/// range); else the value itself unless it is blank; else nothing.
pub open spec fn spec_write_back_value(
    s: DatePickerState,
    value: Seq<char>,
    pattern: DatePattern,
    mode: PickerSelectionMode,
) -> Seq<char> {
    match mode {
        PickerSelectionMode::Single => match s.selected {
            Some(d) => spec_format_for_display(d, pattern),
            None => match spec_parse_picker_date(value, pattern) {
                Some(d) => spec_format_for_display(d, pattern),
                None => if spec_trim(value).len() > 0 {
                    value
                } else {
                    Seq::empty()
                },
            },
        },
        PickerSelectionMode::Range => if s.range_start is Some {
            spec_format_range(s.range_start, s.range_end, pattern)
        } else {
            match spec_parse_picker_range(value, pattern) {
                Some((st, e)) => spec_format_range(Some(st), e, pattern),
                None => if spec_trim(value).len() > 0 {
                    value
                } else {
                    Seq::empty()
                },
            }
        },
    }
}

/// The text to write back to the bound input.
pub fn write_back_value(
    state: &DatePickerState,
    value: &str,
    pattern: DatePattern,
    mode: PickerSelectionMode,
) -> (t: String)
    ensures
        t@ == spec_write_back_value(*state, value@, pattern, mode),
{
    let v = chars_of(value);
    match mode {
        PickerSelectionMode::Single => match state.selected {
            Some(d) => format_for_display(d, pattern),
            None => match parse_picker_date(&v, pattern) {
                Some(d) => format_for_display(d, pattern),
                None => if trim_chars(&v).len() > 0 {
                    string_from_chars(&v)
                } else {
                    String::new()
                },
            },
        },
        PickerSelectionMode::Range => if state.range_start.is_some() {
            format_range_for_display(state.range_start, state.range_end, pattern)
        } else {
            match parse_picker_range(&v, pattern) {
                Some((st, e)) => format_range_for_display(Some(st), e, pattern),
                None => if trim_chars(&v).len() > 0 {
                    string_from_chars(&v)
                } else {
                    String::new()
                },
            }
        },
    }
}

/// The text a picker reads from its bound input: the input's value unless it
/// is blank, else the input's text.
pub open spec fn spec_bound_text(target_text: Seq<char>, target_value: Seq<char>) -> Seq<char> {
    if spec_trim(target_value).len() > 0 {
        target_value
    } else {
        target_text
    }
}

/// What one synchronisation with the bound input decided.
pub struct BoundSync {
    /// Text to write to the bound input's text and value, if any.
    pub write_target: Option<String>,
    /// The picker's new value.
    pub picker_value: String,
    /// The text that shows the picker's selection afterwards.
    pub selection_text: String,
}

/// Synchronises a picker with the input it is bound to (an input of a
/// date or range type).  With a write-back pending, the picker's text is
/// written to the input and the picker is focused when it or the input is
/// the focused widget.  Otherwise, when the input is focused, the popover
/// opens and the picker reads the input's text (normalised); when only the
/// picker is focused, its non-empty text is written to the input; when
/// neither is, the picker loses focus and reads the input's text.  Finally
/// the picker takes over the selection its new value holds.
pub fn sync_bound_target(
    state: &mut DatePickerState,
    ui: &mut UIWidgetState,
    picker_value: &str,
    target_text: &str,
    target_value: &str,
    pattern: DatePattern,
    mode: PickerSelectionMode,
    target_active: bool,
    picker_active: bool,
) -> (r: BoundSync)
    ensures
        ({
            let wb = spec_write_back_value(*old(state), picker_value@, pattern, mode);
            let read = crate::date_format::spec_normalize_bound_value(
                spec_bound_text(target_text@, target_value@),
                pattern,
                mode,
            );
            let (s1, ui1, value, write): (DatePickerState, UIWidgetState, Seq<char>, Option<Seq<char>>) =
                if old(state).pending_bound_write_back {
                (
                    DatePickerState { pending_bound_write_back: false, ..*old(state) },
                    UIWidgetState { focused: target_active || picker_active, ..*old(ui) },
                    picker_value@,
                    Some(wb),
                )
            } else if target_active {
                (*old(state), spec_shown(*old(ui)), read, None)
            } else if picker_active {
                (
                    *old(state),
                    UIWidgetState { focused: true, ..*old(ui) },
                    picker_value@,
                    if wb.len() > 0 {
                        Some(wb)
                    } else {
                        None
                    },
                )
            } else {
                (*old(state), UIWidgetState { focused: false, ..*old(ui) }, read, None)
            };
            let s2 = spec_apply_value(s1, value, pattern, mode);
            &&& *final(state) == s2
            &&& *final(ui) == ui1
            &&& r.picker_value@ == value
            &&& r.selection_text@ == spec_selection_text(s2, pattern, mode)
            &&& match write {
                Some(w) => r.write_target is Some && r.write_target->0@ == w,
                None => r.write_target is None,
            }
        }),
{
    let mut value = chars_of(picker_value);
    let mut write: Option<String> = None;
    if state.pending_bound_write_back {
        write = Some(write_back_value(state, picker_value, pattern, mode));
        state.pending_bound_write_back = false;
        ui.focused = target_active || picker_active;
    } else if target_active {
        show(ui);
        let tv = chars_of(target_value);
        let bound = if trim_chars(&tv).len() > 0 {
            target_value
        } else {
            target_text
        };
        value = chars_of(&crate::date_format::normalize_bound_value_for_mode(bound, pattern, mode));
    } else if picker_active {
        ui.focused = true;
        let wb = write_back_value(state, picker_value, pattern, mode);
        if wb.as_str().unicode_len() > 0 {
            write = Some(wb);
        }
    } else {
        ui.focused = false;
        let tv = chars_of(target_value);
        let bound = if trim_chars(&tv).len() > 0 {
            target_value
        } else {
            target_text
        };
        value = chars_of(&crate::date_format::normalize_bound_value_for_mode(bound, pattern, mode));
    }
    let value_string = string_from_chars(&value);
    apply_picker_value(state, value_string.as_str(), pattern, mode);
    let text = selection_text(state, pattern, mode);
    BoundSync { write_target: write, picker_value: value_string, selection_text: text }
}

/// The popover of a picker whose bound input is missing or of the wrong type
/// closes and the picker loses focus.
pub fn detach_from_target(state: &mut DatePickerState, ui: &mut UIWidgetState)
    ensures
        *final(state) == spec_closed(*old(state), *old(ui)).0,
        *final(ui) == (UIWidgetState { focused: false, ..spec_closed(*old(state), *old(ui)).1 }),
{
    close_popover(state, ui);
    ui.focused = false;
}

/// Whether the bound input is lifted above other content: while the popover
/// or a header list is open, or the picker or the input is focused.
pub open spec fn spec_should_lift_target(
    s: DatePickerState,
    ui: UIWidgetState,
    picker_active: bool,
    target_active: bool,
) -> bool {
    ui.open || picker_active || target_active || s.month_list_open || s.year_list_open
}

/// Whether the bound input must be lifted above other content.
pub fn should_lift_target(
    state: &DatePickerState,
    ui: &UIWidgetState,
    picker_active: bool,
    target_active: bool,
) -> (b: bool)
    ensures
        b == spec_should_lift_target(*state, *ui, picker_active, target_active),
{
    ui.open || picker_active || target_active || state.month_list_open || state.year_list_open
}

/// The z-index of a lifted input: at least the overlay level.
pub fn lifted_z_index(current: i32) -> (z: i32)
    ensures
        z == (if current < DATE_PICKER_OVERLAY_Z {
            DATE_PICKER_OVERLAY_Z
        } else {
            current
        }),
{
    if current < DATE_PICKER_OVERLAY_Z {
        DATE_PICKER_OVERLAY_Z
    } else {
        current
    }
}

// ------------------------------------------------------------------
// What the picker shows
// ------------------------------------------------------------------

/// Whether the picker holds a selection to show.
pub open spec fn spec_has_value(s: DatePickerState, mode: PickerSelectionMode) -> bool {
    match mode {
        PickerSelectionMode::Single => s.selected is Some,
        PickerSelectionMode::Range => s.range_start is Some,
    }
}

/// What one visual refresh of a picker decided.
pub struct PickerVisuals {
    /// The picker's new value (the text of its selection).
    pub value: String,
    /// Whether a selection is shown.
    pub has_value: bool,
    /// Whether the label floats above the field.
    pub float_label: bool,
    /// The text shown in the field: the selection, else (while the label
    /// floats) the placeholder, else nothing.
    pub field_text: String,
    /// Whether the popover is shown (and lifted).
    pub popover_shown: bool,
}

/// The placeholder of a field: the configured one unless blank; else the
/// pattern's placeholder, doubled around ` - ` for a range.
pub open spec fn spec_field_placeholder(
    custom: Seq<char>,
    pattern: DatePattern,
    mode: PickerSelectionMode,
) -> Seq<char> {
    if spec_trim(custom).len() > 0 {
        custom
    } else {
        match mode {
            PickerSelectionMode::Single => spec_placeholder(pattern),
            PickerSelectionMode::Range => spec_placeholder(pattern) + " - "@ + spec_placeholder(pattern),
        }
    }
}

/// The placeholder of a field.
pub fn field_placeholder(custom: &str, pattern: DatePattern, mode: PickerSelectionMode) -> (t: String)
    ensures
        t@ == spec_field_placeholder(custom@, pattern, mode),
{
    let c = chars_of(custom);
    if trim_chars(&c).len() > 0 {
        return string_from_chars(&c);
    }
    match mode {
        PickerSelectionMode::Single => default_placeholder_for_format(pattern),
        PickerSelectionMode::Range => {
            let single = chars_of(default_placeholder_for_format(pattern).as_str());
            let mut out: Vec<char> = Vec::new();
            crate::text::extend_with_chars(&mut out, &single);
            extend_with_str(&mut out, " - ");
            crate::text::extend_with_chars(&mut out, &single);
            assert(out@ =~= spec_placeholder(pattern) + " - "@ + spec_placeholder(pattern));
            string_from_chars(&out)
        },
    }
}

/// Refreshes a picker from its attributes: the bounds and year list are
/// re-read, the picker takes over the selection its value holds, and its
/// value becomes the text of that selection.
pub fn refresh_visuals(
    state: &mut DatePickerState,
    ui: &UIWidgetState,
    value: &str,
    min: Option<SimpleDate>,
    max: Option<SimpleDate>,
    placeholder: &str,
    pattern: DatePattern,
    mode: PickerSelectionMode,
) -> (v: PickerVisuals)
    ensures
        ({
            let s1 = DatePickerState {
                min,
                max,
                year_start: spec_year_range(min, max, old(state).view_year as int).0 as i32,
                year_end: spec_year_range(min, max, old(state).view_year as int).1 as i32,
                ..*old(state)
            };
            let s2 = spec_apply_value(s1, value@, pattern, mode);
            let has = spec_has_value(s2, mode);
            let float = ui.focused || ui.open || has;
            &&& *final(state) == s2
            &&& v.value@ == spec_selection_text(s2, pattern, mode)
            &&& v.has_value == has
            &&& v.float_label == float
            &&& v.field_text@ == (if has {
                spec_selection_text(s2, pattern, mode)
            } else if float {
                spec_field_placeholder(placeholder@, pattern, mode)
            } else {
                Seq::empty()
            })
            &&& v.popover_shown == (ui.open && !ui.disabled)
        }),
{
    refresh_bounds(state, min, max);
    apply_picker_value(state, value, pattern, mode);
    let text = selection_text(state, pattern, mode);
    let has_value = match mode {
        PickerSelectionMode::Single => state.selected.is_some(),
        PickerSelectionMode::Range => state.range_start.is_some(),
    };
    let float_label = ui.focused || ui.open || has_value;
    let field_text = if has_value {
        selection_text(state, pattern, mode)
    } else if float_label {
        field_placeholder(placeholder, pattern, mode)
    } else {
        String::new()
    };
    PickerVisuals {
        value: text,
        has_value,
        float_label,
        field_text,
        popover_shown: ui.open && !ui.disabled,
    }
}

/// How a day's number is coloured.
#[derive(Clone, Copy, Debug, PartialEq, Eq, Structural)]
pub enum DayTone {
    Selected,
    InRange,
    Disabled,
    OutsideMonth,
    Normal,
}

/// The state flags of one day cell of the grid.
#[derive(Clone, Copy, Debug, PartialEq, Eq, Structural)]
pub struct DayCellFlags {
    /// The cell lies below the shown rows and is not displayed.
    pub hidden: bool,
    /// The day is the selected date or an end of the range.
    pub checked: bool,
    /// The day belongs to a neighbouring month.
    pub readonly: bool,
    /// The picker is disabled or the day lies outside the bounds.
    pub disabled: bool,
    /// The day lies inside the range (not an end), or is the end cap of it.
    pub focused: bool,
    /// The day is the start cap of the range.
    pub invalid: bool,
    /// How its number is coloured.
    pub tone: DayTone,
}

/// The flags of day cell `index`: hidden cells are unchecked, read-only and
/// disabled; a shown cell is checked when it is the selected date (an end of
/// the range in range mode), read-only outside the month, disabled when the
/// picker is or the day lies outside the bounds, highlighted when strictly
/// inside the range on an enabled day of the month, and marked as the range's
/// start or end cap when the range is complete, its ends differ and the day
/// is an enabled day of the month.
pub open spec fn spec_day_flags(
    s: DatePickerState,
    mode: PickerSelectionMode,
    picker_disabled: bool,
    index: int,
) -> DayCellFlags {
    let vy = s.view_year as int;
    let vm = s.view_month as int;
    if index >= spec_visible_rows(vy, vm) * 7 {
        DayCellFlags {
            hidden: true,
            checked: false,
            readonly: true,
            disabled: true,
            focused: false,
            invalid: false,
            tone: DayTone::Normal,
        }
    } else {
        let cell = spec_calendar_cell(vy, vm, index);
        let d = cell.date;
        let range = mode == PickerSelectionMode::Range;
        let is_start = range && s.range_start == Some(d);
        let is_end = range && s.range_end == Some(d);
        let endpoint = if range {
            s.range_start == Some(d) || s.range_end == Some(d)
        } else {
            s.selected == Some(d)
        };
        let in_range = range && spec_in_selected_range(d, s.range_start, s.range_end);
        let readonly = !cell.in_current_month;
        let disabled = picker_disabled || !spec_is_date_allowed(d, s.min, s.max);
        let highlight = in_range && !endpoint && !readonly && !disabled;
        let caps = range && s.range_start is Some && s.range_end is Some && !(is_start && is_end)
            && !readonly && !disabled;
        DayCellFlags {
            hidden: false,
            checked: endpoint,
            readonly,
            disabled,
            focused: highlight || (caps && is_end),
            invalid: caps && is_start,
            tone: if endpoint {
                DayTone::Selected
            } else if highlight {
                DayTone::InRange
            } else if disabled {
                DayTone::Disabled
            } else if readonly {
                DayTone::OutsideMonth
            } else {
                DayTone::Normal
            },
        }
    }
}

/// The flags of every one of the 42 day cells.
pub fn day_cell_flags(state: &DatePickerState, mode: PickerSelectionMode, picker_disabled: bool) -> (r:
    Vec<DayCellFlags>)
    requires
        calendar_fits(state.view_year as int, state.view_month as int),
    ensures
        r@.len() == 42,
        forall|i: int| 0 <= i < 42 ==> r@[i] == spec_day_flags(*state, mode, picker_disabled, i),
{
    let cells = build_calendar_cells(state.view_year, state.view_month);
    let rows = visible_calendar_row_count(state.view_year, state.view_month);
    let mut out: Vec<DayCellFlags> = Vec::new();
    let mut i: usize = 0;
    while i < 42
        invariant
            i <= 42,
            out@.len() == i,
            cells@.len() == 42,
            calendar_fits(state.view_year as int, state.view_month as int),
            forall|k: int| 0 <= k < 42 ==> cells@[k] == spec_calendar_cell(state.view_year as int, state.view_month as int, k),
            rows as int == spec_visible_rows(state.view_year as int, state.view_month as int),
            5 <= rows <= 6,
            forall|k: int| 0 <= k < i ==> out@[k] == spec_day_flags(*state, mode, picker_disabled, k),
        decreases 42 - i,
    {
        if i >= rows * 7 {
            out.push(
                DayCellFlags {
                    hidden: true,
                    checked: false,
                    readonly: true,
                    disabled: true,
                    focused: false,
                    invalid: false,
                    tone: DayTone::Normal,
                },
            );
        } else {
            let cell = cells[i];
            let d = cell.date;
            let range = mode == PickerSelectionMode::Range;
            let is_start = range && state.range_start == Some(d);
            let is_end = range && state.range_end == Some(d);
            let endpoint = if range {
                state.range_start == Some(d) || state.range_end == Some(d)
            } else {
                state.selected == Some(d)
            };
            let in_range = range && in_selected_range(d, state.range_start, state.range_end);
            let readonly = !cell.in_current_month;
            let disabled = picker_disabled || !is_date_allowed(d, state.min, state.max);
            let highlight = in_range && !endpoint && !readonly && !disabled;
            let caps = range && state.range_start.is_some() && state.range_end.is_some() && !(
            is_start && is_end) && !readonly && !disabled;
            let tone = if endpoint {
                DayTone::Selected
            } else if highlight {
                DayTone::InRange
            } else if disabled {
                DayTone::Disabled
            } else if readonly {
                DayTone::OutsideMonth
            } else {
                DayTone::Normal
            };
            out.push(
                DayCellFlags {
                    hidden: false,
                    checked: endpoint,
                    readonly,
                    disabled,
                    focused: highlight || (caps && is_end),
                    invalid: caps && is_start,
                    tone,
                },
            );
        }
        i += 1;
    }
    out
}

// ------------------------------------------------------------------
// Month and year lists
// ------------------------------------------------------------------

/// Which panel of an open picker is shown: the month list, the year list,
/// or the calendar (weekday row and day grid).
#[derive(Clone, Copy, Debug, PartialEq, Eq, Structural)]
pub struct PanelLayout {
    pub show_month_list: bool,
    pub show_year_list: bool,
    pub show_calendar: bool,
}

/// A list is shown while the picker is open and enabled, that list is open
/// and the other is not; the calendar is shown when neither list is.
pub open spec fn spec_panel_layout(s: DatePickerState, ui: UIWidgetState) -> PanelLayout {
    let months = ui.open && s.month_list_open && !s.year_list_open && !ui.disabled;
    let years = ui.open && s.year_list_open && !s.month_list_open && !ui.disabled;
    PanelLayout { show_month_list: months, show_year_list: years, show_calendar: !(months || years) }
}

/// The panel a picker shows.
pub fn panel_layout(state: &DatePickerState, ui: &UIWidgetState) -> (r: PanelLayout)
    ensures
        r == spec_panel_layout(*state, *ui),
{
    let months = ui.open && state.month_list_open && !state.year_list_open && !ui.disabled;
    let years = ui.open && state.year_list_open && !state.month_list_open && !ui.disabled;
    PanelLayout { show_month_list: months, show_year_list: years, show_calendar: !(months || years) }
}

/// A header toggle (month or year button): checked while its list is shown,
/// and not hovered while it is hidden.
pub fn sync_header_toggle(button: &mut UIWidgetState, list_shown: bool)
    ensures
        *final(button) == (UIWidgetState {
            checked: list_shown,
            hovered: old(button).hovered && list_shown,
            ..*old(button)
        }),
{
    button.checked = list_shown;
    if !list_shown {
        button.hovered = false;
    }
}

/// An entry of the year list: checked when it is the viewed year, disabled
/// outside the list's span, and not hovered while disabled or hidden.
pub fn sync_year_option(option: &mut UIWidgetState, year: i32, state: &DatePickerState, list_shown: bool)
    ensures
        ({
            let disabled = year < state.year_start || year > state.year_end;
            *final(option) == (UIWidgetState {
                checked: year == state.view_year,
                disabled,
                hovered: old(option).hovered && !disabled && list_shown,
                ..*old(option)
            })
        }),
{
    let disabled = year < state.year_start || year > state.year_end;
    option.checked = year == state.view_year;
    option.disabled = disabled;
    if disabled || !list_shown {
        option.hovered = false;
    }
}

/// An entry of the month list: checked when it is the viewed month, disabled
/// when the picker is or no day of that month in the viewed year lies within
/// the bounds, and not hovered while disabled or hidden.
pub fn sync_month_option(
    option: &mut UIWidgetState,
    month: u32,
    state: &DatePickerState,
    picker_disabled: bool,
    list_shown: bool,
)
    ensures
        ({
            let disabled = picker_disabled || !spec_is_month_allowed(
                state.view_year as int,
                month as int,
                state.min,
                state.max,
            );
            *final(option) == (UIWidgetState {
                checked: month == state.view_month,
                disabled,
                hovered: old(option).hovered && !disabled && list_shown,
                ..*old(option)
            })
        }),
{
    let disabled = picker_disabled || !is_month_allowed(state.view_year, month, state.min, state.max);
    option.checked = month == state.view_month;
    option.disabled = disabled;
    if disabled || !list_shown {
        option.hovered = false;
    }
}

/// A range click that completes a range leaves it in order: its start is
/// not after its end, and both are the two days clicked.
pub proof fn law_completed_range_is_ordered(s: DatePickerState, date: SimpleDate)
    requires
        s.range_start is Some,
        s.range_end is None,
    ensures
        ({
            let (_, start, end) = spec_range_click(s, date);
            let first = s.range_start->0;
            &&& start is Some && end is Some
            &&& !spec_date_lt(end->0, start->0)
            &&& (start->0 == first && end->0 == date) || (start->0 == date && end->0 == first)
        }),
{
}

/// In range mode a day click starts a new range at the clicked day unless
/// only the start of a range is set: with no range, or a complete one, the
/// range becomes the clicked day alone, open at its end, and that day is
/// the selected one.
pub proof fn law_range_click_starts_anew(s: DatePickerState, date: SimpleDate)
    requires
        !(s.range_start is Some && s.range_end is None),
    ensures
        spec_range_click(s, date) == (Some(date), Some(date), None::<SimpleDate>),
{
}

/// A click that completes a range keeps both days: the earlier is its
/// start, the later its end and the selected day.
pub proof fn law_range_click_completes(s: DatePickerState, date: SimpleDate)
    requires
        s.range_start is Some,
        s.range_end is None,
    ensures
        ({
            let first = s.range_start->0;
            let (sel, start, end) = spec_range_click(s, date);
            &&& spec_date_le(start->0, first) && spec_date_le(start->0, date)
            &&& (start->0 == first || start->0 == date)
            &&& (end->0 == first || end->0 == date)
            &&& start->0 != end->0 || first == date
            &&& sel == end
        }),
{
}

/// With bounds in order (or either missing), the day a header-list choice
/// selects lies within the bounds; and when the chosen day, cut to the
/// length of the month, already lies within them, it is that day.
pub proof fn law_list_choice_within_bounds(s: DatePickerState, year: int, month: int, day: int)
    requires
        s.min is Some && s.max is Some ==> spec_date_le(s.min->0, s.max->0),
    ensures
        spec_is_date_allowed(spec_list_choice(s, year, month, day), s.min, s.max),
        ({
            let cut = SimpleDate {
                year: year as i32,
                month: month as u32,
                day: spec_min(day, spec_days_in_month(year, month)) as u32,
            };
            spec_is_date_allowed(cut, s.min, s.max) ==> spec_list_choice(s, year, month, day) == cut
        }),
{
    let cut = SimpleDate {
        year: year as i32,
        month: month as u32,
        day: spec_min(day, spec_days_in_month(year, month)) as u32,
    };
    crate::date::law_clamp_within_bounds(cut, s.min, s.max);
}

} // verus!
