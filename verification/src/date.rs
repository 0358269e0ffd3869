//! Calendar arithmetic of the date picker: leap years, month lengths, date
//! validation and ordering, month navigation, weekdays, the month grid and the
//! conversion from a day count since 1970-01-01.

use vstd::prelude::*;

verus! {

/// A calendar date of the proleptic Gregorian calendar.
#[derive(Clone, Copy, Debug, PartialEq, Eq, Structural)]
pub struct SimpleDate {
    pub year: i32,
    pub month: u32,
    pub day: u32,
}

/// One cell of the six-week month grid.
#[derive(Clone, Copy, Debug, PartialEq, Eq, Structural)]
pub struct CalendarCell {
    pub date: SimpleDate,
    pub in_current_month: bool,
}

// ------------------------------------------------------------------
// Leap years and month lengths
// ------------------------------------------------------------------

/// A year is a leap year when it is divisible by 4 but not by 100, or when it
/// is divisible by 400.
pub open spec fn spec_is_leap_year(year: int) -> bool {
    (year % 4 == 0 && year % 100 != 0) || year % 400 == 0
}

/// The number of days of `month` in `year`; 30 for a month outside `1..=12`.
pub open spec fn spec_days_in_month(year: int, month: int) -> int {
    if month == 1 || month == 3 || month == 5 || month == 7 || month == 8 || month == 10 || month
        == 12 {
        31
    } else if month == 4 || month == 6 || month == 9 || month == 11 {
        30
    } else if month == 2 {
        if spec_is_leap_year(year) {
            29
        } else {
            28
        }
    } else {
        30
    }
}

/// A date whose month is `1..=12` and whose day exists in that month.
pub open spec fn spec_is_valid_date(d: SimpleDate) -> bool {
    1 <= d.month <= 12 && 1 <= d.day <= spec_days_in_month(d.year as int, d.month as int)
}

proof fn lemma_divides_neg(x: int, d: int)
    requires
        d > 0,
        x % d == 0,
    ensures
        (-x) % d == 0,
{
    vstd::arithmetic::div_mod::lemma_fundamental_div_mod(x, d);
    let q = x / d;
    assert(-x == (-q) * d) by (nonlinear_arith)
        requires
            x == d * q + 0,
    ;
    vstd::arithmetic::div_mod::lemma_mod_multiples_basic(-q, d);
}

proof fn lemma_divides_abs(y: int, a: int, d: int)
    requires
        d > 0,
        a == (if y < 0 {
            -y
        } else {
            y
        }),
    ensures
        (y % d == 0) == (a % d == 0),
{
    if y < 0 {
        if y % d == 0 {
            lemma_divides_neg(y, d);
        }
        if a % d == 0 {
            lemma_divides_neg(a, d);
        }
    }
}

/// Whether `year` is a leap year.
pub fn is_leap_year(year: i32) -> (leap: bool)
    ensures
        leap == spec_is_leap_year(year as int),
{
    let y = year as i64;
    let a: u64 = if y < 0 {
        (-y) as u64
    } else {
        y as u64
    };
    proof {
        lemma_divides_abs(year as int, a as int, 4);
        lemma_divides_abs(year as int, a as int, 100);
        lemma_divides_abs(year as int, a as int, 400);
    }
    (a % 4 == 0 && a % 100 != 0) || a % 400 == 0
}

/// The number of days of `month` in `year` (30 for a month outside `1..=12`).
pub fn days_in_month(year: i32, month: u32) -> (n: u32)
    ensures
        n == spec_days_in_month(year as int, month as int),
        28 <= n <= 31,
{
    match month {
        1 | 3 | 5 | 7 | 8 | 10 | 12 => 31,
        4 | 6 | 9 | 11 => 30,
        2 => if is_leap_year(year) {
            29
        } else {
            28
        },
        _ => 30,
    }
}

/// The date `year-month-day` when it exists, `None` otherwise.
pub fn make_date(year: i32, month: u32, day: u32) -> (r: Option<SimpleDate>)
    ensures
        r == (if spec_is_valid_date(SimpleDate { year, month, day }) {
            Some(SimpleDate { year, month, day })
        } else {
            None
        }),
{
    if !(1 <= month && month <= 12) {
        return None;
    }
    if day == 0 || day > days_in_month(year, month) {
        return None;
    }
    Some(SimpleDate { year, month, day })
}

// ------------------------------------------------------------------
// Ordering, bounds and ranges
// ------------------------------------------------------------------

/// `a` comes strictly before `b`: by year, then month, then day.
pub open spec fn spec_date_lt(a: SimpleDate, b: SimpleDate) -> bool {
    ||| a.year < b.year
    ||| (a.year == b.year && a.month < b.month)
    ||| (a.year == b.year && a.month == b.month && a.day < b.day)
}

/// `a` comes before `b` or equals it.
pub open spec fn spec_date_le(a: SimpleDate, b: SimpleDate) -> bool {
    spec_date_lt(a, b) || a == b
}

impl SimpleDate {
    /// Whether `self` comes strictly before `other` (year, then month, then day).
    pub fn precedes(&self, other: &SimpleDate) -> (b: bool)
        ensures
            b == spec_date_lt(*self, *other),
    {
        self.year < other.year || (self.year == other.year && self.month < other.month) || (
        self.year == other.year && self.month == other.month && self.day < other.day)
    }
}

/// `date` lies within the optional bounds `min` and `max`, both inclusive.
pub open spec fn spec_is_date_allowed(
    date: SimpleDate,
    min: Option<SimpleDate>,
    max: Option<SimpleDate>,
) -> bool {
    &&& (min matches Some(lo) ==> !spec_date_lt(date, lo))
    &&& (max matches Some(hi) ==> !spec_date_lt(hi, date))
}

/// Whether `date` lies within the optional inclusive bounds.
pub fn is_date_allowed(date: SimpleDate, min: Option<SimpleDate>, max: Option<SimpleDate>) -> (b:
    bool)
    ensures
        b == spec_is_date_allowed(date, min, max),
{
    if let Some(lo) = min {
        if date.precedes(&lo) {
            return false;
        }
    }
    if let Some(hi) = max {
        if hi.precedes(&date) {
            return false;
        }
    }
    true
}

/// `date` raised to `min`, then lowered to `max`.
pub open spec fn spec_clamp_raw(
    date: SimpleDate,
    min: Option<SimpleDate>,
    max: Option<SimpleDate>,
) -> SimpleDate {
    let raised = match min {
        Some(lo) => if spec_date_lt(date, lo) {
            lo
        } else {
            date
        },
        None => date,
    };
    match max {
        Some(hi) => if spec_date_lt(hi, raised) {
            hi
        } else {
            raised
        },
        None => raised,
    }
}

/// Moves `date` into the bounds: raised to `min`, then lowered to `max`; `None`
/// when the result still violates a bound (which happens only when
/// `max` precedes `min`).
pub fn clamp_date_to_bounds(date: SimpleDate, min: Option<SimpleDate>, max: Option<SimpleDate>) -> (r:
    Option<SimpleDate>)
    ensures
        r == (if spec_is_date_allowed(spec_clamp_raw(date, min, max), min, max) {
            Some(spec_clamp_raw(date, min, max))
        } else {
            None
        }),
{
    let mut d = date;
    if let Some(lo) = min {
        if d.precedes(&lo) {
            d = lo;
        }
    }
    if let Some(hi) = max {
        if hi.precedes(&d) {
            d = hi;
        }
    }
    if is_date_allowed(d, min, max) {
        Some(d)
    } else {
        None
    }
}

/// `date` lies between `start` and `end` (inclusive, in either order); false
/// when either end is missing.
pub open spec fn spec_in_selected_range(
    date: SimpleDate,
    start: Option<SimpleDate>,
    end: Option<SimpleDate>,
) -> bool {
    match (start, end) {
        (Some(s), Some(e)) => if spec_date_le(s, e) {
            spec_date_le(s, date) && spec_date_le(date, e)
        } else {
            spec_date_le(e, date) && spec_date_le(date, s)
        },
        _ => false,
    }
}

/// Whether `date` lies in the selected range `start..=end` (in either order).
pub fn in_selected_range(date: SimpleDate, start: Option<SimpleDate>, end: Option<SimpleDate>) -> (b:
    bool)
    ensures
        b == spec_in_selected_range(date, start, end),
{
    let s = match start {
        Some(s) => s,
        None => return false,
    };
    let e = match end {
        Some(e) => e,
        None => return false,
    };
    if !e.precedes(&s) {
        !date.precedes(&s) && !e.precedes(&date)
    } else {
        !date.precedes(&e) && !s.precedes(&date)
    }
}

/// Some day of `month` in `year` lies within the bounds: its last day is not
/// before `min` and its first day is not after `max`.  False for a month
/// outside `1..=12`.
pub open spec fn spec_is_month_allowed(
    year: int,
    month: int,
    min: Option<SimpleDate>,
    max: Option<SimpleDate>,
) -> bool {
    &&& 1 <= month <= 12
    &&& (min matches Some(lo) ==> !spec_date_lt(
        SimpleDate {
            year: year as i32,
            month: month as u32,
            day: spec_days_in_month(year, month) as u32,
        },
        lo,
    ))
    &&& (max matches Some(hi) ==> !spec_date_lt(
        hi,
        SimpleDate { year: year as i32, month: month as u32, day: 1 },
    ))
}

/// Whether any day of `month` in `year` lies within the bounds.
pub fn is_month_allowed(year: i32, month: u32, min: Option<SimpleDate>, max: Option<SimpleDate>) -> (b:
    bool)
    ensures
        b == spec_is_month_allowed(year as int, month as int, min, max),
{
    let first = match make_date(year, month, 1) {
        Some(d) => d,
        None => return false,
    };
    let last = match make_date(year, month, days_in_month(year, month)) {
        Some(d) => d,
        None => return false,
    };
    if let Some(lo) = min {
        if last.precedes(&lo) {
            return false;
        }
    }
    if let Some(hi) = max {
        if hi.precedes(&first) {
            return false;
        }
    }
    true
}

/// The span of years the year list offers: from the year of `min` (1900
/// without one) to the year of `max` (2100 without one), put in order, then
/// widened to include `anchor_year`.
pub open spec fn spec_year_range(min: Option<SimpleDate>, max: Option<SimpleDate>, anchor_year: int) -> (
    int,
    int,
) {
    let a: int = match min {
        Some(d) => d.year as int,
        None => 1900,
    };
    let b: int = match max {
        Some(d) => d.year as int,
        None => 2100,
    };
    let lo = if a > b {
        b
    } else {
        a
    };
    let hi = if a > b {
        a
    } else {
        b
    };
    (if anchor_year < lo {
        anchor_year
    } else {
        lo
    }, if anchor_year > hi {
        anchor_year
    } else {
        hi
    })
}

/// The first and last year of the year list.
pub fn resolve_year_range(min: Option<SimpleDate>, max: Option<SimpleDate>, anchor_year: i32) -> (r:
    (i32, i32))
    ensures
        (r.0 as int, r.1 as int) == spec_year_range(min, max, anchor_year as int),
        r.0 <= anchor_year <= r.1,
{
    let mut start: i32 = match min {
        Some(d) => d.year,
        None => 1900,
    };
    let mut end: i32 = match max {
        Some(d) => d.year,
        None => 2100,
    };
    if start > end {
        let t = start;
        start = end;
        end = t;
    }
    if anchor_year < start {
        start = anchor_year;
    }
    if anchor_year > end {
        end = anchor_year;
    }
    (start, end)
}

// ------------------------------------------------------------------
// Month navigation
// ------------------------------------------------------------------

/// The month `delta` months away from `month` of `year`: counting months as
/// `year * 12 + (month - 1)`, the result is that count plus `delta`, split
/// back into year and month `1..=12`.
pub open spec fn spec_shift_month(year: int, month: int, delta: int) -> (int, int) {
    let idx = year * 12 + (month - 1) + delta;
    (idx / 12, idx % 12 + 1)
}

/// The conditions under which the month arithmetic stays within `i32`.
pub open spec fn shift_month_fits(year: int, month: int, delta: int) -> bool {
    &&& month <= i32::MAX
    &&& i32::MIN <= year * 12 <= i32::MAX
    &&& i32::MIN <= year * 12 + (month - 1) <= i32::MAX
    &&& i32::MIN <= year * 12 + (month - 1) + delta <= i32::MAX
}

/// Moves `month` of `year` by `delta` months.
pub fn shift_month(year: i32, month: u32, delta: i32) -> (r: (i32, u32))
    requires
        shift_month_fits(year as int, month as int, delta as int),
    ensures
        (r.0 as int, r.1 as int) == spec_shift_month(year as int, month as int, delta as int),
        1 <= r.1 <= 12,
{
    let idx: i64 = year as i64 * 12 + (month as i64 - 1) + delta as i64;
    let offset: i64 = 12 * 0x1_0000_0000;
    let shifted: u64 = (idx + offset) as u64;
    let q: u64 = shifted / 12;
    let m: u64 = shifted % 12;
    proof {
        let i = idx as int;
        vstd::arithmetic::div_mod::lemma_fundamental_div_mod(i + 12 * 0x1_0000_0000, 12);
        vstd::arithmetic::div_mod::lemma_fundamental_div_mod_converse(
            i,
            12,
            q as int - 0x1_0000_0000,
            m as int,
        );
    }
    ((q as i64 - 0x1_0000_0000) as i32, (m + 1) as u32)
}

// ------------------------------------------------------------------
// Month names
// ------------------------------------------------------------------

/// The English name of a month, `"Unknown"` outside `1..=12`.
pub open spec fn spec_month_name(month: int) -> Seq<char> {
    if month == 1 {
        "January"@
    } else if month == 2 {
        "February"@
    } else if month == 3 {
        "March"@
    } else if month == 4 {
        "April"@
    } else if month == 5 {
        "May"@
    } else if month == 6 {
        "June"@
    } else if month == 7 {
        "July"@
    } else if month == 8 {
        "August"@
    } else if month == 9 {
        "September"@
    } else if month == 10 {
        "October"@
    } else if month == 11 {
        "November"@
    } else if month == 12 {
        "December"@
    } else {
        "Unknown"@
    }
}

/// The three-letter abbreviation of a month, `"???"` outside `1..=12`.
pub open spec fn spec_month_short_name(month: int) -> Seq<char> {
    if month == 1 {
        "Jan"@
    } else if month == 2 {
        "Feb"@
    } else if month == 3 {
        "Mar"@
    } else if month == 4 {
        "Apr"@
    } else if month == 5 {
        "May"@
    } else if month == 6 {
        "Jun"@
    } else if month == 7 {
        "Jul"@
    } else if month == 8 {
        "Aug"@
    } else if month == 9 {
        "Sep"@
    } else if month == 10 {
        "Oct"@
    } else if month == 11 {
        "Nov"@
    } else if month == 12 {
        "Dec"@
    } else {
        "???"@
    }
}

/// The English name of `month`.
pub fn month_name(month: u32) -> (s: &'static str)
    ensures
        s@ == spec_month_name(month as int),
{
    match month {
        1 => "January",
        2 => "February",
        3 => "March",
        4 => "April",
        5 => "May",
        6 => "June",
        7 => "July",
        8 => "August",
        9 => "September",
        10 => "October",
        11 => "November",
        12 => "December",
        _ => "Unknown",
    }
}

/// The three-letter abbreviation of `month`.
pub fn month_short_name(month: u32) -> (s: &'static str)
    ensures
        s@ == spec_month_short_name(month as int),
{
    match month {
        1 => "Jan",
        2 => "Feb",
        3 => "Mar",
        4 => "Apr",
        5 => "May",
        6 => "Jun",
        7 => "Jul",
        8 => "Aug",
        9 => "Sep",
        10 => "Oct",
        11 => "Nov",
        12 => "Dec",
        _ => "???",
    }
}


// ------------------------------------------------------------------
// Day counts since 1970-01-01
// ------------------------------------------------------------------

/// The number of days from 1970-01-01 to `d` (negative before it), for the
/// proleptic Gregorian calendar: years counted from March so that the leap day
/// ends a year, grouped into 400-year eras of 146097 days.
pub open spec fn spec_days_from_civil(d: SimpleDate) -> int {
    let y: int = if d.month <= 2 {
        d.year - 1
    } else {
        d.year as int
    };
    let era = y / 400;
    let yoe = y - era * 400;
    let mp: int = if d.month > 2 {
        d.month - 3
    } else {
        d.month + 9
    };
    let doy = (153 * mp + 2) / 5 + d.day - 1;
    let doe = yoe * 365 + yoe / 4 - yoe / 100 + doy;
    era * 146097 + doe - 719468
}

/// The 400-year era that holds the day `days` after 1970-01-01; the year of
/// the resulting date fits in an `i32` exactly when this era lies in
/// `-5368709..=5368707`.
pub open spec fn spec_era_of_days(days: int) -> int {
    (days + 719468) / 146097
}

proof fn lemma_cycle(doe: u32, yoe: u32, doy: u32)
    by (bit_vector)
    requires
        doe < 146097,
        yoe == (doe - doe / 1460 + doe / 36524 - doe / 146096) / 365,
        doy == doe - (365 * yoe + yoe / 4 - yoe / 100),
    ensures
        yoe <= 399,
        365 * yoe + yoe / 4 - yoe / 100 <= doe,
        doy <= 365,
        doy == 365 ==> yoe % 4 == 3,
        doy == 365 ==> (yoe % 100 != 99 || yoe % 400 == 399),
{
}

proof fn lemma_month_table(doy: int)
    requires
        0 <= doy <= 365,
    ensures
        0 <= (5 * doy + 2) / 153 <= 11,
        (153 * ((5 * doy + 2) / 153) + 2) / 5 <= doy,
        doy - (153 * ((5 * doy + 2) / 153) + 2) / 5 + 1 <= 31,
        ({
            let mp = (5 * doy + 2) / 153;
            (mp == 1 || mp == 3 || mp == 6 || mp == 8) ==> doy - (153 * mp + 2) / 5 + 1 <= 30
        }),
        ({
            let mp = (5 * doy + 2) / 153;
            mp == 11 ==> doy - (153 * mp + 2) / 5 + 1 <= 29
        }),
        ({
            let mp = (5 * doy + 2) / 153;
            (mp == 11 && doy - (153 * mp + 2) / 5 + 1 == 29) ==> doy == 365
        }),
{
    let mp = (5 * doy + 2) / 153;
    vstd::arithmetic::div_mod::lemma_fundamental_div_mod(5 * doy + 2, 153);
    assert(0 <= mp <= 11);
    if mp == 0 {
    } else if mp == 1 {
    } else if mp == 2 {
    } else if mp == 3 {
    } else if mp == 4 {
    } else if mp == 5 {
    } else if mp == 6 {
    } else if mp == 7 {
    } else if mp == 8 {
    } else if mp == 9 {
    } else if mp == 10 {
    } else {
    }
}

proof fn lemma_leap_shift(x: int, era: int)
    ensures
        spec_is_leap_year(x + 400 * era) == spec_is_leap_year(x),
{
    vstd::arithmetic::div_mod::lemma_mod_multiples_vanish(100 * era, x, 4);
    vstd::arithmetic::div_mod::lemma_mod_multiples_vanish(4 * era, x, 100);
    vstd::arithmetic::div_mod::lemma_mod_multiples_vanish(era, x, 400);
    assert(4 * (100 * era) + x == x + 400 * era);
    assert(100 * (4 * era) + x == x + 400 * era);
    assert(400 * era + x == x + 400 * era);
}

/// The date `days_since_epoch` days after 1970-01-01 (before it when
/// negative), as `(year, month, day)`.
#[verifier::spinoff_prover]
#[verifier::rlimit(40)]
pub fn civil_from_days(days_since_epoch: i64) -> (r: (i32, u32, u32))
    requires
        -5368709 <= spec_era_of_days(days_since_epoch as int) <= 5368707,
    ensures
        spec_is_valid_date(SimpleDate { year: r.0, month: r.1, day: r.2 }),
        spec_days_from_civil(SimpleDate { year: r.0, month: r.1, day: r.2 }) == days_since_epoch,
{
    let ghost n = days_since_epoch as int;
    proof {
        vstd::arithmetic::div_mod::lemma_fundamental_div_mod(n + 719468, 146097);
    }
    let z: i64 = days_since_epoch + 719468;
    let k: i64 = 146097 * 0x100_0000;
    let shifted: u64 = (z + k) as u64;
    let q: u64 = shifted / 146097;
    let doe64: u64 = shifted % 146097;
    proof {
        vstd::arithmetic::div_mod::lemma_fundamental_div_mod(shifted as int, 146097);
        vstd::arithmetic::div_mod::lemma_fundamental_div_mod_converse(
            z as int,
            146097,
            q as int - 0x100_0000,
            doe64 as int,
        );
    }
    let era: i64 = q as i64 - 0x100_0000;
    let doe: u32 = doe64 as u32;
    assert(doe / 1460 <= doe) by (nonlinear_arith)
        requires
            doe >= 0,
    ;
    let yoe: u32 = (doe - doe / 1460 + doe / 36524 - doe / 146096) / 365;
    proof {
        lemma_cycle(
            doe,
            yoe,
            (doe - (365 * yoe + yoe / 4 - yoe / 100)) as u32,
        );
    }
    let doy: u32 = doe - (365 * yoe + yoe / 4 - yoe / 100);
    proof {
        lemma_month_table(doy as int);
    }
    let mp: u32 = (5 * doy + 2) / 153;
    let d: u32 = doy - (153 * mp + 2) / 5 + 1;
    let m: u32 = if mp < 10 {
        mp + 3
    } else {
        mp - 9
    };
    let mut y: i32 = yoe as i32 + (era as i32) * 400;
    if m <= 2 {
        y += 1;
    }
    proof {
        let date = SimpleDate { year: y, month: m, day: d };
        let yy = yoe as int + era as int * 400;
        vstd::arithmetic::div_mod::lemma_fundamental_div_mod_converse(
            yy,
            400,
            era as int,
            yoe as int,
        );
        if mp == 11 {
            lemma_leap_shift(yoe as int + 1, era as int);
            if d == 29 {
                assert(spec_is_leap_year(yoe as int + 1));
            }
        }
        assert(spec_days_from_civil(date) == n);
    }
    (y, m, d)
}


// ------------------------------------------------------------------
// Weekdays and the month grid
// ------------------------------------------------------------------

/// Integer division rounding toward zero, as Rust's `/` on signed integers.
pub open spec fn spec_tdiv(a: int, b: int) -> int {
    if a >= 0 {
        a / b
    } else {
        -((-a) / b)
    }
}

/// The remainder that goes with `spec_tdiv`, as Rust's `%` on signed integers.
pub open spec fn spec_trem(a: int, b: int) -> int {
    a - b * spec_tdiv(a, b)
}

/// The month and day of `d` as the date picker reads them (`as i32`), and
/// the month and year of Zeller's congruence: January and February count as
/// months 13 and 14 of the previous year.
pub open spec fn spec_zeller_inputs(d: SimpleDate) -> (int, int, int) {
    let m0 = d.month as i32 as int;
    let day = d.day as i32 as int;
    if m0 < 3 {
        (day, m0 + 12, d.year - 1)
    } else {
        (day, m0, d.year as int)
    }
}

/// Whether `v` fits in an `i32`.
pub open spec fn fits_i32(v: int) -> bool {
    i32::MIN <= v <= i32::MAX
}

/// Whether the date picker's weekday arithmetic on `d` stays within `i32`:
/// every intermediate value of the congruence fits.
pub open spec fn spec_day_of_week_fits(d: SimpleDate) -> bool {
    let (day, m, y) = spec_zeller_inputs(d);
    let k = spec_trem(y, 100);
    let j = spec_tdiv(y, 100);
    let s1 = day + spec_tdiv(13 * (m + 1), 5);
    let s2 = s1 + k;
    let s3 = s2 + spec_tdiv(k, 4);
    let s4 = s3 + spec_tdiv(j, 4);
    &&& fits_i32(y)
    &&& fits_i32(m + 1)
    &&& fits_i32(13 * (m + 1))
    &&& fits_i32(s1)
    &&& fits_i32(s2)
    &&& fits_i32(s3)
    &&& fits_i32(s4)
    &&& fits_i32(5 * j)
    &&& fits_i32(s4 + 5 * j)
}

/// Zeller's congruence as the date picker evaluates it (Rust integer
/// division), shifted so that 0 is Sunday.
pub open spec fn spec_day_of_week(d: SimpleDate) -> int {
    let (day, m, y) = spec_zeller_inputs(d);
    let k = spec_trem(y, 100);
    let j = spec_tdiv(y, 100);
    let h = spec_trem(day + spec_tdiv(13 * (m + 1), 5) + k + spec_tdiv(k, 4) + spec_tdiv(j, 4) + 5 * j, 7);
    spec_trem(h + 6, 7)
}

/// The weekday of `date`, 0 for Sunday through 6 for Saturday.
pub fn day_of_week(date: SimpleDate) -> (r: u32)
    requires
        spec_day_of_week_fits(date),
    ensures
        r as int == spec_day_of_week(date),
        r < 7,
{
    let mut y: i32 = date.year;
    let mut m: i32 = date.month as i32;
    let d: i32 = date.day as i32;
    if m < 3 {
        y -= 1;
        m += 12;
    }
    let k: i32 = y % 100;
    let j: i32 = y / 100;
    let h: i32 = (d + ((13 * (m + 1)) / 5) + k + (k / 4) + (j / 4) + (5 * j)) % 7;
    ((h + 6) % 7) as u32
}

/// Monday-first column of the first day of the month grid: the number of
/// cells taken by the previous month.
pub open spec fn spec_first_column(year: int, month: int) -> int {
    (spec_day_of_week(SimpleDate { year: year as i32, month: month as u32, day: 1 }) + 6) % 7
}

/// The conditions under which the month grid of `month` in `year` can be
/// computed without overflow: a valid month whose neighbours are representable.
pub open spec fn calendar_fits(year: int, month: int) -> bool {
    &&& 1 <= month <= 12
    &&& shift_month_fits(year, month, -1)
    &&& shift_month_fits(year, month, 1)
}

/// Cell `i` (0..42) of the six-week, Monday-first grid of `month` in `year`:
/// first the trailing days of the previous month, then every day of the
/// month, then the leading days of the next month.
pub open spec fn spec_calendar_cell(year: int, month: int, i: int) -> CalendarCell {
    let first = spec_first_column(year, month);
    let current_days = spec_days_in_month(year, month);
    let (py, pm) = spec_shift_month(year, month, -1);
    let (ny, nm) = spec_shift_month(year, month, 1);
    let prev_days = spec_days_in_month(py, pm);
    if i < first {
        CalendarCell {
            date: SimpleDate {
                year: py as i32,
                month: pm as u32,
                day: (prev_days - (first - i) + 1) as u32,
            },
            in_current_month: false,
        }
    } else if i - first < current_days {
        CalendarCell {
            date: SimpleDate { year: year as i32, month: month as u32, day: (i - first + 1) as u32 },
            in_current_month: true,
        }
    } else {
        CalendarCell {
            date: SimpleDate { year: ny as i32, month: nm as u32, day: (i - first - current_days + 1) as u32 },
            in_current_month: false,
        }
    }
}

/// The 42 cells of the month grid of `month` in `year`.
pub fn build_calendar_cells(year: i32, month: u32) -> (cells: Vec<CalendarCell>)
    requires
        calendar_fits(year as int, month as int),
    ensures
        cells@.len() == 42,
        forall|i: int| 0 <= i < 42 ==> cells@[i] == spec_calendar_cell(year as int, month as int, i),
{
    let first_sunday_index = day_of_week(SimpleDate { year, month, day: 1 }) as usize;
    let first: usize = (first_sunday_index + 6) % 7;
    let current_days = days_in_month(year, month) as usize;
    let (prev_year, prev_month) = shift_month(year, month, -1);
    let (next_year, next_month) = shift_month(year, month, 1);
    let prev_days = days_in_month(prev_year, prev_month) as usize;
    let mut cells: Vec<CalendarCell> = Vec::with_capacity(42);
    let mut idx: usize = 0;
    while idx < 42
        invariant
            idx <= 42,
            cells@.len() == idx,
            first as int == spec_first_column(year as int, month as int),
            first < 7,
            current_days as int == spec_days_in_month(year as int, month as int),
            28 <= current_days <= 31,
            (prev_year as int, prev_month as int) == spec_shift_month(year as int, month as int, -1),
            (next_year as int, next_month as int) == spec_shift_month(year as int, month as int, 1),
            prev_days as int == spec_days_in_month(prev_year as int, prev_month as int),
            28 <= prev_days <= 31,
            forall|i: int| 0 <= i < idx ==> cells@[i] == spec_calendar_cell(year as int, month as int, i),
        decreases 42 - idx,
    {
        if idx < first {
            let day = prev_days - (first - idx) + 1;
            cells.push(
                CalendarCell {
                    date: SimpleDate { year: prev_year, month: prev_month, day: day as u32 },
                    in_current_month: false,
                },
            );
        } else {
            let current_idx = idx - first;
            if current_idx < current_days {
                cells.push(
                    CalendarCell {
                        date: SimpleDate { year, month, day: (current_idx + 1) as u32 },
                        in_current_month: true,
                    },
                );
            } else {
                let next_day = current_idx - current_days + 1;
                cells.push(
                    CalendarCell {
                        date: SimpleDate { year: next_year, month: next_month, day: next_day as u32 },
                        in_current_month: false,
                    },
                );
            }
        }
        idx += 1;
    }
    cells
}

/// The number of grid rows that hold a day of the month: the weeks that the
/// month touches, at least five.
pub open spec fn spec_visible_rows(year: int, month: int) -> int {
    let weeks = (spec_first_column(year, month) + spec_days_in_month(year, month) + 6) / 7;
    if weeks > 5 {
        weeks
    } else {
        5
    }
}

/// The number of grid rows shown for `month` in `year`.
pub fn visible_calendar_row_count(year: i32, month: u32) -> (rows: usize)
    requires
        1 <= month <= 12,
        !(year == i32::MIN && month < 3),
    ensures
        rows as int == spec_visible_rows(year as int, month as int),
        5 <= rows <= 6,
{
    let first_sunday_index = day_of_week(SimpleDate { year, month, day: 1 }) as usize;
    let first: usize = (first_sunday_index + 6) % 7;
    let current_days = days_in_month(year, month) as usize;
    let weeks = (first + current_days + 6) / 7;
    if weeks > 5 {
        weeks
    } else {
        5
    }
}

/// Today's date in UTC from the seconds since 1970-01-01 00:00 UTC; a
/// clock set before then (`None`) gives 1970-01-01.
pub fn today_utc_date(secs_since_epoch: Option<u64>) -> (d: SimpleDate)
    requires
        secs_since_epoch matches Some(s) ==> spec_era_of_days((s / 86400) as int) <= 5368707,
    ensures
        spec_is_valid_date(d),
        secs_since_epoch is None ==> d == (SimpleDate { year: 1970, month: 1, day: 1 }),
        secs_since_epoch matches Some(s) ==> spec_days_from_civil(d) == s / 86400,
{
    match secs_since_epoch {
        None => SimpleDate { year: 1970, month: 1, day: 1 },
        Some(s) => {
            let days: i64 = (s / 86400) as i64;
            let (year, month, day) = civil_from_days(days);
            SimpleDate { year, month, day }
        },
    }
}

/// Moving `delta` months and then `delta` months back returns to the month
/// one started from.
pub proof fn law_shift_month_back(year: int, month: int, delta: int)
    requires
        1 <= month <= 12,
    ensures
        ({
            let (y2, m2) = spec_shift_month(year, month, delta);
            spec_shift_month(y2, m2, -delta) == (year, month)
        }),
{
    let idx = year * 12 + (month - 1) + delta;
    let (y2, m2) = spec_shift_month(year, month, delta);
    vstd::arithmetic::div_mod::lemma_fundamental_div_mod(idx, 12);
    assert(y2 * 12 + (m2 - 1) == idx);
    let back = y2 * 12 + (m2 - 1) - delta;
    assert(back == year * 12 + (month - 1));
    vstd::arithmetic::div_mod::lemma_fundamental_div_mod_converse(back, 12, year, month - 1);
}

/// With bounds in order (or either missing), moving a date into them always
/// succeeds and gives a date within them; a date already within them stays
/// as it is.
pub proof fn law_clamp_within_bounds(date: SimpleDate, min: Option<SimpleDate>, max: Option<SimpleDate>)
    requires
        min is Some && max is Some ==> spec_date_le(min->0, max->0),
    ensures
        spec_is_date_allowed(spec_clamp_raw(date, min, max), min, max),
        spec_is_date_allowed(date, min, max) ==> spec_clamp_raw(date, min, max) == date,
{
}

/// The day after `d` in the calendar.
pub open spec fn spec_next_day(d: SimpleDate) -> SimpleDate {
    if d.day < spec_days_in_month(d.year as int, d.month as int) {
        SimpleDate { day: (d.day + 1) as u32, ..d }
    } else if d.month < 12 {
        SimpleDate { year: d.year, month: (d.month + 1) as u32, day: 1 }
    } else {
        SimpleDate { year: (d.year + 1) as i32, month: 1, day: 1 }
    }
}

/// The month part of Zeller's sum (March is 3, January and February are 13
/// and 14).
spec fn spec_zeller_month(m: int) -> int {
    (13 * (m + 1)) / 5
}

/// The year part of Zeller's sum, for a year that is not negative.
spec fn spec_zeller_year(y: int) -> int {
    y % 100 + (y % 100) / 4 + (y / 100) / 4 + 5 * (y / 100)
}

/// Zeller's sum for day `q` of month `m` of year `y`.
spec fn spec_zeller_sum(q: int, m: int, y: int) -> int {
    q + spec_zeller_month(m) + spec_zeller_year(y)
}

proof fn lemma_trunc_is_euclid(a: int, b: int)
    requires
        a >= 0,
        b > 0,
    ensures
        spec_tdiv(a, b) == a / b,
        spec_trem(a, b) == a % b,
{
    vstd::arithmetic::div_mod::lemma_fundamental_div_mod(a, b);
}

/// The weekday of a date whose Zeller year is not negative, from its sum.
proof fn lemma_weekday_by_sum(d: SimpleDate)
    requires
        1 <= d.month <= 12,
        1 <= d.day <= 31,
        d.month < 3 ==> d.year >= 1,
        d.month >= 3 ==> d.year >= 0,
    ensures
        ({
            let y: int = if d.month < 3 { d.year - 1 } else { d.year as int };
            let m: int = if d.month < 3 { d.month + 12 } else { d.month as int };
            spec_day_of_week(d) == (spec_zeller_sum(d.day as int, m, y) % 7 + 6) % 7
        }),
{
    let y: int = if d.month < 3 { d.year - 1 } else { d.year as int };
    let m: int = if d.month < 3 { d.month + 12 } else { d.month as int };
    assert(d.month as i32 as int == d.month as int);
    assert(d.day as i32 as int == d.day as int);
    assert(spec_zeller_inputs(d) == (d.day as int, m, y));
    lemma_trunc_is_euclid(y, 100);
    let k = y % 100;
    let j = y / 100;
    lemma_trunc_is_euclid(13 * (m + 1), 5);
    lemma_trunc_is_euclid(k, 4);
    lemma_trunc_is_euclid(j, 4);
    let sum = d.day + spec_tdiv(13 * (m + 1), 5) + k + spec_tdiv(k, 4) + spec_tdiv(j, 4) + 5 * j;
    assert(sum == spec_zeller_sum(d.day as int, m, y));
    lemma_trunc_is_euclid(sum, 7);
    let h = sum % 7;
    lemma_trunc_is_euclid(h + 6, 7);
}

/// `y + 1` is a multiple of 4 exactly when its last two digits are.
proof fn lemma_four_by_last_digits(y: int, j: int, k: int)
    requires
        y == 100 * j + k,
    ensures
        (y % 4 == 0) == (k % 4 == 0),
{
    assert(y == 4 * (25 * j) + k);
    vstd::arithmetic::div_mod::lemma_mod_multiples_vanish(25 * j, k, 4);
}

/// A multiple of 100 is a multiple of 400 exactly when its hundreds are a
/// multiple of 4.
proof fn lemma_four_hundred_by_hundreds(y: int, h: int)
    requires
        y == 100 * h,
    ensures
        (y % 400 == 0) == (h % 4 == 0),
{
    vstd::arithmetic::div_mod::lemma_fundamental_div_mod(h, 4);
    let q = h / 4;
    let r = h % 4;
    assert(y == 400 * q + 100 * r) by (nonlinear_arith)
        requires
            y == 100 * h,
            h == 4 * q + r,
    ;
    vstd::arithmetic::div_mod::lemma_fundamental_div_mod_converse(y, 400, q, 100 * r);
}

/// From a year to the next the year part of Zeller's sum grows by one, and
/// by two when the next year is a leap year (modulo 7).
proof fn lemma_zeller_year_step(y: int)
    requires
        y >= 0,
    ensures
        (spec_zeller_year(y + 1) - spec_zeller_year(y)) % 7 == (if spec_is_leap_year(y + 1) {
            2int
        } else {
            1int
        }),
{
    let k = y % 100;
    let j = y / 100;
    vstd::arithmetic::div_mod::lemma_fundamental_div_mod(y, 100);
    if k < 99 {
        vstd::arithmetic::div_mod::lemma_fundamental_div_mod_converse(y + 1, 100, j, k + 1);
        lemma_four_by_last_digits(y + 1, j, k + 1);
        assert((k + 1) / 4 - k / 4 == (if (k + 1) % 4 == 0 { 1int } else { 0int }));
        assert(spec_zeller_year(y + 1) - spec_zeller_year(y) == 1 + ((k + 1) / 4 - k / 4));
    } else {
        vstd::arithmetic::div_mod::lemma_fundamental_div_mod_converse(y + 1, 100, j + 1, 0);
        lemma_four_hundred_by_hundreds(y + 1, j + 1);
        assert((j + 1) / 4 - j / 4 == (if (j + 1) % 4 == 0 { 1int } else { 0int }));
        assert(spec_zeller_year(y + 1) - spec_zeller_year(y) == -118 + ((j + 1) / 4 - j / 4));
    }
}

/// Zeller's sum of the day after a date exceeds the date's by one, modulo 7.
proof fn lemma_zeller_next_day(d: SimpleDate)
    requires
        spec_is_valid_date(d),
        d.year >= 1,
        d.year < i32::MAX,
    ensures
        ({
            let n = spec_next_day(d);
            let y: int = if d.month < 3 { d.year - 1 } else { d.year as int };
            let m: int = if d.month < 3 { d.month + 12 } else { d.month as int };
            let ny: int = if n.month < 3 { n.year - 1 } else { n.year as int };
            let nm: int = if n.month < 3 { n.month + 12 } else { n.month as int };
            (spec_zeller_sum(n.day as int, nm, ny) - spec_zeller_sum(d.day as int, m, y)) % 7 == 1
        }),
{
    let dim = spec_days_in_month(d.year as int, d.month as int);
    if d.day < dim {
    } else if d.month == 2 {
        let y = d.year - 1;
        lemma_zeller_year_step(y);
        assert(spec_zeller_month(14) == 39 && spec_zeller_month(3) == 10);
    } else {
        assert(spec_zeller_month(4) - spec_zeller_month(3) == 3);
        assert(spec_zeller_month(5) - spec_zeller_month(4) == 2);
        assert(spec_zeller_month(6) - spec_zeller_month(5) == 3);
        assert(spec_zeller_month(7) - spec_zeller_month(6) == 2);
        assert(spec_zeller_month(8) - spec_zeller_month(7) == 3);
        assert(spec_zeller_month(9) - spec_zeller_month(8) == 3);
        assert(spec_zeller_month(10) - spec_zeller_month(9) == 2);
        assert(spec_zeller_month(11) - spec_zeller_month(10) == 3);
        assert(spec_zeller_month(12) - spec_zeller_month(11) == 2);
        assert(spec_zeller_month(13) - spec_zeller_month(12) == 3);
        assert(spec_zeller_month(14) - spec_zeller_month(13) == 3);
    }
}

/// Sums one apart modulo 7 give weekdays one apart.
proof fn lemma_weekday_step(s: int, t: int)
    requires
        (t - s) % 7 == 1,
    ensures
        (t % 7 + 6) % 7 == ((s % 7 + 6) % 7 + 1) % 7,
{
    vstd::arithmetic::div_mod::lemma_fundamental_div_mod(t - s, 7);
    let q = (t - s) / 7;
    assert(t == 7 * q + (s + 1));
    vstd::arithmetic::div_mod::lemma_mod_multiples_vanish(q, s + 1, 7);
    vstd::arithmetic::div_mod::lemma_add_mod_noop(s, 1, 7);
    let a = s % 7;
    assert(0 <= a < 7);
    assert(t % 7 == (a + 1) % 7);
}

/// The day after a date falls on the next weekday, for dates from year 1 on.
pub proof fn law_next_day_next_weekday(d: SimpleDate)
    requires
        spec_is_valid_date(d),
        d.year >= 1,
        d.year < i32::MAX,
    ensures
        spec_day_of_week(spec_next_day(d)) == (spec_day_of_week(d) + 1) % 7,
{
    let n = spec_next_day(d);
    lemma_weekday_by_sum(d);
    lemma_weekday_by_sum(n);
    lemma_zeller_next_day(d);
    let y: int = if d.month < 3 { d.year - 1 } else { d.year as int };
    let m: int = if d.month < 3 { d.month + 12 } else { d.month as int };
    let ny: int = if n.month < 3 { n.year - 1 } else { n.year as int };
    let nm: int = if n.month < 3 { n.month + 12 } else { n.month as int };
    lemma_weekday_step(spec_zeller_sum(d.day as int, m, y), spec_zeller_sum(n.day as int, nm, ny));
}

/// Modulo 7, Zeller's month part and the day-count month part differ by 3.
proof fn lemma_month_parts(mp: int) -> (t: int)
    requires
        0 <= mp < 12,
    ensures
        spec_zeller_month(mp + 3) - (153 * mp + 2) / 5 == 3 + 7 * t,
{
    if mp == 0 {
        assert(spec_zeller_month(3) - (153 * 0 + 2) / 5 == 3 + 7 * 1);
        1
    } else if mp == 1 {
        assert(spec_zeller_month(4) - (153 * 1 + 2) / 5 == 3 + 7 * -3);
        -3
    } else if mp == 2 {
        assert(spec_zeller_month(5) - (153 * 2 + 2) / 5 == 3 + 7 * -7);
        -7
    } else if mp == 3 {
        assert(spec_zeller_month(6) - (153 * 3 + 2) / 5 == 3 + 7 * -11);
        -11
    } else if mp == 4 {
        assert(spec_zeller_month(7) - (153 * 4 + 2) / 5 == 3 + 7 * -15);
        -15
    } else if mp == 5 {
        assert(spec_zeller_month(8) - (153 * 5 + 2) / 5 == 3 + 7 * -19);
        -19
    } else if mp == 6 {
        assert(spec_zeller_month(9) - (153 * 6 + 2) / 5 == 3 + 7 * -23);
        -23
    } else if mp == 7 {
        assert(spec_zeller_month(10) - (153 * 7 + 2) / 5 == 3 + 7 * -27);
        -27
    } else if mp == 8 {
        assert(spec_zeller_month(11) - (153 * 8 + 2) / 5 == 3 + 7 * -31);
        -31
    } else if mp == 9 {
        assert(spec_zeller_month(12) - (153 * 9 + 2) / 5 == 3 + 7 * -35);
        -35
    } else if mp == 10 {
        assert(spec_zeller_month(13) - (153 * 10 + 2) / 5 == 3 + 7 * -39);
        -39
    } else {
        assert(spec_zeller_month(14) - (153 * 11 + 2) / 5 == 3 + 7 * -43);
        -43
    }
}

/// Modulo 7, Zeller's year part equals the day-count year part for a year
/// that is not negative.
proof fn lemma_year_parts(y: int) -> (t: int)
    requires
        y >= 0,
    ensures
        ({
            let era = y / 400;
            let yoe = y - era * 400;
            spec_zeller_year(y) - (era * 146097 + yoe * 365 + yoe / 4 - yoe / 100) == 7 * t
        }),
{
    let era = y / 400;
    let yoe = y - era * 400;
    vstd::arithmetic::div_mod::lemma_fundamental_div_mod(y, 400);
    let c = yoe / 100;
    let r = yoe % 100;
    vstd::arithmetic::div_mod::lemma_fundamental_div_mod(yoe, 100);
    assert(0 <= c < 4);
    vstd::arithmetic::div_mod::lemma_fundamental_div_mod_converse(y, 100, 4 * era + c, r);
    vstd::arithmetic::div_mod::lemma_fundamental_div_mod_converse(4 * era + c, 4, era, c);
    vstd::arithmetic::div_mod::lemma_fundamental_div_mod(r, 4);
    vstd::arithmetic::div_mod::lemma_fundamental_div_mod_converse(yoe, 4, 25 * c + r / 4, r % 4);
    let t = -(52 * r + 20868 * era + 5217 * c);
    assert(spec_zeller_year(y) - (era * 146097 + yoe * 365 + yoe / 4 - yoe / 100) == 7 * t);
    t
}

/// Weekdays follow the day count: a date from 1970-01-01 on (a Thursday)
/// falls on the weekday `(days + 4) % 7`, Sunday being 0.
pub proof fn law_weekday_from_day_count(d: SimpleDate)
    requires
        spec_is_valid_date(d),
        spec_days_from_civil(d) >= 0,
    ensures
        spec_day_of_week(d) == (spec_days_from_civil(d) + 4) % 7,
{
    let y: int = if d.month < 3 { d.year - 1 } else { d.year as int };
    let m: int = if d.month < 3 { d.month + 12 } else { d.month as int };
    let mp = m - 3;
    let era = y / 400;
    let yoe = y - era * 400;
    let days = spec_days_from_civil(d);
    vstd::arithmetic::div_mod::lemma_fundamental_div_mod(y, 400);
    // The year counted from March is not negative.
    assert(y >= 0) by {
        if y < 0 {
            assert(era <= -1);
            assert(yoe * 365 + yoe / 4 - yoe / 100 <= 399 * 365 + 99) by {
                assert(yoe / 4 <= 99);
                assert(yoe / 100 >= 0);
            }
            assert((153 * mp + 2) / 5 <= 337);
        }
    }
    lemma_weekday_by_sum(d);
    let tm = lemma_month_parts(mp);
    let ty = lemma_year_parts(y);
    let z = spec_zeller_sum(d.day as int, m, y);
    assert(days == era * 146097 + (yoe * 365 + yoe / 4 - yoe / 100 + (153 * mp + 2) / 5 + d.day - 1) - 719468);
    let w = tm + ty + 102781;
    assert(z == days + 5 + 7 * w);
    vstd::arithmetic::div_mod::lemma_mod_multiples_vanish(w, days + 5, 7);
    vstd::arithmetic::div_mod::lemma_fundamental_div_mod(days + 5, 7);
    let q = (days + 5) / 7;
    let a = (days + 5) % 7;
    if a == 0 {
        vstd::arithmetic::div_mod::lemma_fundamental_div_mod_converse(days + 4, 7, q - 1, 6);
    } else {
        vstd::arithmetic::div_mod::lemma_fundamental_div_mod_converse(days + 4, 7, q, a - 1);
    }
}

/// Day `d` of `month` in `year`.
pub open spec fn spec_month_day(year: int, month: int, d: int) -> SimpleDate {
    SimpleDate { year: year as i32, month: month as u32, day: d as u32 }
}

/// With bounds in order (or either missing), a month `1..=12` is allowed
/// exactly when some day of it lies within the bounds.
pub proof fn law_month_allowed_iff_some_day(
    year: int,
    month: int,
    min: Option<SimpleDate>,
    max: Option<SimpleDate>,
)
    requires
        i32::MIN <= year <= i32::MAX,
        1 <= month <= 12,
        min is Some && max is Some ==> spec_date_le(min->0, max->0),
    ensures
        spec_is_month_allowed(year, month, min, max) <==> exists|d: int|
            1 <= d <= spec_days_in_month(year, month) && #[trigger] spec_is_date_allowed(
                spec_month_day(year, month, d),
                min,
                max,
            ),
{
    let dim = spec_days_in_month(year, month);
    let first = spec_month_day(year, month, 1);
    let last = spec_month_day(year, month, dim);
    if spec_is_month_allowed(year, month, min, max) {
        let d: int = match min {
            Some(lo) => if spec_date_lt(first, lo) {
                lo.day as int
            } else {
                1
            },
            None => 1,
        };
        if d != 1 {
            assert(spec_month_day(year, month, d) == min->0);
        }
        assert(spec_is_date_allowed(spec_month_day(year, month, d), min, max));
    }
    if exists|d: int|
        1 <= d <= dim && #[trigger] spec_is_date_allowed(spec_month_day(year, month, d), min, max) {
        let d = choose|d: int|
            1 <= d <= dim && #[trigger] spec_is_date_allowed(spec_month_day(year, month, d), min, max);
        let x = spec_month_day(year, month, d);
        assert(x.year == year && x.month == month && x.day == d);
    }
}

} // verus!
