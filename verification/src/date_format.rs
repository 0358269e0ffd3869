//! Date patterns of the date picker (`MM/DD/YYYY` and friends): reading a
//! pattern specification, showing dates and ranges, and reading dates and
//! ranges back from text.

use vstd::prelude::*;

use crate::date::{make_date, spec_date_lt, spec_is_valid_date, SimpleDate};
use crate::text::{
    chars_of, extend_with_str, is_whitespace, lemma_digits_value, lemma_find_first_at, lemma_find_none, lemma_parse_padded_i32,
    lemma_parse_padded_u32, lemma_trim_no_whitespace, lemma_zero_pad_value, lower_chars, parse_i32,
    parse_u32, push_padded, spec_all_digits, spec_digits, spec_format_padded, spec_is_ascii_alpha,
    spec_is_ascii_digit, spec_is_whitespace, spec_lower, spec_parse_i32, spec_parse_u32,
    spec_split_once, spec_trim, spec_trim_end, spec_trim_start, split_once, string_from_chars, trim_chars,
};

verus! {

/// The order in which day, month and year appear.
#[derive(Clone, Copy, Debug, PartialEq, Eq, Structural)]
pub enum DateFieldOrder {
    MonthDayYear,
    DayMonthYear,
    YearMonthDay,
}

/// A field order and the character between the fields.
#[derive(Clone, Copy, Debug, PartialEq, Eq, Structural)]
pub struct DatePattern {
    pub order: DateFieldOrder,
    pub separator: char,
}

/// The display format that a date picker is configured with.
#[derive(Clone, Copy, Debug, PartialEq, Eq, Structural)]
pub enum DateFormat {
    MonthDayYear,
    DayMonthYear,
    YearMonthDay,
}

/// Whether a picker selects one date or a range of dates.
#[derive(Clone, Copy, Debug, PartialEq, Eq, Structural)]
pub enum PickerSelectionMode {
    Single,
    Range,
}

/// The separator an order uses by default: `/` for month- or day-first,
/// `-` for year-first.
pub open spec fn spec_default_separator(order: DateFieldOrder) -> char {
    match order {
        DateFieldOrder::MonthDayYear | DateFieldOrder::DayMonthYear => '/',
        DateFieldOrder::YearMonthDay => '-',
    }
}

/// The default separator of `order`.
pub fn default_separator_for_order(order: DateFieldOrder) -> (c: char)
    ensures
        c == spec_default_separator(order),
{
    match order {
        DateFieldOrder::MonthDayYear | DateFieldOrder::DayMonthYear => '/',
        DateFieldOrder::YearMonthDay => '-',
    }
}

/// The pattern of a configured format, with the order's default separator.
pub open spec fn spec_pattern_from_format(format: DateFormat) -> DatePattern {
    match format {
        DateFormat::MonthDayYear => DatePattern { order: DateFieldOrder::MonthDayYear, separator: '/' },
        DateFormat::DayMonthYear => DatePattern { order: DateFieldOrder::DayMonthYear, separator: '/' },
        DateFormat::YearMonthDay => DatePattern { order: DateFieldOrder::YearMonthDay, separator: '-' },
    }
}

/// The pattern of a configured format.
pub fn pattern_from_date_format(format: DateFormat) -> (p: DatePattern)
    ensures
        p == spec_pattern_from_format(format),
{
    match format {
        DateFormat::MonthDayYear => DatePattern { order: DateFieldOrder::MonthDayYear, separator: '/' },
        DateFormat::DayMonthYear => DatePattern { order: DateFieldOrder::DayMonthYear, separator: '/' },
        DateFormat::YearMonthDay => DatePattern { order: DateFieldOrder::YearMonthDay, separator: '-' },
    }
}

/// The characters that may separate date fields.
pub open spec fn is_date_sep(c: char) -> bool {
    c == '/' || c == '-' || c == '.'
}

/// The first date separator in `s`.
pub open spec fn spec_detect_separator(s: Seq<char>) -> Option<char>
    decreases s.len(),
{
    if s.len() == 0 {
        None
    } else if is_date_sep(s[0]) {
        Some(s[0])
    } else {
        spec_detect_separator(s.drop_first())
    }
}

/// The first date separator (`/`, `-` or `.`) in `v`.
pub fn detect_separator(v: &Vec<char>) -> (r: Option<char>)
    ensures
        r == spec_detect_separator(v@),
{
    let mut i: usize = 0;
    assert(v@.subrange(0, v@.len() as int) =~= v@);
    while i < v.len()
        invariant
            i <= v@.len(),
            spec_detect_separator(v@) == spec_detect_separator(v@.subrange(i as int, v@.len() as int)),
        decreases v@.len() - i,
    {
        let c = v[i];
        let ghost rest = v@.subrange(i as int, v@.len() as int);
        assert(rest[0] == c);
        assert(rest.drop_first() =~= v@.subrange(i + 1, v@.len() as int));
        if c == '/' || c == '-' || c == '.' {
            return Some(c);
        }
        i += 1;
    }
    assert(v@.subrange(i as int, v@.len() as int) =~= Seq::<char>::empty());
    None
}

// ------------------------------------------------------------------
// Pattern specifications such as "dd.mm.yyyy"
// ------------------------------------------------------------------

/// One step of reading a pattern specification.  The state holds the first
/// letter of each finished field, the first letter of the field being read
/// (if any), the separators met, and whether the text was refused.
/// Letters extend the current field; a separator ends a non-empty field (and
/// is refused after an empty one); whitespace is skipped; anything else is
/// refused.
pub open spec fn spec_scan_step(
    st: (Seq<char>, Option<char>, Seq<char>, bool),
    c: char,
) -> (Seq<char>, Option<char>, Seq<char>, bool) {
    let (heads, current, seps, failed) = st;
    if failed {
        st
    } else if spec_is_ascii_alpha(c) {
        match current {
            Some(h) => (heads, Some(h), seps, false),
            None => (heads, Some(c), seps, false),
        }
    } else if is_date_sep(c) {
        match current {
            Some(h) => (heads.push(h), None, seps.push(c), false),
            None => (heads, current, seps, true),
        }
    } else if !spec_is_whitespace(c) {
        (heads, current, seps, true)
    } else {
        st
    }
}

/// The state after reading all of `s`.
pub open spec fn spec_scan(s: Seq<char>) -> (Seq<char>, Option<char>, Seq<char>, bool)
    decreases s.len(),
{
    if s.len() == 0 {
        (Seq::empty(), None, Seq::empty(), false)
    } else {
        spec_scan_step(spec_scan(s.drop_last()), s.last())
    }
}

/// The order named by the first letters of the three fields.
pub open spec fn spec_order_of_heads(h: Seq<char>) -> Option<DateFieldOrder> {
    if h == seq!['m', 'd', 'y'] {
        Some(DateFieldOrder::MonthDayYear)
    } else if h == seq!['d', 'm', 'y'] {
        Some(DateFieldOrder::DayMonthYear)
    } else if h == seq!['y', 'm', 'd'] {
        Some(DateFieldOrder::YearMonthDay)
    } else {
        None
    }
}

/// The pattern that a specification such as `"dd.mm.yyyy"` denotes.
/// `named` is the format that the specification names as a whole (what the
/// widget's `DateFormat` parser reads from the trimmed text); when there is
/// one, it gives the order and the first separator in the text (if any)
/// replaces the default one.  Otherwise the trimmed, lowercased text must
/// consist of three letter fields separated by one repeated separator
/// (optionally followed by one more), whose first letters spell `mdy`, `dmy`
/// or `ymd`; whitespace inside it is ignored.
pub open spec fn spec_parse_date_pattern(spec: Seq<char>, named: Option<DateFormat>) -> Option<
    DatePattern,
> {
    let t = spec_trim(spec);
    if t.len() == 0 {
        None
    } else if named is Some {
        let p = spec_pattern_from_format(named->0);
        Some(
            DatePattern {
                order: p.order,
                separator: match spec_detect_separator(t) {
                    Some(c) => c,
                    None => p.separator,
                },
            },
        )
    } else {
        let (heads, current, seps, failed) = spec_scan(spec_lower(t));
        let all_heads = match current {
            Some(h) => heads.push(h),
            None => heads,
        };
        if failed || all_heads.len() != 3 || !(forall|i: int|
            0 <= i < seps.len() ==> #[trigger] seps[i] == seps[0]) {
            None
        } else {
            match spec_order_of_heads(all_heads) {
                Some(o) => Some(
                    DatePattern {
                        order: o,
                        separator: if seps.len() > 0 {
                            seps[0]
                        } else {
                            spec_default_separator(o)
                        },
                    },
                ),
                None => None,
            }
        }
    }
}

fn order_of_heads(h: &Vec<char>) -> (r: Option<DateFieldOrder>)
    ensures
        r == spec_order_of_heads(h@),
{
    if h.len() != 3 {
        return None;
    }
    if h[0] == 'm' && h[1] == 'd' && h[2] == 'y' {
        assert(h@ =~= seq!['m', 'd', 'y']);
        Some(DateFieldOrder::MonthDayYear)
    } else if h[0] == 'd' && h[1] == 'm' && h[2] == 'y' {
        assert(h@ =~= seq!['d', 'm', 'y']);
        Some(DateFieldOrder::DayMonthYear)
    } else if h[0] == 'y' && h[1] == 'm' && h[2] == 'd' {
        assert(h@ =~= seq!['y', 'm', 'd']);
        Some(DateFieldOrder::YearMonthDay)
    } else {
        proof {
            if h@ == seq!['m', 'd', 'y'] {
                assert(h@[0] == 'm' && h@[1] == 'd' && h@[2] == 'y');
            }
        }
        proof {
            if h@ == seq!['d', 'm', 'y'] {
                assert(h@[0] == 'd' && h@[1] == 'm' && h@[2] == 'y');
            }
        }
        proof {
            if h@ == seq!['y', 'm', 'd'] {
                assert(h@[0] == 'y' && h@[1] == 'm' && h@[2] == 'd');
            }
        }
        None
    }
}

/// Reads a pattern specification; `named` is the format that the
/// specification names as a whole, if any (see `spec_parse_date_pattern`).
pub fn parse_date_pattern(spec: &str, named: Option<DateFormat>) -> (r: Option<DatePattern>)
    ensures
        r == spec_parse_date_pattern(spec@, named),
{
    let raw = chars_of(spec);
    let trimmed = trim_chars(&raw);
    if trimmed.len() == 0 {
        return None;
    }
    if let Some(format) = named {
        let mut pattern = pattern_from_date_format(format);
        if let Some(separator) = detect_separator(&trimmed) {
            pattern.separator = separator;
        }
        return Some(pattern);
    }
    let normalized = lower_chars(&trimmed);
    let mut heads: Vec<char> = Vec::new();
    let mut current: Option<char> = None;
    let mut seps: Vec<char> = Vec::new();
    let mut failed = false;
    let mut i: usize = 0;
    while i < normalized.len()
        invariant
            i <= normalized@.len(),
            (heads@, current, seps@, failed) == spec_scan(normalized@.subrange(0, i as int)),
        decreases normalized@.len() - i,
    {
        let ch = normalized[i];
        proof {
            let pre = normalized@.subrange(0, i as int);
            let nxt = normalized@.subrange(0, i + 1);
            assert(nxt.drop_last() =~= pre);
            assert(nxt.last() == ch);
        }
        if !failed {
            if ('a' <= ch && ch <= 'z') || ('A' <= ch && ch <= 'Z') {
                if current.is_none() {
                    current = Some(ch);
                }
            } else if ch == '/' || ch == '-' || ch == '.' {
                match current {
                    Some(h) => {
                        heads.push(h);
                        seps.push(ch);
                        current = None;
                    },
                    None => {
                        failed = true;
                    },
                }
            } else if !is_whitespace(ch) {
                failed = true;
            }
        }
        i += 1;
    }
    assert(normalized@.subrange(0, normalized@.len() as int) =~= normalized@);
    if failed {
        return None;
    }
    if let Some(h) = current {
        heads.push(h);
    }
    if heads.len() != 3 {
        return None;
    }
    let mut k: usize = 0;
    #[verifier::loop_isolation(false)]
    while k < seps.len()
        invariant
            k <= seps@.len(),
            forall|t: int| 0 <= t < k ==> #[trigger] seps@[t] == seps@[0],
        decreases seps@.len() - k,
    {
        if seps[k] != seps[0] {
            assert(seps@[k as int] != seps@[0]);
            return None;
        }
        k += 1;
    }
    match order_of_heads(&heads) {
        Some(order) => {
            let separator = if seps.len() > 0 {
                seps[0]
            } else {
                default_separator_for_order(order)
            };
            Some(DatePattern { order, separator })
        },
        None => None,
    }
}

// ------------------------------------------------------------------
// Showing dates
// ------------------------------------------------------------------

/// How a date is shown in `pattern`: month and day with two digits, the year
/// with four (Rust's `{:02}` and `{:04}`), in the pattern's order, joined by
/// its separator.
pub open spec fn spec_format_for_display(d: SimpleDate, p: DatePattern) -> Seq<char> {
    let mm = spec_format_padded(d.month as int, 2);
    let dd = spec_format_padded(d.day as int, 2);
    let yyyy = spec_format_padded(d.year as int, 4);
    let sep = seq![p.separator];
    match p.order {
        DateFieldOrder::MonthDayYear => mm + sep + dd + sep + yyyy,
        DateFieldOrder::DayMonthYear => dd + sep + mm + sep + yyyy,
        DateFieldOrder::YearMonthDay => yyyy + sep + mm + sep + dd,
    }
}

fn push_formatted(out: &mut Vec<char>, date: SimpleDate, pattern: DatePattern)
    ensures
        final(out)@ == old(out)@ + spec_format_for_display(date, pattern),
{
    let sep = pattern.separator;
    let ghost mm = spec_format_padded(date.month as int, 2);
    let ghost dd = spec_format_padded(date.day as int, 2);
    let ghost yyyy = spec_format_padded(date.year as int, 4);
    match pattern.order {
        DateFieldOrder::MonthDayYear => {
            push_padded(out, date.month as i64, 2);
            out.push(sep);
            push_padded(out, date.day as i64, 2);
            out.push(sep);
            push_padded(out, date.year as i64, 4);
            assert(final(out)@ =~= old(out)@ + (mm + seq![sep] + dd + seq![sep] + yyyy));
        },
        DateFieldOrder::DayMonthYear => {
            push_padded(out, date.day as i64, 2);
            out.push(sep);
            push_padded(out, date.month as i64, 2);
            out.push(sep);
            push_padded(out, date.year as i64, 4);
            assert(final(out)@ =~= old(out)@ + (dd + seq![sep] + mm + seq![sep] + yyyy));
        },
        DateFieldOrder::YearMonthDay => {
            push_padded(out, date.year as i64, 4);
            out.push(sep);
            push_padded(out, date.month as i64, 2);
            out.push(sep);
            push_padded(out, date.day as i64, 2);
            assert(final(out)@ =~= old(out)@ + (yyyy + seq![sep] + mm + seq![sep] + dd));
        },
    }
}

/// `date` shown in `pattern`.
pub fn format_for_display(date: SimpleDate, pattern: DatePattern) -> (s: String)
    ensures
        s@ == spec_format_for_display(date, pattern),
{
    let mut out: Vec<char> = Vec::new();
    push_formatted(&mut out, date, pattern);
    assert(out@ =~= spec_format_for_display(date, pattern));
    string_from_chars(&out)
}

/// The placeholder of an empty field: `MM`, `DD` and `YYYY` in the pattern's
/// order, joined by its separator.
pub open spec fn spec_placeholder(p: DatePattern) -> Seq<char> {
    let sep = seq![p.separator];
    match p.order {
        DateFieldOrder::MonthDayYear => "MM"@ + sep + "DD"@ + sep + "YYYY"@,
        DateFieldOrder::DayMonthYear => "DD"@ + sep + "MM"@ + sep + "YYYY"@,
        DateFieldOrder::YearMonthDay => "YYYY"@ + sep + "MM"@ + sep + "DD"@,
    }
}

/// The placeholder text for `pattern`.
pub fn default_placeholder_for_format(pattern: DatePattern) -> (s: String)
    ensures
        s@ == spec_placeholder(pattern),
{
    let sep = pattern.separator;
    let mut out: Vec<char> = Vec::new();
    match pattern.order {
        DateFieldOrder::MonthDayYear => {
            extend_with_str(&mut out, "MM");
            out.push(sep);
            extend_with_str(&mut out, "DD");
            out.push(sep);
            extend_with_str(&mut out, "YYYY");
        },
        DateFieldOrder::DayMonthYear => {
            extend_with_str(&mut out, "DD");
            out.push(sep);
            extend_with_str(&mut out, "MM");
            out.push(sep);
            extend_with_str(&mut out, "YYYY");
        },
        DateFieldOrder::YearMonthDay => {
            extend_with_str(&mut out, "YYYY");
            out.push(sep);
            extend_with_str(&mut out, "MM");
            out.push(sep);
            extend_with_str(&mut out, "DD");
        },
    }
    assert(out@ =~= spec_placeholder(pattern));
    string_from_chars(&out)
}

/// A range as shown in its field: `start - end`, or only `start` while the
/// end is open, or nothing without a start.
pub open spec fn spec_format_range(start: Option<SimpleDate>, end: Option<SimpleDate>, p: DatePattern) -> Seq<
    char,
> {
    match (start, end) {
        (Some(s), Some(e)) => spec_format_for_display(s, p) + " - "@ + spec_format_for_display(e, p),
        (Some(s), None) => spec_format_for_display(s, p),
        _ => Seq::empty(),
    }
}

/// The range `start..end` shown in `pattern`.
pub fn format_range_for_display(
    start: Option<SimpleDate>,
    end: Option<SimpleDate>,
    pattern: DatePattern,
) -> (s: String)
    ensures
        s@ == spec_format_range(start, end, pattern),
{
    let mut out: Vec<char> = Vec::new();
    match (start, end) {
        (Some(s), Some(e)) => {
            push_formatted(&mut out, s, pattern);
            extend_with_str(&mut out, " - ");
            push_formatted(&mut out, e, pattern);
        },
        (Some(s), None) => {
            push_formatted(&mut out, s, pattern);
        },
        _ => {},
    }
    assert(out@ =~= spec_format_range(start, end, pattern));
    string_from_chars(&out)
}


// ------------------------------------------------------------------
// Reading dates
// ------------------------------------------------------------------

/// The characters that split a date into fields: `-` for ISO dates, any date
/// separator otherwise.
pub open spec fn is_field_sep(c: char, iso: bool) -> bool {
    if iso {
        c == '-'
    } else {
        is_date_sep(c)
    }
}

/// The index of the first field separator at or after `from` (the length of
/// `s` when there is none).
pub open spec fn spec_next_sep(s: Seq<char>, from: int, iso: bool) -> int
    decreases s.len() - from,
{
    if from < 0 || from >= s.len() {
        s.len() as int
    } else if is_field_sep(s[from], iso) {
        from
    } else {
        spec_next_sep(s, from + 1, iso)
    }
}

/// The pieces of `s` between field separators when there are exactly three
/// of them (what `str::split` yields when it yields three pieces).
pub open spec fn spec_three_fields(s: Seq<char>, iso: bool) -> Option<(Seq<char>, Seq<char>, Seq<char>)> {
    let i = spec_next_sep(s, 0, iso);
    let j = spec_next_sep(s, i + 1, iso);
    let k = spec_next_sep(s, j + 1, iso);
    if i >= s.len() || j >= s.len() || k < s.len() {
        None
    } else {
        Some((s.subrange(0, i), s.subrange(i + 1, j), s.subrange(j + 1, s.len() as int)))
    }
}

/// The date of the three parsed fields, when all parsed and the date exists.
pub open spec fn spec_make_date_from(y: Option<int>, m: Option<int>, d: Option<int>) -> Option<
    SimpleDate,
> {
    match (y, m, d) {
        (Some(yy), Some(mm), Some(dd)) => {
            let date = SimpleDate { year: yy as i32, month: mm as u32, day: dd as u32 };
            if spec_is_valid_date(date) {
                Some(date)
            } else {
                None
            }
        },
        _ => None,
    }
}

/// An ISO date `year-month-day`: the trimmed text split at `-` into exactly
/// three pieces, each trimmed and read as a decimal number.
pub open spec fn spec_parse_iso_date(v: Seq<char>) -> Option<SimpleDate> {
    match spec_three_fields(spec_trim(v), true) {
        Some((a, b, c)) => spec_make_date_from(
            spec_parse_i32(spec_trim(a)),
            spec_parse_u32(spec_trim(b)),
            spec_parse_u32(spec_trim(c)),
        ),
        None => None,
    }
}

/// A date with its fields in `order`: the trimmed text split at `/`, `-` or
/// `.` into exactly three pieces, each trimmed and read as a decimal number.
pub open spec fn spec_parse_with_order(v: Seq<char>, order: DateFieldOrder) -> Option<SimpleDate> {
    match spec_three_fields(spec_trim(v), false) {
        Some((p1, p2, p3)) => match order {
            DateFieldOrder::MonthDayYear => spec_make_date_from(
                spec_parse_i32(spec_trim(p3)),
                spec_parse_u32(spec_trim(p1)),
                spec_parse_u32(spec_trim(p2)),
            ),
            DateFieldOrder::DayMonthYear => spec_make_date_from(
                spec_parse_i32(spec_trim(p3)),
                spec_parse_u32(spec_trim(p2)),
                spec_parse_u32(spec_trim(p1)),
            ),
            DateFieldOrder::YearMonthDay => spec_make_date_from(
                spec_parse_i32(spec_trim(p1)),
                spec_parse_u32(spec_trim(p2)),
                spec_parse_u32(spec_trim(p3)),
            ),
        },
        None => None,
    }
}

fn next_sep(v: &Vec<char>, from: usize, iso: bool) -> (r: usize)
    requires
        from <= v@.len(),
    ensures
        r as int == spec_next_sep(v@, from as int, iso),
        from <= r <= v@.len(),
{
    let mut i = from;
    while i < v.len()
        invariant
            from <= i <= v@.len(),
            spec_next_sep(v@, from as int, iso) == spec_next_sep(v@, i as int, iso),
        decreases v@.len() - i,
    {
        let c = v[i];
        let hit = if iso {
            c == '-'
        } else {
            c == '/' || c == '-' || c == '.'
        };
        if hit {
            return i;
        }
        i += 1;
    }
    i
}

/// The three fields of `v`, each trimmed.
fn three_fields(v: &Vec<char>, iso: bool) -> (r: Option<(Vec<char>, Vec<char>, Vec<char>)>)
    ensures
        match r {
            Some((a, b, c)) => spec_three_fields(v@, iso) matches Some((x, y, z)) && a@ == spec_trim(x)
                && b@ == spec_trim(y) && c@ == spec_trim(z),
            None => spec_three_fields(v@, iso) is None,
        },
{
    let n = v.len();
    let i = next_sep(v, 0, iso);
    if i >= n {
        assert(spec_next_sep(v@, i + 1, iso) == n);
        return None;
    }
    let j = next_sep(v, i + 1, iso);
    if j >= n {
        return None;
    }
    let k = next_sep(v, j + 1, iso);
    if k < n {
        return None;
    }
    let a = trim_chars(&crate::text::slice_chars(v, 0, i));
    let b = trim_chars(&crate::text::slice_chars(v, i + 1, j));
    let c = trim_chars(&crate::text::slice_chars(v, j + 1, n));
    Some((a, b, c))
}

fn make_date_from(y: Option<i32>, m: Option<u32>, d: Option<u32>) -> (r: Option<SimpleDate>)
    ensures
        r == spec_make_date_from(
            match y {
                Some(v) => Some(v as int),
                None => None,
            },
            match m {
                Some(v) => Some(v as int),
                None => None,
            },
            match d {
                Some(v) => Some(v as int),
                None => None,
            },
        ),
{
    match (y, m, d) {
        (Some(yy), Some(mm), Some(dd)) => make_date(yy, mm, dd),
        _ => None,
    }
}

/// Reads an ISO date `year-month-day`.
pub fn parse_iso_date(value: &Vec<char>) -> (r: Option<SimpleDate>)
    ensures
        r == spec_parse_iso_date(value@),
{
    let t = trim_chars(value);
    match three_fields(&t, true) {
        Some((a, b, c)) => make_date_from(parse_i32(&a), parse_u32(&b), parse_u32(&c)),
        None => None,
    }
}

/// Reads a date whose fields come in `pattern`'s order (any of `/`, `-` and
/// `.` separates them, whatever the pattern's separator).
pub fn parse_date_with_pattern(value: &Vec<char>, pattern: DatePattern) -> (r: Option<SimpleDate>)
    ensures
        r == spec_parse_with_order(value@, pattern.order),
{
    let t = trim_chars(value);
    match three_fields(&t, false) {
        Some((p1, p2, p3)) => match pattern.order {
            DateFieldOrder::MonthDayYear => make_date_from(
                parse_i32(&p3),
                parse_u32(&p1),
                parse_u32(&p2),
            ),
            DateFieldOrder::DayMonthYear => make_date_from(
                parse_i32(&p3),
                parse_u32(&p2),
                parse_u32(&p1),
            ),
            DateFieldOrder::YearMonthDay => make_date_from(
                parse_i32(&p1),
                parse_u32(&p2),
                parse_u32(&p3),
            ),
        },
        None => None,
    }
}

/// A date typed into a picker field: the trimmed text read as an ISO date,
/// else in the pattern's order, else month-first, day-first and year-first in
/// turn.
pub open spec fn spec_parse_picker_date(v: Seq<char>, pattern: DatePattern) -> Option<SimpleDate> {
    let t = spec_trim(v);
    if t.len() == 0 {
        None
    } else if spec_parse_iso_date(t) is Some {
        spec_parse_iso_date(t)
    } else if spec_parse_with_order(t, pattern.order) is Some {
        spec_parse_with_order(t, pattern.order)
    } else if spec_parse_with_order(t, DateFieldOrder::MonthDayYear) is Some {
        spec_parse_with_order(t, DateFieldOrder::MonthDayYear)
    } else if spec_parse_with_order(t, DateFieldOrder::DayMonthYear) is Some {
        spec_parse_with_order(t, DateFieldOrder::DayMonthYear)
    } else {
        spec_parse_with_order(t, DateFieldOrder::YearMonthDay)
    }
}

/// Reads a date typed into a picker field.
pub fn parse_picker_date(value: &Vec<char>, pattern: DatePattern) -> (r: Option<SimpleDate>)
    ensures
        r == spec_parse_picker_date(value@, pattern),
{
    let t = trim_chars(value);
    if t.len() == 0 {
        return None;
    }
    if let Some(d) = parse_iso_date(&t) {
        return Some(d);
    }
    if let Some(d) = parse_date_with_pattern(&t, pattern) {
        return Some(d);
    }
    let sep_mdy = match detect_separator(&t) {
        Some(c) => c,
        None => '/',
    };
    if let Some(d) = parse_date_with_pattern(
        &t,
        DatePattern { order: DateFieldOrder::MonthDayYear, separator: sep_mdy },
    ) {
        return Some(d);
    }
    if let Some(d) = parse_date_with_pattern(
        &t,
        DatePattern { order: DateFieldOrder::DayMonthYear, separator: sep_mdy },
    ) {
        return Some(d);
    }
    let sep_ymd = match detect_separator(&t) {
        Some(c) => c,
        None => '-',
    };
    parse_date_with_pattern(&t, DatePattern { order: DateFieldOrder::YearMonthDay, separator: sep_ymd })
}

// ------------------------------------------------------------------
// Reading ranges
// ------------------------------------------------------------------

/// The text around the first range delimiter (` - `, then ` – `, then ` — `),
/// both sides trimmed.
pub open spec fn spec_split_range(s: Seq<char>) -> Option<(Seq<char>, Seq<char>)> {
    match spec_split_once(s, " - "@) {
        Some((l, r)) => Some((spec_trim(l), spec_trim(r))),
        None => match spec_split_once(s, " \u{2013} "@) {
            Some((l, r)) => Some((spec_trim(l), spec_trim(r))),
            None => match spec_split_once(s, " \u{2014} "@) {
                Some((l, r)) => Some((spec_trim(l), spec_trim(r))),
                None => None,
            },
        },
    }
}

/// Splits a range at its delimiter.
pub fn split_range_parts(value: &Vec<char>) -> (r: Option<(Vec<char>, Vec<char>)>)
    ensures
        match r {
            Some((a, b)) => spec_split_range(value@) == Some((a@, b@)),
            None => spec_split_range(value@) is None,
        },
{
    let d1 = chars_of(" - ");
    if let Some((l, r)) = split_once(value, &d1) {
        return Some((trim_chars(&l), trim_chars(&r)));
    }
    let d2 = chars_of(" \u{2013} ");
    if let Some((l, r)) = split_once(value, &d2) {
        return Some((trim_chars(&l), trim_chars(&r)));
    }
    let d3 = chars_of(" \u{2014} ");
    if let Some((l, r)) = split_once(value, &d3) {
        return Some((trim_chars(&l), trim_chars(&r)));
    }
    None
}

/// A range typed into a picker field: the trimmed text split at a range
/// delimiter into a start date and an optional end date (an empty or
/// unreadable end leaves the range open), put in order; without a delimiter,
/// a single start date.
pub open spec fn spec_parse_picker_range(v: Seq<char>, pattern: DatePattern) -> Option<
    (SimpleDate, Option<SimpleDate>),
> {
    let t = spec_trim(v);
    if t.len() == 0 {
        None
    } else {
        match spec_split_range(t) {
            Some((l, r)) => match spec_parse_picker_date(l, pattern) {
                None => None,
                Some(start) => {
                    let end = if r.len() == 0 {
                        None
                    } else {
                        spec_parse_picker_date(r, pattern)
                    };
                    match end {
                        Some(e) => if spec_date_lt(e, start) {
                            Some((e, Some(start)))
                        } else {
                            Some((start, Some(e)))
                        },
                        None => Some((start, None)),
                    }
                },
            },
            None => match spec_parse_picker_date(t, pattern) {
                Some(d) => Some((d, None)),
                None => None,
            },
        }
    }
}

/// Reads a range typed into a picker field.
pub fn parse_picker_range(value: &Vec<char>, pattern: DatePattern) -> (r: Option<
    (SimpleDate, Option<SimpleDate>),
>)
    ensures
        r == spec_parse_picker_range(value@, pattern),
{
    let t = trim_chars(value);
    if t.len() == 0 {
        return None;
    }
    if let Some((left, right)) = split_range_parts(&t) {
        let start = match parse_picker_date(&left, pattern) {
            Some(d) => d,
            None => return None,
        };
        let end = if right.len() == 0 {
            None
        } else {
            parse_picker_date(&right, pattern)
        };
        if let Some(end_date) = end {
            if end_date.precedes(&start) {
                return Some((end_date, Some(start)));
            }
        }
        return Some((start, end));
    }
    match parse_picker_date(&t, pattern) {
        Some(d) => Some((d, None)),
        None => None,
    }
}

/// The value a bound field is normalised to: a readable date (or range) is
/// shown again in the pattern; anything else is kept as typed.
pub open spec fn spec_normalize_bound_value(
    v: Seq<char>,
    pattern: DatePattern,
    mode: PickerSelectionMode,
) -> Seq<char> {
    match mode {
        PickerSelectionMode::Single => match spec_parse_picker_date(v, pattern) {
            Some(d) => spec_format_for_display(d, pattern),
            None => v,
        },
        PickerSelectionMode::Range => match spec_parse_picker_range(v, pattern) {
            Some((s, e)) => spec_format_range(Some(s), e, pattern),
            None => v,
        },
    }
}

/// Normalises the text of a field bound to a picker.
pub fn normalize_bound_value_for_mode(value: &str, pattern: DatePattern, mode: PickerSelectionMode) -> (s:
    String)
    ensures
        s@ == spec_normalize_bound_value(value@, pattern, mode),
{
    let v = chars_of(value);
    match mode {
        PickerSelectionMode::Single => match parse_picker_date(&v, pattern) {
            Some(d) => format_for_display(d, pattern),
            None => string_from_chars(&v),
        },
        PickerSelectionMode::Range => match parse_picker_range(&v, pattern) {
            Some((start, end)) => format_range_for_display(Some(start), end, pattern),
            None => string_from_chars(&v),
        },
    }
}


// ------------------------------------------------------------------
// Reading back what was shown
// ------------------------------------------------------------------

proof fn lemma_number_text(n: nat, width: nat)
    ensures
        spec_all_digits(spec_format_padded(n as int, width)),
        spec_format_padded(n as int, width).len() >= 1,
{
    lemma_digits_value(n);
    lemma_zero_pad_value(spec_digits(n), width);
}

proof fn lemma_next_sep_at(s: Seq<char>, from: int, to: int, iso: bool)
    requires
        0 <= from <= to <= s.len(),
        forall|k: int| from <= k < to ==> !is_field_sep(#[trigger] s[k], iso),
        to == s.len() || is_field_sep(s[to], iso),
    ensures
        spec_next_sep(s, from, iso) == to,
    decreases to - from,
{
    if from < to {
        lemma_next_sep_at(s, from + 1, to, iso);
    }
}

proof fn lemma_three_fields_of(a: Seq<char>, b: Seq<char>, c: Seq<char>, sep: char, iso: bool)
    requires
        spec_all_digits(a),
        spec_all_digits(b),
        spec_all_digits(c),
        is_field_sep(sep, iso),
    ensures
        spec_three_fields(a + seq![sep] + b + seq![sep] + c, iso) == Some((a, b, c)),
{
    let s = a + seq![sep] + b + seq![sep] + c;
    let i = a.len() as int;
    let j = i + 1 + b.len();
    assert forall|k: int| 0 <= k < i implies !is_field_sep(#[trigger] s[k], iso) by {
        assert(s[k] == a[k]);
        assert(spec_is_ascii_digit(a[k]));
    }
    assert(s[i] == sep);
    lemma_next_sep_at(s, 0, i, iso);
    assert forall|k: int| i + 1 <= k < j implies !is_field_sep(#[trigger] s[k], iso) by {
        assert(s[k] == b[k - i - 1]);
        assert(spec_is_ascii_digit(b[k - i - 1]));
    }
    assert(s[j] == sep);
    lemma_next_sep_at(s, i + 1, j, iso);
    assert forall|k: int| j + 1 <= k < s.len() implies !is_field_sep(#[trigger] s[k], iso) by {
        assert(s[k] == c[k - j - 1]);
        assert(spec_is_ascii_digit(c[k - j - 1]));
    }
    lemma_next_sep_at(s, j + 1, s.len() as int, iso);
    assert(s.subrange(0, i) =~= a);
    assert(s.subrange(i + 1, j) =~= b);
    assert(s.subrange(j + 1, s.len() as int) =~= c);
}

proof fn lemma_no_fields(s: Seq<char>, iso: bool)
    requires
        forall|k: int| 0 <= k < s.len() ==> !is_field_sep(#[trigger] s[k], iso),
    ensures
        spec_three_fields(s, iso) is None,
{
    lemma_next_sep_at(s, 0, s.len() as int, iso);
}

/// The text of a shown date is not empty and holds only digits and the
/// pattern's separator: no whitespace, and no `-` unless that is the
/// separator.
proof fn lemma_shown_date_chars(d: SimpleDate, p: DatePattern)
    requires
        d.year >= 0,
        is_date_sep(p.separator),
    ensures
        spec_format_for_display(d, p).len() > 0,
        forall|k: int| 0 <= k < spec_format_for_display(d, p).len() ==> !spec_is_whitespace(
            #[trigger] spec_format_for_display(d, p)[k],
        ) && (p.separator != '-' ==> spec_format_for_display(d, p)[k] != '-'),
{
    let mm = spec_format_padded(d.month as int, 2);
    let dd = spec_format_padded(d.day as int, 2);
    let yy = spec_format_padded(d.year as int, 4);
    let sep = p.separator;
    lemma_number_text(d.month as nat, 2);
    lemma_number_text(d.day as nat, 2);
    lemma_number_text(d.year as nat, 4);
    let f = spec_format_for_display(d, p);
    assert forall|k: int| 0 <= k < f.len() implies !spec_is_whitespace(#[trigger] f[k]) && (sep
        != '-' ==> f[k] != '-') by {
        let (x, y, z) = match p.order {
            DateFieldOrder::MonthDayYear => (mm, dd, yy),
            DateFieldOrder::DayMonthYear => (dd, mm, yy),
            DateFieldOrder::YearMonthDay => (yy, mm, dd),
        };
        assert(f == x + seq![sep] + y + seq![sep] + z);
        if k < x.len() {
            assert(spec_is_ascii_digit(x[k]));
        } else if k == x.len() {
        } else if k < x.len() + 1 + y.len() {
            assert(spec_is_ascii_digit(y[k - x.len() - 1]));
        } else if k == x.len() + 1 + y.len() {
        } else {
            assert(spec_is_ascii_digit(z[k - x.len() - 2 - y.len()]));
        }
    }
}

/// A date shown in a pattern reads back as the same date: for a valid date
/// with a non-negative year and a pattern whose separator is `/`, `-` or `.`.
/// A month- or day-first pattern with `-` is excluded for years up to 31,
/// where the shown text is also a valid ISO date, which is read first
/// (`01-02-0003` reads as 0001-02-03).
pub proof fn law_format_then_parse(d: SimpleDate, p: DatePattern)
    requires
        spec_is_valid_date(d),
        d.year >= 0,
        is_date_sep(p.separator),
        p.order == DateFieldOrder::YearMonthDay || p.separator != '-' || d.year > 31,
    ensures
        spec_parse_picker_date(spec_format_for_display(d, p), p) == Some(d),
{
    let mm = spec_format_padded(d.month as int, 2);
    let dd = spec_format_padded(d.day as int, 2);
    let yy = spec_format_padded(d.year as int, 4);
    let sep = p.separator;
    lemma_number_text(d.month as nat, 2);
    lemma_number_text(d.day as nat, 2);
    lemma_number_text(d.year as nat, 4);
    lemma_trim_no_whitespace(mm);
    lemma_trim_no_whitespace(dd);
    lemma_trim_no_whitespace(yy);
    lemma_parse_padded_u32(d.month as nat, 2);
    lemma_parse_padded_u32(d.day as nat, 2);
    lemma_parse_padded_u32(d.year as nat, 4);
    lemma_parse_padded_i32(d.year as nat, 4);
    lemma_parse_padded_i32(d.month as nat, 2);
    lemma_parse_padded_i32(d.day as nat, 2);
    let f = spec_format_for_display(d, p);
    lemma_shown_date_chars(d, p);
    lemma_trim_no_whitespace(f);
    match p.order {
        DateFieldOrder::MonthDayYear => {
            lemma_three_fields_of(mm, dd, yy, sep, false);
            if sep == '-' {
                lemma_three_fields_of(mm, dd, yy, sep, true);
            } else {
                lemma_no_fields(f, true);
            }
        },
        DateFieldOrder::DayMonthYear => {
            lemma_three_fields_of(dd, mm, yy, sep, false);
            if sep == '-' {
                lemma_three_fields_of(dd, mm, yy, sep, true);
            } else {
                lemma_no_fields(f, true);
            }
        },
        DateFieldOrder::YearMonthDay => {
            lemma_three_fields_of(yy, mm, dd, sep, false);
            if sep == '-' {
                lemma_three_fields_of(yy, mm, dd, sep, true);
            } else {
                lemma_no_fields(f, true);
            }
        },
    }
}

/// The pattern a picker reads and writes dates with: its own format
/// specification when that reads as a pattern; else, for a bound input that
/// takes dates or ranges, the input's date format when that reads as one;
/// else the picker's named format.  `picker_named` and `input_named` are the
/// formats the specifications name as a whole, if any.
pub open spec fn spec_resolve_pattern(
    picker_spec: Option<Seq<char>>,
    picker_named: Option<DateFormat>,
    input_takes_dates: bool,
    input_spec: Option<Seq<char>>,
    input_named: Option<DateFormat>,
    fallback: DateFormat,
) -> DatePattern {
    let own = match picker_spec {
        Some(s) => spec_parse_date_pattern(s, picker_named),
        None => None,
    };
    let bound = match input_spec {
        Some(s) => if input_takes_dates {
            spec_parse_date_pattern(s, input_named)
        } else {
            None
        },
        None => None,
    };
    match own {
        Some(p) => p,
        None => match bound {
            Some(p) => p,
            None => spec_pattern_from_format(fallback),
        },
    }
}

/// The pattern a picker reads and writes dates with.
pub fn resolve_date_pattern(
    picker_spec: Option<&str>,
    picker_named: Option<DateFormat>,
    input_takes_dates: bool,
    input_spec: Option<&str>,
    input_named: Option<DateFormat>,
    fallback: DateFormat,
) -> (p: DatePattern)
    ensures
        p == spec_resolve_pattern(
            match picker_spec {
                Some(s) => Some(s@),
                None => None,
            },
            picker_named,
            input_takes_dates,
            match input_spec {
                Some(s) => Some(s@),
                None => None,
            },
            input_named,
            fallback,
        ),
{
    if let Some(s) = picker_spec {
        if let Some(p) = parse_date_pattern(s, picker_named) {
            return p;
        }
    }
    if input_takes_dates {
        if let Some(s) = input_spec {
            if let Some(p) = parse_date_pattern(s, input_named) {
                return p;
            }
        }
    }
    pattern_from_date_format(fallback)
}

/// A bound input of range type makes a range picker; any other makes a
/// single-date picker.
pub fn resolve_selection_mode(bound_is_range_input: bool) -> (m: PickerSelectionMode)
    ensures
        m == (if bound_is_range_input {
            PickerSelectionMode::Range
        } else {
            PickerSelectionMode::Single
        }),
{
    if bound_is_range_input {
        PickerSelectionMode::Range
    } else {
        PickerSelectionMode::Single
    }
}

/// A range shown in a pattern reads back as the same range, put in order,
/// and a range whose end is open reads back as its start alone; under the
/// conditions of `law_format_then_parse` for each date shown.
pub proof fn law_format_range_then_parse(start: SimpleDate, end: SimpleDate, p: DatePattern)
    requires
        spec_is_valid_date(start),
        spec_is_valid_date(end),
        start.year >= 0,
        end.year >= 0,
        is_date_sep(p.separator),
        p.order == DateFieldOrder::YearMonthDay || p.separator != '-' || (start.year > 31 && end.year
            > 31),
    ensures
        spec_parse_picker_range(spec_format_range(Some(start), Some(end), p), p) == (if spec_date_lt(
            end,
            start,
        ) {
            Some((end, Some(start)))
        } else {
            Some((start, Some(end)))
        }),
        spec_parse_picker_range(spec_format_range(Some(start), None, p), p) == Some((start, None::<SimpleDate>)),
{
    let fs = spec_format_for_display(start, p);
    let fe = spec_format_for_display(end, p);
    lemma_shown_date_chars(start, p);
    lemma_shown_date_chars(end, p);
    law_format_then_parse(start, p);
    law_format_then_parse(end, p);
    lemma_trim_no_whitespace(fs);
    lemma_trim_no_whitespace(fe);
    reveal_strlit(" - ");
    reveal_strlit(" \u{2013} ");
    reveal_strlit(" \u{2014} ");
    assert(spec_is_whitespace(' '));
    // The closed range.
    let dash = " - "@;
    let f = fs + dash + fe;
    assert(f[0] == fs[0]);
    assert(f.last() == fe.last());
    assert(fe.last() == fe[fe.len() - 1]);
    assert(spec_trim_start(f) == f);
    assert(spec_trim_end(f) == f);
    assert(f.subrange(fs.len() as int, fs.len() + 3int) =~= dash);
    assert forall|k: int| 0 <= k < fs.len() implies f[k] != dash[0] by {
        assert(f[k] == fs[k]);
    }
    lemma_find_first_at(f, dash, 0, fs.len() as int);
    assert(f.subrange(0, fs.len() as int) =~= fs);
    assert(f.subrange(fs.len() + 3int, f.len() as int) =~= fe);
    assert(spec_split_range(f) == Some((fs, fe)));
    // The open range.
    lemma_find_none(fs, dash, 0);
    lemma_find_none(fs, " \u{2013} "@, 0);
    lemma_find_none(fs, " \u{2014} "@, 0);
    assert(spec_split_range(fs) is None);
}

/// A date that reads back from how a pattern shows it (see
/// `law_format_then_parse`).
pub open spec fn spec_reads_back(d: SimpleDate, p: DatePattern) -> bool {
    d.year >= 0 && (p.order == DateFieldOrder::YearMonthDay || p.separator != '-' || d.year > 31)
}

proof fn lemma_parsed_with_order_valid(v: Seq<char>, order: DateFieldOrder)
    ensures
        spec_parse_with_order(v, order) matches Some(d) ==> spec_is_valid_date(d),
{
}

/// A date read from a picker field exists.
proof fn lemma_parsed_date_valid(v: Seq<char>, p: DatePattern)
    ensures
        spec_parse_picker_date(v, p) matches Some(d) ==> spec_is_valid_date(d),
{
    let t = spec_trim(v);
    lemma_parsed_with_order_valid(t, p.order);
    lemma_parsed_with_order_valid(t, DateFieldOrder::MonthDayYear);
    lemma_parsed_with_order_valid(t, DateFieldOrder::DayMonthYear);
    lemma_parsed_with_order_valid(t, DateFieldOrder::YearMonthDay);
}

/// Normalising a bound field's text twice changes nothing more than doing
/// it once, when every date the text reads as reads back from how the
/// pattern shows it.
pub proof fn law_normalize_twice(v: Seq<char>, p: DatePattern, mode: PickerSelectionMode)
    requires
        is_date_sep(p.separator),
        mode == PickerSelectionMode::Single ==> (spec_parse_picker_date(v, p) matches Some(d) ==> spec_reads_back(
            d,
            p,
        )),
        mode == PickerSelectionMode::Range ==> (spec_parse_picker_range(v, p) matches Some(r) ==> spec_reads_back(
            r.0,
            p,
        ) && (r.1 matches Some(e) ==> spec_reads_back(e, p))),
    ensures
        spec_normalize_bound_value(spec_normalize_bound_value(v, p, mode), p, mode)
            == spec_normalize_bound_value(v, p, mode),
{
    match mode {
        PickerSelectionMode::Single => {
            lemma_parsed_date_valid(v, p);
            if let Some(d) = spec_parse_picker_date(v, p) {
                law_format_then_parse(d, p);
            }
        },
        PickerSelectionMode::Range => {
            if let Some((s, e)) = spec_parse_picker_range(v, p) {
                let t = spec_trim(v);
                match spec_split_range(t) {
                    Some((l, r)) => {
                        lemma_parsed_date_valid(l, p);
                        lemma_parsed_date_valid(r, p);
                    },
                    None => {
                        lemma_parsed_date_valid(t, p);
                    },
                }
                assert(spec_is_valid_date(s));
                match e {
                    Some(x) => {
                        assert(spec_is_valid_date(x));
                        assert(!spec_date_lt(x, s));
                        law_format_range_then_parse(s, x, p);
                    },
                    None => {
                        law_format_range_then_parse(s, s, p);
                    },
                }
            }
        },
    }
}

} // verus!
