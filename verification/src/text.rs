//! Character-level helpers shared by the widgets: whitespace and case
//! handling, trimming, decimal formatting and decimal parsing, all stated over
//! the character sequence (`Seq<char>`) that a `str` or `String` views as.

use vstd::prelude::*;

use vstd::utf8::{encode_utf8, valid_utf8};

verus! {

// ------------------------------------------------------------------
// Characters
// ------------------------------------------------------------------

/// The Unicode `White_Space` property, which `char::is_whitespace` and
/// `str::trim` use.
pub open spec fn spec_is_whitespace(c: char) -> bool {
    let x = c as u32;
    ||| (0x09 <= x && x <= 0x0D)
    ||| x == 0x20
    ||| x == 0x85
    ||| x == 0xA0
    ||| x == 0x1680
    ||| (0x2000 <= x && x <= 0x200A)
    ||| x == 0x2028
    ||| x == 0x2029
    ||| x == 0x202F
    ||| x == 0x205F
    ||| x == 0x3000
}

/// Whether `c` is Unicode whitespace.
pub fn is_whitespace(c: char) -> (b: bool)
    ensures
        b == spec_is_whitespace(c),
{
    let x = c as u32;
    (0x09 <= x && x <= 0x0D) || x == 0x20 || x == 0x85 || x == 0xA0 || x == 0x1680 || (0x2000 <= x
        && x <= 0x200A) || x == 0x2028 || x == 0x2029 || x == 0x202F || x == 0x205F || x == 0x3000
}

/// ASCII letters `a..z` and `A..Z`.
pub open spec fn spec_is_ascii_alpha(c: char) -> bool {
    ('a' <= c && c <= 'z') || ('A' <= c && c <= 'Z')
}

/// ASCII digits `0..9`.
pub open spec fn spec_is_ascii_digit(c: char) -> bool {
    '0' <= c && c <= '9'
}

/// The value of an ASCII digit.
pub open spec fn digit_value(c: char) -> int {
    (c as int) - ('0' as int)
}

/// The ASCII digit of a value `0..9`.
pub open spec fn digit_char(d: int) -> char {
    if d == 0 {
        '0'
    } else if d == 1 {
        '1'
    } else if d == 2 {
        '2'
    } else if d == 3 {
        '3'
    } else if d == 4 {
        '4'
    } else if d == 5 {
        '5'
    } else if d == 6 {
        '6'
    } else if d == 7 {
        '7'
    } else if d == 8 {
        '8'
    } else {
        '9'
    }
}

/// The ASCII digit of `d`.
fn digit_to_char(d: u64) -> (c: char)
    requires
        d < 10,
    ensures
        c == digit_char(d as int),
{
    match d {
        0 => '0',
        1 => '1',
        2 => '2',
        3 => '3',
        4 => '4',
        5 => '5',
        6 => '6',
        7 => '7',
        8 => '8',
        _ => '9',
    }
}

/// ASCII lowercase mapping of one character (`char::to_ascii_lowercase`).
pub open spec fn spec_lower_char(c: char) -> char {
    if 'A' <= c && c <= 'Z' {
        ((c as u32) + 32) as char
    } else {
        c
    }
}

/// ASCII lowercase mapping of a string (`str::to_ascii_lowercase`).
pub open spec fn spec_lower(s: Seq<char>) -> Seq<char> {
    s.map_values(|c: char| spec_lower_char(c))
}

/// Lowercases one ASCII letter and leaves every other character unchanged.
pub fn lower_char(c: char) -> (r: char)
    ensures
        r == spec_lower_char(c),
{
    if 'A' <= c && c <= 'Z' {
        let b = c as u8;
        (b + 32) as char
    } else {
        c
    }
}

// ------------------------------------------------------------------
// Trimming
// ------------------------------------------------------------------

/// `s` without its leading whitespace.
pub open spec fn spec_trim_start(s: Seq<char>) -> Seq<char>
    decreases s.len(),
{
    if s.len() > 0 && spec_is_whitespace(s[0]) {
        spec_trim_start(s.drop_first())
    } else {
        s
    }
}

/// `s` without its trailing whitespace.
pub open spec fn spec_trim_end(s: Seq<char>) -> Seq<char>
    decreases s.len(),
{
    if s.len() > 0 && spec_is_whitespace(s.last()) {
        spec_trim_end(s.drop_last())
    } else {
        s
    }
}

/// `str::trim`: `s` without leading and trailing whitespace.
pub open spec fn spec_trim(s: Seq<char>) -> Seq<char> {
    spec_trim_end(spec_trim_start(s))
}

proof fn lemma_trim_start_at(s: Seq<char>, i: int)
    requires
        0 <= i <= s.len(),
        forall|k: int| 0 <= k < i ==> spec_is_whitespace(#[trigger] s[k]),
        i == s.len() || !spec_is_whitespace(s[i]),
    ensures
        spec_trim_start(s) == s.subrange(i, s.len() as int),
    decreases i,
{
    if i == 0 {
        assert(s.subrange(0, s.len() as int) =~= s);
    } else {
        let t = s.drop_first();
        assert forall|k: int| 0 <= k < i - 1 implies spec_is_whitespace(#[trigger] t[k]) by {
            assert(t[k] == s[k + 1]);
        }
        if i - 1 < t.len() {
            assert(t[i - 1] == s[i]);
        }
        lemma_trim_start_at(t, i - 1);
        assert(t.subrange(i - 1, t.len() as int) =~= s.subrange(i, s.len() as int));
    }
}

proof fn lemma_trim_end_at(s: Seq<char>, j: int)
    requires
        0 <= j <= s.len(),
        forall|k: int| j <= k < s.len() ==> spec_is_whitespace(#[trigger] s[k]),
        j == 0 || !spec_is_whitespace(s[j - 1]),
    ensures
        spec_trim_end(s) == s.subrange(0, j),
    decreases s.len() - j,
{
    if j == s.len() {
        assert(s.subrange(0, j) =~= s);
    } else {
        let t = s.drop_last();
        assert forall|k: int| j <= k < t.len() implies spec_is_whitespace(#[trigger] t[k]) by {
            assert(t[k] == s[k]);
        }
        if j > 0 {
            assert(t[j - 1] == s[j - 1]);
        }
        assert(spec_is_whitespace(s[s.len() - 1]));
        lemma_trim_end_at(t, j);
        assert(t.subrange(0, j) =~= s.subrange(0, j));
    }
}

/// The bounds `(start, end)` such that `spec_trim(s) == s[start..end]`.
pub fn trim_bounds(s: &Vec<char>) -> (r: (usize, usize))
    ensures
        r.0 <= r.1 <= s@.len(),
        spec_trim(s@) == s@.subrange(r.0 as int, r.1 as int),
{
    let n = s.len();
    let mut i: usize = 0;
    while i < n && is_whitespace(s[i])
        invariant
            i <= n,
            n == s@.len(),
            forall|k: int| 0 <= k < i ==> spec_is_whitespace(#[trigger] s@[k]),
        decreases n - i,
    {
        i += 1;
    }
    proof {
        lemma_trim_start_at(s@, i as int);
    }
    let ghost t = s@.subrange(i as int, n as int);
    let mut j: usize = n;
    while j > i && is_whitespace(s[j - 1])
        invariant
            i <= j <= n,
            n == s@.len(),
            forall|k: int| j <= k < n ==> spec_is_whitespace(#[trigger] s@[k]),
        decreases j,
    {
        j -= 1;
    }
    proof {
        assert forall|k: int| j - i <= k < t.len() implies spec_is_whitespace(#[trigger] t[k]) by {
            assert(t[k] == s@[k + i]);
        }
        if j > i {
            assert(t[j - i - 1] == s@[j - 1]);
        }
        lemma_trim_end_at(t, j - i);
        assert(t.subrange(0, j - i) =~= s@.subrange(i as int, j as int));
    }
    (i, j)
}

// ------------------------------------------------------------------
// Conversions between `str`, `String` and `Vec<char>`
// ------------------------------------------------------------------

/// The characters of `s`, in order.
pub fn chars_of(s: &str) -> (v: Vec<char>)
    ensures
        v@ == s@,
{
    let n = s.unicode_len();
    let mut v: Vec<char> = Vec::new();
    let mut i: usize = 0;
    while i < n
        invariant
            n == s@.len(),
            i <= n,
            v@ == s@.subrange(0, i as int),
        decreases n - i,
    {
        v.push(s.get_char(i));
        i += 1;
        assert(v@ =~= s@.subrange(0, i as int));
    }
    assert(v@ =~= s@);
    v
}

/// Appends one character to a `String` by calling `String::push`, which vstd
/// gives no specification.  Trusted: the characters afterwards are those
/// before followed by `c`, as the documentation of `String::push` says.
#[verifier::external_body]
pub(crate) fn push_char(s: &mut String, c: char)
    ensures
        final(s)@ == old(s)@.push(c),
{
    s.push(c);
}

/// Reads UTF-8 bytes as a `String` by calling `String::from_utf8`, which
/// vstd gives no specification.  Trusted: the result is there exactly when
/// the bytes are valid UTF-8, and then its characters encode to those
/// bytes, as the documentation of `String::from_utf8` says.
#[verifier::external_body]
pub(crate) fn string_from_utf8(v: Vec<u8>) -> (r: Option<String>)
    ensures
        r is Some <==> valid_utf8(v@),
        r matches Some(s) ==> encode_utf8(s@) == v@,
{
    String::from_utf8(v).ok()
}

/// The `String` holding the characters `v[from..to]`.
pub fn string_from_range(v: &Vec<char>, from: usize, to: usize) -> (s: String)
    requires
        from <= to <= v@.len(),
    ensures
        s@ == v@.subrange(from as int, to as int),
{
    let mut s = String::new();
    let mut i = from;
    while i < to
        invariant
            from <= i <= to,
            to <= v@.len(),
            s@ == v@.subrange(from as int, i as int),
        decreases to - i,
    {
        push_char(&mut s, v[i]);
        i += 1;
        assert(s@ =~= v@.subrange(from as int, i as int));
    }
    s
}

/// The `String` holding the characters of `v`.
pub fn string_from_chars(v: &Vec<char>) -> (s: String)
    ensures
        s@ == v@,
{
    let s = string_from_range(v, 0, v.len());
    assert(v@.subrange(0, v@.len() as int) =~= v@);
    s
}

/// Appends the characters of `t` to `v`.
pub fn extend_with_str(v: &mut Vec<char>, t: &str)
    ensures
        final(v)@ == old(v)@ + t@,
{
    let n = t.unicode_len();
    let mut i: usize = 0;
    while i < n
        invariant
            n == t@.len(),
            i <= n,
            v@ == old(v)@ + t@.subrange(0, i as int),
        decreases n - i,
    {
        v.push(t.get_char(i));
        i += 1;
        assert(v@ =~= old(v)@ + t@.subrange(0, i as int));
    }
    assert(t@.subrange(0, n as int) =~= t@);
}

/// Appends the characters of `t` to `v`.
pub fn extend_with_chars(v: &mut Vec<char>, t: &Vec<char>)
    ensures
        final(v)@ == old(v)@ + t@,
{
    let n = t.len();
    let mut i: usize = 0;
    while i < n
        invariant
            n == t@.len(),
            i <= n,
            v@ == old(v)@ + t@.subrange(0, i as int),
        decreases n - i,
    {
        v.push(t[i]);
        i += 1;
        assert(v@ =~= old(v)@ + t@.subrange(0, i as int));
    }
    assert(t@.subrange(0, n as int) =~= t@);
}

/// Whether the characters of `v` equal those of `t`.
pub fn chars_eq_str(v: &Vec<char>, t: &str) -> (b: bool)
    ensures
        b == (v@ == t@),
{
    let n = t.unicode_len();
    if v.len() != n {
        return false;
    }
    let mut i: usize = 0;
    while i < n
        invariant
            n == t@.len(),
            n == v@.len(),
            i <= n,
            forall|k: int| 0 <= k < i ==> v@[k] == t@[k],
        decreases n - i,
    {
        if v[i] != t.get_char(i) {
            return false;
        }
        i += 1;
    }
    assert(v@ =~= t@);
    true
}

/// Whether two character sequences are equal.
pub fn chars_eq(v: &Vec<char>, w: &Vec<char>) -> (b: bool)
    ensures
        b == (v@ == w@),
{
    if v.len() != w.len() {
        return false;
    }
    let n = v.len();
    let mut i: usize = 0;
    while i < n
        invariant
            n == w@.len(),
            n == v@.len(),
            i <= n,
            forall|k: int| 0 <= k < i ==> v@[k] == w@[k],
        decreases n - i,
    {
        if v[i] != w[i] {
            return false;
        }
        i += 1;
    }
    assert(v@ =~= w@);
    true
}

/// ASCII lowercase copy of `v`.
pub fn lower_chars(v: &Vec<char>) -> (r: Vec<char>)
    ensures
        r@ == spec_lower(v@),
{
    let mut r: Vec<char> = Vec::new();
    let mut i: usize = 0;
    while i < v.len()
        invariant
            i <= v@.len(),
            r@ == spec_lower(v@.subrange(0, i as int)),
        decreases v@.len() - i,
    {
        r.push(lower_char(v[i]));
        i += 1;
        assert(r@ =~= spec_lower(v@.subrange(0, i as int)));
    }
    assert(v@.subrange(0, v@.len() as int) =~= v@);
    r
}

/// The trimmed characters of `s`.
pub fn trimmed_chars(s: &str) -> (r: Vec<char>)
    ensures
        r@ == spec_trim(s@),
{
    let v = chars_of(s);
    let (a, b) = trim_bounds(&v);
    let mut r: Vec<char> = Vec::new();
    let mut i = a;
    while i < b
        invariant
            a <= i <= b,
            b <= v@.len(),
            r@ == v@.subrange(a as int, i as int),
        decreases b - i,
    {
        r.push(v[i]);
        i += 1;
        assert(r@ =~= v@.subrange(a as int, i as int));
    }
    r
}

/// The trimmed characters of `v`.
pub fn trim_chars(v: &Vec<char>) -> (r: Vec<char>)
    ensures
        r@ == spec_trim(v@),
{
    let (a, b) = trim_bounds(v);
    let mut r: Vec<char> = Vec::new();
    let mut i = a;
    while i < b
        invariant
            a <= i <= b,
            b <= v@.len(),
            r@ == v@.subrange(a as int, i as int),
        decreases b - i,
    {
        r.push(v[i]);
        i += 1;
        assert(r@ =~= v@.subrange(a as int, i as int));
    }
    r
}

// ------------------------------------------------------------------
// Decimal formatting
// ------------------------------------------------------------------

/// The decimal digits of `n`, most significant first, without leading zeros.
pub open spec fn spec_digits(n: nat) -> Seq<char>
    decreases n,
{
    if n < 10 {
        seq![digit_char(n as int)]
    } else {
        spec_digits(n / 10).push(digit_char((n % 10) as int))
    }
}

/// `s` left-padded with `'0'` to at least `width` characters.
pub open spec fn spec_zero_pad(s: Seq<char>, width: nat) -> Seq<char> {
    if s.len() >= width {
        s
    } else {
        Seq::new((width - s.len()) as nat, |_i: int| '0') + s
    }
}

/// What `format!("{:0width$}", n)` prints for an integer `n`: the sign, if
/// any, then the digits, zero-padded so that sign and digits together take at
/// least `width` characters.
pub open spec fn spec_format_padded(n: int, width: nat) -> Seq<char> {
    if n >= 0 {
        spec_zero_pad(spec_digits(n as nat), width)
    } else {
        seq!['-'] + spec_zero_pad(
            spec_digits((-n) as nat),
            if width >= 1 {
                (width - 1) as nat
            } else {
                0
            },
        )
    }
}

/// What `n.to_string()` prints for an integer `n`.
pub open spec fn spec_format_int(n: int) -> Seq<char> {
    spec_format_padded(n, 0)
}

proof fn lemma_digits_len(n: nat)
    ensures
        spec_digits(n).len() >= 1,
    decreases n,
{
    if n >= 10 {
        lemma_digits_len(n / 10);
    }
}

fn push_digits(out: &mut Vec<char>, n: u64)
    ensures
        final(out)@ == old(out)@ + spec_digits(n as nat),
    decreases n,
{
    if n >= 10 {
        push_digits(out, n / 10);
    }
    out.push(digit_to_char(n % 10));
    proof {
        if n >= 10 {
            assert(final(out)@ =~= old(out)@ + spec_digits(n as nat));
        } else {
            assert(final(out)@ =~= old(out)@ + spec_digits(n as nat));
        }
    }
}

/// Appends `n` in decimal, zero-padded to `width` characters (sign included).
pub fn push_padded(out: &mut Vec<char>, n: i64, width: usize)
    requires
        n > i64::MIN,
    ensures
        final(out)@ == old(out)@ + spec_format_padded(n as int, width as nat),
{
    let mut digits: Vec<char> = Vec::new();
    let neg = n < 0;
    let mag: u64 = if neg { (-n) as u64 } else { n as u64 };
    push_digits(&mut digits, mag);
    assert(digits@ =~= spec_digits(mag as nat));
    let w: usize = if neg {
        if width >= 1 { width - 1 } else { 0 }
    } else {
        width
    };
    if neg {
        out.push('-');
    }
    let ghost before = out@;
    let mut k = digits.len();
    while k < w
        invariant
            digits.len() <= k <= w || (k == digits.len() && k >= w),
            out@ == before + Seq::new((k - digits.len()) as nat, |_i: int| '0'),
        decreases w - k,
    {
        out.push('0');
        k += 1;
        assert(out@ =~= before + Seq::new((k - digits.len()) as nat, |_i: int| '0'));
    }
    let ghost mid = out@;
    extend_with_chars(out, &digits);
    proof {
        let pad = spec_zero_pad(spec_digits(mag as nat), w as nat);
        if digits.len() >= w {
            assert(Seq::new((k - digits.len()) as nat, |_i: int| '0') =~= Seq::<char>::empty());
            assert(pad == digits@);
        } else {
            assert(pad =~= Seq::new((k - digits.len()) as nat, |_i: int| '0') + digits@);
        }
        if neg {
            assert(final(out)@ =~= old(out)@ + spec_format_padded(n as int, width as nat));
        } else {
            assert(final(out)@ =~= old(out)@ + spec_format_padded(n as int, width as nat));
        }
    }
}

// ------------------------------------------------------------------
// Decimal parsing
// ------------------------------------------------------------------

/// Whether every character of `s` is an ASCII digit.
pub open spec fn spec_all_digits(s: Seq<char>) -> bool {
    forall|i: int| 0 <= i < s.len() ==> spec_is_ascii_digit(#[trigger] s[i])
}

/// The value of a string of decimal digits.
pub open spec fn spec_digits_value(s: Seq<char>) -> nat
    decreases s.len(),
{
    if s.len() == 0 {
        0
    } else {
        (spec_digits_value(s.drop_last()) * 10 + digit_value(s.last())) as nat
    }
}

/// What `s.parse::<u32>()` gives, as an optional value: an optional `+`, then
/// one or more ASCII digits whose value fits in a `u32`.
pub open spec fn spec_parse_u32(s: Seq<char>) -> Option<int> {
    let body = if s.len() > 0 && s[0] == '+' {
        s.drop_first()
    } else {
        s
    };
    if body.len() == 0 || !spec_all_digits(body) || spec_digits_value(body) > u32::MAX {
        None
    } else {
        Some(spec_digits_value(body) as int)
    }
}

/// What `s.parse::<i32>()` gives, as an optional value: an optional `+` or
/// `-`, then one or more ASCII digits, the signed value fitting in an `i32`.
pub open spec fn spec_parse_i32(s: Seq<char>) -> Option<int> {
    let neg = s.len() > 0 && s[0] == '-';
    let body = if s.len() > 0 && (s[0] == '+' || s[0] == '-') {
        s.drop_first()
    } else {
        s
    };
    let v: int = if neg {
        -(spec_digits_value(body) as int)
    } else {
        spec_digits_value(body) as int
    };
    if body.len() == 0 || !spec_all_digits(body) || v > i32::MAX || v < i32::MIN {
        None
    } else {
        Some(v)
    }
}

proof fn lemma_digits_value_prefix_le(s: Seq<char>, i: int)
    requires
        0 <= i <= s.len(),
        spec_all_digits(s),
    ensures
        spec_digits_value(s.subrange(0, i)) <= spec_digits_value(s),
    decreases s.len() - i,
{
    if i < s.len() {
        lemma_digits_value_prefix_le(s, i + 1);
        let p = s.subrange(0, i + 1);
        assert(p.drop_last() =~= s.subrange(0, i));
        assert(p.last() == s[i]);
        assert(spec_is_ascii_digit(s[i]));
    } else {
        assert(s.subrange(0, i) =~= s);
    }
}

/// The value of the digit string `s[from..to]`, or `None` when a character is
/// not a digit, the range is empty, or the value exceeds `limit`.
fn parse_digits(s: &Vec<char>, from: usize, to: usize, limit: u64) -> (r: Option<u64>)
    requires
        from <= to <= s@.len(),
        limit <= u32::MAX + 1,
    ensures
        ({
            let body = s@.subrange(from as int, to as int);
            match r {
                Some(v) => body.len() > 0 && spec_all_digits(body) && v == spec_digits_value(body)
                    && v <= limit,
                None => body.len() == 0 || !spec_all_digits(body) || spec_digits_value(body)
                    > limit,
            }
        }),
{
    if from == to {
        return None;
    }
    let ghost body = s@.subrange(from as int, to as int);
    let mut acc: u64 = 0;
    let mut i = from;
    let mut too_big = false;
    while i < to
        invariant
            from <= i <= to,
            to <= s@.len(),
            body == s@.subrange(from as int, to as int),
            limit <= u32::MAX + 1,
            forall|k: int| from <= k < i ==> spec_is_ascii_digit(#[trigger] s@[k]),
            !too_big ==> acc == spec_digits_value(s@.subrange(from as int, i as int)),
            !too_big ==> acc <= limit,
            too_big ==> spec_digits_value(s@.subrange(from as int, i as int)) > limit,
        decreases to - i,
    {
        let c = s[i];
        if !('0' <= c && c <= '9') {
            assert(!spec_is_ascii_digit(body[i - from]));
            return None;
        }
        let ghost pre = s@.subrange(from as int, i as int);
        let ghost nxt = s@.subrange(from as int, i + 1);
        assert(nxt.drop_last() =~= pre);
        assert(nxt.last() == c);
        if !too_big {
            let d = (c as u32 - '0' as u32) as u64;
            acc = acc * 10 + d;
            if acc > limit {
                too_big = true;
            }
        } else {
            assert(spec_digits_value(nxt) >= spec_digits_value(pre));
        }
        i += 1;
    }
    assert(s@.subrange(from as int, i as int) =~= body);
    assert(spec_all_digits(body)) by {
        assert forall|k: int| 0 <= k < body.len() implies spec_is_ascii_digit(#[trigger] body[k]) by {
            assert(body[k] == s@[k + from]);
        }
    }
    if too_big {
        None
    } else {
        Some(acc)
    }
}

/// `s.parse::<u32>().ok()`.
pub fn parse_u32(s: &Vec<char>) -> (r: Option<u32>)
    ensures
        match r {
            Some(v) => spec_parse_u32(s@) == Some(v as int),
            None => spec_parse_u32(s@) is None,
        },
{
    let from: usize = if s.len() > 0 && s[0] == '+' { 1 } else { 0 };
    let ghost body = if s@.len() > 0 && s@[0] == '+' { s@.drop_first() } else { s@ };
    assert(body =~= s@.subrange(from as int, s@.len() as int));
    match parse_digits(s, from, s.len(), 0xFFFF_FFFF) {
        Some(v) => Some(v as u32),
        None => None,
    }
}

/// `s.parse::<i32>().ok()`.
pub fn parse_i32(s: &Vec<char>) -> (r: Option<i32>)
    ensures
        match r {
            Some(v) => spec_parse_i32(s@) == Some(v as int),
            None => spec_parse_i32(s@) is None,
        },
{
    let neg = s.len() > 0 && s[0] == '-';
    let from: usize = if s.len() > 0 && (s[0] == '+' || s[0] == '-') { 1 } else { 0 };
    let ghost body = if s@.len() > 0 && (s@[0] == '+' || s@[0] == '-') {
        s@.drop_first()
    } else {
        s@
    };
    assert(body =~= s@.subrange(from as int, s@.len() as int));
    let limit: u64 = if neg { 0x8000_0000 } else { 0x7FFF_FFFF };
    match parse_digits(s, from, s.len(), limit) {
        Some(v) => {
            if neg {
                Some((-(v as i64)) as i32)
            } else {
                Some(v as i32)
            }
        },
        None => None,
    }
}


// ------------------------------------------------------------------
// Searching
// ------------------------------------------------------------------

/// The first index at or after `from` where `p` occurs in `s`.
pub open spec fn spec_find_from(s: Seq<char>, p: Seq<char>, from: int) -> Option<int>
    decreases s.len() + 1 - from,
{
    if from < 0 || from + p.len() > s.len() {
        None
    } else if s.subrange(from, from + p.len()) == p {
        Some(from)
    } else {
        spec_find_from(s, p, from + 1)
    }
}

/// The search from `from` finds `p` at `to` when `p` starts there and no
/// earlier position from `from` on holds the first character of `p`.
pub proof fn lemma_find_first_at(s: Seq<char>, p: Seq<char>, from: int, to: int)
    requires
        0 <= from <= to,
        p.len() > 0,
        to + p.len() <= s.len(),
        s.subrange(to, to + p.len()) == p,
        forall|k: int| from <= k < to ==> s[k] != p[0],
    ensures
        spec_find_from(s, p, from) == Some(to),
    decreases to - from,
{
    if from < to {
        assert(s.subrange(from, from + p.len())[0] == s[from]);
        lemma_find_first_at(s, p, from + 1, to);
    }
}

/// The search from `from` finds nothing when no position from `from` on
/// holds the first character of `p`.
pub proof fn lemma_find_none(s: Seq<char>, p: Seq<char>, from: int)
    requires
        0 <= from,
        p.len() > 0,
        forall|k: int| from <= k < s.len() ==> s[k] != p[0],
    ensures
        spec_find_from(s, p, from) is None,
    decreases s.len() + 1 - from,
{
    if from + p.len() <= s.len() {
        assert(s.subrange(from, from + p.len())[0] == s[from]);
        lemma_find_none(s, p, from + 1);
    }
}

/// The first index where `p` occurs in `s`.
pub open spec fn spec_find(s: Seq<char>, p: Seq<char>) -> Option<int> {
    spec_find_from(s, p, 0)
}

/// Whether `p` occurs in `s` (`str::contains`).
pub open spec fn spec_contains(s: Seq<char>, p: Seq<char>) -> bool {
    spec_find(s, p) is Some
}

proof fn lemma_find_from_bounds(s: Seq<char>, p: Seq<char>, from: int)
    ensures
        spec_find_from(s, p, from) matches Some(i) ==> from <= i && i + p.len() <= s.len()
            && s.subrange(i, i + p.len()) == p,
    decreases s.len() + 1 - from,
{
    if !(from < 0 || from + p.len() > s.len()) && s.subrange(from, from + p.len()) != p {
        if p.len() == 0 {
            assert(s.subrange(from, from + p.len()) =~= p);
        }
        lemma_find_from_bounds(s, p, from + 1);
    }
}

/// Whether `s[at..at + p.len()] == p`.
fn matches_at(s: &Vec<char>, p: &Vec<char>, at: usize) -> (b: bool)
    requires
        at + p@.len() <= s@.len(),
    ensures
        b == (s@.subrange(at as int, at + p@.len()) == p@),
{
    let n = s.len();
    let mut k: usize = 0;
    while k < p.len()
        invariant
            k <= p@.len(),
            n == s@.len(),
            at + p@.len() <= s@.len(),
            forall|t: int| 0 <= t < k ==> s@[at + t] == p@[t],
        decreases p@.len() - k,
    {
        if s[at + k] != p[k] {
            assert(s@.subrange(at as int, at + p@.len())[k as int] != p@[k as int]);
            return false;
        }
        k += 1;
    }
    assert(s@.subrange(at as int, at + p@.len()) =~= p@);
    true
}

/// The first index where `p` occurs in `s`.
pub fn find(s: &Vec<char>, p: &Vec<char>) -> (r: Option<usize>)
    ensures
        match r {
            Some(i) => spec_find(s@, p@) == Some(i as int),
            None => spec_find(s@, p@) is None,
        },
{
    if p.len() > s.len() {
        return None;
    }
    let last = s.len() - p.len();
    let mut i: usize = 0;
    loop
        invariant
            last + p@.len() == s@.len(),
            i <= last,
            spec_find(s@, p@) == spec_find_from(s@, p@, i as int),
        decreases last - i,
    {
        if matches_at(s, p, i) {
            return Some(i);
        }
        if i == last {
            assert(spec_find_from(s@, p@, i + 1) is None);
            return None;
        }
        i += 1;
    }
}

/// Whether `p` occurs in `s`.
pub fn contains(s: &Vec<char>, p: &Vec<char>) -> (b: bool)
    ensures
        b == spec_contains(s@, p@),
{
    find(s, p).is_some()
}

/// Whether the literal `p` occurs in `s`.
pub fn contains_str(s: &Vec<char>, p: &str) -> (b: bool)
    ensures
        b == spec_contains(s@, p@),
{
    let pv = chars_of(p);
    contains(s, &pv)
}

/// The characters `v[from..to]`.
pub fn slice_chars(v: &Vec<char>, from: usize, to: usize) -> (r: Vec<char>)
    requires
        from <= to <= v@.len(),
    ensures
        r@ == v@.subrange(from as int, to as int),
{
    let mut r: Vec<char> = Vec::new();
    let mut i = from;
    while i < to
        invariant
            from <= i <= to,
            to <= v@.len(),
            r@ == v@.subrange(from as int, i as int),
        decreases to - i,
    {
        r.push(v[i]);
        i += 1;
        assert(r@ =~= v@.subrange(from as int, i as int));
    }
    r
}

/// `str::split_once(p)`: the text before and after the first occurrence of `p`.
pub open spec fn spec_split_once(s: Seq<char>, p: Seq<char>) -> Option<(Seq<char>, Seq<char>)> {
    match spec_find(s, p) {
        Some(i) => Some((s.subrange(0, i), s.subrange(i + p.len(), s.len() as int))),
        None => None,
    }
}

/// The text before and after the first occurrence of `p` in `s`.
pub fn split_once(s: &Vec<char>, p: &Vec<char>) -> (r: Option<(Vec<char>, Vec<char>)>)
    ensures
        match r {
            Some((a, b)) => spec_split_once(s@, p@) == Some((a@, b@)),
            None => spec_split_once(s@, p@) is None,
        },
{
    match find(s, p) {
        Some(i) => {
            proof {
                lemma_find_from_bounds(s@, p@, 0);
            }
            let ls = s.len();
            let lp = p.len();
            assert(i + lp <= ls);
            let a = slice_chars(s, 0, i);
            let b = slice_chars(s, i + lp, ls);
            Some((a, b))
        },
        None => None,
    }
}


// ------------------------------------------------------------------
// Facts about decimal text
// ------------------------------------------------------------------

/// The decimal digits of `n` are digits, and read back as `n`.
pub proof fn lemma_digits_value(n: nat)
    ensures
        spec_all_digits(spec_digits(n)),
        spec_digits_value(spec_digits(n)) == n,
        spec_digits(n).len() >= 1,
    decreases n,
{
    if n >= 10 {
        lemma_digits_value(n / 10);
        let s = spec_digits(n);
        assert(s.drop_last() =~= spec_digits(n / 10));
        assert(s.last() == digit_char((n % 10) as int));
        lemma_digit_char((n % 10) as int);
        vstd::arithmetic::div_mod::lemma_fundamental_div_mod(n as int, 10);
        assert forall|i: int| 0 <= i < s.len() implies spec_is_ascii_digit(#[trigger] s[i]) by {
            if i < s.len() - 1 {
                assert(s[i] == spec_digits(n / 10)[i]);
            }
        }
        assert(spec_digits_value(s) == spec_digits_value(s.drop_last()) * 10 + digit_value(s.last()));
    } else {
        lemma_digit_char(n as int);
        let s = spec_digits(n);
        assert(s.drop_last() =~= Seq::<char>::empty());
        assert(spec_digits_value(s) == spec_digits_value(s.drop_last()) * 10 + digit_value(s.last()));
    }
}

/// A digit value `0..9` is shown as an ASCII digit that reads back as it.
pub proof fn lemma_digit_char(d: int)
    requires
        0 <= d < 10,
    ensures
        spec_is_ascii_digit(digit_char(d)),
        digit_value(digit_char(d)) == d,
{
}

/// Leading zeros neither add non-digits nor change the value.
pub proof fn lemma_zero_pad_value(s: Seq<char>, width: nat)
    requires
        spec_all_digits(s),
    ensures
        spec_all_digits(spec_zero_pad(s, width)),
        spec_digits_value(spec_zero_pad(s, width)) == spec_digits_value(s),
        spec_zero_pad(s, width).len() >= s.len(),
        s.len() >= 1 ==> spec_zero_pad(s, width).len() >= 1,
{
    if s.len() < width {
        let z = Seq::new((width - s.len()) as nat, |_i: int| '0');
        lemma_zeros_then_value(z, s);
    }
}

proof fn lemma_zeros_then_value(z: Seq<char>, s: Seq<char>)
    requires
        forall|i: int| 0 <= i < z.len() ==> z[i] == '0',
        spec_all_digits(s),
    ensures
        spec_all_digits(z + s),
        spec_digits_value(z + s) == spec_digits_value(s),
    decreases s.len(),
{
    assert forall|i: int| 0 <= i < (z + s).len() implies spec_is_ascii_digit(#[trigger] (z + s)[i]) by {
        if i < z.len() {
            assert((z + s)[i] == z[i]);
        } else {
            assert((z + s)[i] == s[i - z.len()]);
        }
    }
    if s.len() == 0 {
        assert(z + s =~= z);
        lemma_zeros_value(z);
    } else {
        assert((z + s).drop_last() =~= z + s.drop_last());
        assert((z + s).last() == s.last());
        lemma_zeros_then_value(z, s.drop_last());
    }
}

proof fn lemma_zeros_value(z: Seq<char>)
    requires
        forall|i: int| 0 <= i < z.len() ==> z[i] == '0',
    ensures
        spec_digits_value(z) == 0,
    decreases z.len(),
{
    if z.len() > 0 {
        lemma_zeros_value(z.drop_last());
    }
}

/// Text without whitespace is its own trim.
pub proof fn lemma_trim_no_whitespace(s: Seq<char>)
    requires
        forall|i: int| 0 <= i < s.len() ==> !spec_is_whitespace(#[trigger] s[i]),
    ensures
        spec_trim(s) == s,
{
    if s.len() > 0 {
        assert(!spec_is_whitespace(s[0]));
        assert(!spec_is_whitespace(s[s.len() - 1]));
    }
}

/// A zero-padded number that fits reads back as itself with `parse::<u32>`.
pub proof fn lemma_parse_padded_u32(n: nat, width: nat)
    requires
        n <= u32::MAX,
    ensures
        spec_parse_u32(spec_format_padded(n as int, width)) == Some(n as int),
{
    lemma_digits_value(n);
    lemma_zero_pad_value(spec_digits(n), width);
    let s = spec_format_padded(n as int, width);
    assert(spec_is_ascii_digit(s[0]));
}

/// A zero-padded non-negative number that fits reads back as itself with
/// `parse::<i32>`.
pub proof fn lemma_parse_padded_i32(n: nat, width: nat)
    requires
        n <= i32::MAX,
    ensures
        spec_parse_i32(spec_format_padded(n as int, width)) == Some(n as int),
{
    lemma_digits_value(n);
    lemma_zero_pad_value(spec_digits(n), width);
    let s = spec_format_padded(n as int, width);
    assert(spec_is_ascii_digit(s[0]));
}

} // verus!
