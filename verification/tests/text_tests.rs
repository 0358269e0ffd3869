use extended_ui::text::{
    chars_eq, chars_eq_str, chars_of, contains_str, find, is_whitespace, lower_char, lower_chars, parse_i32,
    parse_u32, push_padded, slice_chars, split_once, string_from_chars, trim_bounds, trim_chars, trimmed_chars,
};

fn cs(s: &str) -> Vec<char> {
    s.chars().collect()
}

#[test]
fn whitespace_and_lowering() {
    assert!(is_whitespace(' '));
    assert!(is_whitespace('\t'));
    assert!(is_whitespace('\n'));
    assert!(!is_whitespace('a'));
    assert_eq!(lower_char('A'), 'a');
    assert_eq!(lower_char('z'), 'z');
    assert_eq!(lower_char('1'), '1');
    assert_eq!(lower_chars(&cs("DiV-Ok")), cs("div-ok"));
}

#[test]
fn trimming() {
    assert_eq!(trim_bounds(&cs("  ab c ")), (2, 6));
    assert_eq!(trim_chars(&cs("  ab c ")), cs("ab c"));
    assert_eq!(trimmed_chars("\t x \n"), cs("x"));
    assert_eq!(trim_chars(&cs("   ")), Vec::<char>::new());
}

#[test]
fn conversions_and_comparisons() {
    assert_eq!(chars_of("héllo"), cs("héllo"));
    assert_eq!(string_from_chars(&cs("abc")), "abc");
    assert!(chars_eq_str(&cs("abc"), "abc"));
    assert!(!chars_eq_str(&cs("abc"), "abd"));
    assert!(chars_eq(&cs(""), &cs("")));
    assert_eq!(slice_chars(&cs("abcdef"), 1, 4), cs("bcd"));
}

#[test]
fn padded_numbers() {
    let mut out = cs("x");
    push_padded(&mut out, 7, 3);
    assert_eq!(out, cs("x007"));
    let mut out = Vec::new();
    push_padded(&mut out, -5, 3);
    assert_eq!(out, cs("-05"));
    let mut out = Vec::new();
    push_padded(&mut out, 12345, 2);
    assert_eq!(out, cs("12345"));
}

#[test]
fn parsing_numbers_like_std() {
    assert_eq!(parse_u32(&cs("42")), Some(42));
    assert_eq!(parse_u32(&cs("+42")), Some(42));
    assert_eq!(parse_u32(&cs("4294967295")), Some(u32::MAX));
    assert_eq!(parse_u32(&cs("4294967296")), None);
    assert_eq!(parse_u32(&cs("")), None);
    assert_eq!(parse_u32(&cs("-1")), None);
    assert_eq!(parse_u32(&cs("1a")), None);
    assert_eq!(parse_i32(&cs("-2147483648")), Some(i32::MIN));
    assert_eq!(parse_i32(&cs("2147483648")), None);
    assert_eq!(parse_i32(&cs("-")), None);
    assert_eq!(parse_i32(&cs("+7")), Some(7));
}

#[test]
fn searching_and_splitting() {
    assert_eq!(find(&cs("a::b"), &cs("::")), Some(1));
    assert_eq!(find(&cs("abc"), &cs("x")), None);
    assert_eq!(find(&cs("abc"), &cs("")), Some(0));
    assert!(contains_str(&cs("dialog-widget"), "widget"));
    assert_eq!(split_once(&cs("k: v: w"), &cs(":")), Some((cs("k"), cs(" v: w"))));
    assert_eq!(split_once(&cs("kv"), &cs(":")), None);
}
