//! Editing the text of an input field: the cursor, the selection, typing,
//! deleting, cutting and pasting, and what the field shows.  The text is
//! held as UTF-8 bytes and positions count bytes, as `String` indices do.

use vstd::prelude::*;

use crate::text::{
    string_from_utf8, chars_of, lower_chars, slice_chars, spec_lower, spec_trim, string_from_chars,
    trimmed_chars,
};
use crate::widget_state::UIWidgetState;
use vstd::utf8::{encode_scalar, encode_utf8, is_continuation_byte, valid_utf8};

verus! {

/// The text of an input field, as the UTF-8 bytes of its `String`, and the
/// cursor in it.  Positions count bytes, as `String` indices do: the
/// cursor moves by one per key, so it stays on character boundaries in
/// ASCII text.
#[derive(Clone, Debug)]
pub struct EditBuffer {
    pub text: Vec<u8>,
    pub cursor_position: usize,
}

/// The selection of an input field: from `anchor` to `focus`, either way.
#[derive(Clone, Copy, Debug, PartialEq, Eq, Structural)]
pub struct InputSelection {
    pub anchor: usize,
    pub focus: usize,
    pub dragging: bool,
}

/// `str::is_char_boundary`: byte position `i` of `t` starts a character or
/// ends the text.
pub open spec fn spec_is_boundary(t: Seq<u8>, i: int) -> bool {
    i == 0 || i == t.len() || (0 < i < t.len() && !is_continuation_byte(t[i]))
}

/// The UTF-8 bytes of one character.
pub open spec fn spec_utf8(c: char) -> Seq<u8> {
    encode_scalar(c as u32)
}

/// The length of the character whose UTF-8 encoding starts with byte `b`.
pub open spec fn spec_char_width(b: u8) -> int {
    if b < 0x80 {
        1
    } else if b < 0xE0 {
        2
    } else if b < 0xF0 {
        3
    } else {
        4
    }
}

/// `t` with the bytes `b` inserted at position `i`.
pub open spec fn spec_insert_bytes(t: Seq<u8>, i: int, b: Seq<u8>) -> Seq<u8> {
    t.subrange(0, i) + b + t.subrange(i, t.len() as int)
}

/// `String::remove`: `t` without the character starting at byte `i`.
pub open spec fn spec_remove_char(t: Seq<u8>, i: int) -> Seq<u8> {
    let end = if i + spec_char_width(t[i]) <= t.len() {
        i + spec_char_width(t[i])
    } else {
        t.len() as int
    };
    t.subrange(0, i) + t.subrange(end, t.len() as int)
}

/// The UTF-8 bytes of `c`.
fn utf8_of(c: char) -> (r: Vec<u8>)
    ensures
        r@ == spec_utf8(c),
        1 <= r@.len() <= 4,
{
    let x: u32 = c as u32;
    let mut r: Vec<u8> = Vec::new();
    if x <= 0x7F {
        r.push((x & 0x7F) as u8);
    } else if x <= 0x7FF {
        r.push(0xC0 | ((x >> 6) & 0x1F) as u8);
        r.push(0x80 | (x & 0x3F) as u8);
    } else if x <= 0xFFFF && !(0xD800 <= x && x <= 0xDFFF) {
        r.push(0xE0 | ((x >> 12) & 0x0F) as u8);
        r.push(0x80 | ((x >> 6) & 0x3F) as u8);
        r.push(0x80 | (x & 0x3F) as u8);
    } else {
        r.push(0xF0 | ((x >> 18) & 0x7) as u8);
        r.push(0x80 | ((x >> 12) & 0x3F) as u8);
        r.push(0x80 | ((x >> 6) & 0x3F) as u8);
        r.push(0x80 | (x & 0x3F) as u8);
    }
    assert(r@ =~= spec_utf8(c));
    r
}

/// The bytes `v[from..to]`.
fn slice_bytes(v: &Vec<u8>, from: usize, to: usize) -> (r: Vec<u8>)
    requires
        from <= to <= v@.len(),
    ensures
        r@ == v@.subrange(from as int, to as int),
{
    let mut r: Vec<u8> = Vec::new();
    let mut i: usize = from;
    while i < to
        invariant
            from <= i <= to <= v@.len(),
            r@ == v@.subrange(from as int, i as int),
        decreases to - i,
    {
        r.push(v[i]);
        i += 1;
        assert(r@ =~= v@.subrange(from as int, i as int));
    }
    r
}

/// Appends the bytes `w` to `v`.
fn extend_bytes(v: &mut Vec<u8>, w: &Vec<u8>)
    ensures
        final(v)@ == old(v)@ + w@,
{
    let mut i: usize = 0;
    while i < w.len()
        invariant
            i <= w@.len(),
            v@ == old(v)@ + w@.subrange(0, i as int),
        decreases w@.len() - i,
    {
        v.push(w[i]);
        i += 1;
        assert(v@ =~= old(v)@ + w@.subrange(0, i as int));
    }
    assert(w@.subrange(0, w@.len() as int) =~= w@);
}

/// Inserts the bytes `b` at position `i` of `v`.
fn insert_bytes(v: &mut Vec<u8>, i: usize, b: &Vec<u8>)
    requires
        i <= old(v)@.len(),
    ensures
        final(v)@ == spec_insert_bytes(old(v)@, i as int, b@),
{
    let mut r = slice_bytes(v, 0, i);
    extend_bytes(&mut r, b);
    let rest = slice_bytes(v, i, v.len());
    extend_bytes(&mut r, &rest);
    *v = r;
}

/// The selected span `(start, end)`, when anchor and focus differ.
pub open spec fn spec_selection_range(sel: InputSelection) -> Option<(int, int)> {
    if sel.anchor == sel.focus {
        None
    } else if sel.anchor < sel.focus {
        Some((sel.anchor as int, sel.focus as int))
    } else {
        Some((sel.focus as int, sel.anchor as int))
    }
}

/// The selected span, if any.
pub fn selection_range(selection: &InputSelection) -> (r: Option<(usize, usize)>)
    ensures
        match r {
            Some((a, b)) => spec_selection_range(*selection) == Some((a as int, b as int)),
            None => spec_selection_range(*selection) is None,
        },
{
    if selection.anchor == selection.focus {
        return None;
    }
    if selection.anchor < selection.focus {
        Some((selection.anchor, selection.focus))
    } else {
        Some((selection.focus, selection.anchor))
    }
}

/// The collapsed selection at `cursor`, not dragging.
pub open spec fn spec_cleared(cursor: int) -> InputSelection {
    InputSelection { anchor: cursor as usize, focus: cursor as usize, dragging: false }
}

/// Collapses the selection at `cursor`.
pub fn clear_selection(selection: &mut InputSelection, cursor: usize)
    ensures
        *final(selection) == spec_cleared(cursor as int),
{
    selection.anchor = cursor;
    selection.focus = cursor;
    selection.dragging = false;
}

/// `text` without the bytes `start..end`.
pub open spec fn spec_cut_out(text: Seq<u8>, start: int, end: int) -> Seq<u8> {
    text.subrange(0, start) + text.subrange(end, text.len() as int)
}

/// Deleting the selection from the text `t` with the cursor at `cur`: the
/// new `(text, cursor, selection, deleted)`.  Without a selection nothing
/// changes; a selection reaching past the text is collapsed at the cursor and
/// nothing is deleted; otherwise the selected bytes go, and the cursor and
/// the collapsed selection sit where they began.
pub open spec fn spec_delete_selection(t: Seq<u8>, cur: int, sel: InputSelection) -> (
    Seq<u8>,
    int,
    InputSelection,
    bool,
) {
    match spec_selection_range(sel) {
        None => (t, cur, sel, false),
        Some((a, b)) => if b > t.len() {
            (t, cur, spec_cleared(cur), false)
        } else {
            (spec_cut_out(t, a, b), a, spec_cleared(a), true)
        },
    }
}

/// Deleting the selection does not panic: a selection within the text
/// starts and ends on character boundaries (`String::replace_range`).
pub open spec fn spec_delete_ok(t: Seq<u8>, sel: InputSelection) -> bool {
    match spec_selection_range(sel) {
        None => true,
        Some((a, b)) => b > t.len() || (spec_is_boundary(t, a) && spec_is_boundary(t, b)),
    }
}

/// Deletes the selected text, if any, as `spec_delete_selection` says.
pub fn delete_selection(buf: &mut EditBuffer, selection: &mut InputSelection) -> (deleted: bool)
    requires
        spec_delete_ok(old(buf).text@, *old(selection)),
    ensures
        (final(buf).text@, final(buf).cursor_position as int, *final(selection), deleted)
            == spec_delete_selection(old(buf).text@, old(buf).cursor_position as int, *old(selection)),
        old(buf).cursor_position <= old(buf).text@.len() ==> final(buf).cursor_position
            <= final(buf).text@.len(),
{
    let (start, end) = match selection_range(selection) {
        Some(r) => r,
        None => return false,
    };
    if start >= end || end > buf.text.len() {
        clear_selection(selection, buf.cursor_position);
        return false;
    }
    let mut t = slice_bytes(&buf.text, 0, start);
    let rest = slice_bytes(&buf.text, end, buf.text.len());
    extend_bytes(&mut t, &rest);
    buf.text = t;
    buf.cursor_position = start;
    clear_selection(selection, start);
    true
}

/// Whether the cursor may not advance past `pos`: a cap in bytes (when
/// `cap > 0`) or the number of characters that fit the field (when known).
pub open spec fn spec_at_limit(pos: int, cap: usize, node_limit: Option<usize>) -> bool {
    (cap > 0 && pos >= cap) || (node_limit matches Some(l) && pos >= l)
}

/// One step of pasting: the state `(text, cursor, inserted, stopped)` after
/// offering character `c`, which `valid` says the input type accepts.
/// Line breaks and refused characters are skipped; at the limit the paste
/// stops; otherwise `c` is inserted at the cursor, which moves on by one.
pub open spec fn spec_paste_step(
    st: (Seq<u8>, int, bool, bool),
    c: char,
    valid: bool,
    cap: usize,
    node_limit: Option<usize>,
) -> (Seq<u8>, int, bool, bool) {
    let (t, cur, ins, stopped) = st;
    if stopped || c == '\n' || c == '\r' || !valid {
        st
    } else if spec_at_limit(cur, cap, node_limit) {
        (t, cur, ins, true)
    } else {
        (spec_insert_bytes(t, cur, spec_utf8(c)), cur + 1, true, false)
    }
}

/// The state after offering the characters of `s` in turn.
pub open spec fn spec_paste(
    t: Seq<u8>,
    cur: int,
    s: Seq<char>,
    valid: Seq<bool>,
    cap: usize,
    node_limit: Option<usize>,
) -> (Seq<u8>, int, bool, bool)
    decreases s.len(),
{
    if s.len() == 0 {
        (t, cur, false, false)
    } else {
        spec_paste_step(
            spec_paste(t, cur, s.drop_last(), valid, cap, node_limit),
            s.last(),
            valid[s.len() - 1],
            cap,
            node_limit,
        )
    }
}

/// Whether offering `c` in state `st` does not panic: an insertion happens
/// on a character boundary (`String::insert`).
pub open spec fn spec_paste_step_ok(
    st: (Seq<u8>, int, bool, bool),
    c: char,
    valid: bool,
    cap: usize,
    node_limit: Option<usize>,
) -> bool {
    let (t, cur, ins, stopped) = st;
    stopped || c == '\n' || c == '\r' || !valid || spec_at_limit(cur, cap, node_limit)
        || spec_is_boundary(t, cur)
}

/// Whether pasting `s` does not panic: no insertion falls inside a
/// character.
pub open spec fn spec_paste_ok(
    t: Seq<u8>,
    cur: int,
    s: Seq<char>,
    valid: Seq<bool>,
    cap: usize,
    node_limit: Option<usize>,
) -> bool
    decreases s.len(),
{
    if s.len() == 0 {
        true
    } else {
        spec_paste_ok(t, cur, s.drop_last(), valid, cap, node_limit) && spec_paste_step_ok(
            spec_paste(t, cur, s.drop_last(), valid, cap, node_limit),
            s.last(),
            valid[s.len() - 1],
            cap,
            node_limit,
        )
    }
}

/// Inserts the characters of `s` at the cursor as `spec_paste` says, `valid`
/// telling for each character whether the input type accepts it.  Returns
/// whether any character was inserted.
pub fn insert_text_filtered(
    buf: &mut EditBuffer,
    s: &Vec<char>,
    valid: &Vec<bool>,
    cap: usize,
    node_limit: Option<usize>,
) -> (inserted: bool)
    requires
        old(buf).cursor_position <= old(buf).text@.len(),
        valid@.len() == s@.len(),
        old(buf).text@.len() + 4 * s@.len() <= usize::MAX,
        spec_paste_ok(old(buf).text@, old(buf).cursor_position as int, s@, valid@, cap, node_limit),
    ensures
        ({
            let (t, c, ins, _) = spec_paste(
                old(buf).text@,
                old(buf).cursor_position as int,
                s@,
                valid@,
                cap,
                node_limit,
            );
            final(buf).text@ == t && final(buf).cursor_position == c && inserted == ins
        }),
        final(buf).cursor_position <= final(buf).text@.len(),
{
    let ghost t0 = buf.text@;
    let ghost c0 = buf.cursor_position as int;
    let mut inserted = false;
    let mut stopped = false;
    let mut i: usize = 0;
    while i < s.len()
        invariant
            i <= s@.len(),
            valid@.len() == s@.len(),
            t0.len() + 4 * s@.len() <= usize::MAX,
            buf.text@.len() <= t0.len() + 4 * i,
            buf.cursor_position <= buf.text@.len(),
            (buf.text@, buf.cursor_position as int, inserted, stopped) == spec_paste(
                t0,
                c0,
                s@.subrange(0, i as int),
                valid@,
                cap,
                node_limit,
            ),
        decreases s@.len() - i,
    {
        let c = s[i];
        proof {
            let nxt = s@.subrange(0, i + 1);
            assert(nxt.drop_last() =~= s@.subrange(0, i as int));
            assert(nxt.last() == c);
        }
        if !stopped && c != '\n' && c != '\r' && valid[i] {
            let pos = buf.cursor_position;
            let over_cap = cap > 0 && pos >= cap;
            let over_node = match node_limit {
                Some(l) => pos >= l,
                None => false,
            };
            if over_cap || over_node {
                stopped = true;
            } else {
                let enc = utf8_of(c);
                insert_bytes(&mut buf.text, pos, &enc);
                buf.cursor_position = pos + 1;
                inserted = true;
            }
        }
        i += 1;
    }
    assert(s@.subrange(0, s@.len() as int) =~= s@);
    inserted
}

/// The text between `start` and `end` (`str::get`): nothing unless the span
/// starts and ends on character boundaries within the text.
pub open spec fn spec_selected_text(text: Seq<u8>, sel: InputSelection) -> Option<Seq<u8>> {
    match spec_selection_range(sel) {
        Some((a, b)) => if spec_is_boundary(text, a) && spec_is_boundary(text, b) {
            Some(text.subrange(a, b))
        } else {
            None
        },
        None => None,
    }
}

/// Whether byte position `i` of `t` is a character boundary.
fn is_boundary(t: &Vec<u8>, i: usize) -> (b: bool)
    ensures
        b == spec_is_boundary(t@, i as int),
{
    i == 0 || i == t.len() || (i < t.len() && !(0x80 <= t[i] && t[i] <= 0xBF))
}

/// The selected text, for copying to the clipboard.
pub fn selected_text(buf: &EditBuffer, selection: &InputSelection) -> (r: Option<Vec<u8>>)
    ensures
        match r {
            Some(v) => spec_selected_text(buf.text@, *selection) == Some(v@),
            None => spec_selected_text(buf.text@, *selection) is None,
        },
{
    match selection_range(selection) {
        Some((a, b)) => if is_boundary(&buf.text, a) && is_boundary(&buf.text, b) {
            Some(slice_bytes(&buf.text, a, b))
        } else {
            None
        },
        None => None,
    }
}

/// Selects the whole text (Ctrl+A), the cursor at its end.
pub fn select_all(buf: &mut EditBuffer, selection: &mut InputSelection)
    ensures
        final(buf).text@ == old(buf).text@,
        final(buf).cursor_position == old(buf).text@.len(),
        final(selection).anchor == 0,
        final(selection).focus == old(buf).text@.len(),
        final(selection).dragging == old(selection).dragging,
{
    selection.anchor = 0;
    selection.focus = buf.text.len();
    buf.cursor_position = buf.text.len();
}

/// Backspace on `(t, cur, sel)`: the new `(text, cursor, selection,
/// changed)`.  The selection is deleted if there is one to delete;
/// otherwise the character starting one byte before the cursor goes, if
/// any, and the cursor moves back one byte.
pub open spec fn spec_backspace(t: Seq<u8>, cur: int, sel: InputSelection) -> (
    Seq<u8>,
    int,
    InputSelection,
    bool,
) {
    let (t1, c1, s1, deleted) = spec_delete_selection(t, cur, sel);
    if deleted {
        (t1, c1, s1, true)
    } else if c1 > 0 && t1.len() > 0 {
        (spec_remove_char(t1, c1 - 1), c1 - 1, s1, true)
    } else {
        (t1, c1, s1, false)
    }
}

/// Whether Backspace does not panic: the selection deletes cleanly, and a
/// removed character starts one byte before the cursor, within the text.
pub open spec fn spec_backspace_ok(t: Seq<u8>, cur: int, sel: InputSelection) -> bool {
    let (t1, c1, s1, deleted) = spec_delete_selection(t, cur, sel);
    &&& spec_delete_ok(t, sel)
    &&& (!deleted && c1 > 0 && t1.len() > 0) ==> (c1 - 1 < t1.len() && spec_is_boundary(t1, c1 - 1))
}

/// Removes the character starting at byte `i`, as `spec_remove_char` says.
fn remove_char(v: &mut Vec<u8>, i: usize)
    requires
        i < old(v)@.len(),
    ensures
        final(v)@ == spec_remove_char(old(v)@, i as int),
{
    let b = v[i];
    let w: usize = if b < 0x80 {
        1
    } else if b < 0xE0 {
        2
    } else if b < 0xF0 {
        3
    } else {
        4
    };
    let end = if w <= v.len() - i {
        i + w
    } else {
        v.len()
    };
    let mut r = slice_bytes(v, 0, i);
    let rest = slice_bytes(v, end, v.len());
    extend_bytes(&mut r, &rest);
    *v = r;
}

/// Backspace, as `spec_backspace` says.  Returns whether the text changed.
pub fn backspace(buf: &mut EditBuffer, selection: &mut InputSelection) -> (changed: bool)
    requires
        old(buf).cursor_position <= old(buf).text@.len(),
        spec_backspace_ok(old(buf).text@, old(buf).cursor_position as int, *old(selection)),
    ensures
        (final(buf).text@, final(buf).cursor_position as int, *final(selection), changed)
            == spec_backspace(old(buf).text@, old(buf).cursor_position as int, *old(selection)),
        final(buf).cursor_position <= final(buf).text@.len(),
{
    if delete_selection(buf, selection) {
        return true;
    }
    if buf.cursor_position > 0 && buf.text.len() > 0 {
        let remove_at = buf.cursor_position - 1;
        buf.cursor_position = remove_at;
        remove_char(&mut buf.text, remove_at);
        return true;
    }
    false
}

/// A newly pressed character key on `(t, cur, sel)`: the new `(text,
/// cursor, selection, inserted)`.  The selection is deleted, then `ch` is
/// inserted at the cursor, which moves on by one, unless the cursor is at
/// the limit.
pub open spec fn spec_type_char(
    t: Seq<u8>,
    cur: int,
    sel: InputSelection,
    ch: char,
    cap: usize,
    node_limit: Option<usize>,
) -> (Seq<u8>, int, InputSelection, bool) {
    let (t1, c1, s1, _) = spec_delete_selection(t, cur, sel);
    if spec_at_limit(c1, cap, node_limit) {
        (t1, c1, s1, false)
    } else {
        (spec_insert_bytes(t1, c1, spec_utf8(ch)), c1 + 1, s1, true)
    }
}

/// Whether a character key does not panic: the selection deletes cleanly
/// and an insertion falls on a character boundary.
pub open spec fn spec_type_char_ok(
    t: Seq<u8>,
    cur: int,
    sel: InputSelection,
    cap: usize,
    node_limit: Option<usize>,
) -> bool {
    let (t1, c1, s1, _) = spec_delete_selection(t, cur, sel);
    spec_delete_ok(t, sel) && (spec_at_limit(c1, cap, node_limit) || spec_is_boundary(t1, c1))
}

/// A newly pressed character key, as `spec_type_char` says.  Returns
/// whether the character was inserted.
pub fn type_char(
    buf: &mut EditBuffer,
    selection: &mut InputSelection,
    ch: char,
    cap: usize,
    node_limit: Option<usize>,
) -> (inserted: bool)
    requires
        old(buf).cursor_position <= old(buf).text@.len(),
        old(buf).text@.len() + 4 <= usize::MAX,
        spec_type_char_ok(old(buf).text@, old(buf).cursor_position as int, *old(selection), cap, node_limit),
    ensures
        (final(buf).text@, final(buf).cursor_position as int, *final(selection), inserted)
            == spec_type_char(
            old(buf).text@,
            old(buf).cursor_position as int,
            *old(selection),
            ch,
            cap,
            node_limit,
        ),
        final(buf).cursor_position <= final(buf).text@.len(),
{
    delete_selection(buf, selection);
    let pos = buf.cursor_position;
    if cap > 0 && pos >= cap {
        return false;
    }
    if let Some(l) = node_limit {
        if pos >= l {
            return false;
        }
    }
    let enc = utf8_of(ch);
    insert_bytes(&mut buf.text, pos, &enc);
    buf.cursor_position = pos + 1;
    true
}

/// A held character key repeating: the character is inserted at the cursor
/// (no selection is deleted and no limit applies on repeat).
pub fn repeat_char(buf: &mut EditBuffer, ch: char)
    requires
        old(buf).cursor_position <= old(buf).text@.len(),
        old(buf).text@.len() + 4 <= usize::MAX,
        spec_is_boundary(old(buf).text@, old(buf).cursor_position as int),
    ensures
        final(buf).text@ == spec_insert_bytes(old(buf).text@, old(buf).cursor_position as int, spec_utf8(ch)),
        final(buf).cursor_position == old(buf).cursor_position + 1,
{
    let pos = buf.cursor_position;
    let enc = utf8_of(ch);
    insert_bytes(&mut buf.text, pos, &enc);
    buf.cursor_position = pos + 1;
}

/// Enter: the field loses focus (the caller clears its `focused` flag); the
/// text is cleared when the field clears after losing focus; the selection
/// collapses at the cursor.
pub fn press_enter(buf: &mut EditBuffer, selection: &mut InputSelection, clear_after_focus_lost: bool)
    ensures
        final(buf).text@ == (if clear_after_focus_lost {
            Seq::<u8>::empty()
        } else {
            old(buf).text@
        }),
        final(buf).cursor_position == old(buf).cursor_position,
        *final(selection) == spec_cleared(old(buf).cursor_position as int),
{
    if clear_after_focus_lost {
        buf.text.clear();
    }
    clear_selection(selection, buf.cursor_position);
}

/// The end of a frame of typing: a collapsed selection follows the cursor,
/// and the cursor is kept within the text.
pub fn settle_after_typing(buf: &mut EditBuffer, selection: &mut InputSelection)
    ensures
        final(buf).text@ == old(buf).text@,
        final(buf).cursor_position == (if old(buf).cursor_position <= old(buf).text@.len() {
            old(buf).cursor_position as int
        } else {
            old(buf).text@.len() as int
        }),
        *final(selection) == (if old(selection).anchor == old(selection).focus {
            InputSelection {
                anchor: old(buf).cursor_position,
                focus: old(buf).cursor_position,
                ..*old(selection)
            }
        } else {
            *old(selection)
        }),
{
    if selection.anchor == selection.focus {
        selection.anchor = buf.cursor_position;
        selection.focus = buf.cursor_position;
    }
    if buf.cursor_position > buf.text.len() {
        buf.cursor_position = buf.text.len();
    }
}

/// Keeps the cursor and the selection within the text (after the text was
/// changed from outside).
pub fn clamp_to_text(buf: &mut EditBuffer, selection: &mut InputSelection)
    ensures
        final(buf).text@ == old(buf).text@,
        final(buf).cursor_position as int == crate::date_picker::spec_min(
            old(buf).cursor_position as int,
            old(buf).text@.len() as int,
        ),
        final(selection).anchor as int == crate::date_picker::spec_min(
            old(selection).anchor as int,
            old(buf).text@.len() as int,
        ),
        final(selection).focus as int == crate::date_picker::spec_min(
            old(selection).focus as int,
            old(buf).text@.len() as int,
        ),
        final(selection).dragging == old(selection).dragging,
{
    let n = buf.text.len();
    if buf.cursor_position > n {
        buf.cursor_position = n;
    }
    if selection.anchor > n {
        selection.anchor = n;
    }
    if selection.focus > n {
        selection.focus = n;
    }
}

/// Left arrow: the cursor moves one byte left (not past the start) and
/// the selection collapses there.
pub fn move_left(buf: &mut EditBuffer, selection: &mut InputSelection)
    ensures
        final(buf).text@ == old(buf).text@,
        final(buf).cursor_position == (if old(buf).cursor_position > 0 {
            old(buf).cursor_position - 1
        } else {
            0
        }),
        final(selection).anchor == final(buf).cursor_position,
        final(selection).focus == final(buf).cursor_position,
        final(selection).dragging == old(selection).dragging,
{
    buf.cursor_position = if buf.cursor_position > 0 {
        buf.cursor_position - 1
    } else {
        0
    };
    selection.anchor = buf.cursor_position;
    selection.focus = buf.cursor_position;
}

/// Right arrow: the cursor moves one byte right (not past the end) and
/// the selection collapses there.
pub fn move_right(buf: &mut EditBuffer, selection: &mut InputSelection)
    requires
        old(buf).cursor_position < usize::MAX,
    ensures
        final(buf).text@ == old(buf).text@,
        final(buf).cursor_position as int == crate::date_picker::spec_min(
            old(buf).cursor_position + 1,
            old(buf).text@.len() as int,
        ),
        final(selection).anchor == final(buf).cursor_position,
        final(selection).focus == final(buf).cursor_position,
        final(selection).dragging == old(selection).dragging,
{
    let next = buf.cursor_position + 1;
    buf.cursor_position = if next < buf.text.len() {
        next
    } else {
        buf.text.len()
    };
    selection.anchor = buf.cursor_position;
    selection.focus = buf.cursor_position;
}

/// A primary press at text position `pos`: the cursor goes there and a
/// collapsed selection starts dragging from it.
pub fn press_at(buf: &mut EditBuffer, selection: &mut InputSelection, pos: usize)
    ensures
        final(buf).text@ == old(buf).text@,
        final(buf).cursor_position == pos,
        *final(selection) == (InputSelection { anchor: pos, focus: pos, dragging: true }),
{
    buf.cursor_position = pos;
    selection.anchor = pos;
    selection.focus = pos;
    selection.dragging = true;
}

/// Dragging to text position `pos`: the cursor and the selection's focus
/// follow, the anchor stays.
pub fn drag_to(buf: &mut EditBuffer, selection: &mut InputSelection, pos: usize)
    ensures
        final(buf).text@ == old(buf).text@,
        final(buf).cursor_position == pos,
        *final(selection) == (InputSelection { focus: pos, dragging: true, ..*old(selection) }),
{
    buf.cursor_position = pos;
    selection.focus = pos;
    selection.dragging = true;
}

// ------------------------------------------------------------------
// One key of a frame of typing
// ------------------------------------------------------------------

/// What a key press asks of a focused, editable input field.
#[derive(Clone, Debug)]
pub enum TypingAction {
    /// Ctrl+A.
    SelectAll,
    /// Ctrl+C.
    Copy,
    /// Ctrl+X.
    Cut,
    /// Ctrl+V with the clipboard's text, each character with whether the
    /// input type accepts it.
    Paste(Vec<char>, Vec<bool>),
    /// Enter.
    Enter,
    /// Backspace newly pressed.
    Backspace,
    /// Backspace held long enough to repeat.
    BackspaceRepeat,
    /// A character key newly pressed, with whether the input type accepts it.
    TypeChar(char, bool),
    /// A character key held long enough to repeat, with whether the input
    /// type accepts it.
    RepeatChar(char, bool),
}

/// What the caller does after a key: set the field's value to its text,
/// put text on the clipboard, take focus away, and whether no further key of
/// this frame is handled for the field.
#[derive(Clone, Debug)]
pub struct TypingEffect {
    pub sync_value: bool,
    pub copied: Option<Vec<u8>>,
    pub lose_focus: bool,
    pub ends_frame: bool,
}

/// The limits of a field: a cap on the cursor position in bytes (none when 0), the number of
/// characters its box holds when it caps at its size, and whether it clears
/// when it loses focus.
#[derive(Clone, Copy, Debug, PartialEq, Eq, Structural)]
pub struct InputLimits {
    pub cap: usize,
    pub node_limit: Option<usize>,
    pub clear_after_focus_lost: bool,
}

/// The view of an optional character vector.
pub open spec fn spec_opt_chars(o: Option<Vec<char>>) -> Option<Seq<char>> {
    match o {
        Some(v) => Some(v@),
        None => None,
    }
}

/// The view of an optional byte vector.
pub open spec fn spec_opt_bytes(o: Option<Vec<u8>>) -> Option<Seq<u8>> {
    match o {
        Some(v) => Some(v@),
        None => None,
    }
}

/// The outcome of one key on `(t, cur, sel)`: the new `(text, cursor,
/// selection)` and `(sync_value, copied, lose_focus, ends_frame)`.
pub open spec fn spec_typing(
    t: Seq<u8>,
    cur: int,
    sel: InputSelection,
    action: TypingAction,
    limits: InputLimits,
) -> ((Seq<u8>, int, InputSelection), (bool, Option<Seq<u8>>, bool, bool)) {
    match action {
        TypingAction::SelectAll => (
            (t, t.len() as int, InputSelection { anchor: 0, focus: t.len() as usize, ..sel }),
            (false, None, false, true),
        ),
        TypingAction::Copy => ((t, cur, sel), (false, spec_selected_text(t, sel), false, true)),
        TypingAction::Cut => if spec_selection_range(sel) is Some {
            let (t1, c1, s1, deleted) = spec_delete_selection(t, cur, sel);
            ((t1, c1, s1), (deleted, spec_selected_text(t, sel), false, true))
        } else {
            ((t, cur, sel), (false, None, false, true))
        },
        TypingAction::Paste(text, valid) => {
            let (t1, c1, s1, deleted) = spec_delete_selection(t, cur, sel);
            let (t2, c2, inserted, _) = spec_paste(
                t1,
                c1,
                text@,
                valid@,
                limits.cap,
                limits.node_limit,
            );
            ((t2, c2, s1), (deleted || inserted, None, false, true))
        },
        TypingAction::Enter => {
            let t1 = if limits.clear_after_focus_lost {
                Seq::<u8>::empty()
            } else {
                t
            };
            ((t1, cur, spec_cleared(cur)), (limits.clear_after_focus_lost, None, true, true))
        },
        TypingAction::Backspace => {
            let (t1, c1, s1, changed) = spec_backspace(t, cur, sel);
            ((t1, c1, s1), (changed, None, false, true))
        },
        TypingAction::BackspaceRepeat => {
            let (t1, c1, s1, deleted) = spec_delete_selection(t, cur, sel);
            let (t2, c2, s2, changed) = spec_backspace(t, cur, sel);
            ((t2, c2, s2), (changed, None, false, deleted))
        },
        TypingAction::TypeChar(ch, ok) => if ok {
            let (t1, c1, s1, inserted) = spec_type_char(
                t,
                cur,
                sel,
                ch,
                limits.cap,
                limits.node_limit,
            );
            ((t1, c1, s1), (inserted, None, false, false))
        } else {
            ((t, cur, sel), (false, None, false, false))
        },
        TypingAction::RepeatChar(ch, ok) => if ok {
            ((spec_insert_bytes(t, cur, spec_utf8(ch)), cur + 1, sel), (true, None, false, false))
        } else {
            ((t, cur, sel), (false, None, false, false))
        },
    }
}

/// Whether a key does not panic on `(t, cur, sel)`: what it deletes starts
/// and ends on character boundaries, and what it inserts or removes falls
/// on one.
pub open spec fn spec_typing_ok(
    t: Seq<u8>,
    cur: int,
    sel: InputSelection,
    action: TypingAction,
    limits: InputLimits,
) -> bool {
    match action {
        TypingAction::SelectAll => true,
        TypingAction::Copy => true,
        TypingAction::Cut => spec_delete_ok(t, sel),
        TypingAction::Paste(text, valid) => {
            let (t1, c1, s1, deleted) = spec_delete_selection(t, cur, sel);
            spec_delete_ok(t, sel) && spec_paste_ok(t1, c1, text@, valid@, limits.cap, limits.node_limit)
        },
        TypingAction::Enter => true,
        TypingAction::Backspace => spec_backspace_ok(t, cur, sel),
        TypingAction::BackspaceRepeat => spec_backspace_ok(t, cur, sel),
        TypingAction::TypeChar(ch, ok) => !ok || spec_type_char_ok(t, cur, sel, limits.cap, limits.node_limit),
        TypingAction::RepeatChar(ch, ok) => !ok || spec_is_boundary(t, cur),
    }
}

/// Handles one key for a focused, editable input field, as `spec_typing`
/// says.
#[verifier::rlimit(50)]
pub fn handle_typing_action(
    buf: &mut EditBuffer,
    selection: &mut InputSelection,
    action: &TypingAction,
    limits: InputLimits,
) -> (eff: TypingEffect)
    requires
        old(buf).cursor_position <= old(buf).text@.len(),
        old(buf).text@.len() + 4 <= usize::MAX,
        action matches TypingAction::Paste(text, valid) ==> valid@.len() == text@.len()
            && old(buf).text@.len() + 4 * text@.len() <= usize::MAX,
        spec_typing_ok(old(buf).text@, old(buf).cursor_position as int, *old(selection), *action, limits),
    ensures
        ({
            let ((t, c, s), (sync, copied, lose, ends)) = spec_typing(
                old(buf).text@,
                old(buf).cursor_position as int,
                *old(selection),
                *action,
                limits,
            );
            &&& final(buf).text@ == t
            &&& final(buf).cursor_position == c
            &&& *final(selection) == s
            &&& eff.sync_value == sync
            &&& spec_opt_bytes(eff.copied) == copied
            &&& eff.lose_focus == lose
            &&& eff.ends_frame == ends
        }),
        !(*action is Enter) ==> final(buf).cursor_position <= final(buf).text@.len(),
{
    match action {
        TypingAction::SelectAll => {
            select_all(buf, selection);
            TypingEffect { sync_value: false, copied: None, lose_focus: false, ends_frame: true }
        },
        TypingAction::Copy => {
            let copied = selected_text(buf, selection);
            TypingEffect { sync_value: false, copied, lose_focus: false, ends_frame: true }
        },
        TypingAction::Cut => {
            if selection_range(selection).is_some() {
                let copied = selected_text(buf, selection);
                let deleted = delete_selection(buf, selection);
                TypingEffect { sync_value: deleted, copied, lose_focus: false, ends_frame: true }
            } else {
                TypingEffect { sync_value: false, copied: None, lose_focus: false, ends_frame: true }
            }
        },
        TypingAction::Paste(text, valid) => {
            let deleted = delete_selection(buf, selection);
            let inserted = insert_text_filtered(buf, text, valid, limits.cap, limits.node_limit);
            TypingEffect {
                sync_value: deleted || inserted,
                copied: None,
                lose_focus: false,
                ends_frame: true,
            }
        },
        TypingAction::Enter => {
            press_enter(buf, selection, limits.clear_after_focus_lost);
            TypingEffect {
                sync_value: limits.clear_after_focus_lost,
                copied: None,
                lose_focus: true,
                ends_frame: true,
            }
        },
        TypingAction::Backspace => {
            let changed = backspace(buf, selection);
            TypingEffect { sync_value: changed, copied: None, lose_focus: false, ends_frame: true }
        },
        TypingAction::BackspaceRepeat => {
            let deleted_sel = match selection_range(selection) {
                Some((a, b)) => b <= buf.text.len(),
                None => false,
            };
            let changed = backspace(buf, selection);
            TypingEffect {
                sync_value: changed,
                copied: None,
                lose_focus: false,
                ends_frame: deleted_sel,
            }
        },
        TypingAction::TypeChar(ch, ok) => {
            if !*ok {
                return TypingEffect {
                    sync_value: false,
                    copied: None,
                    lose_focus: false,
                    ends_frame: false,
                };
            }
            let inserted = type_char(buf, selection, *ch, limits.cap, limits.node_limit);
            TypingEffect { sync_value: inserted, copied: None, lose_focus: false, ends_frame: false }
        },
        TypingAction::RepeatChar(ch, ok) => {
            if *ok {
                repeat_char(buf, *ch);
            }
            TypingEffect { sync_value: *ok, copied: None, lose_focus: false, ends_frame: false }
        },
    }
}

/// Whether keys are handled for a field this frame: a disabled field loses
/// focus; an unfocused one is left alone; a file input only collapses its
/// selection at the cursor.
pub fn begin_typing_frame(
    ui: &mut UIWidgetState,
    selection: &mut InputSelection,
    cursor: usize,
    is_file_input: bool,
) -> (edit: bool)
    ensures
        edit == (!old(ui).disabled && old(ui).focused && !is_file_input),
        *final(ui) == (if old(ui).disabled {
            UIWidgetState { focused: false, ..*old(ui) }
        } else {
            *old(ui)
        }),
        *final(selection) == (if !old(ui).disabled && old(ui).focused && is_file_input {
            spec_cleared(cursor as int)
        } else {
            *old(selection)
        }),
{
    if ui.disabled {
        ui.focused = false;
        return false;
    }
    if !ui.focused {
        return false;
    }
    if is_file_input {
        clear_selection(selection, cursor);
        return false;
    }
    true
}

// ------------------------------------------------------------------
// What the field shows
// ------------------------------------------------------------------

/// The number of characters of a UTF-8 text: its bytes that are not
/// continuation bytes.
pub open spec fn spec_char_count(t: Seq<u8>) -> nat
    decreases t.len(),
{
    if t.len() == 0 {
        0
    } else {
        spec_char_count(t.drop_last()) + (if is_continuation_byte(t.last()) {
            0nat
        } else {
            1nat
        })
    }
}

/// The text a field shows, as UTF-8 bytes: an empty field shows its
/// placeholder while focused and nothing otherwise; a password shows one `*`
/// per character; any other field shows its text.
pub open spec fn spec_visible_text(text: Seq<u8>, placeholder: Seq<u8>, focused: bool, password: bool) -> Seq<u8> {
    if text.len() == 0 {
        if focused {
            placeholder
        } else {
            Seq::empty()
        }
    } else if password {
        Seq::new(spec_char_count(text), |i: int| 0x2Au8)
    } else {
        text
    }
}

/// The text a field shows.
pub fn visible_text(text: &Vec<u8>, placeholder: &Vec<u8>, focused: bool, password: bool) -> (r: Vec<u8>)
    ensures
        r@ == spec_visible_text(text@, placeholder@, focused, password),
{
    if text.len() == 0 {
        if focused {
            return placeholder.clone();
        }
        return Vec::new();
    }
    if password {
        let mut r: Vec<u8> = Vec::new();
        let mut i: usize = 0;
        while i < text.len()
            invariant
                i <= text@.len(),
                r@ =~= Seq::new(spec_char_count(text@.subrange(0, i as int)), |k: int| 0x2Au8),
                spec_char_count(text@.subrange(0, i as int)) <= i,
            decreases text@.len() - i,
        {
            proof {
                let nxt = text@.subrange(0, i + 1);
                assert(nxt.drop_last() =~= text@.subrange(0, i as int));
                assert(nxt.last() == text@[i as int]);
            }
            if !(0x80 <= text[i] && text[i] <= 0xBF) {
                r.push(0x2Au8);
            }
            i += 1;
        }
        assert(text@.subrange(0, text@.len() as int) =~= text@);
        return r;
    }
    text.clone()
}

/// The shown text split into what comes before the selection, the selection
/// and what follows, `(prefix, selected, suffix)` (each taken with
/// `str::get`, empty where a bound is not a character boundary within the
/// text).  Only a focused, enabled, non-empty field shows a selection.
pub open spec fn spec_text_spans(visible: Seq<u8>, sel: InputSelection, active: bool) -> (
    Seq<u8>,
    Seq<u8>,
    Seq<u8>,
) {
    match (if active {
        spec_selection_range(sel)
    } else {
        None
    }) {
        Some((a, b)) => (
            if spec_is_boundary(visible, a) {
                visible.subrange(0, a)
            } else {
                Seq::empty()
            },
            if spec_is_boundary(visible, a) && spec_is_boundary(visible, b) {
                visible.subrange(a, b)
            } else {
                Seq::empty()
            },
            if spec_is_boundary(visible, b) {
                visible.subrange(b, visible.len() as int)
            } else {
                Seq::empty()
            },
        ),
        None => (visible, Seq::empty(), Seq::empty()),
    }
}

/// Splits the shown text around the selection of a field in state `ui`
/// whose text is `text_len` bytes long.
pub fn text_spans(visible: &Vec<u8>, selection: &InputSelection, ui: &UIWidgetState, text_len: usize) -> (r: (
    Vec<u8>,
    Vec<u8>,
    Vec<u8>,
))
    ensures
        ({
            let (p, m, x) = spec_text_spans(
                visible@,
                *selection,
                ui.focused && !ui.disabled && text_len > 0,
            );
            r.0@ == p && r.1@ == m && r.2@ == x
        }),
{
    let active = ui.focused && !ui.disabled && text_len > 0;
    let range = if active {
        selection_range(selection)
    } else {
        None
    };
    match range {
        Some((a, b)) => {
            let n = visible.len();
            let ba = is_boundary(visible, a);
            let bb = is_boundary(visible, b);
            let prefix = if ba {
                slice_bytes(visible, 0, a)
            } else {
                Vec::new()
            };
            let selected = if ba && bb {
                slice_bytes(visible, a, b)
            } else {
                Vec::new()
            };
            let suffix = if bb {
                slice_bytes(visible, b, n)
            } else {
                Vec::new()
            };
            (prefix, selected, suffix)
        },
        None => (visible.clone(), Vec::new(), Vec::new()),
    }
}

/// The blinking cursor is shown on a focused, enabled field that is not a
/// file input.
pub fn cursor_shown(ui: &UIWidgetState, is_file_input: bool) -> (b: bool)
    ensures
        b == (ui.focused && !ui.disabled && !is_file_input),
{
    ui.focused && !ui.disabled && !is_file_input
}

/// The overlay label sits small on top of a focused or filled field, and
/// large in its middle otherwise.
pub fn label_on_top(ui: &UIWidgetState, text_len: usize) -> (b: bool)
    ensures
        b == (ui.focused || text_len > 0),
{
    ui.focused || text_len > 0
}

// ------------------------------------------------------------------
// Pointer
// ------------------------------------------------------------------

/// A primary press on a field, `pos` being the text position under the
/// pointer when known.  A disabled field ignores it.  A file input loses
/// focus and collapses its selection at the cursor; another field takes
/// focus and, with a position, moves the cursor there and starts dragging a
/// selection from it.  Returns whether the field becomes the current widget.
pub fn on_press(
    ui: &mut UIWidgetState,
    buf: &mut EditBuffer,
    selection: &mut InputSelection,
    is_file_input: bool,
    pos: Option<usize>,
) -> (current: bool)
    ensures
        current == !old(ui).disabled,
        old(ui).disabled ==> *final(ui) == *old(ui) && *final(buf) == *old(buf) && *final(selection)
            == *old(selection),
        !old(ui).disabled && is_file_input ==> *final(ui) == (UIWidgetState {
            focused: false,
            ..*old(ui)
        }) && *final(buf) == *old(buf) && *final(selection) == spec_cleared(
            old(buf).cursor_position as int,
        ),
        !old(ui).disabled && !is_file_input ==> *final(ui) == (UIWidgetState {
            focused: true,
            ..*old(ui)
        }) && final(buf).text@ == old(buf).text@ && match pos {
            Some(p) => final(buf).cursor_position == p && *final(selection) == (InputSelection {
                anchor: p,
                focus: p,
                dragging: true,
            }),
            None => final(buf).cursor_position == old(buf).cursor_position && *final(selection)
                == *old(selection),
        },
{
    if ui.disabled {
        return false;
    }
    if is_file_input {
        ui.focused = false;
        clear_selection(selection, buf.cursor_position);
        return true;
    }
    ui.focused = true;
    if let Some(p) = pos {
        press_at(buf, selection, p);
    }
    true
}

/// Dragging over a focused, enabled field that is not a file input, `pos`
/// being the text position under the pointer when known: the cursor and the
/// selection's focus follow it.
pub fn on_drag(
    ui: &UIWidgetState,
    buf: &mut EditBuffer,
    selection: &mut InputSelection,
    is_file_input: bool,
    pos: Option<usize>,
)
    ensures
        (ui.disabled || !ui.focused || is_file_input || pos is None) ==> *final(buf) == *old(buf)
            && *final(selection) == *old(selection),
        !(ui.disabled || !ui.focused || is_file_input) && pos is Some ==> final(buf).text@
            == old(buf).text@ && final(buf).cursor_position == pos->0 && *final(selection) == (
        InputSelection { focus: pos->0, dragging: true, ..*old(selection) }),
{
    if ui.disabled || !ui.focused || is_file_input {
        return;
    }
    if let Some(p) = pos {
        drag_to(buf, selection, p);
    }
}

/// A primary release: the selection stops dragging.
pub fn on_release(selection: &mut InputSelection)
    ensures
        *final(selection) == (InputSelection { dragging: false, ..*old(selection) }),
{
    selection.dragging = false;
}

/// A click on an enabled field makes it the current widget; a file input
/// loses focus and opens the file picker, another field takes focus.
/// Returns `(current, open_picker)`.
pub fn on_click(ui: &mut UIWidgetState, is_file_input: bool) -> (r: (bool, bool))
    ensures
        r == (!old(ui).disabled, !old(ui).disabled && is_file_input),
        *final(ui) == (if old(ui).disabled {
            *old(ui)
        } else {
            UIWidgetState { focused: !is_file_input, ..*old(ui) }
        }),
{
    if ui.disabled {
        return (false, false);
    }
    ui.focused = !is_file_input;
    (true, is_file_input)
}

// ------------------------------------------------------------------
// File inputs
// ------------------------------------------------------------------

/// `s` without its leading dots.
pub open spec fn spec_trim_dots(s: Seq<char>) -> Seq<char>
    decreases s.len(),
{
    if s.len() > 0 && s[0] == '.' {
        spec_trim_dots(s.drop_first())
    } else {
        s
    }
}

/// The extension a configured value names, when it names one: the value
/// trimmed, its leading dots dropped.
pub open spec fn spec_extension_stem(v: Seq<char>) -> Seq<char> {
    spec_trim_dots(spec_trim(v))
}

/// The file extensions a list of configured values allows, in order: each
/// value trimmed, its leading dots dropped, in ASCII lowercase; values left
/// empty are dropped.
pub open spec fn spec_normalized_extensions(vals: Seq<Seq<char>>) -> Seq<Seq<char>>
    decreases vals.len(),
{
    if vals.len() == 0 {
        Seq::empty()
    } else {
        let r = spec_normalized_extensions(vals.drop_last());
        let stem = spec_extension_stem(vals.last());
        if stem.len() > 0 {
            r.push(spec_lower(stem))
        } else {
            r
        }
    }
}

/// The character views of a list of strings.
pub open spec fn spec_string_views(vs: Seq<String>) -> Seq<Seq<char>> {
    vs.map_values(|s: String| s@)
}

fn trim_dots(v: &Vec<char>) -> (r: Vec<char>)
    ensures
        r@ == spec_trim_dots(v@),
{
    let n = v.len();
    let mut i: usize = 0;
    assert(v@.subrange(0, n as int) =~= v@);
    while i < n && v[i] == '.'
        invariant
            i <= n,
            n == v@.len(),
            spec_trim_dots(v@) == spec_trim_dots(v@.subrange(i as int, n as int)),
        decreases n - i,
    {
        let ghost sub = v@.subrange(i as int, n as int);
        assert(sub.drop_first() =~= v@.subrange(i + 1, n as int));
        i += 1;
    }
    slice_chars(v, i, n)
}

/// The file extensions a file input allows.
pub fn normalized_extensions(values: &Vec<String>) -> (r: Vec<String>)
    ensures
        spec_string_views(r@) == spec_normalized_extensions(spec_string_views(values@)),
{
    let mut r: Vec<String> = Vec::new();
    let mut i: usize = 0;
    while i < values.len()
        invariant
            i <= values@.len(),
            spec_string_views(r@) == spec_normalized_extensions(
                spec_string_views(values@.subrange(0, i as int)),
            ),
        decreases values@.len() - i,
    {
        let ghost before = spec_string_views(values@.subrange(0, i as int));
        let ghost now = spec_string_views(values@.subrange(0, i + 1));
        assert(now.drop_last() =~= before);
        assert(now.last() == values@[i as int]@);
        let stem = trim_dots(&trimmed_chars(values[i].as_str()));
        if stem.len() > 0 {
            let lowered = lower_chars(&stem);
            let ghost r_before = spec_string_views(r@);
            r.push(string_from_chars(&lowered));
            assert(spec_string_views(r@) =~= r_before.push(lowered@));
        }
        i += 1;
    }
    assert(values@.subrange(0, values@.len() as int) =~= values@);
    r
}

/// What a file input asks of the file picker: folders or files, the
/// extensions allowed, whether to report the picked file's size, and the
/// largest size accepted.
#[derive(Clone, Debug)]
pub struct FilePickerRequest {
    pub folder_mode: bool,
    pub extensions: Vec<String>,
    pub include_size: bool,
    pub max_size_bytes: Option<u64>,
}

/// The picker request of a file input: the size is reported and limited for
/// files only.
pub fn file_picker_request(
    folder: bool,
    extensions: &Vec<String>,
    show_size: bool,
    max_size_bytes: Option<u64>,
) -> (r: FilePickerRequest)
    ensures
        r.folder_mode == folder,
        spec_string_views(r.extensions@) == spec_normalized_extensions(
            spec_string_views(extensions@),
        ),
        r.include_size == (show_size && !folder),
        r.max_size_bytes == (if folder {
            None
        } else {
            max_size_bytes
        }),
{
    FilePickerRequest {
        folder_mode: folder,
        extensions: normalized_extensions(extensions),
        include_size: show_size && !folder,
        max_size_bytes: if folder {
            None
        } else {
            max_size_bytes
        },
    }
}

/// What became of a picked file.
#[derive(Clone, Copy, Debug, PartialEq, Eq, Structural)]
pub enum FilePickOutcome {
    /// Refused: larger than the limit given.
    TooLarge(u64),
    /// Accepted, with the size to show if any.
    Picked(Option<u64>),
}

/// A picked file of `size` bytes (when known) is refused when it exceeds the
/// limit; otherwise it is accepted, its size shown when the request asks.
pub fn file_pick_outcome(request: &FilePickerRequest, size: Option<u64>) -> (r: FilePickOutcome)
    ensures
        r == (match (request.max_size_bytes, size) {
            (Some(limit), Some(n)) if n > limit => FilePickOutcome::TooLarge(limit),
            _ => FilePickOutcome::Picked(if request.include_size {
                size
            } else {
                None
            }),
        }),
{
    if let (Some(limit), Some(n)) = (request.max_size_bytes, size) {
        if n > limit {
            return FilePickOutcome::TooLarge(limit);
        }
    }
    FilePickOutcome::Picked(if request.include_size {
        size
    } else {
        None
    })
}

/// What a file input knows of its file: the size to show and the error to
/// report.
#[derive(Clone, Debug)]
pub struct FileInputState {
    pub selected_size_bytes: Option<u64>,
    pub error_message: Option<String>,
}

/// A result of the file picker, waiting to be applied to the input with
/// identifier `target`: the name to show and the value to hold, or an error.
#[derive(Clone, Debug)]
pub struct PendingFileSelection {
    pub target: usize,
    pub display_name: String,
    pub value: String,
    pub size_bytes: Option<u64>,
    pub error_message: Option<String>,
}

/// The view of an optional string.
pub open spec fn spec_opt_string(o: Option<String>) -> Option<Seq<char>> {
    match o {
        Some(s) => Some(s@),
        None => None,
    }
}

/// The UTF-8 bytes of `s`.
pub fn bytes_of(s: &str) -> (r: Vec<u8>)
    ensures
        r@ == encode_utf8(s@),
{
    let b = s.as_bytes();
    let mut r: Vec<u8> = Vec::new();
    let mut i: usize = 0;
    while i < b.len()
        invariant
            i <= b@.len(),
            b@ == encode_utf8(s@),
            r@ == b@.subrange(0, i as int),
        decreases b@.len() - i,
    {
        r.push(b[i]);
        i += 1;
        assert(r@ =~= b@.subrange(0, i as int));
    }
    assert(b@.subrange(0, b@.len() as int) =~= b@);
    r
}

/// Applies a picker result to its file input.  An error is recorded, the
/// field marked invalid and unfocused, its selection collapsed at the cursor.
/// Otherwise the field shows the name, the cursor at its end, holds the
/// value, records the size, clears the error and the invalid mark, loses
/// focus and collapses its selection at the cursor.
pub fn apply_file_selection(
    pending: PendingFileSelection,
    buf: &mut EditBuffer,
    input_value: &mut String,
    selection: &mut InputSelection,
    file_state: &mut FileInputState,
    ui: &mut UIWidgetState,
)
    ensures
        match pending.error_message {
            Some(e) => {
                &&& *final(buf) == *old(buf)
                &&& *final(input_value) == *old(input_value)
                &&& *final(selection) == spec_cleared(old(buf).cursor_position as int)
                &&& final(file_state).selected_size_bytes == old(file_state).selected_size_bytes
                &&& spec_opt_string(final(file_state).error_message) == Some(e@)
                &&& *final(ui) == (UIWidgetState { invalid: true, focused: false, ..*old(ui) })
            },
            None => {
                &&& final(buf).text@ == encode_utf8(pending.display_name@)
                &&& final(buf).cursor_position == encode_utf8(pending.display_name@).len()
                &&& final(input_value)@ == pending.value@
                &&& *final(selection) == spec_cleared(encode_utf8(pending.display_name@).len() as int)
                &&& final(file_state).selected_size_bytes == pending.size_bytes
                &&& final(file_state).error_message is None
                &&& *final(ui) == (UIWidgetState { invalid: false, focused: false, ..*old(ui) })
            },
        },
{
    if let Some(e) = pending.error_message {
        file_state.error_message = Some(e);
        ui.invalid = true;
        ui.focused = false;
        clear_selection(selection, buf.cursor_position);
        return;
    }
    buf.text = bytes_of(pending.display_name.as_str());
    buf.cursor_position = buf.text.len();
    file_state.selected_size_bytes = pending.size_bytes;
    file_state.error_message = None;
    *input_value = pending.value;
    ui.invalid = false;
    ui.focused = false;
    clear_selection(selection, buf.cursor_position);
}

/// The error a file input shows under it: its message, unless that is blank.
pub fn file_error_text(error: &Option<String>) -> (r: Option<String>)
    ensures
        spec_opt_string(r) == (match *error {
            Some(e) => if spec_trim(e@).len() > 0 {
                Some(e@)
            } else {
                None
            },
            None => None,
        }),
{
    match error {
        Some(e) => {
            let t = trimmed_chars(e.as_str());
            if t.len() > 0 {
                Some(string_from_chars(&chars_of(e.as_str())))
            } else {
                None
            }
        },
        None => None,
    }
}

/// The size a file input shows beside its name: the picked file's size, for
/// a file input that shows sizes.
pub fn file_size_to_show(is_file_input: bool, show_size: bool, size: Option<u64>) -> (r: Option<u64>)
    ensures
        r == (if is_file_input && show_size {
            size
        } else {
            None
        }),
{
    if is_file_input && show_size {
        size
    } else {
        None
    }
}

/// The icon a field shows: its icon path trimmed, unless that is empty.
pub fn icon_to_show(icon_path: Option<&str>) -> (r: Option<String>)
    ensures
        spec_opt_string(r) == (match icon_path {
            Some(p) => if spec_trim(p@).len() > 0 {
                Some(spec_trim(p@))
            } else {
                None
            },
            None => None,
        }),
{
    match icon_path {
        Some(p) => {
            let t = trimmed_chars(p);
            if t.len() > 0 {
                Some(string_from_chars(&t))
            } else {
                None
            }
        },
        None => None,
    }
}

/// After the field was changed from outside: the cursor and the selection
/// are kept within the text, and the value of a field other than a file
/// input becomes its text.
pub fn sync_after_field_change(
    buf: &mut EditBuffer,
    selection: &mut InputSelection,
    input_value: &mut String,
    is_file_input: bool,
)
    requires
        valid_utf8(old(buf).text@),
    ensures
        final(buf).text@ == old(buf).text@,
        final(buf).cursor_position as int == crate::date_picker::spec_min(
            old(buf).cursor_position as int,
            old(buf).text@.len() as int,
        ),
        final(selection).anchor as int == crate::date_picker::spec_min(
            old(selection).anchor as int,
            old(buf).text@.len() as int,
        ),
        final(selection).focus as int == crate::date_picker::spec_min(
            old(selection).focus as int,
            old(buf).text@.len() as int,
        ),
        final(selection).dragging == old(selection).dragging,
        is_file_input ==> *final(input_value) == *old(input_value),
        !is_file_input ==> encode_utf8(final(input_value)@) == old(buf).text@,
{
    clamp_to_text(buf, selection);
    if !is_file_input {
        if let Some(v) = string_from_utf8(buf.text.clone()) {
            *input_value = v;
        }
    }
}

// ------------------------------------------------------------------
// Clipboard
// ------------------------------------------------------------------

/// The text kept for copy and paste when the system clipboard cannot be
/// used.
#[derive(Clone, Debug)]
pub struct ClipboardFallback {
    pub text: String,
}

/// The text kept after copying `text`: unchanged when the system clipboard
/// took it, else `text`.
pub open spec fn spec_kept_after_copy(kept: Seq<char>, stored_in_system: bool, text: Seq<char>) -> Seq<char> {
    if stored_in_system {
        kept
    } else {
        text
    }
}

/// The text a paste gives: the system clipboard's when it gave one, else
/// the kept text unless that is empty.
pub open spec fn spec_paste_text(kept: Seq<char>, from_system: Option<Seq<char>>) -> Option<Seq<char>> {
    match from_system {
        Some(t) => Some(t),
        None => if kept.len() > 0 {
            Some(kept)
        } else {
            None
        },
    }
}

impl ClipboardFallback {
    /// Nothing kept.
    pub fn new() -> (c: ClipboardFallback)
        ensures
            c.text@ == Seq::<char>::empty(),
    {
        ClipboardFallback { text: String::new() }
    }

    /// After copying `text`: when the system clipboard took it nothing
    /// changes; otherwise the text is kept here.
    pub fn after_copy(&mut self, stored_in_system: bool, text: &str)
        ensures
            final(self).text@ == spec_kept_after_copy(old(self).text@, stored_in_system, text@),
    {
        if !stored_in_system {
            self.text = string_from_chars(&chars_of(text));
        }
    }

    /// The text to paste: the system clipboard's when it gave one; else the
    /// kept text, unless that is empty.
    pub fn text_for_paste(&self, from_system: Option<String>) -> (r: Option<String>)
        ensures
            spec_opt_string(r) == spec_paste_text(self.text@, spec_opt_string(from_system)),
    {
        match from_system {
            Some(t) => Some(t),
            None => {
                let kept = chars_of(self.text.as_str());
                if kept.len() > 0 {
                    Some(string_from_chars(&kept))
                } else {
                    None
                }
            },
        }
    }
}

// ------------------------------------------------------------------
// Laws
// ------------------------------------------------------------------

/// The bytes of ASCII characters, one each.
pub open spec fn spec_ascii_bytes(s: Seq<char>) -> Seq<u8> {
    s.map_values(|c: char| c as u32 as u8)
}

/// Whether every character of `s` is ASCII.
pub open spec fn spec_all_ascii(s: Seq<char>) -> bool {
    forall|k: int| 0 <= k < s.len() ==> (#[trigger] s[k] as u32) < 0x80
}

/// An ASCII character is one byte, its code.
proof fn lemma_utf8_ascii(c: char)
    requires
        (c as u32) < 0x80,
    ensures
        spec_utf8(c) == seq![c as u32 as u8],
{
    let x = c as u32;
    assert((x & 0x7F) as u8 == x as u8) by (bit_vector)
        requires
            x < 0x80,
    ;
}

/// The first byte of a character's encoding starts a character of the
/// encoding's length.
proof fn lemma_utf8_lead(c: char)
    ensures
        spec_utf8(c).len() >= 1,
        spec_char_width(spec_utf8(c)[0]) == spec_utf8(c).len(),
        !is_continuation_byte(spec_utf8(c)[0]),
{
    let x = c as u32;
    if x <= 0x7F {
        assert(((x & 0x7F) as u8) < 0x80) by (bit_vector);
    } else if x <= 0x7FF {
        assert(0xC0 <= (0xC0u8 | ((x >> 6) & 0x1F) as u8) && (0xC0u8 | ((x >> 6) & 0x1F) as u8) <= 0xDF)
            by (bit_vector);
    } else if x <= 0xFFFF && !(0xD800 <= x <= 0xDFFF) {
        assert(0xE0 <= (0xE0u8 | ((x >> 12) & 0x0F) as u8) && (0xE0u8 | ((x >> 12) & 0x0F) as u8) <= 0xEF)
            by (bit_vector);
    } else {
        assert(0xF0 <= (0xF0u8 | ((x >> 18) & 0x7) as u8)) by (bit_vector);
    }
}

/// Pasting ASCII characters that are all accepted, into a field without
/// limits, puts their bytes at the cursor and moves the cursor past them;
/// when the cursor starts a character (or ends the text) no insertion
/// panics.
pub proof fn lemma_paste_unlimited(t: Seq<u8>, cur: int, s: Seq<char>, valid: Seq<bool>)
    requires
        0 <= cur <= t.len(),
        valid.len() >= s.len(),
        forall|i: int| 0 <= i < s.len() ==> valid[i],
        forall|i: int| 0 <= i < s.len() ==> s[i] != '\n' && s[i] != '\r',
        spec_all_ascii(s),
    ensures
        spec_paste(t, cur, s, valid, 0, None) == (
            t.subrange(0, cur) + spec_ascii_bytes(s) + t.subrange(cur, t.len() as int),
            cur + s.len(),
            s.len() > 0,
            false,
        ),
        (cur == t.len() || !is_continuation_byte(t[cur])) ==> spec_paste_ok(t, cur, s, valid, 0, None),
    decreases s.len(),
{
    if s.len() == 0 {
        assert(t.subrange(0, cur) + spec_ascii_bytes(s) + t.subrange(cur, t.len() as int) =~= t);
    } else {
        let s0 = s.drop_last();
        assert forall|i: int| 0 <= i < s0.len() implies s0[i] != '\n' && s0[i] != '\r' by {
            assert(s0[i] == s[i]);
        }
        assert forall|k: int| 0 <= k < s0.len() implies (#[trigger] s0[k] as u32) < 0x80 by {
            assert(s0[k] == s[k]);
        }
        lemma_paste_unlimited(t, cur, s0, valid);
        let t0 = t.subrange(0, cur) + spec_ascii_bytes(s0) + t.subrange(cur, t.len() as int);
        let c = s.last();
        assert(c == s[s.len() - 1]);
        assert((c as u32) < 0x80);
        lemma_utf8_ascii(c);
        let p = cur + s0.len();
        assert(spec_ascii_bytes(s) =~= spec_ascii_bytes(s0).push(c as u32 as u8));
        assert(spec_insert_bytes(t0, p, spec_utf8(c)) =~= t.subrange(0, cur) + spec_ascii_bytes(s)
            + t.subrange(cur, t.len() as int));
        if cur == t.len() || !is_continuation_byte(t[cur]) {
            // The cursor sits before the character the pasting started at.
            assert(spec_is_boundary(t0, p)) by {
                if p < t0.len() {
                    assert(t0[p] == t[cur]);
                }
            }
        }
    }
}

/// Typing an accepted character into a field below its limit, on a
/// character boundary and with no selection, and then pressing Backspace
/// gives back the text and the cursor as they were; neither key panics.
pub proof fn law_type_then_backspace(
    t: Seq<u8>,
    cur: int,
    sel: InputSelection,
    ch: char,
    limits: InputLimits,
)
    requires
        0 <= cur <= t.len(),
        sel.anchor == sel.focus,
        !spec_at_limit(cur, limits.cap, limits.node_limit),
        spec_is_boundary(t, cur),
    ensures
        ({
            let ((t1, c1, s1), _) = spec_typing(t, cur, sel, TypingAction::TypeChar(ch, true), limits);
            let ((t2, c2, s2), _) = spec_typing(t1, c1, s1, TypingAction::Backspace, limits);
            &&& spec_typing_ok(t, cur, sel, TypingAction::TypeChar(ch, true), limits)
            &&& spec_typing_ok(t1, c1, s1, TypingAction::Backspace, limits)
            &&& t2 == t && c2 == cur && s2 == sel
        }),
{
    let enc = spec_utf8(ch);
    lemma_utf8_lead(ch);
    let t1 = spec_insert_bytes(t, cur, enc);
    assert(t1[cur] == enc[0]);
    assert(spec_remove_char(t1, cur) =~= t);
}

/// Cutting the selection and pasting the cut text back, into a field
/// without limits whose input type accepts every character of it, gives
/// back the text, the cursor at the end of what was pasted, when the cut
/// text is ASCII with no line break: the cursor moves one byte per pasted
/// character, so a longer character would leave it inside the text of a
/// character, where the next insertion panics.
pub proof fn law_cut_then_paste_restores(
    t: Seq<u8>,
    cur: int,
    sel: InputSelection,
    clip: Vec<char>,
    valid: Vec<bool>,
    clear_after_focus_lost: bool,
)
    requires
        0 <= cur <= t.len(),
        spec_selection_range(sel) matches Some((a, b)) && b <= t.len() && spec_is_boundary(t, a)
            && spec_is_boundary(t, b) && spec_ascii_bytes(clip@) == t.subrange(a, b),
        spec_all_ascii(clip@),
        valid@.len() == clip@.len(),
        forall|i: int| 0 <= i < valid@.len() ==> valid@[i],
        forall|i: int| 0 <= i < clip@.len() ==> clip@[i] != '\n' && clip@[i] != '\r',
    ensures
        ({
            let limits = InputLimits { cap: 0, node_limit: None, clear_after_focus_lost };
            let ((t1, c1, s1), (_, copied, _, _)) = spec_typing(t, cur, sel, TypingAction::Cut, limits);
            let ((t2, c2, s2), _) = spec_typing(
                t1,
                c1,
                s1,
                TypingAction::Paste(clip, valid),
                limits,
            );
            &&& spec_typing_ok(t, cur, sel, TypingAction::Cut, limits)
            &&& spec_typing_ok(t1, c1, s1, TypingAction::Paste(clip, valid), limits)
            &&& copied == Some(spec_ascii_bytes(clip@))
            &&& t2 == t
            &&& c2 == spec_sel_end(sel)
        }),
{
    let (a, b) = spec_selection_range(sel).unwrap();
    let t1 = spec_cut_out(t, a, b);
    assert(spec_ascii_bytes(clip@).len() == clip@.len());
    lemma_paste_unlimited(t1, a, clip@, valid@);
    assert(spec_is_boundary(t1, a)) by {
        if a < t1.len() {
            assert(t1[a] == t[b]);
        }
    }
    assert(t1.subrange(0, a) + spec_ascii_bytes(clip@) + t1.subrange(a, t1.len() as int) =~= t);
}

/// The upper end of the selection.
pub open spec fn spec_sel_end(sel: InputSelection) -> int {
    if sel.anchor <= sel.focus {
        sel.focus as int
    } else {
        sel.anchor as int
    }
}

/// Selecting all and copying puts the whole text on the clipboard (nothing
/// when the text is empty).
pub proof fn law_select_all_then_copy(t: Seq<u8>, cur: int, sel: InputSelection, limits: InputLimits)
    requires
        t.len() <= usize::MAX,
    ensures
        ({
            let ((t1, c1, s1), _) = spec_typing(t, cur, sel, TypingAction::SelectAll, limits);
            let (_, (_, copied, _, _)) = spec_typing(t1, c1, s1, TypingAction::Copy, limits);
            copied == (if t.len() > 0 {
                Some(t)
            } else {
                None
            })
        }),
{
    assert(t.subrange(0, t.len() as int) =~= t);
}

/// The three spans of a field always spell its shown text when the
/// selection's ends are character boundaries of it.
pub proof fn law_spans_spell_visible_text(visible: Seq<u8>, sel: InputSelection, active: bool)
    requires
        spec_is_boundary(visible, sel.anchor as int),
        spec_is_boundary(visible, sel.focus as int),
    ensures
        ({
            let (p, m, x) = spec_text_spans(visible, sel, active);
            p + m + x == visible
        }),
{
    let (p, m, x) = spec_text_spans(visible, sel, active);
    match (if active {
        spec_selection_range(sel)
    } else {
        None
    }) {
        Some((a, b)) => {
            assert(p + m + x =~= visible);
        },
        None => {
            assert(p + m + x =~= visible);
        },
    }
}

/// Text copied while the system clipboard refuses it comes back from a
/// paste while the system clipboard gives nothing, unless it is empty.
pub proof fn law_copy_then_paste(kept: Seq<char>, copied: Seq<char>)
    ensures
        spec_paste_text(spec_kept_after_copy(kept, false, copied), None) == (if copied.len() > 0 {
            Some(copied)
        } else {
            None
        }),
{
}

/// Enter takes focus away and ends the frame's keys, copies nothing, keeps
/// the cursor and collapses the selection there.  A field that clears after
/// losing focus ends up empty and has its value set; any other field keeps
/// its text and its value is left alone.
pub proof fn law_enter_keeps_or_clears(t: Seq<u8>, cur: int, sel: InputSelection, limits: InputLimits)
    requires
        0 <= cur <= usize::MAX,
    ensures
        ({
            let ((t1, c1, s1), (sync, copied, lose, ends)) = spec_typing(t, cur, sel, TypingAction::Enter, limits);
            &&& lose && ends && copied is None
            &&& c1 == cur && s1.anchor == cur && s1.focus == cur && !s1.dragging
            &&& !limits.clear_after_focus_lost ==> t1 == t && !sync
            &&& limits.clear_after_focus_lost ==> t1.len() == 0 && sync
        }),
{
}

} // verus!
