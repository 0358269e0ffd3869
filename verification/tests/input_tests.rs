use extended_ui::input_edit::{
    apply_file_selection, backspace, begin_typing_frame, clamp_to_text, cursor_shown,
    delete_selection, file_error_text, file_pick_outcome, file_picker_request, file_size_to_show,
    handle_typing_action, icon_to_show, insert_text_filtered, label_on_top, move_left, move_right,
    normalized_extensions, on_click, on_drag, on_press, on_release, repeat_char, select_all,
    selected_text, selection_range, settle_after_typing, sync_after_field_change, text_spans,
    type_char, visible_text, ClipboardFallback, EditBuffer, FileInputState, FilePickOutcome,
    InputLimits, InputSelection, PendingFileSelection, TypingAction,
};
use extended_ui::widget_state::UIWidgetState;

fn chars(s: &str) -> Vec<char> {
    s.chars().collect()
}

fn bytes(s: &str) -> Vec<u8> {
    s.as_bytes().to_vec()
}

fn text(buf: &EditBuffer) -> String {
    String::from_utf8(buf.text.clone()).unwrap()
}

fn buf(s: &str, cursor: usize) -> EditBuffer {
    EditBuffer { text: bytes(s), cursor_position: cursor }
}

fn sel(anchor: usize, focus: usize) -> InputSelection {
    InputSelection { anchor, focus, dragging: false }
}

fn unlimited() -> InputLimits {
    InputLimits { cap: 0, node_limit: None, clear_after_focus_lost: false }
}

#[test]
fn selection_ranges_in_either_direction() {
    assert_eq!(selection_range(&sel(2, 5)), Some((2, 5)));
    assert_eq!(selection_range(&sel(5, 2)), Some((2, 5)));
    assert_eq!(selection_range(&sel(3, 3)), None);
}

#[test]
fn deleting_the_selection() {
    let mut b = buf("hello world", 11);
    let mut s = sel(5, 11);
    assert!(delete_selection(&mut b, &mut s));
    assert_eq!(text(&b), "hello");
    assert_eq!(b.cursor_position, 5);
    assert_eq!(s, sel(5, 5));
    // A selection past the end is dropped and nothing is deleted.
    let mut b = buf("abc", 1);
    let mut s = sel(1, 9);
    assert!(!delete_selection(&mut b, &mut s));
    assert_eq!(text(&b), "abc");
    assert_eq!(s, sel(1, 1));
}

#[test]
fn pasting_filters_and_stops_at_the_cap() {
    let mut b = buf("ab", 1);
    let pasted = chars("x\ny1z");
    let valid = vec![true, true, true, false, true];
    assert!(insert_text_filtered(&mut b, &pasted, &valid, 0, None));
    assert_eq!(text(&b), "axyzb");
    assert_eq!(b.cursor_position, 4);
    let mut capped = buf("ab", 2);
    assert!(insert_text_filtered(&mut capped, &chars("cdef"), &vec![true; 4], 4, None));
    assert_eq!(text(&capped), "abcd");
    let mut full = buf("ab", 2);
    assert!(!insert_text_filtered(&mut full, &chars("c"), &vec![true], 0, Some(2)));
    assert_eq!(text(&full), "ab");
}

#[test]
fn copying_and_selecting_all() {
    let mut b = buf("hello", 0);
    let mut s = sel(0, 0);
    assert_eq!(selected_text(&b, &sel(1, 3)), Some(bytes("el")));
    assert_eq!(selected_text(&b, &sel(1, 9)), None);
    select_all(&mut b, &mut s);
    assert_eq!((s.anchor, s.focus, b.cursor_position), (0, 5, 5));
}

#[test]
fn typing_and_backspace() {
    let mut b = buf("ac", 1);
    let mut s = sel(1, 1);
    assert!(type_char(&mut b, &mut s, 'b', 0, None));
    assert_eq!(text(&b), "abc");
    assert_eq!(b.cursor_position, 2);
    assert!(backspace(&mut b, &mut s));
    assert_eq!(text(&b), "ac");
    assert_eq!(b.cursor_position, 1);
    // Typing over a selection replaces it.
    let mut b = buf("abcd", 3);
    let mut s = sel(1, 3);
    assert!(type_char(&mut b, &mut s, 'X', 0, None));
    assert_eq!(text(&b), "aXd");
    // At the cap nothing is typed.
    let mut b = buf("ab", 2);
    let mut s = sel(2, 2);
    assert!(!type_char(&mut b, &mut s, 'c', 2, None));
    assert_eq!(text(&b), "ab");
    // Backspace at the start changes nothing.
    let mut b = buf("ab", 0);
    assert!(!backspace(&mut b, &mut sel(0, 0)));
    repeat_char(&mut b, 'z');
    assert_eq!(text(&b), "zab");
    assert_eq!(b.cursor_position, 1);
}

#[test]
fn keys_of_a_frame() {
    let mut b = buf("hello", 5);
    let mut s = sel(0, 0);
    let eff = handle_typing_action(&mut b, &mut s, &TypingAction::SelectAll, unlimited());
    assert!(eff.ends_frame && !eff.sync_value);
    let eff = handle_typing_action(&mut b, &mut s, &TypingAction::Copy, unlimited());
    assert_eq!(eff.copied, Some(bytes("hello")));
    let eff = handle_typing_action(&mut b, &mut s, &TypingAction::Cut, unlimited());
    assert!(eff.sync_value);
    assert_eq!(eff.copied, Some(bytes("hello")));
    assert_eq!(text(&b), "");
    let eff = handle_typing_action(
        &mut b,
        &mut s,
        &TypingAction::Paste(chars("hello"), vec![true; 5]),
        unlimited(),
    );
    assert!(eff.sync_value);
    assert_eq!(text(&b), "hello");
    let eff = handle_typing_action(&mut b, &mut s, &TypingAction::TypeChar('!', true), unlimited());
    assert!(eff.sync_value && !eff.ends_frame);
    assert_eq!(text(&b), "hello!");
    let eff = handle_typing_action(&mut b, &mut s, &TypingAction::TypeChar('?', false), unlimited());
    assert!(!eff.sync_value);
    let eff = handle_typing_action(&mut b, &mut s, &TypingAction::BackspaceRepeat, unlimited());
    assert!(eff.sync_value && !eff.ends_frame);
    assert_eq!(text(&b), "hello");
    let clearing = InputLimits { cap: 0, node_limit: None, clear_after_focus_lost: true };
    let eff = handle_typing_action(&mut b, &mut s, &TypingAction::Enter, clearing);
    assert!(eff.lose_focus && eff.sync_value);
    assert_eq!(text(&b), "");
    // An already empty field that clears still has its value set to the text.
    let eff = handle_typing_action(&mut b, &mut s, &TypingAction::Enter, clearing);
    assert!(eff.lose_focus && eff.sync_value);
    let keeping = InputLimits { cap: 0, node_limit: None, clear_after_focus_lost: false };
    let eff = handle_typing_action(&mut b, &mut s, &TypingAction::Enter, keeping);
    assert!(eff.lose_focus && !eff.sync_value);
}

#[test]
fn frame_gate() {
    let mut u = UIWidgetState::default();
    let mut s = sel(1, 3);
    assert!(!begin_typing_frame(&mut u, &mut s, 2, false));
    u.focused = true;
    assert!(begin_typing_frame(&mut u, &mut s, 2, false));
    assert!(!begin_typing_frame(&mut u, &mut s, 2, true));
    assert_eq!(s, sel(2, 2));
    u.disabled = true;
    assert!(!begin_typing_frame(&mut u, &mut s, 2, false));
    assert!(!u.focused);
}

#[test]
fn cursor_movement_and_settling() {
    let mut b = buf("abc", 0);
    let mut s = sel(0, 0);
    move_left(&mut b, &mut s);
    assert_eq!(b.cursor_position, 0);
    move_right(&mut b, &mut s);
    move_right(&mut b, &mut s);
    move_right(&mut b, &mut s);
    move_right(&mut b, &mut s);
    assert_eq!(b.cursor_position, 3);
    assert_eq!(s, sel(3, 3));
    let mut b = buf("abc", 9);
    let mut s = sel(1, 1);
    settle_after_typing(&mut b, &mut s);
    assert_eq!(b.cursor_position, 3);
    assert_eq!(s, sel(9, 9));
    let mut s = sel(7, 8);
    let mut b = buf("abc", 9);
    clamp_to_text(&mut b, &mut s);
    assert_eq!((b.cursor_position, s.anchor, s.focus), (3, 3, 3));
}

#[test]
fn shown_text_and_spans() {
    assert_eq!(visible_text(&bytes(""), &bytes("Name"), true, false), bytes("Name"));
    assert_eq!(visible_text(&bytes(""), &bytes("Name"), false, false), bytes(""));
    assert_eq!(visible_text(&bytes("pw"), &bytes(""), true, true), bytes("**"));
    assert_eq!(visible_text(&bytes("ab"), &bytes(""), true, false), bytes("ab"));
    let mut u = UIWidgetState::default();
    u.focused = true;
    let (p, m, x) = text_spans(&bytes("hello"), &sel(1, 3), &u, 5);
    assert_eq!((p, m, x), (bytes("h"), bytes("el"), bytes("lo")));
    u.focused = false;
    let (p, m, x) = text_spans(&bytes("hello"), &sel(1, 3), &u, 5);
    assert_eq!((p, m, x), (bytes("hello"), bytes(""), bytes("")));
    assert!(!cursor_shown(&u, false));
    assert!(label_on_top(&u, 3));
    assert!(!label_on_top(&u, 0));
}

#[test]
fn pointer_on_a_field() {
    let mut u = UIWidgetState::default();
    let mut b = buf("hello", 0);
    let mut s = sel(0, 0);
    assert!(on_press(&mut u, &mut b, &mut s, false, Some(2)));
    assert!(u.focused);
    assert_eq!(s, InputSelection { anchor: 2, focus: 2, dragging: true });
    on_drag(&u, &mut b, &mut s, false, Some(4));
    assert_eq!(b.cursor_position, 4);
    assert_eq!(s, InputSelection { anchor: 2, focus: 4, dragging: true });
    on_release(&mut s);
    assert!(!s.dragging);
    assert_eq!(on_click(&mut u, true), (true, true));
    assert!(!u.focused);
    u.disabled = true;
    assert_eq!(on_click(&mut u, false), (false, false));
}

#[test]
fn file_inputs() {
    let exts = normalized_extensions(&vec![" .PNG ".to_string(), "..jpg".to_string(), " . ".to_string()]);
    assert_eq!(exts, vec!["png".to_string(), "jpg".to_string()]);
    let req = file_picker_request(false, &vec!["Txt".to_string()], true, Some(100));
    assert_eq!(req.extensions, vec!["txt".to_string()]);
    assert!(req.include_size);
    assert_eq!(file_pick_outcome(&req, Some(150)), FilePickOutcome::TooLarge(100));
    assert_eq!(file_pick_outcome(&req, Some(50)), FilePickOutcome::Picked(Some(50)));
    let folder = file_picker_request(true, &vec![], true, Some(100));
    assert!(!folder.include_size);
    assert_eq!(file_pick_outcome(&folder, Some(150)), FilePickOutcome::Picked(None));
    assert_eq!(file_size_to_show(true, true, Some(3)), Some(3));
    assert_eq!(file_size_to_show(false, true, Some(3)), None);
}

#[test]
fn picked_files_are_applied() {
    let mut b = buf("", 0);
    let mut value = String::new();
    let mut s = sel(0, 0);
    let mut fs = FileInputState { selected_size_bytes: None, error_message: None };
    let mut u = UIWidgetState::default();
    u.focused = true;
    let pending = PendingFileSelection {
        target: 1,
        display_name: "a.txt".to_string(),
        value: "/tmp/a.txt".to_string(),
        size_bytes: Some(12),
        error_message: None,
    };
    apply_file_selection(pending, &mut b, &mut value, &mut s, &mut fs, &mut u);
    assert_eq!(text(&b), "a.txt");
    assert_eq!(b.cursor_position, 5);
    assert_eq!(value, "/tmp/a.txt");
    assert_eq!(fs.selected_size_bytes, Some(12));
    assert!(!u.focused && !u.invalid);
    let failed = PendingFileSelection {
        target: 1,
        display_name: String::new(),
        value: String::new(),
        size_bytes: None,
        error_message: Some("too large".to_string()),
    };
    apply_file_selection(failed, &mut b, &mut value, &mut s, &mut fs, &mut u);
    assert!(u.invalid);
    assert_eq!(fs.error_message, Some("too large".to_string()));
    assert_eq!(text(&b), "a.txt");
    assert_eq!(file_error_text(&fs.error_message), Some("too large".to_string()));
    assert_eq!(file_error_text(&Some("  ".to_string())), None);
}

#[test]
fn field_changes_from_outside() {
    let mut b = buf("abc", 7);
    let mut s = sel(5, 1);
    let mut value = String::new();
    sync_after_field_change(&mut b, &mut s, &mut value, false);
    assert_eq!(value, "abc");
    assert_eq!((b.cursor_position, s.anchor, s.focus), (3, 3, 1));
    let mut kept = "path".to_string();
    sync_after_field_change(&mut b, &mut s, &mut kept, true);
    assert_eq!(kept, "path");
    assert_eq!(icon_to_show(Some("  icon.png ")), Some("icon.png".to_string()));
    assert_eq!(icon_to_show(Some("   ")), None);
}

#[test]
fn clipboard_fallback() {
    let mut c = ClipboardFallback::new();
    assert_eq!(c.text_for_paste(None), None);
    c.after_copy(false, "kept");
    assert_eq!(c.text_for_paste(None), Some("kept".to_string()));
    assert_eq!(c.text_for_paste(Some("system".to_string())), Some("system".to_string()));
    c.after_copy(true, "other");
    assert_eq!(c.text_for_paste(None), Some("kept".to_string()));
}

#[test]
fn positions_count_bytes_as_string_indices_do() {
    // A picked name puts the cursor after its last byte.
    let mut b = buf("", 0);
    let mut value = String::new();
    let mut s = sel(0, 0);
    let mut fs = FileInputState { selected_size_bytes: None, error_message: None };
    let mut u = UIWidgetState::default();
    let pending = PendingFileSelection {
        target: 1,
        display_name: "é.txt".to_string(),
        value: "/tmp/é.txt".to_string(),
        size_bytes: None,
        error_message: None,
    };
    apply_file_selection(pending, &mut b, &mut value, &mut s, &mut fs, &mut u);
    assert_eq!(b.cursor_position, 6);
    assert_eq!(s, sel(6, 6));
    // Typing inserts the character's bytes and moves the cursor one byte.
    let mut b = buf("a", 1);
    let mut s = sel(1, 1);
    assert!(type_char(&mut b, &mut s, 'é', 0, None));
    assert_eq!(text(&b), "aé");
    assert_eq!(b.cursor_position, 2);
    // Backspace removes the character starting one byte before the cursor.
    let mut b = buf("éa", 3);
    assert!(backspace(&mut b, &mut sel(3, 3)));
    assert_eq!(text(&b), "é");
    assert_eq!(b.cursor_position, 2);
    // A span that does not start on a character boundary copies nothing.
    let b = buf("éa", 0);
    assert_eq!(selected_text(&b, &sel(1, 3)), None);
    assert_eq!(selected_text(&b, &sel(0, 2)), Some(bytes("é")));
    // A password shows one star per character, and spans follow `str::get`.
    assert_eq!(visible_text(&bytes("éa"), &bytes(""), true, true), bytes("**"));
    let mut u = UIWidgetState::default();
    u.focused = true;
    let (p, m, x) = text_spans(&bytes("éa"), &sel(1, 2), &u, 3);
    assert_eq!((p, m, x), (bytes(""), bytes(""), bytes("a")));
}
