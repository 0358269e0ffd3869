use extended_ui::selection::{
    check_box_click, checked_indices, choice_box_click, choice_label_on_top, choice_list_shown,
    choice_option_click, list_box_option_click, lone_toggle_click, radio_pointer_over, scan_fieldset,
    switch_click, ChoiceValue, FieldKind, FieldMode, SelectionGroup,
};
use extended_ui::selector::{selector_matches_state_for_selection, selector_specificity_for_selection};
use extended_ui::widget_state::UIWidgetState;

fn states(checked: &[bool]) -> Vec<UIWidgetState> {
    checked
        .iter()
        .map(|c| {
            let mut s = UIWidgetState::default();
            s.checked = *c;
            s
        })
        .collect()
}

fn checked(g: &[UIWidgetState]) -> Vec<bool> {
    g.iter().map(|s| s.checked).collect()
}

fn group(mode: FieldMode, allow_none: bool, c: &[bool]) -> SelectionGroup {
    SelectionGroup { mode, allow_none, states: states(c), single: None, multi: Vec::new() }
}

#[test]
fn radio_clicks_keep_one_checked() {
    let mut g = group(FieldMode::Single, false, &[true, false, false]);
    g.single = Some(0);
    assert!(g.radio_click(2));
    assert_eq!(checked(&g.states), vec![false, false, true]);
    assert_eq!(g.single, Some(2));
    // Without allow-none a checked radio stays checked.
    assert!(g.radio_click(2));
    assert_eq!(checked(&g.states), vec![false, false, true]);
    // With allow-none it is unchecked and leaves the selection.
    g.allow_none = true;
    assert!(g.radio_click(2));
    assert_eq!(checked(&g.states), vec![false, false, false]);
    assert_eq!(g.single, None);
}

#[test]
fn radios_ignore_disabled_members_and_multi_sets() {
    let mut g = group(FieldMode::Single, false, &[false, false]);
    g.states[1].disabled = true;
    assert!(!g.radio_click(1));
    assert_eq!(checked(&g.states), vec![false, false]);
    let mut m = group(FieldMode::Multi, false, &[false, false]);
    assert!(!m.radio_click(0));
    assert_eq!(checked(&m.states), vec![false, false]);
}

#[test]
fn toggles_in_a_multi_set_record_their_order() {
    let mut g = group(FieldMode::Multi, false, &[false, false, false]);
    g.toggle_click(2);
    g.toggle_click(0);
    assert_eq!(checked(&g.states), vec![true, false, true]);
    assert_eq!(g.multi, vec![2, 0]);
    assert_eq!(g.single, Some(0));
    g.toggle_click(2);
    assert_eq!(checked(&g.states), vec![true, false, false]);
    assert_eq!(g.multi, vec![0]);
    let mut counted = group(FieldMode::Count(2), false, &[false]);
    counted.toggle_click(0);
    assert_eq!(checked(&counted.states), vec![true]);
}

#[test]
fn toggles_in_a_single_set_act_as_radios() {
    let mut g = group(FieldMode::Single, true, &[true, false]);
    g.toggle_click(1);
    assert_eq!(checked(&g.states), vec![false, true]);
    assert_eq!(g.single, Some(1));
    g.toggle_click(1);
    assert_eq!(checked(&g.states), vec![false, false]);
    assert_eq!(g.single, None);
}

#[test]
fn first_checked_radio_becomes_the_selection() {
    let mut g = group(FieldMode::Single, false, &[false, true, true]);
    g.ensure_single_selection();
    assert_eq!(g.single, Some(1));
    let mut none = group(FieldMode::Single, false, &[false]);
    none.ensure_single_selection();
    assert_eq!(none.single, None);
}

#[test]
fn fieldset_contents() {
    let mut wm = false;
    let mut wu = false;
    let radios = scan_fieldset(&vec![(true, false), (true, false), (false, false)], &mut wm, &mut wu);
    assert_eq!(radios.kind, Some(FieldKind::Radio));
    assert_eq!(radios.hidden, vec![false, false, true]);
    assert!(!radios.warn_unsupported);
    let mixed = scan_fieldset(&vec![(true, false), (false, true)], &mut wm, &mut wu);
    assert_eq!(mixed.kind, None);
    assert_eq!(mixed.hidden, vec![true, true]);
    assert!(mixed.warn_mixed);
    let again = scan_fieldset(&vec![(true, false), (false, true)], &mut wm, &mut wu);
    assert!(!again.warn_mixed);
    let others = scan_fieldset(&vec![(false, false)], &mut wm, &mut wu);
    assert!(others.warn_unsupported);
    let toggles = scan_fieldset(&vec![(false, true)], &mut wm, &mut wu);
    assert_eq!(toggles.kind, Some(FieldKind::Toggle));
}

#[test]
fn list_box_values() {
    let mut opts = states(&[false, true, false]);
    assert_eq!(list_box_option_click(&mut opts, 2, true), vec![1, 2]);
    assert_eq!(list_box_option_click(&mut opts, 1, true), vec![2]);
    assert_eq!(list_box_option_click(&mut opts, 0, false), vec![0]);
    assert_eq!(checked(&opts), vec![true, false, false]);
    assert_eq!(checked_indices(&states(&[true, false, true])), vec![0, 2]);
}

#[test]
fn choice_box_options() {
    let mut opts = states(&[true, false]);
    opts[1].focused = true;
    let mut choice = UIWidgetState::default();
    choice.open = true;
    let mut value = ChoiceValue { text: "old".to_string(), icon_path: None };
    let picked = ChoiceValue { text: "B".to_string(), icon_path: Some("b.png".to_string()) };
    choice_option_click(&mut opts, 1, &picked, &mut choice, &mut value);
    assert_eq!(checked(&opts), vec![false, true]);
    assert_eq!(value.text, "B");
    assert_eq!(value.icon_path, Some("b.png".to_string()));
    assert!(!choice.open);
    assert!(opts[1].focused);
    let blank = ChoiceValue { text: String::new(), icon_path: None };
    choice_option_click(&mut opts, 1, &blank, &mut choice, &mut value);
    assert!(!opts[1].focused);
    assert!(!choice_label_on_top(&choice, &value));
    choice_box_click(&mut choice);
    assert!(choice.open && choice.focused);
    assert!(choice_list_shown(&mut choice));
    choice.focused = false;
    assert!(!choice_list_shown(&mut choice));
    assert!(!choice.open);
}

#[test]
fn stand_alone_switches() {
    let mut c = UIWidgetState::default();
    check_box_click(&mut c);
    assert!(c.checked && c.focused);
    let mut s = UIWidgetState::default();
    assert!(switch_click(&mut s));
    assert!(s.checked);
    s.disabled = true;
    assert!(!switch_click(&mut s));
    assert!(s.checked);
    let mut t = UIWidgetState::default();
    lone_toggle_click(&mut t);
    lone_toggle_click(&mut t);
    assert!(!t.checked);
    let mut r = UIWidgetState::default();
    r.disabled = true;
    radio_pointer_over(&mut r);
    assert!(!r.hovered);
}

#[test]
fn selection_selectors_match_states() {
    let mut st = UIWidgetState::default();
    assert!(selector_matches_state_for_selection("input::selection", &st));
    assert!(!selector_matches_state_for_selection("input:focus::selection", &st));
    st.focused = true;
    assert!(selector_matches_state_for_selection("input:focus::selection", &st));
    assert!(selector_matches_state_for_selection("div > input:focus::selection", &st));
    st.disabled = true;
    assert!(!selector_matches_state_for_selection("input:focus::selection", &st));
    assert!(selector_matches_state_for_selection("input:disabled::selection", &st));
    assert!(!selector_matches_state_for_selection("input:read-only::selection", &st));
}

#[test]
fn selection_selector_specificity() {
    assert_eq!(selector_specificity_for_selection("input::selection"), 1);
    assert_eq!(selector_specificity_for_selection("#name::selection"), 100);
    assert_eq!(selector_specificity_for_selection(".field:focus::selection"), 11);
    assert_eq!(selector_specificity_for_selection("div > .a:hover:focus::selection"), 13);
    assert_eq!(selector_specificity_for_selection("*::selection"), 0);
    assert_eq!(selector_specificity_for_selection(":hover"), 1);
    assert_eq!(selector_specificity_for_selection(""), 0);
}
