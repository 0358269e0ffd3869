use extended_ui::widget_state::UIGenIDGenerator;
use extended_ui::selector::{selector_matches_state_for_selection, selector_specificity_for_selection};
use extended_ui::widget_state::{CurrentWidgetState, HtmlStyle, UIGenID, UIWidgetState};

fn decls(style: &HtmlStyle) -> Vec<(String, String)> {
    style.0.iter().map(|d| (d.name.clone(), d.value.clone())).collect()
}

#[test]
fn gen_ids_keep_their_number() {
    assert_eq!(UIGenID::new(42).get(), 42);
    assert_eq!(UIGenID::new(1), UIGenID::new(1));
    assert_ne!(UIGenID::new(1), UIGenID::new(2));
}

#[test]
fn default_states_are_cleared() {
    let s = UIWidgetState::default();
    assert!(!s.focused && !s.hovered && !s.disabled && !s.readonly && !s.checked && !s.open && !s.invalid);
    assert_eq!(CurrentWidgetState::default().widget_id, 0);
}

#[test]
fn inline_style_is_read_into_declarations() {
    let style = HtmlStyle::from_str("display: flex; justify-content: center;");
    assert_eq!(
        decls(&style),
        vec![("display".to_string(), "flex".to_string()), ("justify-content".to_string(), "center".to_string())]
    );
}

#[test]
fn inline_style_skips_empty_and_malformed_pieces() {
    let style = HtmlStyle::from_str(" ; width 10px;;nocolon; color :red ");
    assert_eq!(
        decls(&style),
        vec![("width".to_string(), "10px".to_string()), ("color".to_string(), "red".to_string())]
    );
    assert!(HtmlStyle::from_str("").0.is_empty());
}

#[test]
fn selection_selectors_check_each_pseudo_class() {
    let focused = UIWidgetState { focused: true, ..Default::default() };
    let disabled_focused = UIWidgetState { focused: true, disabled: true, ..Default::default() };
    assert!(selector_matches_state_for_selection("input:focus::selection", &focused));
    assert!(!selector_matches_state_for_selection("input:focus::selection", &disabled_focused));
    assert!(selector_matches_state_for_selection("input::selection", &UIWidgetState::default()));
    assert!(!selector_matches_state_for_selection("div>input:read-only", &focused));
    assert!(selector_matches_state_for_selection("*:disabled", &disabled_focused));
    assert!(selector_matches_state_for_selection("input:custom", &UIWidgetState::default()));
}

#[test]
fn specificity_sums_compound_selectors() {
    assert_eq!(selector_specificity_for_selection("input:hover::selection"), 2);
    assert_eq!(selector_specificity_for_selection("#a .b:focus"), 111);
    assert_eq!(selector_specificity_for_selection("div>span"), 2);
    assert_eq!(selector_specificity_for_selection("*::selection"), 0);
    assert_eq!(selector_specificity_for_selection(""), 0);
}

#[test]
fn generated_ids_are_distinct() {
    let mut g = UIGenIDGenerator::new();
    let a = g.fresh();
    let b = g.fresh();
    assert_eq!((a.get(), b.get()), (1, 2));
    assert_ne!(a, b);
}
