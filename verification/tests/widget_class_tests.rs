use extended_ui::widget_classes::{
    alignment_class, anchor_to_class, badge_state_classes, format_badge_label, is_trigger_active, merge_classes,
    opposite_side, owner_widget, preferred_side, set_alignment_class, side_to_nose_class, side_to_tooltip_class,
    target_by_for_id, tooltip_classes, untargeted_tooltip_classes, tooltip_should_show, BadgeAnchor, DividerAlignment, ToolTipAlignment,
    ToolTipPriority, ToolTipSide, ToolTipTrigger, ToolTipVariant, TriggerState,
};
use extended_ui::widget_state::UIWidgetState;

fn strings(v: &[&str]) -> Vec<String> {
    v.iter().map(|s| s.to_string()).collect()
}

#[test]
fn merged_classes_keep_base_order_and_skip_duplicates() {
    let base = strings(&["btn", "primary"]);
    let dynamic = strings(&["hover", "btn", "focus", "hover"]);
    assert_eq!(merge_classes(&base, &dynamic), strings(&["btn", "primary", "hover", "focus"]));
    assert_eq!(merge_classes(&vec![], &vec![]), Vec::<String>::new());
}

#[test]
fn badge_label_caps_at_max() {
    assert_eq!(format_badge_label(5, 99), "5");
    assert_eq!(format_badge_label(99, 99), "99");
    assert_eq!(format_badge_label(150, 99), "+99");
    assert_eq!(format_badge_label(0, 0), "0");
}

#[test]
fn badge_classes_follow_target_anchor_and_overflow() {
    assert_eq!(badge_state_classes(false, BadgeAnchor::TopLeft, 3, 9), strings(&["badge-closed"]));
    assert_eq!(
        badge_state_classes(true, BadgeAnchor::TopRight, 3, 9),
        strings(&["badge-open", "badge-anchor-top-right", "badge-normal"])
    );
    assert_eq!(
        badge_state_classes(true, BadgeAnchor::BottomLeft, 30, 9),
        strings(&["badge-open", "badge-anchor-bottom-left", "badge-overflow"])
    );
    assert_eq!(anchor_to_class(BadgeAnchor::BottomRight), "badge-anchor-bottom-right");
    assert_eq!(anchor_to_class(BadgeAnchor::TopLeft), "badge-anchor-top-left");
}

#[test]
fn divider_alignment_class_is_replaced() {
    assert_eq!(alignment_class(DividerAlignment::Vertical), "divider-vert");
    assert_eq!(alignment_class(DividerAlignment::Horizontal), "divider-hori");
    let mut classes = strings(&["divider", "divider-vert", "thin"]);
    set_alignment_class(&mut classes, DividerAlignment::Horizontal);
    assert_eq!(classes, strings(&["divider", "thin", "divider-hori"]));
    set_alignment_class(&mut classes, DividerAlignment::Horizontal);
    assert_eq!(classes, strings(&["divider", "thin", "divider-hori"]));
}

#[test]
fn owner_is_the_first_widget_before_a_body() {
    assert_eq!(owner_widget(&vec![(1, false, false), (2, false, true), (3, false, true)]), Some(2));
    assert_eq!(owner_widget(&vec![(1, false, false), (2, true, false), (3, false, true)]), None);
    assert_eq!(owner_widget(&vec![]), None);
}

#[test]
fn for_ids_name_their_target() {
    let ids = vec![(1u64, String::new()), (2, "name".to_string()), (3, "email".to_string())];
    assert_eq!(target_by_for_id(" #email ", &ids), Some(3));
    assert_eq!(target_by_for_id("name", &ids), Some(2));
    assert_eq!(target_by_for_id("", &ids), None);
    assert_eq!(target_by_for_id("phone", &ids), None);
}

#[test]
fn triggers_decide_activity() {
    assert!(is_trigger_active(&vec![], true, false, false));
    assert!(!is_trigger_active(&vec![], false, true, true));
    assert!(is_trigger_active(&vec![ToolTipTrigger::Click], false, true, false));
    assert!(!is_trigger_active(&vec![ToolTipTrigger::Click], true, false, true));
    assert!(is_trigger_active(&vec![ToolTipTrigger::Hover, ToolTipTrigger::Drag], false, false, true));
}

#[test]
fn tooltips_show_on_enabled_active_targets() {
    let hovered = UIWidgetState { hovered: true, ..Default::default() };
    let disabled = UIWidgetState { hovered: true, disabled: true, ..Default::default() };
    assert!(tooltip_should_show(Some(hovered.clone()), false, false, &vec![], ToolTipVariant::Point, false));
    assert!(!tooltip_should_show(Some(disabled), false, false, &vec![], ToolTipVariant::Point, true));
    assert!(!tooltip_should_show(Some(hovered.clone()), false, false, &vec![], ToolTipVariant::Follow, false));
    assert!(tooltip_should_show(Some(hovered), false, false, &vec![], ToolTipVariant::Follow, true));
    assert!(!tooltip_should_show(None, true, true, &vec![], ToolTipVariant::Point, true));
}

#[test]
fn tooltip_sides_and_classes() {
    assert_eq!(preferred_side(ToolTipAlignment::Horizontal, ToolTipPriority::Left), ToolTipSide::Left);
    assert_eq!(preferred_side(ToolTipAlignment::Horizontal, ToolTipPriority::Top), ToolTipSide::Right);
    assert_eq!(preferred_side(ToolTipAlignment::Vertical, ToolTipPriority::Bottom), ToolTipSide::Bottom);
    assert_eq!(preferred_side(ToolTipAlignment::Vertical, ToolTipPriority::Left), ToolTipSide::Top);
    assert_eq!(opposite_side(ToolTipSide::Top), ToolTipSide::Bottom);
    assert_eq!(opposite_side(ToolTipSide::Left), ToolTipSide::Right);
    assert_eq!(side_to_tooltip_class(ToolTipSide::Bottom), "tooltip-side-bottom");
    assert_eq!(side_to_nose_class(ToolTipSide::Right), "tooltip-nose-side-right");
    let (classes, nose, nose_classes) = tooltip_classes(ToolTipVariant::Point, Some(ToolTipSide::Top));
    assert_eq!(classes, strings(&["tooltip-open", "tooltip-point", "tooltip-side-top"]));
    assert!(nose);
    assert_eq!(nose_classes, strings(&["tooltip-nose-open", "tooltip-nose-side-top"]));
    let (classes, nose, nose_classes) = tooltip_classes(ToolTipVariant::Follow, None);
    assert_eq!(classes, strings(&["tooltip-closed", "tooltip-follow"]));
    assert!(!nose);
    assert_eq!(nose_classes, strings(&["tooltip-nose-closed"]));
}

#[test]
fn clicks_toggle_a_single_widget() {
    let mut t = TriggerState::new();
    t.click(Some(1));
    assert!(t.clicked.contains(&1) && t.clicked.len() == 1);
    t.click(Some(2));
    assert!(t.clicked.contains(&2) && t.clicked.len() == 1);
    t.click(Some(2));
    assert!(t.clicked.is_empty());
    t.click(Some(3));
    t.click(None);
    assert!(t.clicked.is_empty());
    t.drag_start(Some(4));
    assert!(t.dragging.contains(&4));
    t.drag_end(Some(4));
    assert!(t.dragging.is_empty());
}

#[test]
fn tooltips_without_target_are_only_closed() {
    assert_eq!(untargeted_tooltip_classes(), strings(&["tooltip-closed"]));
}
