use extended_ui::scroll_layout::{
    body_scroll_axes, body_z_index, child_order, children_to_move, dialogs_to_lift, div_scroll_axes,
    first_body_z_index, is_dialog_overlay_node, route_body_wheel, route_div_wheel, scroll_plan, ScrollAxes,
    ScrollPlan, WheelRoute,
};

fn axes(y: bool, x: bool) -> ScrollAxes {
    ScrollAxes { y, x }
}

#[test]
fn dialog_overlays_are_found_by_tag_or_class() {
    assert!(is_dialog_overlay_node(Some(" Dialog "), None));
    assert!(is_dialog_overlay_node(Some("DIALOG-OVERLAY"), None));
    assert!(!is_dialog_overlay_node(Some("div"), None));
    let classes = vec!["panel".to_string(), "dialog-widget".to_string()];
    assert!(is_dialog_overlay_node(Some("div"), Some(&classes)));
    let other = vec!["panel".to_string(), "dialog".to_string()];
    assert!(!is_dialog_overlay_node(None, Some(&other)));
    assert!(!is_dialog_overlay_node(None, None));
}

#[test]
fn body_axes_combine_style_bars_and_content() {
    assert_eq!(body_scroll_axes(axes(false, false), false, false, None), axes(false, false));
    assert_eq!(body_scroll_axes(axes(false, false), true, false, None), axes(true, false));
    assert_eq!(body_scroll_axes(axes(true, false), false, false, Some(axes(false, true))), axes(true, true));
}

#[test]
fn div_axes_come_from_the_content_when_there_is_one() {
    assert_eq!(div_scroll_axes(axes(true, true), Some(axes(false, false))), axes(false, false));
    assert_eq!(div_scroll_axes(axes(true, false), None), axes(true, false));
}

#[test]
fn scroll_plan_creates_only_what_is_missing() {
    assert_eq!(
        scroll_plan(axes(false, false), false, false, false),
        ScrollPlan { active: false, create_content: false, create_bar_y: false, create_bar_x: false }
    );
    assert_eq!(
        scroll_plan(axes(true, false), false, false, false),
        ScrollPlan { active: true, create_content: true, create_bar_y: true, create_bar_x: false }
    );
    assert_eq!(
        scroll_plan(axes(true, true), true, true, false),
        ScrollPlan { active: true, create_content: false, create_bar_y: false, create_bar_x: true }
    );
    assert_eq!(
        scroll_plan(axes(false, false), true, false, false),
        ScrollPlan { active: true, create_content: false, create_bar_y: false, create_bar_x: false }
    );
}

#[test]
fn children_move_into_content_except_parts_and_dialogs() {
    let children = vec![(1, false), (2, false), (3, true), (4, false), (5, false)];
    assert_eq!(children_to_move(&children, 1, Some(4), None, true), vec![2, 5]);
    assert_eq!(children_to_move(&children, 1, Some(4), None, false), vec![2, 3, 5]);
}

#[test]
fn dialogs_in_content_are_lifted_in_order() {
    let content = vec![(7, true), (8, false), (9, true)];
    assert_eq!(dialogs_to_lift(&content), vec![7, 9]);
    assert_eq!(dialogs_to_lift(&vec![]), Vec::<u64>::new());
}

#[test]
fn child_order_puts_content_and_bars_first() {
    let children = vec![(5, false), (1, false), (6, true)];
    assert_eq!(child_order(&children, 1, Some(2), None, None, None, false), Some(vec![1, 2, 5, 6]));
    assert_eq!(child_order(&children, 1, None, None, None, None, true), Some(vec![1, 6]));
    let ordered = vec![(1, false), (2, false), (6, true)];
    assert_eq!(child_order(&ordered, 1, Some(2), None, Some(2), None, true), None);
}

#[test]
fn body_wheel_goes_to_last_then_first_body() {
    assert_eq!(route_body_wheel(true, false, false, Some(3), Some(4)), WheelRoute::Blocked);
    assert_eq!(route_body_wheel(false, false, true, Some(3), Some(4)), WheelRoute::Blocked);
    assert_eq!(route_body_wheel(false, false, false, Some(3), Some(4)), WheelRoute::Body(3));
    assert_eq!(route_body_wheel(false, false, false, None, Some(4)), WheelRoute::Body(4));
    assert_eq!(route_body_wheel(false, false, false, None, None), WheelRoute::Dropped);
}

#[test]
fn div_wheel_needs_a_shown_div() {
    assert_eq!(route_div_wheel(true, Some(3), Some(true)), WheelRoute::Dropped);
    assert_eq!(route_div_wheel(false, None, None), WheelRoute::Dropped);
    assert_eq!(route_div_wheel(false, Some(3), Some(true)), WheelRoute::Body(3));
    assert_eq!(route_div_wheel(false, Some(3), Some(false)), WheelRoute::Blocked);
    assert_eq!(route_div_wheel(false, Some(3), None), WheelRoute::Blocked);
}

#[test]
fn first_body_z_index_is_above_every_existing_one() {
    assert_eq!(first_body_z_index(&vec![]), 0);
    assert_eq!(first_body_z_index(&vec![3, -2, 7, 1]), 8);
    assert_eq!(first_body_z_index(&vec![-5]), -4);
}

#[test]
fn registered_bodies_take_increasing_z_indices() {
    let names = vec!["home".to_string(), "settings".to_string()];
    let mut next = 10;
    assert_eq!(body_z_index("home", Some(&names), &mut next), 10);
    assert_eq!(next, 11);
    assert_eq!(body_z_index("settings", Some(&names), &mut next), 11);
    assert_eq!(next, 12);
    assert_eq!(body_z_index("other", Some(&names), &mut next), 0);
    assert_eq!(body_z_index("", Some(&names), &mut next), 0);
    assert_eq!(body_z_index("home", None, &mut next), 0);
    assert_eq!(next, 12);
}

// The wheel scenarios of a body: the library routes the wheel; the pixel
// arithmetic (25 px per line, clamped to the scroll range) is written out
// here in floating point, as the host does it.

const BODY: u64 = 1;

fn max_scroll(viewport_h: f32, content_h: f32) -> f32 {
    let viewport = viewport_h.max(1.0);
    let content = content_h.max(viewport);
    (content - viewport).max(0.0)
}

fn scrolls(viewport_h: f32, content_h: f32) -> bool {
    max_scroll(viewport_h, content_h) > 0.5
}

fn body_position_after_wheel(route: WheelRoute, lines: f32, viewport_h: f32, content_h: f32) -> f32 {
    match route {
        WheelRoute::Body(_) => (0.0 - lines * 25.0).clamp(0.0, max_scroll(viewport_h, content_h)),
        _ => 0.0,
    }
}

#[test]
fn body_wheel_scroll_moves_body_content_when_no_div_is_hovered() {
    let route = route_body_wheel(false, false, false, Some(BODY), Some(BODY));
    assert_eq!(route, WheelRoute::Body(BODY));
    assert_eq!(body_position_after_wheel(route, -1.0, 100.0, 300.0), 25.0);
}

#[test]
fn body_wheel_scroll_is_blocked_by_hovered_scrollable_div() {
    let route = route_body_wheel(scrolls(120.0, 260.0), false, false, Some(BODY), Some(BODY));
    assert_eq!(route, WheelRoute::Blocked);
    assert_eq!(body_position_after_wheel(route, -2.0, 100.0, 300.0), 0.0);
}

#[test]
fn body_wheel_scroll_ignores_hovered_div_without_scroll_range() {
    let route = route_body_wheel(scrolls(160.0, 160.0), false, false, Some(BODY), Some(BODY));
    assert_eq!(route, WheelRoute::Body(BODY));
    assert_eq!(body_position_after_wheel(route, -1.0, 100.0, 300.0), 25.0);
}

#[test]
fn ensure_body_scroll_structure_creates_content_and_vertical_scrollbar() {
    // A body styled to scroll vertically (overflow-y: scroll, overflow-x: hidden),
    // with no content root and no scrollbar yet.
    let own = axes(true, false);
    let wanted = body_scroll_axes(own, false, false, None);
    assert_eq!(wanted, axes(true, false));
    let plan = scroll_plan(wanted, false, false, false);
    assert!(plan.active);
    assert!(plan.create_content);
    assert!(plan.create_bar_y);
    assert!(!plan.create_bar_x);
    // The new content root (20) and scrollbar (21) lead the body's children.
    let children = vec![(5, false)];
    assert_eq!(children_to_move(&children, 20, Some(21), None, true), vec![5]);
    assert_eq!(child_order(&vec![(20, false), (21, false)], 20, Some(21), None, Some(21), None, true), None);
}

#[test]
fn body_wheel_scroll_is_blocked_by_hovered_scrollable_choice_overlay() {
    let route = route_body_wheel(false, scrolls(90.0, 240.0), false, Some(BODY), Some(BODY));
    assert_eq!(route, WheelRoute::Blocked);
    assert_eq!(body_position_after_wheel(route, -2.0, 100.0, 300.0), 0.0);
}

#[test]
fn body_wheel_scroll_is_blocked_by_visible_dialog_overlay() {
    let classes = vec!["dialog-overlay".to_string()];
    let dialog_shown = is_dialog_overlay_node(Some("dialog-overlay"), Some(&classes));
    let route = route_body_wheel(false, false, dialog_shown, Some(BODY), Some(BODY));
    assert_eq!(route, WheelRoute::Blocked);
    assert_eq!(body_position_after_wheel(route, -2.0, 100.0, 300.0), 0.0);
}

#[test]
fn a_second_setup_creates_nothing() {
    let own = axes(true, true);
    let first = body_scroll_axes(own, false, false, None);
    let plan = scroll_plan(first, false, false, false);
    assert!(plan.create_content && plan.create_bar_y && plan.create_bar_x);
    let again = body_scroll_axes(axes(false, false), true, true, Some(first));
    assert_eq!(again, first);
    assert_eq!(
        scroll_plan(again, true, true, true),
        ScrollPlan { active: true, create_content: false, create_bar_y: false, create_bar_x: false }
    );
    let settled = vec![(20, false), (21, false), (22, false), (30, true)];
    assert_eq!(children_to_move(&settled, 20, Some(21), Some(22), true), Vec::<u64>::new());
}

#[test]
fn unlisted_bodies_need_no_room_for_the_next_z_index() {
    let names = vec!["home".to_string()];
    let mut next = i32::MAX;
    assert_eq!(body_z_index("other", Some(&names), &mut next), 0);
    assert_eq!(next, i32::MAX);
}
