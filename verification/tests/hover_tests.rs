use extended_ui::hover::{owner_body, BodyLink, HoverTracker};

#[test]
fn entering_counts_nodes_and_takes_the_wheel() {
    let mut t = HoverTracker::new();
    assert!(t.counts.is_empty());
    assert_eq!(t.last, None);
    t.enter(1);
    t.enter(1);
    t.enter(2);
    assert_eq!(t.counts.get(&1), Some(&2));
    assert_eq!(t.counts.get(&2), Some(&1));
    assert_eq!(t.last, Some(2));
}

#[test]
fn leaving_ends_hover_only_at_the_last_node() {
    let mut t = HoverTracker::new();
    t.enter(1);
    t.enter(1);
    assert!(!t.leave(1));
    assert_eq!(t.counts.get(&1), Some(&1));
    assert!(t.leave(1));
    assert!(t.counts.is_empty());
    assert_eq!(t.last, None);
    assert!(!t.leave(1));
}

#[test]
fn wheel_moves_to_another_hovered_widget() {
    let mut t = HoverTracker::new();
    t.enter(1);
    t.enter(2);
    assert!(t.leave(2));
    assert_eq!(t.last, Some(1));
    t.enter(2);
    assert!(t.leave(1));
    assert_eq!(t.last, Some(2));
}

#[test]
fn nested_divs_send_the_wheel_to_the_innermost_scrolling_one() {
    let mut t = HoverTracker::new();
    t.enter_nested(5, false, &vec![(6, false), (7, true), (8, true)]);
    assert_eq!(t.last, Some(7));
    for id in [5u64, 6, 7, 8] {
        assert_eq!(t.counts.get(&id), Some(&1));
    }
    let mut u = HoverTracker::new();
    u.enter_nested(5, true, &vec![(6, true)]);
    assert_eq!(u.last, Some(5));
    let mut w = HoverTracker::new();
    w.enter_nested(5, false, &vec![(6, false)]);
    assert_eq!(w.last, Some(5));
}

#[test]
fn leaving_nested_divs_reports_those_no_longer_hovered() {
    let mut t = HoverTracker::new();
    t.enter_nested(5, false, &vec![(6, true)]);
    t.enter_nested(9, false, &vec![(6, true)]);
    assert_eq!(t.counts.get(&6), Some(&2));
    assert_eq!(t.leave_nested(5, &vec![6]), vec![5]);
    assert_eq!(t.counts.get(&6), Some(&1));
    assert_eq!(t.leave_nested(9, &vec![6]), vec![9, 6]);
    assert!(t.counts.is_empty());
}

#[test]
fn entering_then_leaving_restores_the_counts() {
    let mut t = HoverTracker::new();
    t.enter(1);
    let before = t.counts.clone();
    t.enter(2);
    assert!(t.leave(2));
    assert_eq!(t.counts, before);
}

fn link(entity: u64) -> BodyLink {
    BodyLink { entity, scrollbar_owner: None, is_body: false, is_scroll_content: false, content_owner: None }
}

#[test]
fn nodes_belong_to_the_nearest_body() {
    let text = link(1);
    let content = BodyLink { is_scroll_content: true, content_owner: Some(9), ..link(2) };
    let body = BodyLink { is_body: true, ..link(9) };
    assert_eq!(owner_body(&vec![text, content, body]), Some(9));
    let bar = BodyLink { scrollbar_owner: Some(7), ..link(3) };
    assert_eq!(owner_body(&vec![bar, body]), Some(7));
    assert_eq!(owner_body(&vec![text, body]), Some(9));
    let orphan = BodyLink { is_scroll_content: true, ..link(4) };
    assert_eq!(owner_body(&vec![text, orphan]), None);
    assert_eq!(owner_body(&vec![]), None);
}

#[test]
fn entering_k_times_then_leaving_k_times_ends_the_hover() {
    let mut t = HoverTracker::new();
    for _ in 0..3 {
        t.enter(4);
    }
    assert_eq!(t.counts.get(&4), Some(&3));
    assert!(!t.leave(4));
    assert!(!t.leave(4));
    assert_eq!(t.last, Some(4));
    assert!(t.leave(4));
    assert!(t.counts.is_empty());
    assert_eq!(t.last, None);
}
