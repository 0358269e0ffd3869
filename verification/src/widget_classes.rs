//! The state classes of badges, dividers and tooltips, the badge label,
//! when a tooltip shows, which side it takes, and which widget a badge or a
//! tooltip belongs to.

use vstd::prelude::*;

use std::collections::HashSet;

use crate::input_edit::spec_string_views;
use crate::text::{
    chars_eq_str, chars_of, extend_with_str, push_padded, spec_digits, spec_trim, string_from_chars,
    trimmed_chars,
};
use crate::widget_state::UIWidgetState;

verus! {

broadcast use vstd::std_specs::hash::group_hash_axioms;

// ------------------------------------------------------------------
// Class lists
// ------------------------------------------------------------------

/// The base classes followed by each state class not already present.
pub open spec fn spec_merge_classes(base: Seq<Seq<char>>, dynamic: Seq<Seq<char>>) -> Seq<Seq<char>>
    decreases dynamic.len(),
{
    if dynamic.len() == 0 {
        base
    } else {
        let r = spec_merge_classes(base, dynamic.drop_last());
        if r.contains(dynamic.last()) {
            r
        } else {
            r.push(dynamic.last())
        }
    }
}

/// The class list of a widget: its base classes, then each of the state
/// classes `dynamic` that is not already there.
pub fn merge_classes(base: &Vec<String>, dynamic: &Vec<String>) -> (r: Vec<String>)
    ensures
        spec_string_views(r@) == spec_merge_classes(spec_string_views(base@), spec_string_views(dynamic@)),
{
    let mut r: Vec<String> = Vec::new();
    let mut k: usize = 0;
    while k < base.len()
        invariant
            k <= base@.len(),
            spec_string_views(r@) == spec_string_views(base@.subrange(0, k as int)),
        decreases base@.len() - k,
    {
        let ghost before = spec_string_views(r@);
        let item = base[k].clone();
        assert(item == base@[k as int]);
        r.push(item);
        assert(spec_string_views(r@) =~= before.push(base@[k as int]@));
        assert(spec_string_views(base@.subrange(0, k + 1)) =~= spec_string_views(base@.subrange(0, k as int)).push(base@[k as int]@));
        k += 1;
    }
    assert(base@.subrange(0, base@.len() as int) =~= base@);
    let mut d: usize = 0;
    while d < dynamic.len()
        invariant
            d <= dynamic@.len(),
            spec_string_views(r@) == spec_merge_classes(
                spec_string_views(base@),
                spec_string_views(dynamic@.subrange(0, d as int)),
            ),
        decreases dynamic@.len() - d,
    {
        let ghost views = spec_string_views(r@);
        let c = chars_of(dynamic[d].as_str());
        proof {
            let nxt = spec_string_views(dynamic@.subrange(0, d + 1));
            assert(nxt.drop_last() =~= spec_string_views(dynamic@.subrange(0, d as int)));
            assert(nxt.last() == c@);
        }
        let mut present = false;
        let mut j: usize = 0;
        while j < r.len()
            invariant
                j <= r@.len(),
                views == spec_string_views(r@),
                present == exists|i: int| 0 <= i < j && views[i] == c@,
            decreases r@.len() - j,
        {
            if chars_eq_str(&c, r[j].as_str()) {
                present = true;
            }
            proof {
                if present && !(exists|i: int| 0 <= i < j && views[i] == c@) {
                    assert(views[j as int] == c@);
                }
                if (exists|i: int| 0 <= i < j + 1 && views[i] == c@) && !(exists|i: int| 0 <= i < j && views[i] == c@) {
                    assert(views[j as int] == c@);
                }
            }
            j += 1;
        }
        proof {
            assert(present == views.contains(c@));
        }
        if !present {
            r.push(dynamic[d].clone());
            assert(spec_string_views(r@) =~= views.push(c@));
        }
        d += 1;
    }
    assert(dynamic@.subrange(0, dynamic@.len() as int) =~= dynamic@);
    r
}

// ------------------------------------------------------------------
// Badge
// ------------------------------------------------------------------

/// The corner a badge sits on.
#[derive(Clone, Copy, Debug, PartialEq, Eq, Structural)]
pub enum BadgeAnchor {
    TopLeft,
    TopRight,
    BottomLeft,
    BottomRight,
}

/// A badge's label: its value, or `+max` when the value exceeds the
/// maximum.
pub open spec fn spec_badge_label(value: u32, max: u32) -> Seq<char> {
    if value > max {
        "+"@ + spec_digits(max as nat)
    } else {
        spec_digits(value as nat)
    }
}

/// A badge's label.
pub fn format_badge_label(value: u32, max: u32) -> (r: String)
    ensures
        r@ == spec_badge_label(value, max),
{
    let mut out: Vec<char> = Vec::new();
    if value > max {
        extend_with_str(&mut out, "+");
        push_padded(&mut out, max as i64, 0);
    } else {
        push_padded(&mut out, value as i64, 0);
    }
    string_from_chars(&out)
}

/// The class of a badge's corner.
pub open spec fn spec_anchor_class(anchor: BadgeAnchor) -> Seq<char> {
    match anchor {
        BadgeAnchor::TopLeft => "badge-anchor-top-left"@,
        BadgeAnchor::TopRight => "badge-anchor-top-right"@,
        BadgeAnchor::BottomLeft => "badge-anchor-bottom-left"@,
        BadgeAnchor::BottomRight => "badge-anchor-bottom-right"@,
    }
}

/// The class of a badge's corner.
pub fn anchor_to_class(anchor: BadgeAnchor) -> (r: &'static str)
    ensures
        r@ == spec_anchor_class(anchor),
{
    match anchor {
        BadgeAnchor::TopLeft => "badge-anchor-top-left",
        BadgeAnchor::TopRight => "badge-anchor-top-right",
        BadgeAnchor::BottomLeft => "badge-anchor-bottom-left",
        BadgeAnchor::BottomRight => "badge-anchor-bottom-right",
    }
}

/// The state classes of a badge: closed without a target; otherwise open,
/// its corner, and whether its value overflows the maximum.
pub open spec fn spec_badge_state_classes(has_target: bool, anchor: BadgeAnchor, value: u32, max: u32) -> Seq<
    Seq<char>,
> {
    if !has_target {
        seq!["badge-closed"@]
    } else {
        seq![
            "badge-open"@,
            spec_anchor_class(anchor),
            if value > max {
                "badge-overflow"@
            } else {
                "badge-normal"@
            },
        ]
    }
}

/// The state classes of a badge.
pub fn badge_state_classes(has_target: bool, anchor: BadgeAnchor, value: u32, max: u32) -> (r: Vec<
    String,
>)
    ensures
        spec_string_views(r@) == spec_badge_state_classes(has_target, anchor, value, max),
{
    let mut r: Vec<String> = Vec::new();
    if !has_target {
        r.push("badge-closed".to_owned());
    } else {
        r.push("badge-open".to_owned());
        r.push(anchor_to_class(anchor).to_owned());
        if value > max {
            r.push("badge-overflow".to_owned());
        } else {
            r.push("badge-normal".to_owned());
        }
    }
    assert(spec_string_views(r@) =~= spec_badge_state_classes(has_target, anchor, value, max));
    r
}

// ------------------------------------------------------------------
// Divider
// ------------------------------------------------------------------

/// How a divider runs.
#[derive(Clone, Copy, Debug, PartialEq, Eq, Structural)]
pub enum DividerAlignment {
    Vertical,
    Horizontal,
}

/// The class of a divider's alignment.
pub open spec fn spec_alignment_class(a: DividerAlignment) -> Seq<char> {
    match a {
        DividerAlignment::Vertical => "divider-vert"@,
        DividerAlignment::Horizontal => "divider-hori"@,
    }
}

/// The class of a divider's alignment.
pub fn alignment_class(a: DividerAlignment) -> (r: &'static str)
    ensures
        r@ == spec_alignment_class(a),
{
    match a {
        DividerAlignment::Vertical => "divider-vert",
        DividerAlignment::Horizontal => "divider-hori",
    }
}

/// `classes` without any alignment class, in order.
pub open spec fn spec_without_alignment(classes: Seq<Seq<char>>) -> Seq<Seq<char>>
    decreases classes.len(),
{
    if classes.len() == 0 {
        Seq::empty()
    } else {
        let r = spec_without_alignment(classes.drop_last());
        let c = classes.last();
        if c == "divider-vert"@ || c == "divider-hori"@ {
            r
        } else {
            r.push(c)
        }
    }
}

/// Replaces the alignment class of a divider's class list: any alignment
/// class goes, and the one of `a` is appended.
pub fn set_alignment_class(classes: &mut Vec<String>, a: DividerAlignment)
    ensures
        spec_string_views(final(classes)@) == spec_without_alignment(spec_string_views(old(classes)@)).push(
            spec_alignment_class(a),
        ),
{
    let mut r: Vec<String> = Vec::new();
    let mut k: usize = 0;
    while k < classes.len()
        invariant
            k <= classes@.len(),
            spec_string_views(r@) == spec_without_alignment(spec_string_views(classes@.subrange(0, k as int))),
        decreases classes@.len() - k,
    {
        let c = chars_of(classes[k].as_str());
        proof {
            let nxt = spec_string_views(classes@.subrange(0, k + 1));
            assert(nxt.drop_last() =~= spec_string_views(classes@.subrange(0, k as int)));
            assert(nxt.last() == c@);
        }
        if !(chars_eq_str(&c, "divider-vert") || chars_eq_str(&c, "divider-hori")) {
            let ghost before = spec_string_views(r@);
            r.push(classes[k].clone());
            assert(spec_string_views(r@) =~= before.push(c@));
        }
        k += 1;
    }
    assert(classes@.subrange(0, classes@.len() as int) =~= classes@);
    let ghost before = spec_string_views(r@);
    r.push(alignment_class(a).to_owned());
    assert(spec_string_views(r@) =~= before.push(spec_alignment_class(a)));
    *classes = r;
}

// ------------------------------------------------------------------
// Owners and targets
// ------------------------------------------------------------------

/// The widget a node belongs to, given the node and its ancestors in order
/// as `(entity, is_body, is_widget)`: the first that is a widget, unless a
/// body comes first.
pub open spec fn spec_owner(chain: Seq<(u64, bool, bool)>) -> Option<u64>
    decreases chain.len(),
{
    if chain.len() == 0 {
        None
    } else if chain[0].1 {
        None
    } else if chain[0].2 {
        Some(chain[0].0)
    } else {
        spec_owner(chain.drop_first())
    }
}

/// The widget a node belongs to.
pub fn owner_widget(chain: &Vec<(u64, bool, bool)>) -> (r: Option<u64>)
    ensures
        r == spec_owner(chain@),
{
    let mut k: usize = 0;
    assert(chain@.subrange(0, chain@.len() as int) =~= chain@);
    while k < chain.len()
        invariant
            k <= chain@.len(),
            spec_owner(chain@) == spec_owner(chain@.subrange(k as int, chain@.len() as int)),
        decreases chain@.len() - k,
    {
        let (e, is_body, is_widget) = chain[k];
        let ghost rest = chain@.subrange(k as int, chain@.len() as int);
        assert(rest[0] == (e, is_body, is_widget));
        if is_body {
            return None;
        }
        if is_widget {
            return Some(e);
        }
        assert(rest.drop_first() =~= chain@.subrange(k + 1, chain@.len() as int));
        k += 1;
    }
    None
}

/// The id a `for` attribute names: trimmed, without leading `#`.
pub open spec fn spec_for_id(for_id: Seq<char>) -> Seq<char> {
    crate::browser::spec_strip_start(spec_trim(for_id), '#')
}

/// The node with a given non-empty id: the first in `ids` (given as
/// `(entity, id)`) whose id is the one named.
pub open spec fn spec_find_by_id(ids: Seq<(u64, Seq<char>)>, wanted: Seq<char>) -> Option<u64>
    decreases ids.len(),
{
    if ids.len() == 0 {
        None
    } else if ids[0].1.len() > 0 && ids[0].1 == wanted {
        Some(ids[0].0)
    } else {
        spec_find_by_id(ids.drop_first(), wanted)
    }
}

/// The view of a list of `(entity, id)` pairs.
pub open spec fn spec_id_views(ids: Seq<(u64, String)>) -> Seq<(u64, Seq<char>)> {
    ids.map_values(|p: (u64, String)| (p.0, p.1@))
}

/// The node a `for` attribute points to.
pub fn target_by_for_id(for_id: &str, ids: &Vec<(u64, String)>) -> (r: Option<u64>)
    ensures
        r == spec_find_by_id(spec_id_views(ids@), spec_for_id(for_id@)),
{
    let t = trimmed_chars(for_id);
    let mut s: usize = 0;
    let n = t.len();
    assert(t@.subrange(0, n as int) =~= t@);
    while s < n && t[s] == '#'
        invariant
            s <= n,
            n == t@.len(),
            crate::browser::spec_strip_start(t@, '#') == crate::browser::spec_strip_start(
                t@.subrange(s as int, n as int),
                '#',
            ),
        decreases n - s,
    {
        assert(t@.subrange(s as int, n as int).drop_first() =~= t@.subrange(s + 1, n as int));
        s += 1;
    }
    let wanted = crate::text::slice_chars(&t, s, n);
    let ghost views = spec_id_views(ids@);
    let mut k: usize = 0;
    assert(views.subrange(0, views.len() as int) =~= views);
    while k < ids.len()
        invariant
            k <= ids@.len(),
            views == spec_id_views(ids@),
            wanted@ == spec_for_id(for_id@),
            spec_find_by_id(views, wanted@) == spec_find_by_id(views.subrange(k as int, views.len() as int), wanted@),
        decreases ids@.len() - k,
    {
        let (e, id) = (ids[k].0, chars_of(ids[k].1.as_str()));
        let ghost rest = views.subrange(k as int, views.len() as int);
        assert(rest[0] == (e, id@));
        if id.len() > 0 && crate::text::chars_eq(&id, &wanted) {
            return Some(e);
        }
        assert(rest.drop_first() =~= views.subrange(k + 1, views.len() as int));
        k += 1;
    }
    None
}

// ------------------------------------------------------------------
// Tooltip
// ------------------------------------------------------------------

/// What shows a tooltip.
#[derive(Clone, Copy, Debug, PartialEq, Eq, Structural)]
pub enum ToolTipTrigger {
    Hover,
    Click,
    Drag,
}

/// Whether a tooltip sits beside or above/below its target.
#[derive(Clone, Copy, Debug, PartialEq, Eq, Structural)]
pub enum ToolTipAlignment {
    Horizontal,
    Vertical,
}

/// The side a tooltip prefers.
#[derive(Clone, Copy, Debug, PartialEq, Eq, Structural)]
pub enum ToolTipPriority {
    Left,
    Right,
    Top,
    Bottom,
}

/// Whether a tooltip follows the pointer or points at its target.
#[derive(Clone, Copy, Debug, PartialEq, Eq, Structural)]
pub enum ToolTipVariant {
    Follow,
    Point,
}

/// The side of its target a tooltip takes.
#[derive(Clone, Copy, Debug, PartialEq, Eq, Structural)]
pub enum ToolTipSide {
    Top,
    Bottom,
    Left,
    Right,
}

/// Whether any of a tooltip's triggers is active; without triggers it shows
/// on hover.
pub open spec fn spec_trigger_active(triggers: Seq<ToolTipTrigger>, hovered: bool, clicked: bool, dragging: bool) -> bool {
    if triggers.len() == 0 {
        hovered
    } else {
        exists|k: int| 0 <= k < triggers.len() && match #[trigger] triggers[k] {
            ToolTipTrigger::Hover => hovered,
            ToolTipTrigger::Click => clicked,
            ToolTipTrigger::Drag => dragging,
        }
    }
}

/// Whether any of a tooltip's triggers is active.
pub fn is_trigger_active(triggers: &Vec<ToolTipTrigger>, hovered: bool, clicked: bool, dragging: bool) -> (b:
    bool)
    ensures
        b == spec_trigger_active(triggers@, hovered, clicked, dragging),
{
    if triggers.len() == 0 {
        return hovered;
    }
    let mut k: usize = 0;
    while k < triggers.len()
        invariant
            k <= triggers@.len(),
            forall|j: int| 0 <= j < k ==> !match #[trigger] triggers@[j] {
                ToolTipTrigger::Hover => hovered,
                ToolTipTrigger::Click => clicked,
                ToolTipTrigger::Drag => dragging,
            },
        decreases triggers@.len() - k,
    {
        let on = match triggers[k] {
            ToolTipTrigger::Hover => hovered,
            ToolTipTrigger::Click => clicked,
            ToolTipTrigger::Drag => dragging,
        };
        if on {
            assert(match triggers@[k as int] {
                ToolTipTrigger::Hover => hovered,
                ToolTipTrigger::Click => clicked,
                ToolTipTrigger::Drag => dragging,
            });
            return true;
        }
        k += 1;
    }
    false
}

/// Whether a tooltip shows: it has a target with a state, a trigger is
/// active on it (hover, click and drag count only on an enabled target),
/// and a tooltip that follows the pointer knows where the pointer is.
pub fn tooltip_should_show(
    target_state: Option<UIWidgetState>,
    clicked: bool,
    dragging: bool,
    triggers: &Vec<ToolTipTrigger>,
    variant: ToolTipVariant,
    pointer_known: bool,
) -> (b: bool)
    ensures
        b == (match target_state {
            Some(st) => spec_trigger_active(
                triggers@,
                st.hovered && !st.disabled,
                clicked && !st.disabled,
                dragging && !st.disabled,
            ) && (variant != ToolTipVariant::Follow || pointer_known),
            None => false,
        }),
{
    match target_state {
        Some(st) => {
            let active = is_trigger_active(
                triggers,
                st.hovered && !st.disabled,
                clicked && !st.disabled,
                dragging && !st.disabled,
            );
            active && (variant != ToolTipVariant::Follow || pointer_known)
        },
        None => false,
    }
}

/// The side a tooltip prefers: left or right (right by default) beside its
/// target, top or bottom (top by default) above or below it.
pub fn preferred_side(alignment: ToolTipAlignment, prio: ToolTipPriority) -> (s: ToolTipSide)
    ensures
        s == (match alignment {
            ToolTipAlignment::Horizontal => if prio == ToolTipPriority::Left {
                ToolTipSide::Left
            } else {
                ToolTipSide::Right
            },
            ToolTipAlignment::Vertical => if prio == ToolTipPriority::Bottom {
                ToolTipSide::Bottom
            } else {
                ToolTipSide::Top
            },
        }),
{
    match alignment {
        ToolTipAlignment::Horizontal => match prio {
            ToolTipPriority::Left => ToolTipSide::Left,
            ToolTipPriority::Right => ToolTipSide::Right,
            _ => ToolTipSide::Right,
        },
        ToolTipAlignment::Vertical => match prio {
            ToolTipPriority::Bottom => ToolTipSide::Bottom,
            ToolTipPriority::Top => ToolTipSide::Top,
            _ => ToolTipSide::Top,
        },
    }
}

/// The opposite side.
pub open spec fn spec_opposite(side: ToolTipSide) -> ToolTipSide {
    match side {
        ToolTipSide::Top => ToolTipSide::Bottom,
        ToolTipSide::Bottom => ToolTipSide::Top,
        ToolTipSide::Left => ToolTipSide::Right,
        ToolTipSide::Right => ToolTipSide::Left,
    }
}

/// The opposite side.
pub fn opposite_side(side: ToolTipSide) -> (r: ToolTipSide)
    ensures
        r == spec_opposite(side),
{
    match side {
        ToolTipSide::Top => ToolTipSide::Bottom,
        ToolTipSide::Bottom => ToolTipSide::Top,
        ToolTipSide::Left => ToolTipSide::Right,
        ToolTipSide::Right => ToolTipSide::Left,
    }
}

/// The class of a tooltip on a side.
pub open spec fn spec_side_class(side: ToolTipSide) -> Seq<char> {
    match side {
        ToolTipSide::Top => "tooltip-side-top"@,
        ToolTipSide::Bottom => "tooltip-side-bottom"@,
        ToolTipSide::Left => "tooltip-side-left"@,
        ToolTipSide::Right => "tooltip-side-right"@,
    }
}

/// The class of a tooltip on a side.
pub fn side_to_tooltip_class(side: ToolTipSide) -> (r: &'static str)
    ensures
        r@ == spec_side_class(side),
{
    match side {
        ToolTipSide::Top => "tooltip-side-top",
        ToolTipSide::Bottom => "tooltip-side-bottom",
        ToolTipSide::Left => "tooltip-side-left",
        ToolTipSide::Right => "tooltip-side-right",
    }
}

/// The class of a tooltip's nose on a side.
pub open spec fn spec_nose_class(side: ToolTipSide) -> Seq<char> {
    match side {
        ToolTipSide::Top => "tooltip-nose-side-top"@,
        ToolTipSide::Bottom => "tooltip-nose-side-bottom"@,
        ToolTipSide::Left => "tooltip-nose-side-left"@,
        ToolTipSide::Right => "tooltip-nose-side-right"@,
    }
}

/// The class of a tooltip's nose on a side.
pub fn side_to_nose_class(side: ToolTipSide) -> (r: &'static str)
    ensures
        r@ == spec_nose_class(side),
{
    match side {
        ToolTipSide::Top => "tooltip-nose-side-top",
        ToolTipSide::Bottom => "tooltip-nose-side-bottom",
        ToolTipSide::Left => "tooltip-nose-side-left",
        ToolTipSide::Right => "tooltip-nose-side-right",
    }
}

/// The class of a tooltip's variant.
pub open spec fn spec_variant_class(variant: ToolTipVariant) -> Seq<char> {
    if variant == ToolTipVariant::Point {
        "tooltip-point"@
    } else {
        "tooltip-follow"@
    }
}

/// The state classes of a tooltip that has a target, and whether its nose
/// shows, with the nose's state classes: a shown tooltip is open on `side`
/// (`None`: hidden because no trigger is active); only a pointing tooltip
/// shows its nose.
pub open spec fn spec_tooltip_classes(variant: ToolTipVariant, side: Option<ToolTipSide>) -> (
    Seq<Seq<char>>,
    bool,
    Seq<Seq<char>>,
) {
    match side {
        Some(s) => (
            seq!["tooltip-open"@, spec_variant_class(variant), spec_side_class(s)],
            variant == ToolTipVariant::Point,
            if variant == ToolTipVariant::Point {
                seq!["tooltip-nose-open"@, spec_nose_class(s)]
            } else {
                seq!["tooltip-nose-closed"@]
            },
        ),
        None => (seq!["tooltip-closed"@, spec_variant_class(variant)], false, seq!["tooltip-nose-closed"@]),
    }
}

/// The state classes of a tooltip with a target shown on `side` (`None`:
/// hidden), whether its nose shows, and the nose's state classes.
pub fn tooltip_classes(variant: ToolTipVariant, side: Option<ToolTipSide>) -> (r: (Vec<String>, bool, Vec<
    String,
>))
    ensures
        ({
            let (c, n, nc) = spec_tooltip_classes(variant, side);
            spec_string_views(r.0@) == c && r.1 == n && spec_string_views(r.2@) == nc
        }),
{
    let mut classes: Vec<String> = Vec::new();
    let mut nose: Vec<String> = Vec::new();
    let variant_class = if variant == ToolTipVariant::Point {
        "tooltip-point"
    } else {
        "tooltip-follow"
    };
    let nose_shown = match side {
        Some(s) => {
            classes.push("tooltip-open".to_owned());
            classes.push(variant_class.to_owned());
            classes.push(side_to_tooltip_class(s).to_owned());
            if variant == ToolTipVariant::Point {
                nose.push("tooltip-nose-open".to_owned());
                nose.push(side_to_nose_class(s).to_owned());
                true
            } else {
                nose.push("tooltip-nose-closed".to_owned());
                false
            }
        },
        None => {
            classes.push("tooltip-closed".to_owned());
            classes.push(variant_class.to_owned());
            nose.push("tooltip-nose-closed".to_owned());
            false
        },
    };
    let ghost (c, n, nc) = spec_tooltip_classes(variant, side);
    assert(spec_string_views(classes@) =~= c);
    assert(spec_string_views(nose@) =~= nc);
    (classes, nose_shown, nose)
}

/// The state classes of a tooltip without a target (none, or one without a
/// widget state): closed, and nothing else; its nose is left as it is.
pub open spec fn spec_untargeted_tooltip_classes() -> Seq<Seq<char>> {
    seq!["tooltip-closed"@]
}

/// The state classes of a tooltip without a target; its nose keeps the
/// classes it has.
pub fn untargeted_tooltip_classes() -> (r: Vec<String>)
    ensures
        spec_string_views(r@) == spec_untargeted_tooltip_classes(),
{
    let mut r: Vec<String> = Vec::new();
    r.push("tooltip-closed".to_owned());
    assert(spec_string_views(r@) =~= spec_untargeted_tooltip_classes());
    r
}

/// The widgets clicked and dragged for tooltips that show on click or
/// drag.
#[derive(Debug)]
pub struct TriggerState {
    pub clicked: HashSet<u64>,
    pub dragging: HashSet<u64>,
}

impl TriggerState {
    /// Nothing clicked or dragged.
    pub fn new() -> (t: TriggerState)
        ensures
            t.clicked@ == Set::<u64>::empty(),
            t.dragging@ == Set::<u64>::empty(),
    {
        TriggerState { clicked: HashSet::new(), dragging: HashSet::new() }
    }

    /// A click on a node owned by `owner` (`None`: no widget): a click on
    /// the widget clicked before unclicks it; a click on another widget
    /// makes it the only one clicked; a click outside any widget clears the
    /// clicks.
    pub fn click(&mut self, owner: Option<u64>)
        ensures
            final(self).dragging@ == old(self).dragging@,
            final(self).clicked@ == (match owner {
                Some(w) => if old(self).clicked@.contains(w) {
                    old(self).clicked@.remove(w)
                } else {
                    set![w]
                },
                None => Set::<u64>::empty(),
            }),
    {
        match owner {
            Some(w) => {
                if self.clicked.contains(&w) {
                    self.clicked.remove(&w);
                } else {
                    self.clicked.clear();
                    self.clicked.insert(w);
                    assert(self.clicked@ =~= set![w]);
                }
            },
            None => {
                self.clicked.clear();
            },
        }
    }

    /// A drag started on a node owned by `owner`.
    pub fn drag_start(&mut self, owner: Option<u64>)
        ensures
            final(self).clicked@ == old(self).clicked@,
            final(self).dragging@ == (match owner {
                Some(w) => old(self).dragging@.insert(w),
                None => old(self).dragging@,
            }),
    {
        if let Some(w) = owner {
            self.dragging.insert(w);
        }
    }

    /// A drag ended on a node owned by `owner`.
    pub fn drag_end(&mut self, owner: Option<u64>)
        ensures
            final(self).clicked@ == old(self).clicked@,
            final(self).dragging@ == (match owner {
                Some(w) => old(self).dragging@.remove(w),
                None => old(self).dragging@,
            }),
    {
        if let Some(w) = owner {
            self.dragging.remove(&w);
        }
    }
}

/// After any click, at most one widget is clicked, when at most one was.
pub proof fn law_at_most_one_clicked(clicked: Set<u64>, owner: Option<u64>)
    requires
        clicked.finite(),
        clicked.len() <= 1,
    ensures
        ({
            let after = match owner {
                Some(w) => if clicked.contains(w) {
                    clicked.remove(w)
                } else {
                    set![w]
                },
                None => Set::<u64>::empty(),
            };
            after.len() <= 1
        }),
{
    match owner {
        Some(w) => {
            if !clicked.contains(w) {
                assert(set![w].len() == 1) by {
                    assert(set![w] =~= Set::<u64>::empty().insert(w));
                }
            }
        },
        None => {},
    }
}

} // verus!
