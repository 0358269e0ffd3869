//! How a scrolling body or div is laid out: the wrapper keeps a scroll
//! content node as its first child, with a scrollbar per scrolling axis; the
//! wrapper's own children move into the content node, except that dialog
//! overlays stay at the root of a body.  Also which widget a mouse wheel
//! turn scrolls.  Nodes are named by their entity bits.

use vstd::prelude::*;

use crate::input_edit::spec_string_views;
use crate::text::{chars_eq_str, chars_of, lower_chars, spec_lower, spec_trim, trimmed_chars};

verus! {

// ------------------------------------------------------------------
// Dialog overlays
// ------------------------------------------------------------------

/// Whether one class name marks a dialog node.
pub open spec fn spec_is_dialog_class(c: Seq<char>) -> bool {
    c == "dialog-widget"@ || c == "dialog-renderer-bevy-app"@ || c == "dialog-overlay"@
}

/// Whether one of `cs` marks a dialog node.
pub open spec fn spec_has_dialog_class(cs: Seq<Seq<char>>) -> bool {
    exists|k: int| 0 <= k < cs.len() && spec_is_dialog_class(#[trigger] cs[k])
}

/// Whether a node is a dialog overlay or panel: its tag, trimmed, is
/// `dialog` or `dialog-overlay` in any ASCII case, or one of its classes is
/// `dialog-widget`, `dialog-renderer-bevy-app` or `dialog-overlay`.
pub open spec fn spec_is_dialog_overlay(tag: Option<Seq<char>>, classes: Option<Seq<Seq<char>>>) -> bool {
    let by_tag = match tag {
        Some(t) => spec_lower(spec_trim(t)) == "dialog"@ || spec_lower(spec_trim(t)) == "dialog-overlay"@,
        None => false,
    };
    let by_class = match classes {
        Some(cs) => spec_has_dialog_class(cs),
        None => false,
    };
    by_tag || by_class
}

/// Whether a node is a dialog overlay or panel, which must not be nested in
/// a scroll content.
#[verifier::loop_isolation(false)]
pub fn is_dialog_overlay_node(tag: Option<&str>, classes: Option<&Vec<String>>) -> (b: bool)
    ensures
        b == spec_is_dialog_overlay(
            match tag {
                Some(t) => Some(t@),
                None => None,
            },
            match classes {
                Some(cs) => Some(spec_string_views(cs@)),
                None => None,
            },
        ),
{
    if let Some(t) = tag {
        let lowered = lower_chars(&trimmed_chars(t));
        if chars_eq_str(&lowered, "dialog") || chars_eq_str(&lowered, "dialog-overlay") {
            return true;
        }
    }
    match classes {
        Some(cs) => {
            let ghost views = spec_string_views(cs@);
            let mut k: usize = 0;
            while k < cs.len()
                invariant
                    k <= cs@.len(),
                    views == spec_string_views(cs@),
                    forall|j: int| 0 <= j < k ==> !spec_is_dialog_class(#[trigger] views[j]),
                decreases cs@.len() - k,
            {
                let c = chars_of(cs[k].as_str());
                assert(c@ == views[k as int]);
                if chars_eq_str(&c, "dialog-widget") || chars_eq_str(&c, "dialog-renderer-bevy-app")
                    || chars_eq_str(&c, "dialog-overlay") {
                    assert(spec_is_dialog_class(views[k as int]));
                    return true;
                }
                k += 1;
            }
            false
        },
        None => false,
    }
}

// ------------------------------------------------------------------
// Scroll structure
// ------------------------------------------------------------------

/// The axes a wrapper scrolls along.
#[derive(Clone, Copy, Debug, PartialEq, Eq, Structural)]
pub struct ScrollAxes {
    pub y: bool,
    pub x: bool,
}

/// The axes a body scrolls along: those its own style scrolls, those it has
/// a scrollbar for, and those its scroll content scrolls.
pub open spec fn spec_body_axes(own: ScrollAxes, has_bar_y: bool, has_bar_x: bool, content: Option<ScrollAxes>) -> ScrollAxes {
    ScrollAxes {
        y: own.y || has_bar_y || (content matches Some(c) && c.y),
        x: own.x || has_bar_x || (content matches Some(c) && c.x),
    }
}

/// What a wrapper scrolling along `axes` needs: it is set up when it scrolls
/// or has a content node already; then the content node and a scrollbar per
/// scrolling axis are created where missing.
pub open spec fn spec_scroll_plan(axes: ScrollAxes, has_content: bool, has_bar_y: bool, has_bar_x: bool) -> ScrollPlan {
    let active = axes.y || axes.x || has_content;
    ScrollPlan {
        active,
        create_content: active && !has_content,
        create_bar_y: active && axes.y && !has_bar_y,
        create_bar_x: active && axes.x && !has_bar_x,
    }
}

/// The axes a body scrolls along: those its own node scrolls, those it has
/// a scrollbar for, and those its content node (when it has one) scrolls.
pub fn body_scroll_axes(own: ScrollAxes, has_bar_y: bool, has_bar_x: bool, content: Option<ScrollAxes>) -> (r:
    ScrollAxes)
    ensures
        r == spec_body_axes(own, has_bar_y, has_bar_x, content),
{
    let mut y = own.y || has_bar_y;
    let mut x = own.x || has_bar_x;
    if let Some(c) = content {
        y = y || c.y;
        x = x || c.x;
    }
    ScrollAxes { y, x }
}

/// The axes a div scrolls along: those of its content node when it has
/// one, else those of its own node.
pub fn div_scroll_axes(own: ScrollAxes, content: Option<ScrollAxes>) -> (r: ScrollAxes)
    ensures
        r == (match content {
            Some(c) => c,
            None => own,
        }),
{
    match content {
        Some(c) => c,
        None => own,
    }
}

/// What a wrapper needs this frame: nothing at all (it neither scrolls nor
/// has a content node), a content node, and a scrollbar per scrolling axis
/// that lacks one.
#[derive(Clone, Copy, Debug, PartialEq, Eq, Structural)]
pub struct ScrollPlan {
    pub active: bool,
    pub create_content: bool,
    pub create_bar_y: bool,
    pub create_bar_x: bool,
}

/// The plan for a wrapper scrolling along `axes`.
pub fn scroll_plan(axes: ScrollAxes, has_content: bool, has_bar_y: bool, has_bar_x: bool) -> (p:
    ScrollPlan)
    ensures
        p == spec_scroll_plan(axes, has_content, has_bar_y, has_bar_x),
{
    let active = axes.y || axes.x || has_content;
    ScrollPlan {
        active,
        create_content: active && !has_content,
        create_bar_y: active && axes.y && !has_bar_y,
        create_bar_x: active && axes.x && !has_bar_x,
    }
}

/// Whether child `c` is one of the wrapper's own parts: its content node or
/// one of the scrollbars it already had.
pub open spec fn spec_is_part(c: u64, content: u64, bar_y: Option<u64>, bar_x: Option<u64>) -> bool {
    c == content || bar_y == Some(c) || bar_x == Some(c)
}

/// The wrapper's children that move into its content node, in order: all
/// but its own parts, and (for a body) but its dialog overlays.  Children
/// are given as `(entity, is_dialog_overlay)`.
pub open spec fn spec_to_move(
    children: Seq<(u64, bool)>,
    content: u64,
    bar_y: Option<u64>,
    bar_x: Option<u64>,
    keep_dialogs: bool,
) -> Seq<u64>
    decreases children.len(),
{
    if children.len() == 0 {
        Seq::empty()
    } else {
        let r = spec_to_move(children.drop_last(), content, bar_y, bar_x, keep_dialogs);
        let (c, dialog) = children.last();
        if spec_is_part(c, content, bar_y, bar_x) || (keep_dialogs && dialog) {
            r
        } else {
            r.push(c)
        }
    }
}

/// The children that move into the content node.
pub fn children_to_move(
    children: &Vec<(u64, bool)>,
    content: u64,
    bar_y: Option<u64>,
    bar_x: Option<u64>,
    keep_dialogs: bool,
) -> (r: Vec<u64>)
    ensures
        r@ == spec_to_move(children@, content, bar_y, bar_x, keep_dialogs),
{
    let mut r: Vec<u64> = Vec::new();
    let mut k: usize = 0;
    while k < children.len()
        invariant
            k <= children@.len(),
            r@ == spec_to_move(children@.subrange(0, k as int), content, bar_y, bar_x, keep_dialogs),
        decreases children@.len() - k,
    {
        proof {
            let nxt = children@.subrange(0, k + 1);
            assert(nxt.drop_last() =~= children@.subrange(0, k as int));
            assert(nxt.last() == children@[k as int]);
        }
        let (c, dialog) = children[k];
        let part = c == content || bar_y == Some(c) || bar_x == Some(c);
        if !(part || (keep_dialogs && dialog)) {
            r.push(c);
        }
        k += 1;
    }
    assert(children@.subrange(0, children@.len() as int) =~= children@);
    r
}

/// The dialog overlays among `nodes`, in order.
pub open spec fn spec_dialogs(nodes: Seq<(u64, bool)>) -> Seq<u64>
    decreases nodes.len(),
{
    if nodes.len() == 0 {
        Seq::empty()
    } else {
        let r = spec_dialogs(nodes.drop_last());
        if nodes.last().1 {
            r.push(nodes.last().0)
        } else {
            r
        }
    }
}

/// The dialog overlays found inside a body's content node, which move back
/// to the body's root.
pub fn dialogs_to_lift(content_children: &Vec<(u64, bool)>) -> (r: Vec<u64>)
    ensures
        r@ == spec_dialogs(content_children@),
{
    let mut r: Vec<u64> = Vec::new();
    let mut k: usize = 0;
    while k < content_children.len()
        invariant
            k <= content_children@.len(),
            r@ == spec_dialogs(content_children@.subrange(0, k as int)),
        decreases content_children@.len() - k,
    {
        proof {
            let nxt = content_children@.subrange(0, k + 1);
            assert(nxt.drop_last() =~= content_children@.subrange(0, k as int));
            assert(nxt.last() == content_children@[k as int]);
        }
        let (c, dialog) = content_children[k];
        if dialog {
            r.push(c);
        }
        k += 1;
    }
    assert(content_children@.subrange(0, content_children@.len() as int) =~= content_children@);
    r
}

/// The children a wrapper keeps at its root after its own parts, in order:
/// for a body its dialog overlays, for a div every other child.
pub open spec fn spec_rest(
    children: Seq<(u64, bool)>,
    content: u64,
    bar_y: Option<u64>,
    bar_x: Option<u64>,
    dialogs_only: bool,
) -> Seq<u64>
    decreases children.len(),
{
    if children.len() == 0 {
        Seq::empty()
    } else {
        let r = spec_rest(children.drop_last(), content, bar_y, bar_x, dialogs_only);
        let (c, dialog) = children.last();
        if spec_is_part(c, content, bar_y, bar_x) || (dialogs_only && !dialog) {
            r
        } else {
            r.push(c)
        }
    }
}

/// The order a wrapper's children should have: its content node, its
/// vertical and horizontal scrollbars (`new_bar_y`, `new_bar_x`, those it
/// has after this frame), then the rest as `spec_rest` says (`old_bar_y`,
/// `old_bar_x` being those it had before).
pub open spec fn spec_child_order(
    children: Seq<(u64, bool)>,
    content: u64,
    new_bar_y: Option<u64>,
    new_bar_x: Option<u64>,
    old_bar_y: Option<u64>,
    old_bar_x: Option<u64>,
    dialogs_only: bool,
) -> Seq<u64> {
    let head = seq![content] + (match new_bar_y {
        Some(b) => seq![b],
        None => Seq::empty(),
    }) + (match new_bar_x {
        Some(b) => seq![b],
        None => Seq::empty(),
    });
    head + spec_rest(children, content, old_bar_y, old_bar_x, dialogs_only)
}

/// The order the wrapper's children should take, when it differs from the
/// order they have (`None` when they already have it).
pub fn child_order(
    children: &Vec<(u64, bool)>,
    content: u64,
    new_bar_y: Option<u64>,
    new_bar_x: Option<u64>,
    old_bar_y: Option<u64>,
    old_bar_x: Option<u64>,
    dialogs_only: bool,
) -> (r: Option<Vec<u64>>)
    ensures
        ({
            let desired = spec_child_order(
                children@,
                content,
                new_bar_y,
                new_bar_x,
                old_bar_y,
                old_bar_x,
                dialogs_only,
            );
            let current = children@.map_values(|p: (u64, bool)| p.0);
            match r {
                Some(v) => v@ == desired && current != desired,
                None => current == desired,
            }
        }),
{
    let mut desired: Vec<u64> = Vec::new();
    desired.push(content);
    if let Some(b) = new_bar_y {
        desired.push(b);
    }
    if let Some(b) = new_bar_x {
        desired.push(b);
    }
    let ghost head = desired@;
    proof {
        assert(head =~= seq![content] + (match new_bar_y {
            Some(b) => seq![b],
            None => Seq::empty(),
        }) + (match new_bar_x {
            Some(b) => seq![b],
            None => Seq::empty(),
        }));
    }
    let mut k: usize = 0;
    while k < children.len()
        invariant
            k <= children@.len(),
            desired@ == head + spec_rest(
                children@.subrange(0, k as int),
                content,
                old_bar_y,
                old_bar_x,
                dialogs_only,
            ),
        decreases children@.len() - k,
    {
        proof {
            let nxt = children@.subrange(0, k + 1);
            assert(nxt.drop_last() =~= children@.subrange(0, k as int));
            assert(nxt.last() == children@[k as int]);
        }
        let (c, dialog) = children[k];
        let part = c == content || old_bar_y == Some(c) || old_bar_x == Some(c);
        if !(part || (dialogs_only && !dialog)) {
            let ghost before = desired@;
            desired.push(c);
            assert(desired@ =~= before.push(c));
            assert(head + spec_rest(children@.subrange(0, k + 1), content, old_bar_y, old_bar_x, dialogs_only)
                =~= (head + spec_rest(children@.subrange(0, k as int), content, old_bar_y, old_bar_x, dialogs_only)).push(c));
        }
        k += 1;
    }
    assert(children@.subrange(0, children@.len() as int) =~= children@);
    let ghost current = children@.map_values(|p: (u64, bool)| p.0);
    let mut same = desired.len() == children.len();
    let mut k: usize = 0;
    while same && k < children.len()
        invariant
            k <= children@.len(),
            same ==> desired@.len() == children@.len(),
            same ==> forall|j: int| 0 <= j < k ==> desired@[j] == current[j],
            !same ==> desired@ != current,
            current == children@.map_values(|p: (u64, bool)| p.0),
        decreases children@.len() - k,
    {
        if desired[k] != children[k].0 {
            assert(desired@[k as int] != current[k as int]);
            same = false;
        }
        k += 1;
    }
    if same {
        assert(desired@ =~= current);
        None
    } else {
        Some(desired)
    }
}

// ------------------------------------------------------------------
// Mouse wheel
// ------------------------------------------------------------------

/// Where a wheel turn over the bodies goes.
#[derive(Clone, Copy, Debug, PartialEq, Eq, Structural)]
pub enum WheelRoute {
    /// Something else takes it; the body ignores it.
    Blocked,
    /// There is no body: the turn is dropped.
    Dropped,
    /// The body to scroll.
    Body(u64),
}

/// A hovered div that can scroll, then a hovered, shown choice list that can
/// scroll, then a shown dialog overlay take the wheel from the bodies;
/// otherwise it goes to the body entered last, or to the first body.
pub fn route_body_wheel(
    scrollable_div_hovered: bool,
    scrollable_list_hovered: bool,
    dialog_shown: bool,
    last_body: Option<u64>,
    first_body: Option<u64>,
) -> (r: WheelRoute)
    ensures
        r == (if scrollable_div_hovered || scrollable_list_hovered || dialog_shown {
            WheelRoute::Blocked
        } else {
            match last_body {
                Some(b) => WheelRoute::Body(b),
                None => match first_body {
                    Some(b) => WheelRoute::Body(b),
                    None => WheelRoute::Dropped,
                },
            }
        }),
{
    if scrollable_div_hovered || scrollable_list_hovered || dialog_shown {
        return WheelRoute::Blocked;
    }
    match last_body {
        Some(b) => WheelRoute::Body(b),
        None => match first_body {
            Some(b) => WheelRoute::Body(b),
            None => WheelRoute::Dropped,
        },
    }
}

/// Where a wheel turn over the divs goes: while a scrollbar is being
/// dragged, or with no div entered, it is dropped; the div entered last
/// scrolls when it is shown (`last_div_shown`: `None` when that div is gone).
pub fn route_div_wheel(dragging_scrollbar: bool, last_div: Option<u64>, last_div_shown: Option<bool>) -> (r:
    WheelRoute)
    ensures
        r == (if dragging_scrollbar || last_div is None {
            WheelRoute::Dropped
        } else if last_div_shown == Some(true) {
            WheelRoute::Body(last_div->0)
        } else {
            WheelRoute::Blocked
        }),
{
    if dragging_scrollbar {
        return WheelRoute::Dropped;
    }
    match last_div {
        None => WheelRoute::Dropped,
        Some(d) => if last_div_shown == Some(true) {
            WheelRoute::Body(d)
        } else {
            WheelRoute::Blocked
        },
    }
}

// ------------------------------------------------------------------
// Stacking of bodies
// ------------------------------------------------------------------

/// The z-index the next registered body takes: one above the highest of
/// the bodies already set up (0 when there is none).
pub fn first_body_z_index(existing: &Vec<i32>) -> (z: i32)
    requires
        forall|k: int| 0 <= k < existing@.len() ==> existing@[k] < i32::MAX,
    ensures
        existing@.len() == 0 ==> z == 0,
        existing@.len() > 0 ==> (exists|k: int| 0 <= k < existing@.len() && z == existing@[k] + 1)
            && forall|k: int| 0 <= k < existing@.len() ==> existing@[k] < z,
{
    let mut max: i32 = -1;
    let mut k: usize = 0;
    while k < existing.len()
        invariant
            k <= existing@.len(),
            forall|j: int| 0 <= j < existing@.len() ==> existing@[j] < i32::MAX,
            k == 0 ==> max == -1,
            k > 0 ==> exists|j: int| 0 <= j < k && max == existing@[j],
            forall|j: int| 0 <= j < k ==> existing@[j] <= max,
        decreases existing@.len() - k,
    {
        if k == 0 || existing[k] > max {
            max = existing[k];
        }
        k += 1;
    }
    max + 1
}

/// Whether a body key is one of the registered page names.
pub open spec fn spec_listed(key: Seq<char>, registered: Option<Seq<Seq<char>>>) -> bool {
    key.len() > 0 && match registered {
        Some(names) => names.contains(key),
        None => false,
    }
}

/// The z-index of a body with key `html_key`: bodies without a key, or
/// whose key is not among the registered page names, stay at 0; a
/// registered one takes `next_z`, which then moves up by one.
pub fn body_z_index(html_key: &str, registered: Option<&Vec<String>>, next_z: &mut i32) -> (z: i32)
    requires
        spec_listed(
            html_key@,
            match registered {
                Some(names) => Some(spec_string_views(names@)),
                None => None,
            },
        ) ==> *old(next_z) < i32::MAX,
    ensures
        ({
            let listed = spec_listed(
                html_key@,
                match registered {
                    Some(names) => Some(spec_string_views(names@)),
                    None => None,
                },
            );
            &&& z == (if listed {
                *old(next_z)
            } else {
                0
            })
            &&& *final(next_z) == (if listed {
                *old(next_z) + 1
            } else {
                *old(next_z) as int
            })
        }),
{
    let key = chars_of(html_key);
    if key.len() == 0 {
        return 0;
    }
    let names = match registered {
        Some(n) => n,
        None => return 0,
    };
    let ghost views = spec_string_views(names@);
    let mut found = false;
    let mut k: usize = 0;
    while k < names.len()
        invariant
            k <= names@.len(),
            views == spec_string_views(names@),
            key@ == html_key@,
            !found ==> forall|j: int| 0 <= j < k ==> views[j] != key@,
            found ==> views.contains(key@),
        decreases names@.len() - k,
    {
        if !found && chars_eq_str(&key, names[k].as_str()) {
            assert(views[k as int] == key@);
            found = true;
        }
        k += 1;
    }
    if found {
        let z = *next_z;
        *next_z = z + 1;
        z
    } else {
        assert(!views.contains(key@));
        0
    }
}

// ------------------------------------------------------------------
// Laws
// ------------------------------------------------------------------

/// Setting a body's scroll structure up twice creates nothing the second
/// time: after the first run the body clips without scrolling itself, its
/// content node scrolls along the body's axes and has the scrollbars that
/// were missing; the second run then finds the same axes and nothing left to
/// create.
pub proof fn law_scroll_structure_settles(
    own: ScrollAxes,
    has_content: bool,
    has_bar_y: bool,
    has_bar_x: bool,
    content: Option<ScrollAxes>,
)
    ensures
        ({
            let a = spec_body_axes(own, has_bar_y, has_bar_x, content);
            let p = spec_scroll_plan(a, has_content, has_bar_y, has_bar_x);
            let bar_y = has_bar_y || p.create_bar_y;
            let bar_x = has_bar_x || p.create_bar_x;
            let a2 = spec_body_axes(ScrollAxes { y: false, x: false }, bar_y, bar_x, Some(a));
            p.active ==> {
                &&& a2 == a
                &&& spec_scroll_plan(a2, true, bar_y, bar_x) == (ScrollPlan {
                    active: true,
                    create_content: false,
                    create_bar_y: false,
                    create_bar_x: false,
                })
            }
        }),
{
}

/// Children that are all the content node, a scrollbar or a dialog overlay
/// stay where they are: none moves into the content node.
pub proof fn law_settled_children_stay(
    children: Seq<(u64, bool)>,
    content: u64,
    bar_y: Option<u64>,
    bar_x: Option<u64>,
)
    requires
        forall|k: int| 0 <= k < children.len() ==> spec_is_part(#[trigger] children[k].0, content, bar_y, bar_x)
            || children[k].1,
    ensures
        spec_to_move(children, content, bar_y, bar_x, true) == Seq::<u64>::empty(),
    decreases children.len(),
{
    if children.len() > 0 {
        let rest = children.drop_last();
        assert forall|k: int| 0 <= k < rest.len() implies spec_is_part(#[trigger] rest[k].0, content, bar_y, bar_x)
            || rest[k].1 by {
            assert(rest[k] == children[k]);
        }
        law_settled_children_stay(rest, content, bar_y, bar_x);
        assert(children.last() == children[children.len() - 1]);
    }
}

} // verus!
