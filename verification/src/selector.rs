//! Reading `::selection` style selectors: whether a selector applies to a
//! widget in a given state, and how specific it is.  A selector is a list of
//! compound selectors separated by whitespace or `>`; a compound selector is
//! a base (tag, `.class`, `#id` or `*`) followed by `:`-separated
//! pseudo-classes.

use vstd::prelude::*;

use crate::text::{chars_eq_str, chars_of, is_whitespace, spec_is_whitespace};
use crate::widget_state::{spec_split, spec_split_acc, UIWidgetState};

verus! {

/// Whether `c` separates compound selectors: whitespace or the child
/// combinator `>`.
pub open spec fn is_part_sep(c: char) -> bool {
    spec_is_whitespace(c) || c == '>'
}

/// Reading `s` from the left into compound selectors: the finished ones and
/// the one being read.
pub open spec fn spec_parts_acc(s: Seq<char>) -> (Seq<Seq<char>>, Seq<char>)
    decreases s.len(),
{
    if s.len() == 0 {
        (Seq::empty(), Seq::empty())
    } else {
        let (done, cur) = spec_parts_acc(s.drop_last());
        if is_part_sep(s.last()) {
            if cur.len() > 0 {
                (done.push(cur), Seq::empty())
            } else {
                (done, cur)
            }
        } else {
            (done, cur.push(s.last()))
        }
    }
}

/// The compound selectors of `s`: its maximal runs of characters that are
/// neither whitespace nor `>`, in order.
pub open spec fn spec_parts(s: Seq<char>) -> Seq<Seq<char>> {
    let (done, cur) = spec_parts_acc(s);
    if cur.len() > 0 {
        done.push(cur)
    } else {
        done
    }
}

/// Whether one pseudo-class holds of `st`: `read-only`, `disabled` and
/// `invalid` need that flag; `checked`, `focus` and `hover` need that flag
/// on an enabled widget; any other (the empty one and `selection` among
/// them) holds.
pub open spec fn spec_pseudo_holds(p: Seq<char>, st: UIWidgetState) -> bool {
    if p == "read-only"@ {
        st.readonly
    } else if p == "disabled"@ {
        st.disabled
    } else if p == "checked"@ {
        !st.disabled && st.checked
    } else if p == "focus"@ {
        !st.disabled && st.focused
    } else if p == "hover"@ {
        !st.disabled && st.hovered
    } else if p == "invalid"@ {
        st.invalid
    } else {
        true
    }
}

/// Whether every piece after the first of `segs` holds of `st`.
pub open spec fn spec_pseudos_hold(segs: Seq<Seq<char>>, st: UIWidgetState) -> bool {
    forall|k: int| 1 <= k < segs.len() ==> spec_pseudo_holds(#[trigger] segs[k], st)
}

/// Whether the pseudo-classes of a compound selector (its `:`-separated
/// pieces after the first) all hold of `st`.
pub open spec fn spec_part_matches(part: Seq<char>, st: UIWidgetState) -> bool {
    spec_pseudos_hold(spec_split(part, ':'), st)
}

/// Whether every compound selector of `parts` matches `st`.
pub open spec fn spec_parts_match(parts: Seq<Seq<char>>, st: UIWidgetState) -> bool {
    forall|k: int| 0 <= k < parts.len() ==> spec_part_matches(#[trigger] parts[k], st)
}

/// Whether a selector applies to a widget in state `st`.
pub open spec fn spec_selector_matches(s: Seq<char>, st: UIWidgetState) -> bool {
    spec_parts_match(spec_parts(s), st)
}

fn pseudo_holds(p: &Vec<char>, st: &UIWidgetState) -> (b: bool)
    ensures
        b == spec_pseudo_holds(p@, *st),
{
    if chars_eq_str(p, "read-only") {
        st.readonly
    } else if chars_eq_str(p, "disabled") {
        st.disabled
    } else if chars_eq_str(p, "checked") {
        !st.disabled && st.checked
    } else if chars_eq_str(p, "focus") {
        !st.disabled && st.focused
    } else if chars_eq_str(p, "hover") {
        !st.disabled && st.hovered
    } else if chars_eq_str(p, "invalid") {
        st.invalid
    } else {
        true
    }
}

fn part_matches(part: &Vec<char>, st: &UIWidgetState) -> (b: bool)
    ensures
        b == spec_part_matches(part@, *st),
{
    let mut cur: Vec<char> = Vec::new();
    let mut seen: usize = 0;
    let mut ok = true;
    let ghost mut done: Seq<Seq<char>> = Seq::empty();
    let mut i: usize = 0;
    while i < part.len()
        invariant
            i <= part@.len(),
            (done, cur@) == spec_split_acc(part@.subrange(0, i as int), ':'),
            seen as int == done.len(),
            seen <= i,
            ok == spec_pseudos_hold(done, *st),
        decreases part@.len() - i,
    {
        let c = part[i];
        proof {
            let nxt = part@.subrange(0, i + 1);
            assert(nxt.drop_last() =~= part@.subrange(0, i as int));
            assert(nxt.last() == c);
        }
        if c == ':' {
            if seen >= 1 && !pseudo_holds(&cur, st) {
                ok = false;
            }
            proof {
                let d2 = done.push(cur@);
                if ok {
                    assert forall|k: int| 1 <= k < d2.len() implies spec_pseudo_holds(
                        #[trigger] d2[k],
                        *st,
                    ) by {
                        if k < done.len() {
                            assert(d2[k] == done[k]);
                        }
                    }
                } else if seen >= 1 && !spec_pseudo_holds(cur@, *st) {
                    assert(d2[done.len() as int] == cur@);
                } else {
                    let k0 = choose|k: int| 1 <= k < done.len() && !spec_pseudo_holds(done[k], *st);
                    assert(d2[k0] == done[k0]);
                }
                done = d2;
            }
            seen = seen + 1;
            cur = Vec::new();
        } else {
            cur.push(c);
        }
        i += 1;
    }
    assert(part@.subrange(0, part@.len() as int) =~= part@);
    if seen >= 1 && !pseudo_holds(&cur, st) {
        ok = false;
    }
    proof {
        let d2 = done.push(cur@);
        assert(d2 == spec_split(part@, ':'));
        if ok {
            assert forall|k: int| 1 <= k < d2.len() implies spec_pseudo_holds(#[trigger] d2[k], *st) by {
                if k < done.len() {
                    assert(d2[k] == done[k]);
                }
            }
        } else if seen >= 1 && !spec_pseudo_holds(cur@, *st) {
            assert(d2[done.len() as int] == cur@);
        } else {
            let k0 = choose|k: int| 1 <= k < done.len() && !spec_pseudo_holds(done[k], *st);
            assert(d2[k0] == done[k0]);
        }
    }
    ok
}

/// Whether a `::selection` selector applies to a widget in state `state`:
/// every pseudo-class of every compound selector holds.
pub fn selector_matches_state_for_selection(selector: &str, state: &UIWidgetState) -> (b: bool)
    ensures
        b == spec_selector_matches(selector@, *state),
{
    let s = chars_of(selector);
    let mut cur: Vec<char> = Vec::new();
    let mut ok = true;
    let ghost mut done: Seq<Seq<char>> = Seq::empty();
    let mut i: usize = 0;
    while i < s.len()
        invariant
            i <= s@.len(),
            (done, cur@) == spec_parts_acc(s@.subrange(0, i as int)),
            ok == spec_parts_match(done, *state),
        decreases s@.len() - i,
    {
        let c = s[i];
        proof {
            let nxt = s@.subrange(0, i + 1);
            assert(nxt.drop_last() =~= s@.subrange(0, i as int));
            assert(nxt.last() == c);
        }
        if is_whitespace(c) || c == '>' {
            if cur.len() > 0 {
                let m = part_matches(&cur, state);
                proof {
                    let d2 = done.push(cur@);
                    if ok && m {
                        assert forall|k: int| 0 <= k < d2.len() implies spec_part_matches(
                            #[trigger] d2[k],
                            *state,
                        ) by {
                            if k < done.len() {
                                assert(d2[k] == done[k]);
                            }
                        }
                    } else if !m {
                        assert(d2[done.len() as int] == cur@);
                    } else {
                        let k0 = choose|k: int| 0 <= k < done.len() && !spec_part_matches(done[k], *state);
                        assert(d2[k0] == done[k0]);
                    }
                    done = d2;
                }
                ok = ok && m;
                cur = Vec::new();
            }
        } else {
            cur.push(c);
        }
        i += 1;
    }
    assert(s@.subrange(0, s@.len() as int) =~= s@);
    if cur.len() > 0 {
        let m = part_matches(&cur, state);
        proof {
            let d2 = done.push(cur@);
            if ok && m {
                assert forall|k: int| 0 <= k < d2.len() implies spec_part_matches(
                    #[trigger] d2[k],
                    *state,
                ) by {
                    if k < done.len() {
                        assert(d2[k] == done[k]);
                    }
                }
            } else if !m {
                assert(d2[done.len() as int] == cur@);
            } else {
                let k0 = choose|k: int| 0 <= k < done.len() && !spec_part_matches(done[k], *state);
                assert(d2[k0] == done[k0]);
            }
        }
        ok = ok && m;
    }
    ok
}

/// The non-empty pieces of `segs`, in order.
pub open spec fn spec_nonempty(segs: Seq<Seq<char>>) -> Seq<Seq<char>>
    decreases segs.len(),
{
    if segs.len() == 0 {
        Seq::empty()
    } else {
        let r = spec_nonempty(segs.drop_last());
        if segs.last().len() > 0 {
            r.push(segs.last())
        } else {
            r
        }
    }
}

/// The weight of a compound selector's base: 100 for an id (`#`), 10 for a
/// class (`.`), none for `*` or no base, 1 for anything else.
pub open spec fn spec_base_weight(base: Seq<char>) -> nat {
    if base.len() > 0 && base[0] == '#' {
        100
    } else if base.len() > 0 && base[0] == '.' {
        10
    } else if base == "*"@ || base.len() == 0 {
        0
    } else {
        1
    }
}

/// How many pieces after the first of `ne` are not `selection`.
pub open spec fn spec_pseudo_count(ne: Seq<Seq<char>>) -> nat
    decreases ne.len(),
{
    if ne.len() <= 1 {
        0
    } else {
        spec_pseudo_count(ne.drop_last()) + (if ne.last() != "selection"@ {
            1nat
        } else {
            0nat
        })
    }
}

/// The specificity of a compound selector: of its non-empty `:`-separated
/// pieces, the first counts as the base and each later one that is not
/// `selection` counts one.
pub open spec fn spec_part_specificity(part: Seq<char>) -> nat {
    let ne = spec_nonempty(spec_split(part, ':'));
    spec_base_weight(if ne.len() > 0 {
        ne[0]
    } else {
        Seq::empty()
    }) + spec_pseudo_count(ne)
}

/// The summed specificity of `parts`.
pub open spec fn spec_parts_specificity(parts: Seq<Seq<char>>) -> nat
    decreases parts.len(),
{
    if parts.len() == 0 {
        0
    } else {
        spec_parts_specificity(parts.drop_last()) + spec_part_specificity(parts.last())
    }
}

/// The specificity of a selector: the sum over its compound selectors.
pub open spec fn spec_selector_specificity(s: Seq<char>) -> nat {
    spec_parts_specificity(spec_parts(s))
}

fn base_weight(base: &Vec<char>) -> (w: u32)
    ensures
        w == spec_base_weight(base@),
{
    if base.len() > 0 && base[0] == '#' {
        100
    } else if base.len() > 0 && base[0] == '.' {
        10
    } else if chars_eq_str(base, "*") || base.len() == 0 {
        0
    } else {
        1
    }
}

/// Accounts for one finished piece `seg`: the state `(non-empty pieces so
/// far, base weight, pseudo count)` moves on.
fn count_piece(seg: &Vec<char>, ne_len: &mut usize, base_w: &mut u32, count: &mut u64, Ghost(done): Ghost<Seq<Seq<char>>>)
    requires
        *old(ne_len) == spec_nonempty(done).len(),
        *old(base_w) == spec_base_weight(if spec_nonempty(done).len() > 0 {
            spec_nonempty(done)[0]
        } else {
            Seq::empty()
        }),
        *old(count) == spec_pseudo_count(spec_nonempty(done)),
        *old(count) <= *old(ne_len),
        *old(ne_len) < usize::MAX,
    ensures
        *final(ne_len) == spec_nonempty(done.push(seg@)).len(),
        *final(base_w) == spec_base_weight(if spec_nonempty(done.push(seg@)).len() > 0 {
            spec_nonempty(done.push(seg@))[0]
        } else {
            Seq::empty()
        }),
        *final(count) == spec_pseudo_count(spec_nonempty(done.push(seg@))),
        *final(count) <= *final(ne_len),
        *final(ne_len) <= *old(ne_len) + 1,
        *final(ne_len) <= *old(ne_len) + seg@.len(),
{
    let ghost d2 = done.push(seg@);
    assert(d2.drop_last() =~= done);
    assert(d2.last() == seg@);
    if seg.len() > 0 {
        let ghost ne = spec_nonempty(done);
        assert(spec_nonempty(d2) == ne.push(seg@));
        assert(ne.push(seg@).drop_last() =~= ne);
        if *ne_len == 0 {
            *base_w = base_weight(seg);
            assert(ne.push(seg@)[0] == seg@);
        } else {
            assert(ne.push(seg@)[0] == ne[0]);
            if !chars_eq_str(seg, "selection") {
                *count = *count + 1;
            }
        }
        *ne_len = *ne_len + 1;
    }
}

/// The specificity of one compound selector.
fn part_specificity(part: &Vec<char>) -> (w: u128)
    ensures
        w == spec_part_specificity(part@),
        w <= 100 + part@.len(),
{
    let mut cur: Vec<char> = Vec::new();
    let mut ne_len: usize = 0;
    let mut base_w: u32 = 0;
    let mut count: u64 = 0;
    let ghost mut done: Seq<Seq<char>> = Seq::empty();
    let mut i: usize = 0;
    while i < part.len()
        invariant
            i <= part@.len(),
            (done, cur@) == spec_split_acc(part@.subrange(0, i as int), ':'),
            ne_len == spec_nonempty(done).len(),
            base_w == spec_base_weight(if spec_nonempty(done).len() > 0 {
                spec_nonempty(done)[0]
            } else {
                Seq::empty()
            }),
            count == spec_pseudo_count(spec_nonempty(done)),
            count <= ne_len,
            ne_len + cur@.len() <= i,
            cur@.len() == 0 && i > 0 ==> ne_len < i,
            ne_len < usize::MAX,
            base_w <= 100,
        decreases part@.len() - i,
    {
        let c = part[i];
        proof {
            let nxt = part@.subrange(0, i + 1);
            assert(nxt.drop_last() =~= part@.subrange(0, i as int));
            assert(nxt.last() == c);
        }
        if c == ':' {
            count_piece(&cur, &mut ne_len, &mut base_w, &mut count, Ghost(done));
            proof {
                done = done.push(cur@);
            }
            cur = Vec::new();
        } else {
            cur.push(c);
        }
        i += 1;
    }
    assert(part@.subrange(0, part@.len() as int) =~= part@);
    count_piece(&cur, &mut ne_len, &mut base_w, &mut count, Ghost(done));
    base_w as u128 + count as u128
}

/// The specificity of a `::selection` selector, used to order the selectors
/// that apply: per compound selector, 100 for an id base, 10 for a class
/// base, 1 for a tag base, none for `*`, plus one for each pseudo-class other
/// than `selection`.  The count is a `u32`, so the selector's specificity
/// must fit one.
pub fn selector_specificity_for_selection(selector: &str) -> (w: u32)
    requires
        spec_selector_specificity(selector@) <= u32::MAX,
    ensures
        w == spec_selector_specificity(selector@),
{
    let s = chars_of(selector);
    let mut cur: Vec<char> = Vec::new();
    let mut acc: u128 = 0;
    let ghost mut done: Seq<Seq<char>> = Seq::empty();
    let mut i: usize = 0;
    while i < s.len()
        invariant
            i <= s@.len(),
            (done, cur@) == spec_parts_acc(s@.subrange(0, i as int)),
            acc == spec_parts_specificity(done),
            cur@.len() <= i,
            acc <= 101 * (i - cur@.len()),
        decreases s@.len() - i,
    {
        let c = s[i];
        proof {
            let nxt = s@.subrange(0, i + 1);
            assert(nxt.drop_last() =~= s@.subrange(0, i as int));
            assert(nxt.last() == c);
        }
        if is_whitespace(c) || c == '>' {
            if cur.len() > 0 {
                let w = part_specificity(&cur);
                proof {
                    let d2 = done.push(cur@);
                    assert(d2.drop_last() =~= done);
                    assert(d2.last() == cur@);
                    done = d2;
                }
                acc = acc + w;
                cur = Vec::new();
            }
        } else {
            cur.push(c);
        }
        i += 1;
    }
    assert(s@.subrange(0, s@.len() as int) =~= s@);
    if cur.len() > 0 {
        let w = part_specificity(&cur);
        proof {
            let d2 = done.push(cur@);
            assert(d2.drop_last() =~= done);
            assert(d2.last() == cur@);
        }
        acc = acc + w;
    }
    proof {
        assert(acc == spec_selector_specificity(selector@));
    }
    acc as u32
}

/// What each pseudo-class asks of a widget's state: `read-only`,
/// `disabled` and `invalid` ask for that flag alone; `checked`, `focus` and
/// `hover` ask for that flag on an enabled widget, whatever its other flags;
/// any other pseudo-class holds always.
pub proof fn law_pseudo_classes(p: Seq<char>, st: UIWidgetState)
    ensures
        p == "hover"@ ==> (spec_pseudo_holds(p, st) <==> st.hovered && !st.disabled),
        p == "focus"@ ==> (spec_pseudo_holds(p, st) <==> st.focused && !st.disabled),
        p == "checked"@ ==> (spec_pseudo_holds(p, st) <==> st.checked && !st.disabled),
        p == "read-only"@ ==> (spec_pseudo_holds(p, st) <==> st.readonly),
        p == "disabled"@ ==> (spec_pseudo_holds(p, st) <==> st.disabled),
        p == "invalid"@ ==> (spec_pseudo_holds(p, st) <==> st.invalid),
        p != "hover"@ && p != "focus"@ && p != "checked"@ && p != "read-only"@ && p != "disabled"@ && p
            != "invalid"@ ==> spec_pseudo_holds(p, st),
{
    reveal_strlit("hover");
    reveal_strlit("focus");
    reveal_strlit("checked");
    reveal_strlit("read-only");
    reveal_strlit("disabled");
    reveal_strlit("invalid");
    assert("hover"@[0] != "focus"@[0]);
    assert("hover"@ != "focus"@);
    assert("hover"@.len() != "read-only"@.len() && "hover"@.len() != "disabled"@.len()
        && "hover"@.len() != "checked"@.len());
    assert("focus"@.len() != "read-only"@.len() && "focus"@.len() != "disabled"@.len()
        && "focus"@.len() != "checked"@.len());
    assert("invalid"@[0] != "checked"@[0]);
    assert("invalid"@ != "checked"@);
    assert("invalid"@.len() != "read-only"@.len() && "invalid"@.len() != "disabled"@.len()
        && "invalid"@.len() != "focus"@.len() && "invalid"@.len() != "hover"@.len());
}

/// A compound selector with a `hover` pseudo-class matches no widget that
/// is not hovered, or that is disabled.
pub proof fn law_hover_needs_hover(part: Seq<char>, k: int, st: UIWidgetState)
    requires
        1 <= k < spec_split(part, ':').len(),
        spec_split(part, ':')[k] == "hover"@,
        !st.hovered || st.disabled,
    ensures
        !spec_part_matches(part, st),
{
    law_pseudo_classes("hover"@, st);
    assert(!spec_pseudo_holds(spec_split(part, ':')[k], st));
}

} // verus!
