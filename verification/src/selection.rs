//! Checking and unchecking in groups of choices: radio buttons and toggle
//! buttons in a field set, the options of a list box and of a choice box, and
//! the stand-alone check box, switch and toggle.  Members of a group are
//! named by their index in it.

use vstd::prelude::*;

use crate::widget_state::UIWidgetState;

verus! {

/// How many members of a field set may be checked at once.
#[derive(Clone, Copy, Debug, PartialEq, Eq, Structural)]
pub enum FieldMode {
    /// One at most.
    Single,
    /// Any number.
    Multi,
    /// Any number (a count is configured but not enforced on click).
    Count(usize),
}

/// The kind of members a field set holds.
#[derive(Clone, Copy, Debug, PartialEq, Eq, Structural)]
pub enum FieldKind {
    Radio,
    Toggle,
}

/// A field set: its mode, whether its last checked member may be unchecked,
/// the states of its members in order, the member recorded as the single
/// selection, and the members recorded as the multiple selection in the
/// order they were checked.
#[derive(Clone, Debug)]
pub struct SelectionGroup {
    pub mode: FieldMode,
    pub allow_none: bool,
    pub states: Vec<UIWidgetState>,
    pub single: Option<usize>,
    pub multi: Vec<usize>,
}

/// `st` with `checked` set to `c`.
pub open spec fn spec_with_checked(st: UIWidgetState, c: bool) -> UIWidgetState {
    UIWidgetState { checked: c, ..st }
}

/// The states with member `i` checked and every other member unchecked.
pub open spec fn spec_only_checked(states: Seq<UIWidgetState>, i: int) -> Seq<UIWidgetState> {
    Seq::new(states.len(), |k: int| spec_with_checked(states[k], k == i))
}

/// `s` with `x` appended unless it is already there.
pub open spec fn spec_push_new(s: Seq<usize>, x: usize) -> Seq<usize> {
    if s.contains(x) {
        s
    } else {
        s.push(x)
    }
}

/// `s` without any occurrence of `x`, the rest in order.
pub open spec fn spec_remove_all(s: Seq<usize>, x: usize) -> Seq<usize>
    decreases s.len(),
{
    if s.len() == 0 {
        s
    } else {
        let r = spec_remove_all(s.drop_last(), x);
        if s.last() == x {
            r
        } else {
            r.push(s.last())
        }
    }
}

/// What checking (`check`) or unchecking member `i` does to the recorded
/// selections `(single, multi)`: checking records it as the single selection
/// and adds it to the multiple one; unchecking drops it from both.
pub open spec fn spec_record(single: Option<usize>, multi: Seq<usize>, i: usize, check: bool) -> (
    Option<usize>,
    Seq<usize>,
) {
    if check {
        (Some(i), spec_push_new(multi, i))
    } else {
        (if single == Some(i) {
            None
        } else {
            single
        }, spec_remove_all(multi, i))
    }
}

/// A click on member `i` of a single-mode set: an unchecked member becomes
/// the only checked one; a checked member is unchecked when the set allows
/// none, and stays checked otherwise.  Returns the new states and
/// `Some(true)` for a check, `Some(false)` for an uncheck, `None` for no
/// change.
pub open spec fn spec_single_click(states: Seq<UIWidgetState>, i: int, allow_none: bool) -> (
    Seq<UIWidgetState>,
    Option<bool>,
) {
    if !states[i].checked {
        (spec_only_checked(states, i), Some(true))
    } else if allow_none {
        (states.update(i, spec_with_checked(states[i], false)), Some(false))
    } else {
        (states, None)
    }
}

impl SelectionGroup {
    /// The member indices recorded are members of the set.
    pub open spec fn records_valid(&self) -> bool {
        &&& (self.single matches Some(k) ==> k < self.states@.len())
        &&& forall|j: int| 0 <= j < self.multi@.len() ==> self.multi@[j] < self.states@.len()
    }
}

fn with_checked(st: UIWidgetState, c: bool) -> (r: UIWidgetState)
    ensures
        r == spec_with_checked(st, c),
{
    UIWidgetState { checked: c, ..st }
}

/// Checks member `i` and unchecks every other member.
fn check_only(states: &mut Vec<UIWidgetState>, i: usize)
    requires
        i < old(states)@.len(),
    ensures
        final(states)@ == spec_only_checked(old(states)@, i as int),
{
    let ghost orig = states@;
    let mut k: usize = 0;
    while k < states.len()
        invariant
            states@.len() == orig.len(),
            k <= orig.len(),
            forall|j: int| 0 <= j < k ==> states@[j] == spec_with_checked(orig[j], j == i),
            forall|j: int| k <= j < orig.len() ==> states@[j] == orig[j],
        decreases orig.len() - k,
    {
        let st = with_checked(states[k], k == i);
        states.set(k, st);
        k += 1;
    }
    assert(states@ =~= spec_only_checked(orig, i as int));
}

/// Appends `x` to `v` unless it is there already.
fn push_new(v: &mut Vec<usize>, x: usize)
    ensures
        final(v)@ == spec_push_new(old(v)@, x),
{
    let mut k: usize = 0;
    while k < v.len()
        invariant
            k <= v@.len(),
            forall|j: int| 0 <= j < k ==> v@[j] != x,
        decreases v@.len() - k,
    {
        if v[k] == x {
            assert(v@.contains(x)) by {
                assert(v@[k as int] == x);
            }
            return;
        }
        k += 1;
    }
    assert(!v@.contains(x));
    v.push(x);
}

/// `v` without any occurrence of `x`.
fn remove_all(v: &Vec<usize>, x: usize) -> (r: Vec<usize>)
    ensures
        r@ == spec_remove_all(v@, x),
{
    let mut r: Vec<usize> = Vec::new();
    let mut k: usize = 0;
    while k < v.len()
        invariant
            k <= v@.len(),
            r@ == spec_remove_all(v@.subrange(0, k as int), x),
        decreases v@.len() - k,
    {
        proof {
            let nxt = v@.subrange(0, k + 1);
            assert(nxt.drop_last() =~= v@.subrange(0, k as int));
            assert(nxt.last() == v@[k as int]);
        }
        if v[k] != x {
            r.push(v[k]);
        }
        k += 1;
    }
    assert(v@.subrange(0, v@.len() as int) =~= v@);
    r
}

/// Records a check or uncheck of member `i` in the selections.
fn record(single: &mut Option<usize>, multi: &mut Vec<usize>, i: usize, check: bool)
    ensures
        (*final(single), final(multi)@) == spec_record(*old(single), old(multi)@, i, check),
{
    if check {
        *single = Some(i);
        push_new(multi, i);
    } else {
        if *single == Some(i) {
            *single = None;
        }
        let kept = remove_all(multi, i);
        *multi = kept;
    }
}

/// A click on member `i` of a single-mode set, as `spec_single_click` says.
fn single_click(states: &mut Vec<UIWidgetState>, i: usize, allow_none: bool) -> (change: Option<bool>)
    requires
        i < old(states)@.len(),
    ensures
        (final(states)@, change) == spec_single_click(old(states)@, i as int, allow_none),
{
    if !states[i].checked {
        check_only(states, i);
        Some(true)
    } else if allow_none {
        let st = with_checked(states[i], false);
        states.set(i, st);
        Some(false)
    } else {
        None
    }
}

impl SelectionGroup {
    /// A click on radio button `i` of the set.  Only a single-mode set
    /// reacts, and only to an enabled radio: an unchecked radio becomes the
    /// only checked one and the single selection; a checked one is unchecked
    /// (and dropped from the single selection) when the set allows none.
    /// Returns whether the radio becomes the current widget.
    pub fn radio_click(&mut self, i: usize) -> (current: bool)
        requires
            i < old(self).states@.len(),
        ensures
            current == (old(self).mode == FieldMode::Single && !old(self).states@[i as int].disabled),
            final(self).mode == old(self).mode,
            final(self).allow_none == old(self).allow_none,
            final(self).multi@ == old(self).multi@,
            !current ==> final(self).states@ == old(self).states@ && final(self).single
                == old(self).single,
            current ==> ({
                let (st, change) = spec_single_click(
                    old(self).states@,
                    i as int,
                    old(self).allow_none,
                );
                &&& final(self).states@ == st
                &&& final(self).single == (match change {
                    Some(true) => Some(i),
                    Some(false) => if old(self).single == Some(i) {
                        None
                    } else {
                        old(self).single
                    },
                    None => old(self).single,
                })
            }),
    {
        if self.mode != FieldMode::Single || self.states[i].disabled {
            return false;
        }
        let change = single_click(&mut self.states, i, self.allow_none);
        match change {
            Some(true) => {
                self.single = Some(i);
            },
            Some(false) => {
                if self.single == Some(i) {
                    self.single = None;
                }
            },
            None => {},
        }
        true
    }

    /// A click on toggle button `i` of the set (it becomes the current
    /// widget).  In a single-mode set it acts as a radio button does; in
    /// another set it flips.  A check records it as the single selection and
    /// adds it to the multiple one; an uncheck drops it from both.
    pub fn toggle_click(&mut self, i: usize)
        requires
            i < old(self).states@.len(),
        ensures
            final(self).mode == old(self).mode,
            final(self).allow_none == old(self).allow_none,
            ({
                let (st, change) = if old(self).mode == FieldMode::Single {
                    spec_single_click(old(self).states@, i as int, old(self).allow_none)
                } else {
                    let c = !old(self).states@[i as int].checked;
                    (
                        old(self).states@.update(
                            i as int,
                            spec_with_checked(old(self).states@[i as int], c),
                        ),
                        Some(c),
                    )
                };
                &&& final(self).states@ == st
                &&& (final(self).single, final(self).multi@) == (match change {
                    Some(c) => spec_record(old(self).single, old(self).multi@, i, c),
                    None => (old(self).single, old(self).multi@),
                })
            }),
    {
        let change = if self.mode == FieldMode::Single {
            single_click(&mut self.states, i, self.allow_none)
        } else {
            let c = !self.states[i].checked;
            let st = with_checked(self.states[i], c);
            self.states.set(i, st);
            Some(c)
        };
        if let Some(c) = change {
            record(&mut self.single, &mut self.multi, i, c);
        }
    }

    /// Keeps the single selection of a single-mode set of radios: without
    /// one, the first checked member becomes it.
    pub fn ensure_single_selection(&mut self)
        ensures
            final(self).mode == old(self).mode,
            final(self).allow_none == old(self).allow_none,
            final(self).states@ == old(self).states@,
            final(self).multi@ == old(self).multi@,
            (old(self).mode != FieldMode::Single || old(self).single is Some || forall|k: int|
                0 <= k < old(self).states@.len() ==> !#[trigger] old(self).states@[k].checked)
                ==> final(self).single == old(self).single,
            (old(self).mode == FieldMode::Single && old(self).single is None && exists|k: int|
                0 <= k < old(self).states@.len() && #[trigger] old(self).states@[k].checked) ==> ({
                let k = final(self).single->0;
                &&& final(self).single is Some
                &&& k < old(self).states@.len()
                &&& old(self).states@[k as int].checked
                &&& forall|j: int| 0 <= j < k ==> !#[trigger] old(self).states@[j].checked
            }),
    {
        if self.mode != FieldMode::Single || self.single.is_some() {
            return;
        }
        let mut k: usize = 0;
        while k < self.states.len()
            invariant
                k <= self.states@.len(),
                self.single is None,
                old(self).single is None,
                old(self).mode == FieldMode::Single,
                self.mode == old(self).mode,
                self.allow_none == old(self).allow_none,
                self.states@ == old(self).states@,
                self.multi@ == old(self).multi@,
                forall|j: int| 0 <= j < k ==> !#[trigger] self.states@[j].checked,
            decreases self.states@.len() - k,
        {
            if self.states[k].checked {
                assert(old(self).states@[k as int].checked);
                self.single = Some(k);
                return;
            }
            k += 1;
        }
    }
}

// ------------------------------------------------------------------
// Field set contents
// ------------------------------------------------------------------

/// What a field set's direct children are, and what follows: the kind it
/// takes (none: it keeps its kind), which children are hidden, and which
/// warnings are due.
#[derive(Clone, Debug)]
pub struct FieldsetScan {
    pub kind: Option<FieldKind>,
    pub hidden: Vec<bool>,
    pub warn_mixed: bool,
    pub warn_unsupported: bool,
}

/// Some child is a radio button.
pub open spec fn spec_has_radio(children: Seq<(bool, bool)>) -> bool {
    exists|k: int| 0 <= k < children.len() && (#[trigger] children[k]).0
}

/// Some child is a toggle button.
pub open spec fn spec_has_toggle(children: Seq<(bool, bool)>) -> bool {
    exists|k: int| 0 <= k < children.len() && (#[trigger] children[k]).1
}

/// Some child is neither.
pub open spec fn spec_has_other(children: Seq<(bool, bool)>) -> bool {
    exists|k: int| 0 <= k < children.len() && !(#[trigger] children[k]).0 && !children[k].1
}

/// Scans the direct children of a field set, each given as `(is_radio,
/// is_toggle)`.  Radios alone make it a radio set and toggles alone a toggle
/// set.  Children of neither kind are hidden; when both kinds occur
/// (mixed), every radio and toggle child is hidden too and the set keeps its
/// kind.  A warning is due once per set: for a mixed set, and for a set with
/// only unsupported children; `warned_mixed` and `warned_unsupported` record
/// that it was given.
pub fn scan_fieldset(
    children: &Vec<(bool, bool)>,
    warned_mixed: &mut bool,
    warned_unsupported: &mut bool,
) -> (r: FieldsetScan)
    ensures
        ({
            let c = children@;
            let radios = spec_has_radio(c);
            let toggles = spec_has_toggle(c);
            let mixed = radios && toggles;
            let only_other = !radios && !toggles && spec_has_other(c);
            &&& r.kind == (if radios && !toggles {
                Some(FieldKind::Radio)
            } else if toggles && !radios {
                Some(FieldKind::Toggle)
            } else {
                None
            })
            &&& r.hidden@.len() == c.len()
            &&& forall|k: int| 0 <= k < c.len() ==> #[trigger] r.hidden@[k] == (!(c[k].0 || c[k].1) || (
            mixed && (c[k].0 || c[k].1)))
            &&& r.warn_mixed == (mixed && !*old(warned_mixed))
            &&& *final(warned_mixed) == (*old(warned_mixed) || mixed)
            &&& r.warn_unsupported == (only_other && !*old(warned_unsupported))
            &&& *final(warned_unsupported) == (*old(warned_unsupported) || only_other)
        }),
{
    let mut radios = false;
    let mut toggles = false;
    let mut other = false;
    let mut k: usize = 0;
    while k < children.len()
        invariant
            k <= children@.len(),
            radios == exists|j: int| 0 <= j < k && (#[trigger] children@[j]).0,
            toggles == exists|j: int| 0 <= j < k && (#[trigger] children@[j]).1,
            other == exists|j: int| 0 <= j < k && !(#[trigger] children@[j]).0 && !children@[j].1,
        decreases children@.len() - k,
    {
        let (r, t) = children[k];
        proof {
            assert(children@[k as int] == (r, t));
        }
        radios = radios || r;
        toggles = toggles || t;
        other = other || (!r && !t);
        k += 1;
    }
    let mixed = radios && toggles;
    let mut hidden: Vec<bool> = Vec::new();
    let mut k: usize = 0;
    while k < children.len()
        invariant
            k <= children@.len(),
            hidden@.len() == k,
            forall|j: int| 0 <= j < k ==> #[trigger] hidden@[j] == (!(children@[j].0 || children@[j].1)
                || (mixed && (children@[j].0 || children@[j].1))),
        decreases children@.len() - k,
    {
        let (r, t) = children[k];
        let member = r || t;
        let h = !member || (mixed && member);
        hidden.push(h);
        k += 1;
    }
    let kind = if radios && !toggles {
        Some(FieldKind::Radio)
    } else if toggles && !radios {
        Some(FieldKind::Toggle)
    } else {
        None
    };
    let only_other = !radios && !toggles && other;
    let warn_mixed = mixed && !*warned_mixed;
    if mixed {
        *warned_mixed = true;
    }
    let warn_unsupported = only_other && !*warned_unsupported;
    if only_other {
        *warned_unsupported = true;
    }
    FieldsetScan { kind, hidden, warn_mixed, warn_unsupported }
}

// ------------------------------------------------------------------
// List box and choice box
// ------------------------------------------------------------------

/// The indices of the checked members, in order.
pub open spec fn spec_checked_indices(states: Seq<UIWidgetState>) -> Seq<usize>
    decreases states.len(),
{
    if states.len() == 0 {
        Seq::empty()
    } else {
        let r = spec_checked_indices(states.drop_last());
        if states.last().checked {
            r.push((states.len() - 1) as usize)
        } else {
            r
        }
    }
}

/// The indices of the checked members, in order.
pub fn checked_indices(states: &Vec<UIWidgetState>) -> (r: Vec<usize>)
    ensures
        r@ == spec_checked_indices(states@),
{
    let mut r: Vec<usize> = Vec::new();
    let mut k: usize = 0;
    while k < states.len()
        invariant
            k <= states@.len(),
            r@ == spec_checked_indices(states@.subrange(0, k as int)),
        decreases states@.len() - k,
    {
        proof {
            let nxt = states@.subrange(0, k + 1);
            assert(nxt.drop_last() =~= states@.subrange(0, k as int));
            assert(nxt.last() == states@[k as int]);
        }
        if states[k].checked {
            r.push(k);
        }
        k += 1;
    }
    assert(states@.subrange(0, states@.len() as int) =~= states@);
    r
}

/// A click on option `i` of a list box: with multiselect it flips; without,
/// it becomes the only checked option.  Returns the list box's new values:
/// the indices of its checked options, in order.
pub fn list_box_option_click(options: &mut Vec<UIWidgetState>, i: usize, multiselect: bool) -> (values:
    Vec<usize>)
    requires
        i < old(options)@.len(),
    ensures
        final(options)@ == (if multiselect {
            old(options)@.update(
                i as int,
                spec_with_checked(old(options)@[i as int], !old(options)@[i as int].checked),
            )
        } else {
            spec_only_checked(old(options)@, i as int)
        }),
        values@ == spec_checked_indices(final(options)@),
{
    if multiselect {
        let st = with_checked(options[i], !options[i].checked);
        options.set(i, st);
    } else {
        check_only(options, i);
    }
    checked_indices(options)
}

/// The value a choice box shows: a text and an optional icon.
#[derive(Clone, Debug)]
pub struct ChoiceValue {
    pub text: String,
    pub icon_path: Option<String>,
}

/// A click on option `i` of a choice box, whose value is `option_value`: it
/// becomes the only checked option, the choice box takes its value and its
/// list closes; an option with neither text nor icon also loses focus.
pub fn choice_option_click(
    options: &mut Vec<UIWidgetState>,
    i: usize,
    option_value: &ChoiceValue,
    choice: &mut UIWidgetState,
    value: &mut ChoiceValue,
)
    requires
        i < old(options)@.len(),
    ensures
        ({
            let only = spec_only_checked(old(options)@, i as int);
            let blank = option_value.text@.len() == 0 && option_value.icon_path is None;
            final(options)@ == (if blank {
                only.update(i as int, UIWidgetState { focused: false, ..only[i as int] })
            } else {
                only
            })
        }),
        final(value).text@ == option_value.text@,
        crate::input_edit::spec_opt_string(final(value).icon_path)
            == crate::input_edit::spec_opt_string(option_value.icon_path),
        *final(choice) == (UIWidgetState { open: false, ..*old(choice) }),
{
    check_only(options, i);
    value.text = option_value.text.clone();
    value.icon_path = option_value.icon_path.clone();
    choice.open = false;
    if option_value.text.as_str().unicode_len() == 0 && option_value.icon_path.is_none() {
        let st = UIWidgetState { focused: false, ..options[i] };
        options.set(i, st);
    }
}

/// A click on a choice box: it takes focus and its list opens or closes.
pub fn choice_box_click(ui: &mut UIWidgetState)
    ensures
        *final(ui) == (UIWidgetState { focused: true, open: !old(ui).open, ..*old(ui) }),
{
    ui.focused = true;
    ui.open = !ui.open;
}

/// Whether a choice box's list is shown: a choice box that lost focus
/// closes it.
pub fn choice_list_shown(ui: &mut UIWidgetState) -> (shown: bool)
    ensures
        *final(ui) == (if old(ui).focused {
            *old(ui)
        } else {
            UIWidgetState { open: false, ..*old(ui) }
        }),
        shown == (old(ui).focused && old(ui).open),
{
    if !ui.focused {
        ui.open = false;
    }
    ui.open
}

/// A choice box's label sits small on top while it is focused or shows a
/// value (a text or an icon), and large in its middle otherwise.
pub fn choice_label_on_top(ui: &UIWidgetState, value: &ChoiceValue) -> (b: bool)
    ensures
        b == (ui.focused || !(value.text@.len() == 0 && value.icon_path is None)),
{
    ui.focused || !(value.text.as_str().unicode_len() == 0 && value.icon_path.is_none())
}

// ------------------------------------------------------------------
// Stand-alone switches
// ------------------------------------------------------------------

/// A click on a check box: it takes focus and flips.
pub fn check_box_click(ui: &mut UIWidgetState)
    ensures
        *final(ui) == (UIWidgetState { focused: true, checked: !old(ui).checked, ..*old(ui) }),
{
    ui.focused = true;
    ui.checked = !ui.checked;
}

/// A click on a switch: an enabled switch flips and takes focus.  Returns
/// whether it becomes the current widget.
pub fn switch_click(ui: &mut UIWidgetState) -> (current: bool)
    ensures
        current == !old(ui).disabled,
        *final(ui) == (if old(ui).disabled {
            *old(ui)
        } else {
            UIWidgetState { focused: true, checked: !old(ui).checked, ..*old(ui) }
        }),
{
    if ui.disabled {
        return false;
    }
    ui.checked = !ui.checked;
    ui.focused = true;
    true
}

/// A click on a toggle button outside any field set: it flips.
pub fn lone_toggle_click(ui: &mut UIWidgetState)
    ensures
        *final(ui) == spec_with_checked(*old(ui), !old(ui).checked),
{
    ui.checked = !ui.checked;
}

/// The pointer entering a radio button hovers it unless it is disabled.
pub fn radio_pointer_over(ui: &mut UIWidgetState)
    ensures
        *final(ui) == (UIWidgetState { hovered: !old(ui).disabled, ..*old(ui) }),
{
    ui.hovered = !ui.disabled;
}

// ------------------------------------------------------------------
// Laws
// ------------------------------------------------------------------

/// At most one member is checked.
pub open spec fn spec_at_most_one(states: Seq<UIWidgetState>) -> bool {
    forall|a: int, b: int|
        0 <= a < states.len() && 0 <= b < states.len() && #[trigger] states[a].checked
            && #[trigger] states[b].checked ==> a == b
}

/// Some member is checked.
pub open spec fn spec_some_checked(states: Seq<UIWidgetState>) -> bool {
    exists|k: int| 0 <= k < states.len() && #[trigger] states[k].checked
}

/// In a single-mode set a click never leaves two members checked; a click
/// that checks a member leaves it the only checked one; and a set that does
/// not allow none keeps a checked member once it has one.
pub proof fn law_single_mode_click(states: Seq<UIWidgetState>, i: int, allow_none: bool)
    requires
        0 <= i < states.len(),
        spec_at_most_one(states),
    ensures
        ({
            let (st, change) = spec_single_click(states, i, allow_none);
            &&& spec_at_most_one(st)
            &&& st.len() == states.len()
            &&& change == Some(true) ==> forall|k: int| 0 <= k < st.len() ==> (#[trigger] st[k]).checked == (k == i)
            &&& (!allow_none && spec_some_checked(states)) ==> spec_some_checked(st)
        }),
{
    let (st, change) = spec_single_click(states, i, allow_none);
    if !states[i].checked {
        assert(st[i].checked);
    } else if !allow_none {
        assert(st[i].checked);
    } else {
        assert forall|a: int, b: int|
            0 <= a < st.len() && 0 <= b < st.len() && #[trigger] st[a].checked && #[trigger] st[b].checked
            implies a == b by {
            assert(states[a].checked && states[b].checked);
        }
    }
}

/// The multiple selection lists exactly the checked members, each once.
pub open spec fn spec_multi_records(states: Seq<UIWidgetState>, multi: Seq<usize>) -> bool {
    &&& multi.no_duplicates()
    &&& forall|j: int| 0 <= j < multi.len() ==> multi[j] < states.len()
    &&& forall|k: usize| k < states.len() ==> (#[trigger] states[k as int].checked <==> multi.contains(k))
}

/// Appending `v` adds exactly `v` to what a sequence contains.
pub proof fn lemma_push_contains(s: Seq<usize>, v: usize, y: usize)
    ensures
        s.push(v).contains(y) <==> (s.contains(y) || v == y),
{
    let t = s.push(v);
    if s.contains(y) {
        let n = choose|n: int| 0 <= n < s.len() && s[n] == y;
        assert(t[n] == y);
    }
    if v == y {
        assert(t[s.len() as int] == y);
    }
    if t.contains(y) {
        let n = choose|n: int| 0 <= n < t.len() && t[n] == y;
        if n < s.len() {
            assert(s[n] == y);
        }
    }
}

/// What `spec_remove_all` keeps: every element but `x`, and no element twice
/// when there was none.
pub proof fn lemma_remove_all(s: Seq<usize>, x: usize)
    ensures
        forall|y: usize| #[trigger] spec_remove_all(s, x).contains(y) <==> (s.contains(y) && y != x),
        s.no_duplicates() ==> spec_remove_all(s, x).no_duplicates(),
    decreases s.len(),
{
    if s.len() > 0 {
        let s0 = s.drop_last();
        let l = s.last();
        lemma_remove_all(s0, x);
        let r = spec_remove_all(s0, x);
        assert(s =~= s0.push(l));
        assert forall|y: usize| #[trigger] spec_remove_all(s, x).contains(y) <==> (s.contains(y) && y != x) by {
            lemma_push_contains(s0, l, y);
            if l != x {
                lemma_push_contains(r, l, y);
            }
        }
        if s.no_duplicates() {
            assert(s0.no_duplicates()) by {
                assert forall|a: int, b: int| 0 <= a < s0.len() && 0 <= b < s0.len() && a != b implies s0[a] != s0[b] by {
                    assert(s[a] == s0[a] && s[b] == s0[b]);
                }
            }
            if l != x {
                assert(!s0.contains(l)) by {
                    if s0.contains(l) {
                        let n = choose|n: int| 0 <= n < s0.len() && s0[n] == l;
                        assert(s[n] == s[s.len() - 1]);
                    }
                }
                assert(!r.contains(l));
                let rr = r.push(l);
                assert forall|a: int, b: int| 0 <= a < rr.len() && 0 <= b < rr.len() && a != b implies rr[a] != rr[b] by {
                    if a < r.len() && b < r.len() {
                    } else if a < r.len() {
                        assert(rr[a] == r[a]);
                        assert(r.contains(r[a]));
                    } else {
                        assert(rr[b] == r[b]);
                        assert(r.contains(r[b]));
                    }
                }
            }
        }
    }
}

/// In a multi-mode set whose multiple selection lists exactly its checked
/// members, each once, a toggle click keeps it so.
pub proof fn law_multi_toggle_keeps_records(
    states: Seq<UIWidgetState>,
    single: Option<usize>,
    multi: Seq<usize>,
    i: usize,
)
    requires
        i < states.len(),
        spec_multi_records(states, multi),
    ensures
        ({
            let c = !states[i as int].checked;
            let st = states.update(i as int, spec_with_checked(states[i as int], c));
            let (_, m2) = spec_record(single, multi, i, c);
            spec_multi_records(st, m2)
        }),
{
    let c = !states[i as int].checked;
    let st = states.update(i as int, spec_with_checked(states[i as int], c));
    let (_, m2) = spec_record(single, multi, i, c);
    if c {
        assert(!multi.contains(i)) by {
            assert(!states[i as int].checked);
        }
        assert(m2 == multi.push(i));
        assert forall|a: int, b: int| 0 <= a < m2.len() && 0 <= b < m2.len() && a != b implies m2[a] != m2[b] by {
            if a < multi.len() && b < multi.len() {
            } else if a < multi.len() {
                assert(m2[a] == multi[a]);
                assert(multi.contains(multi[a]));
            } else {
                assert(m2[b] == multi[b]);
                assert(multi.contains(multi[b]));
            }
        }
        assert forall|j: int| 0 <= j < m2.len() implies m2[j] < st.len() by {
            if j < multi.len() {
                assert(m2[j] == multi[j]);
            }
        }
        assert forall|k: usize| k < st.len() implies (#[trigger] st[k as int].checked <==> m2.contains(k)) by {
            lemma_push_contains(multi, i, k);
            assert(states[k as int].checked <==> multi.contains(k));
        }
    } else {
        lemma_remove_all(multi, i);
        assert forall|j: int| 0 <= j < m2.len() implies m2[j] < st.len() by {
            assert(m2.contains(m2[j]));
            assert(multi.contains(m2[j]));
            let m = choose|m: int| 0 <= m < multi.len() && multi[m] == m2[j];
        }
        assert forall|k: usize| k < st.len() implies (#[trigger] st[k as int].checked <==> m2.contains(k)) by {
            assert(m2.contains(k) <==> (multi.contains(k) && k != i));
            assert(states[k as int].checked <==> multi.contains(k));
        }
    }
}

/// A list box without multiselect has, after a click on an option, that
/// option as its only value.
pub proof fn law_list_box_single_select(options: Seq<UIWidgetState>, i: int)
    requires
        0 <= i < options.len(),
    ensures
        spec_checked_indices(spec_only_checked(options, i)) == seq![i as usize],
{
    let st = spec_only_checked(options, i);
    assert forall|n: int| 0 <= n <= st.len() implies #[trigger] spec_checked_indices(st.subrange(0, n)) == (
    if n > i {
        seq![i as usize]
    } else {
        Seq::<usize>::empty()
    }) by {
        lemma_checked_prefix(st, i, n);
    }
    assert(st.subrange(0, st.len() as int) =~= st);
}

proof fn lemma_checked_prefix(st: Seq<UIWidgetState>, i: int, n: int)
    requires
        0 <= i < st.len(),
        0 <= n <= st.len(),
        forall|k: int| 0 <= k < st.len() ==> (#[trigger] st[k]).checked == (k == i),
    ensures
        spec_checked_indices(st.subrange(0, n)) == (if n > i {
            seq![i as usize]
        } else {
            Seq::<usize>::empty()
        }),
    decreases n,
{
    if n > 0 {
        lemma_checked_prefix(st, i, n - 1);
        let p = st.subrange(0, n);
        assert(p.drop_last() =~= st.subrange(0, n - 1));
        assert(p.last() == st[n - 1]);
    }
}

} // verus!
