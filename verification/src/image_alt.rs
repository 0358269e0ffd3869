//! When an image shows its alternative text: at once when it has no source,
//! and when loading its source failed, until a source loads.

use vstd::prelude::*;

use crate::text::{chars_eq, chars_of, spec_trim, string_from_chars, trimmed_chars};

verus! {

/// Whether the alternative text is what an image currently shows.
#[derive(Clone, Copy, Debug, PartialEq, Eq, Structural)]
pub enum ImgFallback {
    ImageShown,
    AltShown,
}

/// How loading an image's source stands.
#[derive(Clone, Copy, Debug, PartialEq, Eq, Structural)]
pub enum LoadStatus {
    Loaded,
    Failed,
    Pending,
}

/// What becomes of the node that shows the alternative text.
#[derive(Clone, Debug)]
pub enum AltAction {
    Nothing,
    /// Show this text, in the existing node or a new one.
    Show(String),
    /// Put this text in the existing node.
    Update(String),
    /// Remove the node.
    Remove,
}

/// The alternative-text state of an image: what it shows, whether it has a
/// node for the text, and the text last written.
#[derive(Clone, Debug)]
pub struct ImgAltState {
    pub fallback: ImgFallback,
    pub has_node: bool,
    pub cached: String,
}

/// Whether an image has no source: none, or a blank one.
pub open spec fn spec_src_empty(src: Option<Seq<char>>) -> bool {
    match src {
        Some(s) => spec_trim(s).len() == 0,
        None => true,
    }
}

/// The view of an optional `&str`.
pub open spec fn spec_opt_str(src: Option<&str>) -> Option<Seq<char>> {
    match src {
        Some(s) => Some(s@),
        None => None,
    }
}

/// Whether an image has no source.
pub fn is_src_empty(src: Option<&str>) -> (b: bool)
    ensures
        b == spec_src_empty(spec_opt_str(src)),
{
    match src {
        Some(s) => trimmed_chars(s).len() == 0,
        None => true,
    }
}

/// The source to load for an image: its source unless that is blank.
pub fn image_source(src: Option<&str>) -> (r: Option<String>)
    ensures
        crate::input_edit::spec_opt_string(r) == (if spec_src_empty(spec_opt_str(src)) {
            None
        } else {
            spec_opt_str(src)
        }),
{
    match src {
        Some(s) => if trimmed_chars(s).len() == 0 {
            None
        } else {
            Some(string_from_chars(&chars_of(s)))
        },
        None => None,
    }
}

/// An action as a tag and a text: `Nothing` is 0, `Show(t)` is 1 with
/// `t`, `Update(t)` is 2 with `t`, `Remove` is 3.
pub open spec fn spec_action(a: AltAction) -> (int, Seq<char>) {
    match a {
        AltAction::Nothing => (0, Seq::empty()),
        AltAction::Show(t) => (1, t@),
        AltAction::Update(t) => (2, t@),
        AltAction::Remove => (3, Seq::empty()),
    }
}

/// Showing the alternative text `alt`: a blank text shows nothing new
/// (an existing node then records it as written); any other text is shown,
/// trimmed, in a node, and recorded.  Returns the new `(has_node, cached)`
/// and the action.
pub open spec fn spec_show_alt(has_node: bool, cached: Seq<char>, alt: Seq<char>) -> (bool, Seq<char>, (
    int,
    Seq<char>,
)) {
    let t = spec_trim(alt);
    if t.len() == 0 {
        (has_node, if has_node {
            t
        } else {
            cached
        }, (0, Seq::empty()))
    } else {
        (true, t, (1, t))
    }
}

fn show_alt(state: &mut ImgAltState, alt: &str) -> (a: AltAction)
    ensures
        ({
            let (n, c, act) = spec_show_alt(old(state).has_node, old(state).cached@, alt@);
            &&& final(state).has_node == n
            &&& final(state).cached@ == c
            &&& final(state).fallback == old(state).fallback
            &&& spec_action(a) == act
        }),
{
    let t = trimmed_chars(alt);
    if t.len() == 0 {
        if state.has_node {
            state.cached = string_from_chars(&t);
        }
        return AltAction::Nothing;
    }
    state.has_node = true;
    state.cached = string_from_chars(&t);
    AltAction::Show(string_from_chars(&t))
}

impl ImgAltState {
    /// A new image: nothing shown, no node.
    pub fn new() -> (s: ImgAltState)
        ensures
            s.fallback == ImgFallback::ImageShown,
            !s.has_node,
            s.cached@ == Seq::<char>::empty(),
    {
        ImgAltState { fallback: ImgFallback::ImageShown, has_node: false, cached: String::new() }
    }

    /// The image's source or alternative text changed: without a source the
    /// alternative text shows at once; with one, nothing is shown until it
    /// loads or fails (the text node stays meanwhile).
    pub fn on_change(&mut self, src: Option<&str>, alt: &str) -> (a: AltAction)
        ensures
            spec_src_empty(spec_opt_str(src)) ==> ({
                let (n, c, act) = spec_show_alt(old(self).has_node, old(self).cached@, alt@);
                &&& final(self).fallback == ImgFallback::AltShown
                &&& final(self).has_node == n
                &&& final(self).cached@ == c
                &&& spec_action(a) == act
            }),
            !spec_src_empty(spec_opt_str(src)) ==> final(self).fallback == ImgFallback::ImageShown
                && final(self).has_node == old(self).has_node && final(self).cached@ == old(
                self,
            ).cached@ && a is Nothing,
    {
        if is_src_empty(src) {
            let a = show_alt(self, alt);
            self.fallback = ImgFallback::AltShown;
            a
        } else {
            self.fallback = ImgFallback::ImageShown;
            AltAction::Nothing
        }
    }

    /// A frame with the source's load status.  Nothing happens for an image
    /// without a source or while loading.  A loaded source removes the text
    /// shown; a failed one shows the text, or, when it shows already,
    /// rewrites it if it changed.
    pub fn on_load_status(&mut self, src: Option<&str>, alt: &str, status: LoadStatus) -> (a: AltAction)
        ensures
            (spec_src_empty(spec_opt_str(src)) || status == LoadStatus::Pending) ==> final(self).fallback
                == old(self).fallback && final(self).has_node == old(self).has_node
                && final(self).cached@ == old(self).cached@ && a is Nothing,
            !spec_src_empty(spec_opt_str(src)) && status == LoadStatus::Loaded ==> ({
                if old(self).fallback == ImgFallback::AltShown {
                    &&& final(self).fallback == ImgFallback::ImageShown
                    &&& !final(self).has_node
                    &&& final(self).cached@ == old(self).cached@
                    &&& spec_action(a) == (if old(self).has_node {
                        (3int, Seq::<char>::empty())
                    } else {
                        (0int, Seq::<char>::empty())
                    })
                } else {
                    &&& final(self).fallback == old(self).fallback
                    &&& final(self).has_node == old(self).has_node
                    &&& final(self).cached@ == old(self).cached@
                    &&& a is Nothing
                }
            }),
            !spec_src_empty(spec_opt_str(src)) && status == LoadStatus::Failed ==> ({
                if old(self).fallback != ImgFallback::AltShown {
                    let (n, c, act) = spec_show_alt(old(self).has_node, old(self).cached@, alt@);
                    &&& final(self).fallback == ImgFallback::AltShown
                    &&& final(self).has_node == n
                    &&& final(self).cached@ == c
                    &&& spec_action(a) == act
                } else if old(self).cached@ != spec_trim(alt@) && old(self).has_node {
                    &&& final(self).fallback == old(self).fallback
                    &&& final(self).has_node
                    &&& final(self).cached@ == spec_trim(alt@)
                    &&& spec_action(a) == (2int, spec_trim(alt@))
                } else {
                    &&& final(self).fallback == old(self).fallback
                    &&& final(self).has_node == old(self).has_node
                    &&& final(self).cached@ == old(self).cached@
                    &&& a is Nothing
                }
            }),
    {
        if is_src_empty(src) {
            return AltAction::Nothing;
        }
        match status {
            LoadStatus::Loaded => {
                if self.fallback == ImgFallback::AltShown {
                    let had = self.has_node;
                    self.has_node = false;
                    self.fallback = ImgFallback::ImageShown;
                    if had {
                        AltAction::Remove
                    } else {
                        AltAction::Nothing
                    }
                } else {
                    AltAction::Nothing
                }
            },
            LoadStatus::Failed => {
                if self.fallback != ImgFallback::AltShown {
                    let a = show_alt(self, alt);
                    self.fallback = ImgFallback::AltShown;
                    a
                } else {
                    let t = trimmed_chars(alt);
                    let cached = chars_of(self.cached.as_str());
                    if !chars_eq(&cached, &t) && self.has_node {
                        self.cached = string_from_chars(&t);
                        AltAction::Update(string_from_chars(&t))
                    } else {
                        AltAction::Nothing
                    }
                }
            },
            LoadStatus::Pending => AltAction::Nothing,
        }
    }
}

} // verus!
