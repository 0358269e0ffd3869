//! Widget identity and interaction state shared by every widget, and the
//! inline `style="..."` attribute reader.

use vstd::prelude::*;

use crate::text::{
    chars_of, spec_split_once, spec_trim, split_once, string_from_chars, trim_chars,
};

verus! {

/// Unique identifier of a UI element.
#[derive(Clone, Copy, Debug, PartialEq, Eq, Structural)]
pub struct UIGenID(usize);

impl View for UIGenID {
    type V = usize;

    closed spec fn view(&self) -> usize {
        self.0
    }
}

impl UIGenID {
    /// The identifier with the number `id`.
    pub fn new(id: usize) -> (r: UIGenID)
        ensures
            r@ == id,
    {
        UIGenID(id)
    }

    /// The number of this identifier.
    pub fn get(&self) -> (id: usize)
        ensures
            id == self@,
    {
        self.0
    }
}

/// Hands out widget identifiers: each new one is the next number, so no
/// two identifiers it hands out are equal.
#[derive(Debug)]
pub struct UIGenIDGenerator {
    pub next: usize,
}

impl UIGenIDGenerator {
    /// A generator whose first identifier is 1 (0 stands for no widget).
    pub fn new() -> (g: UIGenIDGenerator)
        ensures
            g.next == 1,
    {
        UIGenIDGenerator { next: 1 }
    }

    /// A new identifier, different from every one handed out before: the
    /// next number, which then moves on by one.
    pub fn fresh(&mut self) -> (id: UIGenID)
        requires
            old(self).next < usize::MAX,
        ensures
            id@ == old(self).next,
            final(self).next == old(self).next + 1,
    {
        let id = UIGenID(self.next);
        self.next = self.next + 1;
        id
    }
}

/// The identifiers `n` calls of `fresh` hand out, in order, from a
/// generator whose next number is `start`.
pub open spec fn spec_issued(start: int, n: nat) -> Seq<int> {
    Seq::new(n, |k: int| start + k)
}

/// Identifiers handed out one after another by a generator all differ, and
/// the generator's next number exceeds each of them.
pub proof fn law_fresh_ids_differ(start: int, n: nat)
    ensures
        forall|i: int, j: int| 0 <= i < j < n ==> #[trigger] spec_issued(start, n)[i] != #[trigger] spec_issued(
            start,
            n,
        )[j],
        forall|i: int| 0 <= i < n ==> #[trigger] spec_issued(start, n)[i] < start + n,
{
}

/// Binds a child element to the widget with the given identifier.
#[derive(Clone, Copy, Debug, PartialEq, Eq, Structural)]
pub struct BindToID(pub usize);

/// Interaction flags of a widget.
#[derive(Clone, Copy, Debug, PartialEq, Eq, Structural)]
pub struct UIWidgetState {
    pub focused: bool,
    pub hovered: bool,
    pub disabled: bool,
    pub readonly: bool,
    pub checked: bool,
    pub open: bool,
    pub invalid: bool,
}

impl Default for UIWidgetState {
    /// All flags cleared.
    fn default() -> (s: Self)
        ensures
            !s.focused && !s.hovered && !s.disabled && !s.readonly && !s.checked && !s.open
                && !s.invalid,
    {
        UIWidgetState {
            focused: false,
            hovered: false,
            disabled: false,
            readonly: false,
            checked: false,
            open: false,
            invalid: false,
        }
    }
}

/// The identifier of the widget that currently has focus (0 for none).
#[derive(Clone, Copy, Debug, PartialEq, Eq, Structural)]
pub struct CurrentWidgetState {
    pub widget_id: usize,
}

impl Default for CurrentWidgetState {
    /// No widget focused.
    fn default() -> (s: Self)
        ensures
            s.widget_id == 0,
    {
        CurrentWidgetState { widget_id: 0 }
    }
}

/// Marks elements that keep their own state instead of inheriting the
/// parent widget's.
#[derive(Clone, Copy, Debug, PartialEq, Eq, Structural)]
pub struct IgnoreParentState;

// ------------------------------------------------------------------
// Inline style attribute
// ------------------------------------------------------------------

/// One `name: value` declaration of an inline style.
#[derive(Clone, Debug)]
pub struct StyleDeclaration {
    pub name: String,
    pub value: String,
}

/// The declarations of an inline style attribute, in order; each is applied
/// to the widget's style by the style system.
#[derive(Clone, Debug)]
pub struct HtmlStyle(pub Vec<StyleDeclaration>);

/// Splitting `s` at every `c`, read from the left: the finished pieces and
/// the piece being read.
pub open spec fn spec_split_acc(s: Seq<char>, c: char) -> (Seq<Seq<char>>, Seq<char>)
    decreases s.len(),
{
    if s.len() == 0 {
        (Seq::empty(), Seq::empty())
    } else {
        let (done, cur) = spec_split_acc(s.drop_last(), c);
        if s.last() == c {
            (done.push(cur), Seq::empty())
        } else {
            (done, cur.push(s.last()))
        }
    }
}

/// The pieces of `s` between occurrences of `c` (`str::split(c)`).
pub open spec fn spec_split(s: Seq<char>, c: char) -> Seq<Seq<char>> {
    let (done, cur) = spec_split_acc(s, c);
    done.push(cur)
}

/// The declaration a piece of a style attribute holds: the trimmed piece
/// split at its first `:` (or, without one, at its first space), both sides
/// trimmed; nothing for an empty piece or one with neither.
pub open spec fn spec_style_decl(piece: Seq<char>) -> Option<(Seq<char>, Seq<char>)> {
    let t = spec_trim(piece);
    if t.len() == 0 {
        None
    } else {
        match spec_split_once(t, ":"@) {
            Some((k, v)) => Some((spec_trim(k), spec_trim(v))),
            None => match spec_split_once(t, " "@) {
                Some((k, v)) => Some((spec_trim(k), spec_trim(v))),
                None => None,
            },
        }
    }
}

/// The declarations held by a sequence of pieces, in order.
pub open spec fn spec_style_decls(pieces: Seq<Seq<char>>) -> Seq<(Seq<char>, Seq<char>)>
    decreases pieces.len(),
{
    if pieces.len() == 0 {
        Seq::empty()
    } else {
        let rest = spec_style_decls(pieces.drop_last());
        match spec_style_decl(pieces.last()) {
            Some(d) => rest.push(d),
            None => rest,
        }
    }
}

/// The declarations of `HtmlStyle` as plain sequences.
pub open spec fn spec_decl_views(decls: Seq<StyleDeclaration>) -> Seq<(Seq<char>, Seq<char>)> {
    decls.map_values(|d: StyleDeclaration| (d.name@, d.value@))
}

fn style_decl(piece: &Vec<char>) -> (r: Option<StyleDeclaration>)
    ensures
        match r {
            Some(d) => spec_style_decl(piece@) == Some((d.name@, d.value@)),
            None => spec_style_decl(piece@) is None,
        },
{
    let t = trim_chars(piece);
    if t.len() == 0 {
        return None;
    }
    let colon = chars_of(":");
    if let Some((k, v)) = split_once(&t, &colon) {
        let name = string_from_chars(&trim_chars(&k));
        let value = string_from_chars(&trim_chars(&v));
        return Some(StyleDeclaration { name, value });
    }
    let space = chars_of(" ");
    if let Some((k, v)) = split_once(&t, &space) {
        let name = string_from_chars(&trim_chars(&k));
        let value = string_from_chars(&trim_chars(&v));
        return Some(StyleDeclaration { name, value });
    }
    None
}

fn push_decl(out: &mut Vec<StyleDeclaration>, piece: &Vec<char>, ghost_done: Ghost<Seq<Seq<char>>>)
    requires
        spec_decl_views(old(out)@) == spec_style_decls(ghost_done@),
    ensures
        spec_decl_views(final(out)@) == spec_style_decls(ghost_done@.push(piece@)),
{
    let ghost done = ghost_done@;
    assert(done.push(piece@).drop_last() =~= done);
    match style_decl(piece) {
        Some(d) => {
            out.push(d);
            assert(spec_decl_views(out@) =~= spec_decl_views(old(out)@).push((d.name@, d.value@)));
        },
        None => {},
    }
}

impl HtmlStyle {
    /// Reads an inline style such as `"display: flex; justify-content: center;"`.
    pub fn from_str(style_code: &str) -> (r: HtmlStyle)
        ensures
            spec_decl_views(r.0@) == spec_style_decls(spec_split(style_code@, ';')),
    {
        let s = chars_of(style_code);
        let mut out: Vec<StyleDeclaration> = Vec::new();
        let mut cur: Vec<char> = Vec::new();
        let ghost mut done: Seq<Seq<char>> = Seq::empty();
        let mut i: usize = 0;
        while i < s.len()
            invariant
                i <= s@.len(),
                (done, cur@) == spec_split_acc(s@.subrange(0, i as int), ';'),
                spec_decl_views(out@) == spec_style_decls(done),
            decreases s@.len() - i,
        {
            let c = s[i];
            proof {
                let nxt = s@.subrange(0, i + 1);
                assert(nxt.drop_last() =~= s@.subrange(0, i as int));
                assert(nxt.last() == c);
            }
            if c == ';' {
                push_decl(&mut out, &cur, Ghost(done));
                proof {
                    done = done.push(cur@);
                }
                cur = Vec::new();
            } else {
                cur.push(c);
            }
            i += 1;
        }
        assert(s@.subrange(0, s@.len() as int) =~= s@);
        push_decl(&mut out, &cur, Ghost(done));
        HtmlStyle(out)
    }
}

} // verus!
