//! Which bodies and divs the pointer is over.  Pointer-over and pointer-out
//! messages arrive for the many nodes inside a widget; each widget counts
//! the nodes the pointer is over and stays hovered while that count is
//! positive.  The widget the pointer entered last receives the mouse wheel.
//! Widgets are named by their entity bits.

use vstd::prelude::*;

use std::collections::HashMap;

verus! {

broadcast use vstd::std_specs::hash::group_hash_axioms;

/// Hover counts per widget and the widget that receives the wheel.
#[derive(Debug)]
pub struct HoverTracker {
    pub counts: HashMap<u64, u32>,
    pub last: Option<u64>,
}

/// The count after one more node is entered (it stops at `u32::MAX`).
pub open spec fn spec_inc(c: u32) -> u32 {
    if c == u32::MAX {
        c
    } else {
        (c + 1) as u32
    }
}

/// The counts after widget `b` is entered once more.
pub open spec fn spec_entered(m: Map<u64, u32>, b: u64) -> Map<u64, u32> {
    m.insert(b, spec_inc(if m.contains_key(b) {
        m[b]
    } else {
        0
    }))
}

/// The counts after widget `b` is left once: its count drops by one, and it
/// is forgotten when that reaches zero.
pub open spec fn spec_left(m: Map<u64, u32>, b: u64) -> Map<u64, u32> {
    if !m.contains_key(b) {
        m
    } else if m[b] <= 1 {
        m.remove(b)
    } else {
        m.insert(b, (m[b] - 1) as u32)
    }
}

impl HoverTracker {
    /// Every counted widget is over at least one node; the wheel widget is
    /// a counted one, and there is one whenever any widget is counted.
    pub open spec fn wf(&self) -> bool {
        &&& forall|k: u64| #[trigger] self.counts@.contains_key(k) ==> self.counts@[k] > 0
        &&& (self.last matches Some(k) ==> self.counts@.contains_key(k))
        &&& (self.counts@.dom().len() > 0 ==> self.last is Some)
        &&& self.counts@.dom().finite()
    }

    /// No widget hovered.
    pub fn new() -> (t: HoverTracker)
        ensures
            t.wf(),
            t.counts@ == Map::<u64, u32>::empty(),
            t.last is None,
    {
        HoverTracker { counts: HashMap::new(), last: None }
    }

    fn bump(&mut self, b: u64)
        ensures
            final(self).counts@ == spec_entered(old(self).counts@, b),
            final(self).last == old(self).last,
    {
        let c: u32 = match self.counts.get(&b) {
            Some(c) => *c,
            None => 0,
        };
        let n = if c == u32::MAX {
            c
        } else {
            c + 1
        };
        self.counts.insert(b, n);
    }

    /// The pointer entered a node of body `b`: `b` counts one more node and
    /// receives the wheel.
    pub fn enter(&mut self, b: u64)
        requires
            old(self).wf(),
        ensures
            final(self).wf(),
            final(self).counts@ == spec_entered(old(self).counts@, b),
            final(self).last == Some(b),
    {
        self.bump(b);
        self.last = Some(b);
        proof {
            assert(self.counts@.dom() =~= old(self).counts@.dom().insert(b));
        }
    }

    /// Drops one node of widget `b`.  Returns whether `b` is no longer
    /// hovered; the wheel then goes to some widget still hovered, if any.
    pub fn leave(&mut self, b: u64) -> (ended: bool)
        requires
            old(self).wf(),
        ensures
            final(self).wf(),
            final(self).counts@ == spec_left(old(self).counts@, b),
            ended == (old(self).counts@.contains_key(b) && old(self).counts@[b] <= 1),
            !ended || old(self).last != Some(b) ==> final(self).last == old(self).last,
    {
        let c: u32 = match self.counts.get(&b) {
            Some(c) => *c,
            None => return false,
        };
        if c > 1 {
            self.counts.insert(b, c - 1);
            return false;
        }
        self.counts.remove(&b);
        proof {
            assert(self.counts@.dom() =~= old(self).counts@.dom().remove(b));
        }
        if self.last == Some(b) {
            let mut first: Option<u64> = None;
            for k in it: self.counts.keys()
                invariant
                    first matches Some(f) ==> self.counts@.dom().contains(f),
                    it.index() > 0 ==> first is Some,
                    it.seq().unref().to_set() == self.counts@.dom(),
                    it.seq().len() == self.counts@.dom().len(),
                    self.counts@.dom().len() > 0 ==> (first is Some || it.index() < it.seq().len()),
            {
                if first.is_none() {
                    proof {
                        assert(it.seq().unref().to_set().contains(*k));
                    }
                    first = Some(*k);
                }
            }
            self.last = first;
        }
        true
    }
}

/// The counts after each widget of `ids` is entered once, in order.
pub open spec fn spec_entered_all(m: Map<u64, u32>, ids: Seq<u64>) -> Map<u64, u32>
    decreases ids.len(),
{
    if ids.len() == 0 {
        m
    } else {
        spec_entered(spec_entered_all(m, ids.drop_last()), ids.last())
    }
}

/// The counts after each widget of `ids` is left once, in order.
pub open spec fn spec_left_all(m: Map<u64, u32>, ids: Seq<u64>) -> Map<u64, u32>
    decreases ids.len(),
{
    if ids.len() == 0 {
        m
    } else {
        spec_left(spec_left_all(m, ids.drop_last()), ids.last())
    }
}

/// The widgets of `ids` whose hover ends when they are left once each, in
/// order, starting from the counts `m`.
pub open spec fn spec_ended_all(m: Map<u64, u32>, ids: Seq<u64>) -> Seq<u64>
    decreases ids.len(),
{
    if ids.len() == 0 {
        Seq::empty()
    } else {
        let before = spec_left_all(m, ids.drop_last());
        let r = spec_ended_all(m, ids.drop_last());
        if before.contains_key(ids.last()) && before[ids.last()] <= 1 {
            r.push(ids.last())
        } else {
            r
        }
    }
}

/// The wheel target when the pointer enters a div nested in `ancestors`
/// (innermost first): the first of the div and its ancestors that scrolls,
/// else the div itself.
pub open spec fn spec_wheel_div(d: u64, d_scrolls: bool, ancestors: Seq<(u64, bool)>) -> u64
    decreases ancestors.len(),
{
    if d_scrolls {
        d
    } else if ancestors.len() == 0 {
        d
    } else {
        let first = ancestors[0];
        if first.1 {
            first.0
        } else {
            spec_wheel_div(d, false, ancestors.drop_first())
        }
    }
}

/// The ids of a list of `(id, scrolls)` pairs.
pub open spec fn spec_ids(pairs: Seq<(u64, bool)>) -> Seq<u64> {
    pairs.map_values(|p: (u64, bool)| p.0)
}

impl HoverTracker {
    /// The pointer entered a node of div `d` (`d_scrolls`: whether it has a
    /// scroll content), nested in the divs `ancestors`, innermost first, each
    /// with whether it scrolls.  The div and every ancestor count one more
    /// node; the wheel goes to the innermost of them that scrolls, else to
    /// the div.
    pub fn enter_nested(&mut self, d: u64, d_scrolls: bool, ancestors: &Vec<(u64, bool)>)
        requires
            old(self).wf(),
        ensures
            final(self).wf(),
            final(self).counts@ == spec_entered_all(
                old(self).counts@,
                seq![d] + spec_ids(ancestors@),
            ),
            final(self).last == Some(spec_wheel_div(d, d_scrolls, ancestors@)),
    {
        self.enter(d);
        let ghost start = old(self).counts@;
        let mut target: Option<u64> = if d_scrolls {
            Some(d)
        } else {
            None
        };
        let mut i: usize = 0;
        proof {
            assert(seq![d] + spec_ids(ancestors@).subrange(0, 0) =~= seq![d]);
            assert(seq![d].drop_last() =~= Seq::<u64>::empty());
            assert(spec_entered_all(start, Seq::<u64>::empty()) == start);
            assert(spec_entered_all(start, seq![d]) == spec_entered(start, d));
            assert(ancestors@.subrange(0, ancestors@.len() as int) =~= ancestors@);
        }
        while i < ancestors.len()
            invariant
                i <= ancestors@.len(),
                self.wf(),
                self.counts@ == spec_entered_all(start, seq![d] + spec_ids(ancestors@).subrange(0, i as int)),
                self.last == Some(d),
                target matches Some(t) ==> spec_wheel_div(d, d_scrolls, ancestors@) == t && self.counts@.contains_key(t),
                target is None ==> spec_wheel_div(d, d_scrolls, ancestors@) == spec_wheel_div(d, false, ancestors@.subrange(i as int, ancestors@.len() as int)),
                target is None ==> !d_scrolls,
            decreases ancestors@.len() - i,
        {
            let (a, scrolls) = ancestors[i];
            proof {
                let pre = seq![d] + spec_ids(ancestors@).subrange(0, i as int);
                let nxt = seq![d] + spec_ids(ancestors@).subrange(0, i + 1);
                assert(nxt.drop_last() =~= pre);
                assert(nxt.last() == a);
                let rest = ancestors@.subrange(i as int, ancestors@.len() as int);
                assert(rest[0] == (a, scrolls));
                assert(rest.drop_first() =~= ancestors@.subrange(i + 1, ancestors@.len() as int));
            }
            let keep = self.last;
            self.bump(a);
            self.last = keep;
            proof {
                assert(self.counts@.dom() =~= self.counts@.dom().insert(a));
            }
            if target.is_none() && scrolls {
                target = Some(a);
            }
            i += 1;
        }
        proof {
            assert(spec_ids(ancestors@).subrange(0, ancestors@.len() as int) =~= spec_ids(ancestors@));
            if target is None {
                assert(ancestors@.subrange(ancestors@.len() as int, ancestors@.len() as int).len() == 0);
            }
        }
        self.last = match target {
            Some(t) => Some(t),
            None => Some(d),
        };
    }

    /// The pointer left a node of div `d`, nested in the divs `ancestors`:
    /// the div and then each ancestor count one node less.  Returns, in
    /// order, the widgets no longer hovered.
    pub fn leave_nested(&mut self, d: u64, ancestors: &Vec<u64>) -> (ended: Vec<u64>)
        requires
            old(self).wf(),
        ensures
            final(self).wf(),
            final(self).counts@ == spec_left_all(old(self).counts@, seq![d] + ancestors@),
            ended@ == spec_ended_all(old(self).counts@, seq![d] + ancestors@),
    {
        let ghost start = old(self).counts@;
        let ghost all = seq![d] + ancestors@;
        let mut ended: Vec<u64> = Vec::new();
        proof {
            assert(all.subrange(0, 0) =~= Seq::<u64>::empty());
            assert(all.subrange(0, 1) =~= seq![d]);
            assert(all.subrange(0, 1).drop_last() =~= all.subrange(0, 0));
        }
        if self.leave(d) {
            ended.push(d);
        }
        proof {
            assert(all.subrange(0, 1).last() == d);
            assert(spec_left_all(start, all.subrange(0, 0)) == start);
            assert(spec_left_all(start, all.subrange(0, 1)) == spec_left(start, d));
            assert(spec_ended_all(start, all.subrange(0, 0)) == Seq::<u64>::empty());
        }
        let mut i: usize = 0;
        while i < ancestors.len()
            invariant
                i <= ancestors@.len(),
                all == seq![d] + ancestors@,
                self.wf(),
                self.counts@ == spec_left_all(start, all.subrange(0, i + 1)),
                ended@ == spec_ended_all(start, all.subrange(0, i + 1)),
            decreases ancestors@.len() - i,
        {
            let w = ancestors[i];
            proof {
                let nxt = all.subrange(0, i + 2);
                assert(nxt.drop_last() =~= all.subrange(0, i + 1));
                assert(nxt.last() == w);
            }
            if self.leave(w) {
                ended.push(w);
            }
            i += 1;
        }
        proof {
            assert(all.subrange(0, all.len() as int) =~= all);
        }
        ended
    }
}

// ------------------------------------------------------------------
// The body a node belongs to
// ------------------------------------------------------------------

/// What a node says of the body it belongs to: the body whose scrollbar it
/// is, whether it is a body itself, and, for a body's scroll content, the
/// body that owns it.
#[derive(Clone, Copy, Debug, PartialEq, Eq, Structural)]
pub struct BodyLink {
    pub entity: u64,
    pub scrollbar_owner: Option<u64>,
    pub is_body: bool,
    pub is_scroll_content: bool,
    pub content_owner: Option<u64>,
}

/// The body a node belongs to, given the node and its ancestors in order:
/// the first that is a body's scrollbar, a body, or a body's scroll content
/// names it.
pub open spec fn spec_owner_body(chain: Seq<BodyLink>) -> Option<u64>
    decreases chain.len(),
{
    if chain.len() == 0 {
        None
    } else {
        let l = chain[0];
        if l.scrollbar_owner is Some {
            l.scrollbar_owner
        } else if l.is_body {
            Some(l.entity)
        } else if l.is_scroll_content && l.content_owner is Some {
            l.content_owner
        } else {
            spec_owner_body(chain.drop_first())
        }
    }
}

/// The body a node belongs to, if any.
pub fn owner_body(chain: &Vec<BodyLink>) -> (r: Option<u64>)
    ensures
        r == spec_owner_body(chain@),
{
    let mut k: usize = 0;
    assert(chain@.subrange(0, chain@.len() as int) =~= chain@);
    while k < chain.len()
        invariant
            k <= chain@.len(),
            spec_owner_body(chain@) == spec_owner_body(chain@.subrange(k as int, chain@.len() as int)),
        decreases chain@.len() - k,
    {
        let l = chain[k];
        let ghost rest = chain@.subrange(k as int, chain@.len() as int);
        assert(rest[0] == l);
        if let Some(o) = l.scrollbar_owner {
            return Some(o);
        }
        if l.is_body {
            return Some(l.entity);
        }
        if l.is_scroll_content {
            if let Some(o) = l.content_owner {
                return Some(o);
            }
        }
        assert(rest.drop_first() =~= chain@.subrange(k + 1, chain@.len() as int));
        k += 1;
    }
    None
}

/// Entering a widget not yet hovered and then leaving it gives back the
/// counts as they were.
pub proof fn law_enter_then_leave(m: Map<u64, u32>, b: u64)
    requires
        !m.contains_key(b),
    ensures
        spec_left(spec_entered(m, b), b) == m,
{
    assert(spec_left(spec_entered(m, b), b) =~= m);
}

/// The counts after widget `b` is entered `k` times.
pub open spec fn spec_entered_times(m: Map<u64, u32>, b: u64, k: nat) -> Map<u64, u32>
    decreases k,
{
    if k == 0 {
        m
    } else {
        spec_entered(spec_entered_times(m, b, (k - 1) as nat), b)
    }
}

/// The counts after widget `b` is left `k` times.
pub open spec fn spec_left_times(m: Map<u64, u32>, b: u64, k: nat) -> Map<u64, u32>
    decreases k,
{
    if k == 0 {
        m
    } else {
        spec_left(spec_left_times(m, b, (k - 1) as nat), b)
    }
}

proof fn lemma_entered_times(m: Map<u64, u32>, b: u64, k: nat)
    requires
        !m.contains_key(b),
        1 <= k <= u32::MAX,
    ensures
        spec_entered_times(m, b, k) == m.insert(b, k as u32),
    decreases k,
{
    if k > 1 {
        lemma_entered_times(m, b, (k - 1) as nat);
        assert(m.insert(b, (k - 1) as u32).insert(b, k as u32) =~= m.insert(b, k as u32));
    } else {
        assert(spec_entered_times(m, b, 0) == m);
    }
}

proof fn lemma_left_times(m: Map<u64, u32>, b: u64, k: nat, j: nat)
    requires
        1 <= k <= u32::MAX,
        j <= k,
    ensures
        j < k ==> spec_left_times(m.insert(b, k as u32), b, j) == m.insert(b, (k - j) as u32),
        j == k ==> spec_left_times(m.insert(b, k as u32), b, j) == m.remove(b),
    decreases j,
{
    if j > 0 {
        lemma_left_times(m, b, k, (j - 1) as nat);
        let before = m.insert(b, (k - j + 1) as u32);
        if j < k {
            assert(before.insert(b, (k - j) as u32) =~= m.insert(b, (k - j) as u32));
        } else {
            assert(before.remove(b) =~= m.remove(b));
        }
    } else {
        assert(spec_left_times(m.insert(b, k as u32), b, 0) == m.insert(b, k as u32));
    }
}

/// Entering a widget not yet hovered `k` times counts it `k` times; leaving
/// it fewer times keeps it hovered, and leaving it `k` times gives back the
/// counts as they were.
pub proof fn law_enter_then_leave_times(m: Map<u64, u32>, b: u64, k: nat)
    requires
        !m.contains_key(b),
        1 <= k <= u32::MAX,
    ensures
        spec_entered_times(m, b, k) == m.insert(b, k as u32),
        forall|j: nat| j < k ==> #[trigger] spec_left_times(spec_entered_times(m, b, k), b, j).contains_key(b),
        spec_left_times(spec_entered_times(m, b, k), b, k) == m,
{
    lemma_entered_times(m, b, k);
    assert forall|j: nat| j < k implies #[trigger] spec_left_times(spec_entered_times(m, b, k), b, j).contains_key(b) by {
        lemma_left_times(m, b, k, j);
    }
    lemma_left_times(m, b, k, k);
    assert(m.remove(b) =~= m);
}

} // verus!
