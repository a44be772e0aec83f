//! Which windows get a border, and the table of live borders keyed by the
//! window they outline: creation, removal on close or destruction, removal
//! of borders whose window died, focus assignment and stale-border detection.
use vstd::prelude::*;
use std::collections::HashMap;
use vstd::std_specs::hash::spec_keys_iter;
use vstd::std_specs::iter::IteratorSpec;
use crate::border::{Border, spec_with_focus};
use crate::skylight::{
    SpaceID, WindowID, TAG_ATTACHED, TAG_DOCUMENT, TAG_FLOATING, TAG_IGNORES_CYCLE, TAG_MODAL,
};

verus! {

broadcast use {vstd::std_specs::hash::group_hash_axioms, vstd::seq_lib::group_seq_properties};

/// Window attribute bit that marks a window as a standard window.
pub const ATTRIBUTE_STANDARD: u64 = 0x2;

/// Window tag bit 58, set on windows that belong in the window list.
pub const TAG_WINDOW_LIST: u64 = 0x0400_0000_0000_0000;

/// `bits` has some bit of `mask` set.
pub open spec fn has_any(bits: u64, mask: u64) -> bool {
    bits & mask != 0
}

/// A window deserves a border when it is a top-level window (no parent),
/// standard or listed, neither attached nor ignored by window cycling, and
/// either a document window or a floating modal one.
pub open spec fn spec_window_suitable(tags: u64, attributes: u64, parent_wid: WindowID) -> bool {
    &&& parent_wid == 0
    &&& (has_any(attributes, ATTRIBUTE_STANDARD) || has_any(tags, TAG_WINDOW_LIST))
    &&& !has_any(tags, TAG_ATTACHED)
    &&& !has_any(tags, TAG_IGNORES_CYCLE)
    &&& (has_any(tags, TAG_DOCUMENT) || (has_any(tags, TAG_FLOATING) && has_any(tags, TAG_MODAL)))
}

/// Whether a window with these tags, attributes and parent deserves a border.
pub fn window_suitable(tags: u64, attributes: u64, parent_wid: WindowID) -> (r: bool)
    ensures
        r == spec_window_suitable(tags, attributes, parent_wid),
        r ==> parent_wid == 0 && tags & 0x80 == 0 && tags & 0x40000 == 0,
{
    proof {
        lemma_window_suitable_necessary(tags, attributes, parent_wid);
    }
    parent_wid == 0 && ((attributes & ATTRIBUTE_STANDARD) != 0 || (tags & TAG_WINDOW_LIST) != 0)
        && (tags & TAG_ATTACHED) == 0 && (tags & TAG_IGNORES_CYCLE) == 0 && ((tags & TAG_DOCUMENT)
        != 0 || ((tags & TAG_FLOATING) != 0 && (tags & TAG_MODAL) != 0))
}

/// Attached windows, windows ignored by window cycling and child windows
/// never get a border; a border also needs a standard (or listed) window that
/// is a document window or a floating modal one.
pub proof fn lemma_window_suitable_necessary(tags: u64, attributes: u64, parent_wid: WindowID)
    ensures
        tags & 0x80 != 0 ==> !spec_window_suitable(tags, attributes, parent_wid),
        tags & 0x40000 != 0 ==> !spec_window_suitable(tags, attributes, parent_wid),
        parent_wid != 0 ==> !spec_window_suitable(tags, attributes, parent_wid),
        spec_window_suitable(tags, attributes, parent_wid) ==> (attributes & 0x2 != 0 || tags
            & 0x0400_0000_0000_0000 != 0),
        spec_window_suitable(tags, attributes, parent_wid) ==> (tags & 0x1 != 0 || (tags & 0x2 != 0
            && tags & 0x8000_0000 != 0)),
{
}

/// A top-level standard (or listed) window that is neither attached nor
/// ignored by cycling gets a border when it is a document window or a
/// floating modal one.
pub proof fn lemma_window_suitable_sufficient(tags: u64, attributes: u64, parent_wid: WindowID)
    requires
        parent_wid == 0,
        attributes & 0x2 != 0 || tags & 0x0400_0000_0000_0000 != 0,
        tags & 0x80 == 0,
        tags & 0x40000 == 0,
        tags & 0x1 != 0 || (tags & 0x2 != 0 && tags & 0x8000_0000 != 0),
    ensures
        spec_window_suitable(tags, attributes, parent_wid),
{
}

/// What the window server reports of one window while listing a space.
#[derive(Debug, Clone, Copy, PartialEq, Eq, Structural)]
pub struct WindowInfo {
    pub wid: WindowID,
    pub tags: u64,
    pub attributes: u64,
    pub parent_wid: WindowID,
}

/// The id of the first suitable window of a listing, or 0 when there is none.
pub open spec fn spec_first_suitable(s: Seq<WindowInfo>) -> WindowID
    decreases s.len(),
{
    if s.len() == 0 {
        0
    } else if spec_window_suitable(s[0].tags, s[0].attributes, s[0].parent_wid) {
        s[0].wid
    } else {
        spec_first_suitable(s.drop_first())
    }
}

/// The window at `i` is suitable and none before it is.
pub open spec fn is_first_suitable_at(s: Seq<WindowInfo>, i: int) -> bool {
    &&& 0 <= i < s.len()
    &&& spec_window_suitable(s[i].tags, s[i].attributes, s[i].parent_wid)
    &&& forall|j: int| 0 <= j < i ==> !spec_window_suitable(#[trigger] s[j].tags, s[j].attributes, s[j].parent_wid)
}

/// The front window of a listing is the first suitable window in listing
/// order (so a suitable first window is always chosen); with no suitable
/// window it is 0.
pub proof fn lemma_first_suitable_is_first(s: Seq<WindowInfo>)
    ensures
        forall|i: int| is_first_suitable_at(s, i) ==> spec_first_suitable(s) == s[i].wid,
        s.len() > 0 && spec_window_suitable(s[0].tags, s[0].attributes, s[0].parent_wid)
            ==> spec_first_suitable(s) == s[0].wid,
        (forall|j: int| 0 <= j < s.len() ==> !spec_window_suitable(#[trigger] s[j].tags, s[j].attributes, s[j].parent_wid))
            ==> spec_first_suitable(s) == 0,
    decreases s.len(),
{
    if s.len() > 0 {
        let t = s.drop_first();
        lemma_first_suitable_is_first(t);
        assert forall|i: int| is_first_suitable_at(s, i) implies spec_first_suitable(s) == s[i].wid by {
            if i > 0 {
                assert(!spec_window_suitable(s[0].tags, s[0].attributes, s[0].parent_wid));
                assert forall|j: int| 0 <= j < i - 1 implies !spec_window_suitable(#[trigger] t[j].tags, t[j].attributes, t[j].parent_wid) by {
                    assert(t[j] == s[j + 1]);
                }
                assert(is_first_suitable_at(t, i - 1));
            }
        }
        if forall|j: int| 0 <= j < s.len() ==> !spec_window_suitable(#[trigger] s[j].tags, s[j].attributes, s[j].parent_wid) {
            assert(!spec_window_suitable(s[0].tags, s[0].attributes, s[0].parent_wid));
            assert forall|j: int| 0 <= j < t.len() implies !spec_window_suitable(#[trigger] t[j].tags, t[j].attributes, t[j].parent_wid) by {
                assert(t[j] == s[j + 1]);
            }
        }
    }
}

/// The front window among the front application's windows: the first
/// suitable one in the window server's order, or 0 when none is suitable.
pub fn first_suitable(windows: &Vec<WindowInfo>) -> (wid: WindowID)
    ensures
        wid == spec_first_suitable(windows@),
        forall|i: int| is_first_suitable_at(windows@, i) ==> wid == windows@[i].wid,
        (forall|j: int| 0 <= j < windows@.len() ==> !spec_window_suitable(
            #[trigger] windows@[j].tags,
            windows@[j].attributes,
            windows@[j].parent_wid,
        )) ==> wid == 0,
{
    proof {
        lemma_first_suitable_is_first(windows@);
    }
    let n: usize = windows.len();
    let mut i: usize = 0;
    assert(windows@.skip(0) =~= windows@);
    while i < n
        invariant
            n == windows@.len(),
            i <= n,
            spec_first_suitable(windows@) == spec_first_suitable(windows@.skip(i as int)),
        decreases n - i,
    {
        let w = windows[i];
        let ghost rest = windows@.skip(i as int);
        assert(rest[0] == w);
        if window_suitable(w.tags, w.attributes, w.parent_wid) {
            proof {
                lemma_first_suitable_is_first(windows@);
            }
            return w.wid;
        }
        assert(rest.drop_first() =~= windows@.skip(i + 1));
        i = i + 1;
    }
    assert(windows@.skip(n as int) =~= Seq::<WindowInfo>::empty());
    proof {
        lemma_first_suitable_is_first(windows@);
    }
    0
}

/// Destroy notifications remove a border whatever space they name.
pub open spec fn spec_border_matches_destroy(border: Border, sid: SpaceID) -> bool {
    true
}

/// Whether a destroy notification for `sid` concerns this border: always.
pub fn border_matches_destroy(border: &Border, sid: SpaceID) -> (r: bool)
    ensures
        r == spec_border_matches_destroy(*border, sid),
{
    true
}

/// A live border: its state, and what the caller keeps with it (its
/// geometry and the window server resources it owns).
pub struct BorderEntry<G> {
    pub border: Border,
    pub payload: G,
}

/// The entries after setting every border's focus: focused exactly when it
/// outlines `front`.
pub open spec fn spec_focus_on<G>(m: Map<WindowID, BorderEntry<G>>, front: WindowID) -> Map<WindowID, BorderEntry<G>> {
    Map::new(
        |k: WindowID| m.contains_key(k),
        |k: WindowID| BorderEntry { border: spec_with_focus(m[k].border, k == front), payload: m[k].payload },
    )
}

/// The live borders, keyed by the window each one outlines.
pub struct BorderTable<G> {
    entries: HashMap<WindowID, BorderEntry<G>>,
}

impl<G> BorderTable<G> {
    /// The live borders, keyed by the window each outlines.
    pub closed spec fn entries_map(&self) -> Map<WindowID, BorderEntry<G>> {
        self.entries@
    }

    /// Every entry is filed under the window its border outlines.
    pub open spec fn wf(&self) -> bool {
        forall|k: WindowID| #[trigger] self@.contains_key(k) ==> self@[k].border.target_wid == k
    }

    proof fn lemma_wf_after_remove(&self, before: Map<WindowID, BorderEntry<G>>, wid: WindowID)
        requires
            forall|k: WindowID| #[trigger] before.contains_key(k) ==> before[k].border.target_wid == k,
            self@ == before.remove(wid),
        ensures
            self.wf(),
    {
        assert forall|k: WindowID| #[trigger] self@.contains_key(k) implies self@[k].border.target_wid
            == k by {
            assert(before.contains_key(k));
        }
    }

    /// An empty table.
    pub fn new() -> (t: Self)
        ensures
            t@ == Map::<WindowID, BorderEntry<G>>::empty(),
            t.wf(),
    {
        BorderTable { entries: HashMap::new() }
    }

    /// The number of live borders.
    pub fn len(&self) -> (n: usize)
        ensures
            n == self@.len(),
    {
        self.entries.len()
    }

    /// Whether `wid` has a border.
    pub fn contains(&self, wid: WindowID) -> (r: bool)
        ensures
            r == self@.contains_key(wid),
    {
        self.entries.contains_key(&wid)
    }

    /// The border of `wid`, if any.
    pub fn get(&self, wid: WindowID) -> (r: Option<&BorderEntry<G>>)
        ensures
            match r {
                Some(e) => self@.contains_key(wid) && *e == self@[wid],
                None => !self@.contains_key(wid),
            },
    {
        self.entries.get(&wid)
    }

    /// Files a new border under the window it outlines, replacing any border
    /// that window had.
    pub fn insert(&mut self, entry: BorderEntry<G>)
        requires
            old(self).wf(),
        ensures
            final(self).wf(),
            final(self)@ == old(self)@.insert(entry.border.target_wid, entry),
    {
        let k: WindowID = entry.border.target_wid;
        self.entries.insert(k, entry);
        proof {
            assert forall|j: WindowID| #[trigger] self@.contains_key(j) implies self@[j].border.target_wid
                == j by {
                if j != k {
                    assert(old(self)@.contains_key(j));
                }
            }
        }
    }

    /// Takes the border of `wid` out of the table, if it has one.
    pub fn take(&mut self, wid: WindowID) -> (r: Option<BorderEntry<G>>)
        requires
            old(self).wf(),
        ensures
            final(self).wf(),
            final(self)@ == old(self)@.remove(wid),
            match r {
                Some(e) => old(self)@.contains_key(wid) && e == old(self)@[wid],
                None => !old(self)@.contains_key(wid),
            },
    {
        let r = self.entries.remove(&wid);
        proof {
            self.lemma_wf_after_remove(old(self)@, wid);
        }
        r
    }

    /// Drops the border of a closed window; returns whether it had one.
    pub fn window_closed(&mut self, wid: WindowID) -> (removed: bool)
        requires
            old(self).wf(),
        ensures
            final(self).wf(),
            final(self)@ == old(self)@.remove(wid),
            removed == old(self)@.contains_key(wid),
    {
        let r = self.entries.remove(&wid);
        proof {
            self.lemma_wf_after_remove(old(self)@, wid);
        }
        r.is_some()
    }

    /// Drops the border of a destroyed window, whatever space the notification
    /// names; returns whether it had one.
    pub fn window_destroyed(&mut self, wid: WindowID, sid: SpaceID) -> (removed: bool)
        requires
            old(self).wf(),
        ensures
            final(self).wf(),
            final(self)@ == old(self)@.remove(wid),
            removed == old(self)@.contains_key(wid),
    {
        let matches = match self.entries.get(&wid) {
            Some(e) => border_matches_destroy(&e.border, sid),
            None => false,
        };
        if matches {
            self.entries.remove(&wid);
            proof {
                self.lemma_wf_after_remove(old(self)@, wid);
            }
            true
        } else {
            false
        }
    }

    /// The windows that have a border, each once, in no particular order.
    pub fn keys(&self) -> (ks: Vec<WindowID>)
        ensures
            ks@.to_set() == self@.dom(),
            ks@.no_duplicates(),
            ks@.len() == self@.len(),
    {
        let mut ks: Vec<WindowID> = Vec::new();
        for k in it: self.entries.keys()
            invariant
                ks@.len() == it.index(),
                forall|j: int| 0 <= j < it.index() ==> ks@[j] == *it.seq()[j],
        {
            ks.push(*k);
        }
        proof {
            let keys_seq = IteratorSpec::remaining(&spec_keys_iter(&self.entries));
            assert(ks@ =~= keys_seq.unref());
        }
        ks
    }
}

proof fn lemma_push_no_duplicates(s: Seq<WindowID>, x: WindowID)
    requires
        s.no_duplicates(),
        !s.contains(x),
    ensures
        s.push(x).no_duplicates(),
{
    let t = s.push(x);
    assert forall|i: int, j: int| 0 <= i < t.len() && 0 <= j < t.len() && i != j implies t[i] != t[j] by {
        if i < s.len() && j < s.len() {
            assert(t[i] == s[i] && t[j] == s[j]);
        } else if i < s.len() {
            assert(t[i] == s[i]);
        } else if j < s.len() {
            assert(t[j] == s[j]);
        }
    }
}

/// Whether `v` holds `x`.
fn vec_contains_u32(v: &Vec<u32>, x: u32) -> (r: bool)
    ensures
        r == v@.contains(x),
{
    let mut i: usize = 0;
    while i < v.len()
        invariant
            i <= v@.len(),
            forall|j: int| 0 <= j < i ==> v@[j] != x,
        decreases v@.len() - i,
    {
        if v[i] == x {
            assert(v@[i as int] == x);
            return true;
        }
        i = i + 1;
    }
    false
}

/// Whether `v` holds `x`.
fn vec_contains_u64(v: &Vec<u64>, x: u64) -> (r: bool)
    ensures
        r == v@.contains(x),
{
    let mut i: usize = 0;
    while i < v.len()
        invariant
            i <= v@.len(),
            forall|j: int| 0 <= j < i ==> v@[j] != x,
        decreases v@.len() - i,
    {
        if v[i] == x {
            assert(v@[i as int] == x);
            return true;
        }
        i = i + 1;
    }
    false
}

impl<G> BorderTable<G> {
    /// Whether `wid` is one of the border windows themselves.
    pub fn has_border_window(&self, wid: WindowID) -> (r: bool)
        ensures
            r == exists|k: WindowID| #[trigger] self@.contains_key(k) && self@[k].border.wid == wid,
    {
        let ks = self.keys();
        let mut i: usize = 0;
        while i < ks.len()
            invariant
                ks@.to_set() == self@.dom(),
                i <= ks@.len(),
                forall|j: int| 0 <= j < i ==> self@[#[trigger] ks@[j]].border.wid != wid,
            decreases ks@.len() - i,
        {
            let k: WindowID = ks[i];
            proof {
                assert(ks@.contains(k));
                assert(ks@.to_set().contains(k));
            }
            match self.get(k) {
                Some(e) => {
                    if e.border.wid == wid {
                        return true;
                    }
                },
                None => {},
            }
            i = i + 1;
        }
        proof {
            assert forall|k: WindowID| #[trigger] self@.contains_key(k) implies self@[k].border.wid != wid by {
                assert(ks@.to_set().contains(k));
                let j: int = ks@.index_of(k);
                assert(ks@[j] == k);
            }
        }
        false
    }

    /// Sets every border's focus: focused exactly when it outlines `front`.
    /// Returns the windows whose border changed focus (and must be redrawn).
    pub fn focus_on(&mut self, front: WindowID) -> (changed: Vec<WindowID>)
        requires
            old(self).wf(),
        ensures
            final(self).wf(),
            final(self)@ == spec_focus_on(old(self)@, front),
            changed@.no_duplicates(),
            forall|k: WindowID| #[trigger] changed@.contains(k) <==> (old(self)@.contains_key(k)
                && old(self)@[k].border.focused != (k == front)),
            forall|k: WindowID| #[trigger] changed@.contains(k) ==> final(self)@[k].border.needs_redraw,
            forall|k: WindowID| #[trigger] final(self)@.contains_key(k) ==> final(self)@[k].border.focused
                == (k == front),
    {
        proof {
            lemma_focus_on_effect(self@, front);
        }
        let ghost m0 = self@;
        let ks = self.keys();
        let mut changed: Vec<WindowID> = Vec::new();
        let mut i: usize = 0;
        while i < ks.len()
            invariant
                ks@.to_set() == m0.dom(),
                ks@.no_duplicates(),
                i <= ks@.len(),
                self@.dom() == m0.dom(),
                forall|k: WindowID| #[trigger] m0.contains_key(k) ==> m0[k].border.target_wid == k,
                forall|k: WindowID| #[trigger] self@.contains_key(k) ==> self@[k] == (if ks@.take(
                    i as int,
                ).contains(k) {
                    spec_focus_on(m0, front)[k]
                } else {
                    m0[k]
                }),
                changed@.no_duplicates(),
                forall|k: WindowID| #[trigger] changed@.contains(k) <==> (ks@.take(i as int).contains(k)
                    && m0[k].border.focused != (k == front)),
            decreases ks@.len() - i,
        {
            let k: WindowID = ks[i];
            let ghost before = self@;
            proof {
                assert(ks@.contains(k));
                assert(ks@.to_set().contains(k));
                assert(ks@.take(i + 1) =~= ks@.take(i as int).push(k));
                assert(!ks@.take(i as int).contains(k)) by {
                    if ks@.take(i as int).contains(k) {
                        let j: int = ks@.take(i as int).index_of(k);
                        assert(ks@[j] == ks@[i as int]);
                    }
                }
            }
            match self.entries.remove(&k) {
                Some(mut e) => {
                    let c = e.border.set_focused(k == front);
                    self.entries.insert(k, e);
                    if c {
                        proof {
                            lemma_push_no_duplicates(changed@, k);
                        }
                        changed.push(k);
                    }
                },
                None => {},
            }
            proof {
                assert forall|j: WindowID| #[trigger] self@.contains_key(j) implies self@[j] == (if ks@.take(
                    i + 1,
                ).contains(j) {
                    spec_focus_on(m0, front)[j]
                } else {
                    m0[j]
                }) by {
                    if j != k {
                        assert(before.contains_key(j));
                        assert(ks@.take(i + 1).contains(j) == ks@.take(i as int).contains(j));
                    }
                }
                assert forall|j: WindowID| #[trigger] changed@.contains(j) <==> (ks@.take(i + 1).contains(j)
                    && m0[j].border.focused != (j == front)) by {
                    if j != k {
                        assert(ks@.take(i + 1).contains(j) == ks@.take(i as int).contains(j));
                    }
                }
            }
            i = i + 1;
        }
        proof {
            assert(ks@.take(ks@.len() as int) =~= ks@);
            assert forall|k: WindowID| ks@.contains(k) <==> m0.contains_key(k) by {
                assert(ks@.to_set().contains(k) <==> ks@.contains(k));
            }
            assert(self@ =~= spec_focus_on(m0, front));
            assert forall|k: WindowID| #[trigger] self@.contains_key(k) implies self@[k].border.target_wid
                == k by {
                assert(m0.contains_key(k));
            }
        }
        changed
    }

    /// Drops the borders of the given windows (those whose window died);
    /// returns whether any of them had a border.
    pub fn remove_all(&mut self, wids: &Vec<WindowID>) -> (any: bool)
        requires
            old(self).wf(),
        ensures
            final(self).wf(),
            forall|k: WindowID| #[trigger] final(self)@.contains_key(k) <==> (old(self)@.contains_key(k)
                && !wids@.contains(k)),
            forall|k: WindowID| #[trigger] final(self)@.contains_key(k) ==> final(self)@[k] == old(self)@[k],
            any == exists|j: int| 0 <= j < wids@.len() && old(self)@.contains_key(#[trigger] wids@[j]),
    {
        let ghost m0 = self@;
        let mut any = false;
        let mut i: usize = 0;
        while i < wids.len()
            invariant
                i <= wids@.len(),
                forall|k: WindowID| #[trigger] m0.contains_key(k) ==> m0[k].border.target_wid == k,
                forall|k: WindowID| #[trigger] self@.contains_key(k) <==> (m0.contains_key(k)
                    && !wids@.take(i as int).contains(k)),
                forall|k: WindowID| #[trigger] self@.contains_key(k) ==> self@[k] == m0[k],
                any == exists|j: int| 0 <= j < i && m0.contains_key(#[trigger] wids@[j]),
            decreases wids@.len() - i,
        {
            let w: WindowID = wids[i];
            let ghost before = self@;
            let r = self.entries.remove(&w);
            proof {
                assert(wids@.take(i + 1) =~= wids@.take(i as int).push(w));
                if r.is_some() {
                    assert(m0.contains_key(wids@[i as int]));
                } else if m0.contains_key(w) {
                    let j: int = wids@.take(i as int).index_of(w);
                    assert(wids@[j] == w);
                }
                assert forall|k: WindowID| #[trigger] self@.contains_key(k) <==> (m0.contains_key(k)
                    && !wids@.take(i + 1).contains(k)) by {
                    if k != w {
                        assert(wids@.take(i + 1).contains(k) == wids@.take(i as int).contains(k));
                    } else {
                        assert(wids@.take(i + 1)[i as int] == w);
                    }
                }
                assert forall|k: WindowID| #[trigger] self@.contains_key(k) implies self@[k] == m0[k] by {
                    assert(before.contains_key(k));
                }
            }
            if r.is_some() {
                any = true;
            }
            i = i + 1;
        }
        proof {
            assert(wids@.take(wids@.len() as int) =~= wids@);
            assert forall|k: WindowID| #[trigger] self@.contains_key(k) implies self@[k].border.target_wid
                == k by {
                assert(m0.contains_key(k));
            }
        }
        any
    }

    /// The bordered windows that sit on one of `current_spaces` but were not
    /// `seen` there: their window moved to another space, so their border
    /// must be hidden.
    pub fn stale(&self, current_spaces: &Vec<SpaceID>, seen: &Vec<WindowID>) -> (r: Vec<WindowID>)
        ensures
            r@.no_duplicates(),
            forall|k: WindowID| #[trigger] r@.contains(k) <==> (self@.contains_key(k)
                && current_spaces@.contains(self@[k].border.sid) && !seen@.contains(k)),
    {
        let ks = self.keys();
        let mut r: Vec<WindowID> = Vec::new();
        let mut i: usize = 0;
        while i < ks.len()
            invariant
                ks@.to_set() == self@.dom(),
                ks@.no_duplicates(),
                i <= ks@.len(),
                r@.no_duplicates(),
                forall|k: WindowID| #[trigger] r@.contains(k) <==> (ks@.take(i as int).contains(k)
                    && current_spaces@.contains(self@[k].border.sid) && !seen@.contains(k)),
            decreases ks@.len() - i,
        {
            let k: WindowID = ks[i];
            proof {
                assert(ks@.contains(k));
                assert(ks@.to_set().contains(k));
                assert(ks@.take(i + 1) =~= ks@.take(i as int).push(k));
                assert(!ks@.take(i as int).contains(k)) by {
                    if ks@.take(i as int).contains(k) {
                        let j: int = ks@.take(i as int).index_of(k);
                        assert(ks@[j] == ks@[i as int]);
                    }
                }
            }
            match self.get(k) {
                Some(e) => {
                    if vec_contains_u64(current_spaces, e.border.sid) && !vec_contains_u32(seen, k) {
                        proof {
                            lemma_push_no_duplicates(r@, k);
                        }
                        r.push(k);
                    }
                },
                None => {},
            }
            proof {
                assert forall|j: WindowID| #[trigger] r@.contains(j) <==> (ks@.take(i + 1).contains(j)
                    && current_spaces@.contains(self@[j].border.sid) && !seen@.contains(j)) by {
                    if j != k {
                        assert(ks@.take(i + 1).contains(j) == ks@.take(i as int).contains(j));
                    }
                }
            }
            i = i + 1;
        }
        proof {
            assert(ks@.take(ks@.len() as int) =~= ks@);
            assert forall|k: WindowID| ks@.contains(k) <==> self@.contains_key(k) by {
                assert(ks@.to_set().contains(k) <==> ks@.contains(k));
            }
        }
        r
    }
}

/// After a focus pass, a border is focused exactly when it outlines the
/// front window: at most one border is ever focused.
pub proof fn lemma_focus_unique<G>(m: Map<WindowID, BorderEntry<G>>, front: WindowID, a: WindowID, b: WindowID)
    requires
        spec_focus_on(m, front).contains_key(a),
        spec_focus_on(m, front).contains_key(b),
        spec_focus_on(m, front)[a].border.focused,
        spec_focus_on(m, front)[b].border.focused,
    ensures
        a == front,
        b == front,
        a == b,
{
}

/// After a focus pass a border is focused exactly when it outlines `front`;
/// each border whose focus changed asks for a redraw; a border whose focus
/// did not change is left as it was.
pub proof fn lemma_focus_on_effect<G>(m: Map<WindowID, BorderEntry<G>>, front: WindowID)
    ensures
        forall|k: WindowID| #[trigger] spec_focus_on(m, front).contains_key(k) <==> m.contains_key(k),
        forall|k: WindowID| m.contains_key(k) ==> #[trigger] spec_focus_on(m, front)[k].border.focused == (k == front),
        forall|k: WindowID| m.contains_key(k) && m[k].border.focused != (k == front)
            ==> #[trigger] spec_focus_on(m, front)[k].border.needs_redraw,
        forall|k: WindowID| m.contains_key(k) && m[k].border.focused == (k == front)
            ==> #[trigger] spec_focus_on(m, front)[k] == m[k],
{
    assert forall|k: WindowID| m.contains_key(k) && m[k].border.focused == (k == front)
        implies #[trigger] spec_focus_on(m, front)[k] == m[k] by {
        let e = m[k];
        assert(spec_focus_on(m, front)[k] == BorderEntry { border: e.border, payload: e.payload });
    }
}

/// A second focus pass for the same front window changes nothing.
pub proof fn lemma_focus_idempotent<G>(m: Map<WindowID, BorderEntry<G>>, front: WindowID)
    ensures
        spec_focus_on(spec_focus_on(m, front), front) == spec_focus_on(m, front),
{
    assert(spec_focus_on(spec_focus_on(m, front), front) =~= spec_focus_on(m, front));
}

/// A focus pass keeps the set of bordered windows and every border's
/// window, target and space.
pub proof fn lemma_focus_keeps_borders<G>(m: Map<WindowID, BorderEntry<G>>, front: WindowID, k: WindowID)
    ensures
        spec_focus_on(m, front).dom() == m.dom(),
        m.contains_key(k) ==> spec_focus_on(m, front)[k].border.wid == m[k].border.wid,
        m.contains_key(k) ==> spec_focus_on(m, front)[k].border.target_wid == m[k].border.target_wid,
        m.contains_key(k) ==> spec_focus_on(m, front)[k].border.sid == m[k].border.sid,
{
    assert(spec_focus_on(m, front).dom() =~= m.dom());
}

impl<G> View for BorderTable<G> {
    type V = Map<WindowID, BorderEntry<G>>;

    open spec fn view(&self) -> Map<WindowID, BorderEntry<G>> {
        self.entries_map()
    }
}

} // verus!
