//! Tabs: a layout tree, the panes at its leaves, and the focus.

use vstd::prelude::*;
use crate::geometry::{Direction, Ratio, Rect, SplitDirection};
use crate::ids::{PaneId, TabId};
use crate::layout::{Closing, LayoutNode, Resizing};
use crate::frame::{any_bell, pane_frame, tab_cells, FrameCell};
use crate::pane::{place_all, window_updates, DrawnText, Pane, PaneKind, WindowSize};
use crate::plugin::EventKind;
use crate::ids::PluginId;

verus! {

/// Why a layout operation was refused. A refused operation changes nothing.
#[derive(Clone, Copy, Debug, PartialEq, Eq, Structural)]
pub enum LayoutError {
    /// The tab has no such pane.
    NoSuchPane,
    /// The tab already has a pane with the identifier meant for a new one.
    PaneExists,
    /// A pane made by the split would be smaller than the minimum.
    ResizeTooSmall,
    /// The pane is the last of its tab that can take the focus: the tab has
    /// to be closed with it.
    LastPane,
}

/// A tab.
pub struct Tab {
    pub id: TabId,
    pub name: String,
    /// The content rectangle, which the panes tile.
    pub area: Rect,
    pub tree: LayoutNode,
    /// The panes in layout order.
    pub panes: Vec<Pane>,
    pub focused: PaneId,
}

/// The identifiers of `panes`, in order.
pub open spec fn ids_of(panes: Seq<Pane>) -> Seq<PaneId> {
    Seq::new(panes.len(), |i: int| panes[i].id)
}

/// The rectangles of `panes`, in order.
pub open spec fn rects_of(panes: Seq<Pane>) -> Seq<Rect> {
    Seq::new(panes.len(), |i: int| panes[i].rect)
}

/// The first pane among those at `lo` up to `hi` that can take the focus.
pub open spec fn first_selectable(panes: Seq<Pane>, lo: int, hi: int) -> Option<int>
    decreases hi - lo,
{
    if lo >= hi {
        None
    } else if panes[lo].selectable {
        Some(lo)
    } else {
        first_selectable(panes, lo + 1, hi)
    }
}

/// The pane that takes the focus from a closed pane: the first pane of the
/// closed pane's sibling subtree, `span`, that can take it, or else the first
/// such pane of the tab.
pub open spec fn heir(panes: Seq<Pane>, span: (int, int)) -> Option<int> {
    match first_selectable(panes, span.0, span.0 + span.1) {
        Some(k) => Some(k),
        None => first_selectable(panes, 0, panes.len() as int),
    }
}

/// Finds the first pane from `lo` up to `hi` that can take the focus.
pub fn find_selectable(panes: &Vec<Pane>, lo: usize, hi: usize) -> (found: Option<usize>)
    requires
        hi <= panes@.len(),
    ensures
        found matches Some(k) ==> first_selectable(panes@, lo as int, hi as int) == Some(k as int) && lo
            <= k < hi && panes@[k as int].selectable,
        found is None ==> first_selectable(panes@, lo as int, hi as int) is None,
        found is None ==> forall|j: int| lo <= j < hi ==> !(#[trigger] panes@[j]).selectable,
{
    let mut k = lo;
    while k < hi
        invariant
            lo <= k,
            hi <= panes@.len(),
            k <= hi || lo >= hi,
            first_selectable(panes@, lo as int, hi as int) == first_selectable(
                panes@,
                k as int,
                hi as int,
            ),
            forall|j: int| lo <= j < k ==> !(#[trigger] panes@[j]).selectable,
        decreases hi - k,
    {
        if panes[k].selectable {
            return Some(k);
        }
        k += 1;
    }
    None
}

/// A sequence without repetition stays so when an element that it lacks is inserted.
pub proof fn lemma_insert_distinct<A>(s: Seq<A>, k: int, x: A)
    requires
        s.no_duplicates(),
        !s.contains(x),
        0 <= k <= s.len(),
    ensures
        s.insert(k, x).no_duplicates(),
{
    let t = s.insert(k, x);
    assert forall|i: int, j: int| 0 <= i < t.len() && 0 <= j < t.len() && i != j implies t[i]
        != t[j] by {
        let a = if i < k { i } else { i - 1 };
        let b = if j < k { j } else { j - 1 };
        if i == k {
            assert(t[j] == s[b]);
        } else if j == k {
            assert(t[i] == s[a]);
        } else {
            assert(t[i] == s[a] && t[j] == s[b]);
        }
    }
}

/// A sequence without repetition stays so when an element is removed, and
/// then lacks that element.
pub proof fn lemma_remove_distinct<A>(s: Seq<A>, k: int)
    requires
        s.no_duplicates(),
        0 <= k < s.len(),
    ensures
        s.remove(k).no_duplicates(),
        !s.remove(k).contains(s[k]),
{
    let t = s.remove(k);
    assert forall|i: int, j: int| 0 <= i < t.len() && 0 <= j < t.len() && i != j implies t[i]
        != t[j] by {
        let a = if i < k { i } else { i + 1 };
        let b = if j < k { j } else { j + 1 };
        assert(t[i] == s[a] && t[j] == s[b]);
    }
    if t.contains(s[k]) {
        let i = choose|i: int| 0 <= i < t.len() && t[i] == s[k];
        let a = if i < k { i } else { i + 1 };
        assert(t[i] == s[a]);
    }
}

/// What a sequence holds after an insertion.
pub proof fn lemma_insert_contains<A>(s: Seq<A>, k: int, x: A, y: A)
    requires
        0 <= k <= s.len(),
    ensures
        s.insert(k, x).contains(y) <==> s.contains(y) || y == x,
{
    let t = s.insert(k, x);
    assert(t[k] == x);
    if s.contains(y) {
        let i = choose|i: int| 0 <= i < s.len() && s[i] == y;
        if i < k {
            assert(t[i] == y);
        } else {
            assert(t[i + 1] == y);
        }
    }
    if t.contains(y) && y != x {
        let i = choose|i: int| 0 <= i < t.len() && t[i] == y;
        if i < k {
            assert(s[i] == y);
        } else {
            assert(s[i - 1] == y);
        }
    }
}

/// What a sequence without repetition holds after a removal.
pub proof fn lemma_remove_contains<A>(s: Seq<A>, k: int, y: A)
    requires
        s.no_duplicates(),
        0 <= k < s.len(),
    ensures
        s.remove(k).contains(y) <==> s.contains(y) && y != s[k],
{
    let t = s.remove(k);
    lemma_remove_distinct(s, k);
    if s.contains(y) && y != s[k] {
        let i = choose|i: int| 0 <= i < s.len() && s[i] == y;
        if i < k {
            assert(t[i] == y);
        } else {
            assert(t[i - 1] == y);
        }
    }
    if t.contains(y) {
        let i = choose|i: int| 0 <= i < t.len() && t[i] == y;
        if i < k {
            assert(s[i] == y);
        } else {
            assert(s[i + 1] == y);
        }
    }
}

impl Tab {
    /// The identifiers of the panes, in layout order.
    pub open spec fn pane_ids(&self) -> Seq<PaneId> {
        ids_of(self.panes@)
    }

    /// The rectangles of the panes, in layout order.
    pub open spec fn pane_rects(&self) -> Seq<Rect> {
        rects_of(self.panes@)
    }

    /// The invariant of a tab: the panes are those of the tree, each once and
    /// in the tree's order; each has the rectangle that the tree gives it and
    /// a grid of that size; and the focus is on a pane that can take it.
    pub open spec fn wf(&self) -> bool {
        &&& self.area.wf()
        &&& self.tree.ratios_ok()
        &&& self.tree.leaves().no_duplicates()
        &&& self.pane_ids() == self.tree.leaves()
        &&& self.pane_rects() == self.tree.rects(self.area)
        &&& forall|i: int| 0 <= i < self.panes@.len() ==> (#[trigger] self.panes@[i]).fits()
        &&& exists|i: int|
            0 <= i < self.panes@.len() && (#[trigger] self.panes@[i]).id == self.focused
                && self.panes@[i].selectable
    }

    /// Whether the tab has the pane.
    pub open spec fn has(&self, pane: PaneId) -> bool {
        self.pane_ids().contains(pane)
    }

    /// The place of `pane` in layout order.
    pub open spec fn index_of(&self, pane: PaneId) -> int {
        choose|i: int| 0 <= i < self.panes@.len() && self.panes@[i].id == pane
    }

    /// The place of a pane is the only place with its identifier.
    pub proof fn lemma_index_unique(&self, i: int)
        requires
            self.wf(),
            0 <= i < self.panes@.len(),
        ensures
            self.index_of(self.panes@[i].id) == i,
            self.has(self.panes@[i].id),
    {
        let k = self.index_of(self.panes@[i].id);
        assert(self.pane_ids()[i] == self.panes@[i].id);
        assert(self.pane_ids()[k] == self.panes@[k].id);
    }

    /// The focused pane is a pane of the tab that can take the focus.
    pub proof fn lemma_focus_index(&self) -> (f: int)
        requires
            self.wf(),
        ensures
            f == self.index_of(self.focused),
            0 <= f < self.panes@.len(),
            self.panes@[f].id == self.focused,
            self.panes@[f].selectable,
            self.has(self.focused),
    {
        let w = choose|i: int|
            0 <= i < self.panes@.len() && (#[trigger] self.panes@[i]).id == self.focused
                && self.panes@[i].selectable;
        self.lemma_index_unique(w);
        w
    }

    /// A tab of one pane, which fills `area` and has the focus.
    pub fn new(id: TabId, name: String, area: Rect, pane: PaneId, kind: PaneKind) -> (tab: Tab)
        requires
            area.wf(),
        ensures
            tab.wf(),
            tab.id == id,
            tab.name == name,
            tab.area == area,
            tab.tree == (LayoutNode::Leaf { pane }),
            tab.focused == pane,
            tab.panes@.len() == 1,
            tab.panes@[0].is_new(pane, kind, area),
    {
        let mut panes: Vec<Pane> = Vec::new();
        panes.push(Pane::new(pane, kind, area));
        let tab = Tab { id, name, area, tree: LayoutNode::leaf(pane), panes, focused: pane };
        proof {
            assert(tab.pane_ids() =~= tab.tree.leaves());
            assert(tab.pane_rects() =~= tab.tree.rects(area));
            assert(tab.panes@[0].id == pane);
        }
        tab
    }

    /// Finds the place of a pane in layout order.
    pub fn find(&self, pane: PaneId) -> (found: Option<usize>)
        ensures
            found matches Some(i) ==> i < self.panes@.len() && self.panes@[i as int].id == pane,
            found is None <==> !self.has(pane),
            self.wf() ==> (found matches Some(i) ==> i == self.index_of(pane)),
    {
        let n = self.panes.len();
        let mut i: usize = 0;
        while i < n
            invariant
                i <= n,
                n == self.panes@.len(),
                forall|j: int| 0 <= j < i ==> (#[trigger] self.panes@[j]).id != pane,
            decreases n - i,
        {
            if self.panes[i].id == pane {
                proof {
                    assert(self.pane_ids()[i as int] == pane);
                    if self.wf() {
                        let k = self.index_of(pane);
                        assert(self.pane_ids()[k] == pane);
                    }
                }
                return Some(i);
            }
            i += 1;
        }
        proof {
            if self.has(pane) {
                let k = choose|k: int| 0 <= k < self.pane_ids().len() && self.pane_ids()[k] == pane;
                assert(self.panes@[k].id == pane);
            }
        }
        None
    }

    /// Why a split of `pane` that makes `new` is refused, if it is.
    pub open spec fn split_error(&self, pane: PaneId, direction: SplitDirection, new: PaneId) -> Option<
        LayoutError,
    > {
        let halves = self.panes@[self.index_of(pane)].rect.divide(direction, Ratio { num: 1, den: 2 });
        if !self.has(pane) {
            Some(LayoutError::NoSuchPane)
        } else if self.has(new) {
            Some(LayoutError::PaneExists)
        } else if !halves.0.roomy() || !halves.1.roomy() {
            Some(LayoutError::ResizeTooSmall)
        } else {
            None
        }
    }

    /// The tab is `before` after `pane` has been split: `pane` keeps the left
    /// or upper half of its rectangle, the new pane `new` has the other half
    /// and the focus, and every other pane is as it was.
    pub open spec fn split_of(
        &self,
        before: Tab,
        pane: PaneId,
        direction: SplitDirection,
        new: PaneId,
        kind: PaneKind,
    ) -> bool {
        let i = before.index_of(pane);
        let halves = before.panes@[i].rect.divide(direction, Ratio { num: 1, den: 2 });
        &&& self.id == before.id
        &&& self.name == before.name
        &&& self.area == before.area
        &&& self.tree == before.tree.with_split(pane, direction, new)
        &&& self.focused == new
        &&& self.panes@.len() == before.panes@.len() + 1
        &&& forall|j: int| 0 <= j < i ==> self.panes@[j] == before.panes@[j]
        &&& forall|j: int| i + 1 < j < self.panes@.len() ==> self.panes@[j] == before.panes@[j - 1]
        &&& self.panes@[i].moved_from(before.panes@[i], halves.0)
        &&& self.panes@[i + 1].is_new(new, kind, halves.1)
    }

    /// Splits `pane` evenly in `direction`. `pane` keeps the left or upper
    /// half, which is the smaller one where the cells do not divide evenly;
    /// the new pane `new`, of kind `kind`, takes the rest and the focus.
    ///
    /// Returns the window size to pass on to the pseudo-terminal of `pane`,
    /// if it has one.
    pub fn split(&mut self, pane: PaneId, direction: SplitDirection, new: PaneId, kind: PaneKind) -> (out:
        Result<Vec<WindowSize>, LayoutError>)
        requires
            old(self).wf(),
        ensures
            final(self).wf(),
            match out {
                Err(e) => Some(e) == old(self).split_error(pane, direction, new) && *final(self)
                    == *old(self),
                Ok(updates) => {
                    &&& old(self).split_error(pane, direction, new) is None
                    &&& final(self).split_of(*old(self), pane, direction, new, kind)
                    &&& final(self).pane_ids() == old(self).pane_ids().insert(
                        old(self).index_of(pane) + 1,
                        new,
                    )
                    &&& forall|p: PaneId| #[trigger]
                        final(self).has(p) <==> old(self).has(p) || p == new
                    &&& updates@ == if old(self).panes@[old(self).index_of(pane)].kind is Terminal {
                        seq![final(self).panes@[old(self).index_of(pane)].window()]
                    } else {
                        Seq::<WindowSize>::empty()
                    }
                },
            },
    {
        let i = match self.find(pane) {
            None => {
                return Err(LayoutError::NoSuchPane);
            },
            Some(i) => i,
        };
        if self.find(new).is_some() {
            return Err(LayoutError::PaneExists);
        }
        proof {
            self.tree.lemma_rects_len(self.area);
            self.tree.lemma_rects_wf(self.area, i as int);
            assert(self.pane_rects()[i as int] == self.panes@[i as int].rect);
            assert(self.pane_ids()[i as int] == pane);
        }
        let halves = self.panes[i].rect.split(direction, Ratio::half());
        if !halves.0.is_roomy() || !halves.1.is_roomy() {
            return Err(LayoutError::ResizeTooSmall);
        }
        proof {
            self.tree.lemma_split_leaves(pane, direction, new, i as int);
            self.tree.lemma_split_rects(pane, direction, new, self.area, i as int);
            lemma_insert_distinct(self.tree.leaves(), i + 1, new);
        }
        let terminal = self.panes[i].is_terminal();
        assert(i < self.panes.len());
        let next = i + 1;
        self.tree.split(pane, direction, new);
        self.panes[i].place(halves.0);
        self.panes.insert(next, Pane::new(new, kind, halves.1));
        self.focused = new;
        let mut updates: Vec<WindowSize> = Vec::new();
        if terminal {
            updates.push(WindowSize { pane, rows: halves.0.rows, cols: halves.0.cols });
        }
        proof {
            assert(self.pane_ids() =~= old(self).pane_ids().insert(i + 1, new));
            assert(self.pane_rects() =~= old(self).pane_rects().update(i as int, halves.0).insert(
                i + 1,
                halves.1,
            ));
            assert(self.panes@[i + 1].id == new && self.panes@[i + 1].selectable);
            assert forall|p: PaneId| #[trigger] self.has(p) <==> old(self).has(p) || p == new by {
                lemma_insert_contains(old(self).pane_ids(), i + 1, new, p);
            }
            assert forall|j: int| 0 <= j < self.panes@.len() implies (#[trigger] self.panes@[j]).fits() by {
                if j < i {
                    assert(self.panes@[j] == old(self).panes@[j]);
                } else if j > i + 1 {
                    assert(self.panes@[j] == old(self).panes@[j - 1]);
                }
            }
        }
        Ok(updates)
    }
}

impl Tab {
    /// Why closing `pane` is refused, if it is.
    pub open spec fn close_error(&self, pane: PaneId) -> Option<LayoutError> {
        if !self.has(pane) {
            Some(LayoutError::NoSuchPane)
        } else if self.focused == pane && forall|j: int|
            0 <= j < self.panes@.len() && j != self.index_of(pane) ==> !(
            #[trigger] self.panes@[j]).selectable {
            Some(LayoutError::LastPane)
        } else {
            None
        }
    }

    /// The tab is `before` after `pane` has been closed: the other panes are
    /// laid out anew, and the focus, where `pane` had it, has passed to the
    /// first pane of the sibling subtree that can take it, or else to the
    /// first such pane of the tab.
    pub open spec fn close_of(&self, before: Tab, pane: PaneId) -> bool {
        let i = before.index_of(pane);
        let rest = before.panes@.remove(i);
        &&& self.id == before.id
        &&& self.name == before.name
        &&& self.area == before.area
        &&& Some(self.tree) == before.tree.without(pane)
        &&& self.panes@.len() == rest.len()
        &&& forall|j: int|
            0 <= j < rest.len() ==> (#[trigger] self.panes@[j]).moved_from(
                rest[j],
                self.tree.rects(self.area)[j],
            )
        &&& if before.focused == pane {
            heir(self.panes@, before.tree.sibling_span(pane)) matches Some(k) && self.focused
                == self.panes@[k].id
        } else {
            self.focused == before.focused
        }
    }

    /// Closes `pane`. Its sibling subtree takes over the rectangle of their
    /// parent, and the focus, where `pane` had it, passes on.
    ///
    /// Returns the window sizes to pass on to the pseudo-terminals of the
    /// panes whose size has changed.
    #[verifier::rlimit(40)]
    pub fn close(&mut self, pane: PaneId) -> (out: Result<Vec<WindowSize>, LayoutError>)
        requires
            old(self).wf(),
        ensures
            final(self).wf(),
            match out {
                Err(e) => Some(e) == old(self).close_error(pane) && *final(self) == *old(self),
                Ok(updates) => {
                    &&& old(self).close_error(pane) is None
                    &&& final(self).close_of(*old(self), pane)
                    &&& final(self).pane_ids() == old(self).pane_ids().remove(
                        old(self).index_of(pane),
                    )
                    &&& forall|p: PaneId| #[trigger]
                        final(self).has(p) <==> old(self).has(p) && p != pane
                    &&& updates@ == window_updates(
                        old(self).panes@.remove(old(self).index_of(pane)),
                        final(self).panes@,
                        false,
                    )
                },
            },
    {
        let i = match self.find(pane) {
            None => {
                return Err(LayoutError::NoSuchPane);
            },
            Some(i) => i,
        };
        let count = self.panes.len();
        let had_focus = self.focused == pane;
        let ghost other: int = 0;
        if had_focus {
            let before = find_selectable(&self.panes, 0, i);
            let after = find_selectable(&self.panes, i + 1, count);
            if before.is_none() && after.is_none() {
                return Err(LayoutError::LastPane);
            }
            proof {
                other = if before is Some { before.unwrap() as int } else { after.unwrap() as int };
            }
        } else {
            proof {
                other = self.lemma_focus_index();
            }
        }
        assert(0 <= other < count && other != i && self.panes@[other].selectable);
        proof {
            self.tree.lemma_rects_len(self.area);
            assert(self.pane_ids()[i as int] == pane);
            self.tree.lemma_close_shape(pane, i as int);
            lemma_remove_distinct(self.tree.leaves(), i as int);
        }
        let span = self.tree.sibling_of(pane);
        let outcome = self.tree.close(pane);
        assert(outcome == Closing::Closed);
        let ghost rest = self.panes@.remove(i as int);
        self.panes.remove(i);
        let rects = self.tree.layout(self.area);
        proof {
            self.tree.lemma_rects_len(self.area);
            assert(ids_of(rest) =~= old(self).pane_ids().remove(i as int));
            assert forall|j: int| 0 <= j < rest.len() implies (#[trigger] rest[j]).screen.wf() by {
                let was = if j < i { j } else { j + 1 };
                assert(old(self).panes@[was].fits());
            }
        }
        let updates = place_all(&mut self.panes, &rects, false);
        let ghost shifted = if other < i { other } else { other - 1 };
        proof {
            assert(self.panes@[shifted].moved_from(rest[shifted], rects@[shifted]));
            assert(self.panes@[shifted].selectable);
        }
        if had_focus {
            let remaining = self.panes.len();
            let k = match find_selectable(&self.panes, span.0, span.0 + span.1) {
                Some(k) => k,
                None => match find_selectable(&self.panes, 0, remaining) {
                    Some(k) => k,
                    None => 0,
                },
            };
            self.focused = self.panes[k].id;
        } else {
            proof {
                assert(self.panes@[shifted].id == self.focused);
            }
        }
        proof {
            assert(self.pane_ids() =~= ids_of(rest));
            assert(self.pane_rects() =~= self.tree.rects(self.area));
            assert forall|p: PaneId| #[trigger] self.has(p) <==> old(self).has(p) && p != pane by {
                lemma_remove_contains(old(self).pane_ids(), i as int, p);
            }
        }
        Ok(updates)
    }

    /// The tab is `before` laid out anew: the same panes, each moved to the
    /// rectangle that the tree now gives it.
    pub open spec fn relaid_from(&self, before: Tab) -> bool {
        &&& self.id == before.id
        &&& self.name == before.name
        &&& self.focused == before.focused
        &&& self.pane_ids() == before.pane_ids()
        &&& self.panes@.len() == before.panes@.len()
        &&& forall|j: int|
            0 <= j < self.panes@.len() ==> (#[trigger] self.panes@[j]).moved_from(
                before.panes@[j],
                self.tree.rects(self.area)[j],
            )
    }

    /// Moves the boundary of the nearest split above `pane` that divides
    /// along `direction` by `delta` cells, towards the right or the bottom
    /// where `delta` is positive, and no further than the minimum pane size
    /// allows. Where no split above `pane` divides along `direction`,
    /// nothing changes.
    ///
    /// Returns the window sizes to pass on to the pseudo-terminals of the
    /// panes whose size has changed.
    pub fn resize(&mut self, pane: PaneId, direction: SplitDirection, delta: i32) -> (out: Result<
        Vec<WindowSize>,
        LayoutError,
    >)
        requires
            old(self).wf(),
        ensures
            final(self).wf(),
            out is Err <==> !old(self).has(pane),
            match out {
                Err(e) => e == LayoutError::NoSuchPane && *final(self) == *old(self),
                Ok(updates) => if old(self).tree.has_split_over(pane, direction) {
                    &&& final(self).area == old(self).area
                    &&& final(self).tree == old(self).tree.resized(
                        pane,
                        direction,
                        delta as int,
                        old(self).area,
                    )
                    &&& final(self).relaid_from(*old(self))
                    &&& updates@ == window_updates(old(self).panes@, final(self).panes@, false)
                } else {
                    *final(self) == *old(self) && updates@.len() == 0
                },
            },
    {
        if self.find(pane).is_none() {
            return Err(LayoutError::NoSuchPane);
        }
        let outcome = self.tree.resize(pane, direction, delta, self.area);
        if outcome != Resizing::Moved {
            return Ok(Vec::new());
        }
        let rects = self.tree.layout(self.area);
        proof {
            self.tree.lemma_rects_len(self.area);
        }
        let updates = place_all(&mut self.panes, &rects, false);
        proof {
            assert(self.pane_ids() =~= old(self).pane_ids());
            assert(self.pane_rects() =~= self.tree.rects(self.area));
            let f = old(self).lemma_focus_index();
            assert(self.panes@[f].moved_from(old(self).panes@[f], rects@[f]));
        }
        Ok(updates)
    }

    /// Fits the tab to a terminal of `rows` by `cols` cells: the content
    /// rectangle becomes that of the terminal and every pane is laid out in
    /// it by the ratios that the splits have.
    ///
    /// Returns the window size of every terminal pane, to pass on to its
    /// pseudo-terminal.
    pub fn terminal_resize(&mut self, rows: u16, cols: u16) -> (updates: Vec<WindowSize>)
        requires
            old(self).wf(),
        ensures
            final(self).wf(),
            final(self).area == (Rect { row: 0, col: 0, rows, cols }),
            final(self).tree == old(self).tree,
            final(self).relaid_from(*old(self)),
            updates@ == window_updates(old(self).panes@, final(self).panes@, true),
            forall|i: int|
                0 <= i < final(self).panes@.len() && (#[trigger] final(self).panes@[i]).kind is Terminal
                    ==> updates@.contains(final(self).panes@[i].window()),
    {
        self.area = Rect::sized(rows, cols);
        let rects = self.tree.layout(self.area);
        proof {
            self.tree.lemma_rects_len(self.area);
        }
        let updates = place_all(&mut self.panes, &rects, true);
        proof {
            assert(self.pane_ids() =~= old(self).pane_ids());
            assert(self.pane_rects() =~= self.tree.rects(self.area));
            let f = old(self).lemma_focus_index();
            assert(self.panes@[f].moved_from(old(self).panes@[f], rects@[f]));
            assert forall|i: int|
                0 <= i < self.panes@.len() && (#[trigger] self.panes@[i]).kind is Terminal implies updates@.contains(
                self.panes@[i].window(),
            ) by {
                crate::pane::lemma_every_terminal_updated(old(self).panes@, self.panes@, i);
            }
        }
        updates
    }

    /// Whether the pane at `j` is one that the focus can move to in
    /// `direction`: another pane that can take the focus and lies right next
    /// to the focused one on that side.
    pub open spec fn is_neighbor(&self, j: int, direction: Direction) -> bool {
        let from = self.panes@[self.index_of(self.focused)].rect;
        &&& 0 <= j < self.panes@.len()
        &&& self.panes@[j].selectable
        &&& self.panes@[j].id != self.focused
        &&& from.abuts(self.panes@[j].rect, direction)
    }

    /// Whether the pane at `k` is the neighbor that the focus moves to: the
    /// one whose midpoint is nearest that of the focused pane, and among
    /// equally near ones the first in layout order.
    pub open spec fn is_nearest_neighbor(&self, k: int, direction: Direction) -> bool {
        let from = self.panes@[self.index_of(self.focused)].rect;
        &&& self.is_neighbor(k, direction)
        &&& forall|j: int| #[trigger]
            self.is_neighbor(j, direction) ==> {
                let near = from.midpoint_gap(self.panes@[k].rect, direction);
                let far = from.midpoint_gap(self.panes@[j].rect, direction);
                near < far || (near == far && k <= j)
            }
    }

    /// Moves the focus to the nearest neighbor of the focused pane in
    /// `direction`. Where there is none, nothing changes. Returns whether
    /// the focus has moved.
    pub fn move_focus(&mut self, direction: Direction) -> (moved: bool)
        requires
            old(self).wf(),
        ensures
            final(self).wf(),
            moved == exists|j: int| old(self).is_neighbor(j, direction),
            !moved ==> *final(self) == *old(self),
            moved ==> exists|k: int| #[trigger]
                old(self).is_nearest_neighbor(k, direction) && final(self).focused
                    == old(self).panes@[k].id,
            final(self).id == old(self).id,
            final(self).name == old(self).name,
            final(self).area == old(self).area,
            final(self).tree == old(self).tree,
            final(self).panes == old(self).panes,
    {
        let f = match self.find(self.focused) {
            Some(f) => f,
            None => {
                proof {
                    self.lemma_focus_index();
                }
                return false;
            },
        };
        let from = self.panes[f].rect;
        let n = self.panes.len();
        let mut best: Option<usize> = None;
        let mut best_gap: u32 = 0;
        let mut j: usize = 0;
        while j < n
            invariant
                j <= n,
                n == self.panes@.len(),
                self.wf(),
                *self == *old(self),
                f == self.index_of(self.focused),
                from == self.panes@[f as int].rect,
                best is None ==> forall|i: int| 0 <= i < j ==> !self.is_neighbor(i, direction),
                best matches Some(k) ==> {
                    &&& k < j
                    &&& self.is_neighbor(k as int, direction)
                    &&& best_gap == from.midpoint_gap(self.panes@[k as int].rect, direction)
                    &&& forall|i: int|
                        0 <= i < j && #[trigger] self.is_neighbor(i, direction) ==> {
                            let far = from.midpoint_gap(self.panes@[i].rect, direction);
                            best_gap < far || (best_gap == far && k <= i)
                        }
                },
            decreases n - j,
        {
            let candidate = &self.panes[j];
            if candidate.selectable && candidate.id != self.focused && from.is_abutting(
                &candidate.rect,
                direction,
            ) {
                let gap = from.gap_to(&candidate.rect, direction);
                if best.is_none() || gap < best_gap {
                    best = Some(j);
                    best_gap = gap;
                }
            }
            j += 1;
        }
        match best {
            None => false,
            Some(k) => {
                proof {
                    assert(old(self).is_nearest_neighbor(k as int, direction));
                }
                self.focused = self.panes[k].id;
                proof {
                    assert(self.pane_ids() =~= old(self).pane_ids());
                    assert(self.pane_rects() =~= old(self).pane_rects());
                    assert(self.panes@[k as int].selectable);
                }
                true
            },
        }
    }

    /// The place of the pane that follows the pane at `f` in the cycle of
    /// the panes that can take the focus; `f` itself where there is no other.
    pub open spec fn next_selectable(&self, f: int) -> int {
        match first_selectable(self.panes@, f + 1, self.panes@.len() as int) {
            Some(k) => k,
            None => match first_selectable(self.panes@, 0, f) {
                Some(k) => k,
                None => f,
            },
        }
    }

    /// Moves the focus to the next pane in layout order that can take it,
    /// starting over at the first pane after the last.
    pub fn focus_next(&mut self)
        requires
            old(self).wf(),
        ensures
            final(self).wf(),
            final(self).focused == old(self).panes@[old(self).next_selectable(
                old(self).index_of(old(self).focused),
            )].id,
            final(self).id == old(self).id,
            final(self).name == old(self).name,
            final(self).area == old(self).area,
            final(self).tree == old(self).tree,
            final(self).panes == old(self).panes,
    {
        let f = match self.find(self.focused) {
            Some(f) => f,
            None => {
                proof {
                    self.lemma_focus_index();
                }
                return ;
            },
        };
        let n = self.panes.len();
        let k = match find_selectable(&self.panes, f + 1, n) {
            Some(k) => k,
            None => match find_selectable(&self.panes, 0, f) {
                Some(k) => k,
                None => f,
            },
        };
        self.focused = self.panes[k].id;
        proof {
            assert(self.pane_ids() =~= old(self).pane_ids());
            assert(self.pane_rects() =~= old(self).pane_rects());
            old(self).lemma_focus_index();
            assert(self.panes@[k as int].selectable);
        }
    }
}

impl Tab {
    /// The tab is `before` after the emulator of the pane at `i` has taken
    /// `bytes`: nothing else has changed.
    pub open spec fn fed_from(&self, before: Tab, i: int, bytes: Seq<u8>) -> bool {
        &&& self.id == before.id
        &&& self.name == before.name
        &&& self.area == before.area
        &&& self.tree == before.tree
        &&& self.focused == before.focused
        &&& self.panes@.len() == before.panes@.len()
        &&& self.panes@[i].fed_from(before.panes@[i], bytes)
        &&& forall|j: int|
            0 <= j < self.panes@.len() && j != i ==> self.panes@[j] == before.panes@[j]
    }

    /// Passes the next bytes of the output of the child of `pane` to the
    /// pane's emulator. Returns whether the tab has the pane.
    pub fn feed(&mut self, pane: PaneId, bytes: &[u8]) -> (found: bool)
        requires
            old(self).wf(),
        ensures
            final(self).wf(),
            found == old(self).has(pane),
            found ==> final(self).fed_from(*old(self), old(self).index_of(pane), bytes@),
            !found ==> *final(self) == *old(self),
            final(self).pane_ids() == old(self).pane_ids(),
    {
        let i = match self.find(pane) {
            None => {
                return false;
            },
            Some(i) => i,
        };
        self.panes[i].feed(bytes);
        proof {
            assert(self.pane_ids() =~= old(self).pane_ids());
            assert(self.pane_rects() =~= old(self).pane_rects());
            let f = old(self).lemma_focus_index();
            if f != i {
                assert(self.panes@[f] == old(self).panes@[f]);
            }
            assert forall|j: int| 0 <= j < self.panes@.len() implies (#[trigger] self.panes@[j]).fits() by {
                if j != i {
                    assert(self.panes@[j] == old(self).panes@[j]);
                }
            }
        }
        true
    }
}

/// A request to a plugin to render its pane.
#[derive(Clone, Copy, Debug, PartialEq, Eq, Structural)]
pub struct RenderRequest {
    pub plugin: PluginId,
    pub rows: u16,
    pub cols: u16,
}

/// The requests to the plugins of `panes` to render their panes, in layout order.
pub open spec fn render_requests(panes: Seq<Pane>) -> Seq<RenderRequest>
    decreases panes.len(),
{
    if panes.len() == 0 {
        Seq::empty()
    } else {
        let rest = render_requests(panes.drop_last());
        match panes.last().kind {
            PaneKind::Plugin { plugin } => rest.push(
                RenderRequest {
                    plugin: plugin.id,
                    rows: panes.last().rect.rows,
                    cols: panes.last().rect.cols,
                },
            ),
            PaneKind::Terminal => rest,
        }
    }
}

/// The plugins of `panes` that have subscribed to events of `kind`, in layout order.
pub open spec fn subscribed(panes: Seq<Pane>, kind: EventKind) -> Seq<PluginId>
    decreases panes.len(),
{
    if panes.len() == 0 {
        Seq::empty()
    } else {
        let rest = subscribed(panes.drop_last(), kind);
        match panes.last().kind {
            PaneKind::Plugin { plugin } => if plugin.subscriptions.has(kind) {
                rest.push(plugin.id)
            } else {
                rest
            },
            PaneKind::Terminal => rest,
        }
    }
}

impl Tab {
    /// The tab is `before` but for the emulators of its panes, of which a
    /// frame has been taken.
    pub open spec fn framed_from(&self, before: Tab) -> bool {
        &&& self.id == before.id
        &&& self.name == before.name
        &&& self.area == before.area
        &&& self.tree == before.tree
        &&& self.focused == before.focused
        &&& self.panes@.len() == before.panes@.len()
        &&& forall|j: int|
            0 <= j < self.panes@.len() ==> (#[trigger] self.panes@[j]).framed_from(before.panes@[j])
    }

    /// Takes a frame of the tab: the cells of every line of every pane that
    /// has changed since the last frame, placed on the terminal, and whether
    /// a bell has rung.
    pub fn render(&mut self) -> (frame: (Vec<FrameCell>, bool))
        requires
            old(self).wf(),
        ensures
            final(self).wf(),
            final(self).framed_from(*old(self)),
            final(self).pane_ids() == old(self).pane_ids(),
            frame.0@ == tab_cells(old(self).panes@),
            frame.1 == any_bell(old(self).panes@),
    {
        let mut cells: Vec<FrameCell> = Vec::new();
        let mut bell = false;
        let n = self.panes.len();
        let mut i: usize = 0;
        proof {
            self.tree.lemma_rects_len(self.area);
            assert forall|j: int| 0 <= j < n implies (#[trigger] self.panes@[j]).rect.wf() by {
                self.tree.lemma_rects_wf(self.area, j);
                assert(self.pane_rects()[j] == self.panes@[j].rect);
            }
        }
        assert(cells@ =~= tab_cells(old(self).panes@.take(0)));
        while i < n
            invariant
                i <= n,
                n == self.panes@.len(),
                n == old(self).panes@.len(),
                self.id == old(self).id,
                self.name == old(self).name,
                self.area == old(self).area,
                self.tree == old(self).tree,
                self.focused == old(self).focused,
                forall|j: int| 0 <= j < n ==> (#[trigger] old(self).panes@[j]).rect.wf(),
                forall|j: int| 0 <= j < n ==> (#[trigger] old(self).panes@[j]).fits(),
                forall|j: int| i <= j < n ==> self.panes@[j] == old(self).panes@[j],
                forall|j: int|
                    0 <= j < i ==> (#[trigger] self.panes@[j]).framed_from(old(self).panes@[j])
                        && self.panes@[j].fits(),
                cells@ == tab_cells(old(self).panes@.take(i as int)),
                bell == any_bell(old(self).panes@.take(i as int)),
            decreases n - i,
        {
            let rang = self.panes[i].screen.rang();
            pane_frame(&mut self.panes[i], &mut cells);
            proof {
                let before = old(self).panes@;
                assert(before.take(i + 1).drop_last() =~= before.take(i as int));
                assert(before.take(i + 1).last() == before[i as int]);
                if rang {
                    assert(before.take(i + 1)[i as int].screen@.bell);
                }
                if any_bell(before.take(i + 1)) && !rang {
                    let w = choose|w: int|
                        0 <= w < before.take(i + 1).len() && (#[trigger] before.take(
                            i + 1,
                        )[w]).screen@.bell;
                    assert(before.take(i as int)[w].screen@.bell);
                }
                if bell {
                    let w = choose|w: int|
                        0 <= w < before.take(i as int).len() && (#[trigger] before.take(
                            i as int,
                        )[w]).screen@.bell;
                    assert(before.take(i + 1)[w].screen@.bell);
                }
            }
            bell = bell || rang;
            i += 1;
        }
        proof {
            assert(old(self).panes@.take(n as int) =~= old(self).panes@);
            assert(self.pane_ids() =~= old(self).pane_ids());
            assert(self.pane_rects() =~= old(self).pane_rects());
            let f = old(self).lemma_focus_index();
            assert(self.panes@[f].framed_from(old(self).panes@[f]));
        }
        (cells, bell)
    }

    /// The tab is `before` but for the kind of the pane at `i`.
    pub open spec fn recast_from(&self, before: Tab, i: int, kind: PaneKind) -> bool {
        &&& self.id == before.id
        &&& self.name == before.name
        &&& self.area == before.area
        &&& self.tree == before.tree
        &&& self.focused == before.focused
        &&& self.panes@.len() == before.panes@.len()
        &&& self.panes@[i].recast_from(before.panes@[i], kind)
        &&& forall|j: int|
            0 <= j < self.panes@.len() && j != i ==> self.panes@[j] == before.panes@[j]
    }

    /// Gives `pane` another kind. Returns whether the tab has the pane.
    pub fn set_kind(&mut self, pane: PaneId, kind: PaneKind) -> (found: bool)
        requires
            old(self).wf(),
        ensures
            final(self).wf(),
            found == old(self).has(pane),
            found ==> final(self).recast_from(*old(self), old(self).index_of(pane), kind),
            !found ==> *final(self) == *old(self),
            final(self).pane_ids() == old(self).pane_ids(),
    {
        let i = match self.find(pane) {
            None => {
                return false;
            },
            Some(i) => i,
        };
        self.panes[i].kind = kind;
        proof {
            assert(self.pane_ids() =~= old(self).pane_ids());
            assert(self.pane_rects() =~= old(self).pane_rects());
            let f = old(self).lemma_focus_index();
            if f != i {
                assert(self.panes@[f] == old(self).panes@[f]);
            }
            assert forall|j: int| 0 <= j < self.panes@.len() implies (#[trigger] self.panes@[j]).fits() by {
                if j != i {
                    assert(self.panes@[j] == old(self).panes@[j]);
                } else {
                    assert(old(self).panes@[j].fits());
                }
            }
        }
        true
    }

    /// The requests to the plugins of the tab to render their panes, in
    /// layout order.
    pub fn plugin_renders(&self) -> (out: Vec<RenderRequest>)
        ensures
            out@ == render_requests(self.panes@),
    {
        let mut out: Vec<RenderRequest> = Vec::new();
        let n = self.panes.len();
        let mut i: usize = 0;
        assert(out@ =~= render_requests(self.panes@.take(0)));
        while i < n
            invariant
                i <= n,
                n == self.panes@.len(),
                out@ == render_requests(self.panes@.take(i as int)),
            decreases n - i,
        {
            proof {
                assert(self.panes@.take(i + 1).drop_last() =~= self.panes@.take(i as int));
                assert(self.panes@.take(i + 1).last() == self.panes@[i as int]);
            }
            match self.panes[i].kind {
                PaneKind::Plugin { plugin } => {
                    out.push(
                        RenderRequest {
                            plugin: plugin.id,
                            rows: self.panes[i].rect.rows,
                            cols: self.panes[i].rect.cols,
                        },
                    );
                },
                PaneKind::Terminal => {},
            }
            i += 1;
        }
        assert(self.panes@.take(n as int) =~= self.panes@);
        out
    }

    /// Appends to `out` the plugins of the tab that have subscribed to
    /// events of `kind`, in layout order.
    pub fn subscribers(&self, kind: EventKind, out: &mut Vec<PluginId>)
        ensures
            final(out)@ == old(out)@ + subscribed(self.panes@, kind),
    {
        let n = self.panes.len();
        let mut i: usize = 0;
        assert(out@ =~= old(out)@ + subscribed(self.panes@.take(0), kind));
        while i < n
            invariant
                i <= n,
                n == self.panes@.len(),
                out@ == old(out)@ + subscribed(self.panes@.take(i as int), kind),
            decreases n - i,
        {
            proof {
                assert(self.panes@.take(i + 1).drop_last() =~= self.panes@.take(i as int));
                assert(self.panes@.take(i + 1).last() == self.panes@[i as int]);
            }
            match self.panes[i].kind {
                PaneKind::Plugin { plugin } => {
                    if plugin.wants(kind) {
                        out.push(plugin.id);
                    }
                },
                PaneKind::Terminal => {},
            }
            assert(out@ =~= old(out)@ + subscribed(self.panes@.take(i + 1), kind));
            i += 1;
        }
        assert(self.panes@.take(n as int) =~= self.panes@);
    }
}

impl Tab {
    /// The tab is `before` but for the pane at `i`, which has kept its
    /// identifier and its rectangle, and for the focus.
    pub open spec fn with_pane(&self, before: Tab, i: int) -> bool {
        &&& self.id == before.id
        &&& self.name == before.name
        &&& self.area == before.area
        &&& self.tree == before.tree
        &&& self.panes@.len() == before.panes@.len()
        &&& self.panes@[i].id == before.panes@[i].id
        &&& self.panes@[i].rect == before.panes@[i].rect
        &&& forall|j: int|
            0 <= j < self.panes@.len() && j != i ==> self.panes@[j] == before.panes@[j]
    }

    /// A tab stays well formed when one of its panes changes but keeps its
    /// identifier, its rectangle and the size of its grid, and the focus
    /// stays on a pane that can take it.
    pub proof fn lemma_pane_changed(before: Tab, after: Tab, i: int)
        requires
            before.wf(),
            0 <= i < before.panes@.len(),
            after.with_pane(before, i),
            after.panes@[i].fits(),
            exists|k: int|
                0 <= k < after.panes@.len() && (#[trigger] after.panes@[k]).id == after.focused
                    && after.panes@[k].selectable,
        ensures
            after.wf(),
            after.pane_ids() == before.pane_ids(),
    {
        assert(after.pane_ids() =~= before.pane_ids());
        assert(after.pane_rects() =~= before.pane_rects());
        assert forall|j: int| 0 <= j < after.panes@.len() implies (#[trigger] after.panes@[j]).fits() by {
            if j != i {
                assert(after.panes@[j] == before.panes@[j]);
            }
        }
    }

    /// Draws text into `pane`. Returns whether the tab has the pane.
    pub fn draw(&mut self, pane: PaneId, text: &DrawnText) -> (found: bool)
        requires
            old(self).wf(),
        ensures
            final(self).wf(),
            found == old(self).has(pane),
            !found ==> *final(self) == *old(self),
            found ==> {
                let i = old(self).index_of(pane);
                &&& final(self).with_pane(*old(self), i)
                &&& final(self).focused == old(self).focused
                &&& final(self).panes@[i].drawn_from(old(self).panes@[i], *text)
            },
            final(self).pane_ids() == old(self).pane_ids(),
    {
        let i = match self.find(pane) {
            None => {
                return false;
            },
            Some(i) => i,
        };
        self.panes[i].draw(text);
        proof {
            let f = old(self).lemma_focus_index();
            if f != i {
                assert(self.panes@[f] == old(self).panes@[f]);
            }
            Self::lemma_pane_changed(*old(self), *self, i as int);
        }
        true
    }

    /// Whether `pane` can be made to take the focus or not: the tab has it
    /// and, where it is to lose the focus that it has, another pane can take
    /// it.
    pub open spec fn can_select(&self, pane: PaneId, selectable: bool) -> bool {
        let i = self.index_of(pane);
        self.has(pane) && (selectable || self.focused != pane || self.next_selectable(i) != i)
    }

    /// Says whether `pane` can take the focus. A pane that has the focus
    /// and can take it no more passes it to the next pane that can; where
    /// there is none, nothing changes. Returns whether the flag is set as
    /// asked.
    pub fn set_selectable(&mut self, pane: PaneId, selectable: bool) -> (done: bool)
        requires
            old(self).wf(),
        ensures
            final(self).wf(),
            done == old(self).can_select(pane, selectable),
            !done ==> *final(self) == *old(self),
            done ==> {
                let i = old(self).index_of(pane);
                &&& final(self).with_pane(*old(self), i)
                &&& final(self).panes@[i] == (Pane { selectable, ..old(self).panes@[i] })
                &&& final(self).focused == if !selectable && old(self).focused == pane {
                    old(self).panes@[old(self).next_selectable(i)].id
                } else {
                    old(self).focused
                }
            },
            final(self).pane_ids() == old(self).pane_ids(),
    {
        let i = match self.find(pane) {
            None => {
                return false;
            },
            Some(i) => i,
        };
        let n = self.panes.len();
        let ghost f = self.lemma_focus_index();
        if !selectable && self.focused == pane {
            let next = match find_selectable(&self.panes, i + 1, n) {
                Some(k) => k,
                None => match find_selectable(&self.panes, 0, i) {
                    Some(k) => k,
                    None => {
                        return false;
                    },
                },
            };
            self.focused = self.panes[next].id;
            self.panes[i].selectable = false;
            proof {
                assert(self.panes@[next as int] == old(self).panes@[next as int]);
                assert(old(self).panes@[i as int].fits());
                Self::lemma_pane_changed(*old(self), *self, i as int);
            }
        } else {
            self.panes[i].selectable = selectable;
            proof {
                if f != i {
                    assert(self.panes@[f] == old(self).panes@[f]);
                }
                assert(old(self).panes@[i as int].fits());
                Self::lemma_pane_changed(*old(self), *self, i as int);
            }
        }
        true
    }
}

impl Tab {
    /// A tab with the layout `tree` that fills `area`, its panes new and of
    /// the kinds `kinds`, in layout order. The first pane has the focus.
    pub(crate) fn assemble(id: TabId, name: String, area: Rect, tree: LayoutNode, kinds: Vec<PaneKind>) -> (tab:
        Tab)
        requires
            area.wf(),
            tree.ratios_ok(),
            tree.leaves().no_duplicates(),
            kinds@.len() == tree.leaves().len(),
        ensures
            tab.wf(),
            tab.id == id,
            tab.name == name,
            tab.area == area,
            tab.tree == tree,
            tab.focused == tree.leaves()[0],
            tab.panes@.len() == kinds@.len(),
            forall|i: int|
                0 <= i < kinds@.len() ==> (#[trigger] tab.panes@[i]).is_new(
                    tree.leaves()[i],
                    kinds@[i],
                    tree.rects(area)[i],
                ),
    {
        let ids = tree.panes();
        let rects = tree.layout(area);
        proof {
            tree.lemma_rects_len(area);
        }
        let mut panes: Vec<Pane> = Vec::new();
        let n = kinds.len();
        let mut i: usize = 0;
        while i < n
            invariant
                i <= n,
                n == kinds@.len(),
                n == ids@.len(),
                n == rects@.len(),
                panes@.len() == i,
                forall|j: int|
                    0 <= j < i ==> (#[trigger] panes@[j]).is_new(ids@[j], kinds@[j], rects@[j])
                        && panes@[j].fits(),
            decreases n - i,
        {
            panes.push(Pane::new(ids[i], kinds[i], rects[i]));
            i += 1;
        }
        let focused = ids[0];
        let tab = Tab { id, name, area, tree, panes, focused };
        proof {
            assert(tab.pane_ids() =~= tree.leaves());
            assert(tab.pane_rects() =~= tree.rects(area));
            assert(tab.panes@[0].id == focused && tab.panes@[0].selectable);
        }
        tab
    }
}

impl Tab {
    /// The pane rectangles of a tab tile its content rectangle: every cell
    /// of the content rectangle lies in the rectangle of exactly one pane,
    /// and every other cell in none.
    pub proof fn lemma_panes_tile(&self, r: int, c: int)
        requires
            self.wf(),
        ensures
            crate::tiling::cover(self.pane_rects(), r, c) == if self.area.contains(r, c) {
                1nat
            } else {
                0nat
            },
    {
        self.tree.lemma_exact_cover(self.area, r, c);
    }

    /// The leaves of a tab's tree and its panes are in one-to-one
    /// correspondence: each leaf names the pane at its own place, and no
    /// other leaf names that pane.
    pub proof fn lemma_leaves_match_panes(&self)
        requires
            self.wf(),
        ensures
            self.tree.leaves().len() == self.panes@.len(),
            forall|i: int|
                0 <= i < self.panes@.len() ==> #[trigger] self.tree.leaves()[i] == self.panes@[i].id,
            forall|i: int, j: int|
                0 <= i < self.panes@.len() && 0 <= j < self.panes@.len()
                    && #[trigger] self.tree.leaves()[i] == (#[trigger] self.panes@[j]).id ==> i == j,
    {
        assert forall|i: int| 0 <= i < self.panes@.len() implies #[trigger] self.tree.leaves()[i]
            == self.panes@[i].id by {
            assert(self.pane_ids()[i] == self.panes@[i].id);
        }
        assert forall|i: int, j: int|
            0 <= i < self.panes@.len() && 0 <= j < self.panes@.len()
                && #[trigger] self.tree.leaves()[i] == (#[trigger] self.panes@[j]).id implies i
            == j by {
            assert(self.pane_ids()[j] == self.panes@[j].id);
        }
    }
}

} // verus!
