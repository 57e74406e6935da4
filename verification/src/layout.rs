//! The layout tree of a tab: a binary space partition whose leaves are panes.

use vstd::prelude::*;
use crate::geometry::{share_of, Ratio, Rect, SplitDirection, MIN_PANE_COLS, MIN_PANE_ROWS};
use crate::ids::PaneId;

verus! {

/// A node of the layout tree.
#[derive(Debug, PartialEq, Eq)]
pub enum LayoutNode {
    /// A pane.
    Leaf { pane: PaneId },
    /// Two subtrees that share a rectangle; `left` is the left or upper one.
    Split { direction: SplitDirection, ratio: Ratio, left: Box<LayoutNode>, right: Box<LayoutNode> },
}

/// What became of a request to close a pane.
#[derive(Clone, Copy, Debug, PartialEq, Eq, Structural)]
pub enum Closing {
    /// The pane is not in the tree, which is unchanged.
    Absent,
    /// The pane is the only one of the tree, which is unchanged: a tree
    /// cannot be empty, so its owner has to dispose of it.
    Last,
    /// The pane's sibling subtree has taken the place of their parent.
    Closed,
}

/// What became of a request to move a boundary.
#[derive(Clone, Copy, Debug, PartialEq, Eq, Structural)]
pub enum Resizing {
    /// The pane is not in the tree, which is unchanged.
    Absent,
    /// No split above the pane divides along the requested direction; the
    /// tree is unchanged.
    Unmoved,
    /// The nearest such split has a new ratio.
    Moved,
}

/// The smallest extent a child may have along `direction`.
pub open spec fn min_extent(direction: SplitDirection) -> int {
    match direction {
        SplitDirection::Horizontal => MIN_PANE_ROWS as int,
        SplitDirection::Vertical => MIN_PANE_COLS as int,
    }
}

/// Cells of the first child after its boundary has moved by `delta`, kept so
/// far from both ends that each child has `min` cells. Where `total` has no
/// room for two children of `min` cells, the boundary stays.
pub open spec fn moved_edge(total: int, first: int, delta: int, min: int) -> int {
    if total < 2 * min {
        first
    } else if first + delta < min {
        min
    } else if first + delta > total - min {
        total - min
    } else {
        first + delta
    }
}

/// Whether a boundary with `first` cells before it can move by `delta` and
/// back again without being stopped.
pub open spec fn moves_freely(total: int, first: int, delta: int, min: int) -> bool {
    min <= first <= total - min && min <= first + delta <= total - min
}

/// The ratio that places the boundary where `moved_edge` says.
pub open spec fn moved_ratio(total: int, ratio: Ratio, delta: int, min: int) -> Ratio {
    if total < 2 * min {
        ratio
    } else {
        Ratio { num: moved_edge(total, share_of(total, ratio), delta, min) as u16, den: total as u16 }
    }
}

/// Computes the ratio of a split of `total` cells after its boundary has moved.
pub fn move_edge(total: u16, ratio: Ratio, delta: i32, direction: SplitDirection) -> (out: Ratio)
    requires
        ratio.wf(),
    ensures
        out == moved_ratio(total as int, ratio, delta as int, min_extent(direction)),
        out.wf(),
        share_of(total as int, out) == moved_edge(
            total as int,
            share_of(total as int, ratio),
            delta as int,
            min_extent(direction),
        ),
{
    let min: u16 = match direction {
        SplitDirection::Horizontal => MIN_PANE_ROWS,
        SplitDirection::Vertical => MIN_PANE_COLS,
    };
    if total < 2 * min {
        return ratio;
    }
    let first: u16 = ratio.share(total);
    let wanted: i64 = first as i64 + delta as i64;
    let placed: u16 = if wanted < min as i64 {
        min
    } else if wanted > (total - min) as i64 {
        total - min
    } else {
        wanted as u16
    };
    proof {
        crate::geometry::lemma_share_exact(total as int, placed as int);
    }
    Ratio { num: placed, den: total }
}

impl LayoutNode {
    /// The panes of the tree, left to right and top to bottom.
    pub open spec fn leaves(self) -> Seq<PaneId>
        decreases self,
    {
        match self {
            LayoutNode::Leaf { pane } => seq![pane],
            LayoutNode::Split { left, right, .. } => left.leaves() + right.leaves(),
        }
    }

    /// Every ratio in the tree lies strictly between zero and one.
    pub open spec fn ratios_ok(self) -> bool
        decreases self,
    {
        match self {
            LayoutNode::Leaf { .. } => true,
            LayoutNode::Split { ratio, left, right, .. } => ratio.wf() && left.ratios_ok()
                && right.ratios_ok(),
        }
    }

    /// The ratios are valid and no pane occurs twice.
    pub open spec fn wf(self) -> bool {
        self.ratios_ok() && self.leaves().no_duplicates()
    }

    /// The rectangles of the panes when the tree fills `area`, in the order
    /// of `leaves`.
    pub open spec fn rects(self, area: Rect) -> Seq<Rect>
        decreases self,
    {
        match self {
            LayoutNode::Leaf { .. } => seq![area],
            LayoutNode::Split { direction, ratio, left, right } => {
                let parts = area.divide(direction, ratio);
                left.rects(parts.0) + right.rects(parts.1)
            },
        }
    }

    /// The tree after the leaf of `pane` has become an even split of `pane`
    /// and `new`. A tree without `pane` stays as it is.
    pub open spec fn with_split(self, pane: PaneId, direction: SplitDirection, new: PaneId) -> LayoutNode
        decreases self,
    {
        match self {
            LayoutNode::Leaf { pane: p } => if p == pane {
                LayoutNode::Split {
                    direction,
                    ratio: Ratio { num: 1, den: 2 },
                    left: Box::new(LayoutNode::Leaf { pane }),
                    right: Box::new(LayoutNode::Leaf { pane: new }),
                }
            } else {
                self
            },
            LayoutNode::Split { direction: d, ratio, left, right } => if left.leaves().contains(pane) {
                LayoutNode::Split {
                    direction: d,
                    ratio,
                    left: Box::new(left.with_split(pane, direction, new)),
                    right,
                }
            } else {
                LayoutNode::Split {
                    direction: d,
                    ratio,
                    left,
                    right: Box::new(right.with_split(pane, direction, new)),
                }
            },
        }
    }

    /// The tree after `pane` has been closed: the sibling subtree stands where
    /// the parent of `pane` stood. `None` where `pane` is the only pane. A
    /// tree without `pane` stays as it is.
    pub open spec fn without(self, pane: PaneId) -> Option<LayoutNode>
        decreases self,
    {
        match self {
            LayoutNode::Leaf { pane: p } => if p == pane {
                None
            } else {
                Some(self)
            },
            LayoutNode::Split { direction, ratio, left, right } => if left.leaves().contains(pane) {
                match left.without(pane) {
                    None => Some(*right),
                    Some(l) => Some(LayoutNode::Split { direction, ratio, left: Box::new(l), right }),
                }
            } else {
                match right.without(pane) {
                    None => Some(*left),
                    Some(r) => Some(LayoutNode::Split { direction, ratio, left, right: Box::new(r) }),
                }
            },
        }
    }

    /// Whether some split above `pane` divides along `direction`.
    pub open spec fn has_split_over(self, pane: PaneId, direction: SplitDirection) -> bool
        decreases self,
    {
        match self {
            LayoutNode::Leaf { .. } => false,
            LayoutNode::Split { direction: d, left, right, .. } => if left.leaves().contains(pane) {
                d == direction || left.has_split_over(pane, direction)
            } else if right.leaves().contains(pane) {
                d == direction || right.has_split_over(pane, direction)
            } else {
                false
            },
        }
    }

    /// The tree, filling `area`, after the boundary of the nearest split above
    /// `pane` that divides along `direction` has moved by `delta` cells,
    /// as far as the minimum pane size lets it. A tree without such a split
    /// stays as it is.
    pub open spec fn resized(self, pane: PaneId, direction: SplitDirection, delta: int, area: Rect) -> LayoutNode
        decreases self,
    {
        match self {
            LayoutNode::Leaf { .. } => self,
            LayoutNode::Split { direction: d, ratio, left, right } => {
                let parts = area.divide(d, ratio);
                let moved = moved_ratio(area.extent(d) as int, ratio, delta, min_extent(d));
                if left.leaves().contains(pane) {
                    if left.has_split_over(pane, direction) {
                        LayoutNode::Split {
                            direction: d,
                            ratio,
                            left: Box::new(left.resized(pane, direction, delta, parts.0)),
                            right,
                        }
                    } else if d == direction {
                        LayoutNode::Split { direction: d, ratio: moved, left, right }
                    } else {
                        self
                    }
                } else if right.leaves().contains(pane) {
                    if right.has_split_over(pane, direction) {
                        LayoutNode::Split {
                            direction: d,
                            ratio,
                            left,
                            right: Box::new(right.resized(pane, direction, delta, parts.1)),
                        }
                    } else if d == direction {
                        LayoutNode::Split { direction: d, ratio: moved, left, right }
                    } else {
                        self
                    }
                } else {
                    self
                }
            },
        }
    }

    /// Whether a move by `delta` of the boundary above `pane`, and the move
    /// back, both go all the way: neither is stopped by the minimum pane size.
    pub open spec fn resize_unclamped(
        self,
        pane: PaneId,
        direction: SplitDirection,
        delta: int,
        area: Rect,
    ) -> bool
        decreases self,
    {
        match self {
            LayoutNode::Leaf { .. } => true,
            LayoutNode::Split { direction: d, ratio, left, right } => {
                let parts = area.divide(d, ratio);
                let total = area.extent(d) as int;
                let free = moves_freely(total, share_of(total, ratio), delta, min_extent(d));
                if left.leaves().contains(pane) {
                    if left.has_split_over(pane, direction) {
                        left.resize_unclamped(pane, direction, delta, parts.0)
                    } else {
                        d == direction ==> free
                    }
                } else if right.leaves().contains(pane) {
                    if right.has_split_over(pane, direction) {
                        right.resize_unclamped(pane, direction, delta, parts.1)
                    } else {
                        d == direction ==> free
                    }
                } else {
                    true
                }
            },
        }
    }

    /// Where the sibling subtree of `pane` lies among the panes that are left
    /// once `pane` is closed: the index of its first pane and the number of
    /// its panes.
    pub open spec fn sibling_span(self, pane: PaneId) -> (int, int)
        decreases self,
    {
        match self {
            LayoutNode::Leaf { .. } => (0, 0),
            LayoutNode::Split { left, right, .. } => if left.leaves().contains(pane) {
                if *left is Leaf {
                    (0, right.leaves().len() as int)
                } else {
                    left.sibling_span(pane)
                }
            } else if right.leaves().contains(pane) {
                if *right is Leaf {
                    (0, left.leaves().len() as int)
                } else {
                    let inner = right.sibling_span(pane);
                    (left.leaves().len() + inner.0, inner.1)
                }
            } else {
                (0, 0)
            },
        }
    }

    /// What closing `pane` comes to.
    pub open spec fn closing(self, pane: PaneId) -> Closing {
        if !self.leaves().contains(pane) {
            Closing::Absent
        } else if self is Leaf {
            Closing::Last
        } else {
            Closing::Closed
        }
    }

    /// What moving a boundary above `pane` comes to.
    pub open spec fn resizing(self, pane: PaneId, direction: SplitDirection) -> Resizing {
        if !self.leaves().contains(pane) {
            Resizing::Absent
        } else if self.has_split_over(pane, direction) {
            Resizing::Moved
        } else {
            Resizing::Unmoved
        }
    }

    /// A tree of one pane.
    pub fn leaf(pane: PaneId) -> (tree: LayoutNode)
        ensures
            tree == (LayoutNode::Leaf { pane }),
            tree.wf(),
            tree.leaves() == seq![pane],
    {
        LayoutNode::Leaf { pane }
    }

    /// The pane of a leaf; `None` for a split.
    pub fn leaf_pane(&self) -> (pane: Option<PaneId>)
        ensures
            pane == match *self {
                LayoutNode::Leaf { pane: p } => Some(p),
                LayoutNode::Split { .. } => None,
            },
    {
        match self {
            LayoutNode::Leaf { pane } => Some(*pane),
            LayoutNode::Split { .. } => None,
        }
    }

    /// Whether `pane` is a leaf of the tree.
    pub fn has(&self, pane: PaneId) -> (found: bool)
        ensures
            found == self.leaves().contains(pane),
        decreases self,
    {
        match self {
            LayoutNode::Leaf { pane: p } => {
                assert(self.leaves()[0] == *p);
                *p == pane
            },
            LayoutNode::Split { left, right, .. } => {
                proof {
                    lemma_concat_contains(left.leaves(), right.leaves(), pane);
                }
                left.has(pane) || right.has(pane)
            },
        }
    }

    /// Replaces the leaf of `pane` by an even split of `pane` and `new`:
    /// `pane` keeps the left or upper half, `new` takes the other.
    pub fn split(&mut self, pane: PaneId, direction: SplitDirection, new: PaneId) -> (found: bool)
        ensures
            found == old(self).leaves().contains(pane),
            *final(self) == old(self).with_split(pane, direction, new),
            !found ==> *final(self) == *old(self),
            old(self).ratios_ok() ==> final(self).ratios_ok(),
        decreases *old(self),
    {
        match self.leaf_pane() {
            Some(p) => {
                assert(old(self).leaves()[0] == p);
                if p == pane {
                    proof {
                        reveal_with_fuel(LayoutNode::ratios_ok, 2);
                    }
                    *self = LayoutNode::Split {
                        direction,
                        ratio: Ratio::half(),
                        left: Box::new(LayoutNode::Leaf { pane }),
                        right: Box::new(LayoutNode::Leaf { pane: new }),
                    };
                    true
                } else {
                    false
                }
            },
            None => match self {
                LayoutNode::Split { left, right, .. } => {
                    proof {
                        lemma_concat_contains(left.leaves(), right.leaves(), pane);
                    }
                    if left.split(pane, direction, new) {
                        true
                    } else {
                        right.split(pane, direction, new)
                    }
                },
                LayoutNode::Leaf { .. } => false,
            },
        }
    }

    /// Closes `pane`: its sibling subtree takes the place of their parent and
    /// with it the parent's rectangle.
    pub fn close(&mut self, pane: PaneId) -> (outcome: Closing)
        ensures
            outcome == old(self).closing(pane),
            outcome == Closing::Closed ==> Some(*final(self)) == old(self).without(pane),
            outcome != Closing::Closed ==> *final(self) == *old(self),
            old(self).ratios_ok() ==> final(self).ratios_ok(),
        decreases *old(self),
    {
        let mut promote_right = false;
        match self {
            LayoutNode::Leaf { pane: p } => {
                assert(old(self).leaves()[0] == *p);
                return if *p == pane {
                    Closing::Last
                } else {
                    Closing::Absent
                };
            },
            LayoutNode::Split { left, right, .. } => {
                proof {
                    lemma_concat_contains(left.leaves(), right.leaves(), pane);
                }
                match left.close(pane) {
                    Closing::Closed => {
                        return Closing::Closed;
                    },
                    Closing::Last => {
                        promote_right = true;
                    },
                    Closing::Absent => {
                        match right.close(pane) {
                            Closing::Closed => {
                                return Closing::Closed;
                            },
                            Closing::Last => {},
                            Closing::Absent => {
                                return Closing::Absent;
                            },
                        }
                    },
                }
            },
        }
        let mut parent = LayoutNode::Leaf { pane };
        core::mem::swap(self, &mut parent);
        match parent {
            LayoutNode::Split { left, right, .. } => {
                if promote_right {
                    *self = *right;
                } else {
                    *self = *left;
                }
            },
            LayoutNode::Leaf { .. } => {},
        }
        Closing::Closed
    }

    /// Moves the boundary of the nearest split above `pane` that divides along
    /// `direction` by `delta` cells: towards the right or the bottom where
    /// `delta` is positive. The boundary stops where a child would fall below
    /// the minimum pane size.
    pub fn resize(&mut self, pane: PaneId, direction: SplitDirection, delta: i32, area: Rect) -> (outcome:
        Resizing)
        requires
            old(self).ratios_ok(),
            area.wf(),
        ensures
            outcome == old(self).resizing(pane, direction),
            *final(self) == old(self).resized(pane, direction, delta as int, area),
            outcome != Resizing::Moved ==> *final(self) == *old(self),
            final(self).ratios_ok(),
            final(self).leaves() == old(self).leaves(),
        decreases *old(self),
    {
        match self {
            LayoutNode::Leaf { pane: p } => {
                assert(old(self).leaves()[0] == *p);
                if *p == pane {
                    Resizing::Unmoved
                } else {
                    Resizing::Absent
                }
            },
            LayoutNode::Split { direction: d, ratio, left, right } => {
                proof {
                    lemma_concat_contains(left.leaves(), right.leaves(), pane);
                }
                let parts = area.split(*d, *ratio);
                let extent = match d {
                    SplitDirection::Horizontal => area.rows,
                    SplitDirection::Vertical => area.cols,
                };
                let inner = match left.resize(pane, direction, delta, parts.0) {
                    Resizing::Absent => right.resize(pane, direction, delta, parts.1),
                    found => found,
                };
                match inner {
                    Resizing::Unmoved => {
                        if *d == direction {
                            *ratio = move_edge(extent, *ratio, delta, direction);
                            Resizing::Moved
                        } else {
                            Resizing::Unmoved
                        }
                    },
                    other => other,
                }
            },
        }
    }

    /// The number of panes.
    pub fn leaf_count(&self) -> (n: usize)
        requires
            self.leaves().len() <= usize::MAX,
        ensures
            n == self.leaves().len(),
            n >= 1,
        decreases self,
    {
        match self {
            LayoutNode::Leaf { .. } => 1,
            LayoutNode::Split { left, right, .. } => {
                proof {
                    left.lemma_rects_len(Rect { row: 0, col: 0, rows: 0, cols: 0 });
                    right.lemma_rects_len(Rect { row: 0, col: 0, rows: 0, cols: 0 });
                }
                left.leaf_count() + right.leaf_count()
            },
        }
    }

    /// Locates the sibling subtree of `pane` among the panes that closing
    /// `pane` leaves: the index of its first pane and the number of its panes.
    pub fn sibling_of(&self, pane: PaneId) -> (span: (usize, usize))
        requires
            self.leaves().len() <= usize::MAX,
        ensures
            span.0 == self.sibling_span(pane).0,
            span.1 == self.sibling_span(pane).1,
            span.0 + span.1 <= self.leaves().len(),
            self.leaves().contains(pane) ==> span.0 + span.1 < self.leaves().len(),
        decreases self,
    {
        match self {
            LayoutNode::Leaf { .. } => (0, 0),
            LayoutNode::Split { left, right, .. } => {
                proof {
                    left.lemma_rects_len(Rect { row: 0, col: 0, rows: 0, cols: 0 });
                    right.lemma_rects_len(Rect { row: 0, col: 0, rows: 0, cols: 0 });
                    lemma_concat_contains(left.leaves(), right.leaves(), pane);
                }
                if left.has(pane) {
                    if left.leaf_pane().is_some() {
                        (0, right.leaf_count())
                    } else {
                        left.sibling_of(pane)
                    }
                } else if right.has(pane) {
                    if right.leaf_pane().is_some() {
                        (0, left.leaf_count())
                    } else {
                        let inner = right.sibling_of(pane);
                        (left.leaf_count() + inner.0, inner.1)
                    }
                } else {
                    (0, 0)
                }
            },
        }
    }

    /// Appends the rectangles of the panes to `out`.
    fn collect_rects(&self, area: Rect, out: &mut Vec<Rect>)
        requires
            self.ratios_ok(),
            area.wf(),
        ensures
            final(out)@ == old(out)@ + self.rects(area),
        decreases self,
    {
        match self {
            LayoutNode::Leaf { .. } => {
                out.push(area);
                assert(final(out)@ =~= old(out)@ + self.rects(area));
            },
            LayoutNode::Split { direction, ratio, left, right } => {
                let parts = area.split(*direction, *ratio);
                left.collect_rects(parts.0, out);
                right.collect_rects(parts.1, out);
                assert(final(out)@ =~= old(out)@ + self.rects(area));
            },
        }
    }

    /// The rectangle of each pane when the tree fills `area`, in layout order.
    pub fn layout(&self, area: Rect) -> (out: Vec<Rect>)
        requires
            self.ratios_ok(),
            area.wf(),
        ensures
            out@ == self.rects(area),
    {
        let mut out: Vec<Rect> = Vec::new();
        self.collect_rects(area, &mut out);
        assert(out@ =~= self.rects(area));
        out
    }

    /// Appends the panes to `out`.
    fn collect_panes(&self, out: &mut Vec<PaneId>)
        ensures
            final(out)@ == old(out)@ + self.leaves(),
        decreases self,
    {
        match self {
            LayoutNode::Leaf { pane } => {
                out.push(*pane);
                assert(final(out)@ =~= old(out)@ + self.leaves());
            },
            LayoutNode::Split { left, right, .. } => {
                left.collect_panes(out);
                right.collect_panes(out);
                assert(final(out)@ =~= old(out)@ + self.leaves());
            },
        }
    }

    /// The panes in layout order.
    pub fn panes(&self) -> (out: Vec<PaneId>)
        ensures
            out@ == self.leaves(),
    {
        let mut out: Vec<PaneId> = Vec::new();
        self.collect_panes(&mut out);
        assert(out@ =~= self.leaves());
        out
    }
}

/// The parts of a sequence without repetition have none, nor an element in common.
pub proof fn lemma_distinct_parts<A>(a: Seq<A>, b: Seq<A>)
    requires
        (a + b).no_duplicates(),
    ensures
        a.no_duplicates(),
        b.no_duplicates(),
        forall|x: A| a.contains(x) ==> !b.contains(x),
{
    assert forall|i: int, j: int| 0 <= i < a.len() && 0 <= j < a.len() && i != j implies a[i]
        != a[j] by {
        assert((a + b)[i] == a[i] && (a + b)[j] == a[j]);
    }
    assert forall|i: int, j: int| 0 <= i < b.len() && 0 <= j < b.len() && i != j implies b[i]
        != b[j] by {
        assert((a + b)[a.len() + i] == b[i] && (a + b)[a.len() + j] == b[j]);
    }
    assert forall|x: A| a.contains(x) implies !b.contains(x) by {
        if b.contains(x) {
            let i = choose|i: int| 0 <= i < a.len() && a[i] == x;
            let j = choose|j: int| 0 <= j < b.len() && b[j] == x;
            assert((a + b)[i] == x && (a + b)[a.len() + j] == x);
        }
    }
}

impl LayoutNode {
    /// The panes after a split: those before it, and `new` where `pane` was
    /// split.
    pub proof fn lemma_split_members(self, pane: PaneId, direction: SplitDirection, new: PaneId, x: PaneId)
        ensures
            self.with_split(pane, direction, new).leaves().contains(x) <==> self.leaves().contains(x)
                || (x == new && self.leaves().contains(pane)),
        decreases self,
    {
        match self {
            LayoutNode::Leaf { pane: p } => {
                reveal_with_fuel(LayoutNode::leaves, 2);
                let after = self.with_split(pane, direction, new).leaves();
                assert(self.leaves()[0] == p);
                if p == pane {
                    assert(after =~= seq![pane, new]);
                    assert(after[0] == pane && after[1] == new);
                }
            },
            LayoutNode::Split { left, right, .. } => {
                lemma_concat_contains(left.leaves(), right.leaves(), x);
                lemma_concat_contains(left.leaves(), right.leaves(), pane);
                if left.leaves().contains(pane) {
                    left.lemma_split_members(pane, direction, new, x);
                    lemma_concat_contains(
                        left.with_split(pane, direction, new).leaves(),
                        right.leaves(),
                        x,
                    );
                } else {
                    right.lemma_split_members(pane, direction, new, x);
                    lemma_concat_contains(
                        left.leaves(),
                        right.with_split(pane, direction, new).leaves(),
                        x,
                    );
                }
            },
        }
    }

    /// Where a split puts the new pane: right after `pane` in layout order.
    pub proof fn lemma_split_leaves(self, pane: PaneId, direction: SplitDirection, new: PaneId, i: int)
        requires
            0 <= i < self.leaves().len(),
            self.leaves()[i] == pane,
            self.leaves().no_duplicates(),
        ensures
            self.with_split(pane, direction, new).leaves() == self.leaves().insert(i + 1, new),
        decreases self,
    {
        let after = self.with_split(pane, direction, new);
        match self {
            LayoutNode::Leaf { pane: p } => {
                reveal_with_fuel(LayoutNode::leaves, 2);
                assert(after.leaves() =~= self.leaves().insert(i + 1, new));
            },
            LayoutNode::Split { left, right, .. } => {
                let l = left.leaves();
                let r = right.leaves();
                lemma_distinct_parts(l, r);
                if i < l.len() {
                    assert(l[i] == pane);
                    left.lemma_split_leaves(pane, direction, new, i);
                    lemma_insert_left(l, r, i + 1, new);
                } else {
                    assert(r[i - l.len()] == pane);
                    right.lemma_split_leaves(pane, direction, new, i - l.len());
                    lemma_insert_right(l, r, i + 1 - l.len(), new);
                }
            },
        }
    }

    /// How a split divides the rectangle: `pane` and the new pane share the
    /// rectangle that `pane` had, each taking a half, and every other pane
    /// keeps its own.
    pub proof fn lemma_split_rects(
        self,
        pane: PaneId,
        direction: SplitDirection,
        new: PaneId,
        area: Rect,
        i: int,
    )
        requires
            0 <= i < self.leaves().len(),
            self.leaves()[i] == pane,
            self.leaves().no_duplicates(),
        ensures
            self.with_split(pane, direction, new).rects(area) == ({
                let halves = self.rects(area)[i].divide(direction, Ratio { num: 1, den: 2 });
                self.rects(area).update(i, halves.0).insert(i + 1, halves.1)
            }),
        decreases self,
    {
        self.lemma_rects_len(area);
        let after = self.with_split(pane, direction, new);
        let halves = self.rects(area)[i].divide(direction, Ratio { num: 1, den: 2 });
        match self {
            LayoutNode::Leaf { pane: p } => {
                reveal_with_fuel(LayoutNode::rects, 2);
                assert(after.rects(area) =~= self.rects(area).update(i, halves.0).insert(
                    i + 1,
                    halves.1,
                ));
            },
            LayoutNode::Split { direction: d, ratio, left, right } => {
                let parts = area.divide(d, ratio);
                let l = left.leaves();
                let r = right.leaves();
                let lr = left.rects(parts.0);
                let rr = right.rects(parts.1);
                left.lemma_rects_len(parts.0);
                right.lemma_rects_len(parts.1);
                lemma_distinct_parts(l, r);
                if i < l.len() {
                    assert(l[i] == pane);
                    assert((lr + rr)[i] == lr[i]);
                    left.lemma_split_rects(pane, direction, new, parts.0, i);
                    lemma_update_left(lr, rr, i, halves.0);
                    lemma_insert_left(lr.update(i, halves.0), rr, i + 1, halves.1);
                } else {
                    let k = i - l.len();
                    assert(r[k] == pane);
                    assert((lr + rr)[i] == rr[k]);
                    right.lemma_split_rects(pane, direction, new, parts.1, k);
                    lemma_update_right(lr, rr, k, halves.0);
                    lemma_insert_right(lr, rr.update(k, halves.0), k + 1, halves.1);
                }
            },
        }
    }

    /// The panes after a close: those before it but the closed one, in the
    /// same order.
    pub proof fn lemma_close_shape(self, pane: PaneId, i: int)
        requires
            0 <= i < self.leaves().len(),
            self.leaves()[i] == pane,
            self.leaves().no_duplicates(),
        ensures
            self.without(pane) is None <==> self is Leaf,
            self.without(pane) matches Some(rest) ==> rest.leaves() == self.leaves().remove(i) && (
            self.ratios_ok() ==> rest.ratios_ok()),
        decreases self,
    {
        match self {
            LayoutNode::Leaf { pane: p } => {},
            LayoutNode::Split { direction, ratio, left, right } => {
                let l = left.leaves();
                let r = right.leaves();
                left.lemma_rects_len(Rect { row: 0, col: 0, rows: 0, cols: 0 });
                right.lemma_rects_len(Rect { row: 0, col: 0, rows: 0, cols: 0 });
                lemma_distinct_parts(l, r);
                if i < l.len() {
                    assert(l[i] == pane);
                    left.lemma_close_shape(pane, i);
                    match left.without(pane) {
                        None => {
                            assert(l.len() == 1);
                            assert(right.leaves() =~= self.leaves().remove(i));
                        },
                        Some(rest) => {
                            assert(rest.leaves() + r =~= self.leaves().remove(i));
                        },
                    }
                } else {
                    assert(r[i - l.len()] == pane);
                    right.lemma_close_shape(pane, i - l.len());
                    match right.without(pane) {
                        None => {
                            assert(r.len() == 1);
                            assert(left.leaves() =~= self.leaves().remove(i));
                        },
                        Some(rest) => {
                            assert(l + rest.leaves() =~= self.leaves().remove(i));
                        },
                    }
                }
            },
        }
    }

    /// A resize changes ratios only: the panes and the shape of the tree stay.
    pub proof fn lemma_resized_keeps(
        self,
        pane: PaneId,
        direction: SplitDirection,
        delta: int,
        area: Rect,
        other: PaneId,
        along: SplitDirection,
    )
        requires
            self.ratios_ok(),
            area.wf(),
        ensures
            self.resized(pane, direction, delta, area).leaves() == self.leaves(),
            self.resized(pane, direction, delta, area).has_split_over(other, along)
                == self.has_split_over(other, along),
            self.resized(pane, direction, delta, area).ratios_ok(),
        decreases self,
    {
        match self {
            LayoutNode::Leaf { .. } => {},
            LayoutNode::Split { direction: d, ratio, left, right } => {
                let parts = area.divide(d, ratio);
                crate::geometry::lemma_divide_partitions(area, d, ratio, 0, 0);
                left.lemma_resized_keeps(pane, direction, delta, parts.0, other, along);
                right.lemma_resized_keeps(pane, direction, delta, parts.1, other, along);
                lemma_moved_ratio(area.extent(d) as int, ratio, delta, d);
            },
        }
    }

    /// Moving a boundary by `delta` cells and then by `-delta` gives every
    /// pane its rectangle back, provided that neither move was stopped by the
    /// minimum pane size.
    pub proof fn lemma_resize_round_trip(
        self,
        pane: PaneId,
        direction: SplitDirection,
        delta: int,
        area: Rect,
    )
        requires
            self.ratios_ok(),
            area.wf(),
            self.resize_unclamped(pane, direction, delta, area),
        ensures
            self.resized(pane, direction, delta, area).resized(pane, direction, -delta, area).rects(
                area,
            ) == self.rects(area),
        decreases self,
    {
        match self {
            LayoutNode::Leaf { .. } => {},
            LayoutNode::Split { direction: d, ratio, left, right } => {
                let parts = area.divide(d, ratio);
                let total = area.extent(d) as int;
                crate::geometry::lemma_divide_partitions(area, d, ratio, 0, 0);
                left.lemma_resized_keeps(pane, direction, delta, parts.0, pane, direction);
                right.lemma_resized_keeps(pane, direction, delta, parts.1, pane, direction);
                if left.leaves().contains(pane) {
                    if left.has_split_over(pane, direction) {
                        left.lemma_resize_round_trip(pane, direction, delta, parts.0);
                    } else if d == direction {
                        lemma_moved_ratio(total, ratio, delta, d);
                        let there = moved_ratio(total, ratio, delta, min_extent(d));
                        lemma_moved_ratio(total, there, -delta, d);
                    }
                } else if right.leaves().contains(pane) {
                    if right.has_split_over(pane, direction) {
                        right.lemma_resize_round_trip(pane, direction, delta, parts.1);
                    } else if d == direction {
                        lemma_moved_ratio(total, ratio, delta, d);
                        let there = moved_ratio(total, ratio, delta, min_extent(d));
                        lemma_moved_ratio(total, there, -delta, d);
                    }
                }
            },
        }
    }

    /// Closing the pane that a split has just made gives back the tree as it
    /// was before the split.
    pub proof fn lemma_split_then_close(self, pane: PaneId, direction: SplitDirection, new: PaneId)
        requires
            self.leaves().contains(pane),
            !self.leaves().contains(new),
        ensures
            self.with_split(pane, direction, new).without(new) == Some(self),
        decreases self,
    {
        match self {
            LayoutNode::Leaf { pane: p } => {
                reveal_with_fuel(LayoutNode::leaves, 2);
                reveal_with_fuel(LayoutNode::without, 2);
                assert(self.leaves()[0] == p);
                let first = LayoutNode::Leaf { pane };
                assert(first.leaves()[0] == pane);
                assert(!first.leaves().contains(new));
            },
            LayoutNode::Split { direction: d, ratio, left, right } => {
                lemma_concat_contains(left.leaves(), right.leaves(), pane);
                lemma_concat_contains(left.leaves(), right.leaves(), new);
                if left.leaves().contains(pane) {
                    left.lemma_split_members(pane, direction, new, new);
                    left.lemma_split_then_close(pane, direction, new);
                } else {
                    right.lemma_split_then_close(pane, direction, new);
                }
            },
        }
    }
}

/// The ratio of a moved boundary is a valid one, and it gives the first child
/// exactly the cells that `moved_edge` says.
pub proof fn lemma_moved_ratio(total: int, ratio: Ratio, delta: int, direction: SplitDirection)
    requires
        0 <= total <= u16::MAX,
        ratio.wf(),
    ensures
        moved_ratio(total, ratio, delta, min_extent(direction)).wf(),
        share_of(total, moved_ratio(total, ratio, delta, min_extent(direction))) == moved_edge(
            total,
            share_of(total, ratio),
            delta,
            min_extent(direction),
        ),
{
    let min = min_extent(direction);
    if total >= 2 * min {
        let placed = moved_edge(total, share_of(total, ratio), delta, min);
        crate::geometry::lemma_share_exact(total, placed);
    }
}

/// Inserting into the first part of a concatenation.
pub proof fn lemma_insert_left<A>(a: Seq<A>, b: Seq<A>, k: int, x: A)
    requires
        0 <= k <= a.len(),
    ensures
        a.insert(k, x) + b == (a + b).insert(k, x),
{
    assert(a.insert(k, x) + b =~= (a + b).insert(k, x));
}

/// Inserting into the second part of a concatenation.
pub proof fn lemma_insert_right<A>(a: Seq<A>, b: Seq<A>, k: int, x: A)
    requires
        0 <= k <= b.len(),
    ensures
        a + b.insert(k, x) == (a + b).insert(a.len() + k, x),
{
    assert(a + b.insert(k, x) =~= (a + b).insert(a.len() + k, x));
}

/// Updating the first part of a concatenation.
pub proof fn lemma_update_left<A>(a: Seq<A>, b: Seq<A>, k: int, x: A)
    requires
        0 <= k < a.len(),
    ensures
        a.update(k, x) + b == (a + b).update(k, x),
{
    assert(a.update(k, x) + b =~= (a + b).update(k, x));
}

/// Updating the second part of a concatenation.
pub proof fn lemma_update_right<A>(a: Seq<A>, b: Seq<A>, k: int, x: A)
    requires
        0 <= k < b.len(),
    ensures
        a + b.update(k, x) == (a + b).update(a.len() + k, x),
{
    assert(a + b.update(k, x) =~= (a + b).update(a.len() + k, x));
}

/// An element is in a concatenation exactly if it is in one of the parts.
pub proof fn lemma_concat_contains<A>(a: Seq<A>, b: Seq<A>, x: A)
    ensures
        (a + b).contains(x) <==> a.contains(x) || b.contains(x),
{
    if a.contains(x) {
        let i = choose|i: int| 0 <= i < a.len() && a[i] == x;
        assert((a + b)[i] == x);
    }
    if b.contains(x) {
        let i = choose|i: int| 0 <= i < b.len() && b[i] == x;
        assert((a + b)[a.len() + i] == x);
    }
    if (a + b).contains(x) {
        let i = choose|i: int| 0 <= i < (a + b).len() && (a + b)[i] == x;
        if i < a.len() {
            assert(a[i] == x);
        } else {
            assert(b[i - a.len()] == x);
        }
    }
}

} // verus!
