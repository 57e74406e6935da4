//! The tiling law: the panes of a layout tree partition the rectangle that
//! the tree fills.

use vstd::prelude::*;
use crate::geometry::{lemma_divide_partitions, Rect};
use crate::layout::LayoutNode;

verus! {

/// How many of `rects` hold the cell at row `r`, column `c`.
pub open spec fn cover(rects: Seq<Rect>, r: int, c: int) -> nat
    decreases rects.len(),
{
    if rects.len() == 0 {
        0
    } else {
        cover(rects.drop_last(), r, c) + if rects.last().contains(r, c) {
            1nat
        } else {
            0nat
        }
    }
}

/// The cover of a concatenation is the sum of the covers.
pub proof fn lemma_cover_concat(a: Seq<Rect>, b: Seq<Rect>, r: int, c: int)
    ensures
        cover(a + b, r, c) == cover(a, r, c) + cover(b, r, c),
    decreases b.len(),
{
    if b.len() == 0 {
        assert(a + b =~= a);
    } else {
        assert((a + b).drop_last() =~= a + b.drop_last());
        assert((a + b).last() == b.last());
        lemma_cover_concat(a, b.drop_last(), r, c);
    }
}

/// A rectangle that holds a cell counts towards the cover of that cell.
pub proof fn lemma_cover_counts(rects: Seq<Rect>, i: int, r: int, c: int)
    requires
        0 <= i < rects.len(),
        rects[i].contains(r, c),
    ensures
        cover(rects, r, c) >= 1,
    decreases rects.len(),
{
    if i < rects.len() - 1 {
        lemma_cover_counts(rects.drop_last(), i, r, c);
    }
}

/// Two different rectangles that hold the same cell both count towards its cover.
pub proof fn lemma_cover_counts_twice(rects: Seq<Rect>, i: int, j: int, r: int, c: int)
    requires
        0 <= i < j < rects.len(),
        rects[i].contains(r, c),
        rects[j].contains(r, c),
    ensures
        cover(rects, r, c) >= 2,
    decreases rects.len(),
{
    if j < rects.len() - 1 {
        lemma_cover_counts_twice(rects.drop_last(), i, j, r, c);
    } else {
        lemma_cover_counts(rects.drop_last(), i, r, c);
    }
}

/// A covered cell lies in one of the rectangles.
pub proof fn lemma_cover_witness(rects: Seq<Rect>, r: int, c: int) -> (i: int)
    requires
        cover(rects, r, c) >= 1,
    ensures
        0 <= i < rects.len(),
        rects[i].contains(r, c),
    decreases rects.len(),
{
    if rects.last().contains(r, c) {
        rects.len() - 1
    } else {
        lemma_cover_witness(rects.drop_last(), r, c)
    }
}

impl LayoutNode {
    /// A tree has one rectangle for each pane.
    pub proof fn lemma_rects_len(self, area: Rect)
        ensures
            self.rects(area).len() == self.leaves().len(),
            self.leaves().len() >= 1,
        decreases self,
    {
        match self {
            LayoutNode::Leaf { .. } => {},
            LayoutNode::Split { direction, ratio, left, right } => {
                let parts = area.divide(direction, ratio);
                left.lemma_rects_len(parts.0);
                right.lemma_rects_len(parts.1);
            },
        }
    }

    /// Every pane rectangle ends within the range of its coordinates.
    pub proof fn lemma_rects_wf(self, area: Rect, i: int)
        requires
            self.ratios_ok(),
            area.wf(),
            0 <= i < self.rects(area).len(),
        ensures
            self.rects(area)[i].wf(),
        decreases self,
    {
        match self {
            LayoutNode::Leaf { .. } => {},
            LayoutNode::Split { direction, ratio, left, right } => {
                let parts = area.divide(direction, ratio);
                lemma_divide_partitions(area, direction, ratio, 0, 0);
                if i < left.rects(parts.0).len() {
                    left.lemma_rects_wf(parts.0, i);
                } else {
                    right.lemma_rects_wf(parts.1, i - left.rects(parts.0).len());
                }
            },
        }
    }

    /// Every cell of the rectangle that a tree fills lies in the rectangle of
    /// exactly one pane, and every other cell in none.
    pub proof fn lemma_exact_cover(self, area: Rect, r: int, c: int)
        requires
            self.ratios_ok(),
            area.wf(),
        ensures
            cover(self.rects(area), r, c) == if area.contains(r, c) {
                1nat
            } else {
                0nat
            },
        decreases self,
    {
        match self {
            LayoutNode::Leaf { .. } => {
                assert(self.rects(area).drop_last() =~= Seq::<Rect>::empty());
                assert(self.rects(area).last() == area);
                assert(cover(Seq::<Rect>::empty(), r, c) == 0);
            },
            LayoutNode::Split { direction, ratio, left, right } => {
                let parts = area.divide(direction, ratio);
                lemma_divide_partitions(area, direction, ratio, r, c);
                left.lemma_exact_cover(parts.0, r, c);
                right.lemma_exact_cover(parts.1, r, c);
                lemma_cover_concat(left.rects(parts.0), right.rects(parts.1), r, c);
            },
        }
    }

    /// The pane rectangles of a tree tile the rectangle that the tree fills:
    /// they leave no cell of it out, no two of them share a cell, and none
    /// reaches beyond it.
    pub proof fn lemma_tiles(self, area: Rect)
        requires
            self.ratios_ok(),
            area.wf(),
        ensures
            forall|r: int, c: int|
                area.contains(r, c) ==> exists|i: int|
                    0 <= i < self.rects(area).len() && #[trigger] self.rects(area)[i].contains(r, c),
            forall|i: int, j: int, r: int, c: int|
                0 <= i < self.rects(area).len() && 0 <= j < self.rects(area).len() && i != j
                    && #[trigger] self.rects(area)[i].contains(r, c)
                    ==> !#[trigger] self.rects(area)[j].contains(r, c),
            forall|i: int, r: int, c: int|
                0 <= i < self.rects(area).len() && #[trigger] self.rects(area)[i].contains(r, c)
                    ==> area.contains(r, c),
    {
        let rects = self.rects(area);
        assert forall|r: int, c: int| area.contains(r, c) implies exists|i: int|
            0 <= i < rects.len() && #[trigger] rects[i].contains(r, c) by {
            self.lemma_exact_cover(area, r, c);
            let i = lemma_cover_witness(rects, r, c);
            assert(rects[i].contains(r, c));
        }
        assert forall|i: int, j: int, r: int, c: int|
            0 <= i < rects.len() && 0 <= j < rects.len() && i != j && #[trigger] rects[i].contains(
                r,
                c,
            ) implies !#[trigger] rects[j].contains(r, c) by {
            self.lemma_exact_cover(area, r, c);
            if rects[j].contains(r, c) {
                if i < j {
                    lemma_cover_counts_twice(rects, i, j, r, c);
                } else {
                    lemma_cover_counts_twice(rects, j, i, r, c);
                }
            }
        }
        assert forall|i: int, r: int, c: int|
            0 <= i < rects.len() && #[trigger] rects[i].contains(r, c) implies area.contains(
            r,
            c,
        ) by {
            self.lemma_exact_cover(area, r, c);
            lemma_cover_counts(rects, i, r, c);
        }
    }
}

} // verus!
