//! Rectangles of terminal cells and the arithmetic of dividing them.

use vstd::prelude::*;

verus! {

/// Fewest columns a pane may be given by a split or a resize.
pub const MIN_PANE_COLS: u16 = 5;

/// Fewest rows a pane may be given by a split or a resize.
pub const MIN_PANE_ROWS: u16 = 3;

/// The axis along which a split divides its rectangle.
///
/// A `Vertical` split draws a vertical boundary: its children sit side by
/// side and share the columns. A `Horizontal` split stacks its children and
/// shares the rows.
#[derive(Clone, Copy, Debug, PartialEq, Eq, Structural)]
pub enum SplitDirection {
    Horizontal,
    Vertical,
}

/// A direction on the screen, for moving the focus or a boundary.
#[derive(Clone, Copy, Debug, PartialEq, Eq, Structural)]
pub enum Direction {
    Left,
    Right,
    Up,
    Down,
}

/// The share of a split's extent that goes to its first child, as the
/// fraction `num / den`.
#[derive(Clone, Copy, Debug, PartialEq, Eq, Structural)]
pub struct Ratio {
    pub num: u16,
    pub den: u16,
}

/// A rectangle of cells: its top-left corner and its size.
#[derive(Clone, Copy, Debug, PartialEq, Eq, Structural)]
pub struct Rect {
    pub row: u16,
    pub col: u16,
    pub rows: u16,
    pub cols: u16,
}

/// Cells of `total` that the first child of a split receives: the floor of
/// `total * num / den`.
pub open spec fn share_of(total: int, ratio: Ratio) -> int {
    (total * ratio.num as int) / (ratio.den as int)
}

/// Flooring a proper fraction of a non-negative extent stays within it, and
/// leaves at least one cell over when there is any.
pub proof fn lemma_share_bounds(total: int, ratio: Ratio)
    requires
        0 <= total,
        ratio.wf(),
    ensures
        0 <= share_of(total, ratio) <= total,
        total > 0 ==> share_of(total, ratio) < total,
{
    let n = ratio.num as int;
    let d = ratio.den as int;
    assert(0 <= total * n) by (nonlinear_arith)
        requires
            0 <= total,
            0 <= n,
    ;
    assert(total * n <= total * d) by (nonlinear_arith)
        requires
            0 <= total,
            n <= d,
    ;
    assert(total > 0 ==> total * n < total * d) by (nonlinear_arith)
        requires
            0 <= total,
            n < d,
    ;
    assert(0 <= (total * n) / d) by (nonlinear_arith)
        requires
            0 <= total * n,
            d > 0,
    ;
    assert((total * n) / d <= total) by (nonlinear_arith)
        requires
            total * n <= total * d,
            d > 0,
    ;
    assert(total * n < total * d ==> (total * n) / d < total) by (nonlinear_arith)
        requires
            d > 0,
    ;
}

/// A share expressed over the extent itself is exact.
pub proof fn lemma_share_exact(total: int, first: int)
    requires
        0 < first < total <= u16::MAX,
    ensures
        share_of(total, Ratio { num: first as u16, den: total as u16 }) == first,
{
    assert((total * first) / total == first) by (nonlinear_arith)
        requires
            total > 0,
    ;
}

impl Ratio {
    /// A ratio lies strictly between zero and one.
    pub open spec fn wf(self) -> bool {
        0 < self.num < self.den
    }

    /// The ratio of an even split.
    pub fn half() -> (r: Ratio)
        ensures
            r == (Ratio { num: 1, den: 2 }),
            r.wf(),
    {
        Ratio { num: 1, den: 2 }
    }

    /// Cells of `total` that go to the first child.
    pub fn share(&self, total: u16) -> (s: u16)
        requires
            self.wf(),
        ensures
            s == share_of(total as int, *self),
            s <= total,
            total > 0 ==> s < total,
    {
        proof {
            lemma_share_bounds(total as int, *self);
            assert(total as int * self.num as int <= 0xffff * 0xffff) by (nonlinear_arith)
                requires
                    0 <= total as int <= 0xffff,
                    0 <= self.num as int <= 0xffff,
            ;
        }
        let product: u32 = (total as u32) * (self.num as u32);
        let quotient: u32 = product / (self.den as u32);
        quotient as u16
    }
}

impl Rect {
    /// The rectangle ends within the range of its coordinates.
    pub open spec fn wf(self) -> bool {
        &&& self.row + self.rows <= u16::MAX
        &&& self.col + self.cols <= u16::MAX
    }

    /// Whether the cell at row `r`, column `c` lies in the rectangle.
    pub open spec fn contains(self, r: int, c: int) -> bool {
        &&& self.row <= r < self.row + self.rows
        &&& self.col <= c < self.col + self.cols
    }

    /// The extent that a split in `direction` divides.
    pub open spec fn extent(self, direction: SplitDirection) -> u16 {
        match direction {
            SplitDirection::Horizontal => self.rows,
            SplitDirection::Vertical => self.cols,
        }
    }

    /// The first part when `first` cells of the extent go to the first child.
    pub open spec fn first_part(self, direction: SplitDirection, first: int) -> Rect {
        match direction {
            SplitDirection::Horizontal => Rect { rows: first as u16, ..self },
            SplitDirection::Vertical => Rect { cols: first as u16, ..self },
        }
    }

    /// The second part: what is left after `first` cells, to the right or below.
    pub open spec fn second_part(self, direction: SplitDirection, first: int) -> Rect {
        match direction {
            SplitDirection::Horizontal => Rect {
                row: (self.row + first) as u16,
                rows: (self.rows - first) as u16,
                ..self
            },
            SplitDirection::Vertical => Rect {
                col: (self.col + first) as u16,
                cols: (self.cols - first) as u16,
                ..self
            },
        }
    }

    /// The two parts into which a split with `ratio` divides the rectangle.
    pub open spec fn divide(self, direction: SplitDirection, ratio: Ratio) -> (Rect, Rect) {
        let first = share_of(self.extent(direction) as int, ratio);
        (self.first_part(direction, first), self.second_part(direction, first))
    }

    /// Whether `other` lies right next to this rectangle in `direction`:
    /// the two share a stretch of the edge of this rectangle on that side.
    pub open spec fn abuts(self, other: Rect, direction: Direction) -> bool {
        let rows_meet = self.row < other.row + other.rows && other.row < self.row + self.rows;
        let cols_meet = self.col < other.col + other.cols && other.col < self.col + self.cols;
        &&& other.rows > 0
        &&& other.cols > 0
        &&& match direction {
            Direction::Left => other.col + other.cols == self.col && rows_meet,
            Direction::Right => self.col + self.cols == other.col && rows_meet,
            Direction::Up => other.row + other.rows == self.row && cols_meet,
            Direction::Down => self.row + self.rows == other.row && cols_meet,
        }
    }

    /// How far the midpoint of `other` lies from the midpoint of this
    /// rectangle along the edge that faces `direction`, in half cells.
    pub open spec fn midpoint_gap(self, other: Rect, direction: Direction) -> int {
        let here = match direction {
            Direction::Left | Direction::Right => 2 * self.row + self.rows,
            Direction::Up | Direction::Down => 2 * self.col + self.cols,
        };
        let there = match direction {
            Direction::Left | Direction::Right => 2 * other.row + other.rows,
            Direction::Up | Direction::Down => 2 * other.col + other.cols,
        };
        if here <= there {
            there - here
        } else {
            here - there
        }
    }

    /// Checks whether `other` lies right next to this rectangle in `direction`.
    pub fn is_abutting(&self, other: &Rect, direction: Direction) -> (b: bool)
        ensures
            b == self.abuts(*other, direction),
    {
        let self_bottom = self.row as u32 + self.rows as u32;
        let self_right = self.col as u32 + self.cols as u32;
        let other_bottom = other.row as u32 + other.rows as u32;
        let other_right = other.col as u32 + other.cols as u32;
        let rows_meet = (self.row as u32) < other_bottom && (other.row as u32) < self_bottom;
        let cols_meet = (self.col as u32) < other_right && (other.col as u32) < self_right;
        let touching = match direction {
            Direction::Left => other_right == self.col as u32 && rows_meet,
            Direction::Right => self_right == other.col as u32 && rows_meet,
            Direction::Up => other_bottom == self.row as u32 && cols_meet,
            Direction::Down => self_bottom == other.row as u32 && cols_meet,
        };
        other.rows > 0 && other.cols > 0 && touching
    }

    /// Measures how far the midpoint of `other` lies from the midpoint of
    /// this rectangle along the edge that faces `direction`, in half cells.
    pub fn gap_to(&self, other: &Rect, direction: Direction) -> (gap: u32)
        ensures
            gap == self.midpoint_gap(*other, direction),
    {
        let here: u32 = match direction {
            Direction::Left | Direction::Right => 2 * (self.row as u32) + self.rows as u32,
            Direction::Up | Direction::Down => 2 * (self.col as u32) + self.cols as u32,
        };
        let there: u32 = match direction {
            Direction::Left | Direction::Right => 2 * (other.row as u32) + other.rows as u32,
            Direction::Up | Direction::Down => 2 * (other.col as u32) + other.cols as u32,
        };
        if here <= there {
            there - here
        } else {
            here - there
        }
    }

    /// A rectangle at the origin.
    pub fn sized(rows: u16, cols: u16) -> (r: Rect)
        ensures
            r == (Rect { row: 0, col: 0, rows, cols }),
            r.wf(),
    {
        Rect { row: 0, col: 0, rows, cols }
    }

    /// Whether a pane of this size meets the minimum in both dimensions.
    pub open spec fn roomy(self) -> bool {
        self.rows >= MIN_PANE_ROWS && self.cols >= MIN_PANE_COLS
    }

    /// Checks the minimum pane size.
    pub fn is_roomy(&self) -> (b: bool)
        ensures
            b == self.roomy(),
    {
        self.rows >= MIN_PANE_ROWS && self.cols >= MIN_PANE_COLS
    }

    /// Divides the rectangle between the two children of a split.
    ///
    /// The first child receives the floored share; the second child, to the
    /// right or below, receives the remainder.
    pub fn split(&self, direction: SplitDirection, ratio: Ratio) -> (parts: (Rect, Rect))
        requires
            self.wf(),
            ratio.wf(),
        ensures
            parts == self.divide(direction, ratio),
            parts.0.wf(),
            parts.1.wf(),
    {
        match direction {
            SplitDirection::Horizontal => {
                let first = ratio.share(self.rows);
                (
                    Rect { row: self.row, col: self.col, rows: first, cols: self.cols },
                    Rect {
                        row: self.row + first,
                        col: self.col,
                        rows: self.rows - first,
                        cols: self.cols,
                    },
                )
            },
            SplitDirection::Vertical => {
                let first = ratio.share(self.cols);
                (
                    Rect { row: self.row, col: self.col, rows: self.rows, cols: first },
                    Rect {
                        row: self.row,
                        col: self.col + first,
                        rows: self.rows,
                        cols: self.cols - first,
                    },
                )
            },
        }
    }
}

/// The two parts of a divided rectangle partition its cells: every cell of the
/// rectangle lies in exactly one part, and no other cell lies in either.
pub proof fn lemma_divide_partitions(area: Rect, direction: SplitDirection, ratio: Ratio, r: int, c: int)
    requires
        area.wf(),
        ratio.wf(),
    ensures
        area.contains(r, c) <==> (area.divide(direction, ratio).0.contains(r, c)
            || area.divide(direction, ratio).1.contains(r, c)),
        !(area.divide(direction, ratio).0.contains(r, c) && area.divide(direction, ratio).1.contains(
            r,
            c,
        )),
        area.divide(direction, ratio).0.wf(),
        area.divide(direction, ratio).1.wf(),
{
    lemma_share_bounds(area.extent(direction) as int, ratio);
}

} // verus!
