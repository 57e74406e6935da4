//! The grid of a terminal: lines of cells, all of one width.

use vstd::prelude::*;
use crate::cell::Cell;

verus! {

/// A line of cells as a mathematical value.
pub type Line = Seq<Cell>;

/// A grid of cells.
pub struct Grid {
    pub lines: Vec<Vec<Cell>>,
}

impl View for Grid {
    type V = Seq<Line>;

    open spec fn view(&self) -> Seq<Line> {
        Seq::new(self.lines@.len(), |r: int| self.lines@[r]@)
    }
}

/// A line of `cols` blank cells.
pub open spec fn blank_line(cols: nat) -> Line {
    Seq::new(cols, |c: int| Cell::empty())
}

/// A grid of `rows` by `cols` blank cells.
pub open spec fn blank_grid(rows: nat, cols: nat) -> Seq<Line> {
    Seq::new(rows, |r: int| blank_line(cols))
}

/// Whether `lines` has `rows` lines of `cols` cells each.
pub open spec fn is_grid(lines: Seq<Line>, rows: nat, cols: nat) -> bool {
    &&& lines.len() == rows
    &&& forall|r: int| 0 <= r < rows ==> (#[trigger] lines[r]).len() == cols
}

/// The grid with the cells of line `r` from column `from` up to `to` replaced by `cell`.
pub open spec fn filled(lines: Seq<Line>, r: int, from: int, to: int, cell: Cell) -> Seq<Line> {
    lines.update(
        r,
        Seq::new(
            lines[r].len(),
            |c: int|
                if from <= c < to {
                    cell
                } else {
                    lines[r][c]
                },
        ),
    )
}

/// The grid with the lines from `from` up to `to` blanked.
pub open spec fn cleared(lines: Seq<Line>, from: int, to: int, cols: nat) -> Seq<Line> {
    Seq::new(
        lines.len(),
        |r: int|
            if from <= r < to {
                blank_line(cols)
            } else {
                lines[r]
            },
    )
}

/// The grid after the lines `top` to `bottom` have moved up by one: line
/// `top` is gone and a blank line stands at `bottom`.
pub open spec fn scrolled_up(lines: Seq<Line>, top: int, bottom: int, cols: nat) -> Seq<Line> {
    lines.remove(top).insert(bottom, blank_line(cols))
}

/// The grid after the lines `top` to `bottom` have moved down by one: line
/// `bottom` is gone and a blank line stands at `top`.
pub open spec fn scrolled_down(lines: Seq<Line>, top: int, bottom: int, cols: nat) -> Seq<Line> {
    lines.remove(bottom).insert(top, blank_line(cols))
}

/// The line with `cell` inserted at column `c`: the cells from there on move
/// right by one and the last one is lost.
pub open spec fn line_with_inserted(line: Line, c: int, cell: Cell) -> Line {
    line.insert(c, cell).drop_last()
}

/// The grid given the size `rows` by `cols`: the cells that both sizes have
/// stay where they are, the others are lost or blank.
pub open spec fn fitted(lines: Seq<Line>, rows: nat, cols: nat) -> Seq<Line> {
    Seq::new(
        rows,
        |r: int|
            Seq::new(
                cols,
                |c: int|
                    if r < lines.len() && c < lines[r].len() {
                        lines[r][c]
                    } else {
                        Cell::empty()
                    },
            ),
    )
}

/// Makes a line of `cols` blank cells.
pub fn make_blank_line(cols: u16) -> (line: Vec<Cell>)
    ensures
        line@ == blank_line(cols as nat),
{
    let mut line: Vec<Cell> = Vec::new();
    let mut c: u16 = 0;
    while c < cols
        invariant
            c <= cols,
            line@ == blank_line(c as nat),
        decreases cols - c,
    {
        line.push(Cell::blank());
        assert(line@ =~= blank_line((c + 1) as nat));
        c += 1;
    }
    line
}

/// Copies a line.
pub fn copy_line(line: &Vec<Cell>) -> (copy: Vec<Cell>)
    ensures
        copy@ == line@,
{
    let mut copy: Vec<Cell> = Vec::new();
    let n = line.len();
    let mut c: usize = 0;
    while c < n
        invariant
            c <= n,
            n == line@.len(),
            copy@ == line@.take(c as int),
        decreases n - c,
    {
        copy.push(line[c]);
        assert(copy@ =~= line@.take(c + 1));
        c += 1;
    }
    assert(copy@ =~= line@);
    copy
}

/// Whether two lines hold the same cells.
pub fn same_line(a: &Vec<Cell>, b: &Vec<Cell>) -> (same: bool)
    ensures
        same == (a@ == b@),
{
    if a.len() != b.len() {
        return false;
    }
    let n = a.len();
    let mut c: usize = 0;
    while c < n
        invariant
            c <= n,
            n == a@.len(),
            n == b@.len(),
            forall|k: int| 0 <= k < c ==> a@[k] == b@[k],
        decreases n - c,
    {
        if a[c] != b[c] {
            return false;
        }
        c += 1;
    }
    assert(a@ =~= b@);
    true
}

impl Grid {
    /// Every line has `cols` cells and there are `rows` of them.
    pub open spec fn sized(&self, rows: nat, cols: nat) -> bool {
        is_grid(self@, rows, cols)
    }

    /// A grid of `rows` by `cols` blank cells.
    pub fn new(rows: u16, cols: u16) -> (grid: Grid)
        ensures
            grid@ == blank_grid(rows as nat, cols as nat),
            grid.sized(rows as nat, cols as nat),
    {
        let mut lines: Vec<Vec<Cell>> = Vec::new();
        let mut r: u16 = 0;
        while r < rows
            invariant
                r <= rows,
                lines@.len() == r,
                forall|k: int| 0 <= k < r ==> (#[trigger] lines@[k])@ == blank_line(cols as nat),
            decreases rows - r,
        {
            lines.push(make_blank_line(cols));
            r += 1;
        }
        let grid = Grid { lines };
        assert(grid@ =~= blank_grid(rows as nat, cols as nat));
        grid
    }

    /// The cell at row `r`, column `c`.
    pub fn get(&self, r: u16, c: u16) -> (cell: Cell)
        requires
            r < self@.len(),
            c < self@[r as int].len(),
        ensures
            cell == self@[r as int][c as int],
    {
        self.lines[r as usize][c as usize]
    }

    /// Puts `cell` at row `r`, column `c`.
    pub fn put(&mut self, r: u16, c: u16, cell: Cell)
        requires
            r < old(self)@.len(),
            c < old(self)@[r as int].len(),
        ensures
            final(self)@ == old(self)@.update(r as int, old(self)@[r as int].update(c as int, cell)),
    {
        self.lines[r as usize][c as usize] = cell;
        assert(self@ =~= old(self)@.update(r as int, old(self)@[r as int].update(c as int, cell)));
    }

    /// Replaces line `r`.
    pub fn set_line(&mut self, r: u16, line: Vec<Cell>)
        requires
            r < old(self)@.len(),
        ensures
            final(self)@ == old(self)@.update(r as int, line@),
    {
        self.lines[r as usize] = line;
        assert(self@ =~= old(self)@.update(r as int, line@));
    }

    /// Inserts `cell` at row `r`, column `c`: the cells from there on move
    /// right by one and the last one is lost.
    pub fn insert(&mut self, r: u16, c: u16, cell: Cell)
        requires
            r < old(self)@.len(),
            c < old(self)@[r as int].len(),
        ensures
            final(self)@ == old(self)@.update(
                r as int,
                line_with_inserted(old(self)@[r as int], c as int, cell),
            ),
    {
        self.lines[r as usize].insert(c as usize, cell);
        self.lines[r as usize].pop();
        assert(self@ =~= old(self)@.update(
            r as int,
            line_with_inserted(old(self)@[r as int], c as int, cell),
        ));
    }

    /// Replaces the cells of line `r` from column `from` up to `to` by `cell`.
    pub fn fill(&mut self, r: u16, from: u16, to: u16, cell: Cell)
        requires
            r < old(self)@.len(),
            from <= to <= old(self)@[r as int].len(),
        ensures
            final(self)@ == filled(old(self)@, r as int, from as int, to as int, cell),
    {
        let mut c = from;
        assert(self@ =~~= filled(old(self)@, r as int, from as int, from as int, cell));
        while c < to
            invariant
                from <= c <= to,
                r < old(self)@.len(),
                self.lines@.len() == old(self).lines@.len(),
                to <= old(self)@[r as int].len(),
                self@ == filled(old(self)@, r as int, from as int, c as int, cell),
            decreases to - c,
        {
            assert(self@[r as int].len() == old(self)@[r as int].len());
            self.put(r, c, cell);
            assert(self@ =~~= filled(old(self)@, r as int, from as int, c + 1, cell));
            c += 1;
        }
    }

    /// Blanks the lines from `from` up to `to`, each to `cols` cells.
    pub fn clear(&mut self, from: u16, to: u16, cols: u16)
        requires
            from <= to <= old(self)@.len(),
        ensures
            final(self)@ == cleared(old(self)@, from as int, to as int, cols as nat),
    {
        let mut r = from;
        assert(self@ =~~= cleared(old(self)@, from as int, from as int, cols as nat));
        while r < to
            invariant
                from <= r <= to,
                to <= old(self)@.len(),
                self.lines@.len() == old(self).lines@.len(),
                self@ == cleared(old(self)@, from as int, r as int, cols as nat),
            decreases to - r,
        {
            self.set_line(r, make_blank_line(cols));
            assert(self@ =~~= cleared(old(self)@, from as int, r + 1, cols as nat));
            r += 1;
        }
    }

    /// Moves the lines `top` to `bottom` up by one. Returns the line that
    /// was at `top`.
    pub fn scroll_up(&mut self, top: u16, bottom: u16, cols: u16) -> (gone: Vec<Cell>)
        requires
            top <= bottom < old(self)@.len(),
        ensures
            final(self)@ == scrolled_up(old(self)@, top as int, bottom as int, cols as nat),
            gone@ == old(self)@[top as int],
    {
        let gone = self.lines.remove(top as usize);
        self.lines.insert(bottom as usize, make_blank_line(cols));
        assert(self@ =~= scrolled_up(old(self)@, top as int, bottom as int, cols as nat));
        gone
    }

    /// Moves the lines `top` to `bottom` down by one.
    pub fn scroll_down(&mut self, top: u16, bottom: u16, cols: u16)
        requires
            top <= bottom < old(self)@.len(),
        ensures
            final(self)@ == scrolled_down(old(self)@, top as int, bottom as int, cols as nat),
    {
        self.lines.remove(bottom as usize);
        self.lines.insert(top as usize, make_blank_line(cols));
        assert(self@ =~= scrolled_down(old(self)@, top as int, bottom as int, cols as nat));
    }

    /// A grid of `rows` by `cols` cells that keeps the cells that both sizes
    /// have.
    pub fn fit(&self, rows: u16, cols: u16) -> (grid: Grid)
        ensures
            grid@ == fitted(self@, rows as nat, cols as nat),
            grid.sized(rows as nat, cols as nat),
    {
        let mut lines: Vec<Vec<Cell>> = Vec::new();
        let have = self.lines.len();
        let mut r: u16 = 0;
        while r < rows
            invariant
                r <= rows,
                have == self.lines@.len(),
                lines@.len() == r,
                forall|k: int|
                    0 <= k < r ==> (#[trigger] lines@[k])@ == fitted(self@, rows as nat, cols as nat)[k],
            decreases rows - r,
        {
            let mut line: Vec<Cell> = Vec::new();
            let mut c: u16 = 0;
            while c < cols
                invariant
                    c <= cols,
                    r < rows,
                    have == self.lines@.len(),
                    line@ == fitted(self@, rows as nat, cols as nat)[r as int].take(c as int),
                decreases cols - c,
            {
                let cell = if (r as usize) < have && (c as usize) < self.lines[r as usize].len() {
                    self.lines[r as usize][c as usize]
                } else {
                    Cell::blank()
                };
                line.push(cell);
                assert(line@ =~= fitted(self@, rows as nat, cols as nat)[r as int].take(c + 1));
                c += 1;
            }
            assert(line@ =~= fitted(self@, rows as nat, cols as nat)[r as int]);
            lines.push(line);
            r += 1;
        }
        let grid = Grid { lines };
        assert(grid@ =~= fitted(self@, rows as nat, cols as nat));
        grid
    }

    /// Adds a line at the end.
    pub fn push_line(&mut self, line: Vec<Cell>)
        ensures
            final(self)@ == old(self)@.push(line@),
    {
        self.lines.push(line);
        assert(self@ =~= old(self)@.push(line@));
    }

    /// Takes the first line away.
    pub fn drop_first(&mut self)
        requires
            old(self)@.len() > 0,
        ensures
            final(self)@ == old(self)@.skip(1),
    {
        self.lines.remove(0);
        assert(self@ =~= old(self)@.skip(1));
    }

    /// Takes every line away.
    pub fn drop_all(&mut self)
        ensures
            final(self)@ == Seq::<Line>::empty(),
    {
        self.lines.clear();
        assert(self@ =~= Seq::<Line>::empty());
    }

    /// The number of lines.
    pub fn len(&self) -> (n: usize)
        ensures
            n == self@.len(),
    {
        self.lines.len()
    }

    /// A copy of the grid.
    pub fn copy(&self) -> (grid: Grid)
        ensures
            grid@ == self@,
    {
        let mut lines: Vec<Vec<Cell>> = Vec::new();
        let n = self.lines.len();
        let mut r: usize = 0;
        while r < n
            invariant
                r <= n,
                n == self.lines@.len(),
                lines@.len() == r,
                forall|k: int| 0 <= k < r ==> (#[trigger] lines@[k])@ == self@[k],
            decreases n - r,
        {
            lines.push(copy_line(&self.lines[r]));
            r += 1;
        }
        let grid = Grid { lines };
        assert(grid@ =~= self@);
        grid
    }
}

} // verus!
