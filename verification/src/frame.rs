//! Frames: the cells of the panes that have changed since the last frame,
//! placed on the terminal.

use vstd::prelude::*;
use crate::cell::Cell;
use crate::geometry::Rect;
use crate::grid::Line;
use crate::pane::Pane;

verus! {

/// A cell of a frame: where it is on the terminal, and what it holds.
#[derive(Clone, Copy, Debug, PartialEq, Eq, Structural)]
pub struct FrameCell {
    pub row: u16,
    pub col: u16,
    pub cell: Cell,
}

/// The cells of line `row` of a pane in `rect`, placed on the terminal.
pub open spec fn line_cells(rect: Rect, row: u16, line: Line) -> Seq<FrameCell> {
    Seq::new(
        line.len(),
        |c: int| FrameCell { row: (rect.row + row) as u16, col: (rect.col + c) as u16, cell: line[c] },
    )
}

/// The cells of the changed lines `frame` of a pane in `rect`, line by line.
pub open spec fn pane_cells(rect: Rect, frame: Seq<(u16, Line)>) -> Seq<FrameCell>
    decreases frame.len(),
{
    if frame.len() == 0 {
        Seq::empty()
    } else {
        pane_cells(rect, frame.drop_last()) + line_cells(rect, frame.last().0, frame.last().1)
    }
}

/// The cells of the changed lines of `panes`, pane by pane.
pub open spec fn tab_cells(panes: Seq<Pane>) -> Seq<FrameCell>
    decreases panes.len(),
{
    if panes.len() == 0 {
        Seq::empty()
    } else {
        tab_cells(panes.drop_last()) + pane_cells(panes.last().rect, panes.last().screen@.frame())
    }
}

/// Whether the bell of one of `panes` has rung since the last frame.
pub open spec fn any_bell(panes: Seq<Pane>) -> bool {
    exists|i: int| 0 <= i < panes.len() && (#[trigger] panes[i]).screen@.bell
}

/// Takes a frame of a pane and appends its cells, placed on the terminal, to `out`.
pub fn pane_frame(pane: &mut Pane, out: &mut Vec<FrameCell>)
    requires
        old(pane).fits(),
        old(pane).rect.wf(),
    ensures
        final(pane).fits(),
        final(pane).framed_from(*old(pane)),
        final(out)@ == old(out)@ + pane_cells(old(pane).rect, old(pane).screen@.frame()),
{
    let rect = pane.rect;
    let lines = pane.screen.render_changed_lines();
    let ghost frame = crate::emulator::lines_of(lines@);
    let n = lines.len();
    let mut k: usize = 0;
    assert(out@ =~= old(out)@ + pane_cells(rect, frame.take(0)));
    while k < n
        invariant
            k <= n,
            n == lines@.len(),
            frame == crate::emulator::lines_of(lines@),
            rect.wf(),
            forall|j: int|
                0 <= j < n ==> (#[trigger] lines@[j]).row < rect.rows && lines@[j].cells@.len()
                    == rect.cols,
            out@ == old(out)@ + pane_cells(rect, frame.take(k as int)),
        decreases n - k,
    {
        let row = lines[k].row;
        let width = lines[k].cells.len();
        let ghost before = out@;
        let mut c: usize = 0;
        assert(out@ =~= before + line_cells(rect, row, lines@[k as int].cells@).take(0));
        while c < width
            invariant
                c <= width,
                k < n,
                n == lines@.len(),
                width == lines@[k as int].cells@.len(),
                width == rect.cols,
                row == lines@[k as int].row,
                row < rect.rows,
                rect.wf(),
                out@ == before + line_cells(rect, row, lines@[k as int].cells@).take(c as int),
            decreases width - c,
        {
            out.push(
                FrameCell { row: rect.row + row, col: rect.col + c as u16, cell: lines[k].cells[c] },
            );
            assert(out@ =~= before + line_cells(rect, row, lines@[k as int].cells@).take(c + 1));
            c += 1;
        }
        proof {
            let line = lines@[k as int].cells@;
            assert(line_cells(rect, row, line).take(width as int) =~= line_cells(rect, row, line));
            assert(frame.take(k + 1).drop_last() =~= frame.take(k as int));
            assert(frame.take(k + 1).last() == (row, line));
            assert(out@ =~= old(out)@ + pane_cells(rect, frame.take(k + 1)));
        }
        k += 1;
    }
    assert(frame.take(n as int) =~= frame);
}

} // verus!
