//! The terminal emulator of a pane: it takes the bytes that a child process
//! writes and keeps the grid of cells that they draw.

use vstd::prelude::*;
use crate::cell::{Attrs, Cell, Color, Pen};
use crate::grid::{
    blank_grid, cleared, filled, fitted, is_grid, line_with_inserted, scrolled_down, scrolled_up,
    Grid, Line,
};
use crate::parser::{bumped, Event, Parser, ParserState};

verus! {

/// Lines of scrollback that an emulator keeps unless told otherwise.
pub const SCROLLBACK_LINES: usize = 10000;

/// Columns between tab stops.
pub const TAB_WIDTH: u16 = 8;

/// The shape of the cursor.
#[derive(Clone, Copy, Debug, PartialEq, Eq, Structural)]
pub enum CursorShape {
    Block,
    Underline,
    Bar,
}

/// The cursor.
#[derive(Clone, Copy, Debug, PartialEq, Eq, Structural)]
pub struct Cursor {
    pub row: u16,
    pub col: u16,
    pub visible: bool,
    pub shape: CursorShape,
}

/// The mode flags.
#[derive(Clone, Copy, Debug, PartialEq, Eq, Structural)]
pub struct Modes {
    /// Printed characters push the rest of the line to the right.
    pub insert: bool,
    /// Cursor positions count from the top of the scroll region.
    pub origin: bool,
    /// Printing past the last column goes on in the next line.
    pub wrap: bool,
    /// Cursor keys send application sequences.
    pub cursor_keys: bool,
    /// The keypad sends application sequences.
    pub keypad: bool,
    /// Mouse events are reported to the child.
    pub mouse: bool,
}

/// What an emulator holds, as a mathematical value.
pub struct Screen {
    pub rows: nat,
    pub cols: nat,
    /// The grid in use: the primary grid, or the alternate one.
    pub lines: Seq<Line>,
    /// The grid not in use.
    pub other: Seq<Line>,
    /// Whether the alternate grid is in use.
    pub alternate: bool,
    /// The lines that have scrolled off the top of the primary grid, oldest first.
    pub scrollback: Seq<Line>,
    /// Most lines of scrollback that are kept.
    pub limit: nat,
    pub cursor: Cursor,
    pub saved: Cursor,
    pub saved_pen: Pen,
    pub pen: Pen,
    pub modes: Modes,
    /// First and last line of the scroll region.
    pub top: u16,
    pub bottom: u16,
    /// Whether the next character goes to the start of the next line.
    pub wrap_pending: bool,
    pub parser: ParserState,
    /// The title as the child sent it.
    pub title: Seq<u8>,
    /// Whether the bell has rung since the last frame.
    pub bell: bool,
    /// The active grid as the last frame showed it.
    pub shown: Seq<Line>,
}

/// The scrollback with one more line, the oldest one dropped where `limit`
/// lines are there already.
pub open spec fn kept(scrollback: Seq<Line>, line: Line, limit: nat) -> Seq<Line> {
    if limit == 0 {
        scrollback
    } else if scrollback.len() >= limit {
        scrollback.skip(1).push(line)
    } else {
        scrollback.push(line)
    }
}

/// The lines among the first `n` of `lines` that differ from the line that
/// `shown` has in their place, each with its index, in order.
pub open spec fn changes(lines: Seq<Line>, shown: Seq<Line>, n: int) -> Seq<(u16, Line)>
    decreases n,
{
    if n <= 0 {
        Seq::empty()
    } else if lines[n - 1] != shown[n - 1] {
        changes(lines, shown, n - 1).push(((n - 1) as u16, lines[n - 1]))
    } else {
        changes(lines, shown, n - 1)
    }
}

/// A number cut down to at most `most`.
pub open spec fn at_most(n: int, most: int) -> int {
    if n > most {
        most
    } else {
        n
    }
}

/// A parameter that counts: 1 where it is left out.
pub open spec fn count_of(param: u16) -> int {
    if param == 0 {
        1
    } else {
        param as int
    }
}

/// A parameter as a colour index.
pub open spec fn index_of(param: u16) -> u8 {
    at_most(param as int, 255) as u8
}

/// The pen after one parameter of a graphic rendition that stands for itself.
pub open spec fn pen_with(pen: Pen, p: u16) -> Pen {
    let a = pen.attrs;
    if p == 0 {
        Pen::plain()
    } else if p == 1 {
        Pen { attrs: Attrs { bold: true, ..a }, ..pen }
    } else if p == 2 {
        Pen { attrs: Attrs { dim: true, ..a }, ..pen }
    } else if p == 3 {
        Pen { attrs: Attrs { italic: true, ..a }, ..pen }
    } else if p == 4 {
        Pen { attrs: Attrs { underline: true, ..a }, ..pen }
    } else if p == 5 {
        Pen { attrs: Attrs { blink: true, ..a }, ..pen }
    } else if p == 7 {
        Pen { attrs: Attrs { reverse: true, ..a }, ..pen }
    } else if p == 8 {
        Pen { attrs: Attrs { hidden: true, ..a }, ..pen }
    } else if p == 9 {
        Pen { attrs: Attrs { strike: true, ..a }, ..pen }
    } else if p == 22 {
        Pen { attrs: Attrs { bold: false, dim: false, ..a }, ..pen }
    } else if p == 23 {
        Pen { attrs: Attrs { italic: false, ..a }, ..pen }
    } else if p == 24 {
        Pen { attrs: Attrs { underline: false, ..a }, ..pen }
    } else if p == 25 {
        Pen { attrs: Attrs { blink: false, ..a }, ..pen }
    } else if p == 27 {
        Pen { attrs: Attrs { reverse: false, ..a }, ..pen }
    } else if p == 28 {
        Pen { attrs: Attrs { hidden: false, ..a }, ..pen }
    } else if p == 29 {
        Pen { attrs: Attrs { strike: false, ..a }, ..pen }
    } else if 30 <= p <= 37 {
        Pen { fg: Color::Indexed((p - 30) as u8), ..pen }
    } else if p == 39 {
        Pen { fg: Color::Default, ..pen }
    } else if 40 <= p <= 47 {
        Pen { bg: Color::Indexed((p - 40) as u8), ..pen }
    } else if p == 49 {
        Pen { bg: Color::Default, ..pen }
    } else if 90 <= p <= 97 {
        Pen { fg: Color::Indexed((p - 90 + 8) as u8), ..pen }
    } else if 100 <= p <= 107 {
        Pen { bg: Color::Indexed((p - 100 + 8) as u8), ..pen }
    } else {
        pen
    }
}

/// The pen with the colour `color` for the foreground, where `p` is 38, or
/// the background.
pub open spec fn pen_colored(pen: Pen, p: u16, color: Color) -> Pen {
    if p == 38 {
        Pen { fg: color, ..pen }
    } else {
        Pen { bg: color, ..pen }
    }
}

/// The pen after the parameters of a graphic rendition from the one at `i` on.
/// The parameters 38 and 48 take the ones after them for a colour: `5` and an
/// index, or `2` and three parts. Where those are missing, the rest is
/// ignored.
pub open spec fn pen_after(pen: Pen, params: Seq<u16>, i: int) -> Pen
    decreases params.len() - i,
{
    if i < 0 || i >= params.len() {
        pen
    } else if params[i] == 38 || params[i] == 48 {
        if i + 2 < params.len() && params[i + 1] == 5 {
            pen_after(
                pen_colored(pen, params[i], Color::Indexed(index_of(params[i + 2]))),
                params,
                i + 3,
            )
        } else if i + 4 < params.len() && params[i + 1] == 2 {
            pen_after(
                pen_colored(
                    pen,
                    params[i],
                    Color::Rgb(
                        index_of(params[i + 2]),
                        index_of(params[i + 3]),
                        index_of(params[i + 4]),
                    ),
                ),
                params,
                i + 5,
            )
        } else {
            pen
        }
    } else {
        pen_after(pen_with(pen, params[i]), params, i + 1)
    }
}

impl Cursor {
    /// The cursor of a fresh screen: at the top left, visible, a block.
    pub open spec fn home() -> Cursor {
        Cursor { row: 0, col: 0, visible: true, shape: CursorShape::Block }
    }
}

impl Modes {
    /// The modes of a fresh screen: lines wrap, nothing else is set.
    pub open spec fn initial() -> Modes {
        Modes {
            insert: false,
            origin: false,
            wrap: true,
            cursor_keys: false,
            keypad: false,
            mouse: false,
        }
    }
}

impl Screen {
    /// The screen of an emulator that has seen no byte yet.
    #[verifier::opaque]
    pub open spec fn fresh(rows: nat, cols: nat) -> Screen {
        Screen {
            rows,
            cols,
            lines: blank_grid(rows, cols),
            other: blank_grid(rows, cols),
            alternate: false,
            scrollback: Seq::empty(),
            limit: SCROLLBACK_LINES as nat,
            cursor: Cursor::home(),
            saved: Cursor::home(),
            saved_pen: Pen::plain(),
            pen: Pen::plain(),
            modes: Modes::initial(),
            top: 0,
            bottom: if rows > 0 {
                (rows - 1) as u16
            } else {
                0
            },
            wrap_pending: false,
            parser: ParserState::start(),
            title: Seq::empty(),
            bell: false,
            shown: blank_grid(rows, cols),
        }
    }

    /// Whether the grid has a cell.
    pub open spec fn solid(self) -> bool {
        self.rows > 0 && self.cols > 0
    }

    /// The invariant of a screen.
    #[verifier::opaque]
    pub open spec fn wf(self) -> bool {
        &&& self.rows <= u16::MAX
        &&& self.cols <= u16::MAX
        &&& is_grid(self.lines, self.rows, self.cols)
        &&& is_grid(self.other, self.rows, self.cols)
        &&& is_grid(self.shown, self.rows, self.cols)
        &&& self.scrollback.len() <= self.limit
        &&& self.limit <= usize::MAX
        &&& self.parser.wf()
        &&& self.top <= self.bottom
        &&& if self.rows > 0 {
            self.cursor.row < self.rows && self.bottom < self.rows
        } else {
            self.cursor.row == 0 && self.bottom == 0
        }
        &&& if self.cols > 0 {
            self.cursor.col < self.cols
        } else {
            self.cursor.col == 0
        }
    }

    /// The cursor `c` brought into the grid.
    pub open spec fn clamped(self, c: Cursor) -> Cursor {
        Cursor {
            row: if self.rows == 0 {
                0
            } else {
                at_most(c.row as int, self.rows - 1) as u16
            },
            col: if self.cols == 0 {
                0
            } else {
                at_most(c.col as int, self.cols - 1) as u16
            },
            ..c
        }
    }

    /// The screen with the cursor at `row`, `col`.
    pub open spec fn moved_to(self, row: int, col: int) -> Screen {
        Screen {
            cursor: Cursor { row: row as u16, col: col as u16, ..self.cursor },
            wrap_pending: false,
            ..self
        }
    }

    /// The screen after its grid has been given a new size: the cells that
    /// both sizes have stay, the cursor is brought into the grid, and the
    /// scroll region is the whole grid again. The same size changes nothing.
    #[verifier::opaque]
    pub open spec fn resized(self, rows: nat, cols: nat) -> Screen {
        if rows == self.rows && cols == self.cols {
            self
        } else {
            let sized = Screen { rows, cols, ..self };
            Screen {
                rows,
                cols,
                lines: fitted(self.lines, rows, cols),
                other: fitted(self.other, rows, cols),
                shown: blank_grid(rows, cols),
                cursor: sized.clamped(self.cursor),
                top: 0,
                bottom: if rows > 0 {
                    (rows - 1) as u16
                } else {
                    0
                },
                wrap_pending: false,
                ..self
            }
        }
    }

    /// The screen after the scroll region has moved up by one line. A line
    /// that leaves the top of the primary grid goes to the scrollback.
    #[verifier::opaque]
    pub open spec fn scrolled(self) -> Screen {
        Screen {
            lines: scrolled_up(self.lines, self.top as int, self.bottom as int, self.cols),
            scrollback: if self.top == 0 && !self.alternate {
                kept(self.scrollback, self.lines[0], self.limit)
            } else {
                self.scrollback
            },
            ..self
        }
    }

    /// The screen after a line feed: the cursor goes down by one line; at the
    /// bottom of the scroll region the region scrolls instead.
    #[verifier::opaque]
    pub open spec fn line_fed(self) -> Screen {
        let s = Screen { wrap_pending: false, ..self };
        if !self.solid() {
            s
        } else if self.cursor.row == self.bottom {
            s.scrolled()
        } else if self.cursor.row + 1 < self.rows {
            Screen { cursor: Cursor { row: (self.cursor.row + 1) as u16, ..self.cursor }, ..s }
        } else {
            s
        }
    }

    /// The screen after a reverse line feed: the cursor goes up by one line;
    /// at the top of the scroll region the region scrolls down instead.
    #[verifier::opaque]
    pub open spec fn reverse_fed(self) -> Screen {
        let s = Screen { wrap_pending: false, ..self };
        if !self.solid() {
            s
        } else if self.cursor.row == self.top {
            Screen {
                lines: scrolled_down(self.lines, self.top as int, self.bottom as int, self.cols),
                ..s
            }
        } else if self.cursor.row > 0 {
            Screen { cursor: Cursor { row: (self.cursor.row - 1) as u16, ..self.cursor }, ..s }
        } else {
            s
        }
    }

    /// The screen after the character `ch` has been printed at the cursor.
    /// In the last column the cursor stays and, where lines wrap, the next
    /// character starts the next line.
    #[verifier::opaque]
    pub open spec fn printed(self, ch: char) -> Screen {
        if !self.solid() {
            self
        } else {
            let s = if self.wrap_pending && self.modes.wrap {
                Screen { cursor: Cursor { col: 0, ..self.cursor }, ..self }.line_fed()
            } else {
                Screen { wrap_pending: false, ..self }
            };
            let cell = Cell::drawn(ch, s.pen);
            let row = s.cursor.row as int;
            let col = s.cursor.col as int;
            let line = if s.modes.insert {
                line_with_inserted(s.lines[row], col, cell)
            } else {
                s.lines[row].update(col, cell)
            };
            let lines = s.lines.update(row, line);
            if col + 1 < s.cols {
                Screen { lines, cursor: Cursor { col: (col + 1) as u16, ..s.cursor }, ..s }
            } else {
                Screen { lines, wrap_pending: s.modes.wrap, ..s }
            }
        }
    }

    /// The column of the tab stop after column `col`.
    pub open spec fn next_stop(self, col: int) -> int {
        at_most((col / (TAB_WIDTH as int) + 1) * TAB_WIDTH, self.cols - 1)
    }

    /// The screen after a control byte: bell, backspace, tab, the line feeds
    /// and carriage return. Other control bytes do nothing.
    #[verifier::opaque]
    pub open spec fn controlled(self, byte: u8) -> Screen {
        if byte == 0x07 {
            Screen { bell: true, ..self }
        } else if !self.solid() {
            self
        } else if byte == 0x08 {
            self.moved_to(
                self.cursor.row as int,
                if self.cursor.col > 0 {
                    self.cursor.col - 1
                } else {
                    0
                },
            )
        } else if byte == 0x09 {
            self.moved_to(self.cursor.row as int, self.next_stop(self.cursor.col as int))
        } else if byte == 0x0a || byte == 0x0b || byte == 0x0c {
            self.line_fed()
        } else if byte == 0x0d {
            self.moved_to(self.cursor.row as int, 0)
        } else {
            self
        }
    }

    /// The screen with one more sequence discarded.
    #[verifier::opaque]
    pub open spec fn ignoring(self) -> Screen {
        Screen {
            parser: ParserState { dropped: bumped(self.parser.dropped), ..self.parser },
            ..self
        }
    }

    /// The screen with the cursor and the pen that were saved.
    #[verifier::opaque]
    pub open spec fn restored(self) -> Screen {
        Screen {
            cursor: self.clamped(self.saved),
            pen: self.saved_pen,
            wrap_pending: false,
            ..self
        }
    }

    /// The screen with the cursor and the pen saved.
    #[verifier::opaque]
    pub open spec fn saving(self) -> Screen {
        Screen { saved: self.cursor, saved_pen: self.pen, ..self }
    }

    /// The screen set back to its first state. The size, the scrollback, the
    /// title, the parser and the last frame stay.
    #[verifier::opaque]
    pub open spec fn reset(self) -> Screen {
        Screen {
            scrollback: self.scrollback,
            limit: self.limit,
            parser: self.parser,
            title: self.title,
            bell: self.bell,
            shown: self.shown,
            ..Screen::fresh(self.rows, self.cols)
        }
    }

    /// The screen after an escape sequence of one byte: save (`7`) and
    /// restore (`8`) the cursor, index (`D`), next line (`E`), reverse index
    /// (`M`), reset (`c`), and the keypad modes (`=`, `>`). Any other is
    /// discarded and counted.
    #[verifier::opaque]
    pub open spec fn escaped(self, byte: u8) -> Screen {
        if byte == 0x37 {
            self.saving()
        } else if byte == 0x38 {
            self.restored()
        } else if byte == 0x44 {
            self.line_fed()
        } else if byte == 0x45 {
            self.next_lined()
        } else if byte == 0x4d {
            self.reverse_fed()
        } else if byte == 0x63 {
            self.reset()
        } else if byte == 0x3d {
            self.with_keypad(true)
        } else if byte == 0x3e {
            self.with_keypad(false)
        } else {
            self.ignoring()
        }
    }

    /// The screen with the keypad mode set or reset.
    #[verifier::opaque]
    pub open spec fn with_keypad(self, on: bool) -> Screen {
        Screen { modes: Modes { keypad: on, ..self.modes }, ..self }
    }

    /// The screen with the cursor at the start of the next line.
    #[verifier::opaque]
    pub open spec fn next_lined(self) -> Screen {
        Screen { cursor: Cursor { col: 0, ..self.cursor }, ..self }.line_fed()
    }

    /// The screen with the cursor moved by `rows` lines and `cols` columns,
    /// as far as the grid goes.
    #[verifier::opaque]
    pub open spec fn shifted(self, rows: int, cols: int) -> Screen {
        if !self.solid() {
            self
        } else {
            self.moved_to(
                if self.cursor.row + rows < 0 {
                    0
                } else {
                    at_most(self.cursor.row + rows, self.rows - 1)
                },
                if self.cursor.col + cols < 0 {
                    0
                } else {
                    at_most(self.cursor.col + cols, self.cols - 1)
                },
            )
        }
    }

    /// The screen with the alternate grid in use, blank. The cursor and the
    /// pen are saved.
    #[verifier::opaque]
    pub open spec fn entered(self) -> Screen {
        if self.alternate {
            self
        } else {
            Screen {
                lines: blank_grid(self.rows, self.cols),
                other: self.lines,
                alternate: true,
                wrap_pending: false,
                ..self.saving()
            }
        }
    }

    /// The screen with the primary grid in use again, and the cursor and the
    /// pen that were saved.
    #[verifier::opaque]
    pub open spec fn left(self) -> Screen {
        if !self.alternate {
            self
        } else {
            Screen { lines: self.other, other: self.lines, alternate: false, ..self }.restored()
        }
    }

    /// The screen after the private mode `mode` has been set or reset: cursor
    /// keys (1), origin (6), wrap (7), cursor visible (25), alternate grid
    /// (47, 1047, 1049), mouse tracking (1000, 1002, 1003, 1006). Any other
    /// is discarded and counted.
    #[verifier::opaque]
    pub open spec fn with_private_mode(self, mode: u16, on: bool) -> Screen {
        if mode == 1 {
            Screen { modes: Modes { cursor_keys: on, ..self.modes }, ..self }
        } else if mode == 6 {
            Screen { modes: Modes { origin: on, ..self.modes }, ..self }.homed()
        } else if mode == 7 {
            Screen { modes: Modes { wrap: on, ..self.modes }, ..self }
        } else if mode == 25 {
            Screen { cursor: Cursor { visible: on, ..self.cursor }, ..self }
        } else if mode == 47 || mode == 1047 || mode == 1049 {
            if on {
                self.entered()
            } else {
                self.left()
            }
        } else if mode == 1000 || mode == 1002 || mode == 1003 || mode == 1006 {
            Screen { modes: Modes { mouse: on, ..self.modes }, ..self }
        } else {
            self.ignoring()
        }
    }

    /// The screen after the mode `mode` has been set or reset: insert (4).
    /// Any other is discarded and counted.
    #[verifier::opaque]
    pub open spec fn with_mode(self, mode: u16, on: bool) -> Screen {
        if mode == 4 {
            Screen { modes: Modes { insert: on, ..self.modes }, ..self }
        } else {
            self.ignoring()
        }
    }

    /// The screen after the modes in `params` from the one at `i` on have
    /// been set or reset.
    pub open spec fn with_modes(self, params: Seq<u16>, private: bool, on: bool, i: int) -> Screen
        decreases params.len() - i,
    {
        if i < 0 || i >= params.len() {
            self
        } else if private {
            self.with_private_mode(params[i], on).with_modes(params, private, on, i + 1)
        } else {
            self.with_mode(params[i], on).with_modes(params, private, on, i + 1)
        }
    }

    /// The screen with the cursor at its home: the top left of the grid, or
    /// of the scroll region where positions count from there.
    #[verifier::opaque]
    pub open spec fn homed(self) -> Screen {
        self.moved_to(
            if self.modes.origin {
                self.top as int
            } else {
                0
            },
            0,
        )
    }

    /// The screen with the cursor at line `row` and column `col`, both
    /// counted from 1, and brought into the grid or, where positions count
    /// from the scroll region, into that.
    #[verifier::opaque]
    pub open spec fn positioned(self, row: u16, col: u16) -> Screen {
        let r = count_of(row) - 1;
        let c = count_of(col) - 1;
        if !self.solid() {
            self
        } else if self.modes.origin {
            self.moved_to(at_most(self.top + r, self.bottom as int), at_most(c, self.cols - 1))
        } else {
            self.moved_to(at_most(r, self.rows - 1), at_most(c, self.cols - 1))
        }
    }

    /// The screen with the cursor at line `row` and column `col`, both
    /// counted from 0, or at the last line or column where the grid has
    /// fewer.
    #[verifier::opaque]
    pub open spec fn placed(self, row: u16, col: u16) -> Screen {
        if !self.solid() {
            self
        } else {
            self.moved_to(at_most(row as int, self.rows - 1), at_most(col as int, self.cols - 1))
        }
    }

    /// The screen with the pen `pen`.
    #[verifier::opaque]
    pub open spec fn inked(self, pen: Pen) -> Screen {
        Screen { pen, ..self }
    }

    /// The screen after `text` has been drawn with the pen `pen`, starting
    /// at line `row` and column `col`, both counted from 0.
    pub open spec fn text_drawn(self, row: u16, col: u16, text: Seq<u8>, pen: Pen) -> Screen {
        self.inked(pen).placed(row, col).feed(text)
    }

    /// The screen after part of the display has been erased: from the cursor
    /// to the end (0), from the start to the cursor (1), or all of it (2),
    /// with the scrollback (3). Any other part is discarded and counted.
    #[verifier::opaque]
    pub open spec fn display_erased(self, part: u16) -> Screen {
        let row = self.cursor.row as int;
        let col = self.cursor.col as int;
        let cols = self.cols as int;
        if part > 3 {
            self.ignoring()
        } else if !self.solid() {
            self
        } else if part == 0 {
            Screen {
                lines: cleared(
                    filled(self.lines, row, col, cols, Cell::empty()),
                    row + 1,
                    self.rows as int,
                    self.cols,
                ),
                ..self
            }
        } else if part == 1 {
            Screen {
                lines: filled(
                    cleared(self.lines, 0, row, self.cols),
                    row,
                    0,
                    col + 1,
                    Cell::empty(),
                ),
                ..self
            }
        } else if part == 2 {
            Screen { lines: cleared(self.lines, 0, self.rows as int, self.cols), ..self }
        } else {
            Screen {
                lines: cleared(self.lines, 0, self.rows as int, self.cols),
                scrollback: Seq::empty(),
                ..self
            }
        }
    }

    /// The screen after part of the cursor's line has been erased: from the
    /// cursor to the end (0), from the start to the cursor (1), or all of it
    /// (2). Any other part is discarded and counted.
    #[verifier::opaque]
    pub open spec fn line_erased(self, part: u16) -> Screen {
        let row = self.cursor.row as int;
        let col = self.cursor.col as int;
        let cols = self.cols as int;
        if part > 2 {
            self.ignoring()
        } else if !self.solid() {
            self
        } else if part == 0 {
            Screen { lines: filled(self.lines, row, col, cols, Cell::empty()), ..self }
        } else if part == 1 {
            Screen { lines: filled(self.lines, row, 0, col + 1, Cell::empty()), ..self }
        } else {
            Screen { lines: filled(self.lines, row, 0, cols, Cell::empty()), ..self }
        }
    }

    /// The screen with the scroll region from line `first` to line `last`,
    /// both counted from 1, `last` being the last line of the grid where it
    /// is left out, and the cursor at its home. A region of less than two
    /// lines, or one that ends below the grid, changes nothing.
    #[verifier::opaque]
    pub open spec fn with_region(self, first: u16, last: u16) -> Screen {
        let t = count_of(first);
        let b = if last == 0 {
            self.rows as int
        } else {
            last as int
        };
        if t < b <= self.rows {
            Screen { top: (t - 1) as u16, bottom: (b - 1) as u16, ..self }.homed()
        } else {
            self
        }
    }

    /// The screen after a control sequence with the final byte `byte` and
    /// the parameters that the parser holds: cursor up (`A`), down (`B`),
    /// forward (`C`), back (`D`); cursor position (`H`, `f`); erase in
    /// display (`J`) and in line (`K`); graphic rendition (`m`); scroll
    /// region (`r`); set (`h`) and reset (`l`) modes; save (`s`) and restore
    /// (`u`) the cursor. Any other is discarded and counted.
    #[verifier::opaque]
    pub open spec fn sequenced(self, byte: u8) -> Screen {
        let p0 = self.parser.param(0);
        let p1 = self.parser.param(1);
        if byte == 0x68 || byte == 0x6c {
            self.with_modes(self.parser.params, self.parser.private, byte == 0x68, 0)
        } else if self.parser.private {
            self.ignoring()
        } else if byte == 0x41 {
            self.shifted(-count_of(p0), 0)
        } else if byte == 0x42 {
            self.shifted(count_of(p0), 0)
        } else if byte == 0x43 {
            self.shifted(0, count_of(p0))
        } else if byte == 0x44 {
            self.shifted(0, -count_of(p0))
        } else if byte == 0x48 || byte == 0x66 {
            self.positioned(p0, p1)
        } else if byte == 0x4a {
            self.display_erased(p0)
        } else if byte == 0x4b {
            self.line_erased(p0)
        } else if byte == 0x6d {
            self.rendered()
        } else if byte == 0x72 {
            self.with_region(p0, p1)
        } else if byte == 0x73 {
            self.saving()
        } else if byte == 0x75 {
            self.restored()
        } else {
            self.ignoring()
        }
    }

    /// The screen with the pen that the parameters of a graphic rendition
    /// leave.
    #[verifier::opaque]
    pub open spec fn rendered(self) -> Screen {
        Screen { pen: pen_after(self.pen, self.parser.params, 0), ..self }
    }

    /// The screen after an operating system command with the text that the
    /// parser holds: `0;` or `2;` and a title set the title. Any other is
    /// discarded and counted.
    #[verifier::opaque]
    pub open spec fn commanded(self) -> Screen {
        let text = self.parser.text;
        if text.len() >= 2 && (text[0] == 0x30 || text[0] == 0x32) && text[1] == 0x3b {
            Screen { title: text.skip(2), ..self }
        } else {
            self.ignoring()
        }
    }

    /// The screen after what the parser has completed.
    pub open spec fn applied(self, event: Event) -> Screen {
        match event {
            Event::Nothing => self,
            Event::Print(ch) => self.printed(ch),
            Event::Control(byte) => self.controlled(byte),
            Event::Escape(byte) => self.escaped(byte),
            Event::Csi(byte) => self.sequenced(byte),
            Event::Osc => self.commanded(),
        }
    }

    /// The screen after one more byte of the stream.
    pub open spec fn step(self, byte: u8) -> Screen {
        let parsed = self.parser.advance(byte);
        Screen { parser: parsed.0, ..self }.applied(parsed.1)
    }

    /// The screen after the bytes `bytes` of the stream, in order.
    pub open spec fn feed(self, bytes: Seq<u8>) -> Screen
        decreases bytes.len(),
    {
        if bytes.len() == 0 {
            self
        } else {
            self.feed(bytes.drop_last()).step(bytes.last())
        }
    }

    /// The frame: every line that differs from what the last frame showed.
    pub open spec fn frame(self) -> Seq<(u16, Line)> {
        changes(self.lines, self.shown, self.rows as int)
    }

    /// The screen after a frame has been taken: it shows what the grid holds,
    /// and the bell is silent.
    pub open spec fn framed(self) -> Screen {
        Screen { shown: self.lines, bell: false, ..self }
    }
}

/// A line of a frame: a line of the grid that has changed, with its index.
#[derive(Debug, PartialEq, Eq)]
pub struct ChangedLine {
    pub row: u16,
    pub cells: Vec<Cell>,
}

/// The lines of a frame as mathematical values.
pub open spec fn lines_of(frame: Seq<ChangedLine>) -> Seq<(u16, Line)> {
    Seq::new(frame.len(), |i: int| (frame[i].row, frame[i].cells@))
}

/// A terminal emulator.
pub struct Emulator {
    pub rows: u16,
    pub cols: u16,
    pub lines: Grid,
    pub other: Grid,
    pub alternate: bool,
    pub scrollback: Grid,
    pub limit: usize,
    pub cursor: Cursor,
    pub saved: Cursor,
    pub saved_pen: Pen,
    pub pen: Pen,
    pub modes: Modes,
    pub top: u16,
    pub bottom: u16,
    pub wrap_pending: bool,
    pub parser: Parser,
    pub title: Vec<u8>,
    pub bell: bool,
    pub shown: Grid,
}

impl View for Emulator {
    type V = Screen;

    open spec fn view(&self) -> Screen {
        Screen {
            rows: self.rows as nat,
            cols: self.cols as nat,
            lines: self.lines@,
            other: self.other@,
            alternate: self.alternate,
            scrollback: self.scrollback@,
            limit: self.limit as nat,
            cursor: self.cursor,
            saved: self.saved,
            saved_pen: self.saved_pen,
            pen: self.pen,
            modes: self.modes,
            top: self.top,
            bottom: self.bottom,
            wrap_pending: self.wrap_pending,
            parser: self.parser@,
            title: self.title@,
            bell: self.bell,
            shown: self.shown@,
        }
    }
}

/// The pen after one parameter of a graphic rendition that stands for itself.
pub fn apply_rendition(pen: Pen, p: u16) -> (out: Pen)
    ensures
        out == pen_with(pen, p),
{
    let mut out = pen;
    if p == 0 {
        out = Pen::reset();
    } else if p == 1 {
        out.attrs.bold = true;
    } else if p == 2 {
        out.attrs.dim = true;
    } else if p == 3 {
        out.attrs.italic = true;
    } else if p == 4 {
        out.attrs.underline = true;
    } else if p == 5 {
        out.attrs.blink = true;
    } else if p == 7 {
        out.attrs.reverse = true;
    } else if p == 8 {
        out.attrs.hidden = true;
    } else if p == 9 {
        out.attrs.strike = true;
    } else if p == 22 {
        out.attrs.bold = false;
        out.attrs.dim = false;
    } else if p == 23 {
        out.attrs.italic = false;
    } else if p == 24 {
        out.attrs.underline = false;
    } else if p == 25 {
        out.attrs.blink = false;
    } else if p == 27 {
        out.attrs.reverse = false;
    } else if p == 28 {
        out.attrs.hidden = false;
    } else if p == 29 {
        out.attrs.strike = false;
    } else if 30 <= p && p <= 37 {
        out.fg = Color::Indexed((p - 30) as u8);
    } else if p == 39 {
        out.fg = Color::Default;
    } else if 40 <= p && p <= 47 {
        out.bg = Color::Indexed((p - 40) as u8);
    } else if p == 49 {
        out.bg = Color::Default;
    } else if 90 <= p && p <= 97 {
        out.fg = Color::Indexed((p - 90 + 8) as u8);
    } else if 100 <= p && p <= 107 {
        out.bg = Color::Indexed((p - 100 + 8) as u8);
    }
    out
}

/// A parameter as a colour index.
pub fn color_index(param: u16) -> (index: u8)
    ensures
        index == index_of(param),
{
    if param > 255 {
        255
    } else {
        param as u8
    }
}

/// The pen after the parameters of a graphic rendition.
pub fn select_rendition(pen: Pen, params: &Vec<u16>) -> (out: Pen)
    ensures
        out == pen_after(pen, params@, 0),
{
    let n = params.len();
    let mut out = pen;
    let mut i: usize = 0;
    while i < n
        invariant
            i <= n,
            n == params@.len(),
            pen_after(pen, params@, 0) == pen_after(out, params@, i as int),
        decreases n - i,
    {
        let p = params[i];
        if p == 38 || p == 48 {
            if n - i > 2 && params[i + 1] == 5 {
                let color = Color::Indexed(color_index(params[i + 2]));
                if p == 38 {
                    out.fg = color;
                } else {
                    out.bg = color;
                }
                i += 3;
            } else if n - i > 4 && params[i + 1] == 2 {
                let color = Color::Rgb(
                    color_index(params[i + 2]),
                    color_index(params[i + 3]),
                    color_index(params[i + 4]),
                );
                if p == 38 {
                    out.fg = color;
                } else {
                    out.bg = color;
                }
                i += 5;
            } else {
                i = n;
            }
        } else {
            out = apply_rendition(out, p);
            i += 1;
        }
    }
    out
}

impl Emulator {
    /// The invariant of the emulator's state.
    pub open spec fn wf(&self) -> bool {
        self@.wf()
    }

    /// An emulator with a blank grid of the given size.
    pub fn new(rows: u16, cols: u16) -> (e: Emulator)
        ensures
            e.wf(),
            e@ == Screen::fresh(rows as nat, cols as nat),
            e@.rows == rows,
            e@.cols == cols,
    {
        proof {
            reveal(Screen::wf);
            reveal(Screen::fresh);
        }
        let home = Cursor { row: 0, col: 0, visible: true, shape: CursorShape::Block };
        let scrollback = Grid::new(0, 0);
        let title: Vec<u8> = Vec::new();
        assert(scrollback@ =~= Seq::<Line>::empty());
        assert(title@ =~= Seq::<u8>::empty());
        Emulator {
            rows,
            cols,
            lines: Grid::new(rows, cols),
            other: Grid::new(rows, cols),
            alternate: false,
            scrollback,
            limit: SCROLLBACK_LINES,
            cursor: home,
            saved: home,
            saved_pen: Pen::reset(),
            pen: Pen::reset(),
            modes: Modes {
                insert: false,
                origin: false,
                wrap: true,
                cursor_keys: false,
                keypad: false,
                mouse: false,
            },
            top: 0,
            bottom: if rows > 0 {
                rows - 1
            } else {
                0
            },
            wrap_pending: false,
            parser: Parser::new(),
            title,
            bell: false,
            shown: Grid::new(rows, cols),
        }
    }

    /// The cursor `c` brought into the grid.
    fn clamp(&self, c: Cursor) -> (out: Cursor)
        ensures
            out == self@.clamped(c),
    {
        Cursor {
            row: if self.rows == 0 {
                0
            } else if c.row > self.rows - 1 {
                self.rows - 1
            } else {
                c.row
            },
            col: if self.cols == 0 {
                0
            } else if c.col > self.cols - 1 {
                self.cols - 1
            } else {
                c.col
            },
            visible: c.visible,
            shape: c.shape,
        }
    }

    /// Gives the grid a new size. The cells that both sizes have stay.
    pub fn resize(&mut self, rows: u16, cols: u16)
        requires
            old(self).wf(),
        ensures
            final(self).wf(),
            final(self)@ == old(self)@.resized(rows as nat, cols as nat),
            final(self)@.rows == rows,
            final(self)@.cols == cols,
    {
        proof {
            reveal(Screen::wf);
            reveal(Screen::resized);
        }
        if rows == self.rows && cols == self.cols {
            return ;
        }
        self.lines = self.lines.fit(rows, cols);
        self.other = self.other.fit(rows, cols);
        self.shown = Grid::new(rows, cols);
        self.rows = rows;
        self.cols = cols;
        self.cursor = self.clamp(self.cursor);
        self.top = 0;
        self.bottom = if rows > 0 {
            rows - 1
        } else {
            0
        };
        self.wrap_pending = false;
    }

    /// The number of rows of the grid.
    pub fn rows(&self) -> (n: u16)
        ensures
            n == self@.rows,
    {
        self.rows
    }

    /// The number of columns of the grid.
    pub fn cols(&self) -> (n: u16)
        ensures
            n == self@.cols,
    {
        self.cols
    }

    /// Moves the scroll region up by one line.
    fn scroll(&mut self)
        requires
            old(self).wf(),
            old(self)@.solid(),
        ensures
            final(self).wf(),
            final(self)@ == old(self)@.scrolled(),
            final(self).rows == old(self).rows && final(self).cols == old(self).cols,
            final(self).cursor == old(self).cursor,
            final(self).wrap_pending == old(self).wrap_pending,
    {
        proof {
            reveal(Screen::wf);
            reveal(Screen::scrolled);
        }
        let gone = self.lines.scroll_up(self.top, self.bottom, self.cols);
        if self.top == 0 && !self.alternate && self.limit > 0 {
            if self.scrollback.len() >= self.limit {
                self.scrollback.drop_first();
            }
            self.scrollback.push_line(gone);
        }
    }

    /// Moves the cursor down by one line.
    fn down(&mut self)
        requires
            old(self).wf(),
            old(self).cursor.row + 1 < old(self).rows,
        ensures
            final(self).wf(),
            final(self)@ == (Screen {
                cursor: Cursor { row: (old(self).cursor.row + 1) as u16, ..old(self).cursor },
                ..old(self)@
            }),
            final(self).rows == old(self).rows && final(self).cols == old(self).cols,
            final(self).cursor.col == old(self).cursor.col,
            final(self).wrap_pending == old(self).wrap_pending,
    {
        proof {
            reveal(Screen::wf);
        }
        self.cursor.row = self.cursor.row + 1;
    }

    /// Whether the cursor is on the last line of the grid.
    fn on_last_line(&self) -> (last: bool)
        requires
            self.wf(),
            self@.solid(),
        ensures
            last == !(self.cursor.row + 1 < self.rows),
    {
        proof {
            reveal(Screen::wf);
        }
        self.cursor.row == self.rows - 1
    }

    /// Feeds a line: the cursor goes down by one line; at the bottom of the
    /// scroll region the region scrolls instead.
    pub fn line_feed(&mut self)
        requires
            old(self).wf(),
        ensures
            final(self).wf(),
            final(self)@ == old(self)@.line_fed(),
            final(self).rows == old(self).rows && final(self).cols == old(self).cols,
            final(self).cursor.col == old(self).cursor.col,
            !final(self).wrap_pending,
    {
        proof {
            reveal(Screen::line_fed);
        }
        self.clear_wrap();
        if self.rows == 0 || self.cols == 0 {
            return ;
        }
        if self.cursor.row == self.bottom {
            self.scroll();
        } else if !self.on_last_line() {
            self.down();
        }
    }

    /// Moves the cursor to the first column.
    fn first_column(&mut self)
        requires
            old(self).wf(),
        ensures
            final(self).wf(),
            final(self)@ == (Screen { cursor: Cursor { col: 0, ..old(self).cursor }, ..old(self)@ }),
            final(self).rows == old(self).rows && final(self).cols == old(self).cols,
    {
        proof {
            reveal(Screen::wf);
        }
        self.cursor.col = 0;
    }

    /// Moves the cursor to the start of the next line.
    pub fn next_line(&mut self)
        requires
            old(self).wf(),
        ensures
            final(self).wf(),
            final(self)@ == old(self)@.next_lined(),
            final(self).rows == old(self).rows && final(self).cols == old(self).cols,
            !final(self).wrap_pending,
    {
        proof {
            reveal(Screen::next_lined);
        }
        self.first_column();
        self.line_feed();
    }

    /// Moves the scroll region down by one line.
    fn scroll_back(&mut self)
        requires
            old(self).wf(),
            old(self)@.solid(),
        ensures
            final(self).wf(),
            final(self)@ == (Screen {
                lines: scrolled_down(
                    old(self)@.lines,
                    old(self).top as int,
                    old(self).bottom as int,
                    old(self)@.cols,
                ),
                ..old(self)@
            }),
            final(self).rows == old(self).rows && final(self).cols == old(self).cols,
    {
        proof {
            reveal(Screen::wf);
        }
        self.lines.scroll_down(self.top, self.bottom, self.cols);
    }

    /// Moves the cursor up by one line.
    fn up(&mut self)
        requires
            old(self).wf(),
            old(self).cursor.row > 0,
        ensures
            final(self).wf(),
            final(self)@ == (Screen {
                cursor: Cursor { row: (old(self).cursor.row - 1) as u16, ..old(self).cursor },
                ..old(self)@
            }),
            final(self).rows == old(self).rows && final(self).cols == old(self).cols,
    {
        proof {
            reveal(Screen::wf);
        }
        self.cursor.row = self.cursor.row - 1;
    }

    /// Feeds a line backwards: the cursor goes up by one line; at the top of
    /// the scroll region the region scrolls down instead.
    pub fn reverse_feed(&mut self)
        requires
            old(self).wf(),
        ensures
            final(self).wf(),
            final(self)@ == old(self)@.reverse_fed(),
            final(self).rows == old(self).rows && final(self).cols == old(self).cols,
    {
        proof {
            reveal(Screen::reverse_fed);
        }
        self.clear_wrap();
        if self.rows == 0 || self.cols == 0 {
            return ;
        }
        if self.cursor.row == self.top {
            self.scroll_back();
        } else if self.cursor.row > 0 {
            self.up();
        }
    }

    /// Draws `ch` at the cursor and moves the cursor on.
    fn draw(&mut self, ch: char)
        requires
            old(self).wf(),
            old(self)@.solid(),
            !old(self).wrap_pending,
        ensures
            final(self).wf(),
            final(self).rows == old(self).rows && final(self).cols == old(self).cols,
            final(self)@ == ({
                let s = old(self)@;
                let cell = Cell::drawn(ch, s.pen);
                let row = s.cursor.row as int;
                let col = s.cursor.col as int;
                let line = if s.modes.insert {
                    line_with_inserted(s.lines[row], col, cell)
                } else {
                    s.lines[row].update(col, cell)
                };
                let lines = s.lines.update(row, line);
                if col + 1 < s.cols {
                    Screen { lines, cursor: Cursor { col: (col + 1) as u16, ..s.cursor }, ..s }
                } else {
                    Screen { lines, wrap_pending: s.modes.wrap, ..s }
                }
            }),
    {
        proof {
            reveal(Screen::wf);
        }
        let cell = Cell::draw(ch, self.pen);
        let row = self.cursor.row;
        let col = self.cursor.col;
        if self.modes.insert {
            self.lines.insert(row, col, cell);
        } else {
            self.lines.put(row, col, cell);
        }
        if col + 1 < self.cols {
            self.cursor.col = col + 1;
        } else {
            self.wrap_pending = self.modes.wrap;
        }
    }

    /// Prints the character `ch` at the cursor.
    pub fn print(&mut self, ch: char)
        requires
            old(self).wf(),
        ensures
            final(self).wf(),
            final(self)@ == old(self)@.printed(ch),
            final(self).rows == old(self).rows && final(self).cols == old(self).cols,
    {
        proof {
            reveal(Screen::printed);
            reveal(Screen::next_lined);
        }
        if self.rows == 0 || self.cols == 0 {
            return ;
        }
        if self.wrap_pending && self.modes.wrap {
            self.next_line();
        } else {
            self.clear_wrap();
        }
        self.draw(ch);
    }

    /// Forgets that the next character was to start the next line.
    fn clear_wrap(&mut self)
        requires
            old(self).wf(),
        ensures
            final(self).wf(),
            final(self)@ == (Screen { wrap_pending: false, ..old(self)@ }),
            final(self).rows == old(self).rows && final(self).cols == old(self).cols,
            final(self).cursor == old(self).cursor,
            !final(self).wrap_pending,
    {
        proof {
            reveal(Screen::wf);
        }
        self.wrap_pending = false;
    }

    /// Rings the bell.
    fn ring(&mut self)
        requires
            old(self).wf(),
        ensures
            final(self).wf(),
            final(self)@ == old(self)@.controlled(0x07),
            final(self).rows == old(self).rows && final(self).cols == old(self).cols,
    {
        proof {
            reveal(Screen::wf);
            reveal(Screen::controlled);
        }
        self.bell = true;
    }

    /// Obeys backspace, tab or carriage return.
    fn column(&mut self, byte: u8)
        requires
            old(self).wf(),
            old(self)@.solid(),
            byte == 0x08 || byte == 0x09 || byte == 0x0d,
        ensures
            final(self).wf(),
            final(self)@ == old(self)@.controlled(byte),
            final(self).rows == old(self).rows && final(self).cols == old(self).cols,
    {
        proof {
            reveal(Screen::wf);
            reveal(Screen::controlled);
        }
        let col = self.cursor.col;
        if byte == 0x08 {
            self.cursor.col = if col > 0 {
                col - 1
            } else {
                0
            };
        } else if byte == 0x09 {
            let stop: u32 = (col as u32 / TAB_WIDTH as u32 + 1) * TAB_WIDTH as u32;
            self.cursor.col = if stop > (self.cols - 1) as u32 {
                self.cols - 1
            } else {
                stop as u16
            };
        } else {
            self.cursor.col = 0;
        }
        self.wrap_pending = false;
    }

    /// Obeys a control byte.
    pub fn control(&mut self, byte: u8)
        requires
            old(self).wf(),
        ensures
            final(self).wf(),
            final(self)@ == old(self)@.controlled(byte),
            final(self).rows == old(self).rows && final(self).cols == old(self).cols,
    {
        if byte == 0x07 {
            self.ring();
        } else if self.rows == 0 || self.cols == 0 {
            proof {
                reveal(Screen::controlled);
            }
        } else if byte == 0x08 || byte == 0x09 || byte == 0x0d {
            self.column(byte);
        } else if byte == 0x0a || byte == 0x0b || byte == 0x0c {
            proof {
                reveal(Screen::controlled);
            }
            self.line_feed();
        } else {
            proof {
                reveal(Screen::controlled);
            }
        }
    }

    /// Counts a discarded sequence.
    fn ignore(&mut self)
        requires
            old(self).wf(),
        ensures
            final(self).wf(),
            final(self)@ == old(self)@.ignoring(),
            final(self).rows == old(self).rows && final(self).cols == old(self).cols,
            final(self).parser.params@ == old(self).parser.params@,
    {
        proof {
            reveal(Screen::wf);
            reveal(Screen::ignoring);
        }
        self.parser.drop_one();
    }

    /// Saves the cursor and the pen.
    fn save(&mut self)
        requires
            old(self).wf(),
        ensures
            final(self).wf(),
            final(self)@ == old(self)@.saving(),
            final(self).rows == old(self).rows && final(self).cols == old(self).cols,
    {
        proof {
            reveal(Screen::wf);
            reveal(Screen::saving);
        }
        self.saved = self.cursor;
        self.saved_pen = self.pen;
    }

    /// Brings back the cursor and the pen that were saved.
    fn restore(&mut self)
        requires
            old(self).wf(),
        ensures
            final(self).wf(),
            final(self)@ == old(self)@.restored(),
            final(self).rows == old(self).rows && final(self).cols == old(self).cols,
    {
        proof {
            reveal(Screen::wf);
            reveal(Screen::restored);
        }
        self.cursor = self.clamp(self.saved);
        self.pen = self.saved_pen;
        self.wrap_pending = false;
    }

    /// Sets the screen back to its first state.
    fn reset(&mut self)
        requires
            old(self).wf(),
        ensures
            final(self).wf(),
            final(self)@ == old(self)@.reset(),
            final(self).rows == old(self).rows && final(self).cols == old(self).cols,
    {
        proof {
            reveal(Screen::wf);
            reveal(Screen::reset);
            reveal(Screen::fresh);
        }
        let home = Cursor { row: 0, col: 0, visible: true, shape: CursorShape::Block };
        self.lines = Grid::new(self.rows, self.cols);
        self.other = Grid::new(self.rows, self.cols);
        self.alternate = false;
        self.cursor = home;
        self.saved = home;
        self.saved_pen = Pen::reset();
        self.pen = Pen::reset();
        self.modes = Modes {
            insert: false,
            origin: false,
            wrap: true,
            cursor_keys: false,
            keypad: false,
            mouse: false,
        };
        self.top = 0;
        self.bottom = if self.rows > 0 {
            self.rows - 1
        } else {
            0
        };
        self.wrap_pending = false;
    }

    /// Sets or resets the keypad mode.
    fn set_keypad(&mut self, on: bool)
        requires
            old(self).wf(),
        ensures
            final(self).wf(),
            final(self)@ == old(self)@.with_keypad(on),
            final(self).rows == old(self).rows && final(self).cols == old(self).cols,
    {
        proof {
            reveal(Screen::wf);
            reveal(Screen::with_keypad);
        }
        self.modes.keypad = on;
    }

    /// Obeys an escape sequence of one byte.
    pub fn escape(&mut self, byte: u8)
        requires
            old(self).wf(),
        ensures
            final(self).wf(),
            final(self)@ == old(self)@.escaped(byte),
            final(self).rows == old(self).rows && final(self).cols == old(self).cols,
    {
        proof {
            reveal(Screen::escaped);
        }
        if byte == 0x37 {
            self.save();
        } else if byte == 0x38 {
            self.restore();
        } else if byte == 0x44 {
            self.line_feed();
        } else if byte == 0x45 {
            self.next_line();
        } else if byte == 0x4d {
            self.reverse_feed();
        } else if byte == 0x63 {
            self.reset();
        } else if byte == 0x3d {
            self.set_keypad(true);
        } else if byte == 0x3e {
            self.set_keypad(false);
        } else {
            self.ignore();
        }
    }

    /// Puts the cursor at its home.
    fn home(&mut self)
        requires
            old(self).wf(),
        ensures
            final(self).wf(),
            final(self)@ == old(self)@.homed(),
            final(self).rows == old(self).rows && final(self).cols == old(self).cols,
    {
        proof {
            reveal(Screen::wf);
            reveal(Screen::homed);
        }
        self.cursor.row = if self.modes.origin {
            self.top
        } else {
            0
        };
        self.cursor.col = 0;
        self.wrap_pending = false;
    }

    /// Takes the alternate grid into use.
    fn enter_alternate(&mut self)
        requires
            old(self).wf(),
        ensures
            final(self).wf(),
            final(self)@ == old(self)@.entered(),
            final(self).rows == old(self).rows && final(self).cols == old(self).cols,
            final(self).parser.params@ == old(self).parser.params@,
    {
        proof {
            reveal(Screen::wf);
            reveal(Screen::entered);
            reveal(Screen::saving);
        }
        if !self.alternate {
            self.saved = self.cursor;
            self.saved_pen = self.pen;
            core::mem::swap(&mut self.lines, &mut self.other);
            self.lines = Grid::new(self.rows, self.cols);
            self.alternate = true;
            self.wrap_pending = false;
        }
    }

    /// Takes the primary grid into use again.
    fn leave_alternate(&mut self)
        requires
            old(self).wf(),
        ensures
            final(self).wf(),
            final(self)@ == old(self)@.left(),
            final(self).rows == old(self).rows && final(self).cols == old(self).cols,
            final(self).parser.params@ == old(self).parser.params@,
    {
        proof {
            reveal(Screen::wf);
            reveal(Screen::left);
            reveal(Screen::restored);
        }
        if self.alternate {
            core::mem::swap(&mut self.lines, &mut self.other);
            self.alternate = false;
            self.cursor = self.clamp(self.saved);
            self.pen = self.saved_pen;
            self.wrap_pending = false;
        }
    }

    /// Sets or resets the cursor key mode.
    fn set_cursor_keys(&mut self, mode: u16, on: bool)
        requires
            old(self).wf(),
            mode == 1,
        ensures
            final(self).wf(),
            final(self)@ == old(self)@.with_private_mode(mode, on),
            final(self).rows == old(self).rows && final(self).cols == old(self).cols,
            final(self).parser.params@ == old(self).parser.params@,
    {
        proof {
            reveal(Screen::wf);
            reveal(Screen::with_private_mode);
        }
        self.modes.cursor_keys = on;
    }

    /// Sets or resets the wrap mode.
    fn set_wrap(&mut self, mode: u16, on: bool)
        requires
            old(self).wf(),
            mode == 7,
        ensures
            final(self).wf(),
            final(self)@ == old(self)@.with_private_mode(mode, on),
            final(self).rows == old(self).rows && final(self).cols == old(self).cols,
            final(self).parser.params@ == old(self).parser.params@,
    {
        proof {
            reveal(Screen::wf);
            reveal(Screen::with_private_mode);
        }
        self.modes.wrap = on;
    }

    /// Shows or hides the cursor.
    fn set_visible(&mut self, mode: u16, on: bool)
        requires
            old(self).wf(),
            mode == 25,
        ensures
            final(self).wf(),
            final(self)@ == old(self)@.with_private_mode(mode, on),
            final(self).rows == old(self).rows && final(self).cols == old(self).cols,
            final(self).parser.params@ == old(self).parser.params@,
    {
        proof {
            reveal(Screen::wf);
            reveal(Screen::with_private_mode);
        }
        self.cursor.visible = on;
    }

    /// Sets or resets mouse tracking.
    fn set_mouse(&mut self, mode: u16, on: bool)
        requires
            old(self).wf(),
            mode == 1000 || mode == 1002 || mode == 1003 || mode == 1006,
        ensures
            final(self).wf(),
            final(self)@ == old(self)@.with_private_mode(mode, on),
            final(self).rows == old(self).rows && final(self).cols == old(self).cols,
            final(self).parser.params@ == old(self).parser.params@,
    {
        proof {
            reveal(Screen::wf);
            reveal(Screen::with_private_mode);
        }
        self.modes.mouse = on;
    }

    /// Sets or resets the origin mode and puts the cursor at its home.
    fn set_origin(&mut self, on: bool)
        requires
            old(self).wf(),
        ensures
            final(self).wf(),
            final(self)@ == old(self)@.with_private_mode(6, on),
            final(self).rows == old(self).rows && final(self).cols == old(self).cols,
            final(self).parser.params@ == old(self).parser.params@,
    {
        proof {
            reveal(Screen::wf);
            reveal(Screen::with_private_mode);
            reveal(Screen::homed);
        }
        self.modes.origin = on;
        self.cursor.row = if on {
            self.top
        } else {
            0
        };
        self.cursor.col = 0;
        self.wrap_pending = false;
    }

    /// Sets or resets a private mode.
    fn set_private_mode(&mut self, mode: u16, on: bool)
        requires
            old(self).wf(),
        ensures
            final(self).wf(),
            final(self)@ == old(self)@.with_private_mode(mode, on),
            final(self).rows == old(self).rows && final(self).cols == old(self).cols,
            final(self).parser.params@ == old(self).parser.params@,
    {
        if mode == 1 {
            self.set_cursor_keys(mode, on);
        } else if mode == 7 {
            self.set_wrap(mode, on);
        } else if mode == 25 {
            self.set_visible(mode, on);
        } else if mode == 1000 || mode == 1002 || mode == 1003 || mode == 1006 {
            self.set_mouse(mode, on);
        } else if mode == 6 {
            self.set_origin(on);
        } else if mode == 47 || mode == 1047 || mode == 1049 {
            proof {
                reveal(Screen::with_private_mode);
            }
            if on {
                self.enter_alternate();
            } else {
                self.leave_alternate();
            }
        } else {
            proof {
                reveal(Screen::with_private_mode);
            }
            self.ignore();
        }
    }

    /// Sets or resets the insert mode.
    fn set_insert(&mut self, on: bool)
        requires
            old(self).wf(),
        ensures
            final(self).wf(),
            final(self)@ == old(self)@.with_mode(4, on),
            final(self).rows == old(self).rows && final(self).cols == old(self).cols,
            final(self).parser.params@ == old(self).parser.params@,
    {
        proof {
            reveal(Screen::wf);
            reveal(Screen::with_mode);
        }
        self.modes.insert = on;
    }

    /// Sets or resets a mode.
    fn set_mode(&mut self, mode: u16, on: bool)
        requires
            old(self).wf(),
        ensures
            final(self).wf(),
            final(self)@ == old(self)@.with_mode(mode, on),
            final(self).rows == old(self).rows && final(self).cols == old(self).cols,
            final(self).parser.params@ == old(self).parser.params@,
    {
        if mode == 4 {
            self.set_insert(on);
        } else {
            proof {
                reveal(Screen::with_mode);
            }
            self.ignore();
        }
    }

    /// Sets or resets the modes that the parameters name.
    fn set_modes(&mut self, private: bool, on: bool)
        requires
            old(self).wf(),
        ensures
            final(self).wf(),
            final(self)@ == old(self)@.with_modes(old(self).parser.params@, private, on, 0),
            final(self).rows == old(self).rows && final(self).cols == old(self).cols,
    {
        let n = self.parser.params.len();
        let ghost params = self.parser.params@;
        let ghost goal = self@.with_modes(params, private, on, 0);
        let mut i: usize = 0;
        while i < n
            invariant
                i <= n,
                n == params.len(),
                self.wf(),
                self.parser.params@ == params,
                self.rows == old(self).rows && self.cols == old(self).cols,
                goal == self@.with_modes(params, private, on, i as int),
            decreases n - i,
        {
            let mode = self.parser.params[i];
            if private {
                self.set_private_mode(mode, on);
            } else {
                self.set_mode(mode, on);
            }
            i += 1;
        }
    }

    /// Puts the cursor at line `row` and column `col`, counted from 1.
    fn position(&mut self, row: u16, col: u16)
        requires
            old(self).wf(),
        ensures
            final(self).wf(),
            final(self)@ == old(self)@.positioned(row, col),
            final(self).rows == old(self).rows && final(self).cols == old(self).cols,
    {
        proof {
            reveal(Screen::wf);
            reveal(Screen::positioned);
        }
        if self.rows == 0 || self.cols == 0 {
            return ;
        }
        let r: u32 = if row == 0 {
            0
        } else {
            (row - 1) as u32
        };
        let c: u16 = if col == 0 {
            0
        } else {
            col - 1
        };
        let to_col = if c > self.cols - 1 {
            self.cols - 1
        } else {
            c
        };
        let to_row = if self.modes.origin {
            if self.top as u32 + r > self.bottom as u32 {
                self.bottom
            } else {
                (self.top as u32 + r) as u16
            }
        } else {
            if r > (self.rows - 1) as u32 {
                self.rows - 1
            } else {
                r as u16
            }
        };
        self.cursor.row = to_row;
        self.cursor.col = to_col;
        self.wrap_pending = false;
    }

    /// Erases the display from the cursor to the end.
    fn erase_below(&mut self)
        requires
            old(self).wf(),
            old(self)@.solid(),
        ensures
            final(self).wf(),
            final(self)@ == old(self)@.display_erased(0),
            final(self).rows == old(self).rows && final(self).cols == old(self).cols,
    {
        proof {
            reveal(Screen::wf);
            reveal(Screen::display_erased);
        }
        let row = self.cursor.row;
        let col = self.cursor.col;
        self.lines.fill(row, col, self.cols, Cell::blank());
        self.lines.clear(row + 1, self.rows, self.cols);
    }

    /// Erases the display from the start to the cursor.
    fn erase_above(&mut self)
        requires
            old(self).wf(),
            old(self)@.solid(),
        ensures
            final(self).wf(),
            final(self)@ == old(self)@.display_erased(1),
            final(self).rows == old(self).rows && final(self).cols == old(self).cols,
    {
        proof {
            reveal(Screen::wf);
            reveal(Screen::display_erased);
        }
        let row = self.cursor.row;
        let col = self.cursor.col;
        self.lines.clear(0, row, self.cols);
        self.lines.fill(row, 0, col + 1, Cell::blank());
    }

    /// Erases the display.
    fn erase_all(&mut self)
        requires
            old(self).wf(),
            old(self)@.solid(),
        ensures
            final(self).wf(),
            final(self)@ == old(self)@.display_erased(2),
            final(self).rows == old(self).rows && final(self).cols == old(self).cols,
    {
        proof {
            reveal(Screen::wf);
            reveal(Screen::display_erased);
        }
        self.lines.clear(0, self.rows, self.cols);
    }

    /// Erases the display and the scrollback.
    fn erase_history(&mut self)
        requires
            old(self).wf(),
            old(self)@.solid(),
        ensures
            final(self).wf(),
            final(self)@ == old(self)@.display_erased(3),
            final(self).rows == old(self).rows && final(self).cols == old(self).cols,
    {
        proof {
            reveal(Screen::wf);
            reveal(Screen::display_erased);
        }
        self.lines.clear(0, self.rows, self.cols);
        self.scrollback.drop_all();
    }

    /// Erases part of the display.
    fn erase_display(&mut self, part: u16)
        requires
            old(self).wf(),
        ensures
            final(self).wf(),
            final(self)@ == old(self)@.display_erased(part),
            final(self).rows == old(self).rows && final(self).cols == old(self).cols,
    {
        if part > 3 {
            proof {
                reveal(Screen::display_erased);
            }
            self.ignore();
        } else if self.rows == 0 || self.cols == 0 {
            proof {
                reveal(Screen::display_erased);
            }
        } else if part == 0 {
            self.erase_below();
        } else if part == 1 {
            self.erase_above();
        } else if part == 2 {
            self.erase_all();
        } else {
            self.erase_history();
        }
    }

    /// Erases part of the cursor's line.
    fn erase_in_line(&mut self, part: u16)
        requires
            old(self).wf(),
            old(self)@.solid(),
            part <= 2,
        ensures
            final(self).wf(),
            final(self)@ == old(self)@.line_erased(part),
            final(self).rows == old(self).rows && final(self).cols == old(self).cols,
    {
        proof {
            reveal(Screen::wf);
            reveal(Screen::line_erased);
        }
        let row = self.cursor.row;
        let col = self.cursor.col;
        let from = if part == 0 {
            col
        } else {
            0
        };
        let to = if part == 1 {
            col + 1
        } else {
            self.cols
        };
        self.lines.fill(row, from, to, Cell::blank());
    }

    /// Erases part of the cursor's line, if there is such a part.
    fn erase_line(&mut self, part: u16)
        requires
            old(self).wf(),
        ensures
            final(self).wf(),
            final(self)@ == old(self)@.line_erased(part),
            final(self).rows == old(self).rows && final(self).cols == old(self).cols,
    {
        if part > 2 {
            proof {
                reveal(Screen::line_erased);
            }
            self.ignore();
        } else if self.rows == 0 || self.cols == 0 {
            proof {
                reveal(Screen::line_erased);
            }
        } else {
            self.erase_in_line(part);
        }
    }

    /// Sets the scroll region.
    fn set_region(&mut self, first: u16, last: u16)
        requires
            old(self).wf(),
        ensures
            final(self).wf(),
            final(self)@ == old(self)@.with_region(first, last),
            final(self).rows == old(self).rows && final(self).cols == old(self).cols,
    {
        proof {
            reveal(Screen::wf);
            reveal(Screen::with_region);
            reveal(Screen::homed);
        }
        let t = if first == 0 {
            1
        } else {
            first
        };
        let b = if last == 0 {
            self.rows
        } else {
            last
        };
        if t < b && b <= self.rows {
            self.top = t - 1;
            self.bottom = b - 1;
            self.cursor.row = if self.modes.origin {
                self.top
            } else {
                0
            };
            self.cursor.col = 0;
            self.wrap_pending = false;
        }
    }

    /// Moves the cursor by `rows` lines and `cols` columns, as far as the
    /// grid goes.
    fn shift(&mut self, rows: i32, cols: i32)
        requires
            old(self).wf(),
            -0x10000 < rows < 0x10000,
            -0x10000 < cols < 0x10000,
        ensures
            final(self).wf(),
            final(self)@ == old(self)@.shifted(rows as int, cols as int),
            final(self).rows == old(self).rows && final(self).cols == old(self).cols,
    {
        proof {
            reveal(Screen::wf);
            reveal(Screen::shifted);
        }
        if self.rows == 0 || self.cols == 0 {
            return ;
        }
        let r: i32 = self.cursor.row as i32 + rows;
        let c: i32 = self.cursor.col as i32 + cols;
        let to_row: u16 = if r < 0 {
            0
        } else if r > (self.rows - 1) as i32 {
            self.rows - 1
        } else {
            r as u16
        };
        let to_col: u16 = if c < 0 {
            0
        } else if c > (self.cols - 1) as i32 {
            self.cols - 1
        } else {
            c as u16
        };
        self.cursor.row = to_row;
        self.cursor.col = to_col;
        self.wrap_pending = false;
    }

    /// Takes the pen that the parameters of a graphic rendition leave.
    fn take_rendition(&mut self)
        requires
            old(self).wf(),
        ensures
            final(self).wf(),
            final(self)@ == old(self)@.rendered(),
            final(self).rows == old(self).rows && final(self).cols == old(self).cols,
    {
        proof {
            reveal(Screen::wf);
            reveal(Screen::rendered);
        }
        self.pen = select_rendition(self.pen, &self.parser.params);
    }

    /// Obeys a control sequence with the final byte `byte` and the
    /// parameters that the parser holds.
    pub fn sequence(&mut self, byte: u8)
        requires
            old(self).wf(),
        ensures
            final(self).wf(),
            final(self)@ == old(self)@.sequenced(byte),
            final(self).rows == old(self).rows && final(self).cols == old(self).cols,
    {
        proof {
            reveal(Screen::sequenced);
        }
        let p0 = self.parser.param(0);
        let p1 = self.parser.param(1);
        let n: i32 = if p0 == 0 {
            1
        } else {
            p0 as i32
        };
        if byte == 0x68 || byte == 0x6c {
            let private = self.parser.private;
            self.set_modes(private, byte == 0x68);
        } else if self.parser.private {
            self.ignore();
        } else if byte == 0x41 {
            self.shift(-n, 0);
        } else if byte == 0x42 {
            self.shift(n, 0);
        } else if byte == 0x43 {
            self.shift(0, n);
        } else if byte == 0x44 {
            self.shift(0, -n);
        } else if byte == 0x48 || byte == 0x66 {
            self.position(p0, p1);
        } else if byte == 0x4a {
            self.erase_display(p0);
        } else if byte == 0x4b {
            self.erase_line(p0);
        } else if byte == 0x6d {
            self.take_rendition();
        } else if byte == 0x72 {
            self.set_region(p0, p1);
        } else if byte == 0x73 {
            self.save();
        } else if byte == 0x75 {
            self.restore();
        } else {
            self.ignore();
        }
    }

    /// Takes the title from the text that the parser holds.
    fn take_title(&mut self)
        requires
            old(self).wf(),
            old(self).parser.text@.len() >= 2,
        ensures
            final(self).wf(),
            final(self)@ == (Screen { title: old(self).parser.text@.skip(2), ..old(self)@ }),
            final(self).rows == old(self).rows && final(self).cols == old(self).cols,
    {
        proof {
            reveal(Screen::wf);
        }
        self.title = bytes_from(&self.parser.text, 2);
    }

    /// Obeys an operating system command with the text that the parser holds.
    pub fn command(&mut self)
        requires
            old(self).wf(),
        ensures
            final(self).wf(),
            final(self)@ == old(self)@.commanded(),
            final(self).rows == old(self).rows && final(self).cols == old(self).cols,
    {
        proof {
            reveal(Screen::commanded);
        }
        let n = self.parser.text.len();
        if n >= 2 && (self.parser.text[0] == 0x30 || self.parser.text[0] == 0x32)
            && self.parser.text[1] == 0x3b {
            self.take_title();
        } else {
            self.ignore();
        }
    }

    /// Lets the parser take the next byte of the stream.
    fn parse(&mut self, byte: u8) -> (event: Event)
        requires
            old(self).wf(),
        ensures
            final(self).wf(),
            final(self)@ == (Screen { parser: old(self)@.parser.advance(byte).0, ..old(self)@ }),
            event == old(self)@.parser.advance(byte).1,
            final(self).rows == old(self).rows && final(self).cols == old(self).cols,
    {
        proof {
            reveal(Screen::wf);
        }
        self.parser.advance(byte)
    }

    /// Takes the next byte of the stream.
    pub fn step(&mut self, byte: u8)
        requires
            old(self).wf(),
        ensures
            final(self).wf(),
            final(self)@ == old(self)@.step(byte),
            final(self).rows == old(self).rows && final(self).cols == old(self).cols,
    {
        match self.parse(byte) {
            Event::Nothing => {},
            Event::Print(ch) => self.print(ch),
            Event::Control(b) => self.control(b),
            Event::Escape(b) => self.escape(b),
            Event::Csi(b) => self.sequence(b),
            Event::Osc => self.command(),
        }
    }

    /// Puts the cursor at line `row` and column `col`, counted from 0.
    pub fn place_cursor(&mut self, row: u16, col: u16)
        requires
            old(self).wf(),
        ensures
            final(self).wf(),
            final(self)@ == old(self)@.placed(row, col),
            final(self).rows == old(self).rows && final(self).cols == old(self).cols,
    {
        proof {
            reveal(Screen::wf);
            reveal(Screen::placed);
        }
        if self.rows == 0 || self.cols == 0 {
            return ;
        }
        self.cursor.row = if row > self.rows - 1 {
            self.rows - 1
        } else {
            row
        };
        self.cursor.col = if col > self.cols - 1 {
            self.cols - 1
        } else {
            col
        };
        self.wrap_pending = false;
    }

    /// Takes another pen.
    pub fn set_pen(&mut self, pen: Pen)
        requires
            old(self).wf(),
        ensures
            final(self).wf(),
            final(self)@ == old(self)@.inked(pen),
            final(self).rows == old(self).rows && final(self).cols == old(self).cols,
    {
        proof {
            reveal(Screen::wf);
            reveal(Screen::inked);
        }
        self.pen = pen;
    }

    /// Draws `text` with the pen `pen`, starting at line `row` and column
    /// `col`, both counted from 0.
    pub fn draw_text(&mut self, row: u16, col: u16, text: &[u8], pen: Pen)
        requires
            old(self).wf(),
        ensures
            final(self).wf(),
            final(self)@ == old(self)@.text_drawn(row, col, text@, pen),
            final(self)@.rows == old(self)@.rows,
            final(self)@.cols == old(self)@.cols,
    {
        self.set_pen(pen);
        self.place_cursor(row, col);
        self.feed(text);
    }

    /// Takes the next bytes of the stream, in order.
    pub fn feed(&mut self, bytes: &[u8])
        requires
            old(self).wf(),
        ensures
            final(self).wf(),
            final(self)@ == old(self)@.feed(bytes@),
            final(self)@.rows == old(self)@.rows,
            final(self)@.cols == old(self)@.cols,
    {
        let n = bytes.len();
        let mut i: usize = 0;
        while i < n
            invariant
                i <= n,
                n == bytes@.len(),
                self.wf(),
                self.rows == old(self).rows && self.cols == old(self).cols,
                self@ == old(self)@.feed(bytes@.take(i as int)),
            decreases n - i,
        {
            self.step(bytes[i]);
            proof {
                assert(bytes@.take(i + 1).drop_last() =~= bytes@.take(i as int));
            }
            i += 1;
        }
        proof {
            assert(bytes@.take(n as int) =~= bytes@);
        }
    }

    /// Whether the bell has rung since the last frame.
    pub fn rang(&self) -> (b: bool)
        ensures
            b == self@.bell,
    {
        self.bell
    }

    /// Takes a frame: every line of the grid that differs from what the last
    /// frame showed, with its index and its cells.
    pub fn render_changed_lines(&mut self) -> (frame: Vec<ChangedLine>)
        requires
            old(self).wf(),
        ensures
            final(self).wf(),
            lines_of(frame@) == old(self)@.frame(),
            final(self)@ == old(self)@.framed(),
            final(self)@.rows == old(self)@.rows,
            final(self)@.cols == old(self)@.cols,
            forall|k: int|
                0 <= k < frame@.len() ==> (#[trigger] frame@[k]).row < old(self)@.rows
                    && frame@[k].cells@.len() == old(self)@.cols,
    {
        proof {
            reveal(Screen::wf);
        }
        let frame = take_changes(&self.lines, &mut self.shown, self.rows);
        self.bell = false;
        frame
    }
}

/// The bytes of `text` from the one at `from` on.
pub fn bytes_from(text: &Vec<u8>, from: usize) -> (out: Vec<u8>)
    requires
        from <= text@.len(),
    ensures
        out@ == text@.skip(from as int),
{
    let n = text.len();
    let mut out: Vec<u8> = Vec::new();
    let mut i: usize = from;
    while i < n
        invariant
            from <= i <= n,
            n == text@.len(),
            out@ == text@.subrange(from as int, i as int),
        decreases n - i,
    {
        out.push(text[i]);
        assert(out@ =~= text@.subrange(from as int, i + 1));
        i += 1;
    }
    assert(out@ =~= text@.skip(from as int));
    out
}

/// Collects the lines of `lines` that differ from those of `shown`, and
/// makes `shown` hold what `lines` holds.
pub fn take_changes(lines: &Grid, shown: &mut Grid, rows: u16) -> (frame: Vec<ChangedLine>)
    requires
        lines@.len() == rows,
        old(shown)@.len() == rows,
    ensures
        lines_of(frame@) == changes(lines@, old(shown)@, rows as int),
        final(shown)@ == lines@,
        forall|k: int|
            0 <= k < frame@.len() ==> (#[trigger] frame@[k]).row < rows && frame@[k].cells@
                == lines@[frame@[k].row as int],
{
    let mut frame: Vec<ChangedLine> = Vec::new();
    let mut r: u16 = 0;
    while r < rows
        invariant
            r <= rows,
            lines@.len() == rows,
            shown@.len() == rows,
            forall|k: int| 0 <= k < r ==> shown@[k] == lines@[k],
            forall|k: int| r <= k < rows ==> shown@[k] == old(shown)@[k],
            lines_of(frame@) == changes(lines@, old(shown)@, r as int),
            forall|k: int|
                0 <= k < frame@.len() ==> (#[trigger] frame@[k]).row < r && frame@[k].cells@
                    == lines@[frame@[k].row as int],
        decreases rows - r,
    {
        let same = crate::grid::same_line(&lines.lines[r as usize], &shown.lines[r as usize]);
        assert(same == (lines@[r as int] == old(shown)@[r as int]));
        if !same {
            let cells = crate::grid::copy_line(&lines.lines[r as usize]);
            let copy = crate::grid::copy_line(&lines.lines[r as usize]);
            shown.set_line(r, copy);
            frame.push(ChangedLine { row: r, cells });
            assert(lines_of(frame@) =~= changes(lines@, old(shown)@, r + 1));
        }
        r += 1;
    }
    assert(shown@ =~= lines@);
    frame
}

/// Bytes fed in two parts leave the screen that the same bytes leave when
/// fed at once.
pub proof fn lemma_feed_concat(s: Screen, first: Seq<u8>, second: Seq<u8>)
    ensures
        s.feed(first).feed(second) == s.feed(first + second),
    decreases second.len(),
{
    if second.len() == 0 {
        assert(first + second =~= first);
    } else {
        assert((first + second).drop_last() =~= first + second.drop_last());
        assert((first + second).last() == second.last());
        lemma_feed_concat(s, first, second.drop_last());
    }
}

/// The bytes of `chunks`, one chunk after the other.
pub open spec fn joined(chunks: Seq<Seq<u8>>) -> Seq<u8>
    decreases chunks.len(),
{
    if chunks.len() == 0 {
        Seq::empty()
    } else {
        joined(chunks.drop_last()) + chunks.last()
    }
}

impl Screen {
    /// The screen after the chunks of bytes `chunks`, one after the other.
    pub open spec fn feed_each(self, chunks: Seq<Seq<u8>>) -> Screen
        decreases chunks.len(),
    {
        if chunks.len() == 0 {
            self
        } else {
            self.feed_each(chunks.drop_last()).feed(chunks.last())
        }
    }
}

/// However a stream of bytes is cut into chunks that are fed one after the
/// other, the screen ends up as if the whole stream had been fed at once, and
/// with it the frame that is rendered next.
pub proof fn lemma_chunks_as_one(s: Screen, chunks: Seq<Seq<u8>>)
    ensures
        s.feed_each(chunks) == s.feed(joined(chunks)),
        s.feed_each(chunks).frame() == s.feed(joined(chunks)).frame(),
    decreases chunks.len(),
{
    if chunks.len() > 0 {
        lemma_chunks_as_one(s, chunks.drop_last());
        lemma_feed_concat(s, joined(chunks.drop_last()), chunks.last());
    }
}

} // verus!
