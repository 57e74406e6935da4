//! The cells of a terminal grid and how they are styled.

use vstd::prelude::*;

verus! {

/// A colour of a cell.
#[derive(Clone, Copy, Debug, PartialEq, Eq, Structural)]
pub enum Color {
    /// The terminal's default colour.
    Default,
    /// One of the 256 indexed colours.
    Indexed(u8),
    /// A colour given by its red, green and blue parts.
    Rgb(u8, u8, u8),
}

/// The attributes of a cell besides its colours.
#[derive(Clone, Copy, Debug, PartialEq, Eq, Structural)]
pub struct Attrs {
    pub bold: bool,
    pub dim: bool,
    pub italic: bool,
    pub underline: bool,
    pub blink: bool,
    pub reverse: bool,
    pub hidden: bool,
    pub strike: bool,
}

/// The colours and attributes that the next printed character gets.
#[derive(Clone, Copy, Debug, PartialEq, Eq, Structural)]
pub struct Pen {
    pub fg: Color,
    pub bg: Color,
    pub attrs: Attrs,
}

/// A cell of the grid.
#[derive(Clone, Copy, Debug, PartialEq, Eq, Structural)]
pub struct Cell {
    pub ch: char,
    pub fg: Color,
    pub bg: Color,
    pub attrs: Attrs,
}

impl Attrs {
    /// No attribute set.
    pub open spec fn plain() -> Attrs {
        Attrs {
            bold: false,
            dim: false,
            italic: false,
            underline: false,
            blink: false,
            reverse: false,
            hidden: false,
            strike: false,
        }
    }

    /// No attribute set.
    pub fn none() -> (a: Attrs)
        ensures
            a == Attrs::plain(),
    {
        Attrs {
            bold: false,
            dim: false,
            italic: false,
            underline: false,
            blink: false,
            reverse: false,
            hidden: false,
            strike: false,
        }
    }
}

impl Pen {
    /// Default colours, no attribute.
    pub open spec fn plain() -> Pen {
        Pen { fg: Color::Default, bg: Color::Default, attrs: Attrs::plain() }
    }

    /// Default colours, no attribute.
    pub fn reset() -> (p: Pen)
        ensures
            p == Pen::plain(),
    {
        Pen { fg: Color::Default, bg: Color::Default, attrs: Attrs::none() }
    }
}

impl Cell {
    /// A space in default colours.
    pub open spec fn empty() -> Cell {
        Cell { ch: ' ', fg: Color::Default, bg: Color::Default, attrs: Attrs::plain() }
    }

    /// The character `ch` as the pen draws it.
    pub open spec fn drawn(ch: char, pen: Pen) -> Cell {
        Cell { ch, fg: pen.fg, bg: pen.bg, attrs: pen.attrs }
    }

    /// A space in default colours.
    pub fn blank() -> (c: Cell)
        ensures
            c == Cell::empty(),
    {
        Cell { ch: ' ', fg: Color::Default, bg: Color::Default, attrs: Attrs::none() }
    }

    /// The character `ch` as the pen draws it.
    pub fn draw(ch: char, pen: Pen) -> (c: Cell)
        ensures
            c == Cell::drawn(ch, pen),
    {
        Cell { ch, fg: pen.fg, bg: pen.bg, attrs: pen.attrs }
    }
}

} // verus!
