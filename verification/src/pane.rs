//! Panes: an emulator or a plugin's drawing bound to a rectangle.

use vstd::prelude::*;
use crate::cell::Pen;
use crate::emulator::{Emulator, Screen};
use crate::geometry::Rect;
use crate::ids::PaneId;
use crate::plugin::Plugin;

verus! {

/// What produces the content of a pane.
#[derive(Clone, Copy, Debug, PartialEq, Eq, Structural)]
pub enum PaneKind {
    /// A child process behind a pseudo-terminal.
    Terminal,
    /// A plugin instance that draws the pane.
    Plugin { plugin: Plugin },
}

/// The size that the pseudo-terminal of a pane has to be told.
#[derive(Clone, Copy, Debug, PartialEq, Eq, Structural)]
pub struct WindowSize {
    pub pane: PaneId,
    pub rows: u16,
    pub cols: u16,
}

/// Text to draw into a pane: the line and the column where it starts,
/// counted from 0 within the pane, its bytes and its pen.
#[derive(Debug, PartialEq, Eq)]
pub struct DrawnText {
    pub row: u16,
    pub col: u16,
    pub bytes: Vec<u8>,
    pub pen: Pen,
}

/// A pane of a tab.
pub struct Pane {
    pub id: PaneId,
    pub kind: PaneKind,
    pub rect: Rect,
    /// Whether the pane can take the focus.
    pub selectable: bool,
    pub screen: Emulator,
}

impl Pane {
    /// The grid of the pane has the size of its rectangle.
    pub open spec fn fits(&self) -> bool {
        &&& self.screen.wf()
        &&& self.screen@.rows == self.rect.rows
        &&& self.screen@.cols == self.rect.cols
    }

    /// The pane is `before` moved to `rect`, its grid resized to match.
    pub open spec fn moved_from(&self, before: Pane, rect: Rect) -> bool {
        &&& self.id == before.id
        &&& self.kind == before.kind
        &&& self.selectable == before.selectable
        &&& self.rect == rect
        &&& self.screen.wf()
        &&& self.screen@ == before.screen@.resized(rect.rows as nat, rect.cols as nat)
    }

    /// The pane is a new one: it can take the focus and has seen no byte.
    pub open spec fn is_new(&self, id: PaneId, kind: PaneKind, rect: Rect) -> bool {
        &&& self.id == id
        &&& self.kind == kind
        &&& self.selectable
        &&& self.rect == rect
        &&& self.screen.wf()
        &&& self.screen@ == Screen::fresh(rect.rows as nat, rect.cols as nat)
    }

    /// The window size of the pane.
    pub open spec fn window(&self) -> WindowSize {
        WindowSize { pane: self.id, rows: self.rect.rows, cols: self.rect.cols }
    }

    /// A new pane in `rect`.
    pub fn new(id: PaneId, kind: PaneKind, rect: Rect) -> (pane: Pane)
        ensures
            pane.is_new(id, kind, rect),
            pane.fits(),
    {
        Pane { id, kind, rect, selectable: true, screen: Emulator::new(rect.rows, rect.cols) }
    }

    /// Moves the pane to `rect` and resizes its grid to match.
    pub fn place(&mut self, rect: Rect)
        requires
            old(self).screen.wf(),
        ensures
            final(self).moved_from(*old(self), rect),
            final(self).fits(),
    {
        self.rect = rect;
        self.screen.resize(rect.rows, rect.cols);
    }

    /// The pane is `before` after its emulator has taken `bytes`.
    pub open spec fn fed_from(&self, before: Pane, bytes: Seq<u8>) -> bool {
        &&& self.id == before.id
        &&& self.kind == before.kind
        &&& self.selectable == before.selectable
        &&& self.rect == before.rect
        &&& self.screen.wf()
        &&& self.screen@ == before.screen@.feed(bytes)
    }

    /// Passes the next bytes of the child's output to the emulator.
    pub fn feed(&mut self, bytes: &[u8])
        requires
            old(self).fits(),
        ensures
            final(self).fits(),
            final(self).fed_from(*old(self), bytes@),
    {
        self.screen.feed(bytes);
    }

    /// The pane is `before` after `text` has been drawn into it.
    pub open spec fn drawn_from(&self, before: Pane, text: DrawnText) -> bool {
        &&& self.id == before.id
        &&& self.kind == before.kind
        &&& self.selectable == before.selectable
        &&& self.rect == before.rect
        &&& self.screen.wf()
        &&& self.screen@ == before.screen@.text_drawn(text.row, text.col, text.bytes@, text.pen)
    }

    /// Draws text into the pane.
    pub fn draw(&mut self, text: &DrawnText)
        requires
            old(self).fits(),
        ensures
            final(self).fits(),
            final(self).drawn_from(*old(self), *text),
    {
        self.screen.draw_text(text.row, text.col, text.bytes.as_slice(), text.pen);
    }

    /// The pane is `before` with another kind.
    pub open spec fn recast_from(&self, before: Pane, kind: PaneKind) -> bool {
        *self == (Pane { kind, ..before })
    }

    /// The pane is `before` after a frame has been taken of it.
    pub open spec fn framed_from(&self, before: Pane) -> bool {
        &&& self.id == before.id
        &&& self.kind == before.kind
        &&& self.selectable == before.selectable
        &&& self.rect == before.rect
        &&& self.screen.wf()
        &&& self.screen@ == before.screen@.framed()
    }

    /// Whether the pane hosts a child process.
    pub fn is_terminal(&self) -> (b: bool)
        ensures
            b == (self.kind is Terminal),
    {
        match self.kind {
            PaneKind::Terminal => true,
            PaneKind::Plugin { .. } => false,
        }
    }
}

/// The window sizes to tell the pseudo-terminals when the panes `before`
/// have become the panes `after`: one for each terminal pane whose size has
/// changed, or, where `every` is set, one for each terminal pane.
pub open spec fn window_updates(before: Seq<Pane>, after: Seq<Pane>, every: bool) -> Seq<WindowSize>
    decreases after.len(),
{
    if after.len() == 0 {
        Seq::empty()
    } else {
        let rest = window_updates(before.drop_last(), after.drop_last(), every);
        let was = before.last().rect;
        let now = after.last();
        if now.kind is Terminal && (every || was.rows != now.rect.rows || was.cols != now.rect.cols) {
            rest.push(now.window())
        } else {
            rest
        }
    }
}

/// Moves each pane to its rectangle, the grids resized to match, and
/// collects the window sizes to pass on.
pub fn place_all(panes: &mut Vec<Pane>, rects: &Vec<Rect>, every: bool) -> (updates: Vec<WindowSize>)
    requires
        old(panes)@.len() == rects@.len(),
        forall|i: int| 0 <= i < old(panes)@.len() ==> (#[trigger] old(panes)@[i]).screen.wf(),
    ensures
        final(panes)@.len() == old(panes)@.len(),
        forall|i: int|
            0 <= i < final(panes)@.len() ==> (#[trigger] final(panes)@[i]).moved_from(
                old(panes)@[i],
                rects@[i],
            ),
        forall|i: int| 0 <= i < final(panes)@.len() ==> (#[trigger] final(panes)@[i]).fits(),
        updates@ == window_updates(old(panes)@, final(panes)@, every),
{
    let mut updates: Vec<WindowSize> = Vec::new();
    let n = panes.len();
    let mut i: usize = 0;
    while i < n
        invariant
            i <= n,
            n == panes@.len(),
            n == old(panes)@.len(),
            n == rects@.len(),
            forall|j: int| 0 <= j < i ==> (#[trigger] panes@[j]).moved_from(old(panes)@[j], rects@[j]),
            forall|j: int| 0 <= j < i ==> (#[trigger] panes@[j]).fits(),
            forall|j: int| i <= j < n ==> panes@[j] == old(panes)@[j],
            forall|j: int| 0 <= j < n ==> (#[trigger] old(panes)@[j]).screen.wf(),
            updates@ == window_updates(old(panes)@.take(i as int), panes@.take(i as int), every),
        decreases n - i,
    {
        let ghost prev = panes@;
        let was = panes[i].rect;
        let rect = rects[i];
        panes[i].place(rect);
        let changed = was.rows != rect.rows || was.cols != rect.cols;
        if panes[i].is_terminal() && (every || changed) {
            updates.push(WindowSize { pane: panes[i].id, rows: rect.rows, cols: rect.cols });
        }
        proof {
            let next = i + 1;
            assert(panes@.take(i as int) =~= prev.take(i as int));
            assert(old(panes)@.take(next).drop_last() =~= old(panes)@.take(i as int));
            assert(panes@.take(next).drop_last() =~= panes@.take(i as int));
            assert(panes@.take(next).last() == panes@[i as int]);
            assert(old(panes)@.take(next).last() == old(panes)@[i as int]);
        }
        i += 1;
    }
    proof {
        assert(old(panes)@.take(n as int) =~= old(panes)@);
        assert(panes@.take(n as int) =~= panes@);
    }
    updates
}

/// Where every terminal pane is to be told its size, each one's window size
/// is among the updates.
pub proof fn lemma_every_terminal_updated(before: Seq<Pane>, after: Seq<Pane>, i: int)
    requires
        0 <= i < after.len(),
        after[i].kind is Terminal,
    ensures
        window_updates(before, after, true).contains(after[i].window()),
    decreases after.len(),
{
    let rest = window_updates(before.drop_last(), after.drop_last(), true);
    if i == after.len() - 1 {
        assert(rest.push(after[i].window())[rest.len() as int] == after[i].window());
    } else {
        lemma_every_terminal_updated(before.drop_last(), after.drop_last(), i);
        let k = choose|k: int| 0 <= k < rest.len() && rest[k] == after[i].window();
        if after.last().kind is Terminal {
            assert(rest.push(after.last().window())[k] == after[i].window());
        }
    }
}

} // verus!
