//! The session: the tabs of a host, the focus among them, the size of the
//! terminal and the identifiers yet to hand out.

use vstd::prelude::*;
use crate::geometry::{Direction, Rect, SplitDirection};
use crate::ids::{PaneId, TabId};
use crate::frame::{any_bell, tab_cells, FrameCell};
use crate::ids::PluginId;
use crate::pane::{DrawnText, Pane, PaneKind, WindowSize};
use crate::plugin::EventKind;
use crate::layout::LayoutNode;
use crate::tab::{LayoutError, Tab};
use crate::template::run_of_ids;

verus! {

/// Cells by which one resize instruction moves a boundary.
pub const RESIZE_STEP: i32 = 5;

/// Why the session refused an operation. A refused operation changes nothing.
#[derive(Clone, Copy, Debug, PartialEq, Eq, Structural)]
pub enum SessionError {
    /// The layout of the focused tab refused it.
    Layout(LayoutError),
    /// Every identifier has been handed out.
    IdsExhausted,
    /// A ratio of the layout does not lie strictly between zero and one.
    InvalidLayout,
}

/// The session of a host.
pub struct Session {
    /// The tabs, in the order of their creation.
    pub tabs: Vec<Tab>,
    /// The place of the focused tab among `tabs`.
    pub active: usize,
    /// The size of the terminal.
    pub rows: u16,
    pub cols: u16,
    /// The identifier of the next pane to be made.
    pub next_pane: u64,
    /// The identifier of the next tab to be made.
    pub next_tab: u64,
}

/// A session as a mathematical value.
pub struct SessionView {
    pub tabs: Seq<Tab>,
    pub active: usize,
    pub rows: u16,
    pub cols: u16,
    pub next_pane: u64,
    pub next_tab: u64,
}

impl View for Session {
    type V = SessionView;

    open spec fn view(&self) -> SessionView {
        SessionView {
            tabs: self.tabs@,
            active: self.active,
            rows: self.rows,
            cols: self.cols,
            next_pane: self.next_pane,
            next_tab: self.next_tab,
        }
    }
}

impl Session {
    /// The rectangle of the terminal, which every tab fills.
    pub open spec fn area(&self) -> Rect {
        Rect { row: 0, col: 0, rows: self.rows, cols: self.cols }
    }

    /// The invariant of a session: it has a tab, and one of its tabs has the
    /// focus; every tab is well formed and fills the terminal; tab
    /// identifiers grow along the tabs; no pane is in two tabs; and every
    /// identifier in use lies below the next one to hand out.
    pub open spec fn wf(&self) -> bool {
        &&& self.active < self.tabs@.len()
        &&& forall|t: int|
            0 <= t < self.tabs@.len() ==> (#[trigger] self.tabs@[t]).wf() && self.tabs@[t].area
                == self.area()
        &&& forall|t: int| 0 <= t < self.tabs@.len() ==> (#[trigger] self.tabs@[t]).id.0 < self.next_tab
        &&& forall|s: int, t: int|
            0 <= s < t < self.tabs@.len() ==> (#[trigger] self.tabs@[s]).id.0 < (
            #[trigger] self.tabs@[t]).id.0
        &&& forall|t: int, p: PaneId|
            0 <= t < self.tabs@.len() && (#[trigger] self.tabs@[t].has(p)) ==> p.0 < self.next_pane
        &&& forall|s: int, t: int, p: PaneId|
            0 <= s < self.tabs@.len() && 0 <= t < self.tabs@.len() && s != t
                && #[trigger] self.tabs@[s].has(p) ==> !#[trigger] self.tabs@[t].has(p)
    }

    /// Whether some tab has the pane.
    pub open spec fn has_pane(&self, pane: PaneId) -> bool {
        exists|t: int| 0 <= t < self.tabs@.len() && #[trigger] self.tabs@[t].has(pane)
    }

    /// The place of the tab that has `pane`.
    pub open spec fn tab_of(&self, pane: PaneId) -> int {
        choose|t: int| 0 <= t < self.tabs@.len() && #[trigger] self.tabs@[t].has(pane)
    }

    /// The focused tab.
    pub open spec fn active_tab(&self) -> Tab {
        self.tabs@[self.active as int]
    }

    /// A session of one tab with the layout `tree`, whose panes are numbered
    /// from 0 on, in a terminal of `rows` by `cols` cells. The panes are new
    /// and of the kinds `kinds`, in layout order; the first one has the
    /// focus. The tab gets the identifier 0.
    pub(crate) fn with_layout(rows: u16, cols: u16, name: String, tree: LayoutNode, kinds: Vec<PaneKind>) -> (session:
        Session)
        requires
            kinds@.len() >= 1,
            kinds@.len() <= u64::MAX,
            tree.ratios_ok(),
            tree.leaves() == run_of_ids(0, kinds@.len()),
        ensures
            session.wf(),
            session@ == (SessionView {
                tabs: seq![session.tabs@[0]],
                active: 0,
                rows,
                cols,
                next_pane: kinds@.len() as u64,
                next_tab: 1,
            }),
            session.tabs@[0].id == TabId(0),
            session.tabs@[0].name == name,
            session.tabs@[0].area == session.area(),
            session.tabs@[0].tree == tree,
            session.tabs@[0].focused == PaneId(0),
            session.tabs@[0].panes@.len() == kinds@.len(),
            forall|i: int|
                0 <= i < kinds@.len() ==> (#[trigger] session.tabs@[0].panes@[i]).is_new(
                    PaneId(i as u64),
                    kinds@[i],
                    tree.rects(session.area())[i],
                ),
    {
        let made = kinds.len();
        let ghost ids = tree.leaves();
        proof {
            assert forall|i: int, j: int| 0 <= i < ids.len() && 0 <= j < ids.len() && i != j implies ids[i]
                != ids[j] by {}
        }
        let tab = Tab::assemble(TabId(0), name, Rect::sized(rows, cols), tree, kinds);
        proof {
            assert forall|p: PaneId| #[trigger] tab.has(p) implies p.0 < made by {
                let k = choose|k: int| 0 <= k < tab.pane_ids().len() && tab.pane_ids()[k] == p;
                assert(tab.pane_ids()[k] == ids[k]);
            }
            assert forall|i: int| 0 <= i < made implies (#[trigger] tab.panes@[i]).is_new(
                PaneId(i as u64),
                kinds@[i],
                tree.rects(Rect { row: 0, col: 0, rows, cols })[i],
            ) by {
                assert(ids[i] == PaneId(i as u64));
            }
        }
        let mut tabs: Vec<Tab> = Vec::new();
        tabs.push(tab);
        let session = Session { tabs, active: 0, rows, cols, next_pane: made as u64, next_tab: 1 };
        assert(session.tabs@ =~= seq![session.tabs@[0]]);
        session
    }

    /// A session of one tab with one terminal pane, in a terminal of `rows`
    /// by `cols` cells. The tab and the pane get the identifier 0.
    pub fn new(rows: u16, cols: u16, name: String) -> (session: Session)
        ensures
            session.wf(),
            session.rows == rows,
            session.cols == cols,
            session.active == 0,
            session.next_pane == 1,
            session.next_tab == 1,
            session.tabs@.len() == 1,
            session.tabs@[0].id == TabId(0),
            session.tabs@[0].name == name,
            session.tabs@[0].tree == (crate::layout::LayoutNode::Leaf { pane: PaneId(0) }),
            session.tabs@[0].focused == PaneId(0),
            session.tabs@[0].panes@.len() == 1,
            session.tabs@[0].panes@[0].is_new(PaneId(0), PaneKind::Terminal, session.area()),
    {
        let tab = Tab::new(TabId(0), name, Rect::sized(rows, cols), PaneId(0), PaneKind::Terminal);
        let mut tabs: Vec<Tab> = Vec::new();
        proof {
            assert forall|p: PaneId| #[trigger] tab.has(p) implies p == PaneId(0) by {
                let k = choose|k: int| 0 <= k < tab.pane_ids().len() && tab.pane_ids()[k] == p;
                assert(tab.pane_ids()[k] == tab.panes@[k].id);
            }
        }
        tabs.push(tab);
        Session { tabs, active: 0, rows, cols, next_pane: 1, next_tab: 1 }
    }

    /// Finds the tab that has `pane`.
    pub fn locate(&self, pane: PaneId) -> (found: Option<usize>)
        requires
            self.wf(),
        ensures
            found is Some <==> self.has_pane(pane),
            found matches Some(t) ==> t < self.tabs@.len() && self.tabs@[t as int].has(pane) && t
                == self.tab_of(pane),
    {
        let n = self.tabs.len();
        let mut t: usize = 0;
        while t < n
            invariant
                t <= n,
                n == self.tabs@.len(),
                self.wf(),
                forall|s: int| 0 <= s < t ==> !#[trigger] self.tabs@[s].has(pane),
            decreases n - t,
        {
            if self.tabs[t].find(pane).is_some() {
                proof {
                    let u = self.tab_of(pane);
                    assert(self.tabs@[t as int].has(pane));
                    assert(self.tabs@[u].has(pane));
                }
                return Some(t);
            }
            t += 1;
        }
        None
    }

    /// Splits the focused pane of the focused tab evenly in `direction`. The
    /// new pane, of kind `kind`, gets the next pane identifier; it takes the
    /// right or lower half and the focus.
    ///
    /// Returns the new pane's identifier and the window sizes to pass on.
    pub fn split_focused(&mut self, direction: SplitDirection, kind: PaneKind) -> (out: Result<
        (PaneId, Vec<WindowSize>),
        SessionError,
    >)
        requires
            old(self).wf(),
        ensures
            final(self).wf(),
            match out {
                Err(e) => {
                    &&& final(self)@ == old(self)@
                    &&& e == if old(self).next_pane == u64::MAX {
                        SessionError::IdsExhausted
                    } else {
                        SessionError::Layout(LayoutError::ResizeTooSmall)
                    }
                    &&& old(self).next_pane == u64::MAX || old(self).active_tab().split_error(
                        old(self).active_tab().focused,
                        direction,
                        PaneId(old(self).next_pane),
                    ) == Some(LayoutError::ResizeTooSmall)
                },
                Ok((new, updates)) => {
                    let tab = old(self).active_tab();
                    &&& old(self).next_pane < u64::MAX
                    &&& new == PaneId(old(self).next_pane)
                    &&& final(self)@ == (SessionView {
                        tabs: old(self)@.tabs.update(old(self).active as int, final(self).active_tab()),
                        next_pane: (old(self).next_pane + 1) as u64,
                        ..old(self)@
                    })
                    &&& tab.split_error(tab.focused, direction, new) is None
                    &&& final(self).active_tab().split_of(tab, tab.focused, direction, new, kind)
                    &&& updates@ == if tab.panes@[tab.index_of(tab.focused)].kind is Terminal {
                        seq![final(self).active_tab().panes@[tab.index_of(tab.focused)].window()]
                    } else {
                        Seq::<WindowSize>::empty()
                    }
                },
            },
    {
        if self.next_pane == u64::MAX {
            return Err(SessionError::IdsExhausted);
        }
        let new = PaneId(self.next_pane);
        let a = self.active;
        let focused = self.tabs[a].focused;
        proof {
            self.tabs@[a as int].lemma_focus_index();
            assert(!self.tabs@[a as int].has(new));
        }
        match self.tabs[a].split(focused, direction, new, kind) {
            Err(e) => {
                assert(self.tabs@ =~= old(self).tabs@);
                Err(SessionError::Layout(e))
            },
            Ok(updates) => {
                self.next_pane = self.next_pane + 1;
                proof {
                    assert(self.tabs@ =~= old(self).tabs@.update(a as int, self.tabs@[a as int]));
                    assert forall|t: int|
                        0 <= t < self.tabs@.len() implies (#[trigger] self.tabs@[t]).wf()
                        && self.tabs@[t].area == self.area() by {
                        if t != a {
                            assert(self.tabs@[t] == old(self).tabs@[t]);
                        }
                    }
                    assert forall|t: int, p: PaneId|
                        0 <= t < self.tabs@.len() && (#[trigger] self.tabs@[t].has(p)) implies p.0
                        < self.next_pane by {
                        if t != a {
                            assert(old(self).tabs@[t].has(p));
                        } else if p != new {
                            assert(old(self).tabs@[t].has(p));
                        }
                    }
                    assert forall|s: int, t: int, p: PaneId|
                        0 <= s < self.tabs@.len() && 0 <= t < self.tabs@.len() && s != t
                            && #[trigger] self.tabs@[s].has(p) implies !#[trigger] self.tabs@[t].has(
                        p,
                    ) by {
                        if self.tabs@[t].has(p) {
                            if p == new {
                                let other = if s == a { t } else { s };
                                assert(old(self).tabs@[other].has(p));
                            } else {
                                assert(old(self).tabs@[s].has(p));
                                assert(old(self).tabs@[t].has(p));
                            }
                        }
                    }
                }
                Ok((new, updates))
            },
        }
    }
}

/// A pane that went with its tab.
#[derive(Clone, Copy, Debug, PartialEq, Eq, Structural)]
pub struct ClosedPane {
    pub id: PaneId,
    pub kind: PaneKind,
}

/// What became of a request to close a pane.
#[derive(Debug, PartialEq, Eq)]
pub enum PaneClosing {
    /// No tab has the pane; nothing has changed.
    Absent,
    /// The pane is closed; its tab lives on. The window sizes are those to
    /// pass on to the pseudo-terminals of the panes whose size has changed.
    Closed(Vec<WindowSize>),
    /// The pane was the last of its tab that could take the focus: the tab
    /// is closed, with these panes.
    TabClosed(Vec<ClosedPane>),
    /// The pane is the last of the last tab: the session is over. Nothing
    /// has changed.
    SessionOver,
}

/// What became of a request to close the focused tab.
#[derive(Debug, PartialEq, Eq)]
pub enum TabClosing {
    /// The tab is closed, with these panes.
    Closed(Vec<ClosedPane>),
    /// The tab is the last one: the session is over. Nothing has changed.
    SessionOver,
}

/// The panes of a tab as they are reported when the tab is closed.
pub open spec fn closed_panes(tab: Tab) -> Seq<ClosedPane> {
    Seq::new(tab.panes@.len(), |i: int| ClosedPane { id: tab.panes@[i].id, kind: tab.panes@[i].kind })
}

/// Where the focus lies after the tab at `removed` has gone from `count`
/// tabs: on the same tab as before or, where that tab went, on the tab that
/// took its place, or on the last tab where it was the last.
pub open spec fn active_after_removal(active: int, removed: int, count: int) -> int {
    if active > removed {
        active - 1
    } else if active == removed && removed == count - 1 {
        active - 1
    } else {
        active
    }
}

/// The window sizes to pass on when every tab has been fitted to a new
/// terminal size: those of every terminal pane, tab by tab.
pub open spec fn tabs_updates(before: Seq<Tab>, after: Seq<Tab>) -> Seq<WindowSize>
    decreases after.len(),
{
    if after.len() == 0 {
        Seq::empty()
    } else {
        tabs_updates(before.drop_last(), after.drop_last()) + crate::pane::window_updates(
            before.last().panes@,
            after.last().panes@,
            true,
        )
    }
}

/// The split direction and the signed step that a resize towards
/// `direction` stands for.
pub open spec fn resize_axis(direction: Direction) -> (SplitDirection, int) {
    match direction {
        Direction::Left => (SplitDirection::Vertical, -(RESIZE_STEP as int)),
        Direction::Right => (SplitDirection::Vertical, RESIZE_STEP as int),
        Direction::Up => (SplitDirection::Horizontal, -(RESIZE_STEP as int)),
        Direction::Down => (SplitDirection::Horizontal, RESIZE_STEP as int),
    }
}

impl Session {
    /// A session stays well formed when one of its tabs changes into a well
    /// formed tab of the same identifier and area whose panes are panes it
    /// had or panes with identifiers handed out since.
    pub proof fn lemma_tab_changed(before: Session, after: Session, a: int)
        requires
            before.wf(),
            0 <= a < before.tabs@.len(),
            after.tabs@ == before.tabs@.update(a, after.tabs@[a]),
            after.active == before.active,
            after.rows == before.rows,
            after.cols == before.cols,
            after.next_tab == before.next_tab,
            after.next_pane >= before.next_pane,
            after.tabs@[a].wf(),
            after.tabs@[a].area == before.tabs@[a].area,
            after.tabs@[a].id == before.tabs@[a].id,
            forall|p: PaneId| #[trigger]
                after.tabs@[a].has(p) ==> before.tabs@[a].has(p) || before.next_pane <= p.0
                    < after.next_pane,
        ensures
            after.wf(),
    {
        assert forall|t: int| 0 <= t < after.tabs@.len() implies (#[trigger] after.tabs@[t]).wf()
            && after.tabs@[t].area == after.area() by {
            if t != a {
                assert(after.tabs@[t] == before.tabs@[t]);
            }
        }
        assert forall|t: int| 0 <= t < after.tabs@.len() implies (#[trigger] after.tabs@[t]).id.0
            < after.next_tab by {
            assert(after.tabs@[t].id == before.tabs@[t].id);
        }
        assert forall|s: int, t: int| 0 <= s < t < after.tabs@.len() implies (
        #[trigger] after.tabs@[s]).id.0 < (#[trigger] after.tabs@[t]).id.0 by {
            assert(after.tabs@[t].id == before.tabs@[t].id);
            assert(after.tabs@[s].id == before.tabs@[s].id);
        }
        assert forall|t: int, p: PaneId|
            0 <= t < after.tabs@.len() && (#[trigger] after.tabs@[t].has(p)) implies p.0
            < after.next_pane by {
            if t != a || before.tabs@[a].has(p) {
                assert(before.tabs@[t].has(p));
            }
        }
        assert forall|s: int, t: int, p: PaneId|
            0 <= s < after.tabs@.len() && 0 <= t < after.tabs@.len() && s != t
                && #[trigger] after.tabs@[s].has(p) implies !#[trigger] after.tabs@[t].has(p) by {
            if after.tabs@[t].has(p) {
                if p.0 >= before.next_pane {
                    let other = if s == a { t } else { s };
                    assert(before.tabs@[other].has(p));
                } else {
                    assert(before.tabs@[s].has(p));
                    assert(before.tabs@[t].has(p));
                }
            }
        }
    }

    /// A session stays well formed when one of several tabs is removed.
    pub proof fn lemma_tab_removed(before: Session, after: Session, t: int)
        requires
            before.wf(),
            0 <= t < before.tabs@.len(),
            before.tabs@.len() > 1,
            after.tabs@ == before.tabs@.remove(t),
            after.active == active_after_removal(
                before.active as int,
                t,
                before.tabs@.len() as int,
            ),
            after.rows == before.rows,
            after.cols == before.cols,
            after.next_tab == before.next_tab,
            after.next_pane == before.next_pane,
        ensures
            after.wf(),
    {
        assert forall|s: int| 0 <= s < after.tabs@.len() implies #[trigger] after.tabs@[s]
            == before.tabs@[if s < t {
            s
        } else {
            s + 1
        }] by {}
        assert forall|s: int| 0 <= s < after.tabs@.len() implies (#[trigger] after.tabs@[s]).wf()
            && after.tabs@[s].area == after.area() by {
            let was = if s < t { s } else { s + 1 };
            assert(before.tabs@[was].wf());
        }
        assert forall|s: int| 0 <= s < after.tabs@.len() implies (#[trigger] after.tabs@[s]).id.0
            < after.next_tab by {
            let was = if s < t { s } else { s + 1 };
            assert(before.tabs@[was].id.0 < before.next_tab);
        }
        assert forall|s: int, u: int| 0 <= s < u < after.tabs@.len() implies (
        #[trigger] after.tabs@[s]).id.0 < (#[trigger] after.tabs@[u]).id.0 by {
            let ws = if s < t { s } else { s + 1 };
            let wu = if u < t { u } else { u + 1 };
            assert(before.tabs@[ws].id.0 < before.tabs@[wu].id.0);
        }
        assert forall|s: int, p: PaneId|
            0 <= s < after.tabs@.len() && (#[trigger] after.tabs@[s].has(p)) implies p.0
            < after.next_pane by {
            let was = if s < t { s } else { s + 1 };
            assert(before.tabs@[was].has(p));
        }
        assert forall|s: int, u: int, p: PaneId|
            0 <= s < after.tabs@.len() && 0 <= u < after.tabs@.len() && s != u
                && #[trigger] after.tabs@[s].has(p) implies !#[trigger] after.tabs@[u].has(p) by {
            let ws = if s < t { s } else { s + 1 };
            let wu = if u < t { u } else { u + 1 };
            assert(before.tabs@[ws].has(p));
            if after.tabs@[u].has(p) {
                assert(before.tabs@[wu].has(p));
            }
        }
    }

    /// Takes the tab at `t` out of the session and reports its panes.
    fn remove_tab(&mut self, t: usize) -> (closed: Vec<ClosedPane>)
        requires
            old(self).wf(),
            t < old(self).tabs@.len(),
            old(self).tabs@.len() > 1,
        ensures
            final(self).wf(),
            final(self)@ == (SessionView {
                tabs: old(self)@.tabs.remove(t as int),
                active: active_after_removal(
                    old(self).active as int,
                    t as int,
                    old(self).tabs@.len() as int,
                ) as usize,
                ..old(self)@
            }),
            closed@ == closed_panes(old(self).tabs@[t as int]),
    {
        let count = self.tabs.len();
        let tab = self.tabs.remove(t);
        if self.active > t || (self.active == t && t == count - 1) {
            self.active = self.active - 1;
        }
        proof {
            Self::lemma_tab_removed(*old(self), *self, t as int);
        }
        let mut closed: Vec<ClosedPane> = Vec::new();
        let n = tab.panes.len();
        let mut i: usize = 0;
        while i < n
            invariant
                i <= n,
                n == tab.panes@.len(),
                closed@ == closed_panes(tab).take(i as int),
            decreases n - i,
        {
            closed.push(ClosedPane { id: tab.panes[i].id, kind: tab.panes[i].kind });
            assert(closed@ =~= closed_panes(tab).take(i + 1));
            i += 1;
        }
        assert(closed@ =~= closed_panes(tab));
        closed
    }

    /// Closes `pane`, in whichever tab it is. Where the pane is the last of
    /// its tab that can take the focus, the tab is closed with it, unless it
    /// is the only tab: then the session is over.
    pub fn close_pane(&mut self, pane: PaneId) -> (out: PaneClosing)
        requires
            old(self).wf(),
        ensures
            final(self).wf(),
            match out {
                PaneClosing::Absent => !old(self).has_pane(pane) && final(self)@ == old(self)@,
                PaneClosing::SessionOver => {
                    &&& old(self).has_pane(pane)
                    &&& old(self).tabs@[old(self).tab_of(pane)].close_error(pane) == Some(
                        LayoutError::LastPane,
                    )
                    &&& old(self).tabs@.len() == 1
                    &&& final(self)@ == old(self)@
                },
                PaneClosing::TabClosed(closed) => {
                    let t = old(self).tab_of(pane);
                    &&& old(self).has_pane(pane)
                    &&& old(self).tabs@[t].close_error(pane) == Some(LayoutError::LastPane)
                    &&& old(self).tabs@.len() > 1
                    &&& final(self)@ == (SessionView {
                        tabs: old(self)@.tabs.remove(t),
                        active: active_after_removal(
                            old(self).active as int,
                            t,
                            old(self).tabs@.len() as int,
                        ) as usize,
                        ..old(self)@
                    })
                    &&& closed@ == closed_panes(old(self).tabs@[t])
                },
                PaneClosing::Closed(updates) => {
                    let t = old(self).tab_of(pane);
                    &&& old(self).has_pane(pane)
                    &&& old(self).tabs@[t].close_error(pane) is None
                    &&& final(self)@ == (SessionView {
                        tabs: old(self)@.tabs.update(t, final(self).tabs@[t]),
                        ..old(self)@
                    })
                    &&& final(self).tabs@[t].close_of(old(self).tabs@[t], pane)
                    &&& updates@ == crate::pane::window_updates(
                        old(self).tabs@[t].panes@.remove(old(self).tabs@[t].index_of(pane)),
                        final(self).tabs@[t].panes@,
                        false,
                    )
                },
            },
    {
        let t = match self.locate(pane) {
            None => {
                return PaneClosing::Absent;
            },
            Some(t) => t,
        };
        match self.tabs[t].close(pane) {
            Ok(updates) => {
                proof {
                    assert(self.tabs@ =~= old(self).tabs@.update(t as int, self.tabs@[t as int]));
                    Self::lemma_tab_changed(*old(self), *self, t as int);
                }
                PaneClosing::Closed(updates)
            },
            Err(_) => {
                assert(self.tabs@ =~= old(self).tabs@);
                if self.tabs.len() == 1 {
                    PaneClosing::SessionOver
                } else {
                    PaneClosing::TabClosed(self.remove_tab(t))
                }
            },
        }
    }

    /// Closes the focused tab with all its panes, unless it is the only tab:
    /// then the session is over.
    pub fn close_tab(&mut self) -> (out: TabClosing)
        requires
            old(self).wf(),
        ensures
            final(self).wf(),
            match out {
                TabClosing::SessionOver => old(self).tabs@.len() == 1 && final(self)@ == old(self)@,
                TabClosing::Closed(closed) => {
                    &&& old(self).tabs@.len() > 1
                    &&& final(self)@ == (SessionView {
                        tabs: old(self)@.tabs.remove(old(self).active as int),
                        active: active_after_removal(
                            old(self).active as int,
                            old(self).active as int,
                            old(self).tabs@.len() as int,
                        ) as usize,
                        ..old(self)@
                    })
                    &&& closed@ == closed_panes(old(self).active_tab())
                },
            },
    {
        if self.tabs.len() == 1 {
            TabClosing::SessionOver
        } else {
            let t = self.active;
            TabClosing::Closed(self.remove_tab(t))
        }
    }

    /// Opens a tab of one terminal pane at the end of the tabs and gives it
    /// the focus. The tab and the pane get the next identifiers.
    pub fn new_tab(&mut self, name: String) -> (out: Result<(TabId, PaneId), SessionError>)
        requires
            old(self).wf(),
        ensures
            final(self).wf(),
            out is Err <==> old(self).next_pane == u64::MAX || old(self).next_tab == u64::MAX
                || old(self).tabs@.len() == usize::MAX,
            match out {
                Err(e) => e == SessionError::IdsExhausted && final(self)@ == old(self)@,
                Ok((tab, pane)) => {
                    let made = final(self).tabs@[old(self).tabs@.len() as int];
                    &&& tab == TabId(old(self).next_tab)
                    &&& pane == PaneId(old(self).next_pane)
                    &&& final(self)@ == (SessionView {
                        tabs: old(self)@.tabs.push(made),
                        active: old(self).tabs@.len() as usize,
                        next_pane: (old(self).next_pane + 1) as u64,
                        next_tab: (old(self).next_tab + 1) as u64,
                        ..old(self)@
                    })
                    &&& made.id == tab
                    &&& made.name == name
                    &&& made.tree == (crate::layout::LayoutNode::Leaf { pane })
                    &&& made.focused == pane
                    &&& made.panes@.len() == 1
                    &&& made.panes@[0].is_new(pane, PaneKind::Terminal, old(self).area())
                },
            },
    {
        let count = self.tabs.len();
        if self.next_pane == u64::MAX || self.next_tab == u64::MAX || count == usize::MAX {
            return Err(SessionError::IdsExhausted);
        }
        let tab_id = TabId(self.next_tab);
        let pane_id = PaneId(self.next_pane);
        let tab = Tab::new(tab_id, name, Rect::sized(self.rows, self.cols), pane_id, PaneKind::Terminal);
        proof {
            assert forall|p: PaneId| #[trigger] tab.has(p) implies p == pane_id by {
                let k = choose|k: int| 0 <= k < tab.pane_ids().len() && tab.pane_ids()[k] == p;
                assert(tab.pane_ids()[k] == tab.panes@[k].id);
            }
        }
        self.tabs.push(tab);
        self.active = count;
        self.next_pane = self.next_pane + 1;
        self.next_tab = self.next_tab + 1;
        proof {
            assert forall|t: int| 0 <= t < self.tabs@.len() implies (#[trigger] self.tabs@[t]).wf()
                && self.tabs@[t].area == self.area() by {
                if t < count {
                    assert(self.tabs@[t] == old(self).tabs@[t]);
                }
            }
            assert forall|t: int| 0 <= t < self.tabs@.len() implies (#[trigger] self.tabs@[t]).id.0
                < self.next_tab by {
                if t < count {
                    assert(self.tabs@[t] == old(self).tabs@[t]);
                }
            }
            assert forall|s: int, t: int| 0 <= s < t < self.tabs@.len() implies (
            #[trigger] self.tabs@[s]).id.0 < (#[trigger] self.tabs@[t]).id.0 by {
                assert(self.tabs@[s] == old(self).tabs@[s]);
                if t < count {
                    assert(self.tabs@[t] == old(self).tabs@[t]);
                }
            }
            assert forall|t: int, p: PaneId|
                0 <= t < self.tabs@.len() && (#[trigger] self.tabs@[t].has(p)) implies p.0
                < self.next_pane by {
                if t < count {
                    assert(old(self).tabs@[t].has(p));
                }
            }
            assert forall|s: int, t: int, p: PaneId|
                0 <= s < self.tabs@.len() && 0 <= t < self.tabs@.len() && s != t
                    && #[trigger] self.tabs@[s].has(p) implies !#[trigger] self.tabs@[t].has(p) by {
                if self.tabs@[t].has(p) {
                    if s < count && t < count {
                        assert(old(self).tabs@[s].has(p));
                        assert(old(self).tabs@[t].has(p));
                    } else {
                        let other = if s < count { s } else { t };
                        assert(old(self).tabs@[other].has(p));
                    }
                }
            }
        }
        Ok((tab_id, pane_id))
    }

    /// Gives the focus to the tab at `index`. Where there is no such tab,
    /// nothing changes. Returns whether there is.
    pub fn switch_tab(&mut self, index: usize) -> (found: bool)
        requires
            old(self).wf(),
        ensures
            final(self).wf(),
            found == (index < old(self).tabs@.len()),
            final(self)@ == (SessionView {
                active: if found {
                    index
                } else {
                    old(self).active
                },
                ..old(self)@
            }),
    {
        if index < self.tabs.len() {
            self.active = index;
            true
        } else {
            false
        }
    }

    /// Moves the focus of the focused tab to the nearest neighbor of the
    /// focused pane in `direction`. Where there is none, nothing changes.
    /// Returns whether the focus has moved.
    pub fn move_focus(&mut self, direction: Direction) -> (moved: bool)
        requires
            old(self).wf(),
        ensures
            final(self).wf(),
            moved == exists|j: int| old(self).active_tab().is_neighbor(j, direction),
            !moved ==> final(self)@ == old(self)@,
            final(self)@ == (SessionView {
                tabs: old(self)@.tabs.update(old(self).active as int, final(self).active_tab()),
                ..old(self)@
            }),
            moved ==> exists|k: int| #[trigger]
                old(self).active_tab().is_nearest_neighbor(k, direction) && final(self).active_tab().focused == old(self).active_tab().panes@[k].id,
            final(self).active_tab().id == old(self).active_tab().id,
            final(self).active_tab().name == old(self).active_tab().name,
            final(self).active_tab().area == old(self).active_tab().area,
            final(self).active_tab().tree == old(self).active_tab().tree,
            final(self).active_tab().panes == old(self).active_tab().panes,
    {
        let a = self.active;
        let moved = self.tabs[a].move_focus(direction);
        proof {
            assert(self.tabs@ =~= old(self).tabs@.update(a as int, self.tabs@[a as int]));
            assert(self.tabs@[a as int].pane_ids() =~= old(self).tabs@[a as int].pane_ids());
            Self::lemma_tab_changed(*old(self), *self, a as int);
            if !moved {
                assert(self.tabs@ =~= old(self).tabs@);
            }
        }
        moved
    }

    /// Moves the focus of the focused tab to the next pane in layout order
    /// that can take it, starting over at the first pane after the last.
    pub fn focus_next(&mut self)
        requires
            old(self).wf(),
        ensures
            final(self).wf(),
            final(self)@ == (SessionView {
                tabs: old(self)@.tabs.update(old(self).active as int, final(self).active_tab()),
                ..old(self)@
            }),
            final(self).active_tab().focused == old(self).active_tab().panes@[old(self).active_tab().next_selectable(
                old(self).active_tab().index_of(old(self).active_tab().focused),
            )].id,
            final(self).active_tab().id == old(self).active_tab().id,
            final(self).active_tab().name == old(self).active_tab().name,
            final(self).active_tab().area == old(self).active_tab().area,
            final(self).active_tab().tree == old(self).active_tab().tree,
            final(self).active_tab().panes == old(self).active_tab().panes,
    {
        let a = self.active;
        self.tabs[a].focus_next();
        proof {
            assert(self.tabs@ =~= old(self).tabs@.update(a as int, self.tabs@[a as int]));
            assert(self.tabs@[a as int].pane_ids() =~= old(self).tabs@[a as int].pane_ids());
            Self::lemma_tab_changed(*old(self), *self, a as int);
        }
    }

    /// Moves a boundary of the focused pane by one step towards `direction`:
    /// the boundary of the nearest split above the pane that divides along
    /// that axis, and no further than the minimum pane size allows.
    ///
    /// Returns the window sizes to pass on to the pseudo-terminals of the
    /// panes whose size has changed.
    pub fn resize_focused(&mut self, direction: Direction) -> (updates: Vec<WindowSize>)
        requires
            old(self).wf(),
        ensures
            final(self).wf(),
            final(self)@ == (SessionView {
                tabs: old(self)@.tabs.update(old(self).active as int, final(self).active_tab()),
                ..old(self)@
            }),
            ({
                let before = old(self).active_tab();
                let after = final(self).active_tab();
                let axis = resize_axis(direction);
                if before.tree.has_split_over(before.focused, axis.0) {
                    &&& after.area == before.area
                    &&& after.tree == before.tree.resized(before.focused, axis.0, axis.1, before.area)
                    &&& after.relaid_from(before)
                    &&& updates@ == crate::pane::window_updates(before.panes@, after.panes@, false)
                } else {
                    after == before && updates@.len() == 0
                }
            }),
    {
        let a = self.active;
        let focused = self.tabs[a].focused;
        let (along, delta) = match direction {
            Direction::Left => (SplitDirection::Vertical, -RESIZE_STEP),
            Direction::Right => (SplitDirection::Vertical, RESIZE_STEP),
            Direction::Up => (SplitDirection::Horizontal, -RESIZE_STEP),
            Direction::Down => (SplitDirection::Horizontal, RESIZE_STEP),
        };
        proof {
            self.tabs@[a as int].lemma_focus_index();
        }
        let out = self.tabs[a].resize(focused, along, delta);
        proof {
            assert(self.tabs@ =~= old(self).tabs@.update(a as int, self.tabs@[a as int]));
            Self::lemma_tab_changed(*old(self), *self, a as int);
        }
        match out {
            Ok(updates) => updates,
            Err(_) => Vec::new(),
        }
    }

    /// Fits the session to a terminal of `rows` by `cols` cells: every tab
    /// is laid out in the new rectangle by the ratios that its splits have.
    ///
    /// Returns the window size of every terminal pane, to pass on to its
    /// pseudo-terminal.
    pub fn terminal_resize(&mut self, rows: u16, cols: u16) -> (updates: Vec<WindowSize>)
        requires
            old(self).wf(),
        ensures
            final(self).wf(),
            final(self)@ == (SessionView { tabs: final(self)@.tabs, rows, cols, ..old(self)@ }),
            final(self).tabs@.len() == old(self).tabs@.len(),
            forall|t: int|
                0 <= t < final(self).tabs@.len() ==> {
                    &&& (#[trigger] final(self).tabs@[t]).tree == old(self).tabs@[t].tree
                    &&& final(self).tabs@[t].relaid_from(old(self).tabs@[t])
                },
            updates@ == tabs_updates(old(self).tabs@, final(self).tabs@),
            forall|t: int, i: int|
                0 <= t < final(self).tabs@.len() && 0 <= i < final(self).tabs@[t].panes@.len() && (
                #[trigger] final(self).tabs@[t].panes@[i]).kind is Terminal ==> updates@.contains(
                    final(self).tabs@[t].panes@[i].window(),
                ),
    {
        let mut updates: Vec<WindowSize> = Vec::new();
        let n = self.tabs.len();
        let area = Rect::sized(rows, cols);
        let mut t: usize = 0;
        while t < n
            invariant
                t <= n,
                n == self.tabs@.len(),
                n == old(self).tabs@.len(),
                old(self).wf(),
                area == (Rect { row: 0, col: 0, rows, cols }),
                self.active == old(self).active,
                self.rows == old(self).rows,
                self.cols == old(self).cols,
                self.next_pane == old(self).next_pane,
                self.next_tab == old(self).next_tab,
                forall|s: int| t <= s < n ==> self.tabs@[s] == old(self).tabs@[s],
                forall|s: int|
                    0 <= s < t ==> {
                        &&& (#[trigger] self.tabs@[s]).wf()
                        &&& self.tabs@[s].area == area
                        &&& self.tabs@[s].tree == old(self).tabs@[s].tree
                        &&& self.tabs@[s].relaid_from(old(self).tabs@[s])
                    },
                updates@ == tabs_updates(old(self).tabs@.take(t as int), self.tabs@.take(t as int)),
                forall|s: int, i: int|
                    0 <= s < t && 0 <= i < self.tabs@[s].panes@.len() && (
                    #[trigger] self.tabs@[s].panes@[i]).kind is Terminal ==> updates@.contains(
                        self.tabs@[s].panes@[i].window(),
                    ),
            decreases n - t,
        {
            let ghost prev = self.tabs@;
            let ghost seen = updates@;
            let mut more = self.tabs[t].terminal_resize(rows, cols);
            let ghost fresh = more@;
            updates.append(&mut more);
            proof {
                let next = t + 1;
                assert(self.tabs@.take(t as int) =~= prev.take(t as int));
                assert(old(self).tabs@.take(next).drop_last() =~= old(self).tabs@.take(t as int));
                assert(self.tabs@.take(next).drop_last() =~= self.tabs@.take(t as int));
                assert(self.tabs@.take(next).last() == self.tabs@[t as int]);
                assert(old(self).tabs@.take(next).last() == old(self).tabs@[t as int]);
                assert forall|s: int, i: int|
                    0 <= s < next && 0 <= i < self.tabs@[s].panes@.len() && (
                    #[trigger] self.tabs@[s].panes@[i]).kind is Terminal implies updates@.contains(
                    self.tabs@[s].panes@[i].window(),
                ) by {
                    let w = self.tabs@[s].panes@[i].window();
                    if s < t {
                        assert(self.tabs@[s] == prev[s]);
                        assert(seen.contains(w));
                    } else {
                        assert(fresh.contains(w));
                    }
                    crate::layout::lemma_concat_contains(seen, fresh, w);
                }
            }
            t += 1;
        }
        self.rows = rows;
        self.cols = cols;
        proof {
            assert(old(self).tabs@.take(n as int) =~= old(self).tabs@);
            assert(self.tabs@.take(n as int) =~= self.tabs@);
            assert forall|s: int, p: PaneId|
                0 <= s < self.tabs@.len() implies #[trigger] self.tabs@[s].has(p) == old(self).tabs@[s].has(p) by {
                assert(self.tabs@[s].relaid_from(old(self).tabs@[s]));
            }
            assert forall|s: int| 0 <= s < self.tabs@.len() implies (#[trigger] self.tabs@[s]).id
                == old(self).tabs@[s].id by {
                assert(self.tabs@[s].relaid_from(old(self).tabs@[s]));
            }
            assert forall|s: int, u: int| 0 <= s < u < self.tabs@.len() implies (
            #[trigger] self.tabs@[s]).id.0 < (#[trigger] self.tabs@[u]).id.0 by {
                assert(old(self).tabs@[s].id.0 < old(self).tabs@[u].id.0);
            }
            assert forall|s: int, p: PaneId|
                0 <= s < self.tabs@.len() && (#[trigger] self.tabs@[s].has(p)) implies p.0
                < self.next_pane by {
                assert(old(self).tabs@[s].has(p));
            }
            assert forall|s: int, u: int, p: PaneId|
                0 <= s < self.tabs@.len() && 0 <= u < self.tabs@.len() && s != u
                    && #[trigger] self.tabs@[s].has(p) implies !#[trigger] self.tabs@[u].has(p) by {
                assert(old(self).tabs@[s].has(p));
                assert(self.tabs@[u].has(p) == old(self).tabs@[u].has(p));
            }
        }
        updates
    }
}

impl Session {
    /// Passes the next bytes of the output of the child of `pane` to the
    /// pane's emulator, in whichever tab the pane is. Returns whether there
    /// is such a pane.
    pub fn feed(&mut self, pane: PaneId, bytes: &[u8]) -> (found: bool)
        requires
            old(self).wf(),
        ensures
            final(self).wf(),
            found == old(self).has_pane(pane),
            !found ==> final(self)@ == old(self)@,
            found ==> {
                let t = old(self).tab_of(pane);
                &&& final(self)@ == (SessionView {
                    tabs: old(self)@.tabs.update(t, final(self).tabs@[t]),
                    ..old(self)@
                })
                &&& final(self).tabs@[t].fed_from(
                    old(self).tabs@[t],
                    old(self).tabs@[t].index_of(pane),
                    bytes@,
                )
            },
    {
        let t = match self.locate(pane) {
            None => {
                return false;
            },
            Some(t) => t,
        };
        self.tabs[t].feed(pane, bytes);
        proof {
            assert(self.tabs@ =~= old(self).tabs@.update(t as int, self.tabs@[t as int]));
            Self::lemma_tab_changed(*old(self), *self, t as int);
        }
        true
    }

    /// The kind of `pane`, in whichever tab it is.
    pub fn kind_of(&self, pane: PaneId) -> (kind: Option<PaneKind>)
        requires
            self.wf(),
        ensures
            kind is Some <==> self.has_pane(pane),
            kind matches Some(k) ==> {
                let tab = self.tabs@[self.tab_of(pane)];
                k == tab.panes@[tab.index_of(pane)].kind
            },
    {
        match self.locate(pane) {
            None => None,
            Some(t) => match self.tabs[t].find(pane) {
                None => None,
                Some(i) => Some(self.tabs[t].panes[i].kind),
            },
        }
    }

    /// The focused pane of the focused tab, and its kind.
    pub fn focused_pane(&self) -> (focus: (PaneId, PaneKind))
        requires
            self.wf(),
        ensures
            focus.0 == self.active_tab().focused,
            focus.1 == self.active_tab().panes@[self.active_tab().index_of(focus.0)].kind,
    {
        let tab = &self.tabs[self.active];
        match tab.find(tab.focused) {
            Some(i) => (tab.focused, tab.panes[i].kind),
            None => {
                proof {
                    tab.lemma_focus_index();
                }
                (tab.focused, PaneKind::Terminal)
            },
        }
    }
}

/// The panes of `tabs`, tab by tab, as they are reported when they are closed.
pub open spec fn every_pane(tabs: Seq<Tab>) -> Seq<ClosedPane>
    decreases tabs.len(),
{
    if tabs.len() == 0 {
        Seq::empty()
    } else {
        every_pane(tabs.drop_last()) + closed_panes(tabs.last())
    }
}

/// The plugins of `tabs` that have subscribed to events of `kind`, tab by tab.
pub open spec fn subscribed_in(tabs: Seq<Tab>, kind: EventKind) -> Seq<PluginId>
    decreases tabs.len(),
{
    if tabs.len() == 0 {
        Seq::empty()
    } else {
        subscribed_in(tabs.drop_last(), kind) + crate::tab::subscribed(tabs.last().panes@, kind)
    }
}

impl Session {
    /// Every pane of the session, tab by tab.
    pub fn panes(&self) -> (all: Vec<ClosedPane>)
        ensures
            all@ == every_pane(self.tabs@),
    {
        let mut all: Vec<ClosedPane> = Vec::new();
        let n = self.tabs.len();
        let mut t: usize = 0;
        assert(all@ =~= every_pane(self.tabs@.take(0)));
        while t < n
            invariant
                t <= n,
                n == self.tabs@.len(),
                all@ == every_pane(self.tabs@.take(t as int)),
            decreases n - t,
        {
            let tab = &self.tabs[t];
            let ghost before = all@;
            let m = tab.panes.len();
            let mut i: usize = 0;
            assert(all@ =~= before + closed_panes(*tab).take(0));
            while i < m
                invariant
                    i <= m,
                    m == tab.panes@.len(),
                    all@ == before + closed_panes(*tab).take(i as int),
                decreases m - i,
            {
                all.push(ClosedPane { id: tab.panes[i].id, kind: tab.panes[i].kind });
                assert(all@ =~= before + closed_panes(*tab).take(i + 1));
                i += 1;
            }
            proof {
                assert(closed_panes(*tab).take(m as int) =~= closed_panes(*tab));
                assert(self.tabs@.take(t + 1).drop_last() =~= self.tabs@.take(t as int));
                assert(self.tabs@.take(t + 1).last() == self.tabs@[t as int]);
            }
            t += 1;
        }
        assert(self.tabs@.take(n as int) =~= self.tabs@);
        all
    }

    /// The plugins that have subscribed to events of `kind`, tab by tab and
    /// in layout order.
    pub fn subscribers(&self, kind: EventKind) -> (all: Vec<PluginId>)
        ensures
            all@ == subscribed_in(self.tabs@, kind),
    {
        let mut all: Vec<PluginId> = Vec::new();
        let n = self.tabs.len();
        let mut t: usize = 0;
        assert(all@ =~= subscribed_in(self.tabs@.take(0), kind));
        while t < n
            invariant
                t <= n,
                n == self.tabs@.len(),
                all@ == subscribed_in(self.tabs@.take(t as int), kind),
            decreases n - t,
        {
            self.tabs[t].subscribers(kind, &mut all);
            proof {
                assert(self.tabs@.take(t + 1).drop_last() =~= self.tabs@.take(t as int));
                assert(self.tabs@.take(t + 1).last() == self.tabs@[t as int]);
            }
            t += 1;
        }
        assert(self.tabs@.take(n as int) =~= self.tabs@);
        all
    }

    /// Gives `pane` another kind, in whichever tab it is. Returns whether
    /// there is such a pane.
    pub fn set_kind(&mut self, pane: PaneId, kind: PaneKind) -> (found: bool)
        requires
            old(self).wf(),
        ensures
            final(self).wf(),
            found == old(self).has_pane(pane),
            !found ==> final(self)@ == old(self)@,
            found ==> {
                let t = old(self).tab_of(pane);
                &&& final(self)@ == (SessionView {
                    tabs: old(self)@.tabs.update(t, final(self).tabs@[t]),
                    ..old(self)@
                })
                &&& final(self).tabs@[t].recast_from(
                    old(self).tabs@[t],
                    old(self).tabs@[t].index_of(pane),
                    kind,
                )
            },
    {
        let t = match self.locate(pane) {
            None => {
                return false;
            },
            Some(t) => t,
        };
        self.tabs[t].set_kind(pane, kind);
        proof {
            assert(self.tabs@ =~= old(self).tabs@.update(t as int, self.tabs@[t as int]));
            Self::lemma_tab_changed(*old(self), *self, t as int);
        }
        true
    }

    /// Draws text into `pane`, in whichever tab it is. Returns whether there
    /// is such a pane.
    pub fn draw(&mut self, pane: PaneId, text: &DrawnText) -> (found: bool)
        requires
            old(self).wf(),
        ensures
            final(self).wf(),
            found == old(self).has_pane(pane),
            !found ==> final(self)@ == old(self)@,
            found ==> {
                let t = old(self).tab_of(pane);
                let i = old(self).tabs@[t].index_of(pane);
                &&& final(self)@ == (SessionView {
                    tabs: old(self)@.tabs.update(t, final(self).tabs@[t]),
                    ..old(self)@
                })
                &&& final(self).tabs@[t].with_pane(old(self).tabs@[t], i)
                &&& final(self).tabs@[t].focused == old(self).tabs@[t].focused
                &&& final(self).tabs@[t].panes@[i].drawn_from(old(self).tabs@[t].panes@[i], *text)
            },
    {
        let t = match self.locate(pane) {
            None => {
                return false;
            },
            Some(t) => t,
        };
        self.tabs[t].draw(pane, text);
        proof {
            assert(self.tabs@ =~= old(self).tabs@.update(t as int, self.tabs@[t as int]));
            Self::lemma_tab_changed(*old(self), *self, t as int);
        }
        true
    }

    /// Whether `pane` can be made to take the focus or not.
    pub open spec fn can_select(&self, pane: PaneId, selectable: bool) -> bool {
        self.has_pane(pane) && self.tabs@[self.tab_of(pane)].can_select(pane, selectable)
    }

    /// Says whether `pane` can take the focus, in whichever tab it is. A
    /// pane that has the focus and can take it no more passes it to the
    /// next pane of its tab that can; where there is none, nothing changes.
    /// Returns whether the flag is set as asked.
    pub fn set_selectable(&mut self, pane: PaneId, selectable: bool) -> (done: bool)
        requires
            old(self).wf(),
        ensures
            final(self).wf(),
            done == old(self).can_select(pane, selectable),
            !done ==> final(self)@ == old(self)@,
            done ==> {
                let t = old(self).tab_of(pane);
                let tab = old(self).tabs@[t];
                let i = tab.index_of(pane);
                &&& final(self)@ == (SessionView {
                    tabs: old(self)@.tabs.update(t, final(self).tabs@[t]),
                    ..old(self)@
                })
                &&& final(self).tabs@[t].with_pane(tab, i)
                &&& final(self).tabs@[t].panes@[i] == (Pane { selectable, ..tab.panes@[i] })
                &&& final(self).tabs@[t].focused == if !selectable && tab.focused == pane {
                    tab.panes@[tab.next_selectable(i)].id
                } else {
                    tab.focused
                }
            },
    {
        let t = match self.locate(pane) {
            None => {
                return false;
            },
            Some(t) => t,
        };
        let done = self.tabs[t].set_selectable(pane, selectable);
        proof {
            assert(self.tabs@ =~= old(self).tabs@.update(t as int, self.tabs@[t as int]));
            Self::lemma_tab_changed(*old(self), *self, t as int);
            if !done {
                assert(self.tabs@ =~= old(self).tabs@);
            }
        }
        done
    }

    /// Opens a tab with the layout `tree`, whose panes are numbered from
    /// the next pane identifier on, after the other tabs and gives it the
    /// focus. The panes are new and of the kinds `kinds`, in layout order;
    /// the first one has the focus.
    pub(crate) fn add_tab(&mut self, name: String, tree: LayoutNode, kinds: Vec<PaneKind>) -> (tab: TabId)
        requires
            old(self).wf(),
            old(self).next_tab < u64::MAX,
            old(self).tabs@.len() < usize::MAX,
            old(self).next_pane + kinds@.len() <= u64::MAX,
            kinds@.len() >= 1,
            tree.ratios_ok(),
            tree.leaves() == run_of_ids(old(self).next_pane as int, kinds@.len()),
        ensures
            final(self).wf(),
            tab == TabId(old(self).next_tab),
            ({
                let made = final(self).tabs@[old(self).tabs@.len() as int];
                &&& final(self)@ == (SessionView {
                    tabs: old(self)@.tabs.push(made),
                    active: old(self).tabs@.len() as usize,
                    next_pane: (old(self).next_pane + kinds@.len()) as u64,
                    next_tab: (old(self).next_tab + 1) as u64,
                    ..old(self)@
                })
                &&& made.id == tab
                &&& made.name == name
                &&& made.area == old(self).area()
                &&& made.tree == tree
                &&& made.focused == PaneId(old(self).next_pane)
                &&& made.panes@.len() == kinds@.len()
                &&& forall|i: int|
                    0 <= i < kinds@.len() ==> (#[trigger] made.panes@[i]).is_new(
                        PaneId((old(self).next_pane + i) as u64),
                        kinds@[i],
                        tree.rects(old(self).area())[i],
                    )
            }),
    {
        let count = self.tabs.len();
        let made = kinds.len();
        let tab_id = TabId(self.next_tab);
        let ghost ids = tree.leaves();
        proof {
            assert forall|i: int, j: int| 0 <= i < ids.len() && 0 <= j < ids.len() && i != j implies ids[i]
                != ids[j] by {}
        }
        let tab = Tab::assemble(tab_id, name, Rect::sized(self.rows, self.cols), tree, kinds);
        proof {
            assert forall|p: PaneId| #[trigger] tab.has(p) implies self.next_pane <= p.0
                < self.next_pane + made by {
                let k = choose|k: int| 0 <= k < tab.pane_ids().len() && tab.pane_ids()[k] == p;
                assert(tab.pane_ids()[k] == ids[k]);
            }
        }
        self.tabs.push(tab);
        self.active = count;
        self.next_pane = self.next_pane + made as u64;
        self.next_tab = self.next_tab + 1;
        proof {
            assert forall|t: int| 0 <= t < self.tabs@.len() implies (#[trigger] self.tabs@[t]).wf()
                && self.tabs@[t].area == self.area() by {
                if t < count {
                    assert(self.tabs@[t] == old(self).tabs@[t]);
                }
            }
            assert forall|t: int| 0 <= t < self.tabs@.len() implies (#[trigger] self.tabs@[t]).id.0
                < self.next_tab by {
                if t < count {
                    assert(self.tabs@[t] == old(self).tabs@[t]);
                }
            }
            assert forall|s: int, t: int| 0 <= s < t < self.tabs@.len() implies (
            #[trigger] self.tabs@[s]).id.0 < (#[trigger] self.tabs@[t]).id.0 by {
                assert(self.tabs@[s] == old(self).tabs@[s]);
                if t < count {
                    assert(self.tabs@[t] == old(self).tabs@[t]);
                }
            }
            assert forall|t: int, p: PaneId|
                0 <= t < self.tabs@.len() && (#[trigger] self.tabs@[t].has(p)) implies p.0
                < self.next_pane by {
                if t < count {
                    assert(old(self).tabs@[t].has(p));
                }
            }
            assert forall|s: int, t: int, p: PaneId|
                0 <= s < self.tabs@.len() && 0 <= t < self.tabs@.len() && s != t
                    && #[trigger] self.tabs@[s].has(p) implies !#[trigger] self.tabs@[t].has(p) by {
                if self.tabs@[t].has(p) {
                    if s < count && t < count {
                        assert(old(self).tabs@[s].has(p));
                        assert(old(self).tabs@[t].has(p));
                    } else {
                        let other = if s < count { s } else { t };
                        assert(old(self).tabs@[other].has(p));
                    }
                }
            }
            assert forall|i: int| 0 <= i < made implies (#[trigger] self.tabs@[count as int].panes@[i]).is_new(
                PaneId((old(self).next_pane + i) as u64),
                kinds@[i],
                tree.rects(old(self).area())[i],
            ) by {
                assert(ids[i] == PaneId((old(self).next_pane + i) as u64));
            }
        }
        tab_id
    }

    /// Takes a frame of the focused tab: the cells of every line of every
    /// pane that has changed since the last frame, placed on the terminal,
    /// and whether a bell has rung.
    pub fn render(&mut self) -> (frame: (Vec<FrameCell>, bool))
        requires
            old(self).wf(),
        ensures
            final(self).wf(),
            final(self)@ == (SessionView {
                tabs: old(self)@.tabs.update(old(self).active as int, final(self).active_tab()),
                ..old(self)@
            }),
            final(self).active_tab().framed_from(old(self).active_tab()),
            frame.0@ == tab_cells(old(self).active_tab().panes@),
            frame.1 == any_bell(old(self).active_tab().panes@),
    {
        let a = self.active;
        let frame = self.tabs[a].render();
        proof {
            assert(self.tabs@ =~= old(self).tabs@.update(a as int, self.tabs@[a as int]));
            Self::lemma_tab_changed(*old(self), *self, a as int);
        }
        frame
    }
}

impl Session {
    /// Every identifier in use lies below the next one to hand out, and tab
    /// identifiers grow along the tabs: an identifier that is handed out is
    /// greater than any in use.
    pub proof fn lemma_ids_below_next(&self)
        requires
            self.wf(),
        ensures
            forall|t: int, i: int|
                0 <= t < self.tabs@.len() && 0 <= i < self.tabs@[t].panes@.len() ==> (
                #[trigger] self.tabs@[t].panes@[i]).id.0 < self.next_pane,
            forall|t: int| 0 <= t < self.tabs@.len() ==> (#[trigger] self.tabs@[t]).id.0 < self.next_tab,
            forall|s: int, t: int|
                0 <= s < t < self.tabs@.len() ==> (#[trigger] self.tabs@[s]).id.0 < (
                #[trigger] self.tabs@[t]).id.0,
    {
        assert forall|t: int, i: int|
            0 <= t < self.tabs@.len() && 0 <= i < self.tabs@[t].panes@.len() implies (
        #[trigger] self.tabs@[t].panes@[i]).id.0 < self.next_pane by {
            self.tabs@[t].lemma_index_unique(i);
        }
    }

    /// The pane rectangles of every tab tile the terminal: every cell of the
    /// terminal lies in the rectangle of exactly one pane of the tab, and
    /// every other cell in none.
    pub proof fn lemma_every_tab_tiled(&self, t: int, r: int, c: int)
        requires
            self.wf(),
            0 <= t < self.tabs@.len(),
        ensures
            crate::tiling::cover(self.tabs@[t].pane_rects(), r, c) == if 0 <= r < self.rows && 0 <= c
                < self.cols {
                1nat
            } else {
                0nat
            },
    {
        self.tabs@[t].lemma_panes_tile(r, c);
    }

    /// Every leaf of every tab names a pane of that tab, and every pane is
    /// named by one leaf only, in its own tab.
    pub proof fn lemma_one_leaf_for_each_pane(&self, t: int, i: int, u: int, j: int)
        requires
            self.wf(),
            0 <= t < self.tabs@.len(),
            0 <= i < self.tabs@[t].panes@.len(),
            0 <= u < self.tabs@.len(),
            0 <= j < self.tabs@[u].tree.leaves().len(),
        ensures
            self.tabs@[t].tree.leaves().len() == self.tabs@[t].panes@.len(),
            self.tabs@[t].tree.leaves()[i] == self.tabs@[t].panes@[i].id,
            self.tabs@[u].tree.leaves()[j] == self.tabs@[t].panes@[i].id ==> u == t && j == i,
    {
        let tab = self.tabs@[t];
        let other = self.tabs@[u];
        tab.lemma_leaves_match_panes();
        other.lemma_leaves_match_panes();
        tab.lemma_index_unique(i);
        if other.tree.leaves()[j] == tab.panes@[i].id {
            other.lemma_index_unique(j);
            assert(other.panes@[j].id == tab.panes@[i].id);
        }
    }
}

} // verus!
