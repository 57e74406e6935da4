//! Layout templates: the layout of a tab before it has panes. A template is
//! a layout tree whose leaves say what is to run in them.

use vstd::prelude::*;
use crate::geometry::{Ratio, SplitDirection};
use crate::ids::{PaneId, PluginId};
use crate::layout::LayoutNode;
use crate::pane::PaneKind;
use crate::plugin::{EventMask, Plugin};

verus! {

/// What is to run in a pane.
#[derive(Debug, PartialEq, Eq)]
pub enum Content {
    /// The user's shell.
    Shell,
    /// A command.
    Run { command: String },
    /// A plugin, by its name.
    Plugin { name: String },
}

/// A node of a layout template.
#[derive(Debug, PartialEq, Eq)]
pub enum Template {
    /// A pane to be.
    Pane { content: Content },
    /// Two templates that share a rectangle; `left` is the left or upper one.
    Split { direction: SplitDirection, ratio: Ratio, left: Box<Template>, right: Box<Template> },
}

/// The identifiers `first`, `first + 1` and so on, `count` of them.
pub open spec fn run_of_ids(first: int, count: nat) -> Seq<PaneId> {
    Seq::new(count, |i: int| PaneId((first + i) as u64))
}

/// How many of `contents` are plugins.
pub open spec fn plugins_in(contents: Seq<Content>) -> nat
    decreases contents.len(),
{
    if contents.len() == 0 {
        0
    } else {
        plugins_in(contents.drop_last()) + if contents.last() is Plugin {
            1nat
        } else {
            0nat
        }
    }
}

/// The kind of the pane for the content at `i`: a terminal pane for a shell
/// or a command; for a plugin a plugin pane, whose plugin gets the identifier
/// that follows those of the plugins before it, `next` being the first.
pub open spec fn kind_at(contents: Seq<Content>, next: int, i: int) -> PaneKind {
    if contents[i] is Plugin {
        PaneKind::Plugin {
            plugin: Plugin {
                id: PluginId((next + plugins_in(contents.take(i))) as u64),
                subscriptions: EventMask::nothing(),
                overruns: 0,
            },
        }
    } else {
        PaneKind::Terminal
    }
}

/// The kinds of the panes for `contents`, in order.
pub open spec fn kinds_of(contents: Seq<Content>, next: int) -> Seq<PaneKind> {
    Seq::new(contents.len(), |i: int| kind_at(contents, next, i))
}

/// The kinds of the panes for `contents`. The plugins get the identifiers
/// from `next` on.
pub fn kinds(contents: &Vec<Content>, next: u64) -> (out: Vec<PaneKind>)
    requires
        next + plugins_in(contents@) <= u64::MAX,
    ensures
        out@ == kinds_of(contents@, next as int),
{
    let mut out: Vec<PaneKind> = Vec::new();
    let mut seen: u64 = 0;
    let n = contents.len();
    let mut i: usize = 0;
    while i < n
        invariant
            i <= n,
            n == contents@.len(),
            seen == plugins_in(contents@.take(i as int)),
            next + plugins_in(contents@) <= u64::MAX,
            out@ == kinds_of(contents@, next as int).take(i as int),
        decreases n - i,
    {
        proof {
            assert(contents@.take(i + 1).drop_last() =~= contents@.take(i as int));
            assert(contents@.take(i + 1).last() == contents@[i as int]);
            lemma_plugins_grow(contents@, i + 1);
        }
        match &contents[i] {
            Content::Plugin { .. } => {
                out.push(PaneKind::Plugin { plugin: Plugin::new(PluginId(next + seen)) });
                seen = seen + 1;
            },
            _ => {
                out.push(PaneKind::Terminal);
            },
        }
        assert(out@ =~= kinds_of(contents@, next as int).take(i + 1));
        i += 1;
    }
    assert(kinds_of(contents@, next as int).take(n as int) =~= kinds_of(contents@, next as int));
    out
}

/// Counts the plugins among `contents`.
pub fn count_plugins(contents: &Vec<Content>) -> (n: usize)
    ensures
        n == plugins_in(contents@),
{
    let mut seen: usize = 0;
    let n = contents.len();
    let mut i: usize = 0;
    while i < n
        invariant
            i <= n,
            n == contents@.len(),
            seen <= i,
            seen == plugins_in(contents@.take(i as int)),
        decreases n - i,
    {
        proof {
            assert(contents@.take(i + 1).drop_last() =~= contents@.take(i as int));
            assert(contents@.take(i + 1).last() == contents@[i as int]);
        }
        match &contents[i] {
            Content::Plugin { .. } => {
                seen = seen + 1;
            },
            _ => {},
        }
        i += 1;
    }
    assert(contents@.take(n as int) =~= contents@);
    seen
}

/// A part of the contents has no more plugins than the whole.
pub proof fn lemma_plugins_grow(contents: Seq<Content>, k: int)
    requires
        0 <= k <= contents.len(),
    ensures
        plugins_in(contents.take(k)) <= plugins_in(contents),
        plugins_in(contents) <= contents.len(),
    decreases contents.len(),
{
    if contents.len() > 0 {
        if k == contents.len() {
            assert(contents.take(k) =~= contents);
            lemma_plugins_grow(contents.drop_last(), k - 1);
        } else {
            assert(contents.drop_last().take(k) =~= contents.take(k));
            lemma_plugins_grow(contents.drop_last(), k);
        }
    } else {
        assert(contents.take(k) =~= contents);
    }
}

impl Template {
    /// The number of panes to be.
    pub open spec fn count(self) -> nat
        decreases self,
    {
        match self {
            Template::Pane { .. } => 1,
            Template::Split { left, right, .. } => left.count() + right.count(),
        }
    }

    /// Every ratio lies strictly between zero and one.
    pub open spec fn valid(self) -> bool
        decreases self,
    {
        match self {
            Template::Pane { .. } => true,
            Template::Split { ratio, left, right, .. } => ratio.wf() && left.valid() && right.valid(),
        }
    }

    /// What is to run in the panes, in layout order.
    pub open spec fn contents(self) -> Seq<Content>
        decreases self,
    {
        match self {
            Template::Pane { content } => seq![content],
            Template::Split { left, right, .. } => left.contents() + right.contents(),
        }
    }

    /// The layout tree of the template, its panes numbered from `first` on
    /// in layout order.
    pub open spec fn shape(self, first: int) -> LayoutNode
        decreases self,
    {
        match self {
            Template::Pane { .. } => LayoutNode::Leaf { pane: PaneId(first as u64) },
            Template::Split { direction, ratio, left, right } => LayoutNode::Split {
                direction,
                ratio,
                left: Box::new(left.shape(first)),
                right: Box::new(right.shape(first + left.count())),
            },
        }
    }

    /// The tree of a valid template has valid ratios, and its panes are
    /// those numbered from `first` on, each once.
    pub proof fn lemma_shape(self, first: int)
        requires
            self.valid(),
            0 <= first,
            first + self.count() <= u64::MAX,
        ensures
            self.shape(first).ratios_ok(),
            self.shape(first).leaves() == run_of_ids(first, self.count()),
            self.shape(first).leaves().no_duplicates(),
            self.contents().len() == self.count(),
            self.count() >= 1,
        decreases self,
    {
        match self {
            Template::Pane { .. } => {
                assert(self.shape(first).leaves() =~= run_of_ids(first, 1));
            },
            Template::Split { left, right, .. } => {
                left.lemma_shape(first);
                right.lemma_shape(first + left.count());
                assert(self.shape(first).leaves() =~= run_of_ids(first, self.count()));
            },
        }
    }

    /// Checks the ratios.
    pub fn is_valid(&self) -> (ok: bool)
        ensures
            ok == self.valid(),
        decreases self,
    {
        match self {
            Template::Pane { .. } => true,
            Template::Split { ratio, left, right, .. } => 0 < ratio.num && ratio.num < ratio.den
                && left.is_valid() && right.is_valid(),
        }
    }

    /// Counts the panes to be. None where they are more than `most`.
    pub fn size(&self, most: u64) -> (n: Option<u64>)
        ensures
            n is Some <==> self.count() <= most,
            n matches Some(k) ==> k == self.count(),
        decreases self,
    {
        match self {
            Template::Pane { .. } => if most >= 1 {
                Some(1)
            } else {
                None
            },
            Template::Split { left, right, .. } => {
                proof {
                    left.lemma_count_positive();
                    right.lemma_count_positive();
                }
                match left.size(most) {
                    None => None,
                    Some(l) => match right.size(most - l) {
                        None => None,
                        Some(r) => Some(l + r),
                    },
                }
            },
        }
    }

    /// A template has a pane.
    pub proof fn lemma_count_positive(self)
        ensures
            self.count() >= 1,
        decreases self,
    {
        match self {
            Template::Pane { .. } => {},
            Template::Split { left, right, .. } => {
                left.lemma_count_positive();
            },
        }
    }

    /// Takes the template apart: its layout tree, the panes numbered from
    /// `first` on, and what is to run in the panes, appended to `contents`.
    pub fn into_tree(self, first: u64, contents: &mut Vec<Content>) -> (tree: LayoutNode)
        requires
            first + self.count() <= u64::MAX,
        ensures
            tree == self.shape(first as int),
            final(contents)@ == old(contents)@ + self.contents(),
        decreases self,
    {
        match self {
            Template::Pane { content } => {
                contents.push(content);
                assert(contents@ =~= old(contents)@ + self.contents());
                LayoutNode::Leaf { pane: PaneId(first) }
            },
            Template::Split { direction, ratio, left, right } => {
                proof {
                    left.lemma_count_positive();
                    right.lemma_count_positive();
                }
                let middle = match left.size(u64::MAX - first) {
                    Some(l) => first + l,
                    None => first,
                };
                let l = (*left).into_tree(first, contents);
                let r = (*right).into_tree(middle, contents);
                assert(contents@ =~= old(contents)@ + self.contents());
                LayoutNode::Split { direction, ratio, left: Box::new(l), right: Box::new(r) }
            },
        }
    }
}

} // verus!
