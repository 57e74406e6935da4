//! Plugin instances: what they have subscribed to, and how many frames in
//! a row they have failed to render in time.

use vstd::prelude::*;
use crate::ids::PluginId;

verus! {

/// Renders in a row that may miss their deadline before a plugin is removed.
pub const MAX_OVERRUNS: u8 = 5;

/// The kinds of event that a plugin can subscribe to.
#[derive(Clone, Copy, Debug, PartialEq, Eq, Structural)]
pub enum EventKind {
    ModeUpdate,
    TabUpdate,
    Key,
    Mouse,
    Timer,
    CopyToClipboard,
    InputReceived,
}

/// A set of event kinds.
#[derive(Clone, Copy, Debug, PartialEq, Eq, Structural)]
pub struct EventMask {
    pub mode_update: bool,
    pub tab_update: bool,
    pub key: bool,
    pub mouse: bool,
    pub timer: bool,
    pub copy_to_clipboard: bool,
    pub input_received: bool,
}

/// A loaded plugin instance.
#[derive(Clone, Copy, Debug, PartialEq, Eq, Structural)]
pub struct Plugin {
    pub id: PluginId,
    pub subscriptions: EventMask,
    /// Renders in a row that have missed their deadline.
    pub overruns: u8,
}

/// What became of a render.
#[derive(Clone, Copy, Debug, PartialEq, Eq, Structural)]
pub enum RenderVerdict {
    /// The frame is there.
    Drawn,
    /// The render missed its deadline: the frame is skipped.
    Skipped,
    /// The render missed its deadline once too often: the plugin is to be removed.
    Remove,
}

impl EventMask {
    /// The empty set.
    pub open spec fn nothing() -> EventMask {
        EventMask {
            mode_update: false,
            tab_update: false,
            key: false,
            mouse: false,
            timer: false,
            copy_to_clipboard: false,
            input_received: false,
        }
    }

    /// Whether the set holds `kind`.
    pub open spec fn has(self, kind: EventKind) -> bool {
        match kind {
            EventKind::ModeUpdate => self.mode_update,
            EventKind::TabUpdate => self.tab_update,
            EventKind::Key => self.key,
            EventKind::Mouse => self.mouse,
            EventKind::Timer => self.timer,
            EventKind::CopyToClipboard => self.copy_to_clipboard,
            EventKind::InputReceived => self.input_received,
        }
    }

    /// The empty set.
    pub fn none() -> (mask: EventMask)
        ensures
            mask == EventMask::nothing(),
            forall|kind: EventKind| !mask.has(kind),
    {
        EventMask {
            mode_update: false,
            tab_update: false,
            key: false,
            mouse: false,
            timer: false,
            copy_to_clipboard: false,
            input_received: false,
        }
    }

    /// The set of one kind.
    pub fn only(kind: EventKind) -> (mask: EventMask)
        ensures
            forall|k: EventKind| mask.has(k) <==> k == kind,
    {
        let mut mask = EventMask::none();
        match kind {
            EventKind::ModeUpdate => {
                mask.mode_update = true;
            },
            EventKind::TabUpdate => {
                mask.tab_update = true;
            },
            EventKind::Key => {
                mask.key = true;
            },
            EventKind::Mouse => {
                mask.mouse = true;
            },
            EventKind::Timer => {
                mask.timer = true;
            },
            EventKind::CopyToClipboard => {
                mask.copy_to_clipboard = true;
            },
            EventKind::InputReceived => {
                mask.input_received = true;
            },
        }
        mask
    }

    /// Whether the set holds `kind`.
    pub fn contains(&self, kind: EventKind) -> (b: bool)
        ensures
            b == self.has(kind),
    {
        match kind {
            EventKind::ModeUpdate => self.mode_update,
            EventKind::TabUpdate => self.tab_update,
            EventKind::Key => self.key,
            EventKind::Mouse => self.mouse,
            EventKind::Timer => self.timer,
            EventKind::CopyToClipboard => self.copy_to_clipboard,
            EventKind::InputReceived => self.input_received,
        }
    }

    /// The kinds of this set and of `other`.
    pub fn union(&self, other: &EventMask) -> (mask: EventMask)
        ensures
            forall|kind: EventKind| mask.has(kind) <==> self.has(kind) || other.has(kind),
    {
        EventMask {
            mode_update: self.mode_update || other.mode_update,
            tab_update: self.tab_update || other.tab_update,
            key: self.key || other.key,
            mouse: self.mouse || other.mouse,
            timer: self.timer || other.timer,
            copy_to_clipboard: self.copy_to_clipboard || other.copy_to_clipboard,
            input_received: self.input_received || other.input_received,
        }
    }

    /// The kinds of this set that are not in `other`.
    pub fn without(&self, other: &EventMask) -> (mask: EventMask)
        ensures
            forall|kind: EventKind| mask.has(kind) <==> self.has(kind) && !other.has(kind),
    {
        EventMask {
            mode_update: self.mode_update && !other.mode_update,
            tab_update: self.tab_update && !other.tab_update,
            key: self.key && !other.key,
            mouse: self.mouse && !other.mouse,
            timer: self.timer && !other.timer,
            copy_to_clipboard: self.copy_to_clipboard && !other.copy_to_clipboard,
            input_received: self.input_received && !other.input_received,
        }
    }
}

impl Plugin {
    /// A plugin that has subscribed to nothing and missed no deadline.
    pub fn new(id: PluginId) -> (plugin: Plugin)
        ensures
            plugin == (Plugin { id, subscriptions: EventMask::nothing(), overruns: 0 }),
    {
        Plugin { id, subscriptions: EventMask::none(), overruns: 0 }
    }

    /// Adds `mask` to the subscriptions.
    pub fn subscribe(&mut self, mask: EventMask)
        ensures
            final(self).id == old(self).id,
            final(self).overruns == old(self).overruns,
            forall|kind: EventKind|
                final(self).subscriptions.has(kind) <==> old(self).subscriptions.has(kind)
                    || mask.has(kind),
    {
        self.subscriptions = self.subscriptions.union(&mask);
    }

    /// Takes `mask` from the subscriptions.
    pub fn unsubscribe(&mut self, mask: EventMask)
        ensures
            final(self).id == old(self).id,
            final(self).overruns == old(self).overruns,
            forall|kind: EventKind|
                final(self).subscriptions.has(kind) <==> old(self).subscriptions.has(kind)
                    && !mask.has(kind),
    {
        self.subscriptions = self.subscriptions.without(&mask);
    }

    /// Whether an event of `kind` is to be delivered to the plugin.
    pub fn wants(&self, kind: EventKind) -> (b: bool)
        ensures
            b == self.subscriptions.has(kind),
    {
        self.subscriptions.contains(kind)
    }

    /// What a render comes to that was or was not `in_time`.
    pub open spec fn verdict(self, in_time: bool) -> RenderVerdict {
        if in_time {
            RenderVerdict::Drawn
        } else if self.overruns + 1 >= MAX_OVERRUNS {
            RenderVerdict::Remove
        } else {
            RenderVerdict::Skipped
        }
    }

    /// Records a render. One in time clears the count of missed deadlines;
    /// one that missed its deadline adds to it.
    pub fn rendered(&mut self, in_time: bool) -> (verdict: RenderVerdict)
        ensures
            verdict == old(self).verdict(in_time),
            final(self).id == old(self).id,
            final(self).subscriptions == old(self).subscriptions,
            final(self).overruns == if in_time {
                0
            } else if old(self).overruns < u8::MAX {
                old(self).overruns + 1
            } else {
                u8::MAX as int
            },
    {
        if in_time {
            self.overruns = 0;
            RenderVerdict::Drawn
        } else {
            if self.overruns < u8::MAX {
                self.overruns = self.overruns + 1;
            }
            if self.overruns >= MAX_OVERRUNS {
                RenderVerdict::Remove
            } else {
                RenderVerdict::Skipped
            }
        }
    }
}

} // verus!
