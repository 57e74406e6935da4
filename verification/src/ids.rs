//! Identifiers of panes, tabs, clients and plugins.

use vstd::prelude::*;

verus! {

/// Identifies a pane for the life of the session. Never reused.
#[derive(Clone, Copy, Debug, PartialEq, Eq, Structural, Hash)]
pub struct PaneId(pub u64);

/// Identifies a tab for the life of the session. Never reused.
#[derive(Clone, Copy, Debug, PartialEq, Eq, Structural, Hash)]
pub struct TabId(pub u64);

/// Identifies an attached front-end.
#[derive(Clone, Copy, Debug, PartialEq, Eq, Structural, Hash)]
pub struct ClientId(pub u64);

/// Identifies a loaded plugin instance.
#[derive(Clone, Copy, Debug, PartialEq, Eq, Structural, Hash)]
pub struct PluginId(pub u64);

} // verus!
