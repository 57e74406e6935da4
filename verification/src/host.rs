//! The session host: it owns the session and applies the instructions that
//! reach it, one after the other. What has to happen outside, on
//! pseudo-terminals, plugins and clients, it hands back as effects.

use vstd::prelude::*;
use crate::frame::{any_bell, tab_cells, FrameCell};
use crate::geometry::{Direction, SplitDirection};
use crate::ids::{ClientId, PaneId, PluginId};
use crate::ipc::{ClientInstruction, ServerInstruction};
use crate::pane::{DrawnText, Pane, PaneKind, WindowSize};
use crate::plugin::{EventKind, EventMask};
use crate::layout::LayoutNode;
use crate::pane::window_updates;
use crate::plugin::Plugin;
use crate::session::{
    active_after_removal, closed_panes, every_pane, resize_axis, subscribed_in, tabs_updates,
    ClosedPane, PaneClosing, Session, SessionError, SessionView, TabClosing,
};
use crate::tab::{render_requests, LayoutError, RenderRequest};
use crate::template::{count_plugins, kinds, kinds_of, plugins_in, Content, Template};

verus! {

/// A mouse event, in cells of the terminal.
#[derive(Clone, Copy, Debug, PartialEq, Eq, Structural)]
pub struct MouseEvent {
    pub row: u16,
    pub col: u16,
    pub button: u8,
    pub pressed: bool,
}

/// The input mode of the user interface.
#[derive(Clone, Copy, Debug, PartialEq, Eq, Structural)]
pub enum InputMode {
    Normal,
    Locked,
    Resize,
    Pane,
    Tab,
    Scroll,
}

/// An event that is delivered to the plugins that have subscribed to its kind.
#[derive(Debug, PartialEq, Eq)]
pub enum PluginEvent {
    ModeUpdate(InputMode),
    /// The number of tabs and the place of the focused one.
    TabUpdate { tabs: usize, active: usize },
    Key(Vec<u8>),
    Mouse(MouseEvent),
    /// Milliseconds since the timer was set.
    Timer(u64),
    CopyToClipboard,
    InputReceived,
}

/// Something that has happened and that plugins can subscribe to.
#[derive(Clone, Copy, Debug, PartialEq, Eq, Structural)]
pub enum Notice {
    /// A timer has run for this many milliseconds.
    Timer(u64),
    CopyToClipboard,
    InputReceived,
}

/// An instruction to the host.
#[derive(Debug, PartialEq, Eq)]
pub enum Instruction {
    /// The child of a pane has written these bytes.
    PtyBytes { pane: PaneId, bytes: Vec<u8> },
    /// The child of a pane has exited.
    PtyExit { pane: PaneId, status: i32 },
    /// The user has typed these bytes.
    Key { bytes: Vec<u8> },
    Mouse { event: MouseEvent },
    SplitHorizontally,
    SplitVertically,
    MoveFocus { direction: Direction },
    /// Move the focus to the next pane in layout order.
    FocusNext,
    Resize { direction: Direction },
    /// Open a tab: of one shell, or with the layout of a template.
    NewTab { name: String, layout: Option<Template> },
    CloseTab,
    SwitchTab { index: usize },
    TerminalResize { rows: u16, cols: u16 },
    OpenFile { path: String },
    Render,
    Quit,
    /// Something outside has failed beyond repair: end the session with this exit code.
    Abort { code: i32 },
    /// The input mode has changed.
    ModeUpdate { mode: InputMode },
    /// Load the plugin of this name into a new pane.
    LoadPlugin { name: String },
    /// The plugin of a pane has rendered, in time or not.
    PluginRendered { pane: PaneId, in_time: bool },
    /// The plugin of a pane subscribes to events.
    Subscribe { pane: PaneId, events: EventMask },
    /// The plugin of a pane gives subscriptions up.
    Unsubscribe { pane: PaneId, events: EventMask },
    /// The plugin of a pane draws text into it.
    DrawText { pane: PaneId, text: DrawnText },
    /// The plugin of a pane says whether the pane can take the focus.
    SetSelectable { pane: PaneId, selectable: bool },
    /// The plugin of a pane has trapped.
    PluginCrashed { pane: PaneId },
    /// Tell the plugins that have subscribed to it what has happened.
    Notify { notice: Notice },
    /// A client has connected, with a terminal of this size.
    NewClient { rows: u16, cols: u16 },
    /// A client has gone.
    ClientExit { client: ClientId },
}

/// What the host asks to be done outside.
#[derive(Debug, PartialEq, Eq)]
pub enum Effect {
    /// Start a shell behind a new pseudo-terminal for the pane.
    SpawnPty { pane: PaneId, rows: u16, cols: u16 },
    /// Start the user's editor on a file behind a new pseudo-terminal for the pane.
    SpawnEditor { pane: PaneId, path: String, rows: u16, cols: u16 },
    /// Write the bytes to the pseudo-terminal of the pane.
    WritePty { pane: PaneId, bytes: Vec<u8> },
    /// Tell the pseudo-terminal of the pane its window size.
    SetWindowSize { pane: PaneId, rows: u16, cols: u16 },
    /// Revoke the routing of the pane and close its pseudo-terminal.
    ClosePty { pane: PaneId },
    /// Start a command behind a new pseudo-terminal for the pane.
    SpawnCommand { pane: PaneId, command: String, rows: u16, cols: u16 },
    /// Load an instance of the plugin of this name for the pane.
    LoadPlugin { plugin: PluginId, pane: PaneId, name: String, rows: u16, cols: u16 },
    /// Drop a plugin instance.
    UnloadPlugin { plugin: PluginId },
    /// Call the `render` of a plugin for a pane of this size.
    PluginRender { plugin: PluginId, rows: u16, cols: u16 },
    /// Call the `update` of a plugin.
    PluginUpdate { plugin: PluginId, event: PluginEvent },
    /// Send the changed cells to every attached client.
    Frame { cells: Vec<FrameCell> },
    /// Tell every attached client the title of the focused pane.
    SetTitle { title: Vec<u8> },
    /// Ring the bell of every attached client.
    Bell,
    /// Tell every attached client to exit, and end the host.
    Exit { code: i32 },
    /// The client that has connected last is attached under this identifier.
    Attached { client: ClientId },
}

/// The host.
pub struct Host {
    pub session: Session,
    /// The identifier of the next plugin to be loaded.
    pub next_plugin: u64,
    pub mode: InputMode,
    /// The title that the clients were told last.
    pub title: Vec<u8>,
    /// The attached clients, in the order of their coming.
    pub clients: Vec<ClientId>,
    /// The identifier of the next client to attach.
    pub next_client: u64,
    /// Whether the session is still on.
    pub running: bool,
}

/// A host as a mathematical value.
pub struct HostView {
    pub session: SessionView,
    pub next_plugin: u64,
    pub mode: InputMode,
    pub title: Seq<u8>,
    pub clients: Seq<ClientId>,
    pub next_client: u64,
    pub running: bool,
}

impl View for Host {
    type V = HostView;

    open spec fn view(&self) -> HostView {
        HostView {
            session: self.session@,
            next_plugin: self.next_plugin,
            mode: self.mode,
            title: self.title@,
            clients: self.clients@,
            next_client: self.next_client,
            running: self.running,
        }
    }
}

/// The effects that pass window sizes on to the pseudo-terminals.
pub open spec fn size_effects(updates: Seq<WindowSize>) -> Seq<Effect> {
    Seq::new(
        updates.len(),
        |i: int|
            Effect::SetWindowSize { pane: updates[i].pane, rows: updates[i].rows, cols: updates[i].cols },
    )
}

/// The effect that releases what stands behind a closed pane.
pub open spec fn release(pane: ClosedPane) -> Effect {
    match pane.kind {
        PaneKind::Terminal => Effect::ClosePty { pane: pane.id },
        PaneKind::Plugin { plugin } => Effect::UnloadPlugin { plugin: plugin.id },
    }
}

/// The effects that release what stands behind closed panes.
pub open spec fn release_effects(closed: Seq<ClosedPane>) -> Seq<Effect> {
    Seq::new(closed.len(), |i: int| release(closed[i]))
}

/// Makes the effects that pass window sizes on to the pseudo-terminals.
pub fn sizes_to_effects(updates: &Vec<WindowSize>, out: &mut Vec<Effect>)
    ensures
        final(out)@ == old(out)@ + size_effects(updates@),
{
    let n = updates.len();
    let mut i: usize = 0;
    assert(out@ =~= old(out)@ + size_effects(updates@).take(0));
    while i < n
        invariant
            i <= n,
            n == updates@.len(),
            out@ == old(out)@ + size_effects(updates@).take(i as int),
        decreases n - i,
    {
        let u = updates[i];
        out.push(Effect::SetWindowSize { pane: u.pane, rows: u.rows, cols: u.cols });
        assert(out@ =~= old(out)@ + size_effects(updates@).take(i + 1));
        i += 1;
    }
    assert(size_effects(updates@).take(n as int) =~= size_effects(updates@));
}

/// Makes the effects that release what stands behind closed panes.
pub fn closed_to_effects(closed: &Vec<ClosedPane>, out: &mut Vec<Effect>)
    ensures
        final(out)@ == old(out)@ + release_effects(closed@),
{
    let n = closed.len();
    let mut i: usize = 0;
    assert(out@ =~= old(out)@ + release_effects(closed@).take(0));
    while i < n
        invariant
            i <= n,
            n == closed@.len(),
            out@ == old(out)@ + release_effects(closed@).take(i as int),
        decreases n - i,
    {
        let c = closed[i];
        let effect = match c.kind {
            PaneKind::Terminal => Effect::ClosePty { pane: c.id },
            PaneKind::Plugin { plugin } => Effect::UnloadPlugin { plugin: plugin.id },
        };
        out.push(effect);
        assert(out@ =~= old(out)@ + release_effects(closed@).take(i + 1));
        i += 1;
    }
    assert(release_effects(closed@).take(n as int) =~= release_effects(closed@));
}

impl Host {
    /// The invariant of a host: its session is well formed, and the
    /// identifiers of its clients grow along them and lie below the next one
    /// to hand out.
    pub open spec fn wf(&self) -> bool {
        &&& self.session.wf()
        &&& forall|i: int|
            0 <= i < self.clients@.len() ==> (#[trigger] self.clients@[i]).0 < self.next_client
        &&& forall|i: int, j: int|
            0 <= i < j < self.clients@.len() ==> (#[trigger] self.clients@[i]).0 < (
            #[trigger] self.clients@[j]).0
    }

    /// The focused pane.
    pub open spec fn focus(&self) -> PaneId {
        self.session.active_tab().focused
    }

    /// The kind of the focused pane.
    pub open spec fn focus_kind(&self) -> PaneKind {
        let tab = self.session.active_tab();
        tab.panes@[tab.index_of(tab.focused)].kind
    }

    /// The effects of what the user typed: the bytes go to the
    /// pseudo-terminal of the focused pane or, where that is a plugin pane,
    /// to its plugin if it has subscribed to keys.
    pub open spec fn key_effects(&self, bytes: Vec<u8>) -> Seq<Effect> {
        match self.focus_kind() {
            PaneKind::Terminal => seq![Effect::WritePty { pane: self.focus(), bytes }],
            PaneKind::Plugin { plugin } => if plugin.subscriptions.has(EventKind::Key) {
                seq![Effect::PluginUpdate { plugin: plugin.id, event: PluginEvent::Key(bytes) }]
            } else {
                Seq::<Effect>::empty()
            },
        }
    }

    /// Passes what the user typed on to the focused pane: to the
    /// pseudo-terminal of a terminal pane, or to the plugin of a plugin
    /// pane, if it has subscribed to keys.
    pub fn key(&self, bytes: Vec<u8>) -> (effects: Vec<Effect>)
        requires
            self.wf(),
        ensures
            effects@ == self.key_effects(bytes),
    {
        let (pane, kind) = self.session.focused_pane();
        let mut effects: Vec<Effect> = Vec::new();
        match kind {
            PaneKind::Terminal => {
                effects.push(Effect::WritePty { pane, bytes });
            },
            PaneKind::Plugin { plugin } => {
                if plugin.wants(EventKind::Key) {
                    effects.push(Effect::PluginUpdate { plugin: plugin.id, event: PluginEvent::Key(bytes) });
                }
            },
        }
        effects
    }

    /// The bytes that report a mouse event to a child: the X10 report, ESC [
    /// M and three bytes for the button, the column and the row, each offset
    /// by 32 and the places counted from 1. A release is reported as button 3.
    pub open spec fn mouse_report(event: MouseEvent) -> Seq<u8> {
        let button = if event.pressed {
            event.button % 4
        } else {
            3
        };
        seq![
            0x1bu8,
            0x5bu8,
            0x4du8,
            (32 + button) as u8,
            (33 + if event.col > 222 { 222 } else { event.col as int }) as u8,
            (33 + if event.row > 222 { 222 } else { event.row as int }) as u8,
        ]
    }

    /// What a mouse event comes to: a report goes to the pseudo-terminal of
    /// the focused pane or, where that is a plugin pane, the event goes to
    /// its plugin if it has subscribed to the mouse.
    pub open spec fn mouse_post(&self, event: MouseEvent, effects: Seq<Effect>) -> bool {
        match self.focus_kind() {
            PaneKind::Terminal => effects.len() == 1 && (effects[0] matches Effect::WritePty {
                pane,
                bytes,
            } && pane == self.focus() && bytes@ == Self::mouse_report(event)),
            PaneKind::Plugin { plugin } => effects == if plugin.subscriptions.has(EventKind::Mouse) {
                seq![Effect::PluginUpdate { plugin: plugin.id, event: PluginEvent::Mouse(event) }]
            } else {
                Seq::<Effect>::empty()
            },
        }
    }

    /// Passes a mouse event on to the focused pane: as a report to the
    /// pseudo-terminal of a terminal pane, or to the plugin of a plugin
    /// pane, if it has subscribed to the mouse.
    pub fn mouse(&self, event: MouseEvent) -> (effects: Vec<Effect>)
        requires
            self.wf(),
        ensures
            self.mouse_post(event, effects@),
    {
        let (pane, kind) = self.session.focused_pane();
        let mut effects: Vec<Effect> = Vec::new();
        match kind {
            PaneKind::Terminal => {
                let button: u8 = if event.pressed {
                    event.button % 4
                } else {
                    3
                };
                let col: u8 = if event.col > 222 {
                    222
                } else {
                    event.col as u8
                };
                let row: u8 = if event.row > 222 {
                    222
                } else {
                    event.row as u8
                };
                let mut bytes: Vec<u8> = Vec::new();
                bytes.push(0x1b);
                bytes.push(0x5b);
                bytes.push(0x4d);
                bytes.push(32 + button);
                bytes.push(33 + col);
                bytes.push(33 + row);
                assert(bytes@ =~= Self::mouse_report(event));
                effects.push(Effect::WritePty { pane, bytes });
            },
            PaneKind::Plugin { plugin } => {
                if plugin.wants(EventKind::Mouse) {
                    effects.push(
                        Effect::PluginUpdate { plugin: plugin.id, event: PluginEvent::Mouse(event) },
                    );
                }
            },
        }
        effects
    }

    /// Whether bytes for `pane` are taken: the session has the pane and it
    /// is a terminal pane.
    pub open spec fn takes_bytes(&self, pane: PaneId) -> bool {
        let tab = self.session.tabs@[self.session.tab_of(pane)];
        self.session.has_pane(pane) && tab.panes@[tab.index_of(pane)].kind is Terminal
    }

    /// What bytes from the child of a pane come to: the emulator of the pane
    /// has taken them, all and in their order, and nothing else has changed.
    /// Bytes for a pane that is gone, or that is no terminal pane, change
    /// nothing.
    pub open spec fn pty_bytes_post(before: Host, after: Host, pane: PaneId, bytes: Seq<u8>) -> bool {
        let t = before.session.tab_of(pane);
        if before.takes_bytes(pane) {
            &&& after@ == (HostView {
                session: SessionView {
                    tabs: before.session@.tabs.update(t, after.session.tabs@[t]),
                    ..before.session@
                },
                ..before@
            })
            &&& after.session.tabs@[t].fed_from(
                before.session.tabs@[t],
                before.session.tabs@[t].index_of(pane),
                bytes,
            )
        } else {
            after@ == before@
        }
    }

    /// Passes the next bytes of the output of the child of `pane` to the
    /// emulator of the pane: all of them, in their order, and to no other
    /// pane. Bytes for a pane that is gone, or that is no terminal pane, are
    /// dropped.
    pub fn pty_bytes(&mut self, pane: PaneId, bytes: &[u8]) -> (taken: bool)
        requires
            old(self).wf(),
        ensures
            final(self).wf(),
            taken == old(self).takes_bytes(pane),
            Self::pty_bytes_post(*old(self), *final(self), pane, bytes@),
    {
        match self.session.kind_of(pane) {
            Some(PaneKind::Terminal) => {
                self.session.feed(pane, bytes);
                true
            },
            _ => false,
        }
    }
}

/// The effects that ask plugins to render their panes.
pub open spec fn render_effects(requests: Seq<RenderRequest>) -> Seq<Effect> {
    Seq::new(
        requests.len(),
        |i: int|
            Effect::PluginRender {
                plugin: requests[i].plugin,
                rows: requests[i].rows,
                cols: requests[i].cols,
            },
    )
}

/// The event that tells plugins of a notice, and its kind.
pub open spec fn event_of(notice: Notice) -> (PluginEvent, EventKind) {
    match notice {
        Notice::Timer(elapsed) => (PluginEvent::Timer(elapsed), EventKind::Timer),
        Notice::CopyToClipboard => (PluginEvent::CopyToClipboard, EventKind::CopyToClipboard),
        Notice::InputReceived => (PluginEvent::InputReceived, EventKind::InputReceived),
    }
}

/// The effects that tell plugins of a notice.
pub open spec fn notices(plugins: Seq<PluginId>, notice: Notice) -> Seq<Effect> {
    Seq::new(
        plugins.len(),
        |i: int| Effect::PluginUpdate { plugin: plugins[i], event: event_of(notice).0 },
    )
}

/// The name of the first tab.
pub open spec fn first_tab_name() -> Seq<char> {
    "Tab #1"@
}

/// The effects that tell plugins of a change of the input mode.
pub open spec fn mode_notices(plugins: Seq<PluginId>, mode: InputMode) -> Seq<Effect> {
    Seq::new(
        plugins.len(),
        |i: int| Effect::PluginUpdate { plugin: plugins[i], event: PluginEvent::ModeUpdate(mode) },
    )
}

/// The effects that tell plugins of the number of tabs and the focused one.
pub open spec fn tab_notices(plugins: Seq<PluginId>, tabs: usize, active: usize) -> Seq<Effect> {
    Seq::new(
        plugins.len(),
        |i: int|
            Effect::PluginUpdate { plugin: plugins[i], event: PluginEvent::TabUpdate { tabs, active } },
    )
}

/// Starts a host for the first client, whose terminal has `rows` by `cols`
/// cells: a session of one tab with one terminal pane that fills the
/// terminal and has the focus. The effects attach the client and ask for the
/// shell of the pane.
pub fn start(rows: u16, cols: u16) -> (out: (Host, Vec<Effect>))
    ensures
        out.0.wf(),
        out.0.running,
        out.0.mode == InputMode::Normal,
        out.0.next_plugin == 0,
        out.0.title@.len() == 0,
        out.0.clients@ == seq![ClientId(0)],
        out.0.next_client == 1,
        out.0.session.rows == rows,
        out.0.session.cols == cols,
        out.0.session.active == 0,
        out.0.session.next_pane == 1,
        out.0.session.next_tab == 1,
        out.0.session.tabs@.len() == 1,
        out.0.session.tabs@[0].id == crate::ids::TabId(0),
        out.0.session.tabs@[0].name@ == first_tab_name(),
        out.0.session.tabs@[0].tree == (LayoutNode::Leaf { pane: PaneId(0) }),
        out.0.session.tabs@[0].focused == PaneId(0),
        out.0.session.tabs@[0].panes@.len() == 1,
        out.0.session.tabs@[0].panes@[0].is_new(
            PaneId(0),
            PaneKind::Terminal,
            out.0.session.area(),
        ),
        out.1@ == seq![
            Effect::Attached { client: ClientId(0) },
            Effect::SpawnPty { pane: PaneId(0), rows, cols },
        ],
{
    let name = "Tab #1".to_owned();
    let session = Session::new(rows, cols, name);
    let host = Host {
        session,
        next_plugin: 0,
        mode: InputMode::Normal,
        title: Vec::new(),
        clients: vec![ClientId(0)],
        next_client: 1,
        running: true,
    };
    let mut effects: Vec<Effect> = Vec::new();
    effects.push(Effect::Attached { client: ClientId(0) });
    effects.push(Effect::SpawnPty { pane: PaneId(0), rows, cols });
    (host, effects)
}

/// Starts a host for the first client, whose terminal has `rows` by `cols`
/// cells, with a first tab that has the layout of `template`: its panes are
/// numbered from 0 on in layout order, its plugins likewise, and the first
/// pane has the focus. The effects attach the client and start what is to
/// run in each pane. A template with a ratio that does not lie strictly
/// between zero and one is refused, and so is one with more panes than
/// there are identifiers.
pub fn start_from(rows: u16, cols: u16, name: String, template: Template) -> (out: Result<
    (Host, Vec<Effect>),
    SessionError,
>)
    ensures
        out is Err <==> !template.valid() || template.count() > u64::MAX,
        out matches Err(e) ==> e == if !template.valid() {
            SessionError::InvalidLayout
        } else {
            SessionError::IdsExhausted
        },
        out matches Ok((host, effects)) ==> {
            let tab = host.session.tabs@[0];
            let contents = template.contents();
            let kinds = kinds_of(contents, 0);
            let rects = tab.tree.rects(host.session.area());
            &&& host.wf()
            &&& host@ == (HostView {
                session: SessionView {
                    tabs: seq![tab],
                    active: 0,
                    rows,
                    cols,
                    next_pane: template.count() as u64,
                    next_tab: 1,
                },
                next_plugin: plugins_in(contents) as u64,
                mode: InputMode::Normal,
                title: Seq::empty(),
                clients: seq![ClientId(0)],
                next_client: 1,
                running: true,
            })
            &&& tab.id == crate::ids::TabId(0)
            &&& tab.name == name
            &&& tab.area == host.session.area()
            &&& tab.tree == template.shape(0)
            &&& tab.focused == PaneId(0)
            &&& tab.panes@.len() == template.count()
            &&& forall|i: int|
                0 <= i < template.count() ==> (#[trigger] tab.panes@[i]).is_new(
                    PaneId(i as u64),
                    kinds[i],
                    rects[i],
                )
            &&& effects@ == seq![Effect::Attached { client: ClientId(0) }] + Seq::new(
                template.count(),
                |i: int| Host::opening(contents[i], kinds[i], PaneId(i as u64), rects[i]),
            )
        },
{
    if !template.is_valid() {
        return Err(SessionError::InvalidLayout);
    }
    let ghost wanted = template.contents();
    let ghost count = template.count();
    let mut contents: Vec<Content> = Vec::new();
    let tree = match template.size(u64::MAX) {
        Some(_) => {
            proof {
                template.lemma_shape(0);
            }
            template.into_tree(0, &mut contents)
        },
        None => {
            return Err(SessionError::IdsExhausted);
        },
    };
    assert(contents@ =~= wanted);
    let plugins = count_plugins(&contents);
    proof {
        crate::template::lemma_plugins_grow(contents@, 0);
    }
    let their_kinds = kinds(&contents, 0);
    let ghost kinds_seq = their_kinds@;
    let session = Session::with_layout(rows, cols, name, tree, their_kinds);
    let title: Vec<u8> = Vec::new();
    let mut clients: Vec<ClientId> = Vec::new();
    clients.push(ClientId(0));
    assert(title@ =~= Seq::<u8>::empty());
    let host = Host {
        session,
        next_plugin: plugins as u64,
        mode: InputMode::Normal,
        title,
        clients,
        next_client: 1,
        running: true,
    };
    let tab = &host.session.tabs[0];
    let ghost rects = tab.tree.rects(host.session.area());
    let mut effects: Vec<Effect> = Vec::new();
    effects.push(Effect::Attached { client: ClientId(0) });
    let n = contents.len();
    let mut i: usize = 0;
    while i < n
        invariant
            i <= n,
            n == contents@.len(),
            n == wanted.len(),
            n == tab.panes@.len(),
            n == count,
            n == kinds_seq.len(),
            forall|j: int| i <= j < n ==> contents@[j] == wanted[j],
            forall|j: int|
                0 <= j < n ==> (#[trigger] tab.panes@[j]).is_new(
                    PaneId(j as u64),
                    kinds_seq[j],
                    rects[j],
                ),
            effects@.len() == i + 1,
            effects@[0] == (Effect::Attached { client: ClientId(0) }),
            forall|j: int|
                0 <= j < i ==> #[trigger] effects@[j + 1] == Host::opening(
                    wanted[j],
                    kinds_seq[j],
                    PaneId(j as u64),
                    rects[j],
                ),
        decreases n - i,
    {
        let mut content = Content::Shell;
        core::mem::swap(&mut contents[i], &mut content);
        let pane = &tab.panes[i];
        let rows = pane.rect.rows;
        let cols = pane.rect.cols;
        let effect = match content {
            Content::Shell => Effect::SpawnPty { pane: pane.id, rows, cols },
            Content::Run { command } => Effect::SpawnCommand { pane: pane.id, command, rows, cols },
            Content::Plugin { name } => Effect::LoadPlugin {
                plugin: match pane.kind {
                    PaneKind::Plugin { plugin } => plugin.id,
                    PaneKind::Terminal => PluginId(0),
                },
                pane: pane.id,
                name,
                rows,
                cols,
            },
        };
        effects.push(effect);
        i += 1;
    }
    proof {
        let rest = Seq::new(
            count,
            |i: int| Host::opening(wanted[i], kinds_seq[i], PaneId(i as u64), rects[i]),
        );
        let all = seq![Effect::Attached { client: ClientId(0) }] + rest;
        assert(all.len() == n + 1);
        assert forall|k: int| 0 <= k < all.len() implies effects@[k] == all[k] by {
            if k > 0 {
                assert(effects@[(k - 1) + 1] == rest[k - 1]);
            }
        }
        assert(effects@ =~= all);
        assert(host.clients@ =~= seq![ClientId(0)]);
    }
    Ok((host, effects))
}

impl Host {
    /// Why the focused pane cannot be split in `direction`, if it cannot:
    /// the identifiers are used up, or a half would be smaller than the
    /// minimum pane size.
    pub open spec fn refusal(&self, direction: SplitDirection) -> Option<SessionError> {
        let tab = self.session.active_tab();
        if self.session.next_pane == u64::MAX {
            Some(SessionError::IdsExhausted)
        } else if tab.split_error(tab.focused, direction, PaneId(self.session.next_pane)) is Some {
            Some(SessionError::Layout(LayoutError::ResizeTooSmall))
        } else {
            None
        }
    }

    /// The host is `before` after the focused pane has been split in
    /// `direction` and a pane of kind `kind` has taken the right or lower
    /// half and the focus.
    pub open spec fn opened(&self, before: Host, direction: SplitDirection, kind: PaneKind) -> bool {
        let tab = before.session.active_tab();
        let new = PaneId(before.session.next_pane);
        let made = self.session.active_tab();
        &&& before.session.next_pane < u64::MAX
        &&& tab.split_error(tab.focused, direction, new) is None
        &&& self@ == (HostView {
            session: SessionView {
                tabs: before.session@.tabs.update(before.session.active as int, made),
                next_pane: (before.session.next_pane + 1) as u64,
                ..before.session@
            },
            next_plugin: self.next_plugin,
            ..before@
        })
        &&& made.split_of(tab, tab.focused, direction, new, kind)
    }

    /// The rectangle of the pane that a split of the focused pane of
    /// `before` has made.
    pub open spec fn opened_rect(&self, before: Host) -> crate::geometry::Rect {
        let tab = before.session.active_tab();
        self.session.active_tab().panes@[tab.index_of(tab.focused) + 1].rect
    }

    /// The effect that tells the pane that has been split its new window
    /// size, if it is a terminal pane.
    pub open spec fn shrunk(&self, before: Host) -> Seq<Effect> {
        let tab = before.session.active_tab();
        let i = tab.index_of(tab.focused);
        if tab.panes@[i].kind is Terminal {
            size_effects(seq![self.session.active_tab().panes@[i].window()])
        } else {
            Seq::empty()
        }
    }

    /// Splits the focused pane in `direction` for a new pane of kind `kind`.
    /// Returns the new pane, its size, and the effects that pass window
    /// sizes on.
    fn open_pane(&mut self, direction: SplitDirection, kind: PaneKind) -> (out: Result<
        (PaneId, u16, u16, Vec<Effect>),
        SessionError,
    >)
        requires
            old(self).wf(),
        ensures
            final(self).wf(),
            final(self).next_plugin == old(self).next_plugin,
            match out {
                Err(e) => Some(e) == old(self).refusal(direction) && final(self)@ == old(self)@,
                Ok((new, rows, cols, effects)) => {
                    &&& old(self).refusal(direction) is None
                    &&& final(self).opened(*old(self), direction, kind)
                    &&& new == PaneId(old(self).session.next_pane)
                    &&& rows == final(self).opened_rect(*old(self)).rows
                    &&& cols == final(self).opened_rect(*old(self)).cols
                    &&& effects@ == final(self).shrunk(*old(self))
                },
            },
    {
        match self.session.split_focused(direction, kind) {
            Err(e) => Err(e),
            Ok((new, updates)) => {
                let tab = &self.session.tabs[self.session.active];
                proof {
                    let before = old(self).session.active_tab();
                    let i = before.index_of(before.focused);
                    before.lemma_focus_index();
                    tab.lemma_index_unique(i + 1);
                }
                let (rows, cols) = match tab.find(new) {
                    Some(k) => (tab.panes[k].rect.rows, tab.panes[k].rect.cols),
                    None => (0, 0),
                };
                let mut effects: Vec<Effect> = Vec::new();
                sizes_to_effects(&updates, &mut effects);
                assert(effects@ =~= self.shrunk(*old(self)));
                Ok((new, rows, cols, effects))
            },
        }
    }

    /// What a split of the focused pane comes to.
    pub open spec fn split_post(
        before: Host,
        after: Host,
        direction: SplitDirection,
        out: Result<Vec<Effect>, SessionError>,
    ) -> bool {
        &&& after.next_plugin == before.next_plugin
        &&& match out {
            Err(e) => Some(e) == before.refusal(direction) && after@ == before@,
            Ok(effects) => {
                &&& before.refusal(direction) is None
                &&& after.opened(before, direction, PaneKind::Terminal)
                &&& effects@ == seq![
                    Effect::SpawnPty {
                        pane: PaneId(before.session.next_pane),
                        rows: after.opened_rect(before).rows,
                        cols: after.opened_rect(before).cols,
                    },
                ] + after.shrunk(before)
            },
        }
    }

    /// Splits the focused pane evenly in `direction`: a new terminal pane
    /// takes the right or lower half and the focus. Where a half would be
    /// smaller than the minimum pane size, the split is refused and nothing
    /// changes.
    pub fn split(&mut self, direction: SplitDirection) -> (out: Result<Vec<Effect>, SessionError>)
        requires
            old(self).wf(),
        ensures
            final(self).wf(),
            Self::split_post(*old(self), *final(self), direction, out),
    {
        match self.open_pane(direction, PaneKind::Terminal) {
            Err(e) => Err(e),
            Ok((pane, rows, cols, mut rest)) => {
                let mut effects: Vec<Effect> = Vec::new();
                effects.push(Effect::SpawnPty { pane, rows, cols });
                effects.append(&mut rest);
                Ok(effects)
            },
        }
    }

    /// What opening a file comes to.
    pub open spec fn open_file_post(
        before: Host,
        after: Host,
        path: String,
        out: Result<Vec<Effect>, SessionError>,
    ) -> bool {
        let direction = SplitDirection::Vertical;
        &&& after.next_plugin == before.next_plugin
        &&& match out {
            Err(e) => Some(e) == before.refusal(direction) && after@ == before@,
            Ok(effects) => {
                &&& before.refusal(direction) is None
                &&& after.opened(before, direction, PaneKind::Terminal)
                &&& effects@ == seq![
                    Effect::SpawnEditor {
                        pane: PaneId(before.session.next_pane),
                        path,
                        rows: after.opened_rect(before).rows,
                        cols: after.opened_rect(before).cols,
                    },
                ] + after.shrunk(before)
            },
        }
    }

    /// Opens `path` in the user's editor, in a new terminal pane to the
    /// right of the focused pane, which is split for it.
    pub fn open_file(&mut self, path: String) -> (out: Result<Vec<Effect>, SessionError>)
        requires
            old(self).wf(),
        ensures
            final(self).wf(),
            Self::open_file_post(*old(self), *final(self), path, out),
    {
        match self.open_pane(SplitDirection::Vertical, PaneKind::Terminal) {
            Err(e) => Err(e),
            Ok((pane, rows, cols, mut rest)) => {
                let mut effects: Vec<Effect> = Vec::new();
                effects.push(Effect::SpawnEditor { pane, path, rows, cols });
                effects.append(&mut rest);
                Ok(effects)
            },
        }
    }

    /// What loading a plugin comes to.
    pub open spec fn load_plugin_post(
        before: Host,
        after: Host,
        name: String,
        out: Result<Vec<Effect>, SessionError>,
    ) -> bool {
        let direction = SplitDirection::Horizontal;
        let plugin = Plugin {
            id: PluginId(before.next_plugin),
            subscriptions: EventMask::nothing(),
            overruns: 0,
        };
        match out {
            Err(e) => {
                &&& after@ == before@
                &&& Some(e) == if before.next_plugin == u64::MAX {
                    Some(SessionError::IdsExhausted)
                } else {
                    before.refusal(direction)
                }
            },
            Ok(effects) => {
                &&& before.next_plugin < u64::MAX
                &&& before.refusal(direction) is None
                &&& after.next_plugin == before.next_plugin + 1
                &&& after.opened(before, direction, PaneKind::Plugin { plugin })
                &&& effects@ == seq![
                    Effect::LoadPlugin {
                        plugin: plugin.id,
                        pane: PaneId(before.session.next_pane),
                        name,
                        rows: after.opened_rect(before).rows,
                        cols: after.opened_rect(before).cols,
                    },
                ] + after.shrunk(before)
            },
        }
    }

    /// Loads the plugin of the name `name` into a new pane below the focused
    /// pane, which is split for it. The plugin gets the next plugin
    /// identifier and has subscribed to nothing.
    pub fn load_plugin(&mut self, name: String) -> (out: Result<Vec<Effect>, SessionError>)
        requires
            old(self).wf(),
        ensures
            final(self).wf(),
            Self::load_plugin_post(*old(self), *final(self), name, out),
    {
        if self.next_plugin == u64::MAX {
            return Err(SessionError::IdsExhausted);
        }
        let plugin = Plugin::new(PluginId(self.next_plugin));
        match self.open_pane(SplitDirection::Horizontal, PaneKind::Plugin { plugin }) {
            Err(e) => Err(e),
            Ok((pane, rows, cols, mut rest)) => {
                self.next_plugin = self.next_plugin + 1;
                let mut effects: Vec<Effect> = Vec::new();
                effects.push(Effect::LoadPlugin { plugin: plugin.id, pane, name, rows, cols });
                effects.append(&mut rest);
                Ok(effects)
            },
        }
    }

    /// The effects that end the session with the exit code `code`: what
    /// stands behind every pane is released, and the clients are told to exit.
    pub open spec fn parting(&self, code: i32) -> Seq<Effect> {
        release_effects(every_pane(self.session.tabs@)) + seq![Effect::Exit { code }]
    }

    /// The effects that end the session in good order.
    pub open spec fn farewell(&self) -> Seq<Effect> {
        self.parting(0)
    }

    /// Ends the session.
    fn shut_down(&mut self, code: i32) -> (effects: Vec<Effect>)
        ensures
            final(self)@ == (HostView { running: false, ..old(self)@ }),
            final(self).session == old(self).session,
            effects@ == old(self).parting(code),
    {
        self.running = false;
        let all = self.session.panes();
        let mut effects: Vec<Effect> = Vec::new();
        closed_to_effects(&all, &mut effects);
        effects.push(Effect::Exit { code });
        assert(effects@ =~= old(self).parting(code));
        effects
    }

    /// What a failure beyond repair comes to: the session is over, and the
    /// clients are told to exit with the code of the failure.
    pub open spec fn abort_post(before: Host, after: Host, code: i32, effects: Seq<Effect>) -> bool {
        after@ == (HostView { running: false, ..before@ }) && effects == before.parting(code)
    }

    /// Ends the session after a failure beyond repair.
    pub fn abort(&mut self, code: i32) -> (effects: Vec<Effect>)
        requires
            old(self).wf(),
        ensures
            final(self).wf(),
            Self::abort_post(*old(self), *final(self), code, effects@),
    {
        self.shut_down(code)
    }

    /// What a quit comes to: the session is over.
    pub open spec fn quit_post(before: Host, after: Host, effects: Seq<Effect>) -> bool {
        after@ == (HostView { running: false, ..before@ }) && effects == before.farewell()
    }

    /// Ends the session: every pseudo-terminal is to be closed, every
    /// plugin dropped, and the clients are told to exit.
    pub fn quit(&mut self) -> (effects: Vec<Effect>)
        requires
            old(self).wf(),
        ensures
            final(self).wf(),
            Self::quit_post(*old(self), *final(self), effects@),
    {
        self.shut_down(0)
    }

    /// What closing a pane comes to.
    pub open spec fn close_post(before: Host, after: Host, pane: PaneId, effects: Seq<Effect>) -> bool {
        let t = before.session.tab_of(pane);
        let tab = before.session.tabs@[t];
        if !before.session.has_pane(pane) {
            after@ == before@ && effects == Seq::<Effect>::empty()
        } else if tab.close_error(pane) is None {
            let i = tab.index_of(pane);
            let rest = after.session.tabs@[t];
            &&& after@ == (HostView {
                session: SessionView { tabs: before.session@.tabs.update(t, rest), ..before.session@ },
                ..before@
            })
            &&& rest.close_of(tab, pane)
            &&& effects == seq![release(ClosedPane { id: pane, kind: tab.panes@[i].kind })]
                + size_effects(window_updates(tab.panes@.remove(i), rest.panes@, false))
        } else if before.session.tabs@.len() > 1 {
            &&& after@ == (HostView {
                session: SessionView {
                    tabs: before.session@.tabs.remove(t),
                    active: active_after_removal(
                        before.session.active as int,
                        t,
                        before.session.tabs@.len() as int,
                    ) as usize,
                    ..before.session@
                },
                ..before@
            })
            &&& effects == release_effects(closed_panes(tab))
        } else {
            Self::quit_post(before, after, effects)
        }
    }

    /// Closes `pane`, in whichever tab it is, and releases what stands
    /// behind it. Where the pane is the last of its tab that can take the
    /// focus, the tab is closed with it; where that tab is the last one, the
    /// session is over.
    pub fn close_pane(&mut self, pane: PaneId) -> (effects: Vec<Effect>)
        requires
            old(self).wf(),
        ensures
            final(self).wf(),
            Self::close_post(*old(self), *final(self), pane, effects@),
    {
        let kind = match self.session.kind_of(pane) {
            None => {
                return Vec::new();
            },
            Some(kind) => kind,
        };
        let mut effects: Vec<Effect> = Vec::new();
        match self.session.close_pane(pane) {
            PaneClosing::Absent => {},
            PaneClosing::Closed(updates) => {
                effects.push(
                    match kind {
                        PaneKind::Terminal => Effect::ClosePty { pane },
                        PaneKind::Plugin { plugin } => Effect::UnloadPlugin { plugin: plugin.id },
                    },
                );
                sizes_to_effects(&updates, &mut effects);
            },
            PaneClosing::TabClosed(closed) => {
                closed_to_effects(&closed, &mut effects);
            },
            PaneClosing::SessionOver => {
                effects = self.shut_down(0);
            },
        }
        effects
    }

    /// What the exit of the child of a pane comes to: the pane is closed, if
    /// it is a terminal pane.
    pub open spec fn pty_exit_post(before: Host, after: Host, pane: PaneId, effects: Seq<Effect>) -> bool {
        let tab = before.session.tabs@[before.session.tab_of(pane)];
        if before.session.has_pane(pane) && tab.panes@[tab.index_of(pane)].kind is Terminal {
            Self::close_post(before, after, pane, effects)
        } else {
            after@ == before@ && effects == Seq::<Effect>::empty()
        }
    }

    /// Takes note that the child of `pane` has exited: a terminal pane is
    /// closed. For any other pane, or one that is gone, nothing changes.
    pub fn pty_exit(&mut self, pane: PaneId) -> (effects: Vec<Effect>)
        requires
            old(self).wf(),
        ensures
            final(self).wf(),
            Self::pty_exit_post(*old(self), *final(self), pane, effects@),
    {
        match self.session.kind_of(pane) {
            Some(PaneKind::Terminal) => self.close_pane(pane),
            _ => Vec::new(),
        }
    }

    /// What closing the focused tab comes to.
    pub open spec fn close_tab_post(before: Host, after: Host, effects: Seq<Effect>) -> bool {
        if before.session.tabs@.len() > 1 {
            &&& after@ == (HostView {
                session: SessionView {
                    tabs: before.session@.tabs.remove(before.session.active as int),
                    active: active_after_removal(
                        before.session.active as int,
                        before.session.active as int,
                        before.session.tabs@.len() as int,
                    ) as usize,
                    ..before.session@
                },
                ..before@
            })
            &&& effects == release_effects(closed_panes(before.session.active_tab()))
        } else {
            Self::quit_post(before, after, effects)
        }
    }

    /// Closes the focused tab with all its panes. Where it is the last tab,
    /// the session is over.
    pub fn close_tab(&mut self) -> (effects: Vec<Effect>)
        requires
            old(self).wf(),
        ensures
            final(self).wf(),
            Self::close_tab_post(*old(self), *final(self), effects@),
    {
        match self.session.close_tab() {
            TabClosing::Closed(closed) => {
                let mut effects: Vec<Effect> = Vec::new();
                closed_to_effects(&closed, &mut effects);
                effects
            },
            TabClosing::SessionOver => self.shut_down(0),
        }
    }

    /// What opening a tab comes to.
    pub open spec fn new_tab_post(
        before: Host,
        after: Host,
        name: String,
        out: Result<Vec<Effect>, SessionError>,
    ) -> bool {
        let s = before.session;
        let made = after.session.tabs@[s.tabs@.len() as int];
        let pane = PaneId(s.next_pane);
        match out {
            Err(e) => {
                &&& e == SessionError::IdsExhausted
                &&& after@ == before@
                &&& s.next_pane == u64::MAX || s.next_tab == u64::MAX || s.tabs@.len() == usize::MAX
            },
            Ok(effects) => {
                &&& s.next_pane < u64::MAX && s.next_tab < u64::MAX && s.tabs@.len() != usize::MAX
                &&& after@ == (HostView {
                    session: SessionView {
                        tabs: s@.tabs.push(made),
                        active: s.tabs@.len() as usize,
                        next_pane: (s.next_pane + 1) as u64,
                        next_tab: (s.next_tab + 1) as u64,
                        ..s@
                    },
                    ..before@
                })
                &&& made.id == crate::ids::TabId(s.next_tab)
                &&& made.name == name
                &&& made.tree == (LayoutNode::Leaf { pane })
                &&& made.focused == pane
                &&& made.panes@.len() == 1
                &&& made.panes@[0].is_new(pane, PaneKind::Terminal, s.area())
                &&& effects@ == seq![Effect::SpawnPty { pane, rows: s.rows, cols: s.cols }]
            },
        }
    }

    /// Opens a tab of one terminal pane after the other tabs and gives it
    /// the focus.
    pub fn new_tab(&mut self, name: String) -> (out: Result<Vec<Effect>, SessionError>)
        requires
            old(self).wf(),
        ensures
            final(self).wf(),
            Self::new_tab_post(*old(self), *final(self), name, out),
    {
        match self.session.new_tab(name) {
            Err(e) => Err(e),
            Ok((_, pane)) => {
                let mut effects: Vec<Effect> = Vec::new();
                effects.push(
                    Effect::SpawnPty { pane, rows: self.session.rows, cols: self.session.cols },
                );
                Ok(effects)
            },
        }
    }

    /// The host is `before` but for the focused tab.
    pub open spec fn with_active_tab(&self, before: Host) -> bool {
        self@ == (HostView {
            session: SessionView {
                tabs: before.session@.tabs.update(
                    before.session.active as int,
                    self.session.active_tab(),
                ),
                ..before.session@
            },
            ..before@
        })
    }

    /// What a resize of the focused pane comes to.
    pub open spec fn resize_post(before: Host, after: Host, direction: Direction, effects: Seq<Effect>) -> bool {
        let tab = before.session.active_tab();
        let now = after.session.active_tab();
        let axis = resize_axis(direction);
        &&& after.with_active_tab(before)
        &&& if tab.tree.has_split_over(tab.focused, axis.0) {
            &&& now.area == tab.area
            &&& now.tree == tab.tree.resized(tab.focused, axis.0, axis.1, tab.area)
            &&& now.relaid_from(tab)
            &&& effects == size_effects(window_updates(tab.panes@, now.panes@, false))
        } else {
            now == tab && effects == Seq::<Effect>::empty()
        }
    }

    /// Moves a boundary of the focused pane by one step towards `direction`,
    /// and no further than the minimum pane size allows.
    pub fn resize(&mut self, direction: Direction) -> (effects: Vec<Effect>)
        requires
            old(self).wf(),
        ensures
            final(self).wf(),
            Self::resize_post(*old(self), *final(self), direction, effects@),
    {
        let updates = self.session.resize_focused(direction);
        let mut effects: Vec<Effect> = Vec::new();
        sizes_to_effects(&updates, &mut effects);
        assert(effects@ =~= size_effects(updates@));
        effects
    }

    /// What a new size of the terminal comes to: every tab fills the new
    /// terminal with the ratios that its splits have, every pane's grid has
    /// the size of its rectangle, and every terminal pane's pseudo-terminal
    /// is told that size.
    pub open spec fn terminal_resize_post(
        before: Host,
        after: Host,
        rows: u16,
        cols: u16,
        effects: Seq<Effect>,
    ) -> bool {
        &&& after@ == (HostView {
            session: SessionView { tabs: after.session@.tabs, rows, cols, ..before.session@ },
            ..before@
        })
        &&& after.session.tabs@.len() == before.session.tabs@.len()
        &&& forall|t: int|
            0 <= t < after.session.tabs@.len() ==> {
                &&& (#[trigger] after.session.tabs@[t]).tree == before.session.tabs@[t].tree
                &&& after.session.tabs@[t].relaid_from(before.session.tabs@[t])
            }
        &&& effects == size_effects(tabs_updates(before.session.tabs@, after.session.tabs@))
        &&& forall|t: int, i: int|
            0 <= t < after.session.tabs@.len() && 0 <= i < after.session.tabs@[t].panes@.len() && (
            #[trigger] after.session.tabs@[t].panes@[i]).kind is Terminal ==> {
                let pane = after.session.tabs@[t].panes@[i];
                &&& pane.fits()
                &&& effects.contains(
                    Effect::SetWindowSize { pane: pane.id, rows: pane.rect.rows, cols: pane.rect.cols },
                )
            }
    }

    /// Fits the session to a terminal of `rows` by `cols` cells.
    pub fn terminal_resize(&mut self, rows: u16, cols: u16) -> (effects: Vec<Effect>)
        requires
            old(self).wf(),
        ensures
            final(self).wf(),
            Self::terminal_resize_post(*old(self), *final(self), rows, cols, effects@),
    {
        let updates = self.session.terminal_resize(rows, cols);
        let mut effects: Vec<Effect> = Vec::new();
        sizes_to_effects(&updates, &mut effects);
        proof {
            assert(effects@ =~= size_effects(updates@));
            assert forall|t: int, i: int|
                0 <= t < self.session.tabs@.len() && 0 <= i < self.session.tabs@[t].panes@.len() && (
                #[trigger] self.session.tabs@[t].panes@[i]).kind is Terminal implies ({
                let pane = self.session.tabs@[t].panes@[i];
                &&& pane.fits()
                &&& effects@.contains(
                    Effect::SetWindowSize { pane: pane.id, rows: pane.rect.rows, cols: pane.rect.cols },
                )
            }) by {
                let pane = self.session.tabs@[t].panes@[i];
                assert(self.session.tabs@[t].wf());
                assert(updates@.contains(pane.window()));
                let k = choose|k: int| 0 <= k < updates@.len() && updates@[k] == pane.window();
                assert(size_effects(updates@)[k] == Effect::SetWindowSize {
                    pane: pane.id,
                    rows: pane.rect.rows,
                    cols: pane.rect.cols,
                });
            }
        }
        effects
    }

    /// What a move of the focus comes to: it goes to the nearest neighbor of
    /// the focused pane in `direction`; where there is none, nothing changes.
    pub open spec fn move_focus_post(before: Host, after: Host, direction: Direction) -> bool {
        let tab = before.session.active_tab();
        let now = after.session.active_tab();
        &&& after.with_active_tab(before)
        &&& now.id == tab.id && now.name == tab.name && now.area == tab.area && now.tree == tab.tree
            && now.panes == tab.panes
        &&& if exists|j: int| tab.is_neighbor(j, direction) {
            exists|k: int| #[trigger]
                tab.is_nearest_neighbor(k, direction) && now.focused == tab.panes@[k].id
        } else {
            after@ == before@
        }
    }

    /// Moves the focus to the nearest neighbor of the focused pane in
    /// `direction`.
    pub fn move_focus(&mut self, direction: Direction)
        requires
            old(self).wf(),
        ensures
            final(self).wf(),
            Self::move_focus_post(*old(self), *final(self), direction),
    {
        self.session.move_focus(direction);
    }

    /// What a step of the focus comes to: it goes to the next pane in layout
    /// order that can take it.
    pub open spec fn focus_next_post(before: Host, after: Host) -> bool {
        let tab = before.session.active_tab();
        let now = after.session.active_tab();
        &&& after.with_active_tab(before)
        &&& now.id == tab.id && now.name == tab.name && now.area == tab.area && now.tree == tab.tree
            && now.panes == tab.panes
        &&& now.focused == tab.panes@[tab.next_selectable(tab.index_of(tab.focused))].id
    }

    /// Moves the focus to the next pane in layout order that can take it,
    /// starting over at the first pane after the last.
    pub fn focus_next(&mut self)
        requires
            old(self).wf(),
        ensures
            final(self).wf(),
            Self::focus_next_post(*old(self), *final(self)),
    {
        self.session.focus_next();
    }

    /// What a switch of tabs comes to: the tab at `index` has the focus, if
    /// there is one.
    pub open spec fn switch_tab_post(before: Host, after: Host, index: usize) -> bool {
        after@ == (HostView {
            session: SessionView {
                active: if index < before.session.tabs@.len() {
                    index
                } else {
                    before.session.active
                },
                ..before.session@
            },
            ..before@
        })
    }

    /// Gives the focus to the tab at `index`, if there is one.
    pub fn switch_tab(&mut self, index: usize)
        requires
            old(self).wf(),
        ensures
            final(self).wf(),
            Self::switch_tab_post(*old(self), *final(self), index),
    {
        self.session.switch_tab(index);
    }

    /// The title of the focused pane, as its child has set it.
    pub open spec fn focus_title(&self) -> Seq<u8> {
        let tab = self.session.active_tab();
        tab.panes@[tab.index_of(tab.focused)].screen@.title
    }

    /// What a render comes to: of every pane of the focused tab a frame has
    /// been taken; the effects ring the bell, if one has rung, tell the
    /// title of the focused pane, if it is not the one told last, send the
    /// changed cells, if there are any, and ask every plugin of the tab for
    /// a fresh frame of its pane.
    pub open spec fn render_post(before: Host, after: Host, effects: Seq<Effect>) -> bool {
        let tab = before.session.active_tab();
        let cells = tab_cells(tab.panes@);
        let title = before.focus_title();
        let rings: int = if any_bell(tab.panes@) {
            1
        } else {
            0
        };
        let titles: int = if title != before.title@ {
            1
        } else {
            0
        };
        let frames: int = if cells.len() > 0 {
            1
        } else {
            0
        };
        &&& after@ == (HostView {
            session: SessionView {
                tabs: before.session@.tabs.update(
                    before.session.active as int,
                    after.session.active_tab(),
                ),
                ..before.session@
            },
            title,
            ..before@
        })
        &&& after.session.active_tab().framed_from(tab)
        &&& effects.len() == rings + titles + frames + render_requests(tab.panes@).len()
        &&& effects.skip(rings + titles + frames) == render_effects(render_requests(tab.panes@))
        &&& rings == 1 ==> effects[0] == Effect::Bell
        &&& titles == 1 ==> (effects[rings] matches Effect::SetTitle { title: told } && told@ == title)
        &&& frames == 1 ==> (effects[rings + titles] matches Effect::Frame { cells: sent } && sent@
            == cells)
    }

    /// Renders the focused tab: collects the cells that have changed since
    /// the last frame from every pane.
    pub fn render(&mut self) -> (effects: Vec<Effect>)
        requires
            old(self).wf(),
        ensures
            final(self).wf(),
            Self::render_post(*old(self), *final(self), effects@),
    {
        let mut effects: Vec<Effect> = Vec::new();
        let requests = self.session.tabs[self.session.active].plugin_renders();
        let (cells, bell) = self.session.render();
        if bell {
            effects.push(Effect::Bell);
        }
        let tab = &self.session.tabs[self.session.active];
        proof {
            let before = old(self).session.active_tab();
            let f = before.lemma_focus_index();
            assert(tab.panes@[f].framed_from(before.panes@[f]));
            tab.lemma_index_unique(f);
            assert(tab.index_of(tab.focused) == f);
            assert(tab.panes@[f].screen@.title == old(self).focus_title());
        }
        match tab.find(tab.focused) {
            Some(i) => {
                let title = &tab.panes[i].screen.title;
                if !same_bytes(title, &self.title) {
                    let told = crate::emulator::bytes_from(title, 0);
                    let kept = crate::emulator::bytes_from(title, 0);
                    assert(told@ =~= title@ && kept@ =~= title@);
                    self.title = kept;
                    effects.push(Effect::SetTitle { title: told });
                }
            },
            None => {},
        }
        if cells.len() > 0 {
            effects.push(Effect::Frame { cells });
        }
        let ghost first = effects@;
        let n = requests.len();
        let mut i: usize = 0;
        while i < n
            invariant
                i <= n,
                n == requests@.len(),
                effects@ == first + render_effects(requests@).take(i as int),
            decreases n - i,
        {
            let r = requests[i];
            effects.push(Effect::PluginRender { plugin: r.plugin, rows: r.rows, cols: r.cols });
            assert(effects@ =~= first + render_effects(requests@).take(i + 1));
            i += 1;
        }
        proof {
            assert(render_effects(requests@).take(n as int) =~= render_effects(requests@));
            assert(effects@.skip(first.len() as int) =~= render_effects(requests@));
        }
        effects
    }

    /// What a change of the input mode comes to: the host holds the new
    /// mode, and every plugin that has subscribed to mode updates is told.
    pub open spec fn mode_update_post(before: Host, after: Host, mode: InputMode, effects: Seq<Effect>) -> bool {
        &&& after@ == (HostView { mode, ..before@ })
        &&& effects == mode_notices(subscribed_in(before.session.tabs@, EventKind::ModeUpdate), mode)
    }

    /// Takes the new input mode and tells the plugins that have subscribed
    /// to mode updates.
    pub fn mode_update(&mut self, mode: InputMode) -> (effects: Vec<Effect>)
        requires
            old(self).wf(),
        ensures
            final(self).wf(),
            Self::mode_update_post(*old(self), *final(self), mode, effects@),
    {
        self.mode = mode;
        let plugins = self.session.subscribers(EventKind::ModeUpdate);
        let mut effects: Vec<Effect> = Vec::new();
        let n = plugins.len();
        let mut i: usize = 0;
        while i < n
            invariant
                i <= n,
                n == plugins@.len(),
                effects@ == mode_notices(plugins@, mode).take(i as int),
            decreases n - i,
        {
            effects.push(
                Effect::PluginUpdate { plugin: plugins[i], event: PluginEvent::ModeUpdate(mode) },
            );
            assert(effects@ =~= mode_notices(plugins@, mode).take(i + 1));
            i += 1;
        }
        assert(effects@ =~= mode_notices(plugins@, mode));
        effects
    }

    /// The effects that tell every plugin that has subscribed to tab
    /// updates how many tabs there are and which one has the focus.
    pub open spec fn tab_news(&self) -> Seq<Effect> {
        tab_notices(
            subscribed_in(self.session.tabs@, EventKind::TabUpdate),
            self.session.tabs@.len() as usize,
            self.session.active,
        )
    }

    /// Tells every plugin that has subscribed to tab updates how many tabs
    /// there are and which one has the focus.
    pub fn tab_update(&self) -> (effects: Vec<Effect>)
        ensures
            effects@ == self.tab_news(),
    {
        let plugins = self.session.subscribers(EventKind::TabUpdate);
        let tabs = self.session.tabs.len();
        let active = self.session.active;
        let mut effects: Vec<Effect> = Vec::new();
        let n = plugins.len();
        let mut i: usize = 0;
        while i < n
            invariant
                i <= n,
                n == plugins@.len(),
                effects@ == tab_notices(plugins@, tabs, active).take(i as int),
            decreases n - i,
        {
            effects.push(
                Effect::PluginUpdate {
                    plugin: plugins[i],
                    event: PluginEvent::TabUpdate { tabs, active },
                },
            );
            assert(effects@ =~= tab_notices(plugins@, tabs, active).take(i + 1));
            i += 1;
        }
        assert(effects@ =~= tab_notices(plugins@, tabs, active));
        effects
    }
}

impl Host {
    /// The plugin of `pane`, if the session has the pane and it is a plugin pane.
    pub open spec fn plugin_of(&self, pane: PaneId) -> Option<Plugin> {
        let tab = self.session.tabs@[self.session.tab_of(pane)];
        if self.session.has_pane(pane) {
            match tab.panes@[tab.index_of(pane)].kind {
                PaneKind::Plugin { plugin } => Some(plugin),
                PaneKind::Terminal => None,
            }
        } else {
            None
        }
    }

    /// The host is `before` but for the plugin of `pane`, which is `plugin` now.
    pub open spec fn with_plugin(&self, before: Host, pane: PaneId, plugin: Plugin) -> bool {
        let t = before.session.tab_of(pane);
        &&& self@ == (HostView {
            session: SessionView {
                tabs: before.session@.tabs.update(t, self.session.tabs@[t]),
                ..before.session@
            },
            ..before@
        })
        &&& self.session.tabs@[t].recast_from(
            before.session.tabs@[t],
            before.session.tabs@[t].index_of(pane),
            PaneKind::Plugin { plugin },
        )
    }

    /// The plugin of `pane`, if the session has the pane and it is a plugin pane.
    pub fn plugin(&self, pane: PaneId) -> (found: Option<Plugin>)
        requires
            self.wf(),
        ensures
            found == self.plugin_of(pane),
    {
        match self.session.kind_of(pane) {
            Some(PaneKind::Plugin { plugin }) => Some(plugin),
            _ => None,
        }
    }

    /// What a subscription comes to.
    pub open spec fn subscribe_post(before: Host, after: Host, pane: PaneId, events: EventMask) -> bool {
        match before.plugin_of(pane) {
            None => after@ == before@,
            Some(plugin) => exists|now: Plugin|
                {
                    &&& #[trigger] after.with_plugin(before, pane, now)
                    &&& now.id == plugin.id
                    &&& now.overruns == plugin.overruns
                    &&& forall|kind: EventKind|
                        now.subscriptions.has(kind) <==> plugin.subscriptions.has(kind) || events.has(
                            kind,
                        )
                },
        }
    }

    /// Adds `events` to what the plugin of `pane` has subscribed to. For a
    /// pane that is gone or is no plugin pane, nothing changes.
    pub fn subscribe(&mut self, pane: PaneId, events: EventMask)
        requires
            old(self).wf(),
        ensures
            final(self).wf(),
            Self::subscribe_post(*old(self), *final(self), pane, events),
    {
        match self.plugin(pane) {
            None => {},
            Some(plugin) => {
                let mut now = plugin;
                now.subscribe(events);
                self.session.set_kind(pane, PaneKind::Plugin { plugin: now });
                assert(self.with_plugin(*old(self), pane, now));
            },
        }
    }

    /// What giving subscriptions up comes to.
    pub open spec fn unsubscribe_post(before: Host, after: Host, pane: PaneId, events: EventMask) -> bool {
        match before.plugin_of(pane) {
            None => after@ == before@,
            Some(plugin) => exists|now: Plugin|
                {
                    &&& #[trigger] after.with_plugin(before, pane, now)
                    &&& now.id == plugin.id
                    &&& now.overruns == plugin.overruns
                    &&& forall|kind: EventKind|
                        now.subscriptions.has(kind) <==> plugin.subscriptions.has(kind) && !events.has(
                            kind,
                        )
                },
        }
    }

    /// Takes `events` from what the plugin of `pane` has subscribed to. For
    /// a pane that is gone or is no plugin pane, nothing changes.
    pub fn unsubscribe(&mut self, pane: PaneId, events: EventMask)
        requires
            old(self).wf(),
        ensures
            final(self).wf(),
            Self::unsubscribe_post(*old(self), *final(self), pane, events),
    {
        match self.plugin(pane) {
            None => {},
            Some(plugin) => {
                let mut now = plugin;
                now.unsubscribe(events);
                self.session.set_kind(pane, PaneKind::Plugin { plugin: now });
                assert(self.with_plugin(*old(self), pane, now));
            },
        }
    }

    /// What a render of a plugin comes to: one in time clears its count of
    /// missed deadlines; one that missed its deadline adds to the count, and
    /// with the fifth in a row the pane of the plugin is closed.
    pub open spec fn plugin_rendered_post(
        before: Host,
        after: Host,
        pane: PaneId,
        in_time: bool,
        effects: Seq<Effect>,
    ) -> bool {
        match before.plugin_of(pane) {
            None => after@ == before@ && effects == Seq::<Effect>::empty(),
            Some(plugin) => if plugin.verdict(in_time) == crate::plugin::RenderVerdict::Remove {
                Self::close_post(before, after, pane, effects)
            } else {
                &&& effects == Seq::<Effect>::empty()
                &&& after.with_plugin(
                    before,
                    pane,
                    Plugin {
                        overruns: if in_time {
                            0
                        } else {
                            (plugin.overruns + 1) as u8
                        },
                        ..plugin
                    },
                )
            },
        }
    }

    /// Takes note that the plugin of `pane` has rendered, `in_time` or not.
    pub fn plugin_rendered(&mut self, pane: PaneId, in_time: bool) -> (effects: Vec<Effect>)
        requires
            old(self).wf(),
        ensures
            final(self).wf(),
            Self::plugin_rendered_post(*old(self), *final(self), pane, in_time, effects@),
    {
        match self.plugin(pane) {
            None => Vec::new(),
            Some(plugin) => {
                let mut now = plugin;
                match now.rendered(in_time) {
                    crate::plugin::RenderVerdict::Remove => self.close_pane(pane),
                    _ => {
                        self.session.set_kind(pane, PaneKind::Plugin { plugin: now });
                        Vec::new()
                    },
                }
            },
        }
    }

    /// What text that a plugin draws comes to: it is drawn into the pane of
    /// the plugin. Text for a pane that is gone or is no plugin pane is
    /// dropped.
    pub open spec fn draw_text_post(before: Host, after: Host, pane: PaneId, text: DrawnText) -> bool {
        let t = before.session.tab_of(pane);
        let tab = before.session.tabs@[t];
        let i = tab.index_of(pane);
        if before.plugin_of(pane) is Some {
            &&& after@ == (HostView {
                session: SessionView {
                    tabs: before.session@.tabs.update(t, after.session.tabs@[t]),
                    ..before.session@
                },
                ..before@
            })
            &&& after.session.tabs@[t].with_pane(tab, i)
            &&& after.session.tabs@[t].focused == tab.focused
            &&& after.session.tabs@[t].panes@[i].drawn_from(tab.panes@[i], text)
        } else {
            after@ == before@
        }
    }

    /// Draws the text of a plugin into its pane.
    pub fn draw_text(&mut self, pane: PaneId, text: &DrawnText)
        requires
            old(self).wf(),
        ensures
            final(self).wf(),
            Self::draw_text_post(*old(self), *final(self), pane, *text),
    {
        if self.plugin(pane).is_some() {
            self.session.draw(pane, text);
        }
    }

    /// What the word of a plugin on whether its pane can take the focus
    /// comes to. A pane that has the focus and can take it no more passes it
    /// to the next pane of its tab that can; where there is none, or where
    /// the pane is gone or is no plugin pane, nothing changes.
    pub open spec fn set_selectable_post(before: Host, after: Host, pane: PaneId, selectable: bool) -> bool {
        let t = before.session.tab_of(pane);
        let tab = before.session.tabs@[t];
        let i = tab.index_of(pane);
        if before.plugin_of(pane) is Some && tab.can_select(pane, selectable) {
            &&& after@ == (HostView {
                session: SessionView {
                    tabs: before.session@.tabs.update(t, after.session.tabs@[t]),
                    ..before.session@
                },
                ..before@
            })
            &&& after.session.tabs@[t].with_pane(tab, i)
            &&& after.session.tabs@[t].panes@[i] == (Pane { selectable, ..tab.panes@[i] })
            &&& after.session.tabs@[t].focused == if !selectable && tab.focused == pane {
                tab.panes@[tab.next_selectable(i)].id
            } else {
                tab.focused
            }
        } else {
            after@ == before@
        }
    }

    /// Takes the word of a plugin on whether its pane can take the focus.
    pub fn set_selectable(&mut self, pane: PaneId, selectable: bool)
        requires
            old(self).wf(),
        ensures
            final(self).wf(),
            Self::set_selectable_post(*old(self), *final(self), pane, selectable),
    {
        if self.plugin(pane).is_some() {
            self.session.set_selectable(pane, selectable);
        }
    }

    /// What the coming of a client comes to: it is attached under the next
    /// client identifier, and the session is fitted to its terminal.
    pub open spec fn new_client_post(
        before: Host,
        after: Host,
        rows: u16,
        cols: u16,
        out: Result<Vec<Effect>, SessionError>,
    ) -> bool {
        match out {
            Err(e) => {
                &&& e == SessionError::IdsExhausted
                &&& before.next_client == u64::MAX || before.clients@.len() == usize::MAX
                &&& after@ == before@
            },
            Ok(effects) => {
                let client = ClientId(before.next_client);
                let fitted = Host {
                    clients: before.clients,
                    next_client: before.next_client,
                    ..after
                };
                &&& before.next_client < u64::MAX
                &&& after.clients@ == before.clients@.push(client)
                &&& after.next_client == before.next_client + 1
                &&& effects@.len() > 0
                &&& effects@[0] == Effect::Attached { client }
                &&& Self::terminal_resize_post(before, fitted, rows, cols, effects@.skip(1))
            },
        }
    }

    /// Attaches a client whose terminal has `rows` by `cols` cells.
    pub fn new_client(&mut self, rows: u16, cols: u16) -> (out: Result<Vec<Effect>, SessionError>)
        requires
            old(self).wf(),
        ensures
            final(self).wf(),
            Self::new_client_post(*old(self), *final(self), rows, cols, out),
    {
        if self.next_client == u64::MAX || self.clients.len() == usize::MAX {
            return Err(SessionError::IdsExhausted);
        }
        let client = ClientId(self.next_client);
        let mut sizes = self.terminal_resize(rows, cols);
        let ghost fitted = *self;
        let ghost rest = sizes@;
        self.clients.push(client);
        self.next_client = self.next_client + 1;
        let mut effects: Vec<Effect> = Vec::new();
        effects.push(Effect::Attached { client });
        effects.append(&mut sizes);
        proof {
            assert(effects@.skip(1) =~= rest);
            let back = Host { clients: old(self).clients, next_client: old(self).next_client, ..*self };
            assert(back@ == fitted@);
            assert(back.session == fitted.session);
        }
        Ok(effects)
    }

    /// Whether the client is attached.
    pub open spec fn has_client(&self, client: ClientId) -> bool {
        self.clients@.contains(client)
    }

    /// What the going of a client comes to: it is attached no more; where
    /// it was the last one, the session is over. A client that is not
    /// attached changes nothing.
    pub open spec fn client_exit_post(before: Host, after: Host, client: ClientId, effects: Seq<Effect>) -> bool {
        if !before.has_client(client) {
            after@ == before@ && effects == Seq::<Effect>::empty()
        } else if before.clients@.len() == 1 {
            &&& after@ == (HostView { clients: Seq::empty(), running: false, ..before@ })
            &&& effects == before.farewell()
        } else {
            &&& after@ == (HostView {
                clients: before.clients@.remove(before.clients@.index_of(client)),
                ..before@
            })
            &&& effects == Seq::<Effect>::empty()
        }
    }

    /// Takes note that a client has gone.
    pub fn client_exit(&mut self, client: ClientId) -> (effects: Vec<Effect>)
        requires
            old(self).wf(),
        ensures
            final(self).wf(),
            Self::client_exit_post(*old(self), *final(self), client, effects@),
    {
        let n = self.clients.len();
        let mut i: usize = 0;
        while i < n
            invariant
                i <= n,
                n == self.clients@.len(),
                *self == *old(self),
                self.wf(),
                forall|k: int| 0 <= k < i ==> self.clients@[k] != client,
            decreases n - i,
        {
            if self.clients[i] == client {
                proof {
                    let k = self.clients@.index_of(client);
                    assert(self.clients@[i as int] == client);
                    assert(self.clients@.contains(client));
                    if k < i {
                        assert(self.clients@[k].0 < self.clients@[i as int].0);
                    } else if k > i {
                        assert(self.clients@[i as int].0 < self.clients@[k].0);
                    }
                }
                self.clients.remove(i);
                proof {
                    assert forall|a: int, b: int| 0 <= a < b < self.clients@.len() implies (
                    #[trigger] self.clients@[a]).0 < (#[trigger] self.clients@[b]).0 by {
                        let wa = if a < i { a } else { a + 1 };
                        let wb = if b < i { b } else { b + 1 };
                        assert(old(self).clients@[wa].0 < old(self).clients@[wb].0);
                    }
                    assert forall|a: int| 0 <= a < self.clients@.len() implies (
                    #[trigger] self.clients@[a]).0 < self.next_client by {
                        let wa = if a < i { a } else { a + 1 };
                        assert(old(self).clients@[wa].0 < old(self).next_client);
                    }
                }
                if n == 1 {
                    assert(self.clients@ =~= Seq::<ClientId>::empty());
                    return self.shut_down(0);
                }
                return Vec::new();
            }
            i += 1;
        }
        proof {
            if self.clients@.contains(client) {
                let k = choose|k: int| 0 <= k < self.clients@.len() && self.clients@[k] == client;
                assert(self.clients@[k] != client);
            }
        }
        Vec::new()
    }

    /// The effect that starts what is to run in a new pane.
    pub open spec fn opening(content: Content, kind: PaneKind, pane: PaneId, rect: crate::geometry::Rect) -> Effect {
        match content {
            Content::Shell => Effect::SpawnPty { pane, rows: rect.rows, cols: rect.cols },
            Content::Run { command } => Effect::SpawnCommand {
                pane,
                command,
                rows: rect.rows,
                cols: rect.cols,
            },
            Content::Plugin { name } => Effect::LoadPlugin {
                plugin: match kind {
                    PaneKind::Plugin { plugin } => plugin.id,
                    PaneKind::Terminal => PluginId(0),
                },
                pane,
                name,
                rows: rect.rows,
                cols: rect.cols,
            },
        }
    }

    /// Why a tab with the layout of `template` cannot be opened, if it
    /// cannot: a ratio is out of range, or the identifiers do not suffice.
    pub open spec fn layout_refusal(&self, template: Template) -> Option<SessionError> {
        let s = self.session;
        if !template.valid() {
            Some(SessionError::InvalidLayout)
        } else if s.next_pane + template.count() > u64::MAX || s.next_tab == u64::MAX
            || s.tabs@.len() == usize::MAX || self.next_plugin + plugins_in(template.contents())
            > u64::MAX {
            Some(SessionError::IdsExhausted)
        } else {
            None
        }
    }

    /// What opening a tab with a layout comes to: the tab has the tree of
    /// the template, with new panes numbered from the next pane identifier
    /// on in layout order, each with the rectangle that the tree gives it;
    /// the first pane has the focus; and for each pane an effect starts what
    /// is to run in it.
    pub open spec fn new_tab_from_post(
        before: Host,
        after: Host,
        name: String,
        template: Template,
        out: Result<Vec<Effect>, SessionError>,
    ) -> bool {
        let s = before.session;
        let made = after.session.tabs@[s.tabs@.len() as int];
        let contents = template.contents();
        let kinds = kinds_of(contents, before.next_plugin as int);
        let rects = made.tree.rects(s.area());
        match out {
            Err(e) => Some(e) == before.layout_refusal(template) && after@ == before@,
            Ok(effects) => {
                &&& before.layout_refusal(template) is None
                &&& after@ == (HostView {
                    session: SessionView {
                        tabs: s@.tabs.push(made),
                        active: s.tabs@.len() as usize,
                        next_pane: (s.next_pane + template.count()) as u64,
                        next_tab: (s.next_tab + 1) as u64,
                        ..s@
                    },
                    next_plugin: (before.next_plugin + plugins_in(contents)) as u64,
                    ..before@
                })
                &&& made.id == crate::ids::TabId(s.next_tab)
                &&& made.name == name
                &&& made.area == s.area()
                &&& made.tree == template.shape(s.next_pane as int)
                &&& made.focused == PaneId(s.next_pane)
                &&& made.panes@.len() == template.count()
                &&& forall|i: int|
                    0 <= i < template.count() ==> (#[trigger] made.panes@[i]).is_new(
                        PaneId((s.next_pane + i) as u64),
                        kinds[i],
                        rects[i],
                    )
                &&& effects@ == Seq::new(
                    template.count(),
                    |i: int|
                        Self::opening(
                            contents[i],
                            kinds[i],
                            PaneId((s.next_pane + i) as u64),
                            rects[i],
                        ),
                )
            },
        }
    }

    /// What opening a tab comes to, with a layout or without.
    pub open spec fn any_new_tab_post(
        before: Host,
        after: Host,
        name: String,
        layout: Option<Template>,
        out: Result<Vec<Effect>, SessionError>,
    ) -> bool {
        match layout {
            None => Self::new_tab_post(before, after, name, out),
            Some(template) => Self::new_tab_from_post(before, after, name, template, out),
        }
    }

    /// Opens a tab with the layout of `template` after the other tabs and
    /// gives it the focus.
    pub fn new_tab_from(&mut self, name: String, template: Template) -> (out: Result<
        Vec<Effect>,
        SessionError,
    >)
        requires
            old(self).wf(),
        ensures
            final(self).wf(),
            Self::new_tab_from_post(*old(self), *final(self), name, template, out),
    {
        if !template.is_valid() {
            return Err(SessionError::InvalidLayout);
        }
        let first = self.session.next_pane;
        let count = match template.size(u64::MAX - first) {
            None => {
                return Err(SessionError::IdsExhausted);
            },
            Some(count) => count,
        };
        let at = self.session.tabs.len();
        if self.session.next_tab == u64::MAX || at == usize::MAX {
            return Err(SessionError::IdsExhausted);
        }
        proof {
            template.lemma_shape(first as int);
        }
        let ghost wanted = template.contents();
        let mut contents: Vec<Content> = Vec::new();
        let tree = template.into_tree(first, &mut contents);
        assert(contents@ =~= wanted);
        let plugins = count_plugins(&contents);
        if plugins as u64 > u64::MAX - self.next_plugin {
            return Err(SessionError::IdsExhausted);
        }
        let their_kinds = kinds(&contents, self.next_plugin);
        let ghost kinds_seq = their_kinds@;
        self.session.add_tab(name, tree, their_kinds);
        self.next_plugin = self.next_plugin + plugins as u64;
        let tab = &self.session.tabs[at];
        let ghost rects = tab.tree.rects(old(self).session.area());
        let mut effects: Vec<Effect> = Vec::new();
        let n = contents.len();
        let mut i: usize = 0;
        while i < n
            invariant
                i <= n,
                n == contents@.len(),
                n == wanted.len(),
                n == tab.panes@.len(),
                first + n <= u64::MAX,
                forall|j: int| i <= j < n ==> contents@[j] == wanted[j],
                forall|j: int|
                    0 <= j < n ==> (#[trigger] tab.panes@[j]).is_new(
                        PaneId((first + j) as u64),
                        kinds_seq[j],
                        rects[j],
                    ),
                effects@.len() == i,
                forall|j: int|
                    0 <= j < i ==> #[trigger] effects@[j] == Self::opening(
                        wanted[j],
                        kinds_seq[j],
                        PaneId((first + j) as u64),
                        rects[j],
                    ),
            decreases n - i,
        {
            let mut content = Content::Shell;
            core::mem::swap(&mut contents[i], &mut content);
            let pane = &tab.panes[i];
            let rows = pane.rect.rows;
            let cols = pane.rect.cols;
            let effect = match content {
                Content::Shell => Effect::SpawnPty { pane: pane.id, rows, cols },
                Content::Run { command } => Effect::SpawnCommand { pane: pane.id, command, rows, cols },
                Content::Plugin { name } => Effect::LoadPlugin {
                    plugin: match pane.kind {
                        PaneKind::Plugin { plugin } => plugin.id,
                        PaneKind::Terminal => PluginId(0),
                    },
                    pane: pane.id,
                    name,
                    rows,
                    cols,
                },
            };
            effects.push(effect);
            i += 1;
        }
        proof {
            assert(effects@ =~= Seq::new(
                template.count(),
                |i: int|
                    Self::opening(wanted[i], kinds_seq[i], PaneId((first + i) as u64), rects[i]),
            ));
        }
        Ok(effects)
    }

    /// What a notice comes to: every plugin that has subscribed to its kind
    /// is told. Nothing changes.
    pub open spec fn notify_post(&self, notice: Notice, effects: Seq<Effect>) -> bool {
        effects == notices(subscribed_in(self.session.tabs@, event_of(notice).1), notice)
    }

    /// Tells the plugins that have subscribed to it what has happened.
    pub fn notify(&self, notice: Notice) -> (effects: Vec<Effect>)
        ensures
            self.notify_post(notice, effects@),
    {
        let kind = match notice {
            Notice::Timer(_) => EventKind::Timer,
            Notice::CopyToClipboard => EventKind::CopyToClipboard,
            Notice::InputReceived => EventKind::InputReceived,
        };
        let plugins = self.session.subscribers(kind);
        let mut effects: Vec<Effect> = Vec::new();
        let n = plugins.len();
        let mut i: usize = 0;
        while i < n
            invariant
                i <= n,
                n == plugins@.len(),
                effects@ == notices(plugins@, notice).take(i as int),
            decreases n - i,
        {
            let event = match notice {
                Notice::Timer(elapsed) => PluginEvent::Timer(elapsed),
                Notice::CopyToClipboard => PluginEvent::CopyToClipboard,
                Notice::InputReceived => PluginEvent::InputReceived,
            };
            effects.push(Effect::PluginUpdate { plugin: plugins[i], event });
            assert(effects@ =~= notices(plugins@, notice).take(i + 1));
            i += 1;
        }
        assert(effects@ =~= notices(plugins@, notice));
        effects
    }

    /// What the trap of a plugin comes to: its pane is closed. For a pane
    /// that is gone or is no plugin pane, nothing changes.
    pub open spec fn plugin_crashed_post(before: Host, after: Host, pane: PaneId, effects: Seq<Effect>) -> bool {
        if before.plugin_of(pane) is Some {
            Self::close_post(before, after, pane, effects)
        } else {
            after@ == before@ && effects == Seq::<Effect>::empty()
        }
    }

    /// Takes note that the plugin of `pane` has trapped: the pane is closed.
    pub fn plugin_crashed(&mut self, pane: PaneId) -> (effects: Vec<Effect>)
        requires
            old(self).wf(),
        ensures
            final(self).wf(),
            Self::plugin_crashed_post(*old(self), *final(self), pane, effects@),
    {
        if self.plugin(pane).is_some() {
            self.close_pane(pane)
        } else {
            Vec::new()
        }
    }

    /// What an instruction comes to while the session is on.
    pub open spec fn applied(
        before: Host,
        after: Host,
        instruction: Instruction,
        out: Result<Vec<Effect>, SessionError>,
    ) -> bool {
        match instruction {
            Instruction::PtyBytes { pane, bytes } => {
                &&& out matches Ok(effects)
                &&& effects@.len() == 0
                &&& Self::pty_bytes_post(before, after, pane, bytes@)
            },
            Instruction::PtyExit { pane, status } => {
                exists|first: Seq<Effect>|
                    {
                        &&& #[trigger] Self::pty_exit_post(before, after, pane, first)
                        &&& out matches Ok(effects)
                        &&& effects@ == first + after.tab_news()
                    }
            },
            Instruction::Key { bytes } => {
                &&& after@ == before@
                &&& out matches Ok(effects)
                &&& effects@ == before.key_effects(bytes)
            },
            Instruction::Mouse { event } => {
                &&& after@ == before@
                &&& out matches Ok(effects)
                &&& before.mouse_post(event, effects@)
            },
            Instruction::SplitHorizontally => Self::split_post(
                before,
                after,
                SplitDirection::Horizontal,
                out,
            ),
            Instruction::SplitVertically => Self::split_post(
                before,
                after,
                SplitDirection::Vertical,
                out,
            ),
            Instruction::MoveFocus { direction } => {
                &&& out matches Ok(effects)
                &&& effects@.len() == 0
                &&& Self::move_focus_post(before, after, direction)
            },
            Instruction::FocusNext => {
                &&& out matches Ok(effects)
                &&& effects@.len() == 0
                &&& Self::focus_next_post(before, after)
            },
            Instruction::Resize { direction } => {
                &&& out matches Ok(effects)
                &&& Self::resize_post(before, after, direction, effects@)
            },
            Instruction::NewTab { name, layout } => {
                exists|first: Result<Vec<Effect>, SessionError>|
                    {
                        &&& #[trigger] Self::any_new_tab_post(before, after, name, layout, first)
                        &&& match first {
                            Err(e) => out == Err::<Vec<Effect>, SessionError>(e),
                            Ok(made) => out matches Ok(effects) && effects@ == made@
                                + after.tab_news(),
                        }
                    }
            },
            Instruction::CloseTab => {
                exists|first: Seq<Effect>|
                    {
                        &&& #[trigger] Self::close_tab_post(before, after, first)
                        &&& out matches Ok(effects)
                        &&& effects@ == first + after.tab_news()
                    }
            },
            Instruction::SwitchTab { index } => {
                &&& Self::switch_tab_post(before, after, index)
                &&& out matches Ok(effects)
                &&& effects@ == after.tab_news()
            },
            Instruction::TerminalResize { rows, cols } => {
                &&& out matches Ok(effects)
                &&& Self::terminal_resize_post(before, after, rows, cols, effects@)
            },
            Instruction::OpenFile { path } => Self::open_file_post(before, after, path, out),
            Instruction::Render => {
                &&& out matches Ok(effects)
                &&& Self::render_post(before, after, effects@)
            },
            Instruction::Quit => {
                &&& out matches Ok(effects)
                &&& Self::quit_post(before, after, effects@)
            },
            Instruction::Abort { code } => {
                &&& out matches Ok(effects)
                &&& Self::abort_post(before, after, code, effects@)
            },
            Instruction::ModeUpdate { mode } => {
                &&& out matches Ok(effects)
                &&& Self::mode_update_post(before, after, mode, effects@)
            },
            Instruction::LoadPlugin { name } => Self::load_plugin_post(before, after, name, out),
            Instruction::PluginRendered { pane, in_time } => {
                &&& out matches Ok(effects)
                &&& Self::plugin_rendered_post(before, after, pane, in_time, effects@)
            },
            Instruction::Subscribe { pane, events } => {
                &&& out matches Ok(effects)
                &&& effects@.len() == 0
                &&& Self::subscribe_post(before, after, pane, events)
            },
            Instruction::Unsubscribe { pane, events } => {
                &&& out matches Ok(effects)
                &&& effects@.len() == 0
                &&& Self::unsubscribe_post(before, after, pane, events)
            },
            Instruction::DrawText { pane, text } => {
                &&& out matches Ok(effects)
                &&& effects@.len() == 0
                &&& Self::draw_text_post(before, after, pane, text)
            },
            Instruction::SetSelectable { pane, selectable } => {
                &&& out matches Ok(effects)
                &&& effects@.len() == 0
                &&& Self::set_selectable_post(before, after, pane, selectable)
            },
            Instruction::PluginCrashed { pane } => {
                &&& out matches Ok(effects)
                &&& Self::plugin_crashed_post(before, after, pane, effects@)
            },
            Instruction::Notify { notice } => {
                &&& after@ == before@
                &&& out matches Ok(effects)
                &&& before.notify_post(notice, effects@)
            },
            Instruction::NewClient { rows, cols } => Self::new_client_post(
                before,
                after,
                rows,
                cols,
                out,
            ),
            Instruction::ClientExit { client } => {
                &&& out matches Ok(effects)
                &&& Self::client_exit_post(before, after, client, effects@)
            },
        }
    }

    /// What an instruction comes to: while the session is on, what
    /// `applied` says; once it is over, nothing.
    pub open spec fn follows(
        before: Host,
        after: Host,
        instruction: Instruction,
        out: Result<Vec<Effect>, SessionError>,
    ) -> bool {
        if before.running {
            Self::applied(before, after, instruction, out)
        } else {
            &&& after@ == before@
            &&& out matches Ok(effects)
            &&& effects@.len() == 0
        }
    }

    /// Applies an instruction. Once the session is over, every instruction
    /// is dropped. An instruction that is refused changes nothing; one that
    /// names a pane that is gone is dropped.
    pub fn apply(&mut self, instruction: Instruction) -> (out: Result<Vec<Effect>, SessionError>)
        requires
            old(self).wf(),
        ensures
            final(self).wf(),
            Self::follows(*old(self), *final(self), instruction, out),
    {
        if !self.running {
            return Ok(Vec::new());
        }
        match instruction {
            Instruction::PtyBytes { pane, bytes } => {
                self.pty_bytes(pane, bytes.as_slice());
                Ok(Vec::new())
            },
            Instruction::PtyExit { pane, status } => {
                let mut effects = self.pty_exit(pane);
                let ghost first = effects@;
                let mut news = self.tab_update();
                effects.append(&mut news);
                assert(Self::pty_exit_post(*old(self), *self, pane, first));
                Ok(effects)
            },
            Instruction::Key { bytes } => Ok(self.key(bytes)),
            Instruction::Mouse { event } => Ok(self.mouse(event)),
            Instruction::SplitHorizontally => self.split(SplitDirection::Horizontal),
            Instruction::SplitVertically => self.split(SplitDirection::Vertical),
            Instruction::MoveFocus { direction } => {
                self.move_focus(direction);
                Ok(Vec::new())
            },
            Instruction::FocusNext => {
                self.focus_next();
                Ok(Vec::new())
            },
            Instruction::Resize { direction } => Ok(self.resize(direction)),
            Instruction::NewTab { name, layout } => {
                let first = match layout {
                    None => self.new_tab(name),
                    Some(template) => self.new_tab_from(name, template),
                };
                match first {
                    Err(e) => {
                        assert(Self::any_new_tab_post(
                            *old(self),
                            *self,
                            name,
                            layout,
                            Err::<Vec<Effect>, SessionError>(e),
                        ));
                        Err(e)
                    },
                    Ok(made) => {
                        let ghost witness = Ok::<Vec<Effect>, SessionError>(made);
                        let mut effects: Vec<Effect> = Vec::new();
                        let mut made = made;
                        effects.append(&mut made);
                        let mut news = self.tab_update();
                        effects.append(&mut news);
                        assert(Self::any_new_tab_post(*old(self), *self, name, layout, witness));
                        Ok(effects)
                    },
                }
            },
            Instruction::CloseTab => {
                let mut effects = self.close_tab();
                let ghost first = effects@;
                let mut news = self.tab_update();
                effects.append(&mut news);
                assert(Self::close_tab_post(*old(self), *self, first));
                Ok(effects)
            },
            Instruction::SwitchTab { index } => {
                self.switch_tab(index);
                Ok(self.tab_update())
            },
            Instruction::TerminalResize { rows, cols } => Ok(self.terminal_resize(rows, cols)),
            Instruction::OpenFile { path } => self.open_file(path),
            Instruction::Render => Ok(self.render()),
            Instruction::Quit => Ok(self.quit()),
            Instruction::Abort { code } => Ok(self.abort(code)),
            Instruction::ModeUpdate { mode } => Ok(self.mode_update(mode)),
            Instruction::LoadPlugin { name } => self.load_plugin(name),
            Instruction::PluginRendered { pane, in_time } => Ok(self.plugin_rendered(pane, in_time)),
            Instruction::Subscribe { pane, events } => {
                self.subscribe(pane, events);
                Ok(Vec::new())
            },
            Instruction::Unsubscribe { pane, events } => {
                self.unsubscribe(pane, events);
                Ok(Vec::new())
            },
            Instruction::DrawText { pane, text } => {
                self.draw_text(pane, &text);
                Ok(Vec::new())
            },
            Instruction::SetSelectable { pane, selectable } => {
                self.set_selectable(pane, selectable);
                Ok(Vec::new())
            },
            Instruction::PluginCrashed { pane } => Ok(self.plugin_crashed(pane)),
            Instruction::Notify { notice } => Ok(self.notify(notice)),
            Instruction::NewClient { rows, cols } => self.new_client(rows, cols),
            Instruction::ClientExit { client } => Ok(self.client_exit(client)),
        }
    }
}

impl Host {
    /// No instruction makes the next identifiers smaller.
    pub proof fn lemma_counters_grow(
        before: Host,
        after: Host,
        instruction: Instruction,
        out: Result<Vec<Effect>, SessionError>,
    )
        requires
            Self::follows(before, after, instruction, out),
        ensures
            before.session.next_pane <= after.session.next_pane,
            before.session.next_tab <= after.session.next_tab,
            before.next_plugin <= after.next_plugin,
            before.next_client <= after.next_client,
    {
    }

    /// Whether `hosts` are the states that a host goes through as it
    /// applies `instructions`, one after the other, with the results `outs`.
    pub open spec fn history(
        hosts: Seq<Host>,
        instructions: Seq<Instruction>,
        outs: Seq<Result<Vec<Effect>, SessionError>>,
    ) -> bool {
        &&& hosts.len() == instructions.len() + 1
        &&& outs.len() == instructions.len()
        &&& forall|k: int|
            0 <= k < instructions.len() ==> (#[trigger] hosts[k]).wf() && Self::follows(
                hosts[k],
                hosts[k + 1],
                instructions[k],
                outs[k],
            )
    }

    /// Identifiers grow along the life of a host: every pane and tab that
    /// it has at some time has an identifier below the next ones to hand
    /// out at that time and at any later time. So a pane or a tab that is
    /// made later, which gets the next identifier of its time, has a greater
    /// identifier than any that was there before.
    pub proof fn lemma_identifiers_grow(
        hosts: Seq<Host>,
        instructions: Seq<Instruction>,
        outs: Seq<Result<Vec<Effect>, SessionError>>,
        i: int,
        j: int,
    )
        requires
            Self::history(hosts, instructions, outs),
            0 <= i <= j < hosts.len(),
            i < instructions.len(),
        ensures
            hosts[i].session.next_pane <= hosts[j].session.next_pane,
            hosts[i].session.next_tab <= hosts[j].session.next_tab,
            forall|t: int, k: int|
                0 <= t < hosts[i].session.tabs@.len() && 0 <= k
                    < hosts[i].session.tabs@[t].panes@.len() ==> (
                #[trigger] hosts[i].session.tabs@[t].panes@[k]).id.0 < hosts[j].session.next_pane,
            forall|t: int|
                0 <= t < hosts[i].session.tabs@.len() ==> (#[trigger] hosts[i].session.tabs@[t]).id.0
                    < hosts[j].session.next_tab,
        decreases j - i,
    {
        hosts[i].session.lemma_ids_below_next();
        if i < j {
            Self::lemma_identifiers_grow(hosts, instructions, outs, i, j - 1);
            Self::lemma_counters_grow(hosts[j - 1], hosts[j], instructions[j - 1], outs[j - 1]);
        }
    }

    /// Bytes of a child that reach its pane in two instructions leave the
    /// pane as the same bytes do that reach it in one: none is lost, none
    /// comes twice, and they keep their order.
    pub proof fn lemma_bytes_in_order(
        a: Host,
        b: Host,
        c: Host,
        pane: PaneId,
        first: Seq<u8>,
        second: Seq<u8>,
    )
        requires
            a.wf(),
            b.wf(),
            a.takes_bytes(pane),
            Self::pty_bytes_post(a, b, pane, first),
            Self::pty_bytes_post(b, c, pane, second),
        ensures
            b.takes_bytes(pane),
            Self::pty_bytes_post(a, c, pane, first + second),
    {
        let t = a.session.tab_of(pane);
        let tab = a.session.tabs@[t];
        let i = tab.index_of(pane);
        let mid = b.session.tabs@[t];
        assert(tab.pane_ids()[i] == tab.panes@[i].id);
        assert(mid.panes@[i].id == pane);
        assert(mid.pane_ids()[i] == pane);
        assert(b.session.tabs@[t].has(pane));
        assert(b.session.tab_of(pane) == t) by {
            let u = b.session.tab_of(pane);
            assert(b.session.tabs@[u].has(pane));
        }
        mid.lemma_index_unique(i);
        crate::emulator::lemma_feed_concat(tab.panes@[i].screen@, first, second);
        let last = c.session.tabs@[t];
        assert(c.session@.tabs =~= a.session@.tabs.update(t, last));
        assert forall|j: int| 0 <= j < last.panes@.len() && j != i implies last.panes@[j]
            == tab.panes@[j] by {
            assert(last.panes@[j] == mid.panes@[j]);
        }
    }
}

/// Whether two vectors hold the same bytes.
pub fn same_bytes(a: &Vec<u8>, b: &Vec<u8>) -> (same: bool)
    ensures
        same == (a@ == b@),
{
    if a.len() != b.len() {
        return false;
    }
    let n = a.len();
    let mut i: usize = 0;
    while i < n
        invariant
            i <= n,
            n == a@.len(),
            n == b@.len(),
            forall|k: int| 0 <= k < i ==> a@[k] == b@[k],
        decreases n - i,
    {
        if a[i] != b[i] {
            return false;
        }
        i += 1;
    }
    assert(a@ =~= b@);
    true
}

/// The instruction that a message of the client `from` stands for. A move
/// of the focus without a direction goes to the next pane.
pub open spec fn instruction_for(message: ServerInstruction, from: ClientId) -> Instruction {
    match message {
        ServerInstruction::SplitHorizontally => Instruction::SplitHorizontally,
        ServerInstruction::SplitVertically => Instruction::SplitVertically,
        ServerInstruction::MoveFocus => Instruction::FocusNext,
        ServerInstruction::OpenFile(path) => Instruction::OpenFile { path },
        ServerInstruction::NewClient { rows, cols } => Instruction::NewClient { rows, cols },
        ServerInstruction::ClientExit => Instruction::ClientExit { client: from },
        ServerInstruction::TerminalResize { rows, cols } => Instruction::TerminalResize {
            rows,
            cols,
        },
        ServerInstruction::Key(bytes) => Instruction::Key { bytes },
        ServerInstruction::Mouse { row, col, button, pressed } => Instruction::Mouse {
            event: MouseEvent { row, col, button, pressed },
        },
        ServerInstruction::Quit => Instruction::Quit,
    }
}

/// Turns a message of the client `from` into the instruction that it stands for.
pub fn as_instruction(message: ServerInstruction, from: ClientId) -> (instruction: Instruction)
    ensures
        instruction == instruction_for(message, from),
{
    match message {
        ServerInstruction::SplitHorizontally => Instruction::SplitHorizontally,
        ServerInstruction::SplitVertically => Instruction::SplitVertically,
        ServerInstruction::MoveFocus => Instruction::FocusNext,
        ServerInstruction::OpenFile(path) => Instruction::OpenFile { path },
        ServerInstruction::NewClient { rows, cols } => Instruction::NewClient { rows, cols },
        ServerInstruction::ClientExit => Instruction::ClientExit { client: from },
        ServerInstruction::TerminalResize { rows, cols } => Instruction::TerminalResize {
            rows,
            cols,
        },
        ServerInstruction::Key(bytes) => Instruction::Key { bytes },
        ServerInstruction::Mouse { row, col, button, pressed } => Instruction::Mouse {
            event: MouseEvent { row, col, button, pressed },
        },
        ServerInstruction::Quit => Instruction::Quit,
    }
}

/// Sorts an effect: one that is for the clients becomes the message to send
/// them; any other comes back as it is.
pub fn for_clients(effect: Effect) -> (out: Result<ClientInstruction, Effect>)
    ensures
        out == match effect {
            Effect::Frame { cells } => Ok::<ClientInstruction, Effect>(
                ClientInstruction::FrameDelta(cells),
            ),
            Effect::SetTitle { title } => Ok(ClientInstruction::SetTitle(title)),
            Effect::Bell => Ok(ClientInstruction::Bell),
            Effect::Exit { code } => Ok(ClientInstruction::Exit(code)),
            other => Err(other),
        },
{
    match effect {
        Effect::Frame { cells } => Ok(ClientInstruction::FrameDelta(cells)),
        Effect::SetTitle { title } => Ok(ClientInstruction::SetTitle(title)),
        Effect::Bell => Ok(ClientInstruction::Bell),
        Effect::Exit { code } => Ok(ClientInstruction::Exit(code)),
        other => Err(other),
    }
}

} // verus!
