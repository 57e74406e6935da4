use zellij::cell::Cell;
use zellij::frame::FrameCell;
use zellij::geometry::{Direction, Rect, SplitDirection};
use zellij::host::{
    start, start_from, Effect, Host, InputMode, Instruction, MouseEvent, Notice, PluginEvent,
};
use zellij::cell::{Attrs, Color, Pen};
use zellij::ids::{ClientId, PaneId, PluginId, TabId};
use zellij::layout::LayoutNode;
use zellij::pane::{DrawnText, Pane, PaneKind};
use zellij::plugin::{EventKind, EventMask};
use zellij::session::{PaneClosing, Session, SessionError, TabClosing, RESIZE_STEP};
use zellij::tab::LayoutError;
use zellij::template::{Content, Template};
use zellij::geometry::Ratio;
use zellij::plugin::Plugin;

fn host_80x24() -> Host {
    start(24, 80).0
}

fn apply(host: &mut Host, instruction: Instruction) -> Vec<Effect> {
    host.apply(instruction).unwrap()
}

fn pane(host: &Host, id: u64) -> &Pane {
    host.session
        .tabs
        .iter()
        .flat_map(|t| t.panes.iter())
        .find(|p| p.id == PaneId(id))
        .unwrap()
}

fn row_text(pane: &Pane, r: usize) -> String {
    pane.screen.lines.lines[r].iter().map(|c| c.ch).collect::<String>().trim_end().to_string()
}

fn rect(row: u16, col: u16, rows: u16, cols: u16) -> Rect {
    Rect { row, col, rows, cols }
}

fn all_pane_ids(host: &Host) -> Vec<u64> {
    host.session.tabs.iter().flat_map(|t| t.panes.iter()).map(|p| p.id.0).collect()
}

#[test]
fn start_makes_one_tab_with_one_pane() {
    let (host, effects) = start(24, 80);
    assert_eq!(
        effects,
        vec![
            Effect::Attached { client: ClientId(0) },
            Effect::SpawnPty { pane: PaneId(0), rows: 24, cols: 80 },
        ]
    );
    assert_eq!(host.clients, vec![ClientId(0)]);
    assert_eq!(host.next_client, 1);
    assert!(host.running);
    assert_eq!(host.mode, InputMode::Normal);
    assert_eq!(host.session.tabs.len(), 1);
    assert_eq!(host.session.active, 0);
    assert_eq!((host.session.rows, host.session.cols), (24, 80));
    let tab = &host.session.tabs[0];
    assert_eq!(tab.id, TabId(0));
    assert_eq!(tab.name, "Tab #1");
    assert_eq!(tab.focused, PaneId(0));
    assert_eq!(tab.tree, LayoutNode::Leaf { pane: PaneId(0) });
    assert_eq!(tab.panes.len(), 1);
    assert_eq!(tab.panes[0].rect, rect(0, 0, 24, 80));
    assert_eq!(tab.panes[0].kind, PaneKind::Terminal);
    assert!(tab.panes[0].selectable);
    assert_eq!((host.session.next_pane, host.session.next_tab), (1, 1));
}

#[test]
fn split_then_type_reaches_the_new_pane() {
    let mut host = host_80x24();
    let effects = apply(&mut host, Instruction::SplitVertically);
    assert_eq!(
        effects,
        vec![
            Effect::SpawnPty { pane: PaneId(1), rows: 24, cols: 40 },
            Effect::SetWindowSize { pane: PaneId(0), rows: 24, cols: 40 },
        ]
    );
    assert_eq!(pane(&host, 0).rect, rect(0, 0, 24, 40));
    assert_eq!(pane(&host, 1).rect, rect(0, 40, 24, 40));
    assert_eq!(host.session.tabs[0].focused, PaneId(1));
    let effects = apply(&mut host, Instruction::Key { bytes: b"hello\n".to_vec() });
    assert_eq!(effects, vec![Effect::WritePty { pane: PaneId(1), bytes: b"hello\n".to_vec() }]);
    let effects = apply(
        &mut host,
        Instruction::PtyBytes { pane: PaneId(1), bytes: b"hello\r\n".to_vec() },
    );
    assert_eq!(effects, vec![]);
    assert_eq!(row_text(pane(&host, 1), 0), "hello");
    assert_eq!(row_text(pane(&host, 0), 0), "");
}

#[test]
fn three_resizes_to_the_left() {
    let mut host = host_80x24();
    apply(&mut host, Instruction::SplitVertically);
    assert_eq!(RESIZE_STEP, 5);
    let first = apply(&mut host, Instruction::Resize { direction: Direction::Left });
    assert_eq!(
        first,
        vec![
            Effect::SetWindowSize { pane: PaneId(0), rows: 24, cols: 35 },
            Effect::SetWindowSize { pane: PaneId(1), rows: 24, cols: 45 },
        ]
    );
    apply(&mut host, Instruction::Resize { direction: Direction::Left });
    apply(&mut host, Instruction::Resize { direction: Direction::Left });
    assert_eq!(pane(&host, 0).rect, rect(0, 0, 24, 25));
    assert_eq!(pane(&host, 1).rect, rect(0, 25, 24, 55));
    assert!(pane(&host, 0).rect.is_roomy() && pane(&host, 1).rect.is_roomy());
    assert_eq!(pane(&host, 0).screen.cols(), 25);
    assert_eq!(pane(&host, 1).screen.cols(), 55);
}

#[test]
fn resize_stops_at_the_minimum_pane_size() {
    let mut host = host_80x24();
    apply(&mut host, Instruction::SplitVertically);
    for _ in 0..20 {
        apply(&mut host, Instruction::Resize { direction: Direction::Left });
    }
    assert_eq!(pane(&host, 0).rect, rect(0, 0, 24, 5));
    assert_eq!(pane(&host, 1).rect, rect(0, 5, 24, 75));
    assert_eq!(apply(&mut host, Instruction::Resize { direction: Direction::Left }), vec![]);
    for _ in 0..20 {
        apply(&mut host, Instruction::Resize { direction: Direction::Right });
    }
    assert_eq!(pane(&host, 0).rect, rect(0, 0, 24, 75));
    assert_eq!(apply(&mut host, Instruction::Resize { direction: Direction::Up }), vec![]);
    apply(&mut host, Instruction::SplitHorizontally);
    apply(&mut host, Instruction::Resize { direction: Direction::Down });
    assert_eq!(pane(&host, 1).rect, rect(0, 75, 17, 5));
    assert_eq!(pane(&host, 2).rect, rect(17, 75, 7, 5));
    apply(&mut host, Instruction::Resize { direction: Direction::Up });
    apply(&mut host, Instruction::Resize { direction: Direction::Up });
    apply(&mut host, Instruction::Resize { direction: Direction::Up });
    apply(&mut host, Instruction::Resize { direction: Direction::Up });
    assert_eq!(pane(&host, 1).rect, rect(0, 75, 3, 5));
}

#[test]
fn terminal_resize_tells_every_terminal_pane() {
    let mut host = host_80x24();
    let effects = apply(&mut host, Instruction::TerminalResize { rows: 30, cols: 100 });
    assert_eq!(effects, vec![Effect::SetWindowSize { pane: PaneId(0), rows: 30, cols: 100 }]);
    assert_eq!(pane(&host, 0).rect, rect(0, 0, 30, 100));
    assert_eq!((host.session.rows, host.session.cols), (30, 100));
    let effects = apply(&mut host, Instruction::TerminalResize { rows: 30, cols: 100 });
    assert_eq!(effects, vec![Effect::SetWindowSize { pane: PaneId(0), rows: 30, cols: 100 }]);
}

#[test]
fn terminal_resize_reaches_every_tab() {
    let mut host = host_80x24();
    apply(&mut host, Instruction::SplitVertically);
    apply(&mut host, Instruction::LoadPlugin { name: String::from("status-bar") });
    apply(&mut host, Instruction::NewTab { name: String::from("two"), layout: None });
    apply(&mut host, Instruction::SplitHorizontally);
    let effects = apply(&mut host, Instruction::TerminalResize { rows: 41, cols: 121 });
    assert_eq!(
        effects,
        vec![
            Effect::SetWindowSize { pane: PaneId(0), rows: 41, cols: 60 },
            Effect::SetWindowSize { pane: PaneId(1), rows: 20, cols: 61 },
            Effect::SetWindowSize { pane: PaneId(3), rows: 20, cols: 121 },
            Effect::SetWindowSize { pane: PaneId(4), rows: 21, cols: 121 },
        ]
    );
    for tab in &host.session.tabs {
        assert_eq!(tab.area, rect(0, 0, 41, 121));
        for pane in &tab.panes {
            assert_eq!((pane.screen.rows(), pane.screen.cols()), (pane.rect.rows, pane.rect.cols));
        }
    }
    assert_eq!(pane(&host, 2).rect, rect(20, 60, 21, 61));
}

#[test]
fn a_new_tab_after_a_switch_takes_the_focus() {
    let mut host = host_80x24();
    apply(&mut host, Instruction::LoadPlugin { name: String::from("status-bar") });
    apply(&mut host, Instruction::Subscribe { pane: PaneId(1), events: EventMask::only(EventKind::TabUpdate) });
    apply(&mut host, Instruction::NewTab { name: String::from("T1"), layout: None });
    apply(&mut host, Instruction::SwitchTab { index: 0 });
    assert_eq!(host.session.tabs.len(), 2);
    assert_eq!(host.session.active, 0);
    let effects = apply(&mut host, Instruction::SwitchTab { index: 1 });
    assert_eq!(
        effects,
        vec![
            Effect::PluginUpdate {
                plugin: PluginId(0),
                event: PluginEvent::TabUpdate { tabs: 2, active: 1 },
            },
        ]
    );
    assert_eq!(host.session.active, 1);
    let effects = apply(&mut host, Instruction::NewTab { name: String::from("T2"), layout: None });
    assert_eq!(
        effects,
        vec![
            Effect::SpawnPty { pane: PaneId(3), rows: 24, cols: 80 },
            Effect::PluginUpdate {
                plugin: PluginId(0),
                event: PluginEvent::TabUpdate { tabs: 3, active: 2 },
            },
        ]
    );
    assert_eq!(host.session.active, 2);
    assert_eq!(host.session.tabs.len(), 3);
    assert_eq!(host.session.tabs[2].id, TabId(2));
    assert_eq!(host.session.tabs[2].name, "T2");
    assert_eq!(host.session.tabs[2].focused, PaneId(3));
}

#[test]
fn switching_to_a_tab_that_is_not_there_changes_nothing() {
    let mut host = host_80x24();
    apply(&mut host, Instruction::NewTab { name: String::from("b"), layout: None });
    assert_eq!(apply(&mut host, Instruction::SwitchTab { index: 2 }), vec![]);
    assert_eq!(host.session.active, 1);
    apply(&mut host, Instruction::SwitchTab { index: 0 });
    assert_eq!(host.session.active, 0);
}

#[test]
fn a_mode_update_reaches_the_subscribers() {
    let mut host = host_80x24();
    let effects = apply(&mut host, Instruction::LoadPlugin { name: String::from("status-bar") });
    assert_eq!(
        effects,
        vec![
            Effect::LoadPlugin {
                plugin: PluginId(0),
                pane: PaneId(1),
                name: String::from("status-bar"),
                rows: 12,
                cols: 80,
            },
            Effect::SetWindowSize { pane: PaneId(0), rows: 12, cols: 80 },
        ]
    );
    assert_eq!(apply(&mut host, Instruction::ModeUpdate { mode: InputMode::Resize }), vec![]);
    apply(
        &mut host,
        Instruction::Subscribe { pane: PaneId(1), events: EventMask::only(EventKind::ModeUpdate) },
    );
    let effects = apply(&mut host, Instruction::ModeUpdate { mode: InputMode::Resize });
    assert_eq!(
        effects,
        vec![
            Effect::PluginUpdate {
                plugin: PluginId(0),
                event: PluginEvent::ModeUpdate(InputMode::Resize),
            },
        ]
    );
    assert_eq!(host.mode, InputMode::Resize);
    apply(
        &mut host,
        Instruction::Unsubscribe { pane: PaneId(1), events: EventMask::only(EventKind::ModeUpdate) },
    );
    assert_eq!(apply(&mut host, Instruction::ModeUpdate { mode: InputMode::Normal }), vec![]);
    assert_eq!(host.mode, InputMode::Normal);
}

#[test]
fn subscriptions_of_a_terminal_pane_are_dropped() {
    let mut host = host_80x24();
    apply(
        &mut host,
        Instruction::Subscribe { pane: PaneId(0), events: EventMask::only(EventKind::ModeUpdate) },
    );
    apply(
        &mut host,
        Instruction::Subscribe { pane: PaneId(9), events: EventMask::only(EventKind::ModeUpdate) },
    );
    assert_eq!(apply(&mut host, Instruction::ModeUpdate { mode: InputMode::Tab }), vec![]);
    assert_eq!(pane(&host, 0).kind, PaneKind::Terminal);
}

#[test]
fn five_overruns_in_a_row_remove_the_plugin_pane() {
    let mut host = host_80x24();
    apply(&mut host, Instruction::LoadPlugin { name: String::from("status-bar") });
    assert_eq!(host.session.tabs[0].focused, PaneId(1));
    for _ in 0..3 {
        let effects =
            apply(&mut host, Instruction::PluginRendered { pane: PaneId(1), in_time: false });
        assert_eq!(effects, vec![]);
    }
    apply(&mut host, Instruction::PluginRendered { pane: PaneId(1), in_time: true });
    for _ in 0..4 {
        let effects =
            apply(&mut host, Instruction::PluginRendered { pane: PaneId(1), in_time: false });
        assert_eq!(effects, vec![]);
        assert_eq!(all_pane_ids(&host), vec![0, 1]);
    }
    let effects = apply(&mut host, Instruction::PluginRendered { pane: PaneId(1), in_time: false });
    assert_eq!(
        effects,
        vec![
            Effect::UnloadPlugin { plugin: PluginId(0) },
            Effect::SetWindowSize { pane: PaneId(0), rows: 24, cols: 80 },
        ]
    );
    assert_eq!(all_pane_ids(&host), vec![0]);
    assert!(host.running);
    assert_eq!(host.session.tabs[0].focused, PaneId(0));
    assert_eq!(
        apply(&mut host, Instruction::Key { bytes: b"x".to_vec() }),
        vec![Effect::WritePty { pane: PaneId(0), bytes: b"x".to_vec() }]
    );
    assert_eq!(
        apply(&mut host, Instruction::PluginRendered { pane: PaneId(1), in_time: false }),
        vec![]
    );
    assert_eq!(
        apply(&mut host, Instruction::PluginRendered { pane: PaneId(0), in_time: false }),
        vec![]
    );
}

#[test]
fn keys_and_mouse_go_to_a_focused_plugin_only_if_subscribed() {
    let mut host = host_80x24();
    apply(&mut host, Instruction::LoadPlugin { name: String::from("status-bar") });
    let click = MouseEvent { row: 3, col: 4, button: 0, pressed: true };
    assert_eq!(apply(&mut host, Instruction::Key { bytes: b"k".to_vec() }), vec![]);
    assert_eq!(apply(&mut host, Instruction::Mouse { event: click }), vec![]);
    apply(
        &mut host,
        Instruction::Subscribe {
            pane: PaneId(1),
            events: EventMask::only(EventKind::Key).union(&EventMask::only(EventKind::Mouse)),
        },
    );
    assert_eq!(
        apply(&mut host, Instruction::Key { bytes: b"k".to_vec() }),
        vec![Effect::PluginUpdate { plugin: PluginId(0), event: PluginEvent::Key(b"k".to_vec()) }]
    );
    assert_eq!(
        apply(&mut host, Instruction::Mouse { event: click }),
        vec![Effect::PluginUpdate { plugin: PluginId(0), event: PluginEvent::Mouse(click) }]
    );
}

#[test]
fn mouse_report_for_a_terminal_pane() {
    let mut host = host_80x24();
    let effects = apply(
        &mut host,
        Instruction::Mouse { event: MouseEvent { row: 2, col: 9, button: 1, pressed: true } },
    );
    assert_eq!(
        effects,
        vec![Effect::WritePty { pane: PaneId(0), bytes: vec![0x1b, b'[', b'M', 33, 42, 35] }]
    );
    let effects = apply(
        &mut host,
        Instruction::Mouse { event: MouseEvent { row: 500, col: 222, button: 2, pressed: false } },
    );
    assert_eq!(
        effects,
        vec![Effect::WritePty { pane: PaneId(0), bytes: vec![0x1b, b'[', b'M', 35, 255, 255] }]
    );
}

#[test]
fn splitting_a_pane_that_is_too_small_is_refused() {
    let (mut host, _) = start(5, 9);
    let before = format!("{:?}", host.session.tabs[0].tree);
    assert_eq!(
        host.apply(Instruction::SplitVertically),
        Err(SessionError::Layout(LayoutError::ResizeTooSmall))
    );
    assert_eq!(
        host.apply(Instruction::SplitHorizontally),
        Err(SessionError::Layout(LayoutError::ResizeTooSmall))
    );
    assert_eq!(
        host.apply(Instruction::OpenFile { path: String::from("a") }),
        Err(SessionError::Layout(LayoutError::ResizeTooSmall))
    );
    assert_eq!(
        host.apply(Instruction::LoadPlugin { name: String::from("status-bar") }),
        Err(SessionError::Layout(LayoutError::ResizeTooSmall))
    );
    assert_eq!(format!("{:?}", host.session.tabs[0].tree), before);
    assert_eq!(all_pane_ids(&host), vec![0]);
    assert_eq!(host.session.next_pane, 1);
    assert_eq!(host.next_plugin, 0);
    let (mut host, _) = start(6, 10);
    assert!(host.apply(Instruction::SplitVertically).is_ok());
    assert_eq!(
        host.apply(Instruction::SplitVertically),
        Err(SessionError::Layout(LayoutError::ResizeTooSmall))
    );
    assert!(host.apply(Instruction::SplitHorizontally).is_ok());
}

#[test]
fn identifiers_run_out() {
    let mut host = host_80x24();
    host.session.next_pane = u64::MAX;
    assert_eq!(host.apply(Instruction::SplitVertically), Err(SessionError::IdsExhausted));
    assert_eq!(
        host.apply(Instruction::NewTab { name: String::from("n"), layout: None }),
        Err(SessionError::IdsExhausted)
    );
    assert_eq!(all_pane_ids(&host), vec![0]);
    let mut host = host_80x24();
    host.session.next_tab = u64::MAX;
    assert_eq!(
        host.apply(Instruction::NewTab { name: String::from("n"), layout: None }),
        Err(SessionError::IdsExhausted)
    );
    assert!(host.apply(Instruction::SplitVertically).is_ok());
    host.next_plugin = u64::MAX;
    assert_eq!(host.apply(Instruction::LoadPlugin { name: String::from("status-bar") }), Err(SessionError::IdsExhausted));
}

#[test]
fn identifiers_grow_and_are_never_used_again() {
    let mut host = host_80x24();
    let mut seen: Vec<u64> = vec![0];
    let mut tabs: Vec<u64> = vec![0];
    for round in 0..6 {
        for effect in apply(&mut host, Instruction::SplitVertically) {
            if let Effect::SpawnPty { pane, .. } = effect {
                assert!(seen.iter().all(|&old| old < pane.0));
                seen.push(pane.0);
            }
        }
        if round % 2 == 0 {
            let focused = host.session.tabs[host.session.active].focused;
            apply(&mut host, Instruction::PtyExit { pane: focused, status: 0 });
        }
        if round % 3 == 0 {
            for effect in apply(&mut host, Instruction::NewTab { name: String::from("t"), layout: None }) {
                if let Effect::SpawnPty { pane, .. } = effect {
                    assert!(seen.iter().all(|&old| old < pane.0));
                    seen.push(pane.0);
                }
            }
            let made = host.session.tabs.last().unwrap().id.0;
            assert!(tabs.iter().all(|&old| old < made));
            tabs.push(made);
        }
        if round == 4 {
            apply(&mut host, Instruction::CloseTab);
        }
        for id in all_pane_ids(&host) {
            assert!(id < host.session.next_pane);
        }
    }
    assert_eq!(seen, (0..seen.len() as u64).collect::<Vec<u64>>());
    assert_eq!(tabs, vec![0, 1, 2]);
    let ids = all_pane_ids(&host);
    for id in &ids {
        assert_eq!(ids.iter().filter(|other| *other == id).count(), 1);
    }
}

#[test]
fn the_exit_of_a_child_closes_its_pane() {
    let mut host = host_80x24();
    apply(&mut host, Instruction::SplitVertically);
    let effects = apply(&mut host, Instruction::PtyExit { pane: PaneId(0), status: 0 });
    assert_eq!(
        effects,
        vec![
            Effect::ClosePty { pane: PaneId(0) },
            Effect::SetWindowSize { pane: PaneId(1), rows: 24, cols: 80 },
        ]
    );
    assert_eq!(all_pane_ids(&host), vec![1]);
    assert_eq!(pane(&host, 1).rect, rect(0, 0, 24, 80));
    assert_eq!(host.session.tabs[0].tree, LayoutNode::Leaf { pane: PaneId(1) });
    assert!(host.running);
    assert_eq!(apply(&mut host, Instruction::PtyExit { pane: PaneId(0), status: 0 }), vec![]);
    assert_eq!(
        apply(&mut host, Instruction::PtyBytes { pane: PaneId(0), bytes: b"late".to_vec() }),
        vec![]
    );
    assert_eq!(row_text(pane(&host, 1), 0), "");
}

#[test]
fn the_exit_of_the_last_pane_of_a_tab_closes_the_tab() {
    let mut host = host_80x24();
    apply(&mut host, Instruction::NewTab { name: String::from("b"), layout: None });
    apply(&mut host, Instruction::LoadPlugin { name: String::from("status-bar") });
    host.session.tabs[1].panes[1].selectable = false;
    host.session.tabs[1].focused = PaneId(1);
    let effects = apply(&mut host, Instruction::PtyExit { pane: PaneId(1), status: 0 });
    assert_eq!(
        effects,
        vec![Effect::ClosePty { pane: PaneId(1) }, Effect::UnloadPlugin { plugin: PluginId(0) }]
    );
    assert_eq!(host.session.tabs.len(), 1);
    assert_eq!(host.session.active, 0);
    assert!(host.running);
}

#[test]
fn closing_the_last_pane_of_the_last_tab_ends_the_session() {
    let mut host = host_80x24();
    let effects = apply(&mut host, Instruction::PtyExit { pane: PaneId(0), status: 1 });
    assert_eq!(effects, vec![Effect::ClosePty { pane: PaneId(0) }, Effect::Exit { code: 0 }]);
    assert!(!host.running);
    assert_eq!(apply(&mut host, Instruction::SplitVertically), vec![]);
    assert_eq!(apply(&mut host, Instruction::Key { bytes: b"x".to_vec() }), vec![]);
    assert_eq!(apply(&mut host, Instruction::Render), vec![]);
    assert_eq!(all_pane_ids(&host), vec![0]);
}

#[test]
fn closing_the_last_tab_ends_the_session() {
    let mut host = host_80x24();
    apply(&mut host, Instruction::NewTab { name: String::from("b"), layout: None });
    apply(&mut host, Instruction::SplitVertically);
    let effects = apply(&mut host, Instruction::CloseTab);
    assert_eq!(
        effects,
        vec![Effect::ClosePty { pane: PaneId(1) }, Effect::ClosePty { pane: PaneId(2) }]
    );
    assert_eq!(host.session.tabs.len(), 1);
    assert_eq!(host.session.active, 0);
    assert!(host.running);
    let effects = apply(&mut host, Instruction::CloseTab);
    assert_eq!(effects, vec![Effect::ClosePty { pane: PaneId(0) }, Effect::Exit { code: 0 }]);
    assert!(!host.running);
}

#[test]
fn closing_a_tab_moves_the_focus_to_its_neighbor() {
    let mut host = host_80x24();
    for name in ["b", "c", "d"] {
        apply(&mut host, Instruction::NewTab { name: String::from(name), layout: None });
    }
    assert_eq!(host.session.active, 3);
    apply(&mut host, Instruction::CloseTab);
    assert_eq!(host.session.active, 2);
    apply(&mut host, Instruction::SwitchTab { index: 0 });
    apply(&mut host, Instruction::CloseTab);
    assert_eq!(host.session.active, 0);
    assert_eq!(host.session.tabs[0].name, "b");
    apply(&mut host, Instruction::SwitchTab { index: 1 });
    apply(&mut host, Instruction::PtyExit { pane: PaneId(1), status: 0 });
    assert_eq!(host.session.active, 0);
    assert_eq!(host.session.tabs.len(), 1);
    assert_eq!(host.session.tabs[0].name, "c");
}

#[test]
fn quit_releases_everything() {
    let mut host = host_80x24();
    apply(&mut host, Instruction::LoadPlugin { name: String::from("status-bar") });
    apply(&mut host, Instruction::NewTab { name: String::from("b"), layout: None });
    let effects = apply(&mut host, Instruction::Quit);
    assert_eq!(
        effects,
        vec![
            Effect::ClosePty { pane: PaneId(0) },
            Effect::UnloadPlugin { plugin: PluginId(0) },
            Effect::ClosePty { pane: PaneId(2) },
            Effect::Exit { code: 0 },
        ]
    );
    assert!(!host.running);
    assert_eq!(apply(&mut host, Instruction::Quit), vec![]);
}

#[test]
fn open_file_asks_for_an_editor_to_the_right() {
    let mut host = host_80x24();
    let effects = apply(&mut host, Instruction::OpenFile { path: String::from("/tmp/a.txt") });
    assert_eq!(
        effects,
        vec![
            Effect::SpawnEditor {
                pane: PaneId(1),
                path: String::from("/tmp/a.txt"),
                rows: 24,
                cols: 40,
            },
            Effect::SetWindowSize { pane: PaneId(0), rows: 24, cols: 40 },
        ]
    );
    assert_eq!(pane(&host, 1).rect, rect(0, 40, 24, 40));
    assert_eq!(host.session.tabs[0].focused, PaneId(1));
}

#[test]
fn move_focus_follows_the_layout() {
    let mut host = host_80x24();
    apply(&mut host, Instruction::SplitVertically);
    apply(&mut host, Instruction::SplitHorizontally);
    assert_eq!(host.session.tabs[0].focused, PaneId(2));
    apply(&mut host, Instruction::MoveFocus { direction: Direction::Up });
    assert_eq!(host.session.tabs[0].focused, PaneId(1));
    apply(&mut host, Instruction::MoveFocus { direction: Direction::Left });
    assert_eq!(host.session.tabs[0].focused, PaneId(0));
    apply(&mut host, Instruction::MoveFocus { direction: Direction::Left });
    assert_eq!(host.session.tabs[0].focused, PaneId(0));
    apply(&mut host, Instruction::MoveFocus { direction: Direction::Up });
    apply(&mut host, Instruction::MoveFocus { direction: Direction::Down });
    assert_eq!(host.session.tabs[0].focused, PaneId(0));
    apply(&mut host, Instruction::FocusNext);
    assert_eq!(host.session.tabs[0].focused, PaneId(1));
    apply(&mut host, Instruction::FocusNext);
    apply(&mut host, Instruction::FocusNext);
    assert_eq!(host.session.tabs[0].focused, PaneId(0));
}

#[test]
fn bytes_reach_their_pane_in_order() {
    let mut host = host_80x24();
    apply(&mut host, Instruction::SplitVertically);
    let chunks: [(u64, &[u8]); 6] =
        [(0, b"ab"), (1, b"12"), (0, b"c\r"), (1, b"3\r\n4"), (0, b"\nd"), (7, b"zz")];
    for (id, bytes) in chunks {
        apply(&mut host, Instruction::PtyBytes { pane: PaneId(id), bytes: bytes.to_vec() });
    }
    assert_eq!(row_text(pane(&host, 0), 0), "abc");
    assert_eq!(row_text(pane(&host, 0), 1), "d");
    assert_eq!(row_text(pane(&host, 1), 0), "123");
    assert_eq!(row_text(pane(&host, 1), 1), "4");
    let mut whole = zellij::emulator::Emulator::new(24, 40);
    whole.feed(b"abc\r\nd");
    assert_eq!(pane(&host, 0).screen.lines.lines, whole.lines.lines);
    assert_eq!(pane(&host, 0).screen.cursor, whole.cursor);
}

#[test]
fn bytes_for_a_plugin_pane_are_dropped() {
    let mut host = host_80x24();
    apply(&mut host, Instruction::LoadPlugin { name: String::from("status-bar") });
    apply(&mut host, Instruction::PtyBytes { pane: PaneId(1), bytes: b"x".to_vec() });
    assert!(!host.pty_bytes(PaneId(1), b"x"));
    assert!(host.pty_bytes(PaneId(0), b"x"));
    assert_eq!(row_text(pane(&host, 1), 0), "");
    assert_eq!(apply(&mut host, Instruction::PtyExit { pane: PaneId(1), status: 0 }), vec![]);
    assert_eq!(all_pane_ids(&host), vec![0, 1]);
}

#[test]
fn a_render_sends_the_cells_that_changed() {
    let mut host = host_80x24();
    apply(&mut host, Instruction::SplitVertically);
    assert_eq!(apply(&mut host, Instruction::Render), vec![]);
    apply(&mut host, Instruction::PtyBytes { pane: PaneId(1), bytes: b"\x1b[2;1Hhi".to_vec() });
    let effects = apply(&mut host, Instruction::Render);
    assert_eq!(effects.len(), 1);
    match &effects[0] {
        Effect::Frame { cells } => {
            assert_eq!(cells.len(), 40);
            assert_eq!(cells[0].row, 1);
            assert_eq!(cells[0].col, 40);
            assert_eq!(cells[0].cell.ch, 'h');
            assert_eq!(cells[1].col, 41);
            assert_eq!(cells[1].cell.ch, 'i');
            assert_eq!(cells[2], FrameCell { row: 1, col: 42, cell: Cell::blank() });
            assert_eq!(cells[39].col, 79);
        },
        other => panic!("{:?}", other),
    }
    assert_eq!(apply(&mut host, Instruction::Render), vec![]);
}

#[test]
fn several_writes_make_one_frame() {
    let mut host = host_80x24();
    for bytes in [&b"a"[..], b"b", b"\r\n", b"c"] {
        apply(&mut host, Instruction::PtyBytes { pane: PaneId(0), bytes: bytes.to_vec() });
    }
    let piecewise = apply(&mut host, Instruction::Render);
    let mut other = host_80x24();
    apply(&mut other, Instruction::PtyBytes { pane: PaneId(0), bytes: b"ab\r\nc".to_vec() });
    let at_once = apply(&mut other, Instruction::Render);
    assert_eq!(piecewise, at_once);
    match &piecewise[0] {
        Effect::Frame { cells } => assert_eq!(cells.len(), 160),
        other => panic!("{:?}", other),
    }
}

#[test]
fn a_render_rings_the_bell_once() {
    let mut host = host_80x24();
    apply(&mut host, Instruction::PtyBytes { pane: PaneId(0), bytes: b"\x07".to_vec() });
    assert_eq!(apply(&mut host, Instruction::Render), vec![Effect::Bell]);
    assert_eq!(apply(&mut host, Instruction::Render), vec![]);
}

#[test]
fn only_the_focused_tab_is_rendered() {
    let mut host = host_80x24();
    apply(&mut host, Instruction::NewTab { name: String::from("b"), layout: None });
    apply(&mut host, Instruction::PtyBytes { pane: PaneId(0), bytes: b"hidden".to_vec() });
    assert_eq!(apply(&mut host, Instruction::Render), vec![]);
    apply(&mut host, Instruction::SwitchTab { index: 0 });
    assert_eq!(apply(&mut host, Instruction::Render).len(), 1);
}

#[test]
fn session_operations() {
    let mut session = Session::new(24, 80, String::from("one"));
    assert_eq!(session.locate(PaneId(0)), Some(0));
    assert_eq!(session.locate(PaneId(1)), None);
    assert_eq!(session.kind_of(PaneId(0)), Some(PaneKind::Terminal));
    assert_eq!(session.kind_of(PaneId(1)), None);
    assert_eq!(session.focused_pane(), (PaneId(0), PaneKind::Terminal));
    assert_eq!(session.close_pane(PaneId(0)), PaneClosing::SessionOver);
    assert_eq!(session.close_pane(PaneId(5)), PaneClosing::Absent);
    assert_eq!(session.close_tab(), TabClosing::SessionOver);
    let (new, _) = session.split_focused(SplitDirection::Horizontal, PaneKind::Terminal).unwrap();
    assert_eq!(new, PaneId(1));
    assert_eq!(session.new_tab(String::from("two")), Ok((TabId(1), PaneId(2))));
    assert_eq!(session.locate(PaneId(2)), Some(1));
    assert!(session.feed(PaneId(2), b"x"));
    assert!(!session.feed(PaneId(9), b"x"));
    assert!(session.switch_tab(0));
    assert!(!session.switch_tab(2));
    assert!(session.move_focus(Direction::Up));
    assert!(!session.move_focus(Direction::Up));
    assert_eq!(session.focused_pane().0, PaneId(0));
    session.focus_next();
    assert_eq!(session.focused_pane().0, PaneId(1));
    assert_eq!(session.resize_focused(Direction::Left), vec![]);
    assert_eq!(session.resize_focused(Direction::Up).len(), 2);
    assert_eq!(session.panes().len(), 3);
    assert_eq!(session.subscribers(EventKind::Key), vec![]);
    assert!(!session.set_kind(PaneId(9), PaneKind::Terminal));
    match session.close_pane(PaneId(2)) {
        PaneClosing::TabClosed(closed) => {
            assert_eq!(closed.len(), 1);
            assert_eq!(closed[0].id, PaneId(2));
        },
        other => panic!("{:?}", other),
    }
    match session.close_pane(PaneId(0)) {
        PaneClosing::Closed(updates) => assert_eq!(updates.len(), 1),
        other => panic!("{:?}", other),
    }
    assert_eq!(session.terminal_resize(10, 20).len(), 1);
}

#[test]
fn a_plugin_draws_into_its_pane() {
    let mut host = host_80x24();
    apply(&mut host, Instruction::LoadPlugin { name: String::from("status-bar") });
    let pen = Pen {
        fg: Color::Indexed(2),
        bg: Color::Default,
        attrs: Attrs {
            bold: true,
            dim: false,
            italic: false,
            underline: false,
            blink: false,
            reverse: false,
            hidden: false,
            strike: false,
        },
    };
    let text = |row, col, bytes: &[u8]| DrawnText { row, col, bytes: bytes.to_vec(), pen };
    assert_eq!(
        apply(&mut host, Instruction::DrawText { pane: PaneId(1), text: text(2, 3, b"RESIZE") }),
        vec![]
    );
    assert_eq!(row_text(pane(&host, 1), 2), "   RESIZE");
    let drawn = pane(&host, 1).screen.lines.lines[2][3];
    assert_eq!((drawn.ch, drawn.fg, drawn.attrs.bold), ('R', Color::Indexed(2), true));
    apply(&mut host, Instruction::DrawText { pane: PaneId(1), text: text(99, 78, b"ab") });
    assert_eq!(row_text(pane(&host, 1), 10), "");
    assert_eq!(pane(&host, 1).screen.lines.lines[11][78].ch, 'a');
    assert_eq!(pane(&host, 1).screen.lines.lines[11][79].ch, 'b');
    apply(&mut host, Instruction::DrawText { pane: PaneId(0), text: text(0, 0, b"no") });
    apply(&mut host, Instruction::DrawText { pane: PaneId(7), text: text(0, 0, b"no") });
    assert_eq!(row_text(pane(&host, 0), 0), "");
    let effects = apply(&mut host, Instruction::Render);
    match &effects[0] {
        Effect::Frame { cells } => {
            assert_eq!(cells.len(), 160);
            assert_eq!((cells[3].row, cells[3].col, cells[3].cell.ch), (14, 3, 'R'));
        },
        other => panic!("{:?}", other),
    }
}

#[test]
fn a_plugin_says_whether_its_pane_takes_the_focus() {
    let mut host = host_80x24();
    apply(&mut host, Instruction::LoadPlugin { name: String::from("status-bar") });
    assert_eq!(host.session.tabs[0].focused, PaneId(1));
    apply(&mut host, Instruction::SetSelectable { pane: PaneId(1), selectable: false });
    assert!(!pane(&host, 1).selectable);
    assert_eq!(host.session.tabs[0].focused, PaneId(0));
    apply(&mut host, Instruction::FocusNext);
    assert_eq!(host.session.tabs[0].focused, PaneId(0));
    apply(&mut host, Instruction::SetSelectable { pane: PaneId(1), selectable: true });
    assert!(pane(&host, 1).selectable);
    apply(&mut host, Instruction::FocusNext);
    assert_eq!(host.session.tabs[0].focused, PaneId(1));
    apply(&mut host, Instruction::SetSelectable { pane: PaneId(0), selectable: false });
    assert!(pane(&host, 0).selectable);
    host.session.tabs[0].panes[0].selectable = false;
    apply(&mut host, Instruction::SetSelectable { pane: PaneId(1), selectable: false });
    assert!(pane(&host, 1).selectable);
    assert_eq!(host.session.tabs[0].focused, PaneId(1));
    apply(&mut host, Instruction::SetSelectable { pane: PaneId(9), selectable: false });
}

#[test]
fn clients_come_and_go() {
    let mut host = host_80x24();
    let effects = apply(&mut host, Instruction::NewClient { rows: 30, cols: 100 });
    assert_eq!(
        effects,
        vec![
            Effect::Attached { client: ClientId(1) },
            Effect::SetWindowSize { pane: PaneId(0), rows: 30, cols: 100 },
        ]
    );
    assert_eq!(host.clients, vec![ClientId(0), ClientId(1)]);
    assert_eq!(pane(&host, 0).rect, rect(0, 0, 30, 100));
    assert_eq!(apply(&mut host, Instruction::ClientExit { client: ClientId(5) }), vec![]);
    assert_eq!(apply(&mut host, Instruction::ClientExit { client: ClientId(0) }), vec![]);
    assert_eq!(host.clients, vec![ClientId(1)]);
    assert!(host.running);
    apply(&mut host, Instruction::NewClient { rows: 24, cols: 80 });
    assert_eq!(host.clients, vec![ClientId(1), ClientId(2)]);
    apply(&mut host, Instruction::ClientExit { client: ClientId(2) });
    let effects = apply(&mut host, Instruction::ClientExit { client: ClientId(1) });
    assert_eq!(effects, vec![Effect::ClosePty { pane: PaneId(0) }, Effect::Exit { code: 0 }]);
    assert!(!host.running);
    assert_eq!(host.clients, vec![]);
    let mut host = host_80x24();
    host.next_client = u64::MAX;
    assert_eq!(
        host.apply(Instruction::NewClient { rows: 1, cols: 1 }),
        Err(SessionError::IdsExhausted)
    );
    assert_eq!(pane(&host, 0).rect, rect(0, 0, 24, 80));
}

#[test]
fn tab_selectable_flag() {
    let mut host = host_80x24();
    apply(&mut host, Instruction::SplitVertically);
    let tab = &mut host.session.tabs[0];
    assert!(!tab.set_selectable(PaneId(9), true));
    assert!(tab.set_selectable(PaneId(1), false));
    assert_eq!(tab.focused, PaneId(0));
    assert!(!tab.set_selectable(PaneId(0), false));
    assert!(tab.set_selectable(PaneId(1), true));
    assert!(tab.set_selectable(PaneId(1), false));
    assert_eq!(tab.focused, PaneId(0));
    assert!(!host.session.set_selectable(PaneId(0), false));
    assert!(host.session.set_selectable(PaneId(0), true));
    assert!(!host.session.draw(
        PaneId(4),
        &DrawnText { row: 0, col: 0, bytes: vec![], pen: Pen::reset() }
    ));
}

fn shell() -> Box<Template> {
    Box::new(Template::Pane { content: Content::Shell })
}

fn plugin(name: &str) -> Box<Template> {
    Box::new(Template::Pane { content: Content::Plugin { name: String::from(name) } })
}

fn default_layout() -> Template {
    // A row for the tab bar, a row for the status bar, the rest for a shell
    // and a command side by side.
    Template::Split {
        direction: SplitDirection::Horizontal,
        ratio: Ratio { num: 1, den: 24 },
        left: plugin("tab-bar"),
        right: Box::new(Template::Split {
            direction: SplitDirection::Horizontal,
            ratio: Ratio { num: 22, den: 23 },
            left: Box::new(Template::Split {
                direction: SplitDirection::Vertical,
                ratio: Ratio { num: 3, den: 4 },
                left: shell(),
                right: Box::new(Template::Pane {
                    content: Content::Run { command: String::from("htop") },
                }),
            }),
            right: plugin("status-bar"),
        }),
    }
}

#[test]
fn a_tab_from_a_template() {
    let mut host = host_80x24();
    apply(&mut host, Instruction::LoadPlugin { name: String::from("first") });
    let effects = apply(
        &mut host,
        Instruction::NewTab { name: String::from("work"), layout: Some(default_layout()) },
    );
    assert_eq!(
        effects,
        vec![
            Effect::LoadPlugin {
                plugin: PluginId(1),
                pane: PaneId(2),
                name: String::from("tab-bar"),
                rows: 1,
                cols: 80,
            },
            Effect::SpawnPty { pane: PaneId(3), rows: 22, cols: 60 },
            Effect::SpawnCommand { pane: PaneId(4), command: String::from("htop"), rows: 22, cols: 20 },
            Effect::LoadPlugin {
                plugin: PluginId(2),
                pane: PaneId(5),
                name: String::from("status-bar"),
                rows: 1,
                cols: 80,
            },
        ]
    );
    assert_eq!(host.session.active, 1);
    assert_eq!((host.session.next_pane, host.session.next_tab, host.next_plugin), (6, 2, 3));
    let tab = &host.session.tabs[1];
    assert_eq!(tab.name, "work");
    assert_eq!(tab.id, TabId(1));
    assert_eq!(tab.focused, PaneId(2));
    assert_eq!(tab.tree.panes(), vec![PaneId(2), PaneId(3), PaneId(4), PaneId(5)]);
    let rects: Vec<Rect> = tab.panes.iter().map(|p| p.rect).collect();
    assert_eq!(
        rects,
        vec![rect(0, 0, 1, 80), rect(1, 0, 22, 60), rect(1, 60, 22, 20), rect(23, 0, 1, 80)]
    );
    assert_eq!(tab.panes[0].kind, PaneKind::Plugin { plugin: Plugin::new(PluginId(1)) });
    assert_eq!(tab.panes[1].kind, PaneKind::Terminal);
    assert_eq!(tab.panes[2].kind, PaneKind::Terminal);
    assert_eq!(tab.panes[3].kind, PaneKind::Plugin { plugin: Plugin::new(PluginId(2)) });
    for pane in &tab.panes {
        assert_eq!((pane.screen.rows(), pane.screen.cols()), (pane.rect.rows, pane.rect.cols));
        assert!(pane.selectable);
    }
    apply(&mut host, Instruction::TerminalResize { rows: 48, cols: 160 });
    let rects: Vec<Rect> = host.session.tabs[1].panes.iter().map(|p| p.rect).collect();
    assert_eq!(
        rects,
        vec![rect(0, 0, 2, 160), rect(2, 0, 44, 120), rect(2, 120, 44, 40), rect(46, 0, 2, 160)]
    );
}

#[test]
fn a_template_with_a_bad_ratio_is_refused() {
    let mut host = host_80x24();
    for ratio in [Ratio { num: 0, den: 2 }, Ratio { num: 2, den: 2 }, Ratio { num: 3, den: 2 }, Ratio { num: 0, den: 0 }] {
        let template = Template::Split {
            direction: SplitDirection::Vertical,
            ratio: Ratio { num: 1, den: 2 },
            left: shell(),
            right: Box::new(Template::Split {
                direction: SplitDirection::Vertical,
                ratio,
                left: shell(),
                right: shell(),
            }),
        };
        assert!(!template.is_valid());
        assert_eq!(
            host.apply(Instruction::NewTab { name: String::from("bad"), layout: Some(template) }),
            Err(SessionError::InvalidLayout)
        );
    }
    assert_eq!(host.session.tabs.len(), 1);
    assert_eq!((host.session.next_pane, host.session.next_tab), (1, 1));
}

#[test]
fn a_template_needs_identifiers_for_all_its_panes() {
    let mut host = host_80x24();
    host.session.next_pane = u64::MAX - 3;
    assert_eq!(
        host.apply(Instruction::NewTab { name: String::from("n"), layout: Some(default_layout()) }),
        Err(SessionError::IdsExhausted)
    );
    host.session.next_pane = u64::MAX - 4;
    host.next_plugin = u64::MAX - 1;
    assert_eq!(
        host.apply(Instruction::NewTab { name: String::from("n"), layout: Some(default_layout()) }),
        Err(SessionError::IdsExhausted)
    );
    host.next_plugin = u64::MAX - 2;
    assert!(host
        .apply(Instruction::NewTab { name: String::from("n"), layout: Some(default_layout()) })
        .is_ok());
    assert_eq!(host.session.next_pane, u64::MAX);
    assert_eq!(host.next_plugin, u64::MAX);
    assert_eq!(host.session.tabs[1].panes[3].id, PaneId(u64::MAX - 1));
}

#[test]
fn template_operations() {
    let template = default_layout();
    assert!(template.is_valid());
    assert_eq!(template.size(10), Some(4));
    assert_eq!(template.size(4), Some(4));
    assert_eq!(template.size(3), None);
    assert_eq!(shell().size(0), None);
    let mut contents = Vec::new();
    let tree = template.into_tree(7, &mut contents);
    assert_eq!(tree.panes(), vec![PaneId(7), PaneId(8), PaneId(9), PaneId(10)]);
    assert_eq!(
        contents,
        vec![
            Content::Plugin { name: String::from("tab-bar") },
            Content::Shell,
            Content::Run { command: String::from("htop") },
            Content::Plugin { name: String::from("status-bar") },
        ]
    );
    assert_eq!(zellij::template::count_plugins(&contents), 2);
    assert_eq!(
        zellij::template::kinds(&contents, 5),
        vec![
            PaneKind::Plugin { plugin: Plugin::new(PluginId(5)) },
            PaneKind::Terminal,
            PaneKind::Terminal,
            PaneKind::Plugin { plugin: Plugin::new(PluginId(6)) },
        ]
    );
}

#[test]
fn a_render_asks_the_plugins_of_the_tab_for_frames() {
    let mut host = host_80x24();
    apply(&mut host, Instruction::LoadPlugin { name: String::from("a") });
    apply(&mut host, Instruction::LoadPlugin { name: String::from("b") });
    apply(&mut host, Instruction::NewTab { name: String::from("t"), layout: None });
    assert_eq!(apply(&mut host, Instruction::Render), vec![]);
    apply(&mut host, Instruction::SwitchTab { index: 0 });
    assert_eq!(
        apply(&mut host, Instruction::Render),
        vec![
            Effect::PluginRender { plugin: PluginId(0), rows: 6, cols: 80 },
            Effect::PluginRender { plugin: PluginId(1), rows: 6, cols: 80 },
        ]
    );
    apply(&mut host, Instruction::PtyBytes { pane: PaneId(0), bytes: b"\x07x".to_vec() });
    let effects = apply(&mut host, Instruction::Render);
    assert_eq!(effects.len(), 4);
    assert_eq!(effects[0], Effect::Bell);
    assert!(matches!(effects[1], Effect::Frame { .. }));
    assert_eq!(effects[3], Effect::PluginRender { plugin: PluginId(1), rows: 6, cols: 80 });
}

#[test]
fn notices_reach_the_subscribers() {
    let mut host = host_80x24();
    apply(&mut host, Instruction::LoadPlugin { name: String::from("a") });
    apply(&mut host, Instruction::NewTab { name: String::from("t"), layout: None });
    apply(&mut host, Instruction::LoadPlugin { name: String::from("b") });
    let timer = EventMask::only(EventKind::Timer);
    let both = timer.union(&EventMask::only(EventKind::InputReceived));
    apply(&mut host, Instruction::Subscribe { pane: PaneId(1), events: timer });
    apply(&mut host, Instruction::Subscribe { pane: PaneId(3), events: both });
    assert_eq!(
        apply(&mut host, Instruction::Notify { notice: Notice::Timer(250) }),
        vec![
            Effect::PluginUpdate { plugin: PluginId(0), event: PluginEvent::Timer(250) },
            Effect::PluginUpdate { plugin: PluginId(1), event: PluginEvent::Timer(250) },
        ]
    );
    assert_eq!(
        apply(&mut host, Instruction::Notify { notice: Notice::InputReceived }),
        vec![Effect::PluginUpdate { plugin: PluginId(1), event: PluginEvent::InputReceived }]
    );
    assert_eq!(apply(&mut host, Instruction::Notify { notice: Notice::CopyToClipboard }), vec![]);
}

#[test]
fn a_plugin_that_traps_loses_its_pane() {
    let mut host = host_80x24();
    apply(&mut host, Instruction::LoadPlugin { name: String::from("a") });
    assert_eq!(apply(&mut host, Instruction::PluginCrashed { pane: PaneId(0) }), vec![]);
    assert_eq!(apply(&mut host, Instruction::PluginCrashed { pane: PaneId(9) }), vec![]);
    assert_eq!(all_pane_ids(&host), vec![0, 1]);
    assert_eq!(
        apply(&mut host, Instruction::PluginCrashed { pane: PaneId(1) }),
        vec![
            Effect::UnloadPlugin { plugin: PluginId(0) },
            Effect::SetWindowSize { pane: PaneId(0), rows: 24, cols: 80 },
        ]
    );
    assert_eq!(all_pane_ids(&host), vec![0]);
    assert!(host.running);
}

#[test]
fn a_host_that_starts_from_a_template() {
    let (host, effects) = start_from(24, 80, String::from("main"), default_layout()).unwrap();
    assert_eq!(
        effects,
        vec![
            Effect::Attached { client: ClientId(0) },
            Effect::LoadPlugin {
                plugin: PluginId(0),
                pane: PaneId(0),
                name: String::from("tab-bar"),
                rows: 1,
                cols: 80,
            },
            Effect::SpawnPty { pane: PaneId(1), rows: 22, cols: 60 },
            Effect::SpawnCommand { pane: PaneId(2), command: String::from("htop"), rows: 22, cols: 20 },
            Effect::LoadPlugin {
                plugin: PluginId(1),
                pane: PaneId(3),
                name: String::from("status-bar"),
                rows: 1,
                cols: 80,
            },
        ]
    );
    assert!(host.running);
    assert_eq!((host.session.next_pane, host.session.next_tab, host.next_plugin), (4, 1, 2));
    assert_eq!(host.session.tabs.len(), 1);
    assert_eq!(host.session.tabs[0].name, "main");
    assert_eq!(host.session.tabs[0].focused, PaneId(0));
    assert_eq!(host.clients, vec![ClientId(0)]);
    let bad = Template::Split {
        direction: SplitDirection::Vertical,
        ratio: Ratio { num: 5, den: 5 },
        left: shell(),
        right: shell(),
    };
    assert_eq!(start_from(24, 80, String::from("x"), bad).err(), Some(SessionError::InvalidLayout));
    let (host, effects) = start_from(3, 9, String::from("one"), *shell()).unwrap();
    assert_eq!(effects.len(), 2);
    assert_eq!(host.session.tabs[0].panes[0].rect, rect(0, 0, 3, 9));
}

#[test]
fn an_abort_ends_the_session_with_its_code() {
    let mut host = host_80x24();
    apply(&mut host, Instruction::SplitVertically);
    let effects = apply(&mut host, Instruction::Abort { code: 3 });
    assert_eq!(
        effects,
        vec![
            Effect::ClosePty { pane: PaneId(0) },
            Effect::ClosePty { pane: PaneId(1) },
            Effect::Exit { code: 3 },
        ]
    );
    assert!(!host.running);
    assert_eq!(apply(&mut host, Instruction::Abort { code: 4 }), vec![]);
}
