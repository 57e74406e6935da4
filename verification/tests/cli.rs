use zellij::cli::{dispatch, exit_code, CliArgs, Ending, Request};
use zellij::ipc::ServerInstruction;
use zellij::ids::PluginId;
use zellij::plugin::{EventKind, EventMask, Plugin, RenderVerdict, MAX_OVERRUNS};

fn args(split: Option<char>, move_focus: bool, open_file: Option<&str>) -> CliArgs {
    CliArgs { split, move_focus, open_file: open_file.map(String::from) }
}

#[test]
fn no_arguments_start_a_host() {
    assert_eq!(dispatch(args(None, false, None)), Request::Start);
}

#[test]
fn split_sends_a_split() {
    assert_eq!(
        dispatch(args(Some('h'), false, None)),
        Request::Send(ServerInstruction::SplitHorizontally)
    );
    assert_eq!(
        dispatch(args(Some('v'), false, None)),
        Request::Send(ServerInstruction::SplitVertically)
    );
}

#[test]
fn split_in_an_unknown_direction_is_a_usage_error() {
    assert_eq!(dispatch(args(Some('x'), false, None)), Request::Usage);
    assert_eq!(dispatch(args(Some('H'), true, Some("a"))), Request::Usage);
}

#[test]
fn move_focus_sends_a_move() {
    assert_eq!(dispatch(args(None, true, None)), Request::Send(ServerInstruction::MoveFocus));
}

#[test]
fn open_file_sends_the_path() {
    assert_eq!(
        dispatch(args(None, false, Some("/tmp/notes.txt"))),
        Request::Send(ServerInstruction::OpenFile(String::from("/tmp/notes.txt")))
    );
}

#[test]
fn split_comes_before_the_other_options() {
    assert_eq!(
        dispatch(args(Some('v'), true, Some("a"))),
        Request::Send(ServerInstruction::SplitVertically)
    );
    assert_eq!(dispatch(args(None, true, Some("a"))), Request::Send(ServerInstruction::MoveFocus));
}

#[test]
fn exit_codes() {
    assert_eq!(exit_code(Ending::Success), 0);
    assert_eq!(exit_code(Ending::UsageError), 1);
    assert_eq!(exit_code(Ending::HostUnreachable), 2);
}

#[test]
fn event_masks() {
    let none = EventMask::none();
    assert!(!none.contains(EventKind::Key));
    let key = EventMask::only(EventKind::Key);
    let timer = EventMask::only(EventKind::Timer);
    assert!(key.contains(EventKind::Key));
    assert!(!key.contains(EventKind::Mouse));
    let both = key.union(&timer);
    assert!(both.contains(EventKind::Key) && both.contains(EventKind::Timer));
    assert!(!both.contains(EventKind::TabUpdate));
    let left = both.without(&key);
    assert!(!left.contains(EventKind::Key) && left.contains(EventKind::Timer));
    for kind in [
        EventKind::ModeUpdate,
        EventKind::TabUpdate,
        EventKind::Key,
        EventKind::Mouse,
        EventKind::Timer,
        EventKind::CopyToClipboard,
        EventKind::InputReceived,
    ] {
        assert!(EventMask::only(kind).contains(kind));
        assert!(!none.contains(kind));
    }
}

#[test]
fn plugin_subscriptions() {
    let mut plugin = Plugin::new(PluginId(3));
    assert!(!plugin.wants(EventKind::ModeUpdate));
    plugin.subscribe(EventMask::only(EventKind::ModeUpdate));
    plugin.subscribe(EventMask::only(EventKind::Key));
    assert!(plugin.wants(EventKind::ModeUpdate));
    assert!(plugin.wants(EventKind::Key));
    plugin.unsubscribe(EventMask::only(EventKind::ModeUpdate));
    assert!(!plugin.wants(EventKind::ModeUpdate));
    assert!(plugin.wants(EventKind::Key));
    assert_eq!(plugin.id, PluginId(3));
}

#[test]
fn fifth_overrun_in_a_row_removes_the_plugin() {
    assert_eq!(MAX_OVERRUNS, 5);
    let mut plugin = Plugin::new(PluginId(0));
    for _ in 0..4 {
        assert_eq!(plugin.rendered(false), RenderVerdict::Skipped);
    }
    assert_eq!(plugin.overruns, 4);
    assert_eq!(plugin.rendered(false), RenderVerdict::Remove);
}

#[test]
fn a_render_in_time_clears_the_overruns() {
    let mut plugin = Plugin::new(PluginId(0));
    for _ in 0..4 {
        plugin.rendered(false);
    }
    assert_eq!(plugin.rendered(true), RenderVerdict::Drawn);
    assert_eq!(plugin.overruns, 0);
    for _ in 0..4 {
        assert_eq!(plugin.rendered(false), RenderVerdict::Skipped);
    }
    assert_eq!(plugin.rendered(false), RenderVerdict::Remove);
}
