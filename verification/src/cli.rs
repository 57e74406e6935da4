//! The command line: what the arguments ask for, and the exit codes.

use vstd::prelude::*;
use crate::ipc::ServerInstruction;

verus! {

/// The arguments of the command line.
#[derive(Debug, PartialEq, Eq)]
pub struct CliArgs {
    /// `--split`: the direction, `h` or `v`, in which to split the focused
    /// pane of a running host.
    pub split: Option<char>,
    /// `--move-focus`: move the focus of a running host.
    pub move_focus: bool,
    /// `--open-file`: the file to open in a new pane of a running host.
    pub open_file: Option<String>,
}

/// What the command line asks for.
#[derive(Debug, PartialEq, Eq)]
pub enum Request {
    /// Send the instruction to the running host and exit.
    Send(ServerInstruction),
    /// Start a host and attach a client to it.
    Start,
    /// The arguments make no sense.
    Usage,
}

/// How a run of the program ended.
#[derive(Clone, Copy, Debug, PartialEq, Eq, Structural)]
pub enum Ending {
    Success,
    UsageError,
    HostUnreachable,
}

/// What the arguments ask for: `--split` comes first, then `--move-focus`,
/// then `--open-file`; without any of them a host is started. A split in a
/// direction other than `h` and `v` is a usage error.
pub open spec fn requested(args: CliArgs) -> Request {
    match args.split {
        Some(direction) => if direction == 'h' {
            Request::Send(ServerInstruction::SplitHorizontally)
        } else if direction == 'v' {
            Request::Send(ServerInstruction::SplitVertically)
        } else {
            Request::Usage
        },
        None => if args.move_focus {
            Request::Send(ServerInstruction::MoveFocus)
        } else {
            match args.open_file {
                Some(path) => Request::Send(ServerInstruction::OpenFile(path)),
                None => Request::Start,
            }
        },
    }
}

/// Decides what the arguments ask for.
pub fn dispatch(args: CliArgs) -> (request: Request)
    ensures
        request == requested(args),
{
    match args.split {
        Some(direction) => if direction == 'h' {
            Request::Send(ServerInstruction::SplitHorizontally)
        } else if direction == 'v' {
            Request::Send(ServerInstruction::SplitVertically)
        } else {
            Request::Usage
        },
        None => if args.move_focus {
            Request::Send(ServerInstruction::MoveFocus)
        } else {
            match args.open_file {
                Some(path) => Request::Send(ServerInstruction::OpenFile(path)),
                None => Request::Start,
            }
        },
    }
}

/// The exit code of the program: 0 for success, 1 for a usage error, 2
/// where the host cannot be reached.
pub fn exit_code(ending: Ending) -> (code: i32)
    ensures
        code == match ending {
            Ending::Success => 0i32,
            Ending::UsageError => 1i32,
            Ending::HostUnreachable => 2i32,
        },
{
    match ending {
        Ending::Success => 0,
        Ending::UsageError => 1,
        Ending::HostUnreachable => 2,
    }
}

} // verus!
