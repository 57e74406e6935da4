//! The session host of a terminal workspace multiplexer.
//!
//! A host owns a session of tabs. Each tab tiles its rectangle with panes
//! by a layout tree; each pane has a terminal emulator that takes the output
//! of a child process, or the drawing of a plugin. The host applies the
//! instructions that reach it, one after the other, and hands back what has
//! to happen outside as effects.
//!
//! - [`geometry`], [`layout`], [`tiling`]: rectangles, the layout tree and
//!   the law that its panes tile the rectangle that it fills.
//! - [`cell`], [`grid`], [`parser`], [`emulator`]: the terminal emulator.
//! - [`pane`], [`frame`], [`plugin`], [`template`], [`tab`], [`session`]:
//!   what a session is made of.
//! - [`host`]: the router of instructions.
//! - [`ipc`], [`cli`]: the messages between client and host, and the
//!   command line.

pub mod geometry;
pub mod ids;
pub mod layout;
pub mod tiling;
pub mod cell;
pub mod grid;
pub mod parser;
pub mod emulator;
pub mod plugin;
pub mod pane;
pub mod frame;
pub mod template;
pub mod tab;
pub mod session;
pub mod host;
pub mod ipc;
pub mod cli;
