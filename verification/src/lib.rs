//! A bounded engine for following large text logs, and the state of a
//! terminal viewer built on it.
//!
//! The crate keeps a fixed-size window of the most recent lines of a log,
//! extends that window as the log grows, and filters it by substring. It
//! does no input or output of its own: a caller reads the bytes and hands
//! them over. Every function is verified against a mathematical model of
//! byte streams and the lines they hold; what is taken on trust of the
//! standard library is gathered in `text`.
//!
//! - `lines`, `boundaries`: the model of lines in bytes, and of cutting
//!   UTF-8 at newlines.
//! - `reader`: reading one bounded line at a time.
//! - `logs`, `content`: the first load of a log.
//! - `buffer`, `live`: the window of kept lines, and following the log.
//! - `filter`: the filtered view of the window.
//! - `app`, `keys`, `selection`, `theme`, `settings`: the viewer's state and
//!   what keys do to it.
//! - `cli`, `login`, `util`: the command line, the login, and helpers for
//!   the display.

pub mod constants;
pub mod text;
pub mod lines;
pub mod boundaries;
pub mod reader;
pub mod logs;
pub mod content;
pub mod buffer;
pub mod live;
pub mod filter;
pub mod theme;
pub mod settings;
pub mod selection;
pub mod keys;
pub mod app;
pub mod cli;
pub mod login;
pub mod util;
