//! Suggests the next shell command from the history of bash, zsh or fish.
//!
//! The library reads a history file from its bytes ([`history`], [`lines`]),
//! suggests the command that most often followed a change to the current
//! directory, or else the most frequent command ([`predict`]), and ranks the
//! commands used most ([`stats`]). [`shell`] names the shell and its history
//! file, and [`session`] says what one run of the program does.

pub mod frequency;
pub mod history;
pub mod lines;
pub mod paths;
pub mod predict;
pub mod session;
pub mod shell;
pub mod stats;
pub mod tally;
pub mod text;
