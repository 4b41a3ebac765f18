//! Locating the terminal-multiplexer pane that runs a given process.
//!
//! The library is the pure core of the tool: parsing the collaborators'
//! output (a process enumeration and a pane listing), resolving the
//! foreground process of each pane's shell, filtering panes by process
//! name and directory, and ranking the candidates by proximity to the
//! caller's working directory. All I/O (running the enumeration, the
//! listing, canonicalizing paths, and acting on the chosen pane) stays
//! outside, and hands the library plain strings.

pub mod cli;
pub mod dirs;
pub mod lines;
pub mod matching;
pub mod panes;
pub mod procs;
pub mod rank;
pub mod resolve;
pub mod text;
