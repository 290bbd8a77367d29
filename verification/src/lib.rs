//! A durable, append-only journal for a session: every response item and
//! event becomes one line of JSON, written by a single writer, and the file
//! can be replayed to rebuild the session's history.
//!
//! This crate holds the journal's logic and proves it; it does no I/O and
//! waits for nothing. The caller reads the clock, owns the queue between the
//! producers and the writer, writes the lines and reads the file.
//!
//! - [`text`]: how a file is cut into lines, and back.
//! - [`json`]: JSON documents, read and printed by `serde_json`.
//! - [`clock`]: calendar time and its two formats.
//! - [`session`]: the session header and its line.
//! - [`record`]: the line of each record, and the record of each line.
//! - [`recorder`]: where a journal goes, and what producers queue.
//! - [`writer`]: what the writer does with each queued command.
//! - [`replay`]: the history that a file holds.
//! - [`journal`]: what a whole session leaves in its file, and what replay
//!   makes of it.
//! - [`model`]: how collections are seen in contracts.

pub mod clock;
pub mod journal;
pub mod json;
pub mod model;
pub mod record;
pub mod recorder;
pub mod replay;
pub mod session;
pub mod text;
pub mod writer;
