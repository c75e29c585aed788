//! A vault of plain markdown files, kept as a small database: a task ledger
//! in one file and a journal with one note file per day.
//!
//! The library is the logic of the vault, and every function of it states
//! what it returns. It does not touch files: operations take the text of a
//! file and hand back the text that the file is to hold, or say what is to be
//! appended where. Reading and writing is left to the program around it.
//!
//! - [`codec`] reads a ledger line as a task record and writes a task as a line.
//! - [`tasks`] is the task ledger: add, set a status, list, purge, find.
//! - [`vault`] is the journal store: the note file of a day, its first
//!   content, appends, and the most recent notes.
//! - [`templates`] holds the skeletons that new files start from.
//! - [`laws`], [`roundtrip`] and [`order`] state what holds across the
//!   operations of the ledger, the codec and the journal listing.
//! - [`config`], [`search`], [`server`] and [`cli`] are what the command
//!   line and the protocol server decide around the vault.
//! - [`text`], [`lines`] and [`decimal`] are the text tools underneath.
pub mod cli;
pub mod codec;
pub mod config;
pub mod decimal;
pub mod laws;
pub mod lines;
pub mod order;
pub mod roundtrip;
pub mod search;
pub mod server;
pub mod tasks;
pub mod templates;
pub mod text;
pub mod vault;
