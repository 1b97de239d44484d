//! A verified core for a small todo-list manager.
//!
//! Records (a description plus a three-way status) are kept in an ordered
//! in-memory list, serialized one per line into a tab-separated flat file,
//! and addressed by their 1-based position.  This crate holds the record
//! model, the line codec, the file rendering and parsing, and the command
//! handlers; reading the terminal and touching the file system are left to
//! the surrounding program.

pub mod codec;
pub mod commands;
pub mod model;
pub mod store;
pub mod text;
