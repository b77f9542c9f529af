//! Core state of a terminal SQL client: a line-oriented text buffer with
//! cursor navigation, a viewport that follows the cursor, and scrollable
//! views over query results and log messages.
//!
//! Everything here is pure, in-memory state manipulation; terminal I/O,
//! key-event translation and database access live outside this crate.

pub mod app;
pub mod editor;
pub mod message;
pub mod paging;
pub mod query;
pub mod table;
pub mod viewport;
