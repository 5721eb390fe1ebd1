//! A personal worklog kept as weekly plain-text files.
//!
//! The library computes where this week's log lives, what today's header
//! looks like, and how the file's bytes change when a task starts or ends.
//! Reading and writing the file is left to the caller.
pub mod calendar;
pub mod clock;
pub mod entry;
pub mod layout;
