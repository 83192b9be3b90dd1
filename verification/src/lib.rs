//! Byte, line and word statistics of a text file, with the command-line
//! rules that select which of them to report.
//!
//! - [`args`]: the path and the command, read off the argument list.
//! - [`lines`] and [`words`]: what the lines and the words of a text are,
//!   and how they are counted.
//! - [`info`]: the three statistics of one file.
//! - [`report`]: the text that reports them.
//! - [`error`]: the ways in which a run can fail.
//!
//! Nothing here touches the file system or writes anywhere: the caller
//! reads the file and hands over what it got, and writes the report.

pub mod args;
pub mod error;
pub mod info;
pub mod lines;
pub mod report;
pub mod words;
