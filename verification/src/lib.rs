//! Execution and usage-history core of an application launcher.
//!
//! Given a selected entry, the library decides how it is to be run (plain
//! command, graphical application or terminal application), builds the shell
//! command line and the argument vector of the detached process, counts the
//! launch, and turns the entry map into the text of the history store and back.
//! Starting the process and touching the file system are left to the caller.

pub mod entry;
pub mod history;
pub mod launch;
pub mod ordered;
pub mod pattern;
pub mod shell;
pub mod text;
