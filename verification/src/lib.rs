//! SSH Bookmarker's library: the bookmarks of a menu-bar SSH launcher and
//! everything that is decided about them. It builds the `ssh` command line of
//! a bookmark (with shell quoting that is proved to read back as what was
//! quoted), the OpenClaw maintenance command, the self-deleting launch
//! script, the tray menu and what its clicks ask for, the detection of the
//! terminal that opens shell scripts, where settings and the database live,
//! and how stored rows become bookmarks.
pub mod text;
pub mod decimal;
pub mod shell;
pub mod paths;
pub mod bookmark;
pub mod launcher;
pub mod terminals;
pub mod settings;
pub mod tray;
