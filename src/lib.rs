//! Backups of show files: walks the configured paths of a system below its
//! source root, decides what each file and directory becomes in a zip
//! archive, and names the archive after the system and the time. The
//! filesystem, the archive writer and the terminal are driven from outside
//! through the plain values these modules take and return.

pub mod archive;
pub mod error;
pub mod matcher;
pub mod menu;
pub mod naming;
pub mod path;
pub mod planner;
pub mod system;
pub mod tui;
