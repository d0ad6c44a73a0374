//! Finds version-controlled repositories under a directory, measures the
//! space their ignored files take, and drives a navigable list of them.
//!
//! Everything here is plain data and decisions: walking the disk, removing
//! files and drawing on a terminal are left to the program around it, which
//! hands the library what it saw and performs what the library decides.

pub mod app;
pub mod collector;
pub mod details;
pub mod helpwindow;
pub mod key;
pub mod list;
pub mod pathlist;
pub mod repository;
pub mod statusbar;
pub mod usagebar;
pub mod window;

pub use app::{App, AppState};
pub use details::Details;
pub use helpwindow::HelpWindow;
pub use key::Key;
pub use list::List;
pub use pathlist::{scroll_line_if_needed, PathList};
pub use repository::{IgnoredPathInfo, Repository, RepositoryStore, StoreError};
pub use statusbar::StatusBar;
pub use usagebar::UsageBar;
pub use window::Window;
