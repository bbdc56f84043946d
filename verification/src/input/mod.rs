//! Input-side collaborators of the interpreter: the command history.

pub mod history;

pub use history::types::{HistoryEntry, HistorySearchMode, HistoryStats};
