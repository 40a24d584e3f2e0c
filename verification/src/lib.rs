//! A launcher for an Obsidian vault: full-text search over the vault's
//! notes, opening a note in Obsidian, and a global shortcut that brings the
//! launcher up.
//!
//! Each module states what its functions do over a mathematical model of
//! the data (strings as `Seq<char>`, paths by their components, the window
//! as a state machine) and is verified against it; the `law_` proof
//! functions state what holds across calls.
pub mod config;
pub mod hotkey_daemon;
pub mod index;
pub mod layer_shell;
pub mod links;
pub mod paths;
pub mod text;
pub mod vault;
pub mod watcher;
pub mod ui;
