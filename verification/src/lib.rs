//! Playlist state, versioned playlist edits and the pure decision logic of the
//! Inako music player daemon, command line client and window.

pub mod paths;
pub mod change;
pub mod add;
pub mod delete;
pub mod reorder;
pub mod manager;
pub mod index_map;
pub mod laws;
pub mod selection;
pub mod pending;
pub mod edits;
pub mod requests;
pub mod text;
pub mod drag;
pub mod lines;
pub mod exchange;
pub mod window;
pub mod lyrics;
pub mod args;
pub mod command_laws;
