//! The versioned edit messages that the daemon and its clients exchange.

use std::path::PathBuf;
use vstd::prelude::*;

verus! {

/// One playlist edit.
///
/// Every index in `Add`, `Delete` and `Move` refers to the playlist as it was
/// before the edit, so that a batch of edits never shifts its own indices.
#[derive(Clone, Debug, PartialEq)]
pub enum PlaylistChangeKind {
    /// `(i, path)` inserts `path` before the original item `i`; `i` equal to
    /// the length appends. Items inserted at the same index keep their order.
    Add(Vec<(usize, PathBuf)>),
    /// Removes the items at the given original indices, all at once.
    Delete(Vec<usize>),
    /// `(m, n)` puts the original item `m` at new index `n`; all moves happen
    /// at once and the items that do not move fill the free places in order.
    Move(Vec<(usize, usize)>),
    /// Sets the current item, `None` meaning that no item is selected.
    ResetCurrent(Option<usize>),
    /// Replaces the whole playlist and its current item.
    Rebuild(Vec<PathBuf>, Option<usize>),
}

/// An edit together with the playlist version that it is based on.
#[derive(Clone, Debug, PartialEq)]
pub struct PlaylistChangeMessage {
    pub state_number: usize,
    pub change: PlaylistChangeKind,
}

/// Why a playlist operation was refused.
#[derive(Clone, Copy, Debug, PartialEq, Eq, Structural)]
pub enum PlaylistError {
    /// An incremental edit names another version than the local one.
    StateMismatch { own: usize, given: usize },
    /// An insertion index lies beyond the end of the playlist.
    AddOutOfRange { index: usize, length: usize },
    /// A deletion index does not name an item.
    DeleteOutOfRange { index: usize, length: usize },
    /// The same item is deleted twice in one edit.
    DeleteDuplicate { index: usize },
    /// A move source does not name an item.
    MoveSourceOutOfRange { source: usize, length: usize },
    /// A move destination does not name a place.
    MoveDestinationOutOfRange { destination: usize, length: usize },
    /// The same item is moved twice in one edit.
    MoveSourceDuplicate { source: usize },
    /// Two items are moved to the same place in one edit.
    MoveDestinationDuplicate { destination: usize },
    /// A new current index does not name an item.
    CurrentOutOfRange { index: usize, length: usize },
    /// No item is current.
    NoCurrent,
    /// The current item is already the first one.
    AlreadyFirst,
    /// The current item is already the last one.
    AlreadyLast,
    /// A selected index does not name an item.
    SelectOutOfRange,
    /// A looked-up index does not name an item.
    IndexOutOfRange,
}

impl PlaylistChangeKind {
    /// Whether this edit is a full snapshot.
    pub open spec fn is_rebuild(self) -> bool {
        self is Rebuild
    }
}

} // verus!
