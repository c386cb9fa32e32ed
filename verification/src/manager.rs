//! The playlist state that the daemon owns and that each window mirrors.

use crate::add::{
    added_entries, check_add, count_inserted_through, count_through, first_add_error,
    lemma_count_below_bound, spec_add,
};
use crate::change::{PlaylistChangeKind, PlaylistChangeMessage, PlaylistError};
use crate::delete::{
    check_delete, count_deleted_before, deleted_before, first_delete_error, kept_entries,
    spec_delete,
};
use crate::paths::clone_paths;
use crate::reorder::{
    check_move, entries_in_order, first_move_error, first_position, lemma_first_move_error_none,
    lemma_move_order, lemma_target_sources, move_order, order_after_move, position_in, spec_move,
};
use std::path::PathBuf;
use vstd::prelude::*;

verus! {

/// The version that follows `s`; versions wrap around at the top.
pub open spec fn next_state_number(s: usize) -> usize {
    if s == usize::MAX {
        0
    } else {
        (s + 1) as usize
    }
}

/// Why `change` cannot be applied to a playlist holding `entries`, if it cannot.
pub open spec fn change_error(entries: Seq<PathBuf>, change: PlaylistChangeKind) -> Option<
    PlaylistError,
> {
    let len = entries.len() as usize;
    match change {
        PlaylistChangeKind::Add(items) => first_add_error(items@, len),
        PlaylistChangeKind::Delete(items) => first_delete_error(items@, len),
        PlaylistChangeKind::Move(items) => first_move_error(items@, len),
        PlaylistChangeKind::ResetCurrent(Some(i)) => if i >= len {
            Some(PlaylistError::CurrentOutOfRange { index: i, length: len })
        } else {
            None
        },
        PlaylistChangeKind::ResetCurrent(None) => None,
        PlaylistChangeKind::Rebuild(_, _) => None,
    }
}

/// The playlist after an accepted `change`.
pub open spec fn entries_after(entries: Seq<PathBuf>, change: PlaylistChangeKind) -> Seq<PathBuf> {
    match change {
        PlaylistChangeKind::Add(items) => spec_add(entries, items@),
        PlaylistChangeKind::Delete(items) => spec_delete(entries, items@),
        PlaylistChangeKind::Move(items) => spec_move(entries, items@),
        PlaylistChangeKind::ResetCurrent(_) => entries,
        PlaylistChangeKind::Rebuild(paths, _) => paths@,
    }
}

/// The current index after an accepted `change`: structural edits follow the
/// current item to its new place (or drop it when it is deleted), explicit
/// edits set it, and a snapshot keeps its index only when it is in range.
pub open spec fn current_after(
    entries: Seq<PathBuf>,
    current: Option<usize>,
    change: PlaylistChangeKind,
) -> Option<usize> {
    match change {
        PlaylistChangeKind::Add(items) => match current {
            Some(c) => Some((c + count_through(items@, c as int)) as usize),
            None => None,
        },
        PlaylistChangeKind::Delete(items) => match current {
            Some(c) => if items@.contains(c) {
                None
            } else {
                Some((c - deleted_before(items@, c as nat)) as usize)
            },
            None => None,
        },
        PlaylistChangeKind::Move(items) => match current {
            Some(c) => first_position(move_order(items@, entries.len()), c),
            None => None,
        },
        PlaylistChangeKind::ResetCurrent(i) => i,
        PlaylistChangeKind::Rebuild(paths, i) => match i {
            Some(k) => if k < paths@.len() {
                Some(k)
            } else {
                None
            },
            None => None,
        },
    }
}

/// The outcome of applying `message` to the state (`own`, `entries`,
/// `current`): the refusal, or the new version, entries and current index.
pub open spec fn applied(
    own: usize,
    entries: Seq<PathBuf>,
    current: Option<usize>,
    message: PlaylistChangeMessage,
) -> Result<(usize, Seq<PathBuf>, Option<usize>), PlaylistError> {
    let given = message.state_number;
    let change = message.change;
    if own != given && !change.is_rebuild() {
        Err(PlaylistError::StateMismatch { own, given })
    } else {
        match change_error(entries, change) {
            Some(e) => Err(e),
            None => Ok(
                (
                    if change.is_rebuild() {
                        given
                    } else {
                        next_state_number(own)
                    },
                    entries_after(entries, change),
                    current_after(entries, current, change),
                ),
            ),
        }
    }
}

/// The item that "next" selects: the one after the current item.
pub open spec fn next_selection(current: Option<usize>, len: nat) -> Result<usize, PlaylistError> {
    match current {
        None => Err(PlaylistError::NoCurrent),
        Some(c) => if c + 1 >= len {
            Err(PlaylistError::AlreadyLast)
        } else {
            Ok((c + 1) as usize)
        },
    }
}

/// The item that "previous" selects: the one before the current item.
pub open spec fn previous_selection(current: Option<usize>) -> Result<usize, PlaylistError> {
    match current {
        None => Err(PlaylistError::NoCurrent),
        Some(c) => if c == 0 {
            Err(PlaylistError::AlreadyFirst)
        } else {
            Ok((c - 1) as usize)
        },
    }
}

/// The item that an explicit selection of `index` selects.
pub open spec fn chosen_selection(index: usize, len: nat) -> Result<usize, PlaylistError> {
    if index >= len {
        Err(PlaylistError::SelectOutOfRange)
    } else {
        Ok(index)
    }
}

/// The daemon's playlist: the entries, the current item and a version
/// number that every accepted edit advances.
pub struct PlaylistManager {
    state_number: usize,
    entries: Vec<PathBuf>,
    current: Option<usize>,
}

impl PlaylistManager {
    /// The version of the playlist.
    pub closed spec fn state_number_view(&self) -> usize {
        self.state_number
    }

    /// The entries of the playlist.
    pub closed spec fn entries_view(&self) -> Seq<PathBuf> {
        self.entries@
    }

    /// The index of the current item, if any; it may lie beyond the end after
    /// a reload from a stale snapshot.
    pub closed spec fn current_view(&self) -> Option<usize> {
        self.current
    }

    /// Whether applying `message` stays within the machine's integers and
    /// indices: a new current index after an insertion fits in `usize`, and a
    /// deletion only follows a current index that names an item.
    pub open spec fn change_is_safe(&self, message: PlaylistChangeMessage) -> bool {
        let entries = self.entries_view();
        let mismatch = self.state_number_view() != message.state_number
            && !message.change.is_rebuild();
        mismatch || change_error(entries, message.change) is Some || match message.change {
            PlaylistChangeKind::Add(items) => match self.current_view() {
                Some(c) => c + count_through(items@, c as int) <= usize::MAX,
                None => true,
            },
            PlaylistChangeKind::Delete(_) => match self.current_view() {
                Some(c) => c < entries.len(),
                None => true,
            },
            _ => true,
        }
    }

    /// An empty playlist at version 0.
    pub fn new() -> (m: Self)
        ensures
            m.state_number_view() == 0,
            m.entries_view() == Seq::<PathBuf>::empty(),
            m.current_view() is None,
    {
        PlaylistManager { state_number: 0, entries: Vec::new(), current: None }
    }

    fn state_number_increment(&mut self)
        ensures
            final(self).state_number == next_state_number(old(self).state_number),
            final(self).entries == old(self).entries,
            final(self).current == old(self).current,
    {
        self.state_number = self.state_number.wrapping_add(1);
    }

    /// Replaces the playlist and its current index, advances the version and
    /// returns the snapshot of the new state.
    pub fn reload(&mut self, new_playlist: Vec<PathBuf>, current: Option<usize>) -> (r: Result<
        PlaylistChangeMessage,
        PlaylistError,
    >)
        ensures
            final(self).entries_view() == new_playlist@,
            final(self).current_view() == current,
            final(self).state_number_view() == next_state_number(old(self).state_number_view()),
            r is Ok,
            r.unwrap().state_number == final(self).state_number_view(),
            r.unwrap().change matches PlaylistChangeKind::Rebuild(paths, c) && paths@
                == new_playlist@ && c == current,
    {
        self.entries = new_playlist;
        self.current = current;
        self.state_number_increment();
        Ok(
            PlaylistChangeMessage {
                state_number: self.state_number,
                change: PlaylistChangeKind::Rebuild(clone_paths(&self.entries), self.current),
            },
        )
    }

    /// The snapshot of the current state.
    pub fn get_reload_message(&self) -> (m: PlaylistChangeMessage)
        ensures
            m.state_number == self.state_number_view(),
            m.change matches PlaylistChangeKind::Rebuild(paths, c) && paths@ == self.entries_view()
                && c == self.current_view(),
    {
        PlaylistChangeMessage {
            state_number: self.state_number,
            change: PlaylistChangeKind::Rebuild(clone_paths(&self.entries), self.current),
        }
    }

    /// The entries of the playlist.
    pub fn get_playlist_ref(&self) -> (r: &Vec<PathBuf>)
        ensures
            r@ == self.entries_view(),
    {
        &self.entries
    }

    /// The index of the current item.
    pub fn get_current(&self) -> (r: Option<usize>)
        ensures
            r == self.current_view(),
    {
        self.current
    }

    /// The version of the playlist.
    pub fn get_state_number(&self) -> (r: usize)
        ensures
            r == self.state_number_view(),
    {
        self.state_number
    }

    /// The path at `index`.
    pub fn get_path_by_index(&self, index: usize) -> (r: Result<PathBuf, PlaylistError>)
        ensures
            index < self.entries_view().len() ==> r == Ok::<PathBuf, PlaylistError>(
                self.entries_view()[index as int],
            ),
            index >= self.entries_view().len() ==> r == Err::<PathBuf, PlaylistError>(
                PlaylistError::IndexOutOfRange,
            ),
    {
        if index < self.entries.len() {
            Ok(self.entries[index].clone())
        } else {
            Err(PlaylistError::IndexOutOfRange)
        }
    }

    /// The path of the current item, when there is one and it is in range.
    pub fn get_current_path(&self) -> (r: Option<PathBuf>)
        ensures
            r == match self.current_view() {
                Some(c) => if c < self.entries_view().len() {
                    Some(self.entries_view()[c as int])
                } else {
                    None
                },
                None => None,
            },
    {
        match self.current {
            Some(c) => if c < self.entries.len() {
                Some(self.entries[c].clone())
            } else {
                None
            },
            None => None,
        }
    }

    /// Whether `message` can be applied without leaving the machine's
    /// integers or indices (see `change_is_safe`).
    pub fn change_fits(&self, message: &PlaylistChangeMessage) -> (r: bool)
        ensures
            r == self.change_is_safe(*message),
    {
        let len = self.entries.len();
        if self.state_number != message.state_number && !matches!(
            message.change,
            PlaylistChangeKind::Rebuild(_, _)
        ) {
            return true;
        }
        match &message.change {
            PlaylistChangeKind::Add(items) => {
                if check_add(items, len).is_err() {
                    return true;
                }
                match self.current {
                    Some(c) => {
                        proof {
                            lemma_count_below_bound(items@, c + 1);
                        }
                        let shift = count_inserted_through(items, c);
                        c <= usize::MAX - shift
                    },
                    None => true,
                }
            },
            PlaylistChangeKind::Delete(items) => {
                if check_delete(items, len).is_err() {
                    return true;
                }
                match self.current {
                    Some(c) => c < len,
                    None => true,
                }
            },
            _ => true,
        }
    }

    /// Applies a versioned edit.
    ///
    /// An incremental edit must name the local version; a snapshot is taken
    /// whatever its version and adopts it. Every index is checked before the
    /// playlist changes, so a refused edit leaves the state as it was. On
    /// success the reply is the edit itself, carrying the version it applied
    /// to, and an incremental edit advances the local version by one.
    pub fn apply_playlist_change(&mut self, change_message: PlaylistChangeMessage) -> (r: Result<
        PlaylistChangeMessage,
        PlaylistError,
    >)
        requires
            old(self).change_is_safe(change_message),
        ensures
            match applied(
                old(self).state_number_view(),
                old(self).entries_view(),
                old(self).current_view(),
                change_message,
            ) {
                Err(e) => r == Err::<PlaylistChangeMessage, PlaylistError>(e) && *final(self)
                    == *old(self),
                Ok((s, e, c)) => {
                    &&& r == Ok::<PlaylistChangeMessage, PlaylistError>(change_message)
                    &&& final(self).state_number_view() == s
                    &&& final(self).entries_view() == e
                    &&& final(self).current_view() == c
                },
            },
    {
        let base_state_number = change_message.state_number;
        let is_rebuild = matches!(change_message.change, PlaylistChangeKind::Rebuild(_, _));
        if self.state_number != base_state_number && !is_rebuild {
            return Err(
                PlaylistError::StateMismatch { own: self.state_number, given: base_state_number },
            );
        }
        let change = match change_message.change {
            PlaylistChangeKind::Add(items) => self.handle_add(items),
            PlaylistChangeKind::Delete(items) => self.handle_delete(items),
            PlaylistChangeKind::Move(items) => self.handle_move(items),
            PlaylistChangeKind::ResetCurrent(current_index) => self.handle_reset_current(
                current_index,
            ),
            PlaylistChangeKind::Rebuild(path_bufs, current_index) => {
                self.handle_rebuild(clone_paths(&path_bufs), current_index);
                self.state_number = base_state_number;
                return Ok(
                    PlaylistChangeMessage {
                        state_number: base_state_number,
                        change: PlaylistChangeKind::Rebuild(path_bufs, current_index),
                    },
                );
            },
        };
        match change {
            Err(e) => Err(e),
            Ok(change) => {
                let res = PlaylistChangeMessage { state_number: self.state_number, change };
                self.state_number_increment();
                Ok(res)
            },
        }
    }

    fn handle_add(&mut self, items: Vec<(usize, PathBuf)>) -> (r: Result<
        PlaylistChangeKind,
        PlaylistError,
    >)
        requires
            first_add_error(items@, old(self).entries@.len() as usize) is None ==> match old(
                self,
            ).current {
                Some(c) => c + count_through(items@, c as int) <= usize::MAX,
                None => true,
            },
        ensures
            ({
                let change = PlaylistChangeKind::Add(items);
                let entries = old(self).entries@;
                match change_error(entries, change) {
                    Some(e) => r == Err::<PlaylistChangeKind, PlaylistError>(e) && *final(self)
                        == *old(self),
                    None => {
                        &&& r == Ok::<PlaylistChangeKind, PlaylistError>(change)
                        &&& final(self).entries@ == entries_after(entries, change)
                        &&& final(self).current == current_after(
                            entries,
                            old(self).current,
                            change,
                        )
                        &&& final(self).state_number == old(self).state_number
                    },
                }
            }),
    {
        let old_len = self.entries.len();
        match check_add(&items, old_len) {
            Err(e) => {
                return Err(e);
            },
            Ok(()) => {},
        }
        let updated = added_entries(&self.entries, &items);
        match self.current {
            Some(index) => {
                let shift = count_inserted_through(&items, index);
                self.current = Some(index + shift);
            },
            None => {},
        }
        self.entries = updated;
        Ok(PlaylistChangeKind::Add(items))
    }

    fn handle_delete(&mut self, items: Vec<usize>) -> (r: Result<PlaylistChangeKind, PlaylistError>)
        requires
            first_delete_error(items@, old(self).entries@.len() as usize) is None ==> match old(
                self,
            ).current {
                Some(c) => c < old(self).entries@.len(),
                None => true,
            },
        ensures
            ({
                let change = PlaylistChangeKind::Delete(items);
                let entries = old(self).entries@;
                match change_error(entries, change) {
                    Some(e) => r == Err::<PlaylistChangeKind, PlaylistError>(e) && *final(self)
                        == *old(self),
                    None => {
                        &&& r == Ok::<PlaylistChangeKind, PlaylistError>(change)
                        &&& final(self).entries@ == entries_after(entries, change)
                        &&& final(self).current == current_after(
                            entries,
                            old(self).current,
                            change,
                        )
                        &&& final(self).state_number == old(self).state_number
                    },
                }
            }),
    {
        let old_len = self.entries.len();
        let removed = match check_delete(&items, old_len) {
            Err(e) => {
                return Err(e);
            },
            Ok(flags) => flags,
        };
        match self.current {
            Some(index) => {
                if removed[index] {
                    self.current = None;
                } else {
                    let before = count_deleted_before(&removed, index, Ghost(items@));
                    self.current = Some(index - before);
                }
            },
            None => {},
        }
        self.entries = kept_entries(&self.entries, &removed, Ghost(items@));
        Ok(PlaylistChangeKind::Delete(items))
    }

    fn handle_move(&mut self, items: Vec<(usize, usize)>) -> (r: Result<
        PlaylistChangeKind,
        PlaylistError,
    >)
        ensures
            ({
                let change = PlaylistChangeKind::Move(items);
                let entries = old(self).entries@;
                match change_error(entries, change) {
                    Some(e) => r == Err::<PlaylistChangeKind, PlaylistError>(e) && *final(self)
                        == *old(self),
                    None => {
                        &&& r == Ok::<PlaylistChangeKind, PlaylistError>(change)
                        &&& final(self).entries@ == entries_after(entries, change)
                        &&& final(self).current == current_after(
                            entries,
                            old(self).current,
                            change,
                        )
                        &&& final(self).state_number == old(self).state_number
                    },
                }
            }),
    {
        let old_len = self.entries.len();
        let (flags, slots) = match check_move(&items, old_len) {
            Err(e) => {
                return Err(e);
            },
            Ok(found) => found,
        };
        proof {
            lemma_first_move_error_none(items@, old_len);
            lemma_move_order(items@, old_len);
            lemma_target_sources(items@, old_len);
        }
        let order = order_after_move(&flags, &slots, Ghost(items@));
        match self.current {
            Some(index) => {
                self.current = position_in(&order, index);
            },
            None => {},
        }
        self.entries = entries_in_order(&self.entries, &order);
        Ok(PlaylistChangeKind::Move(items))
    }

    fn handle_reset_current(&mut self, current_index: Option<usize>) -> (r: Result<
        PlaylistChangeKind,
        PlaylistError,
    >)
        ensures
            ({
                let change = PlaylistChangeKind::ResetCurrent(current_index);
                let entries = old(self).entries@;
                match change_error(entries, change) {
                    Some(e) => r == Err::<PlaylistChangeKind, PlaylistError>(e) && *final(self)
                        == *old(self),
                    None => {
                        &&& r == Ok::<PlaylistChangeKind, PlaylistError>(change)
                        &&& final(self).entries == old(self).entries
                        &&& final(self).current == current_index
                        &&& final(self).state_number == old(self).state_number
                    },
                }
            }),
    {
        if let Some(index) = current_index {
            if index >= self.entries.len() {
                return Err(
                    PlaylistError::CurrentOutOfRange { index, length: self.entries.len() },
                );
            }
        }
        self.current = current_index;
        Ok(PlaylistChangeKind::ResetCurrent(self.current))
    }

    fn handle_rebuild(&mut self, path_bufs: Vec<PathBuf>, current_index: Option<usize>)
        ensures
            final(self).entries@ == path_bufs@,
            final(self).current == match current_index {
                Some(k) => if k < path_bufs@.len() {
                    Some(k)
                } else {
                    None
                },
                None => None,
            },
            final(self).state_number == old(self).state_number,
    {
        self.current = match current_index {
            Some(index) => if index < path_bufs.len() {
                Some(index)
            } else {
                None
            },
            None => None,
        };
        self.entries = path_bufs;
    }

    /// Makes the previous item current and returns the edit to broadcast,
    /// which carries the version it applied to.
    pub fn select_previous(&mut self) -> (r: Result<PlaylistChangeMessage, PlaylistError>)
        ensures
            match previous_selection(old(self).current_view()) {
                Err(e) => r == Err::<PlaylistChangeMessage, PlaylistError>(e) && *final(self)
                    == *old(self),
                Ok(n) => {
                    &&& r == Ok::<PlaylistChangeMessage, PlaylistError>(
                        PlaylistChangeMessage {
                            state_number: old(self).state_number_view(),
                            change: PlaylistChangeKind::ResetCurrent(Some(n)),
                        },
                    )
                    &&& final(self).current_view() == Some(n)
                    &&& final(self).entries_view() == old(self).entries_view()
                    &&& final(self).state_number_view() == next_state_number(
                        old(self).state_number_view(),
                    )
                },
            },
    {
        let current = match self.current {
            Some(c) => c,
            None => {
                return Err(PlaylistError::NoCurrent);
            },
        };
        if current == 0 {
            return Err(PlaylistError::AlreadyFirst);
        }
        let new_current = Some(current - 1);
        let base_state_number = self.state_number;
        self.state_number_increment();
        self.current = new_current;
        Ok(
            PlaylistChangeMessage {
                state_number: base_state_number,
                change: PlaylistChangeKind::ResetCurrent(new_current),
            },
        )
    }

    /// Makes the next item current and returns the edit to broadcast, which
    /// carries the version it applied to.
    pub fn select_next(&mut self) -> (r: Result<PlaylistChangeMessage, PlaylistError>)
        ensures
            match next_selection(old(self).current_view(), old(self).entries_view().len()) {
                Err(e) => r == Err::<PlaylistChangeMessage, PlaylistError>(e) && *final(self)
                    == *old(self),
                Ok(n) => {
                    &&& r == Ok::<PlaylistChangeMessage, PlaylistError>(
                        PlaylistChangeMessage {
                            state_number: old(self).state_number_view(),
                            change: PlaylistChangeKind::ResetCurrent(Some(n)),
                        },
                    )
                    &&& final(self).current_view() == Some(n)
                    &&& final(self).entries_view() == old(self).entries_view()
                    &&& final(self).state_number_view() == next_state_number(
                        old(self).state_number_view(),
                    )
                },
            },
    {
        let current = match self.current {
            Some(c) => c,
            None => {
                return Err(PlaylistError::NoCurrent);
            },
        };
        if current >= self.entries.len() || current + 1 >= self.entries.len() {
            return Err(PlaylistError::AlreadyLast);
        }
        let new_current = Some(current + 1);
        let base_state_number = self.state_number;
        self.state_number_increment();
        self.current = new_current;
        Ok(
            PlaylistChangeMessage {
                state_number: base_state_number,
                change: PlaylistChangeKind::ResetCurrent(new_current),
            },
        )
    }

    /// Makes item `new_current` current and returns the edit to broadcast,
    /// which carries the version it applied to.
    pub fn select(&mut self, new_current: usize) -> (r: Result<PlaylistChangeMessage, PlaylistError>)
        ensures
            match chosen_selection(new_current, old(self).entries_view().len()) {
                Err(e) => r == Err::<PlaylistChangeMessage, PlaylistError>(e) && *final(self)
                    == *old(self),
                Ok(n) => {
                    &&& r == Ok::<PlaylistChangeMessage, PlaylistError>(
                        PlaylistChangeMessage {
                            state_number: old(self).state_number_view(),
                            change: PlaylistChangeKind::ResetCurrent(Some(n)),
                        },
                    )
                    &&& final(self).current_view() == Some(n)
                    &&& final(self).entries_view() == old(self).entries_view()
                    &&& final(self).state_number_view() == next_state_number(
                        old(self).state_number_view(),
                    )
                },
            },
    {
        if new_current >= self.entries.len() {
            return Err(PlaylistError::SelectOutOfRange);
        }
        let new_current = Some(new_current);
        let base_state_number = self.state_number;
        self.state_number_increment();
        self.current = new_current;
        Ok(
            PlaylistChangeMessage {
                state_number: base_state_number,
                change: PlaylistChangeKind::ResetCurrent(new_current),
            },
        )
    }
}

} // verus!
