//! How the daemon answers the playlist requests of its clients.

use crate::change::{PlaylistChangeKind, PlaylistChangeMessage, PlaylistError};
use crate::manager::{
    applied, chosen_selection, next_selection, next_state_number, previous_selection,
    PlaylistManager,
};
use std::path::PathBuf;
use vstd::prelude::*;

verus! {

/// A client request that reads or changes the playlist.
pub enum PlaylistRequest {
    /// Send me the whole playlist.
    GetPlaylist,
    /// Apply this versioned edit.
    Change(PlaylistChangeMessage),
    /// Play the next item.
    Next,
    /// Play the previous item.
    Previous,
    /// Play this item.
    Play(usize),
}

/// What the daemon does about a playlist request.
pub struct PlaylistResponse {
    /// Sent to the requesting client only.
    pub reply: Option<PlaylistChangeMessage>,
    /// Sent to every client.
    pub broadcast: Option<PlaylistChangeMessage>,
    /// The media file to load next.
    pub play: Option<PathBuf>,
    /// Why the request was refused.
    pub error: Option<PlaylistError>,
}

/// Whether `m` is the snapshot of the state (`own`, `entries`, `current`).
pub open spec fn is_snapshot_of(
    m: PlaylistChangeMessage,
    own: usize,
    entries: Seq<PathBuf>,
    current: Option<usize>,
) -> bool {
    &&& m.state_number == own
    &&& m.change matches PlaylistChangeKind::Rebuild(paths, c) && paths@ == entries && c == current
}

/// The selection that a selecting request makes, if the request selects.
pub open spec fn requested_selection(
    request: PlaylistRequest,
    current: Option<usize>,
    len: nat,
) -> Result<usize, PlaylistError> {
    match request {
        PlaylistRequest::Next => next_selection(current, len),
        PlaylistRequest::Previous => previous_selection(current),
        PlaylistRequest::Play(index) => chosen_selection(index, len),
        _ => Err(PlaylistError::NoCurrent),
    }
}

/// Whether answering `request` stays within the machine's integers and indices.
pub open spec fn request_is_safe(manager: PlaylistManager, request: PlaylistRequest) -> bool {
    match request {
        PlaylistRequest::Change(m) => manager.change_is_safe(m),
        _ => true,
    }
}

/// Answers a playlist request.
///
/// A snapshot request is answered to the requester. An accepted edit is
/// broadcast to everyone; a refused one is answered to the requester with the
/// snapshot of the unchanged playlist, so that it can recover. A selection
/// ("next", "previous", an explicit item) is broadcast as a current-index
/// edit at the old version, and the selected item's file is to be played;
/// there is no file to play when the selection lies beyond the end, which a
/// stale current index can cause.
pub fn respond(manager: &mut PlaylistManager, request: PlaylistRequest) -> (r: PlaylistResponse)
    requires
        request_is_safe(*old(manager), request),
    ensures
        ({
            let own = old(manager).state_number_view();
            let entries = old(manager).entries_view();
            let current = old(manager).current_view();
            match request {
                PlaylistRequest::GetPlaylist => {
                    &&& r.reply matches Some(m) && is_snapshot_of(m, own, entries, current)
                    &&& r.broadcast is None && r.play is None && r.error is None
                    &&& *final(manager) == *old(manager)
                },
                PlaylistRequest::Change(m) => match applied(own, entries, current, m) {
                    Err(e) => {
                        &&& r.reply matches Some(s) && is_snapshot_of(s, own, entries, current)
                        &&& r.broadcast is None && r.play is None && r.error == Some(e)
                        &&& *final(manager) == *old(manager)
                    },
                    Ok((s, e, c)) => {
                        &&& r.broadcast == Some(m)
                        &&& r.reply is None && r.play is None && r.error is None
                        &&& final(manager).state_number_view() == s
                        &&& final(manager).entries_view() == e
                        &&& final(manager).current_view() == c
                    },
                },
                _ => match requested_selection(request, current, entries.len()) {
                    Err(e) => {
                        &&& r.reply is None && r.broadcast is None && r.play is None
                        &&& r.error == Some(e)
                        &&& *final(manager) == *old(manager)
                    },
                    Ok(n) => {
                        &&& r.broadcast == Some(
                            PlaylistChangeMessage {
                                state_number: own,
                                change: PlaylistChangeKind::ResetCurrent(Some(n)),
                            },
                        )
                        &&& r.play == if n < entries.len() {
                            Some(entries[n as int])
                        } else {
                            None
                        }
                        &&& r.reply is None && r.error is None
                        &&& final(manager).state_number_view() == next_state_number(own)
                        &&& final(manager).entries_view() == entries
                        &&& final(manager).current_view() == Some(n)
                    },
                },
            }
        }),
{
    let none = PlaylistResponse { reply: None, broadcast: None, play: None, error: None };
    match request {
        PlaylistRequest::GetPlaylist => PlaylistResponse {
            reply: Some(manager.get_reload_message()),
            ..none
        },
        PlaylistRequest::Change(message) => match manager.apply_playlist_change(message) {
            Ok(m) => PlaylistResponse { broadcast: Some(m), ..none },
            Err(e) => PlaylistResponse {
                reply: Some(manager.get_reload_message()),
                error: Some(e),
                ..none
            },
        },
        PlaylistRequest::Next => {
            let selected = manager.select_next();
            play_selection(manager, selected)
        },
        PlaylistRequest::Previous => {
            let selected = manager.select_previous();
            play_selection(manager, selected)
        },
        PlaylistRequest::Play(index) => {
            let selected = manager.select(index);
            play_selection(manager, selected)
        },
    }
}

/// After a selection: broadcast it and play the newly current item.
fn play_selection(manager: &PlaylistManager, selected: Result<PlaylistChangeMessage, PlaylistError>) -> (r: PlaylistResponse)
    requires
        selected matches Ok(m) ==> manager.current_view() is Some,
    ensures
        match selected {
            Err(e) => r.reply is None && r.broadcast is None && r.play is None && r.error == Some(e),
            Ok(m) => {
                &&& r.broadcast == Some(m)
                &&& r.play == if manager.current_view()->0 < manager.entries_view().len() {
                    Some(manager.entries_view()[manager.current_view()->0 as int])
                } else {
                    None
                }
                &&& r.reply is None && r.error is None
            },
        },
{
    match selected {
        Err(e) => PlaylistResponse { reply: None, broadcast: None, play: None, error: Some(e) },
        Ok(m) => PlaylistResponse {
            reply: None,
            broadcast: Some(m),
            play: manager.get_current_path(),
            error: None,
        },
    }
}

} // verus!
