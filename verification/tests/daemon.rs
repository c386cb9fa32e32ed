use std::path::PathBuf;

use inako::change::{PlaylistChangeKind, PlaylistChangeMessage, PlaylistError};
use inako::manager::PlaylistManager;
use inako::requests::{respond, PlaylistRequest};

fn daemon(current: Option<usize>) -> PlaylistManager {
    let mut manager = PlaylistManager::new();
    manager
        .reload(vec![PathBuf::from("a"), PathBuf::from("b"), PathBuf::from("c")], current)
        .unwrap();
    manager
}

#[test]
fn snapshot_request() {
    let mut manager = daemon(Some(1));
    let r = respond(&mut manager, PlaylistRequest::GetPlaylist);
    let reply = r.reply.unwrap();
    assert_eq!(reply.state_number, 1);
    assert_eq!(
        reply.change,
        PlaylistChangeKind::Rebuild(vec![PathBuf::from("a"), PathBuf::from("b"), PathBuf::from("c")], Some(1))
    );
    assert!(r.broadcast.is_none() && r.play.is_none() && r.error.is_none());
}

#[test]
fn accepted_edit_is_broadcast() {
    let mut manager = daemon(None);
    let edit = PlaylistChangeMessage { state_number: 1, change: PlaylistChangeKind::Delete(vec![0]) };
    let r = respond(&mut manager, PlaylistRequest::Change(edit.clone()));
    assert_eq!(r.broadcast, Some(edit));
    assert!(r.reply.is_none() && r.error.is_none());
    assert_eq!(manager.get_state_number(), 2);
}

#[test]
fn refused_edit_answers_snapshot() {
    let mut manager = daemon(None);
    let edit = PlaylistChangeMessage { state_number: 0, change: PlaylistChangeKind::Delete(vec![0]) };
    let r = respond(&mut manager, PlaylistRequest::Change(edit));
    assert_eq!(r.error, Some(PlaylistError::StateMismatch { own: 1, given: 0 }));
    assert_eq!(r.reply.unwrap().state_number, 1);
    assert!(r.broadcast.is_none());
    assert_eq!(manager.get_playlist_ref().len(), 3);
}

#[test]
fn selections_play_and_broadcast() {
    let mut manager = daemon(Some(0));
    let r = respond(&mut manager, PlaylistRequest::Next);
    assert_eq!(r.play, Some(PathBuf::from("b")));
    assert_eq!(
        r.broadcast,
        Some(PlaylistChangeMessage { state_number: 1, change: PlaylistChangeKind::ResetCurrent(Some(1)) })
    );
    let r = respond(&mut manager, PlaylistRequest::Play(2));
    assert_eq!(r.play, Some(PathBuf::from("c")));
    let r = respond(&mut manager, PlaylistRequest::Next);
    assert_eq!(r.error, Some(PlaylistError::AlreadyLast));
    assert!(r.play.is_none() && r.broadcast.is_none());
    let r = respond(&mut manager, PlaylistRequest::Previous);
    assert_eq!(r.play, Some(PathBuf::from("b")));
    let r = respond(&mut manager, PlaylistRequest::Play(7));
    assert_eq!(r.error, Some(PlaylistError::SelectOutOfRange));
}

#[test]
fn stale_current_selects_without_file() {
    let mut manager = daemon(Some(9));
    let r = respond(&mut manager, PlaylistRequest::Previous);
    assert_eq!(manager.get_current(), Some(8));
    assert!(r.play.is_none());
    assert!(r.broadcast.is_some());
}
