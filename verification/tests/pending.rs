use std::path::PathBuf;

use inako::change::{PlaylistChangeKind, PlaylistChangeMessage};
use inako::pending::{NextUpdate, PendingUpdates};

#[test]
fn pending_rebuild_discards_stale_incremental_updates() {
    let mut pending: PendingUpdates<u32> = PendingUpdates::default();

    pending.push(
        None,
        Some(PlaylistChangeMessage {
            state_number: 0,
            change: PlaylistChangeKind::Add(vec![(0, PathBuf::from("old"))]),
        }),
    );
    pending.push(
        None,
        Some(PlaylistChangeMessage {
            state_number: 4,
            change: PlaylistChangeKind::Rebuild(vec![PathBuf::from("new")], Some(0)),
        }),
    );

    assert_eq!(pending.playlist_change_messages.len(), 1);
    let message = pending.playlist_change_messages.front().unwrap();
    assert_eq!(message.state_number, 4);
    assert!(matches!(&message.change, PlaylistChangeKind::Rebuild(_, Some(0))));
}

#[test]
fn updates_come_out_in_order() {
    let mut pending: PendingUpdates<u32> = PendingUpdates::new();
    assert!(pending.is_empty());
    pending.push(Some(1), None);
    pending.push(Some(2), Some(PlaylistChangeMessage { state_number: 0, change: PlaylistChangeKind::Delete(vec![0]) }));
    pending.push(None, Some(PlaylistChangeMessage { state_number: 1, change: PlaylistChangeKind::ResetCurrent(None) }));
    assert!(!pending.is_empty());
    match pending.take_next(false) {
        NextUpdate::Playlist(m) => assert_eq!(m.state_number, 0),
        _ => panic!("expected a playlist update"),
    }
    match pending.take_next(false) {
        NextUpdate::Playlist(m) => assert_eq!(m.state_number, 1),
        _ => panic!("expected a playlist update"),
    }
    match pending.take_next(false) {
        NextUpdate::Player(s) => assert_eq!(s, 2),
        _ => panic!("expected the latest player state"),
    }
    assert!(matches!(pending.take_next(false), NextUpdate::Wait));
    assert!(matches!(pending.take_next(true), NextUpdate::Closed));
}

#[test]
fn take_all_empties() {
    let mut pending: PendingUpdates<u32> = PendingUpdates::new();
    pending.push(Some(9), Some(PlaylistChangeMessage { state_number: 3, change: PlaylistChangeKind::Move(vec![]) }));
    let (state, queue) = pending.take_all();
    assert_eq!(state, Some(9));
    assert_eq!(queue.len(), 1);
    assert!(pending.is_empty());
}
