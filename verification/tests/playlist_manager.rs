use std::path::PathBuf;

use inako::change::{PlaylistChangeKind, PlaylistChangeMessage, PlaylistError};
use inako::index_map::apply_playlist_change;
use inako::manager::PlaylistManager;

fn paths(names: &[&str]) -> Vec<PathBuf> {
    names.iter().map(PathBuf::from).collect()
}

fn fixture(current: usize) -> (Vec<PathBuf>, Option<usize>) {
    (paths(&["a", "b", "c", "d", "e"]), Some(current))
}

#[test]
fn moving_items_uses_original_indices() {
    let (mut playlist, mut current) = fixture(2);
    let index_map = apply_playlist_change(
        &PlaylistChangeKind::Move(vec![(1, 4), (4, 0)]),
        &mut playlist,
        &mut current,
    )
    .unwrap();

    assert_eq!(playlist, paths(&["e", "a", "c", "d", "b"]));
    assert_eq!(current, Some(2));
    assert_eq!(index_map[1], Some(4));
    assert_eq!(playlist[current.unwrap()], PathBuf::from("c"));
}

#[test]
fn rebuild_adopts_daemon_state_number() {
    let mut manager = PlaylistManager::new();
    let entries = vec![PathBuf::from("new")];

    manager
        .apply_playlist_change(PlaylistChangeMessage {
            state_number: 7,
            change: PlaylistChangeKind::Rebuild(entries.clone(), Some(0)),
        })
        .unwrap();

    assert_eq!(manager.get_state_number(), 7);
    assert_eq!(manager.get_playlist_ref(), &entries);
    assert_eq!(manager.get_current(), Some(0));
}

#[test]
fn incremental_change_requires_matching_state_number() {
    let mut manager = PlaylistManager::new();

    let error = manager
        .apply_playlist_change(PlaylistChangeMessage {
            state_number: 1,
            change: PlaylistChangeKind::Add(vec![(0, PathBuf::from("new"))]),
        })
        .unwrap_err();

    assert!(error.message().contains("状态编号不匹配"));
    assert_eq!(manager.get_state_number(), 0);
    assert!(manager.get_playlist_ref().is_empty());
}

#[test]
fn incremental_change_advances_state_number() {
    let mut manager = PlaylistManager::new();

    manager
        .apply_playlist_change(PlaylistChangeMessage {
            state_number: 0,
            change: PlaylistChangeKind::Add(vec![(0, PathBuf::from("new"))]),
        })
        .unwrap();

    assert_eq!(manager.get_state_number(), 1);
    assert_eq!(manager.get_playlist_ref(), &vec![PathBuf::from("new")]);
}

#[test]
fn reload_message_contains_current_state_number() {
    let mut manager = PlaylistManager::new();

    let message = manager.reload(vec![PathBuf::from("new")], Some(0)).unwrap();

    assert_eq!(message.state_number, manager.get_state_number());
    assert_eq!(message.state_number, 1);
}

#[test]
fn gets_current_playlist_path() {
    let mut manager = PlaylistManager::new();

    manager
        .reload(vec![PathBuf::from("first"), PathBuf::from("second")], Some(1))
        .unwrap();

    assert_eq!(manager.get_current_path().unwrap(), PathBuf::from("second"));
}

#[test]
fn navigates_between_playlist_items() {
    let mut manager = PlaylistManager::new();
    manager
        .reload(vec![PathBuf::from("first"), PathBuf::from("second")], Some(0))
        .unwrap();

    let next = manager.select_next().unwrap();
    assert_eq!(next.state_number, 1);
    assert_eq!(manager.get_current(), Some(1));
    assert_eq!(manager.get_state_number(), 2);

    let previous = manager.select_previous().unwrap();
    assert_eq!(previous.state_number, 2);
    assert_eq!(manager.get_current(), Some(0));
    assert_eq!(manager.get_state_number(), 3);
}

// ---- further scenarios of the manager ----

fn loaded(names: &[&str], current: Option<usize>) -> PlaylistManager {
    let mut manager = PlaylistManager::new();
    manager.reload(paths(names), current).unwrap();
    manager
}

#[test]
fn add_follows_current_entity() {
    let mut manager = loaded(&["a", "b", "c"], Some(1));
    let reply = manager
        .apply_playlist_change(PlaylistChangeMessage {
            state_number: 1,
            change: PlaylistChangeKind::Add(vec![
                (0, PathBuf::from("x")),
                (1, PathBuf::from("y")),
                (3, PathBuf::from("z")),
            ]),
        })
        .unwrap();
    assert_eq!(reply.state_number, 1);
    assert_eq!(manager.get_playlist_ref(), &paths(&["x", "a", "y", "b", "c", "z"]));
    assert_eq!(manager.get_current(), Some(3));
    assert_eq!(manager.get_current_path(), Some(PathBuf::from("b")));
    assert_eq!(manager.get_state_number(), 2);
}

#[test]
fn add_keeps_batch_order_at_one_index() {
    let mut manager = loaded(&["a", "b"], None);
    manager
        .apply_playlist_change(PlaylistChangeMessage {
            state_number: 1,
            change: PlaylistChangeKind::Add(vec![(1, PathBuf::from("p")), (1, PathBuf::from("q"))]),
        })
        .unwrap();
    assert_eq!(manager.get_playlist_ref(), &paths(&["a", "p", "q", "b"]));
    assert_eq!(manager.get_current(), None);
}

#[test]
fn add_rejects_index_past_end() {
    let mut manager = loaded(&["a", "b"], Some(0));
    let error = manager
        .apply_playlist_change(PlaylistChangeMessage {
            state_number: 1,
            change: PlaylistChangeKind::Add(vec![(2, PathBuf::from("ok")), (3, PathBuf::from("bad"))]),
        })
        .unwrap_err();
    assert_eq!(error, PlaylistError::AddOutOfRange { index: 3, length: 2 });
    assert_eq!(error.message(), "播放列表插入位置越界: 3, 当前长度为 2");
    assert_eq!(manager.get_playlist_ref(), &paths(&["a", "b"]));
    assert_eq!(manager.get_state_number(), 1);
}

#[test]
fn delete_clears_deleted_current_and_shifts_others() {
    let mut manager = loaded(&["a", "b", "c", "d"], Some(3));
    manager
        .apply_playlist_change(PlaylistChangeMessage {
            state_number: 1,
            change: PlaylistChangeKind::Delete(vec![2, 0]),
        })
        .unwrap();
    assert_eq!(manager.get_playlist_ref(), &paths(&["b", "d"]));
    assert_eq!(manager.get_current(), Some(1));

    manager
        .apply_playlist_change(PlaylistChangeMessage {
            state_number: 2,
            change: PlaylistChangeKind::Delete(vec![1]),
        })
        .unwrap();
    assert_eq!(manager.get_playlist_ref(), &paths(&["b"]));
    assert_eq!(manager.get_current(), None);
}

#[test]
fn delete_reports_first_bad_index() {
    let mut manager = loaded(&["a", "b", "c"], None);
    let error = manager
        .apply_playlist_change(PlaylistChangeMessage {
            state_number: 1,
            change: PlaylistChangeKind::Delete(vec![5, 1, 1]),
        })
        .unwrap_err();
    assert_eq!(error, PlaylistError::DeleteOutOfRange { index: 5, length: 3 });
    let error = manager
        .apply_playlist_change(PlaylistChangeMessage {
            state_number: 1,
            change: PlaylistChangeKind::Delete(vec![1, 1, 5]),
        })
        .unwrap_err();
    assert_eq!(error, PlaylistError::DeleteDuplicate { index: 1 });
    assert_eq!(error.message(), "播放列表删除位置重复: 1");
}

#[test]
fn move_documented_example() {
    let mut manager = loaded(&["A", "B", "C", "D", "E", "F", "G", "H"], Some(1));
    manager
        .apply_playlist_change(PlaylistChangeMessage {
            state_number: 1,
            change: PlaylistChangeKind::Move(vec![(1, 5), (4, 0), (6, 3)]),
        })
        .unwrap();
    assert_eq!(manager.get_playlist_ref(), &paths(&["E", "A", "C", "G", "D", "B", "F", "H"]));
    assert_eq!(manager.get_current(), Some(5));
}

#[test]
fn move_errors_in_batch_order() {
    let mut manager = loaded(&["a", "b", "c"], None);
    let cases = [
        (vec![(3, 0)], PlaylistError::MoveSourceOutOfRange { source: 3, length: 3 }),
        (vec![(0, 3)], PlaylistError::MoveDestinationOutOfRange { destination: 3, length: 3 }),
        (vec![(0, 1), (0, 2)], PlaylistError::MoveSourceDuplicate { source: 0 }),
        (vec![(0, 1), (2, 1)], PlaylistError::MoveDestinationDuplicate { destination: 1 }),
    ];
    for (items, expected) in cases {
        let error = manager
            .apply_playlist_change(PlaylistChangeMessage {
                state_number: 1,
                change: PlaylistChangeKind::Move(items),
            })
            .unwrap_err();
        assert_eq!(error, expected);
    }
    assert_eq!(manager.get_playlist_ref(), &paths(&["a", "b", "c"]));
    assert_eq!(manager.get_state_number(), 1);
}

#[test]
fn reset_current_checks_range() {
    let mut manager = loaded(&["a", "b"], None);
    let error = manager
        .apply_playlist_change(PlaylistChangeMessage {
            state_number: 1,
            change: PlaylistChangeKind::ResetCurrent(Some(2)),
        })
        .unwrap_err();
    assert_eq!(error, PlaylistError::CurrentOutOfRange { index: 2, length: 2 });
    assert_eq!(error.message(), "播放列表当前播放索引越界: 2, 当前长度为 2");
    let reply = manager
        .apply_playlist_change(PlaylistChangeMessage {
            state_number: 1,
            change: PlaylistChangeKind::ResetCurrent(Some(1)),
        })
        .unwrap();
    assert_eq!(reply.change, PlaylistChangeKind::ResetCurrent(Some(1)));
    assert_eq!(manager.get_current(), Some(1));
    assert_eq!(manager.get_state_number(), 2);
}

#[test]
fn rebuild_drops_out_of_range_current() {
    let mut manager = loaded(&["a"], Some(0));
    let reply = manager
        .apply_playlist_change(PlaylistChangeMessage {
            state_number: 40,
            change: PlaylistChangeKind::Rebuild(paths(&["x", "y"]), Some(2)),
        })
        .unwrap();
    assert_eq!(reply.state_number, 40);
    assert_eq!(reply.change, PlaylistChangeKind::Rebuild(paths(&["x", "y"]), Some(2)));
    assert_eq!(manager.get_current(), None);
    assert_eq!(manager.get_state_number(), 40);
}

#[test]
fn selection_errors() {
    let mut manager = loaded(&["a", "b"], None);
    assert_eq!(manager.select_next().unwrap_err(), PlaylistError::NoCurrent);
    assert_eq!(manager.select_previous().unwrap_err(), PlaylistError::NoCurrent);
    assert_eq!(manager.select(2).unwrap_err(), PlaylistError::SelectOutOfRange);
    let chosen = manager.select(1).unwrap();
    assert_eq!(chosen.change, PlaylistChangeKind::ResetCurrent(Some(1)));
    assert_eq!(manager.select_next().unwrap_err(), PlaylistError::AlreadyLast);
    manager.select(0).unwrap();
    assert_eq!(manager.select_previous().unwrap_err(), PlaylistError::AlreadyFirst);
    assert_eq!(manager.select_previous().unwrap_err().message(), "已经是第一首");
    assert_eq!(manager.get_state_number(), 3);
}

#[test]
fn path_lookup() {
    let manager = loaded(&["a", "b"], Some(7));
    assert_eq!(manager.get_path_by_index(1), Ok(PathBuf::from("b")));
    assert_eq!(manager.get_path_by_index(2), Err(PlaylistError::IndexOutOfRange));
    assert_eq!(manager.get_current_path(), None);
    let snapshot = manager.get_reload_message();
    assert_eq!(snapshot.state_number, 1);
    assert_eq!(snapshot.change, PlaylistChangeKind::Rebuild(paths(&["a", "b"]), Some(7)));
}

#[test]
fn client_in_sync_replays_broadcast() {
    let mut daemon = loaded(&["a", "b", "c"], Some(0));
    let mut window = PlaylistManager::new();
    window.apply_playlist_change(daemon.get_reload_message()).unwrap();
    let edit = PlaylistChangeMessage {
        state_number: 1,
        change: PlaylistChangeKind::Move(vec![(0, 2)]),
    };
    let broadcast = daemon.apply_playlist_change(edit).unwrap();
    window.apply_playlist_change(broadcast).unwrap();
    assert_eq!(daemon.get_current(), Some(2));
    let selection = daemon.select_previous().unwrap();
    window.apply_playlist_change(selection).unwrap();
    assert_eq!(window.get_playlist_ref(), daemon.get_playlist_ref());
    assert_eq!(window.get_current(), daemon.get_current());
    assert_eq!(window.get_state_number(), daemon.get_state_number());

    let stale = daemon.select_previous().unwrap();
    let mut behind = PlaylistManager::new();
    assert_eq!(
        behind.apply_playlist_change(stale).unwrap_err(),
        PlaylistError::StateMismatch { own: 0, given: 3 }
    );
}

#[test]
fn change_fits_flags_unsafe_deletion() {
    let manager = loaded(&["a"], Some(5));
    let delete = PlaylistChangeMessage { state_number: 1, change: PlaylistChangeKind::Delete(vec![0]) };
    assert!(!manager.change_fits(&delete));
    let stale = PlaylistChangeMessage { state_number: 9, change: PlaylistChangeKind::Delete(vec![0]) };
    assert!(manager.change_fits(&stale));
}
