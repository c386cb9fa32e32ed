use std::path::PathBuf;

use inako::change::{PlaylistChangeKind, PlaylistError};
use inako::index_map::{apply_playlist_change, playlist_index_map};
use inako::lyrics::{get_lyric_current_line, LyricLine};
use inako::text::format_clock;

fn paths(names: &[&str]) -> Vec<PathBuf> {
    names.iter().map(PathBuf::from).collect()
}

#[test]
fn formats_time() {
    let format_time = |seconds: f64| format_clock(seconds.max(0.0) as u64);
    assert_eq!(format_time(-1.0), "00:00");
    assert_eq!(format_time(65.9), "01:05");
    assert_eq!(format_time(3600.0), "60:00");
}

/// Maps a time in seconds to an integer with the same order, as the window
/// and the command line client do before looking up the current lyric line.
fn start_key(seconds: f64) -> u64 {
    let bits = (seconds + 0.0).to_bits();
    if bits >> 63 == 1 {
        !bits
    } else {
        bits | (1u64 << 63)
    }
}

#[test]
fn selects_current_lyric_line() {
    let lyrics = vec![
        LyricLine {
            at: start_key(5.0),
            text: "first".to_string(),
        },
        LyricLine {
            at: start_key(10.0),
            text: "second".to_string(),
        },
    ];

    assert_eq!(get_lyric_current_line(&lyrics, start_key(4.9)), None);
    assert_eq!(get_lyric_current_line(&lyrics, start_key(5.0)), Some("first"));
    assert_eq!(get_lyric_current_line(&lyrics, start_key(9.9)), Some("first"));
    assert_eq!(get_lyric_current_line(&lyrics, start_key(10.0)), Some("second"));
    assert_eq!(get_lyric_current_line(&lyrics, start_key(20.0)), Some("second"));
}

#[test]
fn no_lyric_line_before_any_lyrics() {
    let lyrics: Vec<LyricLine> = Vec::new();
    assert_eq!(get_lyric_current_line(&lyrics, start_key(3.0)), None);
}

#[test]
fn lyric_lines_starting_together_give_the_last() {
    let lyrics = vec![
        LyricLine { at: start_key(1.0), text: "a".to_string() },
        LyricLine { at: start_key(1.0), text: "b".to_string() },
        LyricLine { at: start_key(2.0), text: "c".to_string() },
    ];
    assert_eq!(get_lyric_current_line(&lyrics, start_key(1.5)), Some("b"));
}

#[test]
fn applies_batch_add_with_original_indices() {
    let mut playlist = paths(&["a", "b", "c"]);
    let mut current = Some(1);
    let index_map = apply_playlist_change(
        &PlaylistChangeKind::Add(vec![
            (0, PathBuf::from("x")),
            (2, PathBuf::from("y")),
            (3, PathBuf::from("z")),
        ]),
        &mut playlist,
        &mut current,
    )
    .unwrap();

    assert_eq!(playlist, paths(&["x", "a", "b", "y", "c", "z"]));
    assert_eq!(current, Some(2));
    assert_eq!(index_map[2], Some(4));
}

#[test]
fn applies_batch_remove_with_original_indices() {
    let mut playlist = paths(&["a", "b", "c", "d", "e"]);
    let mut current = Some(3);
    let index_map = apply_playlist_change(
        &PlaylistChangeKind::Delete(vec![1, 3]),
        &mut playlist,
        &mut current,
    )
    .unwrap();

    assert_eq!(playlist, paths(&["a", "c", "e"]));
    assert_eq!(current, None);
    assert_eq!(index_map[4], Some(2));
}

#[test]
fn applies_batch_move_simultaneously() {
    let mut playlist = paths(&["a", "b", "c", "d", "e", "f", "g", "h"]);
    let mut current = Some(5);
    let index_map = apply_playlist_change(
        &PlaylistChangeKind::Move(vec![(1, 5), (4, 0), (6, 3)]),
        &mut playlist,
        &mut current,
    )
    .unwrap();

    assert_eq!(playlist, paths(&["e", "a", "c", "g", "d", "b", "f", "h"]));
    assert_eq!(current, Some(6));
    assert_eq!(index_map[1], Some(5));
}

#[test]
fn maps_unmoved_selection_after_move() {
    let index_map = playlist_index_map(&PlaylistChangeKind::Move(vec![(6, 2)]), 7).unwrap();

    let selected = [2, 4]
        .into_iter()
        .filter_map(|index| index_map[index])
        .collect::<Vec<_>>();
    assert_eq!(selected, vec![3, 5]);
}

#[test]
fn rejects_ambiguous_batch_indices() {
    let mut playlist = paths(&["a", "b", "c"]);
    let mut current = None;

    assert!(apply_playlist_change(
        &PlaylistChangeKind::Delete(vec![1, 1]),
        &mut playlist,
        &mut current,
    )
    .is_err());
    assert!(apply_playlist_change(
        &PlaylistChangeKind::Move(vec![(0, 2), (0, 1)]),
        &mut playlist,
        &mut current,
    )
    .is_err());
    assert!(apply_playlist_change(
        &PlaylistChangeKind::Move(vec![(0, 2), (1, 2)]),
        &mut playlist,
        &mut current,
    )
    .is_err());
}

// ---- further scenarios of the index map and the replay ----

#[test]
fn index_map_of_each_edit() {
    assert_eq!(
        playlist_index_map(&PlaylistChangeKind::Add(vec![(1, PathBuf::from("x")), (1, PathBuf::from("y"))]), 3)
            .unwrap(),
        vec![Some(0), Some(3), Some(4)]
    );
    assert_eq!(
        playlist_index_map(&PlaylistChangeKind::Delete(vec![0, 2]), 4).unwrap(),
        vec![None, Some(0), None, Some(1)]
    );
    assert_eq!(
        playlist_index_map(&PlaylistChangeKind::ResetCurrent(Some(0)), 2).unwrap(),
        vec![Some(0), Some(1)]
    );
    assert_eq!(
        playlist_index_map(&PlaylistChangeKind::Rebuild(vec![], None), 2).unwrap(),
        vec![None, None]
    );
    assert_eq!(
        playlist_index_map(&PlaylistChangeKind::Add(vec![(4, PathBuf::from("x"))]), 3).unwrap_err(),
        PlaylistError::AddOutOfRange { index: 4, length: 3 }
    );
}

#[test]
fn replay_reset_and_rebuild_filter_current() {
    let mut playlist = paths(&["a", "b"]);
    let mut current = Some(0);
    apply_playlist_change(&PlaylistChangeKind::ResetCurrent(Some(5)), &mut playlist, &mut current).unwrap();
    assert_eq!(current, None);
    apply_playlist_change(&PlaylistChangeKind::Rebuild(paths(&["z"]), Some(0)), &mut playlist, &mut current)
        .unwrap();
    assert_eq!(playlist, paths(&["z"]));
    assert_eq!(current, Some(0));
}

#[test]
fn refused_replay_leaves_playlist() {
    let mut playlist = paths(&["a", "b"]);
    let mut current = Some(1);
    let error = apply_playlist_change(&PlaylistChangeKind::Delete(vec![0, 2]), &mut playlist, &mut current)
        .unwrap_err();
    assert_eq!(error, PlaylistError::DeleteOutOfRange { index: 2, length: 2 });
    assert_eq!(playlist, paths(&["a", "b"]));
    assert_eq!(current, Some(1));
}
