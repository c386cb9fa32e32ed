use inako::window::{drop_boundary, row_text_source, RowText};
use std::path::PathBuf;

use inako::change::{PlaylistChangeKind, PlaylistChangeMessage, PlaylistError};
use inako::manager::PlaylistManager;
use inako::window::{
    drag_preview_text, media_title, next_display_style, row_label, tags_text,
    window_playlist_update, WindowStep,
};

fn loaded(names: &[&str], current: Option<usize>) -> PlaylistManager {
    let mut manager = PlaylistManager::new();
    manager
        .reload(names.iter().map(PathBuf::from).collect(), current)
        .unwrap();
    manager
}

fn names(manager: &PlaylistManager) -> Vec<String> {
    manager
        .get_playlist_ref()
        .iter()
        .map(|p| p.to_string_lossy().into_owned())
        .collect()
}

#[test]
fn window_move_selects_the_moved_items_again() {
    let mut manager = loaded(&["a", "b", "c", "d", "e"], Some(2));
    let version = manager.get_state_number();
    let step = window_playlist_update(
        &mut manager,
        PlaylistChangeMessage {
            state_number: version,
            change: PlaylistChangeKind::Move(vec![(1, 4), (4, 0)]),
        },
        &[1, 3],
    );
    assert_eq!(names(&manager), vec!["e", "a", "c", "d", "b"]);
    match step {
        WindowStep::Applied { selection, reload_media } => {
            assert_eq!(selection, Some(vec![4, 3]));
            assert!(!reload_media);
        }
        WindowStep::Refetch { .. } => panic!("the move fits"),
    }
}

#[test]
fn window_refetches_a_bad_move_and_keeps_its_copy() {
    let mut manager = loaded(&["a", "b", "c"], None);
    let version = manager.get_state_number();
    let step = window_playlist_update(
        &mut manager,
        PlaylistChangeMessage {
            state_number: version,
            change: PlaylistChangeKind::Move(vec![(0, 1), (2, 1)]),
        },
        &[0],
    );
    assert!(matches!(
        step,
        WindowStep::Refetch {
            error: PlaylistError::MoveDestinationDuplicate { destination: 1 },
            mapping: true
        }
    ));
    assert_eq!(names(&manager), vec!["a", "b", "c"]);
    assert_eq!(manager.get_state_number(), version);
}

#[test]
fn window_refetches_a_stale_edit() {
    let mut manager = loaded(&["a", "b"], Some(0));
    let version = manager.get_state_number();
    let step = window_playlist_update(
        &mut manager,
        PlaylistChangeMessage {
            state_number: version + 5,
            change: PlaylistChangeKind::Delete(vec![0]),
        },
        &[],
    );
    match step {
        WindowStep::Refetch { error, mapping } => {
            assert_eq!(error, PlaylistError::StateMismatch { own: version, given: version + 5 });
            assert!(!mapping);
        }
        _ => panic!("a stale edit is refused"),
    }
    assert_eq!(names(&manager), vec!["a", "b"]);
}

#[test]
fn window_reloads_media_after_a_selection() {
    let mut manager = loaded(&["a", "b"], Some(0));
    let version = manager.get_state_number();
    let step = window_playlist_update(
        &mut manager,
        PlaylistChangeMessage {
            state_number: version,
            change: PlaylistChangeKind::ResetCurrent(Some(1)),
        },
        &[0],
    );
    assert!(matches!(step, WindowStep::Applied { selection: None, reload_media: true }));
    assert_eq!(manager.get_current(), Some(1));
    assert_eq!(manager.get_state_number(), version + 1);
}

#[test]
fn window_keeps_media_after_an_insertion() {
    let mut manager = loaded(&["a"], Some(0));
    let version = manager.get_state_number();
    let step = window_playlist_update(
        &mut manager,
        PlaylistChangeMessage {
            state_number: version,
            change: PlaylistChangeKind::Add(vec![(0, PathBuf::from("z"))]),
        },
        &[0],
    );
    assert!(matches!(step, WindowStep::Applied { selection: None, reload_media: false }));
    assert_eq!(names(&manager), vec!["z", "a"]);
    assert_eq!(manager.get_current(), Some(1));
}

#[test]
fn row_labels_are_numbered_from_one() {
    assert_eq!(row_label(0, "a.mp3"), "01  a.mp3");
    assert_eq!(row_label(9, "x"), "10  x");
    assert_eq!(row_label(122, "y"), "123  y");
}

#[test]
fn media_title_joins_artist_and_album() {
    assert_eq!(media_title("Song", "Band", "Album"), "Band - Song  ·  Album");
    assert_eq!(media_title("Song", "", ""), "Song");
    assert_eq!(media_title("Song", "", "Album"), "Song  ·  Album");
    assert_eq!(media_title("", "Band", ""), "Band - ");
}

#[test]
fn tags_text_skips_missing_tags() {
    assert_eq!(tags_text("Song", "Band", "Album", "f.mp3"), "Album · Band · Song");
    assert_eq!(tags_text("Song", "", "Album", "f.mp3"), "Album · Song");
    assert_eq!(tags_text("", "Band", "", "f.mp3"), "Band · f.mp3");
    assert_eq!(tags_text("", "", "", ""), "");
}

#[test]
fn display_style_alternates_between_name_and_path() {
    assert_eq!(next_display_style("name"), "path");
    assert_eq!(next_display_style("path"), "name");
    assert_eq!(next_display_style("tags"), "name");
}

#[test]
fn drag_preview_counts_several_rows() {
    assert_eq!(drag_preview_text(3, "01  a"), "移动 3 个项目");
    assert_eq!(drag_preview_text(1, "01  a"), "01  a");
}

#[test]
fn row_text_follows_the_display_style() {
    assert_eq!(row_text_source("name"), RowText::FileName);
    assert_eq!(row_text_source("tags"), RowText::Tags);
    assert_eq!(row_text_source("path"), RowText::FullPath);
    assert_eq!(row_text_source(""), RowText::FullPath);
}

#[test]
fn drops_land_before_or_after_the_row() {
    assert_eq!(drop_boundary(2, false, 5), 2);
    assert_eq!(drop_boundary(2, true, 5), 3);
    assert_eq!(drop_boundary(4, true, 5), 5);
    assert_eq!(drop_boundary(7, false, 5), 5);
}
