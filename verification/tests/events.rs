use inako::selection::{move_group_to_boundary, plan_selected_move, MoveAction};

#[test]
fn moves_selected_group_to_insertion_boundary() {
    assert_eq!(move_group_to_boundary(&[1, 3, 5], 7, 8), vec![(1, 4), (3, 5), (5, 6)]);
    assert_eq!(move_group_to_boundary(&[2, 4], 1, 6), vec![(2, 1), (4, 2)]);
}

#[test]
fn moves_current_before_selected_items() {
    assert_eq!(move_group_to_boundary(&[1], 4, 7), vec![(1, 3)]);
    assert_eq!(move_group_to_boundary(&[6], 2, 7), vec![(6, 2)]);
}

#[test]
fn moves_selected_items_after_current() {
    assert_eq!(move_group_to_boundary(&[1, 4], 4, 7), vec![(1, 3), (4, 4)]);
    assert_eq!(move_group_to_boundary(&[3, 5], 2, 7), vec![(3, 2), (5, 3)]);
}

#[test]
fn group_never_runs_past_the_end() {
    assert_eq!(move_group_to_boundary(&[0, 1], 5, 5), vec![(0, 3), (1, 4)]);
    assert_eq!(move_group_to_boundary(&[3, 4], 0, 5), vec![(3, 0), (4, 1)]);
}

#[test]
fn buttons_plan_moves() {
    assert_eq!(plan_selected_move(&[1, 3], 5, None, MoveAction::Up), Some(vec![(1, 0), (3, 2)]));
    assert_eq!(plan_selected_move(&[0, 3], 5, None, MoveAction::Up), None);
    assert_eq!(plan_selected_move(&[1, 3], 5, None, MoveAction::Down), Some(vec![(1, 2), (3, 4)]));
    assert_eq!(plan_selected_move(&[1, 4], 5, None, MoveAction::Down), None);
    assert_eq!(plan_selected_move(&[2, 4], 5, None, MoveAction::Top), Some(vec![(2, 0), (4, 1)]));
    assert_eq!(plan_selected_move(&[0, 1], 5, None, MoveAction::Top), None);
    assert_eq!(plan_selected_move(&[0, 2], 5, None, MoveAction::Bottom), Some(vec![(0, 3), (2, 4)]));
    assert_eq!(
        plan_selected_move(&[1, 4], 7, Some(3), MoveAction::SelectedAfterCurrent),
        Some(vec![(1, 3), (4, 4)])
    );
    assert_eq!(plan_selected_move(&[1, 3], 7, Some(3), MoveAction::SelectedAfterCurrent), None);
    assert_eq!(plan_selected_move(&[1, 3], 7, None, MoveAction::SelectedAfterCurrent), None);
    assert_eq!(
        plan_selected_move(&[2, 5], 7, Some(6), MoveAction::CurrentBeforeSelected),
        Some(vec![(6, 2)])
    );
    assert_eq!(plan_selected_move(&[], 7, Some(6), MoveAction::Top), None);
    assert_eq!(plan_selected_move(&[0], 0, None, MoveAction::Top), None);
}

#[test]
fn moved_group_lands_together_in_order() {
    let mut playlist: Vec<std::path::PathBuf> = ["a", "b", "c", "d", "e", "f", "g", "h"]
        .iter()
        .map(std::path::PathBuf::from)
        .collect();
    let mut current = None;
    let moves = move_group_to_boundary(&[1, 3, 5], 7, 8);
    inako::index_map::apply_playlist_change(
        &inako::change::PlaylistChangeKind::Move(moves),
        &mut playlist,
        &mut current,
    )
    .unwrap();
    let names: Vec<String> = playlist.iter().map(|p| p.to_string_lossy().into_owned()).collect();
    assert_eq!(names, vec!["a", "c", "e", "g", "b", "d", "f", "h"]);
}
