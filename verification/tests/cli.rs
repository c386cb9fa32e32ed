use std::collections::HashSet;
use std::path::PathBuf;

use inako::change::PlaylistChangeKind;
use inako::edits::{edit_playlist, shuffle_order, PlaylistEdit};
use inako::manager::PlaylistManager;
use inako::change::PlaylistChangeMessage;

#[test]
fn simple_edits() {
    let m = edit_playlist(3, 9, PlaylistEdit::Add(PathBuf::from("n")), 0);
    assert_eq!(m.state_number, 9);
    assert_eq!(m.change, PlaylistChangeKind::Add(vec![(3, PathBuf::from("n"))]));
    assert_eq!(edit_playlist(3, 9, PlaylistEdit::Clear, 0).change, PlaylistChangeKind::Delete(vec![0, 1, 2]));
    assert_eq!(edit_playlist(3, 9, PlaylistEdit::Remove(1), 0).change, PlaylistChangeKind::Delete(vec![1]));
    assert_eq!(
        edit_playlist(3, 9, PlaylistEdit::Move { from: 0, to: 2 }, 0).change,
        PlaylistChangeKind::Move(vec![(0, 2)])
    );
}

fn reference_shuffle(len: usize, seed: usize) -> Vec<usize> {
    let mut order: Vec<usize> = (0..len).collect();
    let mut state = seed;
    for index in (1..order.len()).rev() {
        state = state.wrapping_mul(1664525).wrapping_add(1013904223);
        let target = state % (index + 1);
        order.swap(index, target);
    }
    order
}

#[test]
fn shuffle_matches_generator_and_is_accepted() {
    for seed in [0usize, 1, 42, 123456789, usize::MAX] {
        for len in [0usize, 1, 2, 5, 17] {
            let order = shuffle_order(len, seed);
            assert_eq!(order, reference_shuffle(len, seed));
            assert_eq!(order.iter().copied().collect::<HashSet<_>>().len(), len);
            let message = edit_playlist(len, 1, PlaylistEdit::Shuffle, seed);
            let expected: Vec<(usize, usize)> = order.iter().copied().enumerate().map(|(t, s)| (s, t)).collect();
            assert_eq!(message.change, PlaylistChangeKind::Move(expected));
            let mut manager = PlaylistManager::new();
            let entries: Vec<PathBuf> = (0..len).map(|i| PathBuf::from(i.to_string())).collect();
            manager.reload(entries.clone(), None).unwrap();
            manager.apply_playlist_change(message).unwrap();
            let shuffled: Vec<PathBuf> = order.iter().map(|i| entries[*i].clone()).collect();
            assert_eq!(manager.get_playlist_ref(), &shuffled);
        }
    }
}

#[test]
fn clear_empties_playlist() {
    let mut manager = PlaylistManager::new();
    manager.reload(vec![PathBuf::from("a"), PathBuf::from("b")], Some(1)).unwrap();
    let message: PlaylistChangeMessage = edit_playlist(2, manager.get_state_number(), PlaylistEdit::Clear, 0);
    manager.apply_playlist_change(message).unwrap();
    assert!(manager.get_playlist_ref().is_empty());
    assert_eq!(manager.get_current(), None);
}
