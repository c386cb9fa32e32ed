use inako::change::PlaylistChangeKind;
use inako::drag::{drag_payload, drag_sources, dragged_rows, drop_request, read_drag_payload};

#[test]
fn pressed_row_drags_selection_or_itself() {
    assert_eq!(drag_sources(&[1, 3, 5], 3), vec![1, 3, 5]);
    assert_eq!(drag_sources(&[1, 3, 5], 4), vec![4]);
    assert_eq!(drag_sources(&[], 0), vec![0]);
}

#[test]
fn payload_round_trip() {
    let payload = drag_payload(3, &[1, 3, 5]).unwrap();
    assert_eq!(payload, "[3,[1,3,5]]");
    assert_eq!(dragged_rows(&payload), Some(vec![1, 3, 5]));
    assert_eq!(dragged_rows("not json"), None);
}

#[test]
fn dropping_sends_group_move() {
    let m = drop_request(&[1, 3, 5], 7, 8, 4).unwrap();
    assert_eq!(m.state_number, 4);
    assert_eq!(m.change, PlaylistChangeKind::Move(vec![(1, 4), (3, 5), (5, 6)]));
    assert!(drop_request(&[2, 3], 2, 8, 4).is_none());
    assert!(drop_request(&[5, 1], 3, 8, 4).is_none());
}

#[test]
fn payload_keeps_the_pressed_row() {
    let payload = drag_payload(4, &[4]).unwrap();
    assert_eq!(read_drag_payload(&payload), Some((4, vec![4])));
    assert_eq!(read_drag_payload("[1]"), None);
}

#[test]
fn payload_text_is_compact_json() {
    assert_eq!(drag_payload(4, &[]).unwrap(), "[4,[]]");
    assert_eq!(drag_payload(0, &[10, 200]).unwrap(), "[0,[10,200]]");
    let big = drag_payload(usize::MAX, &[usize::MAX]).unwrap();
    assert_eq!(big, format!("[{0},[{0}]]", usize::MAX));
    assert_eq!(read_drag_payload(&big), Some((usize::MAX, vec![usize::MAX])));
    assert_eq!(dragged_rows("[4,[]]"), Some(vec![]));
}
