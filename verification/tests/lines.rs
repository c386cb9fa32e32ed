use inako::lines::{playlist_text_lines, uid_from_status};

#[test]
fn text_playlist_skips_blank_lines_and_trims() {
    let entries = playlist_text_lines("a.mp3\n\n  b.flac  \r\n\t\nc");
    assert_eq!(
        entries,
        vec![(1, "a.mp3".to_string()), (3, "b.flac".to_string()), (5, "c".to_string())]
    );
}

#[test]
fn text_playlist_of_blank_text_is_empty() {
    assert!(playlist_text_lines("").is_empty());
    assert!(playlist_text_lines(" \n\n\t\n").is_empty());
}

#[test]
fn text_playlist_keeps_inner_spaces() {
    let entries = playlist_text_lines("/music/my song.ogg\n");
    assert_eq!(entries, vec![(1, "/music/my song.ogg".to_string())]);
}

#[test]
fn uid_is_the_effective_id() {
    let status = "Name:\tinako\nUmask:\t0022\nUid:\t1000\t1001\t1002\t1003\nGid:\t100\t100\t100\t100\n";
    assert_eq!(uid_from_status(status), "1001");
}

#[test]
fn uid_is_unknown_without_the_field() {
    assert_eq!(uid_from_status("Name:\tinako\n"), "unknown");
    assert_eq!(uid_from_status(""), "unknown");
}

#[test]
fn uid_is_unknown_when_the_first_uid_line_is_short() {
    assert_eq!(uid_from_status("Uid: 5\nUid: 1 2 3\n"), "unknown");
}
