use inako::text::{waybar_class, waybar_tooltip};
use inako::change::PlaylistError;
use inako::text::{decimal_text, format_clock, parse_index, parse_usize, playlist_file_path, required, status_text};

#[test]
fn clock_text() {
    assert_eq!(format_clock(0), "00:00");
    assert_eq!(format_clock(59), "00:59");
    assert_eq!(format_clock(600), "10:00");
    assert_eq!(format_clock(6000 * 60 + 7), "6000:07");
}

#[test]
fn decimals() {
    assert_eq!(decimal_text(0), "0");
    assert_eq!(decimal_text(10), "10");
    assert_eq!(decimal_text(usize::MAX), usize::MAX.to_string());
}

#[test]
fn parses_like_std() {
    for text in ["0", "007", "+12", "18446744073709551615", "", "+", "-1", "1a", " 1", "18446744073709551616"] {
        assert_eq!(parse_usize(text), text.parse::<usize>().ok(), "{text:?}");
    }
}

#[test]
fn index_arguments() {
    assert_eq!(parse_index(Some("3".to_string())), Ok(3));
    assert_eq!(parse_index(None), Err("缺少播放列表索引".to_string()));
    assert_eq!(parse_index(Some("x".to_string())), Err("播放列表索引必须是从 0 开始的整数".to_string()));
    assert_eq!(required(Some("v".to_string()), "名称"), Ok("v".to_string()));
    assert_eq!(required(None, "播放列表名称"), Err("缺少播放列表名称".to_string()));
}

#[test]
fn playlist_names() {
    assert_eq!(playlist_file_path("mix"), Ok("playlists/mix.json".to_string()));
    let refused = Err("播放列表名称不能为空且不能包含路径分隔符".to_string());
    for name in ["", ".", "..", "a/b", "a\\b"] {
        assert_eq!(playlist_file_path(name), refused);
    }
    assert_eq!(playlist_file_path("..."), Ok("playlists/....json".to_string()));
}

#[test]
fn status_lines() {
    assert_eq!(
        status_text(false, "Artist", "Song", "00:05", "03:00", Some("la la")),
        "⏮  ⏸  Artist - Song  00:05 / 03:00  ·  la la  ⏭"
    );
    assert_eq!(status_text(true, "", "Song", "00:00", "00:00", None), "⏮  ▶  Song  00:00 / 00:00  ⏭");
}

#[test]
fn error_texts() {
    assert_eq!(
        PlaylistError::StateMismatch { own: 3, given: 12 }.message(),
        "状态编号不匹配, 自身的: 3, 传入的: 12"
    );
    assert_eq!(PlaylistError::MoveDestinationDuplicate { destination: 0 }.message(), "播放列表移动目标位置重复: 0");
    assert_eq!(PlaylistError::NoCurrent.message(), "当前没有选中的播放项");
}

#[test]
fn waybar_tooltip_and_class() {
    assert_eq!(waybar_tooltip("Band", "Album", "01:05", "03:00"), "Band\nAlbum\n01:05 / 03:00");
    assert_eq!(waybar_tooltip("", "", "00:00", "00:00"), "\n\n00:00 / 00:00");
    assert_eq!(waybar_class(true), "paused");
    assert_eq!(waybar_class(false), "playing");
}
