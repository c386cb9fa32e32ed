use std::path::PathBuf;

use inako::args::{
    parse_cli_command, parse_command, parse_daemon_command, CliRequest, DaemonCommand,
    WindowCommand,
};

fn words(items: &[&str]) -> Vec<String> {
    items.iter().map(|s| s.to_string()).collect()
}

fn cli(items: &[&str]) -> Result<(CliRequest, Option<String>), String> {
    parse_cli_command(&words(items))
}

fn window(items: &[Option<&str>]) -> Result<WindowCommand, String> {
    let texts: Vec<Option<String>> = items.iter().map(|s| s.map(str::to_string)).collect();
    let paths: Vec<PathBuf> = items
        .iter()
        .map(|s| PathBuf::from(s.unwrap_or("\u{fffd}")))
        .collect();
    parse_command(&texts, &paths)
}

#[test]
fn cli_defaults_to_status() {
    assert_eq!(cli(&[]), Ok((CliRequest::Status, None)));
}

#[test]
fn cli_takes_the_socket_anywhere_after_the_command() {
    assert_eq!(
        cli(&["seek", "12.5", "--socket", "/tmp/s"]),
        Ok((CliRequest::Seek { seconds: Some("12.5".to_string()), extra: false }, Some("/tmp/s".to_string())))
    );
    assert_eq!(
        cli(&["status", "--socket", "a", "--socket-path", "b"]),
        Ok((CliRequest::Status, Some("b".to_string())))
    );
    assert_eq!(cli(&["status", "--socket"]), Err("--socket 需要路径参数".to_string()));
}

#[test]
fn cli_reads_indices_and_paths() {
    assert_eq!(cli(&["move", "1", "4"]), Ok((CliRequest::Move { from: 1, to: 4 }, None)));
    assert_eq!(cli(&["remove", "+3"]), Ok((CliRequest::Remove(3), None)));
    assert_eq!(cli(&["add", "a.mp3"]), Ok((CliRequest::Add("a.mp3".to_string()), None)));
    assert_eq!(cli(&["prev"]), Ok((CliRequest::Previous, None)));
    assert_eq!(
        cli(&["load-playlist-by-txt-file", "/l.txt"]),
        Ok((CliRequest::LoadPlaylist("/l.txt".to_string()), None))
    );
    assert_eq!(
        cli(&["play", "2", "3.5", "x"]),
        Ok((CliRequest::Play { index: 2, seconds: Some("3.5".to_string()), extra: true }, None))
    );
    assert_eq!(cli(&["-V"]), Ok((CliRequest::Version, None)));
}

#[test]
fn cli_names_each_refusal() {
    assert_eq!(cli(&["move", "1"]), Err("缺少播放列表索引".to_string()));
    assert_eq!(cli(&["remove", "x"]), Err("播放列表索引必须是从 0 开始的整数".to_string()));
    assert_eq!(cli(&["status", "extra"]), Err("命令参数过多".to_string()));
    assert_eq!(cli(&["add"]), Err("缺少媒体文件路径".to_string()));
    assert_eq!(cli(&["switch-playlist"]), Err("缺少播放列表名称".to_string()));
    assert_eq!(
        cli(&["bogus"]),
        Err("未知命令: bogus\n运行 inako-cli help 查看用法".to_string())
    );
}

#[test]
fn daemon_arguments() {
    assert_eq!(parse_daemon_command(&words(&[])), Ok(DaemonCommand::Run(None)));
    assert_eq!(
        parse_daemon_command(&words(&["start", "--socket", "/x"])),
        Ok(DaemonCommand::Run(Some("/x".to_string())))
    );
    assert_eq!(
        parse_daemon_command(&words(&["--socket", ""])),
        Err("socket 路径不能为空".to_string())
    );
    assert_eq!(parse_daemon_command(&words(&["--help", "bogus"])), Ok(DaemonCommand::Help));
    assert_eq!(
        parse_daemon_command(&words(&["bogus", "--help"])),
        Err("未知参数: bogus\n运行 inako-dae --help 查看用法".to_string())
    );
    assert_eq!(
        parse_daemon_command(&words(&["--socket"])),
        Err("--socket 需要路径参数".to_string())
    );
}

#[test]
fn window_arguments() {
    assert_eq!(window(&[Some("inako-gui")]), Ok(WindowCommand::ToggleDisplay { socket_path: None }));
    assert_eq!(window(&[Some("inako-gui"), Some("quit")]), Ok(WindowCommand::Quit));
    assert_eq!(
        window(&[Some("inako-gui"), Some("quit"), Some("toggle-display")]),
        Ok(WindowCommand::ToggleDisplay { socket_path: None })
    );
    assert_eq!(
        window(&[Some("inako-gui"), Some("--socket"), Some("/s")]),
        Ok(WindowCommand::ToggleDisplay { socket_path: Some(PathBuf::from("/s")) })
    );
    assert_eq!(
        window(&[Some("inako-gui"), None]),
        Err("命令参数必须是有效 UTF-8 文本".to_string())
    );
    assert_eq!(window(&[Some("inako-gui"), Some("x")]), Err("未知命令: x".to_string()));
}
