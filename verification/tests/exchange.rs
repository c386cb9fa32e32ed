use inako::exchange::{prepare_socket_path, queue_failure, IoFailure, IoKind, ProbeAction, ProbeEvent};
use inako::exchange::{await_reply, send, ReplyAction, ReplyEvent, RequestKind, SendAction, SendEvent};

fn failure(action: SendAction) -> String {
    match action {
        SendAction::Fail(message) => message,
        _ => panic!("expected a failure"),
    }
}

#[test]
fn send_walks_through_the_steps_of_a_command() {
    assert!(matches!(send(RequestKind::Command, SendEvent::Connected(Ok(()))), SendAction::Configure));
    assert!(matches!(send(RequestKind::Command, SendEvent::Configured(Ok(()))), SendAction::Encode));
    match send(RequestKind::Command, SendEvent::Encoded(Ok("\"Toggle\"".to_string()))) {
        SendAction::Write(line) => assert_eq!(line, "\"Toggle\"\n"),
        _ => panic!("expected a line to write"),
    }
    assert!(matches!(send(RequestKind::Command, SendEvent::Written(Ok(()))), SendAction::Done));
    assert!(matches!(
        send(RequestKind::PlayerState, SendEvent::Written(Ok(()))),
        SendAction::AwaitReply
    ));
}

#[test]
fn send_names_each_failure() {
    assert_eq!(
        failure(send(RequestKind::Command, SendEvent::Connected(Err("refused".to_string())))),
        "无法连接 Inako 守护进程: refused"
    );
    assert_eq!(
        failure(send(RequestKind::Playlist, SendEvent::Configured(Err("x".to_string())))),
        "无法设置 daemon IPC 超时: x"
    );
    assert_eq!(
        failure(send(RequestKind::PlayerState, SendEvent::Encoded(Err("e".to_string())))),
        "无法编码 daemon 状态请求: e"
    );
    assert_eq!(
        failure(send(RequestKind::Playlist, SendEvent::Written(Err("w".to_string())))),
        "发送 daemon 播放列表请求失败: w"
    );
    assert_eq!(
        failure(send(RequestKind::Command, SendEvent::Written(Err("w".to_string())))),
        "发送 daemon 请求失败: w"
    );
}

#[test]
fn reply_lines_are_trimmed_before_decoding() {
    match await_reply(RequestKind::Playlist, ReplyEvent::Line(Ok(Some("  {\"a\":1}\n".to_string())))) {
        ReplyAction::Decode(text) => assert_eq!(text, "{\"a\":1}"),
        _ => panic!("expected a line to decode"),
    }
}

#[test]
fn reply_wait_skips_other_messages_and_stops_at_the_reply() {
    assert!(matches!(await_reply(RequestKind::PlayerState, ReplyEvent::Decoded(Ok(false))), ReplyAction::Read));
    assert!(matches!(await_reply(RequestKind::PlayerState, ReplyEvent::Decoded(Ok(true))), ReplyAction::Done));
}

#[test]
fn reply_wait_names_each_failure() {
    match await_reply(RequestKind::PlayerState, ReplyEvent::Line(Ok(None))) {
        ReplyAction::Fail(m) => assert_eq!(m, "Inako 守护进程已关闭连接"),
        _ => panic!("expected a failure"),
    }
    match await_reply(RequestKind::Playlist, ReplyEvent::Line(Err("io".to_string()))) {
        ReplyAction::Fail(m) => assert_eq!(m, "读取 daemon 播放列表失败: io"),
        _ => panic!("expected a failure"),
    }
    match await_reply(RequestKind::PlayerState, ReplyEvent::Decoded(Err("bad".to_string()))) {
        ReplyAction::Fail(m) => assert_eq!(m, "无效的 daemon 状态消息: bad"),
        _ => panic!("expected a failure"),
    }
}

#[test]
fn socket_path_probe_decides_whether_to_start() {
    let failure = |kind: IoKind, text: &str| IoFailure { kind, text: text.to_string() };
    assert!(matches!(
        prepare_socket_path("/s", ProbeEvent::Inspected { exists: false, is_socket: false }),
        ProbeAction::Use
    ));
    match prepare_socket_path("/s", ProbeEvent::Inspected { exists: true, is_socket: false }) {
        ProbeAction::Fail(m) => assert_eq!(m, "daemon socket 路径已存在且不是 socket: /s"),
        _ => panic!("a file that is not a socket is refused"),
    }
    assert!(matches!(
        prepare_socket_path("/s", ProbeEvent::Inspected { exists: true, is_socket: true }),
        ProbeAction::Connect
    ));
    match prepare_socket_path("/s", ProbeEvent::Connected(Ok(()))) {
        ProbeAction::Fail(m) => assert_eq!(m, "Inako 守护进程已在运行: /s"),
        _ => panic!("a running daemon is refused"),
    }
    assert!(matches!(
        prepare_socket_path("/s", ProbeEvent::Connected(Err(failure(IoKind::ConnectionRefused, "refused")))),
        ProbeAction::Remove
    ));
    assert!(matches!(
        prepare_socket_path("/s", ProbeEvent::Connected(Err(failure(IoKind::NotFound, "gone")))),
        ProbeAction::Use
    ));
    match prepare_socket_path("/s", ProbeEvent::Connected(Err(failure(IoKind::Other, "denied")))) {
        ProbeAction::Fail(m) => assert_eq!(m, "无法检查现有 daemon socket /s: denied"),
        _ => panic!("other failures are refused"),
    }
    assert!(matches!(prepare_socket_path("/s", ProbeEvent::Removed(Ok(()))), ProbeAction::Use));
    assert!(matches!(
        prepare_socket_path("/s", ProbeEvent::Removed(Err(failure(IoKind::NotFound, "gone")))),
        ProbeAction::Use
    ));
    match prepare_socket_path("/s", ProbeEvent::Removed(Err(failure(IoKind::Other, "busy")))) {
        ProbeAction::Fail(m) => assert_eq!(m, "无法清理失效 daemon socket: busy"),
        _ => panic!("a socket that cannot be removed is refused"),
    }
    assert_eq!(queue_failure(true), "GUI daemon 命令队列已满");
    assert_eq!(queue_failure(false), "GUI daemon 连接已关闭");
}
