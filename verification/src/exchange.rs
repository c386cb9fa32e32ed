//! The short request that the command line client makes of the daemon: the
//! order of its steps and the message for each way it can fail. The socket
//! work itself (connecting, writing and reading lines, encoding and decoding
//! messages) is done by the caller, which reports each outcome back.

use crate::lines::{trim, trimmed};
use vstd::prelude::*;
use vstd::string::StringExecFns;

verus! {

/// What is asked of the daemon.
pub enum RequestKind {
    /// A command whose effect clients learn from the daemon's broadcasts.
    Command,
    /// The player state.
    PlayerState,
    /// The playlist snapshot.
    Playlist,
}

/// The outcome of a step of sending a request.
pub enum SendEvent {
    /// The connection to the daemon's socket was made, or why it was not.
    Connected(Result<(), String>),
    /// The read and write time limits were set, or why they were not.
    Configured(Result<(), String>),
    /// The request encoded as one line of JSON, or why it could not be.
    Encoded(Result<String, String>),
    /// The line was written and flushed, or why it was not.
    Written(Result<(), String>),
}

/// What to do next while sending a request.
pub enum SendAction {
    /// Set the read and write time limits of the connection.
    Configure,
    /// Encode the request.
    Encode,
    /// Write this text and flush the connection.
    Write(String),
    /// Wait for the daemon's reply.
    AwaitReply,
    /// The request is sent and nothing more is expected.
    Done,
    /// The request failed, with this message.
    Fail(String),
}

/// The outcome of a step of waiting for the daemon's reply.
pub enum ReplyEvent {
    /// The next line from the daemon, `None` when it closed the connection,
    /// or why reading failed.
    Line(Result<Option<String>, String>),
    /// Whether the decoded message is the awaited reply, or why the line could
    /// not be decoded.
    Decoded(Result<bool, String>),
}

/// What to do next while waiting for the daemon's reply.
pub enum ReplyAction {
    /// Read the next line.
    Read,
    /// Decode this text (the line without surrounding white space).
    Decode(String),
    /// The awaited reply has come.
    Done,
    /// Waiting failed, with this message.
    Fail(String),
}

/// The message that precedes an encoding error.
pub open spec fn encode_failure(kind: RequestKind) -> Seq<char> {
    match kind {
        RequestKind::Command => "无法编码 daemon 请求: "@,
        RequestKind::PlayerState => "无法编码 daemon 状态请求: "@,
        RequestKind::Playlist => "无法编码 daemon 播放列表请求: "@,
    }
}

/// The message that precedes a write error.
pub open spec fn write_failure(kind: RequestKind) -> Seq<char> {
    match kind {
        RequestKind::Command => "发送 daemon 请求失败: "@,
        RequestKind::PlayerState => "发送 daemon 状态请求失败: "@,
        RequestKind::Playlist => "发送 daemon 播放列表请求失败: "@,
    }
}

/// The message that precedes a read error while waiting for a reply.
pub open spec fn read_failure(kind: RequestKind) -> Seq<char> {
    match kind {
        RequestKind::Playlist => "读取 daemon 播放列表失败: "@,
        _ => "读取 daemon 状态失败: "@,
    }
}

/// The message that precedes a decoding error while waiting for a reply.
pub open spec fn decode_failure(kind: RequestKind) -> Seq<char> {
    match kind {
        RequestKind::Playlist => "无效的 daemon 播放列表消息: "@,
        _ => "无效的 daemon 状态消息: "@,
    }
}

/// `head` followed by `tail`.
fn joined(head: &str, tail: &String) -> (r: String)
    ensures
        r@ == head@ + tail@,
{
    let mut s = String::from_str(head);
    s.append(tail.as_str());
    s
}

/// The next step of sending a request of `kind`, given the outcome of the
/// last one: connect, set the time limits, encode, write the encoded line
/// with a newline; a command is then done, a query waits for its reply. Each
/// failure ends the request with its own message.
pub fn send(kind: RequestKind, event: SendEvent) -> (r: SendAction)
    ensures
        match event {
            SendEvent::Connected(Err(e)) => r matches SendAction::Fail(m) && m@
                == "无法连接 Inako 守护进程: "@ + e@,
            SendEvent::Connected(Ok(())) => r is Configure,
            SendEvent::Configured(Err(e)) => r matches SendAction::Fail(m) && m@
                == "无法设置 daemon IPC 超时: "@ + e@,
            SendEvent::Configured(Ok(())) => r is Encode,
            SendEvent::Encoded(Err(e)) => r matches SendAction::Fail(m) && m@ == encode_failure(kind)
                + e@,
            SendEvent::Encoded(Ok(text)) => r matches SendAction::Write(line) && line@ == text@.push(
                '\n',
            ),
            SendEvent::Written(Err(e)) => r matches SendAction::Fail(m) && m@ == write_failure(kind)
                + e@,
            SendEvent::Written(Ok(())) => if kind is Command {
                r is Done
            } else {
                r is AwaitReply
            },
        },
{
    match event {
        SendEvent::Connected(Err(e)) => SendAction::Fail(joined("无法连接 Inako 守护进程: ", &e)),
        SendEvent::Connected(Ok(())) => SendAction::Configure,
        SendEvent::Configured(Err(e)) => SendAction::Fail(joined("无法设置 daemon IPC 超时: ", &e)),
        SendEvent::Configured(Ok(())) => SendAction::Encode,
        SendEvent::Encoded(Err(e)) => {
            let head = match kind {
                RequestKind::Command => "无法编码 daemon 请求: ",
                RequestKind::PlayerState => "无法编码 daemon 状态请求: ",
                RequestKind::Playlist => "无法编码 daemon 播放列表请求: ",
            };
            SendAction::Fail(joined(head, &e))
        },
        SendEvent::Encoded(Ok(text)) => {
            let mut line = text;
            line.append("\n");
            proof {
                reveal_strlit("\n");
            }
            SendAction::Write(line)
        },
        SendEvent::Written(Err(e)) => {
            let head = match kind {
                RequestKind::Command => "发送 daemon 请求失败: ",
                RequestKind::PlayerState => "发送 daemon 状态请求失败: ",
                RequestKind::Playlist => "发送 daemon 播放列表请求失败: ",
            };
            SendAction::Fail(joined(head, &e))
        },
        SendEvent::Written(Ok(())) => match kind {
            RequestKind::Command => SendAction::Done,
            _ => SendAction::AwaitReply,
        },
    }
}

/// The next step of waiting for the reply to a query of `kind`: read a line;
/// a closed connection or a read error ends the wait with its message; a line
/// is decoded without its surrounding white space; a message that is not the
/// awaited reply is skipped, and the next line read.
pub fn await_reply(kind: RequestKind, event: ReplyEvent) -> (r: ReplyAction)
    ensures
        match event {
            ReplyEvent::Line(Err(e)) => r matches ReplyAction::Fail(m) && m@ == read_failure(kind)
                + e@,
            ReplyEvent::Line(Ok(None)) => r matches ReplyAction::Fail(m) && m@
                == "Inako 守护进程已关闭连接"@,
            ReplyEvent::Line(Ok(Some(line))) => r matches ReplyAction::Decode(t) && t@ == trim(
                line@,
            ),
            ReplyEvent::Decoded(Err(e)) => r matches ReplyAction::Fail(m) && m@ == decode_failure(
                kind,
            ) + e@,
            ReplyEvent::Decoded(Ok(found)) => if found {
                r is Done
            } else {
                r is Read
            },
        },
{
    match event {
        ReplyEvent::Line(Err(e)) => {
            let head = match kind {
                RequestKind::Playlist => "读取 daemon 播放列表失败: ",
                _ => "读取 daemon 状态失败: ",
            };
            ReplyAction::Fail(joined(head, &e))
        },
        ReplyEvent::Line(Ok(None)) => ReplyAction::Fail(String::from_str("Inako 守护进程已关闭连接")),
        ReplyEvent::Line(Ok(Some(line))) => ReplyAction::Decode(trimmed(line.as_str())),
        ReplyEvent::Decoded(Err(e)) => {
            let head = match kind {
                RequestKind::Playlist => "无效的 daemon 播放列表消息: ",
                _ => "无效的 daemon 状态消息: ",
            };
            ReplyAction::Fail(joined(head, &e))
        },
        ReplyEvent::Decoded(Ok(found)) => if found {
            ReplyAction::Done
        } else {
            ReplyAction::Read
        },
    }
}

/// The kinds of failure of a file system or socket call that the daemon
/// tells apart.
pub enum IoKind {
    /// The other end refused the connection.
    ConnectionRefused,
    /// There is no such file.
    NotFound,
    /// Anything else.
    Other,
}

/// A failed file system or socket call: its kind and its description.
pub struct IoFailure {
    pub kind: IoKind,
    pub text: String,
}

/// The outcome of a step of checking the daemon's socket path before binding
/// it.
pub enum ProbeEvent {
    /// Whether something is at the path, and whether it is a socket.
    Inspected { exists: bool, is_socket: bool },
    /// Connecting to the socket at the path worked, or how it failed.
    Connected(Result<(), IoFailure>),
    /// Removing the stale socket worked, or how it failed.
    Removed(Result<(), IoFailure>),
}

/// What to do next while checking the daemon's socket path.
pub enum ProbeAction {
    /// Try to connect to the socket at the path.
    Connect,
    /// Remove the socket file, which no daemon answers.
    Remove,
    /// The path is free for this daemon.
    Use,
    /// Refuse to start, with this message.
    Fail(String),
}

/// The next step of checking the daemon's socket path `path` (as it is
/// shown in messages): a free path is used; something that is not a socket
/// is refused; a socket that answers belongs to a running daemon, so the
/// start is refused; a socket that refuses connections is stale and is
/// removed (it may have gone in the meantime); any other failure is refused.
pub fn prepare_socket_path(path: &str, event: ProbeEvent) -> (r: ProbeAction)
    ensures
        match event {
            ProbeEvent::Inspected { exists, is_socket } => if !exists {
                r is Use
            } else if !is_socket {
                r matches ProbeAction::Fail(m) && m@ == "daemon socket 路径已存在且不是 socket: "@
                    + path@
            } else {
                r is Connect
            },
            ProbeEvent::Connected(Ok(())) => r matches ProbeAction::Fail(m) && m@
                == "Inako 守护进程已在运行: "@ + path@,
            ProbeEvent::Connected(Err(f)) => match f.kind {
                IoKind::ConnectionRefused => r is Remove,
                IoKind::NotFound => r is Use,
                IoKind::Other => r matches ProbeAction::Fail(m) && m@ == "无法检查现有 daemon socket "@
                    + path@ + ": "@ + f.text@,
            },
            ProbeEvent::Removed(Ok(())) => r is Use,
            ProbeEvent::Removed(Err(f)) => if f.kind is NotFound {
                r is Use
            } else {
                r matches ProbeAction::Fail(m) && m@ == "无法清理失效 daemon socket: "@ + f.text@
            },
        },
{
    match event {
        ProbeEvent::Inspected { exists, is_socket } => if !exists {
            ProbeAction::Use
        } else if !is_socket {
            let mut m = String::from_str("daemon socket 路径已存在且不是 socket: ");
            m.append(path);
            ProbeAction::Fail(m)
        } else {
            ProbeAction::Connect
        },
        ProbeEvent::Connected(Ok(())) => {
            let mut m = String::from_str("Inako 守护进程已在运行: ");
            m.append(path);
            ProbeAction::Fail(m)
        },
        ProbeEvent::Connected(Err(f)) => match f.kind {
            IoKind::ConnectionRefused => ProbeAction::Remove,
            IoKind::NotFound => ProbeAction::Use,
            IoKind::Other => {
                let mut m = String::from_str("无法检查现有 daemon socket ");
                m.append(path);
                m.append(": ");
                m.append(f.text.as_str());
                ProbeAction::Fail(m)
            },
        },
        ProbeEvent::Removed(Ok(())) => ProbeAction::Use,
        ProbeEvent::Removed(Err(f)) => match f.kind {
            IoKind::NotFound => ProbeAction::Use,
            _ => ProbeAction::Fail(joined("无法清理失效 daemon socket: ", &f.text)),
        },
    }
}

/// The message for a command that the window could not queue for the
/// daemon: the queue is full, or the connection is closed.
pub fn queue_failure(full: bool) -> (r: String)
    ensures
        r@ == if full {
            "GUI daemon 命令队列已满"@
        } else {
            "GUI daemon 连接已关闭"@
        },
{
    if full {
        String::from_str("GUI daemon 命令队列已满")
    } else {
        String::from_str("GUI daemon 连接已关闭")
    }
}

} // verus!
