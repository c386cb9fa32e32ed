//! The command lines of the three programs: the daemon, the command line
//! client and the window.

use crate::text::{parse_index, parsed_usize, required};
use std::path::PathBuf;
use vstd::prelude::*;
use vstd::string::StringExecFns;
use vstd::string::StrSliceExecFns;

verus! {

/// Whether `s` and `w` are the same text.
pub fn same_text(s: &str, w: &str) -> (r: bool)
    ensures
        r == (s@ == w@),
{
    let n = s.unicode_len();
    if n != w.unicode_len() {
        return false;
    }
    let mut i: usize = 0;
    while i < n
        invariant
            i <= n,
            n == s@.len(),
            n == w@.len(),
            forall|k: int| 0 <= k < i ==> s@[k] == w@[k],
        decreases n - i,
    {
        if s.get_char(i) != w.get_char(i) {
            return false;
        }
        i = i + 1;
    }
    assert(s@ =~= w@);
    true
}

/// Whether `a` names the socket option.
pub open spec fn is_socket_flag(a: Seq<char>) -> bool {
    a == "--socket"@ || a == "--socket-path"@
}

fn socket_flag(a: &str) -> (r: bool)
    ensures
        r == is_socket_flag(a@),
{
    same_text(a, "--socket") || same_text(a, "--socket-path")
}

/// The message for a socket option without its path.
pub open spec fn missing_socket_text() -> Seq<char> {
    "--socket 需要路径参数"@
}

// ---------------------------------------------------------------------------
// The daemon.

/// What the daemon's command line asks for.
#[derive(Clone, Debug, PartialEq, Eq)]
pub enum DaemonCommand {
    /// Run the daemon, on this socket path or the default one.
    Run(Option<String>),
    /// Print the usage text.
    Help,
    /// Print the version.
    Version,
}

/// What the daemon's command line asks for, in views.
pub enum DaemonChoice {
    Run(Option<Seq<char>>),
    Help,
    Version,
}

impl View for DaemonCommand {
    type V = DaemonChoice;

    open spec fn view(&self) -> DaemonChoice {
        match self {
            DaemonCommand::Run(Some(s)) => DaemonChoice::Run(Some(s@)),
            DaemonCommand::Run(None) => DaemonChoice::Run(None),
            DaemonCommand::Help => DaemonChoice::Help,
            DaemonCommand::Version => DaemonChoice::Version,
        }
    }
}

/// Reads the daemon's arguments `args[i..]`, left to right: `start` is
/// accepted and ignored, the socket option takes the next argument (the last
/// one given wins), a help or version request ends the reading, anything else
/// is refused.
pub open spec fn daemon_scan(args: Seq<Seq<char>>, i: int) -> Result<DaemonChoice, Seq<char>>
    decreases args.len() - i,
{
    if i >= args.len() || i < 0 {
        Ok(DaemonChoice::Run(None))
    } else {
        let a = args[i];
        if a == "start"@ {
            daemon_scan(args, i + 1)
        } else if is_socket_flag(a) {
            if i + 1 >= args.len() {
                Err(missing_socket_text())
            } else {
                match daemon_scan(args, i + 2) {
                    Ok(DaemonChoice::Run(None)) => Ok(DaemonChoice::Run(Some(args[i + 1]))),
                    other => other,
                }
            }
        } else if a == "help"@ || a == "--help"@ || a == "-h"@ {
            Ok(DaemonChoice::Help)
        } else if a == "version"@ || a == "--version"@ || a == "-V"@ {
            Ok(DaemonChoice::Version)
        } else {
            Err("未知参数: "@ + a + "\n运行 inako-dae --help 查看用法"@)
        }
    }
}

/// What the daemon's arguments (without the program name) ask for; an empty
/// socket path is refused.
pub open spec fn daemon_command_of(args: Seq<Seq<char>>) -> Result<DaemonChoice, Seq<char>> {
    match daemon_scan(args, 0) {
        Ok(DaemonChoice::Run(Some(s))) => if s.len() == 0 {
            Err("socket 路径不能为空"@)
        } else {
            Ok(DaemonChoice::Run(Some(s)))
        },
        other => other,
    }
}

/// The views of `args`.
pub open spec fn texts(args: Seq<String>) -> Seq<Seq<char>> {
    args.map_values(|a: String| a@)
}

/// Reads the daemon's arguments (without the program name).
pub fn parse_daemon_command(args: &Vec<String>) -> (r: Result<DaemonCommand, String>)
    ensures
        match r {
            Ok(c) => daemon_command_of(texts(args@)) == Ok::<DaemonChoice, Seq<char>>(c@),
            Err(e) => daemon_command_of(texts(args@)) == Err::<DaemonChoice, Seq<char>>(e@),
        },
{
    let ghost t = texts(args@);
    let n = args.len();
    let mut socket: Option<String> = None;
    let mut i: usize = 0;
    while i < n
        invariant
            i <= n,
            n == args@.len(),
            t == texts(args@),
            daemon_scan(t, 0) == match daemon_scan(t, i as int) {
                Ok(DaemonChoice::Run(None)) => Ok(
                    DaemonChoice::Run(
                        match socket {
                            Some(s) => Some(s@),
                            None => None,
                        },
                    ),
                ),
                other => other,
            },
        decreases n - i,
    {
        let a = args[i].as_str();
        assert(t[i as int] == a@);
        if same_text(a, "start") {
            i = i + 1;
        } else if socket_flag(a) {
            if i + 1 >= n {
                return Err(String::from_str("--socket 需要路径参数"));
            }
            assert(t[i + 1] == args@[i + 1]@);
            socket = Some(args[i + 1].clone());
            i = i + 2;
        } else if same_text(a, "help") || same_text(a, "--help") || same_text(a, "-h") {
            return Ok(DaemonCommand::Help);
        } else if same_text(a, "version") || same_text(a, "--version") || same_text(a, "-V") {
            return Ok(DaemonCommand::Version);
        } else {
            let mut message = String::from_str("未知参数: ");
            message.append(a);
            message.append("\n运行 inako-dae --help 查看用法");
            return Err(message);
        }
    }
    match socket {
        Some(s) => if s.unicode_len() == 0 {
            Err(String::from_str("socket 路径不能为空"))
        } else {
            Ok(DaemonCommand::Run(Some(s)))
        },
        None => Ok(DaemonCommand::Run(None)),
    }
}

// ---------------------------------------------------------------------------
// The window.

/// What the window's command line asks for.
#[derive(Clone, Debug, PartialEq, Eq)]
pub enum WindowCommand {
    /// Show the window, or hide it when it is shown, connecting to the
    /// daemon on this socket path or the default one.
    ToggleDisplay { socket_path: Option<PathBuf> },
    /// Close the window and end the window process.
    Quit,
}

/// Reads the window's arguments `args[i..]`: the socket option takes the
/// next argument as a path (the last one wins), the last of `toggle-display`
/// and `quit` is the command (`true` for `quit`), and an argument that is not
/// text (`None`) or not known is refused. The socket path is given as the
/// index of its argument.
pub open spec fn window_scan(args: Seq<Option<Seq<char>>>, i: int) -> Result<
    (Option<int>, Option<bool>),
    Seq<char>,
>
    decreases args.len() - i,
{
    if i >= args.len() || i < 0 {
        Ok((None, None))
    } else {
        match args[i] {
            None => Err("命令参数必须是有效 UTF-8 文本"@),
            Some(a) => if is_socket_flag(a) {
                if i + 1 >= args.len() {
                    Err(missing_socket_text())
                } else {
                    match window_scan(args, i + 2) {
                        Ok((s, q)) => Ok(
                            (
                                if s is Some {
                                    s
                                } else {
                                    Some(i + 1)
                                },
                                q,
                            ),
                        ),
                        Err(e) => Err(e),
                    }
                }
            } else if a == "toggle-display"@ || a == "quit"@ {
                match window_scan(args, i + 1) {
                    Ok((s, q)) => Ok(
                        (
                            s,
                            if q is Some {
                                q
                            } else {
                                Some(a == "quit"@)
                            },
                        ),
                    ),
                    Err(e) => Err(e),
                }
            } else {
                Err("未知命令: "@ + a)
            },
        }
    }
}

/// The views of the window's arguments.
pub open spec fn window_texts(args: Seq<Option<String>>) -> Seq<Option<Seq<char>>> {
    args.map_values(
        |a: Option<String>|
            match a {
                Some(s) => Some(s@),
                None => None,
            },
    )
}

/// Reads the window's command line. `arguments[k]` is the text of the k-th
/// argument (the program name first), `None` when it is not valid UTF-8, and
/// `paths[k]` the same argument as a path. Without a command the window
/// toggles its display.
pub fn parse_command(arguments: &Vec<Option<String>>, paths: &Vec<PathBuf>) -> (r: Result<
    WindowCommand,
    String,
>)
    requires
        paths@.len() == arguments@.len(),
    ensures
        match window_scan(window_texts(arguments@), 1) {
            Err(e) => r is Err && r->Err_0@ == e,
            Ok((s, q)) => if q == Some(true) {
                r matches Ok(WindowCommand::Quit)
            } else {
                r matches Ok(WindowCommand::ToggleDisplay { socket_path }) && socket_path == match s {
                    Some(k) => Some(paths@[k]),
                    None => None::<PathBuf>,
                }
            },
        },
{
    let ghost t = window_texts(arguments@);
    let n = arguments.len();
    let mut socket: Option<usize> = None;
    let mut quit: Option<bool> = None;
    let mut i: usize = 1;
    while i < n
        invariant
            1 <= i <= n + 1,
            n == arguments@.len(),
            t == window_texts(arguments@),
            socket matches Some(k) ==> k < n,
            window_scan(t, 1) == match window_scan(t, i as int) {
                Ok((s, q)) => Ok::<(Option<int>, Option<bool>), Seq<char>>(
                    (
                        if s is Some {
                            s
                        } else {
                            match socket {
                                Some(k) => Some(k as int),
                                None => None,
                            }
                        },
                        if q is Some {
                            q
                        } else {
                            quit
                        },
                    ),
                ),
                Err(e) => Err(e),
            },
        decreases n + 1 - i,
    {
        assert(t[i as int] == match arguments@[i as int] {
            Some(s) => Some(s@),
            None => None::<Seq<char>>,
        });
        match &arguments[i] {
            None => {
                return Err(String::from_str("命令参数必须是有效 UTF-8 文本"));
            },
            Some(a) => {
                let a = a.as_str();
                if socket_flag(a) {
                    if i + 1 >= n {
                        return Err(String::from_str("--socket 需要路径参数"));
                    }
                    socket = Some(i + 1);
                    i = i + 2;
                } else if same_text(a, "toggle-display") {
                    proof {
                        reveal_strlit("toggle-display");
                        reveal_strlit("quit");
                    }
                    quit = Some(false);
                    i = i + 1;
                } else if same_text(a, "quit") {
                    quit = Some(true);
                    i = i + 1;
                } else {
                    let mut message = String::from_str("未知命令: ");
                    message.append(a);
                    return Err(message);
                }
            },
        }
    }
    match quit {
        Some(true) => Ok(WindowCommand::Quit),
        _ => Ok(
            WindowCommand::ToggleDisplay {
                socket_path: match socket {
                    Some(k) => Some(paths[k].clone()),
                    None => None,
                },
            },
        ),
    }
}

// ---------------------------------------------------------------------------
// The command line client.

/// What the command line client is asked to do. Times in seconds stay the
/// text they were typed as; `extra` records that arguments are left over
/// after them, which is refused once the time has been read.
#[derive(Clone, Debug, PartialEq, Eq)]
pub enum CliRequest {
    Status,
    Watch,
    Stop,
    Toggle,
    Seek { seconds: Option<String>, extra: bool },
    Next,
    Previous,
    LoadPlaylist(String),
    SwitchPlaylist(String),
    SavePlaylist(String),
    Add(String),
    Clear,
    Remove(usize),
    Move { from: usize, to: usize },
    Shuffle,
    Play { index: usize, seconds: Option<String>, extra: bool },
    Help,
    Version,
}

/// A `CliRequest` in views.
pub enum CliChoice {
    Status,
    Watch,
    Stop,
    Toggle,
    Seek { seconds: Option<Seq<char>>, extra: bool },
    Next,
    Previous,
    LoadPlaylist(Seq<char>),
    SwitchPlaylist(Seq<char>),
    SavePlaylist(Seq<char>),
    Add(Seq<char>),
    Clear,
    Remove(usize),
    Move { from: usize, to: usize },
    Shuffle,
    Play { index: usize, seconds: Option<Seq<char>>, extra: bool },
    Help,
    Version,
}

/// The view of an optional text.
pub open spec fn text_view(o: Option<String>) -> Option<Seq<char>> {
    match o {
        Some(s) => Some(s@),
        None => None,
    }
}

impl View for CliRequest {
    type V = CliChoice;

    open spec fn view(&self) -> CliChoice {
        match self {
            CliRequest::Status => CliChoice::Status,
            CliRequest::Watch => CliChoice::Watch,
            CliRequest::Stop => CliChoice::Stop,
            CliRequest::Toggle => CliChoice::Toggle,
            CliRequest::Seek { seconds, extra } => CliChoice::Seek {
                seconds: text_view(*seconds),
                extra: *extra,
            },
            CliRequest::Next => CliChoice::Next,
            CliRequest::Previous => CliChoice::Previous,
            CliRequest::LoadPlaylist(p) => CliChoice::LoadPlaylist(p@),
            CliRequest::SwitchPlaylist(n) => CliChoice::SwitchPlaylist(n@),
            CliRequest::SavePlaylist(n) => CliChoice::SavePlaylist(n@),
            CliRequest::Add(p) => CliChoice::Add(p@),
            CliRequest::Clear => CliChoice::Clear,
            CliRequest::Remove(i) => CliChoice::Remove(*i),
            CliRequest::Move { from, to } => CliChoice::Move { from: *from, to: *to },
            CliRequest::Shuffle => CliChoice::Shuffle,
            CliRequest::Play { index, seconds, extra } => CliChoice::Play {
                index: *index,
                seconds: text_view(*seconds),
                extra: *extra,
            },
            CliRequest::Help => CliChoice::Help,
            CliRequest::Version => CliChoice::Version,
        }
    }
}

/// Splits the client's arguments `args[i..]` into the socket path (the last
/// one given) and the other arguments, in order.
pub open spec fn split_socket(args: Seq<Seq<char>>, i: int) -> Option<
    (Option<Seq<char>>, Seq<Seq<char>>),
>
    decreases args.len() - i,
{
    if i >= args.len() || i < 0 {
        Some((None, Seq::empty()))
    } else if is_socket_flag(args[i]) {
        if i + 1 >= args.len() {
            None
        } else {
            match split_socket(args, i + 2) {
                Some((s, v)) => Some(
                    (
                        if s is Some {
                            s
                        } else {
                            Some(args[i + 1])
                        },
                        v,
                    ),
                ),
                None => None,
            }
        }
    } else {
        match split_socket(args, i + 1) {
            Some((s, v)) => Some((s, seq![args[i]] + v)),
            None => None,
        }
    }
}

/// What `parse_index` makes of an optional argument.
pub open spec fn index_of_text(v: Option<Seq<char>>) -> Result<usize, Seq<char>> {
    match v {
        None => Err("缺少播放列表索引"@),
        Some(t) => match parsed_usize(t) {
            Some(n) => Ok(n),
            None => Err("播放列表索引必须是从 0 开始的整数"@),
        },
    }
}

/// `request`, unless more than `used` of the `n` values were given.
pub open spec fn at_most(request: CliChoice, used: nat, n: nat) -> Result<CliChoice, Seq<char>> {
    if n > used {
        Err("命令参数过多"@)
    } else {
        Ok(request)
    }
}

/// A required value, or the message naming it.
pub open spec fn required_text(v: Option<Seq<char>>, name: Seq<char>) -> Result<Seq<char>, Seq<char>> {
    match v {
        Some(t) => Ok(t),
        None => Err("缺少"@ + name),
    }
}

/// What the client's command `cmd` with the values `values` asks for.
pub open spec fn cli_request_of(cmd: Seq<char>, values: Seq<Seq<char>>) -> Result<
    CliChoice,
    Seq<char>,
> {
    let n = values.len();
    let v0 = if n > 0 {
        Some(values[0])
    } else {
        None
    };
    let v1 = if n > 1 {
        Some(values[1])
    } else {
        None
    };
    if cmd == "status"@ {
        at_most(CliChoice::Status, 0, n)
    } else if cmd == "watch"@ {
        at_most(CliChoice::Watch, 0, n)
    } else if cmd == "stop"@ {
        at_most(CliChoice::Stop, 0, n)
    } else if cmd == "toggle"@ {
        at_most(CliChoice::Toggle, 0, n)
    } else if cmd == "seek"@ {
        Ok(CliChoice::Seek { seconds: v0, extra: n > 1 })
    } else if cmd == "next"@ {
        at_most(CliChoice::Next, 0, n)
    } else if cmd == "previous"@ || cmd == "prev"@ {
        at_most(CliChoice::Previous, 0, n)
    } else if cmd == "load-playlist"@ || cmd == "load-playlist-by-txt-file"@ {
        match required_text(v0, "播放列表文件路径"@) {
            Ok(p) => at_most(CliChoice::LoadPlaylist(p), 1, n),
            Err(e) => Err(e),
        }
    } else if cmd == "switch-playlist"@ {
        match required_text(v0, "播放列表名称"@) {
            Ok(p) => at_most(CliChoice::SwitchPlaylist(p), 1, n),
            Err(e) => Err(e),
        }
    } else if cmd == "save-playlist"@ {
        match required_text(v0, "播放列表名称"@) {
            Ok(p) => at_most(CliChoice::SavePlaylist(p), 1, n),
            Err(e) => Err(e),
        }
    } else if cmd == "add"@ {
        match required_text(v0, "媒体文件路径"@) {
            Ok(p) => at_most(CliChoice::Add(p), 1, n),
            Err(e) => Err(e),
        }
    } else if cmd == "clear"@ {
        at_most(CliChoice::Clear, 0, n)
    } else if cmd == "remove"@ {
        match index_of_text(v0) {
            Ok(i) => at_most(CliChoice::Remove(i), 1, n),
            Err(e) => Err(e),
        }
    } else if cmd == "move"@ {
        match index_of_text(v0) {
            Ok(from) => match index_of_text(v1) {
                Ok(to) => at_most(CliChoice::Move { from, to }, 2, n),
                Err(e) => Err(e),
            },
            Err(e) => Err(e),
        }
    } else if cmd == "shuffle"@ {
        at_most(CliChoice::Shuffle, 0, n)
    } else if cmd == "play"@ {
        match index_of_text(v0) {
            Ok(index) => Ok(CliChoice::Play { index, seconds: v1, extra: n > 2 }),
            Err(e) => Err(e),
        }
    } else if cmd == "help"@ || cmd == "--help"@ || cmd == "-h"@ {
        Ok(CliChoice::Help)
    } else if cmd == "version"@ || cmd == "--version"@ || cmd == "-V"@ {
        Ok(CliChoice::Version)
    } else {
        Err("未知命令: "@ + cmd + "\n运行 inako-cli help 查看用法"@)
    }
}

/// What the client's arguments (without the program name) ask for: the
/// first names the command (`status` when there is none); the socket option
/// may stand anywhere after it.
pub open spec fn cli_command_of(args: Seq<Seq<char>>) -> Result<
    (CliChoice, Option<Seq<char>>),
    Seq<char>,
> {
    let cmd = if args.len() == 0 {
        "status"@
    } else {
        args[0]
    };
    match split_socket(args, 1) {
        None => Err(missing_socket_text()),
        Some((socket, values)) => match cli_request_of(cmd, values) {
            Ok(c) => Ok((c, socket)),
            Err(e) => Err(e),
        },
    }
}

/// Whether the literal `w` is the same text as `s`, to compare a typed
/// argument with the name of a command.
fn is_word(s: &String, w: &str) -> (r: bool)
    ensures
        r == (s@ == w@),
{
    same_text(s.as_str(), w)
}

fn nth_value(values: &Vec<String>, k: usize) -> (r: Option<String>)
    ensures
        text_view(r) == if k < values@.len() {
            Some(values@[k as int]@)
        } else {
            None
        },
{
    if k < values.len() {
        Some(values[k].clone())
    } else {
        None
    }
}

/// Reads the client's arguments (without the program name).
pub fn parse_cli_command(args: &Vec<String>) -> (r: Result<(CliRequest, Option<String>), String>)
    ensures
        match r {
            Ok((c, s)) => cli_command_of(texts(args@)) == Ok::<
                (CliChoice, Option<Seq<char>>),
                Seq<char>,
            >((c@, text_view(s))),
            Err(e) => cli_command_of(texts(args@)) == Err::<(CliChoice, Option<Seq<char>>), Seq<char>>(
                e@,
            ),
        },
{
    let ghost t = texts(args@);
    let n = args.len();
    let mut socket: Option<String> = None;
    let mut values: Vec<String> = Vec::new();
    let mut i: usize = 1;
    while i < n
        invariant
            1 <= i <= n + 1,
            n == args@.len(),
            t == texts(args@),
            split_socket(t, 1) == match split_socket(t, i as int) {
                Some((s, v)) => Some(
                    (
                        if s is Some {
                            s
                        } else {
                            text_view(socket)
                        },
                        texts(values@) + v,
                    ),
                ),
                None => None,
            },
        decreases n + 1 - i,
    {
        assert(t[i as int] == args@[i as int]@);
        if socket_flag(args[i].as_str()) {
            if i + 1 >= n {
                return Err(String::from_str("--socket 需要路径参数"));
            }
            assert(t[i + 1] == args@[i + 1]@);
            socket = Some(args[i + 1].clone());
            i = i + 2;
        } else {
            let ghost before = values@;
            values.push(args[i].clone());
            assert(texts(values@) =~= texts(before) + seq![t[i as int]]);
            assert(split_socket(t, i + 1) matches Some((s, v)) ==> texts(values@) + v =~= texts(before)
                + (seq![t[i as int]] + v));
            i = i + 1;
        }
    }
    assert(split_socket(t, i as int) == Some((None::<Seq<char>>, Seq::<Seq<char>>::empty())));
    assert(texts(values@) + Seq::<Seq<char>>::empty() =~= texts(values@));
    let status = String::from_str("status");
    let cmd: &String = if n == 0 {
        &status
    } else {
        &args[0]
    };
    let ghost vs = texts(values@);
    let count = values.len();
    assert(vs.len() == count);
    let v0 = nth_value(&values, 0);
    let v1 = nth_value(&values, 1);
    let request = if is_word(cmd, "status") {
        if count > 0 {
            return Err(String::from_str("命令参数过多"));
        }
        CliRequest::Status
    } else if is_word(cmd, "watch") {
        if count > 0 {
            return Err(String::from_str("命令参数过多"));
        }
        CliRequest::Watch
    } else if is_word(cmd, "stop") {
        if count > 0 {
            return Err(String::from_str("命令参数过多"));
        }
        CliRequest::Stop
    } else if is_word(cmd, "toggle") {
        if count > 0 {
            return Err(String::from_str("命令参数过多"));
        }
        CliRequest::Toggle
    } else if is_word(cmd, "seek") {
        CliRequest::Seek { seconds: v0, extra: count > 1 }
    } else if is_word(cmd, "next") {
        if count > 0 {
            return Err(String::from_str("命令参数过多"));
        }
        CliRequest::Next
    } else if is_word(cmd, "previous") || is_word(cmd, "prev") {
        if count > 0 {
            return Err(String::from_str("命令参数过多"));
        }
        CliRequest::Previous
    } else if is_word(cmd, "load-playlist") || is_word(cmd, "load-playlist-by-txt-file") {
        let p = required(v0, "播放列表文件路径")?;
        if count > 1 {
            return Err(String::from_str("命令参数过多"));
        }
        CliRequest::LoadPlaylist(p)
    } else if is_word(cmd, "switch-playlist") {
        let p = required(v0, "播放列表名称")?;
        if count > 1 {
            return Err(String::from_str("命令参数过多"));
        }
        CliRequest::SwitchPlaylist(p)
    } else if is_word(cmd, "save-playlist") {
        let p = required(v0, "播放列表名称")?;
        if count > 1 {
            return Err(String::from_str("命令参数过多"));
        }
        CliRequest::SavePlaylist(p)
    } else if is_word(cmd, "add") {
        let p = required(v0, "媒体文件路径")?;
        if count > 1 {
            return Err(String::from_str("命令参数过多"));
        }
        CliRequest::Add(p)
    } else if is_word(cmd, "clear") {
        if count > 0 {
            return Err(String::from_str("命令参数过多"));
        }
        CliRequest::Clear
    } else if is_word(cmd, "remove") {
        let index = parse_index(v0)?;
        if count > 1 {
            return Err(String::from_str("命令参数过多"));
        }
        CliRequest::Remove(index)
    } else if is_word(cmd, "move") {
        let from = parse_index(v0)?;
        let to = parse_index(v1)?;
        if count > 2 {
            return Err(String::from_str("命令参数过多"));
        }
        CliRequest::Move { from, to }
    } else if is_word(cmd, "shuffle") {
        if count > 0 {
            return Err(String::from_str("命令参数过多"));
        }
        CliRequest::Shuffle
    } else if is_word(cmd, "play") {
        let index = parse_index(v0)?;
        CliRequest::Play { index, seconds: v1, extra: count > 2 }
    } else if is_word(cmd, "help") || is_word(cmd, "--help") || is_word(cmd, "-h") {
        CliRequest::Help
    } else if is_word(cmd, "version") || is_word(cmd, "--version") || is_word(cmd, "-V") {
        CliRequest::Version
    } else {
        let mut message = String::from_str("未知命令: ");
        message.append(cmd.as_str());
        message.append("\n运行 inako-cli help 查看用法");
        return Err(message);
    };
    Ok((request, socket))
}

} // verus!
