//! What the command lines of the three programs ask for, word by word.

use crate::args::{
    cli_command_of, daemon_command_of, daemon_scan, is_socket_flag, split_socket, window_scan,
    CliChoice, DaemonChoice,
};
use crate::text::{decimal, lemma_decimal_parses};
use vstd::prelude::*;

verus! {

/// Splitting off the socket option from arguments that hold none keeps them
/// all as values, in order.
proof fn lemma_split_without_socket(args: Seq<Seq<char>>, i: int)
    requires
        0 <= i <= args.len(),
        forall|k: int| i <= k < args.len() ==> !is_socket_flag(#[trigger] args[k]),
    ensures
        split_socket(args, i) == Some((None::<Seq<char>>, args.subrange(i, args.len() as int))),
    decreases args.len() - i,
{
    if i < args.len() {
        lemma_split_without_socket(args, i + 1);
        assert(seq![args[i]] + args.subrange(i + 1, args.len() as int) =~= args.subrange(
            i,
            args.len() as int,
        ));
    } else {
        assert(args.subrange(i, args.len() as int) =~= Seq::<Seq<char>>::empty());
    }
}

/// A socket option after the command word, with nothing else, gives the
/// socket path and no values.
proof fn lemma_split_socket_only(args: Seq<Seq<char>>)
    requires
        args.len() == 3,
        is_socket_flag(args[1]),
    ensures
        split_socket(args, 1) == Some((Some(args[2]), Seq::<Seq<char>>::empty())),
{
    assert(split_socket(args, 3) == Some((None::<Seq<char>>, Seq::<Seq<char>>::empty())));
}

/// Without arguments the client asks for the status.
pub proof fn lemma_cli_no_arguments()
    ensures
        cli_command_of(Seq::<Seq<char>>::empty()) == Ok::<(CliChoice, Option<Seq<char>>), Seq<char>>((CliChoice::Status, None)),
{
    reveal_strlit("status");
    lemma_split_without_socket(Seq::<Seq<char>>::empty(), 0);
    assert(Seq::<Seq<char>>::empty().subrange(0, 0) =~= Seq::<Seq<char>>::empty());
}

/// The client's `status` asks for its own request, with or without a socket
/// option after it.
pub proof fn lemma_cli_status(s: Seq<char>)
    ensures
        cli_command_of(seq!["status"@]) == Ok::<(CliChoice, Option<Seq<char>>), Seq<char>>((CliChoice::Status, None)),
        cli_command_of(seq!["status"@, "--socket"@, s]) == Ok::<(CliChoice, Option<Seq<char>>), Seq<char>>((CliChoice::Status, Some(s))),
{
    reveal_strlit("status");
    reveal_strlit("watch");
    assert("status"@.len() != "watch"@.len());
    reveal_strlit("stop");
    assert("status"@.len() != "stop"@.len());
    reveal_strlit("toggle");
    assert("status"@[0] != "toggle"@[0]);
    reveal_strlit("seek");
    assert("status"@.len() != "seek"@.len());
    reveal_strlit("next");
    assert("status"@.len() != "next"@.len());
    reveal_strlit("previous");
    assert("status"@.len() != "previous"@.len());
    reveal_strlit("prev");
    assert("status"@.len() != "prev"@.len());
    reveal_strlit("load-playlist");
    assert("status"@.len() != "load-playlist"@.len());
    reveal_strlit("load-playlist-by-txt-file");
    assert("status"@.len() != "load-playlist-by-txt-file"@.len());
    reveal_strlit("switch-playlist");
    assert("status"@.len() != "switch-playlist"@.len());
    reveal_strlit("save-playlist");
    assert("status"@.len() != "save-playlist"@.len());
    reveal_strlit("add");
    assert("status"@.len() != "add"@.len());
    reveal_strlit("clear");
    assert("status"@.len() != "clear"@.len());
    reveal_strlit("remove");
    assert("status"@[0] != "remove"@[0]);
    reveal_strlit("move");
    assert("status"@.len() != "move"@.len());
    reveal_strlit("shuffle");
    assert("status"@.len() != "shuffle"@.len());
    reveal_strlit("play");
    assert("status"@.len() != "play"@.len());
    reveal_strlit("help");
    assert("status"@.len() != "help"@.len());
    reveal_strlit("--help");
    assert("status"@[0] != "--help"@[0]);
    reveal_strlit("-h");
    assert("status"@.len() != "-h"@.len());
    reveal_strlit("version");
    assert("status"@.len() != "version"@.len());
    reveal_strlit("--version");
    assert("status"@.len() != "--version"@.len());
    reveal_strlit("-V");
    assert("status"@.len() != "-V"@.len());
    reveal_strlit("--socket");
    assert("status"@.len() != "--socket"@.len());
    reveal_strlit("--socket-path");
    assert("status"@.len() != "--socket-path"@.len());
    assert(is_socket_flag("--socket"@));
    lemma_split_without_socket(seq!["status"@], 1);
    assert(seq!["status"@].subrange(1, 1) =~= Seq::<Seq<char>>::empty());
    lemma_split_socket_only(seq!["status"@, "--socket"@, s]);
}

/// The client's `watch` asks for its own request, with or without a socket
/// option after it.
pub proof fn lemma_cli_watch(s: Seq<char>)
    ensures
        cli_command_of(seq!["watch"@]) == Ok::<(CliChoice, Option<Seq<char>>), Seq<char>>((CliChoice::Watch, None)),
        cli_command_of(seq!["watch"@, "--socket"@, s]) == Ok::<(CliChoice, Option<Seq<char>>), Seq<char>>((CliChoice::Watch, Some(s))),
{
    reveal_strlit("watch");
    reveal_strlit("status");
    assert("watch"@.len() != "status"@.len());
    reveal_strlit("stop");
    assert("watch"@.len() != "stop"@.len());
    reveal_strlit("toggle");
    assert("watch"@.len() != "toggle"@.len());
    reveal_strlit("seek");
    assert("watch"@.len() != "seek"@.len());
    reveal_strlit("next");
    assert("watch"@.len() != "next"@.len());
    reveal_strlit("previous");
    assert("watch"@.len() != "previous"@.len());
    reveal_strlit("prev");
    assert("watch"@.len() != "prev"@.len());
    reveal_strlit("load-playlist");
    assert("watch"@.len() != "load-playlist"@.len());
    reveal_strlit("load-playlist-by-txt-file");
    assert("watch"@.len() != "load-playlist-by-txt-file"@.len());
    reveal_strlit("switch-playlist");
    assert("watch"@.len() != "switch-playlist"@.len());
    reveal_strlit("save-playlist");
    assert("watch"@.len() != "save-playlist"@.len());
    reveal_strlit("add");
    assert("watch"@.len() != "add"@.len());
    reveal_strlit("clear");
    assert("watch"@[0] != "clear"@[0]);
    reveal_strlit("remove");
    assert("watch"@.len() != "remove"@.len());
    reveal_strlit("move");
    assert("watch"@.len() != "move"@.len());
    reveal_strlit("shuffle");
    assert("watch"@.len() != "shuffle"@.len());
    reveal_strlit("play");
    assert("watch"@.len() != "play"@.len());
    reveal_strlit("help");
    assert("watch"@.len() != "help"@.len());
    reveal_strlit("--help");
    assert("watch"@.len() != "--help"@.len());
    reveal_strlit("-h");
    assert("watch"@.len() != "-h"@.len());
    reveal_strlit("version");
    assert("watch"@.len() != "version"@.len());
    reveal_strlit("--version");
    assert("watch"@.len() != "--version"@.len());
    reveal_strlit("-V");
    assert("watch"@.len() != "-V"@.len());
    reveal_strlit("--socket");
    assert("watch"@.len() != "--socket"@.len());
    reveal_strlit("--socket-path");
    assert("watch"@.len() != "--socket-path"@.len());
    assert(is_socket_flag("--socket"@));
    lemma_split_without_socket(seq!["watch"@], 1);
    assert(seq!["watch"@].subrange(1, 1) =~= Seq::<Seq<char>>::empty());
    lemma_split_socket_only(seq!["watch"@, "--socket"@, s]);
}

/// The client's `stop` asks for its own request, with or without a socket
/// option after it.
pub proof fn lemma_cli_stop(s: Seq<char>)
    ensures
        cli_command_of(seq!["stop"@]) == Ok::<(CliChoice, Option<Seq<char>>), Seq<char>>((CliChoice::Stop, None)),
        cli_command_of(seq!["stop"@, "--socket"@, s]) == Ok::<(CliChoice, Option<Seq<char>>), Seq<char>>((CliChoice::Stop, Some(s))),
{
    reveal_strlit("stop");
    reveal_strlit("status");
    assert("stop"@.len() != "status"@.len());
    reveal_strlit("watch");
    assert("stop"@.len() != "watch"@.len());
    reveal_strlit("toggle");
    assert("stop"@.len() != "toggle"@.len());
    reveal_strlit("seek");
    assert("stop"@[1] != "seek"@[1]);
    reveal_strlit("next");
    assert("stop"@[0] != "next"@[0]);
    reveal_strlit("previous");
    assert("stop"@.len() != "previous"@.len());
    reveal_strlit("prev");
    assert("stop"@[0] != "prev"@[0]);
    reveal_strlit("load-playlist");
    assert("stop"@.len() != "load-playlist"@.len());
    reveal_strlit("load-playlist-by-txt-file");
    assert("stop"@.len() != "load-playlist-by-txt-file"@.len());
    reveal_strlit("switch-playlist");
    assert("stop"@.len() != "switch-playlist"@.len());
    reveal_strlit("save-playlist");
    assert("stop"@.len() != "save-playlist"@.len());
    reveal_strlit("add");
    assert("stop"@.len() != "add"@.len());
    reveal_strlit("clear");
    assert("stop"@.len() != "clear"@.len());
    reveal_strlit("remove");
    assert("stop"@.len() != "remove"@.len());
    reveal_strlit("move");
    assert("stop"@[0] != "move"@[0]);
    reveal_strlit("shuffle");
    assert("stop"@.len() != "shuffle"@.len());
    reveal_strlit("play");
    assert("stop"@[0] != "play"@[0]);
    reveal_strlit("help");
    assert("stop"@[0] != "help"@[0]);
    reveal_strlit("--help");
    assert("stop"@.len() != "--help"@.len());
    reveal_strlit("-h");
    assert("stop"@.len() != "-h"@.len());
    reveal_strlit("version");
    assert("stop"@.len() != "version"@.len());
    reveal_strlit("--version");
    assert("stop"@.len() != "--version"@.len());
    reveal_strlit("-V");
    assert("stop"@.len() != "-V"@.len());
    reveal_strlit("--socket");
    assert("stop"@.len() != "--socket"@.len());
    reveal_strlit("--socket-path");
    assert("stop"@.len() != "--socket-path"@.len());
    assert(is_socket_flag("--socket"@));
    lemma_split_without_socket(seq!["stop"@], 1);
    assert(seq!["stop"@].subrange(1, 1) =~= Seq::<Seq<char>>::empty());
    lemma_split_socket_only(seq!["stop"@, "--socket"@, s]);
}

/// The client's `toggle` asks for its own request, with or without a socket
/// option after it.
pub proof fn lemma_cli_toggle(s: Seq<char>)
    ensures
        cli_command_of(seq!["toggle"@]) == Ok::<(CliChoice, Option<Seq<char>>), Seq<char>>((CliChoice::Toggle, None)),
        cli_command_of(seq!["toggle"@, "--socket"@, s]) == Ok::<(CliChoice, Option<Seq<char>>), Seq<char>>((CliChoice::Toggle, Some(s))),
{
    reveal_strlit("toggle");
    reveal_strlit("status");
    assert("toggle"@[0] != "status"@[0]);
    reveal_strlit("watch");
    assert("toggle"@.len() != "watch"@.len());
    reveal_strlit("stop");
    assert("toggle"@.len() != "stop"@.len());
    reveal_strlit("seek");
    assert("toggle"@.len() != "seek"@.len());
    reveal_strlit("next");
    assert("toggle"@.len() != "next"@.len());
    reveal_strlit("previous");
    assert("toggle"@.len() != "previous"@.len());
    reveal_strlit("prev");
    assert("toggle"@.len() != "prev"@.len());
    reveal_strlit("load-playlist");
    assert("toggle"@.len() != "load-playlist"@.len());
    reveal_strlit("load-playlist-by-txt-file");
    assert("toggle"@.len() != "load-playlist-by-txt-file"@.len());
    reveal_strlit("switch-playlist");
    assert("toggle"@.len() != "switch-playlist"@.len());
    reveal_strlit("save-playlist");
    assert("toggle"@.len() != "save-playlist"@.len());
    reveal_strlit("add");
    assert("toggle"@.len() != "add"@.len());
    reveal_strlit("clear");
    assert("toggle"@.len() != "clear"@.len());
    reveal_strlit("remove");
    assert("toggle"@[0] != "remove"@[0]);
    reveal_strlit("move");
    assert("toggle"@.len() != "move"@.len());
    reveal_strlit("shuffle");
    assert("toggle"@.len() != "shuffle"@.len());
    reveal_strlit("play");
    assert("toggle"@.len() != "play"@.len());
    reveal_strlit("help");
    assert("toggle"@.len() != "help"@.len());
    reveal_strlit("--help");
    assert("toggle"@[0] != "--help"@[0]);
    reveal_strlit("-h");
    assert("toggle"@.len() != "-h"@.len());
    reveal_strlit("version");
    assert("toggle"@.len() != "version"@.len());
    reveal_strlit("--version");
    assert("toggle"@.len() != "--version"@.len());
    reveal_strlit("-V");
    assert("toggle"@.len() != "-V"@.len());
    reveal_strlit("--socket");
    assert("toggle"@.len() != "--socket"@.len());
    reveal_strlit("--socket-path");
    assert("toggle"@.len() != "--socket-path"@.len());
    assert(is_socket_flag("--socket"@));
    lemma_split_without_socket(seq!["toggle"@], 1);
    assert(seq!["toggle"@].subrange(1, 1) =~= Seq::<Seq<char>>::empty());
    lemma_split_socket_only(seq!["toggle"@, "--socket"@, s]);
}

/// The client's `next` asks for its own request, with or without a socket
/// option after it.
pub proof fn lemma_cli_next(s: Seq<char>)
    ensures
        cli_command_of(seq!["next"@]) == Ok::<(CliChoice, Option<Seq<char>>), Seq<char>>((CliChoice::Next, None)),
        cli_command_of(seq!["next"@, "--socket"@, s]) == Ok::<(CliChoice, Option<Seq<char>>), Seq<char>>((CliChoice::Next, Some(s))),
{
    reveal_strlit("next");
    reveal_strlit("status");
    assert("next"@.len() != "status"@.len());
    reveal_strlit("watch");
    assert("next"@.len() != "watch"@.len());
    reveal_strlit("stop");
    assert("next"@[0] != "stop"@[0]);
    reveal_strlit("toggle");
    assert("next"@.len() != "toggle"@.len());
    reveal_strlit("seek");
    assert("next"@[0] != "seek"@[0]);
    reveal_strlit("previous");
    assert("next"@.len() != "previous"@.len());
    reveal_strlit("prev");
    assert("next"@[0] != "prev"@[0]);
    reveal_strlit("load-playlist");
    assert("next"@.len() != "load-playlist"@.len());
    reveal_strlit("load-playlist-by-txt-file");
    assert("next"@.len() != "load-playlist-by-txt-file"@.len());
    reveal_strlit("switch-playlist");
    assert("next"@.len() != "switch-playlist"@.len());
    reveal_strlit("save-playlist");
    assert("next"@.len() != "save-playlist"@.len());
    reveal_strlit("add");
    assert("next"@.len() != "add"@.len());
    reveal_strlit("clear");
    assert("next"@.len() != "clear"@.len());
    reveal_strlit("remove");
    assert("next"@.len() != "remove"@.len());
    reveal_strlit("move");
    assert("next"@[0] != "move"@[0]);
    reveal_strlit("shuffle");
    assert("next"@.len() != "shuffle"@.len());
    reveal_strlit("play");
    assert("next"@[0] != "play"@[0]);
    reveal_strlit("help");
    assert("next"@[0] != "help"@[0]);
    reveal_strlit("--help");
    assert("next"@.len() != "--help"@.len());
    reveal_strlit("-h");
    assert("next"@.len() != "-h"@.len());
    reveal_strlit("version");
    assert("next"@.len() != "version"@.len());
    reveal_strlit("--version");
    assert("next"@.len() != "--version"@.len());
    reveal_strlit("-V");
    assert("next"@.len() != "-V"@.len());
    reveal_strlit("--socket");
    assert("next"@.len() != "--socket"@.len());
    reveal_strlit("--socket-path");
    assert("next"@.len() != "--socket-path"@.len());
    assert(is_socket_flag("--socket"@));
    lemma_split_without_socket(seq!["next"@], 1);
    assert(seq!["next"@].subrange(1, 1) =~= Seq::<Seq<char>>::empty());
    lemma_split_socket_only(seq!["next"@, "--socket"@, s]);
}

/// The client's `previous` asks for its own request, with or without a socket
/// option after it.
pub proof fn lemma_cli_previous(s: Seq<char>)
    ensures
        cli_command_of(seq!["previous"@]) == Ok::<(CliChoice, Option<Seq<char>>), Seq<char>>((CliChoice::Previous, None)),
        cli_command_of(seq!["previous"@, "--socket"@, s]) == Ok::<(CliChoice, Option<Seq<char>>), Seq<char>>((CliChoice::Previous, Some(s))),
{
    reveal_strlit("previous");
    reveal_strlit("status");
    assert("previous"@.len() != "status"@.len());
    reveal_strlit("watch");
    assert("previous"@.len() != "watch"@.len());
    reveal_strlit("stop");
    assert("previous"@.len() != "stop"@.len());
    reveal_strlit("toggle");
    assert("previous"@.len() != "toggle"@.len());
    reveal_strlit("seek");
    assert("previous"@.len() != "seek"@.len());
    reveal_strlit("next");
    assert("previous"@.len() != "next"@.len());
    reveal_strlit("prev");
    assert("previous"@.len() != "prev"@.len());
    reveal_strlit("load-playlist");
    assert("previous"@.len() != "load-playlist"@.len());
    reveal_strlit("load-playlist-by-txt-file");
    assert("previous"@.len() != "load-playlist-by-txt-file"@.len());
    reveal_strlit("switch-playlist");
    assert("previous"@.len() != "switch-playlist"@.len());
    reveal_strlit("save-playlist");
    assert("previous"@.len() != "save-playlist"@.len());
    reveal_strlit("add");
    assert("previous"@.len() != "add"@.len());
    reveal_strlit("clear");
    assert("previous"@.len() != "clear"@.len());
    reveal_strlit("remove");
    assert("previous"@.len() != "remove"@.len());
    reveal_strlit("move");
    assert("previous"@.len() != "move"@.len());
    reveal_strlit("shuffle");
    assert("previous"@.len() != "shuffle"@.len());
    reveal_strlit("play");
    assert("previous"@.len() != "play"@.len());
    reveal_strlit("help");
    assert("previous"@.len() != "help"@.len());
    reveal_strlit("--help");
    assert("previous"@.len() != "--help"@.len());
    reveal_strlit("-h");
    assert("previous"@.len() != "-h"@.len());
    reveal_strlit("version");
    assert("previous"@.len() != "version"@.len());
    reveal_strlit("--version");
    assert("previous"@.len() != "--version"@.len());
    reveal_strlit("-V");
    assert("previous"@.len() != "-V"@.len());
    reveal_strlit("--socket");
    assert("previous"@[0] != "--socket"@[0]);
    reveal_strlit("--socket-path");
    assert("previous"@.len() != "--socket-path"@.len());
    assert(is_socket_flag("--socket"@));
    lemma_split_without_socket(seq!["previous"@], 1);
    assert(seq!["previous"@].subrange(1, 1) =~= Seq::<Seq<char>>::empty());
    lemma_split_socket_only(seq!["previous"@, "--socket"@, s]);
}

/// The client's `prev` asks for its own request, with or without a socket
/// option after it.
pub proof fn lemma_cli_prev(s: Seq<char>)
    ensures
        cli_command_of(seq!["prev"@]) == Ok::<(CliChoice, Option<Seq<char>>), Seq<char>>((CliChoice::Previous, None)),
        cli_command_of(seq!["prev"@, "--socket"@, s]) == Ok::<(CliChoice, Option<Seq<char>>), Seq<char>>((CliChoice::Previous, Some(s))),
{
    reveal_strlit("prev");
    reveal_strlit("status");
    assert("prev"@.len() != "status"@.len());
    reveal_strlit("watch");
    assert("prev"@.len() != "watch"@.len());
    reveal_strlit("stop");
    assert("prev"@[0] != "stop"@[0]);
    reveal_strlit("toggle");
    assert("prev"@.len() != "toggle"@.len());
    reveal_strlit("seek");
    assert("prev"@[0] != "seek"@[0]);
    reveal_strlit("next");
    assert("prev"@[0] != "next"@[0]);
    reveal_strlit("previous");
    assert("prev"@.len() != "previous"@.len());
    reveal_strlit("load-playlist");
    assert("prev"@.len() != "load-playlist"@.len());
    reveal_strlit("load-playlist-by-txt-file");
    assert("prev"@.len() != "load-playlist-by-txt-file"@.len());
    reveal_strlit("switch-playlist");
    assert("prev"@.len() != "switch-playlist"@.len());
    reveal_strlit("save-playlist");
    assert("prev"@.len() != "save-playlist"@.len());
    reveal_strlit("add");
    assert("prev"@.len() != "add"@.len());
    reveal_strlit("clear");
    assert("prev"@.len() != "clear"@.len());
    reveal_strlit("remove");
    assert("prev"@.len() != "remove"@.len());
    reveal_strlit("move");
    assert("prev"@[0] != "move"@[0]);
    reveal_strlit("shuffle");
    assert("prev"@.len() != "shuffle"@.len());
    reveal_strlit("play");
    assert("prev"@[1] != "play"@[1]);
    reveal_strlit("help");
    assert("prev"@[0] != "help"@[0]);
    reveal_strlit("--help");
    assert("prev"@.len() != "--help"@.len());
    reveal_strlit("-h");
    assert("prev"@.len() != "-h"@.len());
    reveal_strlit("version");
    assert("prev"@.len() != "version"@.len());
    reveal_strlit("--version");
    assert("prev"@.len() != "--version"@.len());
    reveal_strlit("-V");
    assert("prev"@.len() != "-V"@.len());
    reveal_strlit("--socket");
    assert("prev"@.len() != "--socket"@.len());
    reveal_strlit("--socket-path");
    assert("prev"@.len() != "--socket-path"@.len());
    assert(is_socket_flag("--socket"@));
    lemma_split_without_socket(seq!["prev"@], 1);
    assert(seq!["prev"@].subrange(1, 1) =~= Seq::<Seq<char>>::empty());
    lemma_split_socket_only(seq!["prev"@, "--socket"@, s]);
}

/// The client's `clear` asks for its own request, with or without a socket
/// option after it.
pub proof fn lemma_cli_clear(s: Seq<char>)
    ensures
        cli_command_of(seq!["clear"@]) == Ok::<(CliChoice, Option<Seq<char>>), Seq<char>>((CliChoice::Clear, None)),
        cli_command_of(seq!["clear"@, "--socket"@, s]) == Ok::<(CliChoice, Option<Seq<char>>), Seq<char>>((CliChoice::Clear, Some(s))),
{
    reveal_strlit("clear");
    reveal_strlit("status");
    assert("clear"@.len() != "status"@.len());
    reveal_strlit("watch");
    assert("clear"@[0] != "watch"@[0]);
    reveal_strlit("stop");
    assert("clear"@.len() != "stop"@.len());
    reveal_strlit("toggle");
    assert("clear"@.len() != "toggle"@.len());
    reveal_strlit("seek");
    assert("clear"@.len() != "seek"@.len());
    reveal_strlit("next");
    assert("clear"@.len() != "next"@.len());
    reveal_strlit("previous");
    assert("clear"@.len() != "previous"@.len());
    reveal_strlit("prev");
    assert("clear"@.len() != "prev"@.len());
    reveal_strlit("load-playlist");
    assert("clear"@.len() != "load-playlist"@.len());
    reveal_strlit("load-playlist-by-txt-file");
    assert("clear"@.len() != "load-playlist-by-txt-file"@.len());
    reveal_strlit("switch-playlist");
    assert("clear"@.len() != "switch-playlist"@.len());
    reveal_strlit("save-playlist");
    assert("clear"@.len() != "save-playlist"@.len());
    reveal_strlit("add");
    assert("clear"@.len() != "add"@.len());
    reveal_strlit("remove");
    assert("clear"@.len() != "remove"@.len());
    reveal_strlit("move");
    assert("clear"@.len() != "move"@.len());
    reveal_strlit("shuffle");
    assert("clear"@.len() != "shuffle"@.len());
    reveal_strlit("play");
    assert("clear"@.len() != "play"@.len());
    reveal_strlit("help");
    assert("clear"@.len() != "help"@.len());
    reveal_strlit("--help");
    assert("clear"@.len() != "--help"@.len());
    reveal_strlit("-h");
    assert("clear"@.len() != "-h"@.len());
    reveal_strlit("version");
    assert("clear"@.len() != "version"@.len());
    reveal_strlit("--version");
    assert("clear"@.len() != "--version"@.len());
    reveal_strlit("-V");
    assert("clear"@.len() != "-V"@.len());
    reveal_strlit("--socket");
    assert("clear"@.len() != "--socket"@.len());
    reveal_strlit("--socket-path");
    assert("clear"@.len() != "--socket-path"@.len());
    assert(is_socket_flag("--socket"@));
    lemma_split_without_socket(seq!["clear"@], 1);
    assert(seq!["clear"@].subrange(1, 1) =~= Seq::<Seq<char>>::empty());
    lemma_split_socket_only(seq!["clear"@, "--socket"@, s]);
}

/// The client's `shuffle` asks for its own request, with or without a socket
/// option after it.
pub proof fn lemma_cli_shuffle(s: Seq<char>)
    ensures
        cli_command_of(seq!["shuffle"@]) == Ok::<(CliChoice, Option<Seq<char>>), Seq<char>>((CliChoice::Shuffle, None)),
        cli_command_of(seq!["shuffle"@, "--socket"@, s]) == Ok::<(CliChoice, Option<Seq<char>>), Seq<char>>((CliChoice::Shuffle, Some(s))),
{
    reveal_strlit("shuffle");
    reveal_strlit("status");
    assert("shuffle"@.len() != "status"@.len());
    reveal_strlit("watch");
    assert("shuffle"@.len() != "watch"@.len());
    reveal_strlit("stop");
    assert("shuffle"@.len() != "stop"@.len());
    reveal_strlit("toggle");
    assert("shuffle"@.len() != "toggle"@.len());
    reveal_strlit("seek");
    assert("shuffle"@.len() != "seek"@.len());
    reveal_strlit("next");
    assert("shuffle"@.len() != "next"@.len());
    reveal_strlit("previous");
    assert("shuffle"@.len() != "previous"@.len());
    reveal_strlit("prev");
    assert("shuffle"@.len() != "prev"@.len());
    reveal_strlit("load-playlist");
    assert("shuffle"@.len() != "load-playlist"@.len());
    reveal_strlit("load-playlist-by-txt-file");
    assert("shuffle"@.len() != "load-playlist-by-txt-file"@.len());
    reveal_strlit("switch-playlist");
    assert("shuffle"@.len() != "switch-playlist"@.len());
    reveal_strlit("save-playlist");
    assert("shuffle"@.len() != "save-playlist"@.len());
    reveal_strlit("add");
    assert("shuffle"@.len() != "add"@.len());
    reveal_strlit("clear");
    assert("shuffle"@.len() != "clear"@.len());
    reveal_strlit("remove");
    assert("shuffle"@.len() != "remove"@.len());
    reveal_strlit("move");
    assert("shuffle"@.len() != "move"@.len());
    reveal_strlit("play");
    assert("shuffle"@.len() != "play"@.len());
    reveal_strlit("help");
    assert("shuffle"@.len() != "help"@.len());
    reveal_strlit("--help");
    assert("shuffle"@.len() != "--help"@.len());
    reveal_strlit("-h");
    assert("shuffle"@.len() != "-h"@.len());
    reveal_strlit("version");
    assert("shuffle"@[0] != "version"@[0]);
    reveal_strlit("--version");
    assert("shuffle"@.len() != "--version"@.len());
    reveal_strlit("-V");
    assert("shuffle"@.len() != "-V"@.len());
    reveal_strlit("--socket");
    assert("shuffle"@.len() != "--socket"@.len());
    reveal_strlit("--socket-path");
    assert("shuffle"@.len() != "--socket-path"@.len());
    assert(is_socket_flag("--socket"@));
    lemma_split_without_socket(seq!["shuffle"@], 1);
    assert(seq!["shuffle"@].subrange(1, 1) =~= Seq::<Seq<char>>::empty());
    lemma_split_socket_only(seq!["shuffle"@, "--socket"@, s]);
}

/// The client's `help` asks for its own request, with or without a socket
/// option after it.
pub proof fn lemma_cli_help(s: Seq<char>)
    ensures
        cli_command_of(seq!["help"@]) == Ok::<(CliChoice, Option<Seq<char>>), Seq<char>>((CliChoice::Help, None)),
        cli_command_of(seq!["help"@, "--socket"@, s]) == Ok::<(CliChoice, Option<Seq<char>>), Seq<char>>((CliChoice::Help, Some(s))),
{
    reveal_strlit("help");
    reveal_strlit("status");
    assert("help"@.len() != "status"@.len());
    reveal_strlit("watch");
    assert("help"@.len() != "watch"@.len());
    reveal_strlit("stop");
    assert("help"@[0] != "stop"@[0]);
    reveal_strlit("toggle");
    assert("help"@.len() != "toggle"@.len());
    reveal_strlit("seek");
    assert("help"@[0] != "seek"@[0]);
    reveal_strlit("next");
    assert("help"@[0] != "next"@[0]);
    reveal_strlit("previous");
    assert("help"@.len() != "previous"@.len());
    reveal_strlit("prev");
    assert("help"@[0] != "prev"@[0]);
    reveal_strlit("load-playlist");
    assert("help"@.len() != "load-playlist"@.len());
    reveal_strlit("load-playlist-by-txt-file");
    assert("help"@.len() != "load-playlist-by-txt-file"@.len());
    reveal_strlit("switch-playlist");
    assert("help"@.len() != "switch-playlist"@.len());
    reveal_strlit("save-playlist");
    assert("help"@.len() != "save-playlist"@.len());
    reveal_strlit("add");
    assert("help"@.len() != "add"@.len());
    reveal_strlit("clear");
    assert("help"@.len() != "clear"@.len());
    reveal_strlit("remove");
    assert("help"@.len() != "remove"@.len());
    reveal_strlit("move");
    assert("help"@[0] != "move"@[0]);
    reveal_strlit("shuffle");
    assert("help"@.len() != "shuffle"@.len());
    reveal_strlit("play");
    assert("help"@[0] != "play"@[0]);
    reveal_strlit("--help");
    assert("help"@.len() != "--help"@.len());
    reveal_strlit("-h");
    assert("help"@.len() != "-h"@.len());
    reveal_strlit("version");
    assert("help"@.len() != "version"@.len());
    reveal_strlit("--version");
    assert("help"@.len() != "--version"@.len());
    reveal_strlit("-V");
    assert("help"@.len() != "-V"@.len());
    reveal_strlit("--socket");
    assert("help"@.len() != "--socket"@.len());
    reveal_strlit("--socket-path");
    assert("help"@.len() != "--socket-path"@.len());
    assert(is_socket_flag("--socket"@));
    lemma_split_without_socket(seq!["help"@], 1);
    assert(seq!["help"@].subrange(1, 1) =~= Seq::<Seq<char>>::empty());
    lemma_split_socket_only(seq!["help"@, "--socket"@, s]);
}

/// The client's `--help` asks for its own request, with or without a socket
/// option after it.
pub proof fn lemma_cli_help_flag(s: Seq<char>)
    ensures
        cli_command_of(seq!["--help"@]) == Ok::<(CliChoice, Option<Seq<char>>), Seq<char>>((CliChoice::Help, None)),
        cli_command_of(seq!["--help"@, "--socket"@, s]) == Ok::<(CliChoice, Option<Seq<char>>), Seq<char>>((CliChoice::Help, Some(s))),
{
    reveal_strlit("--help");
    reveal_strlit("status");
    assert("--help"@[0] != "status"@[0]);
    reveal_strlit("watch");
    assert("--help"@.len() != "watch"@.len());
    reveal_strlit("stop");
    assert("--help"@.len() != "stop"@.len());
    reveal_strlit("toggle");
    assert("--help"@[0] != "toggle"@[0]);
    reveal_strlit("seek");
    assert("--help"@.len() != "seek"@.len());
    reveal_strlit("next");
    assert("--help"@.len() != "next"@.len());
    reveal_strlit("previous");
    assert("--help"@.len() != "previous"@.len());
    reveal_strlit("prev");
    assert("--help"@.len() != "prev"@.len());
    reveal_strlit("load-playlist");
    assert("--help"@.len() != "load-playlist"@.len());
    reveal_strlit("load-playlist-by-txt-file");
    assert("--help"@.len() != "load-playlist-by-txt-file"@.len());
    reveal_strlit("switch-playlist");
    assert("--help"@.len() != "switch-playlist"@.len());
    reveal_strlit("save-playlist");
    assert("--help"@.len() != "save-playlist"@.len());
    reveal_strlit("add");
    assert("--help"@.len() != "add"@.len());
    reveal_strlit("clear");
    assert("--help"@.len() != "clear"@.len());
    reveal_strlit("remove");
    assert("--help"@[0] != "remove"@[0]);
    reveal_strlit("move");
    assert("--help"@.len() != "move"@.len());
    reveal_strlit("shuffle");
    assert("--help"@.len() != "shuffle"@.len());
    reveal_strlit("play");
    assert("--help"@.len() != "play"@.len());
    reveal_strlit("help");
    assert("--help"@.len() != "help"@.len());
    reveal_strlit("-h");
    assert("--help"@.len() != "-h"@.len());
    reveal_strlit("version");
    assert("--help"@.len() != "version"@.len());
    reveal_strlit("--version");
    assert("--help"@.len() != "--version"@.len());
    reveal_strlit("-V");
    assert("--help"@.len() != "-V"@.len());
    reveal_strlit("--socket");
    assert("--help"@.len() != "--socket"@.len());
    reveal_strlit("--socket-path");
    assert("--help"@.len() != "--socket-path"@.len());
    assert(is_socket_flag("--socket"@));
    lemma_split_without_socket(seq!["--help"@], 1);
    assert(seq!["--help"@].subrange(1, 1) =~= Seq::<Seq<char>>::empty());
    lemma_split_socket_only(seq!["--help"@, "--socket"@, s]);
}

/// The client's `-h` asks for its own request, with or without a socket
/// option after it.
pub proof fn lemma_cli_h_short(s: Seq<char>)
    ensures
        cli_command_of(seq!["-h"@]) == Ok::<(CliChoice, Option<Seq<char>>), Seq<char>>((CliChoice::Help, None)),
        cli_command_of(seq!["-h"@, "--socket"@, s]) == Ok::<(CliChoice, Option<Seq<char>>), Seq<char>>((CliChoice::Help, Some(s))),
{
    reveal_strlit("-h");
    reveal_strlit("status");
    assert("-h"@.len() != "status"@.len());
    reveal_strlit("watch");
    assert("-h"@.len() != "watch"@.len());
    reveal_strlit("stop");
    assert("-h"@.len() != "stop"@.len());
    reveal_strlit("toggle");
    assert("-h"@.len() != "toggle"@.len());
    reveal_strlit("seek");
    assert("-h"@.len() != "seek"@.len());
    reveal_strlit("next");
    assert("-h"@.len() != "next"@.len());
    reveal_strlit("previous");
    assert("-h"@.len() != "previous"@.len());
    reveal_strlit("prev");
    assert("-h"@.len() != "prev"@.len());
    reveal_strlit("load-playlist");
    assert("-h"@.len() != "load-playlist"@.len());
    reveal_strlit("load-playlist-by-txt-file");
    assert("-h"@.len() != "load-playlist-by-txt-file"@.len());
    reveal_strlit("switch-playlist");
    assert("-h"@.len() != "switch-playlist"@.len());
    reveal_strlit("save-playlist");
    assert("-h"@.len() != "save-playlist"@.len());
    reveal_strlit("add");
    assert("-h"@.len() != "add"@.len());
    reveal_strlit("clear");
    assert("-h"@.len() != "clear"@.len());
    reveal_strlit("remove");
    assert("-h"@.len() != "remove"@.len());
    reveal_strlit("move");
    assert("-h"@.len() != "move"@.len());
    reveal_strlit("shuffle");
    assert("-h"@.len() != "shuffle"@.len());
    reveal_strlit("play");
    assert("-h"@.len() != "play"@.len());
    reveal_strlit("help");
    assert("-h"@.len() != "help"@.len());
    reveal_strlit("--help");
    assert("-h"@.len() != "--help"@.len());
    reveal_strlit("version");
    assert("-h"@.len() != "version"@.len());
    reveal_strlit("--version");
    assert("-h"@.len() != "--version"@.len());
    reveal_strlit("-V");
    assert("-h"@[1] != "-V"@[1]);
    reveal_strlit("--socket");
    assert("-h"@.len() != "--socket"@.len());
    reveal_strlit("--socket-path");
    assert("-h"@.len() != "--socket-path"@.len());
    assert(is_socket_flag("--socket"@));
    lemma_split_without_socket(seq!["-h"@], 1);
    assert(seq!["-h"@].subrange(1, 1) =~= Seq::<Seq<char>>::empty());
    lemma_split_socket_only(seq!["-h"@, "--socket"@, s]);
}

/// The client's `version` asks for its own request, with or without a socket
/// option after it.
pub proof fn lemma_cli_version(s: Seq<char>)
    ensures
        cli_command_of(seq!["version"@]) == Ok::<(CliChoice, Option<Seq<char>>), Seq<char>>((CliChoice::Version, None)),
        cli_command_of(seq!["version"@, "--socket"@, s]) == Ok::<(CliChoice, Option<Seq<char>>), Seq<char>>((CliChoice::Version, Some(s))),
{
    reveal_strlit("version");
    reveal_strlit("status");
    assert("version"@.len() != "status"@.len());
    reveal_strlit("watch");
    assert("version"@.len() != "watch"@.len());
    reveal_strlit("stop");
    assert("version"@.len() != "stop"@.len());
    reveal_strlit("toggle");
    assert("version"@.len() != "toggle"@.len());
    reveal_strlit("seek");
    assert("version"@.len() != "seek"@.len());
    reveal_strlit("next");
    assert("version"@.len() != "next"@.len());
    reveal_strlit("previous");
    assert("version"@.len() != "previous"@.len());
    reveal_strlit("prev");
    assert("version"@.len() != "prev"@.len());
    reveal_strlit("load-playlist");
    assert("version"@.len() != "load-playlist"@.len());
    reveal_strlit("load-playlist-by-txt-file");
    assert("version"@.len() != "load-playlist-by-txt-file"@.len());
    reveal_strlit("switch-playlist");
    assert("version"@.len() != "switch-playlist"@.len());
    reveal_strlit("save-playlist");
    assert("version"@.len() != "save-playlist"@.len());
    reveal_strlit("add");
    assert("version"@.len() != "add"@.len());
    reveal_strlit("clear");
    assert("version"@.len() != "clear"@.len());
    reveal_strlit("remove");
    assert("version"@.len() != "remove"@.len());
    reveal_strlit("move");
    assert("version"@.len() != "move"@.len());
    reveal_strlit("shuffle");
    assert("version"@[0] != "shuffle"@[0]);
    reveal_strlit("play");
    assert("version"@.len() != "play"@.len());
    reveal_strlit("help");
    assert("version"@.len() != "help"@.len());
    reveal_strlit("--help");
    assert("version"@.len() != "--help"@.len());
    reveal_strlit("-h");
    assert("version"@.len() != "-h"@.len());
    reveal_strlit("--version");
    assert("version"@.len() != "--version"@.len());
    reveal_strlit("-V");
    assert("version"@.len() != "-V"@.len());
    reveal_strlit("--socket");
    assert("version"@.len() != "--socket"@.len());
    reveal_strlit("--socket-path");
    assert("version"@.len() != "--socket-path"@.len());
    assert(is_socket_flag("--socket"@));
    lemma_split_without_socket(seq!["version"@], 1);
    assert(seq!["version"@].subrange(1, 1) =~= Seq::<Seq<char>>::empty());
    lemma_split_socket_only(seq!["version"@, "--socket"@, s]);
}

/// The client's `--version` asks for its own request, with or without a socket
/// option after it.
pub proof fn lemma_cli_version_flag(s: Seq<char>)
    ensures
        cli_command_of(seq!["--version"@]) == Ok::<(CliChoice, Option<Seq<char>>), Seq<char>>((CliChoice::Version, None)),
        cli_command_of(seq!["--version"@, "--socket"@, s]) == Ok::<(CliChoice, Option<Seq<char>>), Seq<char>>((CliChoice::Version, Some(s))),
{
    reveal_strlit("--version");
    reveal_strlit("status");
    assert("--version"@.len() != "status"@.len());
    reveal_strlit("watch");
    assert("--version"@.len() != "watch"@.len());
    reveal_strlit("stop");
    assert("--version"@.len() != "stop"@.len());
    reveal_strlit("toggle");
    assert("--version"@.len() != "toggle"@.len());
    reveal_strlit("seek");
    assert("--version"@.len() != "seek"@.len());
    reveal_strlit("next");
    assert("--version"@.len() != "next"@.len());
    reveal_strlit("previous");
    assert("--version"@.len() != "previous"@.len());
    reveal_strlit("prev");
    assert("--version"@.len() != "prev"@.len());
    reveal_strlit("load-playlist");
    assert("--version"@.len() != "load-playlist"@.len());
    reveal_strlit("load-playlist-by-txt-file");
    assert("--version"@.len() != "load-playlist-by-txt-file"@.len());
    reveal_strlit("switch-playlist");
    assert("--version"@.len() != "switch-playlist"@.len());
    reveal_strlit("save-playlist");
    assert("--version"@.len() != "save-playlist"@.len());
    reveal_strlit("add");
    assert("--version"@.len() != "add"@.len());
    reveal_strlit("clear");
    assert("--version"@.len() != "clear"@.len());
    reveal_strlit("remove");
    assert("--version"@.len() != "remove"@.len());
    reveal_strlit("move");
    assert("--version"@.len() != "move"@.len());
    reveal_strlit("shuffle");
    assert("--version"@.len() != "shuffle"@.len());
    reveal_strlit("play");
    assert("--version"@.len() != "play"@.len());
    reveal_strlit("help");
    assert("--version"@.len() != "help"@.len());
    reveal_strlit("--help");
    assert("--version"@.len() != "--help"@.len());
    reveal_strlit("-h");
    assert("--version"@.len() != "-h"@.len());
    reveal_strlit("version");
    assert("--version"@.len() != "version"@.len());
    reveal_strlit("-V");
    assert("--version"@.len() != "-V"@.len());
    reveal_strlit("--socket");
    assert("--version"@.len() != "--socket"@.len());
    reveal_strlit("--socket-path");
    assert("--version"@.len() != "--socket-path"@.len());
    assert(is_socket_flag("--socket"@));
    lemma_split_without_socket(seq!["--version"@], 1);
    assert(seq!["--version"@].subrange(1, 1) =~= Seq::<Seq<char>>::empty());
    lemma_split_socket_only(seq!["--version"@, "--socket"@, s]);
}

/// The client's `-V` asks for its own request, with or without a socket
/// option after it.
pub proof fn lemma_cli_v_short(s: Seq<char>)
    ensures
        cli_command_of(seq!["-V"@]) == Ok::<(CliChoice, Option<Seq<char>>), Seq<char>>((CliChoice::Version, None)),
        cli_command_of(seq!["-V"@, "--socket"@, s]) == Ok::<(CliChoice, Option<Seq<char>>), Seq<char>>((CliChoice::Version, Some(s))),
{
    reveal_strlit("-V");
    reveal_strlit("status");
    assert("-V"@.len() != "status"@.len());
    reveal_strlit("watch");
    assert("-V"@.len() != "watch"@.len());
    reveal_strlit("stop");
    assert("-V"@.len() != "stop"@.len());
    reveal_strlit("toggle");
    assert("-V"@.len() != "toggle"@.len());
    reveal_strlit("seek");
    assert("-V"@.len() != "seek"@.len());
    reveal_strlit("next");
    assert("-V"@.len() != "next"@.len());
    reveal_strlit("previous");
    assert("-V"@.len() != "previous"@.len());
    reveal_strlit("prev");
    assert("-V"@.len() != "prev"@.len());
    reveal_strlit("load-playlist");
    assert("-V"@.len() != "load-playlist"@.len());
    reveal_strlit("load-playlist-by-txt-file");
    assert("-V"@.len() != "load-playlist-by-txt-file"@.len());
    reveal_strlit("switch-playlist");
    assert("-V"@.len() != "switch-playlist"@.len());
    reveal_strlit("save-playlist");
    assert("-V"@.len() != "save-playlist"@.len());
    reveal_strlit("add");
    assert("-V"@.len() != "add"@.len());
    reveal_strlit("clear");
    assert("-V"@.len() != "clear"@.len());
    reveal_strlit("remove");
    assert("-V"@.len() != "remove"@.len());
    reveal_strlit("move");
    assert("-V"@.len() != "move"@.len());
    reveal_strlit("shuffle");
    assert("-V"@.len() != "shuffle"@.len());
    reveal_strlit("play");
    assert("-V"@.len() != "play"@.len());
    reveal_strlit("help");
    assert("-V"@.len() != "help"@.len());
    reveal_strlit("--help");
    assert("-V"@.len() != "--help"@.len());
    reveal_strlit("-h");
    assert("-V"@[1] != "-h"@[1]);
    reveal_strlit("version");
    assert("-V"@.len() != "version"@.len());
    reveal_strlit("--version");
    assert("-V"@.len() != "--version"@.len());
    reveal_strlit("--socket");
    assert("-V"@.len() != "--socket"@.len());
    reveal_strlit("--socket-path");
    assert("-V"@.len() != "--socket-path"@.len());
    assert(is_socket_flag("--socket"@));
    lemma_split_without_socket(seq!["-V"@], 1);
    assert(seq!["-V"@].subrange(1, 1) =~= Seq::<Seq<char>>::empty());
    lemma_split_socket_only(seq!["-V"@, "--socket"@, s]);
}

/// The client's `add` asks for its own request with the text after it.
pub proof fn lemma_cli_add(v: Seq<char>)
    requires
        !is_socket_flag(v),
    ensures
        cli_command_of(seq!["add"@, v]) == Ok::<(CliChoice, Option<Seq<char>>), Seq<char>>((CliChoice::Add(v), None)),
{
    reveal_strlit("add");
    reveal_strlit("status");
    assert("add"@.len() != "status"@.len());
    reveal_strlit("watch");
    assert("add"@.len() != "watch"@.len());
    reveal_strlit("stop");
    assert("add"@.len() != "stop"@.len());
    reveal_strlit("toggle");
    assert("add"@.len() != "toggle"@.len());
    reveal_strlit("seek");
    assert("add"@.len() != "seek"@.len());
    reveal_strlit("next");
    assert("add"@.len() != "next"@.len());
    reveal_strlit("previous");
    assert("add"@.len() != "previous"@.len());
    reveal_strlit("prev");
    assert("add"@.len() != "prev"@.len());
    reveal_strlit("load-playlist");
    assert("add"@.len() != "load-playlist"@.len());
    reveal_strlit("load-playlist-by-txt-file");
    assert("add"@.len() != "load-playlist-by-txt-file"@.len());
    reveal_strlit("switch-playlist");
    assert("add"@.len() != "switch-playlist"@.len());
    reveal_strlit("save-playlist");
    assert("add"@.len() != "save-playlist"@.len());
    reveal_strlit("clear");
    assert("add"@.len() != "clear"@.len());
    reveal_strlit("remove");
    assert("add"@.len() != "remove"@.len());
    reveal_strlit("move");
    assert("add"@.len() != "move"@.len());
    reveal_strlit("shuffle");
    assert("add"@.len() != "shuffle"@.len());
    reveal_strlit("play");
    assert("add"@.len() != "play"@.len());
    reveal_strlit("help");
    assert("add"@.len() != "help"@.len());
    reveal_strlit("--help");
    assert("add"@.len() != "--help"@.len());
    reveal_strlit("-h");
    assert("add"@.len() != "-h"@.len());
    reveal_strlit("version");
    assert("add"@.len() != "version"@.len());
    reveal_strlit("--version");
    assert("add"@.len() != "--version"@.len());
    reveal_strlit("-V");
    assert("add"@.len() != "-V"@.len());
    reveal_strlit("--socket");
    assert("add"@.len() != "--socket"@.len());
    reveal_strlit("--socket-path");
    assert("add"@.len() != "--socket-path"@.len());
    lemma_split_without_socket(seq!["add"@, v], 1);
    assert(seq!["add"@, v].subrange(1, 2) =~= seq![v]);
}

/// The client's `load-playlist` asks for its own request with the text after it.
pub proof fn lemma_cli_load_playlist(v: Seq<char>)
    requires
        !is_socket_flag(v),
    ensures
        cli_command_of(seq!["load-playlist"@, v]) == Ok::<(CliChoice, Option<Seq<char>>), Seq<char>>((CliChoice::LoadPlaylist(v), None)),
{
    reveal_strlit("load-playlist");
    reveal_strlit("status");
    assert("load-playlist"@.len() != "status"@.len());
    reveal_strlit("watch");
    assert("load-playlist"@.len() != "watch"@.len());
    reveal_strlit("stop");
    assert("load-playlist"@.len() != "stop"@.len());
    reveal_strlit("toggle");
    assert("load-playlist"@.len() != "toggle"@.len());
    reveal_strlit("seek");
    assert("load-playlist"@.len() != "seek"@.len());
    reveal_strlit("next");
    assert("load-playlist"@.len() != "next"@.len());
    reveal_strlit("previous");
    assert("load-playlist"@.len() != "previous"@.len());
    reveal_strlit("prev");
    assert("load-playlist"@.len() != "prev"@.len());
    reveal_strlit("load-playlist-by-txt-file");
    assert("load-playlist"@.len() != "load-playlist-by-txt-file"@.len());
    reveal_strlit("switch-playlist");
    assert("load-playlist"@.len() != "switch-playlist"@.len());
    reveal_strlit("save-playlist");
    assert("load-playlist"@[0] != "save-playlist"@[0]);
    reveal_strlit("add");
    assert("load-playlist"@.len() != "add"@.len());
    reveal_strlit("clear");
    assert("load-playlist"@.len() != "clear"@.len());
    reveal_strlit("remove");
    assert("load-playlist"@.len() != "remove"@.len());
    reveal_strlit("move");
    assert("load-playlist"@.len() != "move"@.len());
    reveal_strlit("shuffle");
    assert("load-playlist"@.len() != "shuffle"@.len());
    reveal_strlit("play");
    assert("load-playlist"@.len() != "play"@.len());
    reveal_strlit("help");
    assert("load-playlist"@.len() != "help"@.len());
    reveal_strlit("--help");
    assert("load-playlist"@.len() != "--help"@.len());
    reveal_strlit("-h");
    assert("load-playlist"@.len() != "-h"@.len());
    reveal_strlit("version");
    assert("load-playlist"@.len() != "version"@.len());
    reveal_strlit("--version");
    assert("load-playlist"@.len() != "--version"@.len());
    reveal_strlit("-V");
    assert("load-playlist"@.len() != "-V"@.len());
    reveal_strlit("--socket");
    assert("load-playlist"@.len() != "--socket"@.len());
    reveal_strlit("--socket-path");
    assert("load-playlist"@[0] != "--socket-path"@[0]);
    lemma_split_without_socket(seq!["load-playlist"@, v], 1);
    assert(seq!["load-playlist"@, v].subrange(1, 2) =~= seq![v]);
}

/// The client's `load-playlist-by-txt-file` asks for its own request with the text after it.
pub proof fn lemma_cli_load_playlist_by_txt_file(v: Seq<char>)
    requires
        !is_socket_flag(v),
    ensures
        cli_command_of(seq!["load-playlist-by-txt-file"@, v]) == Ok::<(CliChoice, Option<Seq<char>>), Seq<char>>((CliChoice::LoadPlaylist(v), None)),
{
    reveal_strlit("load-playlist-by-txt-file");
    reveal_strlit("status");
    assert("load-playlist-by-txt-file"@.len() != "status"@.len());
    reveal_strlit("watch");
    assert("load-playlist-by-txt-file"@.len() != "watch"@.len());
    reveal_strlit("stop");
    assert("load-playlist-by-txt-file"@.len() != "stop"@.len());
    reveal_strlit("toggle");
    assert("load-playlist-by-txt-file"@.len() != "toggle"@.len());
    reveal_strlit("seek");
    assert("load-playlist-by-txt-file"@.len() != "seek"@.len());
    reveal_strlit("next");
    assert("load-playlist-by-txt-file"@.len() != "next"@.len());
    reveal_strlit("previous");
    assert("load-playlist-by-txt-file"@.len() != "previous"@.len());
    reveal_strlit("prev");
    assert("load-playlist-by-txt-file"@.len() != "prev"@.len());
    reveal_strlit("load-playlist");
    assert("load-playlist-by-txt-file"@.len() != "load-playlist"@.len());
    reveal_strlit("switch-playlist");
    assert("load-playlist-by-txt-file"@.len() != "switch-playlist"@.len());
    reveal_strlit("save-playlist");
    assert("load-playlist-by-txt-file"@.len() != "save-playlist"@.len());
    reveal_strlit("add");
    assert("load-playlist-by-txt-file"@.len() != "add"@.len());
    reveal_strlit("clear");
    assert("load-playlist-by-txt-file"@.len() != "clear"@.len());
    reveal_strlit("remove");
    assert("load-playlist-by-txt-file"@.len() != "remove"@.len());
    reveal_strlit("move");
    assert("load-playlist-by-txt-file"@.len() != "move"@.len());
    reveal_strlit("shuffle");
    assert("load-playlist-by-txt-file"@.len() != "shuffle"@.len());
    reveal_strlit("play");
    assert("load-playlist-by-txt-file"@.len() != "play"@.len());
    reveal_strlit("help");
    assert("load-playlist-by-txt-file"@.len() != "help"@.len());
    reveal_strlit("--help");
    assert("load-playlist-by-txt-file"@.len() != "--help"@.len());
    reveal_strlit("-h");
    assert("load-playlist-by-txt-file"@.len() != "-h"@.len());
    reveal_strlit("version");
    assert("load-playlist-by-txt-file"@.len() != "version"@.len());
    reveal_strlit("--version");
    assert("load-playlist-by-txt-file"@.len() != "--version"@.len());
    reveal_strlit("-V");
    assert("load-playlist-by-txt-file"@.len() != "-V"@.len());
    reveal_strlit("--socket");
    assert("load-playlist-by-txt-file"@.len() != "--socket"@.len());
    reveal_strlit("--socket-path");
    assert("load-playlist-by-txt-file"@.len() != "--socket-path"@.len());
    lemma_split_without_socket(seq!["load-playlist-by-txt-file"@, v], 1);
    assert(seq!["load-playlist-by-txt-file"@, v].subrange(1, 2) =~= seq![v]);
}

/// The client's `switch-playlist` asks for its own request with the text after it.
pub proof fn lemma_cli_switch_playlist(v: Seq<char>)
    requires
        !is_socket_flag(v),
    ensures
        cli_command_of(seq!["switch-playlist"@, v]) == Ok::<(CliChoice, Option<Seq<char>>), Seq<char>>((CliChoice::SwitchPlaylist(v), None)),
{
    reveal_strlit("switch-playlist");
    reveal_strlit("status");
    assert("switch-playlist"@.len() != "status"@.len());
    reveal_strlit("watch");
    assert("switch-playlist"@.len() != "watch"@.len());
    reveal_strlit("stop");
    assert("switch-playlist"@.len() != "stop"@.len());
    reveal_strlit("toggle");
    assert("switch-playlist"@.len() != "toggle"@.len());
    reveal_strlit("seek");
    assert("switch-playlist"@.len() != "seek"@.len());
    reveal_strlit("next");
    assert("switch-playlist"@.len() != "next"@.len());
    reveal_strlit("previous");
    assert("switch-playlist"@.len() != "previous"@.len());
    reveal_strlit("prev");
    assert("switch-playlist"@.len() != "prev"@.len());
    reveal_strlit("load-playlist");
    assert("switch-playlist"@.len() != "load-playlist"@.len());
    reveal_strlit("load-playlist-by-txt-file");
    assert("switch-playlist"@.len() != "load-playlist-by-txt-file"@.len());
    reveal_strlit("save-playlist");
    assert("switch-playlist"@.len() != "save-playlist"@.len());
    reveal_strlit("add");
    assert("switch-playlist"@.len() != "add"@.len());
    reveal_strlit("clear");
    assert("switch-playlist"@.len() != "clear"@.len());
    reveal_strlit("remove");
    assert("switch-playlist"@.len() != "remove"@.len());
    reveal_strlit("move");
    assert("switch-playlist"@.len() != "move"@.len());
    reveal_strlit("shuffle");
    assert("switch-playlist"@.len() != "shuffle"@.len());
    reveal_strlit("play");
    assert("switch-playlist"@.len() != "play"@.len());
    reveal_strlit("help");
    assert("switch-playlist"@.len() != "help"@.len());
    reveal_strlit("--help");
    assert("switch-playlist"@.len() != "--help"@.len());
    reveal_strlit("-h");
    assert("switch-playlist"@.len() != "-h"@.len());
    reveal_strlit("version");
    assert("switch-playlist"@.len() != "version"@.len());
    reveal_strlit("--version");
    assert("switch-playlist"@.len() != "--version"@.len());
    reveal_strlit("-V");
    assert("switch-playlist"@.len() != "-V"@.len());
    reveal_strlit("--socket");
    assert("switch-playlist"@.len() != "--socket"@.len());
    reveal_strlit("--socket-path");
    assert("switch-playlist"@.len() != "--socket-path"@.len());
    lemma_split_without_socket(seq!["switch-playlist"@, v], 1);
    assert(seq!["switch-playlist"@, v].subrange(1, 2) =~= seq![v]);
}

/// The client's `save-playlist` asks for its own request with the text after it.
pub proof fn lemma_cli_save_playlist(v: Seq<char>)
    requires
        !is_socket_flag(v),
    ensures
        cli_command_of(seq!["save-playlist"@, v]) == Ok::<(CliChoice, Option<Seq<char>>), Seq<char>>((CliChoice::SavePlaylist(v), None)),
{
    reveal_strlit("save-playlist");
    reveal_strlit("status");
    assert("save-playlist"@.len() != "status"@.len());
    reveal_strlit("watch");
    assert("save-playlist"@.len() != "watch"@.len());
    reveal_strlit("stop");
    assert("save-playlist"@.len() != "stop"@.len());
    reveal_strlit("toggle");
    assert("save-playlist"@.len() != "toggle"@.len());
    reveal_strlit("seek");
    assert("save-playlist"@.len() != "seek"@.len());
    reveal_strlit("next");
    assert("save-playlist"@.len() != "next"@.len());
    reveal_strlit("previous");
    assert("save-playlist"@.len() != "previous"@.len());
    reveal_strlit("prev");
    assert("save-playlist"@.len() != "prev"@.len());
    reveal_strlit("load-playlist");
    assert("save-playlist"@[0] != "load-playlist"@[0]);
    reveal_strlit("load-playlist-by-txt-file");
    assert("save-playlist"@.len() != "load-playlist-by-txt-file"@.len());
    reveal_strlit("switch-playlist");
    assert("save-playlist"@.len() != "switch-playlist"@.len());
    reveal_strlit("add");
    assert("save-playlist"@.len() != "add"@.len());
    reveal_strlit("clear");
    assert("save-playlist"@.len() != "clear"@.len());
    reveal_strlit("remove");
    assert("save-playlist"@.len() != "remove"@.len());
    reveal_strlit("move");
    assert("save-playlist"@.len() != "move"@.len());
    reveal_strlit("shuffle");
    assert("save-playlist"@.len() != "shuffle"@.len());
    reveal_strlit("play");
    assert("save-playlist"@.len() != "play"@.len());
    reveal_strlit("help");
    assert("save-playlist"@.len() != "help"@.len());
    reveal_strlit("--help");
    assert("save-playlist"@.len() != "--help"@.len());
    reveal_strlit("-h");
    assert("save-playlist"@.len() != "-h"@.len());
    reveal_strlit("version");
    assert("save-playlist"@.len() != "version"@.len());
    reveal_strlit("--version");
    assert("save-playlist"@.len() != "--version"@.len());
    reveal_strlit("-V");
    assert("save-playlist"@.len() != "-V"@.len());
    reveal_strlit("--socket");
    assert("save-playlist"@.len() != "--socket"@.len());
    reveal_strlit("--socket-path");
    assert("save-playlist"@[0] != "--socket-path"@[0]);
    lemma_split_without_socket(seq!["save-playlist"@, v], 1);
    assert(seq!["save-playlist"@, v].subrange(1, 2) =~= seq![v]);
}

/// The client's `seek` asks for its own request with the text after it.
pub proof fn lemma_cli_seek(v: Seq<char>)
    requires
        !is_socket_flag(v),
    ensures
        cli_command_of(seq!["seek"@, v]) == Ok::<(CliChoice, Option<Seq<char>>), Seq<char>>((CliChoice::Seek { seconds: Some(v), extra: false }, None)),
        cli_command_of(seq!["seek"@]) == Ok::<(CliChoice, Option<Seq<char>>), Seq<char>>((CliChoice::Seek { seconds: None, extra: false }, None)),
{
    reveal_strlit("seek");
    reveal_strlit("status");
    assert("seek"@.len() != "status"@.len());
    reveal_strlit("watch");
    assert("seek"@.len() != "watch"@.len());
    reveal_strlit("stop");
    assert("seek"@[1] != "stop"@[1]);
    reveal_strlit("toggle");
    assert("seek"@.len() != "toggle"@.len());
    reveal_strlit("next");
    assert("seek"@[0] != "next"@[0]);
    reveal_strlit("previous");
    assert("seek"@.len() != "previous"@.len());
    reveal_strlit("prev");
    assert("seek"@[0] != "prev"@[0]);
    reveal_strlit("load-playlist");
    assert("seek"@.len() != "load-playlist"@.len());
    reveal_strlit("load-playlist-by-txt-file");
    assert("seek"@.len() != "load-playlist-by-txt-file"@.len());
    reveal_strlit("switch-playlist");
    assert("seek"@.len() != "switch-playlist"@.len());
    reveal_strlit("save-playlist");
    assert("seek"@.len() != "save-playlist"@.len());
    reveal_strlit("add");
    assert("seek"@.len() != "add"@.len());
    reveal_strlit("clear");
    assert("seek"@.len() != "clear"@.len());
    reveal_strlit("remove");
    assert("seek"@.len() != "remove"@.len());
    reveal_strlit("move");
    assert("seek"@[0] != "move"@[0]);
    reveal_strlit("shuffle");
    assert("seek"@.len() != "shuffle"@.len());
    reveal_strlit("play");
    assert("seek"@[0] != "play"@[0]);
    reveal_strlit("help");
    assert("seek"@[0] != "help"@[0]);
    reveal_strlit("--help");
    assert("seek"@.len() != "--help"@.len());
    reveal_strlit("-h");
    assert("seek"@.len() != "-h"@.len());
    reveal_strlit("version");
    assert("seek"@.len() != "version"@.len());
    reveal_strlit("--version");
    assert("seek"@.len() != "--version"@.len());
    reveal_strlit("-V");
    assert("seek"@.len() != "-V"@.len());
    reveal_strlit("--socket");
    assert("seek"@.len() != "--socket"@.len());
    reveal_strlit("--socket-path");
    assert("seek"@.len() != "--socket-path"@.len());
    lemma_split_without_socket(seq!["seek"@, v], 1);
    assert(seq!["seek"@, v].subrange(1, 2) =~= seq![v]);
    lemma_split_without_socket(seq!["seek"@], 1);
    assert(seq!["seek"@].subrange(1, 1) =~= Seq::<Seq<char>>::empty());
}

/// The client's `remove` removes the item whose index was typed.
pub proof fn lemma_cli_remove(i: usize)
    ensures
        cli_command_of(seq!["remove"@, decimal(i as nat)]) == Ok::<(CliChoice, Option<Seq<char>>), Seq<char>>((CliChoice::Remove(i), None)),
{
    reveal_strlit("remove");
    reveal_strlit("status");
    assert("remove"@[0] != "status"@[0]);
    reveal_strlit("watch");
    assert("remove"@.len() != "watch"@.len());
    reveal_strlit("stop");
    assert("remove"@.len() != "stop"@.len());
    reveal_strlit("toggle");
    assert("remove"@[0] != "toggle"@[0]);
    reveal_strlit("seek");
    assert("remove"@.len() != "seek"@.len());
    reveal_strlit("next");
    assert("remove"@.len() != "next"@.len());
    reveal_strlit("previous");
    assert("remove"@.len() != "previous"@.len());
    reveal_strlit("prev");
    assert("remove"@.len() != "prev"@.len());
    reveal_strlit("load-playlist");
    assert("remove"@.len() != "load-playlist"@.len());
    reveal_strlit("load-playlist-by-txt-file");
    assert("remove"@.len() != "load-playlist-by-txt-file"@.len());
    reveal_strlit("switch-playlist");
    assert("remove"@.len() != "switch-playlist"@.len());
    reveal_strlit("save-playlist");
    assert("remove"@.len() != "save-playlist"@.len());
    reveal_strlit("add");
    assert("remove"@.len() != "add"@.len());
    reveal_strlit("clear");
    assert("remove"@.len() != "clear"@.len());
    reveal_strlit("move");
    assert("remove"@.len() != "move"@.len());
    reveal_strlit("shuffle");
    assert("remove"@.len() != "shuffle"@.len());
    reveal_strlit("play");
    assert("remove"@.len() != "play"@.len());
    reveal_strlit("help");
    assert("remove"@.len() != "help"@.len());
    reveal_strlit("--help");
    assert("remove"@[0] != "--help"@[0]);
    reveal_strlit("-h");
    assert("remove"@.len() != "-h"@.len());
    reveal_strlit("version");
    assert("remove"@.len() != "version"@.len());
    reveal_strlit("--version");
    assert("remove"@.len() != "--version"@.len());
    reveal_strlit("-V");
    assert("remove"@.len() != "-V"@.len());
    reveal_strlit("--socket");
    assert("remove"@.len() != "--socket"@.len());
    reveal_strlit("--socket-path");
    assert("remove"@.len() != "--socket-path"@.len());
    lemma_decimal_parses(i);
    let di = decimal(i as nat);
    assert(di[0] != '-');
    lemma_split_without_socket(seq!["remove"@, di], 1);
    assert(seq!["remove"@, di].subrange(1, 2) =~= seq![di]);
}

/// The client's `move` moves the item at the first typed index to the second.
pub proof fn lemma_cli_move(i: usize, j: usize)
    ensures
        cli_command_of(seq!["move"@, decimal(i as nat), decimal(j as nat)]) == Ok::<(CliChoice, Option<Seq<char>>), Seq<char>>(
            (CliChoice::Move { from: i, to: j }, None),
        ),
{
    reveal_strlit("move");
    reveal_strlit("status");
    assert("move"@.len() != "status"@.len());
    reveal_strlit("watch");
    assert("move"@.len() != "watch"@.len());
    reveal_strlit("stop");
    assert("move"@[0] != "stop"@[0]);
    reveal_strlit("toggle");
    assert("move"@.len() != "toggle"@.len());
    reveal_strlit("seek");
    assert("move"@[0] != "seek"@[0]);
    reveal_strlit("next");
    assert("move"@[0] != "next"@[0]);
    reveal_strlit("previous");
    assert("move"@.len() != "previous"@.len());
    reveal_strlit("prev");
    assert("move"@[0] != "prev"@[0]);
    reveal_strlit("load-playlist");
    assert("move"@.len() != "load-playlist"@.len());
    reveal_strlit("load-playlist-by-txt-file");
    assert("move"@.len() != "load-playlist-by-txt-file"@.len());
    reveal_strlit("switch-playlist");
    assert("move"@.len() != "switch-playlist"@.len());
    reveal_strlit("save-playlist");
    assert("move"@.len() != "save-playlist"@.len());
    reveal_strlit("add");
    assert("move"@.len() != "add"@.len());
    reveal_strlit("clear");
    assert("move"@.len() != "clear"@.len());
    reveal_strlit("remove");
    assert("move"@.len() != "remove"@.len());
    reveal_strlit("shuffle");
    assert("move"@.len() != "shuffle"@.len());
    reveal_strlit("play");
    assert("move"@[0] != "play"@[0]);
    reveal_strlit("help");
    assert("move"@[0] != "help"@[0]);
    reveal_strlit("--help");
    assert("move"@.len() != "--help"@.len());
    reveal_strlit("-h");
    assert("move"@.len() != "-h"@.len());
    reveal_strlit("version");
    assert("move"@.len() != "version"@.len());
    reveal_strlit("--version");
    assert("move"@.len() != "--version"@.len());
    reveal_strlit("-V");
    assert("move"@.len() != "-V"@.len());
    reveal_strlit("--socket");
    assert("move"@.len() != "--socket"@.len());
    reveal_strlit("--socket-path");
    assert("move"@.len() != "--socket-path"@.len());
    lemma_decimal_parses(i);
    lemma_decimal_parses(j);
    let di = decimal(i as nat);
    let dj = decimal(j as nat);
    assert(di[0] != '-');
    assert(dj[0] != '-');
    lemma_split_without_socket(seq!["move"@, di, dj], 1);
    assert(seq!["move"@, di, dj].subrange(1, 3) =~= seq![di, dj]);
}

/// The client's `play` plays the item whose index was typed, from the time
/// typed after it, if any.
pub proof fn lemma_cli_play(i: usize, v: Seq<char>)
    requires
        !is_socket_flag(v),
    ensures
        cli_command_of(seq!["play"@, decimal(i as nat)]) == Ok::<(CliChoice, Option<Seq<char>>), Seq<char>>(
            (CliChoice::Play { index: i, seconds: None, extra: false }, None),
        ),
        cli_command_of(seq!["play"@, decimal(i as nat), v]) == Ok::<(CliChoice, Option<Seq<char>>), Seq<char>>(
            (CliChoice::Play { index: i, seconds: Some(v), extra: false }, None),
        ),
{
    reveal_strlit("play");
    reveal_strlit("status");
    assert("play"@.len() != "status"@.len());
    reveal_strlit("watch");
    assert("play"@.len() != "watch"@.len());
    reveal_strlit("stop");
    assert("play"@[0] != "stop"@[0]);
    reveal_strlit("toggle");
    assert("play"@.len() != "toggle"@.len());
    reveal_strlit("seek");
    assert("play"@[0] != "seek"@[0]);
    reveal_strlit("next");
    assert("play"@[0] != "next"@[0]);
    reveal_strlit("previous");
    assert("play"@.len() != "previous"@.len());
    reveal_strlit("prev");
    assert("play"@[1] != "prev"@[1]);
    reveal_strlit("load-playlist");
    assert("play"@.len() != "load-playlist"@.len());
    reveal_strlit("load-playlist-by-txt-file");
    assert("play"@.len() != "load-playlist-by-txt-file"@.len());
    reveal_strlit("switch-playlist");
    assert("play"@.len() != "switch-playlist"@.len());
    reveal_strlit("save-playlist");
    assert("play"@.len() != "save-playlist"@.len());
    reveal_strlit("add");
    assert("play"@.len() != "add"@.len());
    reveal_strlit("clear");
    assert("play"@.len() != "clear"@.len());
    reveal_strlit("remove");
    assert("play"@.len() != "remove"@.len());
    reveal_strlit("move");
    assert("play"@[0] != "move"@[0]);
    reveal_strlit("shuffle");
    assert("play"@.len() != "shuffle"@.len());
    reveal_strlit("help");
    assert("play"@[0] != "help"@[0]);
    reveal_strlit("--help");
    assert("play"@.len() != "--help"@.len());
    reveal_strlit("-h");
    assert("play"@.len() != "-h"@.len());
    reveal_strlit("version");
    assert("play"@.len() != "version"@.len());
    reveal_strlit("--version");
    assert("play"@.len() != "--version"@.len());
    reveal_strlit("-V");
    assert("play"@.len() != "-V"@.len());
    reveal_strlit("--socket");
    assert("play"@.len() != "--socket"@.len());
    reveal_strlit("--socket-path");
    assert("play"@.len() != "--socket-path"@.len());
    lemma_decimal_parses(i);
    let di = decimal(i as nat);
    assert(di[0] != '-');
    lemma_split_without_socket(seq!["play"@, di], 1);
    assert(seq!["play"@, di].subrange(1, 2) =~= seq![di]);
    lemma_split_without_socket(seq!["play"@, di, v], 1);
    assert(seq!["play"@, di, v].subrange(1, 3) =~= seq![di, v]);
}


/// The daemon's `help` ends the reading of its command line and asks for
/// the usage text, whatever follows it.
pub proof fn lemma_daemon_help(rest: Seq<Seq<char>>)
    ensures
        daemon_command_of(seq!["help"@] + rest) == Ok::<DaemonChoice, Seq<char>>(DaemonChoice::Help),
{
    reveal_strlit("help");
    reveal_strlit("start");
    assert("help"@.len() != "start"@.len());
    reveal_strlit("--socket");
    assert("help"@.len() != "--socket"@.len());
    reveal_strlit("--socket-path");
    assert("help"@.len() != "--socket-path"@.len());
    reveal_strlit("--help");
    assert("help"@.len() != "--help"@.len());
    reveal_strlit("-h");
    assert("help"@.len() != "-h"@.len());
    reveal_strlit("version");
    assert("help"@.len() != "version"@.len());
    reveal_strlit("--version");
    assert("help"@.len() != "--version"@.len());
    reveal_strlit("-V");
    assert("help"@.len() != "-V"@.len());
    let args = seq!["help"@] + rest;
    assert(args[0] == "help"@);
}

/// The daemon's `--help` ends the reading of its command line and asks for
/// the usage text, whatever follows it.
pub proof fn lemma_daemon_help_flag(rest: Seq<Seq<char>>)
    ensures
        daemon_command_of(seq!["--help"@] + rest) == Ok::<DaemonChoice, Seq<char>>(DaemonChoice::Help),
{
    reveal_strlit("--help");
    reveal_strlit("start");
    assert("--help"@.len() != "start"@.len());
    reveal_strlit("--socket");
    assert("--help"@.len() != "--socket"@.len());
    reveal_strlit("--socket-path");
    assert("--help"@.len() != "--socket-path"@.len());
    reveal_strlit("help");
    assert("--help"@.len() != "help"@.len());
    reveal_strlit("-h");
    assert("--help"@.len() != "-h"@.len());
    reveal_strlit("version");
    assert("--help"@.len() != "version"@.len());
    reveal_strlit("--version");
    assert("--help"@.len() != "--version"@.len());
    reveal_strlit("-V");
    assert("--help"@.len() != "-V"@.len());
    let args = seq!["--help"@] + rest;
    assert(args[0] == "--help"@);
}

/// The daemon's `-h` ends the reading of its command line and asks for
/// the usage text, whatever follows it.
pub proof fn lemma_daemon_h_short(rest: Seq<Seq<char>>)
    ensures
        daemon_command_of(seq!["-h"@] + rest) == Ok::<DaemonChoice, Seq<char>>(DaemonChoice::Help),
{
    reveal_strlit("-h");
    reveal_strlit("start");
    assert("-h"@.len() != "start"@.len());
    reveal_strlit("--socket");
    assert("-h"@.len() != "--socket"@.len());
    reveal_strlit("--socket-path");
    assert("-h"@.len() != "--socket-path"@.len());
    reveal_strlit("help");
    assert("-h"@.len() != "help"@.len());
    reveal_strlit("--help");
    assert("-h"@.len() != "--help"@.len());
    reveal_strlit("version");
    assert("-h"@.len() != "version"@.len());
    reveal_strlit("--version");
    assert("-h"@.len() != "--version"@.len());
    reveal_strlit("-V");
    assert("-h"@[1] != "-V"@[1]);
    let args = seq!["-h"@] + rest;
    assert(args[0] == "-h"@);
}

/// The daemon's `version` ends the reading of its command line and asks for
/// the version, whatever follows it.
pub proof fn lemma_daemon_version(rest: Seq<Seq<char>>)
    ensures
        daemon_command_of(seq!["version"@] + rest) == Ok::<DaemonChoice, Seq<char>>(DaemonChoice::Version),
{
    reveal_strlit("version");
    reveal_strlit("start");
    assert("version"@.len() != "start"@.len());
    reveal_strlit("--socket");
    assert("version"@.len() != "--socket"@.len());
    reveal_strlit("--socket-path");
    assert("version"@.len() != "--socket-path"@.len());
    reveal_strlit("help");
    assert("version"@.len() != "help"@.len());
    reveal_strlit("--help");
    assert("version"@.len() != "--help"@.len());
    reveal_strlit("-h");
    assert("version"@.len() != "-h"@.len());
    reveal_strlit("--version");
    assert("version"@.len() != "--version"@.len());
    reveal_strlit("-V");
    assert("version"@.len() != "-V"@.len());
    let args = seq!["version"@] + rest;
    assert(args[0] == "version"@);
}

/// The daemon's `--version` ends the reading of its command line and asks for
/// the version, whatever follows it.
pub proof fn lemma_daemon_version_flag(rest: Seq<Seq<char>>)
    ensures
        daemon_command_of(seq!["--version"@] + rest) == Ok::<DaemonChoice, Seq<char>>(DaemonChoice::Version),
{
    reveal_strlit("--version");
    reveal_strlit("start");
    assert("--version"@.len() != "start"@.len());
    reveal_strlit("--socket");
    assert("--version"@.len() != "--socket"@.len());
    reveal_strlit("--socket-path");
    assert("--version"@.len() != "--socket-path"@.len());
    reveal_strlit("help");
    assert("--version"@.len() != "help"@.len());
    reveal_strlit("--help");
    assert("--version"@.len() != "--help"@.len());
    reveal_strlit("-h");
    assert("--version"@.len() != "-h"@.len());
    reveal_strlit("version");
    assert("--version"@.len() != "version"@.len());
    reveal_strlit("-V");
    assert("--version"@.len() != "-V"@.len());
    let args = seq!["--version"@] + rest;
    assert(args[0] == "--version"@);
}

/// The daemon's `-V` ends the reading of its command line and asks for
/// the version, whatever follows it.
pub proof fn lemma_daemon_v_short(rest: Seq<Seq<char>>)
    ensures
        daemon_command_of(seq!["-V"@] + rest) == Ok::<DaemonChoice, Seq<char>>(DaemonChoice::Version),
{
    reveal_strlit("-V");
    reveal_strlit("start");
    assert("-V"@.len() != "start"@.len());
    reveal_strlit("--socket");
    assert("-V"@.len() != "--socket"@.len());
    reveal_strlit("--socket-path");
    assert("-V"@.len() != "--socket-path"@.len());
    reveal_strlit("help");
    assert("-V"@.len() != "help"@.len());
    reveal_strlit("--help");
    assert("-V"@.len() != "--help"@.len());
    reveal_strlit("-h");
    assert("-V"@[1] != "-h"@[1]);
    reveal_strlit("version");
    assert("-V"@.len() != "version"@.len());
    reveal_strlit("--version");
    assert("-V"@.len() != "--version"@.len());
    let args = seq!["-V"@] + rest;
    assert(args[0] == "-V"@);
}

/// Without arguments the daemon runs on the default socket; with a socket
/// option and a path that is not empty, on that path.
pub proof fn lemma_daemon_socket(s: Seq<char>)
    requires
        s.len() > 0,
    ensures
        daemon_command_of(Seq::<Seq<char>>::empty()) == Ok::<DaemonChoice, Seq<char>>(DaemonChoice::Run(None)),
        daemon_command_of(seq!["--socket"@, s]) == Ok::<DaemonChoice, Seq<char>>(DaemonChoice::Run(Some(s))),
        daemon_command_of(seq!["start"@, "--socket"@, s]) == Ok::<DaemonChoice, Seq<char>>(DaemonChoice::Run(Some(s))),
{
    reveal_strlit("--socket");
    reveal_strlit("start");
    assert("--socket"@.len() != "start"@.len());
    let a = seq!["--socket"@, s];
    assert(daemon_scan(a, 2) == Ok::<DaemonChoice, Seq<char>>(DaemonChoice::Run(None)));
    let b = seq!["start"@, "--socket"@, s];
    assert(daemon_scan(b, 3) == Ok::<DaemonChoice, Seq<char>>(DaemonChoice::Run(None)));
    assert(daemon_scan(b, 1) == Ok::<DaemonChoice, Seq<char>>(DaemonChoice::Run(Some(s))));
}

/// The window's `quit` asks it to quit, `toggle-display` (or no command) to
/// show or hide it, and a socket option names the argument that holds the
/// socket path.
pub proof fn lemma_window_words(program: Option<Seq<char>>, path: Option<Seq<char>>)
    ensures
        window_scan(seq![program], 1) == Ok::<(Option<int>, Option<bool>), Seq<char>>((None, None)),
        window_scan(seq![program, Some("quit"@)], 1) == Ok::<(Option<int>, Option<bool>), Seq<char>>((None, Some(true))),
        window_scan(seq![program, Some("toggle-display"@)], 1) == Ok::<(Option<int>, Option<bool>), Seq<char>>((None, Some(false))),
        window_scan(seq![program, Some("--socket"@), path], 1) == Ok::<(Option<int>, Option<bool>), Seq<char>>((Some(2), None)),
{
    reveal_strlit("quit");
    reveal_strlit("toggle-display");
    reveal_strlit("--socket");
    reveal_strlit("--socket-path");
    assert("quit"@.len() != "--socket"@.len());
    assert("quit"@.len() != "--socket-path"@.len());
    assert("toggle-display"@.len() != "--socket"@.len());
    assert("toggle-display"@.len() != "--socket-path"@.len());
    assert("toggle-display"@.len() != "quit"@.len());
    assert(window_scan(seq![program, Some("quit"@)], 2) == Ok::<(Option<int>, Option<bool>), Seq<char>>((None, None)));
    assert(window_scan(seq![program, Some("toggle-display"@)], 2) == Ok::<(Option<int>, Option<bool>), Seq<char>>((None, None)));
    assert(window_scan(seq![program, Some("--socket"@), path], 3) == Ok::<(Option<int>, Option<bool>), Seq<char>>((None, None)));
}

} // verus!
