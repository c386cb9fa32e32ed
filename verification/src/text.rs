//! Text that the programs print and read: decimal numbers, clock times,
//! status lines, error messages and indices typed on the command line.

use crate::change::PlaylistError;
use vstd::prelude::*;
use vstd::string::StringExecFns;
use vstd::string::StrSliceExecFns;

verus! {

/// The ASCII digit for `d`.
pub open spec fn digit_char(d: int) -> char {
    if d == 0 {
        '0'
    } else if d == 1 {
        '1'
    } else if d == 2 {
        '2'
    } else if d == 3 {
        '3'
    } else if d == 4 {
        '4'
    } else if d == 5 {
        '5'
    } else if d == 6 {
        '6'
    } else if d == 7 {
        '7'
    } else if d == 8 {
        '8'
    } else {
        '9'
    }
}

/// The value of an ASCII digit, if `c` is one.
pub open spec fn digit_value(c: char) -> Option<int> {
    if c == '0' {
        Some(0)
    } else if c == '1' {
        Some(1)
    } else if c == '2' {
        Some(2)
    } else if c == '3' {
        Some(3)
    } else if c == '4' {
        Some(4)
    } else if c == '5' {
        Some(5)
    } else if c == '6' {
        Some(6)
    } else if c == '7' {
        Some(7)
    } else if c == '8' {
        Some(8)
    } else if c == '9' {
        Some(9)
    } else {
        None
    }
}

/// The decimal digits of `n`, without leading zeros.
pub open spec fn decimal(n: nat) -> Seq<char>
    decreases n,
{
    if n < 10 {
        seq![digit_char(n as int)]
    } else {
        decimal(n / 10).push(digit_char((n % 10) as int))
    }
}

/// The decimal digits of `n`, padded with zeros to at least two digits.
pub open spec fn two_digits(n: nat) -> Seq<char> {
    if n < 10 {
        seq!['0'] + decimal(n)
    } else {
        decimal(n)
    }
}

/// `MM:SS` for a number of whole seconds; the minutes do not wrap at 60.
pub open spec fn clock_text(total: nat) -> Seq<char> {
    two_digits(total / 60) + seq![':'] + two_digits(total % 60)
}

fn digit_text(d: usize) -> (r: &'static str)
    requires
        d < 10,
    ensures
        r@ == seq![digit_char(d as int)],
{
    proof {
        reveal_strlit("0");
        reveal_strlit("1");
        reveal_strlit("2");
        reveal_strlit("3");
        reveal_strlit("4");
        reveal_strlit("5");
        reveal_strlit("6");
        reveal_strlit("7");
        reveal_strlit("8");
        reveal_strlit("9");
    }
    let r = if d == 0 {
        "0"
    } else if d == 1 {
        "1"
    } else if d == 2 {
        "2"
    } else if d == 3 {
        "3"
    } else if d == 4 {
        "4"
    } else if d == 5 {
        "5"
    } else if d == 6 {
        "6"
    } else if d == 7 {
        "7"
    } else if d == 8 {
        "8"
    } else {
        "9"
    };
    assert(r@ =~= seq![digit_char(d as int)]);
    r
}

/// Appends the decimal digits of `n`.
pub fn push_decimal(s: &mut String, n: u64)
    ensures
        final(s)@ == old(s)@ + decimal(n as nat),
    decreases n,
{
    if n >= 10 {
        push_decimal(s, n / 10);
    }
    s.append(digit_text((n % 10) as usize));
    assert(final(s)@ =~= old(s)@ + decimal(n as nat)) by {
        if n >= 10 {
            assert(decimal(n as nat) == decimal((n / 10) as nat).push(digit_char((n % 10) as int)));
        }
    }
}

/// The decimal digits of `n`.
pub fn decimal_text(n: usize) -> (r: String)
    ensures
        r@ == decimal(n as nat),
{
    let mut s = String::new();
    push_decimal(&mut s, n as u64);
    assert(s@ =~= decimal(n as nat));
    s
}

pub fn push_two_digits(s: &mut String, n: u64)
    ensures
        final(s)@ == old(s)@ + two_digits(n as nat),
{
    proof {
        reveal_strlit("0");
    }
    if n < 10 {
        s.append("0");
    }
    push_decimal(s, n);
    assert(final(s)@ =~= old(s)@ + two_digits(n as nat));
}

/// Formats whole seconds as `MM:SS`; minutes keep counting past an hour.
pub fn format_clock(total: u64) -> (r: String)
    ensures
        r@ == clock_text(total as nat),
{
    proof {
        reveal_strlit(":");
    }
    let mut s = String::new();
    push_two_digits(&mut s, total / 60);
    s.append(":");
    push_two_digits(&mut s, total % 60);
    assert(s@ =~= clock_text(total as nat));
    s
}

/// The status line of the player: controls, artist, title, position,
/// duration and the lyric line being sung.
pub open spec fn status_line(
    paused: bool,
    artist: Seq<char>,
    title: Seq<char>,
    position: Seq<char>,
    duration: Seq<char>,
    lyric: Option<Seq<char>>,
) -> Seq<char> {
    "⏮  "@ + (if paused {
        "▶"@
    } else {
        "⏸"@
    }) + "  "@ + (if artist.len() == 0 {
        Seq::empty()
    } else {
        artist + " - "@
    }) + title + "  "@ + position + " / "@ + duration + (match lyric {
        Some(line) => "  ·  "@ + line,
        None => Seq::empty(),
    }) + "  ⏭"@
}

/// Builds the status line of the player from its already formatted parts.
pub fn status_text(
    paused: bool,
    artist: &str,
    title: &str,
    position: &str,
    duration: &str,
    lyric: Option<&str>,
) -> (r: String)
    ensures
        r@ == status_line(
            paused,
            artist@,
            title@,
            position@,
            duration@,
            match lyric {
                Some(l) => Some(l@),
                None => None,
            },
        ),
{
    let mut s = String::from_str("⏮  ");
    if paused {
        s.append("▶");
    } else {
        s.append("⏸");
    }
    s.append("  ");
    if artist.unicode_len() != 0 {
        s.append(artist);
        s.append(" - ");
    }
    s.append(title);
    s.append("  ");
    s.append(position);
    s.append(" / ");
    s.append(duration);
    if let Some(line) = lyric {
        s.append("  ·  ");
        s.append(line);
    }
    s.append("  ⏭");
    assert(s@ =~= status_line(
        paused,
        artist@,
        title@,
        position@,
        duration@,
        match lyric {
            Some(l) => Some(l@),
            None => None,
        },
    ));
    s
}

/// The tooltip of the status bar module: artist, album, then position and
/// duration, one per line.
pub open spec fn tooltip_text(
    artist: Seq<char>,
    album: Seq<char>,
    position: Seq<char>,
    duration: Seq<char>,
) -> Seq<char> {
    artist + "\n"@ + album + "\n"@ + position + " / "@ + duration
}

/// Builds the tooltip of the status bar module from its formatted parts.
pub fn waybar_tooltip(artist: &str, album: &str, position: &str, duration: &str) -> (r: String)
    ensures
        r@ == tooltip_text(artist@, album@, position@, duration@),
{
    let mut s = String::from_str(artist);
    s.append("\n");
    s.append(album);
    s.append("\n");
    s.append(position);
    s.append(" / ");
    s.append(duration);
    assert(s@ =~= tooltip_text(artist@, album@, position@, duration@));
    s
}

/// The class of the status bar module.
pub fn waybar_class(paused: bool) -> (r: &'static str)
    ensures
        r@ == if paused {
            "paused"@
        } else {
            "playing"@
        },
{
    if paused {
        "paused"
    } else {
        "playing"
    }
}

/// The value of a string of ASCII digits.
pub open spec fn digits_value(s: Seq<char>) -> int
    decreases s.len(),
{
    if s.len() == 0 {
        0
    } else {
        digits_value(s.drop_last()) * 10 + digit_value(s.last())->0
    }
}

/// Whether every character of `s` is an ASCII digit.
pub open spec fn all_digits(s: Seq<char>) -> bool {
    forall|i: int| 0 <= i < s.len() ==> #[trigger] digit_value(s[i]) is Some
}

/// What `str::parse::<usize>` gives for `s`: an optional `+`, then at least
/// one ASCII digit and nothing else, for a value that fits.
pub open spec fn parsed_usize(s: Seq<char>) -> Option<usize> {
    let body = if s.len() > 0 && s[0] == '+' {
        s.drop_first()
    } else {
        s
    };
    if body.len() == 0 || !all_digits(body) || digits_value(body) > usize::MAX {
        None
    } else {
        Some(digits_value(body) as usize)
    }
}

proof fn lemma_digit_char_value(d: int)
    requires
        0 <= d < 10,
    ensures
        digit_value(digit_char(d)) == Some(d),
{
}

/// The decimal text of a number reads back as that number, and starts with
/// a digit.
pub proof fn lemma_decimal_parses(n: usize)
    ensures
        parsed_usize(decimal(n as nat)) == Some(n),
        decimal(n as nat).len() > 0,
        digit_value(decimal(n as nat)[0]) is Some,
{
    lemma_decimal_digits(n as nat);
    let s = decimal(n as nat);
    assert(s[0] != '+');
}

proof fn lemma_decimal_digits(n: nat)
    ensures
        decimal(n).len() > 0,
        all_digits(decimal(n)),
        digits_value(decimal(n)) == n,
    decreases n,
{
    let s = decimal(n);
    if n < 10 {
        lemma_digit_char_value(n as int);
        assert(s.drop_last() =~= Seq::<char>::empty());
        assert(digits_value(Seq::<char>::empty()) == 0);
        assert(digits_value(s) == digits_value(s.drop_last()) * 10 + digit_value(s.last())->0);
    } else {
        lemma_decimal_digits(n / 10);
        lemma_digit_char_value((n % 10) as int);
        let p = decimal(n / 10);
        assert(s.drop_last() =~= p);
        assert(digits_value(s) == digits_value(p) * 10 + digit_value(s.last())->0);
        assert(digits_value(s) == (n / 10) * 10 + n % 10);
        assert forall|i: int| 0 <= i < s.len() implies #[trigger] digit_value(s[i]) is Some by {
            if i < p.len() {
                assert(s[i] == p[i]);
            }
        }
    }
}

proof fn lemma_digits_value_grows(s: Seq<char>, n: int)
    requires
        0 <= n <= s.len(),
        all_digits(s),
    ensures
        digits_value(s.take(n)) <= digits_value(s),
        0 <= digits_value(s.take(n)),
    decreases s.len() - n,
{
    if n < s.len() {
        assert(s.take(n + 1).drop_last() =~= s.take(n));
        assert(digit_value(s[n]) is Some);
        lemma_digits_value_grows(s, n + 1);
    } else {
        assert(s.take(n) =~= s);
        lemma_digits_value_nonneg(s);
    }
}

proof fn lemma_digits_value_nonneg(s: Seq<char>)
    requires
        all_digits(s),
    ensures
        digits_value(s) >= 0,
    decreases s.len(),
{
    if s.len() > 0 {
        let p = s.drop_last();
        assert forall|i: int| 0 <= i < p.len() implies #[trigger] digit_value(p[i]) is Some by {
            assert(p[i] == s[i]);
        }
        assert(digit_value(s[s.len() - 1]) is Some);
        lemma_digits_value_nonneg(p);
    }
}

/// Parses `s` as `str::parse::<usize>` does.
pub fn parse_usize(s: &str) -> (r: Option<usize>)
    ensures
        r == parsed_usize(s@),
{
    let n = s.unicode_len();
    let start: usize = if n > 0 && s.get_char(0) == '+' {
        1
    } else {
        0
    };
    let ghost body = if s@.len() > 0 && s@[0] == '+' {
        s@.drop_first()
    } else {
        s@
    };
    assert(body =~= s@.subrange(start as int, n as int));
    if start == n {
        return None;
    }
    let mut value: usize = 0;
    let mut i: usize = start;
    while i < n
        invariant
            start <= i <= n,
            n == s@.len(),
            body == s@.subrange(start as int, n as int),
            body == (if s@.len() > 0 && s@[0] == '+' {
                s@.drop_first()
            } else {
                s@
            }),
            start < n,
            all_digits(body.take(i - start)),
            value == digits_value(body.take(i - start)),
        decreases n - i,
    {
        let ghost prefix = body.take(i - start);
        let ghost next = body.take(i + 1 - start);
        assert(next.drop_last() =~= prefix);
        assert(next.last() == s@[i as int]);
        let c = s.get_char(i);
        let d: usize = if c == '0' {
            0
        } else if c == '1' {
            1
        } else if c == '2' {
            2
        } else if c == '3' {
            3
        } else if c == '4' {
            4
        } else if c == '5' {
            5
        } else if c == '6' {
            6
        } else if c == '7' {
            7
        } else if c == '8' {
            8
        } else if c == '9' {
            9
        } else {
            assert(!all_digits(body)) by {
                assert(body[i - start] == c);
                assert(digit_value(body[i - start]) is None);
            }
            return None;
        };
        assert(all_digits(next)) by {
            assert forall|k: int| 0 <= k < next.len() implies #[trigger] digit_value(next[k]) is Some by {
                if k < prefix.len() {
                    assert(next[k] == prefix[k]);
                }
            }
        }
        assert(digits_value(next) == value * 10 + d);
        let grown = match value.checked_mul(10) {
            Some(v) => v.checked_add(d),
            None => None,
        };
        match grown {
            Some(v) => {
                value = v;
            },
            None => {
                proof {
                    if all_digits(body) {
                        lemma_digits_value_grows(body, i + 1 - start);
                    }
                }
                return None;
            },
        }
        i = i + 1;
    }
    assert(body.take(n - start) =~= body);
    Some(value)
}

/// A required command line argument, or the message that names it.
pub fn required(value: Option<String>, name: &str) -> (r: Result<String, String>)
    ensures
        match value {
            Some(v) => r == Ok::<String, String>(v),
            None => r is Err && r->Err_0@ == "缺少"@ + name@,
        },
{
    match value {
        Some(v) => Ok(v),
        None => {
            let mut message = String::from_str("缺少");
            message.append(name);
            Err(message)
        },
    }
}

/// A zero-based playlist index typed on the command line.
pub fn parse_index(value: Option<String>) -> (r: Result<usize, String>)
    ensures
        match value {
            None => r is Err && r->Err_0@ == "缺少播放列表索引"@,
            Some(v) => match parsed_usize(v@) {
                Some(n) => r == Ok::<usize, String>(n),
                None => r is Err && r->Err_0@ == "播放列表索引必须是从 0 开始的整数"@,
            },
        },
{
    match value {
        None => Err(String::from_str("缺少播放列表索引")),
        Some(v) => match parse_usize(v.as_str()) {
            Some(n) => Ok(n),
            None => Err(String::from_str("播放列表索引必须是从 0 开始的整数")),
        },
    }
}

/// Whether a playlist name is a single plain file name: not empty, not `.`
/// or `..`, without `/` or `\`.
pub open spec fn valid_playlist_name(name: Seq<char>) -> bool {
    &&& name.len() != 0
    &&& name != seq!['.']
    &&& name != seq!['.', '.']
    &&& !name.contains('/')
    &&& !name.contains('\\')
}

/// Where the playlist `name` is stored, relative to the state directory:
/// `playlists/<name>.json`.
pub fn playlist_file_path(name: &str) -> (r: Result<String, String>)
    ensures
        valid_playlist_name(name@) ==> r is Ok && r->Ok_0@ == "playlists/"@ + name@ + ".json"@,
        !valid_playlist_name(name@) ==> r is Err && r->Err_0@
            == "播放列表名称不能为空且不能包含路径分隔符"@,
{
    let n = name.unicode_len();
    let mut ok = n != 0;
    if n == 1 && name.get_char(0) == '.' {
        ok = false;
        assert(name@ =~= seq!['.']);
    }
    if n == 2 && name.get_char(0) == '.' && name.get_char(1) == '.' {
        ok = false;
        assert(name@ =~= seq!['.', '.']);
    }
    if n == 1 && name.get_char(0) != '.' {
        assert(name@ != seq!['.']) by {
            assert(name@[0] != seq!['.'][0]);
        }
    }
    if n == 2 && !(name.get_char(0) == '.' && name.get_char(1) == '.') {
        assert(name@ != seq!['.', '.']) by {
            if name@ == seq!['.', '.'] {
                assert(name@[0] == '.' && name@[1] == '.');
            }
        }
    }
    let mut i: usize = 0;
    while i < n
        invariant
            i <= n,
            n == name@.len(),
            ok ==> forall|k: int| 0 <= k < i ==> #[trigger] name@[k] != '/' && name@[k] != '\\',
            !ok ==> !valid_playlist_name(name@),
            ok ==> name@.len() != 0 && name@ != seq!['.'] && name@ != seq!['.', '.'],
        decreases n - i,
    {
        let c = name.get_char(i);
        if c == '/' || c == '\\' {
            ok = false;
        }
        i = i + 1;
    }
    if ok {
        assert(!name@.contains('/') && !name@.contains('\\'));
        let mut file = String::from_str("playlists/");
        file.append(name);
        file.append(".json");
        Ok(file)
    } else {
        Err(String::from_str("播放列表名称不能为空且不能包含路径分隔符"))
    }
}

/// The text of an error, as the programs print it.
pub open spec fn error_text(e: PlaylistError) -> Seq<char> {
    match e {
        PlaylistError::StateMismatch { own, given } => "状态编号不匹配, 自身的: "@ + decimal(
            own as nat,
        ) + ", 传入的: "@ + decimal(given as nat),
        PlaylistError::AddOutOfRange { index, length } => "播放列表插入位置越界: "@ + decimal(
            index as nat,
        ) + ", 当前长度为 "@ + decimal(length as nat),
        PlaylistError::DeleteOutOfRange { index, length } => "播放列表删除位置越界: "@ + decimal(
            index as nat,
        ) + ", 当前长度为 "@ + decimal(length as nat),
        PlaylistError::DeleteDuplicate { index } => "播放列表删除位置重复: "@ + decimal(index as nat),
        PlaylistError::MoveSourceOutOfRange { source, length } => "播放列表移动源位置越界: "@
            + decimal(source as nat) + ", 当前长度为 "@ + decimal(length as nat),
        PlaylistError::MoveDestinationOutOfRange { destination, length } =>
            "播放列表移动目标位置越界: "@ + decimal(destination as nat) + ", 当前长度为 "@ + decimal(
            length as nat,
        ),
        PlaylistError::MoveSourceDuplicate { source } => "播放列表移动源位置重复: "@ + decimal(
            source as nat,
        ),
        PlaylistError::MoveDestinationDuplicate { destination } => "播放列表移动目标位置重复: "@
            + decimal(destination as nat),
        PlaylistError::CurrentOutOfRange { index, length } => "播放列表当前播放索引越界: "@
            + decimal(index as nat) + ", 当前长度为 "@ + decimal(length as nat),
        PlaylistError::NoCurrent => "当前没有选中的播放项"@,
        PlaylistError::AlreadyFirst => "已经是第一首"@,
        PlaylistError::AlreadyLast => "已经是最后一首"@,
        PlaylistError::SelectOutOfRange => "选择的播放项索引越界"@,
        PlaylistError::IndexOutOfRange => "索引越界"@,
    }
}

fn text_with_number(head: &str, n: usize) -> (r: String)
    ensures
        r@ == head@ + decimal(n as nat),
{
    let mut s = String::from_str(head);
    push_decimal(&mut s, n as u64);
    s
}

fn text_with_numbers(head: &str, n: usize, middle: &str, m: usize) -> (r: String)
    ensures
        r@ == head@ + decimal(n as nat) + middle@ + decimal(m as nat),
{
    let mut s = String::from_str(head);
    push_decimal(&mut s, n as u64);
    s.append(middle);
    push_decimal(&mut s, m as u64);
    s
}

impl PlaylistError {
    /// The text of the error, as the programs print it.
    pub fn message(&self) -> (r: String)
        ensures
            r@ == error_text(*self),
    {
        match *self {
            PlaylistError::StateMismatch { own, given } => text_with_numbers(
                "状态编号不匹配, 自身的: ",
                own,
                ", 传入的: ",
                given,
            ),
            PlaylistError::AddOutOfRange { index, length } => text_with_numbers(
                "播放列表插入位置越界: ",
                index,
                ", 当前长度为 ",
                length,
            ),
            PlaylistError::DeleteOutOfRange { index, length } => text_with_numbers(
                "播放列表删除位置越界: ",
                index,
                ", 当前长度为 ",
                length,
            ),
            PlaylistError::DeleteDuplicate { index } => text_with_number(
                "播放列表删除位置重复: ",
                index,
            ),
            PlaylistError::MoveSourceOutOfRange { source, length } => text_with_numbers(
                "播放列表移动源位置越界: ",
                source,
                ", 当前长度为 ",
                length,
            ),
            PlaylistError::MoveDestinationOutOfRange { destination, length } => text_with_numbers(
                "播放列表移动目标位置越界: ",
                destination,
                ", 当前长度为 ",
                length,
            ),
            PlaylistError::MoveSourceDuplicate { source } => text_with_number(
                "播放列表移动源位置重复: ",
                source,
            ),
            PlaylistError::MoveDestinationDuplicate { destination } => text_with_number(
                "播放列表移动目标位置重复: ",
                destination,
            ),
            PlaylistError::CurrentOutOfRange { index, length } => text_with_numbers(
                "播放列表当前播放索引越界: ",
                index,
                ", 当前长度为 ",
                length,
            ),
            PlaylistError::NoCurrent => String::from_str("当前没有选中的播放项"),
            PlaylistError::AlreadyFirst => String::from_str("已经是第一首"),
            PlaylistError::AlreadyLast => String::from_str("已经是最后一首"),
            PlaylistError::SelectOutOfRange => String::from_str("选择的播放项索引越界"),
            PlaylistError::IndexOutOfRange => String::from_str("索引越界"),
        }
    }
}

} // verus!
