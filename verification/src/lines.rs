//! Line-oriented text: the text playlist format, and the user id field of a
//! process status file.

use vstd::prelude::*;
use vstd::string::StringExecFns;

verus! {

broadcast use vstd::string::group_string_axioms;

/// Whether `c` is white space in Unicode's sense, as `char::is_whitespace`.
pub open spec fn is_space(c: char) -> bool {
    let v = c as int;
    ||| 0x09 <= v <= 0x0D
    ||| v == 0x20
    ||| v == 0x85
    ||| v == 0xA0
    ||| v == 0x1680
    ||| 0x2000 <= v <= 0x200A
    ||| v == 0x2028
    ||| v == 0x2029
    ||| v == 0x202F
    ||| v == 0x205F
    ||| v == 0x3000
}

/// The finished lines of `s` and the line still being read.
pub open spec fn lines_acc(s: Seq<char>) -> (Seq<Seq<char>>, Seq<char>)
    decreases s.len(),
{
    if s.len() == 0 {
        (Seq::empty(), Seq::empty())
    } else {
        let (done, cur) = lines_acc(s.drop_last());
        if s.last() == '\n' {
            (done.push(cur), Seq::empty())
        } else {
            (done, cur.push(s.last()))
        }
    }
}

/// The lines of `s`: the pieces between newlines, the last piece counting
/// only when it is not empty. A carriage return before a newline stays in its
/// line; each use of the lines here either trims it as white space or looks
/// only at the start of the line.
pub open spec fn text_lines(s: Seq<char>) -> Seq<Seq<char>> {
    let (done, cur) = lines_acc(s);
    if cur.len() == 0 {
        done
    } else {
        done.push(cur)
    }
}

/// `s` without leading white space.
pub open spec fn trim_start(s: Seq<char>) -> Seq<char>
    decreases s.len(),
{
    if s.len() > 0 && is_space(s[0]) {
        trim_start(s.drop_first())
    } else {
        s
    }
}

/// `s` without trailing white space.
pub open spec fn trim_end(s: Seq<char>) -> Seq<char>
    decreases s.len(),
{
    if s.len() > 0 && is_space(s.last()) {
        trim_end(s.drop_last())
    } else {
        s
    }
}

/// `s` without leading and trailing white space.
pub open spec fn trim(s: Seq<char>) -> Seq<char> {
    trim_end(trim_start(s))
}

/// The entries of a text playlist among its first `n` lines: each line that
/// is not blank, trimmed, with its line number counted from 1.
pub open spec fn entries_among(lines: Seq<Seq<char>>, n: nat) -> Seq<(usize, Seq<char>)>
    decreases n,
{
    if n == 0 {
        Seq::empty()
    } else {
        let rest = entries_among(lines, (n - 1) as nat);
        let line = trim(lines[n - 1]);
        if line.len() == 0 {
            rest
        } else {
            rest.push((n as usize, line))
        }
    }
}

/// The entries of a text playlist: one media path per line, blank lines
/// separating entries freely.
pub open spec fn playlist_text_entries(content: Seq<char>) -> Seq<(usize, Seq<char>)> {
    entries_among(text_lines(content), text_lines(content).len())
}

/// The words of the finished part of `s` and the word still being read.
pub open spec fn words_acc(s: Seq<char>) -> (Seq<Seq<char>>, Seq<char>)
    decreases s.len(),
{
    if s.len() == 0 {
        (Seq::empty(), Seq::empty())
    } else {
        let (done, cur) = words_acc(s.drop_last());
        if is_space(s.last()) {
            if cur.len() == 0 {
                (done, cur)
            } else {
                (done.push(cur), Seq::empty())
            }
        } else {
            (done, cur.push(s.last()))
        }
    }
}

/// The white-space separated words of `s`.
pub open spec fn words(s: Seq<char>) -> Seq<Seq<char>> {
    let (done, cur) = words_acc(s);
    if cur.len() == 0 {
        done
    } else {
        done.push(cur)
    }
}

/// Whether `line` starts with `Uid:`.
pub open spec fn is_uid_line(line: Seq<char>) -> bool {
    &&& line.len() >= 4
    &&& line[0] == 'U'
    &&& line[1] == 'i'
    &&& line[2] == 'd'
    &&& line[3] == ':'
}

/// The third word of the first of `lines` that starts with `Uid:`, if that
/// line has three words.
pub open spec fn uid_among(lines: Seq<Seq<char>>) -> Option<Seq<char>>
    decreases lines.len(),
{
    if lines.len() == 0 {
        None
    } else if is_uid_line(lines[0]) {
        let w = words(lines[0]);
        if w.len() > 2 {
            Some(w[2])
        } else {
            None
        }
    } else {
        uid_among(lines.drop_first())
    }
}

/// The effective user id in the text of a process status file: the third
/// word of its first line that starts with `Uid:`.
pub open spec fn uid_field(status: Seq<char>) -> Option<Seq<char>> {
    uid_among(text_lines(status))
}

/// `String::push`: appends one character.
#[verifier::external_body]
fn push_char(s: &mut String, c: char)
    ensures
        final(s)@ == old(s)@.push(c),
{
    s.push(c);
}

/// Whether `c` is white space in Unicode's sense.
pub fn is_space_char(c: char) -> (r: bool)
    ensures
        r == is_space(c),
{
    let v = c as u32;
    (0x09 <= v && v <= 0x0D) || v == 0x20 || v == 0x85 || v == 0xA0 || v == 0x1680 || (0x2000
        <= v && v <= 0x200A) || v == 0x2028 || v == 0x2029 || v == 0x202F || v == 0x205F || v
        == 0x3000
}

/// The bounds of `chars[lo..hi]` without its leading and trailing white
/// space.
pub fn trim_range(chars: &Vec<char>, lo: usize, hi: usize) -> (r: (usize, usize))
    requires
        lo <= hi <= chars@.len(),
    ensures
        lo <= r.0 <= r.1 <= hi,
        chars@.subrange(r.0 as int, r.1 as int) == trim(chars@.subrange(lo as int, hi as int)),
{
    let mut a: usize = lo;
    while a < hi && is_space_char(chars[a])
        invariant
            lo <= a <= hi,
            hi <= chars@.len(),
            trim_start(chars@.subrange(lo as int, hi as int)) == trim_start(
                chars@.subrange(a as int, hi as int),
            ),
        decreases hi - a,
    {
        assert(chars@.subrange(a as int, hi as int).drop_first() =~= chars@.subrange(
            a + 1,
            hi as int,
        ));
        a = a + 1;
    }
    assert(trim_start(chars@.subrange(a as int, hi as int)) == chars@.subrange(a as int, hi as int));
    let mut b: usize = hi;
    while b > a && is_space_char(chars[b - 1])
        invariant
            a <= b <= hi,
            hi <= chars@.len(),
            trim_end(chars@.subrange(a as int, hi as int)) == trim_end(
                chars@.subrange(a as int, b as int),
            ),
        decreases b,
    {
        assert(chars@.subrange(a as int, b as int).drop_last() =~= chars@.subrange(
            a as int,
            b - 1,
        ));
        b = b - 1;
    }
    assert(trim_end(chars@.subrange(a as int, b as int)) == chars@.subrange(a as int, b as int));
    (a, b)
}

/// The line `chars`, trimmed.
fn trimmed_text(chars: &Vec<char>) -> (r: String)
    ensures
        r@ == trim(chars@),
{
    assert(chars@.subrange(0, chars@.len() as int) =~= chars@);
    let (a, b) = trim_range(chars, 0, chars.len());
    text_of(chars, a, b)
}

/// `text` without leading and trailing white space.
pub fn trimmed(text: &str) -> (r: String)
    ensures
        r@ == trim(text@),
{
    let total = text.unicode_len();
    let mut chars: Vec<char> = Vec::new();
    for c in it: text.chars()
        invariant
            total == text@.len(),
            it.seq() == text@,
            chars@ == text@.take(it.index() as int),
    {
        assert(c == text@[it.index() as int]);
        assert(text@.take(it.index() + 1) =~= text@.take(it.index() as int).push(c));
        chars.push(c);
    }
    assert(text@.take(text@.len() as int) =~= text@);
    trimmed_text(&chars)
}

/// Reads a text playlist: one media path per line, each trimmed, blank lines
/// skipped, each entry with its line number counted from 1.
pub fn playlist_text_lines(content: &str) -> (r: Vec<(usize, String)>)
    ensures
        r@.len() == playlist_text_entries(content@).len(),
        forall|k: int|
            0 <= k < r@.len() ==> (#[trigger] r@[k]).0 == playlist_text_entries(content@)[k].0
                && r@[k].1@ == playlist_text_entries(content@)[k].1,
{
    let total = content.unicode_len();
    let ghost s = content@;
    let mut entries: Vec<(usize, String)> = Vec::new();
    let ghost mut views: Seq<(usize, Seq<char>)> = Seq::empty();
    let mut line: Vec<char> = Vec::new();
    let mut line_number: usize = 0;
    for c in it: content.chars()
        invariant
            total == s.len(),
            it.seq() == s,
            lines_acc(s.take(it.index() as int)).1 == line@,
            line_number == lines_acc(s.take(it.index() as int)).0.len(),
            line_number + line@.len() <= it.index(),
            views == entries_among(lines_acc(s.take(it.index() as int)).0, line_number as nat),
            entries@.len() == views.len(),
            forall|k: int|
                0 <= k < entries@.len() ==> (#[trigger] entries@[k]).0 == views[k].0
                    && entries@[k].1@ == views[k].1,
    {
        let ghost i = it.index() as int;
        assert(c == s[i]);
        assert(s.take(i + 1).drop_last() =~= s.take(i));
        if c == '\n' {
            line_number = line_number + 1;
            let text = trimmed_text(&line);
            let ghost done = lines_acc(s.take(i + 1)).0;
            assert(done == lines_acc(s.take(i)).0.push(line@));
            assert(done[line_number - 1] == line@);
            assert forall|j: int| 0 <= j < line_number - 1 implies #[trigger] done[j] == lines_acc(
                s.take(i),
            ).0[j] by {}
            assert(entries_among(lines_acc(s.take(i)).0, (line_number - 1) as nat) == entries_among(
                done,
                (line_number - 1) as nat,
            )) by {
                lemma_entries_among_prefix(lines_acc(s.take(i)).0, done, (line_number - 1) as nat);
            }
            if text.unicode_len() != 0 {
                proof {
                    views = views.push((line_number, text@));
                }
                entries.push((line_number, text));
            }
            line = Vec::new();
        } else {
            line.push(c);
        }
    }
    assert(s.take(s.len() as int) =~= s);
    let ghost done = lines_acc(s).0;
    if line.len() != 0 {
        let text = trimmed_text(&line);
        assert(text_lines(s) == done.push(line@));
        assert(entries_among(done, line_number as nat) == entries_among(done.push(line@), line_number as nat)) by {
            lemma_entries_among_prefix(done, done.push(line@), line_number as nat);
        }
        if text.unicode_len() != 0 {
            proof {
                views = views.push(((line_number + 1) as usize, text@));
            }
            entries.push((line_number + 1, text));
        }
    }
    entries
}

proof fn lemma_entries_among_prefix(a: Seq<Seq<char>>, b: Seq<Seq<char>>, n: nat)
    requires
        n <= a.len(),
        n <= b.len(),
        forall|j: int| 0 <= j < n ==> a[j] == b[j],
    ensures
        entries_among(a, n) == entries_among(b, n),
    decreases n,
{
    if n > 0 {
        lemma_entries_among_prefix(a, b, (n - 1) as nat);
    }
}

/// The characters `chars[a..b]` as a `String`.
pub fn text_of(chars: &Vec<char>, a: usize, b: usize) -> (r: String)
    requires
        a <= b <= chars@.len(),
    ensures
        r@ == chars@.subrange(a as int, b as int),
{
    let mut s = String::new();
    let mut i: usize = a;
    while i < b
        invariant
            a <= i <= b,
            b <= chars@.len(),
            s@ =~= chars@.subrange(a as int, i as int),
        decreases b - i,
    {
        push_char(&mut s, chars[i]);
        i = i + 1;
    }
    s
}

/// The lines of `content`, each as its characters.
pub fn split_lines(content: &str) -> (r: Vec<Vec<char>>)
    ensures
        r@.len() == text_lines(content@).len(),
        forall|k: int| 0 <= k < r@.len() ==> (#[trigger] r@[k])@ == text_lines(content@)[k],
{
    let total = content.unicode_len();
    let ghost s = content@;
    let mut done: Vec<Vec<char>> = Vec::new();
    let mut line: Vec<char> = Vec::new();
    for c in it: content.chars()
        invariant
            total == s.len(),
            it.seq() == s,
            lines_acc(s.take(it.index() as int)).1 == line@,
            done@.len() == lines_acc(s.take(it.index() as int)).0.len(),
            forall|k: int|
                0 <= k < done@.len() ==> (#[trigger] done@[k])@ == lines_acc(
                    s.take(it.index() as int),
                ).0[k],
    {
        let ghost i = it.index() as int;
        assert(c == s[i]);
        assert(s.take(i + 1).drop_last() =~= s.take(i));
        if c == '\n' {
            done.push(line);
            line = Vec::new();
        } else {
            line.push(c);
        }
    }
    assert(s.take(s.len() as int) =~= s);
    if line.len() != 0 {
        done.push(line);
    }
    done
}

/// The white-space separated words of `line`.
fn line_words(line: &Vec<char>) -> (r: Vec<Vec<char>>)
    ensures
        r@.len() == words(line@).len(),
        forall|k: int| 0 <= k < r@.len() ==> (#[trigger] r@[k])@ == words(line@)[k],
{
    let n = line.len();
    let mut done: Vec<Vec<char>> = Vec::new();
    let mut cur: Vec<char> = Vec::new();
    let mut i: usize = 0;
    while i < n
        invariant
            i <= n,
            n == line@.len(),
            words_acc(line@.take(i as int)).1 == cur@,
            done@.len() == words_acc(line@.take(i as int)).0.len(),
            forall|k: int|
                0 <= k < done@.len() ==> (#[trigger] done@[k])@ == words_acc(
                    line@.take(i as int),
                ).0[k],
        decreases n - i,
    {
        assert(line@.take(i + 1).drop_last() =~= line@.take(i as int));
        let c = line[i];
        if is_space_char(c) {
            if cur.len() != 0 {
                done.push(cur);
                cur = Vec::new();
            }
        } else {
            cur.push(c);
        }
        i = i + 1;
    }
    assert(line@.take(n as int) =~= line@);
    if cur.len() != 0 {
        done.push(cur);
    }
    done
}

/// The effective user id in the text of a process status file, or `unknown`
/// where the file names none.
pub fn uid_from_status(status: &str) -> (r: String)
    ensures
        r@ == (match uid_field(status@) {
            Some(w) => w,
            None => "unknown"@,
        }),
{
    let lines = split_lines(status);
    let ghost ls = text_lines(status@);
    let n = lines.len();
    let mut k: usize = 0;
    assert(ls.subrange(0, n as int) =~= ls);
    while k < n
        invariant
            k <= n,
            n == lines@.len(),
            n == ls.len(),
            ls == text_lines(status@),
            forall|j: int| 0 <= j < n ==> (#[trigger] lines@[j])@ == ls[j],
            uid_among(ls) == uid_among(ls.subrange(k as int, n as int)),
        decreases n - k,
    {
        let line = &lines[k];
        assert(line@ == ls[k as int]);
        assert(ls.subrange(k as int, n as int)[0] == ls[k as int]);
        assert(ls.subrange(k as int, n as int).drop_first() =~= ls.subrange(k + 1, n as int));
        if line.len() >= 4 && line[0] == 'U' && line[1] == 'i' && line[2] == 'd' && line[3] == ':' {
            let w = line_words(line);
            if w.len() > 2 {
                let word = &w[2];
                return text_of(word, 0, word.len());
            } else {
                return String::from_str("unknown");
            }
        }
        k = k + 1;
    }
    String::from_str("unknown")
}

} // verus!
