//! Synchronised lyrics: the tags and texts of an LRC text, and which line is
//! being sung.

use crate::lines::{split_lines, text_lines, text_of, trim, trim_range};
use vstd::prelude::*;

verus! {

/// One line of synchronised lyrics. `at` stands for the moment the line
/// starts: of two lines, the one with the smaller `at` starts first, and
/// equal values start together. A playback position is given on the same
/// scale.
pub struct LyricLine {
    pub at: u64,
    pub text: String,
}

/// Whether the lines are in the order they start.
pub open spec fn in_start_order(lyrics: Seq<LyricLine>) -> bool {
    forall|i: int, j: int| 0 <= i <= j < lyrics.len() ==> lyrics[i].at <= lyrics[j].at
}

/// Whether line `i` is the last one that has started at `position`.
pub open spec fn is_current_line(lyrics: Seq<LyricLine>, position: u64, i: int) -> bool {
    &&& 0 <= i < lyrics.len()
    &&& lyrics[i].at <= position
    &&& (i + 1 == lyrics.len() || lyrics[i + 1].at > position)
}

/// The index of the last line that has started at `position`: the line
/// before the first one that starts later. `None` while no line has started.
pub fn current_lyric_index(lyrics: &Vec<LyricLine>, position: u64) -> (r: Option<usize>)
    requires
        in_start_order(lyrics@),
    ensures
        match r {
            None => forall|k: int| 0 <= k < lyrics@.len() ==> #[trigger] lyrics@[k].at > position,
            Some(i) => is_current_line(lyrics@, position, i as int),
        },
{
    let n = lyrics.len();
    let mut lo: usize = 0;
    let mut hi: usize = n;
    while lo < hi
        invariant
            lo <= hi <= n,
            n == lyrics@.len(),
            in_start_order(lyrics@),
            forall|k: int| 0 <= k < lo ==> #[trigger] lyrics@[k].at <= position,
            forall|k: int| hi <= k < n ==> #[trigger] lyrics@[k].at > position,
        decreases hi - lo,
    {
        let mid = lo + (hi - lo) / 2;
        if lyrics[mid].at <= position {
            lo = mid + 1;
        } else {
            hi = mid;
        }
    }
    if lo == 0 {
        None
    } else {
        Some(lo - 1)
    }
}

/// The text of the last line that has started at `position`. `None` while
/// no line has started.
pub fn get_lyric_current_line(lyrics: &Vec<LyricLine>, position: u64) -> (r: Option<&str>)
    requires
        in_start_order(lyrics@),
    ensures
        match r {
            None => forall|k: int| 0 <= k < lyrics@.len() ==> #[trigger] lyrics@[k].at > position,
            Some(text) => exists|i: int|
                is_current_line(lyrics@, position, i) && text@ == (#[trigger] lyrics@[i]).text@,
        },
{
    match current_lyric_index(lyrics, position) {
        Some(i) => Some(lyrics[i].text.as_str()),
        None => None,
    }
}

/// The index of the first `c` in `s`, if any.
pub open spec fn find_char(s: Seq<char>, c: char) -> Option<int>
    decreases s.len(),
{
    if s.len() == 0 {
        None
    } else if s[0] == c {
        Some(0)
    } else {
        match find_char(s.drop_first(), c) {
            Some(i) => Some(i + 1),
            None => None,
        }
    }
}

pub proof fn lemma_find_char_bound(s: Seq<char>, c: char)
    ensures
        find_char(s, c) matches Some(i) ==> 0 <= i < s.len(),
    decreases s.len(),
{
    if s.len() > 0 && s[0] != c {
        lemma_find_char_bound(s.drop_first(), c);
    }
}

proof fn lemma_find_char_at(s: Seq<char>, c: char, e: int)
    requires
        0 <= e <= s.len(),
        forall|k: int| 0 <= k < e ==> s[k] != c,
        e < s.len() ==> s[e] == c,
    ensures
        find_char(s, c) == if e < s.len() {
            Some(e)
        } else {
            None::<int>
        },
    decreases s.len(),
{
    if s.len() > 0 && e > 0 {
        lemma_find_char_at(s.drop_first(), c, e - 1);
    }
}

/// The time tags at the start of `s` and what follows them: each tag is the
/// text between a `[` that starts the rest and the next `]`. Reading stops at
/// a rest that does not start with `[` or has no `]`.
pub open spec fn lrc_tags(s: Seq<char>) -> (Seq<Seq<char>>, Seq<char>)
    decreases s.len(),
{
    if s.len() > 0 && s[0] == '[' {
        let v = s.drop_first();
        match find_char(v, ']') {
            Some(end) => {
                proof {
                    lemma_find_char_bound(v, ']');
                }
                let inner = lrc_tags(v.subrange(end + 1, v.len() as int));
                (seq![v.take(end)] + inner.0, inner.1)
            },
            None => (Seq::empty(), s),
        }
    } else {
        (Seq::empty(), s)
    }
}

/// The time tags of an LRC line and its text: the line is trimmed, its tags
/// read, and what follows them trimmed again.
pub open spec fn lrc_parts(line: Seq<char>) -> (Seq<Seq<char>>, Seq<char>) {
    let (tags, rest) = lrc_tags(trim(line));
    (tags, trim(rest))
}

/// The (tag, text) pairs of `lines`: every tag of every line, in order, each
/// with the text of its line.
pub open spec fn lrc_pairs(lines: Seq<Seq<char>>) -> Seq<(Seq<char>, Seq<char>)>
    decreases lines.len(),
{
    if lines.len() == 0 {
        Seq::empty()
    } else {
        let (tags, text) = lrc_parts(lines.last());
        lrc_pairs(lines.drop_last()) + tags.map_values(|t: Seq<char>| (t, text))
    }
}

/// The (tag, text) pairs of an LRC text.
pub open spec fn lrc_pairs_of(input: Seq<char>) -> Seq<(Seq<char>, Seq<char>)> {
    lrc_pairs(text_lines(input))
}

/// The time tags and the text of one LRC line.
fn line_parts(line: &Vec<char>) -> (r: (Vec<String>, String))
    ensures
        r.0@.len() == lrc_parts(line@).0.len(),
        forall|k: int| 0 <= k < r.0@.len() ==> (#[trigger] r.0@[k])@ == lrc_parts(line@).0[k],
        r.1@ == lrc_parts(line@).1,
{
    let n = line.len();
    assert(line@.subrange(0, n as int) =~= line@);
    let (a, b) = trim_range(line, 0, n);
    let ghost whole = line@.subrange(a as int, b as int);
    let ghost mut found: Seq<Seq<char>> = Seq::empty();
    let mut tags: Vec<String> = Vec::new();
    let mut pos: usize = a;
    let mut reading = true;
    assert(found + lrc_tags(line@.subrange(pos as int, b as int)).0 =~= lrc_tags(whole).0);
    while reading
        invariant
            a <= pos <= b <= n,
            n == line@.len(),
            whole == line@.subrange(a as int, b as int),
            tags@.len() == found.len(),
            forall|k: int| 0 <= k < tags@.len() ==> (#[trigger] tags@[k])@ == found[k],
            found + lrc_tags(line@.subrange(pos as int, b as int)).0 == lrc_tags(whole).0,
            lrc_tags(line@.subrange(pos as int, b as int)).1 == lrc_tags(whole).1,
            !reading ==> lrc_tags(line@.subrange(pos as int, b as int)) == (
                Seq::<Seq<char>>::empty(),
                line@.subrange(pos as int, b as int),
            ),
        decreases (b - pos) * 2 + if reading {
            1int
        } else {
            0int
        },
    {
        let ghost s = line@.subrange(pos as int, b as int);
        if pos < b && line[pos] == '[' {
            let mut j = pos + 1;
            while j < b && line[j] != ']'
                invariant
                    pos < j <= b,
                    b <= line@.len(),
                    forall|k: int| pos < k < j ==> line@[k] != ']',
                decreases b - j,
            {
                j = j + 1;
            }
            let ghost v = s.drop_first();
            assert(v =~= line@.subrange(pos + 1, b as int));
            proof {
                lemma_find_char_at(v, ']', j - pos - 1);
            }
            if j < b {
                let tag = text_of(line, pos + 1, j);
                assert(v.take(j - pos - 1) =~= line@.subrange(pos + 1, j as int));
                assert(v.subrange(j - pos, v.len() as int) =~= line@.subrange(j + 1, b as int));
                proof {
                    found = found.push(tag@);
                }
                tags.push(tag);
                assert(found + lrc_tags(line@.subrange(j + 1, b as int)).0 =~= lrc_tags(whole).0);
                pos = j + 1;
            } else {
                reading = false;
            }
        } else {
            reading = false;
        }
    }
    assert(found =~= lrc_tags(whole).0);
    let (c, d) = trim_range(line, pos, b);
    let text = text_of(line, c, d);
    (tags, text)
}

/// The (tag, text) pairs of an LRC text: for each line, each time tag at its
/// start with the text that follows the tags. Reading the tags as times, and
/// ordering the lines by them, is left to the caller.
pub fn lrc_entries(input: &str) -> (r: Vec<(String, String)>)
    ensures
        r@.len() == lrc_pairs_of(input@).len(),
        forall|k: int|
            0 <= k < r@.len() ==> (#[trigger] r@[k]).0@ == lrc_pairs_of(input@)[k].0 && r@[k].1@
                == lrc_pairs_of(input@)[k].1,
{
    let lines = split_lines(input);
    let ghost ls = text_lines(input@);
    let mut pairs: Vec<(String, String)> = Vec::new();
    let mut i: usize = 0;
    while i < lines.len()
        invariant
            i <= lines@.len(),
            lines@.len() == ls.len(),
            ls == text_lines(input@),
            forall|k: int| 0 <= k < lines@.len() ==> (#[trigger] lines@[k])@ == ls[k],
            pairs@.len() == lrc_pairs(ls.take(i as int)).len(),
            forall|k: int|
                0 <= k < pairs@.len() ==> (#[trigger] pairs@[k]).0@ == lrc_pairs(ls.take(i as int))[k].0
                    && pairs@[k].1@ == lrc_pairs(ls.take(i as int))[k].1,
        decreases lines@.len() - i,
    {
        let ghost before = lrc_pairs(ls.take(i as int));
        assert(ls.take(i + 1).drop_last() =~= ls.take(i as int));
        assert(ls.take(i + 1).last() == lines@[i as int]@);
        let (tags, text) = line_parts(&lines[i]);
        let ghost parts = lrc_parts(lines@[i as int]@);
        let ghost added = parts.0.map_values(|t: Seq<char>| (t, parts.1));
        assert(lrc_pairs(ls.take(i + 1)) == before + added);
        let mut k: usize = 0;
        while k < tags.len()
            invariant
                k <= tags@.len(),
                tags@.len() == parts.0.len(),
                forall|m: int| 0 <= m < tags@.len() ==> (#[trigger] tags@[m])@ == parts.0[m],
                text@ == parts.1,
                added == parts.0.map_values(|t: Seq<char>| (t, parts.1)),
                pairs@.len() == before.len() + k,
                forall|m: int|
                    0 <= m < pairs@.len() ==> (#[trigger] pairs@[m]).0@ == (before + added)[m].0
                        && pairs@[m].1@ == (before + added)[m].1,
            decreases tags@.len() - k,
        {
            let tag = text_of_string(&tags[k]);
            let line_text = text_of_string(&text);
            pairs.push((tag, line_text));
            k = k + 1;
        }
        i = i + 1;
    }
    assert(ls.take(lines@.len() as int) =~= ls);
    pairs
}

/// A copy of `s`.
fn text_of_string(s: &String) -> (r: String)
    ensures
        r@ == s@,
{
    s.clone()
}

} // verus!
