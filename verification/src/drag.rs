//! The payload that a dragged group of playlist rows carries, and the edit
//! that dropping it sends.

use crate::change::{PlaylistChangeKind, PlaylistChangeMessage};
use crate::selection::{all_stay, group_moves, partitioned_below, plan_drop_move};
use crate::text::decimal;
use vstd::prelude::*;

verus! {

/// What `serde_json::from_str::<(usize, Vec<usize>)>` reads from a text.
pub uninterp spec fn json_index_and_list(text: Seq<char>) -> Option<(usize, Seq<usize>)>;

/// The numbers of `list` in decimal, separated by commas.
pub open spec fn decimals_joined(list: Seq<usize>) -> Seq<char>
    decreases list.len(),
{
    if list.len() == 0 {
        Seq::empty()
    } else if list.len() == 1 {
        decimal(list[0] as nat)
    } else {
        decimals_joined(list.drop_last()) + seq![','] + decimal(list.last() as nat)
    }
}

/// Compact JSON for a pair of an index and a list of indices, as
/// `serde_json::to_string` writes it: `[index,[a,b,...]]`, numbers in decimal
/// without spaces.
pub open spec fn payload_text(index: usize, list: Seq<usize>) -> Seq<char> {
    seq!['['] + decimal(index as nat) + seq![',', '['] + decimals_joined(list) + seq![']', ']']
}

/// `serde_json::from_str::<(usize, Vec<usize>)>`: the pair that the JSON text
/// holds, or `None` when the text is not such a pair. The result depends on
/// the text alone; for JSON text in general it is not stated here. The
/// compact text of a pair, as `serde_json::to_string` writes it, reads back
/// as that pair.
#[verifier::external_body]
fn read_index_and_list(text: &str) -> (r: Option<(usize, Vec<usize>)>)
    ensures
        match r {
            Some((index, list)) => json_index_and_list(text@) == Some((index, list@)),
            None => json_index_and_list(text@) is None,
        },
        forall|index: usize, list: Seq<usize>|
            #[trigger] payload_text(index, list) == text@ ==> (match r {
                Some((i, v)) => i == index && v@ == list,
                None => false,
            }),
{
    serde_json::from_str::<(usize, Vec<usize>)>(text).ok()
}

/// `serde_json::to_string` on a pair of an index and a list of indices: the
/// compact JSON array `[index,[a,b,...]]`, each number written in decimal by
/// the compact formatter, with no spaces. The call succeeds: serde_json
/// writes such a pair (integers and a sequence of integers) into a
/// `Vec<u8>`, and its serializer reports an error for these values only when
/// the writer fails, which appending to a vector does not.
#[verifier::external_body]
fn write_index_and_list(index: usize, list: &[usize]) -> (r: Option<String>)
    ensures
        r is Some,
        r matches Some(text) ==> text@ == payload_text(index, list@),
{
    serde_json::to_string(&(index, list)).ok()
}

/// The rows that pressing row `pressed` starts to drag: the whole selection
/// when the row is selected, the row alone otherwise.
pub fn drag_sources(selected: &[usize], pressed: usize) -> (r: Vec<usize>)
    ensures
        selected@.contains(pressed) ==> r@ == selected@,
        !selected@.contains(pressed) ==> r@ == seq![pressed],
{
    let mut k: usize = 0;
    while k < selected.len()
        invariant
            k <= selected@.len(),
            forall|i: int| 0 <= i < k ==> #[trigger] selected@[i] != pressed,
        decreases selected@.len() - k,
    {
        if selected[k] == pressed {
            let mut all: Vec<usize> = Vec::new();
            let mut i: usize = 0;
            while i < selected.len()
                invariant
                    i <= selected@.len(),
                    all@ =~= selected@.take(i as int),
                decreases selected@.len() - i,
            {
                all.push(selected[i]);
                i = i + 1;
            }
            assert(selected@.take(selected@.len() as int) =~= selected@);
            return all;
        }
        k = k + 1;
    }
    let mut one: Vec<usize> = Vec::new();
    one.push(pressed);
    assert(one@ =~= seq![pressed]);
    one
}

/// The payload of a drag: the pressed row and the dragged rows, as JSON.
/// Encoding such a pair always succeeds.
pub fn drag_payload(pressed: usize, sources: &[usize]) -> (r: Option<String>)
    ensures
        r matches Some(text) && text@ == payload_text(pressed, sources@),
{
    write_index_and_list(pressed, sources)
}

/// The dragged rows that a payload names, or `None` when it is not a drag
/// payload. A payload that `drag_payload` wrote gives back its rows.
pub fn dragged_rows(payload: &str) -> (r: Option<Vec<usize>>)
    ensures
        match json_index_and_list(payload@) {
            Some((_, rows)) => r is Some && r->0@ == rows,
            None => r is None,
        },
        forall|pressed: usize, rows: Seq<usize>|
            #[trigger] payload_text(pressed, rows) == payload@ ==> (r matches Some(v) && v@ == rows),
{
    match read_index_and_list(payload) {
        Some((_, rows)) => Some(rows),
        None => None,
    }
}

/// The pressed row and the dragged rows that a payload names, or `None` when
/// it is not a drag payload. A payload that `drag_payload` wrote gives back
/// its pair.
pub fn read_drag_payload(payload: &str) -> (r: Option<(usize, Vec<usize>)>)
    ensures
        match json_index_and_list(payload@) {
            Some((pressed, rows)) => r matches Some((p, v)) && p == pressed && v@ == rows,
            None => r is None,
        },
        forall|pressed: usize, rows: Seq<usize>|
            #[trigger] payload_text(pressed, rows) == payload@ ==> (r matches Some((p, v)) && p
                == pressed && v@ == rows),
{
    read_index_and_list(payload)
}

/// Whether the values below `bound` all come first.
fn is_partitioned_below(s: &[usize], bound: usize) -> (r: bool)
    ensures
        r == partitioned_below(s@, bound),
{
    let mut k: usize = 0;
    while k < s.len() && s[k] < bound
        invariant
            k <= s@.len(),
            forall|i: int| 0 <= i < k ==> #[trigger] s@[i] < bound,
        decreases s@.len() - k,
    {
        k = k + 1;
    }
    let mut j: usize = k;
    while j < s.len()
        invariant
            k <= j <= s@.len(),
            forall|i: int| 0 <= i < k ==> #[trigger] s@[i] < bound,
            k < s@.len() ==> s@[k as int] >= bound,
            forall|i: int| k <= i < j ==> #[trigger] s@[i] >= bound,
        decreases s@.len() - j,
    {
        if s[j] < bound {
            assert(!partitioned_below(s@, bound)) by {
                assert(s@[k as int] >= bound && s@[j as int] < bound);
            }
            return false;
        }
        j = j + 1;
    }
    true
}

/// The edit that dropping the dragged rows `sources` on the gap `boundary`
/// sends, at the window's playlist version: nothing when the rows would not
/// move, or when they are not in an order that a drag produces (the rows
/// below the gap first).
pub fn drop_request(sources: &[usize], boundary: usize, playlist_len: usize, state_number: usize) -> (r:
    Option<PlaylistChangeMessage>)
    ensures
        !partitioned_below(sources@, boundary) ==> r is None,
        partitioned_below(sources@, boundary) && all_stay(group_moves(sources@, boundary, playlist_len))
            ==> r is None,
        partitioned_below(sources@, boundary) && !all_stay(group_moves(sources@, boundary, playlist_len))
            ==> (r matches Some(m) && m.state_number == state_number && (m.change matches PlaylistChangeKind::Move(
            items,
        ) && items@ == group_moves(sources@, boundary, playlist_len))),
{
    if !is_partitioned_below(sources, boundary) {
        return None;
    }
    match plan_drop_move(sources, boundary, playlist_len) {
        None => None,
        Some(moves) => Some(PlaylistChangeMessage { state_number, change: PlaylistChangeKind::Move(moves) }),
    }
}

} // verus!
