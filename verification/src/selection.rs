//! How the window turns a selection and a button or a drop into a batch move.

use crate::reorder::{destinations_of, first_move_error, lemma_first_move_error_none, sources_of, valid_moves};
use vstd::prelude::*;

verus! {

/// Number of values in `s` below `bound`.
pub open spec fn count_less(s: Seq<usize>, bound: usize) -> nat
    decreases s.len(),
{
    if s.len() == 0 {
        0
    } else {
        count_less(s.drop_last(), bound) + if s.last() < bound {
            1nat
        } else {
            0nat
        }
    }
}

/// Whether the values below `bound` all come before the others.
pub open spec fn partitioned_below(s: Seq<usize>, bound: usize) -> bool {
    forall|a: int, b: int| 0 <= a < b < s.len() && #[trigger] s[b] < bound ==> #[trigger] s[a] < bound
}

/// Whether `s` is strictly increasing.
pub open spec fn strictly_increasing(s: Seq<usize>) -> bool {
    forall|a: int, b: int| 0 <= a < b < s.len() ==> #[trigger] s[a] < #[trigger] s[b]
}

/// `a - b`, or 0 when `b` is larger.
pub open spec fn saturating_sub(a: int, b: int) -> int {
    if a >= b {
        a - b
    } else {
        0
    }
}

/// The first new index of a group moved to the gap `boundary` of the original
/// list: the gap shifts down by the group items before it, and the group must
/// still fit before the end.
pub open spec fn group_start(sources: Seq<usize>, boundary: usize, playlist_len: usize) -> int {
    let shifted = saturating_sub(boundary as int, count_less(sources, boundary) as int);
    let last_start = saturating_sub(playlist_len as int, sources.len() as int);
    if shifted <= last_start {
        shifted
    } else {
        last_start
    }
}

/// The moves that put the group `sources`, in its order, at consecutive new
/// indices from `group_start`.
pub open spec fn group_moves(sources: Seq<usize>, boundary: usize, playlist_len: usize) -> Seq<
    (usize, usize),
> {
    let start = group_start(sources, boundary, playlist_len);
    Seq::new(sources.len(), |k: int| (sources[k], (start + k) as usize))
}

proof fn lemma_count_less_partition(s: Seq<usize>, bound: usize, n: int)
    requires
        partitioned_below(s, bound),
        0 <= n <= s.len(),
        forall|k: int| 0 <= k < n ==> #[trigger] s[k] < bound,
        n < s.len() ==> s[n] >= bound,
    ensures
        count_less(s, bound) == n,
    decreases s.len(),
{
    if s.len() > 0 {
        let p = s.drop_last();
        if n == s.len() {
            assert forall|k: int| 0 <= k < p.len() implies #[trigger] p[k] < bound by {
                assert(p[k] == s[k]);
            }
            assert(s[s.len() - 1] < bound);
            assert forall|a: int, b: int| 0 <= a < b < p.len() && #[trigger] p[b] < bound implies #[trigger] p[a] < bound by {
                assert(p[a] == s[a] && p[b] == s[b]);
            }
            lemma_count_less_partition(p, bound, p.len() as int);
        } else {
            assert(s.last() >= bound) by {
                if s.last() < bound {
                    assert(s[s.len() - 1] < bound);
                    assert(s[n] < bound);
                }
            }
            assert forall|k: int| 0 <= k < n implies #[trigger] p[k] < bound by {
                assert(p[k] == s[k]);
            }
            assert forall|a: int, b: int| 0 <= a < b < p.len() && #[trigger] p[b] < bound implies #[trigger] p[a] < bound by {
                assert(p[a] == s[a] && p[b] == s[b]);
            }
            if n < p.len() {
                assert(p[n] == s[n]);
            }
            lemma_count_less_partition(p, bound, n);
        }
    }
}

/// Counts the values of a partitioned slice below `bound`; this is the
/// partition point.
fn partition_point_below(s: &[usize], bound: usize) -> (r: usize)
    requires
        partitioned_below(s@, bound),
    ensures
        r == count_less(s@, bound),
        r <= s@.len(),
{
    let mut n: usize = 0;
    while n < s.len() && s[n] < bound
        invariant
            n <= s@.len(),
            forall|k: int| 0 <= k < n ==> #[trigger] s@[k] < bound,
        decreases s@.len() - n,
    {
        n = n + 1;
    }
    proof {
        lemma_count_less_partition(s@, bound, n as int);
    }
    n
}

/// Moves a group to the gap `boundary` of the original list (0 is before the
/// first item, the length after the last), keeping its order. The group's
/// indices must be partitioned by the boundary, as a sorted selection is.
pub fn move_group_to_boundary(sources: &[usize], boundary: usize, playlist_len: usize) -> (r: Vec<
    (usize, usize),
>)
    requires
        partitioned_below(sources@, boundary),
    ensures
        r@ == group_moves(sources@, boundary, playlist_len),
{
    let removed_before = partition_point_below(sources, boundary);
    let shifted = if boundary >= removed_before {
        boundary - removed_before
    } else {
        0
    };
    let last_start = if playlist_len >= sources.len() {
        playlist_len - sources.len()
    } else {
        0
    };
    let start = if shifted <= last_start {
        shifted
    } else {
        last_start
    };
    let ghost g = group_moves(sources@, boundary, playlist_len);
    let mut moves: Vec<(usize, usize)> = Vec::new();
    let mut k: usize = 0;
    while k < sources.len()
        invariant
            k <= sources@.len(),
            start == group_start(sources@, boundary, playlist_len),
            start + sources@.len() <= if playlist_len >= sources@.len() {
                playlist_len as int
            } else {
                sources@.len() as int
            },
            g == group_moves(sources@, boundary, playlist_len),
            moves@ =~= g.take(k as int),
        decreases sources@.len() - k,
    {
        moves.push((sources[k], start + k));
        k = k + 1;
    }
    assert(g.take(sources@.len() as int) =~= g);
    moves
}

/// A group of distinct items, given in increasing order, moved to any gap of
/// the playlist is a move that the playlist accepts, and the group lands on
/// consecutive places in its order.
pub proof fn lemma_group_move_is_valid(sources: Seq<usize>, boundary: usize, playlist_len: usize)
    requires
        strictly_increasing(sources),
        forall|k: int| 0 <= k < sources.len() ==> #[trigger] sources[k] < playlist_len,
    ensures
        partitioned_below(sources, boundary),
        first_move_error(group_moves(sources, boundary, playlist_len), playlist_len) is None,
        forall|k: int|
            0 <= k < sources.len() ==> #[trigger] group_moves(sources, boundary, playlist_len)[k].1
                == group_start(sources, boundary, playlist_len) + k,
{
    let m = group_moves(sources, boundary, playlist_len);
    lemma_distinct_bound(sources, playlist_len);
    assert(valid_moves(m, playlist_len)) by {
        assert(sources_of(m) =~= sources);
        let ds = destinations_of(m);
        assert forall|a: int, b: int| 0 <= a < ds.len() && 0 <= b < ds.len() && a != b implies ds[a]
            != ds[b] by {}
    }
    lemma_first_move_error_none(m, playlist_len);
}

/// A strictly increasing list of indices below `n` has at most `n` items.
pub proof fn lemma_distinct_count(s: Seq<usize>, n: usize)
    requires
        strictly_increasing(s),
        forall|k: int| 0 <= k < s.len() ==> #[trigger] s[k] < n,
    ensures
        s.len() <= n,
{
    lemma_distinct_bound(s, n);
}

/// A strictly increasing list of indices below `n` has at most `n` items.
proof fn lemma_distinct_bound(s: Seq<usize>, n: usize)
    requires
        strictly_increasing(s),
        forall|k: int| 0 <= k < s.len() ==> #[trigger] s[k] < n,
    ensures
        s.len() <= n,
        forall|k: int| 0 <= k < s.len() ==> s[k] >= k,
{
    assert forall|k: int| 0 <= k < s.len() implies s[k] >= k by {
        lemma_increasing_at_least(s, k);
    }
    if s.len() > 0 {
        assert(s[s.len() - 1] >= s.len() - 1);
    }
}

proof fn lemma_increasing_at_least(s: Seq<usize>, k: int)
    requires
        strictly_increasing(s),
        0 <= k < s.len(),
    ensures
        s[k] >= k,
    decreases k,
{
    if k > 0 {
        lemma_increasing_at_least(s, k - 1);
    }
}

/// The playlist buttons that move the selected items.
#[derive(Clone, Copy, Debug, PartialEq, Eq, Structural)]
pub enum MoveAction {
    /// Every selected item one place up.
    Up,
    /// Every selected item one place down.
    Down,
    /// The selection, in order, to the top.
    Top,
    /// The selection, in order, to the bottom.
    Bottom,
    /// The selection, in order, right after the current item.
    SelectedAfterCurrent,
    /// The current item right before the first selected item.
    CurrentBeforeSelected,
}

/// Whether every move leaves its item where it is.
pub open spec fn all_stay(moves: Seq<(usize, usize)>) -> bool {
    forall|k: int| 0 <= k < moves.len() ==> #[trigger] moves[k].0 == moves[k].1
}

/// The moves that `action` asks for, before dropping a batch that moves nothing.
pub open spec fn action_moves(
    selected: Seq<usize>,
    playlist_len: usize,
    current: Option<usize>,
    action: MoveAction,
) -> Option<Seq<(usize, usize)>> {
    match action {
        MoveAction::Up => if selected[0] == 0 {
            None
        } else {
            Some(Seq::new(selected.len(), |k: int| (selected[k], (selected[k] - 1) as usize)))
        },
        MoveAction::Down => if selected.last() == playlist_len - 1 {
            None
        } else {
            Some(Seq::new(selected.len(), |k: int| (selected[k], (selected[k] + 1) as usize)))
        },
        MoveAction::Top => Some(group_moves(selected, 0, playlist_len)),
        MoveAction::Bottom => Some(group_moves(selected, playlist_len, playlist_len)),
        MoveAction::SelectedAfterCurrent => match current {
            None => None,
            Some(c) => if selected.contains(c) {
                None
            } else {
                Some(group_moves(selected, (c + 1) as usize, playlist_len))
            },
        },
        MoveAction::CurrentBeforeSelected => match current {
            None => None,
            Some(c) => if selected.contains(c) {
                None
            } else {
                Some(group_moves(seq![c], selected[0], playlist_len))
            },
        },
    }
}

/// The batch move that a playlist button sends, if any: nothing without a
/// selection, on an empty playlist, when the action cannot apply, or when it
/// would move nothing.
pub open spec fn planned_moves(
    selected: Seq<usize>,
    playlist_len: usize,
    current: Option<usize>,
    action: MoveAction,
) -> Option<Seq<(usize, usize)>> {
    if selected.len() == 0 || playlist_len == 0 {
        None
    } else {
        match action_moves(selected, playlist_len, current, action) {
            None => None,
            Some(m) => if all_stay(m) {
                None
            } else {
                Some(m)
            },
        }
    }
}

/// Whether every move leaves its item where it is.
fn moves_all_stay(moves: &Vec<(usize, usize)>) -> (r: bool)
    ensures
        r == all_stay(moves@),
{
    let mut k: usize = 0;
    while k < moves.len()
        invariant
            k <= moves@.len(),
            forall|i: int| 0 <= i < k ==> #[trigger] moves@[i].0 == moves@[i].1,
        decreases moves@.len() - k,
    {
        if moves[k].0 != moves[k].1 {
            return false;
        }
        k = k + 1;
    }
    true
}

/// Whether `x` is among the values of `s`.
fn contains_index(s: &[usize], x: usize) -> (r: bool)
    ensures
        r == s@.contains(x),
{
    let mut k: usize = 0;
    while k < s.len()
        invariant
            k <= s@.len(),
            forall|i: int| 0 <= i < k ==> #[trigger] s@[i] != x,
        decreases s@.len() - k,
    {
        if s[k] == x {
            return true;
        }
        k = k + 1;
    }
    false
}

/// Shifts every selected item by one place, up or down.
fn shifted_moves(selected: &[usize], up: bool) -> (r: Vec<(usize, usize)>)
    requires
        up ==> forall|k: int| 0 <= k < selected@.len() ==> #[trigger] selected@[k] > 0,
        !up ==> forall|k: int| 0 <= k < selected@.len() ==> #[trigger] selected@[k] < usize::MAX,
    ensures
        up ==> r@ == Seq::new(
            selected@.len(),
            |k: int| (selected@[k], (selected@[k] - 1) as usize),
        ),
        !up ==> r@ == Seq::new(
            selected@.len(),
            |k: int| (selected@[k], (selected@[k] + 1) as usize),
        ),
{
    let mut moves: Vec<(usize, usize)> = Vec::new();
    let mut k: usize = 0;
    while k < selected.len()
        invariant
            k <= selected@.len(),
            up ==> forall|i: int| 0 <= i < selected@.len() ==> #[trigger] selected@[i] > 0,
            !up ==> forall|i: int| 0 <= i < selected@.len() ==> #[trigger] selected@[i] < usize::MAX,
            up ==> moves@ =~= Seq::new(k as nat, |i: int| (selected@[i], (selected@[i] - 1) as usize)),
            !up ==> moves@ =~= Seq::new(k as nat, |i: int| (selected@[i], (selected@[i] + 1) as usize)),
        decreases selected@.len() - k,
    {
        let i = selected[k];
        if up {
            moves.push((i, i - 1));
        } else {
            moves.push((i, i + 1));
        }
        k = k + 1;
    }
    moves
}

/// The batch move that a playlist button sends for the selection `selected`
/// (increasing indices of existing items) and the current item.
pub fn plan_selected_move(
    selected: &[usize],
    playlist_len: usize,
    current: Option<usize>,
    action: MoveAction,
) -> (r: Option<Vec<(usize, usize)>>)
    requires
        strictly_increasing(selected@),
        forall|k: int| 0 <= k < selected@.len() ==> #[trigger] selected@[k] < playlist_len,
        current matches Some(c) ==> c < usize::MAX,
    ensures
        match planned_moves(selected@, playlist_len, current, action) {
            None => r is None,
            Some(m) => r is Some && r.unwrap()@ == m,
        },
{
    if selected.len() == 0 || playlist_len == 0 {
        return None;
    }
    let moves = match action {
        MoveAction::Up => {
            if selected[0] == 0 {
                return None;
            }
            shifted_moves(selected, true)
        },
        MoveAction::Down => {
            if selected[selected.len() - 1] == playlist_len - 1 {
                return None;
            }
            shifted_moves(selected, false)
        },
        MoveAction::Top => move_group_to_boundary(selected, 0, playlist_len),
        MoveAction::Bottom => move_group_to_boundary(selected, playlist_len, playlist_len),
        MoveAction::SelectedAfterCurrent => {
            let c = match current {
                Some(c) => c,
                None => {
                    return None;
                },
            };
            if contains_index(selected, c) {
                return None;
            }
            move_group_to_boundary(selected, c + 1, playlist_len)
        },
        MoveAction::CurrentBeforeSelected => {
            let c = match current {
                Some(c) => c,
                None => {
                    return None;
                },
            };
            if contains_index(selected, c) {
                return None;
            }
            let group: [usize; 1] = [c];
            assert(group@ =~= seq![c]);
            move_group_to_boundary(&group, selected[0], playlist_len)
        },
    };
    if moves_all_stay(&moves) {
        return None;
    }
    Some(moves)
}

/// The batch move that dropping a dragged group on the gap `boundary` sends,
/// if it moves anything.
pub fn plan_drop_move(sources: &[usize], boundary: usize, playlist_len: usize) -> (r: Option<
    Vec<(usize, usize)>,
>)
    requires
        partitioned_below(sources@, boundary),
    ensures
        all_stay(group_moves(sources@, boundary, playlist_len)) ==> r is None,
        !all_stay(group_moves(sources@, boundary, playlist_len)) ==> r is Some && r.unwrap()@
            == group_moves(sources@, boundary, playlist_len),
{
    let moves = move_group_to_boundary(sources, boundary, playlist_len);
    if moves_all_stay(&moves) {
        None
    } else {
        Some(moves)
    }
}

/// Every batch move that a playlist button sends is accepted by a playlist
/// of the same length, for a current item that names an item.
pub proof fn lemma_planned_moves_are_valid(
    selected: Seq<usize>,
    playlist_len: usize,
    current: Option<usize>,
    action: MoveAction,
)
    requires
        strictly_increasing(selected),
        forall|k: int| 0 <= k < selected.len() ==> #[trigger] selected[k] < playlist_len,
        current matches Some(c) ==> c < playlist_len,
        planned_moves(selected, playlist_len, current, action) is Some,
    ensures
        first_move_error(planned_moves(selected, playlist_len, current, action)->0, playlist_len)
            is None,
{
    let m = planned_moves(selected, playlist_len, current, action)->0;
    match action {
        MoveAction::Up | MoveAction::Down => {
            if action == MoveAction::Up {
                assert forall|k: int| 0 <= k < selected.len() implies #[trigger] selected[k] > 0 by {
                    if k > 0 {
                        assert(selected[0] < selected[k]);
                    }
                }
            } else {
                assert forall|k: int| 0 <= k < selected.len() implies #[trigger] selected[k] + 1
                    < playlist_len by {
                    if k < selected.len() - 1 {
                        assert(selected[k] < selected[selected.len() - 1]);
                    }
                }
            }
            assert(valid_moves(m, playlist_len)) by {
                let ss = sources_of(m);
                let ds = destinations_of(m);
                assert forall|a: int, b: int| 0 <= a < ss.len() && 0 <= b < ss.len() && a != b implies ss[a]
                    != ss[b] by {
                    if a < b {
                        assert(selected[a] < selected[b]);
                    } else {
                        assert(selected[b] < selected[a]);
                    }
                }
                assert forall|a: int, b: int| 0 <= a < ds.len() && 0 <= b < ds.len() && a != b implies ds[a]
                    != ds[b] by {
                    if a < b {
                        assert(selected[a] < selected[b]);
                    } else {
                        assert(selected[b] < selected[a]);
                    }
                }
            }
            lemma_first_move_error_none(m, playlist_len);
        },
        MoveAction::Top => {
            lemma_group_move_is_valid(selected, 0, playlist_len);
        },
        MoveAction::Bottom => {
            lemma_group_move_is_valid(selected, playlist_len, playlist_len);
        },
        MoveAction::SelectedAfterCurrent => {
            lemma_group_move_is_valid(selected, (current->0 + 1) as usize, playlist_len);
        },
        MoveAction::CurrentBeforeSelected => {
            lemma_group_move_is_valid(seq![current->0], selected[0], playlist_len);
        },
    }
}

} // verus!
