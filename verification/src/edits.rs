//! The playlist edits that the command line client sends, built against the
//! latest playlist it fetched from the daemon.

use crate::change::PlaylistChangeKind;
use crate::reorder::{destinations_of, first_move_error, lemma_first_move_error_none, sources_of, valid_moves};
use std::path::PathBuf;
use vstd::prelude::*;

verus! {

/// A playlist edit asked for on the command line.
pub enum PlaylistEdit {
    /// Append a media file.
    Add(PathBuf),
    /// Remove every item.
    Clear,
    /// Remove one item.
    Remove(usize),
    /// Move one item.
    Move { from: usize, to: usize },
    /// Put the items in a random order.
    Shuffle,
}

/// One step of the linear congruential generator that drives the shuffle.
pub open spec fn lcg_next(state: usize) -> usize {
    state.wrapping_mul(1664525).wrapping_add(1013904223)
}

/// `s` with the values at `i` and `j` exchanged.
pub open spec fn swapped(s: Seq<usize>, i: int, j: int) -> Seq<usize> {
    s.update(i, s[j]).update(j, s[i])
}

/// The Fisher-Yates shuffle of `order` driven by the generator from `state`,
/// for the positions below `index`: position `index - 1` is exchanged with
/// the position that the next generator value picks at or below it, then the
/// shorter prefix is shuffled.
pub open spec fn shuffled(order: Seq<usize>, state: usize, index: nat) -> Seq<usize>
    decreases index,
{
    if index <= 1 {
        order
    } else {
        let i = index - 1;
        let next = lcg_next(state);
        shuffled(swapped(order, i, (next % (i + 1) as usize) as int), next, i as nat)
    }
}

/// Whether `s` holds each of `0..n` exactly once.
pub open spec fn is_permutation(s: Seq<usize>, n: nat) -> bool {
    &&& s.len() == n
    &&& s.no_duplicates()
    &&& forall|k: int| 0 <= k < s.len() ==> #[trigger] s[k] < n
}

/// The moves that put the original item `order[k]` at new index `k`.
pub open spec fn moves_to_order(order: Seq<usize>) -> Seq<(usize, usize)> {
    Seq::new(order.len(), |k: int| (order[k], k as usize))
}

proof fn lemma_swap_permutation(s: Seq<usize>, n: nat, i: int, j: int)
    requires
        is_permutation(s, n),
        0 <= i < n,
        0 <= j < n,
    ensures
        is_permutation(swapped(s, i, j), n),
{
    let t = swapped(s, i, j);
    assert forall|a: int, b: int| 0 <= a < t.len() && 0 <= b < t.len() && a != b implies t[a]
        != t[b] by {
        let sa = if a == j {
            i
        } else if a == i {
            j
        } else {
            a
        };
        let sb = if b == j {
            i
        } else if b == i {
            j
        } else {
            b
        };
        assert(t[a] == s[sa] && t[b] == s[sb]);
    }
}

/// The shuffle only exchanges positions, so the result holds each original
/// index exactly once.
pub proof fn lemma_shuffle_is_permutation(order: Seq<usize>, state: usize, index: nat)
    requires
        is_permutation(order, order.len()),
        index <= order.len(),
        order.len() <= usize::MAX,
    ensures
        is_permutation(shuffled(order, state, index), order.len()),
    decreases index,
{
    if index > 1 {
        let i = index - 1;
        let next = lcg_next(state);
        let j = (next % (i + 1) as usize) as int;
        lemma_swap_permutation(order, order.len(), i, j);
        lemma_shuffle_is_permutation(swapped(order, i, j), next, i as nat);
    }
}

/// The moves that put a permutation in place are accepted by a playlist of
/// the same length.
pub proof fn lemma_order_moves_are_valid(order: Seq<usize>, n: usize)
    requires
        is_permutation(order, n as nat),
    ensures
        first_move_error(moves_to_order(order), n) is None,
{
    let m = moves_to_order(order);
    assert(sources_of(m) =~= order);
    assert(valid_moves(m, n)) by {
        let ds = destinations_of(m);
        assert forall|a: int, b: int| 0 <= a < ds.len() && 0 <= b < ds.len() && a != b implies ds[a]
            != ds[b] by {}
    }
    lemma_first_move_error_none(m, n);
}

/// The shuffled order of `0..n` for `seed`.
pub fn shuffle_order(n: usize, seed: usize) -> (r: Vec<usize>)
    ensures
        r@ == shuffled(Seq::new(n as nat, |k: int| k as usize), seed, n as nat),
        is_permutation(r@, n as nat),
{
    let ghost identity = Seq::new(n as nat, |k: int| k as usize);
    let mut order: Vec<usize> = Vec::new();
    let mut k: usize = 0;
    while k < n
        invariant
            k <= n,
            order@ =~= Seq::new(k as nat, |i: int| i as usize),
        decreases n - k,
    {
        order.push(k);
        k = k + 1;
    }
    assert(is_permutation(order@, n as nat));
    if n == 0 {
        return order;
    }
    let mut state = seed;
    let mut index: usize = n - 1;
    while index > 0
        invariant
            index < n,
            order@.len() == n,
            is_permutation(order@, n as nat),
            shuffled(order@, state, (index + 1) as nat) == shuffled(identity, seed, n as nat),
        decreases index,
    {
        state = state.wrapping_mul(1664525).wrapping_add(1013904223);
        let target = state % (index + 1);
        let ghost before = order@;
        proof {
            lemma_swap_permutation(before, n as nat, index as int, target as int);
        }
        let a = order[index];
        let b = order[target];
        order.set(index, b);
        order.set(target, a);
        assert(order@ =~= swapped(before, index as int, target as int));
        index = index - 1;
    }
    order
}

/// The identity order `0..n`.
pub open spec fn identity_order(n: nat) -> Seq<usize> {
    Seq::new(n, |k: int| k as usize)
}

/// The moves of a shuffle: they put the shuffled order of `seed` in place.
pub open spec fn shuffle_moves(playlist_len: usize, seed: usize) -> Seq<
    (usize, usize),
> {
    moves_to_order(shuffled(identity_order(playlist_len as nat), seed, playlist_len as nat))
}

/// Builds the change that `edit` sends for a playlist of `playlist_len`
/// items: an append at the end, a deletion of every item or of one, a single
/// move, or the moves of the shuffle that `seed` drives.
pub fn edit_change(edit: PlaylistEdit, playlist_len: usize, seed: usize) -> (r: PlaylistChangeKind)
    ensures
        match edit {
            PlaylistEdit::Add(path) => r matches PlaylistChangeKind::Add(items) && items@ == seq![
                (playlist_len, path),
            ],
            PlaylistEdit::Clear => r matches PlaylistChangeKind::Delete(items) && items@
                == identity_order(playlist_len as nat),
            PlaylistEdit::Remove(i) => r matches PlaylistChangeKind::Delete(items) && items@
                == seq![i],
            PlaylistEdit::Move { from, to } => r matches PlaylistChangeKind::Move(items) && items@
                == seq![(from, to)],
            PlaylistEdit::Shuffle => r matches PlaylistChangeKind::Move(items) && items@
                == shuffle_moves(playlist_len, seed),
        },
{
    match edit {
        PlaylistEdit::Add(path) => {
            let mut items: Vec<(usize, PathBuf)> = Vec::new();
            items.push((playlist_len, path));
            assert(items@ =~= seq![(playlist_len, path)]);
            PlaylistChangeKind::Add(items)
        },
        PlaylistEdit::Clear => {
            let mut items: Vec<usize> = Vec::new();
            let mut k: usize = 0;
            while k < playlist_len
                invariant
                    k <= playlist_len,
                    items@ =~= identity_order(k as nat),
                decreases playlist_len - k,
            {
                items.push(k);
                k = k + 1;
            }
            PlaylistChangeKind::Delete(items)
        },
        PlaylistEdit::Remove(index) => {
            let mut items: Vec<usize> = Vec::new();
            items.push(index);
            assert(items@ =~= seq![index]);
            PlaylistChangeKind::Delete(items)
        },
        PlaylistEdit::Move { from, to } => {
            let mut items: Vec<(usize, usize)> = Vec::new();
            items.push((from, to));
            assert(items@ =~= seq![(from, to)]);
            PlaylistChangeKind::Move(items)
        },
        PlaylistEdit::Shuffle => {
            let order = shuffle_order(playlist_len, seed);
            assert(order@ == shuffled(identity_order(playlist_len as nat), seed, playlist_len as nat));
            let mut items: Vec<(usize, usize)> = Vec::new();
            let mut target: usize = 0;
            while target < order.len()
                invariant
                    target <= order@.len(),
                    items@ =~= moves_to_order(order@).take(target as int),
                decreases order@.len() - target,
            {
                items.push((order[target], target));
                target = target + 1;
            }
            assert(moves_to_order(order@).take(order@.len() as int) =~= moves_to_order(order@));
            PlaylistChangeKind::Move(items)
        },
    }
}

/// Every shuffle is a move that the daemon accepts, whatever the seed.
pub proof fn lemma_shuffle_is_accepted(playlist_len: usize, seed: usize)
    ensures
        is_permutation(shuffled(identity_order(playlist_len as nat), seed, playlist_len as nat), playlist_len as nat),
        first_move_error(shuffle_moves(playlist_len, seed), playlist_len)
            is None,
{
    let id = identity_order(playlist_len as nat);
    assert(is_permutation(id, playlist_len as nat));
    lemma_shuffle_is_permutation(id, seed, playlist_len as nat);
    lemma_order_moves_are_valid(shuffled(id, seed, playlist_len as nat), playlist_len);
}

/// The versioned edit that the command line client sends: `edit` built
/// against the latest playlist it fetched, of `playlist_len` items at version
/// `state_number`.
pub fn edit_playlist(playlist_len: usize, state_number: usize, edit: PlaylistEdit, seed: usize) -> (r:
    crate::change::PlaylistChangeMessage)
    ensures
        r.state_number == state_number,
        match edit {
            PlaylistEdit::Add(path) => r.change matches PlaylistChangeKind::Add(items) && items@
                == seq![(playlist_len, path)],
            PlaylistEdit::Clear => r.change matches PlaylistChangeKind::Delete(items) && items@
                == identity_order(playlist_len as nat),
            PlaylistEdit::Remove(i) => r.change matches PlaylistChangeKind::Delete(items) && items@
                == seq![i],
            PlaylistEdit::Move { from, to } => r.change matches PlaylistChangeKind::Move(items)
                && items@ == seq![(from, to)],
            PlaylistEdit::Shuffle => r.change matches PlaylistChangeKind::Move(items) && items@
                == shuffle_moves(playlist_len, seed),
        },
{
    crate::change::PlaylistChangeMessage { state_number, change: edit_change(edit, playlist_len, seed) }
}

} // verus!
