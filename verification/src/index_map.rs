//! Where each original item goes under an edit, and the client-side replay of
//! an edit on a plain playlist.

use crate::add::{
    added_entries, check_add, count_at, count_below, count_through, first_add_error,
    lemma_count_below_bound, lemma_count_split, spec_add,
};
use crate::change::{PlaylistChangeKind, PlaylistError};
use crate::delete::{
    check_delete, deleted_before, first_delete_error, kept_entries, spec_delete,
};
use crate::paths::clone_paths;
use crate::reorder::{
    check_move, entries_in_order, first_move_error, first_position, lemma_first_move_error_none,
    lemma_first_position, lemma_move_order, lemma_target_sources, move_order, order_after_move,
    spec_move,
};
use std::path::PathBuf;
use vstd::prelude::*;

verus! {

/// Why the structural part of `change` is refused for a playlist of `len`
/// items: a bad insertion, deletion or move index. Current-index edits and
/// snapshots have no structural part.
pub open spec fn structural_error(change: PlaylistChangeKind, len: usize) -> Option<
    PlaylistError,
> {
    match change {
        PlaylistChangeKind::Add(items) => first_add_error(items@, len),
        PlaylistChangeKind::Delete(items) => first_delete_error(items@, len),
        PlaylistChangeKind::Move(items) => first_move_error(items@, len),
        _ => None,
    }
}

/// `map[i]` is the new index of the original item `i`, or `None` when the
/// item is gone. After a snapshot no item keeps a stable index.
pub open spec fn spec_index_map(change: PlaylistChangeKind, len: usize) -> Seq<Option<usize>> {
    match change {
        PlaylistChangeKind::Add(items) => Seq::new(
            len as nat,
            |i: int| Some((i + count_through(items@, i)) as usize),
        ),
        PlaylistChangeKind::Delete(items) => Seq::new(
            len as nat,
            |i: int|
                if items@.contains(i as usize) {
                    None
                } else {
                    Some((i - deleted_before(items@, i as nat)) as usize)
                },
        ),
        PlaylistChangeKind::Move(items) => Seq::new(
            len as nat,
            |i: int| first_position(move_order(items@, len as nat), i as usize),
        ),
        PlaylistChangeKind::ResetCurrent(_) => Seq::new(len as nat, |i: int| Some(i as usize)),
        PlaylistChangeKind::Rebuild(_, _) => Seq::new(len as nat, |i: int| None),
    }
}

/// Whether the index map of `change` stays within `usize`: the table of
/// insertion counts has `len + 1` slots, and the last original item's new
/// index must fit.
pub open spec fn index_map_fits(change: PlaylistChangeKind, len: usize) -> bool {
    match change {
        PlaylistChangeKind::Add(items) => len < usize::MAX && (first_add_error(items@, len) is None
            ==> len + count_below(items@, len as int) <= usize::MAX + 1),
        _ => true,
    }
}

pub proof fn lemma_count_through_monotone<T>(items: Seq<(usize, T)>, i: int, k: int)
    requires
        i <= k,
    ensures
        count_below(items, i) <= count_below(items, k),
    decreases items.len(),
{
    if items.len() > 0 {
        lemma_count_through_monotone(items.drop_last(), i, k);
    }
}

/// Counts, for every original index up to `len`, how many insertions land there.
fn insertion_counts(items: &Vec<(usize, PathBuf)>, len: usize) -> (r: Vec<usize>)
    requires
        len < usize::MAX,
        forall|j: int| 0 <= j < items.len() ==> #[trigger] items@[j].0 <= len,
    ensures
        r@.len() == len + 1,
        forall|k: int| 0 <= k <= len ==> #[trigger] r@[k] == count_at(items@, k),
{
    let mut counts: Vec<usize> = Vec::new();
    let mut i: usize = 0;
    while i <= len
        invariant
            i <= len + 1,
            len < usize::MAX,
            counts@.len() == i,
            forall|k: int| 0 <= k < i ==> #[trigger] counts@[k] == 0,
        decreases len + 1 - i,
    {
        counts.push(0);
        i = i + 1;
    }
    let mut j: usize = 0;
    while j < items.len()
        invariant
            j <= items.len(),
            counts@.len() == len + 1,
            forall|w: int| 0 <= w < items.len() ==> #[trigger] items@[w].0 <= len,
            forall|k: int| 0 <= k <= len ==> #[trigger] counts@[k] == count_at(
                items@.take(j as int),
                k,
            ),
        decreases items.len() - j,
    {
        assert(items@.take(j + 1).drop_last() =~= items@.take(j as int));
        let k = items[j].0;
        proof {
            lemma_count_below_bound(items@.take(j as int), k as int);
        }
        let c = counts[k];
        counts.set(k, c + 1);
        j = j + 1;
    }
    assert(items@.take(j as int) =~= items@);
    counts
}

/// New index of every original item under a checked insertion batch.
fn add_index_map(items: &Vec<(usize, PathBuf)>, len: usize) -> (r: Vec<Option<usize>>)
    requires
        len < usize::MAX,
        forall|j: int| 0 <= j < items.len() ==> #[trigger] items@[j].0 <= len,
        len + count_below(items@, len as int) <= usize::MAX + 1,
    ensures
        r@ == Seq::new(len as nat, |i: int| Some((i + count_through(items@, i)) as usize)),
{
    let counts = insertion_counts(items, len);
    proof {
        lemma_count_below_bound(items@, 0);
    }
    let mut map: Vec<Option<usize>> = Vec::new();
    let mut inserted: usize = 0;
    let mut i: usize = 0;
    while i < len
        invariant
            i <= len,
            len < usize::MAX,
            counts@.len() == len + 1,
            forall|k: int| 0 <= k <= len ==> #[trigger] counts@[k] == count_at(items@, k),
            len + count_below(items@, len as int) <= usize::MAX + 1,
            inserted == count_below(items@, i as int),
            map@ =~= Seq::new(i as nat, |k: int| Some((k + count_through(items@, k)) as usize)),
        decreases len - i,
    {
        proof {
            lemma_count_split(items@, i as int);
            lemma_count_through_monotone(items@, i + 1, len as int);
        }
        inserted = inserted + counts[i];
        map.push(Some(i + inserted));
        i = i + 1;
    }
    map
}

/// New index of every original item under a checked deletion batch.
fn delete_index_map(removed: &Vec<bool>, Ghost(items): Ghost<Seq<usize>>) -> (r: Vec<
    Option<usize>,
>)
    requires
        removed@ == Seq::new(removed@.len(), |i: int| items.contains(i as usize)),
    ensures
        r@ == Seq::new(
            removed@.len(),
            |i: int|
                if items.contains(i as usize) {
                    None
                } else {
                    Some((i - deleted_before(items, i as nat)) as usize)
                },
        ),
{
    let mut map: Vec<Option<usize>> = Vec::new();
    let mut next_index: usize = 0;
    let mut i: usize = 0;
    while i < removed.len()
        invariant
            i <= removed.len(),
            removed@ == Seq::new(removed@.len(), |k: int| items.contains(k as usize)),
            next_index + deleted_before(items, i as nat) == i,
            map@ =~= Seq::new(
                i as nat,
                |k: int|
                    if items.contains(k as usize) {
                        None
                    } else {
                        Some((k - deleted_before(items, k as nat)) as usize)
                    },
            ),
        decreases removed.len() - i,
    {
        if removed[i] {
            map.push(None);
        } else {
            map.push(Some(next_index));
            next_index = next_index + 1;
        }
        i = i + 1;
    }
    map
}

/// New index of every original item under an accepted move, given the new
/// order as original indices.
fn move_index_map(order: &Vec<usize>) -> (r: Vec<Option<usize>>)
    requires
        order@.no_duplicates(),
        forall|d: int| 0 <= d < order.len() ==> #[trigger] order@[d] < order.len(),
        forall|i: int| 0 <= i < order.len() ==> #[trigger] order@.contains(i as usize),
    ensures
        r@ == Seq::new(order@.len(), |i: int| first_position(order@, i as usize)),
{
    let len = order.len();
    let mut map: Vec<Option<usize>> = Vec::new();
    let mut i: usize = 0;
    while i < len
        invariant
            i <= len,
            len == order.len(),
            map@.len() == i,
            forall|k: int| 0 <= k < i ==> #[trigger] map@[k] == Some(k as usize),
        decreases len - i,
    {
        map.push(Some(i));
        i = i + 1;
    }
    let mut d: usize = 0;
    while d < len
        invariant
            d <= len,
            len == order.len(),
            map@.len() == len,
            order@.no_duplicates(),
            forall|k: int| 0 <= k < order.len() ==> #[trigger] order@[k] < order.len(),
            forall|k: int| 0 <= k < d ==> #[trigger] map@[order@[k] as int] == Some(k as usize),
        decreases len - d,
    {
        map.set(order[d], Some(d));
        proof {
            assert forall|k: int| 0 <= k < d + 1 implies #[trigger] map@[order@[k] as int] == Some(
                k as usize,
            ) by {
                if k < d {
                    assert(order@[k] != order@[d as int]);
                }
            }
        }
        d = d + 1;
    }
    proof {
        assert forall|i: int| 0 <= i < len implies #[trigger] map@[i] == first_position(
            order@,
            i as usize,
        ) by {
            assert(order@.contains(i as usize));
            let k = choose|k: int| 0 <= k < len && order@[k] == i as usize;
            lemma_first_position(order@, i as usize);
            let p = first_position(order@, i as usize).unwrap();
            assert(order@[p as int] == order@[k]);
        }
    }
    assert(map@ =~= Seq::new(order@.len(), |i: int| first_position(order@, i as usize)));
    map
}

/// Computes the new index of every original item under `change`.
///
/// The indices are checked as the playlist manager checks them, so an edit
/// that the manager refuses is refused here with the same error.
pub fn playlist_index_map(change: &PlaylistChangeKind, playlist_len: usize) -> (r: Result<
    Vec<Option<usize>>,
    PlaylistError,
>)
    requires
        index_map_fits(*change, playlist_len),
    ensures
        match structural_error(*change, playlist_len) {
            Some(e) => r == Err::<Vec<Option<usize>>, PlaylistError>(e),
            None => r is Ok && r.unwrap()@ == spec_index_map(*change, playlist_len),
        },
{
    match change {
        PlaylistChangeKind::Add(items) => {
            match check_add(items, playlist_len) {
                Err(e) => Err(e),
                Ok(()) => {
                    proof {
                        crate::add::lemma_first_add_error_none(items@, playlist_len);
                    }
                    Ok(add_index_map(items, playlist_len))
                },
            }
        },
        PlaylistChangeKind::Delete(items) => {
            match check_delete(items, playlist_len) {
                Err(e) => Err(e),
                Ok(removed) => Ok(delete_index_map(&removed, Ghost(items@))),
            }
        },
        PlaylistChangeKind::Move(items) => {
            let order = match destinations_for_map(items, playlist_len) {
                Err(e) => {
                    return Err(e);
                },
                Ok(order) => order,
            };
            proof {
                lemma_first_move_error_none(items@, playlist_len);
                lemma_move_order(items@, playlist_len);
            }
            Ok(move_index_map(&order))
        },
        PlaylistChangeKind::ResetCurrent(_) => {
            let mut map: Vec<Option<usize>> = Vec::new();
            let mut i: usize = 0;
            while i < playlist_len
                invariant
                    i <= playlist_len,
                    map@ =~= Seq::new(i as nat, |k: int| Some(k as usize)),
                decreases playlist_len - i,
            {
                map.push(Some(i));
                i = i + 1;
            }
            Ok(map)
        },
        PlaylistChangeKind::Rebuild(_, _) => {
            let mut map: Vec<Option<usize>> = Vec::new();
            let mut i: usize = 0;
            while i < playlist_len
                invariant
                    i <= playlist_len,
                    map@ =~= Seq::new(i as nat, |k: int| None::<usize>),
                decreases playlist_len - i,
            {
                map.push(None);
                i = i + 1;
            }
            Ok(map)
        },
    }
}

/// The new order of a batch move, as original indices, after checking it.
fn destinations_for_map(items: &Vec<(usize, usize)>, playlist_len: usize) -> (r: Result<
    Vec<usize>,
    PlaylistError,
>)
    ensures
        match first_move_error(items@, playlist_len) {
            Some(e) => r == Err::<Vec<usize>, PlaylistError>(e),
            None => r is Ok && r.unwrap()@ == move_order(items@, playlist_len as nat),
        },
{
    let (flags, slots) = match check_move(items, playlist_len) {
        Err(e) => {
            return Err(e);
        },
        Ok(found) => found,
    };
    proof {
        lemma_first_move_error_none(items@, playlist_len);
        lemma_target_sources(items@, playlist_len);
    }
    Ok(order_after_move(&flags, &slots, Ghost(items@)))
}

/// The playlist after replaying `change` on a plain list.
pub open spec fn replayed_entries(entries: Seq<PathBuf>, change: PlaylistChangeKind) -> Seq<
    PathBuf,
> {
    match change {
        PlaylistChangeKind::Add(items) => spec_add(entries, items@),
        PlaylistChangeKind::Delete(items) => spec_delete(entries, items@),
        PlaylistChangeKind::Move(items) => spec_move(entries, items@),
        PlaylistChangeKind::ResetCurrent(_) => entries,
        PlaylistChangeKind::Rebuild(paths, _) => paths@,
    }
}

/// The current index after replaying `change` on a plain list: an explicit
/// index is kept only when it is in range; otherwise the old current item is
/// followed through the index map.
pub open spec fn replayed_current(
    entries: Seq<PathBuf>,
    current: Option<usize>,
    change: PlaylistChangeKind,
) -> Option<usize> {
    let len = entries.len() as usize;
    match change {
        PlaylistChangeKind::ResetCurrent(i) => match i {
            Some(k) => if k < len {
                Some(k)
            } else {
                None
            },
            None => None,
        },
        PlaylistChangeKind::Rebuild(paths, i) => match i {
            Some(k) => if k < paths@.len() {
                Some(k)
            } else {
                None
            },
            None => None,
        },
        _ => match current {
            Some(c) => if c < len {
                spec_index_map(change, len)[c as int]
            } else {
                None
            },
            None => None,
        },
    }
}

/// Replays `change` on a plain playlist and its current index, and returns
/// where each original item went.
///
/// A refused edit leaves both untouched.
pub fn apply_playlist_change(
    change: &PlaylistChangeKind,
    playlist: &mut Vec<PathBuf>,
    current: &mut Option<usize>,
) -> (r: Result<Vec<Option<usize>>, PlaylistError>)
    requires
        index_map_fits(*change, old(playlist)@.len() as usize),
    ensures
        match structural_error(*change, old(playlist)@.len() as usize) {
            Some(e) => {
                &&& r == Err::<Vec<Option<usize>>, PlaylistError>(e)
                &&& final(playlist)@ == old(playlist)@
                &&& *final(current) == *old(current)
            },
            None => {
                &&& r is Ok
                &&& r.unwrap()@ == spec_index_map(*change, old(playlist)@.len() as usize)
                &&& final(playlist)@ == replayed_entries(old(playlist)@, *change)
                &&& *final(current) == replayed_current(old(playlist)@, *old(current), *change)
            },
        },
{
    let old_len = playlist.len();
    let index_map = match playlist_index_map(change, old_len) {
        Err(e) => {
            return Err(e);
        },
        Ok(map) => map,
    };
    match change {
        PlaylistChangeKind::Add(items) => {
            *playlist = added_entries(playlist, items);
        },
        PlaylistChangeKind::Delete(items) => {
            let removed = match check_delete(items, old_len) {
                Err(e) => {
                    return Err(e);
                },
                Ok(flags) => flags,
            };
            *playlist = kept_entries(playlist, &removed, Ghost(items@));
        },
        PlaylistChangeKind::Move(items) => {
            let order = match destinations_for_map(items, old_len) {
                Err(e) => {
                    return Err(e);
                },
                Ok(order) => order,
            };
            proof {
                lemma_first_move_error_none(items@, old_len);
                lemma_move_order(items@, old_len);
            }
            *playlist = entries_in_order(playlist, &order);
        },
        PlaylistChangeKind::ResetCurrent(current_index) => {
            *current = match *current_index {
                Some(index) => if index < old_len {
                    Some(index)
                } else {
                    None
                },
                None => None,
            };
        },
        PlaylistChangeKind::Rebuild(entries, current_index) => {
            *playlist = clone_paths(entries);
            *current = match *current_index {
                Some(index) => if index < playlist.len() {
                    Some(index)
                } else {
                    None
                },
                None => None,
            };
        },
    }
    if !matches!(change, PlaylistChangeKind::ResetCurrent(_))
        && !matches!(change, PlaylistChangeKind::Rebuild(_, _)) {
        *current = match *current {
            Some(index) => if index < index_map.len() {
                index_map[index]
            } else {
                None
            },
            None => None,
        };
    }
    Ok(index_map)
}

} // verus!
