//! What holds of the playlist protocol as a whole: edits follow the items they
//! touch, clients that share the daemon's version replay its broadcasts to the
//! daemon's own state, and stale clients refuse them.

use crate::add::{
    added_prefix, additions_at, count_at, count_below, count_through, first_add_error,
    lemma_add_keeps_entry, lemma_add_len, lemma_added_prefix_extends, lemma_added_prefix_len,
    lemma_addition_rank, spec_add,
};
use crate::change::{PlaylistChangeKind, PlaylistChangeMessage, PlaylistError};
use crate::delete::{
    deleted_before, first_delete_error, lemma_delete_keeps_entry, lemma_delete_len,
    lemma_first_delete_error_none, spec_delete,
};
use crate::index_map::{
    index_map_fits, lemma_count_through_monotone, replayed_current, replayed_entries,
    spec_index_map, structural_error,
};
use crate::manager::{
    applied, change_error, chosen_selection, current_after, entries_after, next_selection,
    next_state_number, previous_selection,
};
use crate::reorder::{
    first_move_error, first_position, free_before, lemma_single_move_order, single_move_place, lemma_first_move_error_none,
    lemma_first_position, lemma_free_monotone, lemma_move_order, lemma_target_sources,
    lemma_unmoved_facts, moved_flags, move_order, spec_move, target_sources, unmoved,
    valid_moves,
};
use crate::selection::{
    all_stay, count_less, group_moves, group_start, lemma_distinct_count, lemma_group_move_is_valid,
    lemma_planned_moves_are_valid, planned_moves,
    strictly_increasing, MoveAction,
};
use crate::args::{cli_command_of, is_socket_flag, split_socket, CliChoice};
use crate::text::{decimal, lemma_decimal_parses};
use crate::window::remapped;
use std::path::PathBuf;
use vstd::prelude::*;

verus! {

/// Where an accepted insertion batch puts an original item, and that the
/// playlist grows by the number of insertions.
pub proof fn lemma_add_places_items(entries: Seq<PathBuf>, items: Seq<(usize, PathBuf)>)
    requires
        entries.len() <= usize::MAX,
        first_add_error(items, entries.len() as usize) is None,
    ensures
        spec_add(entries, items).len() == entries.len() + items.len(),
        forall|c: int|
            0 <= c < entries.len() ==> spec_add(entries, items)[c + #[trigger] count_through(
                items,
                c,
            )] == entries[c],
        forall|a: int, b: int|
            0 <= a < b < entries.len() ==> a + #[trigger] count_through(items, a) < b
                + #[trigger] count_through(items, b),
{
    crate::add::lemma_first_add_error_none(items, entries.len() as usize);
    lemma_add_len(entries, items);
    assert forall|c: int| 0 <= c < entries.len() implies spec_add(entries, items)[c
        + #[trigger] count_through(items, c)] == entries[c] by {
        lemma_add_keeps_entry(entries, items, c);
    }
    assert forall|a: int, b: int| 0 <= a < b < entries.len() implies a + #[trigger] count_through(
        items,
        a,
    ) < b + #[trigger] count_through(items, b) by {
        lemma_count_through_monotone(items, a + 1, b + 1);
    }
}

/// Where an accepted insertion batch puts each inserted path: before the
/// original item at its index (or at the end for the length), after every
/// insertion at a smaller index, and after the earlier insertions of the
/// batch at the same index, so that paths inserted together keep the batch's
/// order.
pub proof fn lemma_add_places_inserted(
    entries: Seq<PathBuf>,
    items: Seq<(usize, PathBuf)>,
    j: int,
)
    requires
        entries.len() <= usize::MAX,
        first_add_error(items, entries.len() as usize) is None,
        0 <= j < items.len(),
    ensures
        ({
            let i = items[j].0 as int;
            let place = i + count_below(items, i) + count_at(items.take(j), i);
            &&& place < spec_add(entries, items).len()
            &&& spec_add(entries, items)[place] == items[j].1
        }),
{
    let len = entries.len();
    crate::add::lemma_first_add_error_none(items, len as usize);
    let i = items[j].0 as int;
    let r = count_at(items.take(j), i);
    lemma_addition_rank(items, j);
    lemma_added_prefix_len(entries, items, i as nat);
    let place = i + count_below(items, i) + r;
    if i < len {
        let a = added_prefix(entries, items, (i + 1) as nat);
        assert(a == added_prefix(entries, items, i as nat) + additions_at(items, i) + seq![entries[i]]);
        assert(a[place] == items[j].1);
        lemma_added_prefix_len(entries, items, (i + 1) as nat);
        lemma_added_prefix_extends(entries, items, (i + 1) as nat, len, place);
    } else {
        assert(i == len);
    }
}

/// An accepted deletion batch shrinks the playlist by the number of deleted
/// items, and every kept item keeps its entry and its order.
pub proof fn lemma_delete_places_items(entries: Seq<PathBuf>, items: Seq<usize>)
    requires
        entries.len() <= usize::MAX,
        first_delete_error(items, entries.len() as usize) is None,
    ensures
        spec_delete(entries, items).len() == entries.len() - items.len(),
        forall|c: int|
            0 <= c < entries.len() && !items.contains(c as usize) ==> spec_delete(entries, items)[c
                - #[trigger] deleted_before(items, c as nat)] == entries[c],
        forall|a: int, b: int|
            0 <= a < b < entries.len() && !items.contains(a as usize) ==> a - #[trigger] deleted_before(
                items,
                a as nat,
            ) < b - #[trigger] deleted_before(items, b as nat),
{
    lemma_delete_len(entries, items);
    assert forall|c: int|
        0 <= c < entries.len() && !items.contains(c as usize) implies spec_delete(entries, items)[c
        - #[trigger] deleted_before(items, c as nat)] == entries[c] by {
        lemma_delete_keeps_entry(entries, items, c);
    }
    assert forall|a: int, b: int|
        0 <= a < b < entries.len() && !items.contains(a as usize) implies a
        - #[trigger] deleted_before(items, a as nat) < b - #[trigger] deleted_before(
        items,
        b as nat,
    ) by {
        lemma_deleted_before_step(items, a as nat, b as nat);
    }
}

proof fn lemma_deleted_before_step(items: Seq<usize>, a: nat, b: nat)
    requires
        a < b,
        !items.contains(a as usize),
    ensures
        deleted_before(items, b) + a < deleted_before(items, a) + b,
    decreases b,
{
    if b > a + 1 {
        lemma_deleted_before_step(items, a, (b - 1) as nat);
    }
}

/// An accepted batch move keeps every item exactly once, puts each moved item
/// at its destination, and keeps the unmoved items in their original order.
pub proof fn lemma_move_places_items(entries: Seq<PathBuf>, items: Seq<(usize, usize)>)
    requires
        entries.len() <= usize::MAX,
        first_move_error(items, entries.len() as usize) is None,
    ensures
        spec_move(entries, items).len() == entries.len(),
        move_order(items, entries.len()).no_duplicates(),
        forall|i: int|
            0 <= i < entries.len() ==> #[trigger] move_order(items, entries.len()).contains(
                i as usize,
            ),
        forall|d: int|
            0 <= d < entries.len() ==> #[trigger] spec_move(entries, items)[d] == entries[move_order(
                items,
                entries.len(),
            )[d] as int],
        forall|j: int|
            0 <= j < items.len() ==> spec_move(entries, items)[#[trigger] items[j].1 as int]
                == entries[items[j].0 as int],
        forall|a: usize, b: usize|
            a < b < entries.len() && !moved_flags(items, entries.len())[a as int] && !moved_flags(
                items,
                entries.len(),
            )[b as int] ==> #[trigger] first_position(move_order(items, entries.len()), a)->0
                < #[trigger] first_position(move_order(items, entries.len()), b)->0,
{
    let len = entries.len() as usize;
    lemma_first_move_error_none(items, len);
    lemma_move_order(items, len);
    lemma_target_sources(items, len);
    let order = move_order(items, len as nat);
    let slots = target_sources(items, len as nat);
    let flags = moved_flags(items, len as nat);
    let rest = unmoved(flags);
    lemma_unmoved_facts(flags);
    crate::reorder::lemma_move_counts(items, len);
    crate::reorder::lemma_free_claimed(slots, len as nat);
    assert forall|j: int| 0 <= j < items.len() implies spec_move(entries, items)[
    #[trigger] items[j].1 as int] == entries[items[j].0 as int] by {}
    assert forall|a: usize, b: usize|
        a < b < len && !flags[a as int] && !flags[b as int] implies #[trigger] first_position(
        order,
        a,
    )->0 < #[trigger] first_position(order, b)->0 by {
        lemma_first_position(order, a);
        lemma_first_position(order, b);
        let pa = first_position(order, a)->0 as int;
        let pb = first_position(order, b)->0 as int;
        // A position holding an unmoved item is a free place, whose rank among
        // the free places is the item's rank among the unmoved items.
        assert(slots[pa] is None) by {
            if slots[pa] is Some {
                let j = choose|j: int|
                    0 <= j < items.len() && items[j].1 == pa && Some(items[j].0) == slots[pa];
                assert(crate::reorder::sources_of(items)[j] == a);
            }
        }
        assert(slots[pb] is None) by {
            if slots[pb] is Some {
                let j = choose|j: int|
                    0 <= j < items.len() && items[j].1 == pb && Some(items[j].0) == slots[pb];
                assert(crate::reorder::sources_of(items)[j] == b);
            }
        }
        let ka = free_before(slots, pa as nat) as int;
        let kb = free_before(slots, pb as nat) as int;
        assert(order[pa] == rest[ka] && order[pb] == rest[kb]);
        lemma_free_monotone(slots, (pa + 1) as nat, len as nat);
        lemma_free_monotone(slots, (pb + 1) as nat, len as nat);
        if pb < pa {
            lemma_free_monotone(slots, (pb + 1) as nat, pa as nat);
            assert(rest[kb] < rest[ka]);
        }
    }
}

/// An accepted structural edit follows the current item: it lands on the
/// same entry, unless a deletion removes it, in which case nothing is current.
pub proof fn lemma_edit_follows_current(
    entries: Seq<PathBuf>,
    c: usize,
    change: PlaylistChangeKind,
)
    requires
        entries.len() <= usize::MAX,
        c < entries.len(),
        change_error(entries, change) is None,
        change is Add || change is Delete || change is Move,
        change matches PlaylistChangeKind::Add(items) ==> c + count_through(items@, c as int)
            <= usize::MAX,
    ensures
        match current_after(entries, Some(c), change) {
            Some(n) => n < entries_after(entries, change).len() && entries_after(entries, change)[n as int]
                == entries[c as int],
            None => change matches PlaylistChangeKind::Delete(items) && items@.contains(c),
        },
{
    let len = entries.len() as usize;
    match change {
        PlaylistChangeKind::Add(items) => {
            crate::add::lemma_first_add_error_none(items@, len);
            lemma_add_keeps_entry(entries, items@, c as int);
            let n = (c + count_through(items@, c as int)) as usize;
            assert(n as int == c + count_through(items@, c as int));
            assert(n < spec_add(entries, items@).len());
        },
        PlaylistChangeKind::Delete(items) => {
            if !items@.contains(c) {
                lemma_delete_keeps_entry(entries, items@, c as int);
            }
        },
        PlaylistChangeKind::Move(items) => {
            lemma_first_move_error_none(items@, len);
            lemma_move_order(items@, len);
            lemma_first_position(move_order(items@, len as nat), c);
            assert(move_order(items@, len as nat).contains((c as int) as usize));
        },
        _ => {},
    }
}

/// The index map of an accepted structural edit says where every original
/// item went: each mapped item sits at its new index, insertions and moves
/// map every item, and a deletion unmaps exactly the deleted items.
pub proof fn lemma_index_map_tracks_items(
    entries: Seq<PathBuf>,
    change: PlaylistChangeKind,
    i: int,
)
    requires
        entries.len() <= usize::MAX,
        index_map_fits(change, entries.len() as usize),
        structural_error(change, entries.len() as usize) is None,
        change is Add || change is Delete || change is Move,
        0 <= i < entries.len(),
    ensures
        match spec_index_map(change, entries.len() as usize)[i] {
            Some(j) => j < replayed_entries(entries, change).len() && replayed_entries(
                entries,
                change,
            )[j as int] == entries[i],
            None => change matches PlaylistChangeKind::Delete(items) && items@.contains(i as usize),
        },
        change is Add || change is Move ==> spec_index_map(change, entries.len() as usize)[i] is Some,
{
    let len = entries.len() as usize;
    match change {
        PlaylistChangeKind::Add(items) => {
            crate::add::lemma_first_add_error_none(items@, len);
            lemma_add_keeps_entry(entries, items@, i);
            lemma_count_through_monotone(items@, i + 1, len as int);
        },
        PlaylistChangeKind::Delete(items) => {
            if !items@.contains(i as usize) {
                lemma_delete_keeps_entry(entries, items@, i);
            }
        },
        PlaylistChangeKind::Move(items) => {
            lemma_first_move_error_none(items@, len);
            lemma_move_order(items@, len);
            lemma_first_position(move_order(items@, len as nat), i as usize);
        },
        _ => {},
    }
}

/// A window that replays an edit on its plain copy of the playlist reaches
/// what the daemon reaches, for a current item that is in range.
pub proof fn lemma_replay_agrees_with_manager(
    entries: Seq<PathBuf>,
    current: Option<usize>,
    change: PlaylistChangeKind,
)
    requires
        entries.len() <= usize::MAX,
        change_error(entries, change) is None,
        index_map_fits(change, entries.len() as usize),
        current matches Some(c) ==> c < entries.len(),
        change matches PlaylistChangeKind::Add(items) ==> current matches Some(c) ==> c
            + count_through(items@, c as int) <= usize::MAX,
    ensures
        structural_error(change, entries.len() as usize) is None,
        replayed_entries(entries, change) == entries_after(entries, change),
        replayed_current(entries, current, change) == current_after(entries, current, change),
{
}

/// Version discipline: a client whose version differs from an incremental
/// edit refuses it and stays as it is; a client whose version matches applies
/// it and advances its version by one.
pub proof fn lemma_version_discipline(
    own: usize,
    entries: Seq<PathBuf>,
    current: Option<usize>,
    message: PlaylistChangeMessage,
)
    requires
        !message.change.is_rebuild(),
    ensures
        own != message.state_number ==> applied(own, entries, current, message) == Err::<
            (usize, Seq<PathBuf>, Option<usize>),
            PlaylistError,
        >(PlaylistError::StateMismatch { own, given: message.state_number }),
        own == message.state_number ==> (applied(own, entries, current, message) matches Ok(t)
            ==> t.0 == next_state_number(own)),
{
}

/// A client in the daemon's state that applies the edit the daemon accepted
/// (the daemon broadcasts the edit it applied) reaches the daemon's new state.
pub proof fn lemma_broadcast_keeps_clients_in_sync(
    own: usize,
    entries: Seq<PathBuf>,
    current: Option<usize>,
    message: PlaylistChangeMessage,
)
    requires
        applied(own, entries, current, message) is Ok,
    ensures
        message.state_number == own || message.change.is_rebuild(),
        applied(own, entries, current, message) == applied(
            own,
            entries,
            current,
            PlaylistChangeMessage { state_number: message.state_number, change: message.change },
        ),
{
}

/// A selection the daemon makes ("next", "previous" or an explicit index) is
/// broadcast as a current-index edit at its old version; every client that
/// shares that version and the playlist applies it to the daemon's new state,
/// whatever its own current item.
pub proof fn lemma_selection_broadcast(
    own: usize,
    entries: Seq<PathBuf>,
    client_current: Option<usize>,
    selected: usize,
)
    requires
        selected < entries.len(),
        entries.len() <= usize::MAX,
    ensures
        applied(
            own,
            entries,
            client_current,
            PlaylistChangeMessage {
                state_number: own,
                change: PlaylistChangeKind::ResetCurrent(Some(selected)),
            },
        ) == Ok::<(usize, Seq<PathBuf>, Option<usize>), PlaylistError>(
            (next_state_number(own), entries, Some(selected)),
        ),
{
}

/// Every selection the daemon makes names an item of the playlist.
pub proof fn lemma_selections_in_range(current: Option<usize>, index: usize, len: nat)
    ensures
        next_selection(current, len) matches Ok(n) ==> n < len,
        current matches Some(c) && c < len ==> (previous_selection(current) matches Ok(n) ==> n
            < len),
        chosen_selection(index, len) matches Ok(n) ==> n < len,
{
}

/// "Previous" undoes "next".
pub proof fn lemma_previous_undoes_next(current: Option<usize>, len: nat)
    requires
        next_selection(current, len) is Ok,
        len <= usize::MAX,
    ensures
        previous_selection(Some(next_selection(current, len)->Ok_0)) == Ok::<usize, PlaylistError>(
            current->0,
        ),
{
}

/// A snapshot is taken by any client, whatever its version and playlist, and
/// leaves it in the daemon's state (the current index is kept when it names
/// an item).
pub proof fn lemma_snapshot_restores(
    own: usize,
    entries: Seq<PathBuf>,
    current: Option<usize>,
    daemon_version: usize,
    paths: Vec<PathBuf>,
    daemon_current: Option<usize>,
)
    requires
        daemon_current matches Some(c) ==> c < paths@.len(),
    ensures
        applied(
            own,
            entries,
            current,
            PlaylistChangeMessage {
                state_number: daemon_version,
                change: PlaylistChangeKind::Rebuild(paths, daemon_current),
            },
        ) == Ok::<(usize, Seq<PathBuf>, Option<usize>), PlaylistError>(
            (daemon_version, paths@, daemon_current),
        ),
{
}

/// After a move from the daemon the window selects again the items it had
/// selected: every selected row is followed to the new index of its item, in
/// the order of the old selection.
pub proof fn lemma_selection_follows_moved_items(
    entries: Seq<PathBuf>,
    items: Vec<(usize, usize)>,
    selected: Seq<usize>,
)
    requires
        entries.len() <= usize::MAX,
        first_move_error(items@, entries.len() as usize) is None,
        forall|k: int| 0 <= k < selected.len() ==> #[trigger] selected[k] < entries.len(),
    ensures
        ({
            let moved = spec_move(entries, items@);
            let rows = remapped(
                selected,
                spec_index_map(PlaylistChangeKind::Move(items), entries.len() as usize),
            );
            &&& rows.len() == selected.len()
            &&& forall|k: int|
                0 <= k < rows.len() ==> #[trigger] rows[k] < moved.len() && moved[rows[k] as int]
                    == entries[selected[k] as int]
        }),
    decreases selected.len(),
{
    let change = PlaylistChangeKind::Move(items);
    let len = entries.len() as usize;
    let map = spec_index_map(change, len);
    if selected.len() > 0 {
        let rest = selected.drop_last();
        lemma_selection_follows_moved_items(entries, items, rest);
        let i = selected.last() as int;
        lemma_index_map_tracks_items(entries, change, i);
        let rows = remapped(selected, map);
        let before = remapped(rest, map);
        assert(rows == before.push(map[i]->0));
        assert forall|k: int| 0 <= k < rows.len() implies #[trigger] rows[k] < spec_move(
            entries,
            items@,
        ).len() && spec_move(entries, items@)[rows[k] as int] == entries[selected[k] as int] by {
            if k < before.len() {
                assert(rows[k] == before[k]);
                assert(selected[k] == rest[k]);
            }
        }
    }
}

/// Moving a selection to a gap of the playlist (with the buttons or by
/// dragging) moves the whole group together: its items land on consecutive
/// places, in the order they had.
pub proof fn lemma_group_moves_together(entries: Seq<PathBuf>, sources: Seq<usize>, boundary: usize)
    requires
        entries.len() <= usize::MAX,
        strictly_increasing(sources),
        forall|k: int| 0 <= k < sources.len() ==> #[trigger] sources[k] < entries.len(),
    ensures
        ({
            let len = entries.len() as usize;
            let moves = group_moves(sources, boundary, len);
            let start = group_start(sources, boundary, len);
            &&& start + sources.len() <= entries.len()
            &&& spec_move(entries, moves).len() == entries.len()
            &&& forall|k: int|
                0 <= k < sources.len() ==> #[trigger] spec_move(entries, moves)[start + k]
                    == entries[sources[k] as int]
        }),
{
    let len = entries.len() as usize;
    lemma_group_move_is_valid(sources, boundary, len);
    lemma_move_places_items(entries, group_moves(sources, boundary, len));
    let moves = group_moves(sources, boundary, len);
    let start = group_start(sources, boundary, len);
    if sources.len() > 0 {
        assert(moves[sources.len() - 1].1 == start + sources.len() - 1);
        assert(moves[sources.len() - 1].1 < len);
    }
    assert forall|k: int| 0 <= k < sources.len() implies #[trigger] spec_move(entries, moves)[start
        + k] == entries[sources[k] as int] by {
        assert(moves[k].1 == start + k);
        assert(moves[k].0 == sources[k]);
    }
}

/// The button that moves the current item before the selection puts it
/// right before the first selected item, on whichever side it stood; when
/// it already stands there, nothing is sent.
pub proof fn lemma_current_moves_before_selection(
    entries: Seq<PathBuf>,
    selected: Seq<usize>,
    c: usize,
)
    requires
        entries.len() <= usize::MAX,
        strictly_increasing(selected),
        selected.len() > 0,
        forall|k: int| 0 <= k < selected.len() ==> #[trigger] selected[k] < entries.len(),
        c < entries.len(),
        !selected.contains(c),
    ensures
        match planned_moves(
            selected,
            entries.len() as usize,
            Some(c),
            MoveAction::CurrentBeforeSelected,
        ) {
            Some(m) => exists|p: int|
                0 <= p && p + 1 < entries.len() && #[trigger] spec_move(entries, m)[p] == entries[c as int]
                    && spec_move(entries, m)[p + 1] == entries[selected[0] as int],
            None => c + 1 == selected[0],
        },
{
    let len = entries.len() as usize;
    let b = selected[0];
    let one = seq![c];
    assert(one.drop_last() =~= Seq::<usize>::empty());
    assert(count_less(Seq::<usize>::empty(), b) == 0);
    assert(one.last() == c);
    assert(count_less(one, b) == if c < b {
        1nat
    } else {
        0nat
    });
    let t: usize = if c < b {
        (b - 1) as usize
    } else {
        b
    };
    assert(group_start(one, b, len) == t as int);
    let m = group_moves(one, b, len);
    assert(m =~= seq![(c, t)]);
    lemma_single_move_order(c, t, len);
    let order = move_order(m, len as nat);
    if c < b {
        assert(single_move_place(c as int, t as int, t + 1) == b as int);
    } else {
        assert(single_move_place(c as int, t as int, t + 1) == b as int);
    }
    assert(order[t as int] as int == c as int);
    assert(order[t + 1] as int == b as int);
    if !all_stay(m) {
        assert(spec_move(entries, m)[t as int] == entries[c as int]);
        assert(spec_move(entries, m)[t + 1] == entries[b as int]);
    } else {
        assert(m[0].0 == m[0].1);
    }
}

proof fn lemma_count_less_all(s: Seq<usize>, bound: usize)
    requires
        forall|k: int| 0 <= k < s.len() ==> #[trigger] s[k] < bound,
    ensures
        count_less(s, bound) == s.len(),
    decreases s.len(),
{
    if s.len() > 0 {
        assert forall|k: int| 0 <= k < s.len() - 1 implies #[trigger] s.drop_last()[k] < bound by {
            assert(s.drop_last()[k] == s[k]);
        }
        lemma_count_less_all(s.drop_last(), bound);
    }
}

/// Where the up, down, top and bottom buttons put each selected item: one
/// place up, one place down, in order from the top, or in order at the
/// bottom. Up and down send nothing when the selection already touches the
/// top or the bottom.
pub proof fn lemma_buttons_place_selection(
    entries: Seq<PathBuf>,
    selected: Seq<usize>,
    current: Option<usize>,
    action: MoveAction,
)
    requires
        entries.len() <= usize::MAX,
        strictly_increasing(selected),
        selected.len() > 0,
        forall|k: int| 0 <= k < selected.len() ==> #[trigger] selected[k] < entries.len(),
        current matches Some(c) ==> c < entries.len(),
        action is Up || action is Down || action is Top || action is Bottom,
    ensures
        ({
            let len = entries.len();
            let n = selected.len();
            match planned_moves(selected, len as usize, current, action) {
                Some(m) => forall|k: int|
                    0 <= k < n ==> {
                        let place = match action {
                            MoveAction::Up => selected[k] - 1,
                            MoveAction::Down => selected[k] + 1,
                            MoveAction::Top => k,
                            _ => len - n + k,
                        };
                        &&& 0 <= place < len
                        &&& spec_move(entries, m)[place] == entries[#[trigger] selected[k] as int]
                    },
                None => (action is Up ==> selected[0] == 0) && (action is Down ==> selected[n - 1]
                    == len - 1),
            }
        }),
{
    let len = entries.len() as usize;
    let n = selected.len();
    if planned_moves(selected, len, current, action) is Some {
        lemma_planned_moves_are_valid(selected, len, current, action);
        let m = planned_moves(selected, len, current, action)->0;
        lemma_move_places_items(entries, m);
        if action is Top || action is Bottom {
            lemma_group_move_is_valid(selected, if action is Top { 0 } else { len }, len);
            lemma_distinct_count(selected, len);
            if action is Bottom {
                lemma_count_less_all(selected, len);
            }
        }
        let start: int = if action is Top {
            0
        } else {
            len - n
        };
        if action is Top || action is Bottom {
            assert(group_start(selected, if action is Top { 0 } else { len }, len) == start);
        }
        assert forall|k: int| 0 <= k < n implies {
            let place = match action {
                MoveAction::Up => selected[k] - 1,
                MoveAction::Down => selected[k] + 1,
                MoveAction::Top => k,
                _ => len - n + k,
            };
            &&& 0 <= place < len
            &&& spec_move(entries, m)[place] == entries[#[trigger] selected[k] as int]
        } by {
            assert(m.len() == n);
            assert(m[k].0 == selected[k]);
            let place = match action {
                MoveAction::Up => selected[k] - 1,
                MoveAction::Down => selected[k] + 1,
                MoveAction::Top => k,
                _ => len - n + k,
            };
            if action is Up {
                if k > 0 {
                    assert(selected[0] < selected[k]);
                }
            }
            if action is Down {
                if k < n - 1 {
                    assert(selected[k] < selected[n - 1]);
                }
            }
            assert(m[k].1 as int == place);
            assert(spec_move(entries, m)[m[k].1 as int] == entries[m[k].0 as int]);
        }
    } else {
        if action is Up && selected[0] != 0 {
            let m = Seq::new(n, |k: int| (selected[k], (selected[k] - 1) as usize));
            assert(!all_stay(m)) by {
                assert(m[0].0 != m[0].1);
            }
        }
        if action is Down && selected[n - 1] != len - 1 {
            let m = Seq::new(n, |k: int| (selected[k], (selected[k] + 1) as usize));
            assert(!all_stay(m)) by {
                assert(m[0].0 != m[0].1);
            }
        }
    }
}


} // verus!
