//! Simultaneous batch moves at original indices.

use crate::change::PlaylistError;
use std::path::PathBuf;
use vstd::prelude::*;

verus! {

/// The original indices that a batch moves.
pub open spec fn sources_of(items: Seq<(usize, usize)>) -> Seq<usize> {
    items.map_values(|p: (usize, usize)| p.0)
}

/// The new indices that a batch moves to.
pub open spec fn destinations_of(items: Seq<(usize, usize)>) -> Seq<usize> {
    items.map_values(|p: (usize, usize)| p.1)
}

/// The error that refuses the batch move: the first move whose source or
/// destination is out of range, or repeats a source or destination named
/// earlier in the batch.
pub open spec fn first_move_error(items: Seq<(usize, usize)>, len: usize) -> Option<PlaylistError>
    decreases items.len(),
{
    if items.len() == 0 {
        None
    } else {
        match first_move_error(items.drop_last(), len) {
            Some(e) => Some(e),
            None => {
                let (s, d) = items.last();
                if s >= len {
                    Some(PlaylistError::MoveSourceOutOfRange { source: s, length: len })
                } else if d >= len {
                    Some(PlaylistError::MoveDestinationOutOfRange { destination: d, length: len })
                } else if sources_of(items.drop_last()).contains(s) {
                    Some(PlaylistError::MoveSourceDuplicate { source: s })
                } else if destinations_of(items.drop_last()).contains(d) {
                    Some(PlaylistError::MoveDestinationDuplicate { destination: d })
                } else {
                    None
                }
            },
        }
    }
}

/// `flags[i]` tells whether the original item `i` is moved.
pub open spec fn moved_flags(items: Seq<(usize, usize)>, len: nat) -> Seq<bool> {
    Seq::new(len, |i: int| sources_of(items).contains(i as usize))
}

/// `slots[d]` is the source that the batch puts at new index `d`, if any.
pub open spec fn target_sources(items: Seq<(usize, usize)>, len: nat) -> Seq<Option<usize>>
    decreases items.len(),
{
    if items.len() == 0 {
        Seq::new(len, |d: int| None)
    } else {
        target_sources(items.drop_last(), len).update(items.last().1 as int, Some(items.last().0))
    }
}

/// The original indices below `n` that are not moved, in increasing order.
pub open spec fn unmoved_prefix(flags: Seq<bool>, n: nat) -> Seq<usize>
    decreases n,
{
    if n == 0 {
        Seq::empty()
    } else {
        unmoved_prefix(flags, (n - 1) as nat) + if flags[n - 1] {
            Seq::empty()
        } else {
            seq![(n - 1) as usize]
        }
    }
}

/// The original indices that are not moved, in increasing order.
pub open spec fn unmoved(flags: Seq<bool>) -> Seq<usize> {
    unmoved_prefix(flags, flags.len())
}

/// Number of new indices below `n` that no move claims.
pub open spec fn free_before(slots: Seq<Option<usize>>, n: nat) -> nat
    decreases n,
{
    if n == 0 {
        0
    } else {
        free_before(slots, (n - 1) as nat) + if slots[n - 1] is None {
            1nat
        } else {
            0nat
        }
    }
}

/// Number of new indices below `n` that some move claims.
pub open spec fn claimed_before(slots: Seq<Option<usize>>, n: nat) -> nat
    decreases n,
{
    if n == 0 {
        0
    } else {
        claimed_before(slots, (n - 1) as nat) + if slots[n - 1] is Some {
            1nat
        } else {
            0nat
        }
    }
}

/// Number of moved original indices below `n`.
pub open spec fn moved_before(flags: Seq<bool>, n: nat) -> nat
    decreases n,
{
    if n == 0 {
        0
    } else {
        moved_before(flags, (n - 1) as nat) + if flags[n - 1] {
            1nat
        } else {
            0nat
        }
    }
}

/// `order[d]` is the original index of the item that ends up at new index
/// `d`: the source of the move to `d`, or else the next unmoved item.
pub open spec fn move_order(items: Seq<(usize, usize)>, len: nat) -> Seq<usize> {
    let slots = target_sources(items, len);
    let rest = unmoved(moved_flags(items, len));
    Seq::new(
        len,
        |d: int|
            match slots[d] {
                Some(s) => s,
                None => rest[free_before(slots, d as nat) as int],
            },
    )
}

/// The playlist after the batch move.
pub open spec fn spec_move<T>(entries: Seq<T>, items: Seq<(usize, usize)>) -> Seq<T> {
    let order = move_order(items, entries.len());
    Seq::new(entries.len(), |d: int| entries[order[d] as int])
}

/// The first position of `x` in `s`.
pub open spec fn first_position(s: Seq<usize>, x: usize) -> Option<usize>
    decreases s.len(),
{
    if s.len() == 0 {
        None
    } else {
        match first_position(s.drop_last(), x) {
            Some(i) => Some(i),
            None => if s.last() == x {
                Some((s.len() - 1) as usize)
            } else {
                None
            },
        }
    }
}

/// Whether the batch move is accepted: every index in range, no source and
/// no destination named twice.
pub open spec fn valid_moves(items: Seq<(usize, usize)>, len: usize) -> bool {
    &&& forall|j: int| 0 <= j < items.len() ==> #[trigger] items[j].0 < len && items[j].1 < len
    &&& sources_of(items).no_duplicates()
    &&& destinations_of(items).no_duplicates()
}

pub proof fn lemma_first_move_error_prefix(items: Seq<(usize, usize)>, len: usize, n: int)
    requires
        0 <= n <= items.len(),
        first_move_error(items.take(n), len) is Some,
    ensures
        first_move_error(items, len) == first_move_error(items.take(n), len),
    decreases items.len() - n,
{
    if n < items.len() {
        assert(items.take(n + 1).drop_last() =~= items.take(n));
        lemma_first_move_error_prefix(items, len, n + 1);
    } else {
        assert(items.take(n) =~= items);
    }
}

proof fn lemma_drop_last_maps(items: Seq<(usize, usize)>)
    requires
        items.len() > 0,
    ensures
        sources_of(items) == sources_of(items.drop_last()).push(items.last().0),
        destinations_of(items) == destinations_of(items.drop_last()).push(items.last().1),
{
    assert(sources_of(items) =~= sources_of(items.drop_last()).push(items.last().0));
    assert(destinations_of(items) =~= destinations_of(items.drop_last()).push(items.last().1));
}

proof fn lemma_push_no_duplicates(s: Seq<usize>, x: usize)
    ensures
        s.push(x).no_duplicates() <==> s.no_duplicates() && !s.contains(x),
{
    let t = s.push(x);
    if t.no_duplicates() {
        assert forall|a: int, b: int| 0 <= a < s.len() && 0 <= b < s.len() && a != b implies s[a]
            != s[b] by {
            assert(t[a] == s[a] && t[b] == s[b]);
        }
        if s.contains(x) {
            let k = choose|k: int| 0 <= k < s.len() && s[k] == x;
            assert(t[k] == t[s.len() as int]);
        }
    }
    if s.no_duplicates() && !s.contains(x) {
        assert forall|a: int, b: int| 0 <= a < t.len() && 0 <= b < t.len() && a != b implies t[a]
            != t[b] by {
            if a < s.len() && b < s.len() {
                assert(t[a] == s[a] && t[b] == s[b]);
            } else if a < s.len() {
                assert(t[a] == s[a]);
            } else {
                assert(t[b] == s[b]);
            }
        }
    }
}

/// An accepted batch names existing items and places, each at most once.
pub proof fn lemma_first_move_error_none(items: Seq<(usize, usize)>, len: usize)
    ensures
        first_move_error(items, len) is None <==> valid_moves(items, len),
    decreases items.len(),
{
    if items.len() == 0 {
        assert(sources_of(items) =~= Seq::empty());
        assert(destinations_of(items) =~= Seq::empty());
    } else {
        let d = items.drop_last();
        lemma_first_move_error_none(d, len);
        lemma_drop_last_maps(items);
        lemma_push_no_duplicates(sources_of(d), items.last().0);
        lemma_push_no_duplicates(destinations_of(d), items.last().1);
        if valid_moves(items, len) {
            assert forall|j: int| 0 <= j < d.len() implies #[trigger] d[j].0 < len && d[j].1
                < len by {
                assert(d[j] == items[j]);
            }
        }
        if first_move_error(items, len) is None {
            assert forall|j: int| 0 <= j < items.len() implies #[trigger] items[j].0 < len
                && items[j].1 < len by {
                if j < d.len() {
                    assert(d[j] == items[j]);
                }
            }
        }
    }
}

proof fn lemma_moved_flags_push(items: Seq<(usize, usize)>, len: nat)
    requires
        items.len() > 0,
        items.last().0 < len,
        len <= usize::MAX + 1,
    ensures
        moved_flags(items, len) == moved_flags(items.drop_last(), len).update(
            items.last().0 as int,
            true,
        ),
{
    lemma_drop_last_maps(items);
    let s = sources_of(items.drop_last());
    let x = items.last().0;
    assert forall|i: int| 0 <= i < len implies #[trigger] s.push(x).contains(i as usize) == (
    s.contains(i as usize) || i == x) by {
        if s.push(x).contains(i as usize) {
            let k = choose|k: int| 0 <= k < s.len() + 1 && s.push(x)[k] == i as usize;
            if k < s.len() {
                assert(s[k] == i as usize);
            }
        }
        if s.contains(i as usize) {
            let k = choose|k: int| 0 <= k < s.len() && s[k] == i as usize;
            assert(s.push(x)[k] == i as usize);
        }
        if i == x {
            assert(s.push(x)[s.len() as int] == x);
        }
    }
    assert(moved_flags(items, len) =~= moved_flags(items.drop_last(), len).update(x as int, true));
}

proof fn lemma_target_sources_len(items: Seq<(usize, usize)>, len: nat)
    requires
        forall|j: int| 0 <= j < items.len() ==> #[trigger] items[j].1 < len,
    ensures
        target_sources(items, len).len() == len,
    decreases items.len(),
{
    if items.len() > 0 {
        let p = items.drop_last();
        assert forall|j: int| 0 <= j < p.len() implies #[trigger] p[j].1 < len by {
            assert(p[j] == items[j]);
        }
        assert(items[items.len() - 1] == items.last());
        lemma_target_sources_len(p, len);
    }
}

/// In an accepted batch, a place is claimed exactly by the move to it.
pub proof fn lemma_target_sources(items: Seq<(usize, usize)>, len: usize)
    requires
        valid_moves(items, len),
    ensures
        target_sources(items, len as nat).len() == len,
        forall|j: int|
            0 <= j < items.len() ==> target_sources(items, len as nat)[#[trigger] items[j].1 as int]
                == Some(items[j].0),
        forall|d: int|
            0 <= d < len ==> (#[trigger] target_sources(items, len as nat)[d] is Some
                <==> destinations_of(items).contains(d as usize)),
        forall|d: int|
            0 <= d < len && #[trigger] target_sources(items, len as nat)[d] is Some ==> exists|j: int|
                0 <= j < items.len() && items[j].1 == d && Some(items[j].0) == target_sources(
                    items,
                    len as nat,
                )[d],
    decreases items.len(),
{
    lemma_target_sources_len(items, len as nat);
    if items.len() == 0 {
        assert forall|d: int| 0 <= d < len implies !#[trigger] destinations_of(items).contains(
            d as usize,
        ) by {}
    } else {
        let p = items.drop_last();
        lemma_drop_last_maps(items);
        lemma_push_no_duplicates(sources_of(p), items.last().0);
        lemma_push_no_duplicates(destinations_of(p), items.last().1);
        assert forall|j: int| 0 <= j < p.len() implies #[trigger] p[j].0 < len && p[j].1 < len by {
            assert(p[j] == items[j]);
        }
        lemma_target_sources(p, len);
        let t = target_sources(items, len as nat);
        let last = items.last();
        let n = items.len() - 1;
        assert forall|j: int| 0 <= j < items.len() implies t[#[trigger] items[j].1 as int] == Some(
            items[j].0,
        ) by {
            if j < n {
                assert(items[j] == p[j]);
                assert(destinations_of(p)[j] == p[j].1);
                if p[j].1 == last.1 {
                    assert(destinations_of(p).contains(last.1));
                }
            }
        }
        assert forall|d: int| 0 <= d < len implies (#[trigger] t[d] is Some
            <==> destinations_of(items).contains(d as usize)) by {
            let ds = destinations_of(p);
            if d == last.1 {
                assert(destinations_of(items)[n] == d as usize);
            } else {
                if destinations_of(items).contains(d as usize) {
                    let k = choose|k: int|
                        0 <= k < items.len() && destinations_of(items)[k] == d as usize;
                    assert(ds[k] == d as usize);
                }
                if ds.contains(d as usize) {
                    let k = choose|k: int| 0 <= k < p.len() && ds[k] == d as usize;
                    assert(destinations_of(items)[k] == d as usize);
                }
            }
        }
        assert forall|d: int| 0 <= d < len && #[trigger] t[d] is Some implies exists|j: int|
            0 <= j < items.len() && items[j].1 == d && Some(items[j].0) == t[d] by {
            if d == last.1 {
                assert(items[n].1 == d && Some(items[n].0) == t[d]);
            } else {
                let j = choose|j: int|
                    0 <= j < p.len() && p[j].1 == d && Some(p[j].0) == target_sources(
                        p,
                        len as nat,
                    )[d];
                assert(items[j] == p[j]);
            }
        }
    }
}

proof fn lemma_claimed_update(slots: Seq<Option<usize>>, i: int, v: usize, n: nat)
    requires
        0 <= i < slots.len(),
        n <= slots.len(),
        slots[i] is None,
    ensures
        claimed_before(slots.update(i, Some(v)), n) == claimed_before(slots, n) + if i < n {
            1nat
        } else {
            0nat
        },
    decreases n,
{
    if n > 0 {
        lemma_claimed_update(slots, i, v, (n - 1) as nat);
    }
}

proof fn lemma_moved_update(flags: Seq<bool>, i: int, n: nat)
    requires
        0 <= i < flags.len(),
        n <= flags.len(),
        !flags[i],
    ensures
        moved_before(flags.update(i, true), n) == moved_before(flags, n) + if i < n {
            1nat
        } else {
            0nat
        },
    decreases n,
{
    if n > 0 {
        lemma_moved_update(flags, i, (n - 1) as nat);
    }
}

proof fn lemma_claimed_none(len: nat, n: nat)
    requires
        n <= len,
    ensures
        claimed_before(Seq::new(len, |d: int| None::<usize>), n) == 0,
        moved_before(Seq::new(len, |d: int| false), n) == 0,
    decreases n,
{
    if n > 0 {
        lemma_claimed_none(len, (n - 1) as nat);
    }
}

/// An accepted batch claims as many places as it moves items.
pub proof fn lemma_move_counts(items: Seq<(usize, usize)>, len: usize)
    requires
        valid_moves(items, len),
    ensures
        claimed_before(target_sources(items, len as nat), len as nat) == items.len(),
        moved_before(moved_flags(items, len as nat), len as nat) == items.len(),
    decreases items.len(),
{
    if items.len() == 0 {
        lemma_claimed_none(len as nat, len as nat);
        assert(moved_flags(items, len as nat) =~= Seq::new(len as nat, |d: int| false));
    } else {
        let p = items.drop_last();
        lemma_drop_last_maps(items);
        lemma_push_no_duplicates(sources_of(p), items.last().0);
        lemma_push_no_duplicates(destinations_of(p), items.last().1);
        assert forall|j: int| 0 <= j < p.len() implies #[trigger] p[j].0 < len && p[j].1 < len by {
            assert(p[j] == items[j]);
        }
        lemma_move_counts(p, len);
        lemma_target_sources(p, len);
        let last = items.last();
        assert(items[items.len() - 1] == last);
        lemma_claimed_update(target_sources(p, len as nat), last.1 as int, last.0, len as nat);
        lemma_moved_flags_push(items, len as nat);
        lemma_moved_update(moved_flags(p, len as nat), last.0 as int, len as nat);
    }
}

pub proof fn lemma_free_claimed(slots: Seq<Option<usize>>, n: nat)
    ensures
        free_before(slots, n) + claimed_before(slots, n) == n,
    decreases n,
{
    if n > 0 {
        lemma_free_claimed(slots, (n - 1) as nat);
    }
}

pub proof fn lemma_free_monotone(slots: Seq<Option<usize>>, m: nat, n: nat)
    requires
        m <= n,
    ensures
        free_before(slots, m) <= free_before(slots, n),
    decreases n,
{
    if m < n {
        lemma_free_monotone(slots, m, (n - 1) as nat);
    }
}

proof fn lemma_unmoved_prefix_len(flags: Seq<bool>, n: nat)
    ensures
        unmoved_prefix(flags, n).len() + moved_before(flags, n) == n,
    decreases n,
{
    if n > 0 {
        lemma_unmoved_prefix_len(flags, (n - 1) as nat);
    }
}

proof fn lemma_unmoved_prefix_facts(flags: Seq<bool>, n: nat)
    requires
        n <= flags.len(),
        flags.len() <= usize::MAX + 1,
    ensures
        forall|k: int|
            0 <= k < unmoved_prefix(flags, n).len() ==> #[trigger] unmoved_prefix(flags, n)[k] < n
                && !flags[unmoved_prefix(flags, n)[k] as int],
        forall|a: int, b: int|
            0 <= a < b < unmoved_prefix(flags, n).len() ==> #[trigger] unmoved_prefix(flags, n)[a]
                < #[trigger] unmoved_prefix(flags, n)[b],
        forall|i: int|
            0 <= i < n && !flags[i] ==> #[trigger] unmoved_prefix(flags, n).contains(i as usize),
    decreases n,
{
    if n > 0 {
        let m = (n - 1) as nat;
        lemma_unmoved_prefix_facts(flags, m);
        let p = unmoved_prefix(flags, m);
        let u = unmoved_prefix(flags, n);
        assert forall|k: int| 0 <= k < p.len() implies u[k] == p[k] by {}
        assert forall|i: int| 0 <= i < n && !flags[i] implies #[trigger] u.contains(i as usize) by {
            if i < m {
                assert(p.contains(i as usize));
                let k = choose|k: int| 0 <= k < p.len() && p[k] == i as usize;
                assert(u[k] == i as usize);
            } else {
                assert(u[p.len() as int] == i as usize);
            }
        }
    }
}

/// The unmoved items, read in increasing order, and where each one stands.
pub proof fn lemma_unmoved_facts(flags: Seq<bool>)
    requires
        flags.len() <= usize::MAX + 1,
    ensures
        unmoved(flags).len() + moved_before(flags, flags.len()) == flags.len(),
        forall|k: int|
            0 <= k < unmoved(flags).len() ==> #[trigger] unmoved(flags)[k] < flags.len()
                && !flags[unmoved(flags)[k] as int],
        forall|a: int, b: int|
            0 <= a < b < unmoved(flags).len() ==> #[trigger] unmoved(flags)[a]
                < #[trigger] unmoved(flags)[b],
        forall|i: int|
            0 <= i < flags.len() && !flags[i] ==> #[trigger] unmoved(flags).contains(i as usize),
{
    lemma_unmoved_prefix_len(flags, flags.len());
    lemma_unmoved_prefix_facts(flags, flags.len());
}

/// Every rank below the number of free places belongs to some free place.
proof fn lemma_free_rank_exists(slots: Seq<Option<usize>>, n: nat, k: nat)
    requires
        n <= slots.len(),
        k < free_before(slots, n),
    ensures
        exists|d: int| 0 <= d < n && slots[d] is None && #[trigger] free_before(slots, d as nat) == k,
    decreases n,
{
    let m = (n - 1) as nat;
    if k < free_before(slots, m) {
        lemma_free_rank_exists(slots, m, k);
        let d = choose|d: int| 0 <= d < m && slots[d] is None && #[trigger] free_before(slots, d as nat) == k;
        assert(0 <= d < n && slots[d] is None && free_before(slots, d as nat) == k);
    } else {
        assert(slots[m as int] is None && free_before(slots, m) == k);
    }
}

/// The order of an accepted batch: each entry is in range, moved items land on
/// their destinations, and every original index appears exactly once.
pub proof fn lemma_move_order(items: Seq<(usize, usize)>, len: usize)
    requires
        valid_moves(items, len),
    ensures
        move_order(items, len as nat).len() == len,
        forall|d: int| 0 <= d < len ==> #[trigger] move_order(items, len as nat)[d] < len,
        forall|j: int|
            0 <= j < items.len() ==> move_order(items, len as nat)[#[trigger] items[j].1 as int]
                == items[j].0,
        move_order(items, len as nat).no_duplicates(),
        forall|i: int| 0 <= i < len ==> #[trigger] move_order(items, len as nat).contains(i as usize),
{
    let order = move_order(items, len as nat);
    let slots = target_sources(items, len as nat);
    let flags = moved_flags(items, len as nat);
    let rest = unmoved(flags);
    lemma_target_sources(items, len);
    lemma_move_counts(items, len);
    lemma_unmoved_facts(flags);
    lemma_free_claimed(slots, len as nat);
    // The free places and the unmoved items are equally many.
    assert(rest.len() == free_before(slots, len as nat));
    assert forall|d: int| 0 <= d < len && slots[d] is None implies #[trigger] free_before(
        slots,
        d as nat,
    ) < rest.len() by {
        lemma_free_monotone(slots, (d + 1) as nat, len as nat);
    }
    assert forall|d: int| 0 <= d < len implies #[trigger] order[d] < len && (slots[d] is Some
        ==> flags[order[d] as int]) && (slots[d] is None ==> !flags[order[d] as int]) by {
        if slots[d] is Some {
            let j = choose|j: int|
                0 <= j < items.len() && items[j].1 == d && Some(items[j].0) == slots[d];
            assert(sources_of(items)[j] == items[j].0);
        } else {
            lemma_free_monotone(slots, (d + 1) as nat, len as nat);
        }
    }
    assert forall|a: int, b: int| 0 <= a < order.len() && 0 <= b < order.len() && a != b implies order[a]
        != order[b] by {
        if slots[a] is Some && slots[b] is Some {
            let ja = choose|j: int|
                0 <= j < items.len() && items[j].1 == a && Some(items[j].0) == slots[a];
            let jb = choose|j: int|
                0 <= j < items.len() && items[j].1 == b && Some(items[j].0) == slots[b];
            assert(sources_of(items)[ja] == items[ja].0);
            assert(sources_of(items)[jb] == items[jb].0);
        } else if slots[a] is None && slots[b] is None {
            let (lo, hi) = if a < b {
                (a, b)
            } else {
                (b, a)
            };
            lemma_free_monotone(slots, (lo + 1) as nat, hi as nat);
            lemma_free_monotone(slots, (hi + 1) as nat, len as nat);
        }
    }
    assert forall|i: int| 0 <= i < len implies #[trigger] order.contains(i as usize) by {
        if flags[i] {
            let j = choose|j: int| 0 <= j < items.len() && sources_of(items)[j] == i as usize;
            assert(order[items[j].1 as int] == i as usize);
        } else {
            assert(rest.contains(i as usize));
            let k = choose|k: int| 0 <= k < rest.len() && rest[k] == i as usize;
            lemma_free_rank_exists(slots, len as nat, k as nat);
            let d = choose|d: int|
                0 <= d < len && slots[d] is None && #[trigger] free_before(slots, d as nat) == k;
            assert(order[d] == i as usize);
        }
    }
}

/// Where a single move leaves each place: the moved item `c` at `t`, and the
/// other items, in their order, on the other places.
pub open spec fn single_move_place(c: int, t: int, d: int) -> int {
    if d == t {
        c
    } else {
        let k = if d < t {
            d
        } else {
            d - 1
        };
        if k < c {
            k
        } else {
            k + 1
        }
    }
}

proof fn lemma_single_free(slots: Seq<Option<usize>>, t: int, n: nat)
    requires
        0 <= t < slots.len(),
        n <= slots.len(),
        forall|d: int| 0 <= d < slots.len() ==> (#[trigger] slots[d] is None <==> d != t),
    ensures
        free_before(slots, n) == if n <= t {
            n as int
        } else {
            n - 1
        },
    decreases n,
{
    if n > 0 {
        lemma_single_free(slots, t, (n - 1) as nat);
    }
}

proof fn lemma_single_unmoved(flags: Seq<bool>, c: int, n: nat)
    requires
        0 <= c < flags.len(),
        n <= flags.len(),
        flags.len() <= usize::MAX,
        forall|i: int| 0 <= i < flags.len() ==> (#[trigger] flags[i] <==> i == c),
    ensures
        unmoved_prefix(flags, n).len() == if n <= c {
            n as int
        } else {
            n - 1
        },
        forall|k: int|
            0 <= k < unmoved_prefix(flags, n).len() ==> #[trigger] unmoved_prefix(flags, n)[k] == if k
                < c {
                k
            } else {
                k + 1
            },
    decreases n,
{
    if n > 0 {
        lemma_single_unmoved(flags, c, (n - 1) as nat);
        let p = unmoved_prefix(flags, (n - 1) as nat);
        let u = unmoved_prefix(flags, n);
        assert forall|k: int| 0 <= k < u.len() implies #[trigger] u[k] == if k < c {
            k
        } else {
            k + 1
        } by {
            if k < p.len() {
                assert(u[k] == p[k]);
            } else {
                assert(flags[n - 1] <==> n - 1 == c);
                assert(!flags[n - 1]);
                assert(u =~= p + seq![(n - 1) as usize]);
                assert(u[k] == (n - 1) as usize);
            }
        }
    }
}

/// A single move takes the item `c` to place `t`; the other items close up
/// around it in their order.
pub proof fn lemma_single_move_order(c: usize, t: usize, len: usize)
    requires
        c < len,
        t < len,
    ensures
        move_order(seq![(c, t)], len as nat).len() == len,
        forall|d: int|
            0 <= d < len ==> #[trigger] move_order(seq![(c, t)], len as nat)[d] as int
                == single_move_place(c as int, t as int, d),
{
    let m = seq![(c, t)];
    assert(m.drop_last() =~= Seq::<(usize, usize)>::empty());
    let slots = target_sources(m, len as nat);
    assert(target_sources(m.drop_last(), len as nat) =~= Seq::new(len as nat, |d: int| None::<usize>));
    assert(slots =~= Seq::new(len as nat, |d: int| None::<usize>).update(t as int, Some(c)));
    let flags = moved_flags(m, len as nat);
    assert(sources_of(m) =~= seq![c]);
    assert forall|i: int| 0 <= i < flags.len() implies (#[trigger] flags[i] <==> i == c) by {
        if i == c {
            assert(sources_of(m)[0] == c);
        }
    }
    lemma_single_unmoved(flags, c as int, len as nat);
    let order = move_order(m, len as nat);
    assert forall|d: int| 0 <= d < len implies #[trigger] order[d] as int == single_move_place(
        c as int,
        t as int,
        d,
    ) by {
        if d != t {
            lemma_single_free(slots, t as int, d as nat);
        }
    }
}

/// Checks the batch move and returns which items move and which places they
/// claim.
pub fn check_move(items: &Vec<(usize, usize)>, len: usize) -> (r: Result<
    (Vec<bool>, Vec<Option<usize>>),
    PlaylistError,
>)
    ensures
        r is Ok <==> first_move_error(items@, len) is None,
        r matches Err(e) ==> first_move_error(items@, len) == Some(e),
        r matches Ok((flags, slots)) ==> flags@ == moved_flags(items@, len as nat) && slots@
            == target_sources(items@, len as nat),
{
    let mut flags: Vec<bool> = Vec::new();
    let mut slots: Vec<Option<usize>> = Vec::new();
    let mut i: usize = 0;
    while i < len
        invariant
            i <= len,
            flags@.len() == i,
            slots@.len() == i,
            forall|k: int| 0 <= k < i ==> !#[trigger] flags@[k],
            forall|k: int| 0 <= k < i ==> #[trigger] slots@[k] is None,
        decreases len - i,
    {
        flags.push(false);
        slots.push(None);
        i = i + 1;
    }
    assert(flags@ =~= moved_flags(items@.take(0), len as nat));
    assert(slots@ =~= target_sources(items@.take(0), len as nat));
    let mut j: usize = 0;
    while j < items.len()
        invariant
            j <= items.len(),
            first_move_error(items@.take(j as int), len) is None,
            flags@ == moved_flags(items@.take(j as int), len as nat),
            slots@ == target_sources(items@.take(j as int), len as nat),
        decreases items.len() - j,
    {
        let ghost prefix = items@.take(j as int);
        let ghost next = items@.take(j + 1);
        assert(next.drop_last() =~= prefix);
        assert(next.last() == items@[j as int]);
        let (s, d) = items[j];
        if s >= len {
            proof {
                lemma_first_move_error_prefix(items@, len, j + 1);
            }
            return Err(PlaylistError::MoveSourceOutOfRange { source: s, length: len });
        }
        if d >= len {
            proof {
                lemma_first_move_error_prefix(items@, len, j + 1);
            }
            return Err(PlaylistError::MoveDestinationOutOfRange { destination: d, length: len });
        }
        proof {
            lemma_first_move_error_none(prefix, len);
            lemma_target_sources(prefix, len);
        }
        if flags[s] {
            proof {
                lemma_first_move_error_prefix(items@, len, j + 1);
            }
            return Err(PlaylistError::MoveSourceDuplicate { source: s });
        }
        if slots[d].is_some() {
            proof {
                lemma_first_move_error_prefix(items@, len, j + 1);
            }
            return Err(PlaylistError::MoveDestinationDuplicate { destination: d });
        }
        flags.set(s, true);
        slots.set(d, Some(s));
        proof {
            lemma_moved_flags_push(next, len as nat);
        }
        j = j + 1;
    }
    assert(items@.take(j as int) =~= items@);
    Ok((flags, slots))
}

/// Lists the unmoved original indices in increasing order.
fn unmoved_list(flags: &Vec<bool>) -> (r: Vec<usize>)
    ensures
        r@ == unmoved(flags@),
{
    let mut rest: Vec<usize> = Vec::new();
    let mut i: usize = 0;
    while i < flags.len()
        invariant
            i <= flags.len(),
            rest@ == unmoved_prefix(flags@, i as nat),
        decreases flags.len() - i,
    {
        if !flags[i] {
            rest.push(i);
        }
        i = i + 1;
    }
    rest
}

/// The new order of an accepted batch move, as original indices.
pub fn order_after_move(
    flags: &Vec<bool>,
    slots: &Vec<Option<usize>>,
    Ghost(items): Ghost<Seq<(usize, usize)>>,
) -> (r: Vec<usize>)
    requires
        valid_moves(items, slots.len() as usize),
        flags@ == moved_flags(items, slots.len() as nat),
        slots@ == target_sources(items, slots.len() as nat),
    ensures
        r@ == move_order(items, slots.len() as nat),
{
    let len = slots.len();
    let ghost order = move_order(items, len as nat);
    let rest = unmoved_list(flags);
    proof {
        lemma_move_counts(items, len);
        lemma_unmoved_facts(flags@);
        lemma_free_claimed(slots@, len as nat);
    }
    let rest_len = rest.len();
    let mut result: Vec<usize> = Vec::new();
    let mut used: usize = 0;
    let mut d: usize = 0;
    while d < len
        invariant
            d <= len,
            len == slots.len(),
            rest@ == unmoved(flags@),
            rest@.len() == free_before(slots@, len as nat),
            rest_len == rest@.len(),
            flags@ == moved_flags(items, len as nat),
            slots@ == target_sources(items, len as nat),
            used == free_before(slots@, d as nat),
            order == move_order(items, len as nat),
            result@ =~= order.take(d as int),
        decreases len - d,
    {
        match slots[d] {
            Some(s) => {
                assert(slots@[d as int] == Some(s));
                assert(target_sources(items, len as nat)[d as int] == Some(s));
                assert(order[d as int] == s);
                result.push(s);
            },
            None => {
                proof {
                    lemma_free_monotone(slots@, (d + 1) as nat, len as nat);
                    assert(free_before(slots@, (d + 1) as nat) == used + 1);
                    assert(order[d as int] == rest@[used as int]);
                }
                result.push(rest[used]);
                used = used + 1;
            },
        }
        d = d + 1;
    }
    assert(order.take(len as int) =~= order);
    result
}

/// Finds the first new index whose original index is `c`.
pub fn position_in(order: &Vec<usize>, c: usize) -> (r: Option<usize>)
    ensures
        r == first_position(order@, c),
{
    let mut i: usize = 0;
    while i < order.len()
        invariant
            i <= order.len(),
            first_position(order@.take(i as int), c) is None,
        decreases order.len() - i,
    {
        assert(order@.take(i + 1).drop_last() =~= order@.take(i as int));
        if order[i] == c {
            proof {
                lemma_first_position_prefix(order@, c, i + 1);
            }
            return Some(i);
        }
        i = i + 1;
    }
    assert(order@.take(i as int) =~= order@);
    None
}

proof fn lemma_first_position_prefix(s: Seq<usize>, x: usize, n: int)
    requires
        0 <= n <= s.len(),
        first_position(s.take(n), x) is Some,
    ensures
        first_position(s, x) == first_position(s.take(n), x),
    decreases s.len() - n,
{
    if n < s.len() {
        assert(s.take(n + 1).drop_last() =~= s.take(n));
        lemma_first_position_prefix(s, x, n + 1);
    } else {
        assert(s.take(n) =~= s);
    }
}

/// Where `x` first appears in `s`, if it does.
pub proof fn lemma_first_position(s: Seq<usize>, x: usize)
    requires
        s.len() <= usize::MAX + 1,
    ensures
        first_position(s, x) matches Some(i) ==> i < s.len() && s[i as int] == x && forall|k: int|
            0 <= k < i ==> s[k] != x,
        first_position(s, x) is None <==> !s.contains(x),
    decreases s.len(),
{
    if s.len() > 0 {
        let p = s.drop_last();
        lemma_first_position(p, x);
        if p.contains(x) {
            let k = choose|k: int| 0 <= k < p.len() && p[k] == x;
            assert(s[k] == x);
        }
        if s.contains(x) && !p.contains(x) {
            let k = choose|k: int| 0 <= k < s.len() && s[k] == x;
            if k < p.len() {
                assert(p[k] == x);
            }
        }
        if let Some(i) = first_position(p, x) {
            assert(s[i as int] == p[i as int]);
            assert forall|k: int| 0 <= k < i implies s[k] != x by {
                assert(s[k] == p[k]);
            }
        } else if s.last() == x {
            assert(s[s.len() - 1] == x);
            assert forall|k: int| 0 <= k < s.len() - 1 implies s[k] != x by {
                assert(s[k] == p[k]);
            }
        }
    }
}

/// Builds the playlist in a given order of original indices.
pub fn entries_in_order(entries: &Vec<PathBuf>, order: &Vec<usize>) -> (r: Vec<PathBuf>)
    requires
        forall|d: int| 0 <= d < order.len() ==> #[trigger] order@[d] < entries.len(),
    ensures
        r@ == Seq::new(order@.len(), |d: int| entries@[order@[d] as int]),
{
    let mut result: Vec<PathBuf> = Vec::new();
    let mut d: usize = 0;
    while d < order.len()
        invariant
            d <= order.len(),
            forall|k: int| 0 <= k < order.len() ==> #[trigger] order@[k] < entries.len(),
            result@ =~= Seq::new(d as nat, |k: int| entries@[order@[k] as int]),
        decreases order.len() - d,
    {
        result.push(entries[order[d]].clone());
        d = d + 1;
    }
    result
}

} // verus!
