//! Batch deletion at original indices.

use crate::change::PlaylistError;
use std::path::PathBuf;
use vstd::prelude::*;

verus! {

/// The error that refuses the batch deletion: the first index that does not
/// name an item, or that was already named earlier in the batch.
pub open spec fn first_delete_error(items: Seq<usize>, len: usize) -> Option<PlaylistError>
    decreases items.len(),
{
    if items.len() == 0 {
        None
    } else {
        match first_delete_error(items.drop_last(), len) {
            Some(e) => Some(e),
            None => {
                let x = items.last();
                if x >= len {
                    Some(PlaylistError::DeleteOutOfRange { index: x, length: len })
                } else if items.drop_last().contains(x) {
                    Some(PlaylistError::DeleteDuplicate { index: x })
                } else {
                    None
                }
            },
        }
    }
}

/// The first `n` original entries without the deleted ones.
pub open spec fn kept_prefix<T>(entries: Seq<T>, items: Seq<usize>, n: nat) -> Seq<T>
    decreases n,
{
    if n == 0 {
        Seq::empty()
    } else {
        kept_prefix(entries, items, (n - 1) as nat) + if items.contains((n - 1) as usize) {
            Seq::empty()
        } else {
            seq![entries[n - 1]]
        }
    }
}

/// The playlist after deleting the original indices `items`.
pub open spec fn spec_delete<T>(entries: Seq<T>, items: Seq<usize>) -> Seq<T> {
    kept_prefix(entries, items, entries.len())
}

/// Number of deleted original indices below `n`.
pub open spec fn deleted_before(items: Seq<usize>, n: nat) -> nat
    decreases n,
{
    if n == 0 {
        0
    } else {
        deleted_before(items, (n - 1) as nat) + if items.contains((n - 1) as usize) {
            1nat
        } else {
            0nat
        }
    }
}

/// Deletion flags: `flags[i]` tells whether the original item `i` goes.
pub open spec fn deletion_flags(items: Seq<usize>, len: nat) -> Seq<bool> {
    Seq::new(len, |i: int| items.contains(i as usize))
}

pub proof fn lemma_first_delete_error_prefix(items: Seq<usize>, len: usize, n: int)
    requires
        0 <= n <= items.len(),
        first_delete_error(items.take(n), len) is Some,
    ensures
        first_delete_error(items, len) == first_delete_error(items.take(n), len),
    decreases items.len() - n,
{
    if n < items.len() {
        assert(items.take(n + 1).drop_last() =~= items.take(n));
        lemma_first_delete_error_prefix(items, len, n + 1);
    } else {
        assert(items.take(n) =~= items);
    }
}

/// An accepted batch names distinct existing items.
pub proof fn lemma_first_delete_error_none(items: Seq<usize>, len: usize)
    ensures
        first_delete_error(items, len) is None <==> (forall|j: int|
            0 <= j < items.len() ==> #[trigger] items[j] < len) && items.no_duplicates(),
    decreases items.len(),
{
    if items.len() > 0 {
        let d = items.drop_last();
        lemma_first_delete_error_none(d, len);
        if first_delete_error(items, len) is None {
            assert forall|j: int| 0 <= j < items.len() implies #[trigger] items[j] < len by {
                if j < items.len() - 1 {
                    assert(items[j] == d[j]);
                }
            }
            assert forall|a: int, b: int|
                0 <= a < items.len() && 0 <= b < items.len() && a != b implies items[a]
                != items[b] by {
                if a < items.len() - 1 && b < items.len() - 1 {
                    assert(items[a] == d[a] && items[b] == d[b]);
                } else if a == items.len() - 1 {
                    assert(d[b] == items[b]);
                } else {
                    assert(d[a] == items[a]);
                }
            }
        }
        if (forall|j: int| 0 <= j < items.len() ==> #[trigger] items[j] < len)
            && items.no_duplicates() {
            assert forall|j: int| 0 <= j < d.len() implies #[trigger] d[j] < len by {
                assert(d[j] == items[j]);
            }
            assert(d.no_duplicates()) by {
                assert forall|a: int, b: int|
                    0 <= a < d.len() && 0 <= b < d.len() && a != b implies d[a] != d[b] by {
                    assert(d[a] == items[a] && d[b] == items[b]);
                }
            }
            if d.contains(items.last()) {
                let k = choose|k: int| 0 <= k < d.len() && d[k] == items.last();
                assert(items[k] == items[items.len() - 1]);
            }
        }
    }
}

pub proof fn lemma_kept_prefix_len<T>(entries: Seq<T>, items: Seq<usize>, n: nat)
    ensures
        kept_prefix(entries, items, n).len() + deleted_before(items, n) == n,
    decreases n,
{
    if n > 0 {
        lemma_kept_prefix_len(entries, items, (n - 1) as nat);
    }
}

pub proof fn lemma_kept_prefix_extends<T>(
    entries: Seq<T>,
    items: Seq<usize>,
    m: nat,
    n: nat,
    i: int,
)
    requires
        m <= n,
        0 <= i < kept_prefix(entries, items, m).len(),
    ensures
        i < kept_prefix(entries, items, n).len(),
        kept_prefix(entries, items, n)[i] == kept_prefix(entries, items, m)[i],
    decreases n,
{
    if m < n {
        lemma_kept_prefix_extends(entries, items, m, (n - 1) as nat, i);
    }
}

/// An item that is not deleted moves down by the number of deleted items
/// before it.
pub proof fn lemma_delete_keeps_entry<T>(entries: Seq<T>, items: Seq<usize>, c: int)
    requires
        0 <= c < entries.len(),
        c <= usize::MAX,
        !items.contains(c as usize),
    ensures
        deleted_before(items, c as nat) <= c,
        c - deleted_before(items, c as nat) < spec_delete(entries, items).len(),
        spec_delete(entries, items)[c - deleted_before(items, c as nat)] == entries[c],
{
    lemma_kept_prefix_len(entries, items, c as nat);
    lemma_kept_prefix_len(entries, items, (c + 1) as nat);
    let p = c - deleted_before(items, c as nat);
    assert(kept_prefix(entries, items, (c + 1) as nat)[p] == entries[c]);
    lemma_kept_prefix_extends(entries, items, (c + 1) as nat, entries.len(), p);
}

proof fn lemma_deleted_before_drop_last(items: Seq<usize>, n: nat)
    requires
        items.len() > 0,
        !items.drop_last().contains(items.last()),
        n <= usize::MAX + 1,
    ensures
        deleted_before(items, n) == deleted_before(items.drop_last(), n) + if items.last() < n {
            1nat
        } else {
            0nat
        },
    decreases n,
{
    if n > 0 {
        lemma_deleted_before_drop_last(items, (n - 1) as nat);
        let x = (n - 1) as usize;
        if items.contains(x) {
            let k = choose|k: int| 0 <= k < items.len() && items[k] == x;
            if k < items.len() - 1 {
                assert(items.drop_last()[k] == x);
            }
        }
        if items.drop_last().contains(x) {
            let k = choose|k: int| 0 <= k < items.len() - 1 && items.drop_last()[k] == x;
            assert(items[k] == x);
        }
        if items.last() == x {
            assert(items[items.len() - 1] == x);
        }
    }
}

/// Deleting distinct existing items removes exactly that many items.
pub proof fn lemma_delete_len<T>(entries: Seq<T>, items: Seq<usize>)
    requires
        first_delete_error(items, entries.len() as usize) is None,
        entries.len() <= usize::MAX,
    ensures
        spec_delete(entries, items).len() == entries.len() - items.len(),
{
    lemma_first_delete_error_none(items, entries.len() as usize);
    lemma_deleted_before_all(items, entries.len());
    lemma_kept_prefix_len(entries, items, entries.len());
}

proof fn lemma_deleted_before_all(items: Seq<usize>, n: nat)
    requires
        items.no_duplicates(),
        forall|j: int| 0 <= j < items.len() ==> #[trigger] items[j] < n,
        n <= usize::MAX + 1,
    ensures
        deleted_before(items, n) == items.len(),
    decreases items.len(),
{
    if items.len() == 0 {
        lemma_deleted_before_none(items, n);
    } else {
        let d = items.drop_last();
        assert(d.no_duplicates()) by {
            assert forall|a: int, b: int|
                0 <= a < d.len() && 0 <= b < d.len() && a != b implies d[a] != d[b] by {
                assert(d[a] == items[a] && d[b] == items[b]);
            }
        }
        assert forall|j: int| 0 <= j < d.len() implies #[trigger] d[j] < n by {
            assert(d[j] == items[j]);
        }
        if d.contains(items.last()) {
            let k = choose|k: int| 0 <= k < d.len() && d[k] == items.last();
            assert(items[k] == items[items.len() - 1]);
        }
        lemma_deleted_before_all(d, n);
        lemma_deleted_before_drop_last(items, n);
    }
}

proof fn lemma_deleted_before_none(items: Seq<usize>, n: nat)
    requires
        items.len() == 0,
    ensures
        deleted_before(items, n) == 0,
    decreases n,
{
    if n > 0 {
        lemma_deleted_before_none(items, (n - 1) as nat);
    }
}

/// Checks the batch deletion and returns its deletion flags.
pub fn check_delete(items: &Vec<usize>, len: usize) -> (r: Result<Vec<bool>, PlaylistError>)
    ensures
        r is Ok <==> first_delete_error(items@, len) is None,
        r matches Err(e) ==> first_delete_error(items@, len) == Some(e),
        r matches Ok(flags) ==> flags@ == deletion_flags(items@, len as nat),
{
    let mut removed: Vec<bool> = Vec::new();
    let mut i: usize = 0;
    while i < len
        invariant
            i <= len,
            removed@.len() == i,
            forall|k: int| 0 <= k < i ==> !#[trigger] removed@[k],
        decreases len - i,
    {
        removed.push(false);
        i = i + 1;
    }
    let mut j: usize = 0;
    while j < items.len()
        invariant
            j <= items.len(),
            removed@.len() == len,
            first_delete_error(items@.take(j as int), len) is None,
            forall|k: int| 0 <= k < len ==> #[trigger] removed@[k] == items@.take(j as int).contains(
                k as usize,
            ),
        decreases items.len() - j,
    {
        let ghost prefix = items@.take(j as int);
        assert(items@.take(j + 1).drop_last() =~= prefix);
        let x = items[j];
        if x >= len {
            proof {
                lemma_first_delete_error_prefix(items@, len, j + 1);
            }
            return Err(PlaylistError::DeleteOutOfRange { index: x, length: len });
        }
        if removed[x] {
            proof {
                lemma_first_delete_error_prefix(items@, len, j + 1);
            }
            return Err(PlaylistError::DeleteDuplicate { index: x });
        }
        removed.set(x, true);
        proof {
            let next = items@.take(j + 1);
            assert forall|k: int| 0 <= k < len implies #[trigger] removed@[k] == next.contains(
                k as usize,
            ) by {
                if next.contains(k as usize) {
                    let w = choose|w: int| 0 <= w < next.len() && next[w] == k as usize;
                    if w < j {
                        assert(prefix[w] == k as usize);
                    }
                }
                if prefix.contains(k as usize) {
                    let w = choose|w: int| 0 <= w < prefix.len() && prefix[w] == k as usize;
                    assert(next[w] == k as usize);
                }
                if k == x {
                    assert(next[j as int] == x);
                }
            }
        }
        j = j + 1;
    }
    assert(items@.take(j as int) =~= items@);
    assert(removed@ =~= deletion_flags(items@, len as nat));
    Ok(removed)
}

/// Keeps the entries whose deletion flag is clear.
pub fn kept_entries(entries: &Vec<PathBuf>, removed: &Vec<bool>, Ghost(items): Ghost<Seq<usize>>) -> (r: Vec<PathBuf>)
    requires
        removed@ == deletion_flags(items, entries.len() as nat),
    ensures
        r@ == spec_delete(entries@, items),
{
    let mut kept: Vec<PathBuf> = Vec::new();
    let mut i: usize = 0;
    while i < entries.len()
        invariant
            i <= entries.len(),
            removed@ == deletion_flags(items, entries.len() as nat),
            kept@ == kept_prefix(entries@, items, i as nat),
        decreases entries.len() - i,
    {
        if !removed[i] {
            kept.push(entries[i].clone());
        }
        i = i + 1;
    }
    kept
}

/// Counts the deleted items before the original item `c`.
pub fn count_deleted_before(removed: &Vec<bool>, c: usize, Ghost(items): Ghost<Seq<usize>>) -> (r: usize)
    requires
        c <= removed@.len(),
        removed@ == deletion_flags(items, removed@.len()),
    ensures
        r == deleted_before(items, c as nat),
        r <= c,
{
    let mut count: usize = 0;
    let mut i: usize = 0;
    while i < c
        invariant
            i <= c,
            c <= removed@.len(),
            removed@ == deletion_flags(items, removed@.len()),
            count == deleted_before(items, i as nat),
            count <= i,
        decreases c - i,
    {
        if removed[i] {
            count = count + 1;
        }
        i = i + 1;
    }
    count
}

} // verus!
