//! Batch insertion at original indices.

use crate::change::PlaylistError;
use std::path::PathBuf;
use vstd::prelude::*;

verus! {

/// The values inserted at original index `k`, in the order of the batch.
pub open spec fn additions_at<T>(items: Seq<(usize, T)>, k: int) -> Seq<T>
    decreases items.len(),
{
    if items.len() == 0 {
        Seq::empty()
    } else {
        let rest = additions_at(items.drop_last(), k);
        if items.last().0 == k {
            rest.push(items.last().1)
        } else {
            rest
        }
    }
}

/// Number of insertions whose index is below `n`.
pub open spec fn count_below<T>(items: Seq<(usize, T)>, n: int) -> nat
    decreases items.len(),
{
    if items.len() == 0 {
        0
    } else {
        count_below(items.drop_last(), n) + if items.last().0 < n {
            1nat
        } else {
            0nat
        }
    }
}

/// Number of insertions at index `k`.
pub open spec fn count_at<T>(items: Seq<(usize, T)>, k: int) -> nat
    decreases items.len(),
{
    if items.len() == 0 {
        0
    } else {
        count_at(items.drop_last(), k) + if items.last().0 == k {
            1nat
        } else {
            0nat
        }
    }
}

/// Number of insertions placed before the original item `i`
/// (those whose index is at most `i`).
pub open spec fn count_through<T>(items: Seq<(usize, T)>, i: int) -> nat {
    count_below(items, i + 1)
}

/// The first `n` original entries, each preceded by what is inserted before it.
pub open spec fn added_prefix<T>(entries: Seq<T>, items: Seq<(usize, T)>, n: nat) -> Seq<T>
    decreases n,
{
    if n == 0 {
        Seq::empty()
    } else {
        added_prefix(entries, items, (n - 1) as nat) + additions_at(items, n - 1) + seq![
            entries[n - 1],
        ]
    }
}

/// The playlist after the batch insertion `items`.
pub open spec fn spec_add<T>(entries: Seq<T>, items: Seq<(usize, T)>) -> Seq<T> {
    added_prefix(entries, items, entries.len()) + additions_at(items, entries.len() as int)
}

/// The error that refuses the batch insertion: the first index beyond `len`.
pub open spec fn first_add_error<T>(items: Seq<(usize, T)>, len: usize) -> Option<PlaylistError>
    decreases items.len(),
{
    if items.len() == 0 {
        None
    } else {
        match first_add_error(items.drop_last(), len) {
            Some(e) => Some(e),
            None => if items.last().0 > len {
                Some(PlaylistError::AddOutOfRange { index: items.last().0, length: len })
            } else {
                None
            },
        }
    }
}

pub proof fn lemma_first_add_error_none<T>(items: Seq<(usize, T)>, len: usize)
    ensures
        first_add_error(items, len) is None <==> forall|j: int|
            0 <= j < items.len() ==> #[trigger] items[j].0 <= len,
    decreases items.len(),
{
    if items.len() > 0 {
        lemma_first_add_error_none(items.drop_last(), len);
        assert forall|j: int| 0 <= j < items.len() - 1 implies #[trigger] items[j]
            == items.drop_last()[j] by {}
    }
}

pub proof fn lemma_additions_len<T>(items: Seq<(usize, T)>, k: int)
    ensures
        additions_at(items, k).len() == count_at(items, k),
    decreases items.len(),
{
    if items.len() > 0 {
        lemma_additions_len(items.drop_last(), k);
    }
}

pub proof fn lemma_count_split<T>(items: Seq<(usize, T)>, n: int)
    ensures
        count_below(items, n + 1) == count_below(items, n) + count_at(items, n),
    decreases items.len(),
{
    if items.len() > 0 {
        lemma_count_split(items.drop_last(), n);
    }
}

pub proof fn lemma_count_below_bound<T>(items: Seq<(usize, T)>, n: int)
    ensures
        count_below(items, n) <= items.len(),
        count_at(items, n) <= items.len(),
        n <= 0 ==> count_below(items, n) == 0,
    decreases items.len(),
{
    if items.len() > 0 {
        lemma_count_below_bound(items.drop_last(), n);
    }
}

pub proof fn lemma_count_below_all<T>(items: Seq<(usize, T)>, n: int)
    requires
        forall|j: int| 0 <= j < items.len() ==> #[trigger] items[j].0 < n,
    ensures
        count_below(items, n) == items.len(),
    decreases items.len(),
{
    if items.len() > 0 {
        assert forall|j: int| 0 <= j < items.len() - 1 implies #[trigger] items.drop_last()[j].0
            < n by {
            assert(items.drop_last()[j] == items[j]);
        }
        lemma_count_below_all(items.drop_last(), n);
    }
}

pub proof fn lemma_added_prefix_len<T>(entries: Seq<T>, items: Seq<(usize, T)>, n: nat)
    ensures
        added_prefix(entries, items, n).len() == n + count_below(items, n as int),
    decreases n,
{
    lemma_count_below_bound(items, n as int);
    if n > 0 {
        lemma_added_prefix_len(entries, items, (n - 1) as nat);
        lemma_additions_len(items, n - 1);
        lemma_count_split(items, n - 1);
    }
}

pub proof fn lemma_added_prefix_extends<T>(
    entries: Seq<T>,
    items: Seq<(usize, T)>,
    m: nat,
    n: nat,
    i: int,
)
    requires
        m <= n,
        0 <= i < added_prefix(entries, items, m).len(),
    ensures
        i < added_prefix(entries, items, n).len(),
        added_prefix(entries, items, n)[i] == added_prefix(entries, items, m)[i],
    decreases n,
{
    if m < n {
        lemma_added_prefix_extends(entries, items, m, (n - 1) as nat, i);
    }
}

/// The original item `c` lands at `c` plus the number of insertions at or
/// before it.
pub proof fn lemma_add_keeps_entry<T>(entries: Seq<T>, items: Seq<(usize, T)>, c: int)
    requires
        0 <= c < entries.len(),
    ensures
        c + count_through(items, c) < spec_add(entries, items).len(),
        spec_add(entries, items)[c + count_through(items, c)] == entries[c],
{
    let a = added_prefix(entries, items, (c + 1) as nat);
    lemma_added_prefix_len(entries, items, c as nat);
    lemma_added_prefix_len(entries, items, (c + 1) as nat);
    lemma_additions_len(items, c);
    lemma_count_split(items, c);
    let p = c + count_through(items, c);
    assert(a[p] == entries[c]);
    lemma_added_prefix_extends(entries, items, (c + 1) as nat, entries.len(), p);
}

/// The `j`-th insertion of the batch sits in the block of its index at its
/// rank among the earlier insertions at that index.
pub proof fn lemma_addition_rank<T>(items: Seq<(usize, T)>, j: int)
    requires
        0 <= j < items.len(),
    ensures
        count_at(items.take(j), items[j].0 as int) < additions_at(items, items[j].0 as int).len(),
        additions_at(items, items[j].0 as int)[count_at(items.take(j), items[j].0 as int) as int]
            == items[j].1,
    decreases items.len(),
{
    let k = items[j].0 as int;
    lemma_additions_len(items, k);
    lemma_additions_len(items.drop_last(), k);
    if j == items.len() - 1 {
        assert(items.take(j) =~= items.drop_last());
    } else {
        lemma_addition_rank(items.drop_last(), j);
        assert(items.drop_last().take(j) =~= items.take(j));
        assert(items.drop_last()[j] == items[j]);
    }
}

/// Length of the playlist after the batch insertion.
pub proof fn lemma_add_len<T>(entries: Seq<T>, items: Seq<(usize, T)>)
    requires
        forall|j: int| 0 <= j < items.len() ==> #[trigger] items[j].0 <= entries.len(),
    ensures
        spec_add(entries, items).len() == entries.len() + items.len(),
{
    lemma_added_prefix_len(entries, items, entries.len());
    lemma_additions_len(items, entries.len() as int);
    lemma_count_split(items, entries.len() as int);
    assert forall|j: int| 0 <= j < items.len() implies #[trigger] items[j].0 < entries.len()
        + 1 by {}
    lemma_count_below_all(items, entries.len() + 1int);
}

/// Checks every insertion index against the length, in the order of the batch.
pub fn check_add(items: &Vec<(usize, PathBuf)>, len: usize) -> (r: Result<(), PlaylistError>)
    ensures
        r is Ok <==> first_add_error(items@, len) is None,
        r matches Err(e) ==> first_add_error(items@, len) == Some(e),
{
    let mut j: usize = 0;
    while j < items.len()
        invariant
            j <= items.len(),
            first_add_error(items@.take(j as int), len) is None,
        decreases items.len() - j,
    {
        assert(items@.take(j + 1).drop_last() =~= items@.take(j as int));
        if items[j].0 > len {
            assert(first_add_error(items@.take(j + 1), len) == Some(
                PlaylistError::AddOutOfRange { index: items@[j as int].0, length: len },
            ));
            proof {
                lemma_first_add_error_prefix(items@, len, j + 1);
            }
            return Err(PlaylistError::AddOutOfRange { index: items[j].0, length: len });
        }
        j = j + 1;
    }
    assert(items@.take(j as int) =~= items@);
    Ok(())
}

/// Once a prefix of the batch is refused, the whole batch is refused the same way.
pub proof fn lemma_first_add_error_prefix<T>(items: Seq<(usize, T)>, len: usize, n: int)
    requires
        0 <= n <= items.len(),
        first_add_error(items.take(n), len) is Some,
    ensures
        first_add_error(items, len) == first_add_error(items.take(n), len),
    decreases items.len() - n,
{
    if n < items.len() {
        assert(items.take(n + 1).drop_last() =~= items.take(n));
        lemma_first_add_error_prefix(items, len, n + 1);
    } else {
        assert(items.take(n) =~= items);
    }
}

/// Appends the values that the batch inserts at original index `k`.
fn push_additions(updated: &mut Vec<PathBuf>, items: &Vec<(usize, PathBuf)>, k: usize)
    ensures
        final(updated)@ == old(updated)@ + additions_at(items@, k as int),
{
    let ghost start = updated@;
    let mut j: usize = 0;
    while j < items.len()
        invariant
            j <= items.len(),
            updated@ == start + additions_at(items@.take(j as int), k as int),
        decreases items.len() - j,
    {
        assert(items@.take(j + 1).drop_last() =~= items@.take(j as int));
        if items[j].0 == k {
            updated.push(items[j].1.clone());
        }
        j = j + 1;
    }
    assert(items@.take(j as int) =~= items@);
}

/// Builds the playlist after a batch insertion whose indices were checked.
pub fn added_entries(entries: &Vec<PathBuf>, items: &Vec<(usize, PathBuf)>) -> (r: Vec<PathBuf>)
    ensures
        r@ == spec_add(entries@, items@),
{
    let n = entries.len();
    let mut updated: Vec<PathBuf> = Vec::new();
    let mut k: usize = 0;
    while k < n
        invariant
            k <= n,
            n == entries.len(),
            updated@ == added_prefix(entries@, items@, k as nat),
        decreases n - k,
    {
        push_additions(&mut updated, items, k);
        updated.push(entries[k].clone());
        k = k + 1;
    }
    push_additions(&mut updated, items, n);
    updated
}

/// Counts the insertions placed before the original item `i`.
pub fn count_inserted_through(items: &Vec<(usize, PathBuf)>, i: usize) -> (r: usize)
    ensures
        r == count_through(items@, i as int),
{
    let mut count: usize = 0;
    let mut j: usize = 0;
    while j < items.len()
        invariant
            j <= items.len(),
            count == count_through(items@.take(j as int), i as int),
            count <= j,
        decreases items.len() - j,
    {
        assert(items@.take(j + 1).drop_last() =~= items@.take(j as int));
        if items[j].0 <= i {
            count = count + 1;
        }
        j = j + 1;
    }
    assert(items@.take(j as int) =~= items@);
    count
}

} // verus!
