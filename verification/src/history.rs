//! Paging through the history of transcripts, newest first.
//!
//! Reading the entries from disk and choosing those that match a search is
//! the caller's part; the library cuts the page out of what is left.

use vstd::prelude::*;

verus! {

/// The page of `entries`, which are in the order in which they were written:
/// the entries from the newest backwards, without the first `offset` of them,
/// and at most `limit` of what follows.
pub open spec fn page<T>(entries: Seq<T>, limit: int, offset: int) -> Seq<T>
    recommends
        limit >= 0,
        offset >= 0,
{
    let total = entries.len() as int;
    let from = if offset <= total {
        offset
    } else {
        total
    };
    let count = if limit <= total - from {
        limit
    } else {
        total - from
    };
    Seq::new(count as nat, |j: int| entries[total - 1 - from - j])
}

/// Cuts one page out of the entries of the history.
pub fn read_history<T>(entries: Vec<T>, limit: usize, offset: usize) -> (shown: Vec<T>)
    ensures
        shown@ == page(entries@, limit as int, offset as int),
{
    let ghost all = entries@;
    let mut entries = entries;
    let mut skipped: usize = 0;
    while skipped < offset && entries.len() > 0
        invariant
            skipped <= offset,
            skipped + entries@.len() == all.len(),
            entries@ == all.take(all.len() - skipped),
        decreases entries@.len(),
    {
        let _ = entries.pop();
        skipped += 1;
    }
    let mut shown: Vec<T> = Vec::new();
    while shown.len() < limit && entries.len() > 0
        invariant
            shown@.len() <= limit,
            skipped + shown@.len() + entries@.len() == all.len(),
            skipped == offset || entries@.len() + shown@.len() == 0,
            entries@ == all.take(all.len() - skipped - shown@.len()),
            forall|j: int| 0 <= j < shown@.len() ==> shown@[j] == all[all.len() - 1 - skipped - j],
        decreases entries@.len(),
    {
        match entries.pop() {
            Some(entry) => shown.push(entry),
            None => {},
        }
    }
    assert(shown@ =~= page(all, limit as int, offset as int));
    shown
}

} // verus!
