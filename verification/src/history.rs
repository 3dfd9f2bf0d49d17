//! The cleanup history: entries of the cleanup log, and which of them a
//! listing shows. Reading the log file is left to the caller.

use vstd::prelude::*;

verus! {

/// One line of the cleanup log.
#[derive(Debug, Clone)]
pub struct HistoryEntry {
    pub date: String,
    pub category: String,
    pub recovered: u64,
}

/// The entries a listing shows: the newest `limit` of them, newest first.
pub open spec fn newest_first_spec<T>(entries: Seq<T>, limit: nat) -> Seq<T> {
    let n = if limit < entries.len() {
        limit
    } else {
        entries.len()
    };
    entries.reverse().take(n as int)
}

/// The newest `limit` entries of the log, newest first.
pub fn newest_first(entries: Vec<HistoryEntry>, limit: usize) -> (shown: Vec<HistoryEntry>)
    ensures
        shown@ == newest_first_spec(entries@, limit as nat),
{
    let ghost given = entries@;
    let mut rest = entries;
    let mut shown: Vec<HistoryEntry> = Vec::new();
    while shown.len() < limit && rest.len() > 0
        invariant
            rest@ == given.take(rest@.len() as int),
            shown@.len() + rest@.len() == given.len(),
            shown@ == given.reverse().take(shown@.len() as int),
            shown@.len() <= limit,
        decreases rest@.len(),
    {
        let ghost k: int = shown@.len() as int;
        let e = rest.pop().unwrap();
        proof {
            assert(e == given[given.len() - 1 - k]);
            assert(given.reverse()[k] == e);
            assert(shown@.push(e) =~= given.reverse().take(k + 1));
            assert(rest@ =~= given.take(rest@.len() as int));
        }
        shown.push(e);
    }
    shown
}

/// How many entries a listing limited to `limit` shows out of `len`.
pub fn shown_count(len: usize, limit: usize) -> (n: usize)
    ensures
        n == if limit < len {
            limit
        } else {
            len
        },
{
    if limit < len {
        limit
    } else {
        len
    }
}

} // verus!
