//! The transcription history: newest entry first, bounded in length.

use vstd::prelude::*;

verus! {

/// How many entries the history keeps.
pub const HISTORY_LIMIT: usize = 50;

/// The history after recording `entry`: `entry` first, then the entries that
/// were there, cut to the first `HISTORY_LIMIT`.
pub open spec fn with_entry<T>(history: Seq<T>, entry: T) -> Seq<T> {
    let all = seq![entry] + history;
    if all.len() <= HISTORY_LIMIT {
        all
    } else {
        all.take(HISTORY_LIMIT as int)
    }
}

/// Records `entry` as the newest item of `history`, keeping at most
/// `HISTORY_LIMIT` entries.
pub fn add_to_history<T>(history: Vec<T>, entry: T) -> (updated: Vec<T>)
    ensures
        updated@ == with_entry(history@, entry),
{
    let mut h = history;
    h.insert(0, entry);
    h.truncate(HISTORY_LIMIT);
    assert(h@ =~= with_entry(history@, entry));
    h
}

/// Whatever history it is given, recording an entry leaves at most
/// `HISTORY_LIMIT` entries, with the new one first and the older ones after
/// it in their former order; only the oldest one is dropped, and only when
/// the history was full.
pub proof fn lemma_history_bounded<T>(history: Seq<T>, entry: T)
    ensures
        with_entry(history, entry).len() <= HISTORY_LIMIT,
        with_entry(history, entry)[0] == entry,
        with_entry(history, entry).len() == if history.len() < HISTORY_LIMIT {
            history.len() + 1int
        } else {
            HISTORY_LIMIT as int
        },
        forall|i: int|
            0 <= i < with_entry(history, entry).len() - 1 ==> #[trigger] with_entry(
                history,
                entry,
            )[i + 1] == history[i],
{
}

} // verus!
