//! Which threads of a process are suspended for a transaction.
use vstd::prelude::*;

verus! {

/// A thread in a snapshot of the system's threads.
#[derive(Clone, Copy, Debug, PartialEq, Eq, Structural)]
pub struct ThreadEntry {
    pub thread_id: u32,
    pub owner_process_id: u32,
}

/// Whether a thread belongs to the process and is not the calling one.
pub open spec fn other_thread(entry: ThreadEntry, process_id: u32, calling_thread: u32) -> bool {
    entry.owner_process_id == process_id && entry.thread_id != calling_thread
}

/// The numbers of the threads among the first `upto` that belong to the process
/// and are not the calling one.
pub open spec fn other_threads(
    entries: Seq<ThreadEntry>,
    process_id: u32,
    calling_thread: u32,
    upto: int,
) -> Seq<u32>
    decreases upto,
{
    if upto <= 0 {
        Seq::empty()
    } else {
        let before = other_threads(entries, process_id, calling_thread, upto - 1);
        if other_thread(entries[upto - 1], process_id, calling_thread) {
            before.push(entries[upto - 1].thread_id)
        } else {
            before
        }
    }
}

/// Enumerates threads.
pub struct ThreadEnumerator;

impl ThreadEnumerator {
    /// Returns the numbers of the threads in a snapshot that belong to the
    /// process, without the calling one, in the order of the snapshot.
    pub fn enumerate_process_threads(
        entries: &[ThreadEntry],
        process_id: u32,
        calling_thread: u32,
    ) -> (ids: Vec<u32>)
        ensures
            ids@ == other_threads(
                entries@,
                process_id,
                calling_thread,
                entries@.len() as int,
            ),
    {
        let mut ids: Vec<u32> = Vec::new();
        let mut i: usize = 0;
        while i < entries.len()
            invariant
                i <= entries@.len(),
                ids@ == other_threads(entries@, process_id, calling_thread, i as int),
            decreases entries@.len() - i,
        {
            let entry = entries[i];
            if entry.owner_process_id == process_id && entry.thread_id != calling_thread {
                ids.push(entry.thread_id);
            }
            i = i + 1;
        }
        ids
    }
}

/// The calling thread is never among the threads that are suspended.
pub proof fn lemma_calling_thread_excluded(
    entries: Seq<ThreadEntry>,
    process_id: u32,
    calling_thread: u32,
    upto: int,
)
    requires
        upto <= entries.len(),
    ensures
        !other_threads(entries, process_id, calling_thread, upto).contains(calling_thread),
    decreases upto,
{
    if upto > 0 {
        lemma_calling_thread_excluded(entries, process_id, calling_thread, upto - 1);
        let before = other_threads(entries, process_id, calling_thread, upto - 1);
        let all = other_threads(entries, process_id, calling_thread, upto);
        if all.contains(calling_thread) {
            let i = choose|i: int| 0 <= i < all.len() && all[i] == calling_thread;
            if i < before.len() {
                assert(before[i] == calling_thread);
            }
        }
    }
}

} // verus!
