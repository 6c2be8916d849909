//! Laws of what is done about threads: which of them are stopped, which of their addresses
//! are moved into a trampoline, and which stubs may be freed under them.
use vstd::prelude::*;

use crate::arch::Arch;
use crate::inline::{
    redirected, scanned_slots, stack_redirects, InlineData, StackRedirect, ThreadState,
};
use crate::laws::inline::limit;
use crate::reclaim::{busy, inside, referenced, regions_where, RetiredRegion};
use crate::threads::{other_threads, ThreadEntry};

verus! {

/// The number of bytes of a pointer.
pub open spec fn pointer_len(arch: Arch) -> int {
    if arch == Arch::X86 {
        4
    } else {
        8
    }
}

/// What is to be done about one slot of a stack.
pub open spec fn slot_redirect(
    arch: Arch,
    data: InlineData,
    sp: u64,
    stack: Seq<u64>,
    i: int,
) -> StackRedirect {
    StackRedirect {
        address: ((sp + i * pointer_len(arch)) % limit(arch)) as u64,
        old: stack[i],
        new: redirected(arch, data, stack[i])->0,
    }
}

/// Whether a change is that of one of the first slots of a stack.
pub open spec fn changes_slot(
    arch: Arch,
    data: InlineData,
    sp: u64,
    stack: Seq<u64>,
    upto: int,
    change: StackRedirect,
) -> bool {
    exists|i: int|
        0 <= i < upto && redirected(arch, data, #[trigger] stack[i]) is Some && change
            == slot_redirect(arch, data, sp, stack, i)
}

/// Every stack slot with an address of stolen code that has a place in the trampoline is
/// changed to that place, where the slot stands; no other slot is.
pub proof fn lemma_stack_slots_are_redirected(
    arch: Arch,
    data: InlineData,
    sp: u64,
    stack: Seq<u64>,
    upto: int,
)
    requires
        0 <= upto <= stack.len(),
    ensures
        ({
            let list = stack_redirects(arch, data, sp, stack, upto);
            &&& forall|i: int|
                0 <= i < upto && redirected(arch, data, #[trigger] stack[i]) is Some
                    ==> list.contains(slot_redirect(arch, data, sp, stack, i))
            &&& forall|k: int|
                0 <= k < list.len() ==> changes_slot(
                    arch,
                    data,
                    sp,
                    stack,
                    upto,
                    #[trigger] list[k],
                )
        }),
    decreases upto,
{
    if upto > 0 {
        lemma_stack_slots_are_redirected(arch, data, sp, stack, upto - 1);
        let before = stack_redirects(arch, data, sp, stack, upto - 1);
        let list = stack_redirects(arch, data, sp, stack, upto);
        let here = slot_redirect(arch, data, sp, stack, upto - 1);
        assert forall|i: int|
            0 <= i < upto && redirected(
                arch,
                data,
                #[trigger] stack[i],
            ) is Some implies list.contains(slot_redirect(arch, data, sp, stack, i)) by {
            if i < upto - 1 {
                let one = slot_redirect(arch, data, sp, stack, i);
                assert(before.contains(one));
                let k = choose|k: int| 0 <= k < before.len() && before[k] == one;
                assert(list[k] == one);
            } else {
                assert(list.last() == here);
            }
        }
        assert forall|k: int| 0 <= k < list.len() implies changes_slot(
            arch,
            data,
            sp,
            stack,
            upto,
            #[trigger] list[k],
        ) by {
            if k < before.len() {
                assert(list[k] == before[k]);
                assert(changes_slot(arch, data, sp, stack, upto - 1, before[k]));
            } else {
                assert(list[k] == here && redirected(arch, data, stack[upto - 1]) is Some);
            }
        }
    }
}

/// As much of a stack is scanned as there are whole slots up to its top, and never more
/// than 512 of them.
pub proof fn lemma_stack_is_scanned_to_its_top(arch: Arch, sp: int, top: int)
    requires
        sp <= top,
    ensures
        ({
            let count = scanned_slots(arch, sp, top);
            &&& 0 <= count <= 512
            &&& sp + count * pointer_len(arch) <= top
            &&& count < 512 ==> sp + (count + 1) * pointer_len(arch) > top
        }),
{
}

/// Whether a thread of the process other than the calling one is in a snapshot.
pub open spec fn is_other(
    entries: Seq<ThreadEntry>,
    process_id: u32,
    calling_thread: u32,
    id: u32,
) -> bool {
    id != calling_thread && exists|i: int|
        0 <= i < entries.len() && (#[trigger] entries[i]).thread_id == id
            && entries[i].owner_process_id == process_id
}

/// The threads that are stopped are those of the process without the calling one: each is
/// listed, and no other is.
pub proof fn lemma_all_other_threads_are_listed(
    entries: Seq<ThreadEntry>,
    process_id: u32,
    calling_thread: u32,
    id: u32,
)
    ensures
        other_threads(entries, process_id, calling_thread, entries.len() as int).contains(id)
            <==> is_other(entries, process_id, calling_thread, id),
    decreases entries.len(),
{
    if entries.len() > 0 {
        let front = entries.drop_last();
        let last = entries.last();
        lemma_all_other_threads_are_listed(front, process_id, calling_thread, id);
        lemma_threads_are_listed_in_order(front, seq![last], process_id, calling_thread);
        assert(front + seq![last] =~= entries);
        let before = other_threads(front, process_id, calling_thread, front.len() as int);
        let here = other_threads(seq![last], process_id, calling_thread, 1);
        let list = other_threads(entries, process_id, calling_thread, entries.len() as int);
        assert(other_threads(seq![last], process_id, calling_thread, 0).len() == 0);
        assert(list == before + here);
        if list.contains(id) {
            let k = choose|k: int| 0 <= k < list.len() && list[k] == id;
            if k < before.len() {
                assert(before.contains(id));
                let i = choose|i: int|
                    0 <= i < front.len() && (#[trigger] front[i]).thread_id == id
                        && front[i].owner_process_id == process_id;
                assert(entries[i] == front[i]);
            } else {
                assert(here[k - before.len()] == id);
                assert(entries[entries.len() - 1] == last);
            }
        }
        if is_other(entries, process_id, calling_thread, id) {
            let i = choose|i: int|
                0 <= i < entries.len() && (#[trigger] entries[i]).thread_id == id
                    && entries[i].owner_process_id == process_id;
            if i < front.len() {
                assert(front[i].thread_id == id);
                let k = choose|k: int| 0 <= k < before.len() && before[k] == id;
                assert(list[k] == id);
            } else {
                assert(here[0] == id);
                assert(list[before.len() as int] == id);
            }
        }
    }
}

/// The threads of two parts of a snapshot are listed one part after the other.
pub proof fn lemma_threads_are_listed_in_order(
    first: Seq<ThreadEntry>,
    second: Seq<ThreadEntry>,
    process_id: u32,
    calling_thread: u32,
)
    ensures
        other_threads(
            first + second,
            process_id,
            calling_thread,
            (first.len() + second.len()) as int,
        ) == other_threads(first, process_id, calling_thread, first.len() as int) + other_threads(
            second,
            process_id,
            calling_thread,
            second.len() as int,
        ),
{
    lemma_listed_first(first, second, process_id, calling_thread, first.len() as int);
    lemma_listed_second(first, second, process_id, calling_thread, second.len() as int);
}

/// What follows a part of a snapshot does not change what is listed of it.
proof fn lemma_listed_first(
    first: Seq<ThreadEntry>,
    second: Seq<ThreadEntry>,
    process_id: u32,
    calling_thread: u32,
    upto: int,
)
    requires
        0 <= upto <= first.len(),
    ensures
        other_threads(first + second, process_id, calling_thread, upto) == other_threads(
            first,
            process_id,
            calling_thread,
            upto,
        ),
    decreases upto,
{
    if upto > 0 {
        lemma_listed_first(first, second, process_id, calling_thread, upto - 1);
    }
}

/// The second part is listed behind the first.
proof fn lemma_listed_second(
    first: Seq<ThreadEntry>,
    second: Seq<ThreadEntry>,
    process_id: u32,
    calling_thread: u32,
    upto: int,
)
    requires
        0 <= upto <= second.len(),
    ensures
        other_threads(first + second, process_id, calling_thread, first.len() + upto)
            == other_threads(first, process_id, calling_thread, first.len() as int)
            + other_threads(second, process_id, calling_thread, upto),
    decreases upto,
{
    let all = first + second;
    let left = other_threads(first, process_id, calling_thread, first.len() as int);
    if upto > 0 {
        lemma_listed_second(first, second, process_id, calling_thread, upto - 1);
        assert(all[first.len() + upto - 1] == second[upto - 1]);
        assert(other_threads(all, process_id, calling_thread, first.len() + upto) =~= left
            + other_threads(second, process_id, calling_thread, upto));
    } else {
        lemma_listed_first(first, second, process_id, calling_thread, first.len() as int);
        assert(left + other_threads(second, process_id, calling_thread, 0) =~= left);
    }
}

/// Every instruction pointer and every scanned stack slot of every thread counts as an
/// address in use.
pub proof fn lemma_every_thread_address_is_in_use(
    threads: Seq<ThreadState>,
    thread: int,
    upto: int,
)
    requires
        0 <= thread < upto <= threads.len(),
    ensures
        referenced(threads, upto).contains(threads[thread].ip),
        forall|i: int|
            0 <= i < threads[thread].stack@.len() ==> referenced(threads, upto).contains(
                #[trigger] threads[thread].stack@[i],
            ),
    decreases upto,
{
    let before = referenced(threads, upto - 1);
    let list = referenced(threads, upto);
    let stack = threads[thread].stack@;
    if thread < upto - 1 {
        lemma_every_thread_address_is_in_use(threads, thread, upto - 1);
        let k = choose|k: int| 0 <= k < before.len() && before[k] == threads[thread].ip;
        assert(list[k] == threads[thread].ip);
        assert forall|i: int| 0 <= i < stack.len() implies list.contains(#[trigger] stack[i]) by {
            assert(before.contains(stack[i]));
            let j = choose|j: int| 0 <= j < before.len() && before[j] == stack[i];
            assert(list[j] == stack[i]);
        }
    } else {
        assert(list[before.len() as int] == threads[thread].ip);
        assert forall|i: int| 0 <= i < stack.len() implies list.contains(#[trigger] stack[i]) by {
            assert(list[before.len() + 1 + i] == stack[i]);
        }
    }
}

/// A stub is freed exactly where no address in use lies in it, and kept otherwise.
pub proof fn lemma_stubs_in_use_are_kept(
    arch: Arch,
    regions: Seq<RetiredRegion>,
    live: Seq<u64>,
    i: int,
)
    requires
        0 <= i < regions.len(),
        regions[i].base + regions[i].size < limit(arch),
    ensures
        ({
            let freed = regions_where(arch, regions, live, false, regions.len() as int);
            let kept = regions_where(arch, regions, live, true, regions.len() as int);
            let used = exists|k: int|
                0 <= k < live.len() && regions[i].base <= #[trigger] live[k] < regions[i].base
                    + regions[i].size;
            &&& used ==> kept.contains(regions[i]) && !freed.contains(regions[i])
            &&& !used ==> freed.contains(regions[i]) && !kept.contains(regions[i])
        }),
{
    let used = exists|k: int|
        0 <= k < live.len() && regions[i].base <= #[trigger] live[k] < regions[i].base
            + regions[i].size;
    assert(busy(arch, regions[i], live) == used) by {
        if used {
            let k = choose|k: int|
                0 <= k < live.len() && regions[i].base <= #[trigger] live[k] < regions[i].base
                    + regions[i].size;
            assert(inside(arch, regions[i], live[k]));
        }
    }
    lemma_parted(arch, regions, live, used, i, regions.len() as int);
    lemma_not_parted(arch, regions, live, !used, regions[i], regions.len() as int);
}

/// A region is listed with its kind.
proof fn lemma_parted(
    arch: Arch,
    regions: Seq<RetiredRegion>,
    live: Seq<u64>,
    in_use: bool,
    i: int,
    upto: int,
)
    requires
        0 <= i < upto <= regions.len(),
        busy(arch, regions[i], live) == in_use,
    ensures
        regions_where(arch, regions, live, in_use, upto).contains(regions[i]),
    decreases upto,
{
    let before = regions_where(arch, regions, live, in_use, upto - 1);
    let list = regions_where(arch, regions, live, in_use, upto);
    if i < upto - 1 {
        lemma_parted(arch, regions, live, in_use, i, upto - 1);
        let k = choose|k: int| 0 <= k < before.len() && before[k] == regions[i];
        assert(list[k] == regions[i]);
    } else {
        assert(list.last() == regions[i]);
    }
}

/// A region is not listed with the other kind.
proof fn lemma_not_parted(
    arch: Arch,
    regions: Seq<RetiredRegion>,
    live: Seq<u64>,
    in_use: bool,
    region: RetiredRegion,
    upto: int,
)
    requires
        0 <= upto <= regions.len(),
        busy(arch, region, live) != in_use,
    ensures
        !regions_where(arch, regions, live, in_use, upto).contains(region),
    decreases upto,
{
    if upto > 0 {
        lemma_not_parted(arch, regions, live, in_use, region, upto - 1);
        let before = regions_where(arch, regions, live, in_use, upto - 1);
        let list = regions_where(arch, regions, live, in_use, upto);
        if list.contains(region) {
            let k = choose|k: int| 0 <= k < list.len() && list[k] == region;
            if k < before.len() {
                assert(before[k] == region);
            }
        }
    }
}

} // verus!
