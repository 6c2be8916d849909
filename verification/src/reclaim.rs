//! Deferred release of executable stubs.
//!
//! A stub must not be freed while a thread may be inside it: with its instruction
//! pointer, or with a return address on its stack. A stub that is not needed any
//! more is retired into a quarantine, and freed when no thread refers to it.
use vstd::prelude::*;

use crate::arch::Arch;
use crate::inline::ThreadState;

verus! {

/// A stub that waits for its release.
#[derive(Clone, Copy, Debug, PartialEq, Eq, Structural)]
pub struct RetiredRegion {
    pub base: u64,
    pub size: u64,
}

/// The stubs that wait for their release.
#[derive(Debug)]
pub struct Quarantine {
    pub regions: Vec<RetiredRegion>,
}

impl Quarantine {
    /// Returns an empty quarantine.
    pub fn new() -> (quarantine: Quarantine)
        ensures
            quarantine.regions@.len() == 0,
    {
        Quarantine { regions: Vec::new() }
    }

    /// Puts regions back that were still in use.
    pub fn keep(&mut self, busy: Vec<RetiredRegion>)
        ensures
            final(self).regions@ == old(self).regions@ + busy@,
    {
        let mut i: usize = 0;
        while i < busy.len()
            invariant
                i <= busy@.len(),
                self.regions@ == old(self).regions@ + busy@.subrange(0, i as int),
            decreases busy@.len() - i,
        {
            self.regions.push(busy[i]);
            i = i + 1;
            assert(busy@.subrange(0, i as int) =~= busy@.subrange(0, i - 1).push(busy@[i - 1]));
        }
        assert(busy@.subrange(0, busy@.len() as int) =~= busy@);
    }
}

/// Retires a stub. A null stub or one without a size is ignored.
pub fn retire(quarantine: &mut Quarantine, address: u64, size: u64)
    ensures
        final(quarantine).regions@ == if address == 0 || size == 0 {
            old(quarantine).regions@
        } else {
            old(quarantine).regions@.push(RetiredRegion { base: address, size })
        },
{
    if address == 0 || size == 0 {
        return;
    }
    quarantine.regions.push(RetiredRegion { base: address, size });
}

/// Begins a pass over the quarantine: takes the retired regions out, to be looked
/// at while the other threads are suspended. `locked` says whether the lock on
/// transactions could be taken; without it nothing is taken out.
pub fn reclaim(quarantine: &mut Quarantine, locked: bool) -> (regions: Vec<RetiredRegion>)
    ensures
        locked ==> regions@ == old(quarantine).regions@ && final(quarantine).regions@.len() == 0,
        !locked ==> regions@.len() == 0 && *final(quarantine) == *old(quarantine),
{
    let mut regions: Vec<RetiredRegion> = Vec::new();
    if !locked {
        return regions;
    }
    let count: usize = quarantine.regions.len();
    let mut i: usize = 0;
    while i < count
        invariant
            i <= count,
            count == quarantine.regions@.len(),
            quarantine.regions@ == old(quarantine).regions@,
            regions@ == old(quarantine).regions@.subrange(0, i as int),
        decreases count - i,
    {
        regions.push(quarantine.regions[i]);
        i = i + 1;
        assert(regions@ =~= old(quarantine).regions@.subrange(0, i as int));
    }
    assert(regions@ =~= old(quarantine).regions@);
    quarantine.regions = Vec::new();
    regions
}

/// The addresses that threads refer to: of each of the first `upto` threads its
/// instruction pointer, and the values of its stack.
pub open spec fn referenced(threads: Seq<ThreadState>, upto: int) -> Seq<u64>
    decreases upto,
{
    if upto <= 0 {
        Seq::empty()
    } else {
        referenced(threads, upto - 1).push(threads[upto - 1].ip) + threads[upto - 1].stack@
    }
}

/// Appends the addresses that a suspended thread refers to.
pub fn collect_thread_addresses(thread: &ThreadState, live: &mut Vec<u64>)
    ensures
        final(live)@ == old(live)@.push(thread.ip) + thread.stack@,
{
    live.push(thread.ip);
    let mut i: usize = 0;
    while i < thread.stack.len()
        invariant
            i <= thread.stack@.len(),
            live@ == old(live)@.push(thread.ip) + thread.stack@.subrange(0, i as int),
        decreases thread.stack@.len() - i,
    {
        live.push(thread.stack[i]);
        i = i + 1;
        assert(thread.stack@.subrange(0, i as int) =~= thread.stack@.subrange(0, i - 1).push(
            thread.stack@[i - 1],
        ));
    }
    assert(thread.stack@.subrange(0, thread.stack@.len() as int) =~= thread.stack@);
}

/// Returns the addresses that the suspended threads refer to.
pub fn live_addresses(threads: &[ThreadState]) -> (live: Vec<u64>)
    ensures
        live@ == referenced(threads@, threads@.len() as int),
{
    let mut live: Vec<u64> = Vec::new();
    let mut i: usize = 0;
    while i < threads.len()
        invariant
            i <= threads@.len(),
            live@ == referenced(threads@, i as int),
        decreases threads@.len() - i,
    {
        collect_thread_addresses(&threads[i], &mut live);
        i = i + 1;
    }
    live
}

/// Whether a region holds the address. A region that runs over the end of the
/// address space ends with its last address but one.
pub open spec fn inside(arch: Arch, region: RetiredRegion, address: u64) -> bool {
    let end = if region.base + region.size < arch.address_limit() {
        region.base + region.size
    } else {
        arch.address_limit() - 1
    };
    region.base <= address < end
}

/// Whether one of the addresses lies in the region.
pub open spec fn busy(arch: Arch, region: RetiredRegion, live: Seq<u64>) -> bool {
    exists|i: int| 0 <= i < live.len() && inside(arch, region, #[trigger] live[i])
}

/// The regions among the first `upto` that are in use, or those that are not.
pub open spec fn regions_where(
    arch: Arch,
    regions: Seq<RetiredRegion>,
    live: Seq<u64>,
    in_use: bool,
    upto: int,
) -> Seq<RetiredRegion>
    decreases upto,
{
    if upto <= 0 {
        Seq::empty()
    } else {
        let before = regions_where(arch, regions, live, in_use, upto - 1);
        if busy(arch, regions[upto - 1], live) == in_use {
            before.push(regions[upto - 1])
        } else {
            before
        }
    }
}

/// What a pass over retired regions came to.
#[derive(Debug)]
pub struct Quiescent {
    /// The regions that are to be freed.
    pub freed: Vec<RetiredRegion>,
    /// The regions that are still in use.
    pub busy: Vec<RetiredRegion>,
}

/// Returns whether one of the addresses lies in the region.
fn is_busy(arch: Arch, region: &RetiredRegion, live: &[u64]) -> (found: bool)
    ensures
        found == busy(arch, *region, live@),
{
    let end: u64 = match arch.checked_offset(region.base, region.size) {
        Some(end) => end,
        None => arch.max_address(),
    };
    let mut i: usize = 0;
    while i < live.len()
        invariant
            i <= live@.len(),
            end == if region.base + region.size < arch.address_limit() {
                region.base + region.size
            } else {
                arch.address_limit() - 1
            },
            forall|j: int| 0 <= j < i ==> !inside(arch, *region, #[trigger] live@[j]),
        decreases live@.len() - i,
    {
        if region.base <= live[i] && live[i] < end {
            assert(inside(arch, *region, live@[i as int]));
            return true;
        }
        i = i + 1;
    }
    false
}

impl Quiescent {
    /// Returns an empty result with memory for `count` regions on either side. While
    /// threads are suspended, one of them may hold the lock of the heap: what is put
    /// into the result then should find its memory allocated.
    pub fn with_room(count: usize) -> (parted: Quiescent)
        ensures
            parted.freed@.len() == 0,
            parted.busy@.len() == 0,
    {
        Quiescent { freed: Vec::with_capacity(count), busy: Vec::with_capacity(count) }
    }

    /// Puts a retired region to those that are to be freed, or to those that are
    /// still in use, and returns whether it is to be freed.
    pub fn place(&mut self, arch: Arch, region: RetiredRegion, live: &[u64]) -> (idle: bool)
        ensures
            idle == !busy(arch, region, live@),
            final(self).freed@ == if idle {
                old(self).freed@.push(region)
            } else {
                old(self).freed@
            },
            final(self).busy@ == if idle {
                old(self).busy@
            } else {
                old(self).busy@.push(region)
            },
    {
        if is_busy(arch, &region, live) {
            self.busy.push(region);
            false
        } else {
            self.freed.push(region);
            true
        }
    }
}

/// Parts the retired regions into those that no thread refers to, which are to be
/// freed while the threads are still suspended, and those that are still in use.
pub fn free_quiescent_regions(arch: Arch, regions: &[RetiredRegion], live: &[u64]) -> (parted:
    Quiescent)
    ensures
        parted.freed@ == regions_where(arch, regions@, live@, false, regions@.len() as int),
        parted.busy@ == regions_where(arch, regions@, live@, true, regions@.len() as int),
{
    let mut parted = Quiescent::with_room(regions.len());
    part_regions(arch, regions, live, &mut parted);
    assert(parted.freed@ =~= regions_where(arch, regions@, live@, false, regions@.len() as int));
    assert(parted.busy@ =~= regions_where(arch, regions@, live@, true, regions@.len() as int));
    parted
}

/// Parts the retired regions as [`free_quiescent_regions`] does, into a result that
/// was made before the threads were suspended.
pub fn part_regions(arch: Arch, regions: &[RetiredRegion], live: &[u64], parted: &mut Quiescent)
    ensures
        final(parted).freed@ == old(parted).freed@ + regions_where(
            arch,
            regions@,
            live@,
            false,
            regions@.len() as int,
        ),
        final(parted).busy@ == old(parted).busy@ + regions_where(
            arch,
            regions@,
            live@,
            true,
            regions@.len() as int,
        ),
{
    let mut i: usize = 0;
    assert(parted.freed@ =~= parted.freed@ + regions_where(arch, regions@, live@, false, 0));
    assert(parted.busy@ =~= parted.busy@ + regions_where(arch, regions@, live@, true, 0));
    while i < regions.len()
        invariant
            i <= regions@.len(),
            parted.freed@ == old(parted).freed@ + regions_where(
                arch,
                regions@,
                live@,
                false,
                i as int,
            ),
            parted.busy@ == old(parted).busy@ + regions_where(
                arch,
                regions@,
                live@,
                true,
                i as int,
            ),
        decreases regions@.len() - i,
    {
        parted.place(arch, regions[i], live);
        i = i + 1;
        assert(parted.freed@ =~= old(parted).freed@ + regions_where(
            arch,
            regions@,
            live@,
            false,
            i as int,
        ));
        assert(parted.busy@ =~= old(parted).busy@ + regions_where(
            arch,
            regions@,
            live@,
            true,
            i as int,
        ));
    }
}

/// A region is freed only where no thread is inside it: none of the addresses that
/// the threads refer to lies in a region that is freed, and one of them lies in
/// every region that is kept.
pub proof fn lemma_only_idle_regions_are_freed(
    arch: Arch,
    regions: Seq<RetiredRegion>,
    live: Seq<u64>,
    upto: int,
)
    requires
        0 <= upto <= regions.len(),
    ensures
        forall|k: int, i: int|
            0 <= k < regions_where(arch, regions, live, false, upto).len() && 0 <= i < live.len()
                ==> !inside(
                arch,
                #[trigger] regions_where(arch, regions, live, false, upto)[k],
                #[trigger] live[i],
            ),
        forall|k: int|
            0 <= k < regions_where(arch, regions, live, true, upto).len() ==> busy(
                arch,
                #[trigger] regions_where(arch, regions, live, true, upto)[k],
                live,
            ),
{
    let freed = regions_where(arch, regions, live, false, upto);
    let kept = regions_where(arch, regions, live, true, upto);
    assert forall|k: int, i: int|
        0 <= k < freed.len() && 0 <= i < live.len() implies !inside(
        arch,
        #[trigger] freed[k],
        #[trigger] live[i],
    ) by {
        lemma_regions_where(arch, regions, live, false, upto, k);
    }
    assert forall|k: int| 0 <= k < kept.len() implies busy(arch, #[trigger] kept[k], live) by {
        lemma_regions_where(arch, regions, live, true, upto, k);
    }
}

/// Regions that were picked are in use, or not, as they were picked.
proof fn lemma_regions_where(
    arch: Arch,
    regions: Seq<RetiredRegion>,
    live: Seq<u64>,
    in_use: bool,
    upto: int,
    k: int,
)
    requires
        0 <= upto <= regions.len(),
        0 <= k < regions_where(arch, regions, live, in_use, upto).len(),
    ensures
        busy(arch, regions_where(arch, regions, live, in_use, upto)[k], live) == in_use,
    decreases upto,
{
    if k < regions_where(arch, regions, live, in_use, upto - 1).len() {
        lemma_regions_where(arch, regions, live, in_use, upto - 1, k);
    }
}

/// No retired region is lost: each is freed or kept.
pub proof fn lemma_no_region_is_lost(
    arch: Arch,
    regions: Seq<RetiredRegion>,
    live: Seq<u64>,
    upto: int,
)
    requires
        0 <= upto <= regions.len(),
    ensures
        regions_where(arch, regions, live, false, upto).len() + regions_where(
            arch,
            regions,
            live,
            true,
            upto,
        ).len() == upto,
        forall|i: int|
            0 <= i < upto ==> regions_where(arch, regions, live, false, upto).contains(
                #[trigger] regions[i],
            ) || regions_where(arch, regions, live, true, upto).contains(regions[i]),
    decreases upto,
{
    if upto > 0 {
        lemma_no_region_is_lost(arch, regions, live, upto - 1);
        let freed = regions_where(arch, regions, live, false, upto - 1);
        let kept = regions_where(arch, regions, live, true, upto - 1);
        let last = regions[upto - 1];
        assert forall|i: int| 0 <= i < upto implies regions_where(
            arch,
            regions,
            live,
            false,
            upto,
        ).contains(#[trigger] regions[i]) || regions_where(
            arch,
            regions,
            live,
            true,
            upto,
        ).contains(regions[i]) by {
            if i < upto - 1 {
                if freed.contains(regions[i]) {
                    let k = choose|k: int| 0 <= k < freed.len() && freed[k] == regions[i];
                    assert(regions_where(arch, regions, live, false, upto)[k] == regions[i]);
                } else {
                    let k = choose|k: int| 0 <= k < kept.len() && kept[k] == regions[i];
                    assert(regions_where(arch, regions, live, true, upto)[k] == regions[i]);
                }
            } else if busy(arch, last, live) {
                assert(regions_where(arch, regions, live, true, upto)[kept.len() as int] == last);
            } else {
                assert(regions_where(arch, regions, live, false, upto)[freed.len() as int] == last);
            }
        }
    }
}

} // verus!
