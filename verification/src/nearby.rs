//! Finding memory for trampolines close to the code that jumps there.
use vstd::prelude::*;

use crate::arch::Arch;
use crate::memory::MEM_FREE;

verus! {

/// Executable memory that holds a trampoline.
#[derive(Debug)]
pub struct Trampoline {
    pub ptr: u64,
    pub size: u64,
}

impl Trampoline {
    /// Returns the address of the trampoline.
    pub fn as_ptr(&self) -> (ptr: u64)
        ensures
            ptr == self.ptr,
    {
        self.ptr
    }
}

/// What a memory query reports of the region of an address.
#[derive(Clone, Copy, Debug, PartialEq, Eq, Structural)]
pub struct QueriedRegion {
    pub base: u64,
    pub size: u64,
    pub state: u32,
}

/// The least multiple of `align` that is not below `address`.
pub open spec fn aligned(address: int, align: int) -> int {
    if address % align == 0 {
        address
    } else {
        address - address % align + align
    }
}

/// Returns the least multiple of `align` that is not below `address`.
pub fn align_up(address: u64, align: u64) -> (up: u64)
    requires
        align > 0,
        aligned(address as int, align as int) <= u64::MAX,
    ensures
        up == aligned(address as int, align as int),
{
    let rest: u64 = address % align;
    if rest == 0 {
        address
    } else {
        assert(rest <= address) by (nonlinear_arith)
            requires
                rest == address % align,
                align > 0,
        ;
        address - rest + align
    }
}

/// An aligned address is a multiple of the alignment, not below the address, and
/// less than the alignment above it.
pub proof fn lemma_aligned(address: int, align: int)
    requires
        align > 0,
    ensures
        aligned(address, align) % align == 0,
        address <= aligned(address, align) < address + align,
{
    vstd::arithmetic::div_mod::lemma_fundamental_div_mod(address, align);
    assert(0 <= address % align < align) by (nonlinear_arith)
        requires
            align > 0,
    ;
    let quotient = address / align;
    if address % align == 0 {
    } else {
        assert(aligned(address, align) == align * quotient + align);
        assert(align * quotient + align == align * (quotient + 1)) by (nonlinear_arith);
        vstd::arithmetic::div_mod::lemma_mod_multiples_basic(quotient + 1, align);
        assert(align * (quotient + 1) == (quotient + 1) * align) by (nonlinear_arith);
    }
}

/// How far from the target a trampoline of `size` bytes is looked for: a little
/// less than the reach of a 32-bit displacement.
pub open spec fn search_reach(size: int) -> int {
    if size + 0x10_0000 >= 0x7fff_ffff {
        0
    } else {
        0x7fff_ffff - 0x10_0000 - size
    }
}

/// Where a search stands.
#[derive(Clone, Copy, Debug, PartialEq, Eq, Structural)]
pub enum SearchStage {
    /// The region of the current address is asked for.
    Querying,
    /// An allocation at the candidate is tried.
    Allocating { candidate: u64 },
    /// There is no memory within reach.
    Exhausted,
}

/// What is to be done next in a search.
#[derive(Clone, Copy, Debug, PartialEq, Eq, Structural)]
pub enum SearchStep {
    Query { address: u64 },
    Allocate { address: u64, size: u64 },
    Exhausted,
}

/// The search for free memory within reach of a target, region by region in
/// ascending order.
#[derive(Clone, Copy, Debug, PartialEq, Eq, Structural)]
pub struct NearbySearch {
    pub size: u64,
    pub granularity: u64,
    pub min: u64,
    pub max: u64,
    /// The address from which the search goes on.
    pub current: u64,
    pub stage: SearchStage,
}

/// The lowest address of `region` at which memory is looked for: not below the
/// current address, and never 0, which would ask for memory anywhere.
pub open spec fn first_address(search: NearbySearch, region: QueriedRegion) -> u64 {
    let start = if region.base > search.current {
        region.base
    } else {
        search.current
    };
    if start == 0 {
        1
    } else {
        start
    }
}

/// Where memory of `size` bytes can be allocated in `region`, not below
/// `current`, not at 0, and between `min` and `max`.
pub open spec fn candidate_in(search: NearbySearch, region: QueriedRegion) -> Option<u64> {
    let candidate = aligned(
        first_address(search, region) as int,
        search.granularity as int,
    );
    if region.state == MEM_FREE && region.size >= search.size && candidate + search.size
        <= region.base + region.size && candidate >= search.min && candidate + search.size
        <= search.max {
        Some(candidate as u64)
    } else {
        None
    }
}

impl NearbySearch {
    /// Whether a candidate is an address within reach and is aligned.
    pub open spec fn wf(self) -> bool {
        &&& self.granularity > 0
        &&& self.size > 0
        &&& self.stage matches SearchStage::Allocating { candidate } ==> {
            &&& candidate > 0
            &&& self.holds(candidate)
            &&& candidate % self.granularity == 0
        }
    }

    /// Whether memory at `address` lies between the limits of the search.
    pub open spec fn holds(self, address: u64) -> bool {
        self.min <= address && address + self.size <= self.max
    }

    /// Whether this is the search for `size` bytes around `target` at its start.
    pub open spec fn around(self, target: u64, size: u64, granularity: u64) -> bool {
        &&& self.wf()
        &&& self.limited_by(target, size)
        &&& self.granularity == granularity
        &&& self.current == self.min
        &&& self.stage == SearchStage::Querying
    }

    /// Whether the limits of the search are those for `size` bytes around `target`.
    pub open spec fn limited_by(self, target: u64, size: u64) -> bool {
        let reach = search_reach(size as int);
        &&& self.size == size
        &&& self.min == if target >= reach {
            target - reach
        } else {
            0
        }
        &&& self.max == if target + reach <= u64::MAX {
            target + reach
        } else {
            u64::MAX as int
        }
    }

    /// The step that the search waits for.
    pub open spec fn pending_step(self) -> SearchStep {
        match self.stage {
            SearchStage::Querying => if self.current < self.max {
                SearchStep::Query { address: self.current }
            } else {
                SearchStep::Exhausted
            },
            SearchStage::Allocating { candidate } => SearchStep::Allocate {
                address: candidate,
                size: self.size,
            },
            SearchStage::Exhausted => SearchStep::Exhausted,
        }
    }

    /// Returns the step that the search waits for.
    pub fn step(&self) -> (step: SearchStep)
        ensures
            step == self.pending_step(),
    {
        match self.stage {
            SearchStage::Querying => if self.current < self.max {
                SearchStep::Query { address: self.current }
            } else {
                SearchStep::Exhausted
            },
            SearchStage::Allocating { candidate } => SearchStep::Allocate {
                address: candidate,
                size: self.size,
            },
            SearchStage::Exhausted => SearchStep::Exhausted,
        }
    }

    /// Returns where the memory can be allocated in `region`.
    fn candidate(&self, region: QueriedRegion) -> (candidate: Option<u64>)
        requires
            self.wf(),
        ensures
            candidate == candidate_in(*self, region),
    {
        if region.state != MEM_FREE || region.size < self.size {
            return None;
        }
        let lowest: u64 = if region.base > self.current {
            region.base
        } else {
            self.current
        };
        let start: u64 = if lowest == 0 {
            1
        } else {
            lowest
        };
        proof {
            lemma_aligned(start as int, self.granularity as int);
        }
        let rest: u64 = start % self.granularity;
        let missing: u64 = if rest == 0 {
            0
        } else {
            self.granularity - rest
        };
        if missing > u64::MAX - start {
            return None;
        }
        let candidate: u64 = align_up(start, self.granularity);
        let end: u128 = candidate as u128 + self.size as u128;
        if end <= region.base as u128 + region.size as u128 && candidate >= self.min && end
            <= self.max as u128 {
            Some(candidate)
        } else {
            None
        }
    }

    /// Takes what a query of the current address reported.
    pub fn region_found(&mut self, region: Option<QueriedRegion>)
        requires
            old(self).wf(),
            old(self).stage == SearchStage::Querying,
        ensures
            final(self).wf(),
            final(self).size == old(self).size,
            final(self).granularity == old(self).granularity,
            final(self).min == old(self).min,
            final(self).max == old(self).max,
            match region {
                None => *final(self) == (NearbySearch {
                    stage: SearchStage::Exhausted,
                    ..*old(self)
                }),
                Some(found) => {
                    let end = found.base + found.size;
                    let goes_on = found.base < end <= u64::MAX;
                    &&& goes_on ==> final(self).current == end
                    &&& !goes_on ==> final(self).current == final(self).max
                    &&& match candidate_in(*old(self), found) {
                        Some(candidate) => final(self).stage == SearchStage::Allocating {
                            candidate,
                        },
                        None => final(self).stage == if goes_on {
                            SearchStage::Querying
                        } else {
                            SearchStage::Exhausted
                        },
                    }
                },
            },
    {
        let found = match region {
            Some(found) => found,
            None => {
                self.stage = SearchStage::Exhausted;
                return;
            },
        };
        let candidate = self.candidate(found);
        proof {
            lemma_aligned(first_address(*self, found) as int, self.granularity as int);
        }
        let mut goes_on: bool = false;
        match found.base.checked_add(found.size) {
            Some(end) => {
                if end > found.base {
                    goes_on = true;
                    self.current = end;
                } else {
                    self.current = self.max;
                }
            },
            None => {
                self.current = self.max;
            },
        }
        self.stage = match candidate {
            Some(candidate) => SearchStage::Allocating { candidate },
            None => if goes_on {
                SearchStage::Querying
            } else {
                SearchStage::Exhausted
            },
        };
    }

    /// Takes that the allocation at the candidate failed: the search goes on with
    /// the next region.
    pub fn allocation_failed(&mut self)
        requires
            old(self).wf(),
            old(self).stage is Allocating,
        ensures
            *final(self) == (NearbySearch { stage: SearchStage::Querying, ..*old(self) }),
            final(self).wf(),
    {
        self.stage = SearchStage::Querying;
    }

    /// Takes the address of the memory that the system gave, and returns the
    /// trampoline there. `None` where the memory is not within reach: it is then to
    /// be released, and the search goes on as after an allocation that failed.
    pub fn allocated(&self, address: u64) -> (trampoline: Option<Trampoline>)
        ensures
            match trampoline {
                Some(found) => address != 0 && self.holds(address) && found.ptr == address
                    && found.size == self.size,
                None => address == 0 || !self.holds(address),
            },
    {
        if address != 0 && self.min <= address && address as u128 + self.size as u128
            <= self.max as u128 {
            Some(Trampoline { ptr: address, size: self.size })
        } else {
            None
        }
    }
}

/// A search goes forward: where the region that a query reported holds the current
/// address, the search goes on above it or, at the end of the address space, is
/// over. Hence it ends after finitely many queries.
pub proof fn lemma_search_goes_forward(
    search: NearbySearch,
    found: QueriedRegion,
    next: NearbySearch,
)
    requires
        search.stage == SearchStage::Querying,
        search.current < search.max,
        found.base <= search.current < found.base + found.size,
        next.max == search.max,
        ({
            let end = found.base + found.size;
            &&& found.base < end <= u64::MAX ==> next.current == end
            &&& !(found.base < end <= u64::MAX) ==> next.current == next.max
        }),
    ensures
        next.current > search.current,
{
}

/// Every byte of memory between the limits of a search, and the first byte behind
/// it, is within the reach of a 32-bit displacement from the target, in both
/// directions. This holds of the memory that a search asks for, and of the memory
/// that it accepts as a trampoline.
pub proof fn lemma_trampoline_within_reach(
    target: u64,
    size: u64,
    search: NearbySearch,
    address: u64,
    byte: int,
)
    requires
        size > 0,
        search.limited_by(target, size),
        search.holds(address),
        address <= byte <= address + size,
    ensures
        -0x7fff_ffff <= byte - target <= 0x7fff_ffff,
        -0x8000_0000 <= byte - (target + 5) <= 0x7fff_ffff,
        -0x8000_0000 <= target - (byte + 5) <= 0x7fff_ffff,
{
}

/// Namespace of the trampoline allocation.
pub struct TrampolineAlloc;

impl TrampolineAlloc {
    /// Begins the search for `size` bytes near `target`, `None` for no bytes. On x86
    /// every address is within reach, and no search is needed: see
    /// [`TrampolineAlloc::anywhere`].
    pub fn alloc_nearby(target: u64, size: u64, granularity: u64) -> (search: Option<NearbySearch>)
        requires
            granularity > 0,
        ensures
            match search {
                Some(begun) => size > 0 && begun.around(target, size, granularity),
                None => size == 0,
            },
    {
        if size == 0 {
            return None;
        }
        let buffer: u64 = size.saturating_add(0x10_0000);
        let limit: u64 = 0x7fff_ffff;
        let reach: u64 = limit.saturating_sub(buffer);
        let min: u64 = target.saturating_sub(reach);
        let max: u64 = target.saturating_add(reach);
        Some(
            NearbySearch {
                size,
                granularity,
                min,
                max,
                current: min,
                stage: SearchStage::Querying,
            },
        )
    }

    /// Begins the allocation of a trampoline of `size` bytes near `target`,
    /// `None` for a null target or no bytes.
    pub fn alloc_nearby_trampoline(target: u64, size: u64, granularity: u64) -> (search: Option<
        NearbySearch,
    >)
        requires
            granularity > 0,
        ensures
            match search {
                Some(begun) => target != 0 && size > 0 && begun.around(target, size, granularity),
                None => target == 0 || size == 0,
            },
    {
        if target == 0 {
            return None;
        }
        TrampolineAlloc::alloc_nearby(target, size, granularity)
    }

    /// Returns whether a trampoline can be anywhere in the address space.
    pub fn anywhere(arch: Arch) -> (anywhere: bool)
        ensures
            anywhere == (arch == Arch::X86),
    {
        match arch {
            Arch::X86 => true,
            Arch::X64 => false,
        }
    }
}

} // verus!
