//! Laws of scanning: every place at which a signature stands is found, and nothing else
//! is.
use vstd::prelude::*;

use crate::api::resolved_pattern;
use crate::arch::Arch;
use crate::laws::inline::limit;
use crate::laws::memory::{lemma_query_reports, reports};
use crate::memory::{region_at, MemoryRegion};
use crate::scan::{
    committed_matches, lemma_occurrences_exact, matches_between, module_match, occurrences, occurs,
    region_window, scanned, FoundModule, Pattern, PatternError,
};
use crate::DetourError;

verus! {

/// Whether the signature stands at `address` in a region: the region is committed,
/// neither guarded nor inaccessible, executable where that is asked for, all bytes of
/// the place lie in it and were captured, and every byte that the signature fixes is the
/// byte there.
pub open spec fn stands_at(
    region: MemoryRegion,
    address: int,
    pattern: Pattern,
    executable_only: bool,
) -> bool {
    &&& region.state == 0x1000
    &&& region.protect & 0x101 == 0
    &&& executable_only ==> region.protect & 0xf0 != 0
    &&& region.base <= address
    &&& address + pattern.bytes@.len() <= region.base + region.size
    &&& address + pattern.bytes@.len() <= region.base + region.bytes@.len()
    &&& forall|k: int|
        0 <= k < pattern.bytes@.len() && pattern.mask@[k] ==> region.bytes@[address + k
            - region.base] == #[trigger] pattern.bytes@[k]
}

/// Whether queries answer for every address from `start` up to `end`, with regions that
/// do not overlap and that end within the address space.
pub open spec fn seamless(arch: Arch, regions: Seq<MemoryRegion>, start: int, end: int) -> bool {
    &&& forall|x: int| start <= x < end ==> #[trigger] region_at(regions, x) is Some
    &&& forall|i: int|
        0 <= i < regions.len() ==> (#[trigger] regions[i]).base + regions[i].size < limit(arch)
    &&& forall|i: int, j: int|
        0 <= i < j < regions.len() ==> (#[trigger] regions[i]).base + regions[i].size
            <= (#[trigger] regions[j]).base || regions[j].base + regions[j].size <= regions[i].base
}

/// In the captured bytes of a region, the signature is found exactly where it stands.
proof fn lemma_window_matches(
    region: MemoryRegion,
    from: int,
    to: int,
    address: int,
    pattern: Pattern,
    executable_only: bool,
)
    requires
        pattern.wf(),
        region.base <= from <= to <= region.base + region.size,
        pattern.bytes@.len() > 0,
        scanned(region, executable_only),
    ensures
        occurs(region_window(region, from, to), pattern, address - from) <==> from <= address
            && address + pattern.bytes@.len() <= to && stands_at(
            region,
            address,
            pattern,
            executable_only,
        ),
{
    let window = region_window(region, from, to);
    let offset = address - from;
    if occurs(window, pattern, offset) {
        assert forall|k: int| 0 <= k < pattern.bytes@.len() && pattern.mask@[k] implies
            region.bytes@[address + k - region.base] == #[trigger] pattern.bytes@[k] by {
            assert(window[offset + k] == region.bytes@[address + k - region.base]);
        }
    }
    if from <= address && address + pattern.bytes@.len() <= to && stands_at(
        region,
        address,
        pattern,
        executable_only,
    ) {
        assert forall|k: int| 0 <= k < pattern.spec_len() && pattern.mask@[k] implies window[offset
            + k] == #[trigger] pattern.bytes@[k] by {
            assert(window[offset + k] == region.bytes@[address + k - region.base]);
        }
    }
}

/// Nothing that stands in a later region is missed by a walk.
proof fn lemma_walk_finds(
    arch: Arch,
    regions: Seq<MemoryRegion>,
    cursor: int,
    end: int,
    pattern: Pattern,
    executable_only: bool,
    index: int,
    address: int,
)
    requires
        pattern.wf(),
        pattern.bytes@.len() > 0,
        seamless(arch, regions, cursor, end),
        0 <= index < regions.len(),
        stands_at(regions[index], address, pattern, executable_only),
        cursor <= address,
        address + pattern.bytes@.len() <= end,
    ensures
        matches_between(arch, regions, cursor, end, pattern, executable_only).contains(address),
    decreases end - cursor,
{
    assert(region_at(regions, cursor) is Some);
    lemma_query_reports(regions, cursor);
    let at = choose|at: int| #[trigger]
        reports(regions, at, cursor) && regions[at] == region_at(regions, cursor)->0;
    let region = regions[at];
    let region_end = region.base + region.size;
    let stop = if region_end < end {
        region_end
    } else {
        end
    };
    let here = if scanned(region, executable_only) {
        occurrences(region_window(region, cursor, stop), pattern).map_values(
            |offset: int| cursor + offset,
        )
    } else {
        Seq::empty()
    };
    let rest = matches_between(arch, regions, region_end, end, pattern, executable_only);
    let all = matches_between(arch, regions, cursor, end, pattern, executable_only);
    assert(all =~= here + rest);
    if at == index {
        assert(scanned(region, executable_only));
        let window = region_window(region, cursor, stop);
        lemma_window_matches(region, cursor, stop, address, pattern, executable_only);
        lemma_occurrences_exact(window, pattern, window.len() as int);
        let offsets = occurrences(window, pattern);
        assert(offsets.contains(address - cursor));
        let k = choose|k: int| 0 <= k < offsets.len() && offsets[k] == address - cursor;
        assert(here[k] == address);
        assert(all[k] == address);
    } else {
        assert(region_end <= address);
        assert(seamless(arch, regions, region_end, end));
        lemma_walk_finds(
            arch,
            regions,
            region_end,
            end,
            pattern,
            executable_only,
            index,
            address,
        );
        let k = choose|k: int| 0 <= k < rest.len() && rest[k] == address;
        assert(all[here.len() + k] == address);
    }
}

/// Everything that a walk finds stands in a region within its bounds, and is found in
/// ascending order.
proof fn lemma_walk_finds_only(
    arch: Arch,
    regions: Seq<MemoryRegion>,
    cursor: int,
    end: int,
    pattern: Pattern,
    executable_only: bool,
)
    requires
        pattern.wf(),
        pattern.bytes@.len() > 0,
    ensures
        ({
            let all = matches_between(arch, regions, cursor, end, pattern, executable_only);
            &&& forall|i: int|
                0 <= i < all.len() ==> cursor <= (#[trigger] all[i]) && all[i]
                    + pattern.bytes@.len() <= end && exists|index: int|
                    0 <= index < regions.len() && stands_at(
                        #[trigger] regions[index],
                        all[i],
                        pattern,
                        executable_only,
                    )
            &&& forall|i: int, j: int| 0 <= i < j < all.len() ==> all[i] < all[j]
        }),
    decreases
            if cursor < end {
                end - cursor
            } else {
                0
            },
{
    let all = matches_between(arch, regions, cursor, end, pattern, executable_only);
    lemma_query_reports(regions, cursor);
    if cursor < end && region_at(regions, cursor) is Some {
        let at = choose|at: int| #[trigger]
            reports(regions, at, cursor) && regions[at] == region_at(regions, cursor)->0;
        let region = regions[at];
        let region_end = region.base + region.size;
        if region_end < arch.address_limit() && region_end > cursor {
            let stop = if region_end < end {
                region_end
            } else {
                end
            };
            let window = region_window(region, cursor, stop);
            let offsets = occurrences(window, pattern);
            let here = if scanned(region, executable_only) {
                offsets.map_values(|offset: int| cursor + offset)
            } else {
                Seq::empty()
            };
            let rest = matches_between(arch, regions, region_end, end, pattern, executable_only);
            lemma_walk_finds_only(arch, regions, region_end, end, pattern, executable_only);
            lemma_occurrences_exact(window, pattern, window.len() as int);
            assert(all =~= here + rest);
            assert forall|i: int| 0 <= i < here.len() implies cursor <= (#[trigger] here[i])
                && here[i] + pattern.bytes@.len() <= stop && stands_at(
                region,
                here[i],
                pattern,
                executable_only,
            ) by {
                assert(occurs(window, pattern, offsets[i]));
                lemma_window_matches(region, cursor, stop, here[i], pattern, executable_only);
            }
            assert forall|i: int| 0 <= i < all.len() implies cursor <= (#[trigger] all[i]) && all[i]
                + pattern.bytes@.len() <= end && exists|index: int|
                0 <= index < regions.len() && stands_at(
                    #[trigger] regions[index],
                    all[i],
                    pattern,
                    executable_only,
                ) by {
                if i < here.len() {
                    assert(all[i] == here[i]);
                    assert(stands_at(regions[at], all[i], pattern, executable_only));
                } else {
                    assert(all[i] == rest[i - here.len()]);
                }
            }
            assert forall|i: int, j: int| 0 <= i < j < all.len() implies all[i] < all[j] by {
                if j < here.len() {
                    assert(all[i] == here[i] && all[j] == here[j]);
                    assert(offsets[i] < offsets[j]);
                } else if i < here.len() {
                    assert(all[i] == here[i] && all[j] == rest[j - here.len()]);
                } else {
                    assert(all[i] == rest[i - here.len()] && all[j] == rest[j - here.len()]);
                }
            }
        }
    }
}

/// A scan misses nothing: wherever the signature stands in the scanned range, in memory
/// that is described without gaps, the address is among those found.
pub proof fn lemma_scan_misses_nothing(
    arch: Arch,
    regions: Seq<MemoryRegion>,
    start: int,
    len: int,
    pattern: Pattern,
    executable_only: bool,
    index: int,
    address: int,
)
    requires
        pattern.wf(),
        pattern.bytes@.len() > 0,
        start + len < limit(arch),
        seamless(arch, regions, start, start + len),
        0 <= index < regions.len(),
        stands_at(regions[index], address, pattern, executable_only),
        start <= address,
        address + pattern.bytes@.len() <= start + len,
    ensures
        committed_matches(arch, regions, start, len, pattern, executable_only).contains(address),
{
    lemma_walk_finds(
        arch,
        regions,
        start,
        start + len,
        pattern,
        executable_only,
        index,
        address,
    );
}

/// A scan finds nothing else: at every address found the signature stands in one region,
/// within the scanned range; and the addresses ascend, so that the first one is the
/// lowest.
pub proof fn lemma_scan_finds_nothing_else(
    arch: Arch,
    regions: Seq<MemoryRegion>,
    start: int,
    len: int,
    pattern: Pattern,
    executable_only: bool,
)
    requires
        pattern.wf(),
    ensures
        ({
            let all = committed_matches(arch, regions, start, len, pattern, executable_only);
            &&& forall|i: int|
                0 <= i < all.len() ==> start <= (#[trigger] all[i]) && all[i]
                    + pattern.bytes@.len() <= start + len && exists|index: int|
                    0 <= index < regions.len() && stands_at(
                        #[trigger] regions[index],
                        all[i],
                        pattern,
                        executable_only,
                    )
            &&& forall|i: int, j: int| 0 <= i < j < all.len() ==> all[i] < all[j]
            &&& pattern.bytes@.len() == 0 ==> all.len() == 0
        }),
{
    if pattern.bytes@.len() > 0 {
        lemma_walk_finds_only(arch, regions, start, start + len, pattern, executable_only);
    }
}

/// The match of a signature in a module is the lowest address in the executable memory
/// of its image at which the signature stands, and there is none exactly where it stands
/// nowhere there.
pub proof fn lemma_module_match_is_the_lowest(
    arch: Arch,
    regions: Seq<MemoryRegion>,
    mapped: Seq<u8>,
    base: u64,
    image: crate::pe::ModuleImage,
    pattern: Pattern,
    index: int,
    address: int,
)
    requires
        pattern.wf(),
        pattern.bytes@.len() > 0,
        crate::pe::parsed(arch, mapped, base) == Ok::<
            crate::pe::ModuleImage,
            crate::pe::PeError,
        >(image),
        base + image.size < limit(arch),
        seamless(arch, regions, base as int, base + image.size),
    ensures
        0 <= index < regions.len() && stands_at(regions[index], address, pattern, true) && base
            <= address && address + pattern.bytes@.len() <= base + image.size ==> (module_match(
            arch,
            regions,
            mapped,
            base,
            pattern,
        ) matches Some(found) && found <= address),
        module_match(arch, regions, mapped, base, pattern) matches Some(found) ==> base <= found
            && found + pattern.bytes@.len() <= base + image.size && exists|i: int|
            0 <= i < regions.len() && stands_at(#[trigger] regions[i], found as int, pattern, true),
{
    let all = committed_matches(arch, regions, base as int, image.size as int, pattern, true);
    lemma_scan_finds_nothing_else(
        arch,
        regions,
        base as int,
        image.size as int,
        pattern,
        true,
    );
    if 0 <= index < regions.len() && stands_at(regions[index], address, pattern, true) && base
        <= address && address + pattern.bytes@.len() <= base + image.size {
        lemma_scan_misses_nothing(
            arch,
            regions,
            base as int,
            image.size as int,
            pattern,
            true,
            index,
            address,
        );
        let k = choose|k: int| 0 <= k < all.len() && all[k] == address;
        assert(all[0] <= all[k]);
        assert(all[0] + pattern.bytes@.len() <= base + image.size);
    }
    if all.len() > 0 {
        assert(base <= all[0] && all[0] + pattern.bytes@.len() <= base + image.size);
    }
}

/// A signature is resolved in a module to its lowest match; where it cannot be parsed,
/// where there is no module and where nothing matches, that is the error.
pub proof fn lemma_signature_is_resolved_to_its_match(
    arch: Arch,
    regions: Seq<MemoryRegion>,
    module: Option<FoundModule<'_>>,
    parsing: Result<Pattern, PatternError>,
)
    ensures
        match resolved_pattern(arch, regions, module, parsing) {
            Ok(target) => parsing is Ok && module is Some && module_match(
                arch,
                regions,
                module->0.mapped@,
                module->0.base,
                parsing->Ok_0,
            ) == Some(target),
            Err(error) => match parsing {
                Err(reason) => error == DetourError::Pattern(reason),
                Ok(pattern) => error == DetourError::PatternNotFound && (module is None
                    || module_match(
                    arch,
                    regions,
                    module->0.mapped@,
                    module->0.base,
                    pattern,
                ) is None),
            },
        },
{
}

} // verus!
