//! What was captured of a process's address space.
use vstd::prelude::*;

use crate::bytes::{copy_range, read_u16, read_u32, read_u64, u16_at, u32_at, u64_at};
use crate::arch::Arch;

verus! {

/// The region holds committed pages.
pub const MEM_COMMIT: u32 = 0x1000;

/// The region is not allocated.
pub const MEM_FREE: u32 = 0x10000;

pub const PAGE_NOACCESS: u32 = 0x01;

pub const PAGE_READONLY: u32 = 0x02;

pub const PAGE_READWRITE: u32 = 0x04;

pub const PAGE_WRITECOPY: u32 = 0x08;

pub const PAGE_EXECUTE: u32 = 0x10;

pub const PAGE_EXECUTE_READ: u32 = 0x20;

pub const PAGE_EXECUTE_READWRITE: u32 = 0x40;

pub const PAGE_EXECUTE_WRITECOPY: u32 = 0x80;

pub const PAGE_GUARD: u32 = 0x100;

/// Protections that forbid every access: `PAGE_NOACCESS | PAGE_GUARD`.
pub const PAGE_BLOCKED: u32 = 0x101;

/// Protections that allow execution.
pub const PAGE_EXECUTABLE: u32 = 0xf0;

/// Protections that allow reading.
pub const PAGE_READABLE: u32 = 0xee;

/// One region of pages with equal attributes, as a memory query reports it,
/// with the bytes that were captured from its start.
#[derive(Debug)]
pub struct MemoryRegion {
    pub base: u64,
    pub size: u64,
    pub state: u32,
    pub protect: u32,
    pub bytes: Vec<u8>,
}

impl MemoryRegion {
    /// Whether `address` lies in the region.
    pub open spec fn covers(self, address: int) -> bool {
        self.base <= address < self.base + self.size
    }

    /// Whether the region is committed and neither guarded nor inaccessible.
    pub open spec fn accessible(self) -> bool {
        self.state == MEM_COMMIT && self.protect & PAGE_BLOCKED == 0
    }

    /// Whether the `len` bytes at `address` were captured.
    pub open spec fn captured(self, address: int, len: int) -> bool {
        self.base <= address && address + len <= self.base + self.bytes@.len()
    }

    /// Returns whether `address` lies in the region.
    pub fn contains(&self, address: u64) -> (inside: bool)
        ensures
            inside == self.covers(address as int),
    {
        address >= self.base && address - self.base < self.size
    }

    /// Returns whether the region is committed and neither guarded nor
    /// inaccessible.
    pub fn is_accessible(&self) -> (accessible: bool)
        ensures
            accessible == self.accessible(),
    {
        self.state == MEM_COMMIT && self.protect & PAGE_BLOCKED == 0
    }
}

/// The regions that were captured. Where two of them overlap, the first one is
/// the one that a query reports.
#[derive(Debug)]
pub struct MemoryMap {
    pub regions: Vec<MemoryRegion>,
}

/// The first of the first `upto` regions that covers `address`.
pub open spec fn find_region(regions: Seq<MemoryRegion>, address: int, upto: int) -> Option<int>
    decreases upto,
{
    if upto <= 0 {
        None
    } else {
        match find_region(regions, address, upto - 1) {
            Some(found) => Some(found),
            None => if regions[upto - 1].covers(address) {
                Some(upto - 1)
            } else {
                None
            },
        }
    }
}

impl View for MemoryMap {
    type V = Seq<MemoryRegion>;

    open spec fn view(&self) -> Seq<MemoryRegion> {
        self.regions@
    }
}

/// The region that a query of `address` reports.
pub open spec fn region_at(regions: Seq<MemoryRegion>, address: int) -> Option<MemoryRegion> {
    match find_region(regions, address, regions.len() as int) {
        Some(index) => Some(regions[index]),
        None => None,
    }
}

/// Whether all of the `len` bytes at `address` can be read: they are at a
/// non-null address, in one accessible region that ends within the address
/// space.
pub open spec fn readable(arch: Arch, regions: Seq<MemoryRegion>, address: int, len: int) -> bool {
    &&& address != 0
    &&& len > 0
    &&& region_at(regions, address) matches Some(region) && {
        &&& region.accessible()
        &&& region.base + region.size < arch.address_limit()
        &&& address + len <= region.base + region.size
    }
}

/// The `len` bytes at `address`, where they can be read and were captured.
pub open spec fn bytes_at(arch: Arch, regions: Seq<MemoryRegion>, address: int, len: int) -> Option<
    Seq<u8>,
> {
    if readable(arch, regions, address, len) {
        let region = region_at(regions, address)->0;
        if region.captured(address, len) {
            Some(region.bytes@.subrange(address - region.base, address - region.base + len))
        } else {
            None
        }
    } else {
        None
    }
}

/// The byte at `address`.
pub open spec fn mem_u8(arch: Arch, regions: Seq<MemoryRegion>, address: u64) -> Option<u8> {
    match bytes_at(arch, regions, address as int, 1) {
        Some(bytes) => Some(bytes[0]),
        None => None,
    }
}

/// The 16-bit value at `address`.
pub open spec fn mem_u16(arch: Arch, regions: Seq<MemoryRegion>, address: u64) -> Option<u16> {
    match bytes_at(arch, regions, address as int, 2) {
        Some(bytes) => Some(u16_at(bytes, 0)),
        None => None,
    }
}

/// The 32-bit value at `address`.
pub open spec fn mem_u32(arch: Arch, regions: Seq<MemoryRegion>, address: u64) -> Option<u32> {
    match bytes_at(arch, regions, address as int, 4) {
        Some(bytes) => Some(u32_at(bytes, 0)),
        None => None,
    }
}

/// The 64-bit value at `address`.
pub open spec fn mem_u64(arch: Arch, regions: Seq<MemoryRegion>, address: u64) -> Option<u64> {
    match bytes_at(arch, regions, address as int, 8) {
        Some(bytes) => Some(u64_at(bytes, 0)),
        None => None,
    }
}

/// The pointer stored at `address`.
pub open spec fn mem_pointer(arch: Arch, regions: Seq<MemoryRegion>, address: u64) -> Option<u64> {
    match arch {
        Arch::X86 => match mem_u32(arch, regions, address) {
            Some(value) => Some(value as u64),
            None => None,
        },
        Arch::X64 => mem_u64(arch, regions, address),
    }
}

/// A region found by a query covers the queried address, and no earlier region
/// does.
pub proof fn lemma_find_region(regions: Seq<MemoryRegion>, address: int, upto: int)
    requires
        0 <= upto <= regions.len(),
    ensures
        match find_region(regions, address, upto) {
            Some(found) => 0 <= found < upto && regions[found].covers(address) && forall|i: int|
                0 <= i < found ==> !(#[trigger] regions[i]).covers(address),
            None => forall|i: int| 0 <= i < upto ==> !(#[trigger] regions[i]).covers(address),
        },
    decreases upto,
{
    if upto > 0 {
        lemma_find_region(regions, address, upto - 1);
    }
}

/// Bytes that were read hold the bytes that a shorter read in the same region
/// gives.
pub proof fn lemma_part_of_bytes(
    arch: Arch,
    regions: Seq<MemoryRegion>,
    address: int,
    len: int,
    offset: int,
    count: int,
)
    requires
        bytes_at(arch, regions, address, len) is Some,
        region_at(regions, address + offset) == region_at(regions, address),
        address > 0,
        0 <= offset,
        count > 0,
        offset + count <= len,
    ensures
        bytes_at(arch, regions, address + offset, count) == Some(
            bytes_at(arch, regions, address, len)->0.subrange(offset, offset + count),
        ),
{
    let region = region_at(regions, address)->0;
    let all = bytes_at(arch, regions, address, len)->0;
    assert(region.bytes@.subrange(
        address + offset - region.base,
        address + offset - region.base + count,
    ) =~= all.subrange(offset, offset + count));
}

impl MemoryMap {
    /// Returns an empty capture.
    pub fn new() -> (map: MemoryMap)
        ensures
            map@ == Seq::<MemoryRegion>::empty(),
    {
        MemoryMap { regions: Vec::new() }
    }

    /// Returns the index of the region that covers `address`.
    pub fn query(&self, address: u64) -> (found: Option<usize>)
        ensures
            match found {
                Some(index) => find_region(self@, address as int, self@.len() as int) == Some(
                    index as int,
                ) && index < self@.len() && self@[index as int].covers(address as int),
                None => find_region(self@, address as int, self@.len() as int) is None,
            },
    {
        let mut i: usize = 0;
        let mut found: Option<usize> = None;
        while i < self.regions.len()
            invariant
                i <= self@.len(),
                match found {
                    Some(index) => find_region(self@, address as int, i as int) == Some(
                        index as int,
                    ) && index < i,
                    None => find_region(self@, address as int, i as int) is None,
                },
            decreases self@.len() - i,
        {
            if found.is_none() && self.regions[i].contains(address) {
                found = Some(i);
            }
            i = i + 1;
        }
        proof {
            lemma_find_region(self@, address as int, self@.len() as int);
        }
        found
    }

    /// Returns whether all of the `len` bytes at `address` can be read.
    pub fn is_readable_range(&self, arch: Arch, address: u64, len: u64) -> (ok: bool)
        ensures
            ok == readable(arch, self@, address as int, len as int),
    {
        if address == 0 || len == 0 {
            return false;
        }
        match self.query(address) {
            Some(index) => {
                let region = &self.regions[index];
                if !region.is_accessible() {
                    return false;
                }
                match arch.checked_offset(region.base, region.size) {
                    Some(region_end) => len <= region_end - address,
                    None => false,
                }
            },
            None => false,
        }
    }

    /// Reads the `len` bytes at `address`.
    pub fn read(&self, arch: Arch, address: u64, len: u64) -> (bytes: Option<Vec<u8>>)
        ensures
            match bytes {
                Some(read) => bytes_at(arch, self@, address as int, len as int) == Some(read@)
                    && read@.len() == len,
                None => bytes_at(arch, self@, address as int, len as int) is None,
            },
    {
        if !self.is_readable_range(arch, address, len) {
            return None;
        }
        match self.query(address) {
            Some(index) => {
                let region = &self.regions[index];
                let from: u64 = address - region.base;
                let available: u64 = region.bytes.len() as u64;
                if from > available || len > available - from {
                    return None;
                }
                Some(copy_range(&region.bytes, from as usize, (from + len) as usize))
            },
            None => None,
        }
    }

    /// Reads the byte at `address`.
    pub fn read_u8(&self, arch: Arch, address: u64) -> (value: Option<u8>)
        ensures
            value == mem_u8(arch, self@, address),
    {
        match self.read(arch, address, 1) {
            Some(bytes) => Some(bytes[0]),
            None => None,
        }
    }

    /// Reads the 16-bit value at `address`.
    pub fn read_u16(&self, arch: Arch, address: u64) -> (value: Option<u16>)
        ensures
            value == mem_u16(arch, self@, address),
    {
        match self.read(arch, address, 2) {
            Some(bytes) => Some(read_u16(&bytes, 0)),
            None => None,
        }
    }

    /// Reads the 32-bit value at `address`.
    pub fn read_u32(&self, arch: Arch, address: u64) -> (value: Option<u32>)
        ensures
            value == mem_u32(arch, self@, address),
    {
        match self.read(arch, address, 4) {
            Some(bytes) => Some(read_u32(&bytes, 0)),
            None => None,
        }
    }

    /// Reads the 64-bit value at `address`.
    pub fn read_u64(&self, arch: Arch, address: u64) -> (value: Option<u64>)
        ensures
            value == mem_u64(arch, self@, address),
    {
        match self.read(arch, address, 8) {
            Some(bytes) => Some(read_u64(&bytes, 0)),
            None => None,
        }
    }

    /// Reads the pointer stored at `address`.
    pub fn read_pointer(&self, arch: Arch, address: u64) -> (value: Option<u64>)
        ensures
            value == mem_pointer(arch, self@, address),
    {
        match arch {
            Arch::X86 => match self.read_u32(arch, address) {
                Some(value) => Some(value as u64),
                None => None,
            },
            Arch::X64 => self.read_u64(arch, address),
        }
    }
}

} // verus!
