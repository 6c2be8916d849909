//! The processor architecture that hooks are prepared for.
use vstd::prelude::*;

verus! {

/// The processor architecture of the hooked process.
#[derive(Clone, Copy, Debug, PartialEq, Eq, Structural)]
pub enum Arch {
    X86,
    X64,
}

impl Arch {
    /// The number of bits of an address.
    pub open spec fn spec_bitness(self) -> u32 {
        match self {
            Arch::X86 => 32,
            Arch::X64 => 64,
        }
    }

    /// One past the highest address.
    pub open spec fn address_limit(self) -> int {
        match self {
            Arch::X86 => 0x1_0000_0000,
            Arch::X64 => 0x1_0000_0000_0000_0000,
        }
    }

    /// The number of bytes of a pointer.
    pub open spec fn spec_pointer_size(self) -> u64 {
        match self {
            Arch::X86 => 4,
            Arch::X64 => 8,
        }
    }

    /// The address `delta` bytes away from `base`, as pointer arithmetic gives it.
    pub open spec fn displaced(self, base: u64, delta: int) -> u64 {
        ((base + delta) % self.address_limit()) as u64
    }

    /// Returns the decoder bitness, 32 or 64.
    pub fn bitness(self) -> (bits: u32)
        ensures
            bits == self.spec_bitness(),
    {
        match self {
            Arch::X86 => 32,
            Arch::X64 => 64,
        }
    }

    /// Returns the size of a pointer in bytes.
    pub fn pointer_size(self) -> (size: u64)
        ensures
            size == self.spec_pointer_size(),
    {
        match self {
            Arch::X86 => 4,
            Arch::X64 => 8,
        }
    }

    /// Returns the highest address.
    pub fn max_address(self) -> (max: u64)
        ensures
            max == self.address_limit() - 1,
    {
        match self {
            Arch::X86 => 0xffff_ffff,
            Arch::X64 => 0xffff_ffff_ffff_ffff,
        }
    }

    /// Returns `base + delta`, or `None` where no such address exists.
    pub fn checked_offset(self, base: u64, delta: u64) -> (sum: Option<u64>)
        ensures
            match sum {
                Some(address) => address == base + delta && address < self.address_limit(),
                None => base + delta >= self.address_limit(),
            },
    {
        match base.checked_add(delta) {
            Some(address) => if address <= self.max_address() {
                Some(address)
            } else {
                None
            },
            None => None,
        }
    }

    /// Returns the address `delta` bytes away from `base`, wrapping at the end
    /// of the address space.
    pub fn displace(self, base: u64, delta: i128) -> (address: u64)
        requires
            -0x10_0000_0000_0000_0000_0000_0000 <= delta <= 0x10_0000_0000_0000_0000_0000_0000,
        ensures
            address == self.displaced(base, delta as int),
            address < self.address_limit(),
    {
        let sum: i128 = base as i128 + delta;
        match self {
            Arch::X86 => {
                let low: i128 = ((sum % 0x1_0000_0000) + 0x1_0000_0000) % 0x1_0000_0000;
                low as u64
            },
            Arch::X64 => {
                let limit: i128 = 0x1_0000_0000_0000_0000;
                let low: i128 = ((sum % limit) + limit) % limit;
                low as u64
            },
        }
    }
}

} // verus!
