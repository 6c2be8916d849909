//! Bounds-checked parsing of a PE image that is mapped in a process.
//!
//! `mapped` always holds the bytes from the image's base address on, as far as
//! they were captured.
use vstd::prelude::*;
use vstd::utf8::{decode_utf8, valid_utf8};

use crate::arch::Arch;
use crate::bytes::{
    copy_range, read_u16, read_u32, read_u64, sign_extend32, signed32, u16_at, u32_at, u64_at,
};

verus! {

/// `MZ`.
pub const DOS_SIGNATURE: u16 = 0x5A4D;

/// `PE` and two zero bytes.
pub const NT_SIGNATURE: u32 = 0x4550;

/// The size of the DOS header.
pub const DOS_HEADER_SIZE: u64 = 64;

/// Where the DOS header holds the offset of the NT headers.
pub const E_LFANEW_OFFSET: usize = 0x3C;

/// The index of the export directory.
pub const DIRECTORY_EXPORT: usize = 0;

/// The index of the import directory.
pub const DIRECTORY_IMPORT: usize = 1;

/// Why a mapped image is not accepted.
#[derive(Clone, Copy, Debug, PartialEq, Eq, Structural)]
pub enum PeError {
    /// The base address is null.
    NullModule,
    /// The DOS header is missing its signature.
    InvalidDosHeader,
    /// The offset of the NT headers is invalid.
    InvalidNtHeader,
    /// The NT headers are missing their signature.
    InvalidNtSignature,
    /// The optional header is for another architecture, or the image size is
    /// zero.
    InvalidOptionalHeader,
}

/// A validated image.
#[derive(Clone, Copy, Debug, PartialEq, Eq, Structural)]
pub struct ModuleImage {
    /// The address at which the image is mapped.
    pub base_address: u64,
    /// The size of the image.
    pub size: u64,
}

/// The magic number of the optional header.
pub open spec fn optional_magic(arch: Arch) -> u16 {
    match arch {
        Arch::X86 => 0x10B,
        Arch::X64 => 0x20B,
    }
}

/// The size of the NT headers.
pub open spec fn nt_headers_size(arch: Arch) -> u64 {
    match arch {
        Arch::X86 => 248,
        Arch::X64 => 264,
    }
}

/// Where the NT headers hold the number of data directories; the directories
/// follow it.
pub open spec fn directory_count_offset(arch: Arch) -> u64 {
    match arch {
        Arch::X86 => 116,
        Arch::X64 => 132,
    }
}

/// The offset of the NT headers, where they are completely mapped.
pub open spec fn nt_offset(arch: Arch, mapped: Seq<u8>) -> Option<int> {
    if mapped.len() < DOS_HEADER_SIZE {
        None
    } else {
        let offset = signed32(u32_at(mapped, E_LFANEW_OFFSET as int));
        if offset <= 0 || offset + nt_headers_size(arch) > mapped.len() {
            None
        } else {
            Some(offset)
        }
    }
}

/// What the headers of the image at `base` say.
pub open spec fn parsed(arch: Arch, mapped: Seq<u8>, base: u64) -> Result<ModuleImage, PeError> {
    if base == 0 {
        Err(PeError::NullModule)
    } else if mapped.len() < DOS_HEADER_SIZE || u16_at(mapped, 0) != DOS_SIGNATURE {
        Err(PeError::InvalidDosHeader)
    } else {
        match nt_offset(arch, mapped) {
            None => Err(PeError::InvalidNtHeader),
            Some(nt) => if base + nt >= arch.address_limit() {
                Err(PeError::InvalidNtHeader)
            } else if u32_at(mapped, nt) != NT_SIGNATURE {
                Err(PeError::InvalidNtSignature)
            } else if u16_at(mapped, nt + 24) != optional_magic(arch) || u32_at(mapped, nt + 80)
                == 0 {
                Err(PeError::InvalidOptionalHeader)
            } else {
                Ok(ModuleImage { base_address: base, size: u32_at(mapped, nt + 80) as u64 })
            },
        }
    }
}

/// Returns the offset of the NT headers, where they are completely mapped.
fn find_nt_headers(arch: Arch, mapped: &[u8]) -> (offset: Option<usize>)
    ensures
        match offset {
            Some(nt) => nt_offset(arch, mapped@) == Some(nt as int) && nt + nt_headers_size(arch)
                <= mapped@.len() && mapped@.len() <= usize::MAX,
            None => nt_offset(arch, mapped@) is None,
        },
{
    if (mapped.len() as u64) < DOS_HEADER_SIZE {
        return None;
    }
    let offset: i128 = sign_extend32(read_u32(mapped, E_LFANEW_OFFSET));
    let size: i128 = match arch {
        Arch::X86 => 248,
        Arch::X64 => 264,
    };
    if offset <= 0 || offset + size > mapped.len() as i128 {
        return None;
    }
    Some(offset as usize)
}

/// Validates the headers of the image that is mapped at `base`.
pub fn parse_module_image(arch: Arch, mapped: &[u8], base: u64) -> (image: Result<
    ModuleImage,
    PeError,
>)
    ensures
        image == parsed(arch, mapped@, base),
{
    if base == 0 {
        return Err(PeError::NullModule);
    }
    if (mapped.len() as u64) < DOS_HEADER_SIZE || read_u16(mapped, 0) != DOS_SIGNATURE {
        return Err(PeError::InvalidDosHeader);
    }
    let nt: usize = match find_nt_headers(arch, mapped) {
        Some(nt) => nt,
        None => {
            return Err(PeError::InvalidNtHeader);
        },
    };
    if arch.checked_offset(base, nt as u64).is_none() {
        return Err(PeError::InvalidNtHeader);
    }
    if read_u32(mapped, nt) != NT_SIGNATURE {
        return Err(PeError::InvalidNtSignature);
    }
    let magic: u16 = match arch {
        Arch::X86 => 0x10B,
        Arch::X64 => 0x20B,
    };
    if read_u16(mapped, nt + 24) != magic {
        return Err(PeError::InvalidOptionalHeader);
    }
    let size: u32 = read_u32(mapped, nt + 80);
    if size == 0 {
        return Err(PeError::InvalidOptionalHeader);
    }
    Ok(ModuleImage { base_address: base, size: size as u64 })
}

/// The relative address of the entry point, where there is one.
pub open spec fn entry_point(arch: Arch, mapped: Seq<u8>) -> Option<u64> {
    match nt_offset(arch, mapped) {
        Some(nt) => if u32_at(mapped, nt + 40) == 0 {
            None
        } else {
            Some(u32_at(mapped, nt + 40) as u64)
        },
        None => None,
    }
}

/// Returns the relative address of the entry point, `None` where it is zero.
pub fn entry_point_rva(arch: Arch, mapped: &[u8]) -> (rva: Option<u64>)
    ensures
        rva == entry_point(arch, mapped@),
{
    match find_nt_headers(arch, mapped) {
        Some(nt) => {
            let rva: u32 = read_u32(mapped, nt + 40);
            if rva == 0 {
                None
            } else {
                Some(rva as u64)
            }
        },
        None => None,
    }
}

/// The number of data directories that the headers of an image have room for.
pub const DIRECTORY_ROOM: usize = 16;

/// The relative address and the size of a data directory that lies within the
/// image.
pub open spec fn directory(arch: Arch, image: ModuleImage, mapped: Seq<u8>, index: int) -> Option<
    (u64, u64),
> {
    match nt_offset(arch, mapped) {
        Some(nt) => {
            let count = nt + directory_count_offset(arch);
            let rva = u32_at(mapped, count + 4 + 8 * index);
            let size = u32_at(mapped, count + 8 + 8 * index);
            if index >= DIRECTORY_ROOM || u32_at(mapped, count) <= index || rva == 0 || size == 0
                || rva + size > image.size {
                None
            } else {
                Some((rva as u64, size as u64))
            }
        },
        None => None,
    }
}

/// Returns the relative address and the size of the data directory `index`,
/// `None` where it is absent, empty or not within the image.
pub fn data_directory(arch: Arch, image: &ModuleImage, mapped: &[u8], index: usize) -> (found:
    Option<(u64, u64)>)
    ensures
        found == directory(arch, *image, mapped@, index as int),
{
    if index >= DIRECTORY_ROOM {
        return None;
    }
    let nt: usize = match find_nt_headers(arch, mapped) {
        Some(nt) => nt,
        None => {
            return None;
        },
    };
    let count: usize = match arch {
        Arch::X86 => nt + 116,
        Arch::X64 => nt + 132,
    };
    if read_u32(mapped, count) as u64 <= index as u64 {
        return None;
    }
    let rva: u64 = read_u32(mapped, count + 4 + 8 * index) as u64;
    let size: u64 = read_u32(mapped, count + 8 + 8 * index) as u64;
    if rva == 0 || size == 0 || rva + size > image.size {
        return None;
    }
    Some((rva, size))
}

/// Whether `size` bytes at the relative address `rva` lie within the image.
pub open spec fn in_image(arch: Arch, image: ModuleImage, rva: int, size: int) -> bool {
    &&& rva > 0
    &&& size > 0
    &&& rva + size <= image.size
    &&& image.base_address + rva < arch.address_limit()
}

/// Returns the address of `size` bytes at the relative address `rva`, `None`
/// where they do not lie within the image.
pub fn rva_to_ptr(arch: Arch, image: &ModuleImage, rva: u64, size: u64) -> (address: Option<u64>)
    ensures
        match address {
            Some(pointer) => in_image(arch, *image, rva as int, size as int) && pointer
                == image.base_address + rva,
            None => !in_image(arch, *image, rva as int, size as int),
        },
{
    if rva == 0 || size == 0 {
        return None;
    }
    match rva.checked_add(size) {
        Some(end) => {
            if end > image.size {
                return None;
            }
        },
        None => {
            return None;
        },
    }
    arch.checked_offset(image.base_address, rva)
}

/// A pointer that a relative address translates to lies within the image, with
/// all the bytes that were asked for.
pub proof fn lemma_rva_stays_in_image(arch: Arch, image: ModuleImage, rva: int, size: int)
    requires
        in_image(arch, image, rva, size),
    ensures
        image.base_address < image.base_address + rva,
        image.base_address + rva + size <= image.base_address + image.size,
        image.base_address + rva < arch.address_limit(),
{
}

/// Whether `size` bytes at the relative address `rva` lie within the image and
/// were captured.
pub open spec fn image_holds(
    arch: Arch,
    image: ModuleImage,
    mapped: Seq<u8>,
    rva: int,
    size: int,
) -> bool {
    in_image(arch, image, rva, size) && rva + size <= mapped.len()
}

/// The 16-bit value at the relative address `rva`.
pub open spec fn image_u16(arch: Arch, image: ModuleImage, mapped: Seq<u8>, rva: int) -> Option<
    u16,
> {
    if image_holds(arch, image, mapped, rva, 2) {
        Some(u16_at(mapped, rva))
    } else {
        None
    }
}

/// The 32-bit value at the relative address `rva`.
pub open spec fn image_u32(arch: Arch, image: ModuleImage, mapped: Seq<u8>, rva: int) -> Option<
    u32,
> {
    if image_holds(arch, image, mapped, rva, 4) {
        Some(u32_at(mapped, rva))
    } else {
        None
    }
}

/// The pointer-sized value at the relative address `rva`.
pub open spec fn image_word(arch: Arch, image: ModuleImage, mapped: Seq<u8>, rva: int) -> Option<
    u64,
> {
    if image_holds(arch, image, mapped, rva, arch.spec_pointer_size() as int) {
        match arch {
            Arch::X86 => Some(u32_at(mapped, rva) as u64),
            Arch::X64 => Some(u64_at(mapped, rva)),
        }
    } else {
        None
    }
}

/// Returns whether `size` bytes at `rva` lie within the image and were captured.
fn holds(arch: Arch, image: &ModuleImage, mapped: &[u8], rva: u64, size: u64) -> (held: bool)
    ensures
        held == image_holds(arch, *image, mapped@, rva as int, size as int),
        held ==> mapped@.len() <= usize::MAX,
{
    match rva_to_ptr(arch, image, rva, size) {
        Some(_) => rva <= mapped.len() as u64 && size <= mapped.len() as u64 - rva,
        None => false,
    }
}

/// Reads the 16-bit value at the relative address `rva`.
pub fn read_image_u16(arch: Arch, image: &ModuleImage, mapped: &[u8], rva: u64) -> (value: Option<
    u16,
>)
    ensures
        value == image_u16(arch, *image, mapped@, rva as int),
{
    if holds(arch, image, mapped, rva, 2) {
        Some(read_u16(mapped, rva as usize))
    } else {
        None
    }
}

/// Reads the 32-bit value at the relative address `rva`.
pub fn read_image_u32(arch: Arch, image: &ModuleImage, mapped: &[u8], rva: u64) -> (value: Option<
    u32,
>)
    ensures
        value == image_u32(arch, *image, mapped@, rva as int),
{
    if holds(arch, image, mapped, rva, 4) {
        Some(read_u32(mapped, rva as usize))
    } else {
        None
    }
}

/// Reads the pointer-sized value at the relative address `rva`.
pub fn read_image_word(arch: Arch, image: &ModuleImage, mapped: &[u8], rva: u64) -> (value: Option<
    u64,
>)
    ensures
        value == image_word(arch, *image, mapped@, rva as int),
{
    if holds(arch, image, mapped, rva, arch.pointer_size()) {
        match arch {
            Arch::X86 => Some(read_u32(mapped, rva as usize) as u64),
            Arch::X64 => Some(read_u64(mapped, rva as usize)),
        }
    } else {
        None
    }
}

/// The first position from `at` on below `end` that holds a zero byte.
pub open spec fn find_zero(bytes: Seq<u8>, at: int, end: int) -> Option<int>
    decreases end - at,
{
    if at < 0 || at >= end || at >= bytes.len() {
        None
    } else if bytes[at] == 0 {
        Some(at)
    } else {
        find_zero(bytes, at + 1, end)
    }
}

/// The text of a byte string, where it is valid UTF-8.
pub open spec fn utf8_text(bytes: Seq<u8>) -> Option<Seq<char>> {
    if valid_utf8(bytes) {
        Some(decode_utf8(bytes))
    } else {
        None
    }
}

/// Turns a byte string into text with `String::from_utf8`.
///
/// Claimed of it: it succeeds exactly on valid UTF-8 and gives the text that the
/// bytes encode.
#[verifier::external_body]
fn text_from_utf8(bytes: Vec<u8>) -> (text: Option<String>)
    ensures
        match text {
            Some(decoded) => utf8_text(bytes@) == Some(decoded@),
            None => utf8_text(bytes@) is None,
        },
{
    String::from_utf8(bytes).ok()
}

/// The zero-terminated text at the relative address `rva`: the zero byte lies
/// within the image, and the bytes before it are valid UTF-8.
pub open spec fn c_string(arch: Arch, image: ModuleImage, mapped: Seq<u8>, rva: int) -> Option<
    Seq<char>,
> {
    if rva == 0 || rva >= image.size || image.base_address + image.size >= arch.address_limit() {
        None
    } else {
        match find_zero(mapped, rva, image.size as int) {
            Some(end) => utf8_text(mapped.subrange(rva, end)),
            None => None,
        }
    }
}

/// Whether an optional text holds an optional sequence of characters.
pub open spec fn same_text(text: Option<String>, expected: Option<Seq<char>>) -> bool {
    match text {
        Some(t) => expected == Some(t@),
        None => expected is None,
    }
}

/// Reads the zero-terminated text at the relative address `rva`.
pub fn read_c_string_from_rva(arch: Arch, image: &ModuleImage, mapped: &[u8], rva: u64) -> (text:
    Option<String>)
    ensures
        same_text(text, c_string(arch, *image, mapped@, rva as int)),
{
    if rva == 0 || rva >= image.size {
        return None;
    }
    if arch.checked_offset(image.base_address, image.size).is_none() {
        return None;
    }
    let limit: u64 = if image.size < mapped.len() as u64 {
        image.size
    } else {
        mapped.len() as u64
    };
    if rva >= limit {
        return None;
    }
    let start: usize = rva as usize;
    let stop: usize = limit as usize;
    let mut end: usize = start;
    while end < stop && mapped[end] != 0
        invariant
            start <= end <= stop <= mapped@.len(),
            stop <= image.size,
            stop == image.size || stop == mapped@.len(),
            find_zero(mapped@, end as int, image.size as int) == find_zero(
                mapped@,
                start as int,
                image.size as int,
            ),
        decreases stop - end,
    {
        end = end + 1;
    }
    if end == stop {
        return None;
    }
    text_from_utf8(copy_range(mapped, start, end))
}

} // verus!
