//! The size of a mapped module.
use vstd::prelude::*;

use crate::bytes::{read_u16, read_u32, sign_extend32, signed32, u16_at, u32_at};
use crate::pe::{DOS_HEADER_SIZE, DOS_SIGNATURE, E_LFANEW_OFFSET};

verus! {

/// The size of the image at `base`, as its optional header gives it; 0 where
/// there is no image.
pub open spec fn image_size(mapped: Seq<u8>, base: u64) -> u32 {
    if base == 0 || mapped.len() < DOS_HEADER_SIZE || u16_at(mapped, 0) != DOS_SIGNATURE {
        0
    } else {
        let nt = signed32(u32_at(mapped, E_LFANEW_OFFSET as int));
        if nt + 80 < 0 || nt + 84 > mapped.len() {
            0
        } else {
            u32_at(mapped, nt + 80)
        }
    }
}

/// Returns the size of the image that is mapped at `base`; 0 for a null base, a
/// missing DOS signature, or headers that were not captured.
pub fn get_module_size(mapped: &[u8], base: u64) -> (size: u32)
    ensures
        size == image_size(mapped@, base),
{
    if base == 0 {
        return 0;
    }
    if (mapped.len() as u64) < DOS_HEADER_SIZE || read_u16(mapped, 0) != DOS_SIGNATURE {
        return 0;
    }
    let nt: i128 = sign_extend32(read_u32(mapped, E_LFANEW_OFFSET));
    if nt + 80 < 0 || nt + 84 > mapped.len() as i128 {
        return 0;
    }
    read_u32(mapped, (nt + 80) as usize)
}

} // verus!
