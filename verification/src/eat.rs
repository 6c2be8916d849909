//! Hooks on export address tables.
use vstd::prelude::*;

use crate::arch::Arch;
use crate::bytes::{le8, push_u64};
use crate::introspect::{
    export_directory, is_forwarder, read_element_u16, read_element_u32, read_export_directory,
    ExportDirectory,
};
use crate::mem::{OsError, RestorePolicy, SlotWrite, WriteStage};
use crate::memory::PAGE_READWRITE;
use crate::nearby::{NearbySearch, TrampolineAlloc};
use crate::pe::{
    c_string, image_u16, image_u32, parse_module_image, parsed, read_c_string_from_rva,
    ModuleImage, PeError,
};
use crate::text::same_characters;

verus! {

/// Why an export hook failed.
#[derive(Debug)]
pub enum EatHookError {
    /// A null pointer or another unusable argument was given.
    InvalidParameter,
    /// The module's headers are not those of a valid image.
    InvalidPeImage,
    /// The module has no export directory, or a malformed one.
    ExportTableUnavailable,
    /// The module does not export the name.
    TargetNotFound,
    /// The export is forwarded to another module, so its slot cannot be
    /// redirected.
    TargetIsForwarder,
    /// The detour is too far from the module, and no jump stub could be placed
    /// within reach.
    DetourUnreachable,
    /// A jump stub could not be allocated.
    AllocationFailed,
    /// Changing the page protection of the slot failed.
    ProtectFailed(OsError),
}

impl EatHookError {
    /// The text of the error.
    pub open spec fn text(self) -> Seq<char> {
        match self {
            EatHookError::InvalidParameter => "invalid EAT hook parameters"@,
            EatHookError::InvalidPeImage => "invalid PE image"@,
            EatHookError::ExportTableUnavailable => "export table unavailable"@,
            EatHookError::TargetNotFound => "target export not found"@,
            EatHookError::TargetIsForwarder => "target export is a forwarder, not code"@,
            EatHookError::DetourUnreachable => "detour is unreachable as a 32-bit export RVA"@,
            EatHookError::AllocationFailed => "failed to allocate jump stub for detour"@,
            EatHookError::ProtectFailed(error) => "failed to change page protection: "@
                + error.message@,
        }
    }

    /// Returns the text of the error.
    pub fn to_string(&self) -> (text: String)
        ensures
            text@ == self.text(),
    {
        match self {
            EatHookError::InvalidParameter => "invalid EAT hook parameters".to_owned(),
            EatHookError::InvalidPeImage => "invalid PE image".to_owned(),
            EatHookError::ExportTableUnavailable => "export table unavailable".to_owned(),
            EatHookError::TargetNotFound => "target export not found".to_owned(),
            EatHookError::TargetIsForwarder => "target export is a forwarder, not code".to_owned(),
            EatHookError::DetourUnreachable =>
                "detour is unreachable as a 32-bit export RVA".to_owned(),
            EatHookError::AllocationFailed => "failed to allocate jump stub for detour".to_owned(),
            EatHookError::ProtectFailed(error) => {
                let mut text: String = "failed to change page protection: ".to_owned();
                text.append(error.message.as_str());
                text
            },
        }
    }
}

impl From<PeError> for EatHookError {
    fn from(error: PeError) -> (mapped: EatHookError) {
        match error {
            PeError::NullModule => EatHookError::InvalidParameter,
            PeError::InvalidDosHeader | PeError::InvalidNtHeader | PeError::InvalidNtSignature
            | PeError::InvalidOptionalHeader => EatHookError::InvalidPeImage,
        }
    }
}

/// The error that an invalid image gives.
pub open spec fn image_error(error: PeError) -> EatHookError {
    match error {
        PeError::NullModule => EatHookError::InvalidParameter,
        _ => EatHookError::InvalidPeImage,
    }
}

impl vstd::std_specs::convert::FromSpecImpl<PeError> for EatHookError {
    open spec fn obeys_from_spec() -> bool {
        true
    }

    open spec fn from_spec(error: PeError) -> EatHookError {
        image_error(error)
    }
}

/// The slot of an export and the relative address that it holds.
#[derive(Clone, Copy, Debug, PartialEq, Eq, Structural)]
pub struct ExportSlot {
    pub slot: u64,
    pub original_rva: u32,
}

/// Whether the `index`-th name of the directory is `name`.
pub open spec fn names(
    arch: Arch,
    image: ModuleImage,
    mapped: Seq<u8>,
    dir: ExportDirectory,
    index: int,
    name: Seq<char>,
) -> bool {
    match image_u32(arch, image, mapped, dir.names_rva + 4 * index) {
        Some(rva) => c_string(arch, image, mapped, rva as int) == Some(name),
        None => false,
    }
}

/// The slot that the `index`-th name of the directory belongs to.
pub open spec fn slot_of_name(
    arch: Arch,
    image: ModuleImage,
    mapped: Seq<u8>,
    dir: ExportDirectory,
    index: int,
) -> Result<ExportSlot, EatHookError> {
    match image_u16(arch, image, mapped, dir.name_ordinals_rva + 2 * index) {
        None => Err(EatHookError::ExportTableUnavailable),
        Some(function) => match image_u32(arch, image, mapped, dir.functions_rva + 4 * function) {
            None => Err(EatHookError::ExportTableUnavailable),
            Some(rva) => if function >= dir.functions {
                Err(EatHookError::ExportTableUnavailable)
            } else if is_forwarder(dir, rva as int) {
                Err(EatHookError::TargetIsForwarder)
            } else {
                Ok(
                    ExportSlot {
                        slot: (image.base_address + dir.functions_rva + 4 * function) as u64,
                        original_rva: rva,
                    },
                )
            },
        },
    }
}

/// The slot of the first export called `name` from the `index`-th name on.
pub open spec fn find_named(
    arch: Arch,
    image: ModuleImage,
    mapped: Seq<u8>,
    dir: ExportDirectory,
    index: int,
    name: Seq<char>,
) -> Result<ExportSlot, EatHookError>
    decreases dir.names - index,
{
    if index < 0 || index >= dir.names {
        Err(EatHookError::TargetNotFound)
    } else if names(arch, image, mapped, dir, index, name) {
        slot_of_name(arch, image, mapped, dir, index)
    } else {
        find_named(arch, image, mapped, dir, index + 1, name)
    }
}

/// The slot of the export called `name`.
pub open spec fn export_slot(
    arch: Arch,
    image: ModuleImage,
    mapped: Seq<u8>,
    name: Seq<char>,
) -> Result<ExportSlot, EatHookError> {
    match export_directory(arch, image, mapped) {
        None => Err(EatHookError::ExportTableUnavailable),
        Some(dir) => find_named(arch, image, mapped, dir, 0, name),
    }
}

/// Returns whether the `index`-th name of the directory is `name`.
fn has_name(
    arch: Arch,
    image: &ModuleImage,
    mapped: &[u8],
    dir: &ExportDirectory,
    index: u32,
    name: &str,
) -> (same: bool)
    ensures
        same == names(arch, *image, mapped@, *dir, index as int, name@),
{
    match read_element_u32(arch, image, mapped, dir.names_rva, index) {
        Some(rva) => match read_c_string_from_rva(arch, image, mapped, rva as u64) {
            Some(text) => same_characters(text.as_str(), name),
            None => false,
        },
        None => false,
    }
}

/// Finds the slot of the export called `target_func`, with the relative address
/// that it holds. An export that is forwarded to another module has no slot that
/// could be redirected.
pub fn find_export_slot(arch: Arch, image: &ModuleImage, mapped: &[u8], target_func: &str) -> (
found: Result<ExportSlot, EatHookError>)
    ensures
        found == export_slot(arch, *image, mapped@, target_func@),
{
    let dir = match read_export_directory(arch, image, mapped) {
        Some(dir) => dir,
        None => {
            return Err(EatHookError::ExportTableUnavailable);
        },
    };
    let mut i: u32 = 0;
    while i < dir.names
        invariant
            i <= dir.names,
            export_directory(arch, *image, mapped@) == Some(dir),
            find_named(arch, *image, mapped@, dir, i as int, target_func@) == find_named(
                arch,
                *image,
                mapped@,
                dir,
                0,
                target_func@,
            ),
        decreases dir.names - i,
    {
        if has_name(arch, image, mapped, &dir, i, target_func) {
            let function: u16 = match read_element_u16(
                arch,
                image,
                mapped,
                dir.name_ordinals_rva,
                i,
            ) {
                Some(function) => function,
                None => {
                    return Err(EatHookError::ExportTableUnavailable);
                },
            };
            if function as u32 >= dir.functions {
                return Err(EatHookError::ExportTableUnavailable);
            }
            let rva: u32 = match read_element_u32(
                arch,
                image,
                mapped,
                dir.functions_rva,
                function as u32,
            ) {
                Some(rva) => rva,
                None => {
                    return Err(EatHookError::ExportTableUnavailable);
                },
            };
            if rva as u64 >= dir.rva && (rva as u64) - dir.rva < dir.size {
                return Err(EatHookError::TargetIsForwarder);
            }
            return Ok(
                ExportSlot {
                    slot: image.base_address + dir.functions_rva + 4 * (function as u64),
                    original_rva: rva,
                },
            );
        }
        i = i + 1;
    }
    Err(EatHookError::TargetNotFound)
}

/// The code of a jump to `target` through a pointer behind the instruction.
pub open spec fn absolute_jump(target: u64) -> Seq<u8> {
    seq![0xFFu8, 0x25, 0, 0, 0, 0] + le8(target)
}

/// Returns the code of a jump to `target` through a pointer behind the
/// instruction.
pub fn write_abs_jump_stub(target: u64) -> (stub: Vec<u8>)
    ensures
        stub@ == absolute_jump(target),
        stub@.len() == 14,
{
    let mut stub: Vec<u8> = Vec::new();
    stub.push(0xFF);
    stub.push(0x25);
    stub.push(0);
    stub.push(0);
    stub.push(0);
    stub.push(0);
    assert(stub@ =~= seq![0xFFu8, 0x25, 0, 0, 0, 0]);
    push_u64(&mut stub, target);
    stub
}

/// The bytes of the jump stub that an export is led through.
pub const EXPORT_STUB_LEN: u64 = 14;

/// How far above a module its jump stubs are looked for: the middle of the 4 GiB
/// that the relative address of an export spans.
pub const EXPORT_REACH: u64 = 0x8000_0000;

/// The relative address of `address` in a module at `base`, where an export slot
/// can hold it: on x86 always, on x64 where the address is less than 4 GiB above
/// the base.
pub open spec fn reachable_rva(arch: Arch, base: u64, address: u64) -> Option<u32> {
    match arch {
        Arch::X86 => Some(((address - base) % 0x1_0000_0000) as u32),
        Arch::X64 => if base <= address && address - base <= u32::MAX {
            Some((address - base) as u32)
        } else {
            None
        },
    }
}

/// Returns the relative address by which an export slot of a module at `base`
/// refers to `address`, `None` where it cannot.
pub fn direct_rva(arch: Arch, base: u64, address: u64) -> (rva: Option<u32>)
    ensures
        rva == reachable_rva(arch, base, address),
{
    match arch {
        Arch::X86 => {
            let difference: i128 = address as i128 - base as i128;
            let low: i128 = ((difference % 0x1_0000_0000) + 0x1_0000_0000) % 0x1_0000_0000;
            Some(low as u32)
        },
        Arch::X64 => if base <= address && address - base <= u32::MAX as u64 {
            Some((address - base) as u32)
        } else {
            None
        },
    }
}

/// A resolved export gives back the address that its slot was made to refer to.
pub proof fn lemma_rva_resolves(arch: Arch, base: u64, address: u64)
    requires
        base < arch.address_limit(),
        address < arch.address_limit(),
    ensures
        reachable_rva(arch, base, address) matches Some(rva) ==> arch.displaced(base, rva as int)
            == address,
{
    if arch == Arch::X86 {
        let difference = address - base;
        let low = difference % 0x1_0000_0000;
        assert((base + low) % 0x1_0000_0000 == address);
    }
}

/// Begins the search for the memory of a jump stub above a module at `base`, `None`
/// where the address space ends before.
pub fn alloc_export_stub(base: u64, granularity: u64) -> (search: Option<NearbySearch>)
    requires
        granularity > 0,
    ensures
        match search {
            Some(begun) => base + EXPORT_REACH <= u64::MAX && begun.around(
                (base + EXPORT_REACH) as u64,
                EXPORT_STUB_LEN,
                granularity,
            ),
            None => base + EXPORT_REACH > u64::MAX,
        },
{
    match base.checked_add(EXPORT_REACH) {
        Some(centre) => TrampolineAlloc::alloc_nearby(centre, EXPORT_STUB_LEN, granularity),
        None => None,
    }
}

/// Every jump stub that a search above a module accepts can be held by an export slot
/// of the module.
pub proof fn lemma_export_stub_is_reachable(
    arch: Arch,
    base: u64,
    search: NearbySearch,
    address: u64,
)
    requires
        base + EXPORT_REACH <= u64::MAX,
        search.limited_by((base + EXPORT_REACH) as u64, EXPORT_STUB_LEN),
        search.holds(address),
    ensures
        reachable_rva(arch, base, address) is Some,
        base < address && address - base + EXPORT_STUB_LEN <= u32::MAX,
{
}

/// What an export slot is to hold: the relative address, and the jump stub to
/// write first where the detour is out of reach.
#[derive(Debug)]
pub struct DetourRva {
    pub rva: u32,
    pub stub: Option<Vec<u8>>,
}

/// Resolves `detour` to what an export slot of a module at `base` can hold.
///
/// `stub` is memory for a jump stub above the base, which is used where the
/// detour itself is out of reach.
pub fn resolve_detour_rva(arch: Arch, base: u64, detour: u64, stub: Option<u64>) -> (resolved:
    Result<DetourRva, EatHookError>)
    ensures
        match reachable_rva(arch, base, detour) {
            Some(rva) => resolved matches Ok(direct) && direct.rva == rva && direct.stub is None,
            None => match stub {
                Some(address) => match reachable_rva(arch, base, address) {
                    Some(rva) => resolved matches Ok(via) && via.rva == rva && (via.stub matches Some(
                        code,
                    ) && code@ == absolute_jump(detour)),
                    None => resolved == Err::<DetourRva, EatHookError>(
                        EatHookError::DetourUnreachable,
                    ),
                },
                None => resolved == Err::<DetourRva, EatHookError>(EatHookError::DetourUnreachable),
            },
        },
{
    match direct_rva(arch, base, detour) {
        Some(rva) => Ok(DetourRva { rva, stub: None }),
        None => match stub {
            Some(address) => match direct_rva(arch, base, address) {
                Some(rva) => Ok(DetourRva { rva, stub: Some(write_abs_jump_stub(detour)) }),
                None => Err(EatHookError::DetourUnreachable),
            },
            None => Err(EatHookError::DetourUnreachable),
        },
    }
}

/// An export hook that is ready to be written.
#[derive(Debug)]
pub struct PreparedEat {
    pub slot: u64,
    pub original_rva: u32,
    pub original_ptr: u64,
    pub detour: DetourRva,
    /// Where the jump stub goes, if there is one.
    pub stub_address: u64,
}

/// An installed export hook.
#[derive(Debug)]
pub struct InstalledEat {
    /// The address of the slot.
    pub slot_ptr: u64,
    /// What the slot held before.
    pub original_rva: u32,
    /// What the slot holds while the hook is enabled.
    pub detour_rva: u32,
    /// The address of the original export.
    pub original_ptr: u64,
    /// The jump stub that keeps the detour within reach.
    pub stub: Option<u64>,
    pub enabled: bool,
}

/// Hooks on export slots.
pub struct EatHook;

impl EatHook {
    /// Prepares the redirection of the export `target_func` of the module that is
    /// mapped at `base` to `detour`. `stub` is memory for a jump stub.
    pub fn prepare(
        arch: Arch,
        mapped: &[u8],
        base: u64,
        target_func: &str,
        detour: u64,
        stub: Option<u64>,
    ) -> (prepared: Result<PreparedEat, EatHookError>)
        ensures
            if base == 0 || detour == 0 {
                prepared == Err::<PreparedEat, EatHookError>(EatHookError::InvalidParameter)
            } else {
                match parsed(arch, mapped@, base) {
                    Err(error) => prepared == Err::<PreparedEat, EatHookError>(image_error(error)),
                    Ok(image) => match export_slot(arch, image, mapped@, target_func@) {
                        Err(error) => prepared == Err::<PreparedEat, EatHookError>(error),
                        Ok(found) => match prepared {
                            Ok(ready) => {
                                &&& ready.slot == found.slot
                                &&& ready.original_rva == found.original_rva
                                &&& ready.original_ptr == arch.displaced(
                                    base,
                                    found.original_rva as int,
                                )
                                &&& match reachable_rva(arch, base, detour) {
                                    Some(rva) => ready.detour.rva == rva && ready.detour.stub
                                        is None,
                                    None => stub == Some(ready.stub_address) && reachable_rva(
                                        arch,
                                        base,
                                        ready.stub_address,
                                    ) == Some(ready.detour.rva) && (ready.detour.stub matches Some(
                                        code,
                                    ) && code@ == absolute_jump(detour)),
                                }
                            },
                            Err(error) => {
                                &&& error == EatHookError::DetourUnreachable
                                &&& reachable_rva(arch, base, detour) is None
                                &&& stub matches Some(address) ==> reachable_rva(
                                    arch,
                                    base,
                                    address,
                                ) is None
                            },
                        },
                    },
                }
            },
    {
        if base == 0 || detour == 0 {
            return Err(EatHookError::InvalidParameter);
        }
        let image = match parse_module_image(arch, mapped, base) {
            Ok(image) => image,
            Err(error) => {
                return Err(EatHookError::from(error));
            },
        };
        let found = match find_export_slot(arch, &image, mapped, target_func) {
            Ok(found) => found,
            Err(error) => {
                return Err(error);
            },
        };
        let resolved = match resolve_detour_rva(arch, base, detour, stub) {
            Ok(resolved) => resolved,
            Err(error) => {
                return Err(error);
            },
        };
        Ok(
            PreparedEat {
                slot: found.slot,
                original_rva: found.original_rva,
                original_ptr: arch.displace(base, found.original_rva as i128),
                detour: resolved,
                stub_address: match stub {
                    Some(address) => address,
                    None => 0,
                },
            },
        )
    }

    /// Turns the finished write of a prepared export slot into the installed
    /// hook.
    pub fn hook_export(prepared: PreparedEat, outcome: Result<(), OsError>) -> (hook: Result<
        InstalledEat,
        EatHookError,
    >)
        ensures
            match outcome {
                Ok(_) => hook matches Ok(installed) && {
                    &&& installed.slot_ptr == prepared.slot
                    &&& installed.original_rva == prepared.original_rva
                    &&& installed.detour_rva == prepared.detour.rva
                    &&& installed.original_ptr == prepared.original_ptr
                    &&& installed.stub == (if prepared.detour.stub is Some {
                        Some(prepared.stub_address)
                    } else {
                        None
                    })
                    &&& installed.enabled
                },
                Err(reason) => hook == Err::<InstalledEat, EatHookError>(
                    EatHookError::ProtectFailed(reason),
                ),
            },
    {
        match outcome {
            Ok(()) => Ok(
                InstalledEat {
                    slot_ptr: prepared.slot,
                    original_rva: prepared.original_rva,
                    detour_rva: prepared.detour.rva,
                    original_ptr: prepared.original_ptr,
                    stub: if prepared.detour.stub.is_some() {
                        Some(prepared.stub_address)
                    } else {
                        None
                    },
                    enabled: true,
                },
            ),
            Err(reason) => Err(EatHookError::ProtectFailed(reason)),
        }
    }

    /// Finds the address of the slot of a named export.
    pub fn find_export_address(arch: Arch, mapped: &[u8], base: u64, target_func: &str) -> (found:
        Result<u64, EatHookError>)
        ensures
            match parsed(arch, mapped@, base) {
                Err(error) => found == Err::<u64, EatHookError>(image_error(error)),
                Ok(image) => match export_slot(arch, image, mapped@, target_func@) {
                    Ok(export) => found == Ok::<u64, EatHookError>(export.slot),
                    Err(error) => found == Err::<u64, EatHookError>(error),
                },
            },
    {
        match parse_module_image(arch, mapped, base) {
            Ok(image) => match find_export_slot(arch, &image, mapped, target_func) {
                Ok(export) => Ok(export.slot),
                Err(error) => Err(error),
            },
            Err(error) => Err(EatHookError::from(error)),
        }
    }

    /// Begins the write of a relative address to an export slot.
    pub fn write_export_rva(slot: u64, rva: u32) -> (write: Result<SlotWrite, EatHookError>)
        ensures
            match write {
                Ok(begun) => {
                    &&& slot != 0
                    &&& begun.wf() && begun.stage == WriteStage::Protecting
                    &&& begun.protect == PAGE_READWRITE
                    &&& begun.slot == slot
                    &&& begun.len == 4
                    &&& begun.value == rva
                    &&& begun.policy == RestorePolicy::Keep
                },
                Err(error) => slot == 0 && error == EatHookError::InvalidParameter,
            },
    {
        if slot == 0 {
            return Err(EatHookError::InvalidParameter);
        }
        Ok(SlotWrite::plain(slot, 4, rva as u64, RestorePolicy::Keep))
    }
}

} // verus!
