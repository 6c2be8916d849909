//! Hooks on import address tables.
use vstd::prelude::*;

use crate::arch::Arch;
use crate::bytes::{read_u32, u32_at};
use crate::introspect::{is_ordinal, ordinal_flag};
use crate::mem::{OsError, RestorePolicy, SlotWrite, WriteStage};
use crate::memory::PAGE_READWRITE;
use crate::pe::{
    c_string, data_directory, directory, image_holds, image_word, in_image, parse_module_image,
    parsed, read_c_string_from_rva, read_image_word, rva_to_ptr, ModuleImage, PeError,
    DIRECTORY_IMPORT,
};
use crate::text::{ascii_lower_text, eq_ignore_ascii_case, same_characters};

verus! {

/// Why an import hook failed.
#[derive(Debug)]
pub enum IatHookError {
    InvalidParameter,
    InvalidPeImage,
    ImportTableUnavailable,
    NameResolutionUnavailable,
    TargetNotFound,
    ProtectFailed(OsError),
}

impl IatHookError {
    /// The text of the error.
    pub open spec fn text(self) -> Seq<char> {
        match self {
            IatHookError::InvalidParameter => "invalid IAT hook parameters"@,
            IatHookError::InvalidPeImage => "invalid PE image"@,
            IatHookError::ImportTableUnavailable => "import table unavailable"@,
            IatHookError::NameResolutionUnavailable => "name resolution unavailable"@,
            IatHookError::TargetNotFound => "target import not found"@,
            IatHookError::ProtectFailed(error) => "failed to change page protection: "@
                + error.message@,
        }
    }

    /// Returns the text of the error.
    pub fn to_string(&self) -> (text: String)
        ensures
            text@ == self.text(),
    {
        match self {
            IatHookError::InvalidParameter => "invalid IAT hook parameters".to_owned(),
            IatHookError::InvalidPeImage => "invalid PE image".to_owned(),
            IatHookError::ImportTableUnavailable => "import table unavailable".to_owned(),
            IatHookError::NameResolutionUnavailable => "name resolution unavailable".to_owned(),
            IatHookError::TargetNotFound => "target import not found".to_owned(),
            IatHookError::ProtectFailed(error) => {
                let mut text: String = "failed to change page protection: ".to_owned();
                text.append(error.message.as_str());
                text
            },
        }
    }
}

/// Why an import hook failed, in detail.
#[derive(Debug)]
pub enum InternalIatHookError {
    NullModule,
    NullDetour,
    InvalidDosHeader,
    InvalidNtHeader,
    InvalidNtSignature,
    InvalidOptionalHeader,
    NoImportDirectory,
    MalformedImportDirectory,
    NameResolutionUnavailable,
    TargetNotFound,
    ProtectFailed(OsError),
}

/// The error that an invalid image gives.
pub open spec fn image_error(error: PeError) -> InternalIatHookError {
    match error {
        PeError::NullModule => InternalIatHookError::NullModule,
        PeError::InvalidDosHeader => InternalIatHookError::InvalidDosHeader,
        PeError::InvalidNtHeader => InternalIatHookError::InvalidNtHeader,
        PeError::InvalidNtSignature => InternalIatHookError::InvalidNtSignature,
        PeError::InvalidOptionalHeader => InternalIatHookError::InvalidOptionalHeader,
    }
}

impl From<PeError> for InternalIatHookError {
    fn from(error: PeError) -> (mapped: InternalIatHookError) {
        match error {
            PeError::NullModule => InternalIatHookError::NullModule,
            PeError::InvalidDosHeader => InternalIatHookError::InvalidDosHeader,
            PeError::InvalidNtHeader => InternalIatHookError::InvalidNtHeader,
            PeError::InvalidNtSignature => InternalIatHookError::InvalidNtSignature,
            PeError::InvalidOptionalHeader => InternalIatHookError::InvalidOptionalHeader,
        }
    }
}

impl vstd::std_specs::convert::FromSpecImpl<PeError> for InternalIatHookError {
    open spec fn obeys_from_spec() -> bool {
        true
    }

    open spec fn from_spec(error: PeError) -> InternalIatHookError {
        image_error(error)
    }
}

/// The public form of an error.
pub open spec fn mapped_error(error: InternalIatHookError) -> IatHookError {
    match error {
        InternalIatHookError::NullModule | InternalIatHookError::NullDetour =>
            IatHookError::InvalidParameter,
        InternalIatHookError::InvalidDosHeader | InternalIatHookError::InvalidNtHeader
        | InternalIatHookError::InvalidNtSignature
        | InternalIatHookError::InvalidOptionalHeader => IatHookError::InvalidPeImage,
        InternalIatHookError::NoImportDirectory
        | InternalIatHookError::MalformedImportDirectory => IatHookError::ImportTableUnavailable,
        InternalIatHookError::NameResolutionUnavailable => IatHookError::NameResolutionUnavailable,
        InternalIatHookError::TargetNotFound => IatHookError::TargetNotFound,
        InternalIatHookError::ProtectFailed(reason) => IatHookError::ProtectFailed(reason),
    }
}

impl From<InternalIatHookError> for IatHookError {
    fn from(error: InternalIatHookError) -> (mapped: IatHookError) {
        match error {
            InternalIatHookError::NullModule | InternalIatHookError::NullDetour => {
                IatHookError::InvalidParameter
            },
            InternalIatHookError::InvalidDosHeader | InternalIatHookError::InvalidNtHeader
            | InternalIatHookError::InvalidNtSignature
            | InternalIatHookError::InvalidOptionalHeader => IatHookError::InvalidPeImage,
            InternalIatHookError::NoImportDirectory
            | InternalIatHookError::MalformedImportDirectory => {
                IatHookError::ImportTableUnavailable
            },
            InternalIatHookError::NameResolutionUnavailable => {
                IatHookError::NameResolutionUnavailable
            },
            InternalIatHookError::TargetNotFound => IatHookError::TargetNotFound,
            InternalIatHookError::ProtectFailed(reason) => IatHookError::ProtectFailed(reason),
        }
    }
}

impl vstd::std_specs::convert::FromSpecImpl<InternalIatHookError> for IatHookError {
    open spec fn obeys_from_spec() -> bool {
        true
    }

    open spec fn from_spec(error: InternalIatHookError) -> IatHookError {
        mapped_error(error)
    }
}

/// Returns the public form of an error.
pub fn map_err(error: InternalIatHookError) -> (mapped: IatHookError)
    ensures
        mapped == mapped_error(error),
{
    IatHookError::from(error)
}

/// The slot of the import `function` among the imports of one module: `slot` and
/// `lookup` are the relative addresses of the next import slot and its lookup
/// entry.
pub open spec fn find_slot(
    arch: Arch,
    image: ModuleImage,
    mapped: Seq<u8>,
    slot: int,
    lookup: int,
    function: Seq<char>,
) -> Result<u64, InternalIatHookError>
    decreases image.size - slot,
{
    let step = arch.spec_pointer_size();
    if !in_image(arch, image, slot, step as int) {
        Err(InternalIatHookError::MalformedImportDirectory)
    } else {
        match image_word(arch, image, mapped, lookup) {
            None => Err(InternalIatHookError::MalformedImportDirectory),
            Some(entry) => if entry == 0 {
                Err(InternalIatHookError::TargetNotFound)
            } else if entry & ordinal_flag(arch) != 0 {
                find_slot(arch, image, mapped, slot + step, lookup + step, function)
            } else {
                match c_string(arch, image, mapped, entry + 2) {
                    None => Err(InternalIatHookError::MalformedImportDirectory),
                    Some(name) => if name == function {
                        Ok((image.base_address + slot) as u64)
                    } else {
                        find_slot(arch, image, mapped, slot + step, lookup + step, function)
                    },
                }
            },
        }
    }
}

/// The slot of the import `function` from the module `dll`, from the descriptor
/// at `descriptor` on; the directory ends at `end`. Module names are compared
/// without regard to the case of ASCII letters.
pub open spec fn find_import(
    arch: Arch,
    image: ModuleImage,
    mapped: Seq<u8>,
    descriptor: int,
    end: int,
    dll: Seq<char>,
    function: Seq<char>,
) -> Result<u64, InternalIatHookError>
    decreases end - descriptor,
{
    if descriptor + 20 > end || !image_holds(arch, image, mapped, descriptor, 20) {
        Err(InternalIatHookError::MalformedImportDirectory)
    } else if u32_at(mapped, descriptor + 12) == 0 {
        Err(InternalIatHookError::TargetNotFound)
    } else {
        match c_string(arch, image, mapped, u32_at(mapped, descriptor + 12) as int) {
            None => Err(InternalIatHookError::MalformedImportDirectory),
            Some(name) => if ascii_lower_text(name) != ascii_lower_text(dll) {
                find_import(arch, image, mapped, descriptor + 20, end, dll, function)
            } else if u32_at(mapped, descriptor + 16) == 0 {
                Err(InternalIatHookError::MalformedImportDirectory)
            } else if u32_at(mapped, descriptor) == 0 {
                Err(InternalIatHookError::NameResolutionUnavailable)
            } else {
                find_slot(
                    arch,
                    image,
                    mapped,
                    u32_at(mapped, descriptor + 16) as int,
                    u32_at(mapped, descriptor) as int,
                    function,
                )
            },
        }
    }
}

/// The slot of the import `function` from the module `dll` in the module that is
/// mapped at `base`.
pub open spec fn import_slot(
    arch: Arch,
    mapped: Seq<u8>,
    base: u64,
    dll: Seq<char>,
    function: Seq<char>,
) -> Result<u64, InternalIatHookError> {
    match parsed(arch, mapped, base) {
        Err(error) => Err(image_error(error)),
        Ok(image) => match directory(arch, image, mapped, DIRECTORY_IMPORT as int) {
            None => Err(InternalIatHookError::NoImportDirectory),
            Some((rva, size)) => find_import(
                arch,
                image,
                mapped,
                rva as int,
                rva + size,
                dll,
                function,
            ),
        },
    }
}

/// Finds the slot of an import among the imports of one module.
fn find_slot_in_table(
    arch: Arch,
    image: &ModuleImage,
    mapped: &[u8],
    slot_rva: u32,
    lookup_rva: u32,
    function: &str,
) -> (found: Result<u64, InternalIatHookError>)
    requires
        image.size <= u32::MAX,
    ensures
        found == find_slot(
            arch,
            *image,
            mapped@,
            slot_rva as int,
            lookup_rva as int,
            function@,
        ),
{
    let step: u64 = arch.pointer_size();
    let mut slot: u64 = slot_rva as u64;
    let mut lookup: u64 = lookup_rva as u64;
    loop
        invariant
            image.size <= u32::MAX,
            step == arch.spec_pointer_size(),
            slot <= u32::MAX + 8,
            lookup <= u32::MAX + 8,
            find_slot(arch, *image, mapped@, slot as int, lookup as int, function@) == find_slot(
                arch,
                *image,
                mapped@,
                slot_rva as int,
                lookup_rva as int,
                function@,
            ),
        decreases
                if slot < image.size {
                    image.size - slot
                } else {
                    0
                },
    {
        let address: u64 = match rva_to_ptr(arch, image, slot, step) {
            Some(address) => address,
            None => {
                return Err(InternalIatHookError::MalformedImportDirectory);
            },
        };
        let entry: u64 = match read_image_word(arch, image, mapped, lookup) {
            Some(entry) => entry,
            None => {
                return Err(InternalIatHookError::MalformedImportDirectory);
            },
        };
        if entry == 0 {
            return Err(InternalIatHookError::TargetNotFound);
        }
        if !is_ordinal(arch, entry) {
            match read_c_string_from_rva(arch, image, mapped, entry + 2) {
                Some(name) => {
                    if same_characters(name.as_str(), function) {
                        return Ok(address);
                    }
                },
                None => {
                    return Err(InternalIatHookError::MalformedImportDirectory);
                },
            }
        }
        slot = slot + step;
        lookup = lookup + step;
    }
}

/// Finds the slot of the import `function` from the module `dll`. The import
/// directory is the `size` bytes at the relative address `rva`.
pub fn find_import_thunk(
    arch: Arch,
    image: &ModuleImage,
    mapped: &[u8],
    rva: u64,
    size: u64,
    dll: &str,
    function: &str,
) -> (found: Result<u64, InternalIatHookError>)
    requires
        image.size <= u32::MAX,
        rva + size <= image.size,
    ensures
        found == find_import(
            arch,
            *image,
            mapped@,
            rva as int,
            rva + size,
            dll@,
            function@,
        ),
{
    let end: u64 = rva + size;
    let mut descriptor: u64 = rva;
    while descriptor + 20 <= end
        invariant
            image.size <= u32::MAX,
            end <= image.size,
            descriptor <= u32::MAX + 20,
            find_import(
                arch,
                *image,
                mapped@,
                descriptor as int,
                end as int,
                dll@,
                function@,
            ) == find_import(arch, *image, mapped@, rva as int, rva + size, dll@, function@),
        decreases
                if descriptor < end {
                    end - descriptor
                } else {
                    0
                },
    {
        if rva_to_ptr(arch, image, descriptor, 20).is_none() || descriptor + 20
            > mapped.len() as u64 {
            return Err(InternalIatHookError::MalformedImportDirectory);
        }
        let at: usize = descriptor as usize;
        let name_rva: u32 = read_u32(mapped, at + 12);
        if name_rva == 0 {
            return Err(InternalIatHookError::TargetNotFound);
        }
        let name = match read_c_string_from_rva(arch, image, mapped, name_rva as u64) {
            Some(name) => name,
            None => {
                return Err(InternalIatHookError::MalformedImportDirectory);
            },
        };
        if eq_ignore_ascii_case(name.as_str(), dll) {
            let slots: u32 = read_u32(mapped, at + 16);
            let lookups: u32 = read_u32(mapped, at);
            if slots == 0 {
                return Err(InternalIatHookError::MalformedImportDirectory);
            }
            if lookups == 0 {
                return Err(InternalIatHookError::NameResolutionUnavailable);
            }
            return find_slot_in_table(arch, image, mapped, slots, lookups, function);
        }
        descriptor = descriptor + 20;
    }
    Err(InternalIatHookError::MalformedImportDirectory)
}

/// Finds the slot of an import in the module that is mapped at `base`.
fn locate_import(arch: Arch, mapped: &[u8], base: u64, dll: &str, function: &str) -> (found: Result<
    u64,
    InternalIatHookError,
>)
    ensures
        found == import_slot(arch, mapped@, base, dll@, function@),
{
    let image = match parse_module_image(arch, mapped, base) {
        Ok(image) => image,
        Err(error) => {
            return Err(InternalIatHookError::from(error));
        },
    };
    match data_directory(arch, &image, mapped, DIRECTORY_IMPORT) {
        Some((rva, size)) => find_import_thunk(arch, &image, mapped, rva, size, dll, function),
        None => Err(InternalIatHookError::NoImportDirectory),
    }
}

/// Hooks on import slots.
pub struct IatHook;

impl IatHook {
    /// Begins the write that points the slot of an import at `detour`: the import
    /// `target_func` from `target_dll` in the module that is mapped at `base`.
    pub fn prepare(
        arch: Arch,
        mapped: &[u8],
        base: u64,
        target_dll: &str,
        target_func: &str,
        detour: u64,
    ) -> (write: Result<SlotWrite, IatHookError>)
        ensures
            match write {
                Ok(begun) => {
                    &&& base != 0 && detour != 0
                    &&& import_slot(arch, mapped@, base, target_dll@, target_func@) == Ok::<
                        u64,
                        InternalIatHookError,
                    >(begun.slot)
                    &&& begun.wf() && begun.stage == WriteStage::Protecting
                    &&& begun.protect == PAGE_READWRITE
                    &&& begun.len == arch.spec_pointer_size()
                    &&& begun.value == detour
                    &&& begun.policy == RestorePolicy::UndoAndRetry
                },
                Err(error) => if base == 0 || detour == 0 {
                    error == IatHookError::InvalidParameter
                } else {
                    import_slot(arch, mapped@, base, target_dll@, target_func@) matches Err(
                        reason,
                    ) && error == mapped_error(reason)
                },
            },
    {
        if base == 0 {
            return Err(map_err(InternalIatHookError::NullModule));
        }
        if detour == 0 {
            return Err(map_err(InternalIatHookError::NullDetour));
        }
        match locate_import(arch, mapped, base, target_dll, target_func) {
            Ok(slot) => Ok(
                SlotWrite::plain(slot, arch.pointer_size(), detour, RestorePolicy::UndoAndRetry),
            ),
            Err(error) => Err(map_err(error)),
        }
    }

    /// Returns the original pointer of an import slot whose write has finished.
    /// On an error the slot holds its original pointer.
    pub fn hook_import(write: SlotWrite) -> (original: Result<u64, IatHookError>)
        requires
            write.wf(),
            write.stage == WriteStage::Finished,
            write.policy == RestorePolicy::UndoAndRetry,
        ensures
            match original {
                Ok(pointer) => write.failure is None && write.stored && pointer == write.original,
                Err(error) => write.failure matches Some(reason) && error
                    == IatHookError::ProtectFailed(reason) && !write.stored,
            },
    {
        match write.failure {
            Some(reason) => Err(map_err(InternalIatHookError::ProtectFailed(reason))),
            None => Ok(write.original),
        }
    }

    /// Finds the address of the slot of a named import.
    pub fn find_import_address(
        arch: Arch,
        mapped: &[u8],
        base: u64,
        target_dll: &str,
        target_func: &str,
    ) -> (found: Result<u64, IatHookError>)
        ensures
            found == (match import_slot(arch, mapped@, base, target_dll@, target_func@) {
                Ok(slot) => Ok::<u64, IatHookError>(slot),
                Err(error) => Err::<u64, IatHookError>(mapped_error(error)),
            }),
    {
        match locate_import(arch, mapped, base, target_dll, target_func) {
            Ok(slot) => Ok(slot),
            Err(error) => Err(map_err(error)),
        }
    }
}

} // verus!
