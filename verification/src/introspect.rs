//! The modules of a process, with their entry points, exports and imports.
use vstd::prelude::*;

use crate::arch::Arch;
use crate::bytes::{read_u32, u32_at};
use crate::pe::{
    c_string, data_directory, directory, entry_point, entry_point_rva, image_holds, image_u16,
    image_u32, image_word, parse_module_image, parsed, read_c_string_from_rva, read_image_u16,
    read_image_u32, read_image_word, same_text, ModuleImage, PeError, DIRECTORY_EXPORT,
    DIRECTORY_IMPORT,
};

verus! {

/// A module that is loaded in a process.
#[derive(Debug)]
pub struct ModuleInfo {
    /// The address at which the module is mapped.
    pub base: u64,
    /// The size of the module's image.
    pub size: u32,
    /// The file name of the module.
    pub name: String,
}

/// One entry of an export table.
#[derive(Debug)]
pub struct ExportInfo {
    /// The ordinal, biased by the directory's ordinal base.
    pub ordinal: u32,
    /// The name, `None` for an export by ordinal only.
    pub name: Option<String>,
    /// The address of the export.
    pub address: u64,
    /// For a forwarded export, what it is forwarded to.
    pub forwarder: Option<String>,
}

/// One imported function.
#[derive(Debug)]
pub struct ImportInfo {
    /// The name of the module that the function is imported from.
    pub dll: String,
    /// The function's name, `None` for an import by ordinal.
    pub name: Option<String>,
    /// The ordinal, `None` for an import by name.
    pub ordinal: Option<u16>,
    /// The address that the import slot holds.
    pub address: u64,
}

/// What an optional text holds.
pub open spec fn text_view(text: Option<String>) -> Option<Seq<char>> {
    match text {
        Some(t) => Some(t@),
        None => None,
    }
}

/// What an [`ExportInfo`] holds.
#[verifier::ext_equal]
pub struct ExportView {
    pub ordinal: u32,
    pub name: Option<Seq<char>>,
    pub address: u64,
    pub forwarder: Option<Seq<char>>,
}

/// What an [`ImportInfo`] holds.
#[verifier::ext_equal]
pub struct ImportView {
    pub dll: Seq<char>,
    pub name: Option<Seq<char>>,
    pub ordinal: Option<u16>,
    pub address: u64,
}

impl View for ExportInfo {
    type V = ExportView;

    open spec fn view(&self) -> ExportView {
        ExportView {
            ordinal: self.ordinal,
            name: text_view(self.name),
            address: self.address,
            forwarder: text_view(self.forwarder),
        }
    }
}

impl View for ImportInfo {
    type V = ImportView;

    open spec fn view(&self) -> ImportView {
        ImportView {
            dll: self.dll@,
            name: text_view(self.name),
            ordinal: self.ordinal,
            address: self.address,
        }
    }
}

/// The address of a module's entry point.
pub open spec fn entry_address(arch: Arch, mapped: Seq<u8>, base: u64) -> Option<u64> {
    match parsed(arch, mapped, base) {
        Ok(_) => match entry_point(arch, mapped) {
            Some(rva) => Some(arch.displaced(base, rva as int)),
            None => None,
        },
        Err(_) => None,
    }
}

/// Returns the entry point of the module that is mapped at `base`, `None` where
/// the headers are invalid or there is no entry point.
pub fn get_entry_point(arch: Arch, mapped: &[u8], base: u64) -> (entry: Option<u64>)
    ensures
        entry == entry_address(arch, mapped@, base),
{
    match parse_module_image(arch, mapped, base) {
        Ok(_) => match entry_point_rva(arch, mapped) {
            Some(rva) => Some(arch.displace(base, rva as i128)),
            None => None,
        },
        Err(_) => None,
    }
}

/// The parts of an export directory.
#[derive(Clone, Copy, Debug, PartialEq, Eq, Structural)]
pub struct ExportDirectory {
    pub rva: u64,
    pub size: u64,
    pub ordinal_base: u32,
    pub functions: u32,
    pub names: u32,
    pub functions_rva: u64,
    pub names_rva: u64,
    pub name_ordinals_rva: u64,
}

/// The export directory of an image, where it has one.
pub open spec fn export_directory(arch: Arch, image: ModuleImage, mapped: Seq<u8>) -> Option<
    ExportDirectory,
> {
    match directory(arch, image, mapped, DIRECTORY_EXPORT as int) {
        Some((rva, size)) => if image_holds(arch, image, mapped, rva as int, 40) {
            Some(
                ExportDirectory {
                    rva,
                    size,
                    ordinal_base: u32_at(mapped, rva + 16),
                    functions: u32_at(mapped, rva + 20),
                    names: u32_at(mapped, rva + 24),
                    functions_rva: u32_at(mapped, rva + 28) as u64,
                    names_rva: u32_at(mapped, rva + 32) as u64,
                    name_ordinals_rva: u32_at(mapped, rva + 36) as u64,
                },
            )
        } else {
            None
        },
        None => None,
    }
}

/// Returns the export directory of an image, where it has one.
pub fn read_export_directory(arch: Arch, image: &ModuleImage, mapped: &[u8]) -> (found: Option<
    ExportDirectory,
>)
    ensures
        found == export_directory(arch, *image, mapped@),
{
    match data_directory(arch, image, mapped, DIRECTORY_EXPORT) {
        Some((rva, size)) => {
            if crate::pe::rva_to_ptr(arch, image, rva, 40).is_none() || mapped.len() < 40 || rva
                > mapped.len() as u64 - 40 {
                return None;
            }
            let at: usize = rva as usize;
            Some(
                ExportDirectory {
                    rva,
                    size,
                    ordinal_base: read_u32(mapped, at + 16),
                    functions: read_u32(mapped, at + 20),
                    names: read_u32(mapped, at + 24),
                    functions_rva: read_u32(mapped, at + 28) as u64,
                    names_rva: read_u32(mapped, at + 32) as u64,
                    name_ordinals_rva: read_u32(mapped, at + 36) as u64,
                },
            )
        },
        None => None,
    }
}

/// The function that the `index`-th name of an export directory names, with the
/// relative address of the name.
pub open spec fn named_function(
    arch: Arch,
    image: ModuleImage,
    mapped: Seq<u8>,
    dir: ExportDirectory,
    index: int,
) -> Option<(u16, u32)> {
    match image_u32(arch, image, mapped, dir.names_rva + 4 * index) {
        Some(name_rva) => match image_u16(arch, image, mapped, dir.name_ordinals_rva + 2 * index) {
            Some(function) => Some((function, name_rva)),
            None => None,
        },
        None => None,
    }
}

/// The last of the first `upto` names that names the function `function`.
pub open spec fn last_name(
    arch: Arch,
    image: ModuleImage,
    mapped: Seq<u8>,
    dir: ExportDirectory,
    function: int,
    upto: int,
) -> Option<u32>
    decreases upto,
{
    if upto <= 0 {
        None
    } else {
        match named_function(arch, image, mapped, dir, upto - 1) {
            Some((named, name_rva)) => if named == function {
                Some(name_rva)
            } else {
                last_name(arch, image, mapped, dir, function, upto - 1)
            },
            None => last_name(arch, image, mapped, dir, function, upto - 1),
        }
    }
}

/// Whether a relative address points back into the export directory, which makes
/// it a forwarder.
pub open spec fn is_forwarder(dir: ExportDirectory, rva: int) -> bool {
    dir.rva <= rva < dir.rva + dir.size
}

/// The export with function index `function`, where its slot is used.
pub open spec fn export_at(
    arch: Arch,
    image: ModuleImage,
    mapped: Seq<u8>,
    dir: ExportDirectory,
    function: int,
) -> Option<ExportView> {
    match image_u32(arch, image, mapped, dir.functions_rva + 4 * function) {
        Some(rva) => if rva == 0 {
            None
        } else {
            Some(
                ExportView {
                    ordinal: dir.ordinal_base.wrapping_add(function as u32),
                    name: match last_name(
                        arch,
                        image,
                        mapped,
                        dir,
                        function,
                        dir.names as int,
                    ) {
                        Some(name_rva) => c_string(arch, image, mapped, name_rva as int),
                        None => None,
                    },
                    address: arch.displaced(image.base_address, rva as int),
                    forwarder: if is_forwarder(dir, rva as int) {
                        c_string(arch, image, mapped, rva as int)
                    } else {
                        None
                    },
                },
            )
        },
        None => None,
    }
}

/// The exports with a function index below `upto`, in the order of the index.
pub open spec fn exports_upto(
    arch: Arch,
    image: ModuleImage,
    mapped: Seq<u8>,
    dir: ExportDirectory,
    upto: int,
) -> Seq<ExportView>
    decreases upto,
{
    if upto <= 0 {
        Seq::empty()
    } else {
        let before = exports_upto(arch, image, mapped, dir, upto - 1);
        match export_at(arch, image, mapped, dir, upto - 1) {
            Some(export) => before.push(export),
            None => before,
        }
    }
}

/// The exports of an image.
pub open spec fn exports_of(arch: Arch, image: ModuleImage, mapped: Seq<u8>) -> Seq<ExportView> {
    match export_directory(arch, image, mapped) {
        Some(dir) => exports_upto(arch, image, mapped, dir, dir.functions as int),
        None => Seq::empty(),
    }
}

/// Returns for each function of an export directory the relative address of its
/// name.
fn collect_names(arch: Arch, image: &ModuleImage, mapped: &[u8], dir: &ExportDirectory) -> (names:
    Vec<Option<u32>>)
    ensures
        names@.len() == dir.functions,
        forall|k: int|
            0 <= k < names@.len() ==> #[trigger] names@[k] == last_name(
                arch,
                *image,
                mapped@,
                *dir,
                k,
                dir.names as int,
            ),
{
    let mut names: Vec<Option<u32>> = Vec::new();
    let mut k: u32 = 0;
    while k < dir.functions
        invariant
            k <= dir.functions,
            names@.len() == k,
            forall|j: int| 0 <= j < k ==> #[trigger] names@[j] is None,
        decreases dir.functions - k,
    {
        names.push(None);
        k = k + 1;
    }
    let mut i: u32 = 0;
    while i < dir.names
        invariant
            i <= dir.names,
            names@.len() == dir.functions,
            forall|j: int|
                0 <= j < names@.len() ==> #[trigger] names@[j] == last_name(
                    arch,
                    *image,
                    mapped@,
                    *dir,
                    j,
                    i as int,
                ),
        decreases dir.names - i,
    {
        let name_rva = read_element_u32(arch, image, mapped, dir.names_rva, i);
        let function = read_element_u16(arch, image, mapped, dir.name_ordinals_rva, i);
        match (name_rva, function) {
            (Some(rva), Some(index)) => {
                if (index as u32) < dir.functions {
                    names.set(index as usize, Some(rva));
                }
            },
            _ => {},
        }
        i = i + 1;
    }
    names
}

/// Reads the `index`-th 32-bit value of the array at the relative address `rva`.
pub fn read_element_u32(arch: Arch, image: &ModuleImage, mapped: &[u8], rva: u64, index: u32) -> (
value: Option<u32>)
    ensures
        value == image_u32(arch, *image, mapped@, rva + 4 * index),
{
    match rva.checked_add(4 * (index as u64)) {
        Some(at) => read_image_u32(arch, image, mapped, at),
        None => None,
    }
}

/// Reads the `index`-th 16-bit value of the array at the relative address `rva`.
pub fn read_element_u16(arch: Arch, image: &ModuleImage, mapped: &[u8], rva: u64, index: u32) -> (
value: Option<u16>)
    ensures
        value == image_u16(arch, *image, mapped@, rva + 2 * index),
{
    match rva.checked_add(2 * (index as u64)) {
        Some(at) => read_image_u16(arch, image, mapped, at),
        None => None,
    }
}

/// Enumerates the exports of the module that is mapped at `base`. A module
/// without exports gives an empty list.
pub fn enumerate_exports(arch: Arch, mapped: &[u8], base: u64) -> (exports: Result<
    Vec<ExportInfo>,
    PeError,
>)
    ensures
        match exports {
            Ok(list) => parsed(arch, mapped@, base) matches Ok(image) && list@.map_values(
                |export: ExportInfo| export@,
            ) == exports_of(arch, image, mapped@),
            Err(error) => parsed(arch, mapped@, base) == Err::<ModuleImage, PeError>(error),
        },
{
    let image = match parse_module_image(arch, mapped, base) {
        Ok(image) => image,
        Err(error) => {
            return Err(error);
        },
    };
    let mut exports: Vec<ExportInfo> = Vec::new();
    assert(exports@.map_values(|export: ExportInfo| export@) =~= Seq::<ExportView>::empty());
    let dir = match read_export_directory(arch, &image, mapped) {
        Some(dir) => dir,
        None => {
            return Ok(exports);
        },
    };
    let names = collect_names(arch, &image, mapped, &dir);
    let mut function: u32 = 0;
    while function < dir.functions
        invariant
            function <= dir.functions,
            names@.len() == dir.functions,
            forall|k: int|
                0 <= k < names@.len() ==> #[trigger] names@[k] == last_name(
                    arch,
                    image,
                    mapped@,
                    dir,
                    k,
                    dir.names as int,
                ),
            exports@.map_values(|export: ExportInfo| export@) == exports_upto(
                arch,
                image,
                mapped@,
                dir,
                function as int,
            ),
        decreases dir.functions - function,
    {
        let ghost before = exports@;
        match read_element_u32(arch, &image, mapped, dir.functions_rva, function) {
            Some(rva) => {
                if rva != 0 {
                    let name = match names[function as usize] {
                        Some(name_rva) => read_c_string_from_rva(
                            arch,
                            &image,
                            mapped,
                            name_rva as u64,
                        ),
                        None => None,
                    };
                    let forwarder = if rva as u64 >= dir.rva && (rva as u64) - dir.rva < dir.size {
                        read_c_string_from_rva(arch, &image, mapped, rva as u64)
                    } else {
                        None
                    };
                    let export = ExportInfo {
                        ordinal: dir.ordinal_base.wrapping_add(function),
                        name,
                        address: arch.displace(image.base_address, rva as i128),
                        forwarder,
                    };
                    assert(export@ == export_at(arch, image, mapped@, dir, function as int)->0);
                    exports.push(export);
                    assert(exports@.map_values(|export: ExportInfo| export@)
                        =~= before.map_values(|export: ExportInfo| export@).push(export@));
                }
            },
            None => {},
        }
        function = function + 1;
    }
    Ok(exports)
}

/// The bit of a lookup entry that marks an import by ordinal.
pub open spec fn ordinal_flag(arch: Arch) -> u64 {
    match arch {
        Arch::X86 => 0x8000_0000,
        Arch::X64 => 0x8000_0000_0000_0000,
    }
}

/// Returns whether a lookup entry marks an import by ordinal.
pub fn is_ordinal(arch: Arch, lookup: u64) -> (ordinal: bool)
    ensures
        ordinal == (lookup & ordinal_flag(arch) != 0),
        !ordinal && (arch == Arch::X86 ==> lookup <= u32::MAX) ==> lookup <= u64::MAX - 2,
{
    proof {
        assert(lookup & 0x8000_0000_0000_0000 == 0 ==> lookup < 0x8000_0000_0000_0000)
            by (bit_vector);
    }
    match arch {
        Arch::X86 => lookup & 0x8000_0000 != 0,
        Arch::X64 => lookup & 0x8000_0000_0000_0000 != 0,
    }
}

/// The imports of one module from the lookup entry at `lookup_at` on, whose slot
/// is at `slot_at`, up to the zero entry that ends the table.
pub open spec fn imports_from_table(
    arch: Arch,
    image: ModuleImage,
    mapped: Seq<u8>,
    dll: Seq<char>,
    lookup_at: int,
    slot_at: int,
) -> Seq<ImportView>
    decreases image.size - lookup_at,
{
    match image_word(arch, image, mapped, lookup_at) {
        Some(lookup) => if lookup == 0 {
            Seq::empty()
        } else {
            let by_ordinal = lookup & ordinal_flag(arch) != 0;
            let import = ImportView {
                dll,
                name: if by_ordinal {
                    None
                } else {
                    c_string(arch, image, mapped, lookup + 2)
                },
                ordinal: if by_ordinal {
                    Some((lookup & 0xFFFF) as u16)
                } else {
                    None
                },
                address: match image_word(arch, image, mapped, slot_at) {
                    Some(address) => address,
                    None => 0,
                },
            };
            seq![import] + imports_from_table(
                arch,
                image,
                mapped,
                dll,
                lookup_at + arch.spec_pointer_size(),
                slot_at + arch.spec_pointer_size(),
            )
        },
        None => Seq::empty(),
    }
}

/// The imports of an image from the descriptor at `descriptor` on.
pub open spec fn imports_from(
    arch: Arch,
    image: ModuleImage,
    mapped: Seq<u8>,
    descriptor: int,
) -> Seq<ImportView>
    decreases image.size - descriptor,
{
    if !image_holds(arch, image, mapped, descriptor, 20) || u32_at(mapped, descriptor + 12) == 0 {
        Seq::empty()
    } else {
        match c_string(arch, image, mapped, u32_at(mapped, descriptor + 12) as int) {
            Some(dll) => {
                let original = u32_at(mapped, descriptor);
                let first = u32_at(mapped, descriptor + 16);
                let lookup = if original != 0 {
                    original
                } else {
                    first
                };
                let here = if lookup != 0 {
                    imports_from_table(
                        arch,
                        image,
                        mapped,
                        dll,
                        lookup as int,
                        first as int,
                    )
                } else {
                    Seq::empty()
                };
                here + imports_from(arch, image, mapped, descriptor + 20)
            },
            None => Seq::empty(),
        }
    }
}

/// The imports of an image.
pub open spec fn imports_of(arch: Arch, image: ModuleImage, mapped: Seq<u8>) -> Seq<ImportView> {
    match directory(arch, image, mapped, DIRECTORY_IMPORT as int) {
        Some((rva, _)) => imports_from(arch, image, mapped, rva as int),
        None => Seq::empty(),
    }
}

/// Collects the imports of one module from its lookup table and import slots.
fn collect_imports(
    arch: Arch,
    image: &ModuleImage,
    mapped: &[u8],
    dll: &String,
    lookup_rva: u32,
    slot_rva: u32,
    imports: &mut Vec<ImportInfo>,
)
    requires
        image.size <= u32::MAX,
    ensures
        final(imports)@.map_values(|import: ImportInfo| import@) == old(imports)@.map_values(
            |import: ImportInfo| import@,
        ) + imports_from_table(
            arch,
            *image,
            mapped@,
            dll@,
            lookup_rva as int,
            slot_rva as int,
        ),
{
    let step: u64 = arch.pointer_size();
    let mut offset: u64 = 0;
    let ghost all = imports_from_table(
        arch,
        *image,
        mapped@,
        dll@,
        lookup_rva as int,
        slot_rva as int,
    );
    let ghost start = imports@.map_values(|import: ImportInfo| import@);
    assert(start + all =~= imports@.map_values(|import: ImportInfo| import@) + all);
    loop
        invariant
            image.size <= u32::MAX,
            step == arch.spec_pointer_size(),
            offset <= u32::MAX + 8,
            start + all == imports@.map_values(|import: ImportInfo| import@) + imports_from_table(
                arch,
                *image,
                mapped@,
                dll@,
                lookup_rva + offset,
                slot_rva + offset,
            ),
            start + all == old(imports)@.map_values(|import: ImportInfo| import@)
                + imports_from_table(
                arch,
                *image,
                mapped@,
                dll@,
                lookup_rva as int,
                slot_rva as int,
            ),
        decreases
                if lookup_rva + offset < image.size {
                    image.size - (lookup_rva + offset)
                } else {
                    0
                },
    {
        let lookup: u64 = match read_image_word(arch, image, mapped, lookup_rva as u64 + offset) {
            Some(lookup) => lookup,
            None => {
                assert(imports@.map_values(|import: ImportInfo| import@) =~= start + all);
                return;
            },
        };
        if lookup == 0 {
            assert(imports@.map_values(|import: ImportInfo| import@) =~= start + all);
            return;
        }
        let address: u64 = match read_image_word(arch, image, mapped, slot_rva as u64 + offset) {
            Some(address) => address,
            None => 0,
        };
        let by_ordinal: bool = is_ordinal(arch, lookup);
        let name = if by_ordinal {
            None
        } else {
            read_c_string_from_rva(arch, image, mapped, lookup + 2)
        };
        let ordinal: Option<u16> = if by_ordinal {
            Some((lookup & 0xFFFF) as u16)
        } else {
            None
        };
        let import = ImportInfo { dll: dll.clone(), name, ordinal, address };
        let ghost before = imports@;
        let ghost rest = imports_from_table(
            arch,
            *image,
            mapped@,
            dll@,
            lookup_rva + offset + step,
            slot_rva + offset + step,
        );
        assert(imports_from_table(
            arch,
            *image,
            mapped@,
            dll@,
            lookup_rva + offset,
            slot_rva + offset,
        ) =~= seq![import@] + rest);
        imports.push(import);
        assert(imports@.map_values(|import: ImportInfo| import@) =~= before.map_values(
            |import: ImportInfo| import@,
        ).push(import@));
        assert(before.map_values(|import: ImportInfo| import@) + (seq![import@] + rest)
            =~= imports@.map_values(|import: ImportInfo| import@) + rest);
        offset = offset + step;
    }
}

/// Enumerates the imports of the module that is mapped at `base`. A module
/// without imports gives an empty list.
pub fn enumerate_imports(arch: Arch, mapped: &[u8], base: u64) -> (imports: Result<
    Vec<ImportInfo>,
    PeError,
>)
    ensures
        match imports {
            Ok(list) => parsed(arch, mapped@, base) matches Ok(image) && list@.map_values(
                |import: ImportInfo| import@,
            ) == imports_of(arch, image, mapped@),
            Err(error) => parsed(arch, mapped@, base) == Err::<ModuleImage, PeError>(error),
        },
{
    let image = match parse_module_image(arch, mapped, base) {
        Ok(image) => image,
        Err(error) => {
            return Err(error);
        },
    };
    let mut imports: Vec<ImportInfo> = Vec::new();
    assert(imports@.map_values(|import: ImportInfo| import@) =~= Seq::<ImportView>::empty());
    let mut descriptor: u64 = match data_directory(arch, &image, mapped, DIRECTORY_IMPORT) {
        Some((rva, _)) => rva,
        None => {
            return Ok(imports);
        },
    };
    let ghost all = imports_of(arch, image, mapped@);
    assert(all =~= imports@.map_values(|import: ImportInfo| import@) + imports_from(
        arch,
        image,
        mapped@,
        descriptor as int,
    ));
    while crate::pe::rva_to_ptr(arch, &image, descriptor, 20).is_some() && descriptor + 20
        <= mapped.len() as u64
        invariant
            image.size <= u32::MAX,
            parsed(arch, mapped@, base) == Ok::<ModuleImage, PeError>(image),
            all == imports_of(arch, image, mapped@),
            all == imports@.map_values(|import: ImportInfo| import@) + imports_from(
                arch,
                image,
                mapped@,
                descriptor as int,
            ),
        decreases
                if descriptor < image.size {
                    image.size - descriptor
                } else {
                    0
                },
    {
        let at: usize = descriptor as usize;
        let name_rva: u32 = read_u32(mapped, at + 12);
        if name_rva == 0 {
            assert(all =~= imports@.map_values(|import: ImportInfo| import@));
            return Ok(imports);
        }
        let dll = match read_c_string_from_rva(arch, &image, mapped, name_rva as u64) {
            Some(dll) => dll,
            None => {
                assert(all =~= imports@.map_values(|import: ImportInfo| import@));
                return Ok(imports);
            },
        };
        let original: u32 = read_u32(mapped, at);
        let first: u32 = read_u32(mapped, at + 16);
        let lookup: u32 = if original != 0 {
            original
        } else {
            first
        };
        let ghost before = imports@;
        if lookup != 0 {
            collect_imports(arch, &image, mapped, &dll, lookup, first, &mut imports);
        }
        proof {
            let here = if lookup != 0 {
                imports_from_table(arch, image, mapped@, dll@, lookup as int, first as int)
            } else {
                Seq::empty()
            };
            let rest = imports_from(arch, image, mapped@, descriptor + 20);
            assert(imports_from(arch, image, mapped@, descriptor as int) == here + rest);
            assert(imports@.map_values(|import: ImportInfo| import@) =~= before.map_values(
                |import: ImportInfo| import@,
            ) + here);
            assert(before.map_values(|import: ImportInfo| import@) + (here + rest)
                =~= imports@.map_values(|import: ImportInfo| import@) + rest);
        }
        descriptor = descriptor + 20;
    }
    assert(all =~= imports@.map_values(|import: ImportInfo| import@));
    Ok(imports)
}

/// Whether a 16-bit unit is the first half of a pair of surrogates.
pub open spec fn leads(unit: u16) -> bool {
    0xD800 <= unit < 0xDC00
}

/// Whether a 16-bit unit is the second half of a pair of surrogates.
pub open spec fn trails(unit: u16) -> bool {
    0xDC00 <= unit < 0xE000
}

/// The text of UTF-16 units from `at` on: a unit that is no surrogate stands for
/// itself, a pair of surrogates for one character beyond 16 bits, and a surrogate
/// without its other half for the replacement character.
pub open spec fn lossy_text(units: Seq<u16>, at: int) -> Seq<char>
    decreases units.len() - at,
{
    if at < 0 || at >= units.len() {
        Seq::empty()
    } else if !leads(units[at]) && !trails(units[at]) {
        seq![units[at] as char] + lossy_text(units, at + 1)
    } else if leads(units[at]) && at + 1 < units.len() && trails(units[at + 1]) {
        let code = 0x10000 + (units[at] - 0xD800) * 0x400 + (units[at + 1] - 0xDC00);
        seq![code as char] + lossy_text(units, at + 2)
    } else {
        seq!['\u{FFFD}'] + lossy_text(units, at + 1)
    }
}

/// Turns UTF-16 units into text with `String::from_utf16_lossy`.
///
/// Claimed of it: it decodes the units, and puts the replacement character in the
/// place of each surrogate that is not part of a pair.
#[verifier::external_body]
fn text_from_utf16(units: &[u16]) -> (text: String)
    ensures
        text@ == lossy_text(units@, 0),
{
    String::from_utf16_lossy(units)
}

/// The number of units before the first zero unit.
pub open spec fn wide_len(buffer: Seq<u16>, at: int) -> int
    decreases buffer.len() - at,
{
    if at < 0 || at >= buffer.len() || buffer[at] == 0 {
        at
    } else {
        wide_len(buffer, at + 1)
    }
}

/// Returns the number of units before the first zero unit.
pub fn wide_length(buffer: &[u16]) -> (len: usize)
    ensures
        len == wide_len(buffer@, 0),
        len <= buffer@.len(),
{
    let mut i: usize = 0;
    while i < buffer.len() && buffer[i] != 0
        invariant
            i <= buffer@.len(),
            wide_len(buffer@, i as int) == wide_len(buffer@, 0),
        decreases buffer@.len() - i,
    {
        i = i + 1;
    }
    i
}

/// Turns a zero-padded buffer of 16-bit units into text.
pub fn wide_to_string(buffer: &[u16]) -> (text: String)
    ensures
        text@ == lossy_text(buffer@.subrange(0, wide_len(buffer@, 0)), 0),
{
    let len: usize = wide_length(buffer);
    text_from_utf16(vstd::slice::slice_subrange(buffer, 0, len))
}

} // verus!
