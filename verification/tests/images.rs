use neohook::api::DetourTransaction;
use neohook::arch::Arch;
use neohook::eat::{EatHook, EatHookError};
use neohook::export_sweep::{sweep_module, Stats};
use neohook::iat::{IatHook, IatHookError};
use neohook::introspect::{
    enumerate_exports, enumerate_imports, get_entry_point, wide_to_string, ExportInfo,
};
use neohook::hook::{HookOutcome, HookWrite};
use neohook::mem::{OsError, SlotWrite, WriteEvent, WriteStep};
use neohook::memory::{
    MemoryMap, MemoryRegion, MEM_COMMIT, PAGE_EXECUTE_READ, PAGE_READONLY, PAGE_READWRITE,
};
use neohook::module::get_module_size;
use neohook::pe::{data_directory, parse_module_image, ModuleImage, PeError};
use neohook::scan::{
    scan_module, scan_module_all, scan_module_by_name, scan_range, scan_range_all, FoundModule,
    Pattern,
};
use neohook::transaction::{CommitStep, GatewayRegistry, Hook};
use neohook::vtable::VTableInstanceHook;
use neohook::{DetourError, HookKind};

const BASE: u64 = 0x1_8000_0000;
const SIZE: usize = 0x3000;
const NT: usize = 64;
const OPTIONAL: usize = NT + 24;

fn put16(image: &mut [u8], at: usize, value: u16) {
    image[at..at + 2].copy_from_slice(&value.to_le_bytes());
}

fn put32(image: &mut [u8], at: usize, value: u32) {
    image[at..at + 4].copy_from_slice(&value.to_le_bytes());
}

fn put64(image: &mut [u8], at: usize, value: u64) {
    image[at..at + 8].copy_from_slice(&value.to_le_bytes());
}

fn put_text(image: &mut [u8], at: usize, text: &str) {
    image[at..at + text.len()].copy_from_slice(text.as_bytes());
}

/// Headers that pass every check, and nothing else.
fn valid_image() -> Vec<u8> {
    let mut image = vec![0u8; SIZE];
    put_text(&mut image, 0, "MZ");
    put32(&mut image, 0x3C, NT as u32);
    put_text(&mut image, NT, "PE");
    put16(&mut image, OPTIONAL, 0x20b);
    put32(&mut image, OPTIONAL + 16, 0x1000);
    put32(&mut image, OPTIONAL + 56, SIZE as u32);
    put32(&mut image, OPTIONAL + 108, 16);
    image
}

fn parse(image: &[u8]) -> Result<ModuleImage, PeError> {
    parse_module_image(Arch::X64, image, BASE)
}

/// An image that exports `GetProcAddress`, `GetTickCount`, a forwarder and an
/// ordinal, and imports `Sleep` and an ordinal from `KERNEL32.dll`.
fn system_image() -> Vec<u8> {
    let mut image = valid_image();
    // The export directory.
    put32(&mut image, OPTIONAL + 112, 0x1800);
    put32(&mut image, OPTIONAL + 116, 0x200);
    put32(&mut image, 0x1800 + 16, 5);
    put32(&mut image, 0x1800 + 20, 4);
    put32(&mut image, 0x1800 + 24, 3);
    put32(&mut image, 0x1800 + 28, 0x1840);
    put32(&mut image, 0x1800 + 32, 0x1860);
    put32(&mut image, 0x1800 + 36, 0x1880);
    put32(&mut image, 0x1840, 0x1100);
    put32(&mut image, 0x1844, 0x1200);
    put32(&mut image, 0x1848, 0x1900);
    put32(&mut image, 0x184C, 0x1300);
    put32(&mut image, 0x1860, 0x18A0);
    put32(&mut image, 0x1864, 0x18B0);
    put32(&mut image, 0x1868, 0x18C0);
    put16(&mut image, 0x1880, 2);
    put16(&mut image, 0x1882, 0);
    put16(&mut image, 0x1884, 1);
    put_text(&mut image, 0x18A0, "Forwarded");
    put_text(&mut image, 0x18B0, "GetProcAddress");
    put_text(&mut image, 0x18C0, "GetTickCount");
    put_text(&mut image, 0x1900, "OTHER.Function");
    // The import directory.
    put32(&mut image, OPTIONAL + 120, 0x2000);
    put32(&mut image, OPTIONAL + 124, 0x100);
    put32(&mut image, 0x2000, 0x2100);
    put32(&mut image, 0x2000 + 12, 0x2200);
    put32(&mut image, 0x2000 + 16, 0x2300);
    put_text(&mut image, 0x2200, "KERNEL32.dll");
    put64(&mut image, 0x2100, 0x2240);
    put64(&mut image, 0x2108, 0x8000_0000_0000_0000 | 17);
    put_text(&mut image, 0x2242, "Sleep");
    put64(&mut image, 0x2300, 0x7ff9_1111_0000);
    put64(&mut image, 0x2308, 0x7ff9_2222_0000);
    // Code.
    image[0x1100..0x1108].copy_from_slice(&[0x48, 0x83, 0xEC, 0x28, 0x90, 0x90, 0x90, 0x90]);
    image[0x1200..0x1208].copy_from_slice(&[0xE3, 0x8B, 0x90, 0x90, 0x90, 0x90, 0x90, 0x90]);
    image[0x1300..0x1301].copy_from_slice(&[0x06]);
    image
}

fn map_of(image: &[u8]) -> MemoryMap {
    MemoryMap {
        regions: vec![
            MemoryRegion {
                base: BASE,
                size: 0x1000,
                state: MEM_COMMIT,
                protect: PAGE_READONLY,
                bytes: image[..0x1000].to_vec(),
            },
            MemoryRegion {
                base: BASE + 0x1000,
                size: 0x1000,
                state: MEM_COMMIT,
                protect: PAGE_EXECUTE_READ,
                bytes: image[0x1000..0x2000].to_vec(),
            },
            MemoryRegion {
                base: BASE + 0x2000,
                size: 0x1000,
                state: MEM_COMMIT,
                protect: PAGE_READONLY,
                bytes: image[0x2000..].to_vec(),
            },
        ],
    }
}

#[test]
fn valid_headers_parse() {
    let parsed = parse(&valid_image()).expect("a well-formed image must parse");
    assert_eq!(parsed.base_address, BASE);
    assert_eq!(parsed.size, SIZE as u64);
}

#[test]
fn null_module_is_rejected() {
    assert!(matches!(
        parse_module_image(Arch::X64, &valid_image(), 0),
        Err(PeError::NullModule)
    ));
}

#[test]
fn missing_dos_signature_is_rejected() {
    let mut image = valid_image();
    put16(&mut image, 0, 0);
    assert!(matches!(parse(&image), Err(PeError::InvalidDosHeader)));
}

#[test]
fn non_positive_e_lfanew_is_rejected() {
    for bad in [0i32, -1] {
        let mut image = valid_image();
        put32(&mut image, 0x3C, bad as u32);
        assert!(matches!(parse(&image), Err(PeError::InvalidNtHeader)));
    }
}

#[test]
fn missing_nt_signature_is_rejected() {
    let mut image = valid_image();
    put32(&mut image, NT, 0);
    assert!(matches!(parse(&image), Err(PeError::InvalidNtSignature)));
}

#[test]
fn wrong_optional_header_magic_is_rejected() {
    let mut image = valid_image();
    put16(&mut image, OPTIONAL, !0x20b);
    assert!(matches!(parse(&image), Err(PeError::InvalidOptionalHeader)));
    assert!(matches!(
        parse_module_image(Arch::X86, &valid_image(), 0x40_0000),
        Err(PeError::InvalidOptionalHeader)
    ));
}

#[test]
fn zero_size_of_image_is_rejected() {
    let mut image = valid_image();
    put32(&mut image, OPTIONAL + 56, 0);
    assert!(matches!(parse(&image), Err(PeError::InvalidOptionalHeader)));
}

#[test]
fn get_module_size_returns_plausible_size_for_known_module() {
    let mut image = system_image();
    image.resize(0x2_0000, 0);
    put32(&mut image, OPTIONAL + 56, 0x2_0000);
    let size = get_module_size(&image, BASE);
    assert!(size > 0x10000, "kernel32.dll size looks implausibly small: {size}");
    assert_eq!(size, 0x2_0000);
}

#[test]
fn data_directories_beyond_the_headers_are_absent() {
    let mut image = system_image();
    put32(&mut image, OPTIONAL + 108, u32::MAX);
    let parsed = parse(&image).unwrap();
    assert_eq!(data_directory(Arch::X64, &parsed, &image, 0), Some((0x1800, 0x200)));
    assert_eq!(data_directory(Arch::X64, &parsed, &image, 1), Some((0x2000, 0x100)));
    assert_eq!(data_directory(Arch::X64, &parsed, &image, 2), None);
    // What stands behind the sixteenth directory is not one.
    put32(&mut image, OPTIONAL + 112 + 8 * 16, 0x1800);
    put32(&mut image, OPTIONAL + 116 + 8 * 16, 0x200);
    assert_eq!(data_directory(Arch::X64, &parsed, &image, 16), None);
    assert_eq!(data_directory(Arch::X64, &parsed, &image, usize::MAX), None);
    put32(&mut image, OPTIONAL + 108, 1);
    assert_eq!(data_directory(Arch::X64, &parsed, &image, 1), None);
}

#[test]
fn get_module_size_returns_zero_for_invalid_handles() {
    assert_eq!(
        get_module_size(&valid_image(), 0),
        0,
        "null module handle should return size 0"
    );
    assert_eq!(
        get_module_size(&[0u8; 4], BASE),
        0,
        "non-module address should return size 0"
    );
    assert_eq!(get_module_size(&valid_image(), BASE), SIZE as u32);
}

#[test]
fn introspection_rejects_invalid_module() {
    let fake = [0u8; 4];
    assert!(enumerate_exports(Arch::X64, &fake, BASE).is_err());
    assert!(enumerate_imports(Arch::X64, &fake, BASE).is_err());
    assert!(get_entry_point(Arch::X64, &fake, BASE).is_none());
}

#[test]
fn get_entry_point_is_within_kernel32_image() {
    assert_eq!(
        get_entry_point(Arch::X64, &valid_image(), BASE),
        Some(BASE + 0x1000)
    );
    let mut image = valid_image();
    put32(&mut image, OPTIONAL + 16, 0);
    assert_eq!(get_entry_point(Arch::X64, &image, BASE), None);
}

#[test]
fn enumerate_exports_finds_getprocaddress() {
    let exports = enumerate_exports(Arch::X64, &system_image(), BASE).expect("exports");
    assert_eq!(exports.len(), 4);

    let gpa = exports
        .iter()
        .find(|e| e.name.as_deref() == Some("GetProcAddress"))
        .expect("GetProcAddress should be exported");
    assert_eq!(gpa.address, BASE + 0x1100);
    assert_eq!(gpa.ordinal, 5);
    assert!(gpa.forwarder.is_none(), "GetProcAddress is not a forwarder");

    let forwarded = exports
        .iter()
        .find(|e| e.name.as_deref() == Some("Forwarded"))
        .unwrap();
    assert_eq!(forwarded.forwarder.as_deref(), Some("OTHER.Function"));
    assert_eq!(forwarded.ordinal, 7);

    assert_eq!(exports[3].name, None);
    assert_eq!(exports[3].ordinal, 8);
    assert_eq!(exports[3].address, BASE + 0x1300);
    assert!(enumerate_exports(Arch::X64, &valid_image(), BASE).unwrap().is_empty());
}

#[test]
fn enumerate_imports_of_self_is_non_empty() {
    let imports = enumerate_imports(Arch::X64, &system_image(), BASE).expect("imports");
    assert_eq!(imports.len(), 2);
    assert_eq!(imports[0].dll, "KERNEL32.dll");
    assert_eq!(imports[0].name.as_deref(), Some("Sleep"));
    assert_eq!(imports[0].ordinal, None);
    assert_eq!(imports[0].address, 0x7ff9_1111_0000);
    assert_eq!(imports[1].name, None);
    assert_eq!(imports[1].ordinal, Some(17));
    assert_eq!(imports[1].address, 0x7ff9_2222_0000);
}

#[test]
fn hook_export_rejects_null_module() {
    let err = EatHook::prepare(Arch::X64, &system_image(), 0, "GetTickCount", 0x5000, None);
    assert!(matches!(err, Err(EatHookError::InvalidParameter)));
}

#[test]
fn hook_export_rejects_null_detour() {
    let err = EatHook::prepare(Arch::X64, &system_image(), BASE, "GetTickCount", 0, None);
    assert!(matches!(err, Err(EatHookError::InvalidParameter)));
}

#[test]
fn find_export_address_rejects_missing_export() {
    let err = EatHook::find_export_address(
        Arch::X64,
        &system_image(),
        BASE,
        "DefinitelyNotARealExport_123",
    );
    assert!(matches!(err, Err(EatHookError::TargetNotFound)));
}

#[test]
fn find_export_address_resolves_known_export() {
    let slot = EatHook::find_export_address(Arch::X64, &system_image(), BASE, "GetProcAddress")
        .expect("GetProcAddress should be exported by kernel32");
    assert_eq!(slot, BASE + 0x1840);
}

#[test]
fn find_export_address_rejects_invalid_module() {
    assert!(EatHook::find_export_address(Arch::X64, &[0u8; 4], BASE, "GetProcAddress").is_err());
}

#[test]
fn export_errors_are_told_apart() {
    assert!(matches!(
        EatHook::find_export_address(Arch::X64, &system_image(), BASE, "Forwarded"),
        Err(EatHookError::TargetIsForwarder)
    ));
    assert!(matches!(
        EatHook::find_export_address(Arch::X64, &valid_image(), BASE, "GetProcAddress"),
        Err(EatHookError::ExportTableUnavailable)
    ));
    assert!(matches!(
        EatHook::find_export_address(Arch::X64, &[0u8; 4], BASE, "GetProcAddress"),
        Err(EatHookError::InvalidPeImage)
    ));
    assert!(matches!(
        EatHook::prepare(Arch::X64, &system_image(), BASE, "GetTickCount", 0x5000, None),
        Err(EatHookError::DetourUnreachable)
    ));
    assert_eq!(
        EatHookError::TargetIsForwarder.to_string(),
        "target export is a forwarder, not code"
    );
}

#[test]
fn an_export_is_redirected_directly_or_through_a_stub() {
    let image = system_image();
    let near = EatHook::prepare(Arch::X64, &image, BASE, "GetTickCount", BASE + 0x10_0000, None)
        .unwrap();
    assert_eq!(near.slot, BASE + 0x1844);
    assert_eq!(near.original_rva, 0x1200);
    assert_eq!(near.original_ptr, BASE + 0x1200);
    assert_eq!(near.detour.rva, 0x10_0000);
    assert!(near.detour.stub.is_none());

    let stub = BASE + 0x20_0000;
    let far = EatHook::prepare(Arch::X64, &image, BASE, "GetTickCount", 0x5000, Some(stub)).unwrap();
    assert_eq!(far.detour.rva, 0x20_0000);
    let mut code = vec![0xFF, 0x25, 0, 0, 0, 0];
    code.extend_from_slice(&0x5000u64.to_le_bytes());
    assert_eq!(far.detour.stub.as_ref().unwrap(), &code);

    let hook = EatHook::hook_export(far, Ok(())).unwrap();
    assert_eq!(hook.stub, Some(stub));
    assert!(hook.enabled);
    let refused = OsError { code: 5, message: "denied".to_string() };
    let error = EatHook::hook_export(near, Err(refused)).unwrap_err();
    assert_eq!(error.to_string(), "failed to change page protection: denied");
    assert!(matches!(
        EatHook::write_export_rva(0, 7),
        Err(EatHookError::InvalidParameter)
    ));
}

#[test]
fn imports_are_found_without_regard_to_the_case_of_the_module() {
    let image = system_image();
    assert_eq!(
        IatHook::find_import_address(Arch::X64, &image, BASE, "kernel32.DLL", "Sleep").unwrap(),
        BASE + 0x2300
    );
    assert!(matches!(
        IatHook::find_import_address(Arch::X64, &image, BASE, "kernel32.dll", "sleep"),
        Err(IatHookError::TargetNotFound)
    ));
    assert!(matches!(
        IatHook::find_import_address(Arch::X64, &valid_image(), BASE, "kernel32.dll", "Sleep"),
        Err(IatHookError::ImportTableUnavailable)
    ));
    assert!(matches!(
        IatHook::find_import_address(Arch::X64, &[0u8; 4], BASE, "kernel32.dll", "Sleep"),
        Err(IatHookError::InvalidPeImage)
    ));
    assert!(matches!(
        IatHook::prepare(Arch::X64, &image, BASE, "kernel32.dll", "Sleep", 0),
        Err(IatHookError::InvalidParameter)
    ));
    let mut stripped = system_image();
    put32(&mut stripped, 0x2000, 0);
    assert!(matches!(
        IatHook::find_import_address(Arch::X64, &stripped, BASE, "kernel32.dll", "Sleep"),
        Err(IatHookError::NameResolutionUnavailable)
    ));
    assert_eq!(IatHookError::TargetNotFound.to_string(), "target import not found");
}

#[test]
fn an_import_slot_is_exchanged() {
    let mut image = system_image();
    let mut write =
        IatHook::prepare(Arch::X64, &image, BASE, "kernel32.dll", "Sleep", 0x1234_5678).unwrap();
    let mut steps = 0;
    loop {
        steps += 1;
        assert!(steps < 10);
        let event = match write.step() {
            WriteStep::Query { .. } => WriteEvent::Queried(Ok(PAGE_READONLY)),
            WriteStep::Protect { .. } => WriteEvent::Protected(Ok(PAGE_READONLY)),
            WriteStep::Load { address, .. } => {
                let at = (address - BASE) as usize;
                WriteEvent::Loaded(u64::from_le_bytes(image[at..at + 8].try_into().unwrap()))
            }
            WriteStep::Store { address, value, .. } => {
                put64(&mut image, (address - BASE) as usize, value);
                WriteEvent::Stored
            }
            WriteStep::Done => break,
        };
        write.advance(event);
    }
    assert_eq!(IatHook::hook_import(write).unwrap(), 0x7ff9_1111_0000);
    let imports = enumerate_imports(Arch::X64, &image, BASE).unwrap();
    assert_eq!(imports[0].address, 0x1234_5678);
}

#[test]
fn wide_names_end_at_their_zero() {
    let wide: Vec<u16> = "ntdll.dll\0garbage".encode_utf16().collect();
    assert_eq!(wide_to_string(&wide), "ntdll.dll");
    assert_eq!(wide_to_string(&[0x41, 0xD800, 0]), "A\u{FFFD}");
    assert_eq!(wide_to_string(&[0xD83D, 0xDE00, 0x42]), "\u{1F600}B");
    assert_eq!(wide_to_string(&[0xDBFF, 0xDFFF]), "\u{10FFFF}");
    assert_eq!(wide_to_string(&[0xD83D, 0xD83D, 0xDE00]), "\u{FFFD}\u{1F600}");
    assert_eq!(wide_to_string(&[0xDE00, 0xD83D, 0x42]), "\u{FFFD}\u{FFFD}B");
    assert_eq!(wide_to_string(&[0xD83D, 0, 0xDE00]), "\u{FFFD}");
    assert_eq!(wide_to_string(&[0xE000, 0xFFFF]), "\u{E000}\u{FFFF}");
}

#[test]
fn scan_module_resolves_known_kernel32_prologue() {
    let image = system_image();
    let map = map_of(&image);
    let prologue = &image[0x1100..0x110C];
    let pattern = Pattern { bytes: prologue.to_vec(), mask: vec![true; prologue.len()] };
    assert_eq!(
        scan_module(Arch::X64, &map, &image, BASE, &pattern),
        Some(BASE + 0x1100)
    );
    // The same bytes outside executable memory do not count.
    let name = Pattern::parse("53 6C 65 65 70").unwrap();
    assert_eq!(scan_module(Arch::X64, &map, &image, BASE, &name), None);
    assert_eq!(
        scan_range(Arch::X64, &map, BASE, SIZE as u64, &name),
        Some(BASE + 0x2242)
    );
}

#[test]
fn scan_module_by_name_returns_none_for_absent_signature() {
    let image = system_image();
    let pattern = Pattern::parse("DE AD BE EF DE AD BE EF DE AD BE EF DE AD BE EF").unwrap();
    let module = FoundModule { base: BASE, mapped: &image };
    assert!(scan_module_by_name(Arch::X64, &map_of(&image), Some(module), &pattern).is_none());
}

#[test]
fn scan_module_by_name_handles_missing_module() {
    let pattern = Pattern::parse("90").unwrap();
    assert!(scan_module_by_name(Arch::X64, &map_of(&system_image()), None, &pattern).is_none());
}

#[test]
fn all_matches_are_listed_in_order() {
    let image = system_image();
    let map = map_of(&image);
    let pattern = Pattern::parse("90 90 90 90").unwrap();
    let found = scan_module_all(Arch::X64, &map, &image, BASE, &pattern);
    assert_eq!(found, vec![BASE + 0x1104, BASE + 0x1202, BASE + 0x1203, BASE + 0x1204]);
    assert_eq!(
        scan_range_all(Arch::X64, &map, BASE + 0x1200, 7, &pattern),
        vec![BASE + 0x1202, BASE + 0x1203]
    );
    assert!(scan_range_all(Arch::X64, &map, 0, 7, &pattern).is_empty());
}

#[test]
fn relocation_sweep_over_system_exports() {
    let image = system_image();
    let mut exports = enumerate_exports(Arch::X64, &image, BASE).unwrap();
    exports.push(ExportInfo {
        ordinal: 9,
        name: Some("Data".to_string()),
        address: BASE + 0x2300,
        forwarder: None,
    });
    exports.push(ExportInfo { ordinal: 10, name: None, address: 0, forwarder: None });
    let mut stats = Stats::new();
    sweep_module(
        Arch::X64,
        &map_of(&image),
        "kernel32.dll",
        &exports,
        BASE + 0x1000_0000,
        &mut stats,
    );
    assert_eq!(stats.swept, 2);
    assert_eq!(stats.relocated, 1);
    assert_eq!(stats.refused, 1);
    assert_eq!(stats.skipped_not_code, 1);
    assert_eq!(stats.skipped_undecodable, 1);
    assert_eq!(stats.exceeds_real_budget, 0);
    assert!(
        stats.crashes.is_empty(),
        "relocator crashed on real-world prologues:\n{}",
        stats.crashes.join("\n")
    );
    assert_eq!(stats.refusal_samples.len(), 1);
    assert!(stats.refusal_samples[0].starts_with("kernel32.dll!GetTickCount: Relocation failed: "));
    assert!(stats.refusal_samples[0].ends_with(" (stolen=5, bytes=[E3, 8B, 90, 90, 90])"));
}

/// Performs a slot write on the image.
fn run_slot(image: &mut [u8], write: &mut SlotWrite) {
    loop {
        let event = match write.step() {
            WriteStep::Query { .. } => WriteEvent::Queried(Ok(PAGE_READONLY)),
            WriteStep::Protect { .. } => WriteEvent::Protected(Ok(PAGE_READONLY)),
            WriteStep::Load { address, len } => {
                let at = (address - BASE) as usize;
                let mut bytes = [0u8; 8];
                bytes[..len as usize].copy_from_slice(&image[at..at + len as usize]);
                WriteEvent::Loaded(u64::from_le_bytes(bytes))
            }
            WriteStep::Store { address, len, value } => {
                let at = (address - BASE) as usize;
                image[at..at + len as usize].copy_from_slice(&value.to_le_bytes()[..len as usize]);
                WriteEvent::Stored
            }
            WriteStep::Done => return,
        };
        write.advance(event);
    }
}

fn read64(image: &[u8], at: usize) -> u64 {
    u64::from_le_bytes(image[at..at + 8].try_into().unwrap())
}

/// A transaction with an import, an export and the method of an object, which lies
/// at 0x2800 and has its table at 0x2900.
fn queued(image: &mut [u8]) -> DetourTransaction {
    put64(image, 0x2800, BASE + 0x2900);
    put64(image, 0x2900, BASE + 0x1100);
    put64(image, 0x2908, BASE + 0x1200);
    let mut map = map_of(image);
    map.regions[2].protect = PAGE_READWRITE;
    let mut tx = DetourTransaction::begin(Arch::X64);
    tx.attach_iat(&map, image, BASE, "kernel32.dll", "Sleep", BASE + 0x1500).unwrap();
    tx.attach_eat(image, BASE, "GetTickCount", BASE + 0x1600).unwrap();
    assert!(matches!(
        tx.attach_vtable_instance(&map, BASE + 0x2800, 1, 2, BASE + 0x1700),
        Ok(original) if original == BASE + 0x1200
    ));
    tx
}

/// Runs the commit on the image; the table is cloned to 0x2A00 unless
/// `clone_fails`.
fn commit(
    image: &mut [u8],
    tx: &mut DetourTransaction,
    clone_fails: bool,
) -> Result<Vec<Hook>, (Vec<Hook>, DetourError)> {
    let mut run = tx.commit().unwrap();
    loop {
        let core = tx.inner.as_mut().unwrap();
        let result = match run.step(core) {
            CommitStep::HookImport => {
                let detour = BASE + 0x1500;
                let mut write =
                    IatHook::prepare(Arch::X64, image, BASE, "kernel32.dll", "Sleep", detour)
                        .unwrap();
                let slot = write.slot;
                run_slot(image, &mut write);
                let outcome = IatHook::hook_import(write).map(|original| (slot, original));
                core.import_hooked(&mut run, outcome)
            }
            CommitStep::HookExport => {
                let detour = BASE + 0x1600;
                let prepared =
                    EatHook::prepare(Arch::X64, image, BASE, "GetTickCount", detour, None)
                        .unwrap();
                let mut write =
                    EatHook::write_export_rva(prepared.slot, prepared.detour.rva).unwrap();
                run_slot(image, &mut write);
                let outcome = EatHook::hook_export(prepared, write.outcome());
                core.export_hooked(&mut run, outcome)
            }
            CommitStep::HookInstance => {
                let entries = vec![read64(image, 0x2900), read64(image, 0x2908)];
                let table = VTableInstanceHook::prepare(
                    BASE + 0x2800,
                    BASE + 0x2900,
                    entries,
                    1,
                    BASE + 0x1700,
                )
                .unwrap();
                let clone = if clone_fails { None } else { Some(BASE + 0x2A00) };
                for (at, entry) in table.entries.iter().enumerate() {
                    put64(image, 0x2A00 + 8 * at, *entry);
                }
                let outcome = match VTableInstanceHook::redirect(Arch::X64, &table, clone) {
                    Ok(mut write) => {
                        run_slot(image, &mut write);
                        VTableInstanceHook::install(&table, write)
                    }
                    Err(error) => Err(error),
                };
                core.instance_hooked(&mut run, outcome)
            }
            CommitStep::Finish => return Ok(tx.finish(run).hooks),
            other => panic!("unexpected {other:?}"),
        };
        if let Err(error) = result {
            let mut undo = tx.rollback(run, error);
            let hooks = std::mem::take(&mut undo.hooks);
            return Err((hooks, undo.into_error()));
        }
    }
}

fn unhook(image: &mut [u8], hook: &mut Hook) -> Option<u64> {
    let mut gateways = GatewayRegistry::new();
    let outcome = match hook.perform_unhook(Arch::X64, image).unwrap() {
        HookWrite::Code(write) => panic!("unexpected {write:?}"),
        HookWrite::Slot(mut write) => {
            run_slot(image, &mut write);
            HookOutcome::Slot(write.outcome())
        }
    };
    hook.unhook(&mut gateways, outcome).unwrap()
}

#[test]
fn imports_exports_and_objects_are_hooked_together() {
    let mut image = system_image();
    let mut tx = queued(&mut image);
    let before = image.clone();
    let mut hooks = commit(&mut image, &mut tx, false).expect("commit");

    assert_eq!(read64(&image, 0x2300), BASE + 0x1500);
    assert_eq!(image[0x1844..0x1848], 0x1600u32.to_le_bytes());
    assert_eq!(read64(&image, 0x2800), BASE + 0x2A00);
    assert_eq!(read64(&image, 0x2A00), BASE + 0x1100);
    assert_eq!(read64(&image, 0x2A08), BASE + 0x1700);

    let originals: Vec<u64> = hooks.iter().map(|hook| hook.original_ptr()).collect();
    assert_eq!(originals, vec![0x7ff9_1111_0000, BASE + 0x1200, BASE + 0x1200]);

    let clones: Vec<Option<u64>> =
        hooks.iter_mut().map(|hook| unhook(&mut image, hook)).collect();
    assert_eq!(clones, vec![None, None, Some(BASE + 0x2A00)]);
    assert_eq!(image[..0x2A00], before[..0x2A00]);
}

#[test]
fn a_failed_object_hook_undoes_the_tables() {
    let mut image = system_image();
    let mut tx = queued(&mut image);
    let before = image.clone();
    let (mut hooks, error) = commit(&mut image, &mut tx, true).expect_err("no memory");
    match &error {
        DetourError::CommitFailed { index, kind, source } => {
            assert_eq!((*index, *kind), (2, HookKind::VtableInstance));
            assert!(matches!(**source, DetourError::Vtable(_)));
        }
        other => panic!("unexpected {other:?}"),
    }
    // What was hooked last is undone first.
    assert!(matches!(hooks[..], [Hook::Eat(_), Hook::Iat(_)]));
    for hook in hooks.iter_mut() {
        unhook(&mut image, hook);
    }
    assert_eq!(image[..0x2A00], before[..0x2A00]);
}
