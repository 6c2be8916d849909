use neohook::arch::Arch;
use neohook::midhook::{build_stub, HookContext, MidHook, Xmm, CONTEXT_SIZE, STUB_CAPACITY};
use neohook::midhook_x86;
use neohook::nearby::Trampoline;
use neohook::DetourError;

fn context() -> HookContext {
    HookContext {
        rflags: 0x0101_0101_0101_0101,
        rax: 2,
        rcx: 3,
        rdx: 4,
        rbx: 5,
        rbp: 6,
        rsi: 7,
        rdi: 8,
        r8: 9,
        r9: 10,
        r10: 11,
        r11: 12,
        r12: 13,
        r13: 14,
        r14: 15,
        r15: 0x1616_1616_1616_1616,
        mxcsr: 0x1F80,
        _reserved: 0,
        xmm: [Xmm {
            low: 0x1122_3344_5566_7788,
            high: 0x99AA_BBCC_DDEE_FF00,
        }; 16],
    }
}

#[test]
fn stub_fits_within_capacity() {
    let bytes = build_stub(0xDEAD_BEEF, 0x2000);
    assert!(
        bytes.len() <= STUB_CAPACITY,
        "stub ({} bytes) must fit in the reserved buffer",
        bytes.len()
    );
    assert!(!bytes.is_empty());

    let bytes = midhook_x86::build_stub(0x1000, 0xDEAD_BEEF, 0x2000);
    assert!(bytes.len() <= STUB_CAPACITY);
    assert!(!bytes.is_empty());
}

#[test]
fn x64_stub_embeds_handler_and_gateway() {
    let handler = 0x1122_3344_5566_7788u64;
    let gateway = 0x99AA_BBCC_DDEE_FF00u64;
    let bytes = build_stub(handler, gateway);

    let movabs = bytes
        .windows(2)
        .position(|w| w == [0x48, 0xB8])
        .expect("mov rax, imm64 present");
    let imm = u64::from_le_bytes(bytes[movabs + 2..movabs + 10].try_into().unwrap());
    assert_eq!(imm, handler);

    let tail = u64::from_le_bytes(bytes[bytes.len() - 8..].try_into().unwrap());
    assert_eq!(tail, gateway);
    assert_eq!(&bytes[bytes.len() - 14..bytes.len() - 8], &[0xFF, 0x25, 0, 0, 0, 0]);

    assert_eq!(
        bytes.windows(4).filter(|w| *w == [0x0F, 0xAE, 0x1C, 0x24]).count(),
        1,
        "exactly one stmxcsr"
    );
    assert_eq!(
        bytes.windows(4).filter(|w| *w == [0x0F, 0xAE, 0x14, 0x24]).count(),
        1,
        "exactly one ldmxcsr"
    );
    assert_eq!(
        bytes.windows(2).filter(|w| *w == [0x0F, 0x11]).count(),
        16,
        "one movups store per XMM register"
    );
    assert_eq!(
        bytes.windows(2).filter(|w| *w == [0x0F, 0x10]).count(),
        16,
        "one movups load per XMM register"
    );
}

#[test]
fn x64_context_layout_matches_stub() {
    let block = context().to_bytes();
    assert_eq!(&block[0..8], &0x0101_0101_0101_0101u64.to_le_bytes());
    assert_eq!(&block[120..128], &0x1616_1616_1616_1616u64.to_le_bytes());
    assert_eq!(&block[128..132], &0x1F80u32.to_le_bytes());
    assert_eq!(&block[136..144], &0x1122_3344_5566_7788u64.to_le_bytes());
    assert_eq!(&block[144..152], &0x99AA_BBCC_DDEE_FF00u64.to_le_bytes());
    assert_eq!(&block[152..160], &0x1122_3344_5566_7788u64.to_le_bytes());
    assert_eq!(block.len(), 136 + 16 * 16);
    assert_eq!(CONTEXT_SIZE, 136 + 16 * 16);
}

#[test]
fn x86_context_layout_matches_stub() {
    let context = midhook_x86::HookContext {
        eflags: 0x0101_0101,
        edi: 2,
        esi: 3,
        ebp: 4,
        esp: 5,
        ebx: 6,
        edx: 7,
        ecx: 8,
        eax: 0x0909_0909,
        mxcsr: 0x1F80,
        xmm: [Xmm { low: 10, high: 11 }; 8],
    };
    let block = context.to_bytes();
    assert_eq!(&block[0..4], &0x0101_0101u32.to_le_bytes());
    assert_eq!(&block[32..36], &0x0909_0909u32.to_le_bytes());
    assert_eq!(&block[36..40], &0x1F80u32.to_le_bytes());
    assert_eq!(&block[40..48], &10u64.to_le_bytes());
    assert_eq!(&block[56..64], &10u64.to_le_bytes());
    assert_eq!(block.len(), 40 + 8 * 16);
    assert_eq!(midhook_x86::CONTEXT_SIZE, 40 + 8 * 16);
}

#[test]
fn x86_stub_encodes_relative_jump_to_gateway() {
    let stub_addr = 0x0040_0000i64;
    let gateway = 0x0050_0000i64;
    let bytes = midhook_x86::build_stub(stub_addr as u64, 0xCAFE, gateway as u64);

    assert_eq!(&bytes[0..3], &[0x83, 0xEC, 0x10], "first op is sub esp, 16");
    assert!(bytes.contains(&0x60), "pushad present");
    assert_eq!(*bytes.last_chunk::<5>().unwrap().first().unwrap(), 0xE9);

    let rel = i32::from_le_bytes(bytes[bytes.len() - 4..].try_into().unwrap()) as i64;
    let next_ip = stub_addr + bytes.len() as i64;
    assert_eq!(next_ip + rel, gateway, "rel32 must resolve to the gateway");
}

#[test]
fn registers_start_at_zero() {
    let zero = Xmm::default();
    assert_eq!((zero.low, zero.high), (0, 0));
}

#[test]
fn a_mid_hook_checks_its_arguments() {
    assert!(matches!(
        MidHook::prepare(0, 0xAA, Some(0x1000)),
        Err(DetourError::InvalidParameter)
    ));
    assert!(matches!(
        MidHook::prepare(0x5000, 0, Some(0x1000)),
        Err(DetourError::InvalidParameter)
    ));
    assert!(matches!(
        MidHook::prepare(0x5000, 0xAA, None),
        Err(DetourError::AllocationFailed)
    ));
    let stub = MidHook::prepare(0x5000, 0xAA, Some(0x1000)).unwrap();
    assert_eq!((stub.ptr, stub.size), (0x1000, STUB_CAPACITY as u64));

    let write = MidHook::write_stub(Arch::X64, &stub, 0xAA, 0xBB).unwrap();
    assert_eq!(write.address, 0x1000);
    assert_eq!(write.bytes, build_stub(0xAA, 0xBB));

    assert!(matches!(
        MidHook::write_stub(Arch::X64, &stub, 0, 0xBB),
        Err(DetourError::InvalidParameter)
    ));

    let small = Trampoline { ptr: 0x1000, size: 16 };
    assert!(matches!(
        MidHook::write_stub(Arch::X86, &small, 0xAA, 0xBB),
        Err(DetourError::AllocationFailed)
    ));
    assert!(matches!(
        MidHook::install(0x5000, stub, Ok(Vec::new())),
        Err(DetourError::InvalidParameter)
    ));
}
