use neohook::scan::{scan, scan_all, Pattern, PatternError};

#[test]
fn parse_ida_style_with_wildcards() {
    let pat = Pattern::parse("48 8B ?? ?? E8").expect("valid signature");
    assert_eq!(pat.len(), 5);
    assert_eq!(pat.bytes, vec![0x48, 0x8B, 0, 0, 0xE8]);
    assert_eq!(pat.mask, vec![true, true, false, false, true]);
}

#[test]
fn parse_accepts_single_nibble_and_lowercase() {
    let pat = Pattern::parse("8 ab CD").expect("valid signature");
    assert_eq!(pat.bytes, vec![0x08, 0xAB, 0xCD]);
    assert!(pat.mask.iter().all(|&m| m));
}

#[test]
fn parse_rejects_empty_and_garbage() {
    assert_eq!(Pattern::parse("   "), Err(PatternError::Empty));
    assert!(matches!(
        Pattern::parse("48 ZZ"),
        Err(PatternError::InvalidToken(_))
    ));
    assert!(matches!(
        Pattern::parse("48 8BB"),
        Err(PatternError::InvalidToken(_))
    ));
}

#[test]
fn from_code_style_matches_ida_equivalent() {
    let code = Pattern::from_code_style(b"\x48\x8B\x00\x00\xE8", "xx??x").unwrap();
    let ida = Pattern::parse("48 8B ?? ?? E8").unwrap();
    assert_eq!(code, ida);
}

#[test]
fn from_code_style_validates_inputs() {
    assert_eq!(
        Pattern::from_code_style(b"", "").unwrap_err(),
        PatternError::Empty
    );
    assert!(matches!(
        Pattern::from_code_style(b"\x48", "xx"),
        Err(PatternError::MaskLengthMismatch { bytes: 1, mask: 2 })
    ));
    assert!(matches!(
        Pattern::from_code_style(b"\x48", "y"),
        Err(PatternError::InvalidMaskChar('y'))
    ));
}

#[test]
fn scan_finds_first_and_all_with_wildcards() {
    let haystack = [0x90u8, 0x48, 0x8B, 0xC1, 0xE8, 0x48, 0x8B, 0xD2, 0xE8];
    let pat = Pattern::parse("48 8B ?? E8").unwrap();

    assert_eq!(scan(&haystack, &pat), Some(1));
    assert_eq!(scan_all(&haystack, &pat), vec![1, 5]);
}

#[test]
fn scan_returns_none_when_absent_or_too_short() {
    let haystack = [0x00u8, 0x11, 0x22];
    let pat = Pattern::parse("48 8B").unwrap();
    assert_eq!(scan(&haystack, &pat), None);

    let short = [0x48u8];
    assert_eq!(scan(&short, &pat), None);
}
