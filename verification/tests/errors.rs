use neohook::{DetourError, HookKind};

#[test]
fn commit_failed_reports_index_kind_and_source() {
    let err = DetourError::CommitFailed {
        index: 2,
        kind: HookKind::Vtable,
        source: Box::new(DetourError::InvalidParameter),
    };

    let msg = err.to_string();
    assert!(
        msg.contains("VTable"),
        "message should name the hook kind: {msg}"
    );
    assert!(
        msg.contains("#2"),
        "message should contain the hook index: {msg}"
    );

    let source = err.source().expect("CommitFailed should expose a source");
    assert_eq!(
        source.to_string(),
        DetourError::InvalidParameter.to_string()
    );
}

#[test]
fn hook_kind_display_names() {
    assert_eq!(HookKind::Inline.to_string(), "inline");
    assert_eq!(HookKind::Iat.to_string(), "IAT");
    assert_eq!(HookKind::Vtable.to_string(), "VTable");
    assert_eq!(HookKind::VtableInstance.to_string(), "per-instance VTable");
}
