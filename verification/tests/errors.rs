use blackhole_linux::error::{Error, IoSource};

#[test]
fn io_ctx_preserves_io_error_kind() {
    let raw = IoSource {
        kind: std::io::ErrorKind::NotFound,
        code: None,
        message: "no such file".to_string(),
    };
    let wrapped: Error = Error::io_ctx("opening foo", raw);
    let (kind, text) = wrapped.io_parts();
    let bridged = std::io::Error::new(kind.unwrap_or(std::io::ErrorKind::Other), text);
    assert_eq!(bridged.kind(), std::io::ErrorKind::NotFound);
    assert_eq!(bridged.to_string(), "opening foo: no such file");
}

#[test]
fn display_format_matches_legacy_shape() {
    let raw = IoSource {
        kind: std::io::ErrorKind::PermissionDenied,
        code: None,
        message: "Permission denied".to_string(),
    };
    let e = Error::Io {
        ctx: "cannot open disk image /tmp/foo.img".into(),
        source: raw,
    };
    assert_eq!(
        e.to_string(),
        "cannot open disk image /tmp/foo.img: Permission denied"
    );
}

#[test]
fn display_for_slot_state_is_bare_message() {
    let e = Error::slot_state("l2cpu 2 is already running");
    assert_eq!(e.to_string(), "l2cpu 2 is already running");
}

#[test]
fn display_for_fdt_includes_op_label() {
    let e = Error::fdt("fdt_setprop", "FDT_ERR_NOSPACE");
    assert_eq!(e.to_string(), "fdt: fdt_setprop: FDT_ERR_NOSPACE");
}

#[test]
fn protocol_from_serde_json_auto_converts() {
    let bad = serde_json::from_str::<u32>("not-a-number").unwrap_err();
    let e: Error = bad.into();
    assert!(
        matches!(e, Error::Protocol(_)),
        "expected Protocol variant, got {:?}",
        e
    );
    assert!(e.to_string().starts_with("protocol: "));
    let again = serde_json::from_str::<u32>("not-a-number").unwrap_err();
    assert_eq!(e.to_string(), format!("protocol: {again}"));
    assert!(e.to_string().contains("line 1"));
}

#[test]
fn internal_collapses_to_other_kind_via_io_bridge() {
    let e = Error::internal("invariant violated");
    let (kind, text) = e.io_parts();
    let bridged = std::io::Error::new(kind.unwrap_or(std::io::ErrorKind::Other), text);
    assert_eq!(bridged.kind(), std::io::ErrorKind::Other);
    assert_eq!(bridged.to_string(), "internal: invariant violated");
}

#[test]
fn a_bad_request_is_its_message() {
    assert_eq!(Error::bad_request("no such l2cpu").to_string(), "no such l2cpu");
}
