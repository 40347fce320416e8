use blackhole_linux::daemon::sigbus::{
    exit_status, handle_chip_fault, write_hex_u64, ChipRanges, FaultSignal, MSG_SIGBUS_CHIP,
    MSG_SIGBUS_NONCHIP, MSG_SIGSEGV_CHIP, MSG_SIGSEGV_NONCHIP, MSG_UNKNOWN,
};

#[test]
fn message_prefixes_have_correct_tails() {
    for (name, msg, want_0x) in [
        ("SIGBUS_CHIP", MSG_SIGBUS_CHIP, true),
        ("SIGSEGV_CHIP", MSG_SIGSEGV_CHIP, true),
        ("SIGBUS_NONCHIP", MSG_SIGBUS_NONCHIP, true),
        ("SIGSEGV_NONCHIP", MSG_SIGSEGV_NONCHIP, true),
        ("UNKNOWN", MSG_UNKNOWN, false),
    ] {
        let msg = msg.as_bytes();
        if want_0x {
            assert!(
                msg.ends_with(b"0x"),
                "{} should end with '0x' so hex appends cleanly",
                name
            );
        } else {
            assert_eq!(
                msg.last(),
                Some(&b'\n'),
                "{} (no hex appended) must end with newline",
                name
            );
        }
    }
}

#[test]
fn write_hex_u64_zero() {
    let mut buf = [0u8; 16];
    let n = write_hex_u64(0, &mut buf);
    assert_eq!(n, 16);
    assert_eq!(&buf, b"0000000000000000");
}

#[test]
fn write_hex_u64_max() {
    let mut buf = [0u8; 16];
    write_hex_u64(u64::MAX, &mut buf);
    assert_eq!(&buf, b"ffffffffffffffff");
}

#[test]
fn write_hex_u64_arbitrary() {
    let mut buf = [0u8; 16];
    write_hex_u64(0xdeadbeefcafe1234, &mut buf);
    assert_eq!(&buf, b"deadbeefcafe1234");
}

#[test]
fn chip_range_registration_round_trip() {
    let mut ranges = ChipRanges::new();
    let base: usize = 0xf000_0000_0000usize;
    let len = 4096usize;
    ranges.register_chip_range(base, len);

    assert!(ranges.addr_is_in_chip_range(base));
    assert!(ranges.addr_is_in_chip_range(base + 100));
    assert!(ranges.addr_is_in_chip_range(base + len - 1));
    assert!(!ranges.addr_is_in_chip_range(base + len));
    assert!(!ranges.addr_is_in_chip_range(0xdead_dead_dead));

    ranges.unregister_chip_range(base);
    assert!(!ranges.addr_is_in_chip_range(base));
}

#[test]
fn an_empty_range_covers_nothing() {
    let mut ranges = ChipRanges::new();
    ranges.register_chip_range(0x1000, 0);
    assert!(!ranges.addr_is_in_chip_range(0x1000));
}

#[test]
fn a_fault_is_blamed_on_the_chip_only_in_its_ranges() {
    let mut ranges = ChipRanges::new();
    ranges.register_chip_range(0x1000, 0x100);
    assert_eq!(
        handle_chip_fault(FaultSignal::Bus, 0x1010, &ranges),
        (MSG_SIGBUS_CHIP, true)
    );
    assert_eq!(
        handle_chip_fault(FaultSignal::Segv, 0x1010, &ranges),
        (MSG_SIGSEGV_CHIP, true)
    );
    assert_eq!(
        handle_chip_fault(FaultSignal::Bus, 0x1100, &ranges),
        (MSG_SIGBUS_NONCHIP, true)
    );
    assert_eq!(
        handle_chip_fault(FaultSignal::Segv, 0, &ranges),
        (MSG_SIGSEGV_NONCHIP, true)
    );
    assert_eq!(
        handle_chip_fault(FaultSignal::Other, 0x1010, &ranges),
        (MSG_UNKNOWN, false)
    );
    assert_eq!(exit_status(7), 135);
}
