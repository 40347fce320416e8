use blackhole_linux::console::{
    can_pop, can_push, decode_descriptor, decode_magic, drain_rx_ring, pop_char, push_char,
    take_key, uart_loop, DescriptorError, KeyAction, LoopEvent, LoopPhase, TerminalRawMode,
    TerminalSettings, UartExit, BUFFER_SIZE, DESCRIPTOR_BYTES, EYE_CATCHER, OFF_RX_BUF,
    OFF_TX_BUF, OFF_VIRTUART_BASE_IN_DESC, VIRTUAL_UART_MAGIC,
};
use blackhole_linux::daemon::purgatory::detect_park_transition;

/// A valid descriptor that points at `virtuart_base`.
fn valid_descriptor(virtuart_base: u64) -> [u8; DESCRIPTOR_BYTES] {
    let mut buf = [0u8; DESCRIPTOR_BYTES];
    buf[..8].copy_from_slice(&EYE_CATCHER);
    buf[OFF_VIRTUART_BASE_IN_DESC..OFF_VIRTUART_BASE_IN_DESC + 8]
        .copy_from_slice(&virtuart_base.to_le_bytes());
    buf
}

#[test]
fn debug_descriptor_has_expected_size_and_virtuart_offset() {
    // eight bytes of eye catcher, a version of four bytes with as much padding, an address
    assert_eq!(8 + 4 + 4 + 8, DESCRIPTOR_BYTES);
    assert_eq!(8 + 4 + 4, OFF_VIRTUART_BASE_IN_DESC);
    let mut buf = valid_descriptor(0);
    buf[16..24].copy_from_slice(&0x0102_0304_0506_0708u64.to_le_bytes());
    assert_eq!(decode_descriptor(&buf), Ok(0x0102_0304_0506_0708));
    assert_eq!(&buf[0..8], b"OSBIdbug");
}

#[test]
fn decode_descriptor_accepts_valid_bytes() {
    let buf = valid_descriptor(0x4000_1234_5678_abc0);
    assert_eq!(decode_descriptor(&buf), Ok(0x4000_1234_5678_abc0));
}

#[test]
fn decode_descriptor_rejects_eye_catcher_at_first_byte() {
    let mut buf = valid_descriptor(0x4000_0000_0000_0000);
    buf[0] = b'X';
    assert_eq!(
        decode_descriptor(&buf),
        Err(DescriptorError::EyeCatcherMismatch {
            offset: 0,
            got: b'X',
            want: b'O',
        })
    );
}

#[test]
fn decode_descriptor_rejects_eye_catcher_at_last_byte() {
    let mut buf = valid_descriptor(0x4000_0000_0000_0000);
    buf[7] = 0x00;
    assert_eq!(
        decode_descriptor(&buf),
        Err(DescriptorError::EyeCatcherMismatch {
            offset: 7,
            got: 0x00,
            want: b'g',
        })
    );
}

#[test]
fn decode_descriptor_rejects_all_zero_eye_catcher_at_offset_zero() {
    let buf = [0u8; DESCRIPTOR_BYTES];
    match decode_descriptor(&buf) {
        Err(DescriptorError::EyeCatcherMismatch { offset: 0, .. }) => {}
        other => panic!("expected EyeCatcherMismatch at offset 0, got {:?}", other),
    }
}

#[test]
fn decode_descriptor_rejects_uninitialized_virtuart_base() {
    let buf = valid_descriptor(!0u64);
    assert_eq!(
        decode_descriptor(&buf),
        Err(DescriptorError::VirtuartBaseUninit)
    );
}

#[test]
fn decode_descriptor_accepts_zero_virtuart_base() {
    let buf = valid_descriptor(0);
    assert_eq!(decode_descriptor(&buf), Ok(0));
}

#[test]
fn park_transition_fires_on_false_to_true_edge() {
    assert!(detect_park_transition(false, true));
}

#[test]
fn park_transition_does_not_fire_when_still_parked() {
    assert!(!detect_park_transition(true, true));
}

#[test]
fn park_transition_does_not_fire_when_steady_running() {
    assert!(!detect_park_transition(false, false));
}

#[test]
fn park_transition_does_not_fire_on_parked_to_running_edge() {
    assert!(!detect_park_transition(true, false));
}

#[test]
fn decode_descriptor_ignores_version_and_padding_bytes() {
    let mut buf = valid_descriptor(0x4000_dead_beef_0000);
    for b in buf.iter_mut().take(16).skip(8) {
        *b = 0xff;
    }
    assert_eq!(decode_descriptor(&buf), Ok(0x4000_dead_beef_0000));
}

#[test]
fn decode_magic_accepts_virtuart_bytes() {
    let bytes = VIRTUAL_UART_MAGIC.to_le_bytes();
    assert_eq!(decode_magic(&bytes), Ok(()));
}

#[test]
fn decode_magic_rejects_all_zero() {
    assert_eq!(decode_magic(&[0u8; 8]), Err(0));
}

#[test]
fn decode_magic_rejects_nonzero_mismatch() {
    let bogus: u64 = 0xdead_beef_cafe_f00d;
    let bytes = bogus.to_le_bytes();
    assert_eq!(decode_magic(&bytes), Err(bogus));
}

#[test]
fn a_ring_gives_back_what_was_pushed() {
    let mut buf = vec![0u8; BUFFER_SIZE as usize];
    let mut head: u32 = BUFFER_SIZE - 2;
    let mut tail: u32 = head;
    assert!(!can_pop(head, tail));
    for b in b"hello" {
        let (at, next) = push_char(head, tail).expect("room");
        buf[at - OFF_RX_BUF] = *b;
        head = next;
    }
    let mut out = Vec::new();
    while can_pop(head, tail) {
        let (at, next) = pop_char(tail);
        out.push(buf[at - OFF_TX_BUF]);
        tail = next;
    }
    assert_eq!(out, b"hello");
}

#[test]
fn a_full_ring_takes_nothing() {
    let head = BUFFER_SIZE - 1;
    assert!(!can_push(head, 0));
    assert_eq!(push_char(head, 0), None);
    assert!(can_push(head, 1));
}

#[test]
fn a_drained_ring_is_empty() {
    let (dropped, tail) = drain_rx_ring(7, 3);
    assert_eq!(dropped, 4);
    assert!(!can_pop(7, tail));
}

#[test]
fn a_held_key_is_sent_with_the_next() {
    assert_eq!(take_key(false, b'a'), (KeyAction::Send(b'a'), false));
    assert_eq!(take_key(false, 1), (KeyAction::Hold, true));
    assert_eq!(take_key(true, b'x').0, KeyAction::Quit);
    assert_eq!(take_key(true, b'b'), (KeyAction::SendHeldAnd(b'b'), false));
}

#[test]
fn a_session_starts_with_the_descriptor() {
    let start = 0x4000_3000_0000;
    let p = uart_loop(start, LoopPhase::ReadPointer, LoopEvent::Pointer(0x1000));
    assert_eq!(p, LoopPhase::ReadDescriptor { at: start + 0x1000 });
    let p = uart_loop(start, p, LoopEvent::Descriptor(Ok(0x5000)));
    assert_eq!(p, LoopPhase::OpenQueues { at: 0x5000 });
    let p = uart_loop(start, p, LoopEvent::Done);
    assert_eq!(p, LoopPhase::CheckExit { held: false });
    assert_eq!(
        uart_loop(start, p, LoopEvent::ExitRequested(true)),
        LoopPhase::Ended(UartExit::Done)
    );
    let p = uart_loop(start, p, LoopEvent::ExitRequested(false));
    assert_eq!(p, LoopPhase::CheckMagic { held: false });
    assert_eq!(
        uart_loop(start, p, LoopEvent::Magic(0)),
        LoopPhase::Ended(UartExit::Retry)
    );
}

#[test]
fn raw_mode_ends_as_it_began() {
    let cooked = TerminalSettings {
        echo: true,
        icanon: true,
        isig: true,
        iexten: true,
        brkint: false,
        inpck: false,
        istrip: false,
        ixon: true,
        icrnl: true,
        opost: true,
        cs8: true,
    };
    let (mode, raw) = TerminalRawMode::new(Some(cooked));
    let raw = raw.unwrap();
    assert!(!raw.echo && !raw.icanon && !raw.isig && !raw.iexten);
    assert!(!raw.brkint && !raw.inpck && !raw.istrip && !raw.ixon && !raw.icrnl);
    assert!(!raw.opost && raw.cs8);
    assert_eq!(mode.end(), Some(cooked));

    let (mode, raw) = TerminalRawMode::new(None);
    assert_eq!(raw, None);
    assert_eq!(mode.end(), None);
}
