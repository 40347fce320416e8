use blackhole_linux::daemon::log::{format_offset, ts_prefix, LocalTime};
use blackhole_linux::daemon::terminal::{advance_esc, reader_loop, EscDecision, EscState, Writer};

#[test]
fn utc_renders_as_z() {
    assert_eq!(format_offset(0), "Z");
}

#[test]
fn positive_offsets() {
    assert_eq!(format_offset(2 * 3600), "+02:00");
    assert_eq!(format_offset(5 * 3600 + 30 * 60), "+05:30");
    assert_eq!(format_offset(14 * 3600), "+14:00");
}

#[test]
fn negative_offsets() {
    assert_eq!(format_offset(-8 * 3600), "-08:00");
    assert_eq!(format_offset(-(3 * 3600 + 30 * 60)), "-03:30");
}

#[test]
fn a_line_says_when_and_by_whom() {
    let t = LocalTime {
        year: 2026,
        month: 3,
        day: 9,
        hour: 7,
        minute: 5,
        second: 1,
        millis: 42,
        gmtoff_secs: 3600,
    };
    assert_eq!(
        ts_prefix(&t, 17, 18),
        "[2026-03-09T07:05:01.042+01:00 pid=17 tid=18]"
    );
}

fn run_replay_mode(input: &[u8]) -> Vec<u8> {
    let mut state = EscState::Idle;
    let mut out = Vec::new();
    for &b in input {
        let mut step = Vec::new();
        match advance_esc(&mut state, b, &mut step) {
            EscDecision::Drop | EscDecision::CprResponse => {}
            EscDecision::Emit => out.extend(step),
        }
    }
    out
}

fn run_live_mode(input: &[u8]) -> Vec<u8> {
    let mut state = EscState::Idle;
    let mut out = Vec::new();
    for &b in input {
        let mut step = Vec::new();
        match advance_esc(&mut state, b, &mut step) {
            EscDecision::Drop => {}
            EscDecision::Emit | EscDecision::CprResponse => out.extend(step),
        }
    }
    out
}

#[test]
fn passthrough_plain_bytes() {
    assert_eq!(run_replay_mode(b"hello"), b"hello");
    assert_eq!(run_live_mode(b"hello"), b"hello");
}

#[test]
fn drops_cpr_response_in_replay_mode() {
    assert_eq!(run_replay_mode(b"\x1b[97;428R"), b"");
    assert_eq!(run_replay_mode(b"\x1b[5;1R"), b"");
    assert_eq!(run_replay_mode(b"\x1b[97;428R\x1b[5;1R\x1b[97;428R"), b"");
}

#[test]
fn forwards_cpr_response_in_live_mode() {
    assert_eq!(run_live_mode(b"\x1b[24;80R"), b"\x1b[24;80R");
    assert_eq!(
        run_live_mode(b"\x1b[24;80R\x1b[100;200R"),
        b"\x1b[24;80R\x1b[100;200R"
    );
}

#[test]
fn forwards_other_csi_unchanged_in_both_modes() {
    for runner in [run_replay_mode, run_live_mode] {
        assert_eq!(runner(b"\x1b[A"), b"\x1b[A");
        assert_eq!(runner(b"\x1b[D"), b"\x1b[D");
        assert_eq!(runner(b"\x1b[H"), b"\x1b[H");
        assert_eq!(runner(b"\x1b[10;20H"), b"\x1b[10;20H");
    }
}

#[test]
fn forwards_lone_escape_in_both_modes() {
    assert_eq!(run_replay_mode(b"\x1ba"), b"\x1ba");
    assert_eq!(run_live_mode(b"\x1ba"), b"\x1ba");
}

#[test]
fn cpr_response_decision_is_cpr_response_with_full_bytes_emitted() {
    let mut state = EscState::Idle;
    let mut emitted = Vec::new();
    let bytes = b"\x1b[97;428R";
    for (i, &b) in bytes.iter().enumerate() {
        let mut step = Vec::new();
        let dec = advance_esc(&mut state, b, &mut step);
        if i + 1 < bytes.len() {
            assert_eq!(dec, EscDecision::Drop);
            assert!(step.is_empty());
        } else {
            assert_eq!(dec, EscDecision::CprResponse);
            emitted.extend(step);
        }
    }
    assert_eq!(emitted, b"\x1b[97;428R");
    assert_eq!(state, EscState::Idle);
}

fn typed(input: &[u8], in_replay: bool) -> (Vec<u8>, bool) {
    let mut w = Writer::new();
    let mut out = Vec::new();
    for &b in input {
        let (bytes, stop) = w.writer_loop(b, in_replay);
        out.extend(bytes);
        if stop {
            return (out, true);
        }
    }
    (out, false)
}

#[test]
fn the_quit_keys_end_a_session() {
    assert_eq!(typed(b"ab\x01xcd", false), (b"ab".to_vec(), true));
    assert_eq!(typed(b"ab\x01c", false), (b"ab\x01c".to_vec(), false));
}

#[test]
fn a_writer_in_replay_keeps_reports_back() {
    assert_eq!(typed(b"a\x1b[5;1Rb", true), (b"ab".to_vec(), false));
    assert_eq!(typed(b"a\x1b[5;1Rb", false).0, b"a\x1b[5;1Rb".to_vec());
}

#[test]
fn a_replay_is_over_once_the_scrollback_came() {
    assert_eq!(reader_loop(0, 100, 150, true), (100, true));
    assert_eq!(reader_loop(100, 50, 150, true), (150, false));
    assert_eq!(reader_loop(150, 10, 150, false).1, false);
}
