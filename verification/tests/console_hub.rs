use blackhole_linux::daemon::console_hub::{
    send_all_dontwait, ConsoleHub, SendEvent, SendStep, SCROLLBACK_BYTES, SHUTDOWN_TAIL_BYTES,
};
use blackhole_linux::daemon::counters::PerL2cpuGauge;
use blackhole_linux::daemon::protocol::ConsoleMode;

#[test]
fn attach_and_detach_update_clients_gauge() {
    let mut gauge = PerL2cpuGauge::new();
    let mut hub = ConsoleHub::new(3);
    let before = gauge.values()[3];

    let (r1, _) = hub.attach(ConsoleMode::Rw, &mut gauge);
    assert_eq!(gauge.values()[3], before + 1);

    let (r2, _) = hub.attach(ConsoleMode::Ro, &mut gauge);
    assert_eq!(gauge.values()[3], before + 2);

    hub.detach(r1.id, &mut gauge);
    assert_eq!(gauge.values()[3], before + 1);

    hub.detach(r2.id, &mut gauge);
    assert_eq!(gauge.values()[3], before);
}

#[test]
fn push_fans_out_to_all_clients() {
    let mut gauge = PerL2cpuGauge::new();
    let mut hub = ConsoleHub::new(0);
    let (a, _) = hub.attach(ConsoleMode::Rw, &mut gauge);
    let (b, _) = hub.attach(ConsoleMode::Ro, &mut gauge);

    assert_eq!(hub.client_ids(), vec![a.id, b.id]);
    let dropped = hub.push_chip_output(b"hello", &[], &mut gauge);
    assert!(dropped.is_empty());
    assert_eq!(hub.client_count(), 2);
    assert_eq!(hub.tail(16), b"hello");
}

#[test]
fn scrollback_is_bounded() {
    let mut gauge = PerL2cpuGauge::new();
    let mut hub = ConsoleHub::new(0);
    let chunk = vec![b'x'; SCROLLBACK_BYTES];
    hub.push_chip_output(&chunk, &[], &mut gauge);
    hub.push_chip_output(b"tail", &[], &mut gauge);
    let all = hub.tail(SCROLLBACK_BYTES + 1);
    assert_eq!(all.len(), SCROLLBACK_BYTES);
    assert_eq!(&all[SCROLLBACK_BYTES - 4..], b"tail");
}

#[test]
fn first_rw_becomes_writer_later_rw_is_ro() {
    let mut gauge = PerL2cpuGauge::new();
    let mut hub = ConsoleHub::new(0);
    let (r1, _) = hub.attach(ConsoleMode::Rw, &mut gauge);
    let (r2, _) = hub.attach(ConsoleMode::Rw, &mut gauge);
    assert!(r1.is_writer);
    assert!(!r2.is_writer);
    assert_eq!(hub.current_writer_id(), Some(r1.id));
}

#[test]
fn takeover_demotes_previous_writer() {
    let mut gauge = PerL2cpuGauge::new();
    let mut hub = ConsoleHub::new(0);
    let (r1, _) = hub.attach(ConsoleMode::Rw, &mut gauge);
    let (r2, _) = hub.attach(ConsoleMode::Takeover, &mut gauge);

    assert!(r2.is_writer);
    assert_eq!(r2.demoted, vec![r1.id]);
    assert_eq!(hub.current_writer_id(), Some(r2.id));
}

#[test]
fn detach_removes_client() {
    let mut gauge = PerL2cpuGauge::new();
    let mut hub = ConsoleHub::new(0);
    let (r1, _) = hub.attach(ConsoleMode::Rw, &mut gauge);
    assert_eq!(hub.client_count(), 1);
    hub.detach(r1.id, &mut gauge);
    assert_eq!(hub.client_count(), 0);
}

#[test]
fn attach_returns_scrollback() {
    let mut gauge = PerL2cpuGauge::new();
    let mut hub = ConsoleHub::new(0);
    hub.push_chip_output(b"already-there", &[], &mut gauge);
    let (res, replay) = hub.attach(ConsoleMode::Ro, &mut gauge);
    assert_eq!(res.scrollback_bytes as usize, b"already-there".len());
    assert_eq!(&replay, b"already-there");
}

#[test]
fn disconnect_all_with_reason_sends_message_and_clears_clients() {
    let mut gauge = PerL2cpuGauge::new();
    let mut hub = ConsoleHub::new(0);
    hub.attach(ConsoleMode::Rw, &mut gauge);
    hub.attach(ConsoleMode::Ro, &mut gauge);

    let msg = hub.disconnect_all_with_reason("l2cpu 0 stopped", &mut gauge);
    assert_eq!(hub.client_count(), 0);
    assert_eq!(gauge.values()[0], 0);
    assert!(
        msg.contains("[bhx: l2cpu 0 stopped]"),
        "expected goodbye line, got {:?}",
        msg
    );
}

#[test]
fn non_draining_client_is_dropped() {
    let mut gauge = PerL2cpuGauge::new();
    let mut hub = ConsoleHub::new(0);
    assert!(hub.can_attach());
    let (r1, _) = hub.attach(ConsoleMode::Ro, &mut gauge);

    let big = vec![b'z'; 64 * 1024];
    assert_eq!(
        send_all_dontwait(big.len(), SendEvent::Refused),
        SendStep::Drop
    );
    let dropped = hub.push_chip_output(&big, &[r1.id], &mut gauge);
    assert_eq!(dropped, vec![r1.id]);
    assert_eq!(hub.client_count(), 0);
}

#[test]
fn partial_fan_out_drops_only_the_staller_and_keeps_the_drainers() {
    let mut gauge = PerL2cpuGauge::new();
    let mut hub = ConsoleHub::new(2);
    let (r1, _) = hub.attach(ConsoleMode::Ro, &mut gauge);
    let (r2, _) = hub.attach(ConsoleMode::Ro, &mut gauge);
    let (r3, _) = hub.attach(ConsoleMode::Ro, &mut gauge);
    assert_eq!(hub.client_count(), 3);

    let chunk = vec![b'P'; 8 * 1024];
    assert!(hub.push_chip_output(&chunk, &[], &mut gauge).is_empty());
    let dropped = hub.push_chip_output(&chunk, &[r3.id], &mut gauge);

    assert_eq!(dropped, vec![r3.id], "only the staller should drop");
    assert_eq!(hub.client_count(), 2);
    assert_eq!(hub.client_ids(), vec![r1.id, r2.id]);
    assert_eq!(gauge.values()[2], 2);
    let writer = hub.current_writer_id();
    assert!(
        writer.is_none() || writer == Some(r1.id) || writer == Some(r2.id),
        "writer state shouldn't promote c3"
    );
    assert!(!r2.is_writer);
}

#[test]
fn tail_returns_last_n_bytes_or_full_scrollback_if_shorter() {
    let mut gauge = PerL2cpuGauge::new();
    let mut hub = ConsoleHub::new(0);
    let big: Vec<u8> = (0..100_000).map(|i| (i % 256) as u8).collect();
    hub.push_chip_output(&big, &[], &mut gauge);
    let t = hub.tail(16 * 1024);
    assert_eq!(t.len(), 16 * 1024);
    assert_eq!(t.as_slice(), &big[big.len() - 16 * 1024..]);

    let mut hub2 = ConsoleHub::new(0);
    hub2.push_chip_output(b"only-100-bytes-here", &[], &mut gauge);
    let t2 = hub2.tail(16 * 1024);
    assert_eq!(t2, b"only-100-bytes-here");
}

#[test]
fn disconnect_all_with_reason_appends_goodbye_into_scrollback() {
    let mut gauge = PerL2cpuGauge::new();
    let mut hub = ConsoleHub::new(0);
    hub.push_chip_output(b"some kernel output\n", &[], &mut gauge);
    hub.disconnect_all_with_reason("l2cpu 0 stopped (test)", &mut gauge);
    let t = hub.tail(SHUTDOWN_TAIL_BYTES);
    let s = String::from_utf8_lossy(&t);
    assert!(
        s.ends_with("[bhx: l2cpu 0 stopped (test)]\r\n"),
        "scrollback tail should end with the goodbye line, got {:?}",
        s
    );
    assert!(
        s.contains("some kernel output"),
        "scrollback tail should retain prior bytes, got {:?}",
        s
    );
}

#[test]
fn a_scrollback_can_be_forgotten() {
    let mut gauge = PerL2cpuGauge::new();
    let mut hub = ConsoleHub::new(1);
    hub.push_chip_output(b"x", &[], &mut gauge);
    hub.clear_scrollback();
    assert!(hub.tail(10).is_empty());
}

#[test]
fn a_client_takes_all_or_is_dropped() {
    assert_eq!(send_all_dontwait(10, SendEvent::Took(10)), SendStep::Finished);
    assert_eq!(send_all_dontwait(10, SendEvent::Took(9)), SendStep::Drop);
    assert_eq!(send_all_dontwait(10, SendEvent::Took(0)), SendStep::Drop);
    assert_eq!(send_all_dontwait(10, SendEvent::Interrupted), SendStep::Again);
}
