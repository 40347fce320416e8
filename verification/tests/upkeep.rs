//! The loops around the daemon's requests, the engine, and taking slots apart.
use blackhole_linux::console::{console_main, ConsoleStep, UartExit};
use blackhole_linux::daemon::boot_flow::{release_l2cpu_from_reset, ResetStep};
use blackhole_linux::daemon::chip_console::{begin_pass, chip_console_main, PassPhase, PassState};
use blackhole_linux::daemon::counters::PerL2cpuGauge;
use blackhole_linux::daemon::lifetime::{pid_text, read_pid};
use blackhole_linux::daemon::lock::{or_internal_error, LockExt};
use blackhole_linux::daemon::protocol::ConsoleMode;
use blackhole_linux::daemon::runner::{resolve_log_path, resolve_log_path_with_override, LogPlan};
use blackhole_linux::daemon::server::{dispatch_attach_console, internal_stop};
use blackhole_linux::daemon::state::{DaemonState, DiskWorker, L2CpuSlot, VirtioConsoleSlot};
use blackhole_linux::daemon::upkeep::{
    handle_existing_slot, run_exporter, serve, take_all_slots, telemetry_pause, AcceptStep,
    Accepted, Worker, TELEMETRY_BACKOFF, TELEMETRY_BACKOFF_MAX,
};
use blackhole_linux::error::{Error, IoSource};
use blackhole_linux::fetch::{
    begin_download, content_length, download_error, download_to, downloaded, print_progress,
    DownloadEvent, DownloadFailure, DownloadPhase, DownloadState,
};
use blackhole_linux::regs::{L2cpuRegs, PurgatoryRegs};

fn io(message: &str) -> IoSource {
    IoSource { kind: std::io::ErrorKind::Other, code: None, message: message.to_string() }
}

#[test]
fn listeners_wait_for_clients() {
    assert_eq!(serve(Accepted::Client), AcceptStep::Serve);
    assert_eq!(serve(Accepted::Nobody), AcceptStep::Pause(50));
    assert_eq!(serve(Accepted::Failed), AcceptStep::Pause(200));
    assert_eq!(run_exporter(Accepted::Client), AcceptStep::Serve);
    assert_eq!(run_exporter(Accepted::Nobody), AcceptStep::Pause(100));
    assert_eq!(run_exporter(Accepted::Failed), AcceptStep::Pause(500));
}

#[test]
fn failing_telemetry_is_read_less_and_less_often() {
    let mut backoff = TELEMETRY_BACKOFF;
    let mut pauses = vec![];
    for _ in 0..9 {
        let (pause, next) = telemetry_pause(backoff, false);
        pauses.push(pause);
        backoff = next;
    }
    assert_eq!(pauses, vec![500, 1000, 2000, 4000, 8000, 16000, 32000, 60000, 60000]);
    assert_eq!(backoff, TELEMETRY_BACKOFF_MAX);
    assert_eq!(telemetry_pause(backoff, true), (5000, 500));
}

#[test]
fn the_engine_comes_up_once() {
    let mut state = DaemonState::new(0);
    assert_eq!(
        state.get_or_bring_up_tensix_engine(Err::<(u32, u32), &str>("no tile")),
        Err("no tile")
    );
    assert!(!state.kick_poller);
    assert_eq!(state.get_or_bring_up_tensix_engine(Ok::<_, &str>((1, 2))), Ok((1, 2)));
    assert!(state.kick_poller);
    assert_eq!(state.get_or_bring_up_tensix_engine(Ok::<_, &str>((3, 4))), Ok((1, 2)));
    assert_eq!(state.adopt_running_tensix_engine(Err::<(u32, u32), &str>("x")), Ok(()));
    assert_eq!(state.engine_tile, Some((1, 2)));
    state.drop_engine();
    assert_eq!((state.engine_tile, state.kick_poller), (None, false));
    assert_eq!(state.adopt_running_tensix_engine(Err::<(u32, u32), &str>("x")), Err("x"));
    assert_eq!(state.adopt_running_tensix_engine(Ok::<_, &str>((5, 6))), Ok(()));
    assert_eq!(state.engine_tile, Some((5, 6)));
}

#[test]
fn the_console_is_stopped_last() {
    let mut slot = L2CpuSlot::new(0);
    assert_eq!(slot.shutdown(), vec![Worker::Console]);
    slot.disks.push(DiskWorker { path: "a".into(), slot_idx: 4, name: None });
    slot.disks.push(DiskWorker { path: "b".into(), slot_idx: 0, name: None });
    slot.net = true;
    slot.virtio_console = Some(VirtioConsoleSlot { input_buf: Default::default() });
    slot.virtio_rng = true;
    assert_eq!(
        slot.shutdown(),
        vec![
            Worker::Disk(4),
            Worker::Disk(0),
            Worker::Net,
            Worker::VirtioConsole,
            Worker::Rng,
            Worker::Console,
        ]
    );
}

#[test]
fn a_forced_boot_takes_the_slot() {
    let mut gauge = PerL2cpuGauge::new();
    let mut state = DaemonState::new(0);
    assert!(handle_existing_slot(&mut state, 1, true, &mut gauge).unwrap().is_none());
    state.l2cpus[1] = Some(L2CpuSlot::new(1));
    dispatch_attach_console(&mut state, 1, ConsoleMode::Rw, &mut gauge).unwrap();
    assert_eq!(
        handle_existing_slot(&mut state, 1, false, &mut gauge).err().unwrap(),
        "l2cpu 1 is already booted; stop it first, or re-run with --force"
    );
    assert!(state.l2cpus[1].is_some());
    let s = handle_existing_slot(&mut state, 1, true, &mut gauge).unwrap().unwrap();
    assert_eq!(s.line, "\r\n[bhx: l2cpu 1 re-imaged via --force]\r\n");
    assert_eq!(s.clients, vec![1]);
    assert!(state.l2cpus[1].is_none());
    assert!(state.shutdown_tails[1].is_empty());
    assert_eq!(gauge.values(), [0, 0, 0, 0]);
}

#[test]
fn every_slot_goes_when_the_daemon_stops() {
    let mut gauge = PerL2cpuGauge::new();
    let mut state = DaemonState::new(0);
    state.l2cpus[3] = Some(L2CpuSlot::new(3));
    state.l2cpus[1] = Some(L2CpuSlot::new(1));
    dispatch_attach_console(&mut state, 3, ConsoleMode::Ro, &mut gauge).unwrap();
    let gone = take_all_slots(&mut state, &mut gauge);
    let idx: Vec<u8> = gone.iter().map(|s| s.slot.idx).collect();
    assert_eq!(idx, vec![1, 3]);
    assert_eq!(gone[1].line, "\r\n[bhx: daemon shutting down]\r\n");
    assert_eq!(gone[1].clients.len(), 1);
    assert!(state.l2cpus.iter().all(|s| s.is_none()));
    assert_eq!(gauge.values(), [0, 0, 0, 0]);
}

#[test]
fn a_stopped_console_is_still_read() {
    let mut gauge = PerL2cpuGauge::new();
    let mut state = DaemonState::new(0);
    state.l2cpus[0] = Some(L2CpuSlot::new(0));
    internal_stop(&mut state, 0, "client-requested", &mut gauge).unwrap();
    let a = dispatch_attach_console(&mut state, 0, ConsoleMode::Ro, &mut gauge).unwrap();
    assert_eq!(a.replay, b"\r\n[bhx: l2cpu 0 stopped (client-requested)]\r\n");
    assert!(dispatch_attach_console(&mut state, 0, ConsoleMode::Takeover, &mut gauge).is_err());
}

#[test]
fn a_lost_console_is_tried_again() {
    assert_eq!(console_main(Ok(UartExit::Done)), ConsoleStep::Leave);
    assert_eq!(
        console_main(Ok(UartExit::Retry)),
        ConsoleStep::Retry(
            "Error (UART vanished) -- was the chip reset?  Retrying...".to_string()
        )
    );
    assert_eq!(
        console_main(Err("bus error")),
        ConsoleStep::Retry("Error (bus error) -- was the chip reset?  Retrying...".to_string())
    );
    let ended = |phase| chip_console_main(&PassState { phase, ..begin_pass(0) });
    assert!(!ended(PassPhase::Ended(UartExit::Done)));
    assert!(ended(PassPhase::Ended(UartExit::Retry)));
    assert!(ended(PassPhase::Failed));
}

#[test]
fn a_core_leaves_reset_with_a_clean_status() {
    let purgatory = PurgatoryRegs {
        status_offset: 0x100,
        status_parked: 1,
        peers_offset: 0,
        reset_type_offset: 0,
        reset_type_shutdown: 0,
        reset_type_cold_reboot: 1,
        reset_type_warm_reboot: 2,
        next_addr_pa_offset: 0,
        next_mode_pa_offset: 0,
        next_arg1_pa_offset: 0,
        hsm_state_pa_offset: 0,
        msip_pa_offset: 0,
        force_park_req_pa_offset: 0,
        force_park_req_value_offset: 0,
        next_mode_s: 1,
        hsm_state_stopped: 1,
        hsm_state_start_pending: 2,
    };
    let l2cpu = L2cpuRegs {
        control_base: 0,
        l3_ctrl_base: 0,
        l3_enable_offset: 0,
        l3_enable_value: 0,
        l2_prefetch_base: 0x1000,
        l2_prefetch_num: 2,
        l2_prefetch_stride: 0x10,
        l2_prefetch_cfg_lo: 7,
        l2_prefetch_cfg_hi: 8,
    };
    assert_eq!(
        release_l2cpu_from_reset(0x4000, &purgatory, &l2cpu),
        vec![
            ResetStep::Try(0x4100, 0),
            ResetStep::Try(0x4104, 0),
            ResetStep::Release,
            ResetStep::Write(0x1000, 7),
            ResetStep::Write(0x1004, 8),
            ResetStep::Write(0x1010, 7),
            ResetStep::Write(0x1014, 8),
        ]
    );
}

#[test]
fn a_log_elsewhere_is_remembered() {
    assert_eq!(
        resolve_log_path_with_override(None, "/work", "/usual"),
        LogPlan { path: "/usual".to_string(), sidecar: None }
    );
    let plan = resolve_log_path_with_override(Some("logs/d.log"), "/work", "/usual");
    assert_eq!(plan.path, "/work/logs/d.log");
    assert_eq!(plan.sidecar.as_deref(), Some("/work/logs/d.log\n"));
    assert_eq!(resolve_log_path(plan.sidecar.as_deref(), "/usual"), plan.path);
    let plan = resolve_log_path_with_override(Some("/var/d.log"), "/work", "/usual");
    assert_eq!(plan.path, "/var/d.log");
}

#[test]
fn a_pid_is_read_as_it_was_written() {
    for pid in [0, 1, 9, 10, 4711, u32::MAX] {
        assert_eq!(read_pid(&pid_text(pid)), Some(pid));
    }
    assert_eq!(read_pid("4294967296\n"), None);
    assert_eq!(read_pid("\n"), None);
}

#[test]
fn announced_lengths_are_numbers() {
    assert_eq!(content_length(None), None);
    assert_eq!(content_length(Some("1048576")), Some(1048576));
    assert_eq!(content_length(Some("+5")), Some(5));
    assert_eq!(content_length(Some("")), None);
    assert_eq!(content_length(Some("12 ")), None);
    assert_eq!(content_length(Some("18446744073709551615")), Some(u64::MAX));
    assert_eq!(content_length(Some("18446744073709551616")), None);
}

#[test]
fn a_download_goes_through_its_phases() {
    let s = begin_download();
    let s = download_to(s, DownloadEvent::Answer { status: 206, length: Some(10) });
    assert!(matches!(s.phase, DownloadPhase::Create));
    let s = download_to(s, DownloadEvent::Done);
    let s = download_to(s, DownloadEvent::Piece(7));
    assert!(matches!(s.phase, DownloadPhase::Write { len: 7 }));
    let s = download_to(s, DownloadEvent::Written { age: 199 });
    assert!(matches!(s.phase, DownloadPhase::Read));
    let s = download_to(s, DownloadEvent::Piece(3));
    let s = download_to(s, DownloadEvent::Written { age: 200 });
    assert!(matches!(s.phase, DownloadPhase::Report));
    assert_eq!((s.got, s.total), (10, Some(10)));
    let s = download_to(s, DownloadEvent::Done);
    let s = download_to(s, DownloadEvent::Piece(0));
    assert!(matches!(s.phase, DownloadPhase::Flush));
    let s = download_to(s, DownloadEvent::Done);
    assert!(matches!(s.phase, DownloadPhase::Rename));
    let s = download_to(s, DownloadEvent::Done);
    assert!(matches!(s.phase, DownloadPhase::Finished));
}

#[test]
fn a_download_that_breaks_off_leaves_nothing() {
    let reading = || DownloadState { phase: DownloadPhase::Read, got: 5, total: None };
    let s = download_to(reading(), DownloadEvent::Broken("reset by peer".to_string()));
    assert!(matches!(s.phase, DownloadPhase::Discard(_)));
    match download_to(s, DownloadEvent::Done).phase {
        DownloadPhase::Failed(f) => {
            assert_eq!(download_error(f, "u").to_string(), "internal: read body: reset by peer")
        }
        other => panic!("{other:?}"),
    }
    let s = download_to(
        download_to(reading(), DownloadEvent::Piece(1)),
        DownloadEvent::Failed(io("disk full")),
    );
    assert!(matches!(s.phase, DownloadPhase::Discard(DownloadFailure::Write(_))));
    let flushing = DownloadState { phase: DownloadPhase::Flush, got: 5, total: None };
    let s = download_to(flushing, DownloadEvent::Failed(io("disk full")));
    assert!(matches!(s.phase, DownloadPhase::Discard(DownloadFailure::Flush(_))));
    let moving = DownloadState { phase: DownloadPhase::Rename, got: 5, total: None };
    let s = download_to(moving, DownloadEvent::Failed(io("is a directory")));
    assert!(matches!(s.phase, DownloadPhase::Discard(DownloadFailure::Rename(_))));
    match download_to(s, DownloadEvent::Done).phase {
        DownloadPhase::Failed(f) => {
            assert_eq!(download_error(f, "u").to_string(), "rename download: is a directory")
        }
        other => panic!("{other:?}"),
    }
}

#[test]
fn a_failed_download_says_why() {
    let s = download_to(begin_download(), DownloadEvent::Answer { status: 404, length: None });
    match s.phase {
        DownloadPhase::Failed(f) => assert_eq!(
            download_error(f, "http://x/y").to_string(),
            "internal: GET http://x/y returned status 404"
        ),
        other => panic!("{other:?}"),
    }
    let cases: Vec<(DownloadFailure, &str)> = vec![
        (DownloadFailure::Request("dns".to_string()), "internal: GET u: dns"),
        (DownloadFailure::Create(io("x")), "create temp: x"),
        (DownloadFailure::Write(io("x")), "write temp: x"),
        (DownloadFailure::Flush(io("x")), "flush temp: x"),
        (DownloadFailure::Rename(io("x")), "rename download: x"),
    ];
    for (f, text) in cases {
        assert_eq!(download_error(f, "u").to_string(), text);
    }
}

#[test]
fn a_download_is_reported() {
    assert_eq!(
        print_progress(512, Some(1024), 0, 250_000_000),
        "\r  512 B / 1.0 KiB (50.0%) \u{2014} 2.0 KiB/s          "
    );
    assert_eq!(
        print_progress(2048, Some(1024), 2, 0),
        "\r  2.0 KiB / 1.0 KiB (100.0%) \u{2014} 1.0 KiB/s          "
    );
    assert_eq!(
        print_progress(512, Some(0), 51, 200_000_000),
        "\r  512 B \u{2014} 10 B/s          "
    );
    assert_eq!(print_progress(512, None, 0, 0), "\r  512 B \u{2014} 0 B/s          ");
    assert_eq!(downloaded(1048576, 61, 0), "  Downloaded 1.0 MiB in 1m1s (avg 16.8 KiB/s)");
}

#[test]
fn lock_or_internal_error_yields_guard_on_healthy_mutex() {
    let m = std::sync::Mutex::new(42u32);
    let g = m.lock_or_internal_error().unwrap();
    assert_eq!(*g, 42);
}

#[test]
fn a_poisoned_lock_is_an_internal_error() {
    assert_eq!(or_internal_error(Ok(7u8)).unwrap(), 7);
    let e = or_internal_error::<u8>(Err(())).unwrap_err();
    assert!(matches!(&e, Error::Internal(m) if m == "daemon mutex poisoned (worker thread paniced)"));
}
