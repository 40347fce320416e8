//! Requests to the daemon: disks, networks, consoles and stops.
use blackhole_linux::daemon::boot_flow::{decide_boot_slot, BootSlotDecision};
use blackhole_linux::daemon::client;
use blackhole_linux::daemon::counters::{PerL2cpuGauge, RpcMethod};
use blackhole_linux::daemon::lock::or_internal_error;
use blackhole_linux::daemon::metrics::Metrics;
use blackhole_linux::daemon::protocol::{ConsoleMode, DiskAttach, Request, Response};
use blackhole_linux::daemon::purgatory::{classify_sibling, PurgatoryCells, SiblingClassification};
use blackhole_linux::daemon::server::{
    classify_request, client_arrived, client_left, client_reader_main, dispatch_add_console,
    dispatch_add_disk, dispatch_add_net, dispatch_attach_console, dispatch_remove_console,
    dispatch_remove_disk, dispatch_remove_net, dispatch_shutdown, dispatch_stop, forwards,
    handle_client, internal_stop, irq_for_blk_dev_idx, pick_free_blk_slot, reply_err, reply_sent,
    reply_unreadable, unregister_engine_slots, validate_add_disk_request, validate_l2cpu,
    validate_remove_disk_request, MAX_DISKS_PER_L2CPU,
};
use blackhole_linux::daemon::state::{DaemonState, L2CpuSlot, RX_BUFFER_CAP};
use blackhole_linux::daemon::status::dispatch_status;
use blackhole_linux::error::{Error, IoSource};
use blackhole_linux::regs::{EngineRegs, PurgatoryRegs, VirtioRegs};

const DEV_BLK: u32 = 0;
const DEV_BLK1: u32 = 4;
const DEV_BLK2: u32 = 5;

fn engine() -> EngineRegs {
    EngineRegs {
        devs_per_l2cpu: 6,
        regs_per_dev: 0x1000,
        dev_blk: DEV_BLK,
        dev_blk1: DEV_BLK1,
        dev_blk2: DEV_BLK2,
        dev_net: 1,
        dev_console: 2,
        dev_rng: 3,
        shutdown_offset: 0x8000,
    }
}

fn virtio() -> VirtioRegs {
    VirtioRegs {
        reserved_size: 0x20_0000,
        mmio_slot_size: 0x1000,
        disk_irq: 33,
        disk1_irq: 37,
        disk2_irq: 38,
        net_irq: 34,
        console_irq: 35,
        rng_irq: 36,
        uart_irq: 32,
    }
}

fn purgatory() -> PurgatoryRegs {
    PurgatoryRegs {
        status_offset: 0x1_0000,
        status_parked: 0x5041_524b_4544_2121,
        peers_offset: 0x1_0008,
        reset_type_offset: 0x1_0010,
        reset_type_shutdown: 0,
        reset_type_cold_reboot: 1,
        reset_type_warm_reboot: 2,
        next_addr_pa_offset: 0x1_0018,
        next_mode_pa_offset: 0x1_0020,
        next_arg1_pa_offset: 0x1_0028,
        hsm_state_pa_offset: 0x1_0030,
        msip_pa_offset: 0x1_0038,
        force_park_req_pa_offset: 0x1_0040,
        force_park_req_value_offset: 0x1_0048,
        next_mode_s: 1,
        hsm_state_stopped: 1,
        hsm_state_start_pending: 2,
    }
}

fn no_cells() -> PurgatoryCells {
    PurgatoryCells {
        status: None,
        peers: None,
        next_addr_pa: None,
        next_mode_pa: None,
        next_arg1_pa: None,
        hsm_state_pa: None,
        msip_pa: None,
        force_park_req_pa: None,
        force_park_req_value: None,
    }
}

/// A daemon whose engine is up and on which L2CPU `idx` is booted.
fn booted(idx: u8) -> DaemonState {
    let mut state = DaemonState::new(0);
    state.engine_tile = Some((1, 2));
    state.kick_poller = true;
    state.l2cpus[idx as usize] = Some(L2CpuSlot::new(idx));
    state
}

fn not_found() -> IoSource {
    IoSource {
        kind: std::io::ErrorKind::NotFound,
        code: None,
        message: "No such file or directory (os error 2)".to_string(),
    }
}

fn status_answer(state: &DaemonState) -> Response {
    let cells = [no_cells(), no_cells(), no_cells(), no_cells()];
    Response::Status(dispatch_status(state, &cells, None, None, 1, 0, &purgatory()))
}

fn add_disk_request() -> Request {
    Request::AddDisk {
        l2cpu: 0,
        path: "/tmp/nonexistent.img".into(),
        name: None,
    }
}

/// What comes of that request on a daemon on which nothing is booted.
fn add_disk_result() -> Result<Response, Error> {
    let mut state = DaemonState::new(0);
    dispatch_add_disk(
        &mut state,
        0,
        "/tmp/nonexistent.img",
        None,
        Err(not_found()),
        Ok(()),
        &engine(),
        &virtio(),
    )
    .map(|_| Response::Done)
}

#[test]
fn validate_l2cpu_accepts_in_range() {
    for i in 0..4u8 {
        assert_eq!(validate_l2cpu(i).unwrap(), i as usize);
    }
}

#[test]
fn validate_l2cpu_rejects_out_of_range() {
    for i in [4u8, 5, 99, u8::MAX] {
        assert!(validate_l2cpu(i).is_err());
    }
}

#[test]
fn handle_client_bumps_rpc_total_for_status() {
    let mut m = Metrics::new();
    let before = m.daemon_rpc_total.value(RpcMethod::Status);
    let state = DaemonState::new(0);
    let resp = handle_client(&mut m, &Request::Status, Ok(status_answer(&state)));
    let after = m.daemon_rpc_total.value(RpcMethod::Status);
    assert!(
        after > before,
        "expected at least one bump (got before={} after={})",
        before,
        after
    );
    match resp {
        Response::Status { .. } => {}
        other => panic!("expected Status response, got {:?}", other),
    }
}

#[test]
fn dispatch_attach_console_replays_tail_for_stopped_slot() {
    let mut gauge = PerL2cpuGauge::new();
    let mut state = DaemonState::new(0);
    let captured = b"early dmesg...\n[bhx: l2cpu 0 stopped (test)]\r\n";
    state.shutdown_tails[0] = captured.to_vec();

    let got = dispatch_attach_console(&mut state, 0, ConsoleMode::Ro, &mut gauge).unwrap();
    let bytes = match got.answer {
        Response::Attached {
            scrollback_bytes,
            live,
        } => {
            assert!(!live, "post-mortem attach should report live=false");
            scrollback_bytes
        }
        other => panic!("expected Attached, got {:?}", other),
    };
    assert_eq!(bytes as usize, captured.len());
    assert!(got.client.is_none());
    assert_eq!(got.replay.as_slice(), captured.as_slice());

    let err = dispatch_attach_console(&mut state, 0, ConsoleMode::Rw, &mut gauge)
        .err()
        .unwrap();
    match reply_err(&err) {
        Response::Error { error } => {
            assert!(
                error.contains("Ro"),
                "Rw rejection should mention Ro mode, got {:?}",
                error
            );
        }
        other => panic!("expected Error, got {:?}", other),
    }
}

#[test]
fn dispatch_attach_console_empty_tail_returns_not_booted() {
    let mut gauge = PerL2cpuGauge::new();
    let mut state = DaemonState::new(0);
    let err = dispatch_attach_console(&mut state, 0, ConsoleMode::Ro, &mut gauge)
        .err()
        .unwrap();
    match reply_err(&err) {
        Response::Error { error } => {
            assert!(
                error.contains("not booted"),
                "empty-tail rejection should preserve historical wording, got {:?}",
                error
            );
        }
        other => panic!("expected Error, got {:?}", other),
    }
}

#[test]
fn dispatch_status_handles_poisoned_tensix_engine_lock() {
    let mut m = Metrics::new();
    let err_before = m.daemon_rpc_errors_total.value(RpcMethod::Status);
    // What taking the lock comes to once a thread has died with it.
    let locked: Result<DaemonState, Error> = or_internal_error(Err(()));
    let result = locked.map(|state| status_answer(&state));
    let resp = handle_client(&mut m, &Request::Status, result);
    match resp {
        Response::Error { error } => {
            assert!(
                error.to_lowercase().contains("internal"),
                "expected internal-error message, got {:?}",
                error
            );
        }
        other => panic!("expected Error response, got {:?}", other),
    }
    assert!(m.daemon_rpc_errors_total.value(RpcMethod::Status) > err_before);
}

#[test]
fn handle_client_bumps_rpc_errors_on_failure() {
    let mut m = Metrics::new();
    let total_before = m.daemon_rpc_total.value(RpcMethod::AddDisk);
    let err_before = m.daemon_rpc_errors_total.value(RpcMethod::AddDisk);
    let resp = handle_client(&mut m, &add_disk_request(), add_disk_result());
    assert!(
        m.daemon_rpc_total.value(RpcMethod::AddDisk) > total_before,
        "rpc_total should still bump even on failure"
    );
    assert!(
        m.daemon_rpc_errors_total.value(RpcMethod::AddDisk) > err_before,
        "rpc_errors_total should bump on reply_err"
    );
    match resp {
        Response::Error { .. } => {}
        other => panic!("expected Error response, got {:?}", other),
    }

    let err_status_before = m.daemon_rpc_errors_total.value(RpcMethod::Status);
    let state = DaemonState::new(0);
    handle_client(&mut m, &Request::Status, Ok(status_answer(&state)));
    assert_eq!(
        m.daemon_rpc_errors_total.value(RpcMethod::Status),
        err_status_before,
        "rpc_errors_total must not bump on a successful dispatch"
    );
}

#[test]
fn handle_client_bumps_rpc_total_for_add_disk() {
    let mut m = Metrics::new();
    let before = m.daemon_rpc_total.value(RpcMethod::AddDisk);
    handle_client(&mut m, &add_disk_request(), add_disk_result());
    let after = m.daemon_rpc_total.value(RpcMethod::AddDisk);
    assert!(after > before, "AddDisk counter didn't bump");
    assert_eq!(m.daemon_rpc_total.value(RpcMethod::Status), 0);
}

#[test]
fn boot_decides_proceed_when_slot_empty_no_force() {
    assert_eq!(decide_boot_slot(false, false, 0), BootSlotDecision::Proceed);
}

#[test]
fn boot_decides_proceed_when_slot_empty_with_force() {
    assert_eq!(decide_boot_slot(false, true, 0), BootSlotDecision::Proceed);
}

#[test]
fn boot_decides_reject_when_slot_full_no_force() {
    match decide_boot_slot(true, false, 2) {
        BootSlotDecision::Reject(msg) => {
            assert!(msg.contains("l2cpu 2"), "got: {}", msg);
            assert!(msg.contains("--force"), "got: {}", msg);
        }
        other => panic!("expected Reject, got {:?}", other),
    }
}

#[test]
fn boot_decides_teardown_when_slot_full_with_force() {
    assert_eq!(
        decide_boot_slot(true, true, 1),
        BootSlotDecision::TearDownAndProceed
    );
}

#[test]
fn classify_sibling_treats_parked_magic_as_parked() {
    let purg = Some(purgatory().status_parked);
    assert_eq!(classify_sibling(purg, &purgatory()), SiblingClassification::Parked);
}

#[test]
fn classify_sibling_treats_zero_as_running() {
    assert_eq!(classify_sibling(Some(0), &purgatory()), SiblingClassification::Running);
}

#[test]
fn classify_sibling_treats_unknown_value_as_running() {
    assert_eq!(
        classify_sibling(Some(0xDEAD_BEEF_CAFE_BABE), &purgatory()),
        SiblingClassification::Running
    );
}

#[test]
fn classify_sibling_treats_read_failure_as_running() {
    assert_eq!(classify_sibling(None, &purgatory()), SiblingClassification::Running);
}

#[test]
fn add_disk_rejects_when_max_disks_attached() {
    let existing = vec![Some("rootfs".to_string()), Some("cidata".to_string()), None];
    let err = validate_add_disk_request(MAX_DISKS_PER_L2CPU, None, &existing, "/img", Ok(()))
        .unwrap_err();
    assert!(matches!(err, Error::SlotState(_)));
    let msg = err.to_string();
    assert!(msg.contains("max"), "got: {}", msg);
    assert_eq!(msg, "L2CPU already has 3 disks attached (max 3)");
}

#[test]
fn add_disk_rejects_when_image_path_does_not_exist() {
    let err = validate_add_disk_request(0, None, &[], "/tmp/x/nonexistent.ext4", Err(not_found()))
        .unwrap_err();
    assert!(matches!(err, Error::Io { .. }));
    let msg = err.to_string();
    assert!(msg.contains("cannot open disk image"), "got: {}", msg);
    assert_eq!(
        msg,
        "cannot open disk image /tmp/x/nonexistent.ext4: No such file or directory (os error 2)"
    );
}

#[test]
fn add_disk_rejects_duplicate_name() {
    let existing = vec![Some("cidata".to_string())];
    let err =
        validate_add_disk_request(1, Some("cidata"), &existing, "/img", Ok(())).unwrap_err();
    assert!(matches!(err, Error::SlotState(_)));
    let msg = err.to_string();
    assert!(msg.contains("already has a disk with name"), "got: {}", msg);
    assert!(msg.ends_with("\"cidata\""), "got: {}", msg);
}

#[test]
fn add_disk_accepts_valid_open_image_on_empty_slot() {
    validate_add_disk_request(0, None, &[], "/img", Ok(()))
        .expect("valid path on empty slot must accept");
}

#[test]
fn pick_free_blk_slot_walks_dev_blk_first() {
    let e = engine();
    assert_eq!(pick_free_blk_slot(&[], &e), Some(DEV_BLK));
    assert_eq!(pick_free_blk_slot(&[DEV_BLK], &e), Some(DEV_BLK1));
    assert_eq!(pick_free_blk_slot(&[DEV_BLK, DEV_BLK1], &e), Some(DEV_BLK2));
    assert_eq!(pick_free_blk_slot(&[DEV_BLK, DEV_BLK1, DEV_BLK2], &e), None);
}

#[test]
fn remove_disk_rejects_when_no_disk_attached() {
    assert_eq!(validate_remove_disk_request(true), Err("no disk attached"));
}

#[test]
fn remove_disk_accepts_when_disk_attached() {
    assert_eq!(validate_remove_disk_request(false), Ok(()));
}

#[test]
fn fresh_daemon_state_has_no_slots_and_no_wedged_cores() {
    let s = DaemonState::new(0);
    for idx in 0..4 {
        assert!(s.l2cpus[idx].is_none(), "slot {} should start empty", idx);
        assert!(!s.wedged[idx], "wedged[{}] should start false", idx);
    }
    assert!(!s.shutdown);
    assert_eq!(s.card, 0);
}

#[test]
fn wedged_flag_set_and_clear_per_core() {
    let mut s = DaemonState::new(1);
    s.wedged[2] = true;
    assert!(s.wedged[2]);
    assert!(!s.wedged[0]);
    assert!(!s.wedged[1]);
    assert!(!s.wedged[3]);
    s.wedged[2] = false;
    assert!(!s.wedged[2]);
}

#[test]
fn every_request_is_counted_under_its_method() {
    let cases = vec![
        (Request::Status, RpcMethod::Status),
        (
            Request::AttachConsole { l2cpu: 0, mode: ConsoleMode::Ro },
            RpcMethod::AttachConsole,
        ),
        (add_disk_request(), RpcMethod::AddDisk),
        (Request::RemoveDisk { l2cpu: 0, name: None }, RpcMethod::RemoveDisk),
        (
            Request::AddNet { l2cpu: 0, ssh_port: None, extra_fwd: vec![] },
            RpcMethod::AddNet,
        ),
        (Request::RemoveNet { l2cpu: 0 }, RpcMethod::RemoveNet),
        (Request::AddConsole { l2cpu: 0 }, RpcMethod::AddConsole),
        (Request::RemoveConsole { l2cpu: 0 }, RpcMethod::RemoveConsole),
        (Request::Stop { l2cpu: 0 }, RpcMethod::Stop),
        (Request::Shutdown, RpcMethod::Shutdown),
    ];
    for (req, method) in cases {
        assert_eq!(classify_request(&req), method);
        let mut m = Metrics::new();
        handle_client(&mut m, &req, Ok(Response::Done));
        for other in RpcMethod::all() {
            let expected = if other == method { 1 } else { 0 };
            assert_eq!(m.daemon_rpc_total.value(other), expected);
            assert_eq!(m.daemon_rpc_errors_total.value(other), 0);
        }
    }
}

#[test]
fn clients_are_counted_in_and_out() {
    let mut m = Metrics::new();
    client_arrived(&mut m);
    client_arrived(&mut m);
    client_left(&mut m);
    assert_eq!(m.daemon_clients_total.get(), 2);
    assert_eq!(m.daemon_clients_active.get(), 1);
}

#[test]
fn an_internal_error_keeps_what_it_knows() {
    assert_eq!(
        reply_err(&Error::internal("slot 3 vanished")),
        Response::Error { error: "internal daemon error".to_string() }
    );
    assert_eq!(
        reply_err(&Error::slot_state("network already attached")),
        Response::Error { error: "network already attached".to_string() }
    );
    assert_eq!(
        reply_unreadable("trailing characters"),
        Response::Error { error: "bad request: trailing characters".to_string() }
    );
}

#[test]
fn disks_take_the_free_slots_in_order() {
    let mut state = booted(2);
    let mut seen = vec![];
    for name in ["a", "b", "c"] {
        let r = dispatch_add_disk(
            &mut state, 2, "/img", Some(name), Ok(()), Ok(()), &engine(), &virtio(),
        )
        .unwrap();
        seen.push((r.slot_idx, r.irq));
    }
    assert_eq!(seen, vec![(12, 33), (16, 37), (17, 38)]);
    let names: Vec<Option<String>> =
        state.l2cpus[2].as_ref().unwrap().disks.iter().map(|d| d.name.clone()).collect();
    assert_eq!(names, vec![Some("a".into()), Some("b".into()), Some("c".into())]);

    let err = dispatch_add_disk(
        &mut state, 2, "/img", None, Ok(()), Ok(()), &engine(), &virtio(),
    )
    .unwrap_err();
    assert_eq!(err.to_string(), "L2CPU already has 3 disks attached (max 3)");

    // The middle one goes, and its slot is taken again.
    let gone = dispatch_remove_disk(&mut state, 2, Some("b")).unwrap();
    assert_eq!(gone.len(), 1);
    assert_eq!(gone[0].slot_idx, 16);
    let again = dispatch_add_disk(
        &mut state, 2, "/img2", None, Ok(()), Ok(()), &engine(), &virtio(),
    )
    .unwrap();
    assert_eq!((again.slot_idx, again.irq), (16, 37));
}

#[test]
fn removing_a_disk_undoes_adding_it() {
    let mut state = booted(0);
    dispatch_add_disk(&mut state, 0, "/a", Some("a"), Ok(()), Ok(()), &engine(), &virtio())
        .unwrap();
    dispatch_add_disk(&mut state, 0, "/b", Some("b"), Ok(()), Ok(()), &engine(), &virtio())
        .unwrap();
    let gone = dispatch_remove_disk(&mut state, 0, Some("b")).unwrap();
    assert_eq!(gone[0].path, "/b");
    let left = &state.l2cpus[0].as_ref().unwrap().disks;
    assert_eq!(left.len(), 1);
    assert_eq!((left[0].path.as_str(), left[0].slot_idx), ("/a", 0));
}

#[test]
fn disk_requests_are_refused_for_a_reason() {
    let mut state = booted(1);
    let e = dispatch_add_disk(&mut state, 4, "/x", None, Ok(()), Ok(()), &engine(), &virtio());
    assert_eq!(e.unwrap_err().to_string(), "l2cpu must be 0..3");
    let e = dispatch_add_disk(&mut state, 0, "/x", None, Ok(()), Ok(()), &engine(), &virtio());
    assert_eq!(e.unwrap_err().to_string(), "l2cpu 0 is not booted");
    let e = dispatch_add_disk(
        &mut state, 1, "/x", None, Ok(()), Err("bad header".to_string()), &engine(), &virtio(),
    );
    assert_eq!(e.unwrap_err().to_string(), "VirtioBlk::from_file(/x) failed: bad header");
    let e = dispatch_remove_disk(&mut state, 1, None);
    assert_eq!(e.unwrap_err().to_string(), "no disk attached");
    dispatch_add_disk(&mut state, 1, "/x", None, Ok(()), Ok(()), &engine(), &virtio()).unwrap();
    let e = dispatch_remove_disk(&mut state, 1, Some("no\tsuch"));
    assert_eq!(
        e.unwrap_err().to_string(),
        "no disk with name \"no\\tsuch\" attached to l2cpu 1"
    );
    state.engine_tile = None;
    let e = dispatch_add_disk(&mut state, 1, "/y", None, Ok(()), Ok(()), &engine(), &virtio());
    assert_eq!(
        e.unwrap_err().to_string(),
        "tensix engine not yet brought up; cold-boot the L2CPU first"
    );
}

#[test]
fn disks_are_told_by_their_slots() {
    assert_eq!(irq_for_blk_dev_idx(DEV_BLK, &engine(), &virtio()), 33);
    assert_eq!(irq_for_blk_dev_idx(DEV_BLK1, &engine(), &virtio()), 37);
    assert_eq!(irq_for_blk_dev_idx(DEV_BLK2, &engine(), &virtio()), 38);
}

#[test]
fn a_network_comes_and_goes() {
    let mut state = booted(3);
    let fwd = [(8080u16, 80u16)];
    let r = dispatch_add_net(&mut state, 3, &fwd, None, Ok(()), &engine(), &virtio()).unwrap();
    assert_eq!((r.slot_idx, r.irq), (19, 34));
    let slot = state.l2cpus[3].as_ref().unwrap();
    assert!(slot.net);
    assert_eq!(slot.net_extra_fwd, fwd);
    let e = dispatch_add_net(&mut state, 3, &fwd, None, Ok(()), &engine(), &virtio());
    assert_eq!(e.unwrap_err().to_string(), "network already attached");
    assert_eq!(dispatch_remove_net(&mut state, 3, &engine()).unwrap(), 19);
    assert!(!state.l2cpus[3].as_ref().unwrap().net);
    let e = dispatch_remove_net(&mut state, 3, &engine());
    assert_eq!(e.unwrap_err().to_string(), "no net attached");
    let busy = IoSource {
        kind: std::io::ErrorKind::AddrInUse,
        code: None,
        message: "Address already in use (os error 98)".to_string(),
    };
    let e = dispatch_add_net(&mut state, 3, &fwd, Some((8080, busy)), Ok(()), &engine(), &virtio());
    let text = e.unwrap_err().to_string();
    assert!(text.starts_with("host port 8080 unavailable. "), "{text}");
    assert!(text.ends_with(": Address already in use (os error 98)"), "{text}");
    let e = dispatch_add_net(
        &mut state, 3, &fwd, None, Err("no slirp".to_string()), &engine(), &virtio(),
    );
    assert_eq!(e.unwrap_err().to_string(), "VirtioNet::new failed: no slirp");
}

#[test]
fn the_ssh_forward_comes_first() {
    assert_eq!(forwards(None, 2223, &[(80, 8080)]), vec![(2223, 22), (80, 8080)]);
    assert_eq!(forwards(Some(4000), 2223, &[]), vec![(4000, 22)]);
}

#[test]
fn a_virtio_console_comes_and_goes() {
    let mut state = booted(1);
    let r = dispatch_add_console(&mut state, 1, &engine(), &virtio()).unwrap();
    assert_eq!((r.slot_idx, r.irq), (8, 35));
    let e = dispatch_add_console(&mut state, 1, &engine(), &virtio());
    assert_eq!(e.unwrap_err().to_string(), "virtio-console already attached");
    assert_eq!(dispatch_remove_console(&mut state, 1, &engine()).unwrap(), 8);
    let e = dispatch_remove_console(&mut state, 1, &engine());
    assert_eq!(e.unwrap_err().to_string(), "no virtio-console attached");
}

#[test]
fn only_the_writer_types() {
    let mut gauge = PerL2cpuGauge::new();
    let mut state = booted(0);
    let first = dispatch_attach_console(&mut state, 0, ConsoleMode::Rw, &mut gauge).unwrap();
    let second = dispatch_attach_console(&mut state, 0, ConsoleMode::Rw, &mut gauge).unwrap();
    assert_eq!(gauge.values(), [2, 0, 0, 0]);
    let first = first.client.unwrap().id;
    let second = second.client.unwrap().id;
    let slot = state.l2cpus[0].as_mut().unwrap();
    assert_eq!(client_reader_main(slot, first, b"ls\r"), b"ls\r");
    assert_eq!(client_reader_main(slot, second, b"rm\r"), b"");
}

#[test]
fn keys_go_to_the_virtio_console_as_well() {
    let mut gauge = PerL2cpuGauge::new();
    let mut state = booted(0);
    dispatch_add_console(&mut state, 0, &engine(), &virtio()).unwrap();
    let id = dispatch_attach_console(&mut state, 0, ConsoleMode::Rw, &mut gauge)
        .unwrap()
        .client
        .unwrap()
        .id;
    let slot = state.l2cpus[0].as_mut().unwrap();
    assert_eq!(client_reader_main(slot, id, b"abc"), b"abc");
    let held: Vec<u8> = slot.virtio_console.as_ref().unwrap().input_buf.iter().copied().collect();
    assert_eq!(held, b"abc");
    client_reader_main(slot, id, &vec![b'x'; RX_BUFFER_CAP + 10]);
    assert_eq!(slot.virtio_console.as_ref().unwrap().input_buf.len(), RX_BUFFER_CAP);
}

#[test]
fn a_stopped_slot_leaves_its_last_words() {
    let mut gauge = PerL2cpuGauge::new();
    let mut state = booted(2);
    dispatch_attach_console(&mut state, 2, ConsoleMode::Ro, &mut gauge).unwrap();
    let slot = state.l2cpus[2].as_mut().unwrap();
    let none_failed: [u64; 0] = [];
    slot.console_hub.push_chip_output(b"bye\n", &none_failed, &mut gauge);
    let stopped = internal_stop(&mut state, 2, "operator", &mut gauge).unwrap().unwrap();
    assert_eq!(stopped.clients.len(), 1);
    assert!(stopped.line.contains("l2cpu 2 stopped (operator)"), "{}", stopped.line);
    assert!(state.l2cpus[2].is_none());
    assert_eq!(gauge.values(), [0, 0, 0, 0]);
    let tail = String::from_utf8(state.shutdown_tails[2].clone()).unwrap();
    assert!(tail.starts_with("bye\n"), "{tail}");
    assert!(tail.contains("l2cpu 2 stopped (operator)"), "{tail}");
    assert!(internal_stop(&mut state, 2, "operator", &mut gauge).unwrap().is_none());
    assert!(internal_stop(&mut state, 4, "operator", &mut gauge).is_err());
}

#[test]
fn stops_and_shutdowns_are_answered() {
    assert_eq!(dispatch_stop(1, true).unwrap(), Response::Done);
    assert_eq!(dispatch_stop(1, false).unwrap_err().to_string(), "l2cpu 1 is not booted");
    let mut state = DaemonState::new(0);
    assert_eq!(dispatch_shutdown(&mut state), Response::Done);
    assert!(state.shutdown);
}

#[test]
fn a_torn_down_slot_leaves_the_engine() {
    let mut slots = unregister_engine_slots(1, &engine());
    slots.sort_unstable();
    assert_eq!(slots, vec![6, 7, 8, 9, 10, 11]);
}

#[test]
fn a_client_reads_its_answer() {
    assert_eq!(client::expect_ok(Response::Done), Ok(()));
    assert_eq!(
        client::expect_ok(Response::Error { error: "no".to_string() }),
        Err("no".to_string())
    );
    assert_eq!(
        client::attach_console(Response::Attached { scrollback_bytes: 9, live: true }),
        Ok((9, true))
    );
    assert_eq!(
        client::expect_ok(Response::Attached { scrollback_bytes: 9, live: true }),
        Err("unexpected response: Attached { scrollback_bytes: 9, live: true }".to_string())
    );
    assert_eq!(
        client::attach_console(Response::Done),
        Err("unexpected response: Ok".to_string())
    );
}

#[test]
fn an_unexpected_answer_is_shown_as_debug_prints_it() {
    let mut state = booted(0);
    dispatch_add_disk(
        &mut state, 0, "/a \"b\"\n\u{7f}\u{e9}", Some("d'"), Ok(()), Ok(()), &engine(), &virtio(),
    )
    .unwrap();
    let mut cells = [no_cells(), no_cells(), no_cells(), no_cells()];
    cells[0].status = Some(purgatory().status_parked);
    let make = || dispatch_status(&state, &cells, Some(0x8000), Some(1), 7, 8, &purgatory());
    let p = make();
    assert_eq!(p.l2cpus[0].disks[0], DiskAttach {
        path: "/a \"b\"\n\u{7f}\u{e9}".to_string(),
        name: Some("d'".to_string()),
    });
    let shown = format!("{:?}", Response::Status(make()));
    assert_eq!(
        client::expect_ok(Response::Status(make())),
        Err(format!("unexpected response: {shown}"))
    );
    assert_eq!(client::status(Response::Status(p)), Ok(make()));
}

#[test]
fn a_daemon_that_does_not_answer_is_named() {
    assert_eq!(
        client::connect(2, "/run/bhx.sock", "No such file or directory (os error 2)"),
        "no daemon socket at /run/bhx.sock (No such file or directory (os error 2)). \
         Start one with: tt-bh-linux daemon start --card 2"
    );
}

#[test]
fn an_answer_that_cannot_be_written_counts_as_failed() {
    let mut m = Metrics::new();
    for (failed, written, count) in [(false, true, 0), (false, false, 1), (true, false, 1)] {
        reply_sent(&mut m, &Request::Status, failed, written);
        assert_eq!(m.daemon_rpc_errors_total.value(RpcMethod::Status), count);
    }
    assert_eq!(m.daemon_rpc_errors_total.value(RpcMethod::Boot), 0);
}
