//! The way of a boot, of a release, and of the console of a running core.
use blackhole_linux::boot::BootDevice;
use blackhole_linux::console::{DescriptorError, UartExit, VIRTUAL_UART_MAGIC};
use blackhole_linux::daemon::boot_flow::{
    begin_boot, boot_error, copy_payload, device_registered, devices_to_register, dispatch_boot,
    forget_tail, install_slot, maybe_opportunistic_reset_board, memory_size, needs_engine,
    registration, run_boot_sequence, siblings, BootDeviceKind, BootEvent, BootFailure, BootPhase,
    BootTarget, Sibling,
};
use blackhole_linux::daemon::chip_console::{
    auto_reboot_failed, auto_release_for_reboot, begin_pass, count_input, count_output, count_turn,
    drop_net_for_reboot, drop_workers_on_shutdown_park, park_steps, probe_warm_resume, uart_pass,
    ParkStep, PassEvent, PassPhase, ProbeEvent, ProbePhase, FAST_SLEEP, FAST_WINDOW, IDLE_SLEEP,
    IDLE_WINDOW, PARKED_PROBE_INTERVAL,
};
use blackhole_linux::daemon::counters::{PerL2cpuCounter, Tier, WorkerKind};
use blackhole_linux::daemon::metrics::Metrics;
use blackhole_linux::daemon::protocol::{BootPayload, BootRequest, L2CpuState};
use blackhole_linux::daemon::purgatory::{
    detect_park_transition, dispatch_release, force_park_writes, prepare_writes,
    read_parked_release_meta, read_parked_reset_type, read_parked_state, release_error,
    trigger_force_park_if_available, wake_writes, word64, ForcePark, ParkedReleaseMeta,
    PurgatoryCells, ReleaseEvent, ReleaseFailure, ReleasePhase, ReleaseTarget,
};
use blackhole_linux::daemon::state::{DaemonState, L2CpuSlot, VirtioConsoleSlot};
use blackhole_linux::daemon::status::{
    dispatch_status, pll_fields, pll_mhz, pll_watch, probe_initial_chip_state, slot_status,
    warm_resume_released, Adoption,
};
use blackhole_linux::error::IoSource;
use blackhole_linux::regs::{BootImageRegs, EngineRegs, MemoryMap, PurgatoryRegs, VirtioRegs};

const PARKED: u64 = 0x5041_524b_4544_2121;

fn engine() -> EngineRegs {
    EngineRegs {
        devs_per_l2cpu: 6,
        regs_per_dev: 0x1000,
        dev_blk: 0,
        dev_blk1: 4,
        dev_blk2: 5,
        dev_net: 1,
        dev_console: 2,
        dev_rng: 3,
        shutdown_offset: 0x8000,
    }
}

fn virtio() -> VirtioRegs {
    VirtioRegs {
        reserved_size: 0x20_0000,
        mmio_slot_size: 0x1000,
        disk_irq: 33,
        disk1_irq: 37,
        disk2_irq: 38,
        net_irq: 34,
        console_irq: 35,
        rng_irq: 36,
        uart_irq: 32,
    }
}

fn purgatory() -> PurgatoryRegs {
    PurgatoryRegs {
        status_offset: 0x1_0000,
        status_parked: PARKED,
        peers_offset: 0x1_0008,
        reset_type_offset: 0x1_0010,
        reset_type_shutdown: 0,
        reset_type_cold_reboot: 1,
        reset_type_warm_reboot: 2,
        next_addr_pa_offset: 0x1_0018,
        next_mode_pa_offset: 0x1_0020,
        next_arg1_pa_offset: 0x1_0028,
        hsm_state_pa_offset: 0x1_0030,
        msip_pa_offset: 0x1_0038,
        force_park_req_pa_offset: 0x1_0040,
        force_park_req_value_offset: 0x1_0048,
        next_mode_s: 1,
        hsm_state_stopped: 1,
        hsm_state_start_pending: 2,
    }
}

fn no_cells() -> PurgatoryCells {
    PurgatoryCells {
        status: None,
        peers: None,
        next_addr_pa: None,
        next_mode_pa: None,
        next_arg1_pa: None,
        hsm_state_pa: None,
        msip_pa: None,
        force_park_req_pa: None,
        force_park_req_value: None,
    }
}

fn parked_cells() -> PurgatoryCells {
    PurgatoryCells {
        status: Some(PARKED),
        peers: Some(0xf),
        next_addr_pa: Some(0x100),
        next_mode_pa: Some(0x108),
        next_arg1_pa: Some(0x110),
        hsm_state_pa: Some(0x118),
        msip_pa: Some(0x200_0000),
        force_park_req_pa: Some(0x120),
        force_park_req_value: Some(0x1_0000_0002),
    }
}

fn meta() -> ParkedReleaseMeta {
    ParkedReleaseMeta {
        next_addr_pa: 0x100,
        next_mode_pa: 0x108,
        next_arg1_pa: 0x110,
        hsm_state_pa: 0x118,
        msip_pa: 0x200_0000,
    }
}

fn io(message: &str) -> IoSource {
    IoSource { kind: std::io::ErrorKind::Other, code: None, message: message.to_string() }
}

fn request() -> BootRequest {
    BootRequest {
        l2cpu: 1,
        opensbi: "fw.bin".into(),
        payload: BootPayload::Kernel { path: "Image".into() },
        dtb: "card.dtb".into(),
        initramfs: None,
        root_device: "/dev/vda".into(),
        disk: Some("root.ext4".into()),
        network: true,
        extra_fwd: vec![(8080, 80)],
        console: false,
        rng: true,
        force: false,
        memory_override: None,
        hostname_override: None,
        cloud_init: Some("seed.iso".into()),
    }
}

fn step(t: BootTarget, phase: BootPhase, event: BootEvent) -> BootPhase {
    dispatch_boot(t, 1, phase, event, &purgatory())
}

#[test]
fn a_boot_of_an_empty_slot_is_cold() {
    let state = DaemonState::new(0);
    let (t, phase) = begin_boot(&state, &request()).unwrap();
    assert_eq!(t, BootTarget { force: false, occupied: false });
    assert!(matches!(phase, BootPhase::ReadSiblings));
    let s = siblings(&state, 1, &[None, None, None, None], &purgatory());
    assert_eq!(s, [Sibling::Absent; 4]);
    let phase = step(t, phase, BootEvent::Siblings(s));
    assert!(matches!(phase, BootPhase::ResetBoard([false, false, false, false])));
    let phase = step(t, phase, BootEvent::Done);
    assert!(matches!(phase, BootPhase::Sequence));
    let phase = step(t, phase, BootEvent::Done);
    assert!(matches!(phase, BootPhase::MakeSlot));
    let phase = step(t, phase, BootEvent::Done);
    assert!(matches!(phase, BootPhase::Register));
    let phase = step(t, phase, BootEvent::Done);
    assert!(matches!(phase, BootPhase::ReleaseReset));
    assert!(matches!(step(t, phase, BootEvent::Done), BootPhase::Booted));
}

#[test]
fn a_boot_is_refused_before_anything_is_touched() {
    let state = DaemonState::new(0);
    let mut req = request();
    req.l2cpu = 4;
    assert_eq!(begin_boot(&state, &req).unwrap_err().to_string(), "l2cpu must be 0..3");
    req.payload = BootPayload::Uboot { path: "u-boot.bin".into() };
    req.initramfs = Some("initrd".into());
    assert_eq!(
        begin_boot(&state, &req).unwrap_err().to_string(),
        "--initramfs is not supported in --uboot mode (U-Boot loads initrd from disk)"
    );
}

#[test]
fn a_parked_core_is_released_instead() {
    let mut state = DaemonState::new(0);
    state.l2cpus[1] = Some(L2CpuSlot::new(1));
    let (t, phase) = begin_boot(&state, &request()).unwrap();
    assert!(t.occupied);
    match step(t, phase, BootEvent::Cells(parked_cells())) {
        BootPhase::Release(m) => assert_eq!(m, meta()),
        other => panic!("{other:?}"),
    }
}

#[test]
fn an_occupied_slot_has_to_be_forced() {
    let t = BootTarget { force: false, occupied: true };
    match step(t, BootPhase::ReadParked, BootEvent::Cells(no_cells())) {
        BootPhase::Failed(f) => assert_eq!(
            boot_error(f, 1).to_string(),
            "l2cpu 1 is already booted; stop it first, or re-run with --force"
        ),
        other => panic!("{other:?}"),
    }
}

#[test]
fn a_forced_boot_makes_the_core_park() {
    let t = BootTarget { force: true, occupied: true };
    let mut running = parked_cells();
    running.status = Some(0);
    let phase = step(t, BootPhase::ReadParked, BootEvent::Cells(running));
    assert!(matches!(phase, BootPhase::ReadForcePark));
    let phase = step(t, phase, BootEvent::Cells(running));
    let f = match &phase {
        BootPhase::FireForcePark(f) => *f,
        other => panic!("{other:?}"),
    };
    assert_eq!(
        force_park_writes(&f),
        vec![(0x120, 2), (0x124, 1), (0x200_0000, 1)]
    );
    let phase = step(t, phase, BootEvent::Done);
    let phase = step(t, phase, BootEvent::Status { status: Some(0), late: false });
    assert!(matches!(phase, BootPhase::PollParked));
    let again = step(t, BootPhase::PollParked, BootEvent::Status { status: Some(PARKED), late: true });
    assert!(matches!(again, BootPhase::ReadParkedAgain));
    assert!(matches!(
        step(t, again, BootEvent::Cells(parked_cells())),
        BootPhase::Release(_)
    ));
    match step(t, phase, BootEvent::Status { status: None, late: true }) {
        BootPhase::Failed(f) => assert_eq!(
            boot_error(f, 3).to_string(),
            "internal: force-park l2cpu 3: PARKED magic not seen within 10s after firing IPI"
        ),
        other => panic!("{other:?}"),
    }
}

#[test]
fn a_core_that_cannot_be_parked_is_torn_down() {
    let t = BootTarget { force: true, occupied: true };
    let phase = step(t, BootPhase::ReadForcePark, BootEvent::Cells(no_cells()));
    assert!(matches!(phase, BootPhase::TearDown));
    assert!(matches!(step(t, phase, BootEvent::Done), BootPhase::ReadSiblings));
}

#[test]
fn the_board_is_not_reset_under_a_running_core() {
    let mut state = DaemonState::new(0);
    state.l2cpus[0] = Some(L2CpuSlot::new(0));
    state.l2cpus[2] = Some(L2CpuSlot::new(2));
    let s = siblings(&state, 1, &[Some(PARKED), None, Some(0), None], &purgatory());
    assert_eq!(s, [Sibling::Parked, Sibling::Absent, Sibling::Running, Sibling::Absent]);
    assert_eq!(maybe_opportunistic_reset_board(&s), None);
    let s = siblings(&state, 1, &[Some(PARKED), None, Some(PARKED), None], &purgatory());
    assert_eq!(maybe_opportunistic_reset_board(&s), Some([true, false, true, false]));
    let t = BootTarget { force: false, occupied: false };
    let running = [Sibling::Running, Sibling::Absent, Sibling::Absent, Sibling::Absent];
    assert!(matches!(
        step(t, BootPhase::ReadSiblings, BootEvent::Siblings(running)),
        BootPhase::Sequence
    ));
}

#[test]
fn a_failed_boot_says_where_it_failed() {
    let cases: Vec<(BootFailure, &str)> = vec![
        (BootFailure::ForcePark(io("x")), "write force-park request bit: x"),
        (BootFailure::ForceParkInterrupt(io("x")), "write CLINT MSIP for force-park: x"),
        (BootFailure::ResetBoard(io("x")), "opportunistic reset_board: x"),
        (BootFailure::Sequence(io("x")), "boot failed: x"),
        (BootFailure::MakeSlot(io("x")), "post-boot L2Cpu init failed: x"),
    ];
    for (f, text) in cases {
        assert_eq!(boot_error(f, 0).to_string(), text);
    }
}

#[test]
fn memory_is_given_in_whole_steps() {
    assert_eq!(memory_size(None, 0x1_0000_0000), 0x1_0000_0000);
    assert_eq!(memory_size(Some(0x4000_0001), 0x1_0000_0000), 0x4000_0000);
    assert_eq!(memory_size(Some(0x2_0000_0000), 0x1_0000_0000), 0x1_0000_0000);
    assert_eq!(memory_size(Some(1), 0x1_0000_0000), 0);
}

fn memory_map() -> MemoryMap {
    MemoryMap {
        starting_address: [0x1_0000_0000, 0x2_0000_0000, 0x3_0000_0000, 0x4_0000_0000],
        memory_size: [0x1_0000_0000; 4],
    }
}

fn image_regs() -> BootImageRegs {
    BootImageRegs {
        opensbi_offset: 0,
        kernel_offset: 0x20_0000,
        dtb_offset: 0x600_0000,
        initramfs_offset: 0x800_0000,
    }
}

#[test]
fn a_boot_is_planned_from_its_request() {
    let req = request();
    assert!(needs_engine(&req));
    let plan = run_boot_sequence(
        &req, None, Some(0x9000_0000), false, &memory_map(), &image_regs(), &engine(), &virtio(),
    );
    assert_eq!(plan.mem_start, 0x2_0000_0000);
    assert_eq!(plan.memory_size, 0x1_0000_0000);
    assert_eq!(plan.opensbi_addr, 0x2_0000_0000);
    assert_eq!(plan.kernel_addr, 0x2_0020_0000);
    assert_eq!(plan.dtb_addr, 0x2_0600_0000);
    assert_eq!(plan.rootfs_addr, 0x2_0800_0000);
    assert!(matches!(&plan.device, BootDevice::Vda(d) if d == "/dev/vda"));
    let nodes: Vec<(u64, u64, u32)> = plan.nodes.iter().map(|n| (n.addr, n.size, n.irq)).collect();
    assert_eq!(
        nodes,
        vec![
            (0x9000_0000, 0x1000, 33),
            (0x9000_1000, 0x1000, 34),
            (0x9000_3000, 0x1000, 36),
            (0x9000_4000, 0x1000, 37),
        ]
    );
    assert_eq!(plan.shutdown_addr, Some(0x9000_8000));

    let plan = run_boot_sequence(
        &req, Some(77), None, false, &memory_map(), &image_regs(), &engine(), &virtio(),
    );
    assert!(matches!(
        &plan.device,
        BootDevice::InitramfsAndVda { addr: 0x2_0800_0000, len: 77, dev } if dev == "/dev/vda"
    ));
    assert!(plan.nodes.is_empty());
    assert_eq!(plan.shutdown_addr, None);

    let plan = run_boot_sequence(
        &req, None, Some(0), true, &memory_map(), &image_regs(), &engine(), &virtio(),
    );
    assert_eq!(plan.shutdown_addr, None);
}

#[test]
fn the_devices_of_a_boot_end_up_in_its_slot() {
    let req = request();
    let kinds = devices_to_register(&req);
    assert_eq!(
        kinds,
        vec![
            BootDeviceKind::Rng,
            BootDeviceKind::Disk,
            BootDeviceKind::Seed,
            BootDeviceKind::Net,
        ]
    );
    let r = registration(1, BootDeviceKind::Rng, &engine(), &virtio());
    assert_eq!((r.slot_idx, r.irq), (9, 36));
    let mut slot = L2CpuSlot::new(1);
    for kind in kinds {
        device_registered(&mut slot, &req, kind, &engine(), &virtio());
    }
    assert_eq!(slot.disks.len(), 2);
    assert_eq!((slot.disks[0].path.as_str(), slot.disks[0].slot_idx), ("root.ext4", 6));
    assert_eq!(slot.disks[0].name, None);
    assert_eq!((slot.disks[1].path.as_str(), slot.disks[1].slot_idx), ("seed.iso", 10));
    assert_eq!(slot.disks[1].name.as_deref(), Some("cidata"));
    assert!(slot.net);
    assert_eq!(slot.net_extra_fwd, vec![(8080, 80)]);
    assert!(slot.virtio_console.is_none());
    device_registered(&mut slot, &req, BootDeviceKind::Console, &engine(), &virtio());
    assert!(slot.virtio_console.is_some());
}

#[test]
fn an_installed_slot_is_counted_and_no_longer_wedged() {
    let mut state = DaemonState::new(0);
    state.wedged[1] = true;
    state.shutdown_tails[1] = b"old".to_vec();
    forget_tail(&mut state, 1);
    assert!(state.shutdown_tails[1].is_empty());
    let mut boots = PerL2cpuCounter::new();
    install_slot(&mut state, 1, L2CpuSlot::new(1), &mut boots);
    assert!(state.l2cpus[1].is_some());
    assert!(!state.wedged[1]);
    assert_eq!(boots.values(), [0, 1, 0, 0]);
}

#[test]
fn words_are_joined_from_their_halves() {
    assert_eq!(word64(Some(2), Some(1)), Some(0x1_0000_0002));
    assert_eq!(word64(Some(2), None), None);
    assert_eq!(word64(None, Some(2)), None);
}

#[test]
fn a_core_is_released_only_with_all_addresses() {
    assert_eq!(read_parked_release_meta(&parked_cells(), &purgatory()), Some(meta()));
    let mut cells = parked_cells();
    cells.msip_pa = Some(0);
    assert_eq!(read_parked_release_meta(&cells, &purgatory()), None);
    assert_eq!(trigger_force_park_if_available(&cells), None);
    let mut cells = parked_cells();
    cells.status = Some(1);
    assert_eq!(read_parked_release_meta(&cells, &purgatory()), None);
    assert_eq!(
        trigger_force_park_if_available(&cells),
        Some(ForcePark { request_pa: 0x120, request_value: 0x1_0000_0002, msip_pa: 0x200_0000 })
    );
    assert!(read_parked_state(Some(PARKED), &purgatory()));
    assert!(!read_parked_state(None, &purgatory()));
    assert!(detect_park_transition(false, true));
    assert_eq!(read_parked_reset_type(None, &purgatory()), 0);
    assert_eq!(read_parked_reset_type(Some(2), &purgatory()), 2);
}

fn target() -> ReleaseTarget {
    ReleaseTarget {
        l2cpu: 2,
        meta: meta(),
        status_pa: 0x10,
        kernel_addr: 0x2_0020_0000,
        dtb_addr: 0x2_0600_0000,
    }
}

#[test]
fn a_release_writes_in_order() {
    assert_eq!(
        prepare_writes(&target(), &purgatory()),
        vec![
            (0x10, 0),
            (0x14, 0),
            (0x100, 0x20_0000),
            (0x104, 2),
            (0x108, 1),
            (0x10c, 0),
            (0x110, 0x600_0000),
            (0x114, 2),
        ]
    );
    assert_eq!(wake_writes(&target(), &purgatory()), vec![(0x118, 2), (0x200_0000, 1)]);
}

#[test]
fn a_release_goes_through_its_phases() {
    let regs = purgatory();
    let mut phase = ReleasePhase::ReadKernel;
    for _ in 0..3 {
        phase = dispatch_release(phase, ReleaseEvent::Done, &regs);
    }
    assert!(matches!(phase, ReleasePhase::ReadHsm));
    match dispatch_release(ReleasePhase::ReadHsm, ReleaseEvent::Hsm(0), &regs) {
        ReleasePhase::Failed(f) => assert_eq!(
            release_error(f, &target(), "Image").to_string(),
            "internal: release l2cpu 2: hart 0 HSM state 0 (expected STOPPED=1) \u{2014} refusing to release"
        ),
        other => panic!("{other:?}"),
    }
    let phase = dispatch_release(phase, ReleaseEvent::Hsm(1), &regs);
    assert!(matches!(phase, ReleasePhase::Wake));
    assert!(matches!(
        dispatch_release(phase, ReleaseEvent::Done, &regs),
        ReleasePhase::Released
    ));
}

#[test]
fn a_failed_release_says_where_it_failed() {
    let cases: Vec<(ReleaseFailure, &str)> = vec![
        (ReleaseFailure::ReadKernel(io("x")), "read kernel Image: x"),
        (ReleaseFailure::WriteKernel(io("x")), "kernel re-image: x"),
        (ReleaseFailure::Prepare { at: 1, source: io("x") }, "clear purgatory magic: x"),
        (ReleaseFailure::Prepare { at: 2, source: io("x") }, "write u64 @ 0x100: x"),
        (ReleaseFailure::Prepare { at: 7, source: io("x") }, "write u64 @ 0x110: x"),
        (ReleaseFailure::ReadHsm(io("x")), "read hsm state: x"),
        (ReleaseFailure::Wake { at: 0, source: io("x") }, "write hsm state START_PENDING: x"),
        (ReleaseFailure::Wake { at: 1, source: io("x") }, "write CLINT MSIP: x"),
    ];
    for (f, text) in cases {
        assert_eq!(release_error(f, &target(), "Image").to_string(), text);
    }
}

#[test]
fn a_pass_follows_the_core() {
    let regs = purgatory();
    let start = 0x1_0000_0000;
    let t0 = 5_000_000_000;
    let go = |s, e| uart_pass(start, s, e, &regs);
    let s = begin_pass(t0);
    let s = go(s, PassEvent::Pointer(0x40));
    assert_eq!(s.phase, PassPhase::ReadDescriptor { at: start + 0x40 });
    let lost = go(s, PassEvent::Descriptor(Err(DescriptorError::VirtuartBaseUninit)));
    assert_eq!(lost.phase, PassPhase::Ended(UartExit::Retry));
    let s = go(s, PassEvent::Descriptor(Ok(0x80)));
    assert_eq!(s.phase, PassPhase::OpenQueues { at: 0x80 });
    let s = go(s, PassEvent::Done);
    let s = go(s, PassEvent::ExitRequested(false));
    assert_eq!(s.phase, PassPhase::CheckMagic);
    let s = go(s, PassEvent::Magic { magic: VIRTUAL_UART_MAGIC, now: t0 });
    assert_eq!(s.phase, PassPhase::ProbeParked);
    let s = go(s, PassEvent::Status(Some(PARKED)));
    assert_eq!(s.phase, PassPhase::HandlePark);
    let s = go(s, PassEvent::Done);
    let s = go(s, PassEvent::Output { bytes: 3 });
    assert_eq!(s.phase, PassPhase::TakeInput { active: true });
    let s = go(s, PassEvent::Input(b'a'));
    let s = go(s, PassEvent::Pushed(false));
    assert_eq!(s.phase, PassPhase::WaitForRoom { byte: b'a' });
    let s = go(s, PassEvent::ExitRequested(false));
    let s = go(s, PassEvent::Pushed(true));
    let s = go(s, PassEvent::NoInput);
    let s = go(s, PassEvent::Now(t0 + 10));
    assert_eq!(s.phase, PassPhase::Sleep(Tier::Fast));
    assert_eq!(s.last_active, t0 + 10);
    // Seen parked again, the guest is not dealt with twice.
    let s = go(s, PassEvent::Done);
    let s = go(s, PassEvent::ExitRequested(false));
    let later = t0 + PARKED_PROBE_INTERVAL;
    let s = go(s, PassEvent::Magic { magic: VIRTUAL_UART_MAGIC, now: later });
    let s = go(s, PassEvent::Status(Some(PARKED)));
    assert_eq!(s.phase, PassPhase::DrainOutput);
    let s = go(s, PassEvent::Output { bytes: 0 });
    let s = go(s, PassEvent::NoInput);
    let slow = go(s, PassEvent::Now(t0 + 10 + FAST_WINDOW));
    assert_eq!(slow.phase, PassPhase::Sleep(Tier::Slow));
    let idle = go(s, PassEvent::Now(t0 + 10 + IDLE_WINDOW));
    assert_eq!(idle.phase, PassPhase::Sleep(Tier::Idle));
    assert_eq!(go(idle, PassEvent::Failed).phase, PassPhase::Failed);
}

#[test]
fn turns_and_bytes_are_counted() {
    let mut m = Metrics::new();
    assert_eq!(count_turn(&mut m, 2, Tier::Fast), FAST_SLEEP);
    assert_eq!(count_turn(&mut m, 2, Tier::Idle), IDLE_SLEEP);
    assert_eq!(m.worker_poll_iterations_total.value(WorkerKind::ChipConsole, 2, Tier::Fast), 1);
    assert_eq!(
        m.worker_tier_nanos_total.value(WorkerKind::ChipConsole, 2, Tier::Idle),
        IDLE_SLEEP
    );
    count_output(&mut m, 1, 5);
    count_input(&mut m, 1);
    assert_eq!(m.l2cpu_console_bytes_total.g2h_values(), [0, 5, 0, 0]);
    assert_eq!(m.l2cpu_console_bytes_total.h2g_values(), [0, 1, 0, 0]);
}

#[test]
fn a_guest_that_reboots_comes_back() {
    let steps = park_steps(1, Some(1), &purgatory());
    assert_eq!(steps.len(), 7);
    assert!(matches!(
        &steps[0],
        ParkStep::Announce(l) if l == "\r\n[bhx: l2cpu 1 rebooting (auto-release)\u{2026}]\r\n"
    ));
    assert!(matches!(steps[2], ParkStep::DropNet));
    assert!(matches!(steps[3], ParkStep::Pause(1)));
    assert!(matches!(steps[5], ParkStep::ReattachNet));
    assert!(matches!(steps[6], ParkStep::AutoRelease));
}

#[test]
fn a_guest_that_powers_off_is_let_go() {
    for word in [Some(0), None] {
        let steps = park_steps(1, word, &purgatory());
        assert_eq!(steps.len(), 4);
        assert!(matches!(steps[0], ParkStep::DropWorkers));
        assert!(matches!(steps[1], ParkStep::Disconnect(_)));
        assert!(matches!(steps[2], ParkStep::ClearScrollback));
        assert!(matches!(steps[3], ParkStep::DrainInput));
    }
}

#[test]
fn a_reboot_needs_what_was_booted() {
    assert_eq!(
        auto_reboot_failed(2, "slot is gone"),
        "[bhx: auto-reboot failed: slot is gone; run `bhx boot -l 2` to release]\r\n"
    );
    let none: Option<L2CpuSlot> = None;
    assert_eq!(
        auto_release_for_reboot(Err("x".to_string()), &none),
        Err("read_parked_release_meta: x".to_string())
    );
    assert_eq!(
        auto_release_for_reboot(Ok(None), &none),
        Err("slot not parked when auto-reboot fired".to_string())
    );
    assert_eq!(
        auto_release_for_reboot(Ok(Some(meta())), &none),
        Err("slot is gone".to_string())
    );
    let mut slot = Some(L2CpuSlot::new(0));
    assert_eq!(
        auto_release_for_reboot(Ok(Some(meta())), &slot),
        Err("no cached boot_payload (warm-resumed slot has no cold-boot args)".to_string())
    );
    let payload = BootPayload::Uboot { path: "u-boot.bin".into() };
    slot.as_mut().unwrap().boot_payload = Some(copy_payload(&payload));
    assert_eq!(
        auto_release_for_reboot(Ok(Some(meta())), &slot),
        Ok((meta(), "u-boot.bin", true))
    );
}

#[test]
fn the_network_of_a_rebooting_guest_is_put_aside() {
    let mut state = DaemonState::new(0);
    let mut slot = L2CpuSlot::new(1);
    slot.net = true;
    slot.net_extra_fwd = vec![(1, 2)];
    state.l2cpus[1] = Some(slot);
    assert_eq!(drop_net_for_reboot(&mut state, 1, &engine()), None);
    state.l2cpus[1].as_mut().unwrap().boot_payload =
        Some(BootPayload::Kernel { path: "Image".into() });
    assert_eq!(drop_net_for_reboot(&mut state, 1, &engine()), Some((7, vec![(1, 2)])));
    assert!(!state.l2cpus[1].as_ref().unwrap().net);
    assert_eq!(drop_net_for_reboot(&mut state, 1, &engine()), None);
}

#[test]
fn the_devices_of_a_guest_that_powered_off_are_detached() {
    let mut state = DaemonState::new(0);
    assert!(drop_workers_on_shutdown_park(&mut state, 0, &engine()).is_none());
    let req = request();
    let mut slot = L2CpuSlot::new(1);
    device_registered(&mut slot, &req, BootDeviceKind::Disk, &engine(), &virtio());
    device_registered(&mut slot, &req, BootDeviceKind::Net, &engine(), &virtio());
    slot.virtio_rng = true;
    slot.virtio_console = Some(VirtioConsoleSlot { input_buf: Default::default() });
    state.l2cpus[1] = Some(slot);
    let d = drop_workers_on_shutdown_park(&mut state, 1, &engine()).unwrap();
    assert_eq!(d.disks.len(), 1);
    assert_eq!(d.slots, vec![6, 7, 8, 9]);
    let left = state.l2cpus[1].as_ref().unwrap();
    assert!(left.disks.is_empty() && !left.net && !left.virtio_rng);
    assert!(left.virtio_console.is_none());
}

#[test]
fn a_running_core_is_probed_before_it_is_adopted() {
    let p = probe_warm_resume(0x1000, ProbePhase::ReadPointer, ProbeEvent::Pointer(0x20));
    assert_eq!(p, ProbePhase::ReadDescriptor { at: 0x1020 });
    let q = probe_warm_resume(0x1000, p, ProbeEvent::Descriptor(Ok(0x99)));
    assert_eq!(q, ProbePhase::ReadMagic { at: 0x99 });
    assert_eq!(probe_warm_resume(0x1000, q, ProbeEvent::Magic(Ok(()))), ProbePhase::Viable);
    assert_eq!(probe_warm_resume(0x1000, q, ProbeEvent::Magic(Err(0))), ProbePhase::Wedged);
    assert_eq!(probe_warm_resume(0x1000, p, ProbeEvent::Failed), ProbePhase::Wedged);
}

#[test]
fn the_status_of_a_slot_is_what_was_read() {
    let none: Option<L2CpuSlot> = None;
    let st = slot_status(3, &none, false, &no_cells(), &purgatory());
    assert_eq!((st.idx, st.state), (3, L2CpuState::Stopped));
    let st = slot_status(3, &none, true, &no_cells(), &purgatory());
    assert_eq!(st.state, L2CpuState::Wedged);
    let slot = Some(L2CpuSlot::new(0));
    let st = slot_status(0, &slot, false, &no_cells(), &purgatory());
    assert_eq!(st.state, L2CpuState::Running);
    let st = slot_status(0, &slot, false, &parked_cells(), &purgatory());
    assert_eq!(st.state, L2CpuState::Parked);
    assert_eq!(st.purgatory_status, Some(PARKED));
    assert_eq!(st.purgatory_release_meta.unwrap().msip_pa, 0x200_0000);
}

#[test]
fn the_clock_is_told_from_its_registers() {
    let cntl1 = 140 << 16;
    assert_eq!(pll_fields(Some(cntl1), Some(1)), (Some(140), Some(1)));
    assert_eq!(pll_fields(None, Some(1)), (None, None));
    assert_eq!(pll_mhz(cntl1, 1), 1750);
    assert_eq!(
        pll_watch(None, cntl1, 1).unwrap(),
        "[pll-watcher] PLL4 fbdiv=140 postdiv0=1 \u{2192} 1750 MHz (CNTL1=0x008c0000 CNTL5=0x00000001)"
    );
    assert_eq!(pll_watch(Some((cntl1, 1)), cntl1, 1), None);
    let state = DaemonState::new(5);
    let cells = [no_cells(), no_cells(), no_cells(), no_cells()];
    let p = dispatch_status(&state, &cells, Some(cntl1), Some(1), 77, 9, &purgatory());
    assert_eq!((p.pid, p.uptime_secs), (77, 9));
    assert_eq!((p.pll_fbdiv, p.pll_postdiv0), (Some(140), Some(1)));
    assert_eq!(p.l2cpus.len(), 4);
}

#[test]
fn cores_out_of_reset_are_found_and_adopted() {
    assert_eq!(probe_initial_chip_state(None), Vec::<u8>::new());
    assert_eq!(probe_initial_chip_state(Some(0)), Vec::<u8>::new());
    assert_eq!(probe_initial_chip_state(Some(u32::MAX)), vec![0, 1, 2, 3]);
    assert_eq!(probe_initial_chip_state(Some(0x9f)), vec![0, 3]);
    let mut state = DaemonState::new(0);
    let mut boots = PerL2cpuCounter::new();
    warm_resume_released(&mut state, 0, Adoption::Wedged, &mut boots);
    assert!(state.wedged[0] && state.l2cpus[0].is_none());
    warm_resume_released(&mut state, 1, Adoption::Adopted(L2CpuSlot::new(1)), &mut boots);
    assert!(!state.wedged[1] && state.l2cpus[1].is_some());
    assert_eq!(boots.values(), [0, 1, 0, 0]);
}

#[test]
fn the_clock_idles_once_nothing_runs() {
    let mut state = DaemonState::new(0);
    let held = [Some(false); 4];
    assert!(state.maybe_idle_pll(&held));
    assert!(!state.maybe_idle_pll(&[Some(false), None, Some(false), Some(false)]));
    assert!(!state.maybe_idle_pll(&[Some(false), Some(true), Some(false), Some(false)]));
    state.l2cpus[2] = Some(L2CpuSlot::new(2));
    assert!(!state.maybe_idle_pll(&held));
}
