//! The commands around the daemon, what confines it, and its requests to the driver.
use blackhole_linux::daemon::protocol::{L2CpuState, L2CpuStatus, StatusPayload};
use blackhole_linux::daemon::runner::{
    already_running, logs, resolve_log_path, restart, status, status_failure, Silence, StartOpts,
};
use blackhole_linux::daemon::sandbox::{
    accept_enforcement, apply, apply_landlock, apply_seccomp, seccomp_program, Enforcement,
    SandboxStep, Surroundings, Syscall,
};
use blackhole_linux::error::Error;
use blackhole_linux::host_buf::{allocate_request, round_to_pages};
use blackhole_linux::kmd::{
    device_path, io, request_max_power, reset_device, validity, ResetDeviceOut,
    IOCTL_ALLOCATE_DMA_BUF, IOCTL_ALLOCATE_TLB, IOCTL_CONFIGURE_TLB, IOCTL_FREE_TLB,
    IOCTL_GET_DEVICE_INFO, IOCTL_RESET_DEVICE, IOCTL_SET_POWER_STATE, TENSTORRENT_IOCTL_MAGIC,
};
use blackhole_linux::text::{
    chars_of, decode, parse_between, push_dec_padded, push_hex, push_hex_padded, push_quoted,
    push_signed, same, trim_bounds, word_end, ParseError,
};

#[test]
fn a_daemon_is_restarted_only_once_it_is_gone() {
    assert_eq!(
        restart(3, true, Some("/log".to_string()), Ok(())).unwrap(),
        StartOpts { card: 3, foreground: true, log_file: Some("/log".to_string()) }
    );
    let e = restart(3, true, None, Err(Error::internal("no"))).unwrap_err();
    assert_eq!(e.to_string(), "internal: no");
}

#[test]
fn a_second_daemon_is_told_of_the_first() {
    assert_eq!(
        already_running(0, Some(12), "/s"),
        "daemon already running for card 0 (pid 12) (sock: /s)"
    );
    assert_eq!(already_running(0, None, "/s"), "daemon already running for card 0 (sock: /s)");
}

#[test]
fn the_log_is_where_the_sidecar_says() {
    assert_eq!(resolve_log_path(None, "/usual"), "/usual");
    assert_eq!(resolve_log_path(Some(" \n"), "/usual"), "/usual");
    assert_eq!(resolve_log_path(Some(" /else/where.log\n"), "/usual"), "/else/where.log");
}

#[test]
fn the_last_lines_of_a_log_are_shown() {
    let text = "one\ntwo\r\nthree\n\nfive";
    assert_eq!(logs(text, 2), vec!["", "five"]);
    assert_eq!(logs(text, 9), vec!["one", "two", "three", "", "five"]);
    assert!(logs("", 3).is_empty());
    assert!(logs(text, 0).is_empty());
}

#[test]
fn the_status_is_shown_line_by_line() {
    let l = L2CpuStatus {
        idx: 1,
        state: L2CpuState::Parked,
        disk: Some("root.ext4".to_string()),
        disks: vec![],
        net: true,
        virtio_console: false,
        clients: 2,
        purgatory_status: None,
        purgatory_peers: None,
        purgatory_release_meta: None,
    };
    let p = StatusPayload {
        pid: 7,
        uptime_secs: 99,
        l2cpus: vec![l],
        engine_tile: None,
        pll_fbdiv: None,
        pll_postdiv0: None,
    };
    let lines = status(4, &p, "/s");
    assert_eq!(lines.len(), 2);
    assert!(lines[0].starts_with("daemon: running (card 4, pid 7, uptime 99s"), "{}", lines[0]);
    assert_eq!(lines[1], "  l2cpu 1: Parked disk=root.ext4 net=y clients=2");
}

#[test]
fn a_silent_daemon_is_told_apart_from_none() {
    assert_eq!(status_failure(1, Silence::NotRunning, ""), "daemon: not running for card 1");
    assert_eq!(
        status_failure(1, Silence::NoAnswer, "eof"),
        "daemon: running but RPC failed (eof)"
    );
    assert_eq!(
        status_failure(1, Silence::Unreachable, "gone"),
        "daemon: lockfile held but socket unreachable (gone)"
    );
}

#[test]
fn the_daemon_touches_little() {
    let rules = apply_landlock(&Surroundings {
        card: 2,
        runtime_dir: "/run/bhx/2",
        log_dir: Some("/var/log"),
        cwd: Some("/work"),
        cwd_parent: None,
        system_dirs: [true, false, false, false, false, true],
    });
    let paths: Vec<&str> = rules.iter().map(|r| r.path.as_str()).collect();
    assert_eq!(
        paths,
        vec![
            "/dev/tenstorrent/2",
            "/dev/urandom",
            "/run/bhx/2",
            "/var/log",
            "/work",
            "/etc",
            "/tmp",
        ]
    );
    assert!(rules[0].access.write_file && !rules[0].access.read_dir);
    assert!(!rules[1].access.write_file);
    assert!(rules[2].access.remove_file);
    assert!(rules[3].access.make_reg);
    for r in &rules[4..] {
        assert!(r.access.read_file && r.access.read_dir);
        assert!(!r.access.write_file && !r.access.make_reg && !r.access.remove_file);
    }
    assert_eq!(apply(), [SandboxStep::Files, SandboxStep::Syscalls]);
    assert_eq!(
        [Enforcement::Missing, Enforcement::Partial, Enforcement::Full].map(|e| e.status()),
        [0, 1, 2]
    );
    assert_eq!(accept_enforcement(Enforcement::Full), Ok(()));
    assert_eq!(accept_enforcement(Enforcement::Partial), Ok(()));
    assert_eq!(
        accept_enforcement(Enforcement::Missing),
        Err("landlock not enforced (no kernel support)".to_string())
    );
}

#[test]
fn the_daemon_may_make_few_system_calls() {
    let list = apply_seccomp();
    assert!(list.contains(&Syscall::Ioctl));
    assert!(list.contains(&Syscall::Clone3));
    for out in [Syscall::Connect, Syscall::Execve, Syscall::Fork, Syscall::Ptrace, Syscall::Bpf] {
        assert!(!list.contains(&out));
    }
}

#[test]
fn driver_requests_have_their_numbers() {
    for (nr, n) in [
        (0, IOCTL_GET_DEVICE_INFO),
        (3, IOCTL_ALLOCATE_DMA_BUF),
        (6, IOCTL_RESET_DEVICE),
        (11, IOCTL_ALLOCATE_TLB),
        (12, IOCTL_FREE_TLB),
        (13, IOCTL_CONFIGURE_TLB),
        (15, IOCTL_SET_POWER_STATE),
    ] {
        assert_eq!(io(TENSTORRENT_IOCTL_MAGIC, nr), n);
    }
    assert_eq!(device_path(11), "/dev/tenstorrent/11");
    assert_eq!(validity(4, 0), 4);
    assert_eq!(validity(0x1f, 0x12), 0x2f);
    let p = request_max_power(40);
    assert_eq!((p.argsz, p.validity, p.power_flags), (40, 4, 13));
    assert_eq!(p.power_settings, [0; 14]);
    assert!(reset_device(&ResetDeviceOut { output_size_bytes: 8, result: 0 }).is_ok());
    let e = reset_device(&ResetDeviceOut { output_size_bytes: 8, result: 3 }).unwrap_err();
    assert_eq!(e.code, Some(libc::EIO));
    assert_eq!(e.kind, std::io::Error::from_raw_os_error(libc::EIO).kind());
    assert_eq!(e.message, "RESET_DEVICE ioctl reported result=3");
}

#[test]
fn buffers_come_in_whole_pages() {
    assert_eq!(round_to_pages(0), 0);
    assert_eq!(round_to_pages(1), 4096);
    assert_eq!(round_to_pages(4096), 4096);
    assert_eq!(round_to_pages(4097), 8192);
    let r = allocate_request(5000, 3);
    assert_eq!((r.requested_size, r.buf_index), (8192, 3));
}

#[test]
fn text_is_read_and_written() {
    let mut s = String::new();
    push_signed(&mut s, -40);
    push_dec_padded(&mut s, 7, 3);
    push_hex(&mut s, 0xbeef);
    push_hex_padded(&mut s, 0xa, 4);
    assert_eq!(s, "-40007beef000a");
    let mut q = String::new();
    push_quoted(&mut q, "a\"\u{1}\u{200b}'\\");
    assert_eq!(q, format!("{:?}", "a\"\u{1}\u{200b}'\\"));
    assert_eq!(decode(b"h\xc3\xa9"), Some(vec!['h', '\u{e9}']));
    assert_eq!(decode(b"\xff"), None);
    assert!(same("x", "x") && !same("x", "xy"));
    let chars = chars_of("  12 b ");
    assert_eq!(trim_bounds(&chars), (2, 6));
    assert_eq!(word_end(&chars, 2), 4);
    assert_eq!(parse_between(&chars, 2, 4, 100), Ok(12));
    assert_eq!(parse_between(&chars, 2, 2, 100), Err(ParseError::Empty));
}

/// Runs a filter on a system call as the kernel does.
fn verdict(program: &[(u16, u8, u8, u32)], arch: u32, nr: u32) -> u32 {
    let mut acc = 0u32;
    let mut at = 0usize;
    loop {
        let (code, jt, jf, k) = program[at];
        at += 1;
        match code {
            // Load a word: the number stands at 0, the architecture at 4.
            0x20 => acc = if k == 0 { nr } else { arch },
            // Jump if equal.
            0x15 => at += usize::from(if acc == k { jt } else { jf }),
            // Jump always.
            0x05 => at += k as usize,
            // Return.
            0x06 => return k,
            other => panic!("no such instruction: {other:#x}"),
        }
    }
}

const X86_64: u32 = 0xC000_003E;
const ALLOW: u32 = 0x7fff_0000;
const NOT_PERMITTED: u32 = 0x0005_0001;

#[test]
fn only_listed_calls_pass_the_filter() {
    let numbers = [libc::SYS_write, libc::SYS_read, libc::SYS_futex];
    let program = seccomp_program(&numbers).unwrap();
    assert_eq!(program.len(), 20);
    for nr in 0..450u32 {
        let listed = numbers.contains(&i64::from(nr));
        let expected = if listed { ALLOW } else { NOT_PERMITTED };
        assert_eq!(verdict(&program, X86_64, nr), expected, "{nr}");
    }
    // Another architecture is not let through at all.
    assert_eq!(verdict(&program, 0xC000_00B7, 0), 0x8000_0000);
}

#[test]
fn the_order_of_the_list_does_not_matter() {
    assert_eq!(seccomp_program(&[1, 0, 1]).unwrap(), seccomp_program(&[0, 1]).unwrap());
    assert!(seccomp_program(&[]).is_ok());
    let whole: Vec<i64> = (0..apply_seccomp().len() as i64).collect();
    assert!(seccomp_program(&whole).is_ok());
}

#[test]
fn a_filter_has_an_end() {
    let fits: Vec<i64> = (0..818).collect();
    assert_eq!(seccomp_program(&fits).unwrap().len(), 4095);
    let too_many: Vec<i64> = (0..819).collect();
    assert_eq!(
        seccomp_program(&too_many).unwrap_err(),
        "seccomp filter compile: FilterTooLarge(4100)"
    );
}
