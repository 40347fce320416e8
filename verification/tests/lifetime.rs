use blackhole_linux::daemon::lifetime::{
    log_path, pid_text, pidfile_path, read_pid, reserved_tile_path, runtime_dir, socket_path, stop,
    stop_error, StopEvent, StopFailure, StopPhase,
};
use blackhole_linux::error::IoSource;

#[test]
fn runtime_dir_uses_xdg() {
    let p = runtime_dir(Some("/run/user/1000"), 1000, 0);
    assert!(p.starts_with("/run/user/1000"));
    assert!(p.ends_with("tt-bh-linux/0"));
}

#[test]
fn runtime_dir_falls_back_without_xdg() {
    let p = runtime_dir(None, 501, 2);
    assert_eq!(p, "/tmp/tt-bh-linux-501/tt-bh-linux/2");
    assert_eq!(runtime_dir(Some(""), 501, 2), p);
}

#[test]
fn a_shared_directory_is_not_nested() {
    assert_eq!(
        runtime_dir(Some("/run/tt-bh-linux"), 0, 1),
        "/run/tt-bh-linux/1"
    );
}

#[test]
fn the_files_of_a_daemon_stand_in_its_directory() {
    assert_eq!(socket_path("/run/x/0"), "/run/x/0/sock");
    assert_eq!(pidfile_path("/run/x/0"), "/run/x/0/pid");
    assert_eq!(log_path("/run/x/0"), "/run/x/0/log");
    assert_eq!(reserved_tile_path("/run/x/0"), "/run/x/0/reserved-tile");
}

#[test]
fn a_process_id_is_read_back() {
    assert_eq!(read_pid(&pid_text(4711)), Some(4711));
    assert_eq!(read_pid("  12 \n"), Some(12));
    assert_eq!(read_pid(""), None);
    assert_eq!(read_pid("12x"), None);
    assert_eq!(read_pid("4294967296"), None);
}

#[test]
fn stop_cleans_up_stale_files() {
    // no daemon holds the lock, whatever its files say
    let p = stop(StopPhase::CheckRunning, StopEvent::Running(false));
    assert!(matches!(p, StopPhase::CleanUp));
    let p = stop(p, StopEvent::Done);
    assert!(matches!(p, StopPhase::Stopped));
}

#[test]
fn stop_is_idempotent() {
    for _ in 0..2 {
        let p = stop(StopPhase::CheckRunning, StopEvent::Running(false));
        let p = stop(p, StopEvent::Done);
        assert!(matches!(p, StopPhase::Stopped));
        assert!(matches!(stop(p, StopEvent::Done), StopPhase::Stopped));
    }
}

#[test]
fn a_daemon_that_does_not_listen_is_killed() {
    let p = stop(StopPhase::CheckRunning, StopEvent::Running(true));
    assert!(matches!(p, StopPhase::ReadPid));
    let p = stop(p, StopEvent::Pid(Some(7)));
    assert!(matches!(p, StopPhase::Terminate { pid: 7 }));
    let p = stop(p, StopEvent::Done);
    let p = stop(
        p,
        StopEvent::Waited {
            running: true,
            late: false,
        },
    );
    assert!(matches!(p, StopPhase::Wait { pid: 7 }));
    let p = stop(
        p,
        StopEvent::Waited {
            running: true,
            late: true,
        },
    );
    let p = stop(p, StopEvent::Running(true));
    assert!(matches!(p, StopPhase::Kill { pid: 7 }));
    let p = stop(p, StopEvent::Done);
    assert!(matches!(p, StopPhase::CleanUp));
}

#[test]
fn a_daemon_without_an_id_is_not_stopped() {
    let p = stop(StopPhase::ReadPid, StopEvent::Pid(None));
    assert!(matches!(p, StopPhase::Failed(StopFailure::NoPid)));
    let source = IoSource {
        kind: std::io::ErrorKind::PermissionDenied,
        code: None,
        message: "denied".to_string(),
    };
    let p = stop(StopPhase::ReadPid, StopEvent::Failed(source));
    match p {
        StopPhase::Failed(f) => assert!(stop_error(f).1.contains("denied")),
        other => panic!("{:?}", other),
    }
}
