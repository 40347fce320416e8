//! Where a daemon keeps its files, and how it is stopped.
use vstd::prelude::*;
use vstd::string::*;

use crate::error::IoSource;
#[allow(unused_imports)]
use crate::path::{file_name, joined};
use crate::path::{ends_with_component, join};
#[allow(unused_imports)]
use crate::text::{a_number_is_read_back, dec, parsed, trim, ParseError};
use crate::text::{chars_of, dec_text, parse_between, push_dec, trim_bounds};

verus! {

/// The directory that the daemons of a user share.
pub const DIR_NAME: &'static str = "tt-bh-linux";

/// How long a daemon is given to stop by itself, in seconds.
pub const STOP_TIMEOUT_SECS: u64 = 5;

/// The directory above that of the daemons.
pub open spec fn base_dir(xdg: Option<Seq<char>>, uid: u32) -> Seq<char> {
    if xdg is Some && xdg->0.len() > 0 {
        xdg->0
    } else {
        "/tmp/tt-bh-linux-"@ + dec(uid as nat)
    }
}

/// The directory of the daemon of a card.
pub open spec fn runtime_path(xdg: Option<Seq<char>>, uid: u32, card: u32) -> Seq<char> {
    let base = base_dir(xdg, uid);
    let shared = if file_name(base) == Some(DIR_NAME@) {
        base
    } else {
        joined(base, DIR_NAME@)
    };
    joined(shared, dec(card as nat))
}

/// The directory of the daemon of a card. `xdg` is what `XDG_RUNTIME_DIR` holds; without it, the
/// directory lies under `/tmp` and bears the number of the user.
pub fn runtime_dir(xdg: Option<&str>, uid: u32, card: u32) -> (p: String)
    ensures
        p@ == runtime_path(
            match xdg {
                Some(x) => Some(x@),
                None => None,
            },
            uid,
            card,
        ),
{
    let mut base: String = String::new();
    match xdg {
        Some(x) => {
            base = x.to_owned();
        },
        None => {},
    }
    if base.as_str().unicode_len() == 0 {
        base = "/tmp/tt-bh-linux-".to_owned();
        push_dec(&mut base, uid as u64);
    }
    let number: String = dec_text(card as u64);
    if ends_with_component(base.as_str(), DIR_NAME) {
        join(base.as_str(), number.as_str())
    } else {
        let shared: String = join(base.as_str(), DIR_NAME);
        join(shared.as_str(), number.as_str())
    }
}

/// The control socket in a runtime directory.
pub fn socket_path(dir: &str) -> (p: String)
    ensures
        p@ == joined(dir@, "sock"@),
{
    join(dir, "sock")
}

/// The file that holds the daemon's process id.
pub fn pidfile_path(dir: &str) -> (p: String)
    ensures
        p@ == joined(dir@, "pid"@),
{
    join(dir, "pid")
}

pub fn log_path(dir: &str) -> (p: String)
    ensures
        p@ == joined(dir@, "log"@),
{
    join(dir, "log")
}

/// The file that says which tile the daemon keeps for itself.
pub fn reserved_tile_path(dir: &str) -> (p: String)
    ensures
        p@ == joined(dir@, "reserved-tile"@),
{
    join(dir, "reserved-tile")
}

/// What the file of a process id holds.
pub fn pid_text(pid: u32) -> (s: String)
    ensures
        s@ == dec(pid as nat) + "\n"@,
{
    let mut s: String = dec_text(pid as u64);
    s.append("\n");
    s
}

/// The process id in the contents of such a file; none where they are no number.
pub fn read_pid(contents: &str) -> (pid: Option<u32>)
    ensures
        match parsed(trim(contents@), u32::MAX as nat) {
            Ok(n) => pid matches Some(p) && p == n,
            Err(_) => pid is None,
        },
{
    let chars: Vec<char> = chars_of(contents);
    let (from, to): (usize, usize) = trim_bounds(chars.as_slice());
    match parse_between(chars.as_slice(), from, to, u32::MAX as u64) {
        Ok(n) => Some(n as u32),
        Err(_) => None,
    }
}

/// Where stopping a daemon stands, and so what is to be done next.
#[derive(Debug)]
pub enum StopPhase {
    /// See whether it runs.
    CheckRunning,
    /// Read its process id.
    ReadPid,
    /// Ask it to stop.
    Terminate { pid: u32 },
    /// See whether it still runs, after a pause where that was seen before.
    Wait { pid: u32 },
    /// See once more whether it runs.
    CheckAgain { pid: u32 },
    /// Make it stop, and wait a moment.
    Kill { pid: u32 },
    /// Remove its files.
    CleanUp,
    Stopped,
    Failed(StopFailure),
}

#[derive(Debug)]
pub enum StopFailure {
    /// It runs, but its process id is not known.
    NoPid,
    /// The file with the process id could not be read.
    Unreadable(IoSource),
}

/// What came of the last step.
#[derive(Debug)]
pub enum StopEvent {
    Running(bool),
    Pid(Option<u32>),
    /// Whether it still runs; `late` once its time is over.
    Waited { running: bool, late: bool },
    Done,
    Failed(IoSource),
}

pub open spec fn stop_next(phase: StopPhase, event: StopEvent) -> StopPhase {
    match (phase, event) {
        (StopPhase::CheckRunning, StopEvent::Running(running)) => if running {
            StopPhase::ReadPid
        } else {
            StopPhase::CleanUp
        },
        (StopPhase::ReadPid, StopEvent::Pid(pid)) => match pid {
            Some(pid) => StopPhase::Terminate { pid },
            None => StopPhase::Failed(StopFailure::NoPid),
        },
        (StopPhase::ReadPid, StopEvent::Failed(source)) => StopPhase::Failed(
            StopFailure::Unreadable(source),
        ),
        (StopPhase::Terminate { pid }, StopEvent::Done) => StopPhase::Wait { pid },
        (StopPhase::Wait { pid }, StopEvent::Waited { running, late }) => if !running || late {
            StopPhase::CheckAgain { pid }
        } else {
            StopPhase::Wait { pid }
        },
        (StopPhase::CheckAgain { pid }, StopEvent::Running(running)) => if running {
            StopPhase::Kill { pid }
        } else {
            StopPhase::CleanUp
        },
        (StopPhase::Kill { .. }, StopEvent::Done) => StopPhase::CleanUp,
        (StopPhase::CleanUp, StopEvent::Done) => StopPhase::Stopped,
        _ => phase,
    }
}

/// Takes stopping a daemon one step further.
pub fn stop(phase: StopPhase, event: StopEvent) -> (next: StopPhase)
    ensures
        next == stop_next(phase, event),
{
    match (phase, event) {
        (StopPhase::CheckRunning, StopEvent::Running(running)) => if running {
            StopPhase::ReadPid
        } else {
            StopPhase::CleanUp
        },
        (StopPhase::ReadPid, StopEvent::Pid(pid)) => match pid {
            Some(pid) => StopPhase::Terminate { pid },
            None => StopPhase::Failed(StopFailure::NoPid),
        },
        (StopPhase::ReadPid, StopEvent::Failed(source)) => StopPhase::Failed(
            StopFailure::Unreadable(source),
        ),
        (StopPhase::Terminate { pid }, StopEvent::Done) => StopPhase::Wait { pid },
        (StopPhase::Wait { pid }, StopEvent::Waited { running, late }) => if !running || late {
            StopPhase::CheckAgain { pid }
        } else {
            StopPhase::Wait { pid }
        },
        (StopPhase::CheckAgain { pid }, StopEvent::Running(running)) => if running {
            StopPhase::Kill { pid }
        } else {
            StopPhase::CleanUp
        },
        (StopPhase::Kill { .. }, StopEvent::Done) => StopPhase::CleanUp,
        (StopPhase::CleanUp, StopEvent::Done) => StopPhase::Stopped,
        (phase, _) => phase,
    }
}

/// What is reported of a daemon that could not be stopped, as the kind and the text of an I/O
/// error. A file that could not be read is reported as it was; the rest has no kind of its own.
pub fn stop_error(failure: StopFailure) -> (parts: (Option<std::io::ErrorKind>, String))
    ensures
        match failure {
            StopFailure::NoPid => parts.0 is None && parts.1@
                == "internal: daemon is running but pidfile is empty"@,
            StopFailure::Unreadable(source) => parts.0 == Some(source.kind) && parts.1
                == source.message,
        },
{
    match failure {
        StopFailure::NoPid => (
            None,
            "internal: daemon is running but pidfile is empty".to_owned(),
        ),
        StopFailure::Unreadable(source) => (Some(source.kind), source.message),
    }
}

/// Where stopping a daemon stands after some events.
pub open spec fn stop_after(events: Seq<StopEvent>) -> StopPhase
    decreases events.len(),
{
    if events.len() == 0 {
        StopPhase::CheckRunning
    } else {
        stop_next(stop_after(events.drop_last()), events.last())
    }
}

pub open spec fn is_asked(phase: StopPhase) -> bool {
    phase is Wait || phase is CheckAgain || phase is Kill
}

/// The process id that a daemon leaves in its file is the one that is read there.
pub proof fn a_pid_is_read_back(pid: u32)
    ensures
        parsed(trim(dec(pid as nat) + "\n"@), u32::MAX as nat) == Ok::<nat, ParseError>(
            pid as nat,
        ),
{
    reveal_strlit("\n");
    assert("\n"@ =~= seq!['\n']);
    a_number_is_read_back(pid as nat, u32::MAX as nat);
}

/// A daemon is killed only after it was asked to stop and was seen running once more.
pub proof fn a_daemon_is_asked_before_it_is_killed(events: Seq<StopEvent>, pid: u32)
    requires
        stop_after(events) == (StopPhase::Kill { pid }),
    ensures
        exists|i: int|
            0 <= i < events.len() && #[trigger] stop_after(events.take(i)) == (
            StopPhase::Terminate { pid }) && events[i] is Done,
{
    lemma_was_asked(events, pid);
}

proof fn lemma_was_asked(events: Seq<StopEvent>, pid: u32)
    requires
        stop_after(events) == (StopPhase::Kill { pid }) || stop_after(events) == (StopPhase::Wait {
            pid,
        }) || stop_after(events) == (StopPhase::CheckAgain { pid }),
    ensures
        exists|i: int|
            0 <= i < events.len() && #[trigger] stop_after(events.take(i)) == (
            StopPhase::Terminate { pid }) && events[i] is Done,
    decreases events.len(),
{
    let before = events.drop_last();
    if is_asked(stop_after(before)) {
        lemma_was_asked(before, pid);
        let i = choose|i: int|
            0 <= i < before.len() && #[trigger] stop_after(before.take(i)) == (
            StopPhase::Terminate { pid }) && before[i] is Done;
        assert(before.take(i) =~= events.take(i));
        assert(stop_after(events.take(i)) == (StopPhase::Terminate { pid }));
    } else {
        let last = events.len() - 1;
        assert(events.take(last) =~= before);
        assert(stop_after(events.take(last)) == (StopPhase::Terminate { pid }));
    }
}

/// Stopping a daemon that does not run removes its files and does nothing else.
pub proof fn a_daemon_that_does_not_run_is_left_alone(events: Seq<StopEvent>)
    requires
        events.len() > 0,
        events[0] == StopEvent::Running(false),
    ensures
        stop_after(events) is CleanUp || stop_after(events) is Stopped,
    decreases events.len(),
{
    let before = events.drop_last();
    if before.len() > 0 {
        assert(before[0] == events[0]);
        a_daemon_that_does_not_run_is_left_alone(before);
    } else {
        assert(events.last() == events[0]);
        reveal_with_fuel(stop_after, 2);
    }
}

} // verus!
