//! The commands that start, stop and watch a daemon.
use vstd::prelude::*;
use vstd::string::*;

use crate::daemon::protocol::{L2CpuState, L2CpuStatus, StatusPayload};
use crate::error::Result;
#[allow(unused_imports)]
use crate::path::joined;
use crate::path::join;
#[allow(unused_imports)]
use crate::text::{dec, lemma_until, trim, trim_end, trim_start, until, white};
use crate::text::{chars_of, find_char, push_dec, string_between, trim_bounds};

verus! {

/// How a daemon is started.
#[derive(Debug, PartialEq, Eq)]
pub struct StartOpts {
    pub card: u32,
    pub foreground: bool,
    /// Where the log goes, if not to its usual place.
    pub log_file: Option<String>,
}

/// Which part of a log is shown.
#[derive(Debug, PartialEq, Eq)]
pub struct LogsOpts {
    pub card: u32,
    pub follow: bool,
    pub lines: usize,
}

/// What to start once a daemon was stopped. `stopped` is what came of stopping it; where that
/// failed nothing is started.
pub fn restart(
    card: u32,
    foreground: bool,
    log_file: Option<String>,
    stopped: Result<()>,
) -> (r: Result<StartOpts>)
    ensures
        match stopped {
            Ok(()) => r == Ok::<StartOpts, crate::error::Error>(
                StartOpts { card, foreground, log_file },
            ),
            Err(e) => r == Err::<StartOpts, crate::error::Error>(e),
        },
{
    match stopped {
        Ok(()) => Ok(StartOpts { card, foreground, log_file }),
        Err(e) => Err(e),
    }
}

/// What is said where a daemon already runs.
pub fn already_running(card: u32, pid: Option<u32>, sock: &str) -> (s: String)
    ensures
        s@ == "daemon already running for card "@ + dec(card as nat) + match pid {
            Some(p) => " (pid "@ + dec(p as nat) + ")"@,
            None => Seq::<char>::empty(),
        } + " (sock: "@ + sock@ + ")"@,
{
    let mut s: String = "daemon already running for card ".to_owned();
    push_dec(&mut s, card as u64);
    let ghost before = s@;
    match pid {
        Some(p) => {
            s.append(" (pid ");
            push_dec(&mut s, p as u64);
            s.append(")");
            assert(s@ =~= before + (" (pid "@ + dec(p as nat) + ")"@));
        },
        None => {
            assert(s@ =~= before + Seq::<char>::empty());
        },
    }
    s.append(" (sock: ");
    s.append(sock);
    s.append(")");
    s
}

/// Where the log is. `sidecar` is what the file that remembers another place holds.
pub fn resolve_log_path(sidecar: Option<&str>, usual: &str) -> (p: String)
    ensures
        p@ == match sidecar {
            Some(s) => if trim(s@).len() > 0 {
                trim(s@)
            } else {
                usual@
            },
            None => usual@,
        },
{
    match sidecar {
        Some(s) => {
            let chars: Vec<char> = chars_of(s);
            let (from, to): (usize, usize) = trim_bounds(chars.as_slice());
            if from < to {
                return string_between(chars.as_slice(), from, to);
            }
            usual.to_owned()
        },
        None => usual.to_owned(),
    }
}

/// Where the log of a daemon goes, and what is remembered of that.
#[derive(Debug, PartialEq, Eq)]
pub struct LogPlan {
    pub path: String,
    /// What the file that remembers another place is to hold; where there is nothing to remember,
    /// it is removed.
    pub sidecar: Option<String>,
}

/// A path, seen from a directory.
pub open spec fn absolute(cwd: Seq<char>, path: Seq<char>) -> Seq<char> {
    if path.len() > 0 && path[0] == '/' {
        path
    } else {
        joined(cwd, path)
    }
}

/// Chooses where the log goes: where the operator wants it, or its usual place.
pub fn resolve_log_path_with_override(wanted: Option<&str>, cwd: &str, usual: &str) -> (plan:
    LogPlan)
    ensures
        match wanted {
            Some(p) => {
                &&& plan.path@ == absolute(cwd@, p@)
                &&& plan.sidecar matches Some(text) && text@ == plan.path@ + "\n"@
            },
            None => plan.path@ == usual@ && plan.sidecar is None,
        },
{
    match wanted {
        Some(p) => {
            let path: String = if p.unicode_len() > 0 && p.get_char(0) == '/' {
                p.to_owned()
            } else {
                join(cwd, p)
            };
            let mut text: String = path.clone();
            text.append("\n");
            LogPlan { path, sidecar: Some(text) }
        },
        None => LogPlan { path: usual.to_owned(), sidecar: None },
    }
}

/// A log that was put elsewhere is found there again, as long as its path does not begin or end
/// with white space.
pub proof fn a_log_is_found_again(path: Seq<char>)
    requires
        path.len() > 0,
        !white(path[0]),
        !white(path.last()),
    ensures
        trim(path + "\n"@) == path,
{
    reveal_strlit("\n");
    let text = path + "\n"@;
    assert(text[0] == path[0]);
    assert(trim_start(text) == text);
    assert(white('\n'));
    assert(text.last() == '\n');
    assert(text.drop_last() =~= path);
    reveal_with_fuel(trim_end, 3);
}

/// A line without the carriage return at its end.
pub open spec fn without_return(line: Seq<char>) -> Seq<char> {
    if line.len() > 0 && line.last() == '\r' {
        line.drop_last()
    } else {
        line
    }
}

/// The lines of a text. A line break at its very end starts no further line; a carriage return
/// counts as part of a line break only where one follows.
pub open spec fn lines_of(s: Seq<char>) -> Seq<Seq<char>>
    decreases s.len(),
{
    if s.len() == 0 {
        seq![]
    } else {
        let line = until(s, |c: char| c == '\n');
        if line.len() >= s.len() {
            seq![line]
        } else {
            seq![without_return(line)] + lines_of(s.skip(line.len() as int + 1))
        }
    }
}

/// The last `n` of these, or all where there are fewer.
pub open spec fn last_lines(lines: Seq<Seq<char>>, n: nat) -> Seq<Seq<char>> {
    if lines.len() <= n {
        lines
    } else {
        lines.skip(lines.len() - n)
    }
}

/// The lines of a text.
fn split_lines(text: &str) -> (lines: Vec<String>)
    ensures
        lines@.map_values(|l: String| l@) == lines_of(text@),
{
    let chars: Vec<char> = chars_of(text);
    let mut lines: Vec<String> = Vec::new();
    let mut i: usize = 0;
    assert(chars@.skip(0) =~= chars@);
    assert(lines@.map_values(|l: String| l@) + lines_of(chars@) =~= lines_of(chars@));
    while i < chars.len()
        invariant
            i <= chars@.len(),
            chars@ == text@,
            lines@.map_values(|l: String| l@) + lines_of(chars@.skip(i as int)) == lines_of(text@),
        decreases chars@.len() - i,
    {
        let end: usize = find_char(chars.as_slice(), i, '\n');
        let ghost rest = chars@.skip(i as int);
        let ghost stop = |c: char| c == '\n';
        let ghost done = lines@.map_values(|l: String| l@);
        proof {
            assert forall|k: int| 0 <= k < end - i implies !stop(#[trigger] rest[k]) by {
                assert(rest[k] == chars@[i + k]);
            }
            lemma_until(rest, stop, end - i);
            assert(rest.take(end - i) =~= chars@.subrange(i as int, end as int));
        }
        if end == chars.len() {
            lines.push(string_between(chars.as_slice(), i, end));
            i = end;
            proof {
                assert(lines_of(rest) == seq![until(rest, stop)]);
                assert(lines@.map_values(|l: String| l@) =~= done + lines_of(rest));
                assert(chars@.skip(i as int) =~= Seq::<char>::empty());
                assert(lines@.map_values(|l: String| l@) + Seq::<Seq<char>>::empty()
                    =~= lines@.map_values(|l: String| l@));
            }
        } else {
            let cut: usize = if end > i && chars[end - 1] == '\r' {
                end - 1
            } else {
                end
            };
            lines.push(string_between(chars.as_slice(), i, cut));
            proof {
                let line = until(rest, stop);
                assert(chars@.subrange(i as int, cut as int) =~= without_return(line));
                assert(rest.skip(line.len() as int + 1) =~= chars@.skip(end + 1));
                assert(lines_of(rest) == seq![without_return(line)] + lines_of(
                    chars@.skip(end + 1),
                ));
                assert(lines@.map_values(|l: String| l@) =~= done.push(without_return(line)));
                assert(done + (seq![without_return(line)] + lines_of(chars@.skip(end + 1)))
                    =~= done.push(without_return(line)) + lines_of(chars@.skip(end + 1)));
            }
            i = end + 1;
        }
    }
    proof {
        assert(chars@.skip(i as int) =~= Seq::<char>::empty());
        assert(lines@.map_values(|l: String| l@) + Seq::<Seq<char>>::empty()
            =~= lines@.map_values(|l: String| l@));
    }
    lines
}

/// The last lines of a log.
pub fn logs(text: &str, n: usize) -> (lines: Vec<String>)
    ensures
        lines@.map_values(|l: String| l@) == last_lines(lines_of(text@), n as nat),
{
    let mut lines: Vec<String> = split_lines(text);
    let ghost all = lines@;
    let len: usize = lines.len();
    if len <= n {
        return lines;
    }
    let tail: Vec<String> = lines.split_off(len - n);
    assert(tail@ =~= all.skip(len - n));
    assert(tail@.map_values(|l: String| l@) =~= last_lines(lines_of(text@), n as nat));
    tail
}

/// The name of a state.
pub open spec fn state_name(s: L2CpuState) -> Seq<char> {
    match s {
        L2CpuState::Stopped => "Stopped"@,
        L2CpuState::Running => "Running"@,
        L2CpuState::Parked => "Parked"@,
        L2CpuState::Wedged => "Wedged"@,
    }
}

/// The line about one L2CPU.
pub open spec fn l2cpu_line(l: L2CpuStatus) -> Seq<char> {
    "  l2cpu "@ + dec(l.idx as nat) + ": "@ + state_name(l.state) + " disk="@ + match l.disk {
        Some(d) => d@,
        None => "-"@,
    } + " net="@ + (if l.net {
        "y"@
    } else {
        "-"@
    }) + " clients="@ + dec(l.clients as nat)
}

fn line_about(l: &L2CpuStatus) -> (s: String)
    ensures
        s@ == l2cpu_line(*l),
{
    let mut s: String = "  l2cpu ".to_owned();
    push_dec(&mut s, l.idx as u64);
    s.append(": ");
    match l.state {
        L2CpuState::Stopped => s.append("Stopped"),
        L2CpuState::Running => s.append("Running"),
        L2CpuState::Parked => s.append("Parked"),
        L2CpuState::Wedged => s.append("Wedged"),
    }
    s.append(" disk=");
    match &l.disk {
        Some(d) => s.append(d.as_str()),
        None => s.append("-"),
    }
    s.append(" net=");
    if l.net {
        s.append("y");
    } else {
        s.append("-");
    }
    s.append(" clients=");
    push_dec(&mut s, l.clients as u64);
    s
}

/// The first line about a daemon that answers.
pub open spec fn daemon_line(card: u32, p: StatusPayload, sock: Seq<char>) -> Seq<char> {
    "daemon: running (card "@ + dec(card as nat) + ", pid "@ + dec(p.pid as nat) + ", uptime "@
        + dec(p.uptime_secs as nat) + "s, sock "@ + sock + ")"@
}

/// What is printed about a daemon that answers.
pub fn status(card: u32, p: &StatusPayload, sock: &str) -> (lines: Vec<String>)
    ensures
        lines@.len() == p.l2cpus@.len() + 1,
        lines@[0]@ == daemon_line(card, *p, sock@),
        forall|i: int|
            0 <= i < p.l2cpus@.len() ==> (#[trigger] lines@[i + 1])@ == l2cpu_line(p.l2cpus@[i]),
{
    let mut first: String = "daemon: running (card ".to_owned();
    push_dec(&mut first, card as u64);
    first.append(", pid ");
    push_dec(&mut first, p.pid as u64);
    first.append(", uptime ");
    push_dec(&mut first, p.uptime_secs);
    first.append("s, sock ");
    first.append(sock);
    first.append(")");
    let mut lines: Vec<String> = Vec::new();
    lines.push(first);
    let mut i: usize = 0;
    while i < p.l2cpus.len()
        invariant
            i <= p.l2cpus@.len(),
            lines@.len() == i + 1,
            lines@[0]@ == daemon_line(card, *p, sock@),
            forall|k: int|
                0 <= k < i ==> (#[trigger] lines@[k + 1])@ == l2cpu_line(p.l2cpus@[k]),
        decreases p.l2cpus@.len() - i,
    {
        lines.push(line_about(&p.l2cpus[i]));
        i = i + 1;
    }
    lines
}

/// What is printed about a daemon that does not answer as it should.
#[derive(Clone, Copy, Debug, PartialEq, Eq, Structural)]
pub enum Silence {
    NotRunning,
    /// It takes connections, but answers none.
    NoAnswer,
    /// It runs, but takes no connection.
    Unreachable,
}

pub fn status_failure(card: u32, what: Silence, why: &str) -> (s: String)
    ensures
        s@ == match what {
            Silence::NotRunning => "daemon: not running for card "@ + dec(card as nat),
            Silence::NoAnswer => "daemon: running but RPC failed ("@ + why@ + ")"@,
            Silence::Unreachable => "daemon: lockfile held but socket unreachable ("@ + why@
                + ")"@,
        },
{
    match what {
        Silence::NotRunning => {
            let mut s: String = "daemon: not running for card ".to_owned();
            push_dec(&mut s, card as u64);
            s
        },
        Silence::NoAnswer => {
            let mut s: String = "daemon: running but RPC failed (".to_owned();
            s.append(why);
            s.append(")");
            s
        },
        Silence::Unreachable => {
            let mut s: String = "daemon: lockfile held but socket unreachable (".to_owned();
            s.append(why);
            s.append(")");
            s
        },
    }
}

} // verus!
