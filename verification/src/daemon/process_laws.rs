//! What holds of the daemon as a process: where it lives, what it may do, how it is stopped, and what
//! it writes.
use vstd::prelude::*;
#[allow(unused_imports)]
use vstd::utf8::{decode_utf8, encode_utf8, valid_utf8};

#[allow(unused_imports)]
use crate::daemon::counters::{level_above, level_below, wrapped};
#[allow(unused_imports)]
use crate::daemon::exposition::{
    head, joined_labels, line_text, lines_text, Label, Line, MetricKind,
};
#[allow(unused_imports)]
use crate::daemon::http::{
    answer, first_line, method_of, path_of, request_kind, request_line, response_text, scan_start,
    step_after, terminated, terminator_at, ReadStep, MAX_REQUEST_HEADER_BYTES,
};
#[allow(unused_imports)]
use crate::daemon::lifetime::{
    base_dir, runtime_path, stop_next, StopEvent, StopFailure, StopPhase, DIR_NAME,
    STOP_TIMEOUT_SECS,
};
#[allow(unused_imports)]
use crate::daemon::log::{offset_text, prefix_text, LocalTime};
#[allow(unused_imports)]
use crate::daemon::metrics::{prometheus_lines, seconds_text, Metrics, ScrapeState, Seconds};
#[allow(unused_imports)]
use crate::daemon::protocol::{L2CpuStatus, StatusPayload};
#[allow(unused_imports)]
use crate::daemon::runner::{
    absolute, daemon_line, l2cpu_line, last_lines, lines_of, state_name, without_return,
};
#[allow(unused_imports)]
use crate::daemon::sandbox::{
    allowed, browses, path_rules, reads, system_dir, system_rules, Access, Surroundings, Syscall,
    EPERM,
};
#[allow(unused_imports)]
use crate::daemon::sigbus::{fault_text, hex_byte, is_chip, nibble, ChipRange, FaultSignal};
#[allow(unused_imports)]
use crate::error::IoSource;
#[allow(unused_imports)]
use crate::path::{file_name, joined};
#[allow(unused_imports)]
use crate::path_laws::the_last_component_follows_the_last_slash;
#[allow(unused_imports)]
use crate::text::{after_word, dec, lemma_until, until, word, zero_padded};

verus! {

// ---------------------------------------------------------------------------
// HTTP
// ---------------------------------------------------------------------------

/// A request asks for the metrics exactly where its method is `GET` and its path, up to a question
/// mark, is `/metrics`; a wrong method counts only on that path.
pub proof fn what_a_request_asks_for(line: Seq<char>)
    ensures
        request_kind(line) is NotFound <==> path_of(line) != "/metrics"@,
        request_kind(line) is MethodNotAllowed <==> path_of(line) == "/metrics"@ && method_of(line)
            != "GET"@,
        request_kind(line) is Metrics <==> path_of(line) == "/metrics"@ && method_of(line)
            == "GET"@,
        method_of(line) == word(line),
        !path_of(line).contains('?'),
        path_of(line).is_prefix_of(word(after_word(line))),
        !word(after_word(line)).contains('?') ==> path_of(line) == word(after_word(line)),
        path_of(line).len() < word(after_word(line)).len() ==> word(after_word(line))[path_of(
            line,
        ).len() as int] == '?',
{
    let w = word(after_word(line));
    let n = lemma_before(w, '?');
    assert(w.take(n) =~= w.subrange(0, n));
    if path_of(line).contains('?') {
        let k = choose|k: int| 0 <= k < w.take(n).len() && w.take(n)[k] == '?';
        assert(w[k] == '?');
    }
    if !w.contains('?') {
        if n < w.len() {
            assert(w.contains(w[n]));
        }
        assert(w.take(n) =~= w);
    }
}

proof fn lemma_before(s: Seq<char>, c: char) -> (n: int)
    ensures
        0 <= n <= s.len(),
        until(s, |x: char| x == c) == s.take(n),
        forall|i: int| 0 <= i < n ==> #[trigger] s[i] != c,
        n < s.len() ==> s[n] == c,
    decreases s.len(),
{
    if s.len() == 0 || s[0] == c {
        assert(s.take(0) =~= Seq::<char>::empty());
        0
    } else {
        let n = lemma_before(s.skip(1), c);
        assert(s.take(n + 1) =~= seq![s[0]] + s.skip(1).take(n));
        assert forall|i: int| 0 <= i < n + 1 implies #[trigger] s[i] != c by {
            if i > 0 {
                assert(s.skip(1)[i - 1] == s[i]);
            }
        }
        n + 1
    }
}

/// The headers end where a blank line does, that is at CR LF CR LF, and an end that straddles two
/// reads is seen. More than 8192 bytes without one are too many.
pub proof fn where_the_headers_end(before: Seq<u8>, chunk: Seq<u8>, i: int)
    ensures
        0 <= i && i + 4 <= before.len() && before.subrange(i, i + 4) == seq![13u8, 10, 13, 10]
            ==> terminated(before),
        terminated(before) ==> exists|k: int|
            0 <= k && k + 4 <= before.len() && #[trigger] before.subrange(k, k + 4) == seq![
                13u8,
                10,
                13,
                10,
            ],
        before.len() < 3 ==> scan_start(before.len()) == 0,
        before.len() >= 3 ==> scan_start(before.len()) == before.len() - 3,
        step_after(before, chunk) is TooLarge ==> before.len() + chunk.len() >= 8192,
        step_after(before, chunk) is More ==> before.len() + chunk.len() < 8192,
        MAX_REQUEST_HEADER_BYTES == 8192,
{
    if 0 <= i && i + 4 <= before.len() && before.subrange(i, i + 4) == seq![13u8, 10, 13, 10] {
        let s = before.subrange(i, i + 4);
        assert(s[0] == before[i] && s[1] == before[i + 1] && s[2] == before[i + 2] && s[3]
            == before[i + 3]);
        assert(terminator_at(before, i));
    }
    if terminated(before) {
        let k = choose|k: int| 0 <= k && #[trigger] terminator_at(before, k);
        assert(before.subrange(k, k + 4) =~= seq![13u8, 10, 13, 10]);
    }
}

/// An answer is its status, its type, how many bytes follow, that the connection closes, a blank
/// line, and the body.
pub proof fn how_an_answer_is_made(status: Seq<char>, content_type: Seq<char>, body: Seq<char>)
    ensures
        response_text(status, content_type, body) == "HTTP/1.1 "@ + status + "\r\nContent-Type: "@
            + content_type + "\r\nContent-Length: "@ + dec(encode_utf8(body).len())
            + "\r\nConnection: close\r\n\r\n"@ + body,
        body.is_suffix_of(response_text(status, content_type, body)),
{
    let t = response_text(status, content_type, body);
    assert(body =~= t.subrange(t.len() - body.len(), t.len() as int));
}

/// Headers that are too long are answered with 413, another path with 404, another method with 405,
/// and the rest with 200 and the metrics.
pub proof fn which_answer_a_request_gets(buf: Seq<u8>, step: ReadStep, m: Metrics, s: ScrapeState)
    ensures
        ({
            let plain = "text/plain; charset=utf-8"@;
            let kind = request_kind(request_line(buf));
            let a = answer(buf, step, m, s);
            &&& step is TooLarge ==> a == response_text(
                "413 Payload Too Large"@,
                plain,
                "413 Payload Too Large\n"@,
            )
            &&& !(step is TooLarge) && kind is NotFound ==> a == response_text(
                "404 Not Found"@,
                plain,
                "404 Not Found\n"@,
            )
            &&& !(step is TooLarge) && kind is MethodNotAllowed ==> a == response_text(
                "405 Method Not Allowed"@,
                plain,
                "405 Method Not Allowed\n"@,
            )
            &&& !(step is TooLarge) && kind is Metrics ==> a == response_text(
                "200 OK"@,
                "text/plain; version=0.0.4; charset=utf-8"@,
                lines_text(prometheus_lines(m, s)),
            )
        }),
        !valid_utf8(buf) ==> request_line(buf).len() == 0,
        valid_utf8(buf) ==> request_line(buf) == first_line(decode_utf8(buf)),
{
    reveal_strlit("");
}

/// The first line ends before the first line break, and before a carriage return in front of it.
pub proof fn where_the_first_line_ends(a: Seq<char>, b: Seq<char>)
    requires
        !a.contains('\n'),
    ensures
        first_line(a) == a,
        a.len() == 0 || a.last() != '\r' ==> first_line(a + seq!['\n'] + b) == a,
        first_line(a + seq!['\r', '\n'] + b) == a,
{
    let stop = |c: char| c == '\n';
    let whole = a + seq!['\n'] + b;
    assert forall|k: int| 0 <= k < a.len() implies !stop(#[trigger] whole[k]) by {
        assert(a.contains(a[k]));
    }
    lemma_until(whole, stop, a.len() as int);
    assert(whole.take(a.len() as int) =~= a);
    assert forall|k: int| 0 <= k < a.len() implies !stop(#[trigger] a[k]) by {
        assert(a.contains(a[k]));
    }
    lemma_until(a, stop, a.len() as int);
    assert(a.take(a.len() as int) =~= a);
    let other = a + seq!['\r', '\n'] + b;
    assert forall|k: int| 0 <= k < a.len() + 1 implies !stop(#[trigger] other[k]) by {
        if k < a.len() {
            assert(a.contains(a[k]));
        }
    }
    lemma_until(other, stop, a.len() + 1int);
    assert(other.take(a.len() + 1int) =~= a.push('\r'));
    assert(a.push('\r').drop_last() =~= a);
}

// ---------------------------------------------------------------------------
// Where the daemon lives, and how it is stopped
// ---------------------------------------------------------------------------

/// The daemon lives under the directory that the session names, or else under one of its user in
/// `/tmp`; there in `tt-bh-linux`, unless the directory is that already, and there in a directory of
/// its card.
pub proof fn where_a_daemon_lives(dir: Seq<char>, uid: u32, card: u32)
    requires
        dir.len() > 0,
        dir.last() != '/',
        file_name(dir) != Some("tt-bh-linux"@),
    ensures
        base_dir(Some(dir), uid) == dir,
        base_dir(None, uid) == "/tmp/tt-bh-linux-"@ + dec(uid as nat),
        base_dir(Some(Seq::empty()), uid) == "/tmp/tt-bh-linux-"@ + dec(uid as nat),
        runtime_path(Some(dir), uid, card) == dir + "/tt-bh-linux/"@ + dec(card as nat),
        runtime_path(Some(dir + "/tt-bh-linux"@), uid, card) == dir + "/tt-bh-linux/"@ + dec(
            card as nat,
        ),
        DIR_NAME@ == "tt-bh-linux"@,
        STOP_TIMEOUT_SECS == 5,
{
    reveal_strlit("tt-bh-linux");
    reveal_strlit("/tt-bh-linux");
    reveal_strlit("/tt-bh-linux/");
    let name = "tt-bh-linux"@;
    let shared = dir + seq!['/'] + name;
    assert(joined(dir, name) == shared);
    assert(shared.last() == 'x');
    assert(joined(shared, dec(card as nat)) =~= dir + "/tt-bh-linux/"@ + dec(card as nat));
    assert(dir + "/tt-bh-linux"@ =~= shared);
    assert(!name.contains('/')) by {
        if name.contains('/') {
            let i = choose|i: int| 0 <= i < name.len() && name[i] == '/';
        }
    }
    assert(name != seq!['.'] && name != seq!['.', '.']) by {
        assert(name.len() == 11);
        assert(seq!['.'].len() == 1 && seq!['.', '.'].len() == 2);
    }
    the_last_component_follows_the_last_slash(dir, name);
}

/// A daemon that runs is asked to stop, given its time, and killed where it still runs; what it left
/// is cleared up in any case. Without a process id it cannot be asked.
pub proof fn how_a_daemon_is_stopped(
    pid: u32,
    running: bool,
    late: bool,
    source: IoSource,
    phase: StopPhase,
    failure: StopFailure,
    event: StopEvent,
)
    ensures
        stop_next(StopPhase::CheckRunning, StopEvent::Running(true)) == StopPhase::ReadPid,
        stop_next(StopPhase::CheckRunning, StopEvent::Running(false)) == StopPhase::CleanUp,
        stop_next(StopPhase::ReadPid, StopEvent::Pid(Some(pid))) == (StopPhase::Terminate { pid }),
        stop_next(StopPhase::ReadPid, StopEvent::Pid(None)) == StopPhase::Failed(
            StopFailure::NoPid,
        ),
        stop_next(StopPhase::ReadPid, StopEvent::Failed(source)) == StopPhase::Failed(
            StopFailure::Unreadable(source),
        ),
        stop_next(StopPhase::Terminate { pid }, StopEvent::Done) == (StopPhase::Wait { pid }),
        running && !late ==> stop_next(
            StopPhase::Wait { pid },
            StopEvent::Waited { running, late },
        ) == (StopPhase::Wait { pid }),
        !running || late ==> stop_next(
            StopPhase::Wait { pid },
            StopEvent::Waited { running, late },
        ) == (StopPhase::CheckAgain { pid }),
        stop_next(StopPhase::CheckAgain { pid }, StopEvent::Running(true)) == (StopPhase::Kill {
            pid,
        }),
        stop_next(StopPhase::CheckAgain { pid }, StopEvent::Running(false)) == StopPhase::CleanUp,
        stop_next(StopPhase::Kill { pid }, StopEvent::Done) == StopPhase::CleanUp,
        stop_next(StopPhase::CleanUp, StopEvent::Done) == StopPhase::Stopped,
        stop_next(StopPhase::Stopped, event) == StopPhase::Stopped,
        stop_next(StopPhase::Failed(failure), event) == StopPhase::Failed(failure),
{
}

// ---------------------------------------------------------------------------
// What it writes
// ---------------------------------------------------------------------------

/// An offset is `Z` where there is none, else a sign, hours and minutes of two digits each.
pub proof fn how_an_offset_is_written(hours: int, minutes: int)
    requires
        0 <= hours,
        0 <= minutes < 60,
        hours * 3600 + minutes * 60 > 0,
    ensures
        offset_text(0) == "Z"@,
        offset_text(hours * 3600 + minutes * 60) == seq!['+'] + zero_padded(dec(hours as nat), 2)
            + ":"@ + zero_padded(dec(minutes as nat), 2),
        offset_text(-(hours * 3600 + minutes * 60)) == seq!['-'] + zero_padded(
            dec(hours as nat),
            2,
        ) + ":"@ + zero_padded(dec(minutes as nat), 2),
{
    let secs = hours * 3600 + minutes * 60;
    assert(secs / 3600 == hours);
    assert((secs % 3600) / 60 == minutes);
}

/// A line of the log begins with the date and the time to the millisecond, the offset, and who wrote
/// it.
pub proof fn how_a_line_of_the_log_begins(t: LocalTime, pid: u32, tid: u64)
    ensures
        prefix_text(t, pid, tid) == "["@ + zero_padded(dec(t.year as nat), 4) + "-"@ + zero_padded(
            dec(t.month as nat),
            2,
        ) + "-"@ + zero_padded(dec(t.day as nat), 2) + "T"@ + zero_padded(dec(t.hour as nat), 2)
            + ":"@ + zero_padded(dec(t.minute as nat), 2) + ":"@ + zero_padded(
            dec(t.second as nat),
            2,
        ) + "."@ + zero_padded(dec(t.millis as nat), 3) + offset_text(t.gmtoff_secs as int)
            + " pid="@ + dec(pid as nat) + " tid="@ + dec(tid as nat) + "]"@,
{
}

/// A path that begins with a slash stays; any other is one in the directory that it was given in.
pub proof fn what_a_path_stands_for(cwd: Seq<char>, path: Seq<char>)
    ensures
        path.len() > 0 && path[0] == '/' ==> absolute(cwd, path) == path,
        (path.len() == 0 || path[0] != '/') && cwd.len() > 0 && cwd.last() != '/' ==> absolute(
            cwd,
            path,
        ) == cwd + seq!['/'] + path,
{
}

/// A line ends at a line break, without a carriage return in front of it; what follows the last
/// break is a line where there is something. Of many lines the last ones are shown.
pub proof fn how_a_text_is_cut_into_lines(
    line: Seq<char>,
    rest: Seq<char>,
    lines: Seq<Seq<char>>,
    n: nat,
)
    requires
        !line.contains('\n'),
    ensures
        lines_of(Seq::empty()).len() == 0,
        line.len() > 0 ==> lines_of(line) == seq![line],
        line.len() == 0 || line.last() != '\r' ==> lines_of(line + seq!['\n'] + rest) == seq![line]
            + lines_of(rest),
        lines_of(line.push('\r') + seq!['\n'] + rest) == seq![line] + lines_of(rest),
        last_lines(lines, n).len() == (if lines.len() < n {
            lines.len()
        } else {
            n
        }),
        last_lines(lines, n).is_suffix_of(lines),
{
    lemma_line(line, rest);
    let other = line.push('\r');
    assert(!other.contains('\n')) by {
        if other.contains('\n') {
            let i = choose|i: int| 0 <= i < other.len() && other[i] == '\n';
            if i < line.len() {
                assert(line[i] == '\n');
            }
        }
    }
    lemma_line(other, rest);
    assert(other.drop_last() =~= line);
    let shown = last_lines(lines, n);
    assert(shown =~= lines.subrange(lines.len() - shown.len(), lines.len() as int));
}

proof fn lemma_line(line: Seq<char>, rest: Seq<char>)
    requires
        !line.contains('\n'),
    ensures
        line.len() > 0 ==> lines_of(line) == seq![line],
        lines_of(line + seq!['\n'] + rest) == seq![without_return(line)] + lines_of(rest),
{
    let stop = |c: char| c == '\n';
    let whole = line + seq!['\n'] + rest;
    assert forall|k: int| 0 <= k < line.len() implies !stop(#[trigger] whole[k]) by {
        assert(line.contains(line[k]));
    }
    lemma_until(whole, stop, line.len() as int);
    assert(whole.take(line.len() as int) =~= line);
    assert(whole.skip(line.len() + 1int) =~= rest);
    assert forall|k: int| 0 <= k < line.len() implies !stop(#[trigger] line[k]) by {
        assert(line.contains(line[k]));
    }
    lemma_until(line, stop, line.len() as int);
    assert(line.take(line.len() as int) =~= line);
}

/// The status of an L2CPU is a line with its number, its state, its disk, its network and its
/// clients; that of the daemon one with its card, its process, its uptime and its socket.
pub proof fn what_the_status_lines_say(l: L2CpuStatus, p: StatusPayload, card: u32, sock: Seq<char>)
    ensures
        l.state is Stopped ==> state_name(l.state) == "Stopped"@,
        l.state is Running ==> state_name(l.state) == "Running"@,
        l.state is Parked ==> state_name(l.state) == "Parked"@,
        l.state is Wedged ==> state_name(l.state) == "Wedged"@,
        l2cpu_line(l) == "  l2cpu "@ + dec(l.idx as nat) + ": "@ + state_name(l.state) + " disk="@
            + (if l.disk is Some {
            l.disk->0@
        } else {
            "-"@
        }) + " net="@ + (if l.net {
            "y"@
        } else {
            "-"@
        }) + " clients="@ + dec(l.clients as nat),
        daemon_line(card, p, sock) == "daemon: running (card "@ + dec(card as nat) + ", pid "@ + dec(
            p.pid as nat,
        ) + ", uptime "@ + dec(p.uptime_secs as nat) + "s, sock "@ + sock + ")"@,
{
}

/// Seconds are written with the digits behind the point only where there are any.
pub proof fn how_seconds_are_written(s: Seconds)
    ensures
        s.digits == 0 ==> seconds_text(s) == dec(s.whole as nat),
        s.digits > 0 ==> {
            let n = dec(s.whole as nat).len() as int;
            let t = seconds_text(s);
            &&& t.len() == n + 1 + s.zeros + dec(s.digits as nat).len()
            &&& t.take(n) == dec(s.whole as nat)
            &&& t[n] == '.'
            &&& forall|i: int| n < i <= n + s.zeros ==> #[trigger] t[i] == '0'
            &&& t.skip(n + 1 + s.zeros) == dec(s.digits as nat)
        },
{
    reveal_strlit(".");
    let n = dec(s.whole as nat).len() as int;
    let t = seconds_text(s);
    if s.digits > 0 {
        assert(t.take(n) =~= dec(s.whole as nat));
        assert(t.skip(n + 1 + s.zeros) =~= dec(s.digits as nat));
    }
}

/// A metric is introduced by its help and its type, and a sample is its name, its labels in braces
/// where it has any, and its value; labels are set off by commas and their values in quotes.
pub proof fn how_metrics_are_written(
    name: Seq<char>,
    help: Seq<char>,
    value: Seq<char>,
    labels: Seq<Label>,
    label: Label,
)
    ensures
        line_text(Line::Help(name, help)) == "# HELP "@ + name + " "@ + help + "\n"@,
        line_text(Line::Kind(name, MetricKind::Counter)) == "# TYPE "@ + name + " counter\n"@,
        line_text(Line::Kind(name, MetricKind::Gauge)) == "# TYPE "@ + name + " gauge\n"@,
        line_text(Line::Sample(name, Seq::empty(), value)) == name + " "@ + value + "\n"@,
        labels.len() > 0 ==> line_text(Line::Sample(name, labels, value)) == name + "{"@
            + joined_labels(labels) + "} "@ + value + "\n"@,
        joined_labels(seq![label]) == label.0 + "=\""@ + label.1 + "\""@,
        labels.len() > 0 ==> joined_labels(labels.push(label)) == joined_labels(labels) + ","@
            + label.0 + "=\""@ + label.1 + "\""@,
        head(name, help, MetricKind::Gauge) == seq![
            Line::Help(name, help),
            Line::Kind(name, MetricKind::Gauge),
        ],
{
    reveal_strlit(" ");
    reveal_strlit("counter");
    reveal_strlit("gauge");
    reveal_strlit("\n");
    reveal_strlit(" counter\n");
    reveal_strlit(" gauge\n");
    reveal_strlit("}");
    reveal_strlit("} ");
    assert(" counter\n"@ =~= " "@ + "counter"@ + "\n"@);
    assert(" gauge\n"@ =~= " "@ + "gauge"@ + "\n"@);
    assert("# TYPE "@ + name + " counter\n"@ =~= "# TYPE "@ + name + " "@ + "counter"@ + "\n"@);
    assert("# TYPE "@ + name + " gauge\n"@ =~= "# TYPE "@ + name + " "@ + "gauge"@ + "\n"@);
    assert(name + Seq::<char>::empty() =~= name);
    assert("} "@ =~= "}"@ + " "@);
    if labels.len() > 0 {
        assert(name + "{"@ + joined_labels(labels) + "} "@ + value + "\n"@ =~= name + ("{"@
            + joined_labels(labels) + "}"@) + " "@ + value + "\n"@);
        assert(labels.push(label).drop_last() =~= labels);
        assert(joined_labels(labels.push(label)) =~= joined_labels(labels) + ","@ + label.0
            + "=\""@ + label.1 + "\""@);
    }
}

/// A count starts again at zero behind the largest number, and a level at the other end.
pub proof fn counts_wrap_around(n: u64, level: i64)
    ensures
        n < u64::MAX ==> wrapped(n + 1) == n + 1,
        wrapped(u64::MAX + 1) == 0,
        level < i64::MAX ==> level_above(level) == level + 1,
        level_above(i64::MAX) == i64::MIN,
        level > i64::MIN ==> level_below(level) == level - 1,
        level_below(i64::MIN) == i64::MAX,
{
}

// ---------------------------------------------------------------------------
// What it may do
// ---------------------------------------------------------------------------

/// The daemon may make every system call that it knows of but those that connect, start a process or
/// look into one.
pub proof fn which_system_calls_pass(c: Syscall)
    ensures
        allowed().contains(c) <==> !(c is Connect || c is Fork || c is Vfork || c is Clone
            || c is Execve || c is Execveat || c is Bpf || c is Ptrace),
        allowed().len() == 66,
        EPERM == 1,
{
    let list = allowed();
    match c {
        Syscall::Read => assert(list[0] == c),
        Syscall::Write => assert(list[1] == c),
        Syscall::Pread64 => assert(list[2] == c),
        Syscall::Pwrite64 => assert(list[3] == c),
        Syscall::Close => assert(list[4] == c),
        Syscall::Fcntl => assert(list[5] == c),
        Syscall::Lseek => assert(list[6] == c),
        Syscall::Fstat => assert(list[7] == c),
        Syscall::Statx => assert(list[8] == c),
        Syscall::Flock => assert(list[9] == c),
        Syscall::Ftruncate => assert(list[10] == c),
        Syscall::Pipe2 => assert(list[11] == c),
        Syscall::Socketpair => assert(list[12] == c),
        Syscall::Openat => assert(list[13] == c),
        Syscall::Getcwd => assert(list[14] == c),
        Syscall::Access => assert(list[15] == c),
        Syscall::Faccessat => assert(list[16] == c),
        Syscall::Readlink => assert(list[17] == c),
        Syscall::Readlinkat => assert(list[18] == c),
        Syscall::Getdents64 => assert(list[19] == c),
        Syscall::Mmap => assert(list[20] == c),
        Syscall::Munmap => assert(list[21] == c),
        Syscall::Mprotect => assert(list[22] == c),
        Syscall::Mremap => assert(list[23] == c),
        Syscall::Madvise => assert(list[24] == c),
        Syscall::Brk => assert(list[25] == c),
        Syscall::Clone3 => assert(list[26] == c),
        Syscall::Futex => assert(list[27] == c),
        Syscall::SetRobustList => assert(list[28] == c),
        Syscall::Rseq => assert(list[29] == c),
        Syscall::Getpid => assert(list[30] == c),
        Syscall::Gettid => assert(list[31] == c),
        Syscall::Tgkill => assert(list[32] == c),
        Syscall::Exit => assert(list[33] == c),
        Syscall::ExitGroup => assert(list[34] == c),
        Syscall::SchedGetaffinity => assert(list[35] == c),
        Syscall::SchedYield => assert(list[36] == c),
        Syscall::Getrandom => assert(list[37] == c),
        Syscall::ClockGettime => assert(list[38] == c),
        Syscall::ClockNanosleep => assert(list[39] == c),
        Syscall::Nanosleep => assert(list[40] == c),
        Syscall::Pselect6 => assert(list[41] == c),
        Syscall::Poll => assert(list[42] == c),
        Syscall::Ppoll => assert(list[43] == c),
        Syscall::EpollPwait => assert(list[44] == c),
        Syscall::EpollWait => assert(list[45] == c),
        Syscall::EpollCreate1 => assert(list[46] == c),
        Syscall::EpollCtl => assert(list[47] == c),
        Syscall::Socket => assert(list[48] == c),
        Syscall::Bind => assert(list[49] == c),
        Syscall::Listen => assert(list[50] == c),
        Syscall::Accept4 => assert(list[51] == c),
        Syscall::Getsockname => assert(list[52] == c),
        Syscall::Getsockopt => assert(list[53] == c),
        Syscall::Setsockopt => assert(list[54] == c),
        Syscall::Recvfrom => assert(list[55] == c),
        Syscall::Recvmsg => assert(list[56] == c),
        Syscall::Sendto => assert(list[57] == c),
        Syscall::Sendmsg => assert(list[58] == c),
        Syscall::Shutdown => assert(list[59] == c),
        Syscall::Ioctl => assert(list[60] == c),
        Syscall::RtSigaction => assert(list[61] == c),
        Syscall::RtSigprocmask => assert(list[62] == c),
        Syscall::RtSigreturn => assert(list[63] == c),
        Syscall::Sigaltstack => assert(list[64] == c),
        Syscall::Prctl => assert(list[65] == c),
        _ => assert(forall|i: int| 0 <= i < list.len() ==> #[trigger] list[i] != c),
    }
}

/// The card may be read and written, entropy read; the daemon's own directory may be changed in any
/// way, that of its log written to; the rest, as far as it is there, is there to be read.
pub proof fn which_files_may_be_touched(s: Surroundings)
    ensures
        ({
            let rules = path_rules(s);
            let no = Access {
                read_file: false,
                write_file: false,
                read_dir: false,
                remove_file: false,
                make_reg: false,
                make_dir: false,
            };
            let read = Access { read_file: true, ..no };
            let browse = Access { read_file: true, read_dir: true, ..no };
            let logs: int = if s.log_dir is Some {
                4
            } else {
                3
            };
            let cwds: int = logs + if s.cwd is Some {
                1int
            } else {
                0
            };
            let parents: int = cwds + if s.cwd_parent is Some {
                1int
            } else {
                0
            };
            &&& rules[0] == (
                "/dev/tenstorrent/"@ + dec(s.card as nat),
                Access { read_file: true, write_file: true, ..no },
            )
            &&& rules[1] == ("/dev/urandom"@, read)
            &&& rules[2] == (
                s.runtime_dir@,
                Access {
                    read_file: true,
                    write_file: true,
                    read_dir: true,
                    remove_file: true,
                    make_reg: true,
                    make_dir: true,
                },
            )
            &&& s.log_dir is Some ==> rules[3] == (
                s.log_dir->0@,
                Access {
                    read_file: true,
                    write_file: true,
                    read_dir: true,
                    make_reg: true,
                    ..no
                },
            )
            &&& s.cwd is Some ==> rules[logs] == (s.cwd->0@, browse)
            &&& s.cwd_parent is Some ==> rules[cwds] == (s.cwd_parent->0@, browse)
            &&& rules.skip(parents) == system_rules(s.system_dirs@, 6)
        }),
{
    let parents: int = 3 + (if s.log_dir is Some {
        1int
    } else {
        0
    }) + (if s.cwd is Some {
        1int
    } else {
        0
    }) + (if s.cwd_parent is Some {
        1int
    } else {
        0
    });
    assert(path_rules(s).skip(parents) =~= system_rules(s.system_dirs@, 6));
}

/// Each directory of the system that exists may be read, and no other.
pub proof fn which_system_directories_may_be_read(exists: Seq<bool>, n: nat)
    requires
        exists.len() == 6,
        n < 6,
    ensures
        ({
            let read = Access {
                read_file: true,
                write_file: false,
                read_dir: true,
                remove_file: false,
                make_reg: false,
                make_dir: false,
            };
            &&& exists[n as int] ==> system_rules(exists, n + 1) == system_rules(exists, n).push(
                (system_dir(n as int), read),
            )
            &&& !exists[n as int] ==> system_rules(exists, n + 1) == system_rules(exists, n)
        }),
        system_rules(exists, 0).len() == 0,
        system_dir(0) == "/etc"@ && system_dir(1) == "/usr"@ && system_dir(2) == "/lib"@,
        system_dir(3) == "/lib64"@ && system_dir(4) == "/proc/self"@ && system_dir(5) == "/tmp"@,
{
    let before = system_rules(exists, n);
    if exists[n as int] {
        assert(system_rules(exists, n + 1) =~= before.push((system_dir(n as int), browses())));
    } else {
        assert(system_rules(exists, n + 1) =~= before);
    }
}

// ---------------------------------------------------------------------------
// Faults
// ---------------------------------------------------------------------------

/// An address belongs to the chip where it lies in one of its ranges: at its start or behind it, and
/// before its end.
pub proof fn which_addresses_belong_to_the_chip(r: ChipRange, addr: usize)
    requires
        r.start + r.len <= usize::MAX,
    ensures
        r.covers(addr) <==> r.start <= addr < r.start + r.len,
        is_chip(seq![r], addr) <==> r.covers(addr),
{
    if r.covers(addr) {
        assert(seq![r][0].covers(addr));
    }
}

/// A digit is written in lower case, and the digit `k` places before the last is the rest of a
/// division by 16 after `k` divisions by 16.
pub proof fn how_an_address_is_written(value: nat, d: int, k: nat)
    ensures
        0 <= d < 10 ==> hex_byte(d) == '0' as u8 + d,
        10 <= d < 16 ==> hex_byte(d) == 'a' as u8 + (d - 10),
        nibble(value, 0) == value % 16,
        nibble(value, k + 1) == nibble(value / 16, k),
{
}

/// What is written of a fault tells the signal and whether the chip was touched, and the address
/// unless the signal is none of the two.
pub proof fn what_is_written_of_a_fault(in_chip: bool)
    ensures
        fault_text(FaultSignal::Bus, true) == (
            "fatal: SIGBUS during chip access (tt-smi -r? PCIe link lost? Card pulled?) si_addr=0x"@,
            true,
        ),
        fault_text(FaultSignal::Segv, true) == (
            "fatal: SIGSEGV during chip access si_addr=0x"@,
            true,
        ),
        fault_text(FaultSignal::Bus, false) == (
            "fatal: SIGBUS in daemon process (likely a bug, not chip): si_addr=0x"@,
            true,
        ),
        fault_text(FaultSignal::Segv, false) == (
            "fatal: SIGSEGV in daemon process (likely a bug, not chip): si_addr=0x"@,
            true,
        ),
        fault_text(FaultSignal::Other, in_chip) == (
            "fatal: unexpected signal in chip-fault handler\n"@,
            false,
        ),
{
}

} // verus!
