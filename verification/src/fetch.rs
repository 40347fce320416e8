//! Downloads: when one can be skipped, where its parts lie, and how it is reported.
use vstd::prelude::*;
use vstd::string::*;

#[allow(unused_imports)]
use crate::decimal::{
    double, lemma_not_whole, lemma_power_positive, lemma_rounded_scaled, lemma_same_floor,
    nearest, rounded, saturated, seconds, two, MANTISSAS,
};
use crate::decimal::{power, round_quotient, to_double, to_nearest, to_seconds, whole_part};
use crate::error::{Error, IoSource};
#[allow(unused_imports)]
use crate::error::{is_internal, is_io};
#[allow(unused_imports)]
use crate::text::{dec, parsed, zero_padded};
use crate::text::{chars_of, parse_between, push_dec, push_dec_padded, same};

verus! {

/// What a server said of a file when it was fetched.
#[derive(Debug, PartialEq, Eq)]
pub struct FetchMetadata {
    pub etag: Option<String>,
    pub last_modified: Option<String>,
}

impl Default for FetchMetadata {
    fn default() -> (m: Self)
        ensures
            m.etag is None,
            m.last_modified is None,
    {
        FetchMetadata { etag: None, last_modified: None }
    }
}

/// Two fields agree: both are there, neither is empty, and they are the same.
pub open spec fn agree(a: Option<String>, b: Option<String>) -> bool {
    a is Some && b is Some && a->0@.len() > 0 && a->0@ == b->0@
}

fn fields_agree(a: &Option<String>, b: &Option<String>) -> (r: bool)
    ensures
        r == agree(*a, *b),
{
    match (a, b) {
        (Some(x), Some(y)) => x.as_str().unicode_len() > 0 && same(x.as_str(), y.as_str()),
        _ => false,
    }
}

/// What the server says now is what it said then, as far as it says anything.
pub open spec fn unchanged(cached: FetchMetadata, upstream: FetchMetadata) -> bool {
    agree(cached.etag, upstream.etag) || agree(cached.last_modified, upstream.last_modified)
}

pub fn upstream_matches(cached: &FetchMetadata, upstream: &FetchMetadata) -> (r: bool)
    ensures
        r == unchanged(*cached, *upstream),
{
    fields_agree(&cached.etag, &upstream.etag) || fields_agree(
        &cached.last_modified,
        &upstream.last_modified,
    )
}

/// Whether a download can be skipped. `cached` is what was kept of the last one, `upstream` what
/// the server says now, where either is known.
pub fn cache_hit(
    anchor_exists: bool,
    cached: &Option<FetchMetadata>,
    upstream: &Option<FetchMetadata>,
) -> (r: bool)
    ensures
        r == (anchor_exists && cached is Some && upstream is Some && unchanged(
            cached->0,
            upstream->0,
        )),
{
    if !anchor_exists {
        return false;
    }
    match (cached, upstream) {
        (Some(c), Some(u)) => upstream_matches(c, u),
        _ => false,
    }
}

/// What is done about a download, once the server was asked.
#[derive(Clone, Copy, Debug, PartialEq, Eq, Structural)]
pub enum CacheStep {
    /// Nothing has changed.
    Skip,
    /// Fetch the file, then keep what the server says of it; where it says nothing, forget what it
    /// said before.
    Fetch,
}

pub fn download_to_cached(force: bool, hit: bool) -> (step: CacheStep)
    ensures
        step == if !force && hit {
            CacheStep::Skip
        } else {
            CacheStep::Fetch
        },
{
    if !force && hit {
        CacheStep::Skip
    } else {
        CacheStep::Fetch
    }
}

/// Whether a status is that of a success.
pub fn is_success(status: u16) -> (r: bool)
    ensures
        r == (200 <= status < 300),
{
    200 <= status && status < 300
}

/// What is said of a request that was refused.
pub fn refused_download(url: &str, status: u16) -> (s: String)
    ensures
        s@ == "GET "@ + url@ + " returned status "@ + dec(status as nat),
{
    let mut s: String = "GET ".to_owned();
    s.append(url);
    s.append(" returned status ");
    push_dec(&mut s, status as u64);
    s
}

/// The length that a server announces, where it announces one.
pub fn content_length(header: Option<&str>) -> (n: Option<u64>)
    ensures
        n == match header {
            Some(h) => match parsed(h@, u64::MAX as nat) {
                Ok(m) => Some(m as u64),
                Err(_) => None,
            },
            None => None,
        },
{
    match header {
        Some(h) => {
            let chars: Vec<char> = chars_of(h);
            assert(chars@.subrange(0, chars@.len() as int) =~= chars@);
            match parse_between(chars.as_slice(), 0, chars.len(), u64::MAX) {
                Ok(n) => Some(n),
                Err(_) => None,
            }
        },
        None => None,
    }
}

/// How often a download is reported on, in milliseconds.
pub const REPORT_INTERVAL: u64 = 200;

/// Where a download stands, and so what is to be done next.
#[derive(Debug)]
pub enum DownloadPhase {
    /// Remove what an earlier download left, whatever comes of that, and ask the server.
    Request,
    /// Create the file that takes what arrives.
    Create,
    /// Read a piece of the body.
    Read,
    /// Write the piece of this length.
    Write { len: u64 },
    /// Report how much has arrived.
    Report,
    /// Remove the file that took what arrived; the download has failed.
    Discard(DownloadFailure),
    /// Make sure that everything is written.
    Flush,
    /// Move the file to where it belongs.
    Rename,
    /// Report the whole.
    Finished,
    Failed(DownloadFailure),
}

#[derive(Debug)]
pub enum DownloadFailure {
    /// The server could not be asked.
    Request(String),
    /// It answered with this status.
    Status(u16),
    Create(IoSource),
    Read(String),
    Write(IoSource),
    Flush(IoSource),
    Rename(IoSource),
}

/// What came of the last step of a download.
#[derive(Debug)]
pub enum DownloadEvent {
    Done,
    /// The server answered.
    Answer { status: u16, length: Option<u64> },
    /// A piece of this length arrived; the body is at its end where that is zero.
    Piece(u64),
    /// The piece is written; the last report is this many milliseconds old.
    Written { age: u64 },
    /// The server, or the way to it, failed.
    Broken(String),
    /// The file failed.
    Failed(IoSource),
}

/// A download.
#[derive(Debug)]
pub struct DownloadState {
    pub phase: DownloadPhase,
    /// How many bytes were written.
    pub got: u64,
    /// How many the server announced.
    pub total: Option<u64>,
}

/// The state of a download after an event.
pub open spec fn download_next(s: DownloadState, event: DownloadEvent) -> DownloadState {
    match (s.phase, event) {
        (DownloadPhase::Request, DownloadEvent::Answer { status, length }) => if 200 <= status
            < 300 {
            DownloadState { phase: DownloadPhase::Create, total: length, ..s }
        } else {
            DownloadState { phase: DownloadPhase::Failed(DownloadFailure::Status(status)), ..s }
        },
        (DownloadPhase::Request, DownloadEvent::Broken(why)) => DownloadState {
            phase: DownloadPhase::Failed(DownloadFailure::Request(why)),
            ..s
        },
        (DownloadPhase::Create, DownloadEvent::Done) => DownloadState {
            phase: DownloadPhase::Read,
            ..s
        },
        (DownloadPhase::Create, DownloadEvent::Failed(e)) => DownloadState {
            phase: DownloadPhase::Failed(DownloadFailure::Create(e)),
            ..s
        },
        (DownloadPhase::Read, DownloadEvent::Piece(len)) => DownloadState {
            phase: if len == 0 {
                DownloadPhase::Flush
            } else {
                DownloadPhase::Write { len }
            },
            ..s
        },
        (DownloadPhase::Read, DownloadEvent::Broken(why)) => DownloadState {
            phase: DownloadPhase::Discard(DownloadFailure::Read(why)),
            ..s
        },
        (DownloadPhase::Write { len }, DownloadEvent::Written { age }) => DownloadState {
            phase: if age >= REPORT_INTERVAL {
                DownloadPhase::Report
            } else {
                DownloadPhase::Read
            },
            got: (s.got + len) as u64,
            ..s
        },
        (DownloadPhase::Write { .. }, DownloadEvent::Failed(e)) => DownloadState {
            phase: DownloadPhase::Discard(DownloadFailure::Write(e)),
            ..s
        },
        (DownloadPhase::Report, DownloadEvent::Done) => DownloadState {
            phase: DownloadPhase::Read,
            ..s
        },
        (DownloadPhase::Discard(f), DownloadEvent::Done) => DownloadState {
            phase: DownloadPhase::Failed(f),
            ..s
        },
        (DownloadPhase::Flush, DownloadEvent::Done) => DownloadState {
            phase: DownloadPhase::Rename,
            ..s
        },
        (DownloadPhase::Flush, DownloadEvent::Failed(e)) => DownloadState {
            phase: DownloadPhase::Discard(DownloadFailure::Flush(e)),
            ..s
        },
        (DownloadPhase::Rename, DownloadEvent::Done) => DownloadState {
            phase: DownloadPhase::Finished,
            ..s
        },
        (DownloadPhase::Rename, DownloadEvent::Failed(e)) => DownloadState {
            phase: DownloadPhase::Discard(DownloadFailure::Rename(e)),
            ..s
        },
        _ => s,
    }
}

/// Begins a download.
pub fn begin_download() -> (s: DownloadState)
    ensures
        s == (DownloadState { phase: DownloadPhase::Request, got: 0, total: None }),
{
    DownloadState { phase: DownloadPhase::Request, got: 0, total: None }
}

/// Takes a download one step further.
pub fn download_to(s: DownloadState, event: DownloadEvent) -> (next: DownloadState)
    requires
        s.phase matches DownloadPhase::Write { len } ==> s.got + len <= u64::MAX,
    ensures
        next == download_next(s, event),
{
    let DownloadState { phase, got, total } = s;
    match (phase, event) {
        (DownloadPhase::Request, DownloadEvent::Answer { status, length }) => {
            if is_success(status) {
                DownloadState { phase: DownloadPhase::Create, got, total: length }
            } else {
                let phase = DownloadPhase::Failed(DownloadFailure::Status(status));
                DownloadState { phase, got, total }
            }
        },
        (DownloadPhase::Write { len }, DownloadEvent::Written { age }) => {
            let phase = if age >= REPORT_INTERVAL {
                DownloadPhase::Report
            } else {
                DownloadPhase::Read
            };
            DownloadState { phase, got: got + len, total }
        },
        (phase, event) => {
            let phase = match (phase, event) {
                (DownloadPhase::Request, DownloadEvent::Broken(why)) => DownloadPhase::Failed(
                    DownloadFailure::Request(why),
                ),
                (DownloadPhase::Create, DownloadEvent::Done) => DownloadPhase::Read,
                (DownloadPhase::Create, DownloadEvent::Failed(e)) => DownloadPhase::Failed(
                    DownloadFailure::Create(e),
                ),
                (DownloadPhase::Read, DownloadEvent::Piece(len)) => if len == 0 {
                    DownloadPhase::Flush
                } else {
                    DownloadPhase::Write { len }
                },
                (DownloadPhase::Read, DownloadEvent::Broken(why)) => DownloadPhase::Discard(
                    DownloadFailure::Read(why),
                ),
                (DownloadPhase::Write { .. }, DownloadEvent::Failed(e)) => DownloadPhase::Discard(
                    DownloadFailure::Write(e),
                ),
                (DownloadPhase::Report, DownloadEvent::Done) => DownloadPhase::Read,
                (DownloadPhase::Discard(f), DownloadEvent::Done) => DownloadPhase::Failed(f),
                (DownloadPhase::Flush, DownloadEvent::Done) => DownloadPhase::Rename,
                (DownloadPhase::Flush, DownloadEvent::Failed(e)) => DownloadPhase::Discard(
                    DownloadFailure::Flush(e),
                ),
                (DownloadPhase::Rename, DownloadEvent::Done) => DownloadPhase::Finished,
                (DownloadPhase::Rename, DownloadEvent::Failed(e)) => DownloadPhase::Discard(
                    DownloadFailure::Rename(e),
                ),
                (phase, _) => phase,
            };
            DownloadState { phase, got, total }
        },
    }
}

/// The error of a download that failed.
pub fn download_error(failure: DownloadFailure, url: &str) -> (e: Error)
    ensures
        match failure {
            DownloadFailure::Request(why) => is_internal(e, "GET "@ + url@ + ": "@ + why@),
            DownloadFailure::Status(status) => is_internal(
                e,
                "GET "@ + url@ + " returned status "@ + dec(status as nat),
            ),
            DownloadFailure::Create(source) => is_io(e, "create temp"@, source),
            DownloadFailure::Read(why) => is_internal(e, "read body: "@ + why@),
            DownloadFailure::Write(source) => is_io(e, "write temp"@, source),
            DownloadFailure::Flush(source) => is_io(e, "flush temp"@, source),
            DownloadFailure::Rename(source) => is_io(e, "rename download"@, source),
        },
{
    match failure {
        DownloadFailure::Request(why) => {
            let mut m: String = "GET ".to_owned();
            m.append(url);
            m.append(": ");
            m.append(why.as_str());
            Error::Internal(m)
        },
        DownloadFailure::Status(status) => Error::Internal(refused_download(url, status)),
        DownloadFailure::Create(source) => Error::io_ctx("create temp", source),
        DownloadFailure::Read(why) => {
            let mut m: String = "read body: ".to_owned();
            m.append(why.as_str());
            Error::Internal(m)
        },
        DownloadFailure::Write(source) => Error::io_ctx("write temp", source),
        DownloadFailure::Flush(source) => Error::io_ctx("flush temp", source),
        DownloadFailure::Rename(source) => Error::io_ctx("rename download", source),
    }
}

fn with_suffix(path: &str, suffix: &str) -> (p: String)
    ensures
        p@ == path@ + suffix@,
{
    let mut p: String = path.to_owned();
    p.append(suffix);
    p
}

/// The file that keeps what the server said.
pub fn sidecar_path(dest_path: &str) -> (p: String)
    ensures
        p@ == dest_path@ + ".fetch.json"@,
{
    with_suffix(dest_path, ".fetch.json")
}

/// The file under which that is written until it is complete.
pub fn sidecar_temp_path(dest_path: &str) -> (p: String)
    ensures
        p@ == dest_path@ + ".fetch.json"@ + ".tmp"@,
{
    let sidecar: String = sidecar_path(dest_path);
    with_suffix(sidecar.as_str(), ".tmp")
}

/// The file under which a download lies until it is complete.
pub fn downloading_path(dest_path: &str) -> (p: String)
    ensures
        p@ == dest_path@ + ".downloading"@,
{
    with_suffix(dest_path, ".downloading")
}

pub const KIB: u64 = 0x400;

pub const MIB: u64 = 0x10_0000;

pub const GIB: u64 = 0x4000_0000;

/// A number of tenths.
pub open spec fn one_decimal(tenths: nat) -> Seq<char> {
    dec(tenths / 10) + "."@ + dec(tenths % 10)
}

/// A number of hundredths.
pub open spec fn two_decimals(hundredths: nat) -> Seq<char> {
    dec(hundredths / 100) + "."@ + zero_padded(dec(hundredths % 100), 2)
}

/// A number of bytes in the largest unit that it fills, with two decimals for the largest of all
/// and one for the others.
pub open spec fn bytes_text(n: u64) -> Seq<char> {
    let v = double(n as nat, 1);
    if n >= GIB {
        two_decimals(nearest(v * 100, GIB as nat)) + " GiB"@
    } else if n >= MIB {
        one_decimal(nearest(v * 10, MIB as nat)) + " MiB"@
    } else if n >= KIB {
        one_decimal(nearest(v * 10, KIB as nat)) + " KiB"@
    } else {
        dec(n as nat) + " B"@
    }
}

fn push_tenths(s: &mut String, tenths: u128)
    requires
        tenths / 10 <= u64::MAX,
    ensures
        final(s)@ == old(s)@ + one_decimal(tenths as nat),
{
    push_dec(s, (tenths / 10) as u64);
    s.append(".");
    push_dec(s, (tenths % 10) as u64);
    assert(s@ =~= old(s)@ + one_decimal(tenths as nat));
}

/// A number of bytes, for people.
pub fn format_bytes(n: u64) -> (s: String)
    ensures
        s@ == bytes_text(n),
{
    let mut s: String = String::new();
    let v: u128 = to_double(n as u128, 1);
    if n >= GIB {
        let h: u128 = to_nearest(v * 100, GIB as u128);
        push_dec(&mut s, (h / 100) as u64);
        s.append(".");
        push_dec_padded(&mut s, (h % 100) as u64, 2);
        assert(s@ =~= two_decimals(h as nat));
        s.append(" GiB");
    } else if n >= MIB {
        let t: u128 = to_nearest(v * 10, MIB as u128);
        push_tenths(&mut s, t);
        assert(s@ =~= one_decimal(t as nat));
        s.append(" MiB");
    } else if n >= KIB {
        let t: u128 = to_nearest(v * 10, KIB as u128);
        push_tenths(&mut s, t);
        assert(s@ =~= one_decimal(t as nat));
        s.append(" KiB");
    } else {
        push_dec(&mut s, n);
        assert(s@ =~= dec(n as nat));
        s.append(" B");
    }
    s
}

/// The tenths of a duration of under a minute, from its seconds as a double.
pub open spec fn tenths_of(secs: nat, nanos: nat) -> nat {
    let t = seconds(secs, nanos);
    nearest(t.0 * 10, t.1)
}

/// A duration: hours and minutes, or minutes and seconds, or seconds with one decimal.
pub open spec fn duration_text(secs: u64, nanos: u32) -> Seq<char> {
    let h = secs as nat / 3600;
    let m = (secs as nat % 3600) / 60;
    let s = secs as nat % 60;
    if h > 0 {
        dec(h) + "h"@ + dec(m) + "m"@
    } else if m > 0 {
        dec(m) + "m"@ + dec(s) + "s"@
    } else {
        one_decimal(tenths_of(secs as nat, nanos as nat)) + "s"@
    }
}

/// A duration, for people.
pub fn format_duration(secs: u64, nanos: u32) -> (s: String)
    requires
        nanos < 1_000_000_000,
    ensures
        s@ == duration_text(secs, nanos),
{
    let h: u64 = secs / 3600;
    let m: u64 = (secs % 3600) / 60;
    let sec: u64 = secs % 60;
    let mut s: String = String::new();
    if h > 0 {
        push_dec(&mut s, h);
        assert(s@ =~= dec(h as nat));
        s.append("h");
        push_dec(&mut s, m);
        s.append("m");
    } else if m > 0 {
        push_dec(&mut s, m);
        assert(s@ =~= dec(m as nat));
        s.append("m");
        push_dec(&mut s, sec);
        s.append("s");
    } else {
        let (n, k) = to_seconds(secs, nanos);
        let d: u128 = power(k);
        let tenths: u128 = to_nearest(n * 10, d);
        proof {
            assert((n * 10) / (d as int) <= n * 10) by (nonlinear_arith)
                requires
                    d >= 1,
                    n >= 0,
            ;
        }
        push_tenths(&mut s, tenths);
        assert(s@ =~= one_decimal(tenths as nat));
        s.append("s");
    }
    s
}

/// The bytes that arrive in a second: the quotient of two doubles, cut off at the point.
pub open spec fn rate(bytes: u64, secs: u64, nanos: u32) -> nat {
    let t = seconds(secs as nat, nanos as nat);
    if t.0 == 0 {
        0
    } else {
        let r = rounded(double(bytes as nat, 1) * t.1, t.0);
        saturated(r.0 / r.1)
    }
}

/// The bytes that arrive in a second; none as long as no time has passed.
pub fn rate_bps(bytes: u64, secs: u64, nanos: u32) -> (r: u64)
    requires
        nanos < 1_000_000_000,
    ensures
        r == rate(bytes, secs, nanos),
{
    let (t, k) = to_seconds(secs, nanos);
    if t == 0 {
        return 0;
    }
    let n: u128 = to_double(bytes as u128, 1);
    let q: u128 = n / t;
    proof {
        assert(q <= n) by (nonlinear_arith)
            requires
                q == n / t,
                t >= 1,
        ;
        assert(q * t + n % t == n) by (nonlinear_arith)
            requires
                q == n / t,
                t >= 1,
        ;
    }
    let (p, j) = round_quotient(q, n % t, t);
    proof {
        let (a, b) = rounded(n as nat * two(k as nat), t as nat);
        lemma_rounded_scaled(n as nat, t as nat, k as nat);
        assert(a * two(j as nat) == (p as nat * two(k as nat)) * b) by (nonlinear_arith)
            requires
                a * two(j as nat) == two(k as nat) * p as nat * b,
        ;
        lemma_same_floor(a, b, p as nat * two(k as nat), two(j as nat));
    }
    whole_part(p, k, j)
}

/// The tenths of a percent that a part is of a total, as doubles, but not over a hundred percent.
pub open spec fn percent_tenths(part: u64, total: u64) -> nat {
    let share = rounded(double(part as nat, 1), double(total as nat, 1));
    let percent = rounded(share.0 * 100, share.1);
    if percent.0 > 100 * percent.1 {
        1000
    } else {
        nearest(percent.0 * 10, percent.1)
    }
}

fn to_percent_tenths(part: u64, total: u64) -> (tenths: u128)
    requires
        total > 0,
    ensures
        tenths == percent_tenths(part, total),
        tenths <= 1001,
{
    let n: u128 = to_double(part as u128, 1);
    let t: u128 = to_double(total as u128, 1);
    let q: u128 = n / t;
    proof {
        assert(q <= n) by (nonlinear_arith)
            requires
                q == n / t,
                t >= 1,
        ;
        assert(q * t + n % t == n) by (nonlinear_arith)
            requires
                q == n / t,
                t >= 1,
        ;
    }
    let (m, j) = round_quotient(q, n % t, t);
    proof {
        if j > 0 {
            lemma_not_whole(n as nat, t as nat, j as nat);
            assert(two(j as nat) <= 0x800_0000_0000_0000_0000_0000_0000_0000) by (nonlinear_arith)
                requires
                    two(j as nat) * n < MANTISSAS * t,
                    n >= 1,
                    t <= 0x4_0000_0000_0000_0000,
                    two(j as nat) >= 0,
            ;
        }
    }
    let d: u128 = power(j);
    let h: u128 = m * 100;
    let w: u128 = h / d;
    proof {
        assert(w <= h) by (nonlinear_arith)
            requires
                w == h / d,
                d >= 1,
        ;
        assert(w * d + h % d == h) by (nonlinear_arith)
            requires
                w == h / d,
                d >= 1,
        ;
        if w >= MANTISSAS && j > 0 {
            assert(d <= 100) by (nonlinear_arith)
                requires
                    w * d <= h,
                    w >= MANTISSAS,
                    h <= MANTISSAS * 100,
                    d >= 0,
            ;
        }
    }
    let (p, l) = round_quotient(w, h % d, d);
    proof {
        lemma_power_positive(l as nat);
        if l > 0 {
            lemma_not_whole(h as nat, d as nat, l as nat);
            let e = two(l as nat);
            if j > 0 {
                assert(e <= 0x4_0000_0000_0000_0000_0000_0000_0000) by (nonlinear_arith)
                    requires
                        e * h < MANTISSAS * d,
                        h >= 0x10_0000_0000_0000 * 100,
                        d * n < MANTISSAS * t,
                        n >= 1,
                        t <= 0x4_0000_0000_0000_0000,
                        e >= 0,
                        d >= 0,
                {
                    assert(d <= MANTISSAS * 0x4_0000_0000_0000_0000);
                    assert(e * (0x10_0000_0000_0000 * 100) <= e * h);
                }
            } else {
                assert(e <= MANTISSAS) by (nonlinear_arith)
                    requires
                        e * h < MANTISSAS * d,
                        d == 1,
                        h >= 1,
                        e >= 0,
                ;
            }
        }
    }
    let e: u128 = power(l);
    if p > 100 * e {
        return 1000;
    }
    let tenths: u128 = to_nearest(p * 10, e);
    proof {
        assert((p * 10) / (e as int) <= 1000) by (nonlinear_arith)
            requires
                p <= 100 * e,
                e >= 1,
        ;
    }
    tenths
}

/// How far a download has come, over the line that said so before.
pub open spec fn progress_text(got: u64, total: Option<u64>, rate: u64) -> Seq<char> {
    match total {
        Some(t) => if t > 0 {
            "\r  "@ + bytes_text(got) + " / "@ + bytes_text(t) + " ("@ + one_decimal(
                percent_tenths(got, t),
            ) + "%) \u{2014} "@ + bytes_text(rate) + "/s          "@
        } else {
            "\r  "@ + bytes_text(got) + " \u{2014} "@ + bytes_text(rate) + "/s          "@
        },
        None => "\r  "@ + bytes_text(got) + " \u{2014} "@ + bytes_text(rate) + "/s          "@,
    }
}

/// How far a download has come after some time.
pub fn print_progress(got: u64, total: Option<u64>, secs: u64, nanos: u32) -> (s: String)
    requires
        nanos < 1_000_000_000,
    ensures
        s@ == progress_text(got, total, rate(got, secs, nanos) as u64),
{
    let mut s: String = "\r  ".to_owned();
    s.append(format_bytes(got).as_str());
    let known: u64 = match total {
        Some(t) => t,
        None => 0,
    };
    if known > 0 {
        s.append(" / ");
        s.append(format_bytes(known).as_str());
        s.append(" (");
        push_tenths(&mut s, to_percent_tenths(got, known));
        s.append("%) \u{2014} ");
    } else {
        s.append(" \u{2014} ");
    }
    s.append(format_bytes(rate_bps(got, secs, nanos)).as_str());
    s.append("/s          ");
    s
}

/// What is said of a download that is complete.
pub fn downloaded(got: u64, secs: u64, nanos: u32) -> (s: String)
    requires
        nanos < 1_000_000_000,
    ensures
        s@ == "  Downloaded "@ + bytes_text(got) + " in "@ + duration_text(secs, nanos) + " (avg "@
            + bytes_text(rate(got, secs, nanos) as u64) + "/s)"@,
{
    let mut s: String = "  Downloaded ".to_owned();
    s.append(format_bytes(got).as_str());
    s.append(" in ");
    s.append(format_duration(secs, nanos).as_str());
    s.append(" (avg ");
    s.append(format_bytes(rate_bps(got, secs, nanos)).as_str());
    s.append("/s)");
    s
}

/// A file appears in its place only once its whole body was read, written and made sure of.
pub proof fn only_a_whole_file_is_moved(s: DownloadState, event: DownloadEvent)
    ensures
        download_next(s, event).phase is Finished ==> s.phase is Finished || (s.phase is Rename
            && event is Done),
        download_next(s, event).phase is Rename ==> s.phase is Rename || (s.phase is Flush
            && event is Done),
        download_next(s, event).phase is Flush ==> s.phase is Flush || (s.phase is Read && event
            == DownloadEvent::Piece(0)),
{
}

/// A download that fails once there is a file that takes what arrives fails only after that file
/// was removed, whether its body broke off, or it could not be written, made sure of or moved.
pub proof fn what_arrived_in_part_is_removed(s: DownloadState, event: DownloadEvent)
    requires
        s.phase is Read || s.phase is Write || s.phase is Report || s.phase is Flush
            || s.phase is Rename,
    ensures
        !(download_next(s, event).phase is Failed),
        download_next(s, event).phase matches DownloadPhase::Discard(f) ==> download_next(
            download_next(s, event),
            DownloadEvent::Done,
        ).phase == DownloadPhase::Failed(f),
{
}

/// What an event of a download does to the disk: whether the file that takes what arrives is there,
/// and whether it was moved to its place.
pub open spec fn on_disk(s: DownloadState, event: DownloadEvent, disk: (bool, bool)) -> (
    bool,
    bool,
) {
    match (s.phase, event) {
        (DownloadPhase::Request, DownloadEvent::Answer { .. }) => (false, disk.1),
        (DownloadPhase::Request, DownloadEvent::Broken(_)) => (false, disk.1),
        (DownloadPhase::Create, DownloadEvent::Done) => (true, disk.1),
        (DownloadPhase::Discard(_), DownloadEvent::Done) => (false, disk.1),
        (DownloadPhase::Rename, DownloadEvent::Done) => (false, true),
        _ => disk,
    }
}

/// What is on disk in a phase of a download.
pub open spec fn disk_in(phase: DownloadPhase) -> (bool, bool) {
    (
        phase is Read || phase is Write || phase is Report || phase is Discard || phase is Flush
            || phase is Rename,
        phase is Finished,
    )
}

/// Once the server was asked, the phase of a download says what is on disk, whatever an earlier one
/// left. So whatever it fails at, no file is left that takes what arrives, and the file in its place
/// is what it was.
pub proof fn a_failed_download_leaves_no_file(
    s: DownloadState,
    event: DownloadEvent,
    disk: (bool, bool),
)
    requires
        disk == disk_in(s.phase) || (s.phase is Request && (event is Answer || event is Broken)
            && !disk.1),
    ensures
        on_disk(s, event, disk) == disk_in(download_next(s, event).phase),
        download_next(s, event).phase is Failed ==> on_disk(s, event, disk) == (false, false),
{
}

/// Bytes count once they are written, and nothing else counts.
pub proof fn written_bytes_count(s: DownloadState, event: DownloadEvent)
    requires
        s.phase matches DownloadPhase::Write { len } ==> s.got + len <= u64::MAX,
    ensures
        download_next(s, event).got == s.got + match (s.phase, event) {
            (DownloadPhase::Write { len }, DownloadEvent::Written { .. }) => len as int,
            _ => 0,
        },
{
}

/// Whether a download can be skipped does not depend on which side is held against which.
pub proof fn matching_is_symmetric(a: FetchMetadata, b: FetchMetadata)
    ensures
        unchanged(a, b) == unchanged(b, a),
{
}

/// As long as the server says the same, and says anything, a file is not fetched twice.
pub proof fn the_same_answer_skips(m: FetchMetadata)
    requires
        (m.etag is Some && m.etag->0@.len() > 0) || (m.last_modified is Some
            && m.last_modified->0@.len() > 0),
    ensures
        unchanged(m, m),
{
}

/// Where the server says nothing, or says it in no words, nothing is skipped.
pub proof fn silence_matches_nothing(a: FetchMetadata, b: FetchMetadata)
    requires
        a.etag is None || a.etag->0@.len() == 0,
        a.last_modified is None || a.last_modified->0@.len() == 0,
    ensures
        !unchanged(a, b),
        !unchanged(b, a),
{
}

} // verus!
