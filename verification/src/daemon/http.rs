//! The request side of the metrics exporter: just enough HTTP/1.1 to tell one
//! path from the rest.
use vstd::prelude::*;
use vstd::string::*;
#[allow(unused_imports)]
use vstd::utf8::{decode_utf8, encode_utf8, valid_utf8};

#[allow(unused_imports)]
use crate::daemon::exposition::lines_text;
#[allow(unused_imports)]
use crate::daemon::metrics::prometheus_lines;
use crate::daemon::metrics::{render_prometheus, Metrics, ScrapeState};
use crate::text::{
    chars_of, decode, find_char, push_dec, same, skip_white, string_between, word_end,
};
#[allow(unused_imports)]
use crate::text::{after_word, dec, lemma_until, until, word};

verus! {

/// Request headers beyond this many bytes are refused.
pub const MAX_REQUEST_HEADER_BYTES: usize = 8192;

/// What a request line asks for.
#[derive(Clone, Copy, Debug, PartialEq, Eq, Structural)]
pub enum RequestKind {
    /// `GET /metrics`, with or without a query string.
    Metrics,
    /// The path is `/metrics` but the method is not `GET`.
    MethodNotAllowed,
    /// Anything else.
    NotFound,
}

/// The method of a request line: its first word.
pub open spec fn method_of(line: Seq<char>) -> Seq<char> {
    word(line)
}

/// The path of a request line: its second word, without the query string.
pub open spec fn path_of(line: Seq<char>) -> Seq<char> {
    until(word(after_word(line)), |c: char| c == '?')
}

/// What a request line asks for.
pub open spec fn request_kind(line: Seq<char>) -> RequestKind {
    if path_of(line) != "/metrics"@ {
        RequestKind::NotFound
    } else if method_of(line) != "GET"@ {
        RequestKind::MethodNotAllowed
    } else {
        RequestKind::Metrics
    }
}

/// Tells what a request line asks for. The version is ignored.
pub fn parse_request_line(line: &str) -> (kind: RequestKind)
    ensures
        kind == request_kind(line@),
{
    let chars: Vec<char> = chars_of(line);
    let all: &[char] = chars.as_slice();
    assert(line@.skip(0) =~= line@);
    let m0: usize = skip_white(all, 0);
    let m1: usize = word_end(all, m0);
    let method: String = string_between(all, m0, m1);
    assert(method@ == method_of(line@));
    assert(line@.skip(m0 as int).skip(m1 - m0) =~= line@.skip(m1 as int));
    assert(after_word(line@) =~= line@.skip(m1 as int));
    let p0: usize = skip_white(all, m1);
    let p1: usize = word_end(all, p0);
    let ghost target = line@.subrange(p0 as int, p1 as int);
    assert(target == word(after_word(line@)));
    let query: usize = find_char(all, p0, '?');
    let p2: usize = if query < p1 {
        query
    } else {
        p1
    };
    let path: String = string_between(all, p0, p2);
    proof {
        let stop = |c: char| c == '?';
        assert forall|k: int| 0 <= k < p2 - p0 implies !stop(#[trigger] target[k]) by {
            assert(target[k] == line@[p0 + k]);
        }
        lemma_until(target, stop, p2 - p0);
        assert(path@ =~= target.take(p2 - p0));
    }
    if !same(path.as_str(), "/metrics") {
        RequestKind::NotFound
    } else if !same(method.as_str(), "GET") {
        RequestKind::MethodNotAllowed
    } else {
        RequestKind::Metrics
    }
}

/// The end of the headers stands at `i`: an empty line.
pub open spec fn terminator_at(buf: Seq<u8>, i: int) -> bool {
    &&& 0 <= i
    &&& i + 4 <= buf.len()
    &&& buf[i] == 13
    &&& buf[i + 1] == 10
    &&& buf[i + 2] == 13
    &&& buf[i + 3] == 10
}

/// The headers end somewhere at or behind `from`.
pub open spec fn terminated_from(buf: Seq<u8>, from: int) -> bool {
    exists|i: int| from <= i && #[trigger] terminator_at(buf, i)
}

pub open spec fn terminated(buf: Seq<u8>) -> bool {
    terminated_from(buf, 0)
}

/// What one read of the connection gave.
pub enum ReadEvent {
    /// Bytes, at least one.
    Data(Vec<u8>),
    /// The peer closed its side.
    Closed,
    /// The read timed out.
    TimedOut,
    /// The read failed.
    Failed,
}

/// What to do after a read.
#[derive(Clone, Copy, Debug, PartialEq, Eq, Structural)]
pub enum ReadStep {
    /// Read on.
    More,
    /// Answer the request that the buffer holds.
    Done,
    /// Refuse the request: its headers are too long.
    TooLarge,
}

/// Where the scan for the end of the headers starts when the buffer held `len` bytes before: three
/// bytes earlier, so that an end that straddles two reads is seen.
pub open spec fn scan_start(len: nat) -> int {
    if len >= 3 {
        len - 3
    } else {
        0
    }
}

/// The step that follows a read of `chunk` when the buffer held `before`.
pub open spec fn step_after(before: Seq<u8>, chunk: Seq<u8>) -> ReadStep {
    if terminated_from(before + chunk, scan_start(before.len())) {
        ReadStep::Done
    } else if (before + chunk).len() >= MAX_REQUEST_HEADER_BYTES {
        ReadStep::TooLarge
    } else {
        ReadStep::More
    }
}

/// Takes one read into the buffer and says what to do next. Headers that are too long are the only
/// thing that is refused: however else reading comes to an end, what was read is answered.
pub fn read_request_headers(buf: &mut Vec<u8>, event: &ReadEvent) -> (step: ReadStep)
    ensures
        final(buf)@ == match *event {
            ReadEvent::Data(d) => old(buf)@ + d@,
            _ => old(buf)@,
        },
        step == match *event {
            ReadEvent::Data(d) => step_after(old(buf)@, d@),
            ReadEvent::Closed => ReadStep::Done,
            ReadEvent::TimedOut => ReadStep::Done,
            ReadEvent::Failed => ReadStep::Done,
        },
{
    match event {
        ReadEvent::Data(chunk) => {
            let before: usize = buf.len();
            let start: usize = if before >= 3 {
                before - 3
            } else {
                0
            };
            let mut k: usize = 0;
            while k < chunk.len()
                invariant
                    k <= chunk@.len(),
                    buf@ == old(buf)@ + chunk@.take(k as int),
                decreases chunk@.len() - k,
            {
                buf.push(chunk[k]);
                k = k + 1;
                assert(buf@ =~= old(buf)@ + chunk@.take(k as int));
            }
            assert(chunk@.take(chunk@.len() as int) =~= chunk@);
            let mut i: usize = start;
            while i < buf.len() && buf.len() - i >= 4
                invariant
                    start == scan_start(old(buf)@.len()),
                    start <= i,
                    buf@ == old(buf)@ + chunk@,
                    event matches ReadEvent::Data(d) && d@ == chunk@,
                    forall|j: int| start <= j < i ==> !#[trigger] terminator_at(buf@, j),
                decreases buf@.len() - i,
            {
                if buf[i] == 13 && buf[i + 1] == 10 && buf[i + 2] == 13 && buf[i + 3] == 10 {
                    assert(terminator_at(buf@, i as int));
                    return ReadStep::Done;
                }
                i = i + 1;
            }
            if buf.len() >= MAX_REQUEST_HEADER_BYTES {
                ReadStep::TooLarge
            } else {
                ReadStep::More
            }
        },
        ReadEvent::Closed => ReadStep::Done,
        ReadEvent::TimedOut => ReadStep::Done,
        ReadEvent::Failed => ReadStep::Done,
    }
}

/// Scanning the new tail is enough: while no earlier read ended the headers, a read ends them if
/// and only if the whole buffer holds their end.
pub proof fn tail_scan_is_complete(before: Seq<u8>, chunk: Seq<u8>)
    requires
        !terminated(before),
    ensures
        terminated_from(before + chunk, scan_start(before.len())) <==> terminated(before + chunk),
        step_after(before, chunk) == ReadStep::More ==> !terminated(before + chunk),
{
    let all = before + chunk;
    if terminated(all) {
        let i = choose|i: int| 0 <= i && #[trigger] terminator_at(all, i);
        if i < scan_start(before.len()) {
            assert(terminator_at(before, i));
        }
        assert(terminated_from(all, scan_start(before.len())));
    }
    if terminated_from(all, scan_start(before.len())) {
        let i = choose|i: int| scan_start(before.len()) <= i && #[trigger] terminator_at(all, i);
        assert(terminator_at(all, i));
    }
}

/// The buffer after some reads of data, and the step that follows; what comes after the first step
/// that is no more reading is not read.
pub open spec fn after_reads(pieces: Seq<Seq<u8>>) -> (Seq<u8>, ReadStep)
    decreases pieces.len(),
{
    if pieces.len() == 0 {
        (Seq::empty(), ReadStep::More)
    } else {
        let (buf, step) = after_reads(pieces.drop_last());
        if step == ReadStep::More {
            (buf + pieces.last(), step_after(buf, pieces.last()))
        } else {
            (buf, step)
        }
    }
}

/// However a request is cut into pieces, it is answered once its headers ended, and refused if and
/// only if they take up all the room without an end.
pub proof fn only_long_headers_are_refused(pieces: Seq<Seq<u8>>)
    ensures
        ({
            let (buf, step) = after_reads(pieces);
            &&& step == ReadStep::Done <==> terminated(buf)
            &&& step == ReadStep::TooLarge <==> !terminated(buf) && buf.len()
                >= MAX_REQUEST_HEADER_BYTES
        }),
    decreases pieces.len(),
{
    if pieces.len() == 0 {
        assert(!terminated(Seq::<u8>::empty()));
    } else {
        only_long_headers_are_refused(pieces.drop_last());
        let (buf, step) = after_reads(pieces.drop_last());
        if step == ReadStep::More {
            tail_scan_is_complete(buf, pieces.last());
        }
    }
}

/// A complete response that closes the connection. The length counts the bytes of the body.
pub open spec fn response_text(status: Seq<char>, content_type: Seq<char>, body: Seq<char>) -> Seq<
    char,
> {
    "HTTP/1.1 "@ + status + "\r\nContent-Type: "@ + content_type + "\r\nContent-Length: "@ + dec(
        encode_utf8(body).len(),
    ) + "\r\nConnection: close\r\n\r\n"@ + body
}

/// Formats a complete response.
pub fn http_response(status_line: &str, content_type: &str, body: &str) -> (response: String)
    ensures
        response@ == response_text(status_line@, content_type@, body@),
{
    let mut response: String = "HTTP/1.1 ".to_owned();
    response.append(status_line);
    response.append("\r\nContent-Type: ");
    response.append(content_type);
    response.append("\r\nContent-Length: ");
    push_dec(&mut response, body.as_bytes().len() as u64);
    response.append("\r\nConnection: close\r\n\r\n");
    response.append(body);
    response
}

/// The first line of a text, without its line ending.
pub open spec fn first_line(s: Seq<char>) -> Seq<char> {
    let line = until(s, |c: char| c == '\n');
    if line.len() < s.len() && line.len() > 0 && line.last() == '\r' {
        line.drop_last()
    } else {
        line
    }
}

/// The request line of a request: empty where the bytes are not valid UTF-8.
pub open spec fn request_line(buf: Seq<u8>) -> Seq<char> {
    if valid_utf8(buf) {
        first_line(decode_utf8(buf))
    } else {
        ""@
    }
}

fn request_line_of(buf: &[u8]) -> (line: String)
    ensures
        line@ == request_line(buf@),
{
    match decode(buf) {
        Some(chars) => {
            let all: &[char] = chars.as_slice();
            let end: usize = find_char(all, 0, '\n');
            proof {
                let stop = |c: char| c == '\n';
                lemma_until(chars@, stop, end as int);
            }
            if end < all.len() && end > 0 && all[end - 1] == '\r' {
                let line: String = string_between(all, 0, end - 1);
                assert(line@ =~= chars@.take(end as int).drop_last());
                line
            } else {
                let line: String = string_between(all, 0, end);
                assert(line@ =~= chars@.take(end as int));
                line
            }
        },
        None => "".to_owned(),
    }
}

/// The answer to a request: its status line, its content type and its body.
pub open spec fn answer(buf: Seq<u8>, step: ReadStep, m: Metrics, s: ScrapeState) -> Seq<char> {
    let plain = "text/plain; charset=utf-8"@;
    match step {
        ReadStep::TooLarge => response_text(
            "413 Payload Too Large"@,
            plain,
            "413 Payload Too Large\n"@,
        ),
        _ => match request_kind(request_line(buf)) {
            RequestKind::Metrics => response_text(
                "200 OK"@,
                "text/plain; version=0.0.4; charset=utf-8"@,
                lines_text(prometheus_lines(m, s)),
            ),
            RequestKind::MethodNotAllowed => response_text(
                "405 Method Not Allowed"@,
                plain,
                "405 Method Not Allowed\n"@,
            ),
            RequestKind::NotFound => response_text("404 Not Found"@, plain, "404 Not Found\n"@),
        },
    }
}

/// The response to send once reading has stopped; nothing as long as it goes on.
pub fn handle_request(buf: &[u8], step: ReadStep, m: &Metrics, s: &ScrapeState) -> (response: Option<
    String,
>)
    ensures
        response is None <==> step == ReadStep::More,
        response matches Some(r) ==> r@ == answer(buf@, step, *m, *s),
{
    match step {
        ReadStep::More => None,
        ReadStep::TooLarge => Some(
            http_response(
                "413 Payload Too Large",
                "text/plain; charset=utf-8",
                "413 Payload Too Large\n",
            ),
        ),
        ReadStep::Done => {
            let line: String = request_line_of(buf);
            match parse_request_line(line.as_str()) {
                RequestKind::Metrics => {
                    let body: String = render_prometheus(m, s);
                    Some(
                        http_response(
                            "200 OK",
                            "text/plain; version=0.0.4; charset=utf-8",
                            body.as_str(),
                        ),
                    )
                },
                RequestKind::MethodNotAllowed => Some(
                    http_response(
                        "405 Method Not Allowed",
                        "text/plain; charset=utf-8",
                        "405 Method Not Allowed\n",
                    ),
                ),
                RequestKind::NotFound => Some(
                    http_response(
                        "404 Not Found",
                        "text/plain; charset=utf-8",
                        "404 Not Found\n",
                    ),
                ),
            }
        },
    }
}

} // verus!
