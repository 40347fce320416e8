//! What a client makes of the daemon's answers.
use vstd::prelude::*;
use vstd::string::*;

#[allow(unused_imports)]
use crate::daemon::debug::response_text;
use crate::daemon::debug::push_response;
use crate::daemon::protocol::{Response, StatusPayload};
#[allow(unused_imports)]
use crate::text::dec;
use crate::text::push_dec;

verus! {

/// What is said of an answer that makes no sense.
pub open spec fn unexpected_text(r: Response) -> Seq<char> {
    "unexpected response: "@ + response_text(r)
}

fn unexpected(r: &Response) -> (s: String)
    ensures
        s@ == unexpected_text(*r),
{
    let mut s: String = "unexpected response: ".to_owned();
    push_response(&mut s, r);
    s
}

/// What a client makes of an answer that it did not wait for.
pub open spec fn is_failure(resp: Response, m: Seq<char>) -> bool {
    match resp {
        Response::Error { error } => m == error@,
        _ => m == unexpected_text(resp),
    }
}

fn failure(resp: Response) -> (m: String)
    ensures
        is_failure(resp, m@),
{
    match resp {
        Response::Error { error } => error,
        other => unexpected(&other),
    }
}

/// The answer to a request that is either done or not.
pub fn expect_ok(resp: Response) -> (r: std::result::Result<(), String>)
    ensures
        r is Ok <==> resp is Done,
        r matches Err(m) ==> is_failure(resp, m@),
{
    match resp {
        Response::Done => Ok(()),
        other => Err(failure(other)),
    }
}

/// The answer to a request for the state of the daemon.
pub fn status(resp: Response) -> (r: std::result::Result<StatusPayload, String>)
    ensures
        match resp {
            Response::Status(p) => r == Ok::<StatusPayload, String>(p),
            _ => r matches Err(m) && is_failure(resp, m@),
        },
{
    match resp {
        Response::Status(p) => Ok(p),
        other => Err(failure(other)),
    }
}

/// The answer to a request for a console: how many bytes are replayed, and whether the console is
/// live.
pub fn attach_console(resp: Response) -> (r: std::result::Result<(u32, bool), String>)
    ensures
        match resp {
            Response::Attached { scrollback_bytes, live } => r == Ok::<(u32, bool), String>(
                (scrollback_bytes, live),
            ),
            _ => r matches Err(m) && is_failure(resp, m@),
        },
{
    match resp {
        Response::Attached { scrollback_bytes, live } => Ok((scrollback_bytes, live)),
        other => Err(failure(other)),
    }
}

/// What is said where there is no daemon to talk to.
pub fn connect(card: u32, sock: &str, why: &str) -> (s: String)
    ensures
        s@ == "no daemon socket at "@ + sock@ + " ("@ + why@
            + "). Start one with: tt-bh-linux daemon start --card "@ + dec(card as nat),
{
    let mut s: String = "no daemon socket at ".to_owned();
    s.append(sock);
    s.append(" (");
    s.append(why);
    s.append("). Start one with: tt-bh-linux daemon start --card ");
    push_dec(&mut s, card as u64);
    s
}

} // verus!
