//! The crate's error type.
use vstd::prelude::*;
use vstd::string::*;

use serde_json::Error as JsonError;

verus! {

/// `std::io::ErrorKind`, carried through unread.
#[verifier::external_type_specification]
#[verifier::external_body]
pub struct ExErrorKind(std::io::ErrorKind);

/// `std::io::Error`, of which only the kind is taken.
#[verifier::external_type_specification]
#[verifier::external_body]
pub struct ExIoError(std::io::Error);

/// `serde_json::Error`, of which only the text is taken.
#[verifier::external_type_specification]
#[verifier::external_body]
pub struct ExJsonError(JsonError);

/// What an input or output operation reported: its kind, the number that the system gave it where
/// it has one, and its text.
#[derive(Debug)]
pub struct IoSource {
    pub kind: std::io::ErrorKind,
    pub code: Option<i32>,
    pub message: String,
}

/// `std::io::Error::from_raw_os_error` makes an error of a number of the system. Nothing is promised
/// of it.
pub assume_specification[ std::io::Error::from_raw_os_error ](code: i32) -> (e: std::io::Error);

/// `std::io::Error::kind` sorts an error. Which kind goes with a number is up to the system, so
/// nothing is promised.
pub assume_specification[ std::io::Error::kind ](e: &std::io::Error) -> (kind: std::io::ErrorKind);

impl IoSource {
    /// An error of the system with this number, and a text that says more.
    pub fn from_code(code: i32, message: &str) -> (e: IoSource)
        ensures
            e.code == Some(code),
            e.message@ == message@,
    {
        let kind: std::io::ErrorKind = std::io::Error::from_raw_os_error(code).kind();
        IoSource { kind, code: Some(code), message: message.to_owned() }
    }
}

/// Why a request or an operation failed.
#[derive(Debug)]
pub enum Error {
    /// The client asked for something that makes no sense.
    BadRequest(String),
    /// The slot is in the wrong state for the request.
    SlotState(String),
    /// Reading or writing failed; `ctx` says what was tried.
    Io { ctx: String, source: IoSource },
    /// A device-tree operation failed.
    Fdt { op: String, message: String },
    /// A message on the control socket could not be read or written, for this reason.
    Protocol(String),
    /// An invariant of the daemon was violated.
    Internal(String),
}

/// An I/O error with this context and source.
pub open spec fn is_io(e: Error, what: Seq<char>, why: IoSource) -> bool {
    e matches Error::Io { ctx, source } && ctx@ == what && source == why
}

/// An internal error with this text.
pub open spec fn is_internal(e: Error, text: Seq<char>) -> bool {
    e matches Error::Internal(m) && m@ == text
}

pub type Result<T> = std::result::Result<T, Error>;

/// What a `serde_json::Error` prints: what is wrong with the input, and where. There is none for an
/// error of the system on the way to the input, whose text is up to the system.
pub uninterp spec fn json_message(e: JsonError) -> Option<Seq<char>>;

/// Prints a `serde_json::Error` with its `Display`. That writes what the error itself holds, and so
/// is named by [`json_message`], unless it holds an error of the system.
#[verifier::external_body]
fn json_error_text(e: &JsonError) -> (s: String)
    ensures
        json_message(*e) matches Some(text) ==> s@ == text,
{
    e.to_string()
}

impl Error {
    /// The text of an error.
    pub open spec fn text(&self) -> Seq<char> {
        match *self {
            Error::BadRequest(m) => m@,
            Error::SlotState(m) => m@,
            Error::Io { ctx, source } => ctx@ + ": "@ + source.message@,
            Error::Fdt { op, message } => "fdt: "@ + op@ + ": "@ + message@,
            Error::Protocol(m) => "protocol: "@ + m@,
            Error::Internal(m) => "internal: "@ + m@,
        }
    }

    /// A device-tree error with this operation and message.
    pub open spec fn is_fdt(&self, op: Seq<char>, message: Seq<char>) -> bool {
        self matches Error::Fdt { op: o, message: m } && o@ == op && m@ == message
    }

    /// The error as text.
    pub fn to_string(&self) -> (s: String)
        ensures
            s@ == self.text(),
    {
        match self {
            Error::BadRequest(m) => m.clone(),
            Error::SlotState(m) => m.clone(),
            Error::Io { ctx, source } => {
                let mut s: String = ctx.clone();
                s.append(": ");
                s.append(source.message.as_str());
                s
            },
            Error::Fdt { op, message } => {
                let mut s: String = "fdt: ".to_owned();
                s.append(op.as_str());
                s.append(": ");
                s.append(message.as_str());
                s
            },
            Error::Protocol(m) => {
                let mut s: String = "protocol: ".to_owned();
                s.append(m.as_str());
                s
            },
            Error::Internal(m) => {
                let mut s: String = "internal: ".to_owned();
                s.append(m.as_str());
                s
            },
        }
    }

    /// The kind and the text of the I/O error that stands for this error outside the crate. No
    /// kind means `Other`.
    pub fn io_parts(&self) -> (parts: (Option<std::io::ErrorKind>, String))
        ensures
            parts.0 == match *self {
                Error::Io { ctx, source } => Some(source.kind),
                _ => None,
            },
            parts.1@ == self.text(),
    {
        let text: String = self.to_string();
        match self {
            Error::Io { ctx, source } => (Some(source.kind), text),
            _ => (None, text),
        }
    }

    /// Wraps an I/O error with what was tried.
    pub fn io_ctx(ctx: &str, source: IoSource) -> (e: Error)
        ensures
            e matches Error::Io { ctx: c, source: s } && c@ == ctx@ && s == source,
    {
        Error::Io { ctx: ctx.to_owned(), source }
    }

    pub fn slot_state(msg: &str) -> (e: Error)
        ensures
            e matches Error::SlotState(m) && m@ == msg@,
    {
        Error::SlotState(msg.to_owned())
    }

    pub fn bad_request(msg: &str) -> (e: Error)
        ensures
            e matches Error::BadRequest(m) && m@ == msg@,
    {
        Error::BadRequest(msg.to_owned())
    }

    pub fn internal(msg: &str) -> (e: Error)
        ensures
            e matches Error::Internal(m) && m@ == msg@,
    {
        Error::Internal(msg.to_owned())
    }

    pub fn fdt(op: &str, message: &str) -> (e: Error)
        ensures
            e.is_fdt(op@, message@),
    {
        Error::Fdt { op: op.to_owned(), message: message.to_owned() }
    }
}

impl From<JsonError> for Error {
    fn from(e: JsonError) -> (r: Error)
        ensures
            r matches Error::Protocol(m) && (json_message(e) matches Some(text) ==> m@ == text),
    {
        Error::Protocol(json_error_text(&e))
    }
}

impl vstd::std_specs::convert::FromSpecImpl<JsonError> for Error {
    open spec fn obeys_from_spec() -> bool {
        false
    }

    open spec fn from_spec(e: JsonError) -> Error {
        arbitrary()
    }
}

} // verus!
