//! The prefix of a line in the daemon's log.
use vstd::prelude::*;
use vstd::string::*;

#[allow(unused_imports)]
use crate::text::{dec, zero_padded};
use crate::text::{push_dec, push_dec_padded};

verus! {

/// A number with at least this many digits.
pub open spec fn padded(n: int, width: nat) -> Seq<char> {
    zero_padded(dec(n as nat), width)
}

/// An offset from universal time, given in seconds: `Z` where it is none, else its sign, hours and
/// minutes.
pub open spec fn offset_text(secs: int) -> Seq<char> {
    if secs == 0 {
        "Z"@
    } else {
        let abs = if secs < 0 {
            -secs
        } else {
            secs
        };
        seq![if secs < 0 { '-' } else { '+' }] + padded(abs / 3600, 2) + ":"@ + padded(
            (abs % 3600) / 60,
            2,
        )
    }
}

pub fn format_offset(gmtoff_secs: i64) -> (s: String)
    requires
        gmtoff_secs > i64::MIN,
    ensures
        s@ == offset_text(gmtoff_secs as int),
{
    if gmtoff_secs == 0 {
        return "Z".to_owned();
    }
    let mut s: String = String::new();
    let abs: u64 = if gmtoff_secs < 0 {
        s.push('-');
        (-gmtoff_secs) as u64
    } else {
        s.push('+');
        gmtoff_secs as u64
    };
    assert(s@ =~= seq![if gmtoff_secs < 0 { '-' } else { '+' }]);
    push_dec_padded(&mut s, abs / 3600, 2);
    s.append(":");
    push_dec_padded(&mut s, (abs % 3600) / 60, 2);
    s
}

/// A moment in local time.
#[derive(Clone, Copy, Debug)]
pub struct LocalTime {
    pub year: u32,
    pub month: u32,
    pub day: u32,
    pub hour: u32,
    pub minute: u32,
    pub second: u32,
    pub millis: u32,
    pub gmtoff_secs: i64,
}

/// The prefix of a line: when it was written, and by whom.
pub open spec fn prefix_text(t: LocalTime, pid: u32, tid: u64) -> Seq<char> {
    "["@ + padded(t.year as int, 4) + "-"@ + padded(t.month as int, 2) + "-"@ + padded(
        t.day as int,
        2,
    ) + "T"@ + padded(t.hour as int, 2) + ":"@ + padded(t.minute as int, 2) + ":"@ + padded(
        t.second as int,
        2,
    ) + "."@ + padded(t.millis as int, 3) + offset_text(t.gmtoff_secs as int) + " pid="@ + dec(
        pid as nat,
    ) + " tid="@ + dec(tid as nat) + "]"@
}

pub fn ts_prefix(t: &LocalTime, pid: u32, tid: u64) -> (s: String)
    requires
        t.gmtoff_secs > i64::MIN,
    ensures
        s@ == prefix_text(*t, pid, tid),
{
    let mut s: String = "[".to_owned();
    push_dec_padded(&mut s, t.year as u64, 4);
    s.append("-");
    push_dec_padded(&mut s, t.month as u64, 2);
    s.append("-");
    push_dec_padded(&mut s, t.day as u64, 2);
    s.append("T");
    push_dec_padded(&mut s, t.hour as u64, 2);
    s.append(":");
    push_dec_padded(&mut s, t.minute as u64, 2);
    s.append(":");
    push_dec_padded(&mut s, t.second as u64, 2);
    s.append(".");
    push_dec_padded(&mut s, t.millis as u64, 3);
    s.append(format_offset(t.gmtoff_secs).as_str());
    s.append(" pid=");
    push_dec(&mut s, pid as u64);
    s.append(" tid=");
    push_dec(&mut s, tid);
    s.append("]");
    s
}

} // verus!
