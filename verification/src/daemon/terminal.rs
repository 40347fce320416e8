//! The terminal of a console client: which of the bytes that come from the terminal go to the core.
//!
//! A terminal answers queries for the position of its cursor. While old output is replayed such an
//! answer was not asked for by the guest that runs now, and is held back.
use vstd::prelude::*;

use crate::bytes::push_all;
#[allow(unused_imports)]
use crate::console::{key_action, sent_by};
use crate::console::{take_key, KeyAction, CTRL_A};

verus! {

pub const ESC: u8 = 0x1b;

pub const BRACKET: u8 = 0x5b;

/// How far into an escape sequence the input is.
#[derive(Debug, PartialEq, Eq)]
pub enum EscState {
    Idle,
    /// Behind an escape byte.
    Esc,
    /// Inside a control sequence; these are the bytes since its introducer.
    Csi(Vec<u8>),
}

/// What to do with the bytes that were collected.
#[derive(Clone, Copy, Debug, PartialEq, Eq, Structural)]
pub enum EscDecision {
    /// Send them.
    Emit,
    /// Collect more.
    Drop,
    /// They are an answer about the position of the cursor.
    CprResponse,
}

impl EscState {
    /// The bytes that are held back.
    pub open spec fn held(&self) -> Seq<u8> {
        match *self {
            EscState::Idle => seq![],
            EscState::Esc => seq![ESC],
            EscState::Csi(buf) => seq![ESC, BRACKET] + buf@,
        }
    }
}

/// A byte that ends a control sequence.
pub open spec fn is_final(b: u8) -> bool {
    0x40 <= b <= 0x7e
}

/// A digit or a semicolon.
pub open spec fn is_parameter(b: u8) -> bool {
    0x30 <= b <= 0x39 || b == 0x3b
}

/// A whole answer about the position of the cursor.
pub open spec fn is_report(s: Seq<u8>) -> bool {
    &&& s.len() >= 3
    &&& s[0] == ESC
    &&& s[1] == BRACKET
    &&& s.last() == 0x52
    &&& forall|i: int| 2 <= i < s.len() - 1 ==> is_parameter(#[trigger] s[i])
}

/// What is done when `byte` comes while `held` is held back.
pub open spec fn verdict(held: Seq<u8>, byte: u8) -> EscDecision {
    if held.len() == 0 {
        if byte == ESC {
            EscDecision::Drop
        } else {
            EscDecision::Emit
        }
    } else if held.len() == 1 {
        if byte == BRACKET {
            EscDecision::Drop
        } else {
            EscDecision::Emit
        }
    } else if !is_final(byte) {
        EscDecision::Drop
    } else if is_report(held.push(byte)) {
        EscDecision::CprResponse
    } else {
        EscDecision::Emit
    }
}

/// What is held back after `byte`.
pub open spec fn held_next(held: Seq<u8>, byte: u8) -> Seq<u8> {
    if verdict(held, byte) == EscDecision::Drop {
        held.push(byte)
    } else {
        seq![]
    }
}

fn all_parameters(buf: &Vec<u8>) -> (r: bool)
    ensures
        r == forall|i: int| 0 <= i < buf@.len() ==> is_parameter(#[trigger] buf@[i]),
{
    let mut i: usize = 0;
    while i < buf.len()
        invariant
            i <= buf@.len(),
            forall|k: int| 0 <= k < i ==> is_parameter(#[trigger] buf@[k]),
        decreases buf@.len() - i,
    {
        let b: u8 = buf[i];
        if !((0x30 <= b && b <= 0x39) || b == 0x3b) {
            assert(!is_parameter(buf@[i as int]));
            return false;
        }
        i = i + 1;
    }
    true
}

/// Takes a byte from the terminal. What is held back is never empty inside a sequence, and once a
/// decision falls all of it comes out in front of the byte.
pub fn advance_esc(state: &mut EscState, byte: u8, out: &mut Vec<u8>) -> (d: EscDecision)
    ensures
        d == verdict(old(state).held(), byte),
        final(state).held() == held_next(old(state).held(), byte),
        d == EscDecision::Drop ==> final(out)@ == old(out)@,
        d != EscDecision::Drop ==> final(out)@ == old(out)@ + old(state).held().push(byte)
            && *final(state) == EscState::Idle,
{
    let mut now: EscState = EscState::Idle;
    std::mem::swap(&mut now, state);
    let ghost held = now.held();
    match now {
        EscState::Idle => {
            if byte == ESC {
                *state = EscState::Esc;
                assert(state.held() =~= held.push(byte));
                EscDecision::Drop
            } else {
                out.push(byte);
                assert(out@ =~= old(out)@ + held.push(byte));
                EscDecision::Emit
            }
        },
        EscState::Esc => {
            if byte == BRACKET {
                *state = EscState::Csi(Vec::new());
                assert(state.held() =~= held.push(byte));
                EscDecision::Drop
            } else {
                out.push(ESC);
                out.push(byte);
                assert(out@ =~= old(out)@ + held.push(byte));
                EscDecision::Emit
            }
        },
        EscState::Csi(mut buf) => {
            let ghost before = buf@;
            if !(0x40 <= byte && byte <= 0x7e) {
                buf.push(byte);
                *state = EscState::Csi(buf);
                assert(state.held() =~= held.push(byte));
                return EscDecision::Drop;
            }
            let plain: bool = all_parameters(&buf);
            out.push(ESC);
            out.push(BRACKET);
            push_all(out, buf.as_slice());
            out.push(byte);
            assert(out@ =~= old(out)@ + held.push(byte));
            proof {
                let whole = held.push(byte);
                assert forall|i: int| 0 <= i < before.len() implies before[i] == whole[i + 2] by {}
                if plain {
                    assert forall|i: int| 2 <= i < whole.len() - 1 implies is_parameter(
                        #[trigger] whole[i],
                    ) by {
                        assert(is_parameter(before[i - 2]));
                    }
                } else {
                    let i = choose|i: int|
                        0 <= i < before.len() && !is_parameter(#[trigger] before[i]);
                    assert(!is_parameter(whole[i + 2]));
                }
            }
            if byte == 0x52 && plain {
                EscDecision::CprResponse
            } else {
                EscDecision::Emit
            }
        },
    }
}

/// What comes of typing these bytes: what is sent, whether a Ctrl-A is held back, and whether the
/// console was left.
pub open spec fn typed(held: bool, bytes: Seq<u8>) -> (Seq<u8>, bool, bool)
    decreases bytes.len(),
{
    if bytes.len() == 0 {
        (seq![], held, false)
    } else {
        match key_action(held, bytes[0]) {
            KeyAction::Quit => (seq![], false, true),
            action => {
                let rest = typed(action == KeyAction::Hold, bytes.skip(1));
                (sent_by(action) + rest.0, rest.1, rest.2)
            },
        }
    }
}

/// The keyboard side of a console client.
#[derive(Debug)]
pub struct Writer {
    pub esc: EscState,
    pub ctrl_a: bool,
}

/// What of a byte from the terminal gets through to the keys.
pub open spec fn let_through(held: Seq<u8>, byte: u8, in_replay: bool) -> Seq<u8> {
    match verdict(held, byte) {
        EscDecision::Drop => seq![],
        EscDecision::Emit => held.push(byte),
        EscDecision::CprResponse => if in_replay {
            seq![]
        } else {
            held.push(byte)
        },
    }
}

impl Writer {
    pub fn new() -> (w: Self)
        ensures
            w.esc.held().len() == 0,
            !w.ctrl_a,
    {
        Writer { esc: EscState::Idle, ctrl_a: false }
    }

    /// Takes a byte from the terminal: what is to be sent, and whether the user left the console.
    pub fn writer_loop(&mut self, byte: u8, in_replay: bool) -> (r: (Vec<u8>, bool))
        ensures
            final(self).esc.held() == held_next(old(self).esc.held(), byte),
            (r.0@, final(self).ctrl_a, r.1) == typed(
                old(self).ctrl_a,
                let_through(old(self).esc.held(), byte, in_replay),
            ),
    {
        let mut keys: Vec<u8> = Vec::new();
        let d: EscDecision = advance_esc(&mut self.esc, byte, &mut keys);
        let ghost through = let_through(old(self).esc.held(), byte, in_replay);
        let pass: bool = match d {
            EscDecision::Drop => false,
            EscDecision::Emit => true,
            EscDecision::CprResponse => !in_replay,
        };
        let mut send: Vec<u8> = Vec::new();
        if !pass {
            assert(through =~= seq![]);
            assert(send@ =~= seq![]);
            return (send, false);
        }
        assert(keys@ =~= through);
        let ghost held0 = self.ctrl_a;
        let mut i: usize = 0;
        assert(keys@.skip(0) =~= keys@);
        proof {
            let rest = typed(held0, keys@);
            assert(seq![] + rest.0 =~= rest.0);
        }
        while i < keys.len()
            invariant
                i <= keys@.len(),
                self.esc.held() == held_next(old(self).esc.held(), byte),
                ({
                    let rest = typed(self.ctrl_a, keys@.skip(i as int));
                    typed(held0, keys@) == (send@ + rest.0, rest.1, rest.2)
                }),
                held0 == old(self).ctrl_a,
                keys@ == through,
                through == let_through(old(self).esc.held(), byte, in_replay),
            decreases keys@.len() - i,
        {
            let ghost here = keys@.skip(i as int);
            let ghost sent = send@;
            let (action, held): (KeyAction, bool) = take_key(self.ctrl_a, keys[i]);
            proof {
                assert(here[0] == keys@[i as int]);
                assert(here.skip(1) =~= keys@.skip(i + 1));
            }
            self.ctrl_a = held;
            match action {
                KeyAction::Quit => {
                    assert(sent + Seq::<u8>::empty() =~= sent);
                    return (send, true);
                },
                KeyAction::Hold => {},
                KeyAction::Send(b) => {
                    send.push(b);
                },
                KeyAction::SendHeldAnd(b) => {
                    send.push(CTRL_A);
                    send.push(b);
                },
            }
            i = i + 1;
            proof {
                let rest = typed(held, keys@.skip(i as int));
                assert(send@ =~= sent + sent_by(action));
                assert(sent + (sent_by(action) + rest.0) =~= send@ + rest.0);
            }
        }
        assert(keys@.skip(i as int) =~= seq![]);
        assert(send@ + Seq::<u8>::empty() =~= send@);
        (send, false)
    }
}

/// Counts what was replayed: how much that is after `n` more bytes, and whether there is more to
/// come. Nothing is counted once the replay is over.
pub fn reader_loop(drained: u64, n: usize, scrollback_bytes: u32, in_replay: bool) -> (r: (u64, bool))
    ensures
        !in_replay ==> r == (drained, false),
        in_replay ==> r.0 == (if drained + n > u64::MAX {
            u64::MAX as int
        } else {
            drained + n
        }) && r.1 == (r.0 < scrollback_bytes),
{
    if !in_replay {
        return (drained, false);
    }
    let total: u64 = drained.saturating_add(n as u64);
    (total, total < scrollback_bytes as u64)
}

/// What is held back after these bytes.
pub open spec fn held_after(bytes: Seq<u8>) -> Seq<u8>
    decreases bytes.len(),
{
    if bytes.len() == 0 {
        seq![]
    } else {
        held_next(held_after(bytes.drop_last()), bytes.last())
    }
}

/// What of these bytes gets through.
pub open spec fn passed(bytes: Seq<u8>, in_replay: bool) -> Seq<u8>
    decreases bytes.len(),
{
    if bytes.len() == 0 {
        seq![]
    } else {
        passed(bytes.drop_last(), in_replay) + let_through(
            held_after(bytes.drop_last()),
            bytes.last(),
            in_replay,
        )
    }
}

/// Outside of a replay nothing is lost: what got through and what is held back is what was typed.
pub proof fn live_input_is_complete(bytes: Seq<u8>)
    ensures
        passed(bytes, false) + held_after(bytes) == bytes,
    decreases bytes.len(),
{
    if bytes.len() > 0 {
        let before = bytes.drop_last();
        live_input_is_complete(before);
        assert(before.push(bytes.last()) =~= bytes);
        let held = held_after(before);
        assert(passed(before, false) + held.push(bytes.last()) =~= (passed(before, false)
            + held).push(bytes.last()));
        if verdict(held, bytes.last()) == EscDecision::Drop {
            assert(passed(bytes, false) =~= passed(before, false));
        } else {
            assert(passed(bytes, false) + Seq::<u8>::empty() =~= passed(bytes, false));
        }
    } else {
        assert(passed(bytes, false) + held_after(bytes) =~= bytes);
    }
}

/// A replay holds back whole answers about the position of the cursor, and nothing else.
pub proof fn a_replay_drops_only_reports(held: Seq<u8>, byte: u8)
    ensures
        let_through(held, byte, true) != let_through(held, byte, false) ==> is_report(
            held.push(byte),
        ) && let_through(held, byte, true).len() == 0 && let_through(held, byte, false)
            == held.push(byte),
        held.len() >= 2 && is_report(held.push(byte)) ==> let_through(held, byte, true).len() == 0,
{
}

} // verus!
