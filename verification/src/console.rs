//! The virtual UART through which firmware on a core and the host exchange bytes: two rings in the
//! memory of the core, one for each direction.
//!
//! The functions here compute on the indices that were read from that memory and say where a byte
//! goes and what index to write back. Reading and writing the memory is left to the caller.
use vstd::prelude::*;
use vstd::string::*;

use crate::bytes::read_le64;
#[allow(unused_imports)]
use crate::bytes::un_le64;

verus! {

/// The bytes of one ring.
pub const BUFFER_SIZE: u32 = 0x1000;

/// The word at the start of the queues: the letters `VIRTUART`, highest byte first.
pub const VIRTUAL_UART_MAGIC: u64 = 0x5649525455415254;

/// Where, from the start of the memory of a core, the pointer to the debug descriptor stands.
pub const OPENSBI_DEBUG_PTR: u64 = 0x80;

/// The first bytes of a debug descriptor: the letters `OSBIdbug`.
pub const EYE_CATCHER: [u8; 8] = [0x4f, 0x53, 0x42, 0x49, 0x64, 0x62, 0x75, 0x67];

pub const OFF_MAGIC: usize = 0;

pub const OFF_TX_BUF: usize = 8;

pub const OFF_RX_BUF: usize = 0x1008;

pub const OFF_TX_HEAD: usize = 0x2008;

pub const OFF_TX_TAIL: usize = 0x200c;

pub const OFF_RX_HEAD: usize = 0x2010;

pub const OFF_RX_TAIL: usize = 0x2014;

/// How many bytes stand in a ring between its tail and its head. The indices count modulo the size
/// of the ring.
pub open spec fn pending_len(head: u32, tail: u32) -> nat {
    ((head as int - tail as int) % (BUFFER_SIZE as int)) as nat
}

/// The place in a ring that is `i` behind its tail.
pub open spec fn place(tail: u32, i: int) -> int {
    (tail as int + i) % (BUFFER_SIZE as int)
}

/// The bytes that stand in a ring, the oldest first.
pub open spec fn pending(buf: Seq<u8>, head: u32, tail: u32) -> Seq<u8> {
    Seq::new(pending_len(head, tail), |i: int| buf[place(tail, i)])
}

/// Whether the ring has room for one more byte.
pub fn can_push(head: u32, tail: u32) -> (r: bool)
    ensures
        r == (pending_len(head, tail) < BUFFER_SIZE - 1),
{
    let head: u32 = head % BUFFER_SIZE;
    let tail: u32 = tail % BUFFER_SIZE;
    (head + 1) % BUFFER_SIZE != tail
}

/// Whether a byte stands in the ring.
pub fn can_pop(head: u32, tail: u32) -> (r: bool)
    ensures
        r == (pending_len(head, tail) > 0),
{
    head % BUFFER_SIZE != tail % BUFFER_SIZE
}

/// The place in the receive ring for the next byte, and the head to write once it is there; nothing
/// where the ring is full.
pub fn push_char(head: u32, tail: u32) -> (r: Option<(usize, u32)>)
    ensures
        r is Some <==> pending_len(head, tail) < BUFFER_SIZE - 1,
        r matches Some((at, next)) ==> at == OFF_RX_BUF + head % BUFFER_SIZE && next == (head + 1) % (
        BUFFER_SIZE as int),
{
    if !can_push(head, tail) {
        return None;
    }
    let slot: u32 = head % BUFFER_SIZE;
    let next: u32 = (slot + 1) % BUFFER_SIZE;
    Some((OFF_RX_BUF + slot as usize, next))
}

/// The place of the oldest byte in the transmit ring, and the tail to write once it was read.
pub fn pop_char(tail: u32) -> (r: (usize, u32))
    ensures
        r.0 == OFF_TX_BUF + tail % BUFFER_SIZE,
        r.1 == (tail + 1) % (BUFFER_SIZE as int),
{
    let slot: u32 = tail % BUFFER_SIZE;
    (OFF_TX_BUF + slot as usize, (slot + 1) % BUFFER_SIZE)
}

/// Throws away what stands in a ring: how many bytes that were, and the tail to write.
pub fn drain_rx_ring(head: u32, tail: u32) -> (r: (u32, u32))
    ensures
        r.0 == pending_len(head, tail),
        r.1 == head,
{
    let dropped: u32 = if head >= tail {
        (head - tail) % BUFFER_SIZE
    } else {
        (head as u64 + 0x1_0000_0000 - tail as u64) as u32 % BUFFER_SIZE
    };
    (dropped, head)
}

/// A byte that is pushed comes out behind the bytes that stood in the ring.
pub proof fn push_appends(buf: Seq<u8>, head: u32, tail: u32, c: u8)
    requires
        buf.len() == BUFFER_SIZE,
        pending_len(head, tail) < BUFFER_SIZE - 1,
    ensures
        pending(
            buf.update((head % BUFFER_SIZE) as int, c),
            ((head + 1) % (BUFFER_SIZE as int)) as u32,
            tail,
        ) == pending(buf, head, tail).push(c),
{
    let next = ((head + 1) % (BUFFER_SIZE as int)) as u32;
    let after = buf.update((head % BUFFER_SIZE) as int, c);
    let n = pending_len(head, tail);
    assert(pending_len(next, tail) == n + 1);
    assert forall|i: int| 0 <= i < n implies #[trigger] place(tail, i) != (head % BUFFER_SIZE) as int
    by {}
    assert(place(tail, n as int) == (head % BUFFER_SIZE) as int);
    assert(pending(after, next, tail) =~= pending(buf, head, tail).push(c));
}

/// The byte that is popped is the oldest, and the others stay in their order.
pub proof fn pop_takes_the_oldest(buf: Seq<u8>, head: u32, tail: u32)
    requires
        buf.len() == BUFFER_SIZE,
        pending_len(head, tail) > 0,
    ensures
        pending(buf, head, tail)[0] == buf[(tail % BUFFER_SIZE) as int],
        pending(buf, head, ((tail + 1) % (BUFFER_SIZE as int)) as u32) == pending(
            buf,
            head,
            tail,
        ).skip(1),
{
    let next = ((tail + 1) % (BUFFER_SIZE as int)) as u32;
    let n = pending_len(head, tail);
    assert(pending_len(head, next) == n - 1);
    assert forall|i: int| 0 <= i < n - 1 implies #[trigger] place(next, i) == place(tail, i + 1) by {}
    assert(pending(buf, head, next) =~= pending(buf, head, tail).skip(1));
}

/// A drained ring is empty.
pub proof fn drain_empties(buf: Seq<u8>, head: u32)
    ensures
        pending(buf, head, head).len() == 0,
{
}

/// The bytes of a debug descriptor that are read.
pub const DESCRIPTOR_BYTES: usize = 24;

/// Where in the descriptor the address of the queues stands.
pub const OFF_VIRTUART_BASE_IN_DESC: usize = 16;

/// Why a debug descriptor was refused.
#[derive(Clone, Copy, Debug, PartialEq, Eq, Structural)]
pub enum DescriptorError {
    /// A byte of the eye catcher is wrong.
    EyeCatcherMismatch { offset: usize, got: u8, want: u8 },
    /// The address of the queues was not filled in.
    VirtuartBaseUninit,
}

/// The first `n` bytes are those of the eye catcher.
pub open spec fn caught(desc: Seq<u8>, n: int) -> bool {
    forall|i: int| 0 <= i < n ==> #[trigger] desc[i] == EYE_CATCHER@[i]
}

/// What a debug descriptor says: the address of the queues, or the first thing that is wrong.
pub open spec fn is_decoded(
    desc: Seq<u8>,
    r: std::result::Result<u64, DescriptorError>,
) -> bool {
    match r {
        Ok(base) => caught(desc, 8) && base == un_le64(desc.subrange(16, 24)) && base
            != 0xffff_ffff_ffff_ffff,
        Err(DescriptorError::EyeCatcherMismatch { offset, got, want }) => offset < 8 && caught(
            desc,
            offset as int,
        ) && got == desc[offset as int] && want == EYE_CATCHER@[offset as int] && got != want,
        Err(DescriptorError::VirtuartBaseUninit) => caught(desc, 8) && un_le64(
            desc.subrange(16, 24),
        ) == 0xffff_ffff_ffff_ffff,
    }
}

/// Reads a debug descriptor.
pub fn decode_descriptor(desc: &[u8; 24]) -> (r: std::result::Result<u64, DescriptorError>)
    ensures
        is_decoded(desc@, r),
{
    let want: [u8; 8] = EYE_CATCHER;
    let mut i: usize = 0;
    while i < 8
        invariant
            i <= 8,
            want == EYE_CATCHER,
            caught(desc@, i as int),
        decreases 8 - i,
    {
        if desc[i] != want[i] {
            return Err(
                DescriptorError::EyeCatcherMismatch { offset: i, got: desc[i], want: want[i] },
            );
        }
        i = i + 1;
    }
    let base: u64 = read_le64(desc, OFF_VIRTUART_BASE_IN_DESC);
    if base == 0xffff_ffff_ffff_ffff {
        return Err(DescriptorError::VirtuartBaseUninit);
    }
    Ok(base)
}

/// Reads the word at the start of the queues; where it is wrong, gives back what was read.
pub fn decode_magic(magic_bytes: &[u8; 8]) -> (r: std::result::Result<(), u64>)
    ensures
        match r {
            Ok(()) => un_le64(magic_bytes@) == VIRTUAL_UART_MAGIC,
            Err(got) => got == un_le64(magic_bytes@) && got != VIRTUAL_UART_MAGIC,
        },
{
    let magic: u64 = read_le64(magic_bytes, 0);
    assert(magic_bytes@.subrange(0, 8) =~= magic_bytes@);
    if magic == VIRTUAL_UART_MAGIC {
        Ok(())
    } else {
        Err(magic)
    }
}

/// What to do with a key.
#[derive(Clone, Copy, Debug, PartialEq, Eq, Structural)]
pub enum KeyAction {
    /// Leave the console.
    Quit,
    /// Wait for the key that follows.
    Hold,
    /// Send the key.
    Send(u8),
    /// Send the key that was held back, then this one.
    SendHeldAnd(u8),
}

/// The key that starts a command.
pub const CTRL_A: u8 = 1;

/// The key that, behind [`CTRL_A`], leaves the console.
pub const QUIT_KEY: u8 = 0x78;

pub open spec fn key_action(held: bool, key: u8) -> KeyAction {
    if held {
        if key == QUIT_KEY {
            KeyAction::Quit
        } else {
            KeyAction::SendHeldAnd(key)
        }
    } else if key == CTRL_A {
        KeyAction::Hold
    } else {
        KeyAction::Send(key)
    }
}

/// Takes a key: what to do with it, and whether a Ctrl-A is held back afterwards.
pub fn take_key(held: bool, key: u8) -> (r: (KeyAction, bool))
    ensures
        r.0 == key_action(held, key),
        r.1 == (r.0 == KeyAction::Hold),
{
    if held {
        if key == QUIT_KEY {
            (KeyAction::Quit, false)
        } else {
            (KeyAction::SendHeldAnd(key), false)
        }
    } else if key == CTRL_A {
        (KeyAction::Hold, true)
    } else {
        (KeyAction::Send(key), false)
    }
}

/// The bytes that an action sends.
pub open spec fn sent_by(action: KeyAction) -> Seq<u8> {
    match action {
        KeyAction::Quit => seq![],
        KeyAction::Hold => seq![],
        KeyAction::Send(b) => seq![b],
        KeyAction::SendHeldAnd(b) => seq![CTRL_A, b],
    }
}

/// Whether a Ctrl-A is held back after these keys.
pub open spec fn held_after(keys: Seq<u8>) -> bool
    decreases keys.len(),
{
    keys.len() > 0 && key_action(held_after(keys.drop_last()), keys.last()) == KeyAction::Hold
}

/// What was sent for these keys.
pub open spec fn sent_for(keys: Seq<u8>) -> Seq<u8>
    decreases keys.len(),
{
    if keys.len() == 0 {
        seq![]
    } else {
        sent_for(keys.drop_last()) + sent_by(
            key_action(held_after(keys.drop_last()), keys.last()),
        )
    }
}

/// None of these keys left the console.
pub open spec fn stays(keys: Seq<u8>) -> bool
    decreases keys.len(),
{
    keys.len() == 0 || (stays(keys.drop_last()) && key_action(
        held_after(keys.drop_last()),
        keys.last(),
    ) != KeyAction::Quit)
}

/// Until the console is left every key is sent, in order; at most one Ctrl-A is still held back.
pub proof fn no_key_is_lost(keys: Seq<u8>)
    requires
        stays(keys),
    ensures
        sent_for(keys) + (if held_after(keys) {
            seq![CTRL_A]
        } else {
            seq![]
        }) == keys,
    decreases keys.len(),
{
    if keys.len() > 0 {
        let before = keys.drop_last();
        no_key_is_lost(before);
        assert(before.push(keys.last()) =~= keys);
        let held = held_after(before);
        let action = key_action(held, keys.last());
        match action {
            KeyAction::Hold => {
                assert(sent_for(keys) + seq![CTRL_A] =~= keys);
            },
            KeyAction::Send(b) => {
                assert(sent_for(before) + Seq::<u8>::empty() =~= sent_for(before));
                assert(sent_for(keys) + Seq::<u8>::empty() =~= keys);
            },
            KeyAction::SendHeldAnd(b) => {
                assert(sent_for(before) + seq![CTRL_A] == before);
                assert(sent_for(before) + seq![CTRL_A, b] =~= before + seq![b]);
                assert(sent_for(keys) + Seq::<u8>::empty() =~= keys);
            },
            KeyAction::Quit => {},
        }
    } else {
        assert(sent_for(keys) + Seq::<u8>::empty() =~= keys);
    }
}

/// The settings of a terminal that matter here.
#[derive(Clone, Copy, Debug, PartialEq, Eq, Structural)]
pub struct TerminalSettings {
    /// Show what is typed.
    pub echo: bool,
    /// Hand the input over line by line.
    pub icanon: bool,
    /// Turn some keys into signals.
    pub isig: bool,
    /// Interpret further keys.
    pub iexten: bool,
    /// Turn a break into a signal.
    pub brkint: bool,
    /// Check the parity of the input.
    pub inpck: bool,
    /// Strip the eighth bit of the input.
    pub istrip: bool,
    /// Let keys stop and restart the output.
    pub ixon: bool,
    /// Turn a carriage return in the input into a line feed.
    pub icrnl: bool,
    /// Process the output.
    pub opost: bool,
    /// Eight bits in a character.
    pub cs8: bool,
}

/// Every key reaches the other side as it is, and every byte of the other side the screen.
pub open spec fn raw_settings() -> TerminalSettings {
    TerminalSettings {
        echo: false,
        icanon: false,
        isig: false,
        iexten: false,
        brkint: false,
        inpck: false,
        istrip: false,
        ixon: false,
        icrnl: false,
        opost: false,
        cs8: true,
    }
}

/// A terminal in raw mode, with what it was set to before.
#[derive(Clone, Copy, Debug)]
pub struct TerminalRawMode {
    orig: Option<TerminalSettings>,
}

impl TerminalRawMode {
    /// What the terminal was set to before; none where there is no terminal.
    pub closed spec fn saved(self) -> Option<TerminalSettings> {
        self.orig
    }

    /// Begins raw mode. `found` are the settings of the terminal, or none where the input is no
    /// terminal; it comes with the settings to put into force, and without a terminal there are
    /// none.
    pub fn new(found: Option<TerminalSettings>) -> (r: (Self, Option<TerminalSettings>))
        ensures
            r.0.saved() == found,
            r.1 == if found is Some {
                Some(raw_settings())
            } else {
                None
            },
    {
        let raw: Option<TerminalSettings> = match found {
            Some(_) => Some(
                TerminalSettings {
                    echo: false,
                    icanon: false,
                    isig: false,
                    iexten: false,
                    brkint: false,
                    inpck: false,
                    istrip: false,
                    ixon: false,
                    icrnl: false,
                    opost: false,
                    cs8: true,
                },
            ),
            None => None,
        };
        (TerminalRawMode { orig: found }, raw)
    }

    /// The settings to put into force at the end of raw mode: those from before.
    pub fn end(self) -> (r: Option<TerminalSettings>)
        ensures
            r == self.saved(),
    {
        self.orig
    }
}

/// How a session with the virtual UART of a core came to an end.
#[derive(Clone, Copy, Debug, PartialEq, Eq, Structural)]
pub enum UartExit {
    /// Leave for good.
    Done,
    /// The chip was reset or is not ready; try again after a pause.
    Retry,
}

/// Where an interactive session stands, and so what is to be done next.
#[derive(Clone, Copy, Debug, PartialEq, Eq, Structural)]
pub enum LoopPhase {
    /// Read the pointer to the debug descriptor.
    ReadPointer,
    /// Read the descriptor at this address.
    ReadDescriptor { at: u64 },
    /// Map the queues at this address and put the terminal into raw mode.
    OpenQueues { at: u64 },
    /// See whether the session was asked to end.
    CheckExit { held: bool },
    /// Read the word at the start of the queues.
    CheckMagic { held: bool },
    /// Wait briefly for a key.
    PollKey { held: bool },
    /// Push these bytes into the receive ring.
    Push { first: u8, second: Option<u8> },
    /// Print one byte of the transmit ring, if there is one.
    PopOutput { held: bool },
    /// The session is over, with this exit.
    Ended(UartExit),
    /// The session is over because the user left it.
    Quit,
    /// The chip could not be read.
    Failed,
}

/// What came of the last step of a session.
#[derive(Clone, Copy, Debug)]
pub enum LoopEvent {
    Pointer(u32),
    Descriptor(std::result::Result<u64, DescriptorError>),
    ExitRequested(bool),
    Magic(u64),
    Key(Option<u8>),
    /// The step is done.
    Done,
    /// The step failed.
    Failed,
}

/// The next phase of a session that started at `start`.
pub open spec fn next_loop(start: u64, phase: LoopPhase, event: LoopEvent) -> LoopPhase {
    match (phase, event) {
        (LoopPhase::Ended(_), _) => phase,
        (LoopPhase::Quit, _) => phase,
        (LoopPhase::Failed, _) => phase,
        (_, LoopEvent::Failed) => LoopPhase::Failed,
        (LoopPhase::ReadPointer, LoopEvent::Pointer(p)) => LoopPhase::ReadDescriptor {
            at: (start + p) as u64,
        },
        (LoopPhase::ReadDescriptor { .. }, LoopEvent::Descriptor(Ok(base))) => LoopPhase::OpenQueues {
            at: base,
        },
        (LoopPhase::ReadDescriptor { .. }, LoopEvent::Descriptor(Err(_))) => LoopPhase::Ended(
            UartExit::Done,
        ),
        (LoopPhase::OpenQueues { .. }, LoopEvent::Done) => LoopPhase::CheckExit { held: false },
        (LoopPhase::CheckExit { held }, LoopEvent::ExitRequested(exit)) => if exit {
            LoopPhase::Ended(UartExit::Done)
        } else {
            LoopPhase::CheckMagic { held }
        },
        (LoopPhase::CheckMagic { held }, LoopEvent::Magic(m)) => if m == VIRTUAL_UART_MAGIC {
            LoopPhase::PollKey { held }
        } else {
            LoopPhase::Ended(UartExit::Retry)
        },
        (LoopPhase::PollKey { held }, LoopEvent::Key(None)) => LoopPhase::PopOutput { held },
        (LoopPhase::PollKey { held }, LoopEvent::Key(Some(key))) => match key_action(held, key) {
            KeyAction::Quit => LoopPhase::Quit,
            KeyAction::Hold => LoopPhase::PopOutput { held: true },
            KeyAction::Send(b) => LoopPhase::Push { first: b, second: None },
            KeyAction::SendHeldAnd(b) => LoopPhase::Push { first: CTRL_A, second: Some(b) },
        },
        (LoopPhase::Push { .. }, LoopEvent::Done) => LoopPhase::PopOutput { held: false },
        (LoopPhase::PopOutput { held }, LoopEvent::Done) => LoopPhase::CheckExit { held },
        _ => phase,
    }
}

/// Takes an interactive session one step further. `start` is the start of the memory of the core.
pub fn uart_loop(start: u64, phase: LoopPhase, event: LoopEvent) -> (next: LoopPhase)
    requires
        start + 0xffff_ffff <= u64::MAX,
    ensures
        next == next_loop(start, phase, event),
{
    match (phase, event) {
        (LoopPhase::Ended(_), _) => phase,
        (LoopPhase::Quit, _) => phase,
        (LoopPhase::Failed, _) => phase,
        (_, LoopEvent::Failed) => LoopPhase::Failed,
        (LoopPhase::ReadPointer, LoopEvent::Pointer(p)) => LoopPhase::ReadDescriptor {
            at: start + p as u64,
        },
        (LoopPhase::ReadDescriptor { .. }, LoopEvent::Descriptor(Ok(base))) => LoopPhase::OpenQueues {
            at: base,
        },
        (LoopPhase::ReadDescriptor { .. }, LoopEvent::Descriptor(Err(_))) => LoopPhase::Ended(
            UartExit::Done,
        ),
        (LoopPhase::OpenQueues { .. }, LoopEvent::Done) => LoopPhase::CheckExit { held: false },
        (LoopPhase::CheckExit { held }, LoopEvent::ExitRequested(exit)) => if exit {
            LoopPhase::Ended(UartExit::Done)
        } else {
            LoopPhase::CheckMagic { held }
        },
        (LoopPhase::CheckMagic { held }, LoopEvent::Magic(m)) => if m == VIRTUAL_UART_MAGIC {
            LoopPhase::PollKey { held }
        } else {
            LoopPhase::Ended(UartExit::Retry)
        },
        (LoopPhase::PollKey { held }, LoopEvent::Key(None)) => LoopPhase::PopOutput { held },
        (LoopPhase::PollKey { held }, LoopEvent::Key(Some(key))) => {
            let (action, _held): (KeyAction, bool) = take_key(held, key);
            match action {
                KeyAction::Quit => LoopPhase::Quit,
                KeyAction::Hold => LoopPhase::PopOutput { held: true },
                KeyAction::Send(b) => LoopPhase::Push { first: b, second: None },
                KeyAction::SendHeldAnd(b) => LoopPhase::Push { first: CTRL_A, second: Some(b) },
            }
        },
        (LoopPhase::Push { .. }, LoopEvent::Done) => LoopPhase::PopOutput { held: false },
        (LoopPhase::PopOutput { held }, LoopEvent::Done) => LoopPhase::CheckExit { held },
        _ => phase,
    }
}

/// What follows a session that ended.
#[derive(Debug, PartialEq, Eq)]
pub enum ConsoleStep {
    Leave,
    /// Say this, and try again after [`RETRY_PAUSE`].
    Retry(String),
}

/// How long to wait before a session is tried again, in milliseconds.
pub const RETRY_PAUSE: u64 = 100;

/// What is said before a session is tried again.
pub open spec fn retry_line(why: Seq<char>) -> Seq<char> {
    "Error ("@ + why + ") -- was the chip reset?  Retrying..."@
}

fn retry(why: &str) -> (step: ConsoleStep)
    ensures
        step matches ConsoleStep::Retry(line) && line@ == retry_line(why@),
{
    let mut line: String = "Error (".to_owned();
    line.append(why);
    line.append(") -- was the chip reset?  Retrying...");
    ConsoleStep::Retry(line)
}

/// What follows a session: it is tried again where the chip was reset or could not be read.
/// `outcome` is how it ended, or why it failed.
pub fn console_main(outcome: std::result::Result<UartExit, &str>) -> (step: ConsoleStep)
    ensures
        match outcome {
            Ok(UartExit::Done) => step == ConsoleStep::Leave,
            Ok(UartExit::Retry) => step matches ConsoleStep::Retry(line) && line@ == retry_line(
                "UART vanished"@,
            ),
            Err(why) => step matches ConsoleStep::Retry(line) && line@ == retry_line(why@),
        },
{
    match outcome {
        Ok(UartExit::Done) => ConsoleStep::Leave,
        Ok(UartExit::Retry) => retry("UART vanished"),
        Err(why) => retry(why),
    }
}

} // verus!
