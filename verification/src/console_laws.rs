//! What holds of consoles: the ring of a chip console, the keys that are typed, and the loop that
//! serves one.
use vstd::prelude::*;

#[allow(unused_imports)]
use crate::bytes::un_le64;
#[allow(unused_imports)]
use crate::console::{
    caught, is_decoded, key_action, next_loop, pending, pending_len, raw_settings, retry_line,
    sent_by, DescriptorError, KeyAction, LoopEvent, LoopPhase, UartExit, BUFFER_SIZE, CTRL_A,
    DESCRIPTOR_BYTES, EYE_CATCHER, OFF_MAGIC, OFF_RX_BUF, OFF_RX_HEAD, OFF_RX_TAIL, OFF_TX_BUF,
    OFF_TX_HEAD, OFF_TX_TAIL, OFF_VIRTUART_BASE_IN_DESC, OPENSBI_DEBUG_PTR, QUIT_KEY, RETRY_PAUSE,
    VIRTUAL_UART_MAGIC,
};

verus! {

/// How much waits in a ring is how far its head is ahead of its tail, around the end of the ring;
/// what waits stands from the tail on.
pub proof fn what_waits_in_a_ring(buf: Seq<u8>, head: u32, tail: u32, i: int)
    requires
        head < 4096,
        tail < 4096,
    ensures
        head >= tail ==> pending_len(head, tail) == head - tail,
        head < tail ==> pending_len(head, tail) == head + 4096 - tail,
        pending(buf, head, tail).len() == pending_len(head, tail),
        0 <= i < pending_len(head, tail) ==> pending(buf, head, tail)[i] == buf[if tail + i
            < 4096 {
            tail + i
        } else {
            tail + i - 4096
        }],
{
}

/// The rings of a chip console lie behind its mark, one behind the other, and their heads and tails
/// behind both.
pub proof fn how_a_chip_console_lies_in_memory()
    ensures
        BUFFER_SIZE == 4096,
        OFF_MAGIC == 0,
        OFF_TX_BUF == OFF_MAGIC + 8,
        OFF_RX_BUF == OFF_TX_BUF + BUFFER_SIZE,
        OFF_TX_HEAD == OFF_RX_BUF + BUFFER_SIZE,
        OFF_TX_TAIL == OFF_TX_HEAD + 4,
        OFF_RX_HEAD == OFF_TX_TAIL + 4,
        OFF_RX_TAIL == OFF_RX_HEAD + 4,
        VIRTUAL_UART_MAGIC == 0x5649_5254_5541_5254,
        OPENSBI_DEBUG_PTR == 128,
        DESCRIPTOR_BYTES == OFF_VIRTUART_BASE_IN_DESC + 8,
        OFF_VIRTUART_BASE_IN_DESC == 16,
        RETRY_PAUSE == 100,
{
}

/// A descriptor is good exactly where it begins with `OSBIdbug` and the address in its bytes 16 to
/// 23 is set. Else the first byte that is wrong is told, or that the address is not set.
pub proof fn when_a_descriptor_is_good(
    desc: Seq<u8>,
    r: std::result::Result<u64, DescriptorError>,
)
    requires
        desc.len() == 24,
        is_decoded(desc, r),
    ensures
        r is Ok <==> desc[0] == 0x4f && desc[1] == 0x53 && desc[2] == 0x42 && desc[3] == 0x49
            && desc[4] == 0x64 && desc[5] == 0x62 && desc[6] == 0x75 && desc[7] == 0x67 && un_le64(
            desc.subrange(16, 24),
        ) != 0xffff_ffff_ffff_ffff,
        r matches Ok(base) ==> base == un_le64(desc.subrange(16, 24)),
        r matches Err(DescriptorError::EyeCatcherMismatch { offset, got, want }) ==> offset < 8
            && got == desc[offset as int] && want == seq![
            0x4fu8,
            0x53,
            0x42,
            0x49,
            0x64,
            0x62,
            0x75,
            0x67,
        ][offset as int] && got != want,
        r == Err::<u64, DescriptorError>(DescriptorError::VirtuartBaseUninit) ==> un_le64(
            desc.subrange(16, 24),
        ) == 0xffff_ffff_ffff_ffff && desc[0] == 0x4f && desc[7] == 0x67,
{
    let eye = EYE_CATCHER@;
    assert(eye[0] == 0x4f && eye[1] == 0x53 && eye[2] == 0x42 && eye[3] == 0x49 && eye[4] == 0x64
        && eye[5] == 0x62 && eye[6] == 0x75 && eye[7] == 0x67);
    if caught(desc, 8) {
        assert(desc[0] == eye[0] && desc[1] == eye[1] && desc[2] == eye[2] && desc[3] == eye[3]
            && desc[4] == eye[4] && desc[5] == eye[5] && desc[6] == eye[6] && desc[7] == eye[7]);
    }
    match r {
        Err(DescriptorError::EyeCatcherMismatch { offset, got, want }) => {
            let k = offset as int;
            assert(k == 0 || k == 1 || k == 2 || k == 3 || k == 4 || k == 5 || k == 6 || k == 7);
        },
        _ => {},
    }
}

/// Control-A is held back. Behind it an x quits, and any other key is sent after it; every other key
/// is sent as it is.
pub proof fn what_a_key_does(key: u8)
    ensures
        key_action(true, 0x78) == KeyAction::Quit,
        key != 0x78 ==> key_action(true, key) == KeyAction::SendHeldAnd(key),
        key_action(false, 1) == KeyAction::Hold,
        key != 1 ==> key_action(false, key) == KeyAction::Send(key),
        sent_by(KeyAction::Send(key)) == seq![key],
        sent_by(KeyAction::SendHeldAnd(key)) == seq![1u8, key],
        sent_by(KeyAction::Quit).len() == 0,
        sent_by(KeyAction::Hold).len() == 0,
        CTRL_A == 1,
        QUIT_KEY == 'x' as u8,
{
}

/// A raw terminal hands over every byte as it comes and shows none of its own.
pub proof fn a_raw_terminal_changes_nothing()
    ensures
        !raw_settings().echo && !raw_settings().icanon && !raw_settings().isig
            && !raw_settings().iexten,
        !raw_settings().brkint && !raw_settings().inpck && !raw_settings().istrip
            && !raw_settings().ixon && !raw_settings().icrnl,
        !raw_settings().opost,
        raw_settings().cs8,
{
}

/// The loop finds its queues through a pointer and a descriptor, then looks in turn whether it is to
/// end, whether the queues are still there, whether a key was typed, and what was printed.
pub proof fn how_the_loop_of_a_console_runs(
    start: u64,
    phase: LoopPhase,
    p: u32,
    base: u64,
    bad: DescriptorError,
    held: bool,
    magic: u64,
    key: u8,
    first: u8,
    second: Option<u8>,
)
    ensures
        next_loop(start, LoopPhase::ReadPointer, LoopEvent::Pointer(p)) == (
        LoopPhase::ReadDescriptor { at: (start + p) as u64 }),
        next_loop(start, LoopPhase::ReadDescriptor { at: base }, LoopEvent::Descriptor(Ok(base)))
            == (LoopPhase::OpenQueues { at: base }),
        next_loop(start, LoopPhase::ReadDescriptor { at: base }, LoopEvent::Descriptor(Err(bad)))
            == LoopPhase::Ended(UartExit::Done),
        next_loop(start, LoopPhase::OpenQueues { at: base }, LoopEvent::Done) == (
        LoopPhase::CheckExit { held: false }),
        next_loop(start, LoopPhase::CheckExit { held }, LoopEvent::ExitRequested(true))
            == LoopPhase::Ended(UartExit::Done),
        next_loop(start, LoopPhase::CheckExit { held }, LoopEvent::ExitRequested(false)) == (
        LoopPhase::CheckMagic { held }),
        magic == 0x5649_5254_5541_5254 ==> next_loop(
            start,
            LoopPhase::CheckMagic { held },
            LoopEvent::Magic(magic),
        ) == (LoopPhase::PollKey { held }),
        magic != 0x5649_5254_5541_5254 ==> next_loop(
            start,
            LoopPhase::CheckMagic { held },
            LoopEvent::Magic(magic),
        ) == LoopPhase::Ended(UartExit::Retry),
        next_loop(start, LoopPhase::PollKey { held }, LoopEvent::Key(None)) == (
        LoopPhase::PopOutput { held }),
        key != 1 ==> next_loop(
            start,
            LoopPhase::PollKey { held: false },
            LoopEvent::Key(Some(key)),
        ) == (LoopPhase::Push { first: key, second: None }),
        next_loop(start, LoopPhase::PollKey { held: false }, LoopEvent::Key(Some(1))) == (
        LoopPhase::PopOutput { held: true }),
        next_loop(start, LoopPhase::PollKey { held: true }, LoopEvent::Key(Some(0x78)))
            == LoopPhase::Quit,
        key != 0x78 ==> next_loop(
            start,
            LoopPhase::PollKey { held: true },
            LoopEvent::Key(Some(key)),
        ) == (LoopPhase::Push { first: 1, second: Some(key) }),
        next_loop(start, LoopPhase::Push { first, second }, LoopEvent::Done) == (
        LoopPhase::PopOutput { held: false }),
        next_loop(start, LoopPhase::PopOutput { held }, LoopEvent::Done) == (
        LoopPhase::CheckExit { held }),
        phase is Ended || phase is Quit || next_loop(start, phase, LoopEvent::Failed)
            == LoopPhase::Failed,
{
}

/// What is said of a console that was lost tells why.
pub proof fn a_lost_console_tells_why(why: Seq<char>)
    ensures
        retry_line(why) == "Error ("@ + why + ") -- was the chip reset?  Retrying..."@,
{
}

} // verus!
