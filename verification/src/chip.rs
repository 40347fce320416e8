//! Resetting a card over PCIe.
use vstd::prelude::*;
use vstd::string::*;

use crate::text::{push_dec, push_hex_padded};
#[allow(unused_imports)]
use crate::text::{dec, hex, zero_padded};

verus! {

/// `domain:bus:device.function`, as sysfs names a PCI device.
pub open spec fn bdf(domain: u32, bus_dev_fn: u32) -> Seq<char> {
    zero_padded(hex(domain as nat), 4) + ":"@ + zero_padded(
        hex(((bus_dev_fn / 0x100) % 0x100) as nat),
        2,
    ) + ":"@ + zero_padded(hex(((bus_dev_fn / 8) % 32) as nat), 2) + "."@ + dec(
        (bus_dev_fn % 8) as nat,
    )
}

/// The sysfs name of a PCI device. Only the low sixteen bits of `bus_dev_fn` count.
pub fn format_bdf(domain: u32, bus_dev_fn: u32) -> (s: String)
    ensures
        s@ == bdf(domain, bus_dev_fn),
{
    let mut s: String = String::new();
    push_hex_padded(&mut s, domain as u64, 4);
    s.append(":");
    push_hex_padded(&mut s, ((bus_dev_fn / 0x100) % 0x100) as u64, 2);
    s.append(":");
    push_hex_padded(&mut s, ((bus_dev_fn / 8) % 32) as u64, 2);
    s.append(".");
    push_dec(&mut s, (bus_dev_fn % 8) as u64);
    assert(s@ =~= bdf(domain, bus_dev_fn));
    s
}

/// The path of a PCI device's configuration space.
pub open spec fn config_path(domain: u32, bus_dev_fn: u32) -> Seq<char> {
    "/sys/bus/pci/devices/"@ + bdf(domain, bus_dev_fn) + "/config"@
}

pub fn config_path_text(domain: u32, bus_dev_fn: u32) -> (s: String)
    ensures
        s@ == config_path(domain, bus_dev_fn),
{
    let mut s: String = "/sys/bus/pci/devices/".to_owned();
    s.append(format_bdf(domain, bus_dev_fn).as_str());
    s.append("/config");
    s
}

/// Whether the command byte says that the chip is in reset.
pub open spec fn asserted(byte: u8) -> bool {
    (byte / 2) % 2 == 1
}

/// One look at the command byte: whether the reset is over, and whether it has been seen. The chip
/// must have entered reset before it can have left it.
pub fn lds_reset_poll_step(byte: u8, saw_asserted: bool) -> (r: (bool, bool))
    ensures
        r.1 == (saw_asserted || asserted(byte)),
        r.0 == (saw_asserted && !asserted(byte)),
{
    let reset_bit: u8 = (byte / 2) % 2;
    let new_saw: bool = saw_asserted || reset_bit == 1;
    let completed: bool = reset_bit == 0 && new_saw;
    (completed, new_saw)
}

/// Where a board reset stands, and so what is to be done next.
#[derive(Clone, Copy, Debug, PartialEq, Eq, Structural)]
pub enum ResetPhase {
    /// Ask the driver which PCI device the card is.
    Identify,
    /// Trigger the reset.
    Trigger,
    /// Read the command byte, after a pause where it was read before.
    Poll { saw_asserted: bool },
    /// Restore the saved state.
    Restore,
    /// The reset is done.
    Complete,
    /// A step failed; nothing more is to be done.
    Failed,
}

/// What came of the last step.
#[derive(Clone, Copy, Debug, PartialEq, Eq, Structural)]
pub enum ResetEvent {
    /// The step succeeded.
    Done,
    /// The command byte was read; `late` once the time for polling is over.
    Byte { byte: u8, late: bool },
    /// The step failed.
    Failed,
}

/// The next phase of a reset. Polling ends when the reset is over or its time is; the state is
/// restored either way.
pub open spec fn next_phase(phase: ResetPhase, event: ResetEvent) -> ResetPhase {
    match (phase, event) {
        (ResetPhase::Complete, _) => ResetPhase::Complete,
        (ResetPhase::Failed, _) => ResetPhase::Failed,
        (_, ResetEvent::Failed) => ResetPhase::Failed,
        (ResetPhase::Identify, ResetEvent::Done) => ResetPhase::Trigger,
        (ResetPhase::Trigger, ResetEvent::Done) => ResetPhase::Poll { saw_asserted: false },
        (ResetPhase::Poll { saw_asserted }, ResetEvent::Byte { byte, late }) => if late || (
        saw_asserted && !asserted(byte)) {
            ResetPhase::Restore
        } else {
            ResetPhase::Poll { saw_asserted: saw_asserted || asserted(byte) }
        },
        (ResetPhase::Restore, ResetEvent::Done) => ResetPhase::Complete,
        _ => phase,
    }
}

/// Takes a board reset one step further.
pub fn reset_board(phase: ResetPhase, event: ResetEvent) -> (next: ResetPhase)
    ensures
        next == next_phase(phase, event),
{
    match (phase, event) {
        (ResetPhase::Complete, _) => ResetPhase::Complete,
        (ResetPhase::Failed, _) => ResetPhase::Failed,
        (_, ResetEvent::Failed) => ResetPhase::Failed,
        (ResetPhase::Identify, ResetEvent::Done) => ResetPhase::Trigger,
        (ResetPhase::Trigger, ResetEvent::Done) => ResetPhase::Poll { saw_asserted: false },
        (ResetPhase::Poll { saw_asserted }, ResetEvent::Byte { byte, late }) => {
            let (completed, new_saw): (bool, bool) = lds_reset_poll_step(byte, saw_asserted);
            if completed || late {
                ResetPhase::Restore
            } else {
                ResetPhase::Poll { saw_asserted: new_saw }
            }
        },
        (ResetPhase::Restore, ResetEvent::Done) => ResetPhase::Complete,
        _ => phase,
    }
}

/// The event is a byte in which the reset is asserted.
pub open spec fn shows_reset(event: ResetEvent) -> bool {
    event matches ResetEvent::Byte { byte, .. } && asserted(byte)
}

/// Where a reset stands after some events.
pub open spec fn phase_after(events: Seq<ResetEvent>) -> ResetPhase
    decreases events.len(),
{
    if events.len() == 0 {
        ResetPhase::Identify
    } else {
        next_phase(phase_after(events.drop_last()), events.last())
    }
}

/// Polling remembers exactly whether some byte since the trigger had the reset asserted, and it
/// goes on to restore only when its time is over or such a byte was followed by one that has it
/// released.
pub proof fn reset_is_left_only_after_it_was_entered(events: Seq<ResetEvent>, event: ResetEvent)
    requires
        phase_after(events) is Poll,
        next_phase(phase_after(events), event) == ResetPhase::Restore,
    ensures
        event matches ResetEvent::Byte { byte, late } && (late || (!asserted(byte) && exists|i: int|
            0 <= i < events.len() && shows_reset(#[trigger] events[i]))),
{
    lemma_saw_asserted(events);
}

proof fn lemma_saw_asserted(events: Seq<ResetEvent>)
    ensures
        phase_after(events) matches ResetPhase::Poll { saw_asserted } ==> (saw_asserted
            ==> exists|i: int|
            0 <= i < events.len() && shows_reset(#[trigger] events[i])),
    decreases events.len(),
{
    if events.len() > 0 {
        let before = events.drop_last();
        lemma_saw_asserted(before);
        if let ResetPhase::Poll { saw_asserted } = phase_after(events) {
            if saw_asserted {
                if let ResetPhase::Poll { saw_asserted: earlier } = phase_after(before) {
                    if earlier {
                        let i = choose|i: int|
                            0 <= i < before.len() && shows_reset(#[trigger] before[i]);
                        assert(events[i] == before[i]);
                    } else {
                        assert(events[events.len() - 1] == events.last());
                    }
                }
            }
        }
    }
}

/// A reset that completes has restored the state, and a failed one goes no further.
pub proof fn reset_ends_for_good(phase: ResetPhase, event: ResetEvent)
    ensures
        next_phase(phase, event) == ResetPhase::Complete ==> phase == ResetPhase::Complete || (phase
            == ResetPhase::Restore && event == ResetEvent::Done),
        phase == ResetPhase::Failed ==> next_phase(phase, event) == ResetPhase::Failed,
        event == ResetEvent::Failed && phase != ResetPhase::Complete ==> next_phase(phase, event)
            == ResetPhase::Failed,
{
}

} // verus!
