//! The console of a booted L2CPU as the daemon serves it: what the core prints goes to the hub, what
//! the writer types goes to the core, and a guest that went away is noticed.
use vstd::prelude::*;
use vstd::string::*;

use crate::console::{DescriptorError, UartExit, VIRTUAL_UART_MAGIC};
use crate::daemon::counters::{classify_tier, Tier, WorkerKind};
#[allow(unused_imports)]
use crate::daemon::counters::wrapped;
use crate::daemon::metrics::Metrics;
use crate::daemon::purgatory::{
    detect_park_transition, read_parked_reset_type, read_parked_state, ParkedReleaseMeta,
};
use crate::daemon::server::dispatch_remove_net;
#[allow(unused_imports)]
use crate::daemon::server::engine_slot;
use crate::daemon::state::{DaemonState, DiskWorker, L2CpuSlot};
use crate::regs::{EngineRegs, PurgatoryRegs};
#[allow(unused_imports)]
use crate::text::dec;
use crate::text::push_dec;

verus! {

/// How long the loop sleeps, in nanoseconds, while bytes pass.
pub const FAST_SLEEP: u64 = 100_000;

/// How long it sleeps once nothing has passed for [`FAST_WINDOW`].
pub const SLOW_SLEEP: u64 = 1_000_000;

/// How long it sleeps once nothing has passed for [`IDLE_WINDOW`].
pub const IDLE_SLEEP: u64 = 10_000_000;

pub const FAST_WINDOW: u64 = 200_000_000;

pub const IDLE_WINDOW: u64 = 2_000_000_000;

/// How often the loop looks whether the guest went away.
pub const PARKED_PROBE_INTERVAL: u64 = 1_500_000_000;

/// The most bytes that are taken from the core at a time.
pub const OUTPUT_BATCH: usize = 256;

pub open spec fn tier_sleep(tier: Tier) -> u64 {
    match tier {
        Tier::Fast => FAST_SLEEP,
        Tier::Slow => SLOW_SLEEP,
        Tier::Idle => IDLE_SLEEP,
    }
}

fn sleep_of(tier: Tier) -> (n: u64)
    ensures
        n == tier_sleep(tier),
{
    match tier {
        Tier::Fast => FAST_SLEEP,
        Tier::Slow => SLOW_SLEEP,
        Tier::Idle => IDLE_SLEEP,
    }
}

/// Counts a turn of the loop and the time that it sleeps for; gives back that time.
pub fn count_turn(m: &mut Metrics, idx: u8, tier: Tier) -> (sleep: u64)
    requires
        idx < 4,
    ensures
        sleep == tier_sleep(tier),
        final(m).worker_poll_iterations_total.count(WorkerKind::ChipConsole, idx as int, tier)
            == wrapped(
            old(m).worker_poll_iterations_total.count(WorkerKind::ChipConsole, idx as int, tier)
                + 1,
        ),
        final(m).worker_tier_nanos_total.count(WorkerKind::ChipConsole, idx as int, tier)
            == wrapped(
            old(m).worker_tier_nanos_total.count(WorkerKind::ChipConsole, idx as int, tier)
                + tier_sleep(tier),
        ),
        forall|w: WorkerKind, i: int, t: Tier|
            0 <= i < 4 && (w != WorkerKind::ChipConsole || i != idx || t != tier) ==> #[trigger] final(m).worker_poll_iterations_total.count(w, i, t) == old(m).worker_poll_iterations_total.count(w, i, t),
        forall|w: WorkerKind, i: int, t: Tier|
            0 <= i < 4 && (w != WorkerKind::ChipConsole || i != idx || t != tier) ==> #[trigger] final(m).worker_tier_nanos_total.count(w, i, t) == old(m).worker_tier_nanos_total.count(
                w,
                i,
                t,
            ),
        *final(m) == (Metrics {
            worker_poll_iterations_total: final(m).worker_poll_iterations_total,
            worker_tier_nanos_total: final(m).worker_tier_nanos_total,
            ..*old(m)
        }),
{
    let sleep: u64 = sleep_of(tier);
    m.worker_poll_iterations_total.at(WorkerKind::ChipConsole, idx, tier).inc();
    m.worker_tier_nanos_total.at(WorkerKind::ChipConsole, idx, tier).add(sleep);
    sleep
}

// ---------------------------------------------------------------------------
// One pass of the loop
// ---------------------------------------------------------------------------

/// Where a pass stands, and so what is to be done next.
#[derive(Clone, Copy, Debug, PartialEq, Eq, Structural)]
pub enum PassPhase {
    /// Read the pointer to the debug descriptor.
    ReadPointer,
    /// Read the descriptor at this address.
    ReadDescriptor { at: u64 },
    /// Map the queues at this address.
    OpenQueues { at: u64 },
    /// See whether the pass was asked to end.
    CheckExit,
    /// Read the word at the start of the queues, and the time.
    CheckMagic,
    /// Read the status word of the L2CPU.
    ProbeParked,
    /// The guest has just gone away: read how, and do as [`park_steps`] says.
    HandlePark,
    /// Take what the core printed, and read the time.
    DrainOutput,
    /// Take the next byte that was typed.
    TakeInput { active: bool },
    /// Push this byte into the receive ring.
    PushInput { byte: u8 },
    /// The ring is full: see whether the pass was asked to end, and pause.
    WaitForRoom { byte: u8 },
    /// Read the time.
    Rest { active: bool },
    /// Sleep as long as this tier says.
    Sleep(Tier),
    /// The pass is over.
    Ended(UartExit),
    /// The chip could not be read.
    Failed,
}

/// What came of the last step of a pass. Times are in nanoseconds.
#[derive(Clone, Copy, Debug)]
pub enum PassEvent {
    Pointer(u32),
    Descriptor(std::result::Result<u64, DescriptorError>),
    ExitRequested(bool),
    Magic { magic: u64, now: u64 },
    Status(Option<u64>),
    /// Some bytes were taken from the core.
    Output { bytes: usize },
    Input(u8),
    NoInput,
    /// Nobody can type any more.
    InputClosed,
    Pushed(bool),
    Now(u64),
    Done,
    Failed,
}

/// A pass.
#[derive(Clone, Copy, Debug, PartialEq, Eq, Structural)]
pub struct PassState {
    pub phase: PassPhase,
    /// When a byte last passed.
    pub last_active: u64,
    /// When the status word was last read.
    pub last_probe: u64,
    /// Whether the L2CPU was parked then.
    pub last_parked: bool,
}

/// The time since.
pub open spec fn since(now: u64, before: u64) -> int {
    if now >= before {
        now - before
    } else {
        0
    }
}

fn elapsed(now: u64, before: u64) -> (d: u64)
    ensures
        d == since(now, before),
{
    if now >= before {
        now - before
    } else {
        0
    }
}

/// A pass that has just begun. The status word is due at once, unless the clock is too young.
pub open spec fn new_pass(now: u64) -> PassState {
    PassState {
        phase: PassPhase::ReadPointer,
        last_active: now,
        last_probe: if now >= PARKED_PROBE_INTERVAL {
            (now - PARKED_PROBE_INTERVAL) as u64
        } else {
            now
        },
        last_parked: false,
    }
}

/// Begins a pass.
pub fn begin_pass(now: u64) -> (s: PassState)
    ensures
        s == new_pass(now),
{
    let last_probe: u64 = if now >= PARKED_PROBE_INTERVAL {
        now - PARKED_PROBE_INTERVAL
    } else {
        now
    };
    PassState { phase: PassPhase::ReadPointer, last_active: now, last_probe, last_parked: false }
}

/// The tier after this long without a byte.
pub open spec fn tier_after(d: int) -> Tier {
    if d < FAST_WINDOW {
        Tier::Fast
    } else if d < IDLE_WINDOW {
        Tier::Slow
    } else {
        Tier::Idle
    }
}

/// The state of a pass after an event. `start` is the start of the memory of the core.
pub open spec fn pass_next(start: u64, s: PassState, event: PassEvent, regs: PurgatoryRegs) -> PassState {
    match (s.phase, event) {
        (PassPhase::Ended(_), _) => s,
        (PassPhase::Failed, _) => s,
        (_, PassEvent::Failed) => PassState { phase: PassPhase::Failed, ..s },
        (PassPhase::ReadPointer, PassEvent::Pointer(p)) => PassState {
            phase: PassPhase::ReadDescriptor { at: (start + p) as u64 },
            ..s
        },
        (PassPhase::ReadDescriptor { .. }, PassEvent::Descriptor(Ok(at))) => PassState {
            phase: PassPhase::OpenQueues { at },
            ..s
        },
        (PassPhase::ReadDescriptor { .. }, PassEvent::Descriptor(Err(_))) => PassState {
            phase: PassPhase::Ended(UartExit::Retry),
            ..s
        },
        (PassPhase::OpenQueues { .. }, PassEvent::Done) => PassState {
            phase: PassPhase::CheckExit,
            ..s
        },
        (PassPhase::CheckExit, PassEvent::ExitRequested(exit)) => PassState {
            phase: if exit {
                PassPhase::Ended(UartExit::Done)
            } else {
                PassPhase::CheckMagic
            },
            ..s
        },
        (PassPhase::CheckMagic, PassEvent::Magic { magic, now }) => if magic != VIRTUAL_UART_MAGIC {
            PassState { phase: PassPhase::Ended(UartExit::Retry), ..s }
        } else if since(now, s.last_probe) >= PARKED_PROBE_INTERVAL {
            PassState { phase: PassPhase::ProbeParked, last_probe: now, ..s }
        } else {
            PassState { phase: PassPhase::DrainOutput, ..s }
        },
        (PassPhase::ProbeParked, PassEvent::Status(status)) => {
            let parked = status == Some(regs.status_parked);
            PassState {
                phase: if !s.last_parked && parked {
                    PassPhase::HandlePark
                } else {
                    PassPhase::DrainOutput
                },
                last_parked: parked,
                ..s
            }
        },
        (PassPhase::HandlePark, PassEvent::Done) => PassState {
            phase: PassPhase::DrainOutput,
            ..s
        },
        (PassPhase::DrainOutput, PassEvent::Output { bytes }) => PassState {
            phase: PassPhase::TakeInput { active: bytes > 0 },
            ..s
        },
        (PassPhase::TakeInput { .. }, PassEvent::Input(byte)) => PassState {
            phase: PassPhase::PushInput { byte },
            ..s
        },
        (PassPhase::TakeInput { active }, PassEvent::NoInput) => PassState {
            phase: PassPhase::Rest { active },
            ..s
        },
        (PassPhase::TakeInput { .. }, PassEvent::InputClosed) => PassState {
            phase: PassPhase::Ended(UartExit::Done),
            ..s
        },
        (PassPhase::PushInput { byte }, PassEvent::Pushed(pushed)) => PassState {
            phase: if pushed {
                PassPhase::TakeInput { active: true }
            } else {
                PassPhase::WaitForRoom { byte }
            },
            ..s
        },
        (PassPhase::WaitForRoom { byte }, PassEvent::ExitRequested(exit)) => PassState {
            phase: if exit {
                PassPhase::Ended(UartExit::Done)
            } else {
                PassPhase::PushInput { byte }
            },
            ..s
        },
        (PassPhase::Rest { active }, PassEvent::Now(now)) => {
            let last_active = if active {
                now
            } else {
                s.last_active
            };
            PassState {
                phase: PassPhase::Sleep(tier_after(since(now, last_active))),
                last_active,
                ..s
            }
        },
        (PassPhase::Sleep(_), PassEvent::Done) => PassState { phase: PassPhase::CheckExit, ..s },
        _ => s,
    }
}

/// Takes a pass one step further.
pub fn uart_pass(start: u64, s: PassState, event: PassEvent, regs: &PurgatoryRegs) -> (next:
    PassState)
    requires
        start + 0xffff_ffff <= u64::MAX,
    ensures
        next == pass_next(start, s, event, *regs),
{
    let mut next: PassState = s;
    match (s.phase, event) {
        (PassPhase::Ended(_), _) => {},
        (PassPhase::Failed, _) => {},
        (_, PassEvent::Failed) => {
            next.phase = PassPhase::Failed;
        },
        (PassPhase::ReadPointer, PassEvent::Pointer(p)) => {
            next.phase = PassPhase::ReadDescriptor { at: start + p as u64 };
        },
        (PassPhase::ReadDescriptor { .. }, PassEvent::Descriptor(d)) => {
            next.phase = match d {
                Ok(at) => PassPhase::OpenQueues { at },
                Err(_) => PassPhase::Ended(UartExit::Retry),
            };
        },
        (PassPhase::OpenQueues { .. }, PassEvent::Done) => {
            next.phase = PassPhase::CheckExit;
        },
        (PassPhase::CheckExit, PassEvent::ExitRequested(exit)) => {
            next.phase = if exit {
                PassPhase::Ended(UartExit::Done)
            } else {
                PassPhase::CheckMagic
            };
        },
        (PassPhase::CheckMagic, PassEvent::Magic { magic, now }) => {
            if magic != VIRTUAL_UART_MAGIC {
                next.phase = PassPhase::Ended(UartExit::Retry);
            } else if elapsed(now, s.last_probe) >= PARKED_PROBE_INTERVAL {
                next.phase = PassPhase::ProbeParked;
                next.last_probe = now;
            } else {
                next.phase = PassPhase::DrainOutput;
            }
        },
        (PassPhase::ProbeParked, PassEvent::Status(status)) => {
            let parked: bool = read_parked_state(status, regs);
            next.phase = if detect_park_transition(s.last_parked, parked) {
                PassPhase::HandlePark
            } else {
                PassPhase::DrainOutput
            };
            next.last_parked = parked;
        },
        (PassPhase::HandlePark, PassEvent::Done) => {
            next.phase = PassPhase::DrainOutput;
        },
        (PassPhase::DrainOutput, PassEvent::Output { bytes }) => {
            next.phase = PassPhase::TakeInput { active: bytes > 0 };
        },
        (PassPhase::TakeInput { .. }, PassEvent::Input(byte)) => {
            next.phase = PassPhase::PushInput { byte };
        },
        (PassPhase::TakeInput { active }, PassEvent::NoInput) => {
            next.phase = PassPhase::Rest { active };
        },
        (PassPhase::TakeInput { .. }, PassEvent::InputClosed) => {
            next.phase = PassPhase::Ended(UartExit::Done);
        },
        (PassPhase::PushInput { byte }, PassEvent::Pushed(pushed)) => {
            next.phase = if pushed {
                PassPhase::TakeInput { active: true }
            } else {
                PassPhase::WaitForRoom { byte }
            };
        },
        (PassPhase::WaitForRoom { byte }, PassEvent::ExitRequested(exit)) => {
            next.phase = if exit {
                PassPhase::Ended(UartExit::Done)
            } else {
                PassPhase::PushInput { byte }
            };
        },
        (PassPhase::Rest { active }, PassEvent::Now(now)) => {
            if active {
                next.last_active = now;
            }
            let d: u64 = elapsed(now, next.last_active);
            next.phase = PassPhase::Sleep(
                classify_tier(d as u128, FAST_WINDOW as u128, IDLE_WINDOW as u128),
            );
        },
        (PassPhase::Sleep(_), PassEvent::Done) => {
            next.phase = PassPhase::CheckExit;
        },
        _ => {},
    }
    next
}

/// What follows a pass: whether another one does, after [`crate::console::RETRY_PAUSE`]. A pass
/// that failed is followed by another.
pub fn chip_console_main(s: &PassState) -> (again: bool)
    requires
        s.phase is Ended || s.phase is Failed,
    ensures
        again == (s.phase != PassPhase::Ended(UartExit::Done)),
{
    match s.phase {
        PassPhase::Ended(UartExit::Done) => false,
        _ => true,
    }
}

/// Records what the loop passed on.
pub fn count_output(m: &mut Metrics, idx: u8, bytes: usize)
    requires
        idx < 4,
    ensures
        final(m).l2cpu_console_bytes_total.g2h_counts() == old(m).l2cpu_console_bytes_total.g2h_counts().update(
            idx as int,
            wrapped(old(m).l2cpu_console_bytes_total.g2h_counts()[idx as int] + bytes),
        ),
        final(m).l2cpu_console_bytes_total.h2g_counts() == old(m).l2cpu_console_bytes_total.h2g_counts(),
        *final(m) == (Metrics {
            l2cpu_console_bytes_total: final(m).l2cpu_console_bytes_total,
            ..*old(m)
        }),
{
    m.l2cpu_console_bytes_total.g2h(idx).add(bytes as u64);
}

/// Records a byte that was typed.
pub fn count_input(m: &mut Metrics, idx: u8)
    requires
        idx < 4,
    ensures
        final(m).l2cpu_console_bytes_total.h2g_counts() == old(m).l2cpu_console_bytes_total.h2g_counts().update(
            idx as int,
            wrapped(old(m).l2cpu_console_bytes_total.h2g_counts()[idx as int] + 1),
        ),
        final(m).l2cpu_console_bytes_total.g2h_counts() == old(m).l2cpu_console_bytes_total.g2h_counts(),
        *final(m) == (Metrics {
            l2cpu_console_bytes_total: final(m).l2cpu_console_bytes_total,
            ..*old(m)
        }),
{
    m.l2cpu_console_bytes_total.h2g(idx).inc();
}

// ---------------------------------------------------------------------------
// A guest that went away
// ---------------------------------------------------------------------------

/// What is done when a guest went away.
#[derive(Debug)]
pub enum ParkStep {
    /// Print this on the console.
    Announce(String),
    /// Throw away what was typed and not read, and what waits in the receive ring.
    DrainInput,
    /// Detach the network.
    DropNet,
    /// Wait this many seconds.
    Pause(u64),
    /// Attach the network again as it was, if it was detached.
    ReattachNet,
    /// Release the core.
    AutoRelease,
    /// Detach all devices.
    DropWorkers,
    /// Send the clients away with this reason.
    Disconnect(String),
    /// Throw the scrollback away.
    ClearScrollback,
}

/// A step, with its text as characters.
pub enum ParkStepView {
    Announce(Seq<char>),
    DrainInput,
    DropNet,
    Pause(u64),
    ReattachNet,
    AutoRelease,
    DropWorkers,
    Disconnect(Seq<char>),
    ClearScrollback,
}

pub open spec fn step_view(s: ParkStep) -> ParkStepView {
    match s {
        ParkStep::Announce(t) => ParkStepView::Announce(t@),
        ParkStep::DrainInput => ParkStepView::DrainInput,
        ParkStep::DropNet => ParkStepView::DropNet,
        ParkStep::Pause(n) => ParkStepView::Pause(n),
        ParkStep::ReattachNet => ParkStepView::ReattachNet,
        ParkStep::AutoRelease => ParkStepView::AutoRelease,
        ParkStep::DropWorkers => ParkStepView::DropWorkers,
        ParkStep::Disconnect(t) => ParkStepView::Disconnect(t@),
        ParkStep::ClearScrollback => ParkStepView::ClearScrollback,
    }
}

pub open spec fn rebooting_line(l2cpu: u8) -> Seq<char> {
    "\r\n[bhx: l2cpu "@ + dec(l2cpu as nat) + " rebooting (auto-release)\u{2026}]\r\n"@
}

pub open spec fn parked_reason(l2cpu: u8) -> Seq<char> {
    "l2cpu "@ + dec(l2cpu as nat) + " parked (guest powered off); `bhx boot -l "@ + dec(
        l2cpu as nat,
    ) + "` to release"@
}

/// Whether the guest asked to come back.
pub open spec fn is_reboot(reset_type: u32, regs: PurgatoryRegs) -> bool {
    reset_type == regs.reset_type_cold_reboot || reset_type == regs.reset_type_warm_reboot
}

/// What is done when a guest went away. One that asked to come back is released, with its clients
/// and its disks kept and its network fresh; of any other the devices and the clients go.
pub open spec fn park_plan(l2cpu: u8, reset_type: u32, regs: PurgatoryRegs) -> Seq<ParkStepView> {
    if is_reboot(reset_type, regs) {
        seq![
            ParkStepView::Announce(rebooting_line(l2cpu)),
            ParkStepView::DrainInput,
            ParkStepView::DropNet,
            ParkStepView::Pause(1),
            ParkStepView::DrainInput,
            ParkStepView::ReattachNet,
            ParkStepView::AutoRelease,
        ]
    } else {
        seq![
            ParkStepView::DropWorkers,
            ParkStepView::Disconnect(parked_reason(l2cpu)),
            ParkStepView::ClearScrollback,
            ParkStepView::DrainInput,
        ]
    }
}

/// The steps to take when a guest went away. `word` is what was read of how it did.
pub fn park_steps(l2cpu: u8, word: Option<u32>, regs: &PurgatoryRegs) -> (steps: Vec<ParkStep>)
    ensures
        steps@.map_values(|s: ParkStep| step_view(s)) == park_plan(
            l2cpu,
            match word {
                Some(w) => w,
                None => regs.reset_type_shutdown,
            },
            *regs,
        ),
{
    let reset_type: u32 = read_parked_reset_type(word, regs);
    let mut steps: Vec<ParkStep> = Vec::new();
    if reset_type == regs.reset_type_cold_reboot || reset_type == regs.reset_type_warm_reboot {
        let mut line: String = "\r\n[bhx: l2cpu ".to_owned();
        push_dec(&mut line, l2cpu as u64);
        line.append(" rebooting (auto-release)\u{2026}]\r\n");
        steps.push(ParkStep::Announce(line));
        steps.push(ParkStep::DrainInput);
        steps.push(ParkStep::DropNet);
        steps.push(ParkStep::Pause(1));
        steps.push(ParkStep::DrainInput);
        steps.push(ParkStep::ReattachNet);
        steps.push(ParkStep::AutoRelease);
    } else {
        let mut reason: String = "l2cpu ".to_owned();
        push_dec(&mut reason, l2cpu as u64);
        reason.append(" parked (guest powered off); `bhx boot -l ");
        push_dec(&mut reason, l2cpu as u64);
        reason.append("` to release");
        steps.push(ParkStep::DropWorkers);
        steps.push(ParkStep::Disconnect(reason));
        steps.push(ParkStep::ClearScrollback);
        steps.push(ParkStep::DrainInput);
    }
    assert(steps@.map_values(|s: ParkStep| step_view(s)) =~= park_plan(
        l2cpu,
        reset_type,
        *regs,
    ));
    steps
}

/// What is printed where a core could not be released for a reboot.
pub fn auto_reboot_failed(l2cpu: u8, why: &str) -> (line: String)
    ensures
        line@ == "[bhx: auto-reboot failed: "@ + why@ + "; run `bhx boot -l "@ + dec(l2cpu as nat)
            + "` to release]\r\n"@,
{
    let mut line: String = "[bhx: auto-reboot failed: ".to_owned();
    line.append(why);
    line.append("; run `bhx boot -l ");
    push_dec(&mut line, l2cpu as u64);
    line.append("` to release]\r\n");
    line
}

/// Why a core cannot be released for a reboot.
pub open spec fn auto_release_refusal(
    meta: std::result::Result<Option<ParkedReleaseMeta>, String>,
    slot: Option<L2CpuSlot>,
) -> Option<Seq<char>> {
    match meta {
        Err(e) => Some("read_parked_release_meta: "@ + e@),
        Ok(None) => Some("slot not parked when auto-reboot fired"@),
        Ok(Some(_)) => match slot {
            None => Some("slot is gone"@),
            Some(s) => if s.boot_payload is None {
                Some("no cached boot_payload (warm-resumed slot has no cold-boot args)"@)
            } else {
                None
            },
        },
    }
}

/// How to release the core of a guest that asked to come back: the addresses, and what to load.
/// `meta` is what came of reading its status block.
pub fn auto_release_for_reboot<'a>(
    meta: std::result::Result<Option<ParkedReleaseMeta>, String>,
    slot: &'a Option<L2CpuSlot>,
) -> (r: std::result::Result<(ParkedReleaseMeta, &'a str, bool), String>)
    ensures
        match auto_release_refusal(meta, *slot) {
            Some(text) => r matches Err(m) && m@ == text,
            None => r matches Ok(found) && Ok::<Option<ParkedReleaseMeta>, String>(Some(found.0))
                == meta && found.1@ == slot->0.boot_payload->0.file() && found.2
                == slot->0.boot_payload->0 is Uboot,
        },
{
    let m: ParkedReleaseMeta = match meta {
        Ok(Some(m)) => m,
        Ok(None) => {
            return Err("slot not parked when auto-reboot fired".to_owned());
        },
        Err(e) => {
            let mut s: String = "read_parked_release_meta: ".to_owned();
            s.append(e.as_str());
            return Err(s);
        },
    };
    match slot {
        None => Err("slot is gone".to_owned()),
        Some(s) => match &s.boot_payload {
            None => Err(
                "no cached boot_payload (warm-resumed slot has no cold-boot args)".to_owned(),
            ),
            Some(p) => Ok((m, p.path(), p.is_uboot())),
        },
    }
}

/// Detaches the network of a guest that asked to come back. Gives back the slot of the engine and
/// the ports to forward again; nothing where there is no network, or where it is not known what was
/// booted.
pub fn drop_net_for_reboot(state: &mut DaemonState, l2cpu: u8, engine: &EngineRegs) -> (r: Option<(
    u32,
    Vec<(u16, u16)>,
)>)
    requires
        old(state).wf(),
        engine.wf(),
        l2cpu < 4,
    ensures
        final(state).wf(),
        ({
            let slot = old(state).l2cpus@[l2cpu as int];
            if slot is Some && slot->0.boot_payload is Some && slot->0.net {
                &&& r matches Some(found) && found.0 == engine_slot(
                    l2cpu as int,
                    engine.dev_net as int,
                    *engine,
                ) && found.1@ == slot->0.net_extra_fwd@
                &&& old(state).same_but_slot(*final(state), l2cpu as int)
                &&& final(state).l2cpus@[l2cpu as int] == Some(L2CpuSlot { net: false, ..slot->0 })
            } else {
                r is None && *final(state) == *old(state)
            }
        }),
{
    let i: usize = l2cpu as usize;
    let mut extra: Vec<(u16, u16)> = Vec::new();
    match &state.l2cpus[i] {
        None => {
            return None;
        },
        Some(slot) => {
            if slot.boot_payload.is_none() || !slot.net {
                return None;
            }
            let mut k: usize = 0;
            while k < slot.net_extra_fwd.len()
                invariant
                    k <= slot.net_extra_fwd@.len(),
                    extra@ == slot.net_extra_fwd@.take(k as int),
                decreases slot.net_extra_fwd@.len() - k,
            {
                extra.push(slot.net_extra_fwd[k]);
                k = k + 1;
                assert(extra@ =~= slot.net_extra_fwd@.take(k as int));
            }
            assert(extra@ =~= slot.net_extra_fwd@);
        },
    }
    match dispatch_remove_net(state, l2cpu, engine) {
        Ok(gone) => Some((gone, extra)),
        Err(_) => None,
    }
}

/// What was detached from a guest that went away.
#[derive(Debug)]
pub struct DroppedWorkers {
    pub disks: Vec<DiskWorker>,
    /// The slots of the engine to unregister.
    pub slots: Vec<u32>,
}

/// The slots of the engine that the devices of an L2CPU stand on.
pub open spec fn occupied_slots(slot: L2CpuSlot, l2cpu: int, engine: EngineRegs) -> Seq<u32> {
    let one = |there: bool, dev: u32|
        if there {
            seq![engine_slot(l2cpu, dev as int, engine) as u32]
        } else {
            Seq::<u32>::empty()
        };
    slot.disks@.map_values(|d: DiskWorker| d.slot_idx) + one(slot.net, engine.dev_net) + one(
        slot.virtio_console is Some,
        engine.dev_console,
    ) + one(slot.virtio_rng, engine.dev_rng)
}

fn push_slot(slots: &mut Vec<u32>, there: bool, l2cpu: u8, dev: u32, engine: &EngineRegs)
    requires
        l2cpu < 4,
        engine.wf(),
        dev < engine.devs_per_l2cpu,
    ensures
        final(slots)@ == old(slots)@ + if there {
            seq![engine_slot(l2cpu as int, dev as int, *engine) as u32]
        } else {
            Seq::<u32>::empty()
        },
{
    if there {
        assert(l2cpu * engine.devs_per_l2cpu <= 3 * engine.devs_per_l2cpu) by (nonlinear_arith)
            requires
                l2cpu <= 3,
                engine.devs_per_l2cpu >= 0,
        ;
        slots.push(l2cpu as u32 * engine.devs_per_l2cpu + dev);
        assert(slots@ =~= old(slots)@ + seq![
            engine_slot(l2cpu as int, dev as int, *engine) as u32,
        ]);
    } else {
        assert(slots@ =~= old(slots)@ + Seq::<u32>::empty());
    }
}

/// Detaches every device of a guest that was shut down. The slot itself stays.
pub fn drop_workers_on_shutdown_park(state: &mut DaemonState, l2cpu: u8, engine: &EngineRegs) -> (r:
    Option<DroppedWorkers>)
    requires
        old(state).wf(),
        engine.wf(),
        l2cpu < 4,
    ensures
        final(state).wf(),
        match old(state).l2cpus@[l2cpu as int] {
            None => r is None && *final(state) == *old(state),
            Some(slot) => {
                &&& r matches Some(d) && d.disks@ == slot.disks@ && d.slots@ == occupied_slots(
                    slot,
                    l2cpu as int,
                    *engine,
                )
                &&& old(state).same_but_slot(*final(state), l2cpu as int)
                &&& final(state).l2cpus@[l2cpu as int] matches Some(after) && slot.is_with(
                    after,
                    Seq::<DiskWorker>::empty(),
                    false,
                    false,
                    false,
                )
            },
        },
{
    let i: usize = l2cpu as usize;
    if state.l2cpus[i].is_none() {
        return None;
    }
    match &mut state.l2cpus[i] {
        None => None,
        Some(slot) => {
            let mut slots: Vec<u32> = Vec::new();
            let mut k: usize = 0;
            let ghost all = slot.disks@;
            while k < slot.disks.len()
                invariant
                    all == slot.disks@,
                    k <= all.len(),
                    slots@ == all.take(k as int).map_values(|d: DiskWorker| d.slot_idx),
                decreases all.len() - k,
            {
                slots.push(slot.disks[k].slot_idx);
                k = k + 1;
                assert(slots@ =~= all.take(k as int).map_values(|d: DiskWorker| d.slot_idx));
            }
            assert(all.take(k as int) =~= all);
            push_slot(&mut slots, slot.net, l2cpu, engine.dev_net, engine);
            push_slot(
                &mut slots,
                slot.virtio_console.is_some(),
                l2cpu,
                engine.dev_console,
                engine,
            );
            push_slot(&mut slots, slot.virtio_rng, l2cpu, engine.dev_rng, engine);
            let mut disks: Vec<DiskWorker> = Vec::new();
            std::mem::swap(&mut disks, &mut slot.disks);
            slot.net = false;
            slot.virtio_console = None;
            slot.virtio_rng = false;
            Some(DroppedWorkers { disks, slots })
        },
    }
}

// ---------------------------------------------------------------------------
// Adopting a running core
// ---------------------------------------------------------------------------

/// Where a probe of a running core stands, and so what is to be done next.
#[derive(Clone, Copy, Debug, PartialEq, Eq, Structural)]
pub enum ProbePhase {
    /// Read the pointer to the debug descriptor.
    ReadPointer,
    /// Read the descriptor at this address.
    ReadDescriptor { at: u64 },
    /// Read the word at the start of the queues, which are at this address.
    ReadMagic { at: u64 },
    /// The core can be adopted.
    Viable,
    /// It cannot.
    Wedged,
}

/// What came of the last step of a probe.
#[derive(Clone, Copy, Debug)]
pub enum ProbeEvent {
    Pointer(u32),
    Descriptor(std::result::Result<u64, DescriptorError>),
    Magic(std::result::Result<(), u64>),
    Failed,
}

pub open spec fn probe_next(start: u64, phase: ProbePhase, event: ProbeEvent) -> ProbePhase {
    match (phase, event) {
        (ProbePhase::Viable, _) => phase,
        (ProbePhase::Wedged, _) => phase,
        (_, ProbeEvent::Failed) => ProbePhase::Wedged,
        (ProbePhase::ReadPointer, ProbeEvent::Pointer(p)) => ProbePhase::ReadDescriptor {
            at: (start + p) as u64,
        },
        (ProbePhase::ReadDescriptor { .. }, ProbeEvent::Descriptor(Ok(base))) => ProbePhase::ReadMagic {
            at: base,
        },
        (ProbePhase::ReadDescriptor { .. }, ProbeEvent::Descriptor(Err(_))) => ProbePhase::Wedged,
        (ProbePhase::ReadMagic { .. }, ProbeEvent::Magic(Ok(()))) => ProbePhase::Viable,
        (ProbePhase::ReadMagic { .. }, ProbeEvent::Magic(Err(_))) => ProbePhase::Wedged,
        _ => phase,
    }
}

/// Takes a probe of a running core one step further.
pub fn probe_warm_resume(start: u64, phase: ProbePhase, event: ProbeEvent) -> (next: ProbePhase)
    requires
        start + 0xffff_ffff <= u64::MAX,
    ensures
        next == probe_next(start, phase, event),
{
    match (phase, event) {
        (ProbePhase::Viable, _) => phase,
        (ProbePhase::Wedged, _) => phase,
        (_, ProbeEvent::Failed) => ProbePhase::Wedged,
        (ProbePhase::ReadPointer, ProbeEvent::Pointer(p)) => ProbePhase::ReadDescriptor {
            at: start + p as u64,
        },
        (ProbePhase::ReadDescriptor { .. }, ProbeEvent::Descriptor(Ok(base))) => ProbePhase::ReadMagic {
            at: base,
        },
        (ProbePhase::ReadDescriptor { .. }, ProbeEvent::Descriptor(Err(_))) => ProbePhase::Wedged,
        (ProbePhase::ReadMagic { .. }, ProbeEvent::Magic(Ok(()))) => ProbePhase::Viable,
        (ProbePhase::ReadMagic { .. }, ProbeEvent::Magic(Err(_))) => ProbePhase::Wedged,
        _ => phase,
    }
}

// ---------------------------------------------------------------------------
// Laws
// ---------------------------------------------------------------------------

/// A guest that went away is dealt with once: between two times that it is, the L2CPU was seen
/// running.
pub proof fn a_park_is_handled_once(
    start: u64,
    s: PassState,
    event: PassEvent,
    regs: PurgatoryRegs,
)
    requires
        s.phase !is HandlePark,
        pass_next(start, s, event, regs).phase is HandlePark,
    ensures
        !s.last_parked,
        pass_next(start, s, event, regs).last_parked,
        event == PassEvent::Status(Some(regs.status_parked)),
{
}

/// Once the L2CPU was seen parked, it counts as parked until it is seen otherwise.
pub proof fn parked_stays_parked(start: u64, s: PassState, event: PassEvent, regs: PurgatoryRegs)
    requires
        s.last_parked,
        !pass_next(start, s, event, regs).last_parked,
    ensures
        event matches PassEvent::Status(status) && status != Some(regs.status_parked),
{
}

/// A byte that was typed is held until it was pushed, or the pass ends.
pub proof fn a_typed_byte_is_not_lost(
    start: u64,
    s: PassState,
    event: PassEvent,
    regs: PurgatoryRegs,
    byte: u8,
)
    requires
        s.phase == (PassPhase::PushInput { byte }) || s.phase == (PassPhase::WaitForRoom { byte }),
    ensures
        ({
            let next = pass_next(start, s, event, regs).phase;
            ||| next == (PassPhase::PushInput { byte })
            ||| next == (PassPhase::WaitForRoom { byte })
            ||| (s.phase is PushInput && event == PassEvent::Pushed(true))
            ||| next is Ended
            ||| next is Failed
        }),
{
}

/// A pass ends for good only when it was asked to or when nobody can type any more; it is tried
/// again only when the descriptor or the word at the start of the queues was wrong.
pub proof fn why_a_pass_ends(start: u64, s: PassState, event: PassEvent, regs: PurgatoryRegs)
    requires
        s.phase !is Ended,
    ensures
        pass_next(start, s, event, regs).phase == PassPhase::Ended(UartExit::Done) ==> event
            == PassEvent::ExitRequested(true) || event is InputClosed,
        pass_next(start, s, event, regs).phase == PassPhase::Ended(UartExit::Retry) ==> (
        event matches PassEvent::Descriptor(d) && d is Err) || (event matches PassEvent::Magic {
            magic,
            ..
        } && magic != VIRTUAL_UART_MAGIC),
{
}

/// Where a probe stands after some events.
pub open spec fn probe_after(start: u64, events: Seq<ProbeEvent>) -> ProbePhase
    decreases events.len(),
{
    if events.len() == 0 {
        ProbePhase::ReadPointer
    } else {
        probe_next(start, probe_after(start, events.drop_last()), events.last())
    }
}

pub open spec fn is_good_descriptor(e: ProbeEvent) -> bool {
    e matches ProbeEvent::Descriptor(d) && d is Ok
}

pub open spec fn is_good_magic(e: ProbeEvent) -> bool {
    e matches ProbeEvent::Magic(m) && m is Ok
}

proof fn lemma_descriptor_was_read(start: u64, events: Seq<ProbeEvent>)
    requires
        probe_after(start, events) is ReadMagic || probe_after(start, events) is Viable,
    ensures
        exists|i: int| 0 <= i < events.len() && is_good_descriptor(#[trigger] events[i]),
    decreases events.len(),
{
    let before = events.drop_last();
    let phase = probe_after(start, before);
    if phase is ReadMagic || phase is Viable {
        lemma_descriptor_was_read(start, before);
        let i = choose|i: int| 0 <= i < before.len() && is_good_descriptor(#[trigger] before[i]);
        assert(is_good_descriptor(events[i]));
    } else {
        assert(is_good_descriptor(events[events.len() - 1]));
    }
}

/// A core is adopted only where both its descriptor and the word at the start of its queues were
/// read and found right.
pub proof fn only_a_live_core_is_adopted(start: u64, events: Seq<ProbeEvent>)
    requires
        probe_after(start, events) is Viable,
    ensures
        exists|i: int| 0 <= i < events.len() && is_good_descriptor(#[trigger] events[i]),
        exists|i: int| 0 <= i < events.len() && is_good_magic(#[trigger] events[i]),
    decreases events.len(),
{
    lemma_descriptor_was_read(start, events);
    let before = events.drop_last();
    if probe_after(start, before) is Viable {
        only_a_live_core_is_adopted(start, before);
        let i = choose|i: int| 0 <= i < before.len() && is_good_magic(#[trigger] before[i]);
        assert(is_good_magic(events[i]));
    } else {
        assert(is_good_magic(events[events.len() - 1]));
    }
}

} // verus!
