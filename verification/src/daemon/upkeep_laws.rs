//! What holds of the threads of the daemon: the passes over a chip console, what follows a park, and
//! what is stopped with a slot.
use vstd::prelude::*;

#[allow(unused_imports)]
use crate::console::DescriptorError;
#[allow(unused_imports)]
use crate::console::UartExit;
#[allow(unused_imports)]
use crate::daemon::chip_console::{
    auto_release_refusal, is_reboot, new_pass, occupied_slots, park_plan, pass_next, probe_next,
    since, tier_after, tier_sleep, ParkStepView, PassEvent, PassPhase, PassState, ProbeEvent,
    ProbePhase, OUTPUT_BATCH, PARKED_PROBE_INTERVAL,
};
#[allow(unused_imports)]
use crate::daemon::counters::{RpcMethod, Tier, WorkerKind};
#[allow(unused_imports)]
use crate::daemon::purgatory::ParkedReleaseMeta;
#[allow(unused_imports)]
use crate::daemon::server::{printed_with_goodbye, Stopped};
#[allow(unused_imports)]
use crate::daemon::state::{DaemonState, L2CpuSlot};
#[allow(unused_imports)]
use crate::daemon::terminal::{
    held_next, is_parameter, is_report, passed, typed, verdict, EscDecision, EscState, BRACKET, ESC,
};
#[allow(unused_imports)]
use crate::daemon::upkeep::{
    booted, reimaged, sent_away, workers_of, Worker, SHUTTING_DOWN, TELEMETRY_BACKOFF,
    TELEMETRY_BACKOFF_MAX, TELEMETRY_INTERVAL,
};
#[allow(unused_imports)]
use crate::regs::{EngineRegs, PurgatoryRegs};
#[allow(unused_imports)]
use crate::text::dec;

verus! {

// ---------------------------------------------------------------------------
// Passes over a chip console
// ---------------------------------------------------------------------------

/// A console that was busy within the last fifth of a second is looked at every tenth of a
/// millisecond; within the last two seconds, every millisecond; else every ten. All times are in
/// nanoseconds.
pub proof fn a_quiet_console_is_looked_at_less_often(d: int)
    ensures
        d < 200_000_000 ==> tier_after(d) is Fast && tier_sleep(tier_after(d)) == 100_000,
        200_000_000 <= d < 2_000_000_000 ==> tier_after(d) is Slow && tier_sleep(tier_after(d))
            == 1_000_000,
        2_000_000_000 <= d ==> tier_after(d) is Idle && tier_sleep(tier_after(d)) == 10_000_000,
        PARKED_PROBE_INTERVAL == 1_500_000_000,
        OUTPUT_BATCH == 256,
{
}

/// Time that seems to run backwards has not passed.
pub proof fn time_does_not_run_backwards(now: u64, before: u64)
    ensures
        since(now, before) >= 0,
        now >= before ==> since(now, before) + before == now,
        now <= before ==> since(now, before) == 0,
{
}

/// A new pass counts as busy, probes the core at once, and takes it for running.
pub proof fn a_new_pass_probes_at_once(now: u64)
    ensures
        new_pass(now).phase is ReadPointer,
        new_pass(now).last_active == now,
        !new_pass(now).last_parked,
        now >= 1_500_000_000 ==> since(now, new_pass(now).last_probe) == 1_500_000_000,
        now < 1_500_000_000 ==> new_pass(now).last_probe == now,
{
}

/// A pass finds its queues through a pointer and a descriptor; it goes over its phases in turn, and
/// what a phase does not wait for changes nothing but that a failure ends it.
pub proof fn how_a_pass_runs(
    start: u64,
    s: PassState,
    p: u32,
    at: u64,
    bad: DescriptorError,
    exit: bool,
    magic: u64,
    now: u64,
    status: Option<u64>,
    bytes: usize,
    byte: u8,
    pushed: bool,
    active: bool,
    regs: PurgatoryRegs,
)
    ensures
        s.phase is ReadPointer ==> pass_next(start, s, PassEvent::Pointer(p), regs) == (PassState {
            phase: PassPhase::ReadDescriptor { at: (start + p) as u64 },
            ..s
        }),
        s.phase is ReadDescriptor ==> {
            &&& pass_next(start, s, PassEvent::Descriptor(Ok(at)), regs) == (PassState {
                phase: PassPhase::OpenQueues { at },
                ..s
            })
            &&& pass_next(start, s, PassEvent::Descriptor(Err(bad)), regs) == (PassState {
                phase: PassPhase::Ended(UartExit::Retry),
                ..s
            })
        },
        s.phase is OpenQueues ==> pass_next(start, s, PassEvent::Done, regs) == (PassState {
            phase: PassPhase::CheckExit,
            ..s
        }),
        s.phase is CheckExit ==> {
            &&& pass_next(start, s, PassEvent::ExitRequested(true), regs) == (PassState {
                phase: PassPhase::Ended(UartExit::Done),
                ..s
            })
            &&& pass_next(start, s, PassEvent::ExitRequested(false), regs) == (PassState {
                phase: PassPhase::CheckMagic,
                ..s
            })
        },
        s.phase is CheckMagic ==> {
            let next = pass_next(start, s, PassEvent::Magic { magic, now }, regs);
            &&& magic != 0x5649_5254_5541_5254 ==> next == (PassState {
                phase: PassPhase::Ended(UartExit::Retry),
                ..s
            })
            &&& magic == 0x5649_5254_5541_5254 && now >= s.last_probe + 1_500_000_000 ==> next == (
            PassState { phase: PassPhase::ProbeParked, last_probe: now, ..s })
            &&& magic == 0x5649_5254_5541_5254 && now < s.last_probe + 1_500_000_000 ==> next == (
            PassState { phase: PassPhase::DrainOutput, ..s })
        },
        s.phase is ProbeParked ==> {
            let next = pass_next(start, s, PassEvent::Status(status), regs);
            &&& next.last_parked <==> status == Some(regs.status_parked)
            &&& next.phase is HandlePark <==> next.last_parked && !s.last_parked
            &&& next.phase is HandlePark || next.phase is DrainOutput
            &&& next.last_active == s.last_active && next.last_probe == s.last_probe
        },
        s.phase is HandlePark ==> pass_next(start, s, PassEvent::Done, regs) == (PassState {
            phase: PassPhase::DrainOutput,
            ..s
        }),
        s.phase is DrainOutput ==> pass_next(start, s, PassEvent::Output { bytes }, regs) == (
        PassState { phase: PassPhase::TakeInput { active: bytes > 0 }, ..s }),
        s.phase == (PassPhase::TakeInput { active }) ==> {
            &&& pass_next(start, s, PassEvent::Input(byte), regs) == (PassState {
                phase: PassPhase::PushInput { byte },
                ..s
            })
            &&& pass_next(start, s, PassEvent::NoInput, regs) == (PassState {
                phase: PassPhase::Rest { active },
                ..s
            })
            &&& pass_next(start, s, PassEvent::InputClosed, regs) == (PassState {
                phase: PassPhase::Ended(UartExit::Done),
                ..s
            })
        },
        s.phase == (PassPhase::PushInput { byte }) ==> {
            &&& pass_next(start, s, PassEvent::Pushed(true), regs) == (PassState {
                phase: PassPhase::TakeInput { active: true },
                ..s
            })
            &&& pass_next(start, s, PassEvent::Pushed(false), regs) == (PassState {
                phase: PassPhase::WaitForRoom { byte },
                ..s
            })
        },
        s.phase == (PassPhase::WaitForRoom { byte }) ==> {
            &&& pass_next(start, s, PassEvent::ExitRequested(true), regs) == (PassState {
                phase: PassPhase::Ended(UartExit::Done),
                ..s
            })
            &&& pass_next(start, s, PassEvent::ExitRequested(false), regs) == (PassState {
                phase: PassPhase::PushInput { byte },
                ..s
            })
        },
        s.phase is Sleep ==> pass_next(start, s, PassEvent::Done, regs) == (PassState {
            phase: PassPhase::CheckExit,
            ..s
        }),
        !(s.phase is Ended) ==> pass_next(start, s, PassEvent::Failed, regs) == (PassState {
            phase: PassPhase::Failed,
            ..s
        }),
{
}

/// A pass that saw something pass counts as busy from then on; one that did not stays as quiet as it
/// was. How long it sleeps goes by how long it has been quiet.
pub proof fn how_long_a_pass_sleeps(
    start: u64,
    s: PassState,
    active: bool,
    now: u64,
    regs: PurgatoryRegs,
)
    requires
        s.phase == (PassPhase::Rest { active }),
    ensures
        ({
            let next = pass_next(start, s, PassEvent::Now(now), regs);
            &&& active ==> next.last_active == now && next.phase == PassPhase::Sleep(Tier::Fast)
            &&& !active ==> next.last_active == s.last_active
            &&& !active && now - s.last_active >= 2_000_000_000 ==> next.phase == PassPhase::Sleep(
                Tier::Idle,
            )
            &&& !active && 200_000_000 <= now - s.last_active < 2_000_000_000 ==> next.phase
                == PassPhase::Sleep(Tier::Slow)
            &&& !active && now - s.last_active < 200_000_000 ==> next.phase == PassPhase::Sleep(
                Tier::Fast,
            )
            &&& next.last_probe == s.last_probe && next.last_parked == s.last_parked
        }),
{
}

// ---------------------------------------------------------------------------
// Parks
// ---------------------------------------------------------------------------

/// A guest that reboots, cold or warm, is announced, loses what was typed and its network, and after
/// a second gets its network back and goes on. Any other is let go: its workers are stopped, its
/// clients are told, and what it printed is forgotten.
pub proof fn what_follows_a_park(l2cpu: u8, reset_type: u32, regs: PurgatoryRegs)
    ensures
        ({
            let reboots = reset_type == regs.reset_type_cold_reboot || reset_type
                == regs.reset_type_warm_reboot;
            let plan = park_plan(l2cpu, reset_type, regs);
            &&& is_reboot(reset_type, regs) <==> reboots
            &&& reboots ==> plan == seq![
                ParkStepView::Announce(
                    "\r\n[bhx: l2cpu "@ + dec(l2cpu as nat)
                        + " rebooting (auto-release)\u{2026}]\r\n"@,
                ),
                ParkStepView::DrainInput,
                ParkStepView::DropNet,
                ParkStepView::Pause(1),
                ParkStepView::DrainInput,
                ParkStepView::ReattachNet,
                ParkStepView::AutoRelease,
            ]
            &&& !reboots ==> plan == seq![
                ParkStepView::DropWorkers,
                ParkStepView::Disconnect(
                    "l2cpu "@ + dec(l2cpu as nat) + " parked (guest powered off); `bhx boot -l "@
                        + dec(l2cpu as nat) + "` to release"@,
                ),
                ParkStepView::ClearScrollback,
                ParkStepView::DrainInput,
            ]
        }),
{
}

/// A core is released by itself only where its addresses were read, it is still parked, its slot is
/// still there and what it was booted with is known. What is missing has words of its own.
pub proof fn when_a_core_is_released_by_itself(
    meta: std::result::Result<Option<ParkedReleaseMeta>, String>,
    slot: Option<L2CpuSlot>,
)
    ensures
        auto_release_refusal(meta, slot) is None <==> meta is Ok && meta->Ok_0 is Some
            && slot is Some && slot->0.boot_payload is Some,
        meta matches Err(e) ==> auto_release_refusal(meta, slot) == Some(
            "read_parked_release_meta: "@ + e@,
        ),
        meta matches Ok(None) ==> auto_release_refusal(meta, slot) == Some(
            "slot not parked when auto-reboot fired"@,
        ),
        meta is Ok && meta->Ok_0 is Some && slot is None ==> auto_release_refusal(meta, slot)
            == Some("slot is gone"@),
        meta is Ok && meta->Ok_0 is Some && slot is Some && slot->0.boot_payload is None
            ==> auto_release_refusal(meta, slot) == Some(
            "no cached boot_payload (warm-resumed slot has no cold-boot args)"@,
        ),
{
}

/// The devices of a guest that goes stand on the places of its disks and, as far as they are there,
/// of its network, its console and its entropy source.
pub proof fn which_places_a_guest_takes(slot: L2CpuSlot, l2cpu: int, engine: EngineRegs, i: int)
    ensures
        ({
            let places = occupied_slots(slot, l2cpu, engine);
            let n = slot.disks@.len() as int;
            let nets: int = n + if slot.net {
                1int
            } else {
                0
            };
            let consoles: int = nets + if slot.virtio_console is Some {
                1int
            } else {
                0
            };
            let rngs: int = consoles + if slot.virtio_rng {
                1int
            } else {
                0
            };
            &&& places.len() == rngs
            &&& 0 <= i < n ==> places[i] == slot.disks@[i].slot_idx
            &&& slot.net ==> places[n] == (l2cpu * engine.devs_per_l2cpu + engine.dev_net) as u32
            &&& slot.virtio_console is Some ==> places[nets] == (l2cpu * engine.devs_per_l2cpu
                + engine.dev_console) as u32
            &&& slot.virtio_rng ==> places[consoles] == (l2cpu * engine.devs_per_l2cpu
                + engine.dev_rng) as u32
        }),
{
}

/// A core is adopted after its pointer, a good descriptor and a good mark were read, in this order;
/// whatever fails on the way wedges it, and a verdict stays.
pub proof fn how_a_core_is_probed(
    start: u64,
    phase: ProbePhase,
    event: ProbeEvent,
    p: u32,
    at: u64,
    base: u64,
    bad: DescriptorError,
    got: u64,
)
    ensures
        probe_next(start, ProbePhase::ReadPointer, ProbeEvent::Pointer(p)) == (
        ProbePhase::ReadDescriptor { at: (start + p) as u64 }),
        probe_next(start, ProbePhase::ReadDescriptor { at }, ProbeEvent::Descriptor(Ok(base))) == (
        ProbePhase::ReadMagic { at: base }),
        probe_next(start, ProbePhase::ReadDescriptor { at }, ProbeEvent::Descriptor(Err(bad)))
            == ProbePhase::Wedged,
        probe_next(start, ProbePhase::ReadMagic { at }, ProbeEvent::Magic(Ok(())))
            == ProbePhase::Viable,
        probe_next(start, ProbePhase::ReadMagic { at }, ProbeEvent::Magic(Err(got)))
            == ProbePhase::Wedged,
        !(phase is Viable) ==> probe_next(start, phase, ProbeEvent::Failed) == ProbePhase::Wedged,
        probe_next(start, ProbePhase::Viable, event) == ProbePhase::Viable,
        probe_next(start, ProbePhase::Wedged, event) == ProbePhase::Wedged,
        probe_next(start, phase, event) is Viable && !(phase is Viable) ==> phase is ReadMagic,
{
}

// ---------------------------------------------------------------------------
// Slots
// ---------------------------------------------------------------------------

/// Each disk has a worker, and so have the network, the console and the entropy source where they
/// are there; that of the core's own console is stopped last.
pub proof fn which_workers_a_slot_has(slot: L2CpuSlot, i: int)
    ensures
        ({
            let workers = workers_of(slot);
            let n = slot.disks@.len() as int;
            let nets: int = n + if slot.net {
                1int
            } else {
                0
            };
            let consoles: int = nets + if slot.virtio_console is Some {
                1int
            } else {
                0
            };
            let rngs: int = consoles + if slot.virtio_rng {
                1int
            } else {
                0
            };
            &&& workers.len() == rngs + 1
            &&& 0 <= i < n ==> workers[i] == Worker::Disk(slot.disks@[i].slot_idx)
            &&& slot.net ==> workers[n] == Worker::Net
            &&& slot.virtio_console is Some ==> workers[nets] == Worker::VirtioConsole
            &&& slot.virtio_rng ==> workers[consoles] == Worker::Rng
            &&& workers.last() == Worker::Console
        }),
{
}

/// The clients of a slot that goes are all sent away with the reason; the slot keeps what it printed,
/// with the reason at the end, and everything else.
pub proof fn clients_are_sent_away_with_the_reason(slot: L2CpuSlot, s: Stopped, reason: Seq<char>)
    requires
        sent_away(slot, s, reason),
    ensures
        s.line@ == "\r\n[bhx: "@ + reason + "]\r\n"@,
        s.clients@.len() == slot.console_hub.attached().len(),
        forall|i: int|
            0 <= i < s.clients@.len() ==> #[trigger] s.clients@[i]
                == slot.console_hub.attached()[i].id,
        s.slot.console_hub.attached().len() == 0,
        s.slot.console_hub.printed() == printed_with_goodbye(slot.console_hub.printed(), reason),
        s.slot.idx == slot.idx && s.slot.disks == slot.disks && s.slot.net == slot.net,
        s.slot.virtio_console == slot.virtio_console && s.slot.virtio_rng == slot.virtio_rng,
        s.slot.boot_payload == slot.boot_payload && s.slot.net_extra_fwd == slot.net_extra_fwd,
{
}

/// What is told the clients of a slot that another boot replaces, or that goes with the daemon.
pub proof fn why_clients_are_sent_away(l2cpu: u8)
    ensures
        reimaged(l2cpu) == "l2cpu "@ + dec(l2cpu as nat) + " re-imaged via --force"@,
        SHUTTING_DOWN@ == "daemon shutting down"@,
        TELEMETRY_INTERVAL == 5000,
        TELEMETRY_BACKOFF == 500,
        TELEMETRY_BACKOFF_MAX == 60_000,
{
}

/// The booted L2CPUs are listed once each, in order, and no other is.
pub proof fn the_booted_are_listed_in_order(state: DaemonState, n: nat, i: int)
    requires
        n <= 4,
        0 <= i < n,
    ensures
        booted(state, n).contains(i as u8) <==> state.l2cpus@[i] is Some,
        forall|a: int, b: int|
            0 <= a < b < booted(state, n).len() ==> booted(state, n)[a] < booted(state, n)[b],
        forall|a: int| 0 <= a < booted(state, n).len() ==> #[trigger] booted(state, n)[a] < n,
    decreases n,
{
    let m = (n - 1) as nat;
    let before = booted(state, m);
    let all = booted(state, n);
    lemma_booted(state, m);
    lemma_booted(state, n);
    if i < m {
        the_booted_are_listed_in_order(state, m, i);
        if before.contains(i as u8) {
            let k = choose|k: int| 0 <= k < before.len() && before[k] == i as u8;
            assert(all[k] == i as u8);
        }
        if all.contains(i as u8) {
            let k = choose|k: int| 0 <= k < all.len() && all[k] == i as u8;
            if k < before.len() {
                assert(before[k] == i as u8);
            }
        }
    } else {
        if state.l2cpus@[i] is Some {
            assert(all[before.len() as int] == i as u8);
        } else if all.contains(i as u8) {
            let k = choose|k: int| 0 <= k < all.len() && all[k] == i as u8;
            assert(before[k] < m);
        }
    }
}

proof fn lemma_booted(state: DaemonState, n: nat)
    requires
        n <= 4,
    ensures
        forall|a: int, b: int|
            0 <= a < b < booted(state, n).len() ==> booted(state, n)[a] < booted(state, n)[b],
        forall|a: int| 0 <= a < booted(state, n).len() ==> #[trigger] booted(state, n)[a] < n,
    decreases n,
{
    if n > 0 {
        lemma_booted(state, (n - 1) as nat);
        let before = booted(state, (n - 1) as nat);
        let all = booted(state, n);
        assert forall|a: int| 0 <= a < all.len() implies #[trigger] all[a] < n by {
            if a < before.len() {
                assert(all[a] == before[a]);
            }
        }
        assert forall|a: int, b: int| 0 <= a < b < all.len() implies all[a] < all[b] by {
            assert(all[a] == before[a]);
            if b < before.len() {
                assert(all[b] == before[b]);
            }
        }
    }
}

/// Each kind of worker, each tier and each method is reported under its own name, in a fixed order.
pub proof fn names_in_the_reports(w: WorkerKind, t: Tier, m: RpcMethod)
    ensures
        t is Fast ==> t.label() == "fast"@ && t.rank() == 0,
        t is Slow ==> t.label() == "slow"@ && t.rank() == 1,
        t is Idle ==> t.label() == "idle"@ && t.rank() == 2,
        w is VirtioBlk ==> w.label() == "virtio_blk"@ && w.rank() == 0,
        w is VirtioNet ==> w.label() == "virtio_net"@ && w.rank() == 1,
        w is VirtioConsole ==> w.label() == "virtio_console"@ && w.rank() == 2,
        w is VirtioRng ==> w.label() == "virtio_rng"@ && w.rank() == 3,
        w is ChipConsole ==> w.label() == "chip_console"@ && w.rank() == 4,
        m is Status ==> m.label() == "status"@ && m.rank() == 0,
        m is Boot ==> m.label() == "boot"@ && m.rank() == 1,
        m is AttachConsole ==> m.label() == "attach_console"@ && m.rank() == 2,
        m is AddDisk ==> m.label() == "add_disk"@ && m.rank() == 3,
        m is RemoveDisk ==> m.label() == "remove_disk"@ && m.rank() == 4,
        m is AddNet ==> m.label() == "add_net"@ && m.rank() == 5,
        m is RemoveNet ==> m.label() == "remove_net"@ && m.rank() == 6,
        m is AddConsole ==> m.label() == "add_console"@ && m.rank() == 7,
        m is RemoveConsole ==> m.label() == "remove_console"@ && m.rank() == 8,
        m is Stop ==> m.label() == "stop"@ && m.rank() == 9,
        m is Shutdown ==> m.label() == "shutdown"@ && m.rank() == 10,
        Tier::every()[t.rank() as int] == t,
        WorkerKind::every()[w.rank() as int] == w,
        RpcMethod::every()[m.rank() as int] == m,
        Tier::every().len() == 3,
        WorkerKind::every().len() == 5,
        RpcMethod::every().len() == 11,
{
}

// ---------------------------------------------------------------------------
// The terminal of a client
// ---------------------------------------------------------------------------

/// An escape byte is held back, and behind it a bracket; from then on everything up to the first
/// byte from `@` to `~`. What comes of it is sent, unless it tells where the cursor is: such an
/// answer is digits and semicolons between the bracket and an R.
pub proof fn which_bytes_are_held_back(held: Seq<u8>, byte: u8)
    ensures
        held.len() == 0 ==> (verdict(held, byte) == EscDecision::Drop <==> byte == 27),
        held.len() == 1 ==> (verdict(held, byte) == EscDecision::Drop <==> byte == '[' as u8),
        held.len() >= 2 ==> (verdict(held, byte) == EscDecision::Drop <==> !(64 <= byte <= 126)),
        verdict(held, byte) == EscDecision::CprResponse <==> held.len() >= 2 && held[0] == 27
            && held[1] == '[' as u8 && byte == 'R' as u8 && forall|i: int|
            2 <= i < held.len() ==> ('0' as u8 <= #[trigger] held[i] <= '9' as u8 || held[i]
                == ';' as u8),
        verdict(held, byte) == EscDecision::Drop ==> held_next(held, byte) == held.push(byte),
        verdict(held, byte) != EscDecision::Drop ==> held_next(held, byte).len() == 0,
{
    let all = held.push(byte);
    if held.len() >= 2 {
        if is_report(all) {
            assert forall|i: int| 2 <= i < held.len() implies ('0' as u8 <= #[trigger] held[i]
                <= '9' as u8 || held[i] == ';' as u8) by {
                assert(is_parameter(all[i]));
            }
        }
        if held[0] == 27 && held[1] == '[' as u8 && byte == 'R' as u8 && (forall|i: int|
            2 <= i < held.len() ==> ('0' as u8 <= #[trigger] held[i] <= '9' as u8 || held[i]
                == ';' as u8)) {
            assert forall|i: int| 2 <= i < all.len() - 1 implies is_parameter(#[trigger] all[i]) by {
                assert(held[i] == all[i]);
            }
        }
    }
}

/// What is held back is what was held back, byte for byte.
pub proof fn what_is_held_back(buf: Vec<u8>)
    ensures
        EscState::Idle.held().len() == 0,
        EscState::Esc.held() == seq![27u8],
        EscState::Csi(buf).held() == seq![27u8, 0x5b] + buf@,
        ESC == 27,
        BRACKET == '[' as u8,
{
}

/// Control-A and x quit, and what follows is not sent; Control-A before another key is sent with it;
/// any other key is sent as it is.
pub proof fn what_is_sent_of_what_is_typed(key: u8, rest: Seq<u8>)
    ensures
        typed(false, Seq::empty()) == (Seq::<u8>::empty(), false, false),
        typed(true, Seq::empty()) == (Seq::<u8>::empty(), true, false),
        typed(true, seq![0x78u8] + rest) == (Seq::<u8>::empty(), false, true),
        typed(false, seq![1u8] + rest) == typed(true, rest),
        key != 1 ==> typed(false, seq![key] + rest) == (
            seq![key] + typed(false, rest).0,
            typed(false, rest).1,
            typed(false, rest).2,
        ),
        key != 0x78 ==> typed(true, seq![key] + rest) == (
            seq![1u8, key] + typed(false, rest).0,
            typed(false, rest).1,
            typed(false, rest).2,
        ),
{
    assert((seq![0x78u8] + rest).skip(1) =~= rest);
    assert((seq![1u8] + rest).skip(1) =~= rest);
    assert((seq![key] + rest).skip(1) =~= rest);
    let held = typed(true, rest);
    assert(Seq::<u8>::empty() + held.0 =~= held.0);
}

} // verus!
