//! What the daemon does around its requests: waiting for clients, keeping its loops going, bringing
//! the engine up, and taking slots apart.
use vstd::prelude::*;
use vstd::string::*;

use crate::daemon::boot_flow::{decide_boot_slot, BootSlotDecision};
#[allow(unused_imports)]
use crate::daemon::boot_flow::already_booted;
#[allow(unused_imports)]
use crate::daemon::console_hub::{goodbye, Client};
use crate::daemon::counters::PerL2cpuGauge;
#[allow(unused_imports)]
use crate::daemon::server::printed_with_goodbye;
use crate::daemon::server::Stopped;
use crate::daemon::state::{DaemonState, L2CpuSlot};
#[allow(unused_imports)]
use crate::text::dec;
use crate::text::push_dec;

verus! {

// ---------------------------------------------------------------------------
// Waiting for clients
// ---------------------------------------------------------------------------

/// What came of an attempt to take a client in.
#[derive(Clone, Copy, Debug, PartialEq, Eq, Structural)]
pub enum Accepted {
    Client,
    /// Nobody is waiting.
    Nobody,
    Failed,
}

/// What follows it.
#[derive(Clone, Copy, Debug, PartialEq, Eq, Structural)]
pub enum AcceptStep {
    /// Serve the client.
    Serve,
    /// Wait this many milliseconds.
    Pause(u64),
}

/// What the control socket does after an attempt to take a client in.
pub fn serve(outcome: Accepted) -> (step: AcceptStep)
    ensures
        step == match outcome {
            Accepted::Client => AcceptStep::Serve,
            Accepted::Nobody => AcceptStep::Pause(50),
            Accepted::Failed => AcceptStep::Pause(200),
        },
{
    match outcome {
        Accepted::Client => AcceptStep::Serve,
        Accepted::Nobody => AcceptStep::Pause(50),
        Accepted::Failed => AcceptStep::Pause(200),
    }
}

/// What the socket of the metrics does after an attempt to take a client in.
pub fn run_exporter(outcome: Accepted) -> (step: AcceptStep)
    ensures
        step == match outcome {
            Accepted::Client => AcceptStep::Serve,
            Accepted::Nobody => AcceptStep::Pause(100),
            Accepted::Failed => AcceptStep::Pause(500),
        },
{
    match outcome {
        Accepted::Client => AcceptStep::Serve,
        Accepted::Nobody => AcceptStep::Pause(100),
        Accepted::Failed => AcceptStep::Pause(500),
    }
}

// ---------------------------------------------------------------------------
// Telemetry
// ---------------------------------------------------------------------------

/// How often telemetry is read, in milliseconds.
pub const TELEMETRY_INTERVAL: u64 = 5000;

/// The first pause after a read that failed.
pub const TELEMETRY_BACKOFF: u64 = 500;

/// The longest such pause.
pub const TELEMETRY_BACKOFF_MAX: u64 = 60_000;

/// The pause after reading telemetry, and the one that follows the next failure: that doubles with
/// every failure in a row, up to a limit.
pub fn telemetry_pause(backoff: u64, read: bool) -> (r: (u64, u64))
    requires
        backoff <= TELEMETRY_BACKOFF_MAX,
    ensures
        r == if read {
            (TELEMETRY_INTERVAL, TELEMETRY_BACKOFF)
        } else if backoff * 2 <= TELEMETRY_BACKOFF_MAX {
            (backoff, (backoff * 2) as u64)
        } else {
            (backoff, TELEMETRY_BACKOFF_MAX)
        },
        r.1 <= TELEMETRY_BACKOFF_MAX,
{
    if read {
        (TELEMETRY_INTERVAL, TELEMETRY_BACKOFF)
    } else if backoff * 2 <= TELEMETRY_BACKOFF_MAX {
        (backoff, backoff * 2)
    } else {
        (backoff, TELEMETRY_BACKOFF_MAX)
    }
}

// ---------------------------------------------------------------------------
// The engine
// ---------------------------------------------------------------------------

impl DaemonState {
    /// The tile of the engine. Where it is not up yet, `brought_up` is what came of bringing it up;
    /// its poller then runs as well.
    pub fn get_or_bring_up_tensix_engine<E>(
        &mut self,
        brought_up: std::result::Result<(u32, u32), E>,
    ) -> (r: std::result::Result<(u32, u32), E>)
        ensures
            match old(self).engine_tile {
                Some(tile) => r == Ok::<(u32, u32), E>(tile) && *final(self) == *old(self),
                None => r == brought_up && *final(self) == match brought_up {
                    Ok(tile) => DaemonState {
                        engine_tile: Some(tile),
                        kick_poller: true,
                        ..*old(self)
                    },
                    Err(_) => *old(self),
                },
            },
    {
        match self.engine_tile {
            Some(tile) => Ok(tile),
            None => match brought_up {
                Ok(tile) => {
                    self.engine_tile = Some(tile);
                    self.kick_poller = true;
                    Ok(tile)
                },
                Err(e) => Err(e),
            },
        }
    }

    /// Takes over an engine that an earlier daemon left running, unless one is up. `adopted` is what
    /// came of it.
    pub fn adopt_running_tensix_engine<E>(
        &mut self,
        adopted: std::result::Result<(u32, u32), E>,
    ) -> (r: std::result::Result<(), E>)
        ensures
            match (old(self).engine_tile, adopted) {
                (Some(_), _) => r == Ok::<(), E>(()) && *final(self) == *old(self),
                (None, Ok(tile)) => r == Ok::<(), E>(()) && *final(self) == (DaemonState {
                    engine_tile: Some(tile),
                    kick_poller: true,
                    ..*old(self)
                }),
                (None, Err(e)) => r == Err::<(), E>(e) && *final(self) == *old(self),
            },
    {
        match self.get_or_bring_up_tensix_engine(adopted) {
            Ok(_) => Ok(()),
            Err(e) => Err(e),
        }
    }

    /// Lets go of the engine and its poller, before the board is reset under them.
    pub fn drop_engine(&mut self)
        ensures
            *final(self) == (DaemonState { engine_tile: None, kick_poller: false, ..*old(self) }),
    {
        self.kick_poller = false;
        self.engine_tile = None;
    }
}

// ---------------------------------------------------------------------------
// Taking slots apart
// ---------------------------------------------------------------------------

/// A thread that serves a slot.
#[derive(Clone, Copy, Debug, PartialEq, Eq, Structural)]
pub enum Worker {
    /// The disk on this slot of the engine.
    Disk(u32),
    Net,
    VirtioConsole,
    Rng,
    /// The console of the core.
    Console,
}

/// A worker, if it is there.
pub open spec fn worker_if(there: bool, w: Worker) -> Seq<Worker> {
    if there {
        seq![w]
    } else {
        Seq::empty()
    }
}

/// The workers of a slot in the order in which they are stopped: those of its devices, and the
/// console last.
pub open spec fn workers_of(slot: L2CpuSlot) -> Seq<Worker> {
    slot.disks@.map_values(|d: crate::daemon::state::DiskWorker| Worker::Disk(d.slot_idx))
        + worker_if(slot.net, Worker::Net) + worker_if(
        slot.virtio_console is Some,
        Worker::VirtioConsole,
    ) + worker_if(slot.virtio_rng, Worker::Rng) + seq![Worker::Console]
}

fn push_worker(list: &mut Vec<Worker>, there: bool, w: Worker)
    ensures
        final(list)@ == old(list)@ + worker_if(there, w),
{
    if there {
        list.push(w);
    }
    assert(list@ =~= old(list)@ + worker_if(there, w));
}

impl L2CpuSlot {
    /// The workers to stop, in order.
    pub fn shutdown(&self) -> (list: Vec<Worker>)
        ensures
            list@ == workers_of(*self),
    {
        let mut list: Vec<Worker> = Vec::new();
        let mut i: usize = 0;
        let ghost disk = |d: crate::daemon::state::DiskWorker| Worker::Disk(d.slot_idx);
        while i < self.disks.len()
            invariant
                i <= self.disks@.len(),
                disk == |d: crate::daemon::state::DiskWorker| Worker::Disk(d.slot_idx),
                list@ == self.disks@.take(i as int).map_values(disk),
            decreases self.disks@.len() - i,
        {
            list.push(Worker::Disk(self.disks[i].slot_idx));
            i = i + 1;
            assert(list@ =~= self.disks@.take(i as int).map_values(disk));
        }
        assert(self.disks@.take(i as int) =~= self.disks@);
        push_worker(&mut list, self.net, Worker::Net);
        push_worker(&mut list, self.virtio_console.is_some(), Worker::VirtioConsole);
        push_worker(&mut list, self.virtio_rng, Worker::Rng);
        list.push(Worker::Console);
        assert(list@ =~= workers_of(*self));
        list
    }
}

/// `s` is this slot, with its clients sent away for a reason.
pub open spec fn sent_away(slot: L2CpuSlot, s: Stopped, reason: Seq<char>) -> bool {
    &&& s.slot == (L2CpuSlot { console_hub: s.slot.console_hub, ..slot })
    &&& s.slot.console_hub.attached().len() == 0
    &&& s.slot.console_hub.printed() == printed_with_goodbye(slot.console_hub.printed(), reason)
    &&& s.clients@ == slot.console_hub.attached().map_values(|c: Client| c.id)
    &&& s.line@ == goodbye(reason)
}

/// Takes a slot out of its place and sends its clients away. What it printed is not kept.
fn take_slot(state: &mut DaemonState, i: usize, reason: &str, gauge: &mut PerL2cpuGauge) -> (r:
    Option<Stopped>)
    requires
        old(state).wf(),
        i < 4,
    ensures
        final(state).wf(),
        final(state).l2cpus@[i as int] is None,
        old(state).same_but_slot(*final(state), i as int),
        match old(state).l2cpus@[i as int] {
            None => r is None && *final(state) == *old(state) && *final(gauge) == *old(gauge),
            Some(slot) => r matches Some(s) && sent_away(slot, s, reason@) && final(gauge)@ == old(
                gauge,
            )@.update(i as int, 0),
        },
{
    if state.l2cpus[i].is_none() {
        return None;
    }
    let mut taken: Option<L2CpuSlot> = None;
    std::mem::swap(&mut taken, &mut state.l2cpus[i]);
    match taken {
        Some(mut slot) => {
            let clients: Vec<u64> = slot.console_hub.client_ids();
            let line: String = slot.console_hub.disconnect_all_with_reason(reason, gauge);
            Some(Stopped { slot, clients, line })
        },
        None => None,
    }
}

/// Why the clients of an L2CPU are sent away when it is booted over.
pub open spec fn reimaged(l2cpu: u8) -> Seq<char> {
    "l2cpu "@ + dec(l2cpu as nat) + " re-imaged via --force"@
}

/// Makes room for a boot: an occupied slot is taken out of its place where the boot is forced, and
/// stays, with a refusal, where it is not.
pub fn handle_existing_slot(
    state: &mut DaemonState,
    l2cpu: u8,
    force: bool,
    gauge: &mut PerL2cpuGauge,
) -> (r: std::result::Result<Option<Stopped>, String>)
    requires
        old(state).wf(),
        l2cpu < 4,
    ensures
        final(state).wf(),
        match old(state).l2cpus@[l2cpu as int] {
            None => r matches Ok(None) && *final(state) == *old(state) && *final(gauge) == *old(
                gauge,
            ),
            Some(slot) => if force {
                &&& r matches Ok(Some(s)) && sent_away(slot, s, reimaged(l2cpu))
                &&& final(state).l2cpus@[l2cpu as int] is None
                &&& old(state).same_but_slot(*final(state), l2cpu as int)
                &&& final(gauge)@ == old(gauge)@.update(l2cpu as int, 0)
            } else {
                r matches Err(m) && m@ == already_booted(l2cpu) && *final(state) == *old(state)
                    && *final(gauge) == *old(gauge)
            },
        },
{
    match decide_boot_slot(state.l2cpus[l2cpu as usize].is_some(), force, l2cpu) {
        BootSlotDecision::Reject(m) => Err(m),
        BootSlotDecision::Proceed => Ok(None),
        BootSlotDecision::TearDownAndProceed => {
            let mut why: String = "l2cpu ".to_owned();
            push_dec(&mut why, l2cpu as u64);
            why.append(" re-imaged via --force");
            Ok(take_slot(state, l2cpu as usize, why.as_str(), gauge))
        },
    }
}

/// Why clients are sent away when the daemon stops.
pub const SHUTTING_DOWN: &'static str = "daemon shutting down";

/// The first `n` L2CPUs that are booted.
pub open spec fn booted(state: DaemonState, n: nat) -> Seq<u8>
    decreases n,
{
    if n == 0 {
        Seq::empty()
    } else {
        let before = booted(state, (n - 1) as nat);
        if state.l2cpus@[n - 1] is Some {
            before.push((n - 1) as u8)
        } else {
            before
        }
    }
}

/// Takes every slot out of its place when the daemon stops. What is given back stands in the order
/// of the L2CPUs.
pub fn take_all_slots(state: &mut DaemonState, gauge: &mut PerL2cpuGauge) -> (list: Vec<Stopped>)
    requires
        old(state).wf(),
    ensures
        final(state).wf(),
        forall|i: int| 0 <= i < 4 ==> #[trigger] final(state).l2cpus@[i] is None,
        *final(state) == (DaemonState { l2cpus: final(state).l2cpus, ..*old(state) }),
        list@.map_values(|s: Stopped| s.slot.idx) == booted(*old(state), 4),
        forall|k: int|
            0 <= k < list@.len() ==> sent_away(
                old(state).l2cpus@[(#[trigger] list@[k]).slot.idx as int]->0,
                list@[k],
                SHUTTING_DOWN@,
            ),
        final(gauge)@ == Seq::new(
            4,
            |j: int|
                if old(state).l2cpus@[j] is Some {
                    0i64
                } else {
                    old(gauge)@[j]
                },
        ),
{
    let mut list: Vec<Stopped> = Vec::new();
    let mut i: usize = 0;
    let ghost all = *state;
    let ghost shown = gauge@;
    while i < 4
        invariant
            i <= 4,
            shown == old(gauge)@,
            forall|j: int|
                0 <= j < 4 ==> #[trigger] gauge@[j] == if j < i && all.l2cpus@[j] is Some {
                    0
                } else {
                    shown[j]
                },
            all == *old(state),
            all.wf(),
            state.wf(),
            forall|j: int| 0 <= j < i ==> #[trigger] state.l2cpus@[j] is None,
            forall|j: int| i <= j < 4 ==> #[trigger] state.l2cpus@[j] == all.l2cpus@[j],
            *state == (DaemonState { l2cpus: state.l2cpus, ..all }),
            list@.map_values(|s: Stopped| s.slot.idx) == booted(all, i as nat),
            forall|k: int|
                0 <= k < list@.len() ==> sent_away(
                    all.l2cpus@[(#[trigger] list@[k]).slot.idx as int]->0,
                    list@[k],
                    SHUTTING_DOWN@,
                ),
        decreases 4 - i,
    {
        let ghost before = list@;
        proof {
            gauge.has_one_per_l2cpu();
        }
        match take_slot(state, i, SHUTTING_DOWN, gauge) {
            Some(s) => {
                proof {
                    assert(all.l2cpus@[i as int] is Some);
                    assert(all.l2cpus@[i as int]->0.wf_at(i as int));
                    assert(s.slot.idx == i);
                }
                list.push(s);
                assert(list@.map_values(|s: Stopped| s.slot.idx) =~= before.map_values(
                    |s: Stopped| s.slot.idx,
                ).push(i as u8));
            },
            None => {
                assert(all.l2cpus@[i as int] is None);
            },
        }
        i = i + 1;
    }
    proof {
        gauge.has_one_per_l2cpu();
    }
    assert(gauge@ =~= Seq::new(
        4,
        |j: int|
            if all.l2cpus@[j] is Some {
                0i64
            } else {
                shown[j]
            },
    ));
    list
}

} // verus!
