//! Booting an L2CPU: which way a request takes, what the core is started with, and the slot that
//! comes of it.
use vstd::prelude::*;
use vstd::string::*;

use crate::boot::{modify_dtb, BootDevice, VirtioMmioNode};
#[allow(unused_imports)]
use crate::boot::{bootargs, patched_bytes};
#[allow(unused_imports)]
use crate::boot_laws::{a_patched_blob_passes_the_check, fit_for_guest};
#[allow(unused_imports)]
use crate::daemon::counters::wrapped;
use crate::daemon::counters::PerL2cpuCounter;
use crate::daemon::protocol::{BootPayload, BootRequest};
use crate::daemon::purgatory::{
    classify_sibling, read_parked_release_meta, read_parked_state, trigger_force_park_if_available,
    ForcePark, ParkedReleaseMeta, PurgatoryCells, SiblingClassification,
};
#[allow(unused_imports)]
use crate::daemon::purgatory::{force_park, release_meta};
#[allow(unused_imports)]
use crate::daemon::server::{engine_slot, no_such_l2cpu, refused, string_text, Refusal};
use crate::daemon::server::{validate_l2cpu, Registration};
use crate::daemon::state::{DaemonState, DiskWorker, L2CpuSlot, VirtioConsoleSlot};
#[allow(unused_imports)]
use crate::error::is_io;
use crate::error::{Error, IoSource, Result};
#[allow(unused_imports)]
use crate::fdt::{fails_as, parse_dtb, Fault};
#[allow(unused_imports)]
use crate::fdt_tree::zeros;
use crate::loader::{boot_l2cpu, configure_prefetchers, read_bin_file, BootImages, BootStep};
#[allow(unused_imports)]
use crate::loader::{
    padded_image, prefetch_writes, slice_view, start_steps, step_views, StepView,
};
use crate::regs::{BootImageRegs, EngineRegs, L2cpuRegs, MemoryMap, PurgatoryRegs, VirtioRegs};
#[allow(unused_imports)]
use crate::text::dec;
use crate::text::push_dec;

verus! {

/// How long a core is given to park, in seconds.
pub const FORCE_PARK_TIMEOUT_SECS: u64 = 10;

/// What to do with the slot that a boot finds.
#[derive(Debug, PartialEq, Eq)]
pub enum BootSlotDecision {
    /// It is occupied, and was not to be forced.
    Reject(String),
    /// It is free.
    Proceed,
    /// It is occupied, and has to go first.
    TearDownAndProceed,
}

pub open spec fn already_booted(l2cpu: u8) -> Seq<char> {
    "l2cpu "@ + dec(l2cpu as nat) + " is already booted; stop it first, or re-run with --force"@
}

pub fn decide_boot_slot(slot_present: bool, force: bool, l2cpu_idx: u8) -> (d: BootSlotDecision)
    ensures
        !slot_present ==> d == BootSlotDecision::Proceed,
        slot_present && force ==> d == BootSlotDecision::TearDownAndProceed,
        slot_present && !force ==> (d matches BootSlotDecision::Reject(m) && m@ == already_booted(
            l2cpu_idx,
        )),
{
    if !slot_present {
        BootSlotDecision::Proceed
    } else if force {
        BootSlotDecision::TearDownAndProceed
    } else {
        let mut m: String = "l2cpu ".to_owned();
        push_dec(&mut m, l2cpu_idx as u64);
        m.append(" is already booted; stop it first, or re-run with --force");
        BootSlotDecision::Reject(m)
    }
}

/// What stands next to the L2CPU that boots.
#[derive(Clone, Copy, Debug, PartialEq, Eq, Structural)]
pub enum Sibling {
    /// Nothing that counts.
    Absent,
    Parked,
    Running,
}

/// What an L2CPU is to a boot of `target`.
pub open spec fn sibling_of(
    state: DaemonState,
    target: u8,
    statuses: Seq<Option<u64>>,
    regs: PurgatoryRegs,
    i: int,
) -> Sibling {
    if i == target || state.l2cpus@[i] is None {
        Sibling::Absent
    } else if statuses[i] == Some(regs.status_parked) {
        Sibling::Parked
    } else {
        Sibling::Running
    }
}

fn sibling(
    state: &DaemonState,
    target: u8,
    statuses: &[Option<u64>; 4],
    regs: &PurgatoryRegs,
    i: usize,
) -> (s: Sibling)
    requires
        i < 4,
    ensures
        s == sibling_of(*state, target, statuses@, *regs, i as int),
{
    if i == target as usize || state.l2cpus[i].is_none() {
        return Sibling::Absent;
    }
    match classify_sibling(statuses[i], regs) {
        SiblingClassification::Parked => Sibling::Parked,
        SiblingClassification::Running => Sibling::Running,
    }
}

/// What stands next to the L2CPU that boots. `statuses` are the status words that were read.
pub fn siblings(
    state: &DaemonState,
    target: u8,
    statuses: &[Option<u64>; 4],
    regs: &PurgatoryRegs,
) -> (s: [Sibling; 4])
    ensures
        forall|i: int|
            0 <= i < 4 ==> #[trigger] s@[i] == sibling_of(*state, target, statuses@, *regs, i),
{
    [
        sibling(state, target, statuses, regs, 0),
        sibling(state, target, statuses, regs, 1),
        sibling(state, target, statuses, regs, 2),
        sibling(state, target, statuses, regs, 3),
    ]
}

/// The board may be reset: no L2CPU runs that the reset would take the memory from.
pub open spec fn none_runs(s: Seq<Sibling>) -> bool {
    forall|i: int| 0 <= i < s.len() ==> #[trigger] s[i] != Sibling::Running
}

/// The L2CPUs to stop before the board is reset.
pub open spec fn to_drop(s: Seq<Sibling>) -> Seq<bool> {
    s.map_values(|x: Sibling| x == Sibling::Parked)
}

/// What to do about a board whose L2CPUs are in these states: nothing where one runs, and else a
/// reset, before which the parked ones are stopped.
pub fn maybe_opportunistic_reset_board(s: &[Sibling; 4]) -> (r: Option<[bool; 4]>)
    ensures
        match r {
            Some(dropped) => none_runs(s@) && dropped@ == to_drop(s@),
            None => !none_runs(s@),
        },
{
    let mut dropped: [bool; 4] = [false, false, false, false];
    let mut i: usize = 0;
    while i < 4
        invariant
            i <= 4,
            forall|k: int| 0 <= k < i ==> #[trigger] s@[k] != Sibling::Running,
            forall|k: int| 0 <= k < i ==> #[trigger] dropped@[k] == (s@[k] == Sibling::Parked),
        decreases 4 - i,
    {
        match s[i] {
            Sibling::Running => {
                assert(s@[i as int] == Sibling::Running);
                return None;
            },
            Sibling::Parked => {
                dropped[i] = true;
            },
            Sibling::Absent => {
                dropped[i] = false;
            },
        }
        i = i + 1;
    }
    assert(dropped@ =~= to_drop(s@));
    Some(dropped)
}

// ---------------------------------------------------------------------------
// The way a boot takes
// ---------------------------------------------------------------------------

/// Where a boot stands, and so what is to be done next.
#[derive(Debug)]
pub enum BootPhase {
    /// Read the status block of the L2CPU.
    ReadParked,
    /// Read it again, for what is needed to make the core park.
    ReadForcePark,
    /// Ask the core to park.
    FireForcePark(ForcePark),
    /// Read the status word, after a pause where it was read before.
    PollParked,
    /// Read the status block once more.
    ReadParkedAgain,
    /// Release the parked core; the boot ends with that.
    Release(ParkedReleaseMeta),
    /// Tear down the slot that is there.
    TearDown,
    /// Read the status words of the other L2CPUs.
    ReadSiblings,
    /// Stop these L2CPUs, then reset the board.
    ResetBoard([bool; 4]),
    /// Forget what the L2CPU printed last, and load it.
    Sequence,
    /// Start the console of the slot.
    MakeSlot,
    /// Register the devices.
    Register,
    /// Take the core out of reset.
    ReleaseReset,
    /// Put the slot in its place; the boot ends with that.
    Booted,
    Failed(BootFailure),
}

#[derive(Debug)]
pub enum BootFailure {
    /// The slot is occupied, and was not to be forced.
    Occupied,
    /// The request to park could not be written.
    ForcePark(IoSource),
    /// The interrupt that makes the core look at it could not be raised.
    ForceParkInterrupt(IoSource),
    ForceParkTimeout,
    ResetBoard(IoSource),
    Sequence(IoSource),
    MakeSlot(IoSource),
    ReleaseReset(Error),
}

/// What came of the last step of a boot.
#[derive(Debug)]
pub enum BootEvent {
    Cells(PurgatoryCells),
    /// The status word; `late` once the time for parking is over.
    Status { status: Option<u64>, late: bool },
    Siblings([Sibling; 4]),
    Done,
    /// The step failed.
    Failed(IoSource),
    /// The second of two writes failed.
    FailedSecond(IoSource),
    /// The step was refused.
    Refused(Error),
}

/// What a boot goes by.
#[derive(Clone, Copy, Debug, PartialEq, Eq, Structural)]
pub struct BootTarget {
    pub force: bool,
    /// Whether there was a slot when the boot began.
    pub occupied: bool,
}

/// The way of a boot that finds no parked core.
pub open spec fn cold_start(t: BootTarget) -> BootPhase {
    if !t.occupied {
        BootPhase::ReadSiblings
    } else if t.force {
        BootPhase::TearDown
    } else {
        BootPhase::Failed(BootFailure::Occupied)
    }
}

/// The first phase of a boot.
pub open spec fn first_phase(t: BootTarget) -> BootPhase {
    if t.occupied {
        BootPhase::ReadParked
    } else {
        BootPhase::ReadSiblings
    }
}

/// The next phase of a boot.
pub open spec fn boot_next(
    t: BootTarget,
    phase: BootPhase,
    event: BootEvent,
    regs: PurgatoryRegs,
) -> BootPhase {
    match (phase, event) {
        (BootPhase::ReadParked, BootEvent::Cells(cells)) => match release_meta(cells, regs) {
            Some(meta) => BootPhase::Release(meta),
            None => if t.force {
                BootPhase::ReadForcePark
            } else {
                cold_start(t)
            },
        },
        (BootPhase::ReadForcePark, BootEvent::Cells(cells)) => match force_park(cells) {
            Some(f) => BootPhase::FireForcePark(f),
            None => cold_start(t),
        },
        (BootPhase::FireForcePark(_), BootEvent::Done) => BootPhase::PollParked,
        (BootPhase::FireForcePark(_), BootEvent::Failed(source)) => BootPhase::Failed(
            BootFailure::ForcePark(source),
        ),
        (BootPhase::FireForcePark(_), BootEvent::FailedSecond(source)) => BootPhase::Failed(
            BootFailure::ForceParkInterrupt(source),
        ),
        (BootPhase::PollParked, BootEvent::Status { status, late }) => if status == Some(
            regs.status_parked,
        ) {
            BootPhase::ReadParkedAgain
        } else if late {
            BootPhase::Failed(BootFailure::ForceParkTimeout)
        } else {
            BootPhase::PollParked
        },
        (BootPhase::ReadParkedAgain, BootEvent::Cells(cells)) => match release_meta(cells, regs) {
            Some(meta) => BootPhase::Release(meta),
            None => cold_start(t),
        },
        (BootPhase::TearDown, BootEvent::Done) => BootPhase::ReadSiblings,
        (BootPhase::ReadSiblings, BootEvent::Siblings(s)) => if none_runs(s@) {
            BootPhase::ResetBoard(dropped_array(s))
        } else {
            BootPhase::Sequence
        },
        (BootPhase::ResetBoard(_), BootEvent::Done) => BootPhase::Sequence,
        (BootPhase::ResetBoard(_), BootEvent::Failed(source)) => BootPhase::Failed(
            BootFailure::ResetBoard(source),
        ),
        (BootPhase::Sequence, BootEvent::Done) => BootPhase::MakeSlot,
        (BootPhase::Sequence, BootEvent::Failed(source)) => BootPhase::Failed(
            BootFailure::Sequence(source),
        ),
        (BootPhase::MakeSlot, BootEvent::Done) => BootPhase::Register,
        (BootPhase::MakeSlot, BootEvent::Failed(source)) => BootPhase::Failed(
            BootFailure::MakeSlot(source),
        ),
        (BootPhase::Register, BootEvent::Done) => BootPhase::ReleaseReset,
        (BootPhase::ReleaseReset, BootEvent::Done) => BootPhase::Booted,
        (BootPhase::ReleaseReset, BootEvent::Refused(e)) => BootPhase::Failed(
            BootFailure::ReleaseReset(e),
        ),
        _ => phase,
    }
}

/// The L2CPUs to stop, as an array.
pub open spec fn dropped_array(s: [Sibling; 4]) -> [bool; 4] {
    [
        s@[0] == Sibling::Parked,
        s@[1] == Sibling::Parked,
        s@[2] == Sibling::Parked,
        s@[3] == Sibling::Parked,
    ]
}

fn cold_path(t: BootTarget, l2cpu: u8) -> (next: BootPhase)
    ensures
        next == cold_start(t),
{
    match decide_boot_slot(t.occupied, t.force, l2cpu) {
        BootSlotDecision::Proceed => BootPhase::ReadSiblings,
        BootSlotDecision::TearDownAndProceed => BootPhase::TearDown,
        BootSlotDecision::Reject(_) => BootPhase::Failed(BootFailure::Occupied),
    }
}

/// Why a boot is refused before anything is touched.
pub open spec fn boot_refusal(req: BootRequest) -> Option<Refusal> {
    if req.payload is Uboot && req.initramfs is Some {
        Some(
            Refusal::BadRequest(
                "--initramfs is not supported in --uboot mode (U-Boot loads initrd from disk)"@,
            ),
        )
    } else if req.l2cpu >= 4 {
        Some(no_such_l2cpu())
    } else {
        None
    }
}

/// Begins a boot.
pub fn begin_boot(state: &DaemonState, req: &BootRequest) -> (r: Result<(BootTarget, BootPhase)>)
    ensures
        match boot_refusal(*req) {
            Some(f) => refused(r, f),
            None => r matches Ok(begun) && begun.0.force == req.force && begun.0.occupied
                == state.l2cpus@[req.l2cpu as int] is Some && begun.1 == first_phase(begun.0),
        },
{
    if req.payload.is_uboot() && req.initramfs.is_some() {
        return Err(
            Error::bad_request(
                "--initramfs is not supported in --uboot mode (U-Boot loads initrd from disk)",
            ),
        );
    }
    let i: usize = match validate_l2cpu(req.l2cpu) {
        Ok(i) => i,
        Err(e) => {
            return Err(e);
        },
    };
    let t: BootTarget = BootTarget { force: req.force, occupied: state.l2cpus[i].is_some() };
    if t.occupied {
        Ok((t, BootPhase::ReadParked))
    } else {
        Ok((t, BootPhase::ReadSiblings))
    }
}

/// Takes a boot one step further.
pub fn dispatch_boot(
    t: BootTarget,
    l2cpu: u8,
    phase: BootPhase,
    event: BootEvent,
    regs: &PurgatoryRegs,
) -> (next: BootPhase)
    ensures
        next == boot_next(t, phase, event, *regs),
{
    match (phase, event) {
        (BootPhase::ReadParked, BootEvent::Cells(cells)) => {
            match read_parked_release_meta(&cells, regs) {
                Some(meta) => BootPhase::Release(meta),
                None => if t.force {
                    BootPhase::ReadForcePark
                } else {
                    cold_path(t, l2cpu)
                },
            }
        },
        (BootPhase::ReadForcePark, BootEvent::Cells(cells)) => {
            match trigger_force_park_if_available(&cells) {
                Some(f) => BootPhase::FireForcePark(f),
                None => cold_path(t, l2cpu),
            }
        },
        (BootPhase::FireForcePark(_), BootEvent::Done) => BootPhase::PollParked,
        (BootPhase::FireForcePark(_), BootEvent::Failed(source)) => BootPhase::Failed(
            BootFailure::ForcePark(source),
        ),
        (BootPhase::FireForcePark(_), BootEvent::FailedSecond(source)) => BootPhase::Failed(
            BootFailure::ForceParkInterrupt(source),
        ),
        (BootPhase::PollParked, BootEvent::Status { status, late }) => {
            if read_parked_state(status, regs) {
                BootPhase::ReadParkedAgain
            } else if late {
                BootPhase::Failed(BootFailure::ForceParkTimeout)
            } else {
                BootPhase::PollParked
            }
        },
        (BootPhase::ReadParkedAgain, BootEvent::Cells(cells)) => {
            match read_parked_release_meta(&cells, regs) {
                Some(meta) => BootPhase::Release(meta),
                None => cold_path(t, l2cpu),
            }
        },
        (BootPhase::TearDown, BootEvent::Done) => BootPhase::ReadSiblings,
        (BootPhase::ReadSiblings, BootEvent::Siblings(s)) => {
            match maybe_opportunistic_reset_board(&s) {
                Some(dropped) => {
                    let list: [bool; 4] = [dropped[0], dropped[1], dropped[2], dropped[3]];
                    proof {
                        assert(dropped@[0] == to_drop(s@)[0]);
                        assert(dropped@[1] == to_drop(s@)[1]);
                        assert(dropped@[2] == to_drop(s@)[2]);
                        assert(dropped@[3] == to_drop(s@)[3]);
                        assert(list == dropped_array(s));
                    }
                    BootPhase::ResetBoard(list)
                },
                None => BootPhase::Sequence,
            }
        },
        (BootPhase::ResetBoard(_), BootEvent::Done) => BootPhase::Sequence,
        (BootPhase::ResetBoard(_), BootEvent::Failed(source)) => BootPhase::Failed(
            BootFailure::ResetBoard(source),
        ),
        (BootPhase::Sequence, BootEvent::Done) => BootPhase::MakeSlot,
        (BootPhase::Sequence, BootEvent::Failed(source)) => BootPhase::Failed(
            BootFailure::Sequence(source),
        ),
        (BootPhase::MakeSlot, BootEvent::Done) => BootPhase::Register,
        (BootPhase::MakeSlot, BootEvent::Failed(source)) => BootPhase::Failed(
            BootFailure::MakeSlot(source),
        ),
        (BootPhase::Register, BootEvent::Done) => BootPhase::ReleaseReset,
        (BootPhase::ReleaseReset, BootEvent::Done) => BootPhase::Booted,
        (BootPhase::ReleaseReset, BootEvent::Refused(e)) => BootPhase::Failed(
            BootFailure::ReleaseReset(e),
        ),
        (phase, _) => phase,
    }
}

/// What a core that does not park is reported as.
pub open spec fn force_park_timeout(l2cpu: u8) -> Seq<char> {
    "force-park l2cpu "@ + dec(l2cpu as nat) + ": PARKED magic not seen within "@ + dec(
        FORCE_PARK_TIMEOUT_SECS as nat,
    ) + "s after firing IPI"@
}

/// The error of a boot that failed.
pub fn boot_error(failure: BootFailure, l2cpu: u8) -> (e: Error)
    ensures
        match failure {
            BootFailure::Occupied => e matches Error::SlotState(m) && m@ == already_booted(l2cpu),
            BootFailure::ForcePark(source) => is_io(e, "write force-park request bit"@, source),
            BootFailure::ForceParkInterrupt(source) => is_io(
                e,
                "write CLINT MSIP for force-park"@,
                source,
            ),
            BootFailure::ForceParkTimeout => e matches Error::Internal(m) && m@
                == force_park_timeout(l2cpu),
            BootFailure::ResetBoard(source) => is_io(e, "opportunistic reset_board"@, source),
            BootFailure::Sequence(source) => is_io(e, "boot failed"@, source),
            BootFailure::MakeSlot(source) => is_io(e, "post-boot L2Cpu init failed"@, source),
            BootFailure::ReleaseReset(inner) => e == inner,
        },
{
    match failure {
        BootFailure::Occupied => {
            match decide_boot_slot(true, false, l2cpu) {
                BootSlotDecision::Reject(m) => Error::SlotState(m),
                _ => Error::slot_state(""),
            }
        },
        BootFailure::ForcePark(source) => Error::io_ctx("write force-park request bit", source),
        BootFailure::ForceParkInterrupt(source) => Error::io_ctx(
            "write CLINT MSIP for force-park",
            source,
        ),
        BootFailure::ForceParkTimeout => {
            let mut m: String = "force-park l2cpu ".to_owned();
            push_dec(&mut m, l2cpu as u64);
            m.append(": PARKED magic not seen within ");
            push_dec(&mut m, FORCE_PARK_TIMEOUT_SECS);
            m.append("s after firing IPI");
            Error::Internal(m)
        },
        BootFailure::ResetBoard(source) => Error::io_ctx("opportunistic reset_board", source),
        BootFailure::Sequence(source) => Error::io_ctx("boot failed", source),
        BootFailure::MakeSlot(source) => Error::io_ctx("post-boot L2Cpu init failed", source),
        BootFailure::ReleaseReset(inner) => inner,
    }
}

// ---------------------------------------------------------------------------
// What a core is started with
// ---------------------------------------------------------------------------

/// The step in which memory is given to a guest.
pub const MEMORY_STEP: u64 = 0x20_0000;

/// The memory of a guest: what was asked for, in whole steps, as far as there is any.
pub open spec fn guest_memory(asked: Option<u64>, physical: u64) -> u64 {
    match asked {
        None => physical,
        Some(n) => {
            let whole = (n - n % MEMORY_STEP) as u64;
            if whole < physical {
                whole
            } else {
                physical
            }
        },
    }
}

pub fn memory_size(asked: Option<u64>, physical: u64) -> (n: u64)
    ensures
        n == guest_memory(asked, physical),
        n <= physical,
        asked is None ==> n == physical,
        asked matches Some(req) ==> {
            &&& n <= req
            &&& n == physical || n % 0x20_0000 == 0 && req - n < 0x20_0000
            &&& req - req % 0x20_0000 >= physical ==> n == physical
        },
{
    match asked {
        None => physical,
        Some(req) => {
            let whole: u64 = req - req % MEMORY_STEP;
            if whole < physical {
                whole
            } else {
                physical
            }
        },
    }
}

/// What the root file system comes from.
pub open spec fn is_boot_device(
    d: BootDevice,
    req: BootRequest,
    initramfs_len: Option<u64>,
    rootfs_addr: u64,
) -> bool {
    if req.payload is Uboot {
        d is Uboot
    } else {
        match (initramfs_len, req.disk is Some) {
            (Some(n), true) => d matches BootDevice::InitramfsAndVda { addr, len, dev } && addr
                == rootfs_addr && len == n && dev@ == req.root_device@,
            (Some(n), false) => d == (BootDevice::Initramfs { addr: rootfs_addr, len: n }),
            (None, _) => d matches BootDevice::Vda(dev) && dev@ == req.root_device@,
        }
    }
}

/// The node of a device whose registers stand at this place in the window of an L2CPU.
pub open spec fn device_node(base: u64, dev: u32, irq: u32, engine: EngineRegs) -> VirtioMmioNode {
    VirtioMmioNode {
        addr: (base + dev * engine.regs_per_dev) as u64,
        size: engine.regs_per_dev as u64,
        irq,
    }
}

/// The node of a device, if it is wanted.
pub open spec fn wanted_node(
    wanted: bool,
    base: u64,
    dev: u32,
    irq: u32,
    engine: EngineRegs,
) -> Seq<VirtioMmioNode> {
    if wanted {
        seq![device_node(base, dev, irq, engine)]
    } else {
        Seq::empty()
    }
}

/// The nodes of the devices of a guest, in the order in which the guest finds them: disk, network,
/// console, entropy, seed.
pub open spec fn device_nodes(
    req: BootRequest,
    base: u64,
    engine: EngineRegs,
    virtio: VirtioRegs,
) -> Seq<VirtioMmioNode> {
    wanted_node(req.disk is Some, base, engine.dev_blk, virtio.disk_irq, engine) + wanted_node(
        req.network,
        base,
        engine.dev_net,
        virtio.net_irq,
        engine,
    ) + wanted_node(req.console, base, engine.dev_console, virtio.console_irq, engine)
        + wanted_node(req.rng, base, engine.dev_rng, virtio.rng_irq, engine) + wanted_node(
        req.cloud_init is Some,
        base,
        engine.dev_blk1,
        virtio.disk1_irq,
        engine,
    )
}

/// Whether a guest has a device that the host serves.
pub open spec fn any_device(req: BootRequest) -> bool {
    req.rng || req.network || req.disk is Some || req.console || req.cloud_init is Some
}

pub fn needs_engine(req: &BootRequest) -> (r: bool)
    ensures
        r == any_device(*req),
{
    req.rng || req.network || req.disk.is_some() || req.console || req.cloud_init.is_some()
}

fn emit(
    nodes: &mut Vec<VirtioMmioNode>,
    wanted: bool,
    base: u64,
    dev: u32,
    irq: u32,
    engine: &EngineRegs,
)
    requires
        engine.wf(),
        dev < engine.devs_per_l2cpu,
        base + engine.devs_per_l2cpu * engine.regs_per_dev <= u64::MAX,
    ensures
        final(nodes)@ == old(nodes)@ + wanted_node(wanted, base, dev, irq, *engine),
{
    if wanted {
        assert(dev * engine.regs_per_dev <= engine.devs_per_l2cpu * engine.regs_per_dev
            && dev * engine.regs_per_dev <= u32::MAX * u32::MAX) by (nonlinear_arith)
            requires
                dev < engine.devs_per_l2cpu,
                engine.regs_per_dev >= 0,
        ;
        let addr: u64 = base + dev as u64 * engine.regs_per_dev as u64;
        nodes.push(VirtioMmioNode { addr, size: engine.regs_per_dev as u64, irq });
        assert(nodes@ =~= old(nodes)@ + wanted_node(wanted, base, dev, irq, *engine));
    } else {
        assert(nodes@ =~= old(nodes)@ + wanted_node(wanted, base, dev, irq, *engine));
    }
}

/// What a core is started with.
pub struct BootPlan {
    pub mem_start: u64,
    pub memory_size: u64,
    pub opensbi_addr: u64,
    pub kernel_addr: u64,
    pub dtb_addr: u64,
    pub rootfs_addr: u64,
    pub device: BootDevice,
    pub nodes: Vec<VirtioMmioNode>,
    /// The register through which the guest powers itself off.
    pub shutdown_addr: Option<u64>,
}

/// What a core is started with for a request.
pub open spec fn is_plan(
    plan: BootPlan,
    req: BootRequest,
    initramfs_len: Option<u64>,
    window: Option<u64>,
    soft_reboot: bool,
    map: MemoryMap,
    images: BootImageRegs,
    engine: EngineRegs,
    virtio: VirtioRegs,
) -> bool {
    let start = map.starting_address@[req.l2cpu as int];
    &&& plan.mem_start == start
    &&& plan.memory_size == guest_memory(
        req.memory_override,
        map.memory_size@[req.l2cpu as int],
    )
    &&& plan.opensbi_addr == start + images.opensbi_offset
    &&& plan.kernel_addr == start + images.kernel_offset
    &&& plan.dtb_addr == start + images.dtb_offset
    &&& plan.rootfs_addr == start + images.initramfs_offset
    &&& is_boot_device(plan.device, req, initramfs_len, plan.rootfs_addr)
    &&& plan.nodes@ == match window {
        Some(base) => device_nodes(req, base, engine, virtio),
        None => Seq::<VirtioMmioNode>::empty(),
    }
    &&& plan.shutdown_addr == match window {
        Some(base) => if soft_reboot {
            None
        } else {
            Some((base + engine.shutdown_offset) as u64)
        },
        None => None,
    }
}

/// Plans the boot of an L2CPU. `initramfs_len` is the length of the initial file system that was
/// read, `window` the address of the engine's registers where the guest has a device on it, and
/// `soft_reboot` leaves the register for powering off out.
pub fn run_boot_sequence(
    req: &BootRequest,
    initramfs_len: Option<u64>,
    window: Option<u64>,
    soft_reboot: bool,
    map: &MemoryMap,
    images: &BootImageRegs,
    engine: &EngineRegs,
    virtio: &VirtioRegs,
) -> (plan: BootPlan)
    requires
        req.l2cpu < 4,
        engine.wf(),
        map.starting_address@[req.l2cpu as int] + images.opensbi_offset <= u64::MAX,
        map.starting_address@[req.l2cpu as int] + images.kernel_offset <= u64::MAX,
        map.starting_address@[req.l2cpu as int] + images.dtb_offset <= u64::MAX,
        map.starting_address@[req.l2cpu as int] + images.initramfs_offset <= u64::MAX,
        window matches Some(base) ==> base + engine.devs_per_l2cpu * engine.regs_per_dev <= u64::MAX
            && base + engine.shutdown_offset <= u64::MAX,
    ensures
        is_plan(plan, *req, initramfs_len, window, soft_reboot, *map, *images, *engine, *virtio),
{
    let i: usize = req.l2cpu as usize;
    let start: u64 = map.starting_address[i];
    let rootfs_addr: u64 = start + images.initramfs_offset;
    let device: BootDevice = if req.payload.is_uboot() {
        BootDevice::Uboot
    } else {
        match initramfs_len {
            Some(len) => if req.disk.is_some() {
                BootDevice::InitramfsAndVda { addr: rootfs_addr, len, dev: req.root_device.clone() }
            } else {
                BootDevice::Initramfs { addr: rootfs_addr, len }
            },
            None => BootDevice::Vda(req.root_device.clone()),
        }
    };
    let mut nodes: Vec<VirtioMmioNode> = Vec::new();
    let mut shutdown_addr: Option<u64> = None;
    match window {
        Some(base) => {
            emit(&mut nodes, req.disk.is_some(), base, engine.dev_blk, virtio.disk_irq, engine);
            emit(&mut nodes, req.network, base, engine.dev_net, virtio.net_irq, engine);
            emit(&mut nodes, req.console, base, engine.dev_console, virtio.console_irq, engine);
            emit(&mut nodes, req.rng, base, engine.dev_rng, virtio.rng_irq, engine);
            emit(
                &mut nodes,
                req.cloud_init.is_some(),
                base,
                engine.dev_blk1,
                virtio.disk1_irq,
                engine,
            );
            assert(nodes@ =~= device_nodes(*req, base, *engine, *virtio));
            if !soft_reboot {
                shutdown_addr = Some(base + engine.shutdown_offset);
            }
        },
        None => {},
    }
    BootPlan {
        mem_start: start,
        memory_size: memory_size(req.memory_override, map.memory_size[i]),
        opensbi_addr: start + images.opensbi_offset,
        kernel_addr: start + images.kernel_offset,
        dtb_addr: start + images.dtb_offset,
        rootfs_addr,
        device,
        nodes,
        shutdown_addr,
    }
}

/// What the files that a request names hold.
pub struct BootFiles<'a> {
    pub dtb: &'a [u8],
    pub opensbi: &'a [u8],
    /// The kernel, or the boot loader.
    pub payload: &'a [u8],
    pub initramfs: Option<&'a [u8]>,
}

/// What a board is, as far as a boot goes by it.
#[derive(Clone, Copy)]
pub struct BootBoard {
    pub map: MemoryMap,
    pub images: BootImageRegs,
    pub engine: EngineRegs,
    pub virtio: VirtioRegs,
    pub purgatory: PurgatoryRegs,
    pub l2cpu: L2cpuRegs,
}

impl BootBoard {
    /// The addresses of the board fit their registers, and the guest's memory has room for what is
    /// reserved in it.
    pub open spec fn fits(&self, req: BootRequest, window: Option<u64>) -> bool {
        let i = req.l2cpu as int;
        let start = self.map.starting_address@[i];
        let end = start + guest_memory(req.memory_override, self.map.memory_size@[i]);
        &&& self.engine.wf()
        &&& start + self.images.opensbi_offset <= u64::MAX
        &&& start + self.images.kernel_offset <= u64::MAX
        &&& start + self.images.dtb_offset <= u64::MAX
        &&& start + self.images.initramfs_offset <= u64::MAX
        &&& start + self.purgatory.status_offset <= u64::MAX
        &&& self.virtio.reserved_size <= end <= u64::MAX
        &&& self.l2cpu.l3_ctrl_base + self.l2cpu.l3_enable_offset <= u64::MAX
        &&& self.l2cpu.control_base + 28 <= u64::MAX
        &&& match window {
            Some(base) => base + self.engine.devs_per_l2cpu * self.engine.regs_per_dev <= u64::MAX
                && base + self.engine.shutdown_offset <= u64::MAX,
            None => true,
        }
    }
}

/// The length of the initial file system once it was filled up, where there is one.
pub open spec fn initramfs_len(files: BootFiles) -> Option<u64> {
    match files.initramfs {
        Some(b) => Some(padded_image(b@).len() as u64),
        None => None,
    }
}

/// The device tree that a guest gets by a plan: the one of the file, patched with the planned
/// memory, root and devices.
pub open spec fn planned_tree(
    plan: BootPlan,
    req: BootRequest,
    dtb: Seq<u8>,
    board: BootBoard,
) -> core::result::Result<Seq<u8>, Fault> {
    patched_bytes(
        padded_image(dtb),
        plan.device,
        plan.mem_start,
        plan.memory_size,
        plan.nodes@,
        None,
        req.console,
        board.virtio,
        board.purgatory,
    )
}

/// Everything that starts an L2CPU by a plan, with this device tree.
pub open spec fn planned_steps(
    plan: BootPlan,
    files: BootFiles,
    tree: Seq<u8>,
    regs: L2cpuRegs,
) -> Seq<StepView> {
    start_steps(
        regs,
        files.opensbi@,
        plan.opensbi_addr,
        Some(files.payload@),
        plan.kernel_addr,
        tree,
        plan.dtb_addr,
        slice_view(files.initramfs),
        plan.rootfs_addr,
    )
}

/// Two plans for one request patch a device tree alike.
proof fn lemma_one_plan(
    a: BootPlan,
    b: BootPlan,
    req: BootRequest,
    len: Option<u64>,
    window: Option<u64>,
    soft_reboot: bool,
    dtb: Seq<u8>,
    board: BootBoard,
)
    requires
        is_plan(
            a,
            req,
            len,
            window,
            soft_reboot,
            board.map,
            board.images,
            board.engine,
            board.virtio,
        ),
        is_plan(
            b,
            req,
            len,
            window,
            soft_reboot,
            board.map,
            board.images,
            board.engine,
            board.virtio,
        ),
    ensures
        planned_tree(a, req, dtb, board) == planned_tree(b, req, dtb, board),
{
    assert(bootargs(a.device, req.console) == bootargs(b.device, req.console));
}

/// The steps that load an L2CPU with what a request names. The device tree that is loaded is the
/// one of the file, patched with the memory, the root and the devices that were planned; where it
/// cannot be patched there are no steps.
pub fn boot_sequence_steps(
    req: &BootRequest,
    files: &BootFiles,
    window: Option<u64>,
    soft_reboot: bool,
    board: &BootBoard,
) -> (r: Result<Vec<BootStep>>)
    requires
        req.l2cpu < 4,
        board.fits(*req, window),
        files.dtb@.len() + 2003 <= usize::MAX,
    ensures
        exists|plan: BootPlan| #[trigger]
            is_plan(
                plan,
                *req,
                initramfs_len(*files),
                window,
                soft_reboot,
                board.map,
                board.images,
                board.engine,
                board.virtio,
            ),
        forall|plan: BootPlan| #[trigger]
            is_plan(
                plan,
                *req,
                initramfs_len(*files),
                window,
                soft_reboot,
                board.map,
                board.images,
                board.engine,
                board.virtio,
            ) ==> match planned_tree(plan, *req, files.dtb@, *board) {
                Ok(tree) => r matches Ok(steps) && step_views(steps@) == planned_steps(
                    plan,
                    *files,
                    tree,
                    board.l2cpu,
                ),
                Err(f) => fails_as(r, f),
            },
{
    let len: Option<u64> = match files.initramfs {
        Some(b) => Some(read_bin_file(b).len() as u64),
        None => None,
    };
    let plan: BootPlan = run_boot_sequence(
        req,
        len,
        window,
        soft_reboot,
        &board.map,
        &board.images,
        &board.engine,
        &board.virtio,
    );
    let dtb: Vec<u8> = read_bin_file(files.dtb);
    let r: Result<Vec<u8>> = modify_dtb(
        dtb.as_slice(),
        &plan.device,
        plan.mem_start,
        plan.memory_size,
        plan.nodes.as_slice(),
        None,
        req.console,
        &board.virtio,
        &board.purgatory,
    );
    proof {
        assert forall|p: BootPlan| #[trigger]
            is_plan(
                p,
                *req,
                initramfs_len(*files),
                window,
                soft_reboot,
                board.map,
                board.images,
                board.engine,
                board.virtio,
            ) implies planned_tree(p, *req, files.dtb@, *board) == planned_tree(
            plan,
            *req,
            files.dtb@,
            *board,
        ) by {
            lemma_one_plan(
                p,
                plan,
                *req,
                initramfs_len(*files),
                window,
                soft_reboot,
                files.dtb@,
                *board,
            );
        }
    }
    match r {
        Ok(tree) => Ok(
            boot_l2cpu(
                &board.l2cpu,
                &BootImages {
                    opensbi: files.opensbi,
                    opensbi_addr: plan.opensbi_addr,
                    kernel: Some(files.payload),
                    kernel_addr: plan.kernel_addr,
                    dtb: tree.as_slice(),
                    dtb_addr: plan.dtb_addr,
                    rootfs: files.initramfs,
                    rootfs_addr: plan.rootfs_addr,
                },
            ),
        ),
        Err(e) => Err(e),
    }
}

/// A device tree that is loaded carries the planned memory, the planned root and the planned
/// devices.
pub proof fn a_loaded_tree_is_as_planned(plan: BootPlan, req: BootRequest, dtb: Seq<u8>, board: BootBoard)
    requires
        plan.mem_start + plan.memory_size <= u64::MAX,
        plan.mem_start + board.purgatory.status_offset <= u64::MAX,
    ensures
        planned_tree(plan, req, dtb, board) matches Ok(tree) ==> {
            &&& parse_dtb(tree) is Ok
            &&& fit_for_guest(
                parse_dtb(tree)->Ok_0,
                parse_dtb(padded_image(dtb) + zeros(2000))->Ok_0,
                plan.device,
                plan.mem_start,
                plan.memory_size,
                plan.nodes@,
                None,
                req.console,
                board.virtio,
                board.purgatory,
            )
        },
{
    a_patched_blob_passes_the_check(
        padded_image(dtb),
        plan.device,
        plan.mem_start,
        plan.memory_size,
        plan.nodes@,
        None,
        req.console,
        board.virtio,
        board.purgatory,
    );
}

/// A step of taking a core out of reset.
#[derive(Clone, Copy, Debug, PartialEq, Eq, Structural)]
pub enum ResetStep {
    /// Write this word into the memory of the core, whatever comes of it.
    Try(u64, u32),
    /// Take the core out of reset.
    Release,
    /// Write this word into a register of the core.
    Write(u64, u32),
}

/// The steps that take a core out of reset: its status word is cleared first, so that nothing is
/// read into what memory holds after power-up, and its prefetchers are set up last.
pub open spec fn reset_steps(status_pa: u64, l2cpu: L2cpuRegs) -> Seq<ResetStep> {
    seq![
        ResetStep::Try(status_pa, 0),
        ResetStep::Try((status_pa + 4) as u64, 0),
        ResetStep::Release,
    ] + prefetch_writes(
        l2cpu,
        l2cpu.l2_prefetch_num as nat,
    ).map_values(|w: (u64, u32)| ResetStep::Write(w.0, w.1))
}

pub fn release_l2cpu_from_reset(
    mem_start: u64,
    purgatory: &PurgatoryRegs,
    l2cpu: &L2cpuRegs,
) -> (steps: Vec<ResetStep>)
    requires
        mem_start + purgatory.status_offset + 4 <= u64::MAX,
        l2cpu.l2_prefetch_base + l2cpu.l2_prefetch_num * l2cpu.l2_prefetch_stride + 4 <= u64::MAX,
    ensures
        steps@ == reset_steps((mem_start + purgatory.status_offset) as u64, *l2cpu),
{
    let status_pa: u64 = mem_start + purgatory.status_offset;
    let mut steps: Vec<ResetStep> = Vec::new();
    steps.push(ResetStep::Try(status_pa, 0));
    steps.push(ResetStep::Try(status_pa + 4, 0));
    steps.push(ResetStep::Release);
    let writes: Vec<(u64, u32)> = configure_prefetchers(l2cpu);
    let ghost head = steps@;
    let ghost step = |w: (u64, u32)| ResetStep::Write(w.0, w.1);
    let mut i: usize = 0;
    while i < writes.len()
        invariant
            i <= writes@.len(),
            step == |w: (u64, u32)| ResetStep::Write(w.0, w.1),
            steps@ == head + writes@.take(i as int).map_values(step),
        decreases writes@.len() - i,
    {
        steps.push(ResetStep::Write(writes[i].0, writes[i].1));
        i = i + 1;
        assert(steps@ =~= head + writes@.take(i as int).map_values(step));
    }
    assert(writes@.take(i as int) =~= writes@);
    assert(steps@ =~= reset_steps(status_pa, *l2cpu));
    steps
}

/// A guest never gets more memory than there is, nor more than was asked for, and what it gets of a
/// request is a whole number of steps unless it is everything.
pub proof fn guest_memory_is_bounded(asked: Option<u64>, physical: u64)
    ensures
        guest_memory(asked, physical) <= physical,
        asked matches Some(n) ==> guest_memory(asked, physical) <= n,
        asked is Some ==> guest_memory(asked, physical) % MEMORY_STEP == 0 || guest_memory(
            asked,
            physical,
        ) == physical,
{
}

/// A guest that asks for nothing gets everything. One that asks for an amount gets the largest
/// multiple of 2 MiB that is neither more than it asked for nor more than there is; where the
/// multiple would be all there is or more, it gets all there is.
pub proof fn a_guest_gets_what_it_asked_for_in_whole_steps(asked: Option<u64>, physical: u64)
    ensures
        asked is None ==> guest_memory(asked, physical) == physical,
        asked matches Some(n) ==> {
            let given = guest_memory(asked, physical);
            &&& given <= n
            &&& given <= physical
            &&& n <= physical ==> n - given < 0x20_0000 && (given % 0x20_0000 == 0 || given == n)
            &&& n - n % 0x20_0000 >= physical ==> given == physical
            &&& n - n % 0x20_0000 < physical ==> given % 0x20_0000 == 0 && n - given < 0x20_0000
            &&& forall|m: u64|
                #![trigger m % 0x20_0000]
                m % 0x20_0000 == 0 && m <= n && m <= physical ==> m <= given
        },
{
}

// ---------------------------------------------------------------------------
// The slot that comes of a boot
// ---------------------------------------------------------------------------

/// A device that a boot registers.
#[derive(Clone, Copy, Debug, PartialEq, Eq, Structural)]
pub enum BootDeviceKind {
    Rng,
    Disk,
    Seed,
    Net,
    Console,
}

/// A device of a kind, if it is wanted.
pub open spec fn wanted_kind(wanted: bool, kind: BootDeviceKind) -> Seq<BootDeviceKind> {
    if wanted {
        seq![kind]
    } else {
        Seq::empty()
    }
}

/// The devices that a boot registers, in order.
pub open spec fn device_kinds(req: BootRequest) -> Seq<BootDeviceKind> {
    wanted_kind(req.rng, BootDeviceKind::Rng) + wanted_kind(
        req.disk is Some,
        BootDeviceKind::Disk,
    ) + wanted_kind(req.cloud_init is Some, BootDeviceKind::Seed) + wanted_kind(
        req.network,
        BootDeviceKind::Net,
    ) + wanted_kind(req.console, BootDeviceKind::Console)
}

fn push_kind(list: &mut Vec<BootDeviceKind>, wanted: bool, kind: BootDeviceKind)
    ensures
        final(list)@ == old(list)@ + wanted_kind(wanted, kind),
{
    if wanted {
        list.push(kind);
    }
    assert(list@ =~= old(list)@ + wanted_kind(wanted, kind));
}

/// The devices to register for a boot.
pub fn devices_to_register(req: &BootRequest) -> (list: Vec<BootDeviceKind>)
    ensures
        list@ == device_kinds(*req),
{
    let mut list: Vec<BootDeviceKind> = Vec::new();
    push_kind(&mut list, req.rng, BootDeviceKind::Rng);
    push_kind(&mut list, req.disk.is_some(), BootDeviceKind::Disk);
    push_kind(&mut list, req.cloud_init.is_some(), BootDeviceKind::Seed);
    push_kind(&mut list, req.network, BootDeviceKind::Net);
    push_kind(&mut list, req.console, BootDeviceKind::Console);
    assert(list@ =~= device_kinds(*req));
    list
}

/// The device number and the interrupt of a kind.
pub open spec fn kind_numbers(kind: BootDeviceKind, engine: EngineRegs, virtio: VirtioRegs) -> (
    u32,
    u32,
) {
    match kind {
        BootDeviceKind::Rng => (engine.dev_rng, virtio.rng_irq),
        BootDeviceKind::Disk => (engine.dev_blk, virtio.disk_irq),
        BootDeviceKind::Seed => (engine.dev_blk1, virtio.disk1_irq),
        BootDeviceKind::Net => (engine.dev_net, virtio.net_irq),
        BootDeviceKind::Console => (engine.dev_console, virtio.console_irq),
    }
}

/// Where a device of a boot is registered.
pub fn registration(
    l2cpu: u8,
    kind: BootDeviceKind,
    engine: &EngineRegs,
    virtio: &VirtioRegs,
) -> (r: Registration)
    requires
        l2cpu < 4,
        engine.wf(),
    ensures
        r.slot_idx == engine_slot(
            l2cpu as int,
            kind_numbers(kind, *engine, *virtio).0 as int,
            *engine,
        ),
        r.irq == kind_numbers(kind, *engine, *virtio).1,
{
    let (dev, irq): (u32, u32) = match kind {
        BootDeviceKind::Rng => (engine.dev_rng, virtio.rng_irq),
        BootDeviceKind::Disk => (engine.dev_blk, virtio.disk_irq),
        BootDeviceKind::Seed => (engine.dev_blk1, virtio.disk1_irq),
        BootDeviceKind::Net => (engine.dev_net, virtio.net_irq),
        BootDeviceKind::Console => (engine.dev_console, virtio.console_irq),
    };
    assert(l2cpu * engine.devs_per_l2cpu <= 3 * engine.devs_per_l2cpu) by (nonlinear_arith)
        requires
            l2cpu <= 3,
            engine.devs_per_l2cpu >= 0,
    ;
    Registration { slot_idx: l2cpu as u32 * engine.devs_per_l2cpu + dev, irq }
}

/// The name of a seed disk, by which the guest finds it.
pub const SEED_NAME: &'static str = "cidata";

/// A disk of a slot.
pub open spec fn is_disk(d: DiskWorker, path: Seq<char>, slot_idx: int, name: Option<Seq<char>>) -> bool {
    d.path@ == path && d.slot_idx == slot_idx && string_text(d.name) == name
}

/// Records a device that was registered. One that could not be opened is left out; the boot goes
/// on without it.
pub fn device_registered(
    slot: &mut L2CpuSlot,
    req: &BootRequest,
    kind: BootDeviceKind,
    engine: &EngineRegs,
    virtio: &VirtioRegs,
)
    requires
        req.l2cpu < 4,
        engine.wf(),
    ensures
        match kind {
            BootDeviceKind::Rng => *final(slot) == *old(slot),
            BootDeviceKind::Disk => match req.disk {
                Some(path) => {
                    &&& *final(slot) == (L2CpuSlot { disks: final(slot).disks, ..*old(slot) })
                    &&& final(slot).disks@.len() == old(slot).disks@.len() + 1
                    &&& final(slot).disks@.drop_last() == old(slot).disks@
                    &&& is_disk(
                        final(slot).disks@.last(),
                        path@,
                        engine_slot(req.l2cpu as int, engine.dev_blk as int, *engine),
                        None,
                    )
                },
                None => *final(slot) == *old(slot),
            },
            BootDeviceKind::Seed => match req.cloud_init {
                Some(path) => {
                    &&& *final(slot) == (L2CpuSlot { disks: final(slot).disks, ..*old(slot) })
                    &&& final(slot).disks@.len() == old(slot).disks@.len() + 1
                    &&& final(slot).disks@.drop_last() == old(slot).disks@
                    &&& is_disk(
                        final(slot).disks@.last(),
                        path@,
                        engine_slot(req.l2cpu as int, engine.dev_blk1 as int, *engine),
                        Some(SEED_NAME@),
                    )
                },
                None => *final(slot) == *old(slot),
            },
            BootDeviceKind::Net => {
                &&& *final(slot) == (L2CpuSlot {
                    net: true,
                    net_extra_fwd: final(slot).net_extra_fwd,
                    ..*old(slot)
                })
                &&& final(slot).net_extra_fwd@ == req.extra_fwd@
            },
            BootDeviceKind::Console => {
                &&& *final(slot) == (L2CpuSlot {
                    virtio_console: final(slot).virtio_console,
                    ..*old(slot)
                })
                &&& final(slot).virtio_console is Some
                &&& final(slot).virtio_console->0.input_buf@.len() == 0
            },
        },
{
    let place: Registration = registration(req.l2cpu, kind, engine, virtio);
    match kind {
        BootDeviceKind::Rng => {},
        BootDeviceKind::Disk => {
            match &req.disk {
                Some(path) => {
                    slot.disks.push(
                        DiskWorker { path: path.clone(), slot_idx: place.slot_idx, name: None },
                    );
                    assert(slot.disks@.drop_last() =~= old(slot).disks@);
                },
                None => {},
            }
        },
        BootDeviceKind::Seed => {
            match &req.cloud_init {
                Some(path) => {
                    let name: String = SEED_NAME.to_owned();
                    slot.disks.push(
                        DiskWorker {
                            path: path.clone(),
                            slot_idx: place.slot_idx,
                            name: Some(name),
                        },
                    );
                    assert(slot.disks@.drop_last() =~= old(slot).disks@);
                },
                None => {},
            }
        },
        BootDeviceKind::Net => {
            slot.net = true;
            let mut list: Vec<(u16, u16)> = Vec::new();
            let mut i: usize = 0;
            while i < req.extra_fwd.len()
                invariant
                    i <= req.extra_fwd@.len(),
                    list@ == req.extra_fwd@.take(i as int),
                decreases req.extra_fwd@.len() - i,
            {
                list.push(req.extra_fwd[i]);
                i = i + 1;
                assert(list@ =~= req.extra_fwd@.take(i as int));
            }
            assert(list@ =~= req.extra_fwd@);
            slot.net_extra_fwd = list;
        },
        BootDeviceKind::Console => {
            slot.virtio_console = Some(
                VirtioConsoleSlot { input_buf: std::collections::VecDeque::new() },
            );
        },
    }
}

/// A copy of what was booted.
pub fn copy_payload(p: &BootPayload) -> (c: BootPayload)
    ensures
        c is Uboot == p is Uboot,
        c.file() == p.file(),
{
    match p {
        BootPayload::Kernel { path } => BootPayload::Kernel { path: path.clone() },
        BootPayload::Uboot { path } => BootPayload::Uboot { path: path.clone() },
    }
}

/// Forgets what an L2CPU printed last before it was stopped.
pub fn forget_tail(state: &mut DaemonState, l2cpu: u8)
    requires
        old(state).wf(),
        l2cpu < 4,
    ensures
        final(state).wf(),
        final(state).shutdown_tails@[l2cpu as int]@.len() == 0,
        forall|j: int|
            0 <= j < 4 && j != l2cpu ==> #[trigger] final(state).shutdown_tails@[j] == old(
                state,
            ).shutdown_tails@[j],
        *final(state) == (DaemonState {
            shutdown_tails: final(state).shutdown_tails,
            ..*old(state)
        }),
{
    state.shutdown_tails[l2cpu as usize] = Vec::new();
}

/// Puts the slot of a booted L2CPU in its place. Whatever was thought of the core before, it is not
/// wedged now.
pub fn install_slot(
    state: &mut DaemonState,
    l2cpu: u8,
    slot: L2CpuSlot,
    cold_boots: &mut PerL2cpuCounter,
)
    requires
        old(state).wf(),
        l2cpu < 4,
        slot.wf_at(l2cpu as int),
    ensures
        final(state).wf(),
        final(state).l2cpus@ == old(state).l2cpus@.update(l2cpu as int, Some(slot)),
        final(state).wedged@ == old(state).wedged@.update(l2cpu as int, false),
        *final(state) == (DaemonState {
            l2cpus: final(state).l2cpus,
            wedged: final(state).wedged,
            ..*old(state)
        }),
        final(cold_boots)@ == old(cold_boots)@.update(
            l2cpu as int,
            wrapped(old(cold_boots)@[l2cpu as int] + 1),
        ),
{
    state.l2cpus[l2cpu as usize] = Some(slot);
    state.wedged[l2cpu as usize] = false;
    cold_boots.at(l2cpu).inc();
}

// ---------------------------------------------------------------------------
// Laws
// ---------------------------------------------------------------------------

/// Where a boot stands after some events.
pub open spec fn boot_after(t: BootTarget, events: Seq<BootEvent>, regs: PurgatoryRegs) -> BootPhase
    decreases events.len(),
{
    if events.len() == 0 {
        first_phase(t)
    } else {
        boot_next(t, boot_after(t, events.drop_last(), regs), events.last(), regs)
    }
}

/// The phases in which the memory of the L2CPU is written, or in which that is about to begin.
pub open spec fn is_cold(phase: BootPhase) -> bool {
    phase is ReadSiblings || phase is ResetBoard || phase is Sequence || phase is MakeSlot
        || phase is Register || phase is ReleaseReset || phase is Booted
}

/// The event at this place ended the teardown of the slot that was there.
pub open spec fn tore_down(t: BootTarget, events: Seq<BootEvent>, regs: PurgatoryRegs, i: int) -> bool {
    boot_after(t, events.take(i), regs) is TearDown && events[i] is Done
}

/// A slot that is there when a boot begins is torn down before the memory of its L2CPU is written,
/// and only where that was asked for.
pub proof fn an_occupied_slot_is_torn_down_first(
    t: BootTarget,
    events: Seq<BootEvent>,
    regs: PurgatoryRegs,
)
    requires
        t.occupied,
        is_cold(boot_after(t, events, regs)),
    ensures
        t.force,
        exists|i: int| 0 <= i < events.len() && #[trigger] tore_down(t, events, regs, i),
    decreases events.len(),
{
    assert(events.len() > 0);
    let before = events.drop_last();
    let phase = boot_after(t, before, regs);
    if is_cold(phase) {
        an_occupied_slot_is_torn_down_first(t, before, regs);
        let i = choose|i: int| 0 <= i < before.len() && #[trigger] tore_down(t, before, regs, i);
        assert(before.take(i) =~= events.take(i));
        assert(tore_down(t, events, regs, i));
    } else {
        let last = events.len() - 1;
        assert(phase is TearDown);
        assert(events.take(last) =~= before);
        assert(tore_down(t, events, regs, last));
        lemma_teardown_is_forced(t, before, regs);
    }
}

proof fn lemma_teardown_is_forced(t: BootTarget, events: Seq<BootEvent>, regs: PurgatoryRegs)
    requires
        boot_after(t, events, regs) is TearDown,
    ensures
        t.force,
    decreases events.len(),
{
    if events.len() > 0 {
        if boot_after(t, events.drop_last(), regs) is TearDown {
            lemma_teardown_is_forced(t, events.drop_last(), regs);
        }
    }
}

/// The board is reset only where no other L2CPU runs, and all that are stopped for it were parked.
pub proof fn the_board_is_reset_only_where_none_runs(
    t: BootTarget,
    phase: BootPhase,
    event: BootEvent,
    regs: PurgatoryRegs,
)
    requires
        phase !is ResetBoard,
        boot_next(t, phase, event, regs) is ResetBoard,
    ensures
        phase is ReadSiblings,
        event is Siblings,
        none_runs(event->Siblings_0@),
        forall|i: int|
            0 <= i < 4 ==> (#[trigger] boot_next(t, phase, event, regs)->ResetBoard_0@[i] == (
            event->Siblings_0@[i] == Sibling::Parked)),
{
}

/// A parked core is released, whether or not the boot was forced.
pub proof fn a_parked_core_is_released(t: BootTarget, cells: PurgatoryCells, regs: PurgatoryRegs)
    requires
        t.occupied,
        release_meta(cells, regs) is Some,
    ensures
        boot_after(t, seq![BootEvent::Cells(cells)], regs) == BootPhase::Release(
            release_meta(cells, regs)->0,
        ),
{
    let events = seq![BootEvent::Cells(cells)];
    assert(events.drop_last() =~= Seq::<BootEvent>::empty());
    reveal_with_fuel(boot_after, 2);
}

} // verus!
