//! Parked cores: what firmware publishes in its status block, and how a parked core is released.
use vstd::prelude::*;
use vstd::string::*;

use crate::error::{Error, IoSource};
#[allow(unused_imports)]
use crate::error::is_io;
use crate::regs::PurgatoryRegs;
#[allow(unused_imports)]
use crate::text::{dec, hex};
use crate::text::{push_dec, push_hex};

verus! {

/// Two halves as one word; unknown where either is.
pub open spec fn joined(lo: Option<u32>, hi: Option<u32>) -> Option<u64> {
    match (lo, hi) {
        (Some(l), Some(h)) => Some((h * 0x1_0000_0000 + l) as u64),
        _ => None,
    }
}

pub fn word64(lo: Option<u32>, hi: Option<u32>) -> (w: Option<u64>)
    ensures
        w == joined(lo, hi),
{
    match (lo, hi) {
        (Some(l), Some(h)) => Some(h as u64 * 0x1_0000_0000 + l as u64),
        _ => None,
    }
}

/// What was read of the status block of an L2CPU; a cell that could not be read is missing.
#[derive(Clone, Copy, Debug, PartialEq, Eq)]
pub struct PurgatoryCells {
    pub status: Option<u64>,
    pub peers: Option<u64>,
    pub next_addr_pa: Option<u64>,
    pub next_mode_pa: Option<u64>,
    pub next_arg1_pa: Option<u64>,
    pub hsm_state_pa: Option<u64>,
    pub msip_pa: Option<u64>,
    pub force_park_req_pa: Option<u64>,
    pub force_park_req_value: Option<u64>,
}

/// Whether a status word is that of a parked L2CPU. One that could not be read is not.
pub fn read_parked_state(status: Option<u64>, regs: &PurgatoryRegs) -> (r: bool)
    ensures
        r == (status == Some(regs.status_parked)),
{
    match status {
        Some(w) => w == regs.status_parked,
        None => false,
    }
}

/// Whether an L2CPU has just been parked.
pub fn detect_park_transition(last_parked: bool, current_parked: bool) -> (r: bool)
    ensures
        r == (!last_parked && current_parked),
{
    !last_parked && current_parked
}

/// How the guest went away. Where that cannot be read it counts as a shutdown.
pub fn read_parked_reset_type(word: Option<u32>, regs: &PurgatoryRegs) -> (t: u32)
    ensures
        t == match word {
            Some(w) => w,
            None => regs.reset_type_shutdown,
        },
{
    match word {
        Some(w) => w,
        None => regs.reset_type_shutdown,
    }
}

/// What an L2CPU next to the one that boots is doing.
#[derive(Clone, Copy, Debug, PartialEq, Eq, Structural)]
pub enum SiblingClassification {
    Parked,
    /// Also where its status is unknown.
    Running,
}

pub fn classify_sibling(purg: Option<u64>, regs: &PurgatoryRegs) -> (c: SiblingClassification)
    ensures
        c == if purg == Some(regs.status_parked) {
            SiblingClassification::Parked
        } else {
            SiblingClassification::Running
        },
{
    if read_parked_state(purg, regs) {
        SiblingClassification::Parked
    } else {
        SiblingClassification::Running
    }
}

/// Where a parked core is told how to go on.
#[derive(Clone, Copy, Debug, PartialEq, Eq, Structural)]
pub struct ParkedReleaseMeta {
    pub next_addr_pa: u64,
    pub next_mode_pa: u64,
    pub next_arg1_pa: u64,
    pub hsm_state_pa: u64,
    pub msip_pa: u64,
}

/// A cell that was read and is not zero.
pub open spec fn published(cell: Option<u64>) -> bool {
    cell is Some && cell->0 > 0
}

/// How to release the core, where it is parked and everything that is needed was published.
pub open spec fn release_meta(cells: PurgatoryCells, regs: PurgatoryRegs) -> Option<
    ParkedReleaseMeta,
> {
    if cells.status == Some(regs.status_parked) && published(cells.next_addr_pa) && published(
        cells.next_mode_pa,
    ) && published(cells.next_arg1_pa) && published(cells.hsm_state_pa) && published(
        cells.msip_pa,
    ) {
        Some(
            ParkedReleaseMeta {
                next_addr_pa: cells.next_addr_pa->0,
                next_mode_pa: cells.next_mode_pa->0,
                next_arg1_pa: cells.next_arg1_pa->0,
                hsm_state_pa: cells.hsm_state_pa->0,
                msip_pa: cells.msip_pa->0,
            },
        )
    } else {
        None
    }
}

pub fn read_parked_release_meta(cells: &PurgatoryCells, regs: &PurgatoryRegs) -> (r: Option<
    ParkedReleaseMeta,
>)
    ensures
        r == release_meta(*cells, *regs),
{
    if !read_parked_state(cells.status, regs) {
        return None;
    }
    match (
        cells.next_addr_pa,
        cells.next_mode_pa,
        cells.next_arg1_pa,
        cells.hsm_state_pa,
        cells.msip_pa,
    ) {
        (Some(a), Some(b), Some(c), Some(d), Some(e)) => {
            if a > 0 && b > 0 && c > 0 && d > 0 && e > 0 {
                Some(
                    ParkedReleaseMeta {
                        next_addr_pa: a,
                        next_mode_pa: b,
                        next_arg1_pa: c,
                        hsm_state_pa: d,
                        msip_pa: e,
                    },
                )
            } else {
                None
            }
        },
        _ => None,
    }
}

/// How a running core is made to park.
#[derive(Clone, Copy, Debug, PartialEq, Eq, Structural)]
pub struct ForcePark {
    pub request_pa: u64,
    pub request_value: u64,
    pub msip_pa: u64,
}

pub open spec fn force_park(cells: PurgatoryCells) -> Option<ForcePark> {
    if published(cells.force_park_req_pa) && published(cells.force_park_req_value) && published(
        cells.msip_pa,
    ) {
        Some(
            ForcePark {
                request_pa: cells.force_park_req_pa->0,
                request_value: cells.force_park_req_value->0,
                msip_pa: cells.msip_pa->0,
            },
        )
    } else {
        None
    }
}

/// How to make the core park, where everything that is needed was published.
pub fn trigger_force_park_if_available(cells: &PurgatoryCells) -> (r: Option<ForcePark>)
    ensures
        r == force_park(*cells),
{
    match (cells.force_park_req_pa, cells.force_park_req_value, cells.msip_pa) {
        (Some(pa), Some(value), Some(msip)) => {
            if pa > 0 && value > 0 && msip > 0 {
                Some(ForcePark { request_pa: pa, request_value: value, msip_pa: msip })
            } else {
                None
            }
        },
        _ => None,
    }
}

/// A word and where it is to be written.
pub type Write = (u64, u32);

/// The two writes that put a word of twice the size.
pub open spec fn wide_write(pa: u64, value: u64) -> Seq<Write> {
    seq![
        (pa, (value % 0x1_0000_0000) as u32),
        ((pa + 4) as u64, (value / 0x1_0000_0000) as u32),
    ]
}

fn push_wide(out: &mut Vec<Write>, pa: u64, value: u64)
    requires
        pa + 4 <= u64::MAX,
    ensures
        final(out)@ == old(out)@ + wide_write(pa, value),
{
    out.push((pa, (value % 0x1_0000_0000) as u32));
    out.push((pa + 4, (value / 0x1_0000_0000) as u32));
    assert(out@ =~= old(out)@ + wide_write(pa, value));
}

/// The writes that make a running core park: the request, then the interrupt.
pub open spec fn force_park_list(f: ForcePark) -> Seq<Write> {
    wide_write(f.request_pa, f.request_value) + seq![(f.msip_pa, 1u32)]
}

pub fn force_park_writes(f: &ForcePark) -> (list: Vec<Write>)
    requires
        f.request_pa + 4 <= u64::MAX,
    ensures
        list@ == force_park_list(*f),
{
    let mut list: Vec<Write> = Vec::new();
    push_wide(&mut list, f.request_pa, f.request_value);
    list.push((f.msip_pa, 1));
    assert(list@ =~= force_park_list(*f));
    list
}

/// What a release works with.
#[derive(Clone, Copy)]
pub struct ReleaseTarget {
    pub l2cpu: u8,
    pub meta: ParkedReleaseMeta,
    /// The status word of the core.
    pub status_pa: u64,
    pub kernel_addr: u64,
    pub dtb_addr: u64,
}

impl ReleaseTarget {
    /// The second half of every word that is written has an address.
    pub open spec fn wf(&self) -> bool {
        &&& self.status_pa + 4 <= u64::MAX
        &&& self.meta.next_addr_pa + 4 <= u64::MAX
        &&& self.meta.next_mode_pa + 4 <= u64::MAX
        &&& self.meta.next_arg1_pa + 4 <= u64::MAX
    }
}

/// The writes that come before the core is looked at: its status is cleared, and it is told where
/// to go on, in which mode, and with which device tree.
pub open spec fn prepare_list(t: ReleaseTarget, regs: PurgatoryRegs) -> Seq<Write> {
    wide_write(t.status_pa, 0) + wide_write(t.meta.next_addr_pa, t.kernel_addr) + wide_write(
        t.meta.next_mode_pa,
        regs.next_mode_s,
    ) + wide_write(t.meta.next_arg1_pa, t.dtb_addr)
}

pub fn prepare_writes(t: &ReleaseTarget, regs: &PurgatoryRegs) -> (list: Vec<Write>)
    requires
        t.wf(),
    ensures
        list@ == prepare_list(*t, *regs),
{
    let mut list: Vec<Write> = Vec::new();
    push_wide(&mut list, t.status_pa, 0);
    push_wide(&mut list, t.meta.next_addr_pa, t.kernel_addr);
    push_wide(&mut list, t.meta.next_mode_pa, regs.next_mode_s);
    push_wide(&mut list, t.meta.next_arg1_pa, t.dtb_addr);
    assert(list@ =~= prepare_list(*t, *regs));
    list
}

/// The writes that wake the core: it is marked as starting, then interrupted.
pub open spec fn wake_list(t: ReleaseTarget, regs: PurgatoryRegs) -> Seq<Write> {
    seq![(t.meta.hsm_state_pa, regs.hsm_state_start_pending), (t.meta.msip_pa, 1u32)]
}

pub fn wake_writes(t: &ReleaseTarget, regs: &PurgatoryRegs) -> (list: Vec<Write>)
    ensures
        list@ == wake_list(*t, *regs),
{
    let mut list: Vec<Write> = Vec::new();
    list.push((t.meta.hsm_state_pa, regs.hsm_state_start_pending));
    list.push((t.meta.msip_pa, 1));
    assert(list@ =~= wake_list(*t, *regs));
    list
}

/// Where a release stands, and so what is to be done next.
#[derive(Debug)]
pub enum ReleasePhase {
    /// Read the kernel image.
    ReadKernel,
    /// Write it into the memory of the core.
    WriteKernel,
    /// Do the writes of [`prepare_writes`].
    Prepare,
    /// Read the state of the core.
    ReadHsm,
    /// Do the writes of [`wake_writes`].
    Wake,
    /// The core is on its way.
    Released,
    Failed(ReleaseFailure),
}

/// What came of the last step of a release.
#[derive(Debug)]
pub enum ReleaseEvent {
    Done,
    Hsm(u32),
    /// The step failed; of a list of writes, with the one at this place.
    Failed { at: usize, source: IoSource },
}

#[derive(Debug)]
pub enum ReleaseFailure {
    ReadKernel(IoSource),
    WriteKernel(IoSource),
    Prepare { at: usize, source: IoSource },
    ReadHsm(IoSource),
    /// The core is not stopped.
    NotStopped(u32),
    Wake { at: usize, source: IoSource },
}

pub open spec fn release_next(
    phase: ReleasePhase,
    event: ReleaseEvent,
    regs: PurgatoryRegs,
) -> ReleasePhase {
    match (phase, event) {
        (ReleasePhase::ReadKernel, ReleaseEvent::Done) => ReleasePhase::WriteKernel,
        (ReleasePhase::ReadKernel, ReleaseEvent::Failed { source, .. }) => ReleasePhase::Failed(
            ReleaseFailure::ReadKernel(source),
        ),
        (ReleasePhase::WriteKernel, ReleaseEvent::Done) => ReleasePhase::Prepare,
        (ReleasePhase::WriteKernel, ReleaseEvent::Failed { source, .. }) => ReleasePhase::Failed(
            ReleaseFailure::WriteKernel(source),
        ),
        (ReleasePhase::Prepare, ReleaseEvent::Done) => ReleasePhase::ReadHsm,
        (ReleasePhase::Prepare, ReleaseEvent::Failed { at, source }) => ReleasePhase::Failed(
            ReleaseFailure::Prepare { at, source },
        ),
        (ReleasePhase::ReadHsm, ReleaseEvent::Hsm(state)) => if state == regs.hsm_state_stopped {
            ReleasePhase::Wake
        } else {
            ReleasePhase::Failed(ReleaseFailure::NotStopped(state))
        },
        (ReleasePhase::ReadHsm, ReleaseEvent::Failed { source, .. }) => ReleasePhase::Failed(
            ReleaseFailure::ReadHsm(source),
        ),
        (ReleasePhase::Wake, ReleaseEvent::Done) => ReleasePhase::Released,
        (ReleasePhase::Wake, ReleaseEvent::Failed { at, source }) => ReleasePhase::Failed(
            ReleaseFailure::Wake { at, source },
        ),
        _ => phase,
    }
}

/// Takes the release of a parked core one step further.
pub fn dispatch_release(phase: ReleasePhase, event: ReleaseEvent, regs: &PurgatoryRegs) -> (next:
    ReleasePhase)
    ensures
        next == release_next(phase, event, *regs),
{
    match (phase, event) {
        (ReleasePhase::ReadKernel, ReleaseEvent::Done) => ReleasePhase::WriteKernel,
        (ReleasePhase::ReadKernel, ReleaseEvent::Failed { source, .. }) => ReleasePhase::Failed(
            ReleaseFailure::ReadKernel(source),
        ),
        (ReleasePhase::WriteKernel, ReleaseEvent::Done) => ReleasePhase::Prepare,
        (ReleasePhase::WriteKernel, ReleaseEvent::Failed { source, .. }) => ReleasePhase::Failed(
            ReleaseFailure::WriteKernel(source),
        ),
        (ReleasePhase::Prepare, ReleaseEvent::Done) => ReleasePhase::ReadHsm,
        (ReleasePhase::Prepare, ReleaseEvent::Failed { at, source }) => ReleasePhase::Failed(
            ReleaseFailure::Prepare { at, source },
        ),
        (ReleasePhase::ReadHsm, ReleaseEvent::Hsm(state)) => if state == regs.hsm_state_stopped {
            ReleasePhase::Wake
        } else {
            ReleasePhase::Failed(ReleaseFailure::NotStopped(state))
        },
        (ReleasePhase::ReadHsm, ReleaseEvent::Failed { source, .. }) => ReleasePhase::Failed(
            ReleaseFailure::ReadHsm(source),
        ),
        (ReleasePhase::Wake, ReleaseEvent::Done) => ReleasePhase::Released,
        (ReleasePhase::Wake, ReleaseEvent::Failed { at, source }) => ReleasePhase::Failed(
            ReleaseFailure::Wake { at, source },
        ),
        (phase, _) => phase,
    }
}

/// Which write of the first list failed, in words.
pub open spec fn prepare_what(at: usize, t: ReleaseTarget) -> Seq<char> {
    if at < 2 {
        "clear purgatory magic"@
    } else {
        "write u64 @ 0x"@ + hex(
            (if at < 4 {
                t.meta.next_addr_pa
            } else if at < 6 {
                t.meta.next_mode_pa
            } else {
                t.meta.next_arg1_pa
            }) as nat,
        )
    }
}

pub open spec fn not_stopped_text(l2cpu: u8, state: u32) -> Seq<char> {
    "release l2cpu "@ + dec(l2cpu as nat) + ": hart 0 HSM state "@ + dec(state as nat)
        + " (expected STOPPED=1) \u{2014} refusing to release"@
}

/// The error of a release that failed.
pub fn release_error(failure: ReleaseFailure, t: &ReleaseTarget, kernel: &str) -> (e: Error)
    ensures
        match failure {
            ReleaseFailure::ReadKernel(source) => is_io(e, "read kernel "@ + kernel@, source),
            ReleaseFailure::WriteKernel(source) => is_io(e, "kernel re-image"@, source),
            ReleaseFailure::Prepare { at, source } => is_io(e, prepare_what(at, *t), source),
            ReleaseFailure::ReadHsm(source) => is_io(e, "read hsm state"@, source),
            ReleaseFailure::NotStopped(state) => e matches Error::Internal(m) && m@
                == not_stopped_text(t.l2cpu, state),
            ReleaseFailure::Wake { at, source } => is_io(
                e,
                if at == 0 {
                    "write hsm state START_PENDING"@
                } else {
                    "write CLINT MSIP"@
                },
                source,
            ),
        },
{
    match failure {
        ReleaseFailure::ReadKernel(source) => {
            let mut s: String = "read kernel ".to_owned();
            s.append(kernel);
            Error::Io { ctx: s, source }
        },
        ReleaseFailure::WriteKernel(source) => Error::io_ctx("kernel re-image", source),
        ReleaseFailure::Prepare { at, source } => {
            if at < 2 {
                return Error::io_ctx("clear purgatory magic", source);
            }
            let pa: u64 = if at < 4 {
                t.meta.next_addr_pa
            } else if at < 6 {
                t.meta.next_mode_pa
            } else {
                t.meta.next_arg1_pa
            };
            let mut s: String = "write u64 @ 0x".to_owned();
            push_hex(&mut s, pa);
            Error::Io { ctx: s, source }
        },
        ReleaseFailure::ReadHsm(source) => Error::io_ctx("read hsm state", source),
        ReleaseFailure::NotStopped(state) => {
            let mut s: String = "release l2cpu ".to_owned();
            push_dec(&mut s, t.l2cpu as u64);
            s.append(": hart 0 HSM state ");
            push_dec(&mut s, state as u64);
            s.append(" (expected STOPPED=1) \u{2014} refusing to release");
            Error::Internal(s)
        },
        ReleaseFailure::Wake { at, source } => {
            if at == 0 {
                Error::io_ctx("write hsm state START_PENDING", source)
            } else {
                Error::io_ctx("write CLINT MSIP", source)
            }
        },
    }
}

/// A core that is not stopped is never woken.
pub proof fn only_a_stopped_core_is_woken(
    phase: ReleasePhase,
    event: ReleaseEvent,
    regs: PurgatoryRegs,
)
    requires
        phase !is Wake,
        release_next(phase, event, regs) is Wake,
    ensures
        phase is ReadHsm,
        event == ReleaseEvent::Hsm(regs.hsm_state_stopped),
{
}

/// Of all that is written to release a core, the interrupt comes last, and what the core reads when
/// it wakes comes before it is marked as starting.
pub proof fn the_interrupt_comes_last(t: ReleaseTarget, regs: PurgatoryRegs)
    ensures
        ({
            let all = prepare_list(t, regs) + wake_list(t, regs);
            &&& all.len() == 10
            &&& all[9] == (t.meta.msip_pa, 1u32)
            &&& all[8] == (t.meta.hsm_state_pa, regs.hsm_state_start_pending)
            &&& all.subrange(2, 4) == wide_write(t.meta.next_addr_pa, t.kernel_addr)
            &&& all.subrange(4, 6) == wide_write(t.meta.next_mode_pa, regs.next_mode_s)
            &&& all.subrange(6, 8) == wide_write(t.meta.next_arg1_pa, t.dtb_addr)
        }),
{
    let all = prepare_list(t, regs) + wake_list(t, regs);
    assert(all.subrange(2, 4) =~= wide_write(t.meta.next_addr_pa, t.kernel_addr));
    assert(all.subrange(4, 6) =~= wide_write(t.meta.next_mode_pa, regs.next_mode_s));
    assert(all.subrange(6, 8) =~= wide_write(t.meta.next_arg1_pa, t.dtb_addr));
}

} // verus!
