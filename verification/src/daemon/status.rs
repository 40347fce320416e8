//! What the daemon tells of its L2CPUs, and what it finds when it starts.
use vstd::prelude::*;
use vstd::string::*;

use crate::daemon::counters::PerL2cpuCounter;
#[allow(unused_imports)]
use crate::daemon::counters::wrapped;
use crate::daemon::protocol::{
    DiskAttach, L2CpuState, L2CpuStatus, PurgatoryReleaseMeta, StatusPayload,
};
use crate::daemon::purgatory::{read_parked_state, PurgatoryCells};
use crate::daemon::server::copy_text;
#[allow(unused_imports)]
use crate::daemon::server::string_text;
use crate::daemon::state::{DaemonState, DiskWorker, L2CpuSlot};
use crate::regs::PurgatoryRegs;
#[allow(unused_imports)]
use crate::text::{dec, hex, zero_padded};
use crate::text::{push_dec, push_hex_padded};

verus! {

/// A cell that is left out where it is zero.
pub open spec fn nonzero(cell: Option<u64>) -> Option<u64> {
    if cell is Some && cell->0 > 0 {
        cell
    } else {
        None
    }
}

fn drop_zero(cell: Option<u64>) -> (r: Option<u64>)
    ensures
        r == nonzero(cell),
{
    match cell {
        Some(v) => if v > 0 {
            Some(v)
        } else {
            None
        },
        None => None,
    }
}

/// The addresses that are shown of an L2CPU: of a parked one all that are needed to release it,
/// where they could be read; of a running one those that are needed to park it.
pub open spec fn shown_meta(cells: PurgatoryCells, parked: bool) -> Option<PurgatoryReleaseMeta> {
    if parked {
        if cells.next_addr_pa is Some && cells.next_mode_pa is Some && cells.next_arg1_pa is Some
            && cells.hsm_state_pa is Some && cells.msip_pa is Some {
            Some(
                PurgatoryReleaseMeta {
                    next_addr_pa: cells.next_addr_pa->0,
                    next_mode_pa: cells.next_mode_pa->0,
                    next_arg1_pa: cells.next_arg1_pa->0,
                    hsm_state_pa: cells.hsm_state_pa->0,
                    msip_pa: cells.msip_pa->0,
                    force_park_request_pa: nonzero(cells.force_park_req_pa),
                    force_park_request_value: nonzero(cells.force_park_req_value),
                },
            )
        } else {
            None
        }
    } else if nonzero(cells.force_park_req_pa) is Some {
        Some(
            PurgatoryReleaseMeta {
                next_addr_pa: 0,
                next_mode_pa: 0,
                next_arg1_pa: 0,
                hsm_state_pa: 0,
                msip_pa: match cells.msip_pa {
                    Some(pa) => pa,
                    None => 0,
                },
                force_park_request_pa: cells.force_park_req_pa,
                force_park_request_value: cells.force_park_req_value,
            },
        )
    } else {
        None
    }
}

fn meta_shown(cells: &PurgatoryCells, parked: bool) -> (m: Option<PurgatoryReleaseMeta>)
    ensures
        m == shown_meta(*cells, parked),
{
    if parked {
        match (
            cells.next_addr_pa,
            cells.next_mode_pa,
            cells.next_arg1_pa,
            cells.hsm_state_pa,
            cells.msip_pa,
        ) {
            (Some(a), Some(b), Some(c), Some(d), Some(e)) => Some(
                PurgatoryReleaseMeta {
                    next_addr_pa: a,
                    next_mode_pa: b,
                    next_arg1_pa: c,
                    hsm_state_pa: d,
                    msip_pa: e,
                    force_park_request_pa: drop_zero(cells.force_park_req_pa),
                    force_park_request_value: drop_zero(cells.force_park_req_value),
                },
            ),
            _ => None,
        }
    } else {
        match drop_zero(cells.force_park_req_pa) {
            Some(_) => {
                let msip_pa: u64 = match cells.msip_pa {
                    Some(pa) => pa,
                    None => 0,
                };
                Some(
                    PurgatoryReleaseMeta {
                        next_addr_pa: 0,
                        next_mode_pa: 0,
                        next_arg1_pa: 0,
                        hsm_state_pa: 0,
                        msip_pa,
                        force_park_request_pa: cells.force_park_req_pa,
                        force_park_request_value: cells.force_park_req_value,
                    },
                )
            },
            None => None,
        }
    }
}

/// These are the disks of a slot, as they are shown.
pub open spec fn shows_disks(shown: Seq<DiskAttach>, disks: Seq<DiskWorker>) -> bool {
    &&& shown.len() == disks.len()
    &&& forall|i: int|
        0 <= i < disks.len() ==> (#[trigger] shown[i]).path@ == disks[i].path@ && string_text(
            shown[i].name,
        ) == string_text(disks[i].name)
}

/// What is told of one L2CPU.
pub open spec fn is_status(
    st: L2CpuStatus,
    idx: int,
    slot: Option<L2CpuSlot>,
    wedged: bool,
    cells: PurgatoryCells,
    regs: PurgatoryRegs,
) -> bool {
    let parked = cells.status == Some(regs.status_parked);
    &&& st.idx == idx
    &&& match slot {
        None => {
            &&& st.state == if wedged {
                L2CpuState::Wedged
            } else {
                L2CpuState::Stopped
            }
            &&& st.disk is None
            &&& st.disks@.len() == 0
            &&& !st.net
            &&& !st.virtio_console
            &&& st.clients == 0
            &&& st.purgatory_status is None
            &&& st.purgatory_peers is None
            &&& st.purgatory_release_meta is None
        },
        Some(s) => {
            &&& st.state == if parked {
                L2CpuState::Parked
            } else {
                L2CpuState::Running
            }
            &&& string_text(st.disk) == if s.disks@.len() > 0 {
                Some(s.disks@[0].path@)
            } else {
                None
            }
            &&& shows_disks(st.disks@, s.disks@)
            &&& st.net == s.net
            &&& st.virtio_console == (s.virtio_console is Some)
            &&& st.clients == s.console_hub.attached().len() as u32
            &&& st.purgatory_status == cells.status
            &&& st.purgatory_peers == cells.peers
            &&& st.purgatory_release_meta == shown_meta(cells, parked)
        },
    }
}

fn shown_disks(disks: &[DiskWorker]) -> (shown: Vec<DiskAttach>)
    ensures
        shows_disks(shown@, disks@),
{
    let mut shown: Vec<DiskAttach> = Vec::new();
    let mut i: usize = 0;
    while i < disks.len()
        invariant
            i <= disks@.len(),
            shown@.len() == i,
            forall|k: int|
                0 <= k < i ==> (#[trigger] shown@[k]).path@ == disks@[k].path@ && string_text(
                    shown@[k].name,
                ) == string_text(disks@[k].name),
        decreases disks@.len() - i,
    {
        shown.push(DiskAttach { path: disks[i].path.clone(), name: copy_text(&disks[i].name) });
        i = i + 1;
    }
    shown
}

/// Tells of one L2CPU. `cells` is what was read of its status block; nothing is read of one that is
/// not booted.
pub fn slot_status(
    idx: u8,
    slot: &Option<L2CpuSlot>,
    wedged: bool,
    cells: &PurgatoryCells,
    regs: &PurgatoryRegs,
) -> (st: L2CpuStatus)
    ensures
        is_status(st, idx as int, *slot, wedged, *cells, *regs),
{
    match slot {
        None => {
            let state: L2CpuState = if wedged {
                L2CpuState::Wedged
            } else {
                L2CpuState::Stopped
            };
            L2CpuStatus {
                idx,
                state,
                disk: None,
                disks: Vec::new(),
                net: false,
                virtio_console: false,
                clients: 0,
                purgatory_status: None,
                purgatory_peers: None,
                purgatory_release_meta: None,
            }
        },
        Some(s) => {
            let parked: bool = read_parked_state(cells.status, regs);
            let state: L2CpuState = if parked {
                L2CpuState::Parked
            } else {
                L2CpuState::Running
            };
            let disk: Option<String> = if s.disks.len() > 0 {
                Some(s.disks[0].path.clone())
            } else {
                None
            };
            let clients: u32 = s.console_hub.client_count() as u32;
            L2CpuStatus {
                idx,
                state,
                disk,
                disks: shown_disks(s.disks.as_slice()),
                net: s.net,
                virtio_console: s.virtio_console.is_some(),
                clients,
                purgatory_status: cells.status,
                purgatory_peers: cells.peers,
                purgatory_release_meta: meta_shown(cells, parked),
            }
        },
    }
}

/// The dividers of the clock of the L2CPUs in its control words, where both could be read.
pub open spec fn pll_dividers(cntl1: Option<u32>, cntl5: Option<u32>) -> (Option<u16>, Option<u8>) {
    if cntl1 is Some && cntl5 is Some {
        (Some((cntl1->0 / 0x1_0000) as u16), Some((cntl5->0 % 0x100) as u8))
    } else {
        (None, None)
    }
}

pub fn pll_fields(cntl1: Option<u32>, cntl5: Option<u32>) -> (r: (Option<u16>, Option<u8>))
    ensures
        r == pll_dividers(cntl1, cntl5),
{
    match (cntl1, cntl5) {
        (Some(c1), Some(c5)) => (Some((c1 / 0x1_0000) as u16), Some((c5 % 0x100) as u8)),
        _ => (None, None),
    }
}

/// The frequency, in MHz, that two control words stand for. The reference clock runs at 25 MHz.
pub fn pll_mhz(cntl1: u32, cntl5: u32) -> (mhz: u32)
    ensures
        mhz == 25 * (cntl1 as nat / 0x1_0000) / (cntl5 as nat % 0x100 + 1),
{
    let fbdiv: u32 = cntl1 / 0x1_0000;
    let postdiv0: u32 = cntl5 % 0x100;
    25 * fbdiv / (postdiv0 + 1)
}

/// The line about a clock with these control words.
pub open spec fn pll_text(cntl1: u32, cntl5: u32) -> Seq<char> {
    "[pll-watcher] PLL4 fbdiv="@ + dec(cntl1 as nat / 0x1_0000) + " postdiv0="@ + dec(
        cntl5 as nat % 0x100,
    ) + " \u{2192} "@ + dec(25 * (cntl1 as nat / 0x1_0000) / (cntl5 as nat % 0x100 + 1))
        + " MHz (CNTL1=0x"@ + zero_padded(hex(cntl1 as nat), 8) + " CNTL5=0x"@ + zero_padded(
        hex(cntl5 as nat),
        8,
    ) + ")"@
}

/// What is logged of the clock: a line where the control words differ from those seen last.
pub fn pll_watch(last: Option<(u32, u32)>, cntl1: u32, cntl5: u32) -> (line: Option<String>)
    ensures
        match line {
            Some(s) => last != Some((cntl1, cntl5)) && s@ == pll_text(cntl1, cntl5),
            None => last == Some((cntl1, cntl5)),
        },
{
    match last {
        Some((a, b)) => {
            if a == cntl1 && b == cntl5 {
                return None;
            }
        },
        None => {},
    }
    let mut s: String = "[pll-watcher] PLL4 fbdiv=".to_owned();
    push_dec(&mut s, (cntl1 / 0x1_0000) as u64);
    s.append(" postdiv0=");
    push_dec(&mut s, (cntl5 % 0x100) as u64);
    s.append(" \u{2192} ");
    push_dec(&mut s, pll_mhz(cntl1, cntl5) as u64);
    s.append(" MHz (CNTL1=0x");
    push_hex_padded(&mut s, cntl1 as u64, 8);
    s.append(" CNTL5=0x");
    push_hex_padded(&mut s, cntl5 as u64, 8);
    s.append(")");
    Some(s)
}

/// Tells of the daemon. `cells` is what was read of the status block of each L2CPU, and the two
/// control words are those of the clock.
pub fn dispatch_status(
    state: &DaemonState,
    cells: &[PurgatoryCells; 4],
    cntl1: Option<u32>,
    cntl5: Option<u32>,
    pid: u32,
    uptime_secs: u64,
    regs: &PurgatoryRegs,
) -> (p: StatusPayload)
    ensures
        p.pid == pid,
        p.uptime_secs == uptime_secs,
        p.l2cpus@.len() == 4,
        forall|i: int|
            0 <= i < 4 ==> is_status(
                #[trigger] p.l2cpus@[i],
                i,
                state.l2cpus@[i],
                state.wedged@[i],
                cells@[i],
                *regs,
            ),
        p.engine_tile == state.engine_tile,
        (p.pll_fbdiv, p.pll_postdiv0) == pll_dividers(cntl1, cntl5),
{
    let mut l2cpus: Vec<L2CpuStatus> = Vec::new();
    let mut i: usize = 0;
    while i < 4
        invariant
            i <= 4,
            l2cpus@.len() == i,
            forall|k: int|
                0 <= k < i ==> is_status(
                    #[trigger] l2cpus@[k],
                    k,
                    state.l2cpus@[k],
                    state.wedged@[k],
                    cells@[k],
                    *regs,
                ),
        decreases 4 - i,
    {
        l2cpus.push(slot_status(i as u8, &state.l2cpus[i], state.wedged[i], &cells[i], regs));
        i = i + 1;
    }
    let (pll_fbdiv, pll_postdiv0): (Option<u16>, Option<u8>) = pll_fields(cntl1, cntl5);
    StatusPayload {
        pid,
        uptime_secs,
        l2cpus,
        engine_tile: state.engine_tile,
        pll_fbdiv,
        pll_postdiv0,
    }
}

/// Whether the reset register says that an L2CPU is out of reset.
pub open spec fn is_released(reset: u32, i: int) -> bool {
    let bit = if i == 0 {
        0x10u32
    } else if i == 1 {
        0x20
    } else if i == 2 {
        0x40
    } else {
        0x80
    };
    (reset / bit) % 2 == 1
}

/// L2CPU `i` is out of reset exactly where bit `i + 4` of the register is set.
pub proof fn l2cpu_i_is_told_by_bit_i_plus_four(reset: u32, i: u32)
    requires
        i < 4,
    ensures
        is_released(reset, i as int) <==> (reset >> ((i + 4) as u32)) & 1 == 1,
{
    assert((reset / 0x10) % 2 == (reset >> 4u32) & 1) by (bit_vector);
    assert((reset / 0x20) % 2 == (reset >> 5u32) & 1) by (bit_vector);
    assert((reset / 0x40) % 2 == (reset >> 6u32) & 1) by (bit_vector);
    assert((reset / 0x80) % 2 == (reset >> 7u32) & 1) by (bit_vector);
}

/// The L2CPUs that are out of reset, in order; none where the register could not be read.
pub fn probe_initial_chip_state(reset: Option<u32>) -> (released: Vec<u8>)
    ensures
        reset is None ==> released@.len() == 0,
        forall|i: u8|
            #![trigger released@.contains(i)]
            released@.contains(i) <==> i < 4 && reset is Some && is_released(reset->0, i as int),
        forall|i: u8|
            #![trigger released@.contains(i)]
            released@.contains(i) <==> i < 4 && reset is Some && (reset->0 >> ((i + 4) as u32)) & 1
                == 1,
        forall|a: int, b: int| 0 <= a < b < released@.len() ==> released@[a] < released@[b],
{
    let mut released: Vec<u8> = Vec::new();
    let val: u32 = match reset {
        Some(v) => v,
        None => {
            return released;
        },
    };
    proof {
        l2cpu_i_is_told_by_bit_i_plus_four(val, 0);
        l2cpu_i_is_told_by_bit_i_plus_four(val, 1);
        l2cpu_i_is_told_by_bit_i_plus_four(val, 2);
        l2cpu_i_is_told_by_bit_i_plus_four(val, 3);
    }
    let mut i: u8 = 0;
    let mut rest: u32 = val / 0x10;
    while i < 4
        invariant
            i <= 4,
            rest == if i == 0 {
                val / 0x10
            } else if i == 1 {
                val / 0x20
            } else if i == 2 {
                val / 0x40
            } else if i == 3 {
                val / 0x80
            } else {
                val / 0x100
            },
            forall|k: int| 0 <= k < released@.len() ==> (#[trigger] released@[k]) < i,
            forall|k: u8|
                #![trigger released@.contains(k)]
                released@.contains(k) <==> k < i && is_released(val, k as int),
            forall|a: int, b: int| 0 <= a < b < released@.len() ==> released@[a] < released@[b],
        decreases 4 - i,
    {
        let ghost before = released@;
        if rest % 2 == 1 {
            released.push(i);
        }
        proof {
            assert forall|k: u8|
                #![trigger released@.contains(k)]
                released@.contains(k) <==> k < i + 1 && is_released(val, k as int) by {
                if released@.contains(k) {
                    let n = choose|n: int| 0 <= n < released@.len() && released@[n] == k;
                    if n < before.len() {
                        assert(before[n] == k);
                        assert(before.contains(k));
                    }
                }
                if before.contains(k) {
                    let n = choose|n: int| 0 <= n < before.len() && before[n] == k;
                    assert(released@[n] == k);
                }
                if k == i && rest % 2 == 1 {
                    assert(released@[before.len() as int] == k);
                }
            }
        }
        rest = rest / 2;
        i = i + 1;
    }
    released
}

/// What came of trying to adopt an L2CPU that was out of reset when the daemon started.
pub enum Adoption {
    /// It could not be opened, or its firmware does not answer, or its console could not be
    /// started.
    Wedged,
    /// It is running.
    Adopted(L2CpuSlot),
}

/// Records what came of trying to adopt an L2CPU.
pub fn warm_resume_released(
    state: &mut DaemonState,
    idx: u8,
    outcome: Adoption,
    warm_boots: &mut PerL2cpuCounter,
)
    requires
        old(state).wf(),
        idx < 4,
        outcome matches Adoption::Adopted(slot) ==> slot.wf_at(idx as int),
    ensures
        final(state).wf(),
        final(state).card == old(state).card,
        final(state).shutdown_tails == old(state).shutdown_tails,
        final(state).engine_tile == old(state).engine_tile,
        final(state).kick_poller == old(state).kick_poller,
        final(state).shutdown == old(state).shutdown,
        match outcome {
            Adoption::Wedged => {
                &&& final(state).l2cpus == old(state).l2cpus
                &&& final(state).wedged@ == old(state).wedged@.update(idx as int, true)
                &&& *final(warm_boots) == *old(warm_boots)
            },
            Adoption::Adopted(slot) => {
                &&& final(state).l2cpus@ == old(state).l2cpus@.update(idx as int, Some(slot))
                &&& final(state).wedged@ == old(state).wedged@.update(idx as int, false)
                &&& final(warm_boots)@ == old(warm_boots)@.update(
                    idx as int,
                    wrapped(old(warm_boots)@[idx as int] + 1),
                )
            },
        },
{
    let i: usize = idx as usize;
    match outcome {
        Adoption::Wedged => {
            state.wedged[i] = true;
        },
        Adoption::Adopted(slot) => {
            state.l2cpus[i] = Some(slot);
            state.wedged[i] = false;
            warm_boots.at(idx).inc();
        },
    }
}

} // verus!
