//! How replies are printed.
use vstd::prelude::*;

#[allow(unused_imports)]
use crate::daemon::debug::{
    bool_text, core_text, core_texts, disk_texts, entries, list_text, meta_text, optional_meta,
    optional_number, optional_pair, optional_text, response_text, state_text, status_text,
};
#[allow(unused_imports)]
use crate::daemon::protocol::{
    DiskAttach, L2CpuState, L2CpuStatus, PurgatoryReleaseMeta, Response, StatusPayload,
};
#[allow(unused_imports)]
use crate::text::{dec, quoted};

verus! {

/// What is there is printed in `Some(..)`, texts in quotes; what is not is `None`. States and truth
/// values are printed by their names.
pub proof fn how_single_values_are_printed(t: String, n: u64, m: PurgatoryReleaseMeta, a: u32, b: u32)
    ensures
        bool_text(true) == "true"@ && bool_text(false) == "false"@,
        state_text(L2CpuState::Stopped) == "Stopped"@,
        state_text(L2CpuState::Running) == "Running"@,
        state_text(L2CpuState::Parked) == "Parked"@,
        state_text(L2CpuState::Wedged) == "Wedged"@,
        optional_text(Some(t)) == "Some("@ + quoted(t@) + ")"@,
        optional_number(Some(n)) == "Some("@ + dec(n as nat) + ")"@,
        optional_meta(Some(m)) == "Some("@ + meta_text(m) + ")"@,
        optional_pair(Some((a, b))) == "Some("@ + ("("@ + dec(a as nat) + ", "@ + dec(b as nat)
            + ")"@) + ")"@,
        optional_text(None) == "None"@ && optional_number(None) == "None"@ && optional_meta(None)
            == "None"@ && optional_pair(None) == "None"@,
{
}

/// Lists are printed in brackets, with commas between their entries, in their order.
pub proof fn how_lists_are_printed(
    items: Seq<Seq<char>>,
    last: Seq<char>,
    disks: Seq<DiskAttach>,
    cores: Seq<L2CpuStatus>,
    i: int,
)
    ensures
        list_text(items) == "["@ + entries(items) + "]"@,
        entries(Seq::empty()) == Seq::<char>::empty(),
        entries(seq![last]) == last,
        items.len() > 0 ==> entries(items.push(last)) == entries(items) + ", "@ + last,
        disk_texts(disks).len() == disks.len(),
        0 <= i < disks.len() ==> disk_texts(disks)[i] == "DiskAttach { path: "@ + quoted(
            disks[i].path@,
        ) + ", name: "@ + optional_text(disks[i].name) + " }"@,
        core_texts(cores).len() == cores.len(),
        0 <= i < cores.len() ==> core_texts(cores)[i] == core_text(cores[i]),
{
    assert(items.push(last).drop_last() =~= items);
}

/// Of an L2CPU its fields are printed in their order, each behind its name.
pub proof fn how_an_l2cpu_is_printed(c: L2CpuStatus)
    ensures
        core_text(c) == "L2CpuStatus { idx: "@ + dec(c.idx as nat) + ", state: "@ + state_text(
            c.state,
        ) + ", disk: "@ + optional_text(c.disk) + ", disks: "@ + list_text(disk_texts(c.disks@))
            + ", net: "@ + bool_text(c.net) + ", virtio_console: "@ + bool_text(c.virtio_console)
            + ", clients: "@ + dec(c.clients as nat) + ", purgatory_status: "@ + optional_number(
            c.purgatory_status,
        ) + ", purgatory_peers: "@ + optional_number(c.purgatory_peers)
            + ", purgatory_release_meta: "@ + optional_meta(c.purgatory_release_meta) + " }"@,
{
}

/// So are those of where a guest is released.
pub proof fn how_release_cells_are_printed(m: PurgatoryReleaseMeta)
    ensures
        meta_text(m) == "PurgatoryReleaseMeta { next_addr_pa: "@ + dec(m.next_addr_pa as nat)
            + ", next_mode_pa: "@ + dec(m.next_mode_pa as nat) + ", next_arg1_pa: "@ + dec(
            m.next_arg1_pa as nat,
        ) + ", hsm_state_pa: "@ + dec(m.hsm_state_pa as nat) + ", msip_pa: "@ + dec(m.msip_pa as nat)
            + ", force_park_request_pa: "@ + optional_number(m.force_park_request_pa)
            + ", force_park_request_value: "@ + optional_number(m.force_park_request_value) + " }"@,
{
}

/// So are those of a status.
pub proof fn how_a_status_is_printed(p: StatusPayload, f: Option<u64>, q: Option<u64>)
    requires
        f is Some <==> p.pll_fbdiv is Some,
        p.pll_fbdiv matches Some(n) ==> f->0 == n,
        q is Some <==> p.pll_postdiv0 is Some,
        p.pll_postdiv0 matches Some(n) ==> q->0 == n,
    ensures
        status_text(p) == "StatusPayload { pid: "@ + dec(p.pid as nat) + ", uptime_secs: "@ + dec(
            p.uptime_secs as nat,
        ) + ", l2cpus: "@ + list_text(core_texts(p.l2cpus@)) + ", engine_tile: "@ + optional_pair(
            p.engine_tile,
        ) + ", pll_fbdiv: "@ + optional_number(f) + ", pll_postdiv0: "@ + optional_number(q)
            + " }"@,
{
}

/// How each reply is printed.
pub proof fn how_a_reply_is_printed(error: String, p: StatusPayload, n: u32, live: bool)
    ensures
        response_text(Response::Done) == "Ok"@,
        response_text(Response::Error { error }) == "Error { error: "@ + quoted(error@) + " }"@,
        response_text(Response::Status(p)) == "Status("@ + status_text(p) + ")"@,
        response_text(Response::Attached { scrollback_bytes: n, live })
            == "Attached { scrollback_bytes: "@ + dec(n as nat) + ", live: "@ + bool_text(live)
            + " }"@,
{
}

} // verus!
