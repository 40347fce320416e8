//! An answer of the daemon in full, for messages about answers that were not expected.
use vstd::prelude::*;
use vstd::string::*;

use crate::daemon::protocol::{
    DiskAttach, L2CpuState, L2CpuStatus, PurgatoryReleaseMeta, Response, StatusPayload,
};
#[allow(unused_imports)]
use crate::text::{dec, quoted};
use crate::text::{push_dec, push_quoted};

verus! {

pub open spec fn bool_text(b: bool) -> Seq<char> {
    if b {
        "true"@
    } else {
        "false"@
    }
}

fn push_bool(s: &mut String, b: bool)
    ensures
        final(s)@ == old(s)@ + bool_text(b),
{
    if b {
        s.append("true");
    } else {
        s.append("false");
    }
}

pub open spec fn some_text(inner: Seq<char>) -> Seq<char> {
    "Some("@ + inner + ")"@
}

pub open spec fn optional_text(t: Option<String>) -> Seq<char> {
    match t {
        Some(u) => some_text(quoted(u@)),
        None => "None"@,
    }
}

fn push_optional_text(s: &mut String, t: &Option<String>)
    ensures
        final(s)@ == old(s)@ + optional_text(*t),
{
    let ghost start = s@;
    match t {
        Some(u) => {
            s.append("Some(");
            push_quoted(s, u.as_str());
            s.append(")");
            assert(s@ =~= start + some_text(quoted(u@)));
        },
        None => s.append("None"),
    }
}

pub open spec fn optional_number(n: Option<u64>) -> Seq<char> {
    match n {
        Some(k) => some_text(dec(k as nat)),
        None => "None"@,
    }
}

fn push_optional_number(s: &mut String, n: Option<u64>)
    ensures
        final(s)@ == old(s)@ + optional_number(n),
{
    let ghost start = s@;
    match n {
        Some(k) => {
            s.append("Some(");
            push_dec(s, k);
            s.append(")");
            assert(s@ =~= start + some_text(dec(k as nat)));
        },
        None => s.append("None"),
    }
}

pub open spec fn state_text(state: L2CpuState) -> Seq<char> {
    match state {
        L2CpuState::Stopped => "Stopped"@,
        L2CpuState::Running => "Running"@,
        L2CpuState::Parked => "Parked"@,
        L2CpuState::Wedged => "Wedged"@,
    }
}

fn state_name(state: L2CpuState) -> (s: &'static str)
    ensures
        s@ == state_text(state),
{
    match state {
        L2CpuState::Stopped => "Stopped",
        L2CpuState::Running => "Running",
        L2CpuState::Parked => "Parked",
        L2CpuState::Wedged => "Wedged",
    }
}

pub open spec fn disk_text(d: DiskAttach) -> Seq<char> {
    "DiskAttach { path: "@ + quoted(d.path@) + ", name: "@ + optional_text(d.name) + " }"@
}

fn push_disk(s: &mut String, d: &DiskAttach)
    ensures
        final(s)@ == old(s)@ + disk_text(*d),
{
    let ghost start = s@;
    s.append("DiskAttach { path: ");
    push_quoted(s, d.path.as_str());
    s.append(", name: ");
    push_optional_text(s, &d.name);
    s.append(" }");
    assert(s@ =~= start + disk_text(*d));
}

/// The entries of a list, with commas between them.
pub open spec fn entries(items: Seq<Seq<char>>) -> Seq<char>
    decreases items.len(),
{
    if items.len() == 0 {
        seq![]
    } else if items.len() == 1 {
        items[0]
    } else {
        entries(items.drop_last()) + ", "@ + items.last()
    }
}

pub open spec fn list_text(items: Seq<Seq<char>>) -> Seq<char> {
    "["@ + entries(items) + "]"@
}

pub open spec fn disk_texts(disks: Seq<DiskAttach>) -> Seq<Seq<char>> {
    disks.map_values(|d: DiskAttach| disk_text(d))
}

proof fn lemma_entry(items: Seq<Seq<char>>, k: int)
    requires
        0 <= k < items.len(),
    ensures
        entries(items.take(k + 1)) == if k == 0 {
            items[0]
        } else {
            entries(items.take(k)) + ", "@ + items[k]
        },
{
    assert(items.take(k + 1).drop_last() =~= items.take(k));
    assert(items.take(k + 1).last() == items[k]);
}

fn push_disks(s: &mut String, disks: &Vec<DiskAttach>)
    ensures
        final(s)@ == old(s)@ + list_text(disk_texts(disks@)),
{
    let ghost start = s@;
    let ghost all = disk_texts(disks@);
    s.append("[");
    let ghost head = s@;
    let mut k: usize = 0;
    assert(all.take(0) =~= Seq::<Seq<char>>::empty());
    assert(head + entries(all.take(0)) =~= head);
    while k < disks.len()
        invariant
            k <= disks@.len(),
            all == disk_texts(disks@),
            s@ == head + entries(all.take(k as int)),
        decreases disks@.len() - k,
    {
        proof {
            lemma_entry(all, k as int);
        }
        if k > 0 {
            s.append(", ");
        }
        push_disk(s, &disks[k]);
        assert(s@ =~= head + entries(all.take(k + 1)));
        k = k + 1;
    }
    assert(all.take(k as int) =~= all);
    s.append("]");
    assert(s@ =~= start + list_text(all));
}

pub open spec fn meta_text(m: PurgatoryReleaseMeta) -> Seq<char> {
    "PurgatoryReleaseMeta { next_addr_pa: "@ + dec(m.next_addr_pa as nat) + ", next_mode_pa: "@ + dec(
        m.next_mode_pa as nat,
    ) + ", next_arg1_pa: "@ + dec(m.next_arg1_pa as nat) + ", hsm_state_pa: "@ + dec(
        m.hsm_state_pa as nat,
    ) + ", msip_pa: "@ + dec(m.msip_pa as nat) + ", force_park_request_pa: "@ + optional_number(
        m.force_park_request_pa,
    ) + ", force_park_request_value: "@ + optional_number(m.force_park_request_value) + " }"@
}

fn push_meta(s: &mut String, m: &PurgatoryReleaseMeta)
    ensures
        final(s)@ == old(s)@ + meta_text(*m),
{
    let mut t: String = "PurgatoryReleaseMeta { next_addr_pa: ".to_owned();
    push_dec(&mut t, m.next_addr_pa);
    t.append(", next_mode_pa: ");
    push_dec(&mut t, m.next_mode_pa);
    t.append(", next_arg1_pa: ");
    push_dec(&mut t, m.next_arg1_pa);
    t.append(", hsm_state_pa: ");
    push_dec(&mut t, m.hsm_state_pa);
    t.append(", msip_pa: ");
    push_dec(&mut t, m.msip_pa);
    t.append(", force_park_request_pa: ");
    push_optional_number(&mut t, m.force_park_request_pa);
    t.append(", force_park_request_value: ");
    push_optional_number(&mut t, m.force_park_request_value);
    t.append(" }");
    s.append(t.as_str());
}

pub open spec fn optional_meta(m: Option<PurgatoryReleaseMeta>) -> Seq<char> {
    match m {
        Some(k) => some_text(meta_text(k)),
        None => "None"@,
    }
}

fn push_optional_meta(s: &mut String, m: &Option<PurgatoryReleaseMeta>)
    ensures
        final(s)@ == old(s)@ + optional_meta(*m),
{
    let ghost start = s@;
    match m {
        Some(k) => {
            s.append("Some(");
            push_meta(s, k);
            s.append(")");
            assert(s@ =~= start + some_text(meta_text(*k)));
        },
        None => s.append("None"),
    }
}

pub open spec fn core_text(c: L2CpuStatus) -> Seq<char> {
    "L2CpuStatus { idx: "@ + dec(c.idx as nat) + ", state: "@ + state_text(c.state) + ", disk: "@
        + optional_text(c.disk) + ", disks: "@ + list_text(disk_texts(c.disks@)) + ", net: "@
        + bool_text(c.net) + ", virtio_console: "@ + bool_text(c.virtio_console) + ", clients: "@
        + dec(c.clients as nat) + ", purgatory_status: "@ + optional_number(c.purgatory_status)
        + ", purgatory_peers: "@ + optional_number(c.purgatory_peers)
        + ", purgatory_release_meta: "@ + optional_meta(c.purgatory_release_meta) + " }"@
}

fn push_core(s: &mut String, c: &L2CpuStatus)
    ensures
        final(s)@ == old(s)@ + core_text(*c),
{
    let mut t: String = "L2CpuStatus { idx: ".to_owned();
    push_dec(&mut t, c.idx as u64);
    t.append(", state: ");
    t.append(state_name(c.state));
    t.append(", disk: ");
    push_optional_text(&mut t, &c.disk);
    t.append(", disks: ");
    push_disks(&mut t, &c.disks);
    t.append(", net: ");
    push_bool(&mut t, c.net);
    t.append(", virtio_console: ");
    push_bool(&mut t, c.virtio_console);
    t.append(", clients: ");
    push_dec(&mut t, c.clients as u64);
    t.append(", purgatory_status: ");
    push_optional_number(&mut t, c.purgatory_status);
    t.append(", purgatory_peers: ");
    push_optional_number(&mut t, c.purgatory_peers);
    t.append(", purgatory_release_meta: ");
    push_optional_meta(&mut t, &c.purgatory_release_meta);
    t.append(" }");
    s.append(t.as_str());
}

pub open spec fn core_texts(cores: Seq<L2CpuStatus>) -> Seq<Seq<char>> {
    cores.map_values(|c: L2CpuStatus| core_text(c))
}

fn push_cores(s: &mut String, cores: &Vec<L2CpuStatus>)
    ensures
        final(s)@ == old(s)@ + list_text(core_texts(cores@)),
{
    let ghost start = s@;
    let ghost all = core_texts(cores@);
    s.append("[");
    let ghost head = s@;
    let mut k: usize = 0;
    assert(all.take(0) =~= Seq::<Seq<char>>::empty());
    assert(head + entries(all.take(0)) =~= head);
    while k < cores.len()
        invariant
            k <= cores@.len(),
            all == core_texts(cores@),
            s@ == head + entries(all.take(k as int)),
        decreases cores@.len() - k,
    {
        proof {
            lemma_entry(all, k as int);
        }
        if k > 0 {
            s.append(", ");
        }
        push_core(s, &cores[k]);
        assert(s@ =~= head + entries(all.take(k + 1)));
        k = k + 1;
    }
    assert(all.take(k as int) =~= all);
    s.append("]");
    assert(s@ =~= start + list_text(all));
}

pub open spec fn optional_pair(p: Option<(u32, u32)>) -> Seq<char> {
    match p {
        Some((a, b)) => some_text("("@ + dec(a as nat) + ", "@ + dec(b as nat) + ")"@),
        None => "None"@,
    }
}

fn push_optional_pair(s: &mut String, p: Option<(u32, u32)>)
    ensures
        final(s)@ == old(s)@ + optional_pair(p),
{
    let ghost start = s@;
    match p {
        Some((a, b)) => {
            s.append("Some(");
            s.append("(");
            push_dec(s, a as u64);
            s.append(", ");
            push_dec(s, b as u64);
            s.append(")");
            s.append(")");
            assert(s@ =~= start + optional_pair(p));
        },
        None => s.append("None"),
    }
}

pub open spec fn status_text(p: StatusPayload) -> Seq<char> {
    "StatusPayload { pid: "@ + dec(p.pid as nat) + ", uptime_secs: "@ + dec(p.uptime_secs as nat)
        + ", l2cpus: "@ + list_text(core_texts(p.l2cpus@)) + ", engine_tile: "@ + optional_pair(
        p.engine_tile,
    ) + ", pll_fbdiv: "@ + optional_number(
        match p.pll_fbdiv {
            Some(n) => Some(n as u64),
            None => None,
        },
    ) + ", pll_postdiv0: "@ + optional_number(
        match p.pll_postdiv0 {
            Some(n) => Some(n as u64),
            None => None,
        },
    ) + " }"@
}

fn push_status(s: &mut String, p: &StatusPayload)
    ensures
        final(s)@ == old(s)@ + status_text(*p),
{
    let mut t: String = "StatusPayload { pid: ".to_owned();
    push_dec(&mut t, p.pid as u64);
    t.append(", uptime_secs: ");
    push_dec(&mut t, p.uptime_secs);
    t.append(", l2cpus: ");
    push_cores(&mut t, &p.l2cpus);
    t.append(", engine_tile: ");
    push_optional_pair(&mut t, p.engine_tile);
    t.append(", pll_fbdiv: ");
    let fbdiv: Option<u64> = match p.pll_fbdiv {
        Some(n) => Some(n as u64),
        None => None,
    };
    push_optional_number(&mut t, fbdiv);
    t.append(", pll_postdiv0: ");
    let postdiv: Option<u64> = match p.pll_postdiv0 {
        Some(n) => Some(n as u64),
        None => None,
    };
    push_optional_number(&mut t, postdiv);
    t.append(" }");
    s.append(t.as_str());
}

/// An answer in full.
pub open spec fn response_text(r: Response) -> Seq<char> {
    match r {
        Response::Done => "Ok"@,
        Response::Error { error } => "Error { error: "@ + quoted(error@) + " }"@,
        Response::Status(p) => "Status("@ + status_text(p) + ")"@,
        Response::Attached { scrollback_bytes, live } => "Attached { scrollback_bytes: "@ + dec(
            scrollback_bytes as nat,
        ) + ", live: "@ + bool_text(live) + " }"@,
    }
}

/// Appends an answer in full.
pub fn push_response(s: &mut String, r: &Response)
    ensures
        final(s)@ == old(s)@ + response_text(*r),
{
    let ghost start = s@;
    match r {
        Response::Done => s.append("Ok"),
        Response::Error { error } => {
            s.append("Error { error: ");
            push_quoted(s, error.as_str());
            s.append(" }");
        },
        Response::Status(p) => {
            s.append("Status(");
            push_status(s, p);
            s.append(")");
        },
        Response::Attached { scrollback_bytes, live } => {
            s.append("Attached { scrollback_bytes: ");
            push_dec(s, *scrollback_bytes as u64);
            s.append(", live: ");
            push_bool(s, *live);
            s.append(" }");
        },
    }
    assert(s@ =~= start + response_text(*r));
}

} // verus!
