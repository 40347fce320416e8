//! The daemon's answers to its clients.
//!
//! Each function takes the state of the daemon, a request, and what came of the work that only the
//! outside can do for it: opening a file, binding a port, reading the chip. It decides the answer,
//! and changes the state accordingly.
use std::collections::VecDeque;
use vstd::prelude::*;
use vstd::string::*;
#[allow(unused_imports)]
use vstd::utf8::encode_utf8;

use crate::daemon::console_hub::{push_bounded, AttachResult, SCROLLBACK_BYTES, SHUTDOWN_TAIL_BYTES};
#[allow(unused_imports)]
use crate::daemon::console_hub::{
    becomes_writer, clients_with, goodbye, last_bytes, writer_of, Client, ConsoleHub,
};
#[allow(unused_imports)]
use crate::daemon::counters::{level_above, level_below, wrapped};
use crate::daemon::counters::{PerL2cpuGauge, RpcMethod};
use crate::daemon::metrics::Metrics;
use crate::daemon::protocol::{ConsoleMode, Request, Response};
use crate::daemon::state::{DaemonState, DiskWorker, L2CpuSlot, VirtioConsoleSlot, RX_BUFFER_CAP};
use crate::error::{Error, IoSource, Result};
use crate::regs::{EngineRegs, VirtioRegs};
#[allow(unused_imports)]
use crate::text::{dec, quoted};
use crate::text::{push_dec, push_quoted, same};

verus! {

/// The most disks that an L2CPU can have.
pub const MAX_DISKS_PER_L2CPU: usize = 3;

/// The port of a guest on which it takes secure-shell connections.
pub const SSH_GUEST_PORT: u16 = 22;

/// Why a request was refused.
pub enum Refusal {
    BadRequest(Seq<char>),
    SlotState(Seq<char>),
    Io(Seq<char>, IoSource),
}

/// The result is this refusal.
pub open spec fn refused<T>(r: Result<T>, f: Refusal) -> bool {
    match f {
        Refusal::BadRequest(text) => r matches Err(Error::BadRequest(m)) && m@ == text,
        Refusal::SlotState(text) => r matches Err(Error::SlotState(m)) && m@ == text,
        Refusal::Io(what, why) => r matches Err(Error::Io { ctx, source }) && ctx@ == what && source
            == why,
    }
}

pub open spec fn no_such_l2cpu() -> Refusal {
    Refusal::BadRequest("l2cpu must be 0..3"@)
}

pub open spec fn not_booted(l2cpu: u8) -> Refusal {
    Refusal::SlotState("l2cpu "@ + dec(l2cpu as nat) + " is not booted"@)
}

pub open spec fn no_engine() -> Refusal {
    Refusal::SlotState("tensix engine not yet brought up; cold-boot the L2CPU first"@)
}

/// The characters of an optional text.
pub open spec fn text_of(s: Option<&str>) -> Option<Seq<char>> {
    match s {
        Some(t) => Some(t@),
        None => None,
    }
}

/// The characters of an optional string.
pub open spec fn string_text(s: Option<String>) -> Option<Seq<char>> {
    match s {
        Some(t) => Some(t@),
        None => None,
    }
}

/// A copy of an optional text.
pub fn copy_text(s: &Option<String>) -> (t: Option<String>)
    ensures
        string_text(t) == string_text(*s),
{
    match s {
        Some(t) => Some(t.clone()),
        None => None,
    }
}

/// Checks the number of an L2CPU.
pub fn validate_l2cpu(idx: u8) -> (r: Result<usize>)
    ensures
        idx < 4 ==> (r matches Ok(i) && i == idx),
        idx >= 4 ==> refused(r, no_such_l2cpu()),
{
    if idx < 4 {
        Ok(idx as usize)
    } else {
        Err(Error::bad_request("l2cpu must be 0..3"))
    }
}

fn not_booted_error(l2cpu: u8) -> (e: Error)
    ensures
        refused::<()>(Err(e), not_booted(l2cpu)),
{
    let mut s: String = "l2cpu ".to_owned();
    push_dec(&mut s, l2cpu as u64);
    s.append(" is not booted");
    Error::SlotState(s)
}

fn no_engine_error() -> (e: Error)
    ensures
        refused::<()>(Err(e), no_engine()),
{
    Error::slot_state("tensix engine not yet brought up; cold-boot the L2CPU first")
}

// ---------------------------------------------------------------------------
// Requests and answers
// ---------------------------------------------------------------------------

/// The method that a request counts under.
pub open spec fn method_of(req: Request) -> RpcMethod {
    match req {
        Request::Status => RpcMethod::Status,
        Request::Boot(_) => RpcMethod::Boot,
        Request::AttachConsole { .. } => RpcMethod::AttachConsole,
        Request::AddDisk { .. } => RpcMethod::AddDisk,
        Request::RemoveDisk { .. } => RpcMethod::RemoveDisk,
        Request::AddNet { .. } => RpcMethod::AddNet,
        Request::RemoveNet { .. } => RpcMethod::RemoveNet,
        Request::AddConsole { .. } => RpcMethod::AddConsole,
        Request::RemoveConsole { .. } => RpcMethod::RemoveConsole,
        Request::Stop { .. } => RpcMethod::Stop,
        Request::Shutdown => RpcMethod::Shutdown,
    }
}

pub fn classify_request(req: &Request) -> (m: RpcMethod)
    ensures
        m == method_of(*req),
{
    match req {
        Request::Status => RpcMethod::Status,
        Request::Boot(_) => RpcMethod::Boot,
        Request::AttachConsole { .. } => RpcMethod::AttachConsole,
        Request::AddDisk { .. } => RpcMethod::AddDisk,
        Request::RemoveDisk { .. } => RpcMethod::RemoveDisk,
        Request::AddNet { .. } => RpcMethod::AddNet,
        Request::RemoveNet { .. } => RpcMethod::RemoveNet,
        Request::AddConsole { .. } => RpcMethod::AddConsole,
        Request::RemoveConsole { .. } => RpcMethod::RemoveConsole,
        Request::Stop { .. } => RpcMethod::Stop,
        Request::Shutdown => RpcMethod::Shutdown,
    }
}

/// The text of an error as a client sees it: an internal error keeps what it knows to itself.
pub open spec fn is_wire_text(e: Error, s: Seq<char>) -> bool {
    if e is Internal {
        s == "internal daemon error"@
    } else {
        s == e.text()
    }
}

/// The answer to a request that failed.
pub fn reply_err(e: &Error) -> (r: Response)
    ensures
        r matches Response::Error { error } && is_wire_text(*e, error@),
{
    let error: String = match e {
        Error::Internal(_) => "internal daemon error".to_owned(),
        _ => e.to_string(),
    };
    Response::Error { error }
}

/// The answer to a request that could not be read.
pub fn reply_unreadable(reason: &str) -> (r: Response)
    ensures
        r matches Response::Error { error } && error@ == "bad request: "@ + reason@,
{
    let mut error: String = "bad request: ".to_owned();
    error.append(reason);
    Response::Error { error }
}

/// A client connected.
pub fn client_arrived(m: &mut Metrics)
    ensures
        final(m).daemon_clients_total@ == wrapped(old(m).daemon_clients_total@ + 1),
        final(m).daemon_clients_active@ == level_above(old(m).daemon_clients_active@),
        *final(m) == (Metrics {
            daemon_clients_total: final(m).daemon_clients_total,
            daemon_clients_active: final(m).daemon_clients_active,
            ..*old(m)
        }),
{
    m.daemon_clients_total.inc();
    m.daemon_clients_active.inc();
}

/// A client is gone.
pub fn client_left(m: &mut Metrics)
    ensures
        final(m).daemon_clients_active@ == level_below(old(m).daemon_clients_active@),
        *final(m) == (Metrics {
            daemon_clients_active: final(m).daemon_clients_active,
            ..*old(m)
        }),
{
    m.daemon_clients_active.dec();
}

/// Counts a request and turns what came of it into the answer. The request counts whatever came
/// of it; it counts as failed exactly where it did.
pub fn handle_client(m: &mut Metrics, req: &Request, result: Result<Response>) -> (answer: Response)
    ensures
        *final(m) == (Metrics {
            daemon_rpc_total: final(m).daemon_rpc_total,
            daemon_rpc_errors_total: final(m).daemon_rpc_errors_total,
            ..*old(m)
        }),
        forall|k: RpcMethod| #[trigger]
            final(m).daemon_rpc_total.count(k) == wrapped(
                old(m).daemon_rpc_total.count(k) + (if k == method_of(*req) {
                    1int
                } else {
                    0
                }),
            ),
        forall|k: RpcMethod| #[trigger]
            final(m).daemon_rpc_errors_total.count(k) == wrapped(
                old(m).daemon_rpc_errors_total.count(k) + (if k == method_of(*req)
                    && result is Err {
                    1int
                } else {
                    0
                }),
            ),
        match result {
            Ok(r) => answer == r,
            Err(e) => answer matches Response::Error { error } && is_wire_text(e, error@),
        },
{
    let method: RpcMethod = classify_request(req);
    m.daemon_rpc_total.at(method).inc();
    match result {
        Ok(r) => r,
        Err(e) => {
            m.daemon_rpc_errors_total.at(method).inc();
            reply_err(&e)
        },
    }
}

/// Counts a request as failed whose answer could not be written. One whose answer is an error was
/// counted already.
pub fn reply_sent(m: &mut Metrics, req: &Request, failed: bool, written: bool)
    ensures
        *final(m) == (Metrics {
            daemon_rpc_errors_total: final(m).daemon_rpc_errors_total,
            ..*old(m)
        }),
        forall|k: RpcMethod| #[trigger]
            final(m).daemon_rpc_errors_total.count(k) == wrapped(
                old(m).daemon_rpc_errors_total.count(k) + (if k == method_of(*req) && !failed
                    && !written {
                    1int
                } else {
                    0
                }),
            ),
{
    if !failed && !written {
        let method: RpcMethod = classify_request(req);
        m.daemon_rpc_errors_total.at(method).inc();
    }
}

// ---------------------------------------------------------------------------
// Disks
// ---------------------------------------------------------------------------

/// Whether one of these names is `name`.
pub open spec fn has_name(names: Seq<Option<String>>, name: Seq<char>) -> bool {
    exists|i: int| 0 <= i < names.len() && string_text(#[trigger] names[i]) == Some(name)
}

/// Why a disk cannot be added to these.
pub open spec fn disk_refusal(
    count: usize,
    name: Option<Seq<char>>,
    names: Seq<Option<String>>,
    path: Seq<char>,
    opened: std::result::Result<(), IoSource>,
) -> Option<Refusal> {
    if count >= MAX_DISKS_PER_L2CPU {
        Some(
            Refusal::SlotState(
                "L2CPU already has "@ + dec(count as nat) + " disks attached (max "@ + dec(
                    MAX_DISKS_PER_L2CPU as nat,
                ) + ")"@,
            ),
        )
    } else if name is Some && has_name(names, name->0) {
        Some(Refusal::SlotState("L2CPU already has a disk with name "@ + quoted(name->0)))
    } else {
        match opened {
            Ok(()) => None,
            Err(source) => Some(Refusal::Io("cannot open disk image "@ + path, source)),
        }
    }
}

/// Checks whether a disk can be added. `opened` is what came of opening the image.
pub fn validate_add_disk_request(
    current_count: usize,
    name: Option<&str>,
    existing_names: &[Option<String>],
    path: &str,
    opened: std::result::Result<(), IoSource>,
) -> (r: Result<()>)
    ensures
        match disk_refusal(current_count, text_of(name), existing_names@, path@, opened) {
            Some(f) => refused(r, f),
            None => r is Ok,
        },
{
    if current_count >= MAX_DISKS_PER_L2CPU {
        let mut s: String = "L2CPU already has ".to_owned();
        push_dec(&mut s, current_count as u64);
        s.append(" disks attached (max ");
        push_dec(&mut s, MAX_DISKS_PER_L2CPU as u64);
        s.append(")");
        return Err(Error::SlotState(s));
    }
    match name {
        Some(n) => {
            let mut i: usize = 0;
            while i < existing_names.len()
                invariant
                    i <= existing_names@.len(),
                    current_count < MAX_DISKS_PER_L2CPU,
                    name == Some(n),
                    forall|k: int|
                        0 <= k < i ==> string_text(#[trigger] existing_names@[k]) != Some(n@),
                decreases existing_names@.len() - i,
            {
                let taken: bool = match &existing_names[i] {
                    Some(existing) => same(existing.as_str(), n),
                    None => false,
                };
                if taken {
                    assert(string_text(existing_names@[i as int]) == Some(n@));
                    let mut s: String = "L2CPU already has a disk with name ".to_owned();
                    push_quoted(&mut s, n);
                    return Err(Error::SlotState(s));
                }
                i = i + 1;
            }
        },
        None => {},
    }
    match opened {
        Ok(()) => Ok(()),
        Err(source) => {
            let mut s: String = "cannot open disk image ".to_owned();
            s.append(path);
            Err(Error::Io { ctx: s, source })
        },
    }
}

/// Checks whether there is a disk to remove.
pub fn validate_remove_disk_request(disks_empty: bool) -> (r: std::result::Result<(), &'static str>)
    ensures
        r is Ok <==> !disks_empty,
        r matches Err(text) ==> text@ == "no disk attached"@,
{
    if disks_empty {
        Err("no disk attached")
    } else {
        Ok(())
    }
}

/// The first block device of an L2CPU that is not among `used`.
pub open spec fn free_blk(used: Seq<u32>, engine: EngineRegs) -> Option<u32> {
    if !used.contains(engine.dev_blk) {
        Some(engine.dev_blk)
    } else if !used.contains(engine.dev_blk1) {
        Some(engine.dev_blk1)
    } else if !used.contains(engine.dev_blk2) {
        Some(engine.dev_blk2)
    } else {
        None
    }
}

fn contains(used: &[u32], dev: u32) -> (r: bool)
    ensures
        r == used@.contains(dev),
{
    let mut i: usize = 0;
    while i < used.len()
        invariant
            i <= used@.len(),
            forall|k: int| 0 <= k < i ==> used@[k] != dev,
        decreases used@.len() - i,
    {
        if used[i] == dev {
            assert(used@[i as int] == dev);
            return true;
        }
        i = i + 1;
    }
    false
}

/// Picks the block device for a new disk.
pub fn pick_free_blk_slot(used: &[u32], engine: &EngineRegs) -> (r: Option<u32>)
    ensures
        r == free_blk(used@, *engine),
{
    if !contains(used, engine.dev_blk) {
        Some(engine.dev_blk)
    } else if !contains(used, engine.dev_blk1) {
        Some(engine.dev_blk1)
    } else if !contains(used, engine.dev_blk2) {
        Some(engine.dev_blk2)
    } else {
        None
    }
}

/// The interrupt of a block device.
pub open spec fn blk_irq(dev: u32, engine: EngineRegs, virtio: VirtioRegs) -> u32 {
    if dev == engine.dev_blk {
        virtio.disk_irq
    } else if dev == engine.dev_blk1 {
        virtio.disk1_irq
    } else {
        virtio.disk2_irq
    }
}

pub fn irq_for_blk_dev_idx(dev_idx: u32, engine: &EngineRegs, virtio: &VirtioRegs) -> (irq: u32)
    requires
        dev_idx == engine.dev_blk || dev_idx == engine.dev_blk1 || dev_idx == engine.dev_blk2,
    ensures
        irq == blk_irq(dev_idx, *engine, *virtio),
{
    if dev_idx == engine.dev_blk {
        virtio.disk_irq
    } else if dev_idx == engine.dev_blk1 {
        virtio.disk1_irq
    } else {
        virtio.disk2_irq
    }
}

/// The slot of the engine on which a device of an L2CPU stands.
pub open spec fn engine_slot(l2cpu: int, dev: int, engine: EngineRegs) -> int {
    l2cpu * engine.devs_per_l2cpu + dev
}

fn slot_index(l2cpu: u8, dev: u32, engine: &EngineRegs) -> (i: u32)
    requires
        engine.wf(),
        l2cpu < 4,
        dev < engine.devs_per_l2cpu,
    ensures
        i == engine_slot(l2cpu as int, dev as int, *engine),
{
    assert(l2cpu * engine.devs_per_l2cpu <= 3 * engine.devs_per_l2cpu) by (nonlinear_arith)
        requires
            l2cpu <= 3,
            engine.devs_per_l2cpu >= 0,
    ;
    l2cpu as u32 * engine.devs_per_l2cpu + dev
}

/// The disks of an L2CPU stand on slots of its own.
pub open spec fn disks_placed(disks: Seq<DiskWorker>, l2cpu: int, engine: EngineRegs) -> bool {
    forall|i: int|
        0 <= i < disks.len() ==> engine_slot(l2cpu, 0, engine) <= (#[trigger] disks[i]).slot_idx
}

/// The devices that these disks stand on.
pub open spec fn used_devs(disks: Seq<DiskWorker>, l2cpu: int, engine: EngineRegs) -> Seq<u32> {
    disks.map_values(|d: DiskWorker| (d.slot_idx - engine_slot(l2cpu, 0, engine)) as u32)
}

/// Where a device was put.
#[derive(Clone, Copy, Debug, PartialEq, Eq)]
pub struct Registration {
    pub slot_idx: u32,
    pub irq: u32,
}

/// The disks of a slot, or none where there is no slot.
pub open spec fn disks_of(state: DaemonState, l2cpu: int) -> Seq<DiskWorker> {
    match state.l2cpus@[l2cpu] {
        Some(slot) => slot.disks@,
        None => Seq::empty(),
    }
}

/// Whether a disk of these bears this name.
pub open spec fn disk_named(disks: Seq<DiskWorker>, name: Seq<char>) -> bool {
    exists|i: int| 0 <= i < disks.len() && string_text((#[trigger] disks[i]).name) == Some(name)
}

/// Why a request to add a disk is refused.
pub open spec fn add_disk_refusal(
    state: DaemonState,
    l2cpu: u8,
    path: Seq<char>,
    name: Option<Seq<char>>,
    opened: std::result::Result<(), IoSource>,
    built: std::result::Result<(), String>,
    engine: EngineRegs,
) -> Option<Refusal> {
    let disks = disks_of(state, l2cpu as int);
    if l2cpu >= 4 {
        Some(no_such_l2cpu())
    } else if state.l2cpus@[l2cpu as int] is None {
        Some(not_booted(l2cpu))
    } else if disks.len() >= MAX_DISKS_PER_L2CPU {
        Some(
            Refusal::SlotState(
                "L2CPU already has "@ + dec(disks.len()) + " disks attached (max "@ + dec(
                    MAX_DISKS_PER_L2CPU as nat,
                ) + ")"@,
            ),
        )
    } else if name is Some && disk_named(disks, name->0) {
        Some(Refusal::SlotState("L2CPU already has a disk with name "@ + quoted(name->0)))
    } else if opened is Err {
        Some(Refusal::Io("cannot open disk image "@ + path, opened->Err_0))
    } else if free_blk(used_devs(disks, l2cpu as int, engine), engine) is None {
        Some(
            Refusal::SlotState(
                "no free virtio-blk slots (max "@ + dec(MAX_DISKS_PER_L2CPU as nat) + ")"@,
            ),
        )
    } else if !state.kick_poller || state.engine_tile is None {
        Some(no_engine())
    } else {
        match built {
            Ok(()) => None,
            Err(why) => Some(
                Refusal::SlotState("VirtioBlk::from_file("@ + path + ") failed: "@ + why@),
            ),
        }
    }
}

/// The names of the disks of a slot.
fn disk_names(disks: &[DiskWorker]) -> (names: Vec<Option<String>>)
    ensures
        names@.len() == disks@.len(),
        forall|i: int|
            0 <= i < names@.len() ==> string_text(#[trigger] names@[i]) == string_text(
                disks@[i].name,
            ),
{
    let mut names: Vec<Option<String>> = Vec::new();
    let mut i: usize = 0;
    while i < disks.len()
        invariant
            i <= disks@.len(),
            names@.len() == i,
            forall|k: int|
                0 <= k < i ==> string_text(#[trigger] names@[k]) == string_text(disks@[k].name),
        decreases disks@.len() - i,
    {
        names.push(copy_text(&disks[i].name));
        i = i + 1;
    }
    names
}

fn devices_in_use(disks: &[DiskWorker], base: u32) -> (used: Vec<u32>)
    requires
        forall|i: int| 0 <= i < disks@.len() ==> base <= (#[trigger] disks@[i]).slot_idx,
    ensures
        used@ == disks@.map_values(|d: DiskWorker| (d.slot_idx - base) as u32),
{
    let mut used: Vec<u32> = Vec::new();
    let mut i: usize = 0;
    while i < disks.len()
        invariant
            i <= disks@.len(),
            forall|i: int| 0 <= i < disks@.len() ==> base <= (#[trigger] disks@[i]).slot_idx,
            used@ == disks@.take(i as int).map_values(
                |d: DiskWorker| (d.slot_idx - base) as u32,
            ),
        decreases disks@.len() - i,
    {
        used.push(disks[i].slot_idx - base);
        i = i + 1;
        assert(used@ =~= disks@.take(i as int).map_values(
            |d: DiskWorker| (d.slot_idx - base) as u32,
        ));
    }
    assert(disks@.take(i as int) =~= disks@);
    used
}

/// Attaches a disk to a booted L2CPU. `opened` is what came of opening the image, `built` of making
/// a block device of it; neither counts before what the request itself is refused for. Says where
/// the device is to be registered.
pub fn dispatch_add_disk(
    state: &mut DaemonState,
    l2cpu: u8,
    path: &str,
    name: Option<&str>,
    opened: std::result::Result<(), IoSource>,
    built: std::result::Result<(), String>,
    engine: &EngineRegs,
    virtio: &VirtioRegs,
) -> (r: Result<Registration>)
    requires
        old(state).wf(),
        engine.wf(),
        l2cpu < 4 ==> disks_placed(disks_of(*old(state), l2cpu as int), l2cpu as int, *engine),
    ensures
        final(state).wf(),
        l2cpu < 4 ==> disks_placed(disks_of(*final(state), l2cpu as int), l2cpu as int, *engine),
        match add_disk_refusal(*old(state), l2cpu, path@, text_of(name), opened, built, *engine) {
            Some(f) => refused(r, f) && *final(state) == *old(state),
            None => {
                let slot = old(state).l2cpus@[l2cpu as int]->0;
                let dev = free_blk(used_devs(slot.disks@, l2cpu as int, *engine), *engine)->0;
                &&& r matches Ok(reg) && reg.slot_idx == engine_slot(
                    l2cpu as int,
                    dev as int,
                    *engine,
                ) && reg.irq == blk_irq(dev, *engine, *virtio)
                &&& old(state).same_but_slot(*final(state), l2cpu as int)
                &&& final(state).l2cpus@[l2cpu as int] matches Some(after) && after.disks@.len()
                    == slot.disks@.len() + 1 && {
                    let added = after.disks@.last();
                    &&& slot.is_with(
                        after,
                        slot.disks@.push(added),
                        slot.net,
                        slot.virtio_console is Some,
                        slot.virtio_rng,
                    )
                    &&& after.virtio_console == slot.virtio_console
                    &&& added.path@ == path@
                    &&& added.slot_idx == r->Ok_0.slot_idx
                    &&& string_text(added.name) == text_of(name)
                }
            },
        },
{
    let i: usize = match validate_l2cpu(l2cpu) {
        Ok(i) => i,
        Err(e) => {
            return Err(e);
        },
    };
    let slot: &L2CpuSlot = match &state.l2cpus[i] {
        Some(slot) => slot,
        None => {
            return Err(not_booted_error(l2cpu));
        },
    };
    let ghost slot0 = *slot;
    let names: Vec<Option<String>> = disk_names(slot.disks.as_slice());
    proof {
        if name is Some {
            let n = name->0@;
            if disk_named(slot0.disks@, n) {
                let k = choose|k: int|
                    0 <= k < slot0.disks@.len() && string_text((#[trigger] slot0.disks@[k]).name)
                        == Some(n);
                assert(string_text(names@[k]) == Some(n));
            }
            if has_name(names@, n) {
                let k = choose|k: int|
                    0 <= k < names@.len() && string_text(#[trigger] names@[k]) == Some(n);
                assert(string_text(slot0.disks@[k].name) == Some(n));
            }
        }
    }
    match validate_add_disk_request(slot.disks.len(), name, names.as_slice(), path, opened) {
        Ok(()) => {},
        Err(e) => {
            return Err(e);
        },
    }
    let base: u32 = slot_index(l2cpu, 0, engine);
    let used: Vec<u32> = devices_in_use(slot.disks.as_slice(), base);
    assert(used@ =~= used_devs(slot0.disks@, l2cpu as int, *engine));
    let dev: u32 = match pick_free_blk_slot(used.as_slice(), engine) {
        Some(dev) => dev,
        None => {
            let mut s: String = "no free virtio-blk slots (max ".to_owned();
            push_dec(&mut s, MAX_DISKS_PER_L2CPU as u64);
            s.append(")");
            return Err(Error::SlotState(s));
        },
    };
    if !state.kick_poller || state.engine_tile.is_none() {
        return Err(no_engine_error());
    }
    match built {
        Ok(()) => {},
        Err(why) => {
            let mut s: String = "VirtioBlk::from_file(".to_owned();
            s.append(path);
            s.append(") failed: ");
            s.append(why.as_str());
            return Err(Error::SlotState(s));
        },
    }
    let irq: u32 = irq_for_blk_dev_idx(dev, engine, virtio);
    let slot_idx: u32 = slot_index(l2cpu, dev, engine);
    let owned: Option<String> = match name {
        Some(n) => Some(n.to_owned()),
        None => None,
    };
    match &mut state.l2cpus[i] {
        Some(slot) => {
            slot.disks.push(DiskWorker { path: path.to_owned(), slot_idx, name: owned });
        },
        None => {},
    }
    Ok(Registration { slot_idx, irq })
}


/// Whether a disk is removed by a request for `name`; no name stands for every disk.
pub open spec fn is_removed(d: DiskWorker, name: Option<Seq<char>>) -> bool {
    name is None || string_text(d.name) == name
}

/// Why a request to remove a disk is refused.
pub open spec fn remove_disk_refusal(
    state: DaemonState,
    l2cpu: u8,
    name: Option<Seq<char>>,
) -> Option<Refusal> {
    if l2cpu >= 4 {
        Some(no_such_l2cpu())
    } else if state.l2cpus@[l2cpu as int] is None {
        Some(not_booted(l2cpu))
    } else if disks_of(state, l2cpu as int).len() == 0 {
        Some(Refusal::SlotState("no disk attached"@))
    } else if name is Some && !disk_named(disks_of(state, l2cpu as int), name->0) {
        Some(
            Refusal::SlotState(
                "no disk with name "@ + quoted(name->0) + " attached to l2cpu "@ + dec(
                    l2cpu as nat,
                ),
            ),
        )
    } else {
        None
    }
}

fn matches_name(d: &DiskWorker, name: Option<&str>) -> (r: bool)
    ensures
        r == is_removed(*d, text_of(name)),
{
    match name {
        None => true,
        Some(want) => match &d.name {
            Some(n) => same(n.as_str(), want),
            None => false,
        },
    }
}

/// Moves the disks that are removed out of `disks`.
fn split_disks(disks: &mut Vec<DiskWorker>, name: Option<&str>) -> (taken: Vec<DiskWorker>)
    ensures
        taken@ == old(disks)@.filter(|d: DiskWorker| is_removed(d, text_of(name))),
        final(disks)@ == old(disks)@.filter(|d: DiskWorker| !is_removed(d, text_of(name))),
{
    let ghost all = disks@;
    let ghost goes = |d: DiskWorker| is_removed(d, text_of(name));
    let ghost stays = |d: DiskWorker| !is_removed(d, text_of(name));
    let mut taken: Vec<DiskWorker> = Vec::new();
    let mut i: usize = 0;
    let ghost mut j: int = 0;
    proof {
        reveal(Seq::filter);
        assert(all.take(0) =~= Seq::<DiskWorker>::empty());
        assert(all.take(0).filter(stays) + all.skip(0) =~= all);
    }
    while i < disks.len()
        invariant
            goes == (|d: DiskWorker| is_removed(d, text_of(name))),
            stays == (|d: DiskWorker| !is_removed(d, text_of(name))),
            0 <= j <= all.len(),
            i == all.take(j).filter(stays).len(),
            disks@ == all.take(j).filter(stays) + all.skip(j),
            taken@ == all.take(j).filter(goes),
        decreases all.len() - j,
    {
        let ghost kept = all.take(j).filter(stays);
        proof {
            reveal(Seq::filter);
            assert(disks@[i as int] == all[j]);
            assert(all.take(j + 1).drop_last() =~= all.take(j));
            assert(all.take(j + 1).last() == all[j]);
        }
        if matches_name(&disks[i], name) {
            let d: DiskWorker = disks.remove(i);
            taken.push(d);
            assert(disks@ =~= kept + all.skip(j + 1));
        } else {
            assert(disks@ =~= kept.push(all[j]) + all.skip(j + 1));
            i = i + 1;
        }
        proof {
            j = j + 1;
        }
    }
    proof {
        assert(disks@.len() == all.take(j).filter(stays).len() + (all.len() - j));
        assert(all.take(j) =~= all);
        assert(all.take(j).filter(stays) + all.skip(j) =~= all.filter(stays));
    }
    taken
}

proof fn lemma_filter_still_placed(
    disks: Seq<DiskWorker>,
    l2cpu: int,
    engine: EngineRegs,
    p: spec_fn(DiskWorker) -> bool,
)
    requires
        disks_placed(disks, l2cpu, engine),
    ensures
        disks_placed(disks.filter(p), l2cpu, engine),
    decreases disks.len(),
{
    reveal(Seq::filter);
    if disks.len() > 0 {
        let t = disks.drop_last();
        assert forall|i: int| 0 <= i < t.len() implies engine_slot(l2cpu, 0, engine) <= (
        #[trigger] t[i]).slot_idx by {
            assert(engine_slot(l2cpu, 0, engine) <= disks[i].slot_idx);
        }
        lemma_filter_still_placed(t, l2cpu, engine, p);
        assert(engine_slot(l2cpu, 0, engine) <= disks[disks.len() - 1].slot_idx);
    }
}

/// Detaches the disk of this name from an L2CPU, or every disk. Gives back what was detached, for
/// the caller to unregister.
pub fn dispatch_remove_disk(state: &mut DaemonState, l2cpu: u8, name: Option<&str>) -> (r: Result<
    Vec<DiskWorker>,
>)
    requires
        old(state).wf(),
    ensures
        final(state).wf(),
        forall|engine: EngineRegs| #[trigger]
            disks_placed(disks_of(*old(state), l2cpu as int), l2cpu as int, engine) && l2cpu < 4
                ==> disks_placed(disks_of(*final(state), l2cpu as int), l2cpu as int, engine),
        match remove_disk_refusal(*old(state), l2cpu, text_of(name)) {
            Some(f) => refused(r, f) && *final(state) == *old(state),
            None => {
                let slot = old(state).l2cpus@[l2cpu as int]->0;
                &&& r matches Ok(taken) && taken@ == slot.disks@.filter(
                    |d: DiskWorker| is_removed(d, text_of(name)),
                )
                &&& old(state).same_but_slot(*final(state), l2cpu as int)
                &&& final(state).l2cpus@[l2cpu as int] matches Some(after) && slot.is_with(
                    after,
                    slot.disks@.filter(|d: DiskWorker| !is_removed(d, text_of(name))),
                    slot.net,
                    slot.virtio_console is Some,
                    slot.virtio_rng,
                ) && after.virtio_console == slot.virtio_console
            },
        },
{
    let i: usize = match validate_l2cpu(l2cpu) {
        Ok(i) => i,
        Err(e) => {
            return Err(e);
        },
    };
    let slot: &L2CpuSlot = match &state.l2cpus[i] {
        Some(slot) => slot,
        None => {
            return Err(not_booted_error(l2cpu));
        },
    };
    match validate_remove_disk_request(slot.disks.len() == 0) {
        Ok(()) => {},
        Err(text) => {
            return Err(Error::slot_state(text));
        },
    }
    let mut found: bool = false;
    let mut k: usize = 0;
    while k < slot.disks.len()
        invariant
            k <= slot.disks@.len(),
            found == exists|m: int| 0 <= m < k && is_removed(#[trigger] slot.disks@[m], text_of(name)),
        decreases slot.disks@.len() - k,
    {
        if matches_name(&slot.disks[k], name) {
            found = true;
            assert(is_removed(slot.disks@[k as int], text_of(name)));
        }
        k = k + 1;
    }
    proof {
        let disks = slot.disks@;
        if name is Some {
            let n = name->0@;
            if disk_named(disks, n) {
                let m = choose|m: int|
                    0 <= m < disks.len() && string_text((#[trigger] disks[m]).name) == Some(n);
                assert(is_removed(disks[m], text_of(name)));
            }
            if found {
                let m = choose|m: int|
                    0 <= m < disks.len() && is_removed(#[trigger] disks[m], text_of(name));
                assert(string_text(disks[m].name) == Some(n));
            }
        }
    }
    match name {
        Some(want) => {
            if !found {
                let mut s: String = "no disk with name ".to_owned();
                push_quoted(&mut s, want);
                s.append(" attached to l2cpu ");
                push_dec(&mut s, l2cpu as u64);
                return Err(Error::SlotState(s));
            }
        },
        None => {},
    }
    let ghost stays = |d: DiskWorker| !is_removed(d, text_of(name));
    let ghost before = slot.disks@;
    proof {
        assert forall|engine: EngineRegs| #[trigger]
            disks_placed(before, l2cpu as int, engine) implies disks_placed(
            before.filter(stays),
            l2cpu as int,
            engine,
        ) by {
            lemma_filter_still_placed(before, l2cpu as int, engine, stays);
        }
    }
    match &mut state.l2cpus[i] {
        Some(slot) => {
            let taken: Vec<DiskWorker> = split_disks(&mut slot.disks, name);
            Ok(taken)
        },
        None => Ok(Vec::new()),
    }
}

// ---------------------------------------------------------------------------
// Network
// ---------------------------------------------------------------------------

/// The ports that are forwarded: secure shell first, then what the operator asked for.
pub open spec fn forward_list(ssh_port: u16, extra: Seq<(u16, u16)>) -> Seq<(u16, u16)> {
    seq![(ssh_port, SSH_GUEST_PORT)] + extra
}

/// The host port for secure shell: the one asked for, or else the usual one.
pub open spec fn chosen_port(ssh_port: Option<u16>, usual: u16) -> u16 {
    match ssh_port {
        Some(p) => p,
        None => usual,
    }
}

/// The ports to forward.
pub fn forwards(ssh_port: Option<u16>, usual: u16, extra: &[(u16, u16)]) -> (list: Vec<(u16, u16)>)
    ensures
        list@ == forward_list(chosen_port(ssh_port, usual), extra@),
{
    let port: u16 = match ssh_port {
        Some(p) => p,
        None => usual,
    };
    let mut list: Vec<(u16, u16)> = Vec::new();
    list.push((port, SSH_GUEST_PORT));
    let mut i: usize = 0;
    while i < extra.len()
        invariant
            i <= extra@.len(),
            list@ == forward_list(port, extra@.take(i as int)),
        decreases extra@.len() - i,
    {
        list.push(extra[i]);
        i = i + 1;
        assert(list@ =~= forward_list(port, extra@.take(i as int)));
    }
    assert(extra@.take(i as int) =~= extra@);
    list
}

fn copy_forwards(extra: &[(u16, u16)]) -> (list: Vec<(u16, u16)>)
    ensures
        list@ == extra@,
{
    let mut list: Vec<(u16, u16)> = Vec::new();
    let mut i: usize = 0;
    while i < extra.len()
        invariant
            i <= extra@.len(),
            list@ == extra@.take(i as int),
        decreases extra@.len() - i,
    {
        list.push(extra[i]);
        i = i + 1;
        assert(list@ =~= extra@.take(i as int));
    }
    assert(list@ =~= extra@);
    list
}

/// Why a request to attach the network is refused. `busy` is the first host port that could not be
/// bound, if any.
pub open spec fn add_net_refusal(
    state: DaemonState,
    l2cpu: u8,
    busy: Option<(u16, IoSource)>,
    built: std::result::Result<(), String>,
) -> Option<Refusal> {
    if l2cpu >= 4 {
        Some(no_such_l2cpu())
    } else if state.l2cpus@[l2cpu as int] is None {
        Some(not_booted(l2cpu))
    } else if state.l2cpus@[l2cpu as int]->0.net {
        Some(Refusal::SlotState("network already attached"@))
    } else if busy is Some {
        Some(
            Refusal::Io(
                "host port "@ + dec((busy->0).0 as nat)
                    + " unavailable. Pass a different host port (--fwd HOST:GUEST or --ssh-port), or stop whatever's using it"@,
                (busy->0).1,
            ),
        )
    } else if !state.kick_poller {
        Some(no_engine())
    } else {
        match built {
            Ok(()) => None,
            Err(why) => Some(Refusal::SlotState("VirtioNet::new failed: "@ + why@)),
        }
    }
}

/// Attaches the network to a booted L2CPU. Says where the device is to be registered.
pub fn dispatch_add_net(
    state: &mut DaemonState,
    l2cpu: u8,
    extra_fwd: &[(u16, u16)],
    busy: Option<(u16, IoSource)>,
    built: std::result::Result<(), String>,
    engine: &EngineRegs,
    virtio: &VirtioRegs,
) -> (r: Result<Registration>)
    requires
        old(state).wf(),
        engine.wf(),
    ensures
        final(state).wf(),
        match add_net_refusal(*old(state), l2cpu, busy, built) {
            Some(f) => refused(r, f) && *final(state) == *old(state),
            None => {
                let slot = old(state).l2cpus@[l2cpu as int]->0;
                &&& r matches Ok(reg) && reg.slot_idx == engine_slot(
                    l2cpu as int,
                    engine.dev_net as int,
                    *engine,
                ) && reg.irq == virtio.net_irq
                &&& old(state).same_but_slot(*final(state), l2cpu as int)
                &&& final(state).l2cpus@[l2cpu as int] matches Some(after) && after.net
                    && after.net_extra_fwd@ == extra_fwd@ && after == (L2CpuSlot {
                    net: true,
                    net_extra_fwd: after.net_extra_fwd,
                    ..slot
                })
            },
        },
{
    let i: usize = match validate_l2cpu(l2cpu) {
        Ok(i) => i,
        Err(e) => {
            return Err(e);
        },
    };
    match &state.l2cpus[i] {
        Some(slot) => {
            if slot.net {
                return Err(Error::slot_state("network already attached"));
            }
        },
        None => {
            return Err(not_booted_error(l2cpu));
        },
    }
    match busy {
        Some((port, source)) => {
            let mut s: String = "host port ".to_owned();
            push_dec(&mut s, port as u64);
            s.append(
                " unavailable. Pass a different host port (--fwd HOST:GUEST or --ssh-port), or stop whatever's using it",
            );
            return Err(Error::Io { ctx: s, source });
        },
        None => {},
    }
    if !state.kick_poller {
        return Err(no_engine_error());
    }
    match built {
        Ok(()) => {},
        Err(why) => {
            let mut s: String = "VirtioNet::new failed: ".to_owned();
            s.append(why.as_str());
            return Err(Error::SlotState(s));
        },
    }
    let slot_idx: u32 = slot_index(l2cpu, engine.dev_net, engine);
    match &mut state.l2cpus[i] {
        Some(slot) => {
            slot.net = true;
            slot.net_extra_fwd = copy_forwards(extra_fwd);
        },
        None => {},
    }
    Ok(Registration { slot_idx, irq: virtio.net_irq })
}

/// Why a request to detach the network is refused.
pub open spec fn remove_net_refusal(state: DaemonState, l2cpu: u8) -> Option<Refusal> {
    if l2cpu >= 4 {
        Some(no_such_l2cpu())
    } else if state.l2cpus@[l2cpu as int] is None {
        Some(not_booted(l2cpu))
    } else if !state.l2cpus@[l2cpu as int]->0.net {
        Some(Refusal::SlotState("no net attached"@))
    } else {
        None
    }
}

/// Detaches the network. Gives back the slot of the engine to unregister.
pub fn dispatch_remove_net(state: &mut DaemonState, l2cpu: u8, engine: &EngineRegs) -> (r: Result<u32>)
    requires
        old(state).wf(),
        engine.wf(),
    ensures
        final(state).wf(),
        match remove_net_refusal(*old(state), l2cpu) {
            Some(f) => refused(r, f) && *final(state) == *old(state),
            None => {
                let slot = old(state).l2cpus@[l2cpu as int]->0;
                &&& r matches Ok(gone) && gone == engine_slot(
                    l2cpu as int,
                    engine.dev_net as int,
                    *engine,
                )
                &&& old(state).same_but_slot(*final(state), l2cpu as int)
                &&& final(state).l2cpus@[l2cpu as int] == Some(L2CpuSlot { net: false, ..slot })
            },
        },
{
    let i: usize = match validate_l2cpu(l2cpu) {
        Ok(i) => i,
        Err(e) => {
            return Err(e);
        },
    };
    match &state.l2cpus[i] {
        Some(slot) => {
            if !slot.net {
                return Err(Error::slot_state("no net attached"));
            }
        },
        None => {
            return Err(not_booted_error(l2cpu));
        },
    }
    let gone: u32 = slot_index(l2cpu, engine.dev_net, engine);
    match &mut state.l2cpus[i] {
        Some(slot) => {
            slot.net = false;
        },
        None => {},
    }
    Ok(gone)
}

// ---------------------------------------------------------------------------
// Virtio console
// ---------------------------------------------------------------------------

/// Why a request to attach a virtio console is refused.
pub open spec fn add_console_refusal(state: DaemonState, l2cpu: u8) -> Option<Refusal> {
    if l2cpu >= 4 {
        Some(no_such_l2cpu())
    } else if state.l2cpus@[l2cpu as int] is None {
        Some(not_booted(l2cpu))
    } else if state.l2cpus@[l2cpu as int]->0.virtio_console is Some {
        Some(Refusal::SlotState("virtio-console already attached"@))
    } else if !state.kick_poller {
        Some(no_engine())
    } else {
        None
    }
}

/// Attaches a virtio console, with no keystroke waiting.
pub fn dispatch_add_console(
    state: &mut DaemonState,
    l2cpu: u8,
    engine: &EngineRegs,
    virtio: &VirtioRegs,
) -> (r: Result<Registration>)
    requires
        old(state).wf(),
        engine.wf(),
    ensures
        final(state).wf(),
        match add_console_refusal(*old(state), l2cpu) {
            Some(f) => refused(r, f) && *final(state) == *old(state),
            None => {
                let slot = old(state).l2cpus@[l2cpu as int]->0;
                &&& r matches Ok(reg) && reg.slot_idx == engine_slot(
                    l2cpu as int,
                    engine.dev_console as int,
                    *engine,
                ) && reg.irq == virtio.console_irq
                &&& old(state).same_but_slot(*final(state), l2cpu as int)
                &&& final(state).l2cpus@[l2cpu as int] matches Some(after)
                    && after.virtio_console matches Some(vc) && vc.input_buf@.len() == 0 && after
                    == (L2CpuSlot { virtio_console: after.virtio_console, ..slot })
            },
        },
{
    let i: usize = match validate_l2cpu(l2cpu) {
        Ok(i) => i,
        Err(e) => {
            return Err(e);
        },
    };
    match &state.l2cpus[i] {
        Some(slot) => {
            if slot.virtio_console.is_some() {
                return Err(Error::slot_state("virtio-console already attached"));
            }
        },
        None => {
            return Err(not_booted_error(l2cpu));
        },
    }
    if !state.kick_poller {
        return Err(no_engine_error());
    }
    let slot_idx: u32 = slot_index(l2cpu, engine.dev_console, engine);
    match &mut state.l2cpus[i] {
        Some(slot) => {
            slot.virtio_console = Some(VirtioConsoleSlot { input_buf: VecDeque::new() });
        },
        None => {},
    }
    Ok(Registration { slot_idx, irq: virtio.console_irq })
}

/// Why a request to detach the virtio console is refused.
pub open spec fn remove_console_refusal(state: DaemonState, l2cpu: u8) -> Option<Refusal> {
    if l2cpu >= 4 {
        Some(no_such_l2cpu())
    } else if state.l2cpus@[l2cpu as int] is None {
        Some(not_booted(l2cpu))
    } else if state.l2cpus@[l2cpu as int]->0.virtio_console is None {
        Some(Refusal::SlotState("no virtio-console attached"@))
    } else {
        None
    }
}

/// Detaches the virtio console. Gives back the slot of the engine to unregister.
pub fn dispatch_remove_console(state: &mut DaemonState, l2cpu: u8, engine: &EngineRegs) -> (r:
    Result<u32>)
    requires
        old(state).wf(),
        engine.wf(),
    ensures
        final(state).wf(),
        match remove_console_refusal(*old(state), l2cpu) {
            Some(f) => refused(r, f) && *final(state) == *old(state),
            None => {
                let slot = old(state).l2cpus@[l2cpu as int]->0;
                &&& r matches Ok(gone) && gone == engine_slot(
                    l2cpu as int,
                    engine.dev_console as int,
                    *engine,
                )
                &&& old(state).same_but_slot(*final(state), l2cpu as int)
                &&& final(state).l2cpus@[l2cpu as int] == Some(
                    L2CpuSlot { virtio_console: None, ..slot },
                )
            },
        },
{
    let i: usize = match validate_l2cpu(l2cpu) {
        Ok(i) => i,
        Err(e) => {
            return Err(e);
        },
    };
    match &state.l2cpus[i] {
        Some(slot) => {
            if slot.virtio_console.is_none() {
                return Err(Error::slot_state("no virtio-console attached"));
            }
        },
        None => {
            return Err(not_booted_error(l2cpu));
        },
    }
    let gone: u32 = slot_index(l2cpu, engine.dev_console, engine);
    match &mut state.l2cpus[i] {
        Some(slot) => {
            slot.virtio_console = None;
        },
        None => {},
    }
    Ok(gone)
}


// ---------------------------------------------------------------------------
// Console clients
// ---------------------------------------------------------------------------

/// What a client that asked for a console gets.
#[derive(Debug)]
pub struct Attachment {
    /// Who it is among the clients of a live console; nobody where the slot is gone.
    pub client: Option<AttachResult>,
    /// What it replays first.
    pub replay: Vec<u8>,
    pub answer: Response,
}

/// Why a request for a console is refused.
pub open spec fn attach_refusal(state: DaemonState, l2cpu: u8, mode: ConsoleMode) -> Option<
    Refusal,
> {
    if l2cpu >= 4 {
        Some(no_such_l2cpu())
    } else if state.l2cpus@[l2cpu as int] is Some {
        None
    } else if mode != ConsoleMode::Ro {
        Some(
            Refusal::SlotState(
                "l2cpu "@ + dec(l2cpu as nat)
                    + " is not booted; attach in Ro mode to view the last scrollback"@,
            ),
        )
    } else if state.shutdown_tails@[l2cpu as int]@.len() == 0 {
        Some(not_booted(l2cpu))
    } else {
        None
    }
}

/// What a client of a live console gets.
pub open spec fn is_live_attachment(a: Attachment, hub: ConsoleHub, mode: ConsoleMode) -> bool {
    &&& a.replay@ == hub.printed()
    &&& a.answer == (Response::Attached {
        scrollback_bytes: hub.printed().len() as u32,
        live: true,
    })
    &&& a.client is Some
    &&& a.client->0.id == hub.fresh_id()
    &&& a.client->0.is_writer == becomes_writer(hub.attached(), mode)
    &&& a.client->0.scrollback_bytes == hub.printed().len()
    &&& a.client->0.demoted@ == match (mode, writer_of(hub.attached())) {
        (ConsoleMode::Takeover, Some(prev)) => seq![prev],
        _ => Seq::<u64>::empty(),
    }
}

fn copy_bytes(b: &Vec<u8>) -> (v: Vec<u8>)
    ensures
        v@ == b@,
{
    let mut v: Vec<u8> = Vec::new();
    let mut i: usize = 0;
    while i < b.len()
        invariant
            i <= b@.len(),
            v@ == b@.take(i as int),
        decreases b@.len() - i,
    {
        v.push(b[i]);
        i = i + 1;
        assert(v@ =~= b@.take(i as int));
    }
    assert(v@ =~= b@);
    v
}

/// Attaches a client to the console of an L2CPU. Where the slot is gone, what its console printed
/// last can still be read.
pub fn dispatch_attach_console(
    state: &mut DaemonState,
    l2cpu: u8,
    mode: ConsoleMode,
    gauge: &mut PerL2cpuGauge,
) -> (r: Result<Attachment>)
    requires
        old(state).wf(),
        l2cpu < 4 ==> (old(state).l2cpus@[l2cpu as int] matches Some(slot)
            ==> slot.console_hub.fresh_id() < u64::MAX),
    ensures
        final(state).wf(),
        match attach_refusal(*old(state), l2cpu, mode) {
            Some(f) => refused(r, f) && *final(state) == *old(state) && *final(gauge) == *old(
                gauge,
            ),
            None => match old(state).l2cpus@[l2cpu as int] {
                Some(slot) => {
                    let hub = slot.console_hub;
                    &&& old(state).same_but_slot(*final(state), l2cpu as int)
                    &&& final(state).l2cpus@[l2cpu as int] matches Some(after) && {
                        &&& after == (L2CpuSlot { console_hub: after.console_hub, ..slot })
                        &&& after.console_hub.printed() == hub.printed()
                        &&& after.console_hub.attached() == clients_with(
                            hub.attached(),
                            hub.fresh_id(),
                            mode,
                        )
                        &&& after.console_hub.fresh_id() == hub.fresh_id() + 1
                    }
                    &&& final(gauge)@ == old(gauge)@.update(
                        l2cpu as int,
                        (hub.attached().len() + 1) as i64,
                    )
                    &&& r matches Ok(a) && is_live_attachment(a, hub, mode)
                },
                None => {
                    let tail = old(state).shutdown_tails@[l2cpu as int]@;
                    &&& *final(state) == *old(state)
                    &&& *final(gauge) == *old(gauge)
                    &&& r matches Ok(a) && a.client is None && a.replay@ == tail && a.answer
                        == (Response::Attached {
                        scrollback_bytes: tail.len() as u32,
                        live: false,
                    })
                },
            },
        },
{
    let i: usize = match validate_l2cpu(l2cpu) {
        Ok(i) => i,
        Err(e) => {
            return Err(e);
        },
    };
    if state.l2cpus[i].is_none() {
        match mode {
            ConsoleMode::Ro => {},
            _ => {
                let mut s: String = "l2cpu ".to_owned();
                push_dec(&mut s, l2cpu as u64);
                s.append(" is not booted; attach in Ro mode to view the last scrollback");
                return Err(Error::SlotState(s));
            },
        }
        let tail: Vec<u8> = copy_bytes(&state.shutdown_tails[i]);
        if tail.len() == 0 {
            return Err(not_booted_error(l2cpu));
        }
        let bytes: u32 = tail.len() as u32;
        return Ok(
            Attachment {
                client: None,
                replay: tail,
                answer: Response::Attached { scrollback_bytes: bytes, live: false },
            },
        );
    }
    match &mut state.l2cpus[i] {
        Some(slot) => {
            let (result, replay): (AttachResult, Vec<u8>) = slot.console_hub.attach(mode, gauge);
            let bytes: u32 = result.scrollback_bytes;
            Ok(
                Attachment {
                    client: Some(result),
                    replay,
                    answer: Response::Attached { scrollback_bytes: bytes, live: true },
                },
            )
        },
        None => Err(not_booted_error(l2cpu)),
    }
}

/// Takes what a client typed: the bytes that go to the core, which are all of them or none. The
/// keystrokes of the writer go to the virtio console as well, where there is one; what waits there
/// is bounded, and the oldest is dropped first.
pub fn client_reader_main(slot: &mut L2CpuSlot, id: u64, bytes: &[u8]) -> (to_chip: Vec<u8>)
    requires
        old(slot).input_fits(),
    ensures
        final(slot).input_fits(),
        ({
            let writes = writer_of(old(slot).console_hub.attached())
                == Some(id);
            &&& to_chip@ == if writes {
                bytes@
            } else {
                Seq::<u8>::empty()
            }
            &&& *final(slot) == (L2CpuSlot { virtio_console: final(slot).virtio_console, ..*old(slot) })
            &&& match old(slot).virtio_console {
                Some(vc) => final(slot).virtio_console matches Some(after)
                    && after.input_buf@ == if writes {
                    last_bytes(vc.input_buf@ + bytes@, RX_BUFFER_CAP as nat)
                } else {
                    vc.input_buf@
                },
                None => final(slot).virtio_console is None,
            }
        }),
{
    let writes: bool = match slot.console_hub.current_writer_id() {
        Some(w) => w == id,
        None => false,
    };
    let mut to_chip: Vec<u8> = Vec::new();
    if writes {
        crate::bytes::push_all(&mut to_chip, bytes);
        assert(to_chip@ =~= bytes@);
        match &mut slot.virtio_console {
            Some(vc) => {
                push_bounded(&mut vc.input_buf, bytes, RX_BUFFER_CAP);
            },
            None => {},
        }
    }
    to_chip
}

// ---------------------------------------------------------------------------
// Stopping
// ---------------------------------------------------------------------------

/// A slot that was taken out of the daemon's hands.
pub struct Stopped {
    /// The slot, without clients.
    pub slot: L2CpuSlot,
    /// The clients that were attached to its console.
    pub clients: Vec<u64>,
    /// The line that they are sent before their sockets are closed.
    pub line: String,
}

/// Why the clients of an L2CPU are sent away when it is stopped.
pub open spec fn stop_reason(l2cpu: u8, reason: Seq<char>) -> Seq<char> {
    "l2cpu "@ + dec(l2cpu as nat) + " stopped ("@ + reason + ")"@
}

/// The scrollback of a console once its clients were sent away.
pub open spec fn printed_with_goodbye(printed: Seq<u8>, reason: Seq<char>) -> Seq<u8> {
    last_bytes(printed + encode_utf8(goodbye(reason)), SCROLLBACK_BYTES as nat)
}

/// Tears a slot down: its clients are sent away, the end of its scrollback is kept, and the slot
/// given back for the caller to shut down. Nothing, where the L2CPU is not booted.
pub fn internal_stop(
    state: &mut DaemonState,
    l2cpu: u8,
    reason: &str,
    gauge: &mut PerL2cpuGauge,
) -> (r: Result<Option<Stopped>>)
    requires
        old(state).wf(),
    ensures
        final(state).wf(),
        l2cpu >= 4 ==> refused(r, no_such_l2cpu()) && *final(state) == *old(state)
            && *final(gauge) == *old(gauge),
        l2cpu < 4 ==> match old(state).l2cpus@[l2cpu as int] {
            None => r matches Ok(None) && *final(state) == *old(state) && *final(gauge)
                == *old(gauge),
            Some(slot) => {
                let printed = printed_with_goodbye(
                    slot.console_hub.printed(),
                    stop_reason(l2cpu, reason@),
                );
                &&& r matches Ok(Some(s)) && {
                    &&& s.slot == (L2CpuSlot { console_hub: s.slot.console_hub, ..slot })
                    &&& s.slot.console_hub.attached().len() == 0
                    &&& s.slot.console_hub.printed() == printed
                    &&& s.clients@ == slot.console_hub.attached().map_values(|c: Client| c.id)
                    &&& s.line@ == goodbye(stop_reason(l2cpu, reason@))
                }
                &&& final(state).l2cpus@[l2cpu as int] is None
                &&& final(state).shutdown_tails@[l2cpu as int]@ == last_bytes(
                    printed,
                    SHUTDOWN_TAIL_BYTES as nat,
                )
                &&& final(gauge)@ == old(gauge)@.update(l2cpu as int, 0)
                &&& final(state).card == old(state).card
                &&& final(state).wedged == old(state).wedged
                &&& final(state).engine_tile == old(state).engine_tile
                &&& final(state).kick_poller == old(state).kick_poller
                &&& final(state).shutdown == old(state).shutdown
                &&& forall|j: int|
                    0 <= j < 4 && j != l2cpu ==> #[trigger] final(state).l2cpus@[j] == old(
                        state,
                    ).l2cpus@[j]
                &&& forall|j: int|
                    0 <= j < 4 && j != l2cpu ==> #[trigger] final(state).shutdown_tails@[j] == old(
                        state,
                    ).shutdown_tails@[j]
            },
        },
{
    let i: usize = match validate_l2cpu(l2cpu) {
        Ok(i) => i,
        Err(e) => {
            return Err(e);
        },
    };
    if state.l2cpus[i].is_none() {
        return Ok(None);
    }
    let mut taken: Option<L2CpuSlot> = None;
    std::mem::swap(&mut taken, &mut state.l2cpus[i]);
    match taken {
        Some(mut slot) => {
            let mut why: String = "l2cpu ".to_owned();
            push_dec(&mut why, l2cpu as u64);
            why.append(" stopped (");
            why.append(reason);
            why.append(")");
            let clients: Vec<u64> = slot.console_hub.client_ids();
            let line: String = slot.console_hub.disconnect_all_with_reason(why.as_str(), gauge);
            let tail: Vec<u8> = slot.console_hub.tail(SHUTDOWN_TAIL_BYTES);
            state.shutdown_tails[i] = tail;
            Ok(Some(Stopped { slot, clients, line }))
        },
        None => Ok(None),
    }
}

/// The answer to a request to stop an L2CPU.
pub fn dispatch_stop(l2cpu: u8, was_booted: bool) -> (r: Result<Response>)
    ensures
        was_booted ==> (r matches Ok(answer) && answer == Response::Done),
        !was_booted ==> refused(r, not_booted(l2cpu)),
{
    if was_booted {
        Ok(Response::Done)
    } else {
        Err(not_booted_error(l2cpu))
    }
}

/// Asks the daemon to stop.
pub fn dispatch_shutdown(state: &mut DaemonState) -> (answer: Response)
    ensures
        *final(state) == (DaemonState { shutdown: true, ..*old(state) }),
        answer == Response::Done,
{
    state.shutdown = true;
    Response::Done
}

/// The slots of the engine that belong to an L2CPU, to be unregistered before it is shut down.
pub fn unregister_engine_slots(l2cpu: u8, engine: &EngineRegs) -> (slots: Vec<u32>)
    requires
        l2cpu < 4,
        engine.wf(),
    ensures
        slots@.len() == engine.devs_per_l2cpu,
        forall|d: int|
            0 <= d < slots@.len() ==> #[trigger] slots@[d] == engine_slot(l2cpu as int, d, *engine),
{
    let mut slots: Vec<u32> = Vec::new();
    let mut d: u32 = 0;
    while d < engine.devs_per_l2cpu
        invariant
            l2cpu < 4,
            engine.wf(),
            d <= engine.devs_per_l2cpu,
            slots@.len() == d,
            forall|k: int|
                0 <= k < d ==> #[trigger] slots@[k] == engine_slot(l2cpu as int, k, *engine),
        decreases engine.devs_per_l2cpu - d,
    {
        slots.push(slot_index(l2cpu, d, engine));
        d = d + 1;
    }
    slots
}

// ---------------------------------------------------------------------------
// Laws
// ---------------------------------------------------------------------------

/// What a stopped L2CPU leaves to be read ends with the line that says why it was stopped.
pub proof fn post_mortem_ends_with_the_goodbye(printed: Seq<u8>, reason: Seq<char>)
    requires
        encode_utf8(goodbye(reason)).len() <= SHUTDOWN_TAIL_BYTES,
    ensures
        ({
            let line = encode_utf8(goodbye(reason));
            let tail = last_bytes(printed_with_goodbye(printed, reason), SHUTDOWN_TAIL_BYTES as nat);
            &&& tail.len() >= line.len()
            &&& tail.skip(tail.len() - line.len()) == line
        }),
{
    let line = encode_utf8(goodbye(reason));
    let tail = last_bytes(printed_with_goodbye(printed, reason), SHUTDOWN_TAIL_BYTES as nat);
    assert(tail.skip(tail.len() - line.len()) =~= line);
}

/// What a stopped L2CPU printed can be read, by whoever only watches, until it is booted again.
pub proof fn a_stopped_console_can_be_read(
    state: DaemonState,
    l2cpu: u8,
    printed: Seq<u8>,
    reason: Seq<char>,
)
    requires
        l2cpu < 4,
        state.l2cpus@[l2cpu as int] is None,
        state.shutdown_tails@[l2cpu as int]@ == last_bytes(
            printed_with_goodbye(printed, reason),
            SHUTDOWN_TAIL_BYTES as nat,
        ),
    ensures
        attach_refusal(state, l2cpu, ConsoleMode::Ro) is None,
        attach_refusal(state, l2cpu, ConsoleMode::Rw) is Some,
        attach_refusal(state, l2cpu, ConsoleMode::Takeover) is Some,
{
    reveal_strlit("\r\n[bhx: ");
    let line = goodbye(reason);
    assert(line.len() > 0);
    assert(line[0] == '\r');
    assert(encode_utf8(line).len() > 0);
}

/// Removing a console takes back adding it, and nothing else.
pub proof fn remove_console_undoes_add_console(slot: L2CpuSlot, mid: L2CpuSlot)
    requires
        slot.virtio_console is None,
        mid == (L2CpuSlot { virtio_console: mid.virtio_console, ..slot }),
    ensures
        (L2CpuSlot { virtio_console: None, ..mid }) == slot,
{
}

/// Removing a network takes back adding it, but for the ports that were forwarded, which are
/// remembered.
pub proof fn remove_net_undoes_add_net(slot: L2CpuSlot, mid: L2CpuSlot)
    requires
        !slot.net,
        mid == (L2CpuSlot { net: true, net_extra_fwd: mid.net_extra_fwd, ..slot }),
    ensures
        (L2CpuSlot { net: false, ..mid }) == (L2CpuSlot {
            net_extra_fwd: mid.net_extra_fwd,
            ..slot
        }),
{
}

/// No two devices of the card stand on the same slot of the engine.
pub proof fn engine_slots_are_apart(a: int, b: int, c: int, d: int, engine: EngineRegs)
    requires
        0 <= a < 4,
        0 <= c < 4,
        0 <= b < engine.devs_per_l2cpu,
        0 <= d < engine.devs_per_l2cpu,
        engine_slot(a, b, engine) == engine_slot(c, d, engine),
    ensures
        a == c,
        b == d,
{
    let n = engine.devs_per_l2cpu as int;
    assert(a == c) by (nonlinear_arith)
        requires
            a * n + b == c * n + d,
            0 <= b < n,
            0 <= d < n,
    ;
}

/// A disk is put where none of the others is.
pub proof fn new_disk_gets_a_free_slot(
    disks: Seq<DiskWorker>,
    l2cpu: int,
    engine: EngineRegs,
    i: int,
)
    requires
        disks_placed(disks, l2cpu, engine),
        0 <= i < disks.len(),
        free_blk(used_devs(disks, l2cpu, engine), engine) is Some,
    ensures
        engine_slot(
            l2cpu,
            free_blk(used_devs(disks, l2cpu, engine), engine)->0 as int,
            engine,
        ) != disks[i].slot_idx,
{
    let used = used_devs(disks, l2cpu, engine);
    let dev = free_blk(used, engine)->0;
    assert(engine_slot(l2cpu, 0, engine) <= disks[i].slot_idx);
    assert(used[i] == (disks[i].slot_idx - engine_slot(l2cpu, 0, engine)) as u32);
    if engine_slot(l2cpu, dev as int, engine) == disks[i].slot_idx {
        assert(0 <= engine_slot(l2cpu, 0, engine) || engine_slot(l2cpu, 0, engine) < 0);
        assert(disks[i].slot_idx - engine_slot(l2cpu, 0, engine) == dev);
        assert(used[i] == dev);
        assert(used.contains(dev));
    }
}

proof fn lemma_filter_all(disks: Seq<DiskWorker>, p: spec_fn(DiskWorker) -> bool)
    requires
        forall|i: int| 0 <= i < disks.len() ==> p(#[trigger] disks[i]),
    ensures
        disks.filter(p) == disks,
    decreases disks.len(),
{
    reveal(Seq::filter);
    if disks.len() > 0 {
        let t = disks.drop_last();
        assert forall|i: int| 0 <= i < t.len() implies p(#[trigger] t[i]) by {
            assert(p(disks[i]));
        }
        lemma_filter_all(t, p);
        assert(p(disks[disks.len() - 1]));
        assert(t.push(disks.last()) =~= disks);
    } else {
        assert(disks.filter(p) =~= disks);
    }
}

/// Removing a disk by its name takes back adding it, and nothing else: names are not given twice.
pub proof fn remove_disk_undoes_add_disk(disks: Seq<DiskWorker>, added: DiskWorker)
    requires
        added.name is Some,
        !disk_named(disks, added.name->0@),
    ensures
        disks.push(added).filter(|d: DiskWorker| !is_removed(d, string_text(added.name))) == disks,
{
    let name = string_text(added.name);
    let stays = |d: DiskWorker| !is_removed(d, name);
    reveal(Seq::filter);
    assert(disks.push(added).drop_last() =~= disks);
    assert(!stays(disks.push(added).last()));
    assert forall|i: int| 0 <= i < disks.len() implies stays(#[trigger] disks[i]) by {
        assert(string_text(disks[i].name) != Some(added.name->0@));
    }
    lemma_filter_all(disks, stays);
}

} // verus!
