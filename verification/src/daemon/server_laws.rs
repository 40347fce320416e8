//! What holds of every request: which are refused and why, what a new device gets, and what is told.
use vstd::prelude::*;

#[allow(unused_imports)]
use crate::daemon::client::{is_failure, unexpected_text};
#[allow(unused_imports)]
use crate::daemon::console_hub::{
    becomes_writer, clients_with, dropped_ids, goodbye, last_bytes, without, writer_of, Client,
    ConsoleHub, SCROLLBACK_BYTES, SHUTDOWN_TAIL_BYTES,
};
#[allow(unused_imports)]
use crate::daemon::protocol::{ConsoleMode, L2CpuStatus, Request, Response};
#[allow(unused_imports)]
use crate::daemon::purgatory::PurgatoryCells;
#[allow(unused_imports)]
use crate::daemon::server::{
    add_console_refusal, add_disk_refusal, add_net_refusal, attach_refusal, blk_irq, chosen_port,
    disk_named, disk_refusal, disks_placed, engine_slot, forward_list, free_blk, has_name,
    is_live_attachment, is_removed, is_wire_text, method_of, no_engine, refused,
    remove_console_refusal, remove_disk_refusal, remove_net_refusal, stop_reason, string_text,
    used_devs, Attachment, Refusal, MAX_DISKS_PER_L2CPU, SSH_GUEST_PORT,
};
#[allow(unused_imports)]
use crate::daemon::state::{DaemonState, DiskWorker, L2CpuSlot, RX_BUFFER_CAP};
#[allow(unused_imports)]
use crate::daemon::status::{is_status, pll_dividers, pll_text, shown_meta};
#[allow(unused_imports)]
use crate::error::{is_internal, Error, IoSource, Result};
#[allow(unused_imports)]
use crate::regs::{EngineRegs, PurgatoryRegs, VirtioRegs};
#[allow(unused_imports)]
use crate::text::{dec, hex, quoted, zero_padded};
#[allow(unused_imports)]
use crate::text_laws::numbers_are_written_digit_by_digit;

verus! {

// ---------------------------------------------------------------------------
// Refusals
// ---------------------------------------------------------------------------

proof fn lemma_three()
    ensures
        dec(3) == "3"@,
        dec(3) + ")"@ == "3)"@,
        " disks attached (max "@ + dec(3) + ")"@ == " disks attached (max 3)"@,
        "no free virtio-blk slots (max "@ + dec(3) + ")"@ == "no free virtio-blk slots (max 3)"@,
{
    numbers_are_written_digit_by_digit(1, 3);
    reveal_strlit("3");
    reveal_strlit(")");
    reveal_strlit("3)");
    reveal_strlit(" disks attached (max ");
    reveal_strlit(" disks attached (max 3)");
    reveal_strlit("no free virtio-blk slots (max ");
    reveal_strlit("no free virtio-blk slots (max 3)");
    assert(dec(3) =~= "3"@);
    assert(dec(3) + ")"@ =~= "3)"@);
    assert(" disks attached (max "@ + dec(3) + ")"@ =~= " disks attached (max 3)"@);
    assert("no free virtio-blk slots (max "@ + dec(3) + ")"@
        =~= "no free virtio-blk slots (max 3)"@);
}

/// A request that names no L2CPU, or one that is not booted, is refused with words of its own
/// before anything else is looked at.
pub proof fn only_a_booted_l2cpu_is_served(
    state: DaemonState,
    l2cpu: u8,
    path: Seq<char>,
    name: Option<Seq<char>>,
    opened: std::result::Result<(), IoSource>,
    built: std::result::Result<(), String>,
    busy: Option<(u16, IoSource)>,
    engine: EngineRegs,
)
    ensures
        l2cpu > 3 ==> {
            let no = Some(Refusal::BadRequest("l2cpu must be 0..3"@));
            &&& add_disk_refusal(state, l2cpu, path, name, opened, built, engine) == no
            &&& remove_disk_refusal(state, l2cpu, name) == no
            &&& add_net_refusal(state, l2cpu, busy, built) == no
            &&& remove_net_refusal(state, l2cpu) == no
            &&& add_console_refusal(state, l2cpu) == no
            &&& remove_console_refusal(state, l2cpu) == no
            &&& attach_refusal(state, l2cpu, ConsoleMode::Ro) == no
            &&& attach_refusal(state, l2cpu, ConsoleMode::Rw) == no
            &&& attach_refusal(state, l2cpu, ConsoleMode::Takeover) == no
        },
        l2cpu <= 3 && state.l2cpus@[l2cpu as int] is None ==> {
            let no = Some(
                Refusal::SlotState("l2cpu "@ + dec(l2cpu as nat) + " is not booted"@),
            );
            &&& add_disk_refusal(state, l2cpu, path, name, opened, built, engine) == no
            &&& remove_disk_refusal(state, l2cpu, name) == no
            &&& add_net_refusal(state, l2cpu, busy, built) == no
            &&& remove_net_refusal(state, l2cpu) == no
            &&& add_console_refusal(state, l2cpu) == no
            &&& remove_console_refusal(state, l2cpu) == no
        },
{
}

/// A disk is added exactly where there are fewer than three, none has its name, its image opens, a
/// place is free, the engine runs and the device can be made. Each thing that is missing has words
/// of its own, and the first one counts.
pub proof fn when_a_disk_is_added(
    state: DaemonState,
    l2cpu: u8,
    path: Seq<char>,
    name: Option<Seq<char>>,
    opened: std::result::Result<(), IoSource>,
    built: std::result::Result<(), String>,
    engine: EngineRegs,
)
    requires
        l2cpu <= 3,
        state.l2cpus@[l2cpu as int] is Some,
    ensures
        ({
            let disks = state.l2cpus@[l2cpu as int]->0.disks@;
            let taken = name is Some && exists|i: int|
                0 <= i < disks.len() && (#[trigger] disks[i]).name is Some && disks[i].name->0@
                    == name->0;
            let free = free_blk(used_devs(disks, l2cpu as int, engine), engine) is Some;
            let runs = state.kick_poller && state.engine_tile is Some;
            let r = add_disk_refusal(state, l2cpu, path, name, opened, built, engine);
            &&& r is None <==> disks.len() < 3 && !taken && opened is Ok && free && runs
                && built is Ok
            &&& disks.len() >= 3 ==> r == Some(
                Refusal::SlotState(
                    "L2CPU already has "@ + dec(disks.len()) + " disks attached (max 3)"@,
                ),
            )
            &&& disks.len() < 3 && taken ==> r == Some(
                Refusal::SlotState("L2CPU already has a disk with name "@ + quoted(name->0)),
            )
            &&& disks.len() < 3 && !taken && opened is Err ==> r == Some(
                Refusal::Io("cannot open disk image "@ + path, opened->Err_0),
            )
            &&& disks.len() < 3 && !taken && opened is Ok && !free ==> r == Some(
                Refusal::SlotState("no free virtio-blk slots (max 3)"@),
            )
            &&& disks.len() < 3 && !taken && opened is Ok && free && !runs ==> r == Some(
                Refusal::SlotState("tensix engine not yet brought up; cold-boot the L2CPU first"@),
            )
            &&& disks.len() < 3 && !taken && opened is Ok && free && runs && built is Err ==> r
                == Some(
                Refusal::SlotState(
                    "VirtioBlk::from_file("@ + path + ") failed: "@ + built->Err_0@,
                ),
            )
        }),
{
    lemma_three();
    let disks = state.l2cpus@[l2cpu as int]->0.disks@;
    assert("L2CPU already has "@ + dec(disks.len()) + " disks attached (max 3)"@
        =~= "L2CPU already has "@ + dec(disks.len()) + " disks attached (max "@ + dec(3) + ")"@)
        by {
        let head = "L2CPU already has "@ + dec(disks.len());
        assert(head + (" disks attached (max "@ + dec(3) + ")"@) =~= head
            + " disks attached (max "@ + dec(3) + ")"@);
    }
    if name is Some {
        lemma_named(disks, name->0);
    }
}

proof fn lemma_named(disks: Seq<DiskWorker>, name: Seq<char>)
    ensures
        disk_named(disks, name) <==> exists|i: int|
            0 <= i < disks.len() && (#[trigger] disks[i]).name is Some && disks[i].name->0@ == name,
{
    if disk_named(disks, name) {
        let i = choose|i: int|
            0 <= i < disks.len() && string_text((#[trigger] disks[i]).name) == Some(name);
        assert(disks[i].name is Some && disks[i].name->0@ == name);
    }
    if exists|i: int|
        0 <= i < disks.len() && (#[trigger] disks[i]).name is Some && disks[i].name->0@ == name {
        let i = choose|i: int|
            0 <= i < disks.len() && (#[trigger] disks[i]).name is Some && disks[i].name->0@ == name;
        assert(string_text(disks[i].name) == Some(name));
    }
}

/// A disk that is to be opened is looked at in the same order: how many there are, its name, its
/// image.
pub proof fn when_a_disk_may_be_opened(
    count: usize,
    name: Option<Seq<char>>,
    names: Seq<Option<String>>,
    path: Seq<char>,
    opened: std::result::Result<(), IoSource>,
)
    ensures
        ({
            let taken = name is Some && exists|i: int|
                0 <= i < names.len() && (#[trigger] names[i]) is Some && names[i]->0@ == name->0;
            let r = disk_refusal(count, name, names, path, opened);
            &&& r is None <==> count < 3 && !taken && opened is Ok
            &&& count >= 3 ==> r == Some(
                Refusal::SlotState(
                    "L2CPU already has "@ + dec(count as nat) + " disks attached (max 3)"@,
                ),
            )
            &&& count < 3 && taken ==> r == Some(
                Refusal::SlotState("L2CPU already has a disk with name "@ + quoted(name->0)),
            )
            &&& count < 3 && !taken && opened is Err ==> r == Some(
                Refusal::Io("cannot open disk image "@ + path, opened->Err_0),
            )
        }),
{
    lemma_three();
    let head = "L2CPU already has "@ + dec(count as nat);
    assert(head + (" disks attached (max "@ + dec(3) + ")"@) =~= head + " disks attached (max "@
        + dec(3) + ")"@);
    if name is Some {
        if has_name(names, name->0) {
            let i = choose|i: int|
                0 <= i < names.len() && string_text(#[trigger] names[i]) == Some(name->0);
            assert(names[i] is Some && names[i]->0@ == name->0);
        }
        if exists|i: int|
            0 <= i < names.len() && (#[trigger] names[i]) is Some && names[i]->0@ == name->0 {
            let i = choose|i: int|
                0 <= i < names.len() && (#[trigger] names[i]) is Some && names[i]->0@ == name->0;
            assert(string_text(names[i]) == Some(name->0));
        }
    }
}

/// A disk is removed exactly where there is one, and where a name was given exactly where one has
/// it. Without a name all go; with one, those that have it.
pub proof fn when_a_disk_is_removed(state: DaemonState, l2cpu: u8, name: Option<Seq<char>>, d: DiskWorker)
    requires
        l2cpu <= 3,
        state.l2cpus@[l2cpu as int] is Some,
    ensures
        ({
            let disks = state.l2cpus@[l2cpu as int]->0.disks@;
            let there = name is None || exists|i: int|
                0 <= i < disks.len() && (#[trigger] disks[i]).name is Some && disks[i].name->0@
                    == name->0;
            let r = remove_disk_refusal(state, l2cpu, name);
            &&& r is None <==> disks.len() > 0 && there
            &&& disks.len() == 0 ==> r == Some(Refusal::SlotState("no disk attached"@))
            &&& disks.len() > 0 && !there ==> r == Some(
                Refusal::SlotState(
                    "no disk with name "@ + quoted(name->0) + " attached to l2cpu "@ + dec(
                        l2cpu as nat,
                    ),
                ),
            )
        }),
        name is None ==> is_removed(d, name),
        name is Some ==> (is_removed(d, name) <==> d.name is Some && d.name->0@ == name->0),
{
    if name is Some {
        lemma_named(state.l2cpus@[l2cpu as int]->0.disks@, name->0);
    }
}

/// A network is added where there is none, its port is free, the engine runs and the device can be
/// made, and removed where there is one; a console likewise.
pub proof fn when_nets_and_consoles_come_and_go(
    state: DaemonState,
    l2cpu: u8,
    busy: Option<(u16, IoSource)>,
    built: std::result::Result<(), String>,
)
    requires
        l2cpu <= 3,
        state.l2cpus@[l2cpu as int] is Some,
    ensures
        ({
            let slot = state.l2cpus@[l2cpu as int]->0;
            let no_engine = Some(
                Refusal::SlotState("tensix engine not yet brought up; cold-boot the L2CPU first"@),
            );
            let net = add_net_refusal(state, l2cpu, busy, built);
            &&& net is None <==> !slot.net && busy is None && state.kick_poller && built is Ok
            &&& slot.net ==> net == Some(Refusal::SlotState("network already attached"@))
            &&& !slot.net && busy is Some ==> net == Some(
                Refusal::Io(
                    "host port "@ + dec((busy->0).0 as nat)
                        + " unavailable. Pass a different host port (--fwd HOST:GUEST or --ssh-port), or stop whatever's using it"@,
                    (busy->0).1,
                ),
            )
            &&& !slot.net && busy is None && !state.kick_poller ==> net == no_engine
            &&& !slot.net && busy is None && state.kick_poller && built is Err ==> net == Some(
                Refusal::SlotState("VirtioNet::new failed: "@ + built->Err_0@),
            )
            &&& slot.net ==> remove_net_refusal(state, l2cpu) is None
            &&& !slot.net ==> remove_net_refusal(state, l2cpu) == Some(
                Refusal::SlotState("no net attached"@),
            )
            &&& slot.virtio_console is Some ==> add_console_refusal(state, l2cpu) == Some(
                Refusal::SlotState("virtio-console already attached"@),
            )
            &&& slot.virtio_console is None && !state.kick_poller ==> add_console_refusal(
                state,
                l2cpu,
            ) == no_engine
            &&& slot.virtio_console is None && state.kick_poller ==> add_console_refusal(
                state,
                l2cpu,
            ) is None
            &&& slot.virtio_console is Some ==> remove_console_refusal(state, l2cpu) is None
            &&& slot.virtio_console is None ==> remove_console_refusal(state, l2cpu) == Some(
                Refusal::SlotState("no virtio-console attached"@),
            )
        }),
{
}

/// A booted console can be attached in any mode. One that is not booted can only be read, and only
/// where something is left of it.
pub proof fn when_a_console_is_attached(state: DaemonState, l2cpu: u8, mode: ConsoleMode)
    requires
        l2cpu <= 3,
    ensures
        state.l2cpus@[l2cpu as int] is Some ==> attach_refusal(state, l2cpu, mode) is None,
        state.l2cpus@[l2cpu as int] is None && mode is Ro ==> {
            &&& state.shutdown_tails@[l2cpu as int]@.len() > 0 ==> attach_refusal(
                state,
                l2cpu,
                mode,
            ) is None
            &&& state.shutdown_tails@[l2cpu as int]@.len() == 0 ==> attach_refusal(
                state,
                l2cpu,
                mode,
            ) == Some(Refusal::SlotState("l2cpu "@ + dec(l2cpu as nat) + " is not booted"@))
        },
        state.l2cpus@[l2cpu as int] is None && !(mode is Ro) ==> attach_refusal(state, l2cpu, mode)
            == Some(
            Refusal::SlotState(
                "l2cpu "@ + dec(l2cpu as nat)
                    + " is not booted; attach in Ro mode to view the last scrollback"@,
            ),
        ),
{
}

/// A refusal comes out as an error of its own kind with its own words.
pub proof fn a_refusal_is_an_error_of_its_kind(
    r: Result<()>,
    text: Seq<char>,
    why: IoSource,
)
    ensures
        refused(r, Refusal::BadRequest(text)) <==> (r matches Err(Error::BadRequest(m)) && m@
            == text),
        refused(r, Refusal::SlotState(text)) <==> (r matches Err(Error::SlotState(m)) && m@
            == text),
        refused(r, Refusal::Io(text, why)) <==> (r matches Err(Error::Io { ctx, source }) && ctx@
            == text && source == why),
{
}

// ---------------------------------------------------------------------------
// Devices
// ---------------------------------------------------------------------------

/// A new disk takes the first of the three places that is free, and there is none only where all
/// are taken. Each place has an interrupt of its own. The places of an L2CPU follow those of the
/// L2CPU before it.
pub proof fn a_new_disk_takes_the_first_free_place(
    used: Seq<u32>,
    l2cpu: int,
    dev: int,
    engine: EngineRegs,
    virtio: VirtioRegs,
)
    ensures
        free_blk(used, engine) is None <==> used.contains(engine.dev_blk) && used.contains(
            engine.dev_blk1,
        ) && used.contains(engine.dev_blk2),
        free_blk(used, engine) matches Some(d) ==> !used.contains(d),
        !used.contains(engine.dev_blk) ==> free_blk(used, engine) == Some(engine.dev_blk),
        used.contains(engine.dev_blk) && !used.contains(engine.dev_blk1) ==> free_blk(used, engine)
            == Some(engine.dev_blk1),
        used.contains(engine.dev_blk) && used.contains(engine.dev_blk1) && !used.contains(
            engine.dev_blk2,
        ) ==> free_blk(used, engine) == Some(engine.dev_blk2),
        blk_irq(engine.dev_blk, engine, virtio) == virtio.disk_irq,
        engine.dev_blk1 != engine.dev_blk ==> blk_irq(engine.dev_blk1, engine, virtio)
            == virtio.disk1_irq,
        engine.dev_blk2 != engine.dev_blk && engine.dev_blk2 != engine.dev_blk1 ==> blk_irq(
            engine.dev_blk2,
            engine,
            virtio,
        ) == virtio.disk2_irq,
        engine_slot(0, dev, engine) == dev,
        engine_slot(l2cpu + 1, dev, engine) == engine_slot(l2cpu, dev, engine)
            + engine.devs_per_l2cpu,
{
    assert((l2cpu + 1) * engine.devs_per_l2cpu == l2cpu * engine.devs_per_l2cpu
        + engine.devs_per_l2cpu) by (nonlinear_arith);
}

/// What the disks of an L2CPU take is counted from its own first place.
pub proof fn what_the_disks_take(disks: Seq<DiskWorker>, l2cpu: int, engine: EngineRegs, i: int)
    requires
        0 <= i < disks.len(),
    ensures
        used_devs(disks, l2cpu, engine).len() == disks.len(),
        used_devs(disks, l2cpu, engine)[i] == (disks[i].slot_idx - l2cpu * engine.devs_per_l2cpu)
            as u32,
        disks_placed(disks, l2cpu, engine) ==> disks[i].slot_idx >= l2cpu * engine.devs_per_l2cpu,
{
}

/// The port for SSH comes first and leads to port 22 of the guest; the others follow as they were
/// given. A port that was chosen counts before the usual one.
pub proof fn ssh_is_forwarded_first(ssh: u16, usual: u16, extra: Seq<(u16, u16)>)
    ensures
        forward_list(ssh, extra).len() == extra.len() + 1,
        forward_list(ssh, extra)[0] == (ssh, 22u16),
        forward_list(ssh, extra).skip(1) == extra,
        chosen_port(Some(ssh), usual) == ssh,
        chosen_port(None, usual) == usual,
        SSH_GUEST_PORT == 22,
        MAX_DISKS_PER_L2CPU == 3,
        RX_BUFFER_CAP == 16384,
{
    assert(forward_list(ssh, extra).skip(1) =~= extra);
}

// ---------------------------------------------------------------------------
// Consoles
// ---------------------------------------------------------------------------

/// What is kept of an output is its end, as much as there is room for.
pub proof fn the_end_of_an_output_is_kept(s: Seq<u8>, n: nat)
    ensures
        last_bytes(s, n).is_suffix_of(s),
        last_bytes(s, n).len() == if s.len() < n {
            s.len()
        } else {
            n
        },
        SCROLLBACK_BYTES == 1048576,
        SHUTDOWN_TAIL_BYTES == 16384,
{
    let t = last_bytes(s, n);
    assert(t =~= s.subrange(s.len() - t.len(), s.len() as int));
}

/// A client that only reads never writes; one that may write does so where nobody else does; one
/// that takes over always does, and then nobody else. The clients that were there stay in order.
pub proof fn who_writes_to_a_console(clients: Seq<Client>, id: u64, i: int)
    requires
        0 <= i < clients.len(),
    ensures
        !becomes_writer(clients, ConsoleMode::Ro),
        becomes_writer(clients, ConsoleMode::Takeover),
        becomes_writer(clients, ConsoleMode::Rw) <==> forall|k: int|
            0 <= k < clients.len() ==> !(#[trigger] clients[k]).is_writer,
        clients_with(clients, id, ConsoleMode::Ro) == clients.push(Client { id, is_writer: false }),
        clients_with(clients, id, ConsoleMode::Rw)[i] == clients[i],
        clients_with(clients, id, ConsoleMode::Takeover)[i] == (Client {
            id: clients[i].id,
            is_writer: false,
        }),
        clients_with(clients, id, ConsoleMode::Takeover).last() == (Client { id, is_writer: true }),
        clients_with(clients, id, ConsoleMode::Takeover).len() == clients.len() + 1,
        clients_with(clients, id, ConsoleMode::Rw).len() == clients.len() + 1,
        clients_with(clients, id, ConsoleMode::Rw).last().id == id,
{
    lemma_no_writer(clients);
}

proof fn lemma_no_writer(clients: Seq<Client>)
    ensures
        writer_of(clients) is None <==> forall|k: int|
            0 <= k < clients.len() ==> !(#[trigger] clients[k]).is_writer,
        writer_of(clients) matches Some(id) ==> exists|k: int|
            0 <= k < clients.len() && (#[trigger] clients[k]).is_writer && clients[k].id == id,
    decreases clients.len(),
{
    if clients.len() > 0 && !clients[0].is_writer {
        let rest = clients.skip(1);
        lemma_no_writer(rest);
        if writer_of(rest) is None {
            assert forall|k: int| 0 <= k < clients.len() implies !(#[trigger] clients[k]).is_writer by {
                if k > 0 {
                    assert(!rest[k - 1].is_writer);
                }
            }
        } else {
            let k = choose|k: int|
                0 <= k < rest.len() && (#[trigger] rest[k]).is_writer && rest[k].id == writer_of(
                    rest,
                )->0;
            assert(clients[k + 1].is_writer);
        }
    } else if clients.len() > 0 {
        assert(clients[0].is_writer);
    }
}

/// A client leaves exactly where it is named, and the others stay as they are.
pub proof fn only_named_clients_leave(clients: Seq<Client>, gone: Seq<u64>, c: Client)
    ensures
        without(clients, gone).contains(c) <==> clients.contains(c) && !gone.contains(c.id),
        dropped_ids(clients, gone).len() + without(clients, gone).len() == clients.len(),
    decreases clients.len(),
{
    let stays = |c: Client| !gone.contains(c.id);
    let goes = |c: Client| gone.contains(c.id);
    reveal(Seq::filter);
    if clients.len() > 0 {
        let rest = clients.drop_last();
        only_named_clients_leave(rest, gone, c);
        let last = clients.last();
        let before = rest.filter(stays);
        let after = clients.filter(stays);
        if clients.contains(c) && !gone.contains(c.id) {
            let k = choose|k: int| 0 <= k < clients.len() && clients[k] == c;
            if k < rest.len() {
                assert(rest[k] == c);
                assert(rest.contains(c));
                let j = choose|j: int| 0 <= j < before.len() && before[j] == c;
                assert(after[j] == c);
            } else {
                assert(after[before.len() as int] == c);
            }
        }
        if after.contains(c) {
            let j = choose|j: int| 0 <= j < after.len() && after[j] == c;
            if j < before.len() {
                assert(before[j] == c);
                assert(before.contains(c));
                let k = choose|k: int| 0 <= k < rest.len() && rest[k] == c;
                assert(clients[k] == c);
            } else {
                assert(clients[clients.len() - 1] == c);
            }
        }
    }
}

/// A console that goes away says so on a line of its own, with the reason.
pub proof fn a_console_says_why_it_goes(l2cpu: u8, reason: Seq<char>)
    ensures
        goodbye(reason) == "\r\n[bhx: "@ + reason + "]\r\n"@,
        stop_reason(l2cpu, reason) == "l2cpu "@ + dec(l2cpu as nat) + " stopped ("@ + reason
            + ")"@,
{
}

/// A client that attaches to a running console is told how much of the output follows, and gets it;
/// where it takes over, whoever wrote before no longer does.
pub proof fn what_an_attached_client_gets(a: Attachment, hub: ConsoleHub, mode: ConsoleMode)
    requires
        is_live_attachment(a, hub, mode),
    ensures
        a.replay@ == hub.printed(),
        a.answer matches Response::Attached { scrollback_bytes, live } && live && scrollback_bytes
            == a.replay@.len() as u32,
        a.client is Some,
        a.client->0.id == hub.fresh_id(),
        mode is Ro ==> !a.client->0.is_writer,
        mode is Takeover ==> a.client->0.is_writer,
        mode is Rw ==> (a.client->0.is_writer <==> writer_of(hub.attached()) is None),
        mode is Takeover && writer_of(hub.attached()) is Some ==> a.client->0.demoted@ == seq![
            writer_of(hub.attached())->0,
        ],
        !(mode is Takeover) || writer_of(hub.attached()) is None ==> a.client->0.demoted@.len()
            == 0,
{
}

// ---------------------------------------------------------------------------
// Words
// ---------------------------------------------------------------------------

/// Each request is counted under its own method.
pub proof fn a_request_is_counted_under_its_method(r: Request)
    ensures
        method_of(r) is Status <==> r is Status,
        method_of(r) is Boot <==> r is Boot,
        method_of(r) is AttachConsole <==> r is AttachConsole,
        method_of(r) is AddDisk <==> r is AddDisk,
        method_of(r) is RemoveDisk <==> r is RemoveDisk,
        method_of(r) is AddNet <==> r is AddNet,
        method_of(r) is RemoveNet <==> r is RemoveNet,
        method_of(r) is AddConsole <==> r is AddConsole,
        method_of(r) is RemoveConsole <==> r is RemoveConsole,
        method_of(r) is Stop <==> r is Stop,
        method_of(r) is Shutdown <==> r is Shutdown,
{
}

/// What went wrong inside the daemon is not told; every other error is told as it is. An error says
/// what it is about before what went wrong.
pub proof fn what_an_error_says(e: Error, s: Seq<char>)
    ensures
        e is Internal ==> (is_wire_text(e, s) <==> s == "internal daemon error"@),
        !(e is Internal) ==> (is_wire_text(e, s) <==> s == e.text()),
        e matches Error::BadRequest(m) ==> e.text() == m@,
        e matches Error::SlotState(m) ==> e.text() == m@,
        e matches Error::Io { ctx, source } ==> e.text() == ctx@ + ": "@ + source.message@,
        e matches Error::Fdt { op, message } ==> e.text() == "fdt: "@ + op@ + ": "@ + message@,
        e matches Error::Protocol(m) ==> e.text() == "protocol: "@ + m@,
        e matches Error::Internal(m) ==> e.text() == "internal: "@ + m@,
        is_internal(e, s) <==> (e matches Error::Internal(m) && m@ == s),
{
}

/// A client reports an error as the daemon said it, and any other answer that it did not expect as
/// that.
pub proof fn what_a_client_reports(r: Response, m: Seq<char>)
    ensures
        r matches Response::Error { error } ==> (is_failure(r, m) <==> m == error@),
        !(r is Error) ==> is_failure(r, unexpected_text(r)),
        !(r is Error) && is_failure(r, m) ==> "unexpected response: "@.is_prefix_of(m),
{
    assert("unexpected response: "@ =~= unexpected_text(r).subrange(
        0,
        "unexpected response: "@.len() as int,
    ));
}

// ---------------------------------------------------------------------------
// Status
// ---------------------------------------------------------------------------

/// An L2CPU without a slot is wedged or stopped and has nothing attached. One with a slot is parked
/// where its status word says so and running where it does not, and shows what is attached to it.
pub proof fn what_is_told_of_an_l2cpu(
    st: L2CpuStatus,
    idx: int,
    slot: Option<L2CpuSlot>,
    wedged: bool,
    cells: PurgatoryCells,
    regs: PurgatoryRegs,
)
    requires
        is_status(st, idx, slot, wedged, cells, regs),
    ensures
        st.idx == idx,
        st.state is Wedged <==> slot is None && wedged,
        st.state is Stopped <==> slot is None && !wedged,
        st.state is Parked <==> slot is Some && cells.status == Some(regs.status_parked),
        st.state is Running <==> slot is Some && cells.status != Some(regs.status_parked),
        slot is None ==> st.disk is None && st.disks@.len() == 0 && !st.net && !st.virtio_console
            && st.clients == 0 && st.purgatory_status is None && st.purgatory_peers is None
            && st.purgatory_release_meta is None,
        slot matches Some(s) ==> {
            &&& st.net <==> s.net
            &&& st.virtio_console <==> s.virtio_console is Some
            &&& st.purgatory_status == cells.status
            &&& st.purgatory_peers == cells.peers
            &&& st.clients == s.console_hub.attached().len() as u32
            &&& st.disks@.len() == s.disks@.len()
            &&& st.disk is Some <==> s.disks@.len() > 0
            &&& s.disks@.len() > 0 ==> st.disk->0@ == s.disks@[0].path@
            &&& forall|i: int|
                0 <= i < s.disks@.len() ==> (#[trigger] st.disks@[i]).path@ == s.disks@[i].path@
                    && (st.disks@[i].name is Some <==> s.disks@[i].name is Some) && (
                s.disks@[i].name is Some ==> st.disks@[i].name->0@ == s.disks@[i].name->0@)
        },
{
    if slot is Some {
        let s = slot->0;
        assert(s.disks@.len() > 0 ==> string_text(st.disk) == Some(s.disks@[0].path@));
        assert forall|i: int| 0 <= i < s.disks@.len() implies (#[trigger] st.disks@[i]).path@
            == s.disks@[i].path@ && (st.disks@[i].name is Some <==> s.disks@[i].name is Some) && (
        s.disks@[i].name is Some ==> st.disks@[i].name->0@ == s.disks@[i].name->0@) by {
            assert(string_text(st.disks@[i].name) == string_text(s.disks@[i].name));
        }
    }
}

/// Of a parked core the five addresses are shown where all could be read; of a running one only what
/// is needed to park it, and only where there is such a thing. An address that is zero is not shown.
pub proof fn which_addresses_are_shown(cells: PurgatoryCells)
    ensures
        shown_meta(cells, true) is Some <==> cells.next_addr_pa is Some && cells.next_mode_pa is Some
            && cells.next_arg1_pa is Some && cells.hsm_state_pa is Some && cells.msip_pa is Some,
        shown_meta(cells, true) matches Some(m) ==> {
            &&& Some(m.next_addr_pa) == cells.next_addr_pa
            &&& Some(m.next_mode_pa) == cells.next_mode_pa
            &&& Some(m.next_arg1_pa) == cells.next_arg1_pa
            &&& Some(m.hsm_state_pa) == cells.hsm_state_pa
            &&& Some(m.msip_pa) == cells.msip_pa
            &&& m.force_park_request_pa is Some <==> cells.force_park_req_pa is Some
                && cells.force_park_req_pa->0 != 0
            &&& m.force_park_request_value is Some <==> cells.force_park_req_value is Some
                && cells.force_park_req_value->0 != 0
            &&& m.force_park_request_pa is Some ==> m.force_park_request_pa
                == cells.force_park_req_pa
            &&& m.force_park_request_value is Some ==> m.force_park_request_value
                == cells.force_park_req_value
        },
        shown_meta(cells, false) is Some <==> cells.force_park_req_pa is Some
            && cells.force_park_req_pa->0 != 0,
        shown_meta(cells, false) matches Some(m) ==> {
            &&& m.next_addr_pa == 0 && m.next_mode_pa == 0 && m.next_arg1_pa == 0 && m.hsm_state_pa
                == 0
            &&& cells.msip_pa matches Some(pa) ==> m.msip_pa == pa
            &&& cells.msip_pa is None ==> m.msip_pa == 0
            &&& m.force_park_request_pa == cells.force_park_req_pa
            &&& m.force_park_request_value == cells.force_park_req_value
        },
{
}

/// The feedback divider is the high half of the first control word and the post divider the low byte
/// of the second; neither is told where either could not be read.
pub proof fn where_the_dividers_stand(cntl1: u32, cntl5: u32, x: Option<u32>)
    ensures
        pll_dividers(Some(cntl1), Some(cntl5)) == (
            Some((cntl1 >> 16u32) as u16),
            Some((cntl5 & 0xff) as u8),
        ),
        pll_dividers(None, x) == (None::<u16>, None::<u8>),
        pll_dividers(x, None) == (None::<u16>, None::<u8>),
{
    assert(cntl1 / 0x1_0000 == cntl1 >> 16u32) by (bit_vector);
    assert(cntl5 % 0x100 == cntl5 & 0xff) by (bit_vector);
}

/// The line about the clock tells both dividers, the frequency that they make of 25 MHz, and the
/// control words.
pub proof fn what_the_clock_line_tells(fbdiv: u16, low: u16, high: u32, postdiv0: u8, cntl1: u32, cntl5: u32)
    requires
        cntl1 == fbdiv * 0x1_0000 + low,
        cntl5 == high * 0x100 + postdiv0,
    ensures
        pll_text(cntl1, cntl5) == "[pll-watcher] PLL4 fbdiv="@ + dec(fbdiv as nat) + " postdiv0="@
            + dec(postdiv0 as nat) + " \u{2192} "@ + dec(
            (25 * fbdiv / (postdiv0 + 1)) as nat,
        ) + " MHz (CNTL1=0x"@ + zero_padded(hex(cntl1 as nat), 8) + " CNTL5=0x"@ + zero_padded(
            hex(cntl5 as nat),
            8,
        ) + ")"@,
{
    assert(cntl1 as nat / 0x1_0000 == fbdiv as nat);
    assert(cntl5 as nat % 0x100 == postdiv0 as nat);
}

} // verus!
