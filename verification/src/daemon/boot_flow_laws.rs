//! What holds of every boot: the order of its steps, what a guest finds, and how a parked core is
//! woken.
use vstd::prelude::*;

#[allow(unused_imports)]
use crate::boot::{patched_bytes, BootDevice, VirtioMmioNode};
#[allow(unused_imports)]
use crate::daemon::boot_flow::{
    already_booted, any_device, boot_next, boot_refusal, device_kinds, device_nodes, dropped_array,
    first_phase, force_park_timeout, initramfs_len, is_boot_device, is_disk, is_plan, kind_numbers,
    none_runs, planned_steps, planned_tree, reset_steps, sibling_of, to_drop, BootBoard,
    BootDeviceKind, BootEvent, BootFailure, BootFiles, BootPhase, BootPlan, BootTarget, ResetStep,
    Sibling, FORCE_PARK_TIMEOUT_SECS, SEED_NAME,
};
#[allow(unused_imports)]
use crate::daemon::protocol::BootRequest;
#[allow(unused_imports)]
use crate::daemon::purgatory::{
    force_park, force_park_list, joined, not_stopped_text, prepare_list, prepare_what, release_meta,
    release_next, wake_list, ForcePark, ParkedReleaseMeta, PurgatoryCells, ReleaseEvent,
    ReleaseFailure, ReleasePhase, ReleaseTarget,
};
#[allow(unused_imports)]
use crate::daemon::server::Refusal;
#[allow(unused_imports)]
use crate::daemon::state::{DaemonState, DiskWorker};
#[allow(unused_imports)]
use crate::error::IoSource;
#[allow(unused_imports)]
use crate::loader::{
    boot_steps, covers, full_windows, padded_image, prefetch_writes, start_steps, target,
    vector_steps, BootImages, Chunk, StepView,
};
#[allow(unused_imports)]
use crate::regs::{BootImageRegs, EngineRegs, L2cpuRegs, MemoryMap, PurgatoryRegs, VirtioRegs};
#[allow(unused_imports)]
use crate::text::{dec, hex};
#[allow(unused_imports)]
use crate::text_laws::numbers_are_written_digit_by_digit;

verus! {

/// What is said of a slot that is occupied, and of a core that does not park, names the L2CPU.
pub proof fn a_refused_boot_names_its_l2cpu(l2cpu: u8)
    ensures
        already_booted(l2cpu) == "l2cpu "@ + dec(l2cpu as nat)
            + " is already booted; stop it first, or re-run with --force"@,
        force_park_timeout(l2cpu) == "force-park l2cpu "@ + dec(l2cpu as nat)
            + ": PARKED magic not seen within 10s after firing IPI"@,
        FORCE_PARK_TIMEOUT_SECS == 10,
{
    numbers_are_written_digit_by_digit(1, 0);
    reveal_strlit(": PARKED magic not seen within 10s after firing IPI");
    reveal_strlit(": PARKED magic not seen within ");
    reveal_strlit("s after firing IPI");
    assert(dec(1) == seq!['1']) by {
        numbers_are_written_digit_by_digit(1, 1);
    }
    assert(dec(10) =~= seq!['1', '0']);
    assert(": PARKED magic not seen within 10s after firing IPI"@
        =~= ": PARKED magic not seen within "@ + dec(10) + "s after firing IPI"@);
    let head = "force-park l2cpu "@ + dec(l2cpu as nat);
    assert(force_park_timeout(l2cpu) =~= head + (": PARKED magic not seen within "@ + dec(10)
        + "s after firing IPI"@));
}

/// The core that boots does not count as its own neighbour, nor does one without a slot. A neighbour
/// is parked exactly where its status word says so; one whose word could not be read runs.
pub proof fn who_counts_as_a_neighbour(
    state: DaemonState,
    target: u8,
    statuses: Seq<Option<u64>>,
    regs: PurgatoryRegs,
    i: int,
)
    ensures
        sibling_of(state, target, statuses, regs, target as int) == Sibling::Absent,
        state.l2cpus@[i] is None ==> sibling_of(state, target, statuses, regs, i)
            == Sibling::Absent,
        i != target && state.l2cpus@[i] is Some && statuses[i] is None ==> sibling_of(
            state,
            target,
            statuses,
            regs,
            i,
        ) == Sibling::Running,
        i != target && state.l2cpus@[i] is Some ==> (sibling_of(state, target, statuses, regs, i)
            == Sibling::Parked <==> statuses[i] == Some(regs.status_parked)),
        i != target && state.l2cpus@[i] is Some ==> sibling_of(state, target, statuses, regs, i)
            != Sibling::Absent,
{
}

/// The board is reset where no neighbour runs, and with it go the neighbours that are parked.
pub proof fn the_parked_go_with_a_reset(s: [Sibling; 4])
    ensures
        none_runs(s@) <==> s@[0] != Sibling::Running && s@[1] != Sibling::Running && s@[2]
            != Sibling::Running && s@[3] != Sibling::Running,
        forall|i: int|
            0 <= i < 4 ==> (#[trigger] to_drop(s@)[i] <==> s@[i] == Sibling::Parked),
        to_drop(s@).len() == 4,
        forall|i: int| 0 <= i < 4 ==> #[trigger] dropped_array(s)@[i] == to_drop(s@)[i],
{
    if s@[0] != Sibling::Running && s@[1] != Sibling::Running && s@[2] != Sibling::Running && s@[3]
        != Sibling::Running {
        assert forall|i: int| 0 <= i < s@.len() implies #[trigger] s@[i] != Sibling::Running by {
            assert(i == 0 || i == 1 || i == 2 || i == 3);
        }
    }
    assert forall|i: int| 0 <= i < 4 implies #[trigger] dropped_array(s)@[i] == to_drop(s@)[i] by {
        assert(i == 0 || i == 1 || i == 2 || i == 3);
    }
}

/// A cold boot looks at its neighbours, resets the board if it may, loads the core, makes its slot,
/// registers its devices and takes the core out of reset, one after the other; a step that fails
/// ends it with the failure of that step. What ended stays as it is.
pub proof fn a_cold_boot_goes_step_by_step(
    t: BootTarget,
    s: [Sibling; 4],
    drop: [bool; 4],
    source: IoSource,
    e: crate::error::Error,
    event: BootEvent,
    failure: BootFailure,
    meta: ParkedReleaseMeta,
    regs: PurgatoryRegs,
)
    ensures
        first_phase(t) == (if t.occupied {
            BootPhase::ReadParked
        } else {
            BootPhase::ReadSiblings
        }),
        boot_next(t, BootPhase::TearDown, BootEvent::Done, regs) == BootPhase::ReadSiblings,
        none_runs(s@) ==> boot_next(t, BootPhase::ReadSiblings, BootEvent::Siblings(s), regs)
            is ResetBoard,
        !none_runs(s@) ==> boot_next(t, BootPhase::ReadSiblings, BootEvent::Siblings(s), regs)
            == BootPhase::Sequence,
        boot_next(t, BootPhase::ResetBoard(drop), BootEvent::Done, regs) == BootPhase::Sequence,
        boot_next(t, BootPhase::Sequence, BootEvent::Done, regs) == BootPhase::MakeSlot,
        boot_next(t, BootPhase::MakeSlot, BootEvent::Done, regs) == BootPhase::Register,
        boot_next(t, BootPhase::Register, BootEvent::Done, regs) == BootPhase::ReleaseReset,
        boot_next(t, BootPhase::ReleaseReset, BootEvent::Done, regs) == BootPhase::Booted,
        boot_next(t, BootPhase::ResetBoard(drop), BootEvent::Failed(source), regs)
            == BootPhase::Failed(BootFailure::ResetBoard(source)),
        boot_next(t, BootPhase::Sequence, BootEvent::Failed(source), regs) == BootPhase::Failed(
            BootFailure::Sequence(source),
        ),
        boot_next(t, BootPhase::MakeSlot, BootEvent::Failed(source), regs) == BootPhase::Failed(
            BootFailure::MakeSlot(source),
        ),
        boot_next(t, BootPhase::ReleaseReset, BootEvent::Refused(e), regs) == BootPhase::Failed(
            BootFailure::ReleaseReset(e),
        ),
        boot_next(t, BootPhase::Booted, event, regs) == BootPhase::Booted,
        boot_next(t, BootPhase::Failed(failure), event, regs) == BootPhase::Failed(failure),
        boot_next(t, BootPhase::Release(meta), event, regs) == BootPhase::Release(meta),
{
}

/// A boot of an occupied slot releases the core where it is parked. One that is forced asks a core
/// that is not to park, waits for it, and looks once more. What cannot be released is torn down
/// where the boot is forced and refused where it is not.
pub proof fn an_occupied_slot_is_released_or_forced(
    t: BootTarget,
    cells: PurgatoryCells,
    status: Option<u64>,
    late: bool,
    source: IoSource,
    f: ForcePark,
    regs: PurgatoryRegs,
)
    requires
        t.occupied,
    ensures
        release_meta(cells, regs) matches Some(meta) ==> {
            &&& boot_next(t, BootPhase::ReadParked, BootEvent::Cells(cells), regs)
                == BootPhase::Release(meta)
            &&& boot_next(t, BootPhase::ReadParkedAgain, BootEvent::Cells(cells), regs)
                == BootPhase::Release(meta)
        },
        release_meta(cells, regs) is None ==> {
            &&& t.force ==> boot_next(t, BootPhase::ReadParked, BootEvent::Cells(cells), regs)
                == BootPhase::ReadForcePark
            &&& !t.force ==> boot_next(t, BootPhase::ReadParked, BootEvent::Cells(cells), regs)
                == BootPhase::Failed(BootFailure::Occupied)
            &&& t.force ==> boot_next(t, BootPhase::ReadParkedAgain, BootEvent::Cells(cells), regs)
                == BootPhase::TearDown
        },
        force_park(cells) matches Some(g) ==> boot_next(
            t,
            BootPhase::ReadForcePark,
            BootEvent::Cells(cells),
            regs,
        ) == BootPhase::FireForcePark(g),
        force_park(cells) is None && t.force ==> boot_next(
            t,
            BootPhase::ReadForcePark,
            BootEvent::Cells(cells),
            regs,
        ) == BootPhase::TearDown,
        boot_next(t, BootPhase::FireForcePark(f), BootEvent::Done, regs) == BootPhase::PollParked,
        boot_next(t, BootPhase::FireForcePark(f), BootEvent::Failed(source), regs)
            == BootPhase::Failed(BootFailure::ForcePark(source)),
        boot_next(t, BootPhase::FireForcePark(f), BootEvent::FailedSecond(source), regs)
            == BootPhase::Failed(BootFailure::ForceParkInterrupt(source)),
        status == Some(regs.status_parked) ==> boot_next(
            t,
            BootPhase::PollParked,
            BootEvent::Status { status, late },
            regs,
        ) == BootPhase::ReadParkedAgain,
        status != Some(regs.status_parked) && late ==> boot_next(
            t,
            BootPhase::PollParked,
            BootEvent::Status { status, late },
            regs,
        ) == BootPhase::Failed(BootFailure::ForceParkTimeout),
        status != Some(regs.status_parked) && !late ==> boot_next(
            t,
            BootPhase::PollParked,
            BootEvent::Status { status, late },
            regs,
        ) == BootPhase::PollParked,
{
}

/// A request is refused where it gives a boot loader an image in memory, or else where it names no
/// L2CPU; every other goes ahead.
pub proof fn which_boots_are_refused(req: BootRequest)
    ensures
        boot_refusal(req) is None <==> req.l2cpu <= 3 && !(req.payload is Uboot
            && req.initramfs is Some),
        req.payload is Uboot && req.initramfs is Some ==> boot_refusal(req) == Some(
            Refusal::BadRequest(
                "--initramfs is not supported in --uboot mode (U-Boot loads initrd from disk)"@,
            ),
        ),
        req.l2cpu > 3 && !(req.payload is Uboot && req.initramfs is Some) ==> boot_refusal(req)
            == Some(Refusal::BadRequest("l2cpu must be 0..3"@)),
{
}

/// A boot loader finds its own root. Else the root is the device that was asked for, unless there is
/// an image in memory and no disk; an image stands where the board puts it and is as long as it is.
pub proof fn what_the_root_comes_from(
    d: BootDevice,
    req: BootRequest,
    initramfs_len: Option<u64>,
    rootfs_addr: u64,
)
    requires
        is_boot_device(d, req, initramfs_len, rootfs_addr),
    ensures
        d is Uboot <==> req.payload is Uboot,
        d is Initramfs <==> !(req.payload is Uboot) && initramfs_len is Some && req.disk is None,
        d is InitramfsAndVda <==> !(req.payload is Uboot) && initramfs_len is Some
            && req.disk is Some,
        d is Vda <==> !(req.payload is Uboot) && initramfs_len is None,
        d matches BootDevice::Vda(dev) ==> dev@ == req.root_device@,
        d matches BootDevice::Initramfs { addr, len } ==> addr == rootfs_addr && Some(len)
            == initramfs_len,
        d matches BootDevice::InitramfsAndVda { addr, len, dev } ==> addr == rootfs_addr && Some(
            len,
        ) == initramfs_len && dev@ == req.root_device@,
{
}

/// A guest finds one node for each device that it asked for and no other, at the registers of that
/// device and with its interrupt, in a fixed order.
pub proof fn each_wanted_device_has_its_node(
    req: BootRequest,
    base: u64,
    engine: EngineRegs,
    virtio: VirtioRegs,
)
    ensures
        ({
            let nodes = device_nodes(req, base, engine, virtio);
            let size = engine.regs_per_dev as u64;
            let disks: int = if req.disk is Some {
                1
            } else {
                0
            };
            let nets: int = disks + if req.network {
                1int
            } else {
                0
            };
            let consoles: int = nets + if req.console {
                1int
            } else {
                0
            };
            let rngs: int = consoles + if req.rng {
                1int
            } else {
                0
            };
            let seeds: int = rngs + if req.cloud_init is Some {
                1int
            } else {
                0
            };
            &&& nodes.len() == seeds
            &&& req.disk is Some ==> nodes[0] == (VirtioMmioNode {
                addr: (base + engine.dev_blk * engine.regs_per_dev) as u64,
                size,
                irq: virtio.disk_irq,
            })
            &&& req.network ==> nodes[disks] == (VirtioMmioNode {
                addr: (base + engine.dev_net * engine.regs_per_dev) as u64,
                size,
                irq: virtio.net_irq,
            })
            &&& req.console ==> nodes[nets] == (VirtioMmioNode {
                addr: (base + engine.dev_console * engine.regs_per_dev) as u64,
                size,
                irq: virtio.console_irq,
            })
            &&& req.rng ==> nodes[consoles] == (VirtioMmioNode {
                addr: (base + engine.dev_rng * engine.regs_per_dev) as u64,
                size,
                irq: virtio.rng_irq,
            })
            &&& req.cloud_init is Some ==> nodes[rngs] == (VirtioMmioNode {
                addr: (base + engine.dev_blk1 * engine.regs_per_dev) as u64,
                size,
                irq: virtio.disk1_irq,
            })
        }),
        any_device(req) <==> device_nodes(req, base, engine, virtio).len() > 0,
        any_device(req) <==> device_kinds(req).len() > 0,
        device_kinds(req).len() == device_nodes(req, base, engine, virtio).len(),
{
}

/// A device is registered exactly where it was asked for: the entropy source first, then the disk,
/// the seed, the network and the console.
pub proof fn each_wanted_device_is_registered(req: BootRequest)
    ensures
        ({
            let kinds = device_kinds(req);
            let rngs: int = if req.rng {
                1
            } else {
                0
            };
            let disks: int = rngs + if req.disk is Some {
                1int
            } else {
                0
            };
            let seeds: int = disks + if req.cloud_init is Some {
                1int
            } else {
                0
            };
            let nets: int = seeds + if req.network {
                1int
            } else {
                0
            };
            let consoles: int = nets + if req.console {
                1int
            } else {
                0
            };
            &&& kinds.len() == consoles
            &&& req.rng ==> kinds[0] == BootDeviceKind::Rng
            &&& req.disk is Some ==> kinds[rngs] == BootDeviceKind::Disk
            &&& req.cloud_init is Some ==> kinds[disks] == BootDeviceKind::Seed
            &&& req.network ==> kinds[seeds] == BootDeviceKind::Net
            &&& req.console ==> kinds[nets] == BootDeviceKind::Console
        }),
{
}

/// Each kind of device has its own number and its own interrupt.
pub proof fn each_kind_has_its_number_and_interrupt(engine: EngineRegs, virtio: VirtioRegs)
    ensures
        kind_numbers(BootDeviceKind::Rng, engine, virtio) == (engine.dev_rng, virtio.rng_irq),
        kind_numbers(BootDeviceKind::Disk, engine, virtio) == (engine.dev_blk, virtio.disk_irq),
        kind_numbers(BootDeviceKind::Seed, engine, virtio) == (engine.dev_blk1, virtio.disk1_irq),
        kind_numbers(BootDeviceKind::Net, engine, virtio) == (engine.dev_net, virtio.net_irq),
        kind_numbers(BootDeviceKind::Console, engine, virtio) == (
            engine.dev_console,
            virtio.console_irq,
        ),
        SEED_NAME@ == "cidata"@,
{
}

/// Everything stands at its own offset in the memory of the core that was asked for. Only a guest
/// with a window finds devices, and only one that is not to come back by itself can switch itself
/// off.
pub proof fn where_everything_stands(
    plan: BootPlan,
    req: BootRequest,
    initramfs_len: Option<u64>,
    window: Option<u64>,
    soft_reboot: bool,
    map: MemoryMap,
    images: BootImageRegs,
    engine: EngineRegs,
    virtio: VirtioRegs,
)
    requires
        is_plan(
            plan,
            req,
            initramfs_len,
            window,
            soft_reboot,
            map,
            images,
            engine,
            virtio,
        ),
    ensures
        plan.mem_start == map.starting_address@[req.l2cpu as int],
        plan.opensbi_addr - plan.mem_start == images.opensbi_offset,
        plan.kernel_addr - plan.mem_start == images.kernel_offset,
        plan.dtb_addr - plan.mem_start == images.dtb_offset,
        plan.rootfs_addr - plan.mem_start == images.initramfs_offset,
        plan.memory_size <= map.memory_size@[req.l2cpu as int],
        req.memory_override is None ==> plan.memory_size == map.memory_size@[req.l2cpu as int],
        req.memory_override matches Some(n) ==> {
            let whole = map.memory_size@[req.l2cpu as int];
            &&& n - n % 0x20_0000 >= whole ==> plan.memory_size == whole
            &&& n - n % 0x20_0000 < whole ==> plan.memory_size % 0x20_0000 == 0 && plan.memory_size
                <= n < plan.memory_size + 0x20_0000
        },
        window is None ==> plan.nodes@.len() == 0 && plan.shutdown_addr is None,
        soft_reboot ==> plan.shutdown_addr is None,
        window matches Some(base) ==> {
            &&& plan.nodes@ == device_nodes(req, base, engine, virtio)
            &&& !soft_reboot ==> plan.shutdown_addr == Some(
                (base + engine.shutdown_offset) as u64,
            )
        },
{
}

/// A disk is known by its path, its place on the engine and its name.
pub proof fn what_a_disk_is(d: DiskWorker, path: Seq<char>, slot_idx: int, name: Seq<char>)
    ensures
        is_disk(d, path, slot_idx, None) <==> d.path@ == path && d.slot_idx == slot_idx
            && d.name is None,
        is_disk(d, path, slot_idx, Some(name)) <==> d.path@ == path && d.slot_idx == slot_idx
            && d.name is Some && d.name->0@ == name,
{
}

/// Both halves of the status word are cleared before the core leaves reset, which it does once; the
/// prefetchers come last, and nothing else is done.
pub proof fn a_core_leaves_reset_with_a_clear_status(status_pa: u64, l2cpu: L2cpuRegs)
    ensures
        ({
            let steps = reset_steps(status_pa, l2cpu);
            &&& steps.len() == 3 + 2 * l2cpu.l2_prefetch_num
            &&& steps[0] == ResetStep::Try(status_pa, 0)
            &&& steps[1] == ResetStep::Try((status_pa + 4) as u64, 0)
            &&& steps[2] == ResetStep::Release
            &&& forall|i: int|
                0 <= i < l2cpu.l2_prefetch_num ==> {
                    let at = l2cpu.l2_prefetch_base + #[trigger] (i * l2cpu.l2_prefetch_stride);
                    &&& steps[3 + 2 * i] == ResetStep::Write(at as u64, l2cpu.l2_prefetch_cfg_lo)
                    &&& steps[4 + 2 * i] == ResetStep::Write(
                        (at + 4) as u64,
                        l2cpu.l2_prefetch_cfg_hi,
                    )
                }
        }),
{
    lemma_prefetch(l2cpu, l2cpu.l2_prefetch_num as nat);
}

proof fn lemma_prefetch(regs: L2cpuRegs, n: nat)
    ensures
        prefetch_writes(regs, n).len() == 2 * n,
        forall|i: int|
            0 <= i < n ==> {
                let at = regs.l2_prefetch_base + #[trigger] (i * regs.l2_prefetch_stride);
                &&& prefetch_writes(regs, n)[2 * i] == (at as u64, regs.l2_prefetch_cfg_lo)
                &&& prefetch_writes(regs, n)[2 * i + 1] == (
                    (at + 4) as u64,
                    regs.l2_prefetch_cfg_hi,
                )
            },
    decreases n,
{
    if n > 0 {
        lemma_prefetch(regs, (n - 1) as nat);
    }
}

/// A prefetcher is set up with two words, one behind the other; the prefetchers stand a stride
/// apart.
pub proof fn prefetchers_stand_a_stride_apart(regs: L2cpuRegs, n: nat, i: int)
    requires
        0 <= i < n,
    ensures
        prefetch_writes(regs, n).len() == 2 * n,
        prefetch_writes(regs, n)[2 * i] == (
            (regs.l2_prefetch_base + i * regs.l2_prefetch_stride) as u64,
            regs.l2_prefetch_cfg_lo,
        ),
        prefetch_writes(regs, n)[2 * i + 1] == (
            (regs.l2_prefetch_base + i * regs.l2_prefetch_stride + 4) as u64,
            regs.l2_prefetch_cfg_hi,
        ),
{
    lemma_prefetch(regs, n);
    assert(i * regs.l2_prefetch_stride == i * regs.l2_prefetch_stride);
}

/// An image is filled up with zeros to whole words, and with no more than are needed.
pub proof fn images_are_filled_up_to_words(data: Seq<u8>)
    ensures
        padded_image(data).len() % 4 == 0,
        data.is_prefix_of(padded_image(data)),
        data.len() <= padded_image(data).len() < data.len() + 4,
        forall|i: int|
            data.len() <= i < padded_image(data).len() ==> #[trigger] padded_image(data)[i] == 0,
{
    assert(data =~= padded_image(data).subrange(0, data.len() as int));
}

/// The cache is switched on first; each image is loaded where it belongs; the four harts are told
/// last where to start, each in two words, and all start at the firmware.
pub proof fn a_core_is_loaded_before_it_is_started(
    regs: L2cpuRegs,
    opensbi: Seq<u8>,
    opensbi_addr: u64,
    kernel: Seq<u8>,
    kernel_addr: u64,
    dtb: Seq<u8>,
    dtb_addr: u64,
    rootfs: Option<Seq<u8>>,
    rootfs_addr: u64,
    hart: int,
)
    requires
        0 <= hart < 4,
    ensures
        ({
            let l3 = (regs.l3_ctrl_base + regs.l3_enable_offset) as u64;
            let steps = start_steps(
                regs,
                opensbi,
                opensbi_addr,
                Some(kernel),
                kernel_addr,
                dtb,
                dtb_addr,
                rootfs,
                rootfs_addr,
            );
            let loaded: int = if rootfs is Some {
                6
            } else {
                5
            };
            &&& steps.len() == loaded + 8
            &&& steps[0] == (StepView::Write { addr: l3, value: regs.l3_enable_value })
            &&& steps[1] == (StepView::Read { addr: l3 })
            &&& steps[2] == (StepView::Load { addr: opensbi_addr, data: padded_image(opensbi) })
            &&& steps[3] == (StepView::Load { addr: kernel_addr, data: padded_image(kernel) })
            &&& steps[4] == (StepView::Load { addr: dtb_addr, data: padded_image(dtb) })
            &&& rootfs matches Some(r) ==> steps[5] == (StepView::Load {
                addr: rootfs_addr,
                data: padded_image(r),
            })
            &&& steps[loaded + 2 * hart] == (StepView::Write {
                addr: (regs.control_base + 8 * hart) as u64,
                value: (opensbi_addr % 0x1_0000_0000) as u32,
            })
            &&& steps[loaded + 2 * hart + 1] == (StepView::Write {
                addr: (regs.control_base + 8 * hart + 4) as u64,
                value: (opensbi_addr / 0x1_0000_0000) as u32,
            })
        }),
{
    reveal_with_fuel(vector_steps, 5);
}

/// A word of 64 bits is made of a low and a high half, and of nothing where either is missing.
pub proof fn a_word_is_made_of_its_halves(lo: u32, hi: u32, x: Option<u32>)
    ensures
        joined(Some(lo), Some(hi)) matches Some(w) && w % 0x1_0000_0000 == lo && w / 0x1_0000_0000
            == hi,
        joined(None, x) is None,
        joined(x, None) is None,
{
}

/// A parked core is released only where its status says that it is parked and each of the five
/// addresses was read and is not zero; the addresses are those that were read.
pub proof fn a_core_is_released_with_all_its_addresses(cells: PurgatoryCells, regs: PurgatoryRegs)
    ensures
        release_meta(cells, regs) is Some <==> {
            &&& cells.status == Some(regs.status_parked)
            &&& cells.next_addr_pa is Some && cells.next_addr_pa->0 != 0
            &&& cells.next_mode_pa is Some && cells.next_mode_pa->0 != 0
            &&& cells.next_arg1_pa is Some && cells.next_arg1_pa->0 != 0
            &&& cells.hsm_state_pa is Some && cells.hsm_state_pa->0 != 0
            &&& cells.msip_pa is Some && cells.msip_pa->0 != 0
        },
        release_meta(cells, regs) matches Some(m) ==> {
            &&& Some(m.next_addr_pa) == cells.next_addr_pa
            &&& Some(m.next_mode_pa) == cells.next_mode_pa
            &&& Some(m.next_arg1_pa) == cells.next_arg1_pa
            &&& Some(m.hsm_state_pa) == cells.hsm_state_pa
            &&& Some(m.msip_pa) == cells.msip_pa
        },
        force_park(cells) is Some <==> {
            &&& cells.force_park_req_pa is Some && cells.force_park_req_pa->0 != 0
            &&& cells.force_park_req_value is Some && cells.force_park_req_value->0 != 0
            &&& cells.msip_pa is Some && cells.msip_pa->0 != 0
        },
        force_park(cells) matches Some(f) ==> {
            &&& Some(f.request_pa) == cells.force_park_req_pa
            &&& Some(f.request_value) == cells.force_park_req_value
            &&& Some(f.msip_pa) == cells.msip_pa
        },
{
}

/// What is written to make a core park, and to release one: a long word is written as its low half
/// and, four bytes on, its high half; the interrupt comes last of all, and what clears the status
/// comes first.
pub proof fn what_is_written_to_a_core(f: ForcePark, t: ReleaseTarget, regs: PurgatoryRegs)
    ensures
        force_park_list(f) == seq![
            (f.request_pa, (f.request_value % 0x1_0000_0000) as u32),
            ((f.request_pa + 4) as u64, (f.request_value / 0x1_0000_0000) as u32),
            (f.msip_pa, 1u32),
        ],
        prepare_list(t, regs) == seq![
            (t.status_pa, 0u32),
            ((t.status_pa + 4) as u64, 0u32),
            (t.meta.next_addr_pa, (t.kernel_addr % 0x1_0000_0000) as u32),
            ((t.meta.next_addr_pa + 4) as u64, (t.kernel_addr / 0x1_0000_0000) as u32),
            (t.meta.next_mode_pa, (regs.next_mode_s % 0x1_0000_0000) as u32),
            ((t.meta.next_mode_pa + 4) as u64, (regs.next_mode_s / 0x1_0000_0000) as u32),
            (t.meta.next_arg1_pa, (t.dtb_addr % 0x1_0000_0000) as u32),
            ((t.meta.next_arg1_pa + 4) as u64, (t.dtb_addr / 0x1_0000_0000) as u32),
        ],
        wake_list(t, regs) == seq![
            (t.meta.hsm_state_pa, regs.hsm_state_start_pending),
            (t.meta.msip_pa, 1u32),
        ],
{
    assert(force_park_list(f) =~= seq![
        (f.request_pa, (f.request_value % 0x1_0000_0000) as u32),
        ((f.request_pa + 4) as u64, (f.request_value / 0x1_0000_0000) as u32),
        (f.msip_pa, 1u32),
    ]);
}

/// A release reads the kernel, writes it, prepares the core, looks whether it is stopped, and wakes
/// it; a step that fails ends it with the failure of that step, and what ended stays as it is.
pub proof fn a_release_goes_step_by_step(
    at: usize,
    source: IoSource,
    state: u32,
    event: ReleaseEvent,
    failure: ReleaseFailure,
    regs: PurgatoryRegs,
)
    ensures
        release_next(ReleasePhase::ReadKernel, ReleaseEvent::Done, regs)
            == ReleasePhase::WriteKernel,
        release_next(ReleasePhase::WriteKernel, ReleaseEvent::Done, regs) == ReleasePhase::Prepare,
        release_next(ReleasePhase::Prepare, ReleaseEvent::Done, regs) == ReleasePhase::ReadHsm,
        release_next(ReleasePhase::ReadHsm, ReleaseEvent::Hsm(regs.hsm_state_stopped), regs)
            == ReleasePhase::Wake,
        state != regs.hsm_state_stopped ==> release_next(
            ReleasePhase::ReadHsm,
            ReleaseEvent::Hsm(state),
            regs,
        ) == ReleasePhase::Failed(ReleaseFailure::NotStopped(state)),
        release_next(ReleasePhase::Wake, ReleaseEvent::Done, regs) == ReleasePhase::Released,
        release_next(ReleasePhase::ReadKernel, ReleaseEvent::Failed { at, source }, regs)
            == ReleasePhase::Failed(ReleaseFailure::ReadKernel(source)),
        release_next(ReleasePhase::WriteKernel, ReleaseEvent::Failed { at, source }, regs)
            == ReleasePhase::Failed(ReleaseFailure::WriteKernel(source)),
        release_next(ReleasePhase::Prepare, ReleaseEvent::Failed { at, source }, regs)
            == ReleasePhase::Failed(ReleaseFailure::Prepare { at, source }),
        release_next(ReleasePhase::ReadHsm, ReleaseEvent::Failed { at, source }, regs)
            == ReleasePhase::Failed(ReleaseFailure::ReadHsm(source)),
        release_next(ReleasePhase::Wake, ReleaseEvent::Failed { at, source }, regs)
            == ReleasePhase::Failed(ReleaseFailure::Wake { at, source }),
        release_next(ReleasePhase::Released, event, regs) == ReleasePhase::Released,
        release_next(ReleasePhase::Failed(failure), event, regs) == ReleasePhase::Failed(failure),
{
}

/// What is said of a write that failed tells the address of the word that it belonged to, and what
/// is said of a core that is not stopped tells its state.
pub proof fn a_failed_release_tells_where(at: usize, t: ReleaseTarget, l2cpu: u8, state: u32)
    ensures
        at == 0 || at == 1 ==> prepare_what(at, t) == "clear purgatory magic"@,
        at == 2 || at == 3 ==> prepare_what(at, t) == "write u64 @ 0x"@ + hex(
            t.meta.next_addr_pa as nat,
        ),
        at == 4 || at == 5 ==> prepare_what(at, t) == "write u64 @ 0x"@ + hex(
            t.meta.next_mode_pa as nat,
        ),
        at == 6 || at == 7 ==> prepare_what(at, t) == "write u64 @ 0x"@ + hex(
            t.meta.next_arg1_pa as nat,
        ),
        not_stopped_text(l2cpu, state) == "release l2cpu "@ + dec(l2cpu as nat)
            + ": hart 0 HSM state "@ + dec(state as nat)
            + " (expected STOPPED=1) \u{2014} refusing to release"@,
{
}

/// Each file of a boot is loaded where the plan has it: the firmware, the kernel or boot loader, the
/// patched device tree, and the first file system where there is one, which is as long as it was
/// filled up.
pub proof fn each_file_goes_to_its_place(
    plan: BootPlan,
    files: BootFiles,
    tree: Seq<u8>,
    regs: L2cpuRegs,
)
    ensures
        ({
            let steps = planned_steps(plan, files, tree, regs);
            &&& steps[2] == (StepView::Load {
                addr: plan.opensbi_addr,
                data: padded_image(files.opensbi@),
            })
            &&& steps[3] == (StepView::Load {
                addr: plan.kernel_addr,
                data: padded_image(files.payload@),
            })
            &&& steps[4] == (StepView::Load { addr: plan.dtb_addr, data: padded_image(tree) })
            &&& files.initramfs matches Some(b) ==> steps[5] == (StepView::Load {
                addr: plan.rootfs_addr,
                data: padded_image(b@),
            })
            &&& files.initramfs is Some <==> steps.len() == 14
            &&& files.initramfs is None <==> steps.len() == 13
        }),
        initramfs_len(files) is Some <==> files.initramfs is Some,
        files.initramfs matches Some(b) ==> initramfs_len(files)->0 == padded_image(b@).len() as u64,
{
    a_core_is_loaded_before_it_is_started(
        regs,
        files.opensbi@,
        plan.opensbi_addr,
        files.payload@,
        plan.kernel_addr,
        tree,
        plan.dtb_addr,
        match files.initramfs {
            Some(b) => Some(b@),
            None => None,
        },
        plan.rootfs_addr,
        0,
    );
}

/// So is each image that is handed over by itself.
pub proof fn each_image_goes_to_its_place(regs: L2cpuRegs, images: BootImages, kernel: &[u8])
    requires
        images.kernel == Some(kernel),
    ensures
        ({
            let steps = boot_steps(regs, images);
            &&& steps[2] == (StepView::Load {
                addr: images.opensbi_addr,
                data: padded_image(images.opensbi@),
            })
            &&& steps[3] == (StepView::Load {
                addr: images.kernel_addr,
                data: padded_image(kernel@),
            })
            &&& steps[4] == (StepView::Load {
                addr: images.dtb_addr,
                data: padded_image(images.dtb@),
            })
            &&& images.rootfs matches Some(b) ==> steps[5] == (StepView::Load {
                addr: images.rootfs_addr,
                data: padded_image(b@),
            })
        }),
{
    a_core_is_loaded_before_it_is_started(
        regs,
        images.opensbi@,
        images.opensbi_addr,
        kernel@,
        images.kernel_addr,
        images.dtb@,
        images.dtb_addr,
        match images.rootfs {
            Some(b) => Some(b@),
            None => None,
        },
        images.rootfs_addr,
        0,
    );
}

/// The guest's device tree is that of the file, filled up, with what was planned and no serial port.
pub proof fn the_tree_is_patched_as_planned(
    plan: BootPlan,
    req: BootRequest,
    dtb: Seq<u8>,
    board: BootBoard,
)
    ensures
        planned_tree(plan, req, dtb, board) == patched_bytes(
            padded_image(dtb),
            plan.device,
            plan.mem_start,
            plan.memory_size,
            plan.nodes@,
            None,
            req.console,
            board.virtio,
            board.purgatory,
        ),
{
}

/// An image is written piece by piece, each to where its bytes belong: the pieces follow each other,
/// none crosses the end of a window of two MiB, and each but the last reaches it.
pub proof fn each_piece_goes_where_its_bytes_belong(chunks: Seq<Chunk>, addr: int, n: int, i: int)
    requires
        covers(chunks, addr, n),
        0 <= i < chunks.len(),
    ensures
        chunks[i].window_base % 0x20_0000 == 0,
        0 < chunks[i].len && chunks[i].offset + chunks[i].len <= 0x20_0000,
        chunks[i].window_base + chunks[i].offset == addr + chunks[i].start,
        target(chunks[i]) == addr + chunks[i].start,
        i == 0 ==> chunks[i].start == 0,
        i > 0 ==> chunks[i].start == chunks[i - 1].start + chunks[i - 1].len,
        i == chunks.len() - 1 ==> chunks[i].start + chunks[i].len == n,
        full_windows(chunks) && i < chunks.len() - 1 ==> chunks[i].offset + chunks[i].len
            == 0x20_0000,
        full_windows(chunks) && i > 0 ==> chunks[i].offset == 0,
    decreases chunks.len(),
{
    let c = chunks.last();
    let before = chunks.drop_last();
    reveal_with_fuel(covers, 2);
    if i < chunks.len() - 1 {
        each_piece_goes_where_its_bytes_belong(before, addr, c.start as int, i);
        assert(before[i] == chunks[i]);
        if i > 0 {
            assert(before[i - 1] == chunks[i - 1]);
        }
        if full_windows(chunks) {
            assert forall|k: int| 0 <= k < before.len() - 1 implies (#[trigger] before[k]).offset
                + before[k].len == 0x20_0000 by {
                assert(before[k] == chunks[k]);
                assert(chunks[k].offset + chunks[k].len == 0x20_0000);
            }
        }
    } else if i > 0 {
        each_piece_goes_where_its_bytes_belong(before, addr, c.start as int, i - 1);
        assert(before[i - 1] == chunks[i - 1]);
        if full_windows(chunks) {
            let p = chunks[i - 1];
            assert(p.offset + p.len == 0x20_0000);
            assert(c.window_base + c.offset == p.window_base + 0x20_0000);
        }
    }
}

} // verus!
