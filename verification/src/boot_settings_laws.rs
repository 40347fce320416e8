//! What a guest reads in its device tree, word for word.
use vstd::prelude::*;
#[allow(unused_imports)]
use vstd::utf8::encode_utf8;

#[allow(unused_imports)]
use crate::boot::{
    add_virtio, add_with, bootargs, c_text, check_bytes, check_chosen, check_exists, check_patched,
    check_reserved, patch_all, patch_chosen, patch_memory, patch_reserved, patch_soc, plic_phandle,
    reg, release_bytes, reserved_settings, serial_settings, set_all, unit, virtio_settings,
    BootDevice, Setting, VirtioMmioNode,
};
#[allow(unused_imports)]
use crate::bytes::{be32, be64, be64_round_trip, un_be64};
#[allow(unused_imports)]
use crate::fdt::{
    dtb_add, dtb_path, dtb_rename, dtb_setprop, max_phandle, parse_dtb, phandle_of, Dtb, Fault,
};
#[allow(unused_imports)]
use crate::fdt_edit::{node_at, prop_of};
#[allow(unused_imports)]
use crate::fdt_tree::zeros;
#[allow(unused_imports)]
use crate::regs::{PurgatoryRegs, VirtioRegs};
#[allow(unused_imports)]
use crate::text::{dec, hex};

verus! {

/// A guest's command line names its root and the memory that holds its first file system. With a
/// virtio console attached the guest's console is that; without one the early console is kept.
/// U-Boot gets the console alone.
pub proof fn what_the_command_line_says(dev: String, addr: u64, len: u64)
    ensures
        bootargs(BootDevice::Vda(dev), true) == "rw console=hvc0 earlycon=sbi root=/dev/"@ + dev@,
        bootargs(BootDevice::Vda(dev), false) == "rw earlycon=sbi keep_bootcon root=/dev/"@ + dev@,
        bootargs(BootDevice::Initramfs { addr, len }, true)
            == "rw console=hvc0 earlycon=sbi initrd=0x"@ + hex(addr as nat) + ","@ + dec(
            len as nat,
        ),
        bootargs(BootDevice::Initramfs { addr, len }, false)
            == "rw earlycon=sbi keep_bootcon initrd=0x"@ + hex(addr as nat) + ","@ + dec(
            len as nat,
        ),
        bootargs(BootDevice::Uboot, true) == "console=hvc0 earlycon=sbi"@,
        bootargs(BootDevice::Uboot, false) == "earlycon=sbi keep_bootcon"@,
{
    reveal_strlit("rw ");
    reveal_strlit("console=hvc0 earlycon=sbi");
    reveal_strlit("earlycon=sbi keep_bootcon");
    reveal_strlit(" root=/dev/");
    reveal_strlit(" initrd=0x");
    reveal_strlit("rw console=hvc0 earlycon=sbi root=/dev/");
    reveal_strlit("rw earlycon=sbi keep_bootcon root=/dev/");
    reveal_strlit("rw console=hvc0 earlycon=sbi initrd=0x");
    reveal_strlit("rw earlycon=sbi keep_bootcon initrd=0x");
    let with = "console=hvc0 earlycon=sbi"@;
    let without = "earlycon=sbi keep_bootcon"@;
    assert("rw "@ + with + " root=/dev/"@ =~= "rw console=hvc0 earlycon=sbi root=/dev/"@);
    assert("rw "@ + without + " root=/dev/"@ =~= "rw earlycon=sbi keep_bootcon root=/dev/"@);
    assert("rw "@ + with + " initrd=0x"@ =~= "rw console=hvc0 earlycon=sbi initrd=0x"@);
    assert("rw "@ + without + " initrd=0x"@ =~= "rw earlycon=sbi keep_bootcon initrd=0x"@);
}

/// A guest that has both a first file system and a disk is told of the first and then of the second,
/// as it would be told of each alone.
pub proof fn both_are_named(dev: String, addr: u64, len: u64, attached: bool)
    ensures
        bootargs(BootDevice::InitramfsAndVda { addr, len, dev }, attached) == bootargs(
            BootDevice::Initramfs { addr, len },
            attached,
        ) + " root=/dev/"@ + dev@,
{
}

/// A text is stored as its bytes with a zero behind them, a range as its start and its length in
/// eight bytes each, and a node is named after where it starts, in hexadecimal.
pub proof fn how_values_are_stored(s: Seq<char>, addr: nat, size: nat)
    requires
        addr <= u64::MAX,
        size <= u64::MAX,
    ensures
        c_text(s) == encode_utf8(s) + seq![0u8],
        reg(addr, size).len() == 16,
        un_be64(reg(addr, size)) == addr,
        un_be64(reg(addr, size).skip(8)) == size,
        unit(s, addr) == s + "@"@ + hex(addr),
{
    be64_round_trip(addr, be64(size));
    be64_round_trip(size, Seq::empty());
    assert(be64(size) + Seq::<u8>::empty() =~= be64(size));
    assert(reg(addr, size).skip(8) =~= be64(size));
}

/// What is said of a virtio device, a serial port and a reservation.
pub proof fn what_devices_are_described_by(
    node: VirtioMmioNode,
    addr: u64,
    irq: u32,
    phandle: nat,
    start: nat,
    size: nat,
)
    ensures
        virtio_settings(node, phandle).len() == 4,
        virtio_settings(node, phandle)[0] == ("compatible"@, c_text("virtio,mmio"@)),
        virtio_settings(node, phandle)[1] == ("reg"@, reg(node.addr as nat, node.size as nat)),
        virtio_settings(node, phandle)[2] == ("interrupts"@, be32(node.irq as nat)),
        virtio_settings(node, phandle)[3] == ("interrupt-parent"@, be32(phandle)),
        serial_settings(addr, irq, phandle).len() == 8,
        serial_settings(addr, irq, phandle)[0] == ("compatible"@, c_text("ns16550a"@)),
        serial_settings(addr, irq, phandle)[1] == ("reg"@, reg(addr as nat, 0x1000)),
        serial_settings(addr, irq, phandle)[2] == ("reg-shift"@, be32(2)),
        serial_settings(addr, irq, phandle)[3] == ("reg-io-width"@, be32(4)),
        serial_settings(addr, irq, phandle)[4] == ("clock-frequency"@, be32(1843200)),
        serial_settings(addr, irq, phandle)[5] == ("current-speed"@, be32(115200)),
        serial_settings(addr, irq, phandle)[6] == ("interrupts"@, be32(irq as nat)),
        serial_settings(addr, irq, phandle)[7] == ("interrupt-parent"@, be32(phandle)),
        reserved_settings(start, size).len() == 2,
        reserved_settings(start, size)[0] == ("reg"@, reg(start, size)),
        reserved_settings(start, size)[1] == ("no-map"@, Seq::<u8>::empty()),
{
}

/// Settings are made one after the other, up to the first that fails, on a node that was added for
/// them.
pub proof fn settings_are_made_in_order(
    d: Dtb,
    node: Seq<int>,
    name: Seq<char>,
    before: Seq<Setting>,
    last: Setting,
)
    ensures
        set_all(d, node, Seq::empty()) == Ok::<Dtb, Fault>(d),
        set_all(d, node, before.push(last)) == (match set_all(d, node, before) {
            Ok(e) => dtb_setprop(e, node, last.0, last.1),
            Err(f) => Err(f),
        }),
        dtb_add(d, node, name) matches Ok((e, new)) ==> add_with(d, node, name, before) == set_all(
            e,
            new,
            before,
        ),
        dtb_add(d, node, name) matches Err(f) ==> add_with(d, node, name, before) == Err::<
            Dtb,
            Fault,
        >(f),
{
    assert(before.push(last).drop_last() =~= before);
}

/// Memory is found where the chip has it, gets the guest's range, and is named after its start.
pub proof fn where_memory_is(d: Dtb, mem_start: u64, mem_size: u64)
    ensures
        ({
            let r = patch_memory(d, mem_start, mem_size);
            let name = "memory"@ + "@"@ + hex(mem_start as nat);
            match dtb_path(d, "/memory@400030000000"@) {
                Err(f) => r == Err::<Dtb, Fault>(f),
                Ok(None) => r == Err::<Dtb, Fault>(
                    Fault {
                        op: "path_offset"@,
                        message: "memory@400030000000 node not found in DT"@,
                    },
                ),
                Ok(Some(node)) => match dtb_setprop(
                    d,
                    node,
                    "reg"@,
                    be64(mem_start as nat) + be64(mem_size as nat),
                ) {
                    Err(f) => r == Err::<Dtb, Fault>(f),
                    Ok(e) => r == if node_at(e.tree, node).name == encode_utf8(name) {
                        Ok::<Dtb, Fault>(e)
                    } else {
                        dtb_rename(e, node, name)
                    },
                },
            }
        }),
{
    reveal(patch_memory);
}

/// The interrupt controller keeps the handle that it has, or gets one above all others; without one
/// left there is none.
pub proof fn which_handle_the_controller_gets(d: Dtb, plic: Seq<int>)
    ensures
        ({
            let r = plic_phandle(d, plic);
            let old = phandle_of(node_at(d.tree, plic));
            let new = max_phandle(d.tree) + 1;
            &&& old != 0 ==> r == Ok::<(Dtb, nat), Fault>((d, old))
            &&& old == 0 && new > 0xffff_ffff ==> r == Err::<(Dtb, nat), Fault>(
                Fault { op: "fdt_find_max_phandle"@, message: "FDT_ERR_NOPHANDLES"@ },
            )
            &&& old == 0 && new <= 0xffff_ffff ==> (match dtb_setprop(
                d,
                plic,
                "phandle"@,
                be32(new),
            ) {
                Ok(e) => r == Ok::<(Dtb, nat), Fault>((e, new)),
                Err(f) => r == Err::<(Dtb, nat), Fault>(f),
            })
        }),
{
}

/// Devices go below `/soc`, which must be there, as must its interrupt controller.
pub proof fn where_devices_go(
    d: Dtb,
    nodes: Seq<VirtioMmioNode>,
    last: VirtioMmioNode,
    uart_addr: Option<u64>,
    virtio: VirtioRegs,
    soc: Seq<int>,
    phandle: nat,
)
    ensures
        dtb_path(d, "/soc"@) == Ok::<Option<Seq<int>>, Fault>(None) ==> patch_soc(
            d,
            nodes,
            uart_addr,
            virtio,
        ) == Err::<Dtb, Fault>(
            Fault { op: "path_offset"@, message: "soc node not found in DT"@ },
        ),
        dtb_path(d, "/soc"@) matches Ok(Some(_)) && dtb_path(
            d,
            "/soc/interrupt-controller@c000000"@,
        ) == Ok::<Option<Seq<int>>, Fault>(None) ==> patch_soc(d, nodes, uart_addr, virtio) == Err::<
            Dtb,
            Fault,
        >(Fault { op: "path_offset"@, message: "plic node not found in DT"@ }),
        add_virtio(d, soc, Seq::empty(), phandle) == Ok::<Dtb, Fault>(d),
        add_virtio(d, soc, nodes.push(last), phandle) == (match add_virtio(d, soc, nodes, phandle) {
            Ok(e) => add_with(
                e,
                soc,
                "virtio"@ + "@"@ + hex(last.addr as nat),
                virtio_settings(last, phandle),
            ),
            Err(f) => Err(f),
        }),
{
    reveal(patch_soc);
    assert(nodes.push(last).drop_last() =~= nodes);
}

/// A serial port is added last, with its interrupt; without an address there is none.
pub proof fn a_serial_port_comes_last(
    d: Dtb,
    nodes: Seq<VirtioMmioNode>,
    addr: u64,
    virtio: VirtioRegs,
    soc: Seq<int>,
    plic: Seq<int>,
    phandle: nat,
    with_phandle: Dtb,
)
    requires
        dtb_path(d, "/soc"@) == Ok::<Option<Seq<int>>, Fault>(Some(soc)),
        dtb_path(d, "/soc/interrupt-controller@c000000"@) == Ok::<Option<Seq<int>>, Fault>(
            Some(plic),
        ),
        plic_phandle(d, plic) == Ok::<(Dtb, nat), Fault>((with_phandle, phandle)),
    ensures
        patch_soc(d, nodes, None, virtio) == add_virtio(with_phandle, soc, nodes, phandle),
        patch_soc(d, nodes, Some(addr), virtio) == (match add_virtio(
            with_phandle,
            soc,
            nodes,
            phandle,
        ) {
            Ok(e) => add_with(
                e,
                soc,
                "serial"@ + "@"@ + hex(addr as nat),
                serial_settings(addr, virtio.uart_irq, phandle),
            ),
            Err(f) => Err(f),
        }),
{
    reveal(patch_soc);
}

/// Memory comes first, then what is chosen, then the reservations, then the devices; the first that
/// fails ends it.
pub proof fn the_order_of_the_edits(
    d: Dtb,
    device: BootDevice,
    mem_start: u64,
    mem_size: u64,
    nodes: Seq<VirtioMmioNode>,
    uart_addr: Option<u64>,
    attached: bool,
    virtio: VirtioRegs,
    purgatory: PurgatoryRegs,
)
    requires
        mem_start + mem_size <= u64::MAX,
    ensures
        ({
            let r = patch_all(
                d,
                device,
                mem_start,
                mem_size,
                nodes,
                uart_addr,
                attached,
                virtio,
                purgatory,
            );
            let memory = patch_memory(d, mem_start, mem_size);
            let chosen = patch_chosen(memory->Ok_0, bootargs(device, attached));
            let reserved = patch_reserved(
                chosen->Ok_0,
                mem_start,
                (mem_start + mem_size) as u64,
                virtio,
                purgatory,
            );
            &&& memory is Err ==> r == memory
            &&& memory is Ok && chosen is Err ==> r == chosen
            &&& memory is Ok && chosen is Ok && reserved is Err ==> r == reserved
            &&& memory is Ok && chosen is Ok && reserved is Ok ==> r == patch_soc(
                reserved->Ok_0,
                nodes,
                uart_addr,
                virtio,
            )
        }),
{
}

/// What the check says of a blob that lacks something.
pub proof fn what_the_check_says(d: Dtb, path: Seq<char>, addr: nat, size: nat, node: Seq<int>)
    ensures
        dtb_path(d, path) == Ok::<Option<Seq<int>>, Fault>(None) ==> {
            let f = Some(
                Fault {
                    op: "verify_dtb_invariants"@,
                    message: "missing "@ + path + " in patched DTB"@,
                },
            );
            check_exists(d, path) == f && check_reserved(d, path, addr, size) == f
        },
        dtb_path(d, path) matches Err(g) ==> {
            let f = Some(Fault { op: path, message: "fdt: "@ + g.op + ": "@ + g.message });
            check_exists(d, path) == f && check_reserved(d, path, addr, size) == f
        },
        dtb_path(d, path) matches Ok(Some(_)) ==> check_exists(d, path) is None,
        dtb_path(d, "/chosen"@) == Ok::<Option<Seq<int>>, Fault>(None) ==> check_chosen(d) == Some(
            Fault {
                op: "verify_dtb_invariants"@,
                message: "missing /chosen node in patched DTB"@,
            },
        ),
        dtb_path(d, "/chosen"@) == Ok::<Option<Seq<int>>, Fault>(Some(node)) && prop_of(
            node_at(d.tree, node),
            encode_utf8("bootargs"@),
        ) is None ==> check_chosen(d) == Some(
            Fault {
                op: "verify_dtb_invariants"@,
                message: "missing /chosen/bootargs in patched DTB"@,
            },
        ),
{
}

/// What the check says of a reservation that is not as it should be.
pub proof fn what_the_check_says_of_a_reservation(
    d: Dtb,
    path: Seq<char>,
    addr: nat,
    size: nat,
    node: Seq<int>,
    r: Seq<u8>,
)
    requires
        dtb_path(d, path) == Ok::<Option<Seq<int>>, Fault>(Some(node)),
    ensures
        ({
            let t = node_at(d.tree, node);
            let op = "verify_dtb_invariants"@;
            let said = check_reserved(d, path, addr, size);
            let range = prop_of(t, encode_utf8("reg"@));
            &&& range is None ==> said == Some(
                Fault { op, message: path + " has no `reg` property"@ },
            )
            &&& range == Some(r) && r.len() != 16 ==> said == Some(
                Fault {
                    op,
                    message: path + " `reg` is "@ + dec(r.len())
                        + " bytes, expected 16 (u64 addr + u64 size)"@,
                },
            )
            &&& range == Some(r) && r.len() == 16 && (un_be64(r) != addr || un_be64(r.skip(8))
                != size) ==> said == Some(
                Fault {
                    op,
                    message: path + " `reg` is "@ + ("(0x"@ + hex(un_be64(r)) + ", 0x"@ + hex(
                        un_be64(r.skip(8)),
                    ) + ")"@) + ", expected "@ + ("(0x"@ + hex(addr) + ", 0x"@ + hex(size) + ")"@),
                },
            )
            &&& range == Some(r) && r.len() == 16 && un_be64(r) == addr && un_be64(r.skip(8)) == size
                ==> said == if prop_of(t, encode_utf8("no-map"@)) is None {
                Some(
                    Fault {
                        op,
                        message: path + " missing `no-map` — kernel must not allocate over it"@,
                    },
                )
            } else {
                None
            }
        }),
{
}

/// The status block's reservation is checked first, then the memory, then the command line; a blob
/// that cannot be opened fails before all of them.
pub proof fn the_order_of_the_checks(d: Dtb, b: Seq<u8>, mem_start: u64, purgatory: PurgatoryRegs)
    ensures
        ({
            let pa = (mem_start + purgatory.status_offset) as nat;
            let first = check_reserved(
                d,
                "/reserved-memory/"@ + ("bhx-purgatory"@ + "@"@ + hex(pa)),
                pa,
                0x1000,
            );
            let second = check_exists(d, "/"@ + ("memory"@ + "@"@ + hex(mem_start as nat)));
            check_patched(d, mem_start, purgatory) == if first is Some {
                first
            } else if second is Some {
                second
            } else {
                check_chosen(d)
            }
        }),
        parse_dtb(b) matches Ok(e) ==> check_bytes(b, mem_start, purgatory) == check_patched(
            e,
            mem_start,
            purgatory,
        ),
        parse_dtb(b) matches Err(e) ==> check_bytes(b, mem_start, purgatory) == Some(
            Fault {
                op: "verify_dtb_invariants/open"@,
                message: "fdt: "@ + "fdt_open_into"@ + ": "@ + e.text(),
            },
        ),
{
}

/// A release needs room, a blob that opens and reservations to add to.
pub proof fn what_a_release_needs(b: Seq<u8>, mem_start: u64)
    ensures
        parse_dtb(b + zeros(4096)) matches Err(e) ==> release_bytes(b, mem_start) == Err::<
            Seq<u8>,
            Fault,
        >(
            Fault {
                op: "add_opensbi_reservation/open"@,
                message: "fdt: "@ + "fdt_open_into"@ + ": "@ + e.text(),
            },
        ),
        parse_dtb(b + zeros(4096)) matches Ok(d) && dtb_path(d, "/reserved-memory"@) == Ok::<
            Option<Seq<int>>,
            Fault,
        >(None) ==> release_bytes(b, mem_start) == Err::<Seq<u8>, Fault>(
            Fault {
                op: "add_opensbi_reservation_for_release"@,
                message: "missing /reserved-memory in patched DTB"@,
            },
        ),
        parse_dtb(b + zeros(4096)) matches Ok(d) ==> dtb_path(d, "/reserved-memory"@) matches Ok(
            Some(node),
        ) ==> (release_bytes(b, mem_start) is Ok <==> add_with(
            d,
            node,
            "bhx-opensbi-firmware"@ + "@"@ + hex(mem_start as nat),
            seq![
                ("reg"@, reg(mem_start as nat, 0x60000)),
                ("no-map"@, Seq::<u8>::empty()),
            ],
        ) is Ok),
{
    assert(reserved_settings(mem_start as nat, 0x60000) =~= seq![
        ("reg"@, reg(mem_start as nat, 0x60000)),
        ("no-map"@, Seq::<u8>::empty()),
    ]);
}

} // verus!
