//! Bringing up an L2CPU: what is written where, and how the device tree is patched for the guest.
use vstd::prelude::*;
use vstd::string::*;
#[allow(unused_imports)]
use vstd::utf8::{
    decode_utf8, decode_utf8_encode_utf8, encode_utf8, encode_utf8_decode_utf8,
    encode_utf8_valid_utf8, valid_utf8,
};

use crate::bytes::{bytes_between, push_be32, push_be64, read_be64};
#[allow(unused_imports)]
use crate::bytes::{be32, be64, un_be64};
use crate::error::{Error, Result};
#[allow(unused_imports)]
use crate::fdt::{
    dtb_add, dtb_path, dtb_rename, dtb_setprop, fails_as, fault, flat_dtb, lemma_path_valid,
    max_phandle, parse_dtb,
    phandle_of, Dtb, Fault,
};
use crate::fdt::Fdt;
use crate::fdt_edit::NodeId;
#[allow(unused_imports)]
use crate::fdt_edit::{has_node, node_at, prop_of};
#[allow(unused_imports)]
use crate::fdt_tree::zeros;
use crate::regs::{PurgatoryRegs, VirtioRegs};
#[allow(unused_imports)]
use crate::text::{dec, hex};
use crate::text::{push_dec, push_hex, same};

verus! {

/// What the guest boots from.
pub enum BootDevice {
    /// A root file system on a virtio block device.
    Vda(String),
    /// An image in memory, and no disk.
    Initramfs { addr: u64, len: u64 },
    /// An image in memory that moves on to a disk.
    InitramfsAndVda { addr: u64, len: u64, dev: String },
    /// A boot loader that finds its own root.
    Uboot,
}

/// A virtio device to be placed under `/soc`.
#[derive(Clone, Copy)]
pub struct VirtioMmioNode {
    pub addr: u64,
    pub size: u64,
    pub irq: u32,
}

// ---------------------------------------------------------------------------
// What the patched tree holds
// ---------------------------------------------------------------------------

/// The console part of the kernel command line.
pub open spec fn console_args(virtio_console_attached: bool) -> Seq<char> {
    if virtio_console_attached {
        "console=hvc0 earlycon=sbi"@
    } else {
        "earlycon=sbi keep_bootcon"@
    }
}

/// The kernel command line.
pub open spec fn bootargs(device: BootDevice, virtio_console_attached: bool) -> Seq<char> {
    let console = console_args(virtio_console_attached);
    match device {
        BootDevice::Vda(dev) => "rw "@ + console + " root=/dev/"@ + dev@,
        BootDevice::Initramfs { addr, len } => "rw "@ + console + " initrd=0x"@ + hex(addr as nat)
            + ","@ + dec(len as nat),
        BootDevice::InitramfsAndVda { addr, len, dev } => "rw "@ + console + " initrd=0x"@ + hex(
            addr as nat,
        ) + ","@ + dec(len as nat) + " root=/dev/"@ + dev@,
        BootDevice::Uboot => console,
    }
}

/// A text and the zero byte that ends it.
pub open spec fn c_text(s: Seq<char>) -> Seq<u8> {
    encode_utf8(s).push(0)
}

/// An address and a size, as `reg` holds them.
pub open spec fn reg(addr: nat, size: nat) -> Seq<u8> {
    be64(addr) + be64(size)
}

/// `name@addr`
pub open spec fn unit(name: Seq<char>, addr: nat) -> Seq<char> {
    name + "@"@ + hex(addr)
}

/// A property to set: its name and its value.
pub type Setting = (Seq<char>, Seq<u8>);

/// What became of a blob: its new state, or the first failure.
pub type Edit = core::result::Result<Dtb, Fault>;

/// The blob with some properties of a node set, one after the other.
pub open spec fn set_all(d: Dtb, node: Seq<int>, settings: Seq<Setting>) -> Edit
    decreases settings.len(),
{
    if settings.len() == 0 {
        Ok(d)
    } else {
        match set_all(d, node, settings.drop_last()) {
            Ok(e) => dtb_setprop(e, node, settings.last().0, settings.last().1),
            Err(f) => Err(f),
        }
    }
}

/// The blob with a new node that has some properties.
pub open spec fn add_with(d: Dtb, parent: Seq<int>, name: Seq<char>, settings: Seq<Setting>) -> Edit {
    match dtb_add(d, parent, name) {
        Ok((e, node)) => set_all(e, node, settings),
        Err(f) => Err(f),
    }
}

pub open spec fn missing(message: Seq<char>) -> Fault {
    Fault { op: "path_offset"@, message }
}

/// The memory node gets the range that the guest may use, and the name that goes with it.
#[verifier::opaque]
pub open spec fn patch_memory(d: Dtb, mem_start: u64, mem_size: u64) -> Edit {
    match dtb_path(d, "/memory@400030000000"@) {
        Err(f) => Err(f),
        Ok(None) => Err(missing("memory@400030000000 node not found in DT"@)),
        Ok(Some(node)) => match dtb_setprop(d, node, "reg"@, reg(mem_start as nat, mem_size as nat)) {
            Err(f) => Err(f),
            Ok(e) => {
                let name = unit("memory"@, mem_start as nat);
                if node_at(e.tree, node).name == encode_utf8(name) {
                    Ok(e)
                } else {
                    dtb_rename(e, node, name)
                }
            },
        },
    }
}

/// `/chosen`, which is made where it is missing, gets the command line and the early console.
#[verifier::opaque]
pub open spec fn patch_chosen(d: Dtb, args: Seq<char>) -> Edit {
    let found = match dtb_path(d, "/chosen"@) {
        Err(f) => Err(f),
        Ok(Some(node)) => Ok((d, node)),
        Ok(None) => dtb_add(d, Seq::empty(), "chosen"@),
    };
    match found {
        Err(f) => Err(f),
        Ok((e, chosen)) => match dtb_setprop(e, chosen, "bootargs"@, c_text(args)) {
            Err(f) => Err(f),
            Ok(e) => match add_with(
                e,
                chosen,
                "sbi-console"@,
                seq![("compatible"@, c_text("riscv,sbi-debug-console"@))],
            ) {
                Err(f) => Err(f),
                Ok(e) => dtb_setprop(e, chosen, "stdout-path"@, c_text("/chosen/sbi-console"@)),
            },
        },
    }
}

/// The settings of a reserved range.
pub open spec fn reserved_settings(addr: nat, size: nat) -> Seq<Setting> {
    seq![("reg"@, reg(addr, size)), ("no-map"@, Seq::<u8>::empty())]
}

/// `/reserved-memory`, which is made where it is missing.
pub open spec fn reserved_node(d: Dtb) -> core::result::Result<(Dtb, Seq<int>), Fault> {
    match dtb_path(d, "/reserved-memory"@) {
        Err(f) => Err(f),
        Ok(Some(node)) => Ok((d, node)),
        Ok(None) => match dtb_add(d, Seq::empty(), "reserved-memory"@) {
            Err(f) => Err(f),
            Ok((e, node)) => match set_all(
                e,
                node,
                seq![
                    ("#address-cells"@, be32(2)),
                    ("#size-cells"@, be32(2)),
                    ("ranges"@, Seq::<u8>::empty()),
                ],
            ) {
                Err(f) => Err(f),
                Ok(e) => Ok((e, node)),
            },
        },
    }
}

/// The ranges that the guest must leave alone: the virtio devices at the top of memory, and the
/// page of the status block.
#[verifier::opaque]
pub open spec fn patch_reserved(
    d: Dtb,
    mem_start: u64,
    mem_end: u64,
    virtio: VirtioRegs,
    purgatory: PurgatoryRegs,
) -> Edit {
    match reserved_node(d) {
        Err(f) => Err(f),
        Ok((e, node)) => match add_with(
            e,
            node,
            "memory@4000afa00000"@,
            reserved_settings(
                (mem_end - virtio.reserved_size) as nat,
                virtio.reserved_size as nat,
            ),
        ) {
            Err(f) => Err(f),
            Ok(e) => {
                let pa = (mem_start + purgatory.status_offset) as nat;
                add_with(e, node, unit("bhx-purgatory"@, pa), reserved_settings(pa, 0x1000))
            },
        },
    }
}

/// The settings of a virtio device.
pub open spec fn virtio_settings(node: VirtioMmioNode, phandle: nat) -> Seq<Setting> {
    seq![
        ("compatible"@, c_text("virtio,mmio"@)),
        ("reg"@, reg(node.addr as nat, node.size as nat)),
        ("interrupts"@, be32(node.irq as nat)),
        ("interrupt-parent"@, be32(phandle)),
    ]
}

/// The virtio devices, one after the other.
pub open spec fn add_virtio(d: Dtb, soc: Seq<int>, nodes: Seq<VirtioMmioNode>, phandle: nat) -> Edit
    decreases nodes.len(),
{
    if nodes.len() == 0 {
        Ok(d)
    } else {
        match add_virtio(d, soc, nodes.drop_last(), phandle) {
            Err(f) => Err(f),
            Ok(e) => add_with(
                e,
                soc,
                unit("virtio"@, nodes.last().addr as nat),
                virtio_settings(nodes.last(), phandle),
            ),
        }
    }
}

/// The settings of the serial port.
pub open spec fn serial_settings(addr: u64, irq: u32, phandle: nat) -> Seq<Setting> {
    seq![
        ("compatible"@, c_text("ns16550a"@)),
        ("reg"@, reg(addr as nat, 0x1000)),
        ("reg-shift"@, be32(2)),
        ("reg-io-width"@, be32(4)),
        ("clock-frequency"@, be32(1843200)),
        ("current-speed"@, be32(115200)),
        ("interrupts"@, be32(irq as nat)),
        ("interrupt-parent"@, be32(phandle)),
    ]
}

/// The interrupt controller, with a phandle: a new one where it has none. There is none to give
/// where the largest number is taken.
pub open spec fn plic_phandle(d: Dtb, plic: Seq<int>) -> core::result::Result<(Dtb, nat), Fault> {
    let old = phandle_of(node_at(d.tree, plic));
    if old != 0 {
        Ok((d, old))
    } else {
        let new = max_phandle(d.tree) + 1;
        if new > u32::MAX {
            Err(Fault { op: "fdt_find_max_phandle"@, message: "FDT_ERR_NOPHANDLES"@ })
        } else {
            match dtb_setprop(d, plic, "phandle"@, be32(new)) {
                Err(f) => Err(f),
                Ok(e) => Ok((e, new)),
            }
        }
    }
}

/// The devices under `/soc`, wired to its interrupt controller.
#[verifier::opaque]
pub open spec fn patch_soc(
    d: Dtb,
    nodes: Seq<VirtioMmioNode>,
    uart_addr: Option<u64>,
    virtio: VirtioRegs,
) -> Edit {
    match dtb_path(d, "/soc"@) {
        Err(f) => Err(f),
        Ok(None) => Err(missing("soc node not found in DT"@)),
        Ok(Some(soc)) => match dtb_path(d, "/soc/interrupt-controller@c000000"@) {
            Err(f) => Err(f),
            Ok(None) => Err(missing("plic node not found in DT"@)),
            Ok(Some(plic)) => match plic_phandle(d, plic) {
                Err(f) => Err(f),
                Ok((e, phandle)) => match add_virtio(e, soc, nodes, phandle) {
                    Err(f) => Err(f),
                    Ok(e) => match uart_addr {
                        None => Ok(e),
                        Some(addr) => add_with(
                            e,
                            soc,
                            unit("serial"@, addr as nat),
                            serial_settings(addr, virtio.uart_irq, phandle),
                        ),
                    },
                },
            },
        },
    }
}

/// All the edits, in order.
pub open spec fn patch_all(
    d: Dtb,
    device: BootDevice,
    mem_start: u64,
    mem_size: u64,
    nodes: Seq<VirtioMmioNode>,
    uart_addr: Option<u64>,
    virtio_console_attached: bool,
    virtio: VirtioRegs,
    purgatory: PurgatoryRegs,
) -> Edit {
    match patch_memory(d, mem_start, mem_size) {
        Err(f) => Err(f),
        Ok(e) => match patch_chosen(e, bootargs(device, virtio_console_attached)) {
            Err(f) => Err(f),
            Ok(e) => match patch_reserved(
                e,
                mem_start,
                (mem_start + mem_size) as u64,
                virtio,
                purgatory,
            ) {
                Err(f) => Err(f),
                Ok(e) => patch_soc(e, nodes, uart_addr, virtio),
            },
        },
    }
}

// ---------------------------------------------------------------------------
// What a patched blob must hold
// ---------------------------------------------------------------------------

pub open spec fn violated(message: Seq<char>) -> Option<Fault> {
    Some(Fault { op: "verify_dtb_invariants"@, message })
}

/// A failed lookup, wrapped with the path that was looked up.
pub open spec fn wrapped(op: Seq<char>, f: Fault) -> Fault {
    Fault { op, message: "fdt: "@ + f.op + ": "@ + f.message }
}

pub open spec fn missing_node(path: Seq<char>) -> Option<Fault> {
    violated("missing "@ + path + " in patched DTB"@)
}

/// What is wrong with the node at `path`: it has to exist.
pub open spec fn check_exists(d: Dtb, path: Seq<char>) -> Option<Fault> {
    match dtb_path(d, path) {
        Err(f) => Some(wrapped(path, f)),
        Ok(None) => missing_node(path),
        Ok(Some(node)) => None,
    }
}

/// `0xaddr, 0xsize`
pub open spec fn hex_pair(addr: nat, size: nat) -> Seq<char> {
    "(0x"@ + hex(addr) + ", 0x"@ + hex(size) + ")"@
}

/// What is wrong with a reserved range: it has to cover exactly this range and to be unmapped.
pub open spec fn check_reserved(d: Dtb, path: Seq<char>, addr: nat, size: nat) -> Option<Fault> {
    match dtb_path(d, path) {
        Err(f) => Some(wrapped(path, f)),
        Ok(None) => missing_node(path),
        Ok(Some(node)) => {
            let t = node_at(d.tree, node);
            match prop_of(t, encode_utf8("reg"@)) {
                None => violated(path + " has no `reg` property"@),
                Some(r) => if r.len() != 16 {
                    violated(
                        path + " `reg` is "@ + dec(r.len())
                            + " bytes, expected 16 (u64 addr + u64 size)"@,
                    )
                } else if un_be64(r) != addr || un_be64(r.skip(8)) != size {
                    violated(
                        path + " `reg` is "@ + hex_pair(un_be64(r), un_be64(r.skip(8)))
                            + ", expected "@ + hex_pair(addr, size),
                    )
                } else if prop_of(t, encode_utf8("no-map"@)) is None {
                    violated(path + " missing `no-map` — kernel must not allocate over it"@)
                } else {
                    None
                },
            }
        },
    }
}

pub open spec fn check_chosen(d: Dtb) -> Option<Fault> {
    match dtb_path(d, "/chosen"@) {
        Err(f) => Some(wrapped("verify/chosen"@, f)),
        Ok(None) => violated("missing /chosen node in patched DTB"@),
        Ok(Some(node)) => if prop_of(node_at(d.tree, node), encode_utf8("bootargs"@)) is None {
            violated("missing /chosen/bootargs in patched DTB"@)
        } else {
            None
        },
    }
}

/// The path of the reservation for the status block.
pub open spec fn purgatory_path(pa: nat) -> Seq<char> {
    "/reserved-memory/"@ + unit("bhx-purgatory"@, pa)
}

/// The first thing that a guest could not live without and that the blob lacks.
pub open spec fn check_patched(d: Dtb, mem_start: u64, purgatory: PurgatoryRegs) -> Option<Fault> {
    let pa = (mem_start + purgatory.status_offset) as nat;
    match check_reserved(d, purgatory_path(pa), pa, 0x1000) {
        Some(f) => Some(f),
        None => match check_exists(d, "/"@ + unit("memory"@, mem_start as nat)) {
            Some(f) => Some(f),
            None => check_chosen(d),
        },
    }
}

/// What is wrong with the bytes of a patched blob.
pub open spec fn check_bytes(b: Seq<u8>, mem_start: u64, purgatory: PurgatoryRegs) -> Option<Fault> {
    match parse_dtb(b) {
        Ok(d) => check_patched(d, mem_start, purgatory),
        Err(e) => Some(
            wrapped("verify_dtb_invariants/open"@, fault("fdt_open_into"@, e)),
        ),
    }
}

/// What patching the bytes of a blob gives: the packed result of all the edits, once it has been
/// checked.
pub open spec fn patched_bytes(
    b: Seq<u8>,
    device: BootDevice,
    mem_start: u64,
    mem_size: u64,
    nodes: Seq<VirtioMmioNode>,
    uart_addr: Option<u64>,
    virtio_console_attached: bool,
    virtio: VirtioRegs,
    purgatory: PurgatoryRegs,
) -> core::result::Result<Seq<u8>, Fault> {
    match parse_dtb(b + zeros(2000)) {
        Err(e) => Err(fault("fdt_open_into"@, e)),
        Ok(d) => match patch_all(
            d,
            device,
            mem_start,
            mem_size,
            nodes,
            uart_addr,
            virtio_console_attached,
            virtio,
            purgatory,
        ) {
            Err(f) => Err(f),
            Ok(e) => match check_bytes(flat_dtb(e), mem_start, purgatory) {
                Some(f) => Err(f),
                None => Ok(flat_dtb(e)),
            },
        },
    }
}

/// What the release path makes of a patched blob: it adds the reservation that the firmware would
/// otherwise have added itself.
pub open spec fn release_bytes(b: Seq<u8>, mem_start: u64) -> core::result::Result<Seq<u8>, Fault> {
    match parse_dtb(b + zeros(4096)) {
        Err(e) => Err(wrapped("add_opensbi_reservation/open"@, fault("fdt_open_into"@, e))),
        Ok(d) => match dtb_path(d, "/reserved-memory"@) {
            Err(f) => Err(f),
            Ok(None) => Err(
                Fault {
                    op: "add_opensbi_reservation_for_release"@,
                    message: "missing /reserved-memory in patched DTB"@,
                },
            ),
            Ok(Some(node)) => match add_with(
                d,
                node,
                unit("bhx-opensbi-firmware"@, mem_start as nat),
                reserved_settings(mem_start as nat, 0x60000),
            ) {
                Err(f) => Err(f),
                Ok(e) => Ok(flat_dtb(e)),
            },
        },
    }
}

// ---------------------------------------------------------------------------
// The code
// ---------------------------------------------------------------------------

/// The settings that a slice stands for.
pub open spec fn settings_of(settings: Seq<(&str, Vec<u8>)>) -> Seq<Setting> {
    settings.map(|i: int, s: (&str, Vec<u8>)| (s.0@, s.1@))
}

/// An edit came out as the specification says.
pub open spec fn edited(r: Result<()>, now: Dtb, expected: Edit) -> bool {
    match expected {
        Ok(d) => r is Ok && now == d,
        Err(f) => fails_as(r, f),
    }
}

/// The kernel command line.
fn bootargs_text(device: &BootDevice, virtio_console_attached: bool) -> (s: String)
    ensures
        s@ == bootargs(*device, virtio_console_attached),
{
    let console: &str = if virtio_console_attached {
        "console=hvc0 earlycon=sbi"
    } else {
        "earlycon=sbi keep_bootcon"
    };
    match device {
        BootDevice::Uboot => console.to_owned(),
        BootDevice::Vda(dev) => {
            let mut s: String = "rw ".to_owned();
            s.append(console);
            s.append(" root=/dev/");
            s.append(dev.as_str());
            s
        },
        BootDevice::Initramfs { addr, len } => {
            let mut s: String = "rw ".to_owned();
            s.append(console);
            s.append(" initrd=0x");
            push_hex(&mut s, *addr);
            s.append(",");
            push_dec(&mut s, *len);
            s
        },
        BootDevice::InitramfsAndVda { addr, len, dev } => {
            let mut s: String = "rw ".to_owned();
            s.append(console);
            s.append(" initrd=0x");
            push_hex(&mut s, *addr);
            s.append(",");
            push_dec(&mut s, *len);
            s.append(" root=/dev/");
            s.append(dev.as_str());
            s
        },
    }
}

/// `name@addr`
fn unit_text(name: &str, addr: u64) -> (s: String)
    ensures
        s@ == unit(name@, addr as nat),
{
    let mut s: String = name.to_owned();
    s.append("@");
    push_hex(&mut s, addr);
    s
}

/// A text and the zero byte that ends it.
fn c_bytes(s: &str) -> (b: Vec<u8>)
    ensures
        b@ == c_text(s@),
{
    let text: &[u8] = s.as_bytes();
    let mut b: Vec<u8> = bytes_between(text, 0, text.len());
    b.push(0);
    assert(b@ =~= c_text(s@));
    b
}

fn reg_bytes(addr: u64, size: u64) -> (b: Vec<u8>)
    ensures
        b@ == reg(addr as nat, size as nat),
{
    let mut b: Vec<u8> = Vec::new();
    push_be64(&mut b, addr);
    push_be64(&mut b, size);
    assert(b@ =~= reg(addr as nat, size as nat));
    b
}

fn word_bytes(n: u32) -> (b: Vec<u8>)
    ensures
        b@ == be32(n as nat),
{
    let mut b: Vec<u8> = Vec::new();
    push_be32(&mut b, n);
    assert(b@ =~= be32(n as nat));
    b
}

fn no_bytes() -> (b: Vec<u8>)
    ensures
        b@ == Seq::<u8>::empty(),
{
    Vec::new()
}

/// Sets some properties of a node, one after the other.
fn set_props(fdt: &mut Fdt, node: &NodeId, settings: &[(&str, Vec<u8>)]) -> (r: Result<()>)
    requires
        old(fdt).wf(),
    ensures
        final(fdt).wf(),
        edited(r, final(fdt)@, set_all(old(fdt)@, node@, settings_of(settings@))),
{
    let ghost all = settings_of(settings@);
    let mut i: usize = 0;
    assert(all.take(0) =~= Seq::<Setting>::empty());
    while i < settings.len()
        invariant
            i <= settings@.len(),
            fdt.wf(),
            all == settings_of(settings@),
            set_all(old(fdt)@, node@, all.take(i as int)) == Edit::Ok(fdt@),
        decreases settings@.len() - i,
    {
        proof {
            assert(all.take(i + 1).drop_last() =~= all.take(i as int));
            assert(all.take(i + 1).last() == all[i as int]);
        }
        match fdt.setprop(node, settings[i].0, settings[i].1.as_slice()) {
            Ok(()) => {},
            Err(e) => {
                proof {
                    lemma_set_all_fails(old(fdt)@, node@, all, i + 1);
                }
                return Err(e);
            },
        }
        i = i + 1;
    }
    assert(all.take(all.len() as int) =~= all);
    Ok(())
}

/// Once a setting has failed, no later one changes the outcome.
proof fn lemma_set_all_fails(d: Dtb, node: Seq<int>, settings: Seq<Setting>, n: int)
    requires
        0 <= n <= settings.len(),
        set_all(d, node, settings.take(n)) is Err,
    ensures
        set_all(d, node, settings) == set_all(d, node, settings.take(n)),
    decreases settings.len() - n,
{
    if n < settings.len() {
        assert(settings.take(n + 1).drop_last() =~= settings.take(n));
        lemma_set_all_fails(d, node, settings, n + 1);
    } else {
        assert(settings.take(n) =~= settings);
    }
}

/// Adds a node that has some properties.
fn add_node(
    fdt: &mut Fdt,
    parent: &NodeId,
    name: &str,
    settings: &[(&str, Vec<u8>)],
) -> (r: Result<()>)
    requires
        old(fdt).wf(),
    ensures
        final(fdt).wf(),
        edited(r, final(fdt)@, add_with(old(fdt)@, parent@, name@, settings_of(settings@))),
{
    match fdt.add_subnode(parent, name) {
        Ok(node) => set_props(fdt, &node, settings),
        Err(e) => Err(e),
    }
}

/// The root of every tree.
fn root_id() -> (id: NodeId)
    ensures
        id@ == Seq::<int>::empty(),
{
    let id: NodeId = NodeId { path: Vec::new() };
    assert(id@ =~= Seq::<int>::empty());
    id
}

fn patch_memory_node(fdt: &mut Fdt, mem_start: u64, mem_size: u64) -> (r: Result<()>)
    requires
        old(fdt).wf(),
    ensures
        final(fdt).wf(),
        edited(r, final(fdt)@, patch_memory(old(fdt)@, mem_start, mem_size)),
{
    reveal(patch_memory);
    let node: NodeId = match fdt.path_offset("/memory@400030000000") {
        Ok(Some(n)) => n,
        Ok(None) => {
            return Err(Error::fdt("path_offset", "memory@400030000000 node not found in DT"));
        },
        Err(e) => {
            return Err(e);
        },
    };
    let range: Vec<u8> = reg_bytes(mem_start, mem_size);
    match fdt.setprop(&node, "reg", range.as_slice()) {
        Ok(()) => {},
        Err(e) => {
            return Err(e);
        },
    }
    let name: String = unit_text("memory", mem_start);
    let named: bool = match fdt.get_name(&node) {
        Some(old_name) => same(old_name.as_str(), name.as_str()),
        None => false,
    };
    proof {
        broadcast use {decode_utf8_encode_utf8, encode_utf8_decode_utf8, encode_utf8_valid_utf8};

        crate::fdt_laws::lemma_setprop_keeps_node(
            old(fdt)@,
            node@,
            "reg"@,
            reg(mem_start as nat, mem_size as nat),
        );
    }
    if named {
        Ok(())
    } else {
        fdt.set_name(&node, name.as_str())
    }
}

fn patch_chosen_node(fdt: &mut Fdt, args: &str) -> (r: Result<()>)
    requires
        old(fdt).wf(),
    ensures
        final(fdt).wf(),
        edited(r, final(fdt)@, patch_chosen(old(fdt)@, args@)),
{
    reveal(patch_chosen);
    let chosen: NodeId = match fdt.path_offset("/chosen") {
        Ok(Some(n)) => n,
        Ok(None) => match fdt.add_subnode(&root_id(), "chosen") {
            Ok(n) => n,
            Err(e) => {
                return Err(e);
            },
        },
        Err(e) => {
            return Err(e);
        },
    };
    match fdt.setprop(&chosen, "bootargs", c_bytes(args).as_slice()) {
        Ok(()) => {},
        Err(e) => {
            return Err(e);
        },
    }
    let settings: [(&str, Vec<u8>); 1] = [("compatible", c_bytes("riscv,sbi-debug-console"))];
    assert(settings_of(settings@) =~= seq![("compatible"@, c_text("riscv,sbi-debug-console"@))]);
    match add_node(fdt, &chosen, "sbi-console", &settings) {
        Ok(()) => {},
        Err(e) => {
            return Err(e);
        },
    }
    fdt.setprop(&chosen, "stdout-path", c_bytes("/chosen/sbi-console").as_slice())
}

/// Adds a range that the guest must leave alone.
fn add_reserved(fdt: &mut Fdt, parent: &NodeId, name: &str, addr: u64, size: u64) -> (r: Result<()>)
    requires
        old(fdt).wf(),
    ensures
        final(fdt).wf(),
        edited(
            r,
            final(fdt)@,
            add_with(old(fdt)@, parent@, name@, reserved_settings(addr as nat, size as nat)),
        ),
{
    let settings: [(&str, Vec<u8>); 2] = [("reg", reg_bytes(addr, size)), ("no-map", no_bytes())];
    assert(settings_of(settings@) =~= reserved_settings(addr as nat, size as nat));
    add_node(fdt, parent, name, &settings)
}

fn find_reserved(fdt: &mut Fdt) -> (r: Result<NodeId>)
    requires
        old(fdt).wf(),
    ensures
        final(fdt).wf(),
        match reserved_node(old(fdt)@) {
            Ok((d, p)) => r matches Ok(id) && id@ == p && final(fdt)@ == d,
            Err(f) => fails_as(r, f),
        },
{
    match fdt.path_offset("/reserved-memory") {
        Ok(Some(n)) => Ok(n),
        Ok(None) => match fdt.add_subnode(&root_id(), "reserved-memory") {
            Ok(n) => {
                let settings: [(&str, Vec<u8>); 3] = [
                    ("#address-cells", word_bytes(2)),
                    ("#size-cells", word_bytes(2)),
                    ("ranges", no_bytes()),
                ];
                assert(settings_of(settings@) =~= seq![
                    ("#address-cells"@, be32(2)),
                    ("#size-cells"@, be32(2)),
                    ("ranges"@, Seq::<u8>::empty()),
                ]);
                match set_props(fdt, &n, &settings) {
                    Ok(()) => Ok(n),
                    Err(e) => Err(e),
                }
            },
            Err(e) => Err(e),
        },
        Err(e) => Err(e),
    }
}

fn patch_reserved_nodes(
    fdt: &mut Fdt,
    mem_start: u64,
    mem_end: u64,
    virtio: &VirtioRegs,
    purgatory: &PurgatoryRegs,
) -> (r: Result<()>)
    requires
        old(fdt).wf(),
        virtio.reserved_size <= mem_end,
        mem_start + purgatory.status_offset <= u64::MAX,
    ensures
        final(fdt).wf(),
        edited(
            r,
            final(fdt)@,
            patch_reserved(old(fdt)@, mem_start, mem_end, *virtio, *purgatory),
        ),
{
    reveal(patch_reserved);
    let reserved: NodeId = match find_reserved(fdt) {
        Ok(n) => n,
        Err(e) => {
            return Err(e);
        },
    };
    let top: u64 = mem_end - virtio.reserved_size;
    match add_reserved(fdt, &reserved, "memory@4000afa00000", top, virtio.reserved_size) {
        Ok(()) => {},
        Err(e) => {
            return Err(e);
        },
    }
    let pa: u64 = mem_start + purgatory.status_offset;
    let name: String = unit_text("bhx-purgatory", pa);
    add_reserved(fdt, &reserved, name.as_str(), pa, 0x1000)
}

fn find_phandle(fdt: &mut Fdt, plic: &NodeId) -> (r: Result<u32>)
    requires
        old(fdt).wf(),
        has_node(old(fdt)@.tree, plic@),
    ensures
        final(fdt).wf(),
        match plic_phandle(old(fdt)@, plic@) {
            Ok((d, n)) => r matches Ok(p) && p == n && final(fdt)@ == d,
            Err(f) => fails_as(r, f),
        },
{
    let old_phandle: u32 = fdt.get_phandle(plic);
    if old_phandle != 0 {
        return Ok(old_phandle);
    }
    match fdt.find_max_phandle() {
        Ok(max) => {
            if max == u32::MAX {
                return Err(Error::fdt("fdt_find_max_phandle", "FDT_ERR_NOPHANDLES"));
            }
            let new: u32 = max + 1;
            match fdt.setprop_u32(plic, "phandle", new) {
                Ok(()) => Ok(new),
                Err(e) => Err(e),
            }
        },
        Err(e) => Err(e),
    }
}

fn add_virtio_node(fdt: &mut Fdt, soc: &NodeId, node: &VirtioMmioNode, phandle: u32) -> (r: Result<
    (),
>)
    requires
        old(fdt).wf(),
    ensures
        final(fdt).wf(),
        edited(
            r,
            final(fdt)@,
            add_with(
                old(fdt)@,
                soc@,
                unit("virtio"@, node.addr as nat),
                virtio_settings(*node, phandle as nat),
            ),
        ),
{
    let name: String = unit_text("virtio", node.addr);
    let settings: [(&str, Vec<u8>); 4] = [
        ("compatible", c_bytes("virtio,mmio")),
        ("reg", reg_bytes(node.addr, node.size)),
        ("interrupts", word_bytes(node.irq)),
        ("interrupt-parent", word_bytes(phandle)),
    ];
    assert(settings_of(settings@) =~= virtio_settings(*node, phandle as nat));
    add_node(fdt, soc, name.as_str(), &settings)
}

/// Once a device has failed, no later one changes the outcome.
proof fn lemma_add_virtio_fails(
    d: Dtb,
    soc: Seq<int>,
    nodes: Seq<VirtioMmioNode>,
    phandle: nat,
    n: int,
)
    requires
        0 <= n <= nodes.len(),
        add_virtio(d, soc, nodes.take(n), phandle) is Err,
    ensures
        add_virtio(d, soc, nodes, phandle) == add_virtio(d, soc, nodes.take(n), phandle),
    decreases nodes.len() - n,
{
    if n < nodes.len() {
        assert(nodes.take(n + 1).drop_last() =~= nodes.take(n));
        lemma_add_virtio_fails(d, soc, nodes, phandle, n + 1);
    } else {
        assert(nodes.take(n) =~= nodes);
    }
}

fn add_virtio_nodes(
    fdt: &mut Fdt,
    soc: &NodeId,
    nodes: &[VirtioMmioNode],
    phandle: u32,
) -> (r: Result<()>)
    requires
        old(fdt).wf(),
    ensures
        final(fdt).wf(),
        edited(r, final(fdt)@, add_virtio(old(fdt)@, soc@, nodes@, phandle as nat)),
{
    let mut i: usize = 0;
    assert(nodes@.take(0) =~= Seq::<VirtioMmioNode>::empty());
    while i < nodes.len()
        invariant
            i <= nodes@.len(),
            fdt.wf(),
            add_virtio(old(fdt)@, soc@, nodes@.take(i as int), phandle as nat) == Edit::Ok(fdt@),
        decreases nodes@.len() - i,
    {
        proof {
            assert(nodes@.take(i + 1).drop_last() =~= nodes@.take(i as int));
            assert(nodes@.take(i + 1).last() == nodes@[i as int]);
        }
        match add_virtio_node(fdt, soc, &nodes[i], phandle) {
            Ok(()) => {},
            Err(e) => {
                proof {
                    lemma_add_virtio_fails(old(fdt)@, soc@, nodes@, phandle as nat, i + 1);
                }
                return Err(e);
            },
        }
        i = i + 1;
    }
    assert(nodes@.take(nodes@.len() as int) =~= nodes@);
    Ok(())
}

fn add_serial_node(fdt: &mut Fdt, soc: &NodeId, addr: u64, irq: u32, phandle: u32) -> (r: Result<()>)
    requires
        old(fdt).wf(),
    ensures
        final(fdt).wf(),
        edited(
            r,
            final(fdt)@,
            add_with(
                old(fdt)@,
                soc@,
                unit("serial"@, addr as nat),
                serial_settings(addr, irq, phandle as nat),
            ),
        ),
{
    let name: String = unit_text("serial", addr);
    let settings: [(&str, Vec<u8>); 8] = [
        ("compatible", c_bytes("ns16550a")),
        ("reg", reg_bytes(addr, 0x1000)),
        ("reg-shift", word_bytes(2)),
        ("reg-io-width", word_bytes(4)),
        ("clock-frequency", word_bytes(1843200)),
        ("current-speed", word_bytes(115200)),
        ("interrupts", word_bytes(irq)),
        ("interrupt-parent", word_bytes(phandle)),
    ];
    assert(settings_of(settings@) =~= serial_settings(
        addr,
        irq,
        phandle as nat,
    ));
    add_node(fdt, soc, name.as_str(), &settings)
}

fn patch_soc_node(
    fdt: &mut Fdt,
    nodes: &[VirtioMmioNode],
    uart_addr: Option<u64>,
    virtio: &VirtioRegs,
) -> (r: Result<()>)
    requires
        old(fdt).wf(),
    ensures
        final(fdt).wf(),
        edited(r, final(fdt)@, patch_soc(old(fdt)@, nodes@, uart_addr, *virtio)),
{
    reveal(patch_soc);
    let soc: NodeId = match fdt.path_offset("/soc") {
        Ok(Some(n)) => n,
        Ok(None) => {
            return Err(Error::fdt("path_offset", "soc node not found in DT"));
        },
        Err(e) => {
            return Err(e);
        },
    };
    let plic: NodeId = match fdt.path_offset("/soc/interrupt-controller@c000000") {
        Ok(Some(n)) => n,
        Ok(None) => {
            return Err(Error::fdt("path_offset", "plic node not found in DT"));
        },
        Err(e) => {
            return Err(e);
        },
    };
    proof {
        lemma_path_valid(fdt@, "/soc/interrupt-controller@c000000"@);
    }
    let phandle: u32 = match find_phandle(fdt, &plic) {
        Ok(n) => n,
        Err(e) => {
            return Err(e);
        },
    };
    match add_virtio_nodes(fdt, &soc, nodes, phandle) {
        Ok(()) => {},
        Err(e) => {
            return Err(e);
        },
    }
    match uart_addr {
        None => Ok(()),
        Some(addr) => {
            add_serial_node(fdt, &soc, addr, virtio.uart_irq, phandle)
        },
    }
}

/// A check came out as the specification says.
pub open spec fn checked(r: Result<()>, expected: Option<Fault>) -> bool {
    match expected {
        None => r is Ok,
        Some(f) => fails_as(r, f),
    }
}

fn violation(path: &str, rest: &str) -> (e: Error)
    ensures
        e.is_fdt("verify_dtb_invariants"@, path@ + rest@),
{
    let mut message: String = path.to_owned();
    message.append(rest);
    Error::fdt("verify_dtb_invariants", message.as_str())
}

fn missing_error(path: &str) -> (e: Error)
    ensures
        e.is_fdt("verify_dtb_invariants"@, "missing "@ + path@ + " in patched DTB"@),
{
    let mut message: String = "missing ".to_owned();
    message.append(path);
    message.append(" in patched DTB");
    Error::fdt("verify_dtb_invariants", message.as_str())
}

pub fn expect_node_exists(fdt: &Fdt, path: &str) -> (r: Result<()>)
    ensures
        checked(r, check_exists(fdt@, path@)),
{
    match fdt.path_offset(path) {
        Ok(Some(_)) => Ok(()),
        Ok(None) => Err(missing_error(path)),
        Err(e) => Err(Error::fdt(path, e.to_string().as_str())),
    }
}

/// Appends `(0xaddr, 0xsize)`.
fn push_hex_pair(s: &mut String, addr: u64, size: u64)
    ensures
        final(s)@ =~= old(s)@ + hex_pair(addr as nat, size as nat),
{
    s.append("(0x");
    push_hex(s, addr);
    s.append(", 0x");
    push_hex(s, size);
    s.append(")");
}

fn wrong_length(path: &str, len: usize) -> (e: Error)
    ensures
        e.is_fdt(
            "verify_dtb_invariants"@,
            path@ + " `reg` is "@ + dec(len as nat)
                + " bytes, expected 16 (u64 addr + u64 size)"@,
        ),
{
    let mut message: String = path.to_owned();
    message.append(" `reg` is ");
    push_dec(&mut message, len as u64);
    message.append(" bytes, expected 16 (u64 addr + u64 size)");
    Error::fdt("verify_dtb_invariants", message.as_str())
}

fn wrong_range(path: &str, found: (u64, u64), expected: (u64, u64)) -> (e: Error)
    ensures
        e.is_fdt(
            "verify_dtb_invariants"@,
            path@ + " `reg` is "@ + hex_pair(found.0 as nat, found.1 as nat) + ", expected "@
                + hex_pair(expected.0 as nat, expected.1 as nat),
        ),
{
    let mut message: String = path.to_owned();
    message.append(" `reg` is ");
    push_hex_pair(&mut message, found.0, found.1);
    message.append(", expected ");
    push_hex_pair(&mut message, expected.0, expected.1);
    Error::fdt("verify_dtb_invariants", message.as_str())
}

pub fn expect_node_with_reg_and_no_map(
    fdt: &Fdt,
    path: &str,
    expected_addr: u64,
    expected_size: u64,
) -> (r: Result<()>)
    ensures
        checked(r, check_reserved(fdt@, path@, expected_addr as nat, expected_size as nat)),
{
    let node: NodeId = match fdt.path_offset(path) {
        Ok(Some(n)) => n,
        Ok(None) => {
            return Err(missing_error(path));
        },
        Err(e) => {
            return Err(Error::fdt(path, e.to_string().as_str()));
        },
    };
    proof {
        lemma_path_valid(fdt@, path@);
    }
    let range: &[u8] = match fdt.getprop(&node, "reg") {
        Some(v) => v,
        None => {
            return Err(violation(path, " has no `reg` property"));
        },
    };
    if range.len() != 16 {
        return Err(wrong_length(path, range.len()));
    }
    assert(range@.skip(0) =~= range@);
    let addr: u64 = read_be64(range, 0);
    let size: u64 = read_be64(range, 8);
    if addr != expected_addr || size != expected_size {
        return Err(wrong_range(path, (addr, size), (expected_addr, expected_size)));
    }
    if fdt.getprop(&node, "no-map").is_none() {
        return Err(violation(path, " missing `no-map` — kernel must not allocate over it"));
    }
    Ok(())
}

fn expect_chosen(fdt: &Fdt) -> (r: Result<()>)
    ensures
        checked(r, check_chosen(fdt@)),
{
    let chosen: NodeId = match fdt.path_offset("/chosen") {
        Ok(Some(n)) => n,
        Ok(None) => {
            return Err(
                Error::fdt("verify_dtb_invariants", "missing /chosen node in patched DTB"),
            );
        },
        Err(e) => {
            return Err(Error::fdt("verify/chosen", e.to_string().as_str()));
        },
    };
    proof {
        lemma_path_valid(fdt@, "/chosen"@);
    }
    if fdt.getprop(&chosen, "bootargs").is_none() {
        return Err(
            Error::fdt("verify_dtb_invariants", "missing /chosen/bootargs in patched DTB"),
        );
    }
    Ok(())
}

/// Checks that a patched blob holds what a guest cannot live without.
pub fn verify_dtb_invariants(dtb: &[u8], mem_start: u64, purgatory: &PurgatoryRegs) -> (r: Result<
    (),
>)
    requires
        mem_start + purgatory.status_offset <= u64::MAX,
    ensures
        checked(r, check_bytes(dtb@, mem_start, *purgatory)),
{
    assert(dtb@ + zeros(0) =~= dtb@);
    let _size: usize = dtb.len();
    let fdt: Fdt = match Fdt::open_into(dtb, 0) {
        Ok(f) => f,
        Err(e) => {
            return Err(Error::fdt("verify_dtb_invariants/open", e.to_string().as_str()));
        },
    };
    let pa: u64 = mem_start + purgatory.status_offset;
    let mut path: String = "/reserved-memory/".to_owned();
    path.append(unit_text("bhx-purgatory", pa).as_str());
    assert(path@ =~= purgatory_path(pa as nat));
    match expect_node_with_reg_and_no_map(&fdt, path.as_str(), pa, 0x1000) {
        Ok(()) => {},
        Err(e) => {
            return Err(e);
        },
    }
    let mut path: String = "/".to_owned();
    path.append(unit_text("memory", mem_start).as_str());
    match expect_node_exists(&fdt, path.as_str()) {
        Ok(()) => {},
        Err(e) => {
            return Err(e);
        },
    }
    expect_chosen(&fdt)
}

/// Patches a blob for a guest: its memory, its command line, the ranges it must leave alone and
/// the devices that the daemon emulates.
pub fn modify_dtb(
    dtb_bytes: &[u8],
    boot_device: &BootDevice,
    mem_start: u64,
    mem_size: u64,
    virtio_nodes: &[VirtioMmioNode],
    uart_addr: Option<u64>,
    virtio_console_attached: bool,
    virtio: &VirtioRegs,
    purgatory: &PurgatoryRegs,
) -> (r: Result<Vec<u8>>)
    requires
        dtb_bytes@.len() + 2000 <= usize::MAX,
        mem_start + mem_size <= u64::MAX,
        virtio.reserved_size <= mem_start + mem_size,
        mem_start + purgatory.status_offset <= u64::MAX,
    ensures
        match patched_bytes(
            dtb_bytes@,
            *boot_device,
            mem_start,
            mem_size,
            virtio_nodes@,
            uart_addr,
            virtio_console_attached,
            *virtio,
            *purgatory,
        ) {
            Ok(b) => r matches Ok(v) && v@ == b,
            Err(f) => fails_as(r, f),
        },
{
    let mem_end: u64 = mem_start + mem_size;
    let mut fdt: Fdt = match Fdt::open_into(dtb_bytes, 2000) {
        Ok(f) => f,
        Err(e) => {
            return Err(e);
        },
    };
    match patch_memory_node(&mut fdt, mem_start, mem_size) {
        Ok(()) => {},
        Err(e) => {
            return Err(e);
        },
    }
    let args: String = bootargs_text(boot_device, virtio_console_attached);
    match patch_chosen_node(&mut fdt, args.as_str()) {
        Ok(()) => {},
        Err(e) => {
            return Err(e);
        },
    }
    match patch_reserved_nodes(&mut fdt, mem_start, mem_end, virtio, purgatory) {
        Ok(()) => {},
        Err(e) => {
            return Err(e);
        },
    }
    match patch_soc_node(&mut fdt, virtio_nodes, uart_addr, virtio) {
        Ok(()) => {},
        Err(e) => {
            return Err(e);
        },
    }
    let bytes: Vec<u8> = match fdt.pack() {
        Ok(b) => b,
        Err(e) => {
            return Err(e);
        },
    };
    match verify_dtb_invariants(bytes.as_slice(), mem_start, purgatory) {
        Ok(()) => Ok(bytes),
        Err(e) => Err(e),
    }
}

/// Adds the reservation for the firmware to a patched blob. It is needed when a parked L2CPU is
/// released: the firmware adds it by itself only on a cold boot.
pub fn add_opensbi_reservation_for_release(dtb: &[u8], mem_start: u64) -> (r: Result<Vec<u8>>)
    requires
        dtb@.len() + 4096 <= usize::MAX,
    ensures
        match release_bytes(dtb@, mem_start) {
            Ok(b) => r matches Ok(v) && v@ == b,
            Err(f) => fails_as(r, f),
        },
{
    let mut fdt: Fdt = match Fdt::open_into(dtb, 4096) {
        Ok(f) => f,
        Err(e) => {
            return Err(Error::fdt("add_opensbi_reservation/open", e.to_string().as_str()));
        },
    };
    let reserved: NodeId = match fdt.path_offset("/reserved-memory") {
        Ok(Some(n)) => n,
        Ok(None) => {
            return Err(
                Error::fdt(
                    "add_opensbi_reservation_for_release",
                    "missing /reserved-memory in patched DTB",
                ),
            );
        },
        Err(e) => {
            return Err(e);
        },
    };
    let name: String = unit_text("bhx-opensbi-firmware", mem_start);
    match add_reserved(&mut fdt, &reserved, name.as_str(), mem_start, 0x60000) {
        Ok(()) => {},
        Err(e) => {
            return Err(e);
        },
    }
    fdt.pack()
}

} // verus!
