use blackhole_linux::boot::{
    add_opensbi_reservation_for_release, modify_dtb, verify_dtb_invariants, BootDevice,
    VirtioMmioNode,
};
use blackhole_linux::daemon::boot_flow::{boot_sequence_steps, BootBoard, BootFiles};
use blackhole_linux::daemon::protocol::{BootPayload, BootRequest};
use blackhole_linux::error::Error;
use blackhole_linux::fdt::Fdt;
use blackhole_linux::loader::{
    boot_l2cpu, configure_prefetchers, l2cpu_noc_write_bulk, l2cpu_noc_write_bulk_pub,
    read_bin_file, BootImages, BootStep, Chunk,
};
use blackhole_linux::regs::{
    BootImageRegs, EngineRegs, L2cpuRegs, MemoryMap, PurgatoryRegs, VirtioRegs,
};

/// Writes blobs node by node.
struct Blob {
    structure: Vec<u8>,
    strings: Vec<u8>,
}

impl Blob {
    fn new() -> Self {
        Blob {
            structure: Vec::new(),
            strings: Vec::new(),
        }
    }

    fn word(&mut self, n: u32) {
        self.structure.extend(n.to_be_bytes());
    }

    fn pad(&mut self) {
        while self.structure.len() % 4 != 0 {
            self.structure.push(0);
        }
    }

    fn begin(&mut self, name: &str) {
        self.word(1);
        self.structure.extend(name.as_bytes());
        self.structure.push(0);
        self.pad();
    }

    fn end(&mut self) {
        self.word(2);
    }

    fn prop(&mut self, name: &str, value: &[u8]) {
        let off = self.strings.len() as u32;
        self.strings.extend(name.as_bytes());
        self.strings.push(0);
        self.word(3);
        self.word(value.len() as u32);
        self.word(off);
        self.structure.extend(value);
        self.pad();
    }

    fn finish(mut self) -> Vec<u8> {
        self.word(9);
        let off_struct = 40 + 16;
        let off_strings = off_struct + self.structure.len();
        let total = off_strings + self.strings.len();
        let mut out: Vec<u8> = Vec::new();
        for n in [
            0xd00d_feed,
            total as u32,
            off_struct as u32,
            off_strings as u32,
            40,
            17,
            16,
            0,
            self.strings.len() as u32,
            self.structure.len() as u32,
        ] {
            out.extend((n as u32).to_be_bytes());
        }
        out.extend([0u8; 16]);
        out.extend(&self.structure);
        out.extend(&self.strings);
        out
    }
}

/// A blob with what a card has: memory, and an interrupt controller below `/soc`.
fn fixture() -> Vec<u8> {
    let mut b = Blob::new();
    b.begin("");
    b.prop("#address-cells", &[0, 0, 0, 2]);
    b.begin("memory@400030000000");
    b.prop("device_type", b"memory\0");
    b.prop("reg", &[0; 16]);
    b.end();
    b.begin("soc");
    b.begin("interrupt-controller@c000000");
    b.prop("phandle", &[0, 0, 0, 9]);
    b.end();
    b.end();
    b.end();
    b.finish()
}

const RESERVED_SIZE: u64 = 0x60_0000;
const MMIO_SLOT_SIZE: u64 = 0x1000;
const DISK_IRQ: u32 = 33;

fn virtio() -> VirtioRegs {
    VirtioRegs {
        reserved_size: RESERVED_SIZE,
        mmio_slot_size: MMIO_SLOT_SIZE,
        disk_irq: DISK_IRQ,
        disk1_irq: 29,
        disk2_irq: 28,
        net_irq: 32,
        console_irq: 31,
        rng_irq: 30,
        uart_irq: 27,
    }
}

fn purgatory() -> PurgatoryRegs {
    PurgatoryRegs {
        status_offset: 0x5_f000,
        status_parked: 0x5041_524b_4544,
        peers_offset: 0x5_f008,
        reset_type_offset: 0x5_f010,
        reset_type_shutdown: 0,
        reset_type_cold_reboot: 1,
        reset_type_warm_reboot: 2,
        next_addr_pa_offset: 0x5_f020,
        next_mode_pa_offset: 0x5_f028,
        next_arg1_pa_offset: 0x5_f030,
        hsm_state_pa_offset: 0x5_f038,
        msip_pa_offset: 0x5_f040,
        force_park_req_pa_offset: 0x5_f048,
        force_park_req_value_offset: 0x5_f050,
        next_mode_s: 1,
        hsm_state_stopped: 1,
        hsm_state_start_pending: 2,
    }
}

fn patch(
    dtb: &[u8],
    dev: &BootDevice,
    mem_start: u64,
    mem_size: u64,
    nodes: &[VirtioMmioNode],
    uart_addr: Option<u64>,
    console: bool,
) -> Result<Vec<u8>, Error> {
    modify_dtb(
        dtb,
        dev,
        mem_start,
        mem_size,
        nodes,
        uart_addr,
        console,
        &virtio(),
        &purgatory(),
    )
}

fn vda() -> BootDevice {
    BootDevice::Vda("vda".to_string())
}

fn prop(dtb: &[u8], path: &str, name: &str) -> Option<Vec<u8>> {
    let fdt = Fdt::open_into(dtb, 0).unwrap();
    let node = fdt
        .path_offset(path)
        .unwrap()
        .unwrap_or_else(|| panic!("expected {} in the blob", path));
    fdt.getprop(&node, name).map(|v| v.to_vec())
}

fn range_of(reg: &[u8]) -> (u64, u64) {
    assert_eq!(reg.len(), 16);
    let start = u64::from_be_bytes(reg[0..8].try_into().unwrap());
    let size = u64::from_be_bytes(reg[8..16].try_into().unwrap());
    (start, size)
}

fn read_memory_reg(dtb: &[u8], start: u64) -> (u64, u64) {
    range_of(&prop(dtb, &format!("/memory@{:x}", start), "reg").unwrap())
}

fn bootargs_of(dtb: &[u8]) -> String {
    let args = prop(dtb, "/chosen", "bootargs").unwrap();
    assert_eq!(args.last(), Some(&0));
    String::from_utf8(args[..args.len() - 1].to_vec()).unwrap()
}

#[test]
fn read_bin_file_pads_to_4byte_alignment() {
    let out = read_bin_file(&[1, 2, 3]);
    assert_eq!(out, vec![1, 2, 3, 0]);
}

#[test]
fn read_bin_file_leaves_aligned_files_alone() {
    for size in [0usize, 4, 8, 16] {
        let out = read_bin_file(&vec![0xa5u8; size]);
        assert_eq!(out.len(), size, "size {} should be unchanged", size);
    }
}

#[test]
fn modify_dtb_patches_memory_node_for_l2cpu_with_2gib() {
    let mem_start = 0x4000_3000_0000u64;
    let mem_size = 0x8000_0000u64;
    let out = patch(&fixture(), &vda(), mem_start, mem_size, &[], None, true).unwrap();
    assert_eq!(read_memory_reg(&out, mem_start), (mem_start, mem_size));
}

#[test]
fn modify_dtb_honors_memory_size_override() {
    let mem_start = 0x4000_3000_0000u64;
    let override_size = 0x4000_0000u64;
    let out = patch(&fixture(), &vda(), mem_start, override_size, &[], None, true).unwrap();
    assert_eq!(read_memory_reg(&out, mem_start), (mem_start, override_size));
}

#[test]
fn modify_dtb_does_not_emit_opensbi_firmware_reservation_on_cold_boot() {
    let mem_start = 0x4000_3000_0000u64;
    let mem_size = 0x1_0000_0000u64;
    let out = patch(&fixture(), &vda(), mem_start, mem_size, &[], None, true).unwrap();

    let fdt = Fdt::open_into(&out, 0).unwrap();
    let path = format!("/reserved-memory/bhx-opensbi-firmware@{:x}", mem_start);
    assert!(
        fdt.path_offset(&path).unwrap().is_none(),
        "{} must NOT exist on cold boot",
        path,
    );
    assert!(
        fdt.path_offset("/reserved-memory/memory@4000afa00000")
            .unwrap()
            .is_some(),
        "virtio MMIO reservation must still be present",
    );
}

#[test]
fn add_opensbi_reservation_for_release_inserts_node() {
    let mem_start = 0x4000_3000_0000u64;
    let mem_size = 0x1_0000_0000u64;
    let cold = patch(&fixture(), &vda(), mem_start, mem_size, &[], None, true).unwrap();
    let path = format!("/reserved-memory/bhx-opensbi-firmware@{:x}", mem_start);
    let pre = Fdt::open_into(&cold, 0).unwrap();
    assert!(pre.path_offset(&path).unwrap().is_none());

    let release = add_opensbi_reservation_for_release(&cold, mem_start).unwrap();
    let (addr, size) = range_of(&prop(&release, &path, "reg").unwrap());
    assert_eq!(addr, mem_start);
    assert_eq!(size, 0x60000, "OpenSBI R/X + RW = 256 KiB + 128 KiB");
    assert!(
        prop(&release, &path, "no-map").is_some(),
        "OpenSBI region must be no-map",
    );
    verify_dtb_invariants(&release, mem_start, &purgatory())
        .expect("post-splice DTB must still satisfy cold-boot invariants");
}

#[test]
fn modify_dtb_renames_memory_node_for_l2cpu_3_base() {
    let mem_start = 0x4000_b000_0000u64;
    let mem_size = 0x8000_0000u64;
    let out = patch(&fixture(), &vda(), mem_start, mem_size, &[], None, true).unwrap();
    assert_eq!(read_memory_reg(&out, mem_start), (mem_start, mem_size));

    let fdt = Fdt::open_into(&out, 0).unwrap();
    assert!(
        fdt.path_offset("/memory@400030000000").unwrap().is_none(),
        "old unit name must be gone after rename"
    );
    assert!(
        fdt.path_offset("/memory@4000b0000000").unwrap().is_some(),
        "canonical L2CPU 3 unit name must be reachable"
    );
}

#[test]
fn modify_dtb_bootargs_for_vda_root() {
    let out = patch(
        &fixture(),
        &vda(),
        0x4000_3000_0000,
        0x1_0000_0000,
        &[],
        None,
        true,
    )
    .unwrap();
    let s = bootargs_of(&out);
    assert!(
        s.contains("root=/dev/vda"),
        "bootargs missing root=/dev/vda: {:?}",
        s
    );
    assert!(s.contains("console=hvc0"), "bootargs missing hvc0: {:?}", s);
    assert_eq!(s, "rw console=hvc0 earlycon=sbi root=/dev/vda");
}

#[test]
fn modify_dtb_bootargs_for_initramfs() {
    let dev = BootDevice::Initramfs {
        addr: 0x4000_3210_0000,
        len: 4096,
    };
    let out = patch(
        &fixture(),
        &dev,
        0x4000_3000_0000,
        0x1_0000_0000,
        &[],
        None,
        true,
    )
    .unwrap();
    let s = bootargs_of(&out);
    assert!(
        s.contains("initrd=0x4000321"),
        "bootargs missing initrd addr: {:?}",
        s
    );
    assert!(s.contains(",4096"), "bootargs missing initrd len: {:?}", s);
}

#[test]
fn bootargs_for_the_other_devices() {
    let both = BootDevice::InitramfsAndVda {
        addr: 0x1000,
        len: 7,
        dev: "vda1".to_string(),
    };
    let out = patch(&fixture(), &both, 0x4000_3000_0000, 0x1_0000_0000, &[], None, true).unwrap();
    assert_eq!(
        bootargs_of(&out),
        "rw console=hvc0 earlycon=sbi initrd=0x1000,7 root=/dev/vda1"
    );
    let out = patch(
        &fixture(),
        &BootDevice::Uboot,
        0x4000_3000_0000,
        0x1_0000_0000,
        &[],
        None,
        false,
    )
    .unwrap();
    assert_eq!(bootargs_of(&out), "earlycon=sbi keep_bootcon");
}

#[test]
fn modify_dtb_creates_reserved_memory_subnode_at_top_of_dram() {
    let mem_start = 0x4000_3000_0000u64;
    let mem_size = 0x1_0000_0000u64;
    let mem_end = mem_start + mem_size;
    let expected_base = mem_end - RESERVED_SIZE;

    let out = patch(&fixture(), &vda(), mem_start, mem_size, &[], None, true).unwrap();
    let path = "/reserved-memory/memory@4000afa00000";
    assert!(
        prop(&out, path, "no-map").is_some(),
        "reserved region must be no-map"
    );
    let (base, size) = range_of(&prop(&out, path, "reg").unwrap());
    assert_eq!(base, expected_base);
    assert_eq!(size, RESERVED_SIZE);
}

#[test]
fn modify_dtb_emits_each_virtio_mmio_node_passed_in() {
    let mem_start = 0x4000_3000_0000u64;
    let mem_size = 0x1_0000_0000u64;
    let mem_end = mem_start + mem_size;
    let nodes: Vec<VirtioMmioNode> = (0..4u64)
        .map(|i| VirtioMmioNode {
            addr: mem_end - MMIO_SLOT_SIZE * (i + 1),
            size: MMIO_SLOT_SIZE,
            irq: DISK_IRQ - i as u32,
        })
        .collect();
    let out = patch(&fixture(), &vda(), mem_start, mem_size, &nodes, None, true).unwrap();

    for spec in &nodes {
        let path = format!("/soc/virtio@{:x}", spec.addr);
        let compat = prop(&out, &path, "compatible").unwrap();
        assert!(
            compat.starts_with(b"virtio,mmio"),
            "{} compatible={:?}",
            path,
            compat
        );
        let irq = prop(&out, &path, "interrupts").unwrap();
        assert_eq!(irq.len(), 4);
        let irq_val = u32::from_be_bytes(irq.try_into().unwrap());
        assert_eq!(irq_val, spec.irq, "{} irq", path);
        assert_eq!(prop(&out, &path, "interrupt-parent"), Some(vec![0, 0, 0, 9]));
    }
}

#[test]
fn modify_dtb_bootargs_omit_hvc0_when_virtio_console_not_attached() {
    let mem_start = 0x4000_3000_0000u64;
    let mem_size = 0x1_0000_0000u64;
    let out = patch(&fixture(), &vda(), mem_start, mem_size, &[], None, false).unwrap();
    let s = bootargs_of(&out);
    assert!(
        !s.contains("console=hvc0"),
        "bootargs leaked hvc0 with virtio_console_attached=false: {:?}",
        s
    );
    assert!(
        s.contains("earlycon=sbi"),
        "bootargs missing earlycon: {:?}",
        s
    );
    assert!(
        s.contains("keep_bootcon"),
        "bootargs missing keep_bootcon: {:?}",
        s
    );
    assert!(
        s.contains("root=/dev/vda"),
        "bootargs missing root=/dev/vda: {:?}",
        s
    );
}

#[test]
fn modify_dtb_with_empty_virtio_nodes_emits_none() {
    let mem_start = 0x4000_3000_0000u64;
    let mem_size = 0x1_0000_0000u64;
    let out = patch(&fixture(), &vda(), mem_start, mem_size, &[], None, true).unwrap();
    let fdt = Fdt::open_into(&out, 0).unwrap();
    for i in 0..4u64 {
        let addr = mem_start + mem_size - MMIO_SLOT_SIZE * (i + 1);
        let path = format!("/soc/virtio@{:x}", addr);
        let r = fdt.path_offset(&path).unwrap();
        assert!(
            r.is_none(),
            "{} should not exist with empty node list",
            path
        );
    }
}

#[test]
fn verify_dtb_invariants_accepts_good_modify_dtb_output() {
    let mem_start = 0x4000_3000_0000u64;
    let dtb = patch(&fixture(), &vda(), mem_start, 0x1_0000_0000, &[], None, true).unwrap();
    verify_dtb_invariants(&dtb, mem_start, &purgatory()).expect("happy-path DTB must verify");
}

#[test]
fn verify_dtb_invariants_rejects_raw_blackhole_card_dtb() {
    let mem_start = 0x4000_3000_0000u64;
    let err = verify_dtb_invariants(&fixture(), mem_start, &purgatory()).unwrap_err();
    let msg = err.to_string();
    assert!(
        msg.contains("bhx-purgatory"),
        "expected bhx-purgatory complaint, got {:?}",
        msg
    );
}

#[test]
fn a_serial_port_stands_below_soc() {
    let out = patch(
        &fixture(),
        &vda(),
        0x4000_3000_0000,
        0x1_0000_0000,
        &[],
        Some(0x2000),
        true,
    )
    .unwrap();
    assert_eq!(
        prop(&out, "/soc/serial@2000", "compatible").unwrap(),
        b"ns16550a\0"
    );
    assert_eq!(
        prop(&out, "/soc/serial@2000", "interrupts"),
        Some(vec![0, 0, 0, 27])
    );
    assert_eq!(
        prop(&out, "/chosen", "stdout-path").unwrap(),
        b"/chosen/sbi-console\0"
    );
}

#[test]
fn the_same_device_cannot_be_added_twice() {
    let node = VirtioMmioNode {
        addr: 0x1000,
        size: 0x100,
        irq: 1,
    };
    let err = patch(
        &fixture(),
        &vda(),
        0x4000_3000_0000,
        0x1_0000_0000,
        &[node, node],
        None,
        true,
    )
    .unwrap_err();
    assert_eq!(
        err.to_string(),
        "fdt: fdt_add_subnode(virtio@1000): FDT_ERR_EXISTS"
    );
}

#[test]
fn a_blob_without_memory_cannot_be_patched() {
    let mut b = Blob::new();
    b.begin("");
    b.end();
    let err = patch(
        &b.finish(),
        &vda(),
        0x4000_3000_0000,
        0x1_0000_0000,
        &[],
        None,
        true,
    )
    .unwrap_err();
    assert_eq!(
        err.to_string(),
        "fdt: path_offset: memory@400030000000 node not found in DT"
    );
}

#[test]
fn a_new_phandle_is_one_more_than_the_largest() {
    let mut b = Blob::new();
    b.begin("");
    b.begin("memory@400030000000");
    b.prop("phandle", &[0, 0, 0, 41]);
    b.end();
    b.begin("soc");
    b.begin("interrupt-controller@c000000");
    b.end();
    b.end();
    b.end();
    let out = patch(
        &b.finish(),
        &vda(),
        0x4000_3000_0000,
        0x1_0000_0000,
        &[],
        Some(0x10),
        true,
    )
    .unwrap();
    assert_eq!(
        prop(&out, "/soc/interrupt-controller@c000000", "phandle"),
        Some(vec![0, 0, 0, 42])
    );
    assert_eq!(
        prop(&out, "/soc/serial@10", "interrupt-parent"),
        Some(vec![0, 0, 0, 42])
    );
}

#[test]
fn path_offset_returns_some_for_existing_node() {
    let fdt = Fdt::open_into(&fixture(), 0).unwrap();
    let result = fdt.path_offset("/memory@400030000000").unwrap();
    assert!(result.is_some(), "expected /memory@... to exist in fixture");
}

#[test]
fn path_offset_returns_ok_none_for_missing_node() {
    let fdt = Fdt::open_into(&fixture(), 0).unwrap();
    let result = fdt.path_offset("/this-path-does-not-exist-abc123").unwrap();
    assert!(result.is_none(), "expected None for missing node");
}

#[test]
fn path_offset_returns_err_on_embedded_nul() {
    let fdt = Fdt::open_into(&fixture(), 0).unwrap();
    let result = fdt.path_offset("/memory\0/embedded-nul");
    match result {
        Err(e) => {
            let msg = e.to_string();
            assert!(
                msg.contains("nul") || msg.contains("NUL") || msg.contains("interior"),
                "expected NUL-related error message, got: {}",
                msg
            );
            assert!(matches!(e, Error::Fdt { .. }), "expected Fdt variant");
        }
        other => panic!("expected Err for NUL-bearing path, got {:?}", other),
    }
}

#[test]
fn packing_and_opening_again_changes_nothing() {
    let fdt = Fdt::open_into(&fixture(), 512).unwrap();
    let once = fdt.pack().unwrap();
    let again = Fdt::open_into(&once, 0).unwrap().pack().unwrap();
    assert_eq!(once, again);
    assert_eq!(
        prop(&once, "/soc/interrupt-controller@c000000", "phandle"),
        Some(vec![0, 0, 0, 9])
    );
}

#[test]
fn a_unit_address_may_be_left_out() {
    let fdt = Fdt::open_into(&fixture(), 0).unwrap();
    let node = fdt.path_offset("/memory").unwrap().unwrap();
    assert_eq!(fdt.get_name(&node), Some("memory@400030000000".to_string()));
}

#[test]
fn a_blob_is_refused_for_what_is_wrong_with_it() {
    let mut bad = fixture();
    bad[0] = 0;
    assert_eq!(
        Fdt::open_into(&bad, 0).map(|_| ()).unwrap_err().to_string(),
        "fdt: fdt_open_into: FDT_ERR_BADMAGIC"
    );
    assert_eq!(
        Fdt::open_into(&[0; 8], 0)
            .map(|_| ())
            .unwrap_err()
            .to_string(),
        "fdt: fdt_open_into: FDT_ERR_TRUNCATED"
    );
    let mut fdt = Fdt::open_into(&fixture(), 0).unwrap();
    let node = fdt.path_offset("/soc").unwrap().unwrap();
    assert_eq!(
        fdt.setprop(&node, "long", &[0; 64]).unwrap_err().to_string(),
        "fdt: fdt_setprop(long): FDT_ERR_NOSPACE"
    );
}

fn l2cpu_regs() -> L2cpuRegs {
    L2cpuRegs {
        control_base: 0x1000,
        l3_ctrl_base: 0x2000,
        l3_enable_offset: 8,
        l3_enable_value: 0xf,
        l2_prefetch_base: 0x3000,
        l2_prefetch_num: 2,
        l2_prefetch_stride: 0x100,
        l2_prefetch_cfg_lo: 0x15811,
        l2_prefetch_cfg_hi: 0x38c84e,
    }
}

#[test]
fn writes_do_not_cross_a_window() {
    let chunks = l2cpu_noc_write_bulk(0x1f_fff0, 0x30);
    assert_eq!(chunks.len(), 2);
    let parts: Vec<(u64, u64, u64, u64)> = chunks
        .iter()
        .map(|c| {
            (
                c.window_base as u64,
                c.offset as u64,
                c.start as u64,
                c.len as u64,
            )
        })
        .collect();
    assert_eq!(
        parts,
        vec![(0, 0x1f_fff0, 0, 0x10), (0x20_0000, 0, 0x10, 0x20)]
    );
}

#[test]
fn both_names_write_alike() {
    let of = |chunks: Vec<Chunk>| -> Vec<(u64, u64)> {
        chunks.iter().map(|c| (c.start as u64, c.len as u64)).collect()
    };
    assert_eq!(
        of(l2cpu_noc_write_bulk_pub(0x1f_fff0, 0x30)),
        of(l2cpu_noc_write_bulk(0x1f_fff0, 0x30))
    );
}

#[test]
fn a_text_property_ends_with_a_zero() {
    let mut fdt = Fdt::open_into(&fixture(), 256).unwrap();
    let root = fdt.path_offset("/").unwrap().unwrap();
    fdt.setprop_string(&root, "label", "card").unwrap();
    assert_eq!(fdt.getprop(&root, "label"), Some(&b"card\0"[..]));
    let packed = fdt.pack().unwrap();
    let again = Fdt::open_into(&packed, 0).unwrap();
    let root = again.path_offset("/").unwrap().unwrap();
    assert_eq!(again.getprop(&root, "label"), Some(&b"card\0"[..]));
}

#[test]
fn prefetchers_are_set_one_by_one() {
    assert_eq!(
        configure_prefetchers(&l2cpu_regs()),
        vec![
            (0x3000, 0x15811),
            (0x3004, 0x38c84e),
            (0x3100, 0x15811),
            (0x3104, 0x38c84e)
        ]
    );
}

#[test]
fn a_core_is_loaded_before_its_reset_vectors_are_set() {
    let images = BootImages {
        opensbi: &[1, 2, 3],
        opensbi_addr: 0x4000_3000_0000,
        kernel: Some(&[5; 8]),
        kernel_addr: 0x4000_3020_0000,
        dtb: &[6; 4],
        dtb_addr: 0x4000_3100_0000,
        rootfs: None,
        rootfs_addr: 0,
    };
    let steps = boot_l2cpu(&l2cpu_regs(), &images);
    let told: Vec<(u64, u64)> = steps
        .iter()
        .map(|s| match s {
            BootStep::Write { addr, value } => (*addr, *value as u64),
            BootStep::Read { addr } => (*addr, 0),
            BootStep::Load { addr, data } => (*addr, data.len() as u64),
        })
        .collect();
    assert_eq!(
        told,
        vec![
            (0x2008, 0xf),
            (0x2008, 0),
            (0x4000_3000_0000, 4),
            (0x4000_3020_0000, 8),
            (0x4000_3100_0000, 4),
            (0x1000, 0x3000_0000),
            (0x1004, 0x4000),
            (0x1008, 0x3000_0000),
            (0x100c, 0x4000),
            (0x1010, 0x3000_0000),
            (0x1014, 0x4000),
            (0x1018, 0x3000_0000),
            (0x101c, 0x4000),
        ]
    );
}

#[test]
fn a_path_may_begin_with_an_alias() {
    let mut b = Blob::new();
    b.begin("");
    b.begin("aliases");
    b.prop("plic", b"/soc/interrupt-controller@c000000\0");
    b.prop("bus", b"/soc\0");
    b.prop("gone", b"/nowhere\0");
    b.prop("relative", b"soc\0");
    b.prop("open", b"/soc");
    b.end();
    b.begin("soc");
    b.begin("interrupt-controller@c000000");
    b.prop("phandle", &[0, 0, 0, 9]);
    b.end();
    b.end();
    b.end();
    let fdt = Fdt::open_into(&b.finish(), 0).unwrap();
    let phandle = |path: &str| fdt.get_phandle(&fdt.path_offset(path).unwrap().unwrap());
    assert_eq!(phandle("plic"), 9);
    assert_eq!(phandle("bus/interrupt-controller"), 9);
    assert_eq!(phandle("bus//interrupt-controller@c000000/"), 9);
    assert!(fdt.path_offset("bus/uart").unwrap().is_none());
    assert!(fdt.path_offset("gone").unwrap().is_none());
    assert!(fdt.path_offset("gone/there").unwrap().is_none());
    for path in ["", "soc", "relative", "open", "nobody/here"] {
        let e = fdt.path_offset(path).unwrap_err().to_string();
        assert_eq!(e, format!("fdt: path_offset({path}): FDT_ERR_BADPATH"));
    }
}

#[test]
fn an_older_blob_is_lifted() {
    let new = fixture();
    let mut old = new.clone();
    old[20..24].copy_from_slice(&16u32.to_be_bytes());
    // The word that says how long the structure is does not belong to this version.
    old[36..40].copy_from_slice(&0xdead_beefu32.to_be_bytes());
    let lifted = Fdt::open_into(&old, 0).unwrap().pack().unwrap();
    assert_eq!(lifted, Fdt::open_into(&new, 0).unwrap().pack().unwrap());
    assert_eq!(lifted[20..24], 17u32.to_be_bytes());

    old[20..24].copy_from_slice(&15u32.to_be_bytes());
    let e = Fdt::open_into(&old, 0).err().unwrap().to_string();
    assert_eq!(e, "fdt: fdt_open_into: FDT_ERR_BADVERSION");
}

fn a_request() -> BootRequest {
    BootRequest {
        l2cpu: 0,
        opensbi: "fw.bin".into(),
        payload: BootPayload::Kernel { path: "Image".into() },
        dtb: "card.dtb".into(),
        initramfs: None,
        root_device: "vda".into(),
        disk: Some("root.ext4".into()),
        network: true,
        extra_fwd: vec![],
        console: true,
        rng: false,
        force: false,
        memory_override: Some(0x8000_0000),
        hostname_override: None,
        cloud_init: None,
    }
}

fn a_board() -> BootBoard {
    BootBoard {
        map: MemoryMap {
            starting_address: [0x4000_3000_0000; 4],
            memory_size: [0x1_0000_0000; 4],
        },
        images: BootImageRegs {
            opensbi_offset: 0,
            kernel_offset: 0x20_0000,
            dtb_offset: 0x600_0000,
            initramfs_offset: 0x800_0000,
        },
        engine: EngineRegs {
            devs_per_l2cpu: 6,
            regs_per_dev: 0x1000,
            dev_blk: 0,
            dev_blk1: 4,
            dev_blk2: 5,
            dev_net: 1,
            dev_console: 2,
            dev_rng: 3,
            shutdown_offset: 0x8000,
        },
        virtio: virtio(),
        purgatory: purgatory(),
        l2cpu: l2cpu_regs(),
    }
}

#[test]
fn a_boot_loads_a_tree_with_its_memory_and_devices() {
    let dtb = fixture();
    let steps = boot_sequence_steps(
        &a_request(),
        &BootFiles { dtb: &dtb, opensbi: &[1, 2, 3], payload: &[5; 8], initramfs: Some(&[7; 6]) },
        Some(0x9000_0000),
        false,
        &a_board(),
    )
    .unwrap();
    let loads: Vec<(u64, &Vec<u8>)> = steps
        .iter()
        .filter_map(|s| match s {
            BootStep::Load { addr, data } => Some((*addr, data)),
            _ => None,
        })
        .collect();
    assert_eq!(loads.len(), 4);
    assert_eq!(loads[0], (0x4000_3000_0000, &vec![1, 2, 3, 0]));
    assert_eq!(loads[1], (0x4000_3020_0000, &vec![5; 8]));
    assert_eq!(loads[3], (0x4000_3800_0000, &vec![7, 7, 7, 7, 7, 7, 0, 0]));
    let (addr, tree) = loads[2];
    assert_eq!(addr, 0x4000_3600_0000);
    assert_eq!(read_memory_reg(tree, 0x4000_3000_0000), (0x4000_3000_0000, 0x8000_0000));
    assert_eq!(
        bootargs_of(tree),
        "rw console=hvc0 earlycon=sbi initrd=0x400038000000,8 root=/dev/vda"
    );
    let planned = [("90000000", 0x9000_0000), ("90001000", 0x9000_1000), ("90002000", 0x9000_2000)];
    for (unit, at) in planned {
        let reg = prop(tree, &format!("/soc/virtio@{unit}"), "reg").unwrap();
        assert_eq!(range_of(&reg), (at, 0x1000));
        assert_eq!(
            prop(tree, &format!("/soc/virtio@{unit}"), "interrupt-parent"),
            prop(tree, "/soc/interrupt-controller@c000000", "phandle")
        );
    }
}

#[test]
fn a_boot_with_a_bad_tree_loads_nothing() {
    let r = boot_sequence_steps(
        &a_request(),
        &BootFiles { dtb: &[0; 64], opensbi: &[], payload: &[], initramfs: None },
        None,
        false,
        &a_board(),
    );
    assert_eq!(r.err().unwrap().to_string(), "fdt: fdt_open_into: FDT_ERR_BADMAGIC");
}
