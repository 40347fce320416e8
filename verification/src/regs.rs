//! The register map of a card, as plain numbers.
//!
//! The numbers come from the board description that the daemon is started with; nothing in the
//! library depends on a particular value.
use vstd::prelude::*;

verus! {

/// Registers of an L2CPU tile.
#[derive(Clone, Copy)]
pub struct L2cpuRegs {
    pub control_base: u64,
    pub l3_ctrl_base: u64,
    pub l3_enable_offset: u64,
    pub l3_enable_value: u32,
    pub l2_prefetch_base: u64,
    pub l2_prefetch_num: u64,
    pub l2_prefetch_stride: u64,
    pub l2_prefetch_cfg_lo: u32,
    pub l2_prefetch_cfg_hi: u32,
}

/// Placement and interrupts of the virtio devices.
#[derive(Clone, Copy)]
pub struct VirtioRegs {
    /// The bytes at the top of memory that the devices take.
    pub reserved_size: u64,
    pub mmio_slot_size: u64,
    pub disk_irq: u32,
    pub disk1_irq: u32,
    pub disk2_irq: u32,
    pub net_irq: u32,
    pub console_irq: u32,
    pub rng_irq: u32,
    pub uart_irq: u32,
}

/// The status block through which firmware and daemon talk about parked harts. Offsets count from
/// the start of the memory of an L2CPU.
#[derive(Clone, Copy)]
pub struct PurgatoryRegs {
    pub status_offset: u64,
    /// The status word of a parked L2CPU.
    pub status_parked: u64,
    pub peers_offset: u64,
    pub reset_type_offset: u64,
    pub reset_type_shutdown: u32,
    pub reset_type_cold_reboot: u32,
    pub reset_type_warm_reboot: u32,
    pub next_addr_pa_offset: u64,
    pub next_mode_pa_offset: u64,
    pub next_arg1_pa_offset: u64,
    pub hsm_state_pa_offset: u64,
    pub msip_pa_offset: u64,
    pub force_park_req_pa_offset: u64,
    pub force_park_req_value_offset: u64,
    pub next_mode_s: u64,
    pub hsm_state_stopped: u32,
    pub hsm_state_start_pending: u32,
}

/// Where the images stand in the memory of an L2CPU.
#[derive(Clone, Copy)]
pub struct BootImageRegs {
    pub opensbi_offset: u64,
    pub kernel_offset: u64,
    pub dtb_offset: u64,
    pub initramfs_offset: u64,
}

/// The virtio engine: the devices that each L2CPU has on it, and where their registers stand.
#[derive(Clone, Copy)]
pub struct EngineRegs {
    /// How many devices each L2CPU has.
    pub devs_per_l2cpu: u32,
    /// The bytes of the registers of one device.
    pub regs_per_dev: u32,
    pub dev_blk: u32,
    pub dev_blk1: u32,
    pub dev_blk2: u32,
    pub dev_net: u32,
    pub dev_console: u32,
    pub dev_rng: u32,
    /// Where in the window of an L2CPU its shutdown register stands.
    pub shutdown_offset: u64,
}

impl EngineRegs {
    /// The numbers of the devices fit the engine, and its slots can be counted.
    pub open spec fn wf(&self) -> bool {
        &&& self.dev_blk < self.devs_per_l2cpu
        &&& self.dev_blk1 < self.devs_per_l2cpu
        &&& self.dev_blk2 < self.devs_per_l2cpu
        &&& self.dev_net < self.devs_per_l2cpu
        &&& self.dev_console < self.devs_per_l2cpu
        &&& self.dev_rng < self.devs_per_l2cpu
        &&& self.devs_per_l2cpu * 4 <= u32::MAX
    }
}

/// The memory of the four L2CPUs of a card.
#[derive(Clone, Copy)]
pub struct MemoryMap {
    pub starting_address: [u64; 4],
    pub memory_size: [u64; 4],
}

} // verus!
