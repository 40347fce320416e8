//! Requests to the kernel driver.
use vstd::prelude::*;
use vstd::string::*;

use crate::error::IoSource;
#[allow(unused_imports)]
use crate::text::dec;
use crate::text::push_dec;

verus! {

pub const TENSTORRENT_IOCTL_MAGIC: u8 = 0xFA;

#[derive(Debug, Default, Clone, Copy)]
pub struct GetDeviceInfoIn {
    pub output_size_bytes: u32,
}

#[derive(Debug, Default, Clone, Copy)]
pub struct GetDeviceInfoOut {
    pub output_size_bytes: u32,
    pub vendor_id: u16,
    pub device_id: u16,
    pub subsystem_vendor_id: u16,
    pub subsystem_id: u16,
    pub bus_dev_fn: u16,
    pub max_dma_buf_size_log2: u16,
    pub pci_domain: u16,
}

#[derive(Debug, Default, Clone, Copy)]
pub struct GetDeviceInfo {
    pub input: GetDeviceInfoIn,
    pub output: GetDeviceInfoOut,
}

pub const TENSTORRENT_RESET_DEVICE_RESTORE_STATE: u32 = 0;

pub const TENSTORRENT_RESET_DEVICE_RESET_PCIE_LINK: u32 = 1;

pub const TENSTORRENT_RESET_DEVICE_CONFIG_WRITE: u32 = 2;

#[derive(Debug, Default, Clone, Copy)]
pub struct ResetDeviceIn {
    pub output_size_bytes: u32,
    pub flags: u32,
}

#[derive(Debug, Default, Clone, Copy)]
pub struct ResetDeviceOut {
    pub output_size_bytes: u32,
    pub result: u32,
}

#[derive(Debug, Default, Clone, Copy)]
pub struct ResetDevice {
    pub input: ResetDeviceIn,
    pub output: ResetDeviceOut,
}

#[derive(Debug, Default, Clone, Copy)]
pub struct NocTlbConfig {
    pub addr: u64,
    pub x_end: u16,
    pub y_end: u16,
    pub x_start: u16,
    pub y_start: u16,
    pub noc: u8,
    pub mcast: u8,
    pub ordering: u8,
    pub linked: u8,
    pub static_vc: u8,
    pub _reserved0: [u8; 3],
    pub _reserved1: [u32; 2],
}

#[derive(Debug, Default, Clone, Copy)]
pub struct AllocateTlbIn {
    pub size: u64,
    pub _reserved: u64,
}

#[derive(Debug, Default, Clone, Copy)]
pub struct AllocateTlbOut {
    pub id: u32,
    pub _reserved0: u32,
    pub mmap_offset_uc: u64,
    pub mmap_offset_wc: u64,
    pub _reserved1: u64,
}

#[derive(Debug, Default, Clone, Copy)]
pub struct AllocateTlb {
    pub input: AllocateTlbIn,
    pub output: AllocateTlbOut,
}

#[derive(Debug, Default, Clone, Copy)]
pub struct FreeTlbIn {
    pub id: u32,
}

#[derive(Debug, Default, Clone, Copy)]
pub struct FreeTlbOut;

#[derive(Debug, Default, Clone, Copy)]
pub struct FreeTlb {
    pub input: FreeTlbIn,
    pub output: FreeTlbOut,
}

#[derive(Debug, Default, Clone, Copy)]
pub struct ConfigureTlbIn {
    pub id: u32,
    pub config: NocTlbConfig,
}

#[derive(Debug, Default, Clone, Copy)]
pub struct ConfigureTlbOut {
    pub _reserved: u64,
}

#[derive(Debug, Default, Clone, Copy)]
pub struct ConfigureTlb {
    pub input: ConfigureTlbIn,
    pub output: ConfigureTlbOut,
}

/// The chip can reach the buffer.
pub const TENSTORRENT_ALLOCATE_DMA_BUF_NOC_DMA: u8 = 2;

#[derive(Debug, Default, Clone, Copy)]
pub struct AllocateDmaBufIn {
    pub requested_size: u32,
    pub buf_index: u8,
    pub flags: u8,
    pub _reserved0: [u8; 2],
    pub _reserved1: [u64; 2],
}

#[derive(Debug, Default, Clone, Copy)]
pub struct AllocateDmaBufOut {
    pub physical_address: u64,
    pub mapping_offset: u64,
    pub size: u32,
    pub _reserved0: u32,
    pub noc_address: u64,
    pub _reserved1: u64,
}

#[derive(Debug, Default, Clone, Copy)]
pub struct AllocateDmaBuf {
    pub input: AllocateDmaBufIn,
    pub output: AllocateDmaBufOut,
}

#[derive(Debug, Default, Clone, Copy)]
pub struct PowerState {
    pub argsz: u32,
    pub flags: u32,
    pub reserved0: u8,
    pub validity: u8,
    pub power_flags: u16,
    pub power_settings: [u16; 14],
}

pub const TT_POWER_FLAG_MAX_AI_CLK: u16 = 1;

pub const TT_POWER_FLAG_MRISC_PHY_WAKEUP: u16 = 2;

pub const TT_POWER_FLAG_TENSIX_ENABLE: u16 = 4;

pub const TT_POWER_FLAG_L2CPU_ENABLE: u16 = 8;

/// How many flags and settings of a power request count: a low and a high nibble.
pub fn validity(flags_count: u8, settings_count: u8) -> (v: u8)
    ensures
        v == flags_count % 16 + (settings_count % 16) * 16,
{
    flags_count % 16 + (settings_count % 16) * 16
}

/// The number of a driver request without direction.
pub fn io(magic: u8, nr: u8) -> (n: u64)
    ensures
        n == magic * 0x100 + nr,
{
    magic as u64 * 0x100 + nr as u64
}

pub const IOCTL_GET_DEVICE_INFO: u64 = 0xFA00;

pub const IOCTL_ALLOCATE_DMA_BUF: u64 = 0xFA03;

pub const IOCTL_RESET_DEVICE: u64 = 0xFA06;

pub const IOCTL_ALLOCATE_TLB: u64 = 0xFA0B;

pub const IOCTL_FREE_TLB: u64 = 0xFA0C;

pub const IOCTL_CONFIGURE_TLB: u64 = 0xFA0D;

pub const IOCTL_SET_POWER_STATE: u64 = 0xFA0F;

/// The device node of a card.
pub fn device_path(card: u32) -> (s: String)
    ensures
        s@ == "/dev/tenstorrent/"@ + dec(card as nat),
{
    let mut s: String = "/dev/tenstorrent/".to_owned();
    push_dec(&mut s, card as u64);
    s
}

/// The number of an error on the side of a device.
pub const EIO: i32 = 5;

/// What the driver's answer to a reset request means: a result other than zero is a failure on the
/// chip's side, and an I/O error.
pub fn reset_device(output: &ResetDeviceOut) -> (r: std::result::Result<(), IoSource>)
    ensures
        r is Ok <==> output.result == 0,
        r matches Err(e) ==> e.code == Some(EIO) && e.message@
            == "RESET_DEVICE ioctl reported result="@ + dec(output.result as nat),
{
    if output.result != 0 {
        let mut message: String = "RESET_DEVICE ioctl reported result=".to_owned();
        push_dec(&mut message, output.result as u64);
        return Err(IoSource::from_code(EIO, message.as_str()));
    }
    Ok(())
}

/// The request for full clocks: of the four flags that count, all but the memory wake-up are set.
pub fn request_max_power(argsz: u32) -> (p: PowerState)
    ensures
        p.argsz == argsz,
        p.flags == 0,
        p.reserved0 == 0,
        p.validity == 4,
        p.power_flags == TT_POWER_FLAG_MAX_AI_CLK + TT_POWER_FLAG_TENSIX_ENABLE
            + TT_POWER_FLAG_L2CPU_ENABLE,
        forall|i: int| 0 <= i < 14 ==> p.power_settings@[i] == 0,
{
    PowerState {
        argsz,
        flags: 0,
        reserved0: 0,
        validity: validity(4, 0),
        power_flags: TT_POWER_FLAG_MAX_AI_CLK + TT_POWER_FLAG_TENSIX_ENABLE
            + TT_POWER_FLAG_L2CPU_ENABLE,
        power_settings: [0u16; 14],
    }
}

/// The request numbers are those that the driver's macro gives.
pub proof fn request_numbers()
    ensures
        IOCTL_GET_DEVICE_INFO == TENSTORRENT_IOCTL_MAGIC * 0x100,
        IOCTL_ALLOCATE_DMA_BUF == TENSTORRENT_IOCTL_MAGIC * 0x100 + 3,
        IOCTL_RESET_DEVICE == TENSTORRENT_IOCTL_MAGIC * 0x100 + 6,
        IOCTL_ALLOCATE_TLB == TENSTORRENT_IOCTL_MAGIC * 0x100 + 11,
        IOCTL_FREE_TLB == TENSTORRENT_IOCTL_MAGIC * 0x100 + 12,
        IOCTL_CONFIGURE_TLB == TENSTORRENT_IOCTL_MAGIC * 0x100 + 13,
        IOCTL_SET_POWER_STATE == TENSTORRENT_IOCTL_MAGIC * 0x100 + 15,
{
}

} // verus!
