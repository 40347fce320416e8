//! Host buffers that the chip reaches over PCIe.
use vstd::prelude::*;

use crate::kmd::{AllocateDmaBufIn, TENSTORRENT_ALLOCATE_DMA_BUF_NOC_DMA};

verus! {

pub const PAGE_SIZE: u32 = 4096;

/// `size` rounded up to whole pages.
pub fn round_to_pages(size: u32) -> (r: u32)
    requires
        size <= u32::MAX - 4095,
    ensures
        r % PAGE_SIZE == 0,
        size <= r < size + PAGE_SIZE,
{
    let whole: u32 = size / PAGE_SIZE;
    if size % PAGE_SIZE == 0 {
        whole * PAGE_SIZE
    } else {
        (whole + 1) * PAGE_SIZE
    }
}

/// The request for a buffer of at least `size` bytes that the chip can reach.
pub fn allocate_request(size: u32, buf_index: u8) -> (r: AllocateDmaBufIn)
    requires
        size <= u32::MAX - 4095,
    ensures
        r.requested_size % PAGE_SIZE == 0,
        size <= r.requested_size < size + PAGE_SIZE,
        r.buf_index == buf_index,
        r.flags == TENSTORRENT_ALLOCATE_DMA_BUF_NOC_DMA,
        r._reserved0@ =~= seq![0u8, 0],
        r._reserved1@ =~= seq![0u64, 0],
{
    AllocateDmaBufIn {
        requested_size: round_to_pages(size),
        buf_index,
        flags: TENSTORRENT_ALLOCATE_DMA_BUF_NOC_DMA,
        _reserved0: [0, 0],
        _reserved1: [0, 0],
    }
}

} // verus!
