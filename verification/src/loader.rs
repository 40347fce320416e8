//! What is written to an L2CPU to start it: images, reset vectors, cache and prefetch registers.
use vstd::prelude::*;

use crate::bytes::bytes_between;
use crate::regs::L2cpuRegs;

verus! {

/// The size of a window into the memory of a tile.
pub const TWO_MEG: u64 = 0x20_0000;

/// The bytes of an image, filled up with zeros to a multiple of four.
pub open spec fn padded_image(data: Seq<u8>) -> Seq<u8> {
    data + Seq::new(((4 - data.len() % 4) % 4) as nat, |i: int| 0u8)
}

/// Fills the contents of an image file up to a multiple of four bytes.
pub fn read_bin_file(contents: &[u8]) -> (data: Vec<u8>)
    ensures
        data@ == padded_image(contents@),
        data@.len() % 4 == 0,
        data@.take(contents@.len() as int) == contents@,
{
    let mut data: Vec<u8> = bytes_between(contents, 0, contents.len());
    assert(data@ =~= contents@);
    let padding: usize = data.len() % 4;
    let mut i: usize = 0;
    if padding != 0 {
        while i < 4 - padding
            invariant
                0 < padding < 4,
                i <= 4 - padding,
                data@ =~= contents@ + Seq::new(i as nat, |k: int| 0u8),
            decreases 4 - padding - i,
        {
            data.push(0);
            i = i + 1;
        }
    }
    assert(data@ =~= padded_image(contents@));
    assert(data@.take(contents@.len() as int) =~= contents@);
    data
}

/// A piece of a bulk write that lies within one window.
#[derive(Clone, Copy, Debug, PartialEq, Eq, Structural)]
pub struct Chunk {
    /// Where the window starts.
    pub window_base: u64,
    /// Where in the window the piece goes.
    pub offset: u64,
    /// Where in the data the piece starts.
    pub start: u64,
    /// The bytes of the piece.
    pub len: u64,
}

/// The address that a piece goes to.
pub open spec fn target(c: Chunk) -> int {
    c.window_base + c.offset
}

/// A piece fits: its window is aligned, it is not empty, and it does not leave the window.
pub open spec fn fits(c: Chunk) -> bool {
    &&& c.window_base % TWO_MEG == 0
    &&& c.len > 0
    &&& c.offset + c.len <= TWO_MEG
}

/// The pieces cover the first `n` bytes of the data, in order and without gaps, and each goes to
/// the address of its first byte.
pub open spec fn covers(chunks: Seq<Chunk>, addr: int, n: int) -> bool
    decreases chunks.len(),
{
    if chunks.len() == 0 {
        n == 0
    } else {
        let c = chunks.last();
        &&& fits(c)
        &&& target(c) == addr + c.start
        &&& c.start + c.len == n
        &&& covers(chunks.drop_last(), addr, c.start as int)
    }
}

/// No piece ends early: all but the last reach the end of their window.
pub open spec fn full_windows(chunks: Seq<Chunk>) -> bool {
    forall|i: int|
        0 <= i < chunks.len() - 1 ==> (#[trigger] chunks[i]).offset + chunks[i].len == TWO_MEG
}

/// Splits a bulk write of `total` bytes to `addr` at the window boundaries.
pub fn l2cpu_noc_write_bulk(addr: u64, total: u64) -> (chunks: Vec<Chunk>)
    requires
        addr + total <= u64::MAX,
    ensures
        covers(chunks@, addr as int, total as int),
        full_windows(chunks@),
{
    let mut chunks: Vec<Chunk> = Vec::new();
    let mut written: u64 = 0;
    while written < total
        invariant
            addr + total <= u64::MAX,
            written <= total,
            covers(chunks@, addr as int, written as int),
            full_windows(chunks@),
            chunks@.len() > 0 && written < total ==> (addr + written) % (TWO_MEG as int) == 0,
            chunks@.len() > 0 && written < total ==> chunks@.last().offset + chunks@.last().len
                == TWO_MEG,
        decreases total - written,
    {
        let cur: u64 = addr + written;
        let offset: u64 = cur % TWO_MEG;
        let window_base: u64 = cur - offset;
        let room: u64 = TWO_MEG - offset;
        let len: u64 = if room < total - written {
            room
        } else {
            total - written
        };
        let chunk: Chunk = Chunk { window_base, offset, start: written, len };
        let ghost before = chunks@;
        chunks.push(chunk);
        assert(chunks@.drop_last() =~= before);
        written = written + len;
    }
    chunks
}

/// The same split, for callers that re-load an image later on.
pub fn l2cpu_noc_write_bulk_pub(addr: u64, total: u64) -> (chunks: Vec<Chunk>)
    requires
        addr + total <= u64::MAX,
    ensures
        covers(chunks@, addr as int, total as int),
        full_windows(chunks@),
{
    l2cpu_noc_write_bulk(addr, total)
}

/// Every byte of the data lies in exactly one piece.
pub proof fn bulk_write_covers_each_byte(chunks: Seq<Chunk>, addr: int, n: int, k: int)
    requires
        covers(chunks, addr, n),
        0 <= k < n,
    ensures
        exists|i: int|
            0 <= i < chunks.len() && (#[trigger] chunks[i]).start <= k < chunks[i].start
                + chunks[i].len,
        forall|i: int, j: int|
            0 <= i < chunks.len() && 0 <= j < chunks.len() && (#[trigger] chunks[i]).start <= k
                < chunks[i].start + chunks[i].len && (#[trigger] chunks[j]).start <= k
                < chunks[j].start + chunks[j].len ==> i == j,
    decreases chunks.len(),
{
    let c = chunks.last();
    let rest = chunks.drop_last();
    lemma_covered_below(rest, addr, c.start as int);
    if k >= c.start {
        assert(chunks[chunks.len() - 1].start <= k);
    } else {
        bulk_write_covers_each_byte(rest, addr, c.start as int, k);
        let i = choose|i: int|
            0 <= i < rest.len() && (#[trigger] rest[i]).start <= k < rest[i].start + rest[i].len;
        assert(chunks[i] == rest[i]);
    }
    assert forall|i: int, j: int|
        0 <= i < chunks.len() && 0 <= j < chunks.len() && (#[trigger] chunks[i]).start <= k
            < chunks[i].start + chunks[i].len && (#[trigger] chunks[j]).start <= k
            < chunks[j].start + chunks[j].len implies i == j by {
        if i < rest.len() {
            assert(rest[i] == chunks[i]);
        }
        if j < rest.len() {
            assert(rest[j] == chunks[j]);
        }
    }
}

proof fn lemma_covered_below(chunks: Seq<Chunk>, addr: int, n: int)
    requires
        covers(chunks, addr, n),
    ensures
        n >= 0,
        forall|i: int|
            0 <= i < chunks.len() ==> (#[trigger] chunks[i]).start + chunks[i].len <= n,
    decreases chunks.len(),
{
    if chunks.len() > 0 {
        let rest = chunks.drop_last();
        lemma_covered_below(rest, addr, chunks.last().start as int);
        assert forall|i: int| 0 <= i < chunks.len() implies (#[trigger] chunks[i]).start
            + chunks[i].len <= n by {
            if i < rest.len() {
                assert(rest[i] == chunks[i]);
            }
        }
    }
}

/// One step of starting an L2CPU.
pub enum BootStep {
    /// Write a register.
    Write { addr: u64, value: u32 },
    /// Read a register, for the log.
    Read { addr: u64 },
    /// Copy an image.
    Load { addr: u64, data: Vec<u8> },
}

/// One step of starting an L2CPU, with the image as a sequence.
pub enum StepView {
    Write { addr: u64, value: u32 },
    Read { addr: u64 },
    Load { addr: u64, data: Seq<u8> },
}

impl View for BootStep {
    type V = StepView;

    open spec fn view(&self) -> StepView {
        match *self {
            BootStep::Write { addr, value } => StepView::Write { addr, value },
            BootStep::Read { addr } => StepView::Read { addr },
            BootStep::Load { addr, data } => StepView::Load { addr, data: data@ },
        }
    }
}

pub open spec fn step_views(steps: Seq<BootStep>) -> Seq<StepView> {
    steps.map(|i: int, s: BootStep| s@)
}

/// An image to load, where there is one.
pub open spec fn load_steps(addr: u64, image: Option<Seq<u8>>) -> Seq<StepView> {
    match image {
        Some(data) => seq![StepView::Load { addr, data: padded_image(data) }],
        None => Seq::empty(),
    }
}

/// The reset vectors of the first `n` cores: each gets the two halves of the address.
pub open spec fn vector_steps(control_base: u64, entry: u64, n: nat) -> Seq<StepView>
    decreases n,
{
    if n == 0 {
        Seq::empty()
    } else {
        let at = control_base + (n - 1) * 8;
        vector_steps(control_base, entry, (n - 1) as nat) + seq![
            StepView::Write { addr: at as u64, value: (entry % 0x1_0000_0000) as u32 },
            StepView::Write { addr: (at + 4) as u64, value: (entry / 0x1_0000_0000) as u32 },
        ]
    }
}

/// The images that are loaded, and where.
pub struct BootImages<'a> {
    pub opensbi: &'a [u8],
    pub opensbi_addr: u64,
    pub kernel: Option<&'a [u8]>,
    pub kernel_addr: u64,
    pub dtb: &'a [u8],
    pub dtb_addr: u64,
    pub rootfs: Option<&'a [u8]>,
    pub rootfs_addr: u64,
}

pub open spec fn slice_view(s: Option<&[u8]>) -> Option<Seq<u8>> {
    match s {
        Some(b) => Some(b@),
        None => None,
    }
}

/// Everything that starts an L2CPU, in order: the cache, the firmware, the kernel, the device
/// tree, the root file system, and the reset vectors of its four cores.
pub open spec fn start_steps(
    regs: L2cpuRegs,
    opensbi: Seq<u8>,
    opensbi_addr: u64,
    kernel: Option<Seq<u8>>,
    kernel_addr: u64,
    dtb: Seq<u8>,
    dtb_addr: u64,
    rootfs: Option<Seq<u8>>,
    rootfs_addr: u64,
) -> Seq<StepView> {
    let l3 = (regs.l3_ctrl_base + regs.l3_enable_offset) as u64;
    seq![
        StepView::Write { addr: l3, value: regs.l3_enable_value },
        StepView::Read { addr: l3 },
    ] + load_steps(opensbi_addr, Some(opensbi)) + load_steps(kernel_addr, kernel) + load_steps(
        dtb_addr,
        Some(dtb),
    ) + load_steps(rootfs_addr, rootfs) + vector_steps(regs.control_base, opensbi_addr, 4)
}

/// The same for images that are in memory.
pub open spec fn boot_steps(regs: L2cpuRegs, images: BootImages) -> Seq<StepView> {
    start_steps(
        regs,
        images.opensbi@,
        images.opensbi_addr,
        slice_view(images.kernel),
        images.kernel_addr,
        images.dtb@,
        images.dtb_addr,
        slice_view(images.rootfs),
        images.rootfs_addr,
    )
}

/// Appends the step that loads an image, where there is one.
fn push_load(steps: &mut Vec<BootStep>, addr: u64, image: Option<&[u8]>)
    ensures
        step_views(final(steps)@) =~= step_views(old(steps)@) + load_steps(addr, slice_view(image)),
{
    match image {
        Some(contents) => {
            let data: Vec<u8> = read_bin_file(contents);
            steps.push(BootStep::Load { addr, data });
        },
        None => {},
    }
}

/// The steps that start an L2CPU.
pub fn boot_l2cpu(regs: &L2cpuRegs, images: &BootImages) -> (steps: Vec<BootStep>)
    requires
        regs.l3_ctrl_base + regs.l3_enable_offset <= u64::MAX,
        regs.control_base + 28 <= u64::MAX,
    ensures
        step_views(steps@) == boot_steps(*regs, *images),
{
    let l3: u64 = regs.l3_ctrl_base + regs.l3_enable_offset;
    let mut steps: Vec<BootStep> = Vec::new();
    steps.push(BootStep::Write { addr: l3, value: regs.l3_enable_value });
    steps.push(BootStep::Read { addr: l3 });
    push_load(&mut steps, images.opensbi_addr, Some(images.opensbi));
    push_load(&mut steps, images.kernel_addr, images.kernel);
    push_load(&mut steps, images.dtb_addr, Some(images.dtb));
    push_load(&mut steps, images.rootfs_addr, images.rootfs);
    let entry: u64 = images.opensbi_addr;
    let lo: u32 = (entry % 0x1_0000_0000) as u32;
    let hi: u32 = (entry / 0x1_0000_0000) as u32;
    let ghost loaded = step_views(steps@);
    let mut core: u64 = 0;
    while core < 4
        invariant
            core <= 4,
            regs.control_base + 28 <= u64::MAX,
            lo == entry % 0x1_0000_0000,
            hi == entry / 0x1_0000_0000,
            step_views(steps@) =~= loaded + vector_steps(regs.control_base, entry, core as nat),
        decreases 4 - core,
    {
        let at: u64 = regs.control_base + core * 8;
        let ghost before = steps@;
        steps.push(BootStep::Write { addr: at, value: lo });
        steps.push(BootStep::Write { addr: at + 4, value: hi });
        proof {
            let done = vector_steps(regs.control_base, entry, core as nat);
            let new = seq![
                StepView::Write { addr: at, value: lo },
                StepView::Write { addr: (at + 4) as u64, value: hi },
            ];
            assert(step_views(steps@) =~= step_views(before) + new);
            assert((loaded + done) + new =~= loaded + (done + new));
            assert(vector_steps(regs.control_base, entry, (core + 1) as nat) == done + new);
        }
        core = core + 1;
    }
    assert(step_views(steps@) =~= boot_steps(*regs, *images));
    steps
}

/// The writes that set up the first `n` prefetchers.
pub open spec fn prefetch_writes(regs: L2cpuRegs, n: nat) -> Seq<(u64, u32)>
    decreases n,
{
    if n == 0 {
        Seq::empty()
    } else {
        let base = regs.l2_prefetch_base + (n - 1) * regs.l2_prefetch_stride;
        prefetch_writes(regs, (n - 1) as nat) + seq![
            (base as u64, regs.l2_prefetch_cfg_lo),
            ((base + 4) as u64, regs.l2_prefetch_cfg_hi),
        ]
    }
}

/// The register writes that set up the prefetchers of a running L2CPU.
pub fn configure_prefetchers(regs: &L2cpuRegs) -> (writes: Vec<(u64, u32)>)
    requires
        regs.l2_prefetch_base + regs.l2_prefetch_num * regs.l2_prefetch_stride + 4 <= u64::MAX,
    ensures
        writes@ == prefetch_writes(*regs, regs.l2_prefetch_num as nat),
{
    let mut writes: Vec<(u64, u32)> = Vec::new();
    let mut i: u64 = 0;
    while i < regs.l2_prefetch_num
        invariant
            i <= regs.l2_prefetch_num,
            regs.l2_prefetch_base + regs.l2_prefetch_num * regs.l2_prefetch_stride + 4 <= u64::MAX,
            writes@ =~= prefetch_writes(*regs, i as nat),
        decreases regs.l2_prefetch_num - i,
    {
        assert(i * regs.l2_prefetch_stride <= regs.l2_prefetch_num * regs.l2_prefetch_stride)
            by (nonlinear_arith)
            requires
                i < regs.l2_prefetch_num,
        ;
        assert(0 <= i * regs.l2_prefetch_stride) by (nonlinear_arith);
        let base: u64 = regs.l2_prefetch_base + i * regs.l2_prefetch_stride;
        writes.push((base, regs.l2_prefetch_cfg_lo));
        writes.push((base + 4, regs.l2_prefetch_cfg_hi));
        i = i + 1;
    }
    writes
}

} // verus!
