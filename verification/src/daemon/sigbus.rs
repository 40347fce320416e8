//! What the daemon says when an access to memory faults: whether the chip was reset under it, or
//! whether it is itself to blame.
use vstd::prelude::*;

verus! {

pub const MSG_SIGBUS_CHIP: &'static str =
    "fatal: SIGBUS during chip access (tt-smi -r? PCIe link lost? Card pulled?) si_addr=0x";

pub const MSG_SIGSEGV_CHIP: &'static str = "fatal: SIGSEGV during chip access si_addr=0x";

pub const MSG_SIGBUS_NONCHIP: &'static str =
    "fatal: SIGBUS in daemon process (likely a bug, not chip): si_addr=0x";

pub const MSG_SIGSEGV_NONCHIP: &'static str =
    "fatal: SIGSEGV in daemon process (likely a bug, not chip): si_addr=0x";

pub const MSG_UNKNOWN: &'static str = "fatal: unexpected signal in chip-fault handler\n";

/// A range of addresses that the chip is mapped to.
#[derive(Clone, Copy, Debug, PartialEq, Eq, Structural)]
pub struct ChipRange {
    pub start: usize,
    pub len: usize,
}

impl ChipRange {
    /// Whether the range covers an address. A range that would run past the last address ends
    /// before it.
    pub open spec fn covers(&self, addr: usize) -> bool {
        self.start <= addr && (addr < self.start + self.len && addr < usize::MAX)
    }
}

/// Whether one of these ranges covers an address.
pub open spec fn is_chip(ranges: Seq<ChipRange>, addr: usize) -> bool {
    exists|i: int| 0 <= i < ranges.len() && (#[trigger] ranges[i]).covers(addr)
}

/// The ranges that the chip is mapped to.
#[derive(Debug)]
pub struct ChipRanges {
    pub ranges: Vec<ChipRange>,
}

impl View for ChipRanges {
    type V = Seq<ChipRange>;

    open spec fn view(&self) -> Seq<ChipRange> {
        self.ranges@
    }
}

impl ChipRanges {
    pub fn new() -> (r: Self)
        ensures
            r@.len() == 0,
    {
        ChipRanges { ranges: Vec::new() }
    }

    /// Adds a range. An empty one is left out.
    pub fn register_chip_range(&mut self, start: usize, len: usize)
        ensures
            final(self)@ == if len == 0 {
                old(self)@
            } else {
                old(self)@.push(ChipRange { start, len })
            },
    {
        if len == 0 {
            return;
        }
        self.ranges.push(ChipRange { start, len });
    }

    /// Removes the ranges that start here.
    pub fn unregister_chip_range(&mut self, start: usize)
        ensures
            final(self)@ == old(self)@.filter(|r: ChipRange| r.start != start),
    {
        let ghost all = self.ranges@;
        let ghost stays = |r: ChipRange| r.start != start;
        let mut kept: Vec<ChipRange> = Vec::new();
        let mut i: usize = 0;
        proof {
            reveal(Seq::filter);
            assert(all.take(0) =~= Seq::<ChipRange>::empty());
        }
        while i < self.ranges.len()
            invariant
                all == self.ranges@,
                i <= all.len(),
                stays == (|r: ChipRange| r.start != start),
                kept@ == all.take(i as int).filter(stays),
            decreases all.len() - i,
        {
            proof {
                reveal(Seq::filter);
                assert(all.take(i + 1).drop_last() =~= all.take(i as int));
                assert(all.take(i + 1).last() == all[i as int]);
            }
            if self.ranges[i].start != start {
                kept.push(self.ranges[i]);
            }
            i = i + 1;
        }
        assert(all.take(i as int) =~= all);
        self.ranges = kept;
    }

    /// Whether the chip is mapped to an address.
    pub fn addr_is_in_chip_range(&self, addr: usize) -> (r: bool)
        ensures
            r == is_chip(self@, addr),
    {
        let mut i: usize = 0;
        while i < self.ranges.len()
            invariant
                i <= self.ranges@.len(),
                forall|k: int| 0 <= k < i ==> !(#[trigger] self.ranges@[k]).covers(addr),
            decreases self.ranges@.len() - i,
        {
            let r: ChipRange = self.ranges[i];
            let end: usize = r.start.saturating_add(r.len);
            if addr >= r.start && addr < end {
                assert(self.ranges@[i as int].covers(addr));
                return true;
            }
            i = i + 1;
        }
        false
    }
}

/// The character, as a byte, of a digit below sixteen.
pub open spec fn hex_byte(d: int) -> u8 {
    if d < 10 {
        (0x30 + d) as u8
    } else {
        (0x57 + d) as u8
    }
}

/// The digit of `value` that stands `k` places before the last.
pub open spec fn nibble(value: nat, k: nat) -> int
    decreases k,
{
    if k == 0 {
        (value % 16) as int
    } else {
        nibble(value / 16, (k - 1) as nat)
    }
}

/// Writes `value` in hexadecimal, with all its sixteen digits.
pub fn write_hex_u64(value: u64, buf: &mut [u8; 16]) -> (n: usize)
    ensures
        n == 16,
        forall|i: int|
            0 <= i < 16 ==> #[trigger] final(buf)@[i] == hex_byte(
                nibble(value as nat, (15 - i) as nat),
            ),
{
    let mut rest: u64 = value;
    let mut k: usize = 0;
    while k < 16
        invariant
            k <= 16,
            forall|j: nat| #![trigger nibble(rest as nat, j)]
                nibble(rest as nat, j) == nibble(value as nat, j + k as nat),
            forall|i: int|
                16 - k <= i < 16 ==> #[trigger] buf@[i] == hex_byte(
                    nibble(value as nat, (15 - i) as nat),
                ),
        decreases 16 - k,
    {
        let d: u8 = (rest % 16) as u8;
        proof {
            assert(nibble(rest as nat, 0) == nibble(value as nat, k as nat));
            assert forall|j: nat| #![trigger nibble((rest / 16) as nat, j)]
                nibble((rest / 16) as nat, j) == nibble(value as nat, j + (k + 1) as nat) by {
                assert(nibble(rest as nat, j + 1) == nibble(value as nat, (j + 1) + k as nat));
                assert(nibble(rest as nat, j + 1) == nibble(rest as nat / 16, j));
            }
        }
        let c: u8 = if d < 10 {
            0x30 + d
        } else {
            0x57 + d
        };
        buf[15 - k] = c;
        rest = rest / 16;
        k = k + 1;
    }
    16
}

/// The signals that a fault raises.
#[derive(Clone, Copy, Debug, PartialEq, Eq, Structural)]
pub enum FaultSignal {
    Bus,
    Segv,
    Other,
}

/// What is written for a fault, and whether the address follows.
pub open spec fn fault_text(signal: FaultSignal, in_chip: bool) -> (Seq<char>, bool) {
    match (signal, in_chip) {
        (FaultSignal::Bus, true) => (MSG_SIGBUS_CHIP@, true),
        (FaultSignal::Segv, true) => (MSG_SIGSEGV_CHIP@, true),
        (FaultSignal::Bus, false) => (MSG_SIGBUS_NONCHIP@, true),
        (FaultSignal::Segv, false) => (MSG_SIGSEGV_NONCHIP@, true),
        (FaultSignal::Other, _) => (MSG_UNKNOWN@, false),
    }
}

/// Says what to write for a fault at `addr`: the text, and whether the address and a line break
/// follow.
pub fn handle_chip_fault(signal: FaultSignal, addr: usize, ranges: &ChipRanges) -> (r: (
    &'static str,
    bool,
))
    ensures
        (r.0@, r.1) == fault_text(signal, is_chip(ranges@, addr)),
{
    let in_chip: bool = ranges.addr_is_in_chip_range(addr);
    match (signal, in_chip) {
        (FaultSignal::Bus, true) => (MSG_SIGBUS_CHIP, true),
        (FaultSignal::Segv, true) => (MSG_SIGSEGV_CHIP, true),
        (FaultSignal::Bus, false) => (MSG_SIGBUS_NONCHIP, true),
        (FaultSignal::Segv, false) => (MSG_SIGSEGV_NONCHIP, true),
        (FaultSignal::Other, _) => (MSG_UNKNOWN, false),
    }
}

/// The status that the daemon ends with after a fault.
pub fn exit_status(signal: i32) -> (status: i32)
    requires
        signal <= i32::MAX - 128,
    ensures
        status == 128 + signal,
{
    128 + signal
}

/// Removing a range takes back adding it, where no other range starts at the same place.
pub proof fn unregister_undoes_register(ranges: Seq<ChipRange>, added: ChipRange)
    requires
        forall|i: int| 0 <= i < ranges.len() ==> (#[trigger] ranges[i]).start != added.start,
    ensures
        ranges.push(added).filter(|r: ChipRange| r.start != added.start) == ranges,
{
    let stays = |r: ChipRange| r.start != added.start;
    reveal(Seq::filter);
    assert(ranges.push(added).drop_last() =~= ranges);
    assert(!stays(ranges.push(added).last()));
    lemma_filter_keeps_all(ranges, stays);
}

proof fn lemma_filter_keeps_all(s: Seq<ChipRange>, p: spec_fn(ChipRange) -> bool)
    requires
        forall|i: int| 0 <= i < s.len() ==> p(#[trigger] s[i]),
    ensures
        s.filter(p) == s,
    decreases s.len(),
{
    reveal(Seq::filter);
    if s.len() > 0 {
        let t = s.drop_last();
        assert forall|i: int| 0 <= i < t.len() implies p(#[trigger] t[i]) by {
            assert(p(s[i]));
        }
        lemma_filter_keeps_all(t, p);
        assert(p(s[s.len() - 1]));
        assert(t.push(s.last()) =~= s);
    } else {
        assert(s.filter(p) =~= s);
    }
}

/// No address is held to be the chip's once the range that covers it was removed, unless another
/// range covers it too.
pub proof fn removed_range_covers_nothing(ranges: Seq<ChipRange>, start: usize, addr: usize)
    requires
        is_chip(ranges.filter(|r: ChipRange| r.start != start), addr),
    ensures
        exists|i: int|
            0 <= i < ranges.len() && (#[trigger] ranges[i]).start != start && ranges[i].covers(
                addr,
            ),
    decreases ranges.len(),
{
    let stays = |r: ChipRange| r.start != start;
    reveal(Seq::filter);
    if ranges.len() > 0 {
        let t = ranges.drop_last();
        let kept = ranges.filter(stays);
        let i = choose|i: int| 0 <= i < kept.len() && (#[trigger] kept[i]).covers(addr);
        if stays(ranges.last()) && i == kept.len() - 1 {
            assert(ranges[ranges.len() - 1] == ranges.last());
            assert(ranges[ranges.len() - 1].covers(addr));
        } else {
            assert(t.filter(stays)[i].covers(addr));
            removed_range_covers_nothing(t, start, addr);
            let k = choose|k: int|
                0 <= k < t.len() && (#[trigger] t[k]).start != start && t[k].covers(addr);
            assert(ranges[k] == t[k]);
        }
    }
}

} // verus!
