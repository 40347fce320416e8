//! Counters and gauges, and the labelled arrays of them that the daemon keeps.
//!
//! A counter is a plain number behind `&mut`; a daemon that shares a set of them
//! between threads holds the set behind its own lock.
use vstd::prelude::*;

verus! {

/// `n` reduced to the range of `u64`.
pub open spec fn wrapped(n: int) -> u64 {
    (n % 0x1_0000_0000_0000_0000) as u64
}

/// The level one above, which wraps around at the top of `i64`.
pub open spec fn level_above(level: i64) -> int {
    if level == i64::MAX {
        i64::MIN as int
    } else {
        level + 1
    }
}

/// The level one below, which wraps around at the bottom of `i64`.
pub open spec fn level_below(level: i64) -> int {
    if level == i64::MIN {
        i64::MAX as int
    } else {
        level - 1
    }
}

/// The numbers held by a row of counters.
pub open spec fn counts(row: Seq<Counter>) -> Seq<u64> {
    row.map(|i: int, c: Counter| c@)
}

/// The numbers held by a row of gauges.
pub open spec fn levels(row: Seq<Gauge>) -> Seq<i64> {
    row.map(|i: int, g: Gauge| g@)
}

/// Event count that only grows, until it wraps around at the top of `u64`.
#[derive(Clone, Copy)]
pub struct Counter {
    value: u64,
}

impl View for Counter {
    type V = u64;

    closed spec fn view(&self) -> u64 {
        self.value
    }
}

impl Counter {
    pub fn new() -> (c: Self)
        ensures
            c@ == 0,
    {
        Self { value: 0 }
    }

    pub fn inc(&mut self)
        ensures
            final(self)@ == wrapped(old(self)@ + 1),
    {
        self.add(1);
    }

    pub fn add(&mut self, n: u64)
        ensures
            final(self)@ == wrapped(old(self)@ + n),
    {
        self.value = self.value.wrapping_add(n);
    }

    pub fn get(&self) -> (v: u64)
        ensures
            v == self@,
    {
        self.value
    }
}

impl Default for Counter {
    fn default() -> (c: Self)
        ensures
            c@ == 0,
    {
        Self::new()
    }
}

/// Signed current value: it can go down as well as up.
#[derive(Clone, Copy)]
pub struct Gauge {
    value: i64,
}

impl View for Gauge {
    type V = i64;

    closed spec fn view(&self) -> i64 {
        self.value
    }
}

impl Gauge {
    pub fn new() -> (g: Self)
        ensures
            g@ == 0,
    {
        Self { value: 0 }
    }

    pub fn set(&mut self, v: i64)
        ensures
            final(self)@ == v,
    {
        self.value = v;
    }

    pub fn inc(&mut self)
        ensures
            final(self)@ == level_above(old(self)@),
    {
        self.value = self.value.wrapping_add(1);
    }

    pub fn dec(&mut self)
        ensures
            final(self)@ == level_below(old(self)@),
    {
        self.value = self.value.wrapping_sub(1);
    }

    pub fn get(&self) -> (v: i64)
        ensures
            v == self@,
    {
        self.value
    }
}

impl Default for Gauge {
    fn default() -> (g: Self)
        ensures
            g@ == 0,
    {
        Self::new()
    }
}

/// Row of counters keyed by a small finite index.
pub struct CounterVec<const N: usize> {
    values: [Counter; N],
}

impl<const N: usize> View for CounterVec<N> {
    type V = Seq<u64>;

    closed spec fn view(&self) -> Seq<u64> {
        counts(self.values@)
    }
}

impl<const N: usize> CounterVec<N> {
    pub fn new() -> (c: Self)
        ensures
            c@ =~= Seq::new(N as nat, |i: int| 0u64),
    {
        let zero: Counter = Counter::new();
        Self { values: [zero; N] }
    }

    pub fn at(&mut self, idx: usize) -> (c: &mut Counter)
        requires
            idx < N,
        ensures
            c@ == old(self)@[idx as int],
            final(self)@ =~= old(self)@.update(idx as int, final(c)@),
            final(self)@[idx as int] == final(c)@,
            forall|j: int|
                0 <= j < N && j != idx ==> #[trigger] final(self)@[j] == old(self)@[j],
    {
        &mut self.values[idx]
    }

    /// The row has as many entries as its type says.
    pub proof fn has_n(&self)
        ensures
            self@.len() == N,
    {
    }

    /// The value at `idx`, read only.
    pub fn value(&self, idx: usize) -> (v: u64)
        requires
            idx < N,
        ensures
            v == self@[idx as int],
    {
        self.values[idx].get()
    }
}

impl<const N: usize> Default for CounterVec<N> {
    fn default() -> (c: Self)
        ensures
            c@ =~= Seq::new(N as nat, |i: int| 0u64),
    {
        Self::new()
    }
}

/// Row of gauges keyed by a small finite index.
pub struct GaugeVec<const N: usize> {
    values: [Gauge; N],
}

impl<const N: usize> View for GaugeVec<N> {
    type V = Seq<i64>;

    closed spec fn view(&self) -> Seq<i64> {
        levels(self.values@)
    }
}

impl<const N: usize> GaugeVec<N> {
    pub fn new() -> (c: Self)
        ensures
            c@ =~= Seq::new(N as nat, |i: int| 0i64),
    {
        let zero: Gauge = Gauge::new();
        Self { values: [zero; N] }
    }

    pub fn at(&mut self, idx: usize) -> (c: &mut Gauge)
        requires
            idx < N,
        ensures
            c@ == old(self)@[idx as int],
            final(self)@ =~= old(self)@.update(idx as int, final(c)@),
            final(self)@[idx as int] == final(c)@,
            forall|j: int|
                0 <= j < N && j != idx ==> #[trigger] final(self)@[j] == old(self)@[j],
    {
        &mut self.values[idx]
    }

    /// The row has as many entries as its type says.
    pub proof fn has_n(&self)
        ensures
            self@.len() == N,
    {
    }

    /// The value at `idx`, read only.
    pub fn value(&self, idx: usize) -> (v: i64)
        requires
            idx < N,
        ensures
            v == self@[idx as int],
    {
        self.values[idx].get()
    }
}

impl<const N: usize> Default for GaugeVec<N> {
    fn default() -> (c: Self)
        ensures
            c@ =~= Seq::new(N as nat, |i: int| 0i64),
    {
        Self::new()
    }
}

/// One counter per L2CPU.
pub struct PerL2cpuCounter {
    values: [Counter; 4],
}

impl View for PerL2cpuCounter {
    type V = Seq<u64>;

    closed spec fn view(&self) -> Seq<u64> {
        counts(self.values@)
    }
}

impl PerL2cpuCounter {
    pub fn new() -> (c: Self)
        ensures
            c@ =~= seq![0u64, 0, 0, 0],
    {
        Self { values: [Counter::new(), Counter::new(), Counter::new(), Counter::new()] }
    }

    pub fn at(&mut self, idx: u8) -> (c: &mut Counter)
        requires
            idx < 4,
        ensures
            c@ == old(self)@[idx as int],
            final(self)@ =~= old(self)@.update(idx as int, final(c)@),
    {
        &mut self.values[idx as usize]
    }

    /// The row has one entry per L2CPU.
    pub proof fn has_one_per_l2cpu(&self)
        ensures
            self@.len() == 4,
    {
    }

    /// The value of each L2CPU, read only.
    pub fn values(&self) -> (v: [u64; 4])
        ensures
            v@ =~= self@,
    {
        [
            self.values[0].get(),
            self.values[1].get(),
            self.values[2].get(),
            self.values[3].get(),
        ]
    }
}

impl Default for PerL2cpuCounter {
    fn default() -> (c: Self)
        ensures
            c@ =~= seq![0u64, 0, 0, 0],
    {
        Self::new()
    }
}

/// One gauge per L2CPU.
pub struct PerL2cpuGauge {
    values: [Gauge; 4],
}

impl View for PerL2cpuGauge {
    type V = Seq<i64>;

    closed spec fn view(&self) -> Seq<i64> {
        levels(self.values@)
    }
}

impl PerL2cpuGauge {
    pub fn new() -> (c: Self)
        ensures
            c@ =~= seq![0i64, 0, 0, 0],
    {
        Self { values: [Gauge::new(), Gauge::new(), Gauge::new(), Gauge::new()] }
    }

    pub fn at(&mut self, idx: u8) -> (c: &mut Gauge)
        requires
            idx < 4,
        ensures
            c@ == old(self)@[idx as int],
            final(self)@ =~= old(self)@.update(idx as int, final(c)@),
    {
        &mut self.values[idx as usize]
    }

    /// The row has one entry per L2CPU.
    pub proof fn has_one_per_l2cpu(&self)
        ensures
            self@.len() == 4,
    {
    }

    /// The value of each L2CPU, read only.
    pub fn values(&self) -> (v: [i64; 4])
        ensures
            v@ =~= self@,
    {
        [
            self.values[0].get(),
            self.values[1].get(),
            self.values[2].get(),
            self.values[3].get(),
        ]
    }
}

impl Default for PerL2cpuGauge {
    fn default() -> (c: Self)
        ensures
            c@ =~= seq![0i64, 0, 0, 0],
    {
        Self::new()
    }
}

/// Chip-console bytes per L2CPU and direction.
pub struct PerL2cpuDirCounter {
    g2h: [Counter; 4],
    h2g: [Counter; 4],
}

impl PerL2cpuDirCounter {
    /// Guest to host.
    pub closed spec fn g2h_counts(&self) -> Seq<u64> {
        counts(self.g2h@)
    }

    /// Host to guest.
    pub closed spec fn h2g_counts(&self) -> Seq<u64> {
        counts(self.h2g@)
    }

    pub fn new() -> (c: Self)
        ensures
            c.g2h_counts() =~= seq![0u64, 0, 0, 0],
            c.h2g_counts() =~= seq![0u64, 0, 0, 0],
    {
        Self {
            g2h: [Counter::new(), Counter::new(), Counter::new(), Counter::new()],
            h2g: [Counter::new(), Counter::new(), Counter::new(), Counter::new()],
        }
    }

    pub fn g2h(&mut self, idx: u8) -> (c: &mut Counter)
        requires
            idx < 4,
        ensures
            c@ == old(self).g2h_counts()[idx as int],
            final(self).g2h_counts() =~= old(self).g2h_counts().update(idx as int, final(c)@),
            final(self).h2g_counts() == old(self).h2g_counts(),
    {
        &mut self.g2h[idx as usize]
    }

    /// The `g2h` count of each L2CPU, read only.
    pub fn g2h_values(&self) -> (v: [u64; 4])
        ensures
            v@ =~= self.g2h_counts(),
    {
        [self.g2h[0].get(), self.g2h[1].get(), self.g2h[2].get(), self.g2h[3].get()]
    }

    pub fn h2g(&mut self, idx: u8) -> (c: &mut Counter)
        requires
            idx < 4,
        ensures
            c@ == old(self).h2g_counts()[idx as int],
            final(self).h2g_counts() =~= old(self).h2g_counts().update(idx as int, final(c)@),
            final(self).g2h_counts() == old(self).g2h_counts(),
    {
        &mut self.h2g[idx as usize]
    }

    /// The `h2g` count of each L2CPU, read only.
    pub fn h2g_values(&self) -> (v: [u64; 4])
        ensures
            v@ =~= self.h2g_counts(),
    {
        [self.h2g[0].get(), self.h2g[1].get(), self.h2g[2].get(), self.h2g[3].get()]
    }
}

impl Default for PerL2cpuDirCounter {
    fn default() -> (c: Self)
        ensures
            c.g2h_counts() =~= seq![0u64, 0, 0, 0],
            c.h2g_counts() =~= seq![0u64, 0, 0, 0],
    {
        Self::new()
    }
}

/// Block-device counts per L2CPU and operation.
pub struct PerL2cpuBlkOpCounter {
    read: [Counter; 4],
    write: [Counter; 4],
}

impl PerL2cpuBlkOpCounter {
    /// Read requests.
    pub closed spec fn read_counts(&self) -> Seq<u64> {
        counts(self.read@)
    }

    /// Write requests.
    pub closed spec fn write_counts(&self) -> Seq<u64> {
        counts(self.write@)
    }

    pub fn new() -> (c: Self)
        ensures
            c.read_counts() =~= seq![0u64, 0, 0, 0],
            c.write_counts() =~= seq![0u64, 0, 0, 0],
    {
        Self {
            read: [Counter::new(), Counter::new(), Counter::new(), Counter::new()],
            write: [Counter::new(), Counter::new(), Counter::new(), Counter::new()],
        }
    }

    pub fn read(&mut self, idx: u8) -> (c: &mut Counter)
        requires
            idx < 4,
        ensures
            c@ == old(self).read_counts()[idx as int],
            final(self).read_counts() =~= old(self).read_counts().update(idx as int, final(c)@),
            final(self).write_counts() == old(self).write_counts(),
    {
        &mut self.read[idx as usize]
    }

    /// The `read` count of each L2CPU, read only.
    pub fn read_values(&self) -> (v: [u64; 4])
        ensures
            v@ =~= self.read_counts(),
    {
        [self.read[0].get(), self.read[1].get(), self.read[2].get(), self.read[3].get()]
    }

    pub fn write(&mut self, idx: u8) -> (c: &mut Counter)
        requires
            idx < 4,
        ensures
            c@ == old(self).write_counts()[idx as int],
            final(self).write_counts() =~= old(self).write_counts().update(idx as int, final(c)@),
            final(self).read_counts() == old(self).read_counts(),
    {
        &mut self.write[idx as usize]
    }

    /// The `write` count of each L2CPU, read only.
    pub fn write_values(&self) -> (v: [u64; 4])
        ensures
            v@ =~= self.write_counts(),
    {
        [self.write[0].get(), self.write[1].get(), self.write[2].get(), self.write[3].get()]
    }
}

impl Default for PerL2cpuBlkOpCounter {
    fn default() -> (c: Self)
        ensures
            c.read_counts() =~= seq![0u64, 0, 0, 0],
            c.write_counts() =~= seq![0u64, 0, 0, 0],
    {
        Self::new()
    }
}

/// Block-device errors per L2CPU and reason.
pub struct PerL2cpuBlkErrors {
    ioerr: [Counter; 4],
    unsupp: [Counter; 4],
}

impl PerL2cpuBlkErrors {
    /// Requests that cross the end of the image.
    pub closed spec fn ioerr_counts(&self) -> Seq<u64> {
        counts(self.ioerr@)
    }

    /// Requests of an unknown type.
    pub closed spec fn unsupp_counts(&self) -> Seq<u64> {
        counts(self.unsupp@)
    }

    pub fn new() -> (c: Self)
        ensures
            c.ioerr_counts() =~= seq![0u64, 0, 0, 0],
            c.unsupp_counts() =~= seq![0u64, 0, 0, 0],
    {
        Self {
            ioerr: [Counter::new(), Counter::new(), Counter::new(), Counter::new()],
            unsupp: [Counter::new(), Counter::new(), Counter::new(), Counter::new()],
        }
    }

    pub fn ioerr(&mut self, idx: u8) -> (c: &mut Counter)
        requires
            idx < 4,
        ensures
            c@ == old(self).ioerr_counts()[idx as int],
            final(self).ioerr_counts() =~= old(self).ioerr_counts().update(idx as int, final(c)@),
            final(self).unsupp_counts() == old(self).unsupp_counts(),
    {
        &mut self.ioerr[idx as usize]
    }

    /// The `ioerr` count of each L2CPU, read only.
    pub fn ioerr_values(&self) -> (v: [u64; 4])
        ensures
            v@ =~= self.ioerr_counts(),
    {
        [self.ioerr[0].get(), self.ioerr[1].get(), self.ioerr[2].get(), self.ioerr[3].get()]
    }

    pub fn unsupp(&mut self, idx: u8) -> (c: &mut Counter)
        requires
            idx < 4,
        ensures
            c@ == old(self).unsupp_counts()[idx as int],
            final(self).unsupp_counts() =~= old(self).unsupp_counts().update(idx as int, final(c)@),
            final(self).ioerr_counts() == old(self).ioerr_counts(),
    {
        &mut self.unsupp[idx as usize]
    }

    /// The `unsupp` count of each L2CPU, read only.
    pub fn unsupp_values(&self) -> (v: [u64; 4])
        ensures
            v@ =~= self.unsupp_counts(),
    {
        [self.unsupp[0].get(), self.unsupp[1].get(), self.unsupp[2].get(), self.unsupp[3].get()]
    }
}

impl Default for PerL2cpuBlkErrors {
    fn default() -> (c: Self)
        ensures
            c.ioerr_counts() =~= seq![0u64, 0, 0, 0],
            c.unsupp_counts() =~= seq![0u64, 0, 0, 0],
    {
        Self::new()
    }
}

/// Net-device counts per L2CPU and direction.
pub struct PerL2cpuNetDirCounter {
    rx: [Counter; 4],
    tx: [Counter; 4],
}

impl PerL2cpuNetDirCounter {
    /// Inbound, towards the guest.
    pub closed spec fn rx_counts(&self) -> Seq<u64> {
        counts(self.rx@)
    }

    /// Outbound, from the guest.
    pub closed spec fn tx_counts(&self) -> Seq<u64> {
        counts(self.tx@)
    }

    pub fn new() -> (c: Self)
        ensures
            c.rx_counts() =~= seq![0u64, 0, 0, 0],
            c.tx_counts() =~= seq![0u64, 0, 0, 0],
    {
        Self {
            rx: [Counter::new(), Counter::new(), Counter::new(), Counter::new()],
            tx: [Counter::new(), Counter::new(), Counter::new(), Counter::new()],
        }
    }

    pub fn rx(&mut self, idx: u8) -> (c: &mut Counter)
        requires
            idx < 4,
        ensures
            c@ == old(self).rx_counts()[idx as int],
            final(self).rx_counts() =~= old(self).rx_counts().update(idx as int, final(c)@),
            final(self).tx_counts() == old(self).tx_counts(),
    {
        &mut self.rx[idx as usize]
    }

    /// The `rx` count of each L2CPU, read only.
    pub fn rx_values(&self) -> (v: [u64; 4])
        ensures
            v@ =~= self.rx_counts(),
    {
        [self.rx[0].get(), self.rx[1].get(), self.rx[2].get(), self.rx[3].get()]
    }

    pub fn tx(&mut self, idx: u8) -> (c: &mut Counter)
        requires
            idx < 4,
        ensures
            c@ == old(self).tx_counts()[idx as int],
            final(self).tx_counts() =~= old(self).tx_counts().update(idx as int, final(c)@),
            final(self).rx_counts() == old(self).rx_counts(),
    {
        &mut self.tx[idx as usize]
    }

    /// The `tx` count of each L2CPU, read only.
    pub fn tx_values(&self) -> (v: [u64; 4])
        ensures
            v@ =~= self.tx_counts(),
    {
        [self.tx[0].get(), self.tx[1].get(), self.tx[2].get(), self.tx[3].get()]
    }
}

impl Default for PerL2cpuNetDirCounter {
    fn default() -> (c: Self)
        ensures
            c.rx_counts() =~= seq![0u64, 0, 0, 0],
            c.tx_counts() =~= seq![0u64, 0, 0, 0],
    {
        Self::new()
    }
}

/// How busy a poll loop has been: recently active, quiet for a while, or idle.
#[derive(Clone, Copy, Debug, PartialEq, Eq, Structural)]
pub enum Tier {
    Fast,
    Slow,
    Idle,
}

impl Tier {
    /// The label of this value, as dashboards know it.
    pub open spec fn label(self) -> Seq<char> {
        match self {
            Tier::Fast => "fast"@,
            Tier::Slow => "slow"@,
            Tier::Idle => "idle"@,
        }
    }

    /// Its place in `all`.
    pub open spec fn rank(self) -> nat {
        match self {
            Tier::Fast => 0,
            Tier::Slow => 1,
            Tier::Idle => 2,
        }
    }

    /// Every value, in the order in which they are reported.
    pub open spec fn every() -> Seq<Tier> {
        seq![
            Tier::Fast,
            Tier::Slow,
            Tier::Idle,
        ]
    }

    pub fn name(self) -> (s: &'static str)
        ensures
            s@ == self.label(),
    {
        match self {
            Tier::Fast => "fast",
            Tier::Slow => "slow",
            Tier::Idle => "idle",
        }
    }

    pub fn all() -> (list: [Tier; 3])
        ensures
            list@ =~= Tier::every(),
    {
        [
            Tier::Fast,
            Tier::Slow,
            Tier::Idle,
        ]
    }

    pub fn idx(self) -> (i: usize)
        ensures
            i == self.rank(),
            i < 3,
            Tier::every()[i as int] == self,
    {
        match self {
            Tier::Fast => 0,
            Tier::Slow => 1,
            Tier::Idle => 2,
        }
    }
}

/// One value per long-running poll loop.
#[derive(Clone, Copy, Debug, PartialEq, Eq, Structural)]
pub enum WorkerKind {
    VirtioBlk,
    VirtioNet,
    VirtioConsole,
    VirtioRng,
    ChipConsole,
}

impl WorkerKind {
    /// The label of this value, as dashboards know it.
    pub open spec fn label(self) -> Seq<char> {
        match self {
            WorkerKind::VirtioBlk => "virtio_blk"@,
            WorkerKind::VirtioNet => "virtio_net"@,
            WorkerKind::VirtioConsole => "virtio_console"@,
            WorkerKind::VirtioRng => "virtio_rng"@,
            WorkerKind::ChipConsole => "chip_console"@,
        }
    }

    /// Its place in `all`.
    pub open spec fn rank(self) -> nat {
        match self {
            WorkerKind::VirtioBlk => 0,
            WorkerKind::VirtioNet => 1,
            WorkerKind::VirtioConsole => 2,
            WorkerKind::VirtioRng => 3,
            WorkerKind::ChipConsole => 4,
        }
    }

    /// Every value, in the order in which they are reported.
    pub open spec fn every() -> Seq<WorkerKind> {
        seq![
            WorkerKind::VirtioBlk,
            WorkerKind::VirtioNet,
            WorkerKind::VirtioConsole,
            WorkerKind::VirtioRng,
            WorkerKind::ChipConsole,
        ]
    }

    pub fn name(self) -> (s: &'static str)
        ensures
            s@ == self.label(),
    {
        match self {
            WorkerKind::VirtioBlk => "virtio_blk",
            WorkerKind::VirtioNet => "virtio_net",
            WorkerKind::VirtioConsole => "virtio_console",
            WorkerKind::VirtioRng => "virtio_rng",
            WorkerKind::ChipConsole => "chip_console",
        }
    }

    pub fn all() -> (list: [WorkerKind; 5])
        ensures
            list@ =~= WorkerKind::every(),
    {
        [
            WorkerKind::VirtioBlk,
            WorkerKind::VirtioNet,
            WorkerKind::VirtioConsole,
            WorkerKind::VirtioRng,
            WorkerKind::ChipConsole,
        ]
    }

    pub fn idx(self) -> (i: usize)
        ensures
            i == self.rank(),
            i < 5,
            WorkerKind::every()[i as int] == self,
    {
        match self {
            WorkerKind::VirtioBlk => 0,
            WorkerKind::VirtioNet => 1,
            WorkerKind::VirtioConsole => 2,
            WorkerKind::VirtioRng => 3,
            WorkerKind::ChipConsole => 4,
        }
    }
}

/// The RPC methods that are counted apart.
#[derive(Clone, Copy, Debug, PartialEq, Eq, Structural)]
pub enum RpcMethod {
    Status,
    Boot,
    AttachConsole,
    AddDisk,
    RemoveDisk,
    AddNet,
    RemoveNet,
    AddConsole,
    RemoveConsole,
    Stop,
    Shutdown,
}

impl RpcMethod {
    /// The label of this value, as dashboards know it.
    pub open spec fn label(self) -> Seq<char> {
        match self {
            RpcMethod::Status => "status"@,
            RpcMethod::Boot => "boot"@,
            RpcMethod::AttachConsole => "attach_console"@,
            RpcMethod::AddDisk => "add_disk"@,
            RpcMethod::RemoveDisk => "remove_disk"@,
            RpcMethod::AddNet => "add_net"@,
            RpcMethod::RemoveNet => "remove_net"@,
            RpcMethod::AddConsole => "add_console"@,
            RpcMethod::RemoveConsole => "remove_console"@,
            RpcMethod::Stop => "stop"@,
            RpcMethod::Shutdown => "shutdown"@,
        }
    }

    /// Its place in `all`.
    pub open spec fn rank(self) -> nat {
        match self {
            RpcMethod::Status => 0,
            RpcMethod::Boot => 1,
            RpcMethod::AttachConsole => 2,
            RpcMethod::AddDisk => 3,
            RpcMethod::RemoveDisk => 4,
            RpcMethod::AddNet => 5,
            RpcMethod::RemoveNet => 6,
            RpcMethod::AddConsole => 7,
            RpcMethod::RemoveConsole => 8,
            RpcMethod::Stop => 9,
            RpcMethod::Shutdown => 10,
        }
    }

    /// Every value, in the order in which they are reported.
    pub open spec fn every() -> Seq<RpcMethod> {
        seq![
            RpcMethod::Status,
            RpcMethod::Boot,
            RpcMethod::AttachConsole,
            RpcMethod::AddDisk,
            RpcMethod::RemoveDisk,
            RpcMethod::AddNet,
            RpcMethod::RemoveNet,
            RpcMethod::AddConsole,
            RpcMethod::RemoveConsole,
            RpcMethod::Stop,
            RpcMethod::Shutdown,
        ]
    }

    pub fn name(self) -> (s: &'static str)
        ensures
            s@ == self.label(),
    {
        match self {
            RpcMethod::Status => "status",
            RpcMethod::Boot => "boot",
            RpcMethod::AttachConsole => "attach_console",
            RpcMethod::AddDisk => "add_disk",
            RpcMethod::RemoveDisk => "remove_disk",
            RpcMethod::AddNet => "add_net",
            RpcMethod::RemoveNet => "remove_net",
            RpcMethod::AddConsole => "add_console",
            RpcMethod::RemoveConsole => "remove_console",
            RpcMethod::Stop => "stop",
            RpcMethod::Shutdown => "shutdown",
        }
    }

    pub fn all() -> (list: [RpcMethod; 11])
        ensures
            list@ =~= RpcMethod::every(),
    {
        [
            RpcMethod::Status,
            RpcMethod::Boot,
            RpcMethod::AttachConsole,
            RpcMethod::AddDisk,
            RpcMethod::RemoveDisk,
            RpcMethod::AddNet,
            RpcMethod::RemoveNet,
            RpcMethod::AddConsole,
            RpcMethod::RemoveConsole,
            RpcMethod::Stop,
            RpcMethod::Shutdown,
        ]
    }

    pub fn idx(self) -> (i: usize)
        ensures
            i == self.rank(),
            i < 11,
            RpcMethod::every()[i as int] == self,
    {
        match self {
            RpcMethod::Status => 0,
            RpcMethod::Boot => 1,
            RpcMethod::AttachConsole => 2,
            RpcMethod::AddDisk => 3,
            RpcMethod::RemoveDisk => 4,
            RpcMethod::AddNet => 5,
            RpcMethod::RemoveNet => 6,
            RpcMethod::AddConsole => 7,
            RpcMethod::RemoveConsole => 8,
            RpcMethod::Stop => 9,
            RpcMethod::Shutdown => 10,
        }
    }
}

/// The tier of a loop that was last active `elapsed` nanoseconds ago.
pub fn classify_tier(elapsed: u128, fast_window: u128, idle_window: u128) -> (t: Tier)
    ensures
        t is Fast <==> elapsed < fast_window,
        t is Slow <==> fast_window <= elapsed < idle_window,
        t is Idle <==> fast_window <= elapsed && idle_window <= elapsed,
{
    if elapsed < fast_window {
        Tier::Fast
    } else if elapsed < idle_window {
        Tier::Slow
    } else {
        Tier::Idle
    }
}

/// One counter per worker, L2CPU and tier.
pub struct WorkerTierCounter {
    values: [[[Counter; 3]; 4]; 5],
}

impl WorkerTierCounter {
    /// The count of one cell.
    pub closed spec fn count(&self, worker: WorkerKind, idx: int, tier: Tier) -> u64 {
        self.values@[worker.rank() as int]@[idx]@[tier.rank() as int]@
    }

    pub fn new() -> (c: Self)
        ensures
            forall|w: WorkerKind, i: int, t: Tier| 0 <= i < 4 ==> #[trigger] c.count(w, i, t) == 0,
    {
        let z: Counter = Counter::new();
        let row: [Counter; 3] = [z, z, z];
        let plane: [[Counter; 3]; 4] = [row, row, row, row];
        Self { values: [plane, plane, plane, plane, plane] }
    }

    pub fn at(&mut self, worker: WorkerKind, idx: u8, tier: Tier) -> (c: &mut Counter)
        requires
            idx < 4,
        ensures
            c@ == old(self).count(worker, idx as int, tier),
            final(self).count(worker, idx as int, tier) == final(c)@,
            forall|w: WorkerKind, i: int, t: Tier|
                0 <= i < 4 && (w != worker || i != idx || t != tier)
                    ==> #[trigger] final(self).count(w, i, t) == old(self).count(w, i, t),
    {
        let w: usize = worker.idx();
        let t: usize = tier.idx();
        &mut self.values[w][idx as usize][t]
    }

    /// The count of one cell, read only.
    pub fn value(&self, worker: WorkerKind, idx: u8, tier: Tier) -> (v: u64)
        requires
            idx < 4,
        ensures
            v == self.count(worker, idx as int, tier),
    {
        self.values[worker.idx()][idx as usize][tier.idx()].get()
    }
}

impl Default for WorkerTierCounter {
    fn default() -> (c: Self)
        ensures
            forall|w: WorkerKind, i: int, t: Tier| 0 <= i < 4 ==> #[trigger] c.count(w, i, t) == 0,
    {
        Self::new()
    }
}

/// One counter per RPC method.
pub struct RpcMethodCounter {
    pub status: Counter,
    pub boot: Counter,
    pub attach_console: Counter,
    pub add_disk: Counter,
    pub remove_disk: Counter,
    pub add_net: Counter,
    pub remove_net: Counter,
    pub add_console: Counter,
    pub remove_console: Counter,
    pub stop: Counter,
    pub shutdown: Counter,
}

impl RpcMethodCounter {
    /// The count of one method.
    pub open spec fn count(&self, m: RpcMethod) -> u64 {
        match m {
            RpcMethod::Status => self.status@,
            RpcMethod::Boot => self.boot@,
            RpcMethod::AttachConsole => self.attach_console@,
            RpcMethod::AddDisk => self.add_disk@,
            RpcMethod::RemoveDisk => self.remove_disk@,
            RpcMethod::AddNet => self.add_net@,
            RpcMethod::RemoveNet => self.remove_net@,
            RpcMethod::AddConsole => self.add_console@,
            RpcMethod::RemoveConsole => self.remove_console@,
            RpcMethod::Stop => self.stop@,
            RpcMethod::Shutdown => self.shutdown@,
        }
    }

    pub fn new() -> (c: Self)
        ensures
            forall|m: RpcMethod| #[trigger] c.count(m) == 0,
    {
        Self {
            status: Counter::new(),
            boot: Counter::new(),
            attach_console: Counter::new(),
            add_disk: Counter::new(),
            remove_disk: Counter::new(),
            add_net: Counter::new(),
            remove_net: Counter::new(),
            add_console: Counter::new(),
            remove_console: Counter::new(),
            stop: Counter::new(),
            shutdown: Counter::new(),
        }
    }

    pub fn at(&mut self, m: RpcMethod) -> (c: &mut Counter)
        ensures
            c@ == old(self).count(m),
            final(self).count(m) == final(c)@,
            forall|n: RpcMethod| n != m ==> #[trigger] final(self).count(n) == old(self).count(n),
    {
        match m {
            RpcMethod::Status => &mut self.status,
            RpcMethod::Boot => &mut self.boot,
            RpcMethod::AttachConsole => &mut self.attach_console,
            RpcMethod::AddDisk => &mut self.add_disk,
            RpcMethod::RemoveDisk => &mut self.remove_disk,
            RpcMethod::AddNet => &mut self.add_net,
            RpcMethod::RemoveNet => &mut self.remove_net,
            RpcMethod::AddConsole => &mut self.add_console,
            RpcMethod::RemoveConsole => &mut self.remove_console,
            RpcMethod::Stop => &mut self.stop,
            RpcMethod::Shutdown => &mut self.shutdown,
        }
    }

    /// The count of one method, read only.
    pub fn value(&self, m: RpcMethod) -> (v: u64)
        ensures
            v == self.count(m),
    {
        match m {
            RpcMethod::Status => self.status.get(),
            RpcMethod::Boot => self.boot.get(),
            RpcMethod::AttachConsole => self.attach_console.get(),
            RpcMethod::AddDisk => self.add_disk.get(),
            RpcMethod::RemoveDisk => self.remove_disk.get(),
            RpcMethod::AddNet => self.add_net.get(),
            RpcMethod::RemoveNet => self.remove_net.get(),
            RpcMethod::AddConsole => self.add_console.get(),
            RpcMethod::RemoveConsole => self.remove_console.get(),
            RpcMethod::Stop => self.stop.get(),
            RpcMethod::Shutdown => self.shutdown.get(),
        }
    }
}

impl Default for RpcMethodCounter {
    fn default() -> (c: Self)
        ensures
            forall|m: RpcMethod| #[trigger] c.count(m) == 0,
    {
        Self::new()
    }
}

} // verus!
