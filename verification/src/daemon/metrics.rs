//! The daemon's metric inventory and its rendering as Prometheus text.
use vstd::prelude::*;

use crate::daemon::counters::{
    Counter, Gauge, PerL2cpuBlkErrors, PerL2cpuBlkOpCounter, PerL2cpuCounter, PerL2cpuDirCounter,
    PerL2cpuGauge, PerL2cpuNetDirCounter, RpcMethod, RpcMethodCounter, Tier, WorkerKind,
    WorkerTierCounter,
};
use crate::daemon::exposition::{Exposition, MetricKind};
#[allow(unused_imports)]
use crate::daemon::exposition::{concat_assoc, each, head, lines_text, pairs, Label, Line};
use crate::daemon::metric_names::{
    BLK_BYTES_TOTAL, BLK_BYTES_TOTAL_HELP, BLK_ERRORS_TOTAL, BLK_ERRORS_TOTAL_HELP,
    BLK_INTERRUPTS_TOTAL, BLK_INTERRUPTS_TOTAL_HELP, BLK_REQUESTS_TOTAL, BLK_REQUESTS_TOTAL_HELP,
    BRISC_OLD_SEL_RESCUE_TOTAL, BRISC_OLD_SEL_RESCUE_TOTAL_HELP, CARD_INFO, CARD_INFO_HELP,
    CHIP_AICLK_LIMIT_MAX_MHZ, CHIP_AICLK_LIMIT_MAX_MHZ_HELP, CHIP_AICLK_MHZ, CHIP_AICLK_MHZ_HELP,
    CHIP_ARCCLK_MHZ, CHIP_ARCCLK_MHZ_HELP, CHIP_ARC_HEARTBEAT_TOTAL, CHIP_ARC_HEARTBEAT_TOTAL_HELP,
    CHIP_ASIC_TEMPERATURE_MILLICELSIUS, CHIP_ASIC_TEMPERATURE_MILLICELSIUS_HELP, CHIP_AXICLK_MHZ,
    CHIP_AXICLK_MHZ_HELP, CHIP_BOARD_POWER_LIMIT_WATTS, CHIP_BOARD_POWER_LIMIT_WATTS_HELP,
    CHIP_BOARD_TEMPERATURE_MILLICELSIUS, CHIP_BOARD_TEMPERATURE_MILLICELSIUS_HELP,
    CHIP_DDR_SPEED_MTS, CHIP_DDR_SPEED_MTS_HELP, CHIP_DDR_STATUS, CHIP_DDR_STATUS_HELP,
    CHIP_ETH_LIVE_STATUS, CHIP_ETH_LIVE_STATUS_HELP, CHIP_FAN_PCT, CHIP_FAN_PCT_HELP, CHIP_FAN_RPM,
    CHIP_FAN_RPM_HELP, CHIP_GDDR_CORR_ERRORS_TOTAL, CHIP_GDDR_CORR_ERRORS_TOTAL_HELP,
    CHIP_GDDR_TEMPERATURE_CELSIUS, CHIP_GDDR_TEMPERATURE_CELSIUS_HELP,
    CHIP_GDDR_UNCORR_ERRORS_TOTAL, CHIP_GDDR_UNCORR_ERRORS_TOTAL_HELP, CHIP_INPUT_POWER_WATTS,
    CHIP_INPUT_POWER_WATTS_HELP, CHIP_L2CPUCLK_MHZ, CHIP_L2CPUCLK_MHZ_HELP,
    CHIP_MAX_GDDR_TEMPERATURE_CELSIUS, CHIP_MAX_GDDR_TEMPERATURE_CELSIUS_HELP, CHIP_TDC_AMPS,
    CHIP_TDC_AMPS_HELP, CHIP_TDC_LIMIT_MAX_AMPS, CHIP_TDC_LIMIT_MAX_AMPS_HELP,
    CHIP_TDP_LIMIT_MAX_WATTS, CHIP_TDP_LIMIT_MAX_WATTS_HELP, CHIP_TDP_WATTS, CHIP_TDP_WATTS_HELP,
    CHIP_THERM_TRIP_TOTAL, CHIP_THERM_TRIP_TOTAL_HELP, CHIP_THM_LIMIT_THROTTLE_CELSIUS,
    CHIP_THM_LIMIT_THROTTLE_CELSIUS_HELP, CHIP_VCORE_MILLIVOLTS, CHIP_VCORE_MILLIVOLTS_HELP,
    CHIP_VDD_MAX_MILLIVOLTS, CHIP_VDD_MAX_MILLIVOLTS_HELP, CHIP_VDD_MIN_MILLIVOLTS,
    CHIP_VDD_MIN_MILLIVOLTS_HELP, CHIP_VREG_TEMPERATURE_MILLICELSIUS,
    CHIP_VREG_TEMPERATURE_MILLICELSIUS_HELP, DAEMON_CLIENTS_ACTIVE, DAEMON_CLIENTS_ACTIVE_HELP,
    DAEMON_CLIENTS_TOTAL, DAEMON_CLIENTS_TOTAL_HELP, DAEMON_RPC_ERRORS_TOTAL,
    DAEMON_RPC_ERRORS_TOTAL_HELP, DAEMON_RPC_TOTAL, DAEMON_RPC_TOTAL_HELP, DAEMON_SANDBOX_STATUS,
    DAEMON_SANDBOX_STATUS_HELP, DAEMON_UPTIME_SECONDS, DAEMON_UPTIME_SECONDS_HELP, KICK_DROPS_TOTAL,
    KICK_DROPS_TOTAL_HELP, KICK_RESCUED_TOTAL, KICK_RESCUED_TOTAL_HELP, KICK_RING_CURRENT_GAP,
    KICK_RING_CURRENT_GAP_HELP, KICK_RING_HIGH_WATER, KICK_RING_HIGH_WATER_HELP,
    KICK_THROTTLE_ENGAGED, KICK_THROTTLE_ENGAGED_HELP, KICK_THROTTLE_TRANSITIONS_TOTAL,
    KICK_THROTTLE_TRANSITIONS_TOTAL_HELP, L2CPU_BOOT_TOTAL, L2CPU_BOOT_TOTAL_HELP,
    L2CPU_CONSOLE_BYTES_TOTAL, L2CPU_CONSOLE_BYTES_TOTAL_HELP, L2CPU_CONSOLE_CLIENTS,
    L2CPU_CONSOLE_CLIENTS_HELP, L2CPU_DISKS, L2CPU_DISKS_HELP, L2CPU_NET, L2CPU_NET_HELP,
    L2CPU_RUNNING, L2CPU_RUNNING_HELP, L2CPU_UPTIME_SECONDS, L2CPU_UPTIME_SECONDS_HELP,
    NET_BYTES_TOTAL, NET_BYTES_TOTAL_HELP, NET_INTERRUPTS_TOTAL, NET_INTERRUPTS_TOTAL_HELP,
    NET_PACKETS_TOTAL, NET_PACKETS_TOTAL_HELP, SEL_READY_RACES_TOTAL, SEL_READY_RACES_TOTAL_HELP,
    UART_FEED_DROPS_TOTAL, UART_FEED_DROPS_TOTAL_HELP, WORKER_POLL_ITERATIONS_TOTAL,
    WORKER_POLL_ITERATIONS_TOTAL_HELP, WORKER_TIER_SECONDS_TOTAL, WORKER_TIER_SECONDS_TOTAL_HELP,
};
use crate::text::{dec_text, push_hex, push_hex_padded, signed_text};
#[allow(unused_imports)]
use crate::text::{dec, hex, signed_dec, zero_padded};

verus! {

/// Every counter and gauge of one daemon.
pub struct Metrics {
    /// Accepted RPC client connections.
    pub daemon_clients_total: Counter,
    /// RPC clients connected now.
    pub daemon_clients_active: Gauge,
    /// Sandbox enforcement: 0 disabled, 1 partial, 2 full.
    pub daemon_sandbox_status: Gauge,
    /// Requests per method.
    pub daemon_rpc_total: RpcMethodCounter,
    /// Failed requests per method.
    pub daemon_rpc_errors_total: RpcMethodCounter,
    /// Cold boots.
    pub l2cpu_boot_cold_total: PerL2cpuCounter,
    /// Adoptions of an L2CPU that was already running.
    pub l2cpu_boot_warm_total: PerL2cpuCounter,
    /// Attached console clients.
    pub l2cpu_console_clients: PerL2cpuGauge,
    /// Chip-console bytes.
    pub l2cpu_console_bytes_total: PerL2cpuDirCounter,
    /// Completed block requests.
    pub blk_requests_total: PerL2cpuBlkOpCounter,
    /// Block bytes transferred.
    pub blk_bytes_total: PerL2cpuBlkOpCounter,
    /// Block-request errors.
    pub blk_errors_total: PerL2cpuBlkErrors,
    /// Net packets.
    pub net_packets_total: PerL2cpuNetDirCounter,
    /// Net bytes.
    pub net_bytes_total: PerL2cpuNetDirCounter,
    /// Block-device interrupts.
    pub blk_interrupts_total: PerL2cpuCounter,
    /// Net-device interrupts.
    pub net_interrupts_total: PerL2cpuCounter,
    /// Console-device interrupts. Not exported.
    pub console_interrupts_total: PerL2cpuCounter,
    /// Entropy-device interrupts. Not exported.
    pub rng_interrupts_total: PerL2cpuCounter,
    /// Kicks dropped because the kick ring was full.
    pub kick_drops_total: Counter,
    /// Largest gap seen on the kick ring.
    pub kick_ring_high_water: Gauge,
    /// Latest gap seen on the kick ring.
    pub kick_ring_current_gap: Gauge,
    /// Ring entries recovered after a dropped kick.
    pub kick_rescued_total: Counter,
    /// Whether kick-ring backpressure is engaged.
    pub kick_throttle_engaged: Gauge,
    /// Times the backpressure engaged.
    pub kick_throttle_transitions_total: Counter,
    /// Queue selections that raced with a stale ready flag.
    pub sel_ready_races_total: Counter,
    /// Rescue captures for an earlier queue selection.
    pub brisc_old_sel_rescue_total: Counter,
    /// Bytes dropped on the UART feed ring.
    pub uart_feed_drops_total: PerL2cpuCounter,
    /// Poll-loop iterations per tier.
    pub worker_poll_iterations_total: WorkerTierCounter,
    /// Nanoseconds slept per tier.
    pub worker_tier_nanos_total: WorkerTierCounter,
}

impl Metrics {
    /// A set in which nothing has been counted.
    pub fn new() -> (m: Self)
        ensures
            m.daemon_clients_total@ == 0,
            m.daemon_clients_active@ == 0,
            m.daemon_sandbox_status@ == 0,
            forall|r: RpcMethod| #[trigger] m.daemon_rpc_total.count(r) == 0,
            forall|r: RpcMethod| #[trigger] m.daemon_rpc_errors_total.count(r) == 0,
            m.l2cpu_boot_cold_total@ =~= seq![0u64, 0, 0, 0],
            m.l2cpu_boot_warm_total@ =~= seq![0u64, 0, 0, 0],
            m.l2cpu_console_clients@ =~= seq![0i64, 0, 0, 0],
            m.l2cpu_console_bytes_total.g2h_counts() =~= seq![0u64, 0, 0, 0],
            m.l2cpu_console_bytes_total.h2g_counts() =~= seq![0u64, 0, 0, 0],
            m.blk_requests_total.read_counts() =~= seq![0u64, 0, 0, 0],
            m.blk_requests_total.write_counts() =~= seq![0u64, 0, 0, 0],
            m.blk_bytes_total.read_counts() =~= seq![0u64, 0, 0, 0],
            m.blk_bytes_total.write_counts() =~= seq![0u64, 0, 0, 0],
            m.blk_errors_total.ioerr_counts() =~= seq![0u64, 0, 0, 0],
            m.blk_errors_total.unsupp_counts() =~= seq![0u64, 0, 0, 0],
            m.net_packets_total.rx_counts() =~= seq![0u64, 0, 0, 0],
            m.net_packets_total.tx_counts() =~= seq![0u64, 0, 0, 0],
            m.net_bytes_total.rx_counts() =~= seq![0u64, 0, 0, 0],
            m.net_bytes_total.tx_counts() =~= seq![0u64, 0, 0, 0],
            m.blk_interrupts_total@ =~= seq![0u64, 0, 0, 0],
            m.net_interrupts_total@ =~= seq![0u64, 0, 0, 0],
            m.console_interrupts_total@ =~= seq![0u64, 0, 0, 0],
            m.rng_interrupts_total@ =~= seq![0u64, 0, 0, 0],
            m.kick_drops_total@ == 0,
            m.kick_ring_high_water@ == 0,
            m.kick_ring_current_gap@ == 0,
            m.kick_rescued_total@ == 0,
            m.kick_throttle_engaged@ == 0,
            m.kick_throttle_transitions_total@ == 0,
            m.sel_ready_races_total@ == 0,
            m.brisc_old_sel_rescue_total@ == 0,
            m.uart_feed_drops_total@ =~= seq![0u64, 0, 0, 0],
            forall|k: WorkerKind, i: int, t: Tier|
                0 <= i < 4 ==> #[trigger] m.worker_poll_iterations_total.count(k, i, t) == 0,
            forall|k: WorkerKind, i: int, t: Tier|
                0 <= i < 4 ==> #[trigger] m.worker_tier_nanos_total.count(k, i, t) == 0,
    {
        Metrics {
            daemon_clients_total: Counter::new(),
            daemon_clients_active: Gauge::new(),
            daemon_sandbox_status: Gauge::new(),
            daemon_rpc_total: RpcMethodCounter::new(),
            daemon_rpc_errors_total: RpcMethodCounter::new(),
            l2cpu_boot_cold_total: PerL2cpuCounter::new(),
            l2cpu_boot_warm_total: PerL2cpuCounter::new(),
            l2cpu_console_clients: PerL2cpuGauge::new(),
            l2cpu_console_bytes_total: PerL2cpuDirCounter::new(),
            blk_requests_total: PerL2cpuBlkOpCounter::new(),
            blk_bytes_total: PerL2cpuBlkOpCounter::new(),
            blk_errors_total: PerL2cpuBlkErrors::new(),
            net_packets_total: PerL2cpuNetDirCounter::new(),
            net_bytes_total: PerL2cpuNetDirCounter::new(),
            blk_interrupts_total: PerL2cpuCounter::new(),
            net_interrupts_total: PerL2cpuCounter::new(),
            console_interrupts_total: PerL2cpuCounter::new(),
            rng_interrupts_total: PerL2cpuCounter::new(),
            kick_drops_total: Counter::new(),
            kick_ring_high_water: Gauge::new(),
            kick_ring_current_gap: Gauge::new(),
            kick_rescued_total: Counter::new(),
            kick_throttle_engaged: Gauge::new(),
            kick_throttle_transitions_total: Counter::new(),
            sel_ready_races_total: Counter::new(),
            brisc_old_sel_rescue_total: Counter::new(),
            uart_feed_drops_total: PerL2cpuCounter::new(),
            worker_poll_iterations_total: WorkerTierCounter::new(),
            worker_tier_nanos_total: WorkerTierCounter::new(),
        }
    }
}

/// The latest values published by the chip's management firmware.
#[derive(Clone, Copy)]
pub struct ChipTelemetry {
    pub board_id: u64,
    pub asic_id: u64,
    pub asic_location: u32,
    pub harvesting_state: u32,
    pub enabled_l2cpu: u32,
    pub enabled_gddr: u32,
    pub enabled_eth: u32,
    pub pcie_usage: u32,
    pub asic_temperature_mc: i32,
    pub vreg_temperature_mc: i32,
    pub board_temperature_mc: i32,
    pub max_gddr_temperature_c: i32,
    pub gddr_temperature_c: [i32; 4],
    pub gddr_corr_errs: [u32; 4],
    pub gddr_uncorr_errs: u32,
    pub aiclk_mhz: u32,
    pub axiclk_mhz: u32,
    pub arcclk_mhz: u32,
    pub aiclk_limit_max_mhz: u32,
    pub l2cpuclk_mhz: [u32; 4],
    pub tdp_w: u32,
    pub tdc_a: u32,
    pub input_power_w: u32,
    pub vcore_mv: u32,
    pub vdd_min_mv: u32,
    pub vdd_max_mv: u32,
    pub tdp_limit_max_w: u32,
    pub tdc_limit_max_a: u32,
    pub board_power_limit_w: u32,
    pub thm_limit_throttle_c: u32,
    pub fan_speed_pct: u32,
    pub fan_rpm: u32,
    pub ddr_status: u32,
    pub ddr_speed_mts: u32,
    pub timer_heartbeat: u32,
    pub therm_trip_count: u32,
    pub eth_live_status: u32,
}

/// What a scrape reports of an installed slot.
#[derive(Clone, Copy)]
pub struct SlotGauges {
    /// Seconds since the slot was installed.
    pub uptime_seconds: i64,
    /// Attached disks.
    pub disks: u64,
    /// Whether a net worker is attached.
    pub net: bool,
}

/// A number of seconds by its decimal digits: those before the point, and behind it a run of zeros
/// and the rest.
#[derive(Clone, Copy, Debug, PartialEq, Eq)]
pub struct Seconds {
    pub whole: u64,
    pub zeros: u8,
    pub digits: u64,
}

/// Seconds in decimal; nothing stands behind the point where there are no more digits.
pub open spec fn seconds_text(s: Seconds) -> Seq<char> {
    if s.digits == 0 {
        dec(s.whole as nat)
    } else {
        dec(s.whole as nat) + "."@ + Seq::new(s.zeros as nat, |i: int| '0') + dec(s.digits as nat)
    }
}

impl Seconds {
    /// The seconds as a text.
    pub fn text(&self) -> (r: String)
        ensures
            r@ == seconds_text(*self),
    {
        let mut r: String = dec_text(self.whole);
        if self.digits != 0 {
            r.append(".");
            let ghost start = r@;
            let mut i: u8 = 0;
            while i < self.zeros
                invariant
                    i <= self.zeros,
                    r@ == start + Seq::new(i as nat, |i: int| '0'),
                decreases self.zeros - i,
            {
                proof {
                    reveal_strlit("0");
                }
                r.append("0");
                i = i + 1;
                assert(r@ =~= start + Seq::new(i as nat, |i: int| '0'));
            }
            let rest: String = dec_text(self.digits);
            r.append(rest.as_str());
        }
        r
    }
}

/// Seconds slept by worker, L2CPU and tier.
pub type TierSeconds = [[[Seconds; 3]; 4]; 5];

/// What a scrape reports besides the counters.
pub struct ScrapeState {
    /// Seconds since the daemon started.
    pub uptime_seconds: i64,
    /// The card that the daemon serves.
    pub card: u32,
    /// The seconds that stand for `worker_tier_nanos_total`.
    pub tier_seconds: TierSeconds,
    /// The installed slots, one entry per L2CPU.
    pub slots: [Option<SlotGauges>; 4],
    /// The latest telemetry, where there is one.
    pub telemetry: Option<ChipTelemetry>,
}

// ---------------------------------------------------------------------------
// Shapes of metrics
// ---------------------------------------------------------------------------

/// A metric of one sample without labels.
pub open spec fn scalar(
    name: Seq<char>,
    help: Seq<char>,
    kind: MetricKind,
    value: Seq<char>,
) -> Seq<Line> {
    head(name, help, kind).push(Line::Sample(name, Seq::empty(), value))
}

pub open spec fn counter_lines(name: Seq<char>, help: Seq<char>, value: u64) -> Seq<Line> {
    scalar(name, help, MetricKind::Counter, dec(value as nat))
}

pub open spec fn gauge_lines(name: Seq<char>, help: Seq<char>, value: i64) -> Seq<Line> {
    scalar(name, help, MetricKind::Gauge, signed_dec(value as int))
}

pub open spec fn card_label(card: u32) -> Label {
    ("card"@, dec(card as nat))
}

pub open spec fn idx_label(i: int) -> Label {
    ("idx"@, dec(i as nat))
}

/// A metric of one sample, labelled with its card.
pub open spec fn chip_scalar(
    name: Seq<char>,
    help: Seq<char>,
    kind: MetricKind,
    card: u32,
    value: Seq<char>,
) -> Seq<Line> {
    head(name, help, kind).push(Line::Sample(name, seq![card_label(card)], value))
}

pub open spec fn chip_counter_lines(
    name: Seq<char>,
    help: Seq<char>,
    card: u32,
    value: u64,
) -> Seq<Line> {
    chip_scalar(name, help, MetricKind::Counter, card, dec(value as nat))
}

pub open spec fn chip_gauge_lines(
    name: Seq<char>,
    help: Seq<char>,
    card: u32,
    value: i64,
) -> Seq<Line> {
    chip_scalar(name, help, MetricKind::Gauge, card, signed_dec(value as int))
}

/// One sample per RPC method.
pub open spec fn method_block(name: Seq<char>, counts: RpcMethodCounter, i: int) -> Seq<Line> {
    let m = RpcMethod::every()[i];
    seq![Line::Sample(name, seq![("method"@, m.label())], dec(counts.count(m) as nat))]
}

pub open spec fn method_lines(
    name: Seq<char>,
    help: Seq<char>,
    counts: RpcMethodCounter,
) -> Seq<Line> {
    head(name, help, MetricKind::Counter) + each(11, |i: int| method_block(name, counts, i))
}

/// The labels that every sample of an L2CPU starts with. There is one disk number.
pub open spec fn lane_labels(i: int, disk: bool) -> Seq<Label> {
    if disk {
        seq![idx_label(i), ("disk_id"@, "0"@)]
    } else {
        seq![idx_label(i)]
    }
}

/// One sample per L2CPU.
pub open spec fn lane_block(name: Seq<char>, disk: bool, values: Seq<Seq<char>>, i: int) -> Seq<
    Line,
> {
    seq![Line::Sample(name, lane_labels(i, disk), values[i])]
}

pub open spec fn lane_lines(
    name: Seq<char>,
    help: Seq<char>,
    kind: MetricKind,
    disk: bool,
    values: Seq<Seq<char>>,
) -> Seq<Line> {
    head(name, help, kind) + each(4, |i: int| lane_block(name, disk, values, i))
}

/// The decimal texts of a row of counts.
pub open spec fn dec_row(row: Seq<u64>) -> Seq<Seq<char>> {
    row.map(|i: int, n: u64| dec(n as nat))
}

/// The decimal texts of a row of levels.
pub open spec fn signed_row(row: Seq<i64>) -> Seq<Seq<char>> {
    row.map(|i: int, n: i64| signed_dec(n as int))
}

/// Two samples per L2CPU, told apart by the label `key`.
pub open spec fn split_block(
    name: Seq<char>,
    disk: bool,
    key: Seq<char>,
    first: Seq<char>,
    a: Seq<u64>,
    second: Seq<char>,
    b: Seq<u64>,
    i: int,
) -> Seq<Line> {
    seq![
        Line::Sample(name, lane_labels(i, disk).push((key, first)), dec(a[i] as nat)),
        Line::Sample(name, lane_labels(i, disk).push((key, second)), dec(b[i] as nat)),
    ]
}

pub open spec fn split_lines(
    name: Seq<char>,
    help: Seq<char>,
    disk: bool,
    key: Seq<char>,
    first: Seq<char>,
    a: Seq<u64>,
    second: Seq<char>,
    b: Seq<u64>,
) -> Seq<Line> {
    head(name, help, MetricKind::Counter) + each(
        4,
        |i: int| split_block(name, disk, key, first, a, second, b, i),
    )
}

/// The sample of one worker, L2CPU and tier.
pub open spec fn worker_sample(
    name: Seq<char>,
    w: int,
    i: int,
    t: int,
    value: Seq<char>,
) -> Seq<Line> {
    seq![
        Line::Sample(
            name,
            seq![
                ("worker"@, WorkerKind::every()[w].label()),
                idx_label(i),
                ("tier"@, Tier::every()[t].label()),
            ],
            value,
        ),
    ]
}

/// One sample per worker, L2CPU and tier; `value` gives the text of each.
pub open spec fn worker_lines(
    name: Seq<char>,
    help: Seq<char>,
    value: spec_fn(int, int, int) -> Seq<char>,
) -> Seq<Line> {
    head(name, help, MetricKind::Counter) + each(
        5,
        |w: int| each(4, |i: int| each(3, |t: int| worker_sample(name, w, i, t, value(w, i, t)))),
    )
}

/// The iteration counts as texts.
pub open spec fn iteration_texts(counts: WorkerTierCounter) -> spec_fn(int, int, int) -> Seq<char> {
    |w: int, i: int, t: int|
        dec(counts.count(WorkerKind::every()[w], i, Tier::every()[t]) as nat)
}

/// The seconds as texts.
pub open spec fn seconds_texts(seconds: TierSeconds) -> spec_fn(int, int, int) -> Seq<char> {
    |w: int, i: int, t: int| seconds_text(seconds@[w]@[i]@[t])
}

// ---------------------------------------------------------------------------
// The exposition
// ---------------------------------------------------------------------------

/// The daemon as a whole.
#[verifier::opaque]
pub open spec fn daemon_lines(m: Metrics, s: ScrapeState) -> Seq<Line> {
    gauge_lines(DAEMON_UPTIME_SECONDS@, DAEMON_UPTIME_SECONDS_HELP@, s.uptime_seconds)
        + counter_lines(DAEMON_CLIENTS_TOTAL@, DAEMON_CLIENTS_TOTAL_HELP@, m.daemon_clients_total@)
        + gauge_lines(DAEMON_CLIENTS_ACTIVE@, DAEMON_CLIENTS_ACTIVE_HELP@, m.daemon_clients_active@)
        + gauge_lines(DAEMON_SANDBOX_STATUS@, DAEMON_SANDBOX_STATUS_HELP@, m.daemon_sandbox_status@)
        + method_lines(DAEMON_RPC_TOTAL@, DAEMON_RPC_TOTAL_HELP@, m.daemon_rpc_total)
        + method_lines(DAEMON_RPC_ERRORS_TOTAL@, DAEMON_RPC_ERRORS_TOTAL_HELP@, m.daemon_rpc_errors_total)
}

/// Boots and consoles per L2CPU.
#[verifier::opaque]
pub open spec fn l2cpu_lines(m: Metrics) -> Seq<Line> {
    split_lines(
            L2CPU_BOOT_TOTAL@,
            L2CPU_BOOT_TOTAL_HELP@,
            false,
            "kind"@,
            "cold"@,
            m.l2cpu_boot_cold_total@,
            "warm"@,
            m.l2cpu_boot_warm_total@,
        )
        + lane_lines(
            L2CPU_CONSOLE_CLIENTS@,
            L2CPU_CONSOLE_CLIENTS_HELP@,
            MetricKind::Gauge,
            false,
            signed_row(m.l2cpu_console_clients@),
        )
        + split_lines(
            L2CPU_CONSOLE_BYTES_TOTAL@,
            L2CPU_CONSOLE_BYTES_TOTAL_HELP@,
            false,
            "direction"@,
            "g2h"@,
            m.l2cpu_console_bytes_total.g2h_counts(),
            "h2g"@,
            m.l2cpu_console_bytes_total.h2g_counts(),
        )
}

/// Block devices.
#[verifier::opaque]
pub open spec fn blk_lines(m: Metrics) -> Seq<Line> {
    split_lines(
            BLK_REQUESTS_TOTAL@,
            BLK_REQUESTS_TOTAL_HELP@,
            true,
            "op"@,
            "read"@,
            m.blk_requests_total.read_counts(),
            "write"@,
            m.blk_requests_total.write_counts(),
        )
        + split_lines(
            BLK_BYTES_TOTAL@,
            BLK_BYTES_TOTAL_HELP@,
            true,
            "op"@,
            "read"@,
            m.blk_bytes_total.read_counts(),
            "write"@,
            m.blk_bytes_total.write_counts(),
        )
        + split_lines(
            BLK_ERRORS_TOTAL@,
            BLK_ERRORS_TOTAL_HELP@,
            true,
            "reason"@,
            "ioerr"@,
            m.blk_errors_total.ioerr_counts(),
            "unsupp"@,
            m.blk_errors_total.unsupp_counts(),
        )
}

/// Net devices, and the interrupts of both kinds of device.
#[verifier::opaque]
pub open spec fn net_lines(m: Metrics) -> Seq<Line> {
    split_lines(
            NET_PACKETS_TOTAL@,
            NET_PACKETS_TOTAL_HELP@,
            false,
            "direction"@,
            "rx"@,
            m.net_packets_total.rx_counts(),
            "tx"@,
            m.net_packets_total.tx_counts(),
        )
        + split_lines(
            NET_BYTES_TOTAL@,
            NET_BYTES_TOTAL_HELP@,
            false,
            "direction"@,
            "rx"@,
            m.net_bytes_total.rx_counts(),
            "tx"@,
            m.net_bytes_total.tx_counts(),
        )
        + lane_lines(
            BLK_INTERRUPTS_TOTAL@,
            BLK_INTERRUPTS_TOTAL_HELP@,
            MetricKind::Counter,
            true,
            dec_row(m.blk_interrupts_total@),
        )
        + lane_lines(
            NET_INTERRUPTS_TOTAL@,
            NET_INTERRUPTS_TOTAL_HELP@,
            MetricKind::Counter,
            false,
            dec_row(m.net_interrupts_total@),
        )
}

/// Poll loops.
#[verifier::opaque]
pub open spec fn poll_lines(m: Metrics, s: ScrapeState) -> Seq<Line> {
    worker_lines(
        WORKER_POLL_ITERATIONS_TOTAL@,
        WORKER_POLL_ITERATIONS_TOTAL_HELP@,
        iteration_texts(m.worker_poll_iterations_total),
    ) + worker_lines(
        WORKER_TIER_SECONDS_TOTAL@,
        WORKER_TIER_SECONDS_TOTAL_HELP@,
        seconds_texts(s.tier_seconds),
    )
}

/// Rings between the firmware and the daemon.
#[verifier::opaque]
pub open spec fn ring_lines(m: Metrics) -> Seq<Line> {
    counter_lines(KICK_DROPS_TOTAL@, KICK_DROPS_TOTAL_HELP@, m.kick_drops_total@)
        + gauge_lines(KICK_RING_HIGH_WATER@, KICK_RING_HIGH_WATER_HELP@, m.kick_ring_high_water@)
        + gauge_lines(KICK_RING_CURRENT_GAP@, KICK_RING_CURRENT_GAP_HELP@, m.kick_ring_current_gap@)
        + counter_lines(KICK_RESCUED_TOTAL@, KICK_RESCUED_TOTAL_HELP@, m.kick_rescued_total@)
        + gauge_lines(KICK_THROTTLE_ENGAGED@, KICK_THROTTLE_ENGAGED_HELP@, m.kick_throttle_engaged@)
        + counter_lines(KICK_THROTTLE_TRANSITIONS_TOTAL@, KICK_THROTTLE_TRANSITIONS_TOTAL_HELP@, m.kick_throttle_transitions_total@)
        + counter_lines(SEL_READY_RACES_TOTAL@, SEL_READY_RACES_TOTAL_HELP@, m.sel_ready_races_total@)
        + counter_lines(BRISC_OLD_SEL_RESCUE_TOTAL@, BRISC_OLD_SEL_RESCUE_TOTAL_HELP@, m.brisc_old_sel_rescue_total@)
        + lane_lines(
            UART_FEED_DROPS_TOTAL@,
            UART_FEED_DROPS_TOTAL_HELP@,
            MetricKind::Counter,
            false,
            dec_row(m.uart_feed_drops_total@),
        )
}

/// The samples of one slot. Only an installed slot has an uptime.
pub open spec fn slot_block(slot: Option<SlotGauges>, i: int) -> Seq<Line> {
    let labels = seq![idx_label(i)];
    match slot {
        Some(s) => seq![
            Line::Sample(L2CPU_RUNNING@, labels, "1"@),
            Line::Sample(L2CPU_UPTIME_SECONDS@, labels, signed_dec(s.uptime_seconds as int)),
            Line::Sample(L2CPU_DISKS@, labels, dec(s.disks as nat)),
            Line::Sample(L2CPU_NET@, labels, if s.net {
                "1"@
            } else {
                "0"@
            }),
        ],
        None => seq![
            Line::Sample(L2CPU_RUNNING@, labels, "0"@),
            Line::Sample(L2CPU_DISKS@, labels, "0"@),
            Line::Sample(L2CPU_NET@, labels, "0"@),
        ],
    }
}

/// The slots: four metrics introduced together, then their samples slot by slot.
#[verifier::opaque]
pub open spec fn slot_lines(s: ScrapeState) -> Seq<Line> {
    head(L2CPU_RUNNING@, L2CPU_RUNNING_HELP@, MetricKind::Gauge)
        + head(L2CPU_UPTIME_SECONDS@, L2CPU_UPTIME_SECONDS_HELP@, MetricKind::Gauge)
        + head(L2CPU_DISKS@, L2CPU_DISKS_HELP@, MetricKind::Gauge)
        + head(L2CPU_NET@, L2CPU_NET_HELP@, MetricKind::Gauge)
        + each(4, |i: int| slot_block(s.slots@[i], i))
}

/// The labels that identify a card.
pub open spec fn card_labels(card: u32, t: ChipTelemetry) -> Seq<Label> {
    seq![
        card_label(card),
        ("board_id"@, "0x"@ + zero_padded(hex(t.board_id as nat), 16)),
        ("asic_id"@, dec(t.asic_id as nat)),
        ("asic_location"@, dec(t.asic_location as nat)),
        ("harvesting"@, "0x"@ + zero_padded(hex(t.harvesting_state as nat), 8)),
        ("enabled_l2cpu"@, "0x"@ + hex(t.enabled_l2cpu as nat)),
        ("enabled_gddr"@, "0x"@ + hex(t.enabled_gddr as nat)),
        ("enabled_eth"@, "0x"@ + hex(t.enabled_eth as nat)),
        ("pcie_usage"@, dec(t.pcie_usage as nat)),
    ]
}

/// The card: always 1, with what identifies it in the labels.
pub open spec fn card_info_lines(card: u32, t: ChipTelemetry) -> Seq<Line> {
    head(CARD_INFO@, CARD_INFO_HELP@, MetricKind::Gauge).push(
        Line::Sample(CARD_INFO@, card_labels(card, t), "1"@),
    )
}

/// The label of a pair of GDDR channels.
pub open spec fn pair_label(i: int) -> Label {
    ("pair"@, if i == 0 {
        "01"@
    } else if i == 1 {
        "23"@
    } else if i == 2 {
        "45"@
    } else {
        "67"@
    })
}

/// One sample per pair of GDDR channels.
pub open spec fn pair_lines(
    name: Seq<char>,
    help: Seq<char>,
    kind: MetricKind,
    card: u32,
    values: Seq<Seq<char>>,
) -> Seq<Line> {
    head(name, help, kind) + each(
        4,
        |i: int| seq![Line::Sample(name, seq![card_label(card), pair_label(i)], values[i])],
    )
}

/// One sample per L2CPU, labelled with the card.
pub open spec fn card_lane_lines(
    name: Seq<char>,
    help: Seq<char>,
    card: u32,
    values: Seq<Seq<char>>,
) -> Seq<Line> {
    head(name, help, MetricKind::Gauge) + each(
        4,
        |i: int| seq![Line::Sample(name, seq![card_label(card), idx_label(i)], values[i])],
    )
}

/// Temperatures.
pub open spec fn thermal_lines(card: u32, t: ChipTelemetry) -> Seq<Line> {
    chip_gauge_lines(CHIP_ASIC_TEMPERATURE_MILLICELSIUS@, CHIP_ASIC_TEMPERATURE_MILLICELSIUS_HELP@, card, t.asic_temperature_mc as i64)
        + chip_gauge_lines(CHIP_VREG_TEMPERATURE_MILLICELSIUS@, CHIP_VREG_TEMPERATURE_MILLICELSIUS_HELP@, card, t.vreg_temperature_mc as i64)
        + chip_gauge_lines(CHIP_BOARD_TEMPERATURE_MILLICELSIUS@, CHIP_BOARD_TEMPERATURE_MILLICELSIUS_HELP@, card, t.board_temperature_mc as i64)
        + chip_gauge_lines(CHIP_MAX_GDDR_TEMPERATURE_CELSIUS@, CHIP_MAX_GDDR_TEMPERATURE_CELSIUS_HELP@, card, t.max_gddr_temperature_c as i64)
        + pair_lines(
            CHIP_GDDR_TEMPERATURE_CELSIUS@,
            CHIP_GDDR_TEMPERATURE_CELSIUS_HELP@,
            MetricKind::Gauge,
            card,
            t.gddr_temperature_c@.map(|i: int, n: i32| signed_dec(n as int)),
        )
}

/// Memory errors.
pub open spec fn ecc_lines(card: u32, t: ChipTelemetry) -> Seq<Line> {
    pair_lines(
            CHIP_GDDR_CORR_ERRORS_TOTAL@,
            CHIP_GDDR_CORR_ERRORS_TOTAL_HELP@,
            MetricKind::Counter,
            card,
            t.gddr_corr_errs@.map(|i: int, n: u32| dec(n as nat)),
        )
        + chip_counter_lines(CHIP_GDDR_UNCORR_ERRORS_TOTAL@, CHIP_GDDR_UNCORR_ERRORS_TOTAL_HELP@, card, t.gddr_uncorr_errs as u64)
}

/// Clocks.
pub open spec fn clock_lines(card: u32, t: ChipTelemetry) -> Seq<Line> {
    chip_gauge_lines(CHIP_AICLK_MHZ@, CHIP_AICLK_MHZ_HELP@, card, t.aiclk_mhz as i64)
        + chip_gauge_lines(CHIP_AXICLK_MHZ@, CHIP_AXICLK_MHZ_HELP@, card, t.axiclk_mhz as i64)
        + chip_gauge_lines(CHIP_ARCCLK_MHZ@, CHIP_ARCCLK_MHZ_HELP@, card, t.arcclk_mhz as i64)
        + chip_gauge_lines(CHIP_AICLK_LIMIT_MAX_MHZ@, CHIP_AICLK_LIMIT_MAX_MHZ_HELP@, card, t.aiclk_limit_max_mhz as i64)
        + card_lane_lines(
            CHIP_L2CPUCLK_MHZ@,
            CHIP_L2CPUCLK_MHZ_HELP@,
            card,
            t.l2cpuclk_mhz@.map(|i: int, n: u32| dec(n as nat)),
        )
}

/// Power, current and voltage.
pub open spec fn power_lines(card: u32, t: ChipTelemetry) -> Seq<Line> {
    chip_gauge_lines(CHIP_TDP_WATTS@, CHIP_TDP_WATTS_HELP@, card, t.tdp_w as i64)
        + chip_gauge_lines(CHIP_TDC_AMPS@, CHIP_TDC_AMPS_HELP@, card, t.tdc_a as i64)
        + chip_gauge_lines(CHIP_INPUT_POWER_WATTS@, CHIP_INPUT_POWER_WATTS_HELP@, card, t.input_power_w as i64)
        + chip_gauge_lines(CHIP_VCORE_MILLIVOLTS@, CHIP_VCORE_MILLIVOLTS_HELP@, card, t.vcore_mv as i64)
        + chip_gauge_lines(CHIP_VDD_MIN_MILLIVOLTS@, CHIP_VDD_MIN_MILLIVOLTS_HELP@, card, t.vdd_min_mv as i64)
        + chip_gauge_lines(CHIP_VDD_MAX_MILLIVOLTS@, CHIP_VDD_MAX_MILLIVOLTS_HELP@, card, t.vdd_max_mv as i64)
}

/// Limits on power, current and heat.
pub open spec fn limit_lines(card: u32, t: ChipTelemetry) -> Seq<Line> {
    chip_gauge_lines(CHIP_TDP_LIMIT_MAX_WATTS@, CHIP_TDP_LIMIT_MAX_WATTS_HELP@, card, t.tdp_limit_max_w as i64)
        + chip_gauge_lines(CHIP_TDC_LIMIT_MAX_AMPS@, CHIP_TDC_LIMIT_MAX_AMPS_HELP@, card, t.tdc_limit_max_a as i64)
        + chip_gauge_lines(CHIP_BOARD_POWER_LIMIT_WATTS@, CHIP_BOARD_POWER_LIMIT_WATTS_HELP@, card, t.board_power_limit_w as i64)
        + chip_gauge_lines(CHIP_THM_LIMIT_THROTTLE_CELSIUS@, CHIP_THM_LIMIT_THROTTLE_CELSIUS_HELP@, card, t.thm_limit_throttle_c as i64)
}

/// Cooling, memory training, firmware health and links.
pub open spec fn board_lines(card: u32, t: ChipTelemetry) -> Seq<Line> {
    chip_gauge_lines(CHIP_FAN_PCT@, CHIP_FAN_PCT_HELP@, card, t.fan_speed_pct as i64)
        + chip_gauge_lines(CHIP_FAN_RPM@, CHIP_FAN_RPM_HELP@, card, t.fan_rpm as i64)
        + chip_gauge_lines(CHIP_DDR_STATUS@, CHIP_DDR_STATUS_HELP@, card, t.ddr_status as i64)
        + chip_gauge_lines(CHIP_DDR_SPEED_MTS@, CHIP_DDR_SPEED_MTS_HELP@, card, t.ddr_speed_mts as i64)
        + chip_counter_lines(CHIP_ARC_HEARTBEAT_TOTAL@, CHIP_ARC_HEARTBEAT_TOTAL_HELP@, card, t.timer_heartbeat as u64)
        + chip_counter_lines(CHIP_THERM_TRIP_TOTAL@, CHIP_THERM_TRIP_TOTAL_HELP@, card, t.therm_trip_count as u64)
        + chip_gauge_lines(CHIP_ETH_LIVE_STATUS@, CHIP_ETH_LIVE_STATUS_HELP@, card, t.eth_live_status as i64)
}

/// Everything that the telemetry reports.
pub open spec fn telemetry_lines(card: u32, t: ChipTelemetry) -> Seq<Line> {
    card_info_lines(card, t) + thermal_lines(card, t) + ecc_lines(card, t) + clock_lines(card, t) + power_lines(card, t) + limit_lines(card, t) + board_lines(card, t)
}

/// The telemetry where there is one, else nothing.
#[verifier::opaque]
pub open spec fn chip_lines(s: ScrapeState) -> Seq<Line> {
    match s.telemetry {
        Some(t) => telemetry_lines(s.card, t),
        None => Seq::empty(),
    }
}

/// The whole exposition.
pub open spec fn prometheus_lines(m: Metrics, s: ScrapeState) -> Seq<Line> {
    daemon_lines(m, s) + l2cpu_lines(m) + blk_lines(m) + net_lines(m) + poll_lines(m, s)
        + ring_lines(m) + slot_lines(s) + chip_lines(s)
}

// ---------------------------------------------------------------------------
// Writers
// ---------------------------------------------------------------------------

pub fn write_counter(out: &mut Exposition, name: &str, help: &str, value: u64)
    ensures
        final(out)@ =~= old(out)@ + counter_lines(name@, help@, value),
{
    out.introduce(name, help, MetricKind::Counter);
    let text: String = dec_text(value);
    let labels: [(&str, &str); 0] = [];
    out.sample(name, &labels, text.as_str());
    assert(pairs(labels@) =~= Seq::<Label>::empty());
}

pub fn write_gauge(out: &mut Exposition, name: &str, help: &str, value: i64)
    ensures
        final(out)@ =~= old(out)@ + gauge_lines(name@, help@, value),
{
    out.introduce(name, help, MetricKind::Gauge);
    let text: String = signed_text(value);
    let labels: [(&str, &str); 0] = [];
    out.sample(name, &labels, text.as_str());
    assert(pairs(labels@) =~= Seq::<Label>::empty());
}

pub fn write_chip_counter(out: &mut Exposition, name: &str, help: &str, card: u32, value: u64)
    ensures
        final(out)@ =~= old(out)@ + chip_counter_lines(name@, help@, card, value),
{
    out.introduce(name, help, MetricKind::Counter);
    let text: String = dec_text(value);
    let number: String = dec_text(card as u64);
    let labels: [(&str, &str); 1] = [("card", number.as_str())];
    out.sample(name, &labels, text.as_str());
    assert(pairs(labels@) =~= seq![card_label(card)]);
}

pub fn write_chip_gauge(out: &mut Exposition, name: &str, help: &str, card: u32, value: i64)
    ensures
        final(out)@ =~= old(out)@ + chip_gauge_lines(name@, help@, card, value),
{
    out.introduce(name, help, MetricKind::Gauge);
    let text: String = signed_text(value);
    let number: String = dec_text(card as u64);
    let labels: [(&str, &str); 1] = [("card", number.as_str())];
    out.sample(name, &labels, text.as_str());
    assert(pairs(labels@) =~= seq![card_label(card)]);
}

fn write_methods(out: &mut Exposition, name: &str, help: &str, counts: &RpcMethodCounter)
    ensures
        final(out)@ =~= old(out)@ + method_lines(name@, help@, *counts),
{
    broadcast use concat_assoc;

    out.introduce(name, help, MetricKind::Counter);
    let ghost start = out@;
    let ghost block = |i: int| method_block(name@, *counts, i);
    let all: [RpcMethod; 11] = RpcMethod::all();
    let mut i: usize = 0;
    assert(out@ =~= start + each(0, block));
    while i < 11
        invariant
            i <= 11,
            all@ == RpcMethod::every(),
            out@ == start + each(i as nat, block),
            block == (|i: int| method_block(name@, *counts, i)),
        decreases 11 - i,
    {
        let method: RpcMethod = all[i];
        let text: String = dec_text(counts.value(method));
        let labels: [(&str, &str); 1] = [("method", method.name())];
        out.sample(name, &labels, text.as_str());
        proof {
            assert(pairs(labels@) =~= seq![("method"@, method.label())]);
            assert(each((i + 1) as nat, block) == each(i as nat, block) + block(i as int));
            assert(out@ =~= start + each((i + 1) as nat, block));
        }
        i = i + 1;
    }
}

/// Appends one sample of an L2CPU, with the label `key` where there is one.
fn write_lane(
    out: &mut Exposition,
    name: &str,
    idx: usize,
    disk: bool,
    key: Option<(&str, &str)>,
    value: &str,
)
    ensures
        final(out)@ =~= old(out)@.push(
            Line::Sample(
                name@,
                match key {
                    Some(k) => lane_labels(idx as int, disk).push((k.0@, k.1@)),
                    None => lane_labels(idx as int, disk),
                },
                value@,
            ),
        ),
{
    let number: String = dec_text(idx as u64);
    let mut labels: Vec<(&str, &str)> = Vec::new();
    labels.push(("idx", number.as_str()));
    if disk {
        labels.push(("disk_id", "0"));
    }
    assert(pairs(labels@) =~= lane_labels(idx as int, disk));
    match key {
        Some(k) => {
            labels.push(k);
            assert(pairs(labels@) =~= lane_labels(idx as int, disk).push((k.0@, k.1@)));
        },
        None => {},
    }
    out.sample(name, labels.as_slice(), value);
}

fn write_lanes(
    out: &mut Exposition,
    name: &str,
    help: &str,
    kind: MetricKind,
    disk: bool,
    values: &[String; 4],
)
    ensures
        final(out)@ =~= old(out)@ + lane_lines(
            name@,
            help@,
            kind,
            disk,
            values@.map(|i: int, v: String| v@),
        ),
{
    broadcast use concat_assoc;

    out.introduce(name, help, kind);
    let ghost start = out@;
    let ghost texts = values@.map(|i: int, v: String| v@);
    let ghost block = |i: int| lane_block(name@, disk, texts, i);
    let mut i: usize = 0;
    assert(out@ =~= start + each(0, block));
    while i < 4
        invariant
            i <= 4,
            out@ == start + each(i as nat, block),
            texts == values@.map(|i: int, v: String| v@),
            block == (|i: int| lane_block(name@, disk, texts, i)),
        decreases 4 - i,
    {
        write_lane(out, name, i, disk, None, values[i].as_str());
        assert(each((i + 1) as nat, block) == each(i as nat, block) + block(i as int));
        assert(out@ =~= start + each((i + 1) as nat, block));
        i = i + 1;
    }
}

/// The decimal texts of a row of counts.
fn dec_texts(row: &[u64; 4]) -> (texts: [String; 4])
    ensures
        texts@.map(|i: int, v: String| v@) =~= dec_row(row@),
{
    [dec_text(row[0]), dec_text(row[1]), dec_text(row[2]), dec_text(row[3])]
}

/// The decimal texts of a row of levels.
fn signed_texts(row: &[i64; 4]) -> (texts: [String; 4])
    ensures
        texts@.map(|i: int, v: String| v@) =~= signed_row(row@),
{
    [signed_text(row[0]), signed_text(row[1]), signed_text(row[2]), signed_text(row[3])]
}

fn write_split(
    out: &mut Exposition,
    name: &str,
    help: &str,
    disk: bool,
    key: &str,
    first: (&str, [u64; 4]),
    second: (&str, [u64; 4]),
)
    ensures
        final(out)@ =~= old(out)@ + split_lines(
            name@,
            help@,
            disk,
            key@,
            first.0@,
            first.1@,
            second.0@,
            second.1@,
        ),
{
    broadcast use concat_assoc;

    out.introduce(name, help, MetricKind::Counter);
    let ghost start = out@;
    let ghost block = |i: int|
        split_block(name@, disk, key@, first.0@, first.1@, second.0@, second.1@, i);
    let mut i: usize = 0;
    assert(out@ =~= start + each(0, block));
    while i < 4
        invariant
            i <= 4,
            out@ == start + each(i as nat, block),
            block == (|i: int|
                split_block(name@, disk, key@, first.0@, first.1@, second.0@, second.1@, i)),
        decreases 4 - i,
    {
        let text: String = dec_text(first.1[i]);
        write_lane(out, name, i, disk, Some((key, first.0)), text.as_str());
        let text: String = dec_text(second.1[i]);
        write_lane(out, name, i, disk, Some((key, second.0)), text.as_str());
        assert(each((i + 1) as nat, block) == each(i as nat, block) + block(i as int));
        assert(out@ =~= start + each((i + 1) as nat, block));
        i = i + 1;
    }
}

/// Appends the sample of one worker, L2CPU and tier.
fn write_worker_sample(
    out: &mut Exposition,
    name: &str,
    worker: WorkerKind,
    idx: usize,
    tier: Tier,
    value: &str,
)
    ensures
        final(out)@ =~= old(out)@ + worker_sample(
            name@,
            worker.rank() as int,
            idx as int,
            tier.rank() as int,
            value@,
        ),
{
    let number: String = dec_text(idx as u64);
    let labels: [(&str, &str); 3] = [
        ("worker", worker.name()),
        ("idx", number.as_str()),
        ("tier", tier.name()),
    ];
    out.sample(name, &labels, value);
    assert(pairs(labels@) =~= seq![
        ("worker"@, worker.label()),
        idx_label(idx as int),
        ("tier"@, tier.label()),
    ]);
}

/// Appends the iteration counts of the poll loops.
fn write_iterations(out: &mut Exposition, name: &str, help: &str, counts: &WorkerTierCounter)
    ensures
        final(out)@ =~= old(out)@ + worker_lines(name@, help@, iteration_texts(*counts)),
{
    broadcast use concat_assoc;

    out.introduce(name, help, MetricKind::Counter);
    let ghost start = out@;
    let ghost value = iteration_texts(*counts);
    let ghost block = |w: int|
        each(4, |i: int| each(3, |t: int| worker_sample(name@, w, i, t, value(w, i, t))));
    let workers: [WorkerKind; 5] = WorkerKind::all();
    let tiers: [Tier; 3] = Tier::all();
    let mut w: usize = 0;
    assert(out@ =~= start + each(0, block));
    while w < 5
        invariant
            w <= 5,
            workers@ == WorkerKind::every(),
            tiers@ == Tier::every(),
            out@ == start + each(w as nat, block),
            value == iteration_texts(*counts),
            block == (|w: int|
                each(4, |i: int| each(3, |t: int| worker_sample(name@, w, i, t, value(w, i, t))))),
        decreases 5 - w,
    {
        let ghost at_worker = out@;
        let ghost plane = |i: int|
            each(3, |t: int| worker_sample(name@, w as int, i, t, value(w as int, i, t)));
        let mut i: usize = 0;
        assert(out@ =~= at_worker + each(0, plane));
        while i < 4
            invariant
                w < 5,
                i <= 4,
                workers@ == WorkerKind::every(),
                tiers@ == Tier::every(),
                out@ == at_worker + each(i as nat, plane),
                value == iteration_texts(*counts),
                plane == (|i: int|
                    each(3, |t: int| worker_sample(name@, w as int, i, t, value(w as int, i, t)))),
            decreases 4 - i,
        {
            let ghost at_lane = out@;
            let ghost row = |t: int|
                worker_sample(name@, w as int, i as int, t, value(w as int, i as int, t));
            let mut t: usize = 0;
            assert(out@ =~= at_lane + each(0, row));
            while t < 3
                invariant
                    w < 5,
                    i < 4,
                    t <= 3,
                    workers@ == WorkerKind::every(),
                    tiers@ == Tier::every(),
                    out@ == at_lane + each(t as nat, row),
                    value == iteration_texts(*counts),
                    row == (|t: int|
                        worker_sample(name@, w as int, i as int, t, value(w as int, i as int, t))),
                decreases 3 - t,
            {
                let text: String = dec_text(counts.value(workers[w], i as u8, tiers[t]));
                write_worker_sample(out, name, workers[w], i, tiers[t], text.as_str());
                assert(workers[w as int].rank() == w && tiers[t as int].rank() == t);
                assert(each((t + 1) as nat, row) == each(t as nat, row) + row(t as int));
                t = t + 1;
            }
            assert(plane(i as int) == each(3, row));
            assert(each((i + 1) as nat, plane) == each(i as nat, plane) + plane(i as int));
            i = i + 1;
        }
        assert(block(w as int) == each(4, plane));
        assert(each((w + 1) as nat, block) == each(w as nat, block) + block(w as int));
        w = w + 1;
    }
}

/// Appends the seconds slept by the poll loops.
fn write_seconds(out: &mut Exposition, name: &str, help: &str, seconds: &TierSeconds)
    ensures
        final(out)@ =~= old(out)@ + worker_lines(name@, help@, seconds_texts(*seconds)),
{
    broadcast use concat_assoc;

    out.introduce(name, help, MetricKind::Counter);
    let ghost start = out@;
    let ghost value = seconds_texts(*seconds);
    let ghost block = |w: int|
        each(4, |i: int| each(3, |t: int| worker_sample(name@, w, i, t, value(w, i, t))));
    let workers: [WorkerKind; 5] = WorkerKind::all();
    let tiers: [Tier; 3] = Tier::all();
    let mut w: usize = 0;
    assert(out@ =~= start + each(0, block));
    while w < 5
        invariant
            w <= 5,
            workers@ == WorkerKind::every(),
            tiers@ == Tier::every(),
            out@ == start + each(w as nat, block),
            value == seconds_texts(*seconds),
            block == (|w: int|
                each(4, |i: int| each(3, |t: int| worker_sample(name@, w, i, t, value(w, i, t))))),
        decreases 5 - w,
    {
        let ghost at_worker = out@;
        let ghost plane = |i: int|
            each(3, |t: int| worker_sample(name@, w as int, i, t, value(w as int, i, t)));
        let mut i: usize = 0;
        assert(out@ =~= at_worker + each(0, plane));
        while i < 4
            invariant
                w < 5,
                i <= 4,
                workers@ == WorkerKind::every(),
                tiers@ == Tier::every(),
                out@ == at_worker + each(i as nat, plane),
                value == seconds_texts(*seconds),
                plane == (|i: int|
                    each(3, |t: int| worker_sample(name@, w as int, i, t, value(w as int, i, t)))),
            decreases 4 - i,
        {
            let ghost at_lane = out@;
            let ghost row = |t: int|
                worker_sample(name@, w as int, i as int, t, value(w as int, i as int, t));
            let mut t: usize = 0;
            assert(out@ =~= at_lane + each(0, row));
            while t < 3
                invariant
                    w < 5,
                    i < 4,
                    t <= 3,
                    workers@ == WorkerKind::every(),
                    tiers@ == Tier::every(),
                    out@ == at_lane + each(t as nat, row),
                    value == seconds_texts(*seconds),
                    row == (|t: int|
                        worker_sample(name@, w as int, i as int, t, value(w as int, i as int, t))),
                decreases 3 - t,
            {
                let text: String = seconds[w][i][t].text();
                write_worker_sample(out, name, workers[w], i, tiers[t], text.as_str());
                assert(workers[w as int].rank() == w && tiers[t as int].rank() == t);
                assert(each((t + 1) as nat, row) == each(t as nat, row) + row(t as int));
                t = t + 1;
            }
            assert(plane(i as int) == each(3, row));
            assert(each((i + 1) as nat, plane) == each(i as nat, plane) + plane(i as int));
            i = i + 1;
        }
        assert(block(w as int) == each(4, plane));
        assert(each((w + 1) as nat, block) == each(w as nat, block) + block(w as int));
        w = w + 1;
    }
}

/// Appends the metrics of the daemon as a whole.
fn write_daemon(out: &mut Exposition, m: &Metrics, s: &ScrapeState)
    ensures
        final(out)@ =~= old(out)@ + daemon_lines(*m, *s),
{
    broadcast use concat_assoc;

    reveal(daemon_lines);
    write_gauge(out, DAEMON_UPTIME_SECONDS, DAEMON_UPTIME_SECONDS_HELP, s.uptime_seconds);
    write_counter(out, DAEMON_CLIENTS_TOTAL, DAEMON_CLIENTS_TOTAL_HELP, m.daemon_clients_total.get());
    write_gauge(out, DAEMON_CLIENTS_ACTIVE, DAEMON_CLIENTS_ACTIVE_HELP, m.daemon_clients_active.get());
    write_gauge(out, DAEMON_SANDBOX_STATUS, DAEMON_SANDBOX_STATUS_HELP, m.daemon_sandbox_status.get());
    write_methods(out, DAEMON_RPC_TOTAL, DAEMON_RPC_TOTAL_HELP, &m.daemon_rpc_total);
    write_methods(out, DAEMON_RPC_ERRORS_TOTAL, DAEMON_RPC_ERRORS_TOTAL_HELP, &m.daemon_rpc_errors_total);
}

/// Appends boots and consoles.
fn write_l2cpus(out: &mut Exposition, m: &Metrics)
    ensures
        final(out)@ =~= old(out)@ + l2cpu_lines(*m),
{
    broadcast use concat_assoc;

    reveal(l2cpu_lines);
    write_split(
        out,
        L2CPU_BOOT_TOTAL,
        L2CPU_BOOT_TOTAL_HELP,
        false,
        "kind",
        ("cold", m.l2cpu_boot_cold_total.values()),
        ("warm", m.l2cpu_boot_warm_total.values()),
    );
    let texts: [String; 4] = signed_texts(&m.l2cpu_console_clients.values());
    write_lanes(out, L2CPU_CONSOLE_CLIENTS, L2CPU_CONSOLE_CLIENTS_HELP, MetricKind::Gauge, false, &texts);
    write_split(
        out,
        L2CPU_CONSOLE_BYTES_TOTAL,
        L2CPU_CONSOLE_BYTES_TOTAL_HELP,
        false,
        "direction",
        ("g2h", m.l2cpu_console_bytes_total.g2h_values()),
        ("h2g", m.l2cpu_console_bytes_total.h2g_values()),
    );
}

/// Appends the block devices.
fn write_blk(out: &mut Exposition, m: &Metrics)
    ensures
        final(out)@ =~= old(out)@ + blk_lines(*m),
{
    broadcast use concat_assoc;

    reveal(blk_lines);
    write_split(
        out,
        BLK_REQUESTS_TOTAL,
        BLK_REQUESTS_TOTAL_HELP,
        true,
        "op",
        ("read", m.blk_requests_total.read_values()),
        ("write", m.blk_requests_total.write_values()),
    );
    write_split(
        out,
        BLK_BYTES_TOTAL,
        BLK_BYTES_TOTAL_HELP,
        true,
        "op",
        ("read", m.blk_bytes_total.read_values()),
        ("write", m.blk_bytes_total.write_values()),
    );
    write_split(
        out,
        BLK_ERRORS_TOTAL,
        BLK_ERRORS_TOTAL_HELP,
        true,
        "reason",
        ("ioerr", m.blk_errors_total.ioerr_values()),
        ("unsupp", m.blk_errors_total.unsupp_values()),
    );
}

/// Appends the net devices and the interrupts.
fn write_net(out: &mut Exposition, m: &Metrics)
    ensures
        final(out)@ =~= old(out)@ + net_lines(*m),
{
    broadcast use concat_assoc;

    reveal(net_lines);
    write_split(
        out,
        NET_PACKETS_TOTAL,
        NET_PACKETS_TOTAL_HELP,
        false,
        "direction",
        ("rx", m.net_packets_total.rx_values()),
        ("tx", m.net_packets_total.tx_values()),
    );
    write_split(
        out,
        NET_BYTES_TOTAL,
        NET_BYTES_TOTAL_HELP,
        false,
        "direction",
        ("rx", m.net_bytes_total.rx_values()),
        ("tx", m.net_bytes_total.tx_values()),
    );
    let texts: [String; 4] = dec_texts(&m.blk_interrupts_total.values());
    write_lanes(out, BLK_INTERRUPTS_TOTAL, BLK_INTERRUPTS_TOTAL_HELP, MetricKind::Counter, true, &texts);
    let texts: [String; 4] = dec_texts(&m.net_interrupts_total.values());
    write_lanes(out, NET_INTERRUPTS_TOTAL, NET_INTERRUPTS_TOTAL_HELP, MetricKind::Counter, false, &texts);
}

/// Appends the poll loops.
fn write_polls(out: &mut Exposition, m: &Metrics, s: &ScrapeState)
    ensures
        final(out)@ =~= old(out)@ + poll_lines(*m, *s),
{
    broadcast use concat_assoc;

    reveal(poll_lines);
    write_iterations(
        out,
        WORKER_POLL_ITERATIONS_TOTAL,
        WORKER_POLL_ITERATIONS_TOTAL_HELP,
        &m.worker_poll_iterations_total,
    );
    write_seconds(
        out,
        WORKER_TIER_SECONDS_TOTAL,
        WORKER_TIER_SECONDS_TOTAL_HELP,
        &s.tier_seconds,
    );
}

/// Appends the rings.
fn write_rings(out: &mut Exposition, m: &Metrics)
    ensures
        final(out)@ =~= old(out)@ + ring_lines(*m),
{
    broadcast use concat_assoc;

    reveal(ring_lines);
    write_counter(out, KICK_DROPS_TOTAL, KICK_DROPS_TOTAL_HELP, m.kick_drops_total.get());
    write_gauge(out, KICK_RING_HIGH_WATER, KICK_RING_HIGH_WATER_HELP, m.kick_ring_high_water.get());
    write_gauge(out, KICK_RING_CURRENT_GAP, KICK_RING_CURRENT_GAP_HELP, m.kick_ring_current_gap.get());
    write_counter(out, KICK_RESCUED_TOTAL, KICK_RESCUED_TOTAL_HELP, m.kick_rescued_total.get());
    write_gauge(out, KICK_THROTTLE_ENGAGED, KICK_THROTTLE_ENGAGED_HELP, m.kick_throttle_engaged.get());
    write_counter(out, KICK_THROTTLE_TRANSITIONS_TOTAL, KICK_THROTTLE_TRANSITIONS_TOTAL_HELP, m.kick_throttle_transitions_total.get());
    write_counter(out, SEL_READY_RACES_TOTAL, SEL_READY_RACES_TOTAL_HELP, m.sel_ready_races_total.get());
    write_counter(out, BRISC_OLD_SEL_RESCUE_TOTAL, BRISC_OLD_SEL_RESCUE_TOTAL_HELP, m.brisc_old_sel_rescue_total.get());
    let texts: [String; 4] = dec_texts(&m.uart_feed_drops_total.values());
    write_lanes(out, UART_FEED_DROPS_TOTAL, UART_FEED_DROPS_TOTAL_HELP, MetricKind::Counter, false, &texts);
}

/// Appends the samples of one slot.
fn write_slot(out: &mut Exposition, slot: Option<SlotGauges>, idx: usize)
    ensures
        final(out)@ =~= old(out)@ + slot_block(slot, idx as int),
{
    match slot {
        Some(s) => {
            write_lane(out, L2CPU_RUNNING, idx, false, None, "1");
            let text: String = signed_text(s.uptime_seconds);
            write_lane(out, L2CPU_UPTIME_SECONDS, idx, false, None, text.as_str());
            let text: String = dec_text(s.disks);
            write_lane(out, L2CPU_DISKS, idx, false, None, text.as_str());
            let text: &str = if s.net {
                "1"
            } else {
                "0"
            };
            write_lane(out, L2CPU_NET, idx, false, None, text);
        },
        None => {
            write_lane(out, L2CPU_RUNNING, idx, false, None, "0");
            write_lane(out, L2CPU_DISKS, idx, false, None, "0");
            write_lane(out, L2CPU_NET, idx, false, None, "0");
        },
    }
}

/// Appends the slots.
fn write_slots(out: &mut Exposition, s: &ScrapeState)
    ensures
        final(out)@ =~= old(out)@ + slot_lines(*s),
{
    broadcast use concat_assoc;

    reveal(slot_lines);
    out.introduce(L2CPU_RUNNING, L2CPU_RUNNING_HELP, MetricKind::Gauge);
    out.introduce(L2CPU_UPTIME_SECONDS, L2CPU_UPTIME_SECONDS_HELP, MetricKind::Gauge);
    out.introduce(L2CPU_DISKS, L2CPU_DISKS_HELP, MetricKind::Gauge);
    out.introduce(L2CPU_NET, L2CPU_NET_HELP, MetricKind::Gauge);
    let ghost start = out@;
    let ghost block = |i: int| slot_block(s.slots@[i], i);
    let mut i: usize = 0;
    assert(out@ =~= start + each(0, block));
    while i < 4
        invariant
            i <= 4,
            out@ == start + each(i as nat, block),
            block == (|i: int| slot_block(s.slots@[i], i)),
        decreases 4 - i,
    {
        write_slot(out, s.slots[i], i);
        assert(each((i + 1) as nat, block) == each(i as nat, block) + block(i as int));
        i = i + 1;
    }
}

/// `0x` and `n` in hexadecimal, at least `width` digits wide.
fn prefixed_hex(n: u64, width: usize) -> (s: String)
    ensures
        s@ =~= "0x"@ + zero_padded(hex(n as nat), width as nat),
{
    let mut s: String = "0x".to_owned();
    push_hex_padded(&mut s, n, width);
    s
}

/// `0x` and `n` in hexadecimal.
fn plain_hex(n: u64) -> (s: String)
    ensures
        s@ =~= "0x"@ + hex(n as nat),
{
    let mut s: String = "0x".to_owned();
    push_hex(&mut s, n);
    s
}

/// Appends what identifies the card.
fn write_card_info(out: &mut Exposition, card: u32, t: &ChipTelemetry)
    ensures
        final(out)@ =~= old(out)@ + card_info_lines(card, *t),
{
    out.introduce(CARD_INFO, CARD_INFO_HELP, MetricKind::Gauge);
    let number: String = dec_text(card as u64);
    let board_id: String = prefixed_hex(t.board_id, 16);
    let asic_id: String = dec_text(t.asic_id);
    let asic_location: String = dec_text(t.asic_location as u64);
    let harvesting: String = prefixed_hex(t.harvesting_state as u64, 8);
    let enabled_l2cpu: String = plain_hex(t.enabled_l2cpu as u64);
    let enabled_gddr: String = plain_hex(t.enabled_gddr as u64);
    let enabled_eth: String = plain_hex(t.enabled_eth as u64);
    let pcie_usage: String = dec_text(t.pcie_usage as u64);
    let labels: [(&str, &str); 9] = [
        ("card", number.as_str()),
        ("board_id", board_id.as_str()),
        ("asic_id", asic_id.as_str()),
        ("asic_location", asic_location.as_str()),
        ("harvesting", harvesting.as_str()),
        ("enabled_l2cpu", enabled_l2cpu.as_str()),
        ("enabled_gddr", enabled_gddr.as_str()),
        ("enabled_eth", enabled_eth.as_str()),
        ("pcie_usage", pcie_usage.as_str()),
    ];
    out.sample(CARD_INFO, &labels, "1");
    assert(pairs(labels@) =~= card_labels(card, *t));
}

/// The name of a pair of GDDR channels.
fn pair_name(i: usize) -> (s: &'static str)
    requires
        i < 4,
    ensures
        s@ == pair_label(i as int).1,
{
    if i == 0 {
        "01"
    } else if i == 1 {
        "23"
    } else if i == 2 {
        "45"
    } else {
        "67"
    }
}

/// Appends one sample per pair of GDDR channels.
fn write_pairs(
    out: &mut Exposition,
    name: &str,
    help: &str,
    kind: MetricKind,
    card: u32,
    values: &[String; 4],
)
    ensures
        final(out)@ =~= old(out)@ + pair_lines(
            name@,
            help@,
            kind,
            card,
            values@.map(|i: int, v: String| v@),
        ),
{
    broadcast use concat_assoc;

    out.introduce(name, help, kind);
    let ghost start = out@;
    let ghost texts = values@.map(|i: int, v: String| v@);
    let ghost block = |i: int|
        seq![Line::Sample(name@, seq![card_label(card), pair_label(i)], texts[i])];
    let number: String = dec_text(card as u64);
    let mut i: usize = 0;
    assert(out@ =~= start + each(0, block));
    while i < 4
        invariant
            i <= 4,
            number@ == dec(card as nat),
            out@ == start + each(i as nat, block),
            texts == values@.map(|i: int, v: String| v@),
            block == (|i: int|
                seq![Line::Sample(name@, seq![card_label(card), pair_label(i)], texts[i])]),
        decreases 4 - i,
    {
        let labels: [(&str, &str); 2] = [("card", number.as_str()), ("pair", pair_name(i))];
        out.sample(name, &labels, values[i].as_str());
        assert(pairs(labels@) =~= seq![card_label(card), pair_label(i as int)]);
        assert(each((i + 1) as nat, block) == each(i as nat, block) + block(i as int));
        i = i + 1;
    }
}

/// Appends one sample per L2CPU, labelled with the card.
fn write_card_lanes(
    out: &mut Exposition,
    name: &str,
    help: &str,
    card: u32,
    values: &[String; 4],
)
    ensures
        final(out)@ =~= old(out)@ + card_lane_lines(
            name@,
            help@,
            card,
            values@.map(|i: int, v: String| v@),
        ),
{
    broadcast use concat_assoc;

    out.introduce(name, help, MetricKind::Gauge);
    let ghost start = out@;
    let ghost texts = values@.map(|i: int, v: String| v@);
    let ghost block = |i: int|
        seq![Line::Sample(name@, seq![card_label(card), idx_label(i)], texts[i])];
    let number: String = dec_text(card as u64);
    let mut i: usize = 0;
    assert(out@ =~= start + each(0, block));
    while i < 4
        invariant
            i <= 4,
            number@ == dec(card as nat),
            out@ == start + each(i as nat, block),
            texts == values@.map(|i: int, v: String| v@),
            block == (|i: int|
                seq![Line::Sample(name@, seq![card_label(card), idx_label(i)], texts[i])]),
        decreases 4 - i,
    {
        let lane: String = dec_text(i as u64);
        let labels: [(&str, &str); 2] = [("card", number.as_str()), ("idx", lane.as_str())];
        out.sample(name, &labels, values[i].as_str());
        assert(pairs(labels@) =~= seq![card_label(card), idx_label(i as int)]);
        assert(each((i + 1) as nat, block) == each(i as nat, block) + block(i as int));
        i = i + 1;
    }
}

/// Appends: temperatures.
fn write_thermal(out: &mut Exposition, card: u32, t: &ChipTelemetry)
    ensures
        final(out)@ =~= old(out)@ + thermal_lines(card, *t),
{
    broadcast use concat_assoc;

    write_chip_gauge(
        out,
        CHIP_ASIC_TEMPERATURE_MILLICELSIUS,
        CHIP_ASIC_TEMPERATURE_MILLICELSIUS_HELP,
        card,
        t.asic_temperature_mc as i64,
    );
    write_chip_gauge(
        out,
        CHIP_VREG_TEMPERATURE_MILLICELSIUS,
        CHIP_VREG_TEMPERATURE_MILLICELSIUS_HELP,
        card,
        t.vreg_temperature_mc as i64,
    );
    write_chip_gauge(
        out,
        CHIP_BOARD_TEMPERATURE_MILLICELSIUS,
        CHIP_BOARD_TEMPERATURE_MILLICELSIUS_HELP,
        card,
        t.board_temperature_mc as i64,
    );
    write_chip_gauge(
        out,
        CHIP_MAX_GDDR_TEMPERATURE_CELSIUS,
        CHIP_MAX_GDDR_TEMPERATURE_CELSIUS_HELP,
        card,
        t.max_gddr_temperature_c as i64,
    );
    let texts: [String; 4] = [
        signed_text(t.gddr_temperature_c[0] as i64),
        signed_text(t.gddr_temperature_c[1] as i64),
        signed_text(t.gddr_temperature_c[2] as i64),
        signed_text(t.gddr_temperature_c[3] as i64),
    ];
    assert(texts@.map(|i: int, v: String| v@) =~= t.gddr_temperature_c@.map(|i: int, n: i32| signed_dec(n as int)));
    write_pairs(out, CHIP_GDDR_TEMPERATURE_CELSIUS, CHIP_GDDR_TEMPERATURE_CELSIUS_HELP, MetricKind::Gauge, card, &texts);
}

/// Appends: memory errors.
fn write_ecc(out: &mut Exposition, card: u32, t: &ChipTelemetry)
    ensures
        final(out)@ =~= old(out)@ + ecc_lines(card, *t),
{
    broadcast use concat_assoc;

    let texts: [String; 4] = [
        dec_text(t.gddr_corr_errs[0] as u64),
        dec_text(t.gddr_corr_errs[1] as u64),
        dec_text(t.gddr_corr_errs[2] as u64),
        dec_text(t.gddr_corr_errs[3] as u64),
    ];
    assert(texts@.map(|i: int, v: String| v@) =~= t.gddr_corr_errs@.map(|i: int, n: u32| dec(n as nat)));
    write_pairs(out, CHIP_GDDR_CORR_ERRORS_TOTAL, CHIP_GDDR_CORR_ERRORS_TOTAL_HELP, MetricKind::Counter, card, &texts);
    write_chip_counter(
        out,
        CHIP_GDDR_UNCORR_ERRORS_TOTAL,
        CHIP_GDDR_UNCORR_ERRORS_TOTAL_HELP,
        card,
        t.gddr_uncorr_errs as u64,
    );
}

/// Appends: clocks.
fn write_clock(out: &mut Exposition, card: u32, t: &ChipTelemetry)
    ensures
        final(out)@ =~= old(out)@ + clock_lines(card, *t),
{
    broadcast use concat_assoc;

    write_chip_gauge(out, CHIP_AICLK_MHZ, CHIP_AICLK_MHZ_HELP, card, t.aiclk_mhz as i64);
    write_chip_gauge(out, CHIP_AXICLK_MHZ, CHIP_AXICLK_MHZ_HELP, card, t.axiclk_mhz as i64);
    write_chip_gauge(out, CHIP_ARCCLK_MHZ, CHIP_ARCCLK_MHZ_HELP, card, t.arcclk_mhz as i64);
    write_chip_gauge(
        out,
        CHIP_AICLK_LIMIT_MAX_MHZ,
        CHIP_AICLK_LIMIT_MAX_MHZ_HELP,
        card,
        t.aiclk_limit_max_mhz as i64,
    );
    let texts: [String; 4] = [
        dec_text(t.l2cpuclk_mhz[0] as u64),
        dec_text(t.l2cpuclk_mhz[1] as u64),
        dec_text(t.l2cpuclk_mhz[2] as u64),
        dec_text(t.l2cpuclk_mhz[3] as u64),
    ];
    assert(texts@.map(|i: int, v: String| v@) =~= t.l2cpuclk_mhz@.map(|i: int, n: u32| dec(n as nat)));
    write_card_lanes(out, CHIP_L2CPUCLK_MHZ, CHIP_L2CPUCLK_MHZ_HELP, card, &texts);
}

/// Appends: power, current and voltage.
fn write_power(out: &mut Exposition, card: u32, t: &ChipTelemetry)
    ensures
        final(out)@ =~= old(out)@ + power_lines(card, *t),
{
    broadcast use concat_assoc;

    write_chip_gauge(out, CHIP_TDP_WATTS, CHIP_TDP_WATTS_HELP, card, t.tdp_w as i64);
    write_chip_gauge(out, CHIP_TDC_AMPS, CHIP_TDC_AMPS_HELP, card, t.tdc_a as i64);
    write_chip_gauge(
        out,
        CHIP_INPUT_POWER_WATTS,
        CHIP_INPUT_POWER_WATTS_HELP,
        card,
        t.input_power_w as i64,
    );
    write_chip_gauge(
        out,
        CHIP_VCORE_MILLIVOLTS,
        CHIP_VCORE_MILLIVOLTS_HELP,
        card,
        t.vcore_mv as i64,
    );
    write_chip_gauge(
        out,
        CHIP_VDD_MIN_MILLIVOLTS,
        CHIP_VDD_MIN_MILLIVOLTS_HELP,
        card,
        t.vdd_min_mv as i64,
    );
    write_chip_gauge(
        out,
        CHIP_VDD_MAX_MILLIVOLTS,
        CHIP_VDD_MAX_MILLIVOLTS_HELP,
        card,
        t.vdd_max_mv as i64,
    );
}

/// Appends: limits on power, current and heat.
fn write_limit(out: &mut Exposition, card: u32, t: &ChipTelemetry)
    ensures
        final(out)@ =~= old(out)@ + limit_lines(card, *t),
{
    broadcast use concat_assoc;

    write_chip_gauge(
        out,
        CHIP_TDP_LIMIT_MAX_WATTS,
        CHIP_TDP_LIMIT_MAX_WATTS_HELP,
        card,
        t.tdp_limit_max_w as i64,
    );
    write_chip_gauge(
        out,
        CHIP_TDC_LIMIT_MAX_AMPS,
        CHIP_TDC_LIMIT_MAX_AMPS_HELP,
        card,
        t.tdc_limit_max_a as i64,
    );
    write_chip_gauge(
        out,
        CHIP_BOARD_POWER_LIMIT_WATTS,
        CHIP_BOARD_POWER_LIMIT_WATTS_HELP,
        card,
        t.board_power_limit_w as i64,
    );
    write_chip_gauge(
        out,
        CHIP_THM_LIMIT_THROTTLE_CELSIUS,
        CHIP_THM_LIMIT_THROTTLE_CELSIUS_HELP,
        card,
        t.thm_limit_throttle_c as i64,
    );
}

/// Appends: cooling, memory training, firmware health and links.
fn write_board(out: &mut Exposition, card: u32, t: &ChipTelemetry)
    ensures
        final(out)@ =~= old(out)@ + board_lines(card, *t),
{
    broadcast use concat_assoc;

    write_chip_gauge(out, CHIP_FAN_PCT, CHIP_FAN_PCT_HELP, card, t.fan_speed_pct as i64);
    write_chip_gauge(out, CHIP_FAN_RPM, CHIP_FAN_RPM_HELP, card, t.fan_rpm as i64);
    write_chip_gauge(out, CHIP_DDR_STATUS, CHIP_DDR_STATUS_HELP, card, t.ddr_status as i64);
    write_chip_gauge(
        out,
        CHIP_DDR_SPEED_MTS,
        CHIP_DDR_SPEED_MTS_HELP,
        card,
        t.ddr_speed_mts as i64,
    );
    write_chip_counter(
        out,
        CHIP_ARC_HEARTBEAT_TOTAL,
        CHIP_ARC_HEARTBEAT_TOTAL_HELP,
        card,
        t.timer_heartbeat as u64,
    );
    write_chip_counter(
        out,
        CHIP_THERM_TRIP_TOTAL,
        CHIP_THERM_TRIP_TOTAL_HELP,
        card,
        t.therm_trip_count as u64,
    );
    write_chip_gauge(
        out,
        CHIP_ETH_LIVE_STATUS,
        CHIP_ETH_LIVE_STATUS_HELP,
        card,
        t.eth_live_status as i64,
    );
}

/// Appends what the management firmware published, where it has published anything.
pub fn render_chip_telemetry(out: &mut Exposition, s: &ScrapeState)
    ensures
        final(out)@ =~= old(out)@ + chip_lines(*s),
{
    broadcast use concat_assoc;

    reveal(chip_lines);
    match &s.telemetry {
        Some(t) => {
            let card: u32 = s.card;
            write_card_info(out, card, t);
            write_thermal(out, card, t);
            write_ecc(out, card, t);
            write_clock(out, card, t);
            write_power(out, card, t);
            write_limit(out, card, t);
            write_board(out, card, t);
        },
        None => {},
    }
}

/// Renders the metric set as Prometheus text.
pub fn render_prometheus(m: &Metrics, s: &ScrapeState) -> (body: String)
    ensures
        body@ == lines_text(prometheus_lines(*m, *s)),
{
    broadcast use concat_assoc;

    let mut out: Exposition = Exposition::new();
    write_daemon(&mut out, m, s);
    write_l2cpus(&mut out, m);
    write_blk(&mut out, m);
    write_net(&mut out, m);
    write_polls(&mut out, m, s);
    write_rings(&mut out, m);
    write_slots(&mut out, s);
    render_chip_telemetry(&mut out, s);
    assert(Seq::<Line>::empty() + prometheus_lines(*m, *s) =~= prometheus_lines(*m, *s));
    out.into_text()
}

} // verus!
