//! How each metric is introduced.
use vstd::prelude::*;

#[allow(unused_imports)]
use crate::daemon::counters::RpcMethodCounter;
#[allow(unused_imports)]
use crate::daemon::exposition::{each, head, Line, MetricKind};
#[allow(unused_imports)]
use crate::daemon::metric_names::{
    BLK_BYTES_TOTAL, BLK_BYTES_TOTAL_HELP, BLK_ERRORS_TOTAL, BLK_ERRORS_TOTAL_HELP,
    BLK_INTERRUPTS_TOTAL, BLK_INTERRUPTS_TOTAL_HELP, BLK_REQUESTS_TOTAL, BLK_REQUESTS_TOTAL_HELP,
    BRISC_OLD_SEL_RESCUE_TOTAL, BRISC_OLD_SEL_RESCUE_TOTAL_HELP, CARD_INFO, CARD_INFO_HELP,
    CHIP_AICLK_LIMIT_MAX_MHZ, CHIP_AICLK_LIMIT_MAX_MHZ_HELP, CHIP_AICLK_MHZ, CHIP_AICLK_MHZ_HELP,
    CHIP_ARCCLK_MHZ, CHIP_ARCCLK_MHZ_HELP, CHIP_ARC_HEARTBEAT_TOTAL, CHIP_ARC_HEARTBEAT_TOTAL_HELP,
    CHIP_ASIC_TEMPERATURE_MILLICELSIUS, CHIP_ASIC_TEMPERATURE_MILLICELSIUS_HELP, CHIP_AXICLK_MHZ,
    CHIP_AXICLK_MHZ_HELP, CHIP_BOARD_POWER_LIMIT_WATTS, CHIP_BOARD_POWER_LIMIT_WATTS_HELP,
    CHIP_BOARD_TEMPERATURE_MILLICELSIUS, CHIP_BOARD_TEMPERATURE_MILLICELSIUS_HELP,
    CHIP_DDR_SPEED_MTS, CHIP_DDR_SPEED_MTS_HELP, CHIP_DDR_STATUS, CHIP_DDR_STATUS_HELP,
    CHIP_ETH_LIVE_STATUS, CHIP_ETH_LIVE_STATUS_HELP, CHIP_FAN_PCT, CHIP_FAN_PCT_HELP, CHIP_FAN_RPM,
    CHIP_FAN_RPM_HELP, CHIP_GDDR_CORR_ERRORS_TOTAL, CHIP_GDDR_CORR_ERRORS_TOTAL_HELP,
    CHIP_GDDR_TEMPERATURE_CELSIUS, CHIP_GDDR_TEMPERATURE_CELSIUS_HELP,
    CHIP_GDDR_UNCORR_ERRORS_TOTAL, CHIP_GDDR_UNCORR_ERRORS_TOTAL_HELP, CHIP_INPUT_POWER_WATTS,
    CHIP_INPUT_POWER_WATTS_HELP, CHIP_L2CPUCLK_MHZ, CHIP_L2CPUCLK_MHZ_HELP,
    CHIP_MAX_GDDR_TEMPERATURE_CELSIUS, CHIP_MAX_GDDR_TEMPERATURE_CELSIUS_HELP, CHIP_TDC_AMPS,
    CHIP_TDC_AMPS_HELP, CHIP_TDC_LIMIT_MAX_AMPS, CHIP_TDC_LIMIT_MAX_AMPS_HELP,
    CHIP_TDP_LIMIT_MAX_WATTS, CHIP_TDP_LIMIT_MAX_WATTS_HELP, CHIP_TDP_WATTS, CHIP_TDP_WATTS_HELP,
    CHIP_THERM_TRIP_TOTAL, CHIP_THERM_TRIP_TOTAL_HELP, CHIP_THM_LIMIT_THROTTLE_CELSIUS,
    CHIP_THM_LIMIT_THROTTLE_CELSIUS_HELP, CHIP_VCORE_MILLIVOLTS, CHIP_VCORE_MILLIVOLTS_HELP,
    CHIP_VDD_MAX_MILLIVOLTS, CHIP_VDD_MAX_MILLIVOLTS_HELP, CHIP_VDD_MIN_MILLIVOLTS,
    CHIP_VDD_MIN_MILLIVOLTS_HELP, CHIP_VREG_TEMPERATURE_MILLICELSIUS,
    CHIP_VREG_TEMPERATURE_MILLICELSIUS_HELP, DAEMON_CLIENTS_ACTIVE, DAEMON_CLIENTS_ACTIVE_HELP,
    DAEMON_CLIENTS_TOTAL, DAEMON_CLIENTS_TOTAL_HELP, DAEMON_RPC_ERRORS_TOTAL,
    DAEMON_RPC_ERRORS_TOTAL_HELP, DAEMON_RPC_TOTAL, DAEMON_RPC_TOTAL_HELP, DAEMON_SANDBOX_STATUS,
    DAEMON_SANDBOX_STATUS_HELP, DAEMON_UPTIME_SECONDS, DAEMON_UPTIME_SECONDS_HELP, KICK_DROPS_TOTAL,
    KICK_DROPS_TOTAL_HELP, KICK_RESCUED_TOTAL, KICK_RESCUED_TOTAL_HELP, KICK_RING_CURRENT_GAP,
    KICK_RING_CURRENT_GAP_HELP, KICK_RING_HIGH_WATER, KICK_RING_HIGH_WATER_HELP,
    KICK_THROTTLE_ENGAGED, KICK_THROTTLE_ENGAGED_HELP, KICK_THROTTLE_TRANSITIONS_TOTAL,
    KICK_THROTTLE_TRANSITIONS_TOTAL_HELP, L2CPU_BOOT_TOTAL, L2CPU_BOOT_TOTAL_HELP,
    L2CPU_CONSOLE_BYTES_TOTAL, L2CPU_CONSOLE_BYTES_TOTAL_HELP, L2CPU_CONSOLE_CLIENTS,
    L2CPU_CONSOLE_CLIENTS_HELP, L2CPU_DISKS, L2CPU_DISKS_HELP, L2CPU_NET, L2CPU_NET_HELP,
    L2CPU_RUNNING, L2CPU_RUNNING_HELP, L2CPU_UPTIME_SECONDS, L2CPU_UPTIME_SECONDS_HELP,
    NET_BYTES_TOTAL, NET_BYTES_TOTAL_HELP, NET_INTERRUPTS_TOTAL, NET_INTERRUPTS_TOTAL_HELP,
    NET_PACKETS_TOTAL, NET_PACKETS_TOTAL_HELP, SEL_READY_RACES_TOTAL, SEL_READY_RACES_TOTAL_HELP,
    UART_FEED_DROPS_TOTAL, UART_FEED_DROPS_TOTAL_HELP, WORKER_POLL_ITERATIONS_TOTAL,
    WORKER_POLL_ITERATIONS_TOTAL_HELP, WORKER_TIER_SECONDS_TOTAL, WORKER_TIER_SECONDS_TOTAL_HELP,
};
#[allow(unused_imports)]
use crate::daemon::metrics::{
    blk_lines, board_lines, card_info_lines, card_label, card_labels, card_lane_lines,
    chip_counter_lines, chip_gauge_lines, chip_lines, clock_lines, counter_lines, daemon_lines,
    dec_row, ecc_lines, gauge_lines, idx_label, iteration_texts, l2cpu_lines, lane_block,
    lane_lines, limit_lines, method_block, method_lines, net_lines, pair_label, pair_lines,
    poll_lines, power_lines, prometheus_lines, ring_lines, seconds_texts, signed_row, slot_block,
    slot_lines, split_block, split_lines, telemetry_lines, thermal_lines, worker_lines,
    worker_sample, ChipTelemetry, Metrics, ScrapeState,
};
#[allow(unused_imports)]
use crate::text::{dec, signed_dec};

verus! {

/// The lines that are no samples, in their order.
pub open spec fn headings(lines: Seq<Line>) -> Seq<Line>
    decreases lines.len(),
{
    if lines.len() == 0 {
        Seq::empty()
    } else if lines.last() is Sample {
        headings(lines.drop_last())
    } else {
        headings(lines.drop_last()).push(lines.last())
    }
}

spec fn only_samples(lines: Seq<Line>) -> bool {
    forall|i: int| 0 <= i < lines.len() ==> (#[trigger] lines[i]) is Sample
}

proof fn lemma_only_samples(lines: Seq<Line>)
    requires
        only_samples(lines),
    ensures
        headings(lines) == Seq::<Line>::empty(),
    decreases lines.len(),
{
    if lines.len() > 0 {
        assert(lines.last() == lines[lines.len() - 1]);
        assert forall|i: int| 0 <= i < lines.drop_last().len() implies (
        #[trigger] lines.drop_last()[i]) is Sample by {
            assert(lines[i] is Sample);
        }
        lemma_only_samples(lines.drop_last());
    }
}

proof fn lemma_concat(a: Seq<Line>, b: Seq<Line>)
    ensures
        headings(a + b) == headings(a) + headings(b),
    decreases b.len(),
{
    if b.len() == 0 {
        assert(a + b =~= a);
    } else {
        assert((a + b).drop_last() =~= a + b.drop_last());
        lemma_concat(a, b.drop_last());
    }
}

proof fn lemma_each(n: nat, f: spec_fn(int) -> Seq<Line>)
    requires
        forall|i: int| 0 <= i < n ==> only_samples(#[trigger] f(i)),
    ensures
        only_samples(each(n, f)),
    decreases n,
{
    if n > 0 {
        lemma_each((n - 1) as nat, f);
        let a = each((n - 1) as nat, f);
        let b = f(n - 1);
        assert forall|i: int| 0 <= i < (a + b).len() implies (#[trigger] (a + b)[i]) is Sample by {
            if i < a.len() {
                assert(a[i] is Sample);
            } else {
                assert(b[i - a.len()] is Sample);
            }
        }
    }
}

proof fn lemma_head(name: Seq<char>, help: Seq<char>, kind: MetricKind)
    ensures
        headings(head(name, help, kind)) == head(name, help, kind),
{
    let h = head(name, help, kind);
    reveal_with_fuel(headings, 3);
    assert(h.drop_last() =~= seq![Line::Help(name, help)]);
    assert(h.drop_last().drop_last() =~= Seq::<Line>::empty());
    assert(headings(h) =~= h);
}

proof fn lemma_family(name: Seq<char>, help: Seq<char>, kind: MetricKind, samples: Seq<Line>)
    requires
        only_samples(samples),
    ensures
        headings(head(name, help, kind) + samples) == head(name, help, kind),
{
    lemma_head(name, help, kind);
    lemma_only_samples(samples);
    lemma_concat(head(name, help, kind), samples);
}

proof fn lemma_counter_lines(name: Seq<char>, help: Seq<char>, value: u64)
    ensures
        headings(counter_lines(name, help, value)) == head(name, help, MetricKind::Counter),
{
    let sample = seq![Line::Sample(name, Seq::empty(), dec(value as nat))];
    lemma_family(name, help, MetricKind::Counter, sample);
    assert(counter_lines(name, help, value) =~= head(name, help, MetricKind::Counter) + sample);
}

proof fn lemma_gauge_lines(name: Seq<char>, help: Seq<char>, value: i64)
    ensures
        headings(gauge_lines(name, help, value)) == head(name, help, MetricKind::Gauge),
{
    let sample = seq![Line::Sample(name, Seq::empty(), signed_dec(value as int))];
    lemma_family(name, help, MetricKind::Gauge, sample);
    assert(gauge_lines(name, help, value) =~= head(name, help, MetricKind::Gauge) + sample);
}

proof fn lemma_chip_counter_lines(name: Seq<char>, help: Seq<char>, card: u32, value: u64)
    ensures
        headings(chip_counter_lines(name, help, card, value)) == head(
            name,
            help,
            MetricKind::Counter,
        ),
{
    let sample = seq![Line::Sample(name, seq![card_label(card)], dec(value as nat))];
    lemma_family(name, help, MetricKind::Counter, sample);
    assert(chip_counter_lines(name, help, card, value) =~= head(name, help, MetricKind::Counter)
        + sample);
}

proof fn lemma_chip_gauge_lines(name: Seq<char>, help: Seq<char>, card: u32, value: i64)
    ensures
        headings(chip_gauge_lines(name, help, card, value)) == head(name, help, MetricKind::Gauge),
{
    let sample = seq![Line::Sample(name, seq![card_label(card)], signed_dec(value as int))];
    lemma_family(name, help, MetricKind::Gauge, sample);
    assert(chip_gauge_lines(name, help, card, value) =~= head(name, help, MetricKind::Gauge)
        + sample);
}

proof fn lemma_method_lines(name: Seq<char>, help: Seq<char>, counts: RpcMethodCounter)
    ensures
        headings(method_lines(name, help, counts)) == head(name, help, MetricKind::Counter),
{
    let f = |i: int| method_block(name, counts, i);
    assert forall|i: int| 0 <= i < 11 implies only_samples(#[trigger] f(i)) by {
    }
    lemma_each(11, f);
    lemma_family(name, help, MetricKind::Counter, each(11, f));
}

proof fn lemma_lane_lines(
    name: Seq<char>,
    help: Seq<char>,
    kind: MetricKind,
    disk: bool,
    values: Seq<Seq<char>>,
)
    ensures
        headings(lane_lines(name, help, kind, disk, values)) == head(name, help, kind),
{
    let f = |i: int| lane_block(name, disk, values, i);
    assert forall|i: int| 0 <= i < 4 implies only_samples(#[trigger] f(i)) by {
    }
    lemma_each(4, f);
    lemma_family(name, help, kind, each(4, f));
}

proof fn lemma_split_lines(
    name: Seq<char>,
    help: Seq<char>,
    disk: bool,
    key: Seq<char>,
    first: Seq<char>,
    a: Seq<u64>,
    second: Seq<char>,
    b: Seq<u64>,
)
    ensures
        headings(split_lines(name, help, disk, key, first, a, second, b)) == head(
            name,
            help,
            MetricKind::Counter,
        ),
{
    let f = |i: int| split_block(name, disk, key, first, a, second, b, i);
    assert forall|i: int| 0 <= i < 4 implies only_samples(#[trigger] f(i)) by {
    }
    lemma_each(4, f);
    lemma_family(name, help, MetricKind::Counter, each(4, f));
}

proof fn lemma_worker_lines(
    name: Seq<char>,
    help: Seq<char>,
    value: spec_fn(int, int, int) -> Seq<char>,
)
    ensures
        headings(worker_lines(name, help, value)) == head(name, help, MetricKind::Counter),
{
    let f = |w: int| each(4, |i: int| each(3, |t: int| worker_sample(name, w, i, t, value(w, i, t))));
    assert forall|w: int| 0 <= w < 5 implies only_samples(#[trigger] f(w)) by {
        let g = |i: int| each(3, |t: int| worker_sample(name, w, i, t, value(w, i, t)));
        assert forall|i: int| 0 <= i < 4 implies only_samples(#[trigger] g(i)) by {
            let h = |t: int| worker_sample(name, w, i, t, value(w, i, t));
            assert forall|t: int| 0 <= t < 3 implies only_samples(#[trigger] h(t)) by {
            }
            lemma_each(3, h);
        }
        lemma_each(4, g);
    }
    lemma_each(5, f);
    lemma_family(name, help, MetricKind::Counter, each(5, f));
}

proof fn lemma_pair_lines(
    name: Seq<char>,
    help: Seq<char>,
    kind: MetricKind,
    card: u32,
    values: Seq<Seq<char>>,
)
    ensures
        headings(pair_lines(name, help, kind, card, values)) == head(name, help, kind),
{
    let f = |i: int| seq![Line::Sample(name, seq![card_label(card), pair_label(i)], values[i])];
    assert forall|i: int| 0 <= i < 4 implies only_samples(#[trigger] f(i)) by {
    }
    lemma_each(4, f);
    lemma_family(name, help, kind, each(4, f));
}

proof fn lemma_card_lane_lines(
    name: Seq<char>,
    help: Seq<char>,
    card: u32,
    values: Seq<Seq<char>>,
)
    ensures
        headings(card_lane_lines(name, help, card, values)) == head(name, help, MetricKind::Gauge),
{
    let f = |i: int| seq![Line::Sample(name, seq![card_label(card), idx_label(i)], values[i])];
    assert forall|i: int| 0 <= i < 4 implies only_samples(#[trigger] f(i)) by {
    }
    lemma_each(4, f);
    lemma_family(name, help, MetricKind::Gauge, each(4, f));
}

/// A metric is introduced by what it tells and by its kind.
pub proof fn how_a_metric_is_introduced(name: Seq<char>, help: Seq<char>, kind: MetricKind)
    ensures
        head(name, help, kind).len() == 2,
        head(name, help, kind)[0] == Line::Help(name, help),
        head(name, help, kind)[1] == Line::Kind(name, kind),
{
}

/// The metrics of the daemon, with what they count, and whether they only grow.
pub proof fn what_introduces_the_daemon(m: Metrics, s: ScrapeState)
    ensures
        headings(daemon_lines(m, s)) == head("bhx_daemon_uptime_seconds"@, "Daemon uptime in seconds."@, MetricKind::Gauge)
            + head("bhx_daemon_clients_total"@, "Cumulative count of accepted RPC client connections."@, MetricKind::Counter)
            + head("bhx_daemon_clients_active"@, "Currently-connected RPC clients."@, MetricKind::Gauge)
            + head("bhx_daemon_sandbox_status"@, "Sandbox enforcement: 0=disabled, 1=partial, 2=fully-enforced."@, MetricKind::Gauge)
            + head("bhx_daemon_rpc_total"@, "Cumulative RPC count per method."@, MetricKind::Counter)
            + head("bhx_daemon_rpc_errors_total"@, "RPC failures per method."@, MetricKind::Counter),
{
    reveal(daemon_lines);
    let f0 = gauge_lines(DAEMON_UPTIME_SECONDS@, DAEMON_UPTIME_SECONDS_HELP@, s.uptime_seconds);
    lemma_gauge_lines(DAEMON_UPTIME_SECONDS@, DAEMON_UPTIME_SECONDS_HELP@, s.uptime_seconds);
    let f1 = counter_lines(DAEMON_CLIENTS_TOTAL@, DAEMON_CLIENTS_TOTAL_HELP@, m.daemon_clients_total@);
    lemma_counter_lines(DAEMON_CLIENTS_TOTAL@, DAEMON_CLIENTS_TOTAL_HELP@, m.daemon_clients_total@);
    let f2 = gauge_lines(DAEMON_CLIENTS_ACTIVE@, DAEMON_CLIENTS_ACTIVE_HELP@, m.daemon_clients_active@);
    lemma_gauge_lines(DAEMON_CLIENTS_ACTIVE@, DAEMON_CLIENTS_ACTIVE_HELP@, m.daemon_clients_active@);
    let f3 = gauge_lines(DAEMON_SANDBOX_STATUS@, DAEMON_SANDBOX_STATUS_HELP@, m.daemon_sandbox_status@);
    lemma_gauge_lines(DAEMON_SANDBOX_STATUS@, DAEMON_SANDBOX_STATUS_HELP@, m.daemon_sandbox_status@);
    let f4 = method_lines(DAEMON_RPC_TOTAL@, DAEMON_RPC_TOTAL_HELP@, m.daemon_rpc_total);
    lemma_method_lines(DAEMON_RPC_TOTAL@, DAEMON_RPC_TOTAL_HELP@, m.daemon_rpc_total);
    let f5 = method_lines(DAEMON_RPC_ERRORS_TOTAL@, DAEMON_RPC_ERRORS_TOTAL_HELP@, m.daemon_rpc_errors_total);
    lemma_method_lines(DAEMON_RPC_ERRORS_TOTAL@, DAEMON_RPC_ERRORS_TOTAL_HELP@, m.daemon_rpc_errors_total);
    lemma_concat(f0, f1);
    lemma_concat(f0 + f1, f2);
    lemma_concat(f0 + f1 + f2, f3);
    lemma_concat(f0 + f1 + f2 + f3, f4);
    lemma_concat(f0 + f1 + f2 + f3 + f4, f5);
}

/// The metrics of boots and consoles, with what they count, and whether they only grow.
pub proof fn what_introduces_the_l2cpus(m: Metrics)
    ensures
        headings(l2cpu_lines(m)) == head("bhx_l2cpu_boot_total"@, "Boot count per L2CPU, by kind (cold|warm)."@, MetricKind::Counter)
            + head("bhx_l2cpu_console_clients"@, "Currently-attached console clients per L2CPU."@, MetricKind::Gauge)
            + head("bhx_l2cpu_console_bytes_total"@, "Chip-console byte transfers per L2CPU per direction (g2h = guest-to-host, h2g = host-to-guest)."@, MetricKind::Counter),
{
    reveal(l2cpu_lines);
    let f0 = split_lines( L2CPU_BOOT_TOTAL@, L2CPU_BOOT_TOTAL_HELP@, false, "kind"@, "cold"@, m.l2cpu_boot_cold_total@, "warm"@, m.l2cpu_boot_warm_total@, );
    lemma_split_lines( L2CPU_BOOT_TOTAL@, L2CPU_BOOT_TOTAL_HELP@, false, "kind"@, "cold"@, m.l2cpu_boot_cold_total@, "warm"@, m.l2cpu_boot_warm_total@, );
    let f1 = lane_lines( L2CPU_CONSOLE_CLIENTS@, L2CPU_CONSOLE_CLIENTS_HELP@, MetricKind::Gauge, false, signed_row(m.l2cpu_console_clients@), );
    lemma_lane_lines( L2CPU_CONSOLE_CLIENTS@, L2CPU_CONSOLE_CLIENTS_HELP@, MetricKind::Gauge, false, signed_row(m.l2cpu_console_clients@), );
    let f2 = split_lines( L2CPU_CONSOLE_BYTES_TOTAL@, L2CPU_CONSOLE_BYTES_TOTAL_HELP@, false, "direction"@, "g2h"@, m.l2cpu_console_bytes_total.g2h_counts(), "h2g"@, m.l2cpu_console_bytes_total.h2g_counts(), );
    lemma_split_lines( L2CPU_CONSOLE_BYTES_TOTAL@, L2CPU_CONSOLE_BYTES_TOTAL_HELP@, false, "direction"@, "g2h"@, m.l2cpu_console_bytes_total.g2h_counts(), "h2g"@, m.l2cpu_console_bytes_total.h2g_counts(), );
    lemma_concat(f0, f1);
    lemma_concat(f0 + f1, f2);
}

/// The metrics of disks, with what they count, and whether they only grow.
pub proof fn what_introduces_the_disks(m: Metrics)
    ensures
        headings(blk_lines(m)) == head("bhx_blk_requests_total"@, "Block requests completed per L2CPU per op."@, MetricKind::Counter)
            + head("bhx_blk_bytes_total"@, "Block bytes transferred per L2CPU per op."@, MetricKind::Counter)
            + head("bhx_blk_errors_total"@, "Block-request errors per L2CPU per reason (ioerr=overflowed image size, unsupp=unknown request type)."@, MetricKind::Counter),
{
    reveal(blk_lines);
    let f0 = split_lines( BLK_REQUESTS_TOTAL@, BLK_REQUESTS_TOTAL_HELP@, true, "op"@, "read"@, m.blk_requests_total.read_counts(), "write"@, m.blk_requests_total.write_counts(), );
    lemma_split_lines( BLK_REQUESTS_TOTAL@, BLK_REQUESTS_TOTAL_HELP@, true, "op"@, "read"@, m.blk_requests_total.read_counts(), "write"@, m.blk_requests_total.write_counts(), );
    let f1 = split_lines( BLK_BYTES_TOTAL@, BLK_BYTES_TOTAL_HELP@, true, "op"@, "read"@, m.blk_bytes_total.read_counts(), "write"@, m.blk_bytes_total.write_counts(), );
    lemma_split_lines( BLK_BYTES_TOTAL@, BLK_BYTES_TOTAL_HELP@, true, "op"@, "read"@, m.blk_bytes_total.read_counts(), "write"@, m.blk_bytes_total.write_counts(), );
    let f2 = split_lines( BLK_ERRORS_TOTAL@, BLK_ERRORS_TOTAL_HELP@, true, "reason"@, "ioerr"@, m.blk_errors_total.ioerr_counts(), "unsupp"@, m.blk_errors_total.unsupp_counts(), );
    lemma_split_lines( BLK_ERRORS_TOTAL@, BLK_ERRORS_TOTAL_HELP@, true, "reason"@, "ioerr"@, m.blk_errors_total.ioerr_counts(), "unsupp"@, m.blk_errors_total.unsupp_counts(), );
    lemma_concat(f0, f1);
    lemma_concat(f0 + f1, f2);
}

/// The metrics of networks and interrupts, with what they count, and whether they only grow.
pub proof fn what_introduces_the_network(m: Metrics)
    ensures
        headings(net_lines(m)) == head("bhx_net_packets_total"@, "Net packets per L2CPU per direction (rx=slirp-to-guest, tx=guest-to-slirp)."@, MetricKind::Counter)
            + head("bhx_net_bytes_total"@, "Net bytes per L2CPU per direction."@, MetricKind::Counter)
            + head("bhx_blk_interrupts_total"@, "Block-device PLIC interrupts per L2CPU."@, MetricKind::Counter)
            + head("bhx_net_interrupts_total"@, "Net-device PLIC interrupts per L2CPU."@, MetricKind::Counter),
{
    reveal(net_lines);
    let f0 = split_lines( NET_PACKETS_TOTAL@, NET_PACKETS_TOTAL_HELP@, false, "direction"@, "rx"@, m.net_packets_total.rx_counts(), "tx"@, m.net_packets_total.tx_counts(), );
    lemma_split_lines( NET_PACKETS_TOTAL@, NET_PACKETS_TOTAL_HELP@, false, "direction"@, "rx"@, m.net_packets_total.rx_counts(), "tx"@, m.net_packets_total.tx_counts(), );
    let f1 = split_lines( NET_BYTES_TOTAL@, NET_BYTES_TOTAL_HELP@, false, "direction"@, "rx"@, m.net_bytes_total.rx_counts(), "tx"@, m.net_bytes_total.tx_counts(), );
    lemma_split_lines( NET_BYTES_TOTAL@, NET_BYTES_TOTAL_HELP@, false, "direction"@, "rx"@, m.net_bytes_total.rx_counts(), "tx"@, m.net_bytes_total.tx_counts(), );
    let f2 = lane_lines( BLK_INTERRUPTS_TOTAL@, BLK_INTERRUPTS_TOTAL_HELP@, MetricKind::Counter, true, dec_row(m.blk_interrupts_total@), );
    lemma_lane_lines( BLK_INTERRUPTS_TOTAL@, BLK_INTERRUPTS_TOTAL_HELP@, MetricKind::Counter, true, dec_row(m.blk_interrupts_total@), );
    let f3 = lane_lines( NET_INTERRUPTS_TOTAL@, NET_INTERRUPTS_TOTAL_HELP@, MetricKind::Counter, false, dec_row(m.net_interrupts_total@), );
    lemma_lane_lines( NET_INTERRUPTS_TOTAL@, NET_INTERRUPTS_TOTAL_HELP@, MetricKind::Counter, false, dec_row(m.net_interrupts_total@), );
    lemma_concat(f0, f1);
    lemma_concat(f0 + f1, f2);
    lemma_concat(f0 + f1 + f2, f3);
}

/// The metrics of poll loops, with what they count, and whether they only grow.
pub proof fn what_introduces_the_poll_loops(m: Metrics, s: ScrapeState)
    ensures
        headings(poll_lines(m, s)) == head("bhx_worker_poll_iterations_total"@, "Adaptive-sleep loop iterations per worker per L2CPU per tier (fast=µs, slow=ms, idle=10ms — see #27)."@, MetricKind::Counter)
            + head("bhx_worker_tier_seconds_total"@, "Cumulative seconds spent sleeping in each tier per worker per L2CPU."@, MetricKind::Counter),
{
    reveal(poll_lines);
    let f0 = worker_lines( WORKER_POLL_ITERATIONS_TOTAL@, WORKER_POLL_ITERATIONS_TOTAL_HELP@, iteration_texts(m.worker_poll_iterations_total), );
    lemma_worker_lines( WORKER_POLL_ITERATIONS_TOTAL@, WORKER_POLL_ITERATIONS_TOTAL_HELP@, iteration_texts(m.worker_poll_iterations_total), );
    let f1 = worker_lines( WORKER_TIER_SECONDS_TOTAL@, WORKER_TIER_SECONDS_TOTAL_HELP@, seconds_texts(s.tier_seconds), );
    lemma_worker_lines( WORKER_TIER_SECONDS_TOTAL@, WORKER_TIER_SECONDS_TOTAL_HELP@, seconds_texts(s.tier_seconds), );
    lemma_concat(f0, f1);
}

/// The metrics of rings, with what they count, and whether they only grow.
pub proof fn what_introduces_the_rings(m: Metrics)
    ensures
        headings(ring_lines(m)) == head("bhx_kick_drops_total"@, "Cumulative count of kick_ring_push calls dropped because the ring was full (BRISC backpressure)."@, MetricKind::Counter)
            + head("bhx_kick_ring_high_water"@, "All-time max observed (producer - consumer) gap on the kick ring in this daemon session. Surfaces 'how close are we skirting overflow' even when bhx_kick_drops_total stays at 0 — useful for tuning kick ring size / FAST_SLEEP under heavy I/O loads."@, MetricKind::Gauge)
            + head("bhx_kick_ring_current_gap"@, "Most recent observed (producer - consumer) gap on the kick ring. Pairs with bhx_kick_ring_high_water to distinguish a brief peak from a sustained backlog."@, MetricKind::Gauge)
            + head("bhx_kick_rescued_total"@, "Cumulative count of avail-ring entries the daemon recovered via the post-kick-drop rescan path. A high count paired with bhx_kick_drops_total advancing means the rescue path is doing its job — drops happened but the workload didn't stall on kernel virtio-blk 30s timeouts."@, MetricKind::Counter)
            + head("bhx_kick_throttle_engaged"@, "Whether kick-ring backpressure is currently engaged: 0 = normal, 1 = guest is throttled via VRING_USED_F_NO_NOTIFY set in every active queue's used.flags. Engages at 75% kick-ring fill, releases at 25% (hysteresis)."@, MetricKind::Gauge)
            + head("bhx_kick_throttle_transitions_total"@, "Cumulative count of kick-ring backpressure ENGAGE transitions. A steady stream of transitions means the workload is regularly hitting the high-water threshold; a single transition followed by a long quiet period means it spiked once."@, MetricKind::Counter)
            + head("bhx_sel_ready_races_total"@, "Cumulative count of QUEUE_SEL changes BRISC processed while the previous SEL's QUEUE_READY was still 1 — the race window M7.2 (#71) was designed to close. Non-zero means BRISC's sweep is borderline; a stock guest kernel can read stale QUEUE_READY=1 and bail virtio probe with -ENOENT."@, MetricKind::Counter)
            + head("bhx_brisc_old_sel_rescue_total"@, "Cumulative count of BRISC's OLD-sel rescue captures — the third-and-last layer of the SEL→READY race close. BRISC snapshots the still-visible kernel writes for the previous SEL into shadow when neither the SEL-watch nor handle_queue_ready_change caught the READY=1 in time."@, MetricKind::Counter)
            + head("bhx_uart_feed_drops_total"@, "UART feed-ring drops per L2CPU (TRISC0 producer outpaced the daemon consumer)."@, MetricKind::Counter),
{
    reveal(ring_lines);
    let f0 = counter_lines(KICK_DROPS_TOTAL@, KICK_DROPS_TOTAL_HELP@, m.kick_drops_total@);
    lemma_counter_lines(KICK_DROPS_TOTAL@, KICK_DROPS_TOTAL_HELP@, m.kick_drops_total@);
    let f1 = gauge_lines(KICK_RING_HIGH_WATER@, KICK_RING_HIGH_WATER_HELP@, m.kick_ring_high_water@);
    lemma_gauge_lines(KICK_RING_HIGH_WATER@, KICK_RING_HIGH_WATER_HELP@, m.kick_ring_high_water@);
    let f2 = gauge_lines(KICK_RING_CURRENT_GAP@, KICK_RING_CURRENT_GAP_HELP@, m.kick_ring_current_gap@);
    lemma_gauge_lines(KICK_RING_CURRENT_GAP@, KICK_RING_CURRENT_GAP_HELP@, m.kick_ring_current_gap@);
    let f3 = counter_lines(KICK_RESCUED_TOTAL@, KICK_RESCUED_TOTAL_HELP@, m.kick_rescued_total@);
    lemma_counter_lines(KICK_RESCUED_TOTAL@, KICK_RESCUED_TOTAL_HELP@, m.kick_rescued_total@);
    let f4 = gauge_lines(KICK_THROTTLE_ENGAGED@, KICK_THROTTLE_ENGAGED_HELP@, m.kick_throttle_engaged@);
    lemma_gauge_lines(KICK_THROTTLE_ENGAGED@, KICK_THROTTLE_ENGAGED_HELP@, m.kick_throttle_engaged@);
    let f5 = counter_lines(KICK_THROTTLE_TRANSITIONS_TOTAL@, KICK_THROTTLE_TRANSITIONS_TOTAL_HELP@, m.kick_throttle_transitions_total@);
    lemma_counter_lines(KICK_THROTTLE_TRANSITIONS_TOTAL@, KICK_THROTTLE_TRANSITIONS_TOTAL_HELP@, m.kick_throttle_transitions_total@);
    let f6 = counter_lines(SEL_READY_RACES_TOTAL@, SEL_READY_RACES_TOTAL_HELP@, m.sel_ready_races_total@);
    lemma_counter_lines(SEL_READY_RACES_TOTAL@, SEL_READY_RACES_TOTAL_HELP@, m.sel_ready_races_total@);
    let f7 = counter_lines(BRISC_OLD_SEL_RESCUE_TOTAL@, BRISC_OLD_SEL_RESCUE_TOTAL_HELP@, m.brisc_old_sel_rescue_total@);
    lemma_counter_lines(BRISC_OLD_SEL_RESCUE_TOTAL@, BRISC_OLD_SEL_RESCUE_TOTAL_HELP@, m.brisc_old_sel_rescue_total@);
    let f8 = lane_lines( UART_FEED_DROPS_TOTAL@, UART_FEED_DROPS_TOTAL_HELP@, MetricKind::Counter, false, dec_row(m.uart_feed_drops_total@), );
    lemma_lane_lines( UART_FEED_DROPS_TOTAL@, UART_FEED_DROPS_TOTAL_HELP@, MetricKind::Counter, false, dec_row(m.uart_feed_drops_total@), );
    lemma_concat(f0, f1);
    lemma_concat(f0 + f1, f2);
    lemma_concat(f0 + f1 + f2, f3);
    lemma_concat(f0 + f1 + f2 + f3, f4);
    lemma_concat(f0 + f1 + f2 + f3 + f4, f5);
    lemma_concat(f0 + f1 + f2 + f3 + f4 + f5, f6);
    lemma_concat(f0 + f1 + f2 + f3 + f4 + f5 + f6, f7);
    lemma_concat(f0 + f1 + f2 + f3 + f4 + f5 + f6 + f7, f8);
}

/// The metric of the card, with what it tells; it may go down again.
pub proof fn what_introduces_the_card(card: u32, t: ChipTelemetry)
    ensures
        headings(card_info_lines(card, t)) == head("bhx_card_info"@, "Card / chip identification. Always 1; payload is in the labels."@, MetricKind::Gauge),
{
    let sample = seq![Line::Sample(CARD_INFO@, card_labels(card, t), "1"@)];
    lemma_family(CARD_INFO@, CARD_INFO_HELP@, MetricKind::Gauge, sample);
    assert(card_info_lines(card, t) =~= head(CARD_INFO@, CARD_INFO_HELP@, MetricKind::Gauge) + sample);
}

/// The metrics of temperatures, with what they count, and whether they only grow.
pub proof fn what_introduces_the_temperatures(card: u32, t: ChipTelemetry)
    ensures
        headings(thermal_lines(card, t)) == head("bhx_chip_asic_temperature_millicelsius"@, "ASIC die temperature, millicelsius (decoded from ARC's 16.16 fixed-point)."@, MetricKind::Gauge)
            + head("bhx_chip_vreg_temperature_millicelsius"@, "Voltage-regulator temperature, millicelsius."@, MetricKind::Gauge)
            + head("bhx_chip_board_temperature_millicelsius"@, "Board ambient temperature, millicelsius."@, MetricKind::Gauge)
            + head("bhx_chip_max_gddr_temperature_celsius"@, "Highest observed GDDR channel-pair temperature, °C."@, MetricKind::Gauge)
            + head("bhx_chip_gddr_temperature_celsius"@, "Per-channel-pair GDDR temperature, °C."@, MetricKind::Gauge),
{
    let f0 = chip_gauge_lines(CHIP_ASIC_TEMPERATURE_MILLICELSIUS@, CHIP_ASIC_TEMPERATURE_MILLICELSIUS_HELP@, card, t.asic_temperature_mc as i64);
    lemma_chip_gauge_lines(CHIP_ASIC_TEMPERATURE_MILLICELSIUS@, CHIP_ASIC_TEMPERATURE_MILLICELSIUS_HELP@, card, t.asic_temperature_mc as i64);
    let f1 = chip_gauge_lines(CHIP_VREG_TEMPERATURE_MILLICELSIUS@, CHIP_VREG_TEMPERATURE_MILLICELSIUS_HELP@, card, t.vreg_temperature_mc as i64);
    lemma_chip_gauge_lines(CHIP_VREG_TEMPERATURE_MILLICELSIUS@, CHIP_VREG_TEMPERATURE_MILLICELSIUS_HELP@, card, t.vreg_temperature_mc as i64);
    let f2 = chip_gauge_lines(CHIP_BOARD_TEMPERATURE_MILLICELSIUS@, CHIP_BOARD_TEMPERATURE_MILLICELSIUS_HELP@, card, t.board_temperature_mc as i64);
    lemma_chip_gauge_lines(CHIP_BOARD_TEMPERATURE_MILLICELSIUS@, CHIP_BOARD_TEMPERATURE_MILLICELSIUS_HELP@, card, t.board_temperature_mc as i64);
    let f3 = chip_gauge_lines(CHIP_MAX_GDDR_TEMPERATURE_CELSIUS@, CHIP_MAX_GDDR_TEMPERATURE_CELSIUS_HELP@, card, t.max_gddr_temperature_c as i64);
    lemma_chip_gauge_lines(CHIP_MAX_GDDR_TEMPERATURE_CELSIUS@, CHIP_MAX_GDDR_TEMPERATURE_CELSIUS_HELP@, card, t.max_gddr_temperature_c as i64);
    let f4 = pair_lines( CHIP_GDDR_TEMPERATURE_CELSIUS@, CHIP_GDDR_TEMPERATURE_CELSIUS_HELP@, MetricKind::Gauge, card, t.gddr_temperature_c@.map(|i: int, n: i32| signed_dec(n as int)), );
    lemma_pair_lines( CHIP_GDDR_TEMPERATURE_CELSIUS@, CHIP_GDDR_TEMPERATURE_CELSIUS_HELP@, MetricKind::Gauge, card, t.gddr_temperature_c@.map(|i: int, n: i32| signed_dec(n as int)), );
    lemma_concat(f0, f1);
    lemma_concat(f0 + f1, f2);
    lemma_concat(f0 + f1 + f2, f3);
    lemma_concat(f0 + f1 + f2 + f3, f4);
}

/// The metrics of memory errors, with what they count, and whether they only grow.
pub proof fn what_introduces_the_memory_errors(card: u32, t: ChipTelemetry)
    ensures
        headings(ecc_lines(card, t)) == head("bhx_chip_gddr_corr_errors_total"@, "Per-channel-pair correctable ECC errors (cumulative)."@, MetricKind::Counter)
            + head("bhx_chip_gddr_uncorr_errors_total"@, "Total uncorrectable ECC errors across all GDDR channels."@, MetricKind::Counter),
{
    let f0 = pair_lines( CHIP_GDDR_CORR_ERRORS_TOTAL@, CHIP_GDDR_CORR_ERRORS_TOTAL_HELP@, MetricKind::Counter, card, t.gddr_corr_errs@.map(|i: int, n: u32| dec(n as nat)), );
    lemma_pair_lines( CHIP_GDDR_CORR_ERRORS_TOTAL@, CHIP_GDDR_CORR_ERRORS_TOTAL_HELP@, MetricKind::Counter, card, t.gddr_corr_errs@.map(|i: int, n: u32| dec(n as nat)), );
    let f1 = chip_counter_lines(CHIP_GDDR_UNCORR_ERRORS_TOTAL@, CHIP_GDDR_UNCORR_ERRORS_TOTAL_HELP@, card, t.gddr_uncorr_errs as u64);
    lemma_chip_counter_lines(CHIP_GDDR_UNCORR_ERRORS_TOTAL@, CHIP_GDDR_UNCORR_ERRORS_TOTAL_HELP@, card, t.gddr_uncorr_errs as u64);
    lemma_concat(f0, f1);
}

/// The metrics of clocks, with what they count, and whether they only grow.
pub proof fn what_introduces_the_clocks(card: u32, t: ChipTelemetry)
    ensures
        headings(clock_lines(card, t)) == head("bhx_chip_aiclk_mhz"@, "AI compute clock, MHz."@, MetricKind::Gauge)
            + head("bhx_chip_axiclk_mhz"@, "AXI fabric clock, MHz."@, MetricKind::Gauge)
            + head("bhx_chip_arcclk_mhz"@, "ARC management clock, MHz."@, MetricKind::Gauge)
            + head("bhx_chip_aiclk_limit_max_mhz"@, "AI clock max-frequency limit, MHz."@, MetricKind::Gauge)
            + head("bhx_chip_l2cpuclk_mhz"@, "Per-L2CPU clock as published by ARC FW, MHz."@, MetricKind::Gauge),
{
    let f0 = chip_gauge_lines(CHIP_AICLK_MHZ@, CHIP_AICLK_MHZ_HELP@, card, t.aiclk_mhz as i64);
    lemma_chip_gauge_lines(CHIP_AICLK_MHZ@, CHIP_AICLK_MHZ_HELP@, card, t.aiclk_mhz as i64);
    let f1 = chip_gauge_lines(CHIP_AXICLK_MHZ@, CHIP_AXICLK_MHZ_HELP@, card, t.axiclk_mhz as i64);
    lemma_chip_gauge_lines(CHIP_AXICLK_MHZ@, CHIP_AXICLK_MHZ_HELP@, card, t.axiclk_mhz as i64);
    let f2 = chip_gauge_lines(CHIP_ARCCLK_MHZ@, CHIP_ARCCLK_MHZ_HELP@, card, t.arcclk_mhz as i64);
    lemma_chip_gauge_lines(CHIP_ARCCLK_MHZ@, CHIP_ARCCLK_MHZ_HELP@, card, t.arcclk_mhz as i64);
    let f3 = chip_gauge_lines(CHIP_AICLK_LIMIT_MAX_MHZ@, CHIP_AICLK_LIMIT_MAX_MHZ_HELP@, card, t.aiclk_limit_max_mhz as i64);
    lemma_chip_gauge_lines(CHIP_AICLK_LIMIT_MAX_MHZ@, CHIP_AICLK_LIMIT_MAX_MHZ_HELP@, card, t.aiclk_limit_max_mhz as i64);
    let f4 = card_lane_lines( CHIP_L2CPUCLK_MHZ@, CHIP_L2CPUCLK_MHZ_HELP@, card, t.l2cpuclk_mhz@.map(|i: int, n: u32| dec(n as nat)), );
    lemma_card_lane_lines( CHIP_L2CPUCLK_MHZ@, CHIP_L2CPUCLK_MHZ_HELP@, card, t.l2cpuclk_mhz@.map(|i: int, n: u32| dec(n as nat)), );
    lemma_concat(f0, f1);
    lemma_concat(f0 + f1, f2);
    lemma_concat(f0 + f1 + f2, f3);
    lemma_concat(f0 + f1 + f2 + f3, f4);
}

/// The metrics of power, with what they count, and whether they only grow.
pub proof fn what_introduces_power(card: u32, t: ChipTelemetry)
    ensures
        headings(power_lines(card, t)) == head("bhx_chip_tdp_watts"@, "Instantaneous power draw, W."@, MetricKind::Gauge)
            + head("bhx_chip_tdc_amps"@, "Instantaneous current draw, A."@, MetricKind::Gauge)
            + head("bhx_chip_input_power_watts"@, "Board input power, W."@, MetricKind::Gauge)
            + head("bhx_chip_vcore_millivolts"@, "Core voltage, mV."@, MetricKind::Gauge)
            + head("bhx_chip_vdd_min_millivolts"@, "VDD operating range minimum, mV."@, MetricKind::Gauge)
            + head("bhx_chip_vdd_max_millivolts"@, "VDD operating range maximum, mV."@, MetricKind::Gauge),
{
    let f0 = chip_gauge_lines(CHIP_TDP_WATTS@, CHIP_TDP_WATTS_HELP@, card, t.tdp_w as i64);
    lemma_chip_gauge_lines(CHIP_TDP_WATTS@, CHIP_TDP_WATTS_HELP@, card, t.tdp_w as i64);
    let f1 = chip_gauge_lines(CHIP_TDC_AMPS@, CHIP_TDC_AMPS_HELP@, card, t.tdc_a as i64);
    lemma_chip_gauge_lines(CHIP_TDC_AMPS@, CHIP_TDC_AMPS_HELP@, card, t.tdc_a as i64);
    let f2 = chip_gauge_lines(CHIP_INPUT_POWER_WATTS@, CHIP_INPUT_POWER_WATTS_HELP@, card, t.input_power_w as i64);
    lemma_chip_gauge_lines(CHIP_INPUT_POWER_WATTS@, CHIP_INPUT_POWER_WATTS_HELP@, card, t.input_power_w as i64);
    let f3 = chip_gauge_lines(CHIP_VCORE_MILLIVOLTS@, CHIP_VCORE_MILLIVOLTS_HELP@, card, t.vcore_mv as i64);
    lemma_chip_gauge_lines(CHIP_VCORE_MILLIVOLTS@, CHIP_VCORE_MILLIVOLTS_HELP@, card, t.vcore_mv as i64);
    let f4 = chip_gauge_lines(CHIP_VDD_MIN_MILLIVOLTS@, CHIP_VDD_MIN_MILLIVOLTS_HELP@, card, t.vdd_min_mv as i64);
    lemma_chip_gauge_lines(CHIP_VDD_MIN_MILLIVOLTS@, CHIP_VDD_MIN_MILLIVOLTS_HELP@, card, t.vdd_min_mv as i64);
    let f5 = chip_gauge_lines(CHIP_VDD_MAX_MILLIVOLTS@, CHIP_VDD_MAX_MILLIVOLTS_HELP@, card, t.vdd_max_mv as i64);
    lemma_chip_gauge_lines(CHIP_VDD_MAX_MILLIVOLTS@, CHIP_VDD_MAX_MILLIVOLTS_HELP@, card, t.vdd_max_mv as i64);
    lemma_concat(f0, f1);
    lemma_concat(f0 + f1, f2);
    lemma_concat(f0 + f1 + f2, f3);
    lemma_concat(f0 + f1 + f2 + f3, f4);
    lemma_concat(f0 + f1 + f2 + f3 + f4, f5);
}

/// The metrics of limits, with what they count, and whether they only grow.
pub proof fn what_introduces_the_limits(card: u32, t: ChipTelemetry)
    ensures
        headings(limit_lines(card, t)) == head("bhx_chip_tdp_limit_max_watts"@, "TDP soft-cap, W."@, MetricKind::Gauge)
            + head("bhx_chip_tdc_limit_max_amps"@, "TDC soft-cap, A."@, MetricKind::Gauge)
            + head("bhx_chip_board_power_limit_watts"@, "Board-level power limit, W."@, MetricKind::Gauge)
            + head("bhx_chip_thm_limit_throttle_celsius"@, "Thermal throttle threshold, °C."@, MetricKind::Gauge),
{
    let f0 = chip_gauge_lines(CHIP_TDP_LIMIT_MAX_WATTS@, CHIP_TDP_LIMIT_MAX_WATTS_HELP@, card, t.tdp_limit_max_w as i64);
    lemma_chip_gauge_lines(CHIP_TDP_LIMIT_MAX_WATTS@, CHIP_TDP_LIMIT_MAX_WATTS_HELP@, card, t.tdp_limit_max_w as i64);
    let f1 = chip_gauge_lines(CHIP_TDC_LIMIT_MAX_AMPS@, CHIP_TDC_LIMIT_MAX_AMPS_HELP@, card, t.tdc_limit_max_a as i64);
    lemma_chip_gauge_lines(CHIP_TDC_LIMIT_MAX_AMPS@, CHIP_TDC_LIMIT_MAX_AMPS_HELP@, card, t.tdc_limit_max_a as i64);
    let f2 = chip_gauge_lines(CHIP_BOARD_POWER_LIMIT_WATTS@, CHIP_BOARD_POWER_LIMIT_WATTS_HELP@, card, t.board_power_limit_w as i64);
    lemma_chip_gauge_lines(CHIP_BOARD_POWER_LIMIT_WATTS@, CHIP_BOARD_POWER_LIMIT_WATTS_HELP@, card, t.board_power_limit_w as i64);
    let f3 = chip_gauge_lines(CHIP_THM_LIMIT_THROTTLE_CELSIUS@, CHIP_THM_LIMIT_THROTTLE_CELSIUS_HELP@, card, t.thm_limit_throttle_c as i64);
    lemma_chip_gauge_lines(CHIP_THM_LIMIT_THROTTLE_CELSIUS@, CHIP_THM_LIMIT_THROTTLE_CELSIUS_HELP@, card, t.thm_limit_throttle_c as i64);
    lemma_concat(f0, f1);
    lemma_concat(f0 + f1, f2);
    lemma_concat(f0 + f1 + f2, f3);
}

/// The metrics of the board, with what they count, and whether they only grow.
pub proof fn what_introduces_the_board(card: u32, t: ChipTelemetry)
    ensures
        headings(board_lines(card, t)) == head("bhx_chip_fan_pct"@, "Fan duty cycle, %."@, MetricKind::Gauge)
            + head("bhx_chip_fan_rpm"@, "Fan rotational speed, RPM."@, MetricKind::Gauge)
            + head("bhx_chip_ddr_status"@, "DRAM training status bitfield."@, MetricKind::Gauge)
            + head("bhx_chip_ddr_speed_mts"@, "DRAM trained speed grade, MT/s."@, MetricKind::Gauge)
            + head("bhx_chip_arc_heartbeat_total"@, "ARC firmware heartbeat. Should advance on every poll. If it stalls, ARC FW has hung."@, MetricKind::Counter)
            + head("bhx_chip_therm_trip_total"@, "Thermal-trip events on this chip. Hardware shut clocks down to recover."@, MetricKind::Counter)
            + head("bhx_chip_eth_live_status"@, "Ethernet tile liveness bitfield (per-tile)."@, MetricKind::Gauge),
{
    let f0 = chip_gauge_lines(CHIP_FAN_PCT@, CHIP_FAN_PCT_HELP@, card, t.fan_speed_pct as i64);
    lemma_chip_gauge_lines(CHIP_FAN_PCT@, CHIP_FAN_PCT_HELP@, card, t.fan_speed_pct as i64);
    let f1 = chip_gauge_lines(CHIP_FAN_RPM@, CHIP_FAN_RPM_HELP@, card, t.fan_rpm as i64);
    lemma_chip_gauge_lines(CHIP_FAN_RPM@, CHIP_FAN_RPM_HELP@, card, t.fan_rpm as i64);
    let f2 = chip_gauge_lines(CHIP_DDR_STATUS@, CHIP_DDR_STATUS_HELP@, card, t.ddr_status as i64);
    lemma_chip_gauge_lines(CHIP_DDR_STATUS@, CHIP_DDR_STATUS_HELP@, card, t.ddr_status as i64);
    let f3 = chip_gauge_lines(CHIP_DDR_SPEED_MTS@, CHIP_DDR_SPEED_MTS_HELP@, card, t.ddr_speed_mts as i64);
    lemma_chip_gauge_lines(CHIP_DDR_SPEED_MTS@, CHIP_DDR_SPEED_MTS_HELP@, card, t.ddr_speed_mts as i64);
    let f4 = chip_counter_lines(CHIP_ARC_HEARTBEAT_TOTAL@, CHIP_ARC_HEARTBEAT_TOTAL_HELP@, card, t.timer_heartbeat as u64);
    lemma_chip_counter_lines(CHIP_ARC_HEARTBEAT_TOTAL@, CHIP_ARC_HEARTBEAT_TOTAL_HELP@, card, t.timer_heartbeat as u64);
    let f5 = chip_counter_lines(CHIP_THERM_TRIP_TOTAL@, CHIP_THERM_TRIP_TOTAL_HELP@, card, t.therm_trip_count as u64);
    lemma_chip_counter_lines(CHIP_THERM_TRIP_TOTAL@, CHIP_THERM_TRIP_TOTAL_HELP@, card, t.therm_trip_count as u64);
    let f6 = chip_gauge_lines(CHIP_ETH_LIVE_STATUS@, CHIP_ETH_LIVE_STATUS_HELP@, card, t.eth_live_status as i64);
    lemma_chip_gauge_lines(CHIP_ETH_LIVE_STATUS@, CHIP_ETH_LIVE_STATUS_HELP@, card, t.eth_live_status as i64);
    lemma_concat(f0, f1);
    lemma_concat(f0 + f1, f2);
    lemma_concat(f0 + f1 + f2, f3);
    lemma_concat(f0 + f1 + f2 + f3, f4);
    lemma_concat(f0 + f1 + f2 + f3 + f4, f5);
    lemma_concat(f0 + f1 + f2 + f3 + f4 + f5, f6);
}

/// The metrics of slots, with what they tell; they may go down again.
pub proof fn what_introduces_the_slots(s: ScrapeState)
    ensures
        headings(slot_lines(s)) == head("bhx_l2cpu_running"@, "1 if a slot is installed for this L2CPU, else 0."@, MetricKind::Gauge)
            + head("bhx_l2cpu_uptime_seconds"@, "Seconds since slot installation. Absent for L2CPUs without an installed slot."@, MetricKind::Gauge)
            + head("bhx_l2cpu_disks"@, "Attached disk-worker count per L2CPU."@, MetricKind::Gauge)
            + head("bhx_l2cpu_net"@, "Net-worker presence per L2CPU (0 or 1)."@, MetricKind::Gauge),
{
    reveal(slot_lines);
    let f0 = head(L2CPU_RUNNING@, L2CPU_RUNNING_HELP@, MetricKind::Gauge);
    lemma_head(L2CPU_RUNNING@, L2CPU_RUNNING_HELP@, MetricKind::Gauge);
    let f1 = head(L2CPU_UPTIME_SECONDS@, L2CPU_UPTIME_SECONDS_HELP@, MetricKind::Gauge);
    lemma_head(L2CPU_UPTIME_SECONDS@, L2CPU_UPTIME_SECONDS_HELP@, MetricKind::Gauge);
    let f2 = head(L2CPU_DISKS@, L2CPU_DISKS_HELP@, MetricKind::Gauge);
    lemma_head(L2CPU_DISKS@, L2CPU_DISKS_HELP@, MetricKind::Gauge);
    let f3 = head(L2CPU_NET@, L2CPU_NET_HELP@, MetricKind::Gauge);
    lemma_head(L2CPU_NET@, L2CPU_NET_HELP@, MetricKind::Gauge);
    let f = |i: int| slot_block(s.slots@[i], i);
    assert forall|i: int| 0 <= i < 4 implies only_samples(#[trigger] f(i)) by {
    }
    lemma_each(4, f);
    lemma_only_samples(each(4, f));
    lemma_concat(f0, f1);
    lemma_concat(f0 + f1, f2);
    lemma_concat(f0 + f1 + f2, f3);
    lemma_concat(f0 + f1 + f2 + f3, each(4, f));
    assert(headings(slot_lines(s)) =~= f0 + f1 + f2 + f3);
}

/// The page introduces its metrics group by group; those of the chip are left out where nothing is
/// known of it.
pub proof fn what_introduces_the_page(m: Metrics, s: ScrapeState)
    ensures
        headings(prometheus_lines(m, s)) == headings(daemon_lines(m, s)) + headings(l2cpu_lines(m))
            + headings(blk_lines(m)) + headings(net_lines(m)) + headings(poll_lines(m, s))
            + headings(ring_lines(m)) + headings(slot_lines(s)) + headings(chip_lines(s)),
        s.telemetry is None ==> headings(chip_lines(s)).len() == 0,
        s.telemetry matches Some(t) ==> headings(chip_lines(s)) == headings(
            card_info_lines(s.card, t),
        ) + headings(thermal_lines(s.card, t)) + headings(ecc_lines(s.card, t)) + headings(
            clock_lines(s.card, t),
        ) + headings(power_lines(s.card, t)) + headings(limit_lines(s.card, t)) + headings(
            board_lines(s.card, t),
        ),
{
    reveal(chip_lines);
    lemma_page(m, s);
    match s.telemetry {
        Some(t) => lemma_telemetry(s.card, t),
        None => {},
    }
}

proof fn lemma_page(m: Metrics, s: ScrapeState)
    ensures
        headings(prometheus_lines(m, s)) == headings(daemon_lines(m, s)) + headings(l2cpu_lines(m))
            + headings(blk_lines(m)) + headings(net_lines(m)) + headings(poll_lines(m, s))
            + headings(ring_lines(m)) + headings(slot_lines(s)) + headings(chip_lines(s)),
{
    let a = daemon_lines(m, s);
    lemma_concat(a, l2cpu_lines(m));
    let a = a + l2cpu_lines(m);
    lemma_concat(a, blk_lines(m));
    let a = a + blk_lines(m);
    lemma_concat(a, net_lines(m));
    let a = a + net_lines(m);
    lemma_concat(a, poll_lines(m, s));
    let a = a + poll_lines(m, s);
    lemma_concat(a, ring_lines(m));
    let a = a + ring_lines(m);
    lemma_concat(a, slot_lines(s));
    let a = a + slot_lines(s);
    lemma_concat(a, chip_lines(s));
}

proof fn lemma_telemetry(card: u32, t: ChipTelemetry)
    ensures
        headings(telemetry_lines(card, t)) == headings(card_info_lines(card, t)) + headings(
            thermal_lines(card, t),
        ) + headings(ecc_lines(card, t)) + headings(clock_lines(card, t)) + headings(
            power_lines(card, t),
        ) + headings(limit_lines(card, t)) + headings(board_lines(card, t)),
{
    let a = card_info_lines(card, t);
    lemma_concat(a, thermal_lines(card, t));
    let a = a + thermal_lines(card, t);
    lemma_concat(a, ecc_lines(card, t));
    let a = a + ecc_lines(card, t);
    lemma_concat(a, clock_lines(card, t));
    let a = a + clock_lines(card, t);
    lemma_concat(a, power_lines(card, t));
    let a = a + power_lines(card, t);
    lemma_concat(a, limit_lines(card, t));
    let a = a + limit_lines(card, t);
    lemma_concat(a, board_lines(card, t));
}

} // verus!
