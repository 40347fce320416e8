//! What every exposition says of each metric: the counter that it is named after, and nothing else.
use vstd::prelude::*;

#[allow(unused_imports)]
use crate::daemon::counters::{RpcMethod, RpcMethodCounter, Tier, WorkerKind, WorkerTierCounter};
#[allow(unused_imports)]
use crate::daemon::exposition::{each, head, line_name, Label, Line, MetricKind};
#[allow(unused_imports)]
use crate::daemon::metric_laws::{metric_names, metric_names_are_distinct};
#[allow(unused_imports)]
use crate::daemon::metric_names::{
    BLK_BYTES_TOTAL, BLK_BYTES_TOTAL_HELP, BLK_ERRORS_TOTAL, BLK_ERRORS_TOTAL_HELP,
    BLK_INTERRUPTS_TOTAL, BLK_INTERRUPTS_TOTAL_HELP, BLK_REQUESTS_TOTAL, BLK_REQUESTS_TOTAL_HELP,
    BRISC_OLD_SEL_RESCUE_TOTAL, BRISC_OLD_SEL_RESCUE_TOTAL_HELP, CARD_INFO_HELP,
    CHIP_AICLK_LIMIT_MAX_MHZ, CHIP_AICLK_LIMIT_MAX_MHZ_HELP, CHIP_AICLK_MHZ, CHIP_AICLK_MHZ_HELP,
    CHIP_ARCCLK_MHZ, CHIP_ARCCLK_MHZ_HELP, CHIP_ARC_HEARTBEAT_TOTAL, CHIP_ARC_HEARTBEAT_TOTAL_HELP,
    CHIP_ASIC_TEMPERATURE_MILLICELSIUS, CHIP_ASIC_TEMPERATURE_MILLICELSIUS_HELP, CHIP_AXICLK_MHZ,
    CHIP_AXICLK_MHZ_HELP, CHIP_BOARD_POWER_LIMIT_WATTS, CHIP_BOARD_POWER_LIMIT_WATTS_HELP,
    CHIP_BOARD_TEMPERATURE_MILLICELSIUS, CHIP_BOARD_TEMPERATURE_MILLICELSIUS_HELP,
    CHIP_DDR_SPEED_MTS, CHIP_DDR_SPEED_MTS_HELP, CHIP_DDR_STATUS, CHIP_DDR_STATUS_HELP,
    CHIP_ETH_LIVE_STATUS, CHIP_ETH_LIVE_STATUS_HELP, CHIP_FAN_PCT, CHIP_FAN_PCT_HELP, CHIP_FAN_RPM,
    CHIP_FAN_RPM_HELP, CHIP_GDDR_CORR_ERRORS_TOTAL, CHIP_GDDR_CORR_ERRORS_TOTAL_HELP,
    CHIP_GDDR_TEMPERATURE_CELSIUS, CHIP_GDDR_TEMPERATURE_CELSIUS_HELP,
    CHIP_GDDR_UNCORR_ERRORS_TOTAL, CHIP_GDDR_UNCORR_ERRORS_TOTAL_HELP, CHIP_INPUT_POWER_WATTS,
    CHIP_INPUT_POWER_WATTS_HELP, CHIP_L2CPUCLK_MHZ, CHIP_L2CPUCLK_MHZ_HELP,
    CHIP_MAX_GDDR_TEMPERATURE_CELSIUS, CHIP_MAX_GDDR_TEMPERATURE_CELSIUS_HELP, CHIP_TDC_AMPS,
    CHIP_TDC_AMPS_HELP, CHIP_TDC_LIMIT_MAX_AMPS, CHIP_TDC_LIMIT_MAX_AMPS_HELP,
    CHIP_TDP_LIMIT_MAX_WATTS, CHIP_TDP_LIMIT_MAX_WATTS_HELP, CHIP_TDP_WATTS, CHIP_TDP_WATTS_HELP,
    CHIP_THERM_TRIP_TOTAL, CHIP_THERM_TRIP_TOTAL_HELP, CHIP_THM_LIMIT_THROTTLE_CELSIUS,
    CHIP_THM_LIMIT_THROTTLE_CELSIUS_HELP, CHIP_VCORE_MILLIVOLTS, CHIP_VCORE_MILLIVOLTS_HELP,
    CHIP_VDD_MAX_MILLIVOLTS, CHIP_VDD_MAX_MILLIVOLTS_HELP, CHIP_VDD_MIN_MILLIVOLTS,
    CHIP_VDD_MIN_MILLIVOLTS_HELP, CHIP_VREG_TEMPERATURE_MILLICELSIUS,
    CHIP_VREG_TEMPERATURE_MILLICELSIUS_HELP, DAEMON_CLIENTS_ACTIVE, DAEMON_CLIENTS_ACTIVE_HELP,
    DAEMON_CLIENTS_TOTAL, DAEMON_CLIENTS_TOTAL_HELP, DAEMON_RPC_ERRORS_TOTAL,
    DAEMON_RPC_ERRORS_TOTAL_HELP, DAEMON_RPC_TOTAL, DAEMON_RPC_TOTAL_HELP, DAEMON_SANDBOX_STATUS,
    DAEMON_SANDBOX_STATUS_HELP, DAEMON_UPTIME_SECONDS, DAEMON_UPTIME_SECONDS_HELP, KICK_DROPS_TOTAL,
    KICK_DROPS_TOTAL_HELP, KICK_RESCUED_TOTAL, KICK_RESCUED_TOTAL_HELP, KICK_RING_CURRENT_GAP,
    KICK_RING_CURRENT_GAP_HELP, KICK_RING_HIGH_WATER, KICK_RING_HIGH_WATER_HELP,
    KICK_THROTTLE_ENGAGED, KICK_THROTTLE_ENGAGED_HELP, KICK_THROTTLE_TRANSITIONS_TOTAL,
    KICK_THROTTLE_TRANSITIONS_TOTAL_HELP, L2CPU_BOOT_TOTAL, L2CPU_BOOT_TOTAL_HELP,
    L2CPU_CONSOLE_BYTES_TOTAL, L2CPU_CONSOLE_BYTES_TOTAL_HELP, L2CPU_CONSOLE_CLIENTS,
    L2CPU_CONSOLE_CLIENTS_HELP, L2CPU_DISKS, L2CPU_DISKS_HELP, L2CPU_NET, L2CPU_NET_HELP,
    L2CPU_RUNNING, L2CPU_RUNNING_HELP, L2CPU_UPTIME_SECONDS, L2CPU_UPTIME_SECONDS_HELP,
    NET_BYTES_TOTAL, NET_BYTES_TOTAL_HELP, NET_INTERRUPTS_TOTAL, NET_INTERRUPTS_TOTAL_HELP,
    NET_PACKETS_TOTAL, NET_PACKETS_TOTAL_HELP, SEL_READY_RACES_TOTAL, SEL_READY_RACES_TOTAL_HELP,
    UART_FEED_DROPS_TOTAL, UART_FEED_DROPS_TOTAL_HELP, WORKER_POLL_ITERATIONS_TOTAL,
    WORKER_POLL_ITERATIONS_TOTAL_HELP, WORKER_TIER_SECONDS_TOTAL, WORKER_TIER_SECONDS_TOTAL_HELP,
};
#[allow(unused_imports)]
use crate::daemon::metrics::{
    blk_lines, board_lines, card_info_lines, card_label, card_labels, card_lane_lines,
    chip_counter_lines, chip_gauge_lines, chip_lines, clock_lines, counter_lines, daemon_lines,
    dec_row, ecc_lines, gauge_lines, idx_label, iteration_texts, l2cpu_lines, lane_block,
    lane_labels, lane_lines, limit_lines, method_block, method_lines, net_lines, pair_label,
    pair_lines, poll_lines, power_lines, prometheus_lines, ring_lines, scalar, seconds_text,
    seconds_texts, signed_row, slot_block, slot_lines, split_block, split_lines, telemetry_lines,
    thermal_lines, worker_lines, worker_sample, ChipTelemetry, Metrics, ScrapeState, SlotGauges,
    TierSeconds,
};
#[allow(unused_imports)]
use crate::text::{dec, hex, signed_dec, zero_padded};

verus! {

/// The samples of one metric, in order: the labels and the value of each.
pub open spec fn samples(lines: Seq<Line>, name: Seq<char>) -> Seq<(Seq<Label>, Seq<char>)>
    decreases lines.len(),
{
    if lines.len() == 0 {
        Seq::empty()
    } else {
        let before = samples(lines.drop_last(), name);
        match lines.last() {
            Line::Sample(n, labels, value) => if n == name {
                before.push((labels, value))
            } else {
                before
            },
            _ => before,
        }
    }
}

/// These lines hold the samples `told` of the metrics from place `from` to place `to` in the list,
/// and none of any other metric in it.
#[verifier::opaque]
spec fn tells(
    lines: Seq<Line>,
    from: int,
    to: int,
    told: Seq<Seq<(Seq<Label>, Seq<char>)>>,
) -> bool {
    &&& told.len() == to - from
    &&& forall|k: int|
        from <= k < to ==> samples(lines, #[trigger] metric_names()[k]) == told[k - from]
    &&& forall|k: int|
        0 <= k < metric_names().len() && !(from <= k < to) ==> samples(
            lines,
            #[trigger] metric_names()[k],
        ).len() == 0
}

proof fn lemma_samples_concat(a: Seq<Line>, b: Seq<Line>, name: Seq<char>)
    ensures
        samples(a + b, name) == samples(a, name) + samples(b, name),
    decreases b.len(),
{
    if b.len() == 0 {
        assert(a + b =~= a);
        assert(samples(a + b, name) =~= samples(a, name) + samples(b, name));
    } else {
        assert((a + b).drop_last() =~= a + b.drop_last());
        lemma_samples_concat(a, b.drop_last(), name);
        assert(samples(a + b, name) =~= samples(a, name) + samples(b, name));
    }
}

proof fn lemma_join_told(
    a: Seq<Line>,
    b: Seq<Line>,
    i: int,
    j: int,
    k: int,
    u: Seq<Seq<(Seq<Label>, Seq<char>)>>,
    v: Seq<Seq<(Seq<Label>, Seq<char>)>>,
)
    requires
        0 <= i <= j <= k <= metric_names().len(),
        tells(a, i, j, u),
        tells(b, j, k, v),
    ensures
        tells(a + b, i, k, u + v),
{
    reveal(tells);
    assert forall|x: int| i <= x < k implies samples(a + b, #[trigger] metric_names()[x]) == (u
        + v)[x - i] by {
        lemma_samples_concat(a, b, metric_names()[x]);
        if x < j {
            assert(samples(b, metric_names()[x]).len() == 0);
            assert(samples(a + b, metric_names()[x]) =~= u[x - i]);
        } else {
            assert(samples(a, metric_names()[x]).len() == 0);
            assert(samples(a + b, metric_names()[x]) =~= v[x - j]);
        }
    }
    assert forall|x: int| 0 <= x < metric_names().len() && !(i <= x < k) implies samples(
        a + b,
        #[trigger] metric_names()[x],
    ).len() == 0 by {
        lemma_samples_concat(a, b, metric_names()[x]);
        assert(samples(a, metric_names()[x]).len() == 0);
        assert(samples(b, metric_names()[x]).len() == 0);
    }
}

/// What a sample says.
spec fn said(line: Line) -> (Seq<Label>, Seq<char>) {
    match line {
        Line::Sample(n, labels, value) => (labels, value),
        _ => (Seq::empty(), Seq::empty()),
    }
}

proof fn lemma_body(body: Seq<Line>, name: Seq<char>, other: Seq<char>)
    requires
        forall|i: int|
            0 <= i < body.len() ==> (#[trigger] body[i]) is Sample && line_name(body[i]) == name,
    ensures
        other == name ==> samples(body, other) == body.map_values(|l: Line| said(l)),
        other != name ==> samples(body, other).len() == 0,
    decreases body.len(),
{
    if body.len() > 0 {
        assert(body.last() is Sample);
        lemma_body(body.drop_last(), name, other);
        if other == name {
            assert(samples(body, other) =~= body.map_values(|l: Line| said(l)));
        }
    } else {
        assert(samples(body, other) =~= body.map_values(|l: Line| said(l)));
    }
}

/// A metric that is introduced and followed by its samples tells of itself alone.
proof fn lemma_family(
    k: int,
    help: Seq<char>,
    kind: MetricKind,
    body: Seq<Line>,
    told: Seq<(Seq<Label>, Seq<char>)>,
)
    requires
        0 <= k < metric_names().len(),
        forall|i: int|
            0 <= i < body.len() ==> (#[trigger] body[i]) is Sample && line_name(body[i])
                == metric_names()[k],
        told == body.map_values(|l: Line| said(l)),
    ensures
        tells(head(metric_names()[k], help, kind) + body, k, k + 1, seq![told]),
{
    reveal(tells);
    metric_names_are_distinct();
    let name = metric_names()[k];
    let h = head(name, help, kind);
    assert forall|x: int| 0 <= x < metric_names().len() implies samples(
        h + body,
        #[trigger] metric_names()[x],
    ) == if x == k {
        told
    } else {
        Seq::empty()
    } by {
        let other = metric_names()[x];
        lemma_samples_concat(h, body, other);
        lemma_body(body, name, other);
        reveal_with_fuel(samples, 3);
        assert(h.drop_last() =~= seq![Line::Help(name, help)]);
        assert(h.drop_last().drop_last() =~= Seq::<Line>::empty());
        assert(samples(h, other) =~= Seq::empty());
        assert(samples(h + body, other) =~= samples(body, other));
        if x != k {
            assert(other != name);
            assert(samples(body, other) =~= Seq::empty());
        }
    }
}

/// Blocks of the same length stand one behind the other.
proof fn lemma_each_block(n: nat, b: nat, f: spec_fn(int) -> Seq<Line>)
    requires
        b > 0,
        forall|i: int| 0 <= i < n ==> (#[trigger] f(i)).len() == b,
    ensures
        each(n, f).len() == n * b,
        forall|k: int|
            0 <= k < n * b ==> #[trigger] each(n, f)[k] == f(k / (b as int))[k % (b as int)],
    decreases n,
{
    if n > 0 {
        let m = (n - 1) as nat;
        lemma_each_block(m, b, f);
        assert(m * b + b == n * b) by (nonlinear_arith)
            requires
                m == n - 1,
        ;
        assert forall|k: int| 0 <= k < n * b implies #[trigger] each(n, f)[k] == f(
            k / (b as int),
        )[k % (b as int)] by {
            if k < m * b {
                assert(each(n, f)[k] == each(m, f)[k]);
            } else {
                let r = k - m * b;
                assert(k / (b as int) == m && k % (b as int) == r) by (nonlinear_arith)
                    requires
                        k == m * b + r,
                        0 <= r < b,
                ;
            }
        }
    } else {
        assert(n * b == 0) by (nonlinear_arith)
            requires
                n == 0,
        ;
    }
}

// ---------------------------------------------------------------------------
// The shapes of metrics
// ---------------------------------------------------------------------------

spec fn method_values(counts: RpcMethodCounter) -> Seq<(Seq<Label>, Seq<char>)> {
    Seq::new(
        11,
        |i: int|
            (
                seq![("method"@, RpcMethod::every()[i].label())],
                dec(counts.count(RpcMethod::every()[i]) as nat),
            ),
    )
}

spec fn lane_values(disk: bool, values: Seq<Seq<char>>) -> Seq<(Seq<Label>, Seq<char>)> {
    Seq::new(4, |i: int| (lane_labels(i, disk), values[i]))
}

spec fn split_values(
    disk: bool,
    key: Seq<char>,
    first: Seq<char>,
    a: Seq<u64>,
    second: Seq<char>,
    b: Seq<u64>,
) -> Seq<(Seq<Label>, Seq<char>)> {
    Seq::new(
        8,
        |k: int|
            if k % 2 == 0 {
                (lane_labels(k / 2, disk).push((key, first)), dec(a[k / 2] as nat))
            } else {
                (lane_labels(k / 2, disk).push((key, second)), dec(b[k / 2] as nat))
            },
    )
}

spec fn worker_values(value: spec_fn(int, int, int) -> Seq<char>) -> Seq<(Seq<Label>, Seq<char>)> {
    Seq::new(
        60,
        |k: int|
            (
                seq![
                    ("worker"@, WorkerKind::every()[k / 12].label()),
                    idx_label((k % 12) / 3),
                    ("tier"@, Tier::every()[k % 3].label()),
                ],
                value(k / 12, (k % 12) / 3, k % 3),
            ),
    )
}

spec fn pair_values(card: u32, values: Seq<Seq<char>>) -> Seq<(Seq<Label>, Seq<char>)> {
    Seq::new(4, |i: int| (seq![card_label(card), pair_label(i)], values[i]))
}

spec fn card_lane_values(card: u32, values: Seq<Seq<char>>) -> Seq<(Seq<Label>, Seq<char>)> {
    Seq::new(4, |i: int| (seq![card_label(card), idx_label(i)], values[i]))
}

proof fn lemma_scalar_told(k: int, help: Seq<char>, kind: MetricKind, value: Seq<char>)
    requires
        0 <= k < metric_names().len(),
    ensures
        tells(
            scalar(metric_names()[k], help, kind, value),
            k,
            k + 1,
            seq![seq![(Seq::<Label>::empty(), value)]],
        ),
{
    let name = metric_names()[k];
    let body = seq![Line::Sample(name, Seq::empty(), value)];
    let told = seq![(Seq::<Label>::empty(), value)];
    assert(told =~= body.map_values(|l: Line| said(l)));
    lemma_family(k, help, kind, body, told);
    assert(scalar(name, help, kind, value) =~= head(name, help, kind) + body);
}

proof fn lemma_labelled_told(
    k: int,
    help: Seq<char>,
    kind: MetricKind,
    labels: Seq<Label>,
    value: Seq<char>,
)
    requires
        0 <= k < metric_names().len(),
    ensures
        tells(
            head(metric_names()[k], help, kind).push(
                Line::Sample(metric_names()[k], labels, value),
            ),
            k,
            k + 1,
            seq![seq![(labels, value)]],
        ),
{
    let name = metric_names()[k];
    let body = seq![Line::Sample(name, labels, value)];
    let told = seq![(labels, value)];
    assert(told =~= body.map_values(|l: Line| said(l)));
    lemma_family(k, help, kind, body, told);
    assert(head(name, help, kind).push(Line::Sample(name, labels, value)) =~= head(name, help, kind)
        + body);
}

proof fn lemma_methods_told(k: int, help: Seq<char>, counts: RpcMethodCounter)
    requires
        0 <= k < metric_names().len(),
    ensures
        tells(
            method_lines(metric_names()[k], help, counts),
            k,
            k + 1,
            seq![method_values(counts)],
        ),
{
    let name = metric_names()[k];
    let f = |i: int| method_block(name, counts, i);
    lemma_each_block(11, 1, f);
    let body = each(11, f);
    assert forall|i: int| 0 <= i < body.len() implies (#[trigger] body[i]) is Sample && line_name(
        body[i],
    ) == name by {
        assert(body[i] == f(i)[0]);
    }
    assert(method_values(counts) =~= body.map_values(|l: Line| said(l)));
    lemma_family(k, help, MetricKind::Counter, body, method_values(counts));
}

proof fn lemma_lanes_told(
    k: int,
    help: Seq<char>,
    kind: MetricKind,
    disk: bool,
    values: Seq<Seq<char>>,
)
    requires
        0 <= k < metric_names().len(),
    ensures
        tells(
            lane_lines(metric_names()[k], help, kind, disk, values),
            k,
            k + 1,
            seq![lane_values(disk, values)],
        ),
{
    let name = metric_names()[k];
    let f = |i: int| lane_block(name, disk, values, i);
    lemma_each_block(4, 1, f);
    let body = each(4, f);
    assert forall|i: int| 0 <= i < body.len() implies (#[trigger] body[i]) is Sample && line_name(
        body[i],
    ) == name by {
        assert(body[i] == f(i)[0]);
    }
    assert(lane_values(disk, values) =~= body.map_values(|l: Line| said(l)));
    lemma_family(k, help, kind, body, lane_values(disk, values));
}

proof fn lemma_split_told(
    k: int,
    help: Seq<char>,
    disk: bool,
    key: Seq<char>,
    first: Seq<char>,
    a: Seq<u64>,
    second: Seq<char>,
    b: Seq<u64>,
)
    requires
        0 <= k < metric_names().len(),
    ensures
        tells(
            split_lines(metric_names()[k], help, disk, key, first, a, second, b),
            k,
            k + 1,
            seq![split_values(disk, key, first, a, second, b)],
        ),
{
    let name = metric_names()[k];
    let f = |i: int| split_block(name, disk, key, first, a, second, b, i);
    lemma_each_block(4, 2, f);
    let body = each(4, f);
    assert forall|i: int| 0 <= i < body.len() implies (#[trigger] body[i]) is Sample && line_name(
        body[i],
    ) == name by {
        assert(body[i] == f(i / 2)[i % 2]);
    }
    let told = split_values(disk, key, first, a, second, b);
    assert forall|i: int| 0 <= i < 8 implies #[trigger] told[i] == said(body[i]) by {
        assert(body[i] == f(i / 2)[i % 2]);
    }
    assert(told =~= body.map_values(|l: Line| said(l)));
    lemma_family(k, help, MetricKind::Counter, body, told);
}

proof fn lemma_workers_told(k: int, help: Seq<char>, value: spec_fn(int, int, int) -> Seq<char>)
    requires
        0 <= k < metric_names().len(),
    ensures
        tells(
            worker_lines(metric_names()[k], help, value),
            k,
            k + 1,
            seq![worker_values(value)],
        ),
{
    let name = metric_names()[k];
    let f = |w: int|
        each(4, |i: int| each(3, |t: int| worker_sample(name, w, i, t, value(w, i, t))));
    assert forall|w: int| 0 <= w < 5 implies (#[trigger] f(w)).len() == 12 && forall|x: int|
        0 <= x < 12 ==> #[trigger] f(w)[x] == worker_sample(
            name,
            w,
            x / 3,
            x % 3,
            value(w, x / 3, x % 3),
        )[0] by {
        let g = |i: int| each(3, |t: int| worker_sample(name, w, i, t, value(w, i, t)));
        assert forall|i: int| 0 <= i < 4 implies (#[trigger] g(i)).len() == 3 && forall|x: int|
            0 <= x < 3 ==> #[trigger] g(i)[x] == worker_sample(name, w, i, x, value(w, i, x))[0] by {
            let h = |t: int| worker_sample(name, w, i, t, value(w, i, t));
            lemma_each_block(3, 1, h);
            assert forall|x: int| 0 <= x < 3 implies #[trigger] g(i)[x] == h(x)[0] by {
                assert(each(3, h)[x] == h(x)[0]);
            }
        }
        lemma_each_block(4, 3, g);
        assert forall|x: int| 0 <= x < 12 implies #[trigger] f(w)[x] == worker_sample(
            name,
            w,
            x / 3,
            x % 3,
            value(w, x / 3, x % 3),
        )[0] by {
            assert(each(4, g)[x] == g(x / 3)[x % 3]);
        }
    }
    lemma_each_block(5, 12, f);
    let body = each(5, f);
    let told = worker_values(value);
    assert forall|x: int| 0 <= x < 60 implies (#[trigger] body[x]) is Sample && line_name(body[x])
        == name && told[x] == said(body[x]) by {
        assert(body[x] == f(x / 12)[x % 12]);
        assert((x % 12) % 3 == x % 3);
    }
    assert(told =~= body.map_values(|l: Line| said(l)));
    lemma_family(k, help, MetricKind::Counter, body, told);
}

proof fn lemma_pairs_told(
    k: int,
    help: Seq<char>,
    kind: MetricKind,
    card: u32,
    values: Seq<Seq<char>>,
)
    requires
        0 <= k < metric_names().len(),
    ensures
        tells(
            pair_lines(metric_names()[k], help, kind, card, values),
            k,
            k + 1,
            seq![pair_values(card, values)],
        ),
{
    let name = metric_names()[k];
    let f = |i: int| seq![Line::Sample(name, seq![card_label(card), pair_label(i)], values[i])];
    lemma_each_block(4, 1, f);
    let body = each(4, f);
    assert forall|i: int| 0 <= i < body.len() implies (#[trigger] body[i]) is Sample && line_name(
        body[i],
    ) == name by {
        assert(body[i] == f(i)[0]);
    }
    assert(pair_values(card, values) =~= body.map_values(|l: Line| said(l)));
    lemma_family(k, help, kind, body, pair_values(card, values));
}

proof fn lemma_card_lanes_told(k: int, help: Seq<char>, card: u32, values: Seq<Seq<char>>)
    requires
        0 <= k < metric_names().len(),
    ensures
        tells(
            card_lane_lines(metric_names()[k], help, card, values),
            k,
            k + 1,
            seq![card_lane_values(card, values)],
        ),
{
    let name = metric_names()[k];
    let f = |i: int| seq![Line::Sample(name, seq![card_label(card), idx_label(i)], values[i])];
    lemma_each_block(4, 1, f);
    let body = each(4, f);
    assert forall|i: int| 0 <= i < body.len() implies (#[trigger] body[i]) is Sample && line_name(
        body[i],
    ) == name by {
        assert(body[i] == f(i)[0]);
    }
    assert(card_lane_values(card, values) =~= body.map_values(|l: Line| said(l)));
    lemma_family(k, help, MetricKind::Gauge, body, card_lane_values(card, values));
}

// ---------------------------------------------------------------------------
// The groups
// ---------------------------------------------------------------------------

spec fn daemon_values(m: Metrics, s: ScrapeState) -> Seq<Seq<(Seq<Label>, Seq<char>)>> {
    seq![
        seq![(Seq::<Label>::empty(), signed_dec(s.uptime_seconds as int))],
        seq![(Seq::<Label>::empty(), dec(m.daemon_clients_total@ as nat))],
        seq![(Seq::<Label>::empty(), signed_dec(m.daemon_clients_active@ as int))],
        seq![(Seq::<Label>::empty(), signed_dec(m.daemon_sandbox_status@ as int))],
        method_values(m.daemon_rpc_total),
        method_values(m.daemon_rpc_errors_total),
    ]
}

proof fn lemma_daemon_told(m: Metrics, s: ScrapeState)
    ensures
        tells(daemon_lines(m, s), 0, 6, daemon_values(m, s)),
{
    reveal(daemon_lines);
    lemma_scalar_told(0, DAEMON_UPTIME_SECONDS_HELP@, MetricKind::Gauge, signed_dec(s.uptime_seconds as int));
    let a = gauge_lines(DAEMON_UPTIME_SECONDS@, DAEMON_UPTIME_SECONDS_HELP@, s.uptime_seconds);
    let u = seq![seq![(Seq::<Label>::empty(), signed_dec(s.uptime_seconds as int))]];
    lemma_scalar_told(1, DAEMON_CLIENTS_TOTAL_HELP@, MetricKind::Counter, dec(m.daemon_clients_total@ as nat));
    let b = counter_lines(DAEMON_CLIENTS_TOTAL@, DAEMON_CLIENTS_TOTAL_HELP@, m.daemon_clients_total@);
    let v = seq![seq![(Seq::<Label>::empty(), dec(m.daemon_clients_total@ as nat))]];
    lemma_join_told(a, b, 0, 1, 2, u, v);
    let a = a + b;
    let u = u + v;
    lemma_scalar_told(2, DAEMON_CLIENTS_ACTIVE_HELP@, MetricKind::Gauge, signed_dec(m.daemon_clients_active@ as int));
    let b = gauge_lines(DAEMON_CLIENTS_ACTIVE@, DAEMON_CLIENTS_ACTIVE_HELP@, m.daemon_clients_active@);
    let v = seq![seq![(Seq::<Label>::empty(), signed_dec(m.daemon_clients_active@ as int))]];
    lemma_join_told(a, b, 0, 2, 3, u, v);
    let a = a + b;
    let u = u + v;
    lemma_scalar_told(3, DAEMON_SANDBOX_STATUS_HELP@, MetricKind::Gauge, signed_dec(m.daemon_sandbox_status@ as int));
    let b = gauge_lines(DAEMON_SANDBOX_STATUS@, DAEMON_SANDBOX_STATUS_HELP@, m.daemon_sandbox_status@);
    let v = seq![seq![(Seq::<Label>::empty(), signed_dec(m.daemon_sandbox_status@ as int))]];
    lemma_join_told(a, b, 0, 3, 4, u, v);
    let a = a + b;
    let u = u + v;
    lemma_methods_told(4, DAEMON_RPC_TOTAL_HELP@, m.daemon_rpc_total);
    let b = method_lines(DAEMON_RPC_TOTAL@, DAEMON_RPC_TOTAL_HELP@, m.daemon_rpc_total);
    let v = seq![method_values(m.daemon_rpc_total)];
    lemma_join_told(a, b, 0, 4, 5, u, v);
    let a = a + b;
    let u = u + v;
    lemma_methods_told(5, DAEMON_RPC_ERRORS_TOTAL_HELP@, m.daemon_rpc_errors_total);
    let b = method_lines(DAEMON_RPC_ERRORS_TOTAL@, DAEMON_RPC_ERRORS_TOTAL_HELP@, m.daemon_rpc_errors_total);
    let v = seq![method_values(m.daemon_rpc_errors_total)];
    lemma_join_told(a, b, 0, 5, 6, u, v);
    let a = a + b;
    let u = u + v;
    assert(u =~= daemon_values(m, s));
}

spec fn l2cpu_values(m: Metrics) -> Seq<Seq<(Seq<Label>, Seq<char>)>> {
    seq![
        split_values(false, "kind"@, "cold"@, m.l2cpu_boot_cold_total@, "warm"@, m.l2cpu_boot_warm_total@),
        lane_values(false, signed_row(m.l2cpu_console_clients@)),
        split_values(false, "direction"@, "g2h"@, m.l2cpu_console_bytes_total.g2h_counts(), "h2g"@, m.l2cpu_console_bytes_total.h2g_counts()),
    ]
}

proof fn lemma_l2cpu_told(m: Metrics)
    ensures
        tells(l2cpu_lines(m), 6, 9, l2cpu_values(m)),
{
    reveal(l2cpu_lines);
    lemma_split_told(6, L2CPU_BOOT_TOTAL_HELP@, false, "kind"@, "cold"@, m.l2cpu_boot_cold_total@, "warm"@, m.l2cpu_boot_warm_total@);
    let a = split_lines(L2CPU_BOOT_TOTAL@, L2CPU_BOOT_TOTAL_HELP@, false, "kind"@, "cold"@, m.l2cpu_boot_cold_total@, "warm"@, m.l2cpu_boot_warm_total@);
    let u = seq![split_values(false, "kind"@, "cold"@, m.l2cpu_boot_cold_total@, "warm"@, m.l2cpu_boot_warm_total@)];
    lemma_lanes_told(7, L2CPU_CONSOLE_CLIENTS_HELP@, MetricKind::Gauge, false, signed_row(m.l2cpu_console_clients@));
    let b = lane_lines(L2CPU_CONSOLE_CLIENTS@, L2CPU_CONSOLE_CLIENTS_HELP@, MetricKind::Gauge, false, signed_row(m.l2cpu_console_clients@));
    let v = seq![lane_values(false, signed_row(m.l2cpu_console_clients@))];
    lemma_join_told(a, b, 6, 7, 8, u, v);
    let a = a + b;
    let u = u + v;
    lemma_split_told(8, L2CPU_CONSOLE_BYTES_TOTAL_HELP@, false, "direction"@, "g2h"@, m.l2cpu_console_bytes_total.g2h_counts(), "h2g"@, m.l2cpu_console_bytes_total.h2g_counts());
    let b = split_lines(L2CPU_CONSOLE_BYTES_TOTAL@, L2CPU_CONSOLE_BYTES_TOTAL_HELP@, false, "direction"@, "g2h"@, m.l2cpu_console_bytes_total.g2h_counts(), "h2g"@, m.l2cpu_console_bytes_total.h2g_counts());
    let v = seq![split_values(false, "direction"@, "g2h"@, m.l2cpu_console_bytes_total.g2h_counts(), "h2g"@, m.l2cpu_console_bytes_total.h2g_counts())];
    lemma_join_told(a, b, 6, 8, 9, u, v);
    let a = a + b;
    let u = u + v;
    assert(u =~= l2cpu_values(m));
}

spec fn blk_values(m: Metrics) -> Seq<Seq<(Seq<Label>, Seq<char>)>> {
    seq![
        split_values(true, "op"@, "read"@, m.blk_requests_total.read_counts(), "write"@, m.blk_requests_total.write_counts()),
        split_values(true, "op"@, "read"@, m.blk_bytes_total.read_counts(), "write"@, m.blk_bytes_total.write_counts()),
        split_values(true, "reason"@, "ioerr"@, m.blk_errors_total.ioerr_counts(), "unsupp"@, m.blk_errors_total.unsupp_counts()),
    ]
}

proof fn lemma_blk_told(m: Metrics)
    ensures
        tells(blk_lines(m), 9, 12, blk_values(m)),
{
    reveal(blk_lines);
    lemma_split_told(9, BLK_REQUESTS_TOTAL_HELP@, true, "op"@, "read"@, m.blk_requests_total.read_counts(), "write"@, m.blk_requests_total.write_counts());
    let a = split_lines(BLK_REQUESTS_TOTAL@, BLK_REQUESTS_TOTAL_HELP@, true, "op"@, "read"@, m.blk_requests_total.read_counts(), "write"@, m.blk_requests_total.write_counts());
    let u = seq![split_values(true, "op"@, "read"@, m.blk_requests_total.read_counts(), "write"@, m.blk_requests_total.write_counts())];
    lemma_split_told(10, BLK_BYTES_TOTAL_HELP@, true, "op"@, "read"@, m.blk_bytes_total.read_counts(), "write"@, m.blk_bytes_total.write_counts());
    let b = split_lines(BLK_BYTES_TOTAL@, BLK_BYTES_TOTAL_HELP@, true, "op"@, "read"@, m.blk_bytes_total.read_counts(), "write"@, m.blk_bytes_total.write_counts());
    let v = seq![split_values(true, "op"@, "read"@, m.blk_bytes_total.read_counts(), "write"@, m.blk_bytes_total.write_counts())];
    lemma_join_told(a, b, 9, 10, 11, u, v);
    let a = a + b;
    let u = u + v;
    lemma_split_told(11, BLK_ERRORS_TOTAL_HELP@, true, "reason"@, "ioerr"@, m.blk_errors_total.ioerr_counts(), "unsupp"@, m.blk_errors_total.unsupp_counts());
    let b = split_lines(BLK_ERRORS_TOTAL@, BLK_ERRORS_TOTAL_HELP@, true, "reason"@, "ioerr"@, m.blk_errors_total.ioerr_counts(), "unsupp"@, m.blk_errors_total.unsupp_counts());
    let v = seq![split_values(true, "reason"@, "ioerr"@, m.blk_errors_total.ioerr_counts(), "unsupp"@, m.blk_errors_total.unsupp_counts())];
    lemma_join_told(a, b, 9, 11, 12, u, v);
    let a = a + b;
    let u = u + v;
    assert(u =~= blk_values(m));
}

spec fn net_values(m: Metrics) -> Seq<Seq<(Seq<Label>, Seq<char>)>> {
    seq![
        split_values(false, "direction"@, "rx"@, m.net_packets_total.rx_counts(), "tx"@, m.net_packets_total.tx_counts()),
        split_values(false, "direction"@, "rx"@, m.net_bytes_total.rx_counts(), "tx"@, m.net_bytes_total.tx_counts()),
        lane_values(true, dec_row(m.blk_interrupts_total@)),
        lane_values(false, dec_row(m.net_interrupts_total@)),
    ]
}

proof fn lemma_net_told(m: Metrics)
    ensures
        tells(net_lines(m), 12, 16, net_values(m)),
{
    reveal(net_lines);
    lemma_split_told(12, NET_PACKETS_TOTAL_HELP@, false, "direction"@, "rx"@, m.net_packets_total.rx_counts(), "tx"@, m.net_packets_total.tx_counts());
    let a = split_lines(NET_PACKETS_TOTAL@, NET_PACKETS_TOTAL_HELP@, false, "direction"@, "rx"@, m.net_packets_total.rx_counts(), "tx"@, m.net_packets_total.tx_counts());
    let u = seq![split_values(false, "direction"@, "rx"@, m.net_packets_total.rx_counts(), "tx"@, m.net_packets_total.tx_counts())];
    lemma_split_told(13, NET_BYTES_TOTAL_HELP@, false, "direction"@, "rx"@, m.net_bytes_total.rx_counts(), "tx"@, m.net_bytes_total.tx_counts());
    let b = split_lines(NET_BYTES_TOTAL@, NET_BYTES_TOTAL_HELP@, false, "direction"@, "rx"@, m.net_bytes_total.rx_counts(), "tx"@, m.net_bytes_total.tx_counts());
    let v = seq![split_values(false, "direction"@, "rx"@, m.net_bytes_total.rx_counts(), "tx"@, m.net_bytes_total.tx_counts())];
    lemma_join_told(a, b, 12, 13, 14, u, v);
    let a = a + b;
    let u = u + v;
    lemma_lanes_told(14, BLK_INTERRUPTS_TOTAL_HELP@, MetricKind::Counter, true, dec_row(m.blk_interrupts_total@));
    let b = lane_lines(BLK_INTERRUPTS_TOTAL@, BLK_INTERRUPTS_TOTAL_HELP@, MetricKind::Counter, true, dec_row(m.blk_interrupts_total@));
    let v = seq![lane_values(true, dec_row(m.blk_interrupts_total@))];
    lemma_join_told(a, b, 12, 14, 15, u, v);
    let a = a + b;
    let u = u + v;
    lemma_lanes_told(15, NET_INTERRUPTS_TOTAL_HELP@, MetricKind::Counter, false, dec_row(m.net_interrupts_total@));
    let b = lane_lines(NET_INTERRUPTS_TOTAL@, NET_INTERRUPTS_TOTAL_HELP@, MetricKind::Counter, false, dec_row(m.net_interrupts_total@));
    let v = seq![lane_values(false, dec_row(m.net_interrupts_total@))];
    lemma_join_told(a, b, 12, 15, 16, u, v);
    let a = a + b;
    let u = u + v;
    assert(u =~= net_values(m));
}

spec fn poll_values(m: Metrics, s: ScrapeState) -> Seq<Seq<(Seq<Label>, Seq<char>)>> {
    seq![
        worker_values(iteration_texts(m.worker_poll_iterations_total)),
        worker_values(seconds_texts(s.tier_seconds)),
    ]
}

proof fn lemma_poll_told(m: Metrics, s: ScrapeState)
    ensures
        tells(poll_lines(m, s), 16, 18, poll_values(m, s)),
{
    reveal(poll_lines);
    lemma_workers_told(16, WORKER_POLL_ITERATIONS_TOTAL_HELP@, iteration_texts(m.worker_poll_iterations_total));
    let a = worker_lines(WORKER_POLL_ITERATIONS_TOTAL@, WORKER_POLL_ITERATIONS_TOTAL_HELP@, iteration_texts(m.worker_poll_iterations_total));
    let u = seq![worker_values(iteration_texts(m.worker_poll_iterations_total))];
    lemma_workers_told(17, WORKER_TIER_SECONDS_TOTAL_HELP@, seconds_texts(s.tier_seconds));
    let b = worker_lines(WORKER_TIER_SECONDS_TOTAL@, WORKER_TIER_SECONDS_TOTAL_HELP@, seconds_texts(s.tier_seconds));
    let v = seq![worker_values(seconds_texts(s.tier_seconds))];
    lemma_join_told(a, b, 16, 17, 18, u, v);
    let a = a + b;
    let u = u + v;
    assert(u =~= poll_values(m, s));
}

spec fn ring_values(m: Metrics) -> Seq<Seq<(Seq<Label>, Seq<char>)>> {
    seq![
        seq![(Seq::<Label>::empty(), dec(m.kick_drops_total@ as nat))],
        seq![(Seq::<Label>::empty(), signed_dec(m.kick_ring_high_water@ as int))],
        seq![(Seq::<Label>::empty(), signed_dec(m.kick_ring_current_gap@ as int))],
        seq![(Seq::<Label>::empty(), dec(m.kick_rescued_total@ as nat))],
        seq![(Seq::<Label>::empty(), signed_dec(m.kick_throttle_engaged@ as int))],
        seq![(Seq::<Label>::empty(), dec(m.kick_throttle_transitions_total@ as nat))],
        seq![(Seq::<Label>::empty(), dec(m.sel_ready_races_total@ as nat))],
        seq![(Seq::<Label>::empty(), dec(m.brisc_old_sel_rescue_total@ as nat))],
        lane_values(false, dec_row(m.uart_feed_drops_total@)),
    ]
}

proof fn lemma_ring_told(m: Metrics)
    ensures
        tells(ring_lines(m), 18, 27, ring_values(m)),
{
    reveal(ring_lines);
    lemma_scalar_told(18, KICK_DROPS_TOTAL_HELP@, MetricKind::Counter, dec(m.kick_drops_total@ as nat));
    let a = counter_lines(KICK_DROPS_TOTAL@, KICK_DROPS_TOTAL_HELP@, m.kick_drops_total@);
    let u = seq![seq![(Seq::<Label>::empty(), dec(m.kick_drops_total@ as nat))]];
    lemma_scalar_told(19, KICK_RING_HIGH_WATER_HELP@, MetricKind::Gauge, signed_dec(m.kick_ring_high_water@ as int));
    let b = gauge_lines(KICK_RING_HIGH_WATER@, KICK_RING_HIGH_WATER_HELP@, m.kick_ring_high_water@);
    let v = seq![seq![(Seq::<Label>::empty(), signed_dec(m.kick_ring_high_water@ as int))]];
    lemma_join_told(a, b, 18, 19, 20, u, v);
    let a = a + b;
    let u = u + v;
    lemma_scalar_told(20, KICK_RING_CURRENT_GAP_HELP@, MetricKind::Gauge, signed_dec(m.kick_ring_current_gap@ as int));
    let b = gauge_lines(KICK_RING_CURRENT_GAP@, KICK_RING_CURRENT_GAP_HELP@, m.kick_ring_current_gap@);
    let v = seq![seq![(Seq::<Label>::empty(), signed_dec(m.kick_ring_current_gap@ as int))]];
    lemma_join_told(a, b, 18, 20, 21, u, v);
    let a = a + b;
    let u = u + v;
    lemma_scalar_told(21, KICK_RESCUED_TOTAL_HELP@, MetricKind::Counter, dec(m.kick_rescued_total@ as nat));
    let b = counter_lines(KICK_RESCUED_TOTAL@, KICK_RESCUED_TOTAL_HELP@, m.kick_rescued_total@);
    let v = seq![seq![(Seq::<Label>::empty(), dec(m.kick_rescued_total@ as nat))]];
    lemma_join_told(a, b, 18, 21, 22, u, v);
    let a = a + b;
    let u = u + v;
    lemma_scalar_told(22, KICK_THROTTLE_ENGAGED_HELP@, MetricKind::Gauge, signed_dec(m.kick_throttle_engaged@ as int));
    let b = gauge_lines(KICK_THROTTLE_ENGAGED@, KICK_THROTTLE_ENGAGED_HELP@, m.kick_throttle_engaged@);
    let v = seq![seq![(Seq::<Label>::empty(), signed_dec(m.kick_throttle_engaged@ as int))]];
    lemma_join_told(a, b, 18, 22, 23, u, v);
    let a = a + b;
    let u = u + v;
    lemma_scalar_told(23, KICK_THROTTLE_TRANSITIONS_TOTAL_HELP@, MetricKind::Counter, dec(m.kick_throttle_transitions_total@ as nat));
    let b = counter_lines(KICK_THROTTLE_TRANSITIONS_TOTAL@, KICK_THROTTLE_TRANSITIONS_TOTAL_HELP@, m.kick_throttle_transitions_total@);
    let v = seq![seq![(Seq::<Label>::empty(), dec(m.kick_throttle_transitions_total@ as nat))]];
    lemma_join_told(a, b, 18, 23, 24, u, v);
    let a = a + b;
    let u = u + v;
    lemma_scalar_told(24, SEL_READY_RACES_TOTAL_HELP@, MetricKind::Counter, dec(m.sel_ready_races_total@ as nat));
    let b = counter_lines(SEL_READY_RACES_TOTAL@, SEL_READY_RACES_TOTAL_HELP@, m.sel_ready_races_total@);
    let v = seq![seq![(Seq::<Label>::empty(), dec(m.sel_ready_races_total@ as nat))]];
    lemma_join_told(a, b, 18, 24, 25, u, v);
    let a = a + b;
    let u = u + v;
    lemma_scalar_told(25, BRISC_OLD_SEL_RESCUE_TOTAL_HELP@, MetricKind::Counter, dec(m.brisc_old_sel_rescue_total@ as nat));
    let b = counter_lines(BRISC_OLD_SEL_RESCUE_TOTAL@, BRISC_OLD_SEL_RESCUE_TOTAL_HELP@, m.brisc_old_sel_rescue_total@);
    let v = seq![seq![(Seq::<Label>::empty(), dec(m.brisc_old_sel_rescue_total@ as nat))]];
    lemma_join_told(a, b, 18, 25, 26, u, v);
    let a = a + b;
    let u = u + v;
    lemma_lanes_told(26, UART_FEED_DROPS_TOTAL_HELP@, MetricKind::Counter, false, dec_row(m.uart_feed_drops_total@));
    let b = lane_lines(UART_FEED_DROPS_TOTAL@, UART_FEED_DROPS_TOTAL_HELP@, MetricKind::Counter, false, dec_row(m.uart_feed_drops_total@));
    let v = seq![lane_values(false, dec_row(m.uart_feed_drops_total@))];
    lemma_join_told(a, b, 18, 26, 27, u, v);
    let a = a + b;
    let u = u + v;
    assert(u =~= ring_values(m));
}

spec fn thermal_values(card: u32, t: ChipTelemetry) -> Seq<Seq<(Seq<Label>, Seq<char>)>> {
    seq![
        seq![(seq![card_label(card)], signed_dec((t.asic_temperature_mc as i64) as int))],
        seq![(seq![card_label(card)], signed_dec((t.vreg_temperature_mc as i64) as int))],
        seq![(seq![card_label(card)], signed_dec((t.board_temperature_mc as i64) as int))],
        seq![(seq![card_label(card)], signed_dec((t.max_gddr_temperature_c as i64) as int))],
        pair_values(card, t.gddr_temperature_c@.map(|i: int, n: i32| signed_dec(n as int))),
    ]
}

proof fn lemma_thermal_told(card: u32, t: ChipTelemetry)
    ensures
        tells(thermal_lines(card, t), 32, 37, thermal_values(card, t)),
{
    lemma_labelled_told(32, CHIP_ASIC_TEMPERATURE_MILLICELSIUS_HELP@, MetricKind::Gauge, seq![card_label(card)], signed_dec((t.asic_temperature_mc as i64) as int));
    let a = chip_gauge_lines(CHIP_ASIC_TEMPERATURE_MILLICELSIUS@, CHIP_ASIC_TEMPERATURE_MILLICELSIUS_HELP@, card, t.asic_temperature_mc as i64);
    let u = seq![seq![(seq![card_label(card)], signed_dec((t.asic_temperature_mc as i64) as int))]];
    lemma_labelled_told(33, CHIP_VREG_TEMPERATURE_MILLICELSIUS_HELP@, MetricKind::Gauge, seq![card_label(card)], signed_dec((t.vreg_temperature_mc as i64) as int));
    let b = chip_gauge_lines(CHIP_VREG_TEMPERATURE_MILLICELSIUS@, CHIP_VREG_TEMPERATURE_MILLICELSIUS_HELP@, card, t.vreg_temperature_mc as i64);
    let v = seq![seq![(seq![card_label(card)], signed_dec((t.vreg_temperature_mc as i64) as int))]];
    lemma_join_told(a, b, 32, 33, 34, u, v);
    let a = a + b;
    let u = u + v;
    lemma_labelled_told(34, CHIP_BOARD_TEMPERATURE_MILLICELSIUS_HELP@, MetricKind::Gauge, seq![card_label(card)], signed_dec((t.board_temperature_mc as i64) as int));
    let b = chip_gauge_lines(CHIP_BOARD_TEMPERATURE_MILLICELSIUS@, CHIP_BOARD_TEMPERATURE_MILLICELSIUS_HELP@, card, t.board_temperature_mc as i64);
    let v = seq![seq![(seq![card_label(card)], signed_dec((t.board_temperature_mc as i64) as int))]];
    lemma_join_told(a, b, 32, 34, 35, u, v);
    let a = a + b;
    let u = u + v;
    lemma_labelled_told(35, CHIP_MAX_GDDR_TEMPERATURE_CELSIUS_HELP@, MetricKind::Gauge, seq![card_label(card)], signed_dec((t.max_gddr_temperature_c as i64) as int));
    let b = chip_gauge_lines(CHIP_MAX_GDDR_TEMPERATURE_CELSIUS@, CHIP_MAX_GDDR_TEMPERATURE_CELSIUS_HELP@, card, t.max_gddr_temperature_c as i64);
    let v = seq![seq![(seq![card_label(card)], signed_dec((t.max_gddr_temperature_c as i64) as int))]];
    lemma_join_told(a, b, 32, 35, 36, u, v);
    let a = a + b;
    let u = u + v;
    lemma_pairs_told(36, CHIP_GDDR_TEMPERATURE_CELSIUS_HELP@, MetricKind::Gauge, card, t.gddr_temperature_c@.map(|i: int, n: i32| signed_dec(n as int)));
    let b = pair_lines(CHIP_GDDR_TEMPERATURE_CELSIUS@, CHIP_GDDR_TEMPERATURE_CELSIUS_HELP@, MetricKind::Gauge, card, t.gddr_temperature_c@.map(|i: int, n: i32| signed_dec(n as int)));
    let v = seq![pair_values(card, t.gddr_temperature_c@.map(|i: int, n: i32| signed_dec(n as int)))];
    lemma_join_told(a, b, 32, 36, 37, u, v);
    let a = a + b;
    let u = u + v;
    assert(u =~= thermal_values(card, t));
}

spec fn ecc_values(card: u32, t: ChipTelemetry) -> Seq<Seq<(Seq<Label>, Seq<char>)>> {
    seq![
        pair_values(card, t.gddr_corr_errs@.map(|i: int, n: u32| dec(n as nat))),
        seq![(seq![card_label(card)], dec((t.gddr_uncorr_errs as u64) as nat))],
    ]
}

proof fn lemma_ecc_told(card: u32, t: ChipTelemetry)
    ensures
        tells(ecc_lines(card, t), 37, 39, ecc_values(card, t)),
{
    lemma_pairs_told(37, CHIP_GDDR_CORR_ERRORS_TOTAL_HELP@, MetricKind::Counter, card, t.gddr_corr_errs@.map(|i: int, n: u32| dec(n as nat)));
    let a = pair_lines(CHIP_GDDR_CORR_ERRORS_TOTAL@, CHIP_GDDR_CORR_ERRORS_TOTAL_HELP@, MetricKind::Counter, card, t.gddr_corr_errs@.map(|i: int, n: u32| dec(n as nat)));
    let u = seq![pair_values(card, t.gddr_corr_errs@.map(|i: int, n: u32| dec(n as nat)))];
    lemma_labelled_told(38, CHIP_GDDR_UNCORR_ERRORS_TOTAL_HELP@, MetricKind::Counter, seq![card_label(card)], dec((t.gddr_uncorr_errs as u64) as nat));
    let b = chip_counter_lines(CHIP_GDDR_UNCORR_ERRORS_TOTAL@, CHIP_GDDR_UNCORR_ERRORS_TOTAL_HELP@, card, t.gddr_uncorr_errs as u64);
    let v = seq![seq![(seq![card_label(card)], dec((t.gddr_uncorr_errs as u64) as nat))]];
    lemma_join_told(a, b, 37, 38, 39, u, v);
    let a = a + b;
    let u = u + v;
    assert(u =~= ecc_values(card, t));
}

spec fn clock_values(card: u32, t: ChipTelemetry) -> Seq<Seq<(Seq<Label>, Seq<char>)>> {
    seq![
        seq![(seq![card_label(card)], signed_dec((t.aiclk_mhz as i64) as int))],
        seq![(seq![card_label(card)], signed_dec((t.axiclk_mhz as i64) as int))],
        seq![(seq![card_label(card)], signed_dec((t.arcclk_mhz as i64) as int))],
        seq![(seq![card_label(card)], signed_dec((t.aiclk_limit_max_mhz as i64) as int))],
        card_lane_values(card, t.l2cpuclk_mhz@.map(|i: int, n: u32| dec(n as nat))),
    ]
}

proof fn lemma_clock_told(card: u32, t: ChipTelemetry)
    ensures
        tells(clock_lines(card, t), 39, 44, clock_values(card, t)),
{
    lemma_labelled_told(39, CHIP_AICLK_MHZ_HELP@, MetricKind::Gauge, seq![card_label(card)], signed_dec((t.aiclk_mhz as i64) as int));
    let a = chip_gauge_lines(CHIP_AICLK_MHZ@, CHIP_AICLK_MHZ_HELP@, card, t.aiclk_mhz as i64);
    let u = seq![seq![(seq![card_label(card)], signed_dec((t.aiclk_mhz as i64) as int))]];
    lemma_labelled_told(40, CHIP_AXICLK_MHZ_HELP@, MetricKind::Gauge, seq![card_label(card)], signed_dec((t.axiclk_mhz as i64) as int));
    let b = chip_gauge_lines(CHIP_AXICLK_MHZ@, CHIP_AXICLK_MHZ_HELP@, card, t.axiclk_mhz as i64);
    let v = seq![seq![(seq![card_label(card)], signed_dec((t.axiclk_mhz as i64) as int))]];
    lemma_join_told(a, b, 39, 40, 41, u, v);
    let a = a + b;
    let u = u + v;
    lemma_labelled_told(41, CHIP_ARCCLK_MHZ_HELP@, MetricKind::Gauge, seq![card_label(card)], signed_dec((t.arcclk_mhz as i64) as int));
    let b = chip_gauge_lines(CHIP_ARCCLK_MHZ@, CHIP_ARCCLK_MHZ_HELP@, card, t.arcclk_mhz as i64);
    let v = seq![seq![(seq![card_label(card)], signed_dec((t.arcclk_mhz as i64) as int))]];
    lemma_join_told(a, b, 39, 41, 42, u, v);
    let a = a + b;
    let u = u + v;
    lemma_labelled_told(42, CHIP_AICLK_LIMIT_MAX_MHZ_HELP@, MetricKind::Gauge, seq![card_label(card)], signed_dec((t.aiclk_limit_max_mhz as i64) as int));
    let b = chip_gauge_lines(CHIP_AICLK_LIMIT_MAX_MHZ@, CHIP_AICLK_LIMIT_MAX_MHZ_HELP@, card, t.aiclk_limit_max_mhz as i64);
    let v = seq![seq![(seq![card_label(card)], signed_dec((t.aiclk_limit_max_mhz as i64) as int))]];
    lemma_join_told(a, b, 39, 42, 43, u, v);
    let a = a + b;
    let u = u + v;
    lemma_card_lanes_told(43, CHIP_L2CPUCLK_MHZ_HELP@, card, t.l2cpuclk_mhz@.map(|i: int, n: u32| dec(n as nat)));
    let b = card_lane_lines(CHIP_L2CPUCLK_MHZ@, CHIP_L2CPUCLK_MHZ_HELP@, card, t.l2cpuclk_mhz@.map(|i: int, n: u32| dec(n as nat)));
    let v = seq![card_lane_values(card, t.l2cpuclk_mhz@.map(|i: int, n: u32| dec(n as nat)))];
    lemma_join_told(a, b, 39, 43, 44, u, v);
    let a = a + b;
    let u = u + v;
    assert(u =~= clock_values(card, t));
}

spec fn power_values(card: u32, t: ChipTelemetry) -> Seq<Seq<(Seq<Label>, Seq<char>)>> {
    seq![
        seq![(seq![card_label(card)], signed_dec((t.tdp_w as i64) as int))],
        seq![(seq![card_label(card)], signed_dec((t.tdc_a as i64) as int))],
        seq![(seq![card_label(card)], signed_dec((t.input_power_w as i64) as int))],
        seq![(seq![card_label(card)], signed_dec((t.vcore_mv as i64) as int))],
        seq![(seq![card_label(card)], signed_dec((t.vdd_min_mv as i64) as int))],
        seq![(seq![card_label(card)], signed_dec((t.vdd_max_mv as i64) as int))],
    ]
}

proof fn lemma_power_told(card: u32, t: ChipTelemetry)
    ensures
        tells(power_lines(card, t), 44, 50, power_values(card, t)),
{
    lemma_labelled_told(44, CHIP_TDP_WATTS_HELP@, MetricKind::Gauge, seq![card_label(card)], signed_dec((t.tdp_w as i64) as int));
    let a = chip_gauge_lines(CHIP_TDP_WATTS@, CHIP_TDP_WATTS_HELP@, card, t.tdp_w as i64);
    let u = seq![seq![(seq![card_label(card)], signed_dec((t.tdp_w as i64) as int))]];
    lemma_labelled_told(45, CHIP_TDC_AMPS_HELP@, MetricKind::Gauge, seq![card_label(card)], signed_dec((t.tdc_a as i64) as int));
    let b = chip_gauge_lines(CHIP_TDC_AMPS@, CHIP_TDC_AMPS_HELP@, card, t.tdc_a as i64);
    let v = seq![seq![(seq![card_label(card)], signed_dec((t.tdc_a as i64) as int))]];
    lemma_join_told(a, b, 44, 45, 46, u, v);
    let a = a + b;
    let u = u + v;
    lemma_labelled_told(46, CHIP_INPUT_POWER_WATTS_HELP@, MetricKind::Gauge, seq![card_label(card)], signed_dec((t.input_power_w as i64) as int));
    let b = chip_gauge_lines(CHIP_INPUT_POWER_WATTS@, CHIP_INPUT_POWER_WATTS_HELP@, card, t.input_power_w as i64);
    let v = seq![seq![(seq![card_label(card)], signed_dec((t.input_power_w as i64) as int))]];
    lemma_join_told(a, b, 44, 46, 47, u, v);
    let a = a + b;
    let u = u + v;
    lemma_labelled_told(47, CHIP_VCORE_MILLIVOLTS_HELP@, MetricKind::Gauge, seq![card_label(card)], signed_dec((t.vcore_mv as i64) as int));
    let b = chip_gauge_lines(CHIP_VCORE_MILLIVOLTS@, CHIP_VCORE_MILLIVOLTS_HELP@, card, t.vcore_mv as i64);
    let v = seq![seq![(seq![card_label(card)], signed_dec((t.vcore_mv as i64) as int))]];
    lemma_join_told(a, b, 44, 47, 48, u, v);
    let a = a + b;
    let u = u + v;
    lemma_labelled_told(48, CHIP_VDD_MIN_MILLIVOLTS_HELP@, MetricKind::Gauge, seq![card_label(card)], signed_dec((t.vdd_min_mv as i64) as int));
    let b = chip_gauge_lines(CHIP_VDD_MIN_MILLIVOLTS@, CHIP_VDD_MIN_MILLIVOLTS_HELP@, card, t.vdd_min_mv as i64);
    let v = seq![seq![(seq![card_label(card)], signed_dec((t.vdd_min_mv as i64) as int))]];
    lemma_join_told(a, b, 44, 48, 49, u, v);
    let a = a + b;
    let u = u + v;
    lemma_labelled_told(49, CHIP_VDD_MAX_MILLIVOLTS_HELP@, MetricKind::Gauge, seq![card_label(card)], signed_dec((t.vdd_max_mv as i64) as int));
    let b = chip_gauge_lines(CHIP_VDD_MAX_MILLIVOLTS@, CHIP_VDD_MAX_MILLIVOLTS_HELP@, card, t.vdd_max_mv as i64);
    let v = seq![seq![(seq![card_label(card)], signed_dec((t.vdd_max_mv as i64) as int))]];
    lemma_join_told(a, b, 44, 49, 50, u, v);
    let a = a + b;
    let u = u + v;
    assert(u =~= power_values(card, t));
}

spec fn limit_values(card: u32, t: ChipTelemetry) -> Seq<Seq<(Seq<Label>, Seq<char>)>> {
    seq![
        seq![(seq![card_label(card)], signed_dec((t.tdp_limit_max_w as i64) as int))],
        seq![(seq![card_label(card)], signed_dec((t.tdc_limit_max_a as i64) as int))],
        seq![(seq![card_label(card)], signed_dec((t.board_power_limit_w as i64) as int))],
        seq![(seq![card_label(card)], signed_dec((t.thm_limit_throttle_c as i64) as int))],
    ]
}

proof fn lemma_limit_told(card: u32, t: ChipTelemetry)
    ensures
        tells(limit_lines(card, t), 50, 54, limit_values(card, t)),
{
    lemma_labelled_told(50, CHIP_TDP_LIMIT_MAX_WATTS_HELP@, MetricKind::Gauge, seq![card_label(card)], signed_dec((t.tdp_limit_max_w as i64) as int));
    let a = chip_gauge_lines(CHIP_TDP_LIMIT_MAX_WATTS@, CHIP_TDP_LIMIT_MAX_WATTS_HELP@, card, t.tdp_limit_max_w as i64);
    let u = seq![seq![(seq![card_label(card)], signed_dec((t.tdp_limit_max_w as i64) as int))]];
    lemma_labelled_told(51, CHIP_TDC_LIMIT_MAX_AMPS_HELP@, MetricKind::Gauge, seq![card_label(card)], signed_dec((t.tdc_limit_max_a as i64) as int));
    let b = chip_gauge_lines(CHIP_TDC_LIMIT_MAX_AMPS@, CHIP_TDC_LIMIT_MAX_AMPS_HELP@, card, t.tdc_limit_max_a as i64);
    let v = seq![seq![(seq![card_label(card)], signed_dec((t.tdc_limit_max_a as i64) as int))]];
    lemma_join_told(a, b, 50, 51, 52, u, v);
    let a = a + b;
    let u = u + v;
    lemma_labelled_told(52, CHIP_BOARD_POWER_LIMIT_WATTS_HELP@, MetricKind::Gauge, seq![card_label(card)], signed_dec((t.board_power_limit_w as i64) as int));
    let b = chip_gauge_lines(CHIP_BOARD_POWER_LIMIT_WATTS@, CHIP_BOARD_POWER_LIMIT_WATTS_HELP@, card, t.board_power_limit_w as i64);
    let v = seq![seq![(seq![card_label(card)], signed_dec((t.board_power_limit_w as i64) as int))]];
    lemma_join_told(a, b, 50, 52, 53, u, v);
    let a = a + b;
    let u = u + v;
    lemma_labelled_told(53, CHIP_THM_LIMIT_THROTTLE_CELSIUS_HELP@, MetricKind::Gauge, seq![card_label(card)], signed_dec((t.thm_limit_throttle_c as i64) as int));
    let b = chip_gauge_lines(CHIP_THM_LIMIT_THROTTLE_CELSIUS@, CHIP_THM_LIMIT_THROTTLE_CELSIUS_HELP@, card, t.thm_limit_throttle_c as i64);
    let v = seq![seq![(seq![card_label(card)], signed_dec((t.thm_limit_throttle_c as i64) as int))]];
    lemma_join_told(a, b, 50, 53, 54, u, v);
    let a = a + b;
    let u = u + v;
    assert(u =~= limit_values(card, t));
}

spec fn board_values(card: u32, t: ChipTelemetry) -> Seq<Seq<(Seq<Label>, Seq<char>)>> {
    seq![
        seq![(seq![card_label(card)], signed_dec((t.fan_speed_pct as i64) as int))],
        seq![(seq![card_label(card)], signed_dec((t.fan_rpm as i64) as int))],
        seq![(seq![card_label(card)], signed_dec((t.ddr_status as i64) as int))],
        seq![(seq![card_label(card)], signed_dec((t.ddr_speed_mts as i64) as int))],
        seq![(seq![card_label(card)], dec((t.timer_heartbeat as u64) as nat))],
        seq![(seq![card_label(card)], dec((t.therm_trip_count as u64) as nat))],
        seq![(seq![card_label(card)], signed_dec((t.eth_live_status as i64) as int))],
    ]
}

proof fn lemma_board_told(card: u32, t: ChipTelemetry)
    ensures
        tells(board_lines(card, t), 54, 61, board_values(card, t)),
{
    lemma_labelled_told(54, CHIP_FAN_PCT_HELP@, MetricKind::Gauge, seq![card_label(card)], signed_dec((t.fan_speed_pct as i64) as int));
    let a = chip_gauge_lines(CHIP_FAN_PCT@, CHIP_FAN_PCT_HELP@, card, t.fan_speed_pct as i64);
    let u = seq![seq![(seq![card_label(card)], signed_dec((t.fan_speed_pct as i64) as int))]];
    lemma_labelled_told(55, CHIP_FAN_RPM_HELP@, MetricKind::Gauge, seq![card_label(card)], signed_dec((t.fan_rpm as i64) as int));
    let b = chip_gauge_lines(CHIP_FAN_RPM@, CHIP_FAN_RPM_HELP@, card, t.fan_rpm as i64);
    let v = seq![seq![(seq![card_label(card)], signed_dec((t.fan_rpm as i64) as int))]];
    lemma_join_told(a, b, 54, 55, 56, u, v);
    let a = a + b;
    let u = u + v;
    lemma_labelled_told(56, CHIP_DDR_STATUS_HELP@, MetricKind::Gauge, seq![card_label(card)], signed_dec((t.ddr_status as i64) as int));
    let b = chip_gauge_lines(CHIP_DDR_STATUS@, CHIP_DDR_STATUS_HELP@, card, t.ddr_status as i64);
    let v = seq![seq![(seq![card_label(card)], signed_dec((t.ddr_status as i64) as int))]];
    lemma_join_told(a, b, 54, 56, 57, u, v);
    let a = a + b;
    let u = u + v;
    lemma_labelled_told(57, CHIP_DDR_SPEED_MTS_HELP@, MetricKind::Gauge, seq![card_label(card)], signed_dec((t.ddr_speed_mts as i64) as int));
    let b = chip_gauge_lines(CHIP_DDR_SPEED_MTS@, CHIP_DDR_SPEED_MTS_HELP@, card, t.ddr_speed_mts as i64);
    let v = seq![seq![(seq![card_label(card)], signed_dec((t.ddr_speed_mts as i64) as int))]];
    lemma_join_told(a, b, 54, 57, 58, u, v);
    let a = a + b;
    let u = u + v;
    lemma_labelled_told(58, CHIP_ARC_HEARTBEAT_TOTAL_HELP@, MetricKind::Counter, seq![card_label(card)], dec((t.timer_heartbeat as u64) as nat));
    let b = chip_counter_lines(CHIP_ARC_HEARTBEAT_TOTAL@, CHIP_ARC_HEARTBEAT_TOTAL_HELP@, card, t.timer_heartbeat as u64);
    let v = seq![seq![(seq![card_label(card)], dec((t.timer_heartbeat as u64) as nat))]];
    lemma_join_told(a, b, 54, 58, 59, u, v);
    let a = a + b;
    let u = u + v;
    lemma_labelled_told(59, CHIP_THERM_TRIP_TOTAL_HELP@, MetricKind::Counter, seq![card_label(card)], dec((t.therm_trip_count as u64) as nat));
    let b = chip_counter_lines(CHIP_THERM_TRIP_TOTAL@, CHIP_THERM_TRIP_TOTAL_HELP@, card, t.therm_trip_count as u64);
    let v = seq![seq![(seq![card_label(card)], dec((t.therm_trip_count as u64) as nat))]];
    lemma_join_told(a, b, 54, 59, 60, u, v);
    let a = a + b;
    let u = u + v;
    lemma_labelled_told(60, CHIP_ETH_LIVE_STATUS_HELP@, MetricKind::Gauge, seq![card_label(card)], signed_dec((t.eth_live_status as i64) as int));
    let b = chip_gauge_lines(CHIP_ETH_LIVE_STATUS@, CHIP_ETH_LIVE_STATUS_HELP@, card, t.eth_live_status as i64);
    let v = seq![seq![(seq![card_label(card)], signed_dec((t.eth_live_status as i64) as int))]];
    lemma_join_told(a, b, 54, 60, 61, u, v);
    let a = a + b;
    let u = u + v;
    assert(u =~= board_values(card, t));
}

/// What is told of a slot under the metric at place `x`.
spec fn slot_said(slot: Option<SlotGauges>, i: int, x: int) -> Seq<(Seq<Label>, Seq<char>)> {
    let labels = seq![idx_label(i)];
    if x == 27 {
        seq![
            (
                labels,
                if slot is Some {
                    "1"@
                } else {
                    "0"@
                },
            ),
        ]
    } else if x == 28 {
        match slot {
            Some(g) => seq![(labels, signed_dec(g.uptime_seconds as int))],
            None => Seq::empty(),
        }
    } else if x == 29 {
        seq![
            (
                labels,
                match slot {
                    Some(g) => dec(g.disks as nat),
                    None => "0"@,
                },
            ),
        ]
    } else if x == 30 {
        seq![
            (
                labels,
                if slot is Some && slot->0.net {
                    "1"@
                } else {
                    "0"@
                },
            ),
        ]
    } else {
        Seq::empty()
    }
}

spec fn slots_said(slots: Seq<Option<SlotGauges>>, n: nat, x: int) -> Seq<(Seq<Label>, Seq<char>)>
    decreases n,
{
    if n == 0 {
        Seq::empty()
    } else {
        slots_said(slots, (n - 1) as nat, x) + slot_said(slots[n - 1], n - 1, x)
    }
}

#[verifier::rlimit(40)]
proof fn lemma_slot_block_told(slot: Option<SlotGauges>, i: int, x: int)
    requires
        0 <= x < metric_names().len(),
    ensures
        samples(slot_block(slot, i), metric_names()[x]) == slot_said(slot, i, x),
{
    metric_names_are_distinct();
    let name = metric_names()[x];
    assert(metric_names()[27] == L2CPU_RUNNING@);
    assert(metric_names()[28] == L2CPU_UPTIME_SECONDS@);
    assert(metric_names()[29] == L2CPU_DISKS@);
    assert(metric_names()[30] == L2CPU_NET@);
    let block = slot_block(slot, i);
    reveal_with_fuel(samples, 5);
    assert(block.drop_last().drop_last().drop_last().len() <= 1);
    if slot is Some {
        assert(block.drop_last().drop_last().drop_last().drop_last() =~= Seq::<Line>::empty());
    } else {
        assert(block.drop_last().drop_last().drop_last() =~= Seq::<Line>::empty());
    }
    assert(samples(block, name) =~= slot_said(slot, i, x));
}

proof fn lemma_slots_run(slots: Seq<Option<SlotGauges>>, n: nat, x: int)
    requires
        0 <= x < metric_names().len(),
    ensures
        samples(each(n, |i: int| slot_block(slots[i], i)), metric_names()[x]) == slots_said(
            slots,
            n,
            x,
        ),
    decreases n,
{
    let f = |i: int| slot_block(slots[i], i);
    if n > 0 {
        lemma_slots_run(slots, (n - 1) as nat, x);
        lemma_slot_block_told(slots[n - 1], n - 1, x);
        lemma_samples_concat(each((n - 1) as nat, f), f(n - 1), metric_names()[x]);
    }
}

proof fn lemma_head_says_nothing(name: Seq<char>, help: Seq<char>, kind: MetricKind, other: Seq<char>)
    ensures
        samples(head(name, help, kind), other) == Seq::<(Seq<Label>, Seq<char>)>::empty(),
{
    let h = head(name, help, kind);
    reveal_with_fuel(samples, 3);
    assert(h.drop_last() =~= seq![Line::Help(name, help)]);
    assert(h.drop_last().drop_last() =~= Seq::<Line>::empty());
}

spec fn slot_values(s: ScrapeState) -> Seq<Seq<(Seq<Label>, Seq<char>)>> {
    seq![
        slots_said(s.slots@, 4, 27),
        slots_said(s.slots@, 4, 28),
        slots_said(s.slots@, 4, 29),
        slots_said(s.slots@, 4, 30),
    ]
}

proof fn lemma_slot_told(s: ScrapeState)
    ensures
        tells(slot_lines(s), 27, 31, slot_values(s)),
{
    reveal(slot_lines);
    reveal(tells);
    let a = head(L2CPU_RUNNING@, L2CPU_RUNNING_HELP@, MetricKind::Gauge);
    let b = head(L2CPU_UPTIME_SECONDS@, L2CPU_UPTIME_SECONDS_HELP@, MetricKind::Gauge);
    let c = head(L2CPU_DISKS@, L2CPU_DISKS_HELP@, MetricKind::Gauge);
    let d = head(L2CPU_NET@, L2CPU_NET_HELP@, MetricKind::Gauge);
    let run = each(4, |i: int| slot_block(s.slots@[i], i));
    assert forall|x: int| 0 <= x < metric_names().len() implies samples(
        slot_lines(s),
        #[trigger] metric_names()[x],
    ) == slots_said(s.slots@, 4, x) by {
        let name = metric_names()[x];
        lemma_head_says_nothing(L2CPU_RUNNING@, L2CPU_RUNNING_HELP@, MetricKind::Gauge, name);
        lemma_head_says_nothing(
            L2CPU_UPTIME_SECONDS@,
            L2CPU_UPTIME_SECONDS_HELP@,
            MetricKind::Gauge,
            name,
        );
        lemma_head_says_nothing(L2CPU_DISKS@, L2CPU_DISKS_HELP@, MetricKind::Gauge, name);
        lemma_head_says_nothing(L2CPU_NET@, L2CPU_NET_HELP@, MetricKind::Gauge, name);
        lemma_samples_concat(a, b, name);
        lemma_samples_concat(a + b, c, name);
        lemma_samples_concat(a + b + c, d, name);
        lemma_samples_concat(a + b + c + d, run, name);
        lemma_slots_run(s.slots@, 4, x);
        assert(samples(slot_lines(s), name) =~= slots_said(s.slots@, 4, x));
    }
    assert forall|x: int| 0 <= x < metric_names().len() && !(27 <= x < 31) implies samples(
        slot_lines(s),
        #[trigger] metric_names()[x],
    ).len() == 0 by {
        reveal_with_fuel(slots_said, 5);
    }
}

spec fn card_info_values(card: u32, t: ChipTelemetry) -> Seq<Seq<(Seq<Label>, Seq<char>)>> {
    seq![seq![(card_labels(card, t), "1"@)]]
}

spec fn telemetry_values(card: u32, t: ChipTelemetry) -> Seq<Seq<(Seq<Label>, Seq<char>)>> {
    card_info_values(card, t) + thermal_values(card, t) + ecc_values(card, t) + clock_values(
        card,
        t,
    ) + power_values(card, t) + limit_values(card, t) + board_values(card, t)
}

proof fn lemma_telemetry_told(card: u32, t: ChipTelemetry)
    ensures
        tells(telemetry_lines(card, t), 31, 61, telemetry_values(card, t)),
{
    lemma_labelled_told(31, CARD_INFO_HELP@, MetricKind::Gauge, card_labels(card, t), "1"@);
    lemma_thermal_told(card, t);
    lemma_ecc_told(card, t);
    lemma_clock_told(card, t);
    lemma_power_told(card, t);
    lemma_limit_told(card, t);
    lemma_board_told(card, t);
    let a = card_info_lines(card, t);
    let u = card_info_values(card, t);
    lemma_join_told(a, thermal_lines(card, t), 31, 32, 37, u, thermal_values(card, t));
    let a = a + thermal_lines(card, t);
    let u = u + thermal_values(card, t);
    lemma_join_told(a, ecc_lines(card, t), 31, 37, 39, u, ecc_values(card, t));
    let a = a + ecc_lines(card, t);
    let u = u + ecc_values(card, t);
    lemma_join_told(a, clock_lines(card, t), 31, 39, 44, u, clock_values(card, t));
    let a = a + clock_lines(card, t);
    let u = u + clock_values(card, t);
    lemma_join_told(a, power_lines(card, t), 31, 44, 50, u, power_values(card, t));
    let a = a + power_lines(card, t);
    let u = u + power_values(card, t);
    lemma_join_told(a, limit_lines(card, t), 31, 50, 54, u, limit_values(card, t));
    let a = a + limit_lines(card, t);
    let u = u + limit_values(card, t);
    lemma_join_told(a, board_lines(card, t), 31, 54, 61, u, board_values(card, t));
}

spec fn chip_values(s: ScrapeState) -> Seq<Seq<(Seq<Label>, Seq<char>)>> {
    match s.telemetry {
        Some(t) => telemetry_values(s.card, t),
        None => Seq::new(30, |i: int| Seq::empty()),
    }
}

proof fn lemma_chip_told(s: ScrapeState)
    ensures
        tells(chip_lines(s), 31, 61, chip_values(s)),
{
    reveal(chip_lines);
    match s.telemetry {
        Some(t) => lemma_telemetry_told(s.card, t),
        None => {
            reveal(tells);
        },
    }
}

spec fn all_values(m: Metrics, s: ScrapeState) -> Seq<Seq<(Seq<Label>, Seq<char>)>> {
    daemon_values(m, s) + l2cpu_values(m) + blk_values(m) + net_values(m) + poll_values(m, s)
        + ring_values(m) + slot_values(s) + chip_values(s)
}

proof fn lemma_all_told(m: Metrics, s: ScrapeState)
    ensures
        tells(prometheus_lines(m, s), 0, 61, all_values(m, s)),
{
    lemma_daemon_told(m, s);
    lemma_l2cpu_told(m);
    lemma_blk_told(m);
    lemma_net_told(m);
    lemma_poll_told(m, s);
    lemma_ring_told(m);
    lemma_slot_told(s);
    lemma_chip_told(s);
    let a = daemon_lines(m, s);
    let u = daemon_values(m, s);
    lemma_join_told(a, l2cpu_lines(m), 0, 6, 9, u, l2cpu_values(m));
    let a = a + l2cpu_lines(m);
    let u = u + l2cpu_values(m);
    lemma_join_told(a, blk_lines(m), 0, 9, 12, u, blk_values(m));
    let a = a + blk_lines(m);
    let u = u + blk_values(m);
    lemma_join_told(a, net_lines(m), 0, 12, 16, u, net_values(m));
    let a = a + net_lines(m);
    let u = u + net_values(m);
    lemma_join_told(a, poll_lines(m, s), 0, 16, 18, u, poll_values(m, s));
    let a = a + poll_lines(m, s);
    let u = u + poll_values(m, s);
    lemma_join_told(a, ring_lines(m), 0, 18, 27, u, ring_values(m));
    let a = a + ring_lines(m);
    let u = u + ring_values(m);
    lemma_join_told(a, slot_lines(s), 0, 27, 31, u, slot_values(s));
    let a = a + slot_lines(s);
    let u = u + slot_values(s);
    lemma_join_told(a, chip_lines(s), 0, 31, 61, u, chip_values(s));
}

proof fn lemma_told_at(lines: Seq<Line>, told: Seq<Seq<(Seq<Label>, Seq<char>)>>, k: int)
    requires
        0 <= k < 61,
        tells(lines, 0, 61, told),
    ensures
        samples(lines, metric_names()[k]) == told[k],
{
    reveal(tells);
}

proof fn lemma_eighth<A>(
    a: Seq<A>,
    b: Seq<A>,
    c: Seq<A>,
    d: Seq<A>,
    e: Seq<A>,
    f: Seq<A>,
    g: Seq<A>,
    h: Seq<A>,
    k: int,
)
    requires
        a.len() == 6,
        b.len() == 3,
        c.len() == 3,
        d.len() == 4,
        e.len() == 2,
        f.len() == 9,
        g.len() == 4,
        h.len() == 30,
        0 <= k < 61,
    ensures
        (a + b + c + d + e + f + g + h)[k] == if k < 6 {
            a[k]
        } else if k < 9 {
            b[k - 6]
        } else if k < 12 {
            c[k - 9]
        } else if k < 16 {
            d[k - 12]
        } else if k < 18 {
            e[k - 16]
        } else if k < 27 {
            f[k - 18]
        } else if k < 31 {
            g[k - 27]
        } else {
            h[k - 31]
        },
{
}

#[verifier::spinoff_prover]
#[verifier::rlimit(60)]
proof fn lemma_told(m: Metrics, s: ScrapeState, k: int)
    requires
        0 <= k < 61,
    ensures
        samples(prometheus_lines(m, s), metric_names()[k]) == if k < 6 {
            daemon_values(m, s)[k]
        } else if k < 9 {
            l2cpu_values(m)[k - 6]
        } else if k < 12 {
            blk_values(m)[k - 9]
        } else if k < 16 {
            net_values(m)[k - 12]
        } else if k < 18 {
            poll_values(m, s)[k - 16]
        } else if k < 27 {
            ring_values(m)[k - 18]
        } else if k < 31 {
            slot_values(s)[k - 27]
        } else {
            chip_values(s)[k - 31]
        },
{
    lemma_all_told(m, s);
    lemma_told_at(prometheus_lines(m, s), all_values(m, s), k);
    lemma_eighth(
        daemon_values(m, s),
        l2cpu_values(m),
        blk_values(m),
        net_values(m),
        poll_values(m, s),
        ring_values(m),
        slot_values(s),
        chip_values(s),
        k,
    );
}

#[verifier::rlimit(40)]
proof fn lemma_chip_value(t: ChipTelemetry, card: u32, k: int)
    requires
        31 <= k < 61,
    ensures
        telemetry_values(card, t)[k - 31] == if k < 32 {
            card_info_values(card, t)[k - 31]
        } else if k < 37 {
            thermal_values(card, t)[k - 32]
        } else if k < 39 {
            ecc_values(card, t)[k - 37]
        } else if k < 44 {
            clock_values(card, t)[k - 39]
        } else if k < 50 {
            power_values(card, t)[k - 44]
        } else if k < 54 {
            limit_values(card, t)[k - 50]
        } else {
            board_values(card, t)[k - 54]
        },
{
}

// ---------------------------------------------------------------------------
// What the page says
// ---------------------------------------------------------------------------

/// What the page says of the daemon is its uptime, its clients, its sandbox and, method by method,
/// its requests and failures.
#[verifier::rlimit(40)]
pub proof fn the_daemon_tells_of_itself(m: Metrics, s: ScrapeState)
    ensures
        samples(prometheus_lines(m, s), "bhx_daemon_uptime_seconds"@) == seq![(Seq::<Label>::empty(), signed_dec(s.uptime_seconds as int))],
        samples(prometheus_lines(m, s), "bhx_daemon_clients_total"@) == seq![(Seq::<Label>::empty(), dec(m.daemon_clients_total@ as nat))],
        samples(prometheus_lines(m, s), "bhx_daemon_clients_active"@) == seq![(Seq::<Label>::empty(), signed_dec(m.daemon_clients_active@ as int))],
        samples(prometheus_lines(m, s), "bhx_daemon_sandbox_status"@) == seq![(Seq::<Label>::empty(), signed_dec(m.daemon_sandbox_status@ as int))],
        samples(prometheus_lines(m, s), "bhx_daemon_rpc_total"@) == seq![
            (seq![("method"@, "status"@)], dec(m.daemon_rpc_total.status@ as nat)),
            (seq![("method"@, "boot"@)], dec(m.daemon_rpc_total.boot@ as nat)),
            (seq![("method"@, "attach_console"@)], dec(m.daemon_rpc_total.attach_console@ as nat)),
            (seq![("method"@, "add_disk"@)], dec(m.daemon_rpc_total.add_disk@ as nat)),
            (seq![("method"@, "remove_disk"@)], dec(m.daemon_rpc_total.remove_disk@ as nat)),
            (seq![("method"@, "add_net"@)], dec(m.daemon_rpc_total.add_net@ as nat)),
            (seq![("method"@, "remove_net"@)], dec(m.daemon_rpc_total.remove_net@ as nat)),
            (seq![("method"@, "add_console"@)], dec(m.daemon_rpc_total.add_console@ as nat)),
            (seq![("method"@, "remove_console"@)], dec(m.daemon_rpc_total.remove_console@ as nat)),
            (seq![("method"@, "stop"@)], dec(m.daemon_rpc_total.stop@ as nat)),
            (seq![("method"@, "shutdown"@)], dec(m.daemon_rpc_total.shutdown@ as nat)),
        ],
        samples(prometheus_lines(m, s), "bhx_daemon_rpc_errors_total"@) == seq![
            (seq![("method"@, "status"@)], dec(m.daemon_rpc_errors_total.status@ as nat)),
            (seq![("method"@, "boot"@)], dec(m.daemon_rpc_errors_total.boot@ as nat)),
            (seq![("method"@, "attach_console"@)], dec(m.daemon_rpc_errors_total.attach_console@ as nat)),
            (seq![("method"@, "add_disk"@)], dec(m.daemon_rpc_errors_total.add_disk@ as nat)),
            (seq![("method"@, "remove_disk"@)], dec(m.daemon_rpc_errors_total.remove_disk@ as nat)),
            (seq![("method"@, "add_net"@)], dec(m.daemon_rpc_errors_total.add_net@ as nat)),
            (seq![("method"@, "remove_net"@)], dec(m.daemon_rpc_errors_total.remove_net@ as nat)),
            (seq![("method"@, "add_console"@)], dec(m.daemon_rpc_errors_total.add_console@ as nat)),
            (seq![("method"@, "remove_console"@)], dec(m.daemon_rpc_errors_total.remove_console@ as nat)),
            (seq![("method"@, "stop"@)], dec(m.daemon_rpc_errors_total.stop@ as nat)),
            (seq![("method"@, "shutdown"@)], dec(m.daemon_rpc_errors_total.shutdown@ as nat)),
        ],
{
    lemma_told(m, s, 0);
    assert(metric_names()[0] == "bhx_daemon_uptime_seconds"@);
    lemma_told(m, s, 1);
    assert(metric_names()[1] == "bhx_daemon_clients_total"@);
    lemma_told(m, s, 2);
    assert(metric_names()[2] == "bhx_daemon_clients_active"@);
    lemma_told(m, s, 3);
    assert(metric_names()[3] == "bhx_daemon_sandbox_status"@);
    lemma_told(m, s, 4);
    assert(metric_names()[4] == "bhx_daemon_rpc_total"@);
    assert(samples(prometheus_lines(m, s), "bhx_daemon_rpc_total"@) =~= seq![
            (seq![("method"@, "status"@)], dec(m.daemon_rpc_total.status@ as nat)),
            (seq![("method"@, "boot"@)], dec(m.daemon_rpc_total.boot@ as nat)),
            (seq![("method"@, "attach_console"@)], dec(m.daemon_rpc_total.attach_console@ as nat)),
            (seq![("method"@, "add_disk"@)], dec(m.daemon_rpc_total.add_disk@ as nat)),
            (seq![("method"@, "remove_disk"@)], dec(m.daemon_rpc_total.remove_disk@ as nat)),
            (seq![("method"@, "add_net"@)], dec(m.daemon_rpc_total.add_net@ as nat)),
            (seq![("method"@, "remove_net"@)], dec(m.daemon_rpc_total.remove_net@ as nat)),
            (seq![("method"@, "add_console"@)], dec(m.daemon_rpc_total.add_console@ as nat)),
            (seq![("method"@, "remove_console"@)], dec(m.daemon_rpc_total.remove_console@ as nat)),
            (seq![("method"@, "stop"@)], dec(m.daemon_rpc_total.stop@ as nat)),
            (seq![("method"@, "shutdown"@)], dec(m.daemon_rpc_total.shutdown@ as nat)),
        ]);
    lemma_told(m, s, 5);
    assert(metric_names()[5] == "bhx_daemon_rpc_errors_total"@);
    assert(samples(prometheus_lines(m, s), "bhx_daemon_rpc_errors_total"@) =~= seq![
            (seq![("method"@, "status"@)], dec(m.daemon_rpc_errors_total.status@ as nat)),
            (seq![("method"@, "boot"@)], dec(m.daemon_rpc_errors_total.boot@ as nat)),
            (seq![("method"@, "attach_console"@)], dec(m.daemon_rpc_errors_total.attach_console@ as nat)),
            (seq![("method"@, "add_disk"@)], dec(m.daemon_rpc_errors_total.add_disk@ as nat)),
            (seq![("method"@, "remove_disk"@)], dec(m.daemon_rpc_errors_total.remove_disk@ as nat)),
            (seq![("method"@, "add_net"@)], dec(m.daemon_rpc_errors_total.add_net@ as nat)),
            (seq![("method"@, "remove_net"@)], dec(m.daemon_rpc_errors_total.remove_net@ as nat)),
            (seq![("method"@, "add_console"@)], dec(m.daemon_rpc_errors_total.add_console@ as nat)),
            (seq![("method"@, "remove_console"@)], dec(m.daemon_rpc_errors_total.remove_console@ as nat)),
            (seq![("method"@, "stop"@)], dec(m.daemon_rpc_errors_total.stop@ as nat)),
            (seq![("method"@, "shutdown"@)], dec(m.daemon_rpc_errors_total.shutdown@ as nat)),
        ]);
}

/// Cold boots are told as cold and warm ones as warm; what guests print is told as `g2h` and what
/// they are sent as `h2g`; each under the number of its L2CPU.
#[verifier::rlimit(40)]
pub proof fn boots_and_consoles_are_told_apart(m: Metrics, s: ScrapeState)
    ensures
        samples(prometheus_lines(m, s), "bhx_l2cpu_boot_total"@).len() == 8 && forall|i: int|
            0 <= i < 4 ==> samples(prometheus_lines(m, s), "bhx_l2cpu_boot_total"@)[2 * i] == (
                seq![("idx"@, dec(i as nat)), ("kind"@, "cold"@)],
                dec(#[trigger] m.l2cpu_boot_cold_total@[i] as nat),
            ) && samples(prometheus_lines(m, s), "bhx_l2cpu_boot_total"@)[2 * i + 1] == (
                seq![("idx"@, dec(i as nat)), ("kind"@, "warm"@)],
                dec(m.l2cpu_boot_warm_total@[i] as nat),
            ),
        samples(prometheus_lines(m, s), "bhx_l2cpu_console_clients"@).len() == 4 && forall|i: int|
            0 <= i < 4 ==> #[trigger] samples(prometheus_lines(m, s), "bhx_l2cpu_console_clients"@)[i] == (
                seq![("idx"@, dec(i as nat))],
                signed_dec(m.l2cpu_console_clients@[i] as int),
            ),
        samples(prometheus_lines(m, s), "bhx_l2cpu_console_bytes_total"@).len() == 8 && forall|i: int|
            0 <= i < 4 ==> samples(prometheus_lines(m, s), "bhx_l2cpu_console_bytes_total"@)[2 * i] == (
                seq![("idx"@, dec(i as nat)), ("direction"@, "g2h"@)],
                dec(#[trigger] m.l2cpu_console_bytes_total.g2h_counts()[i] as nat),
            ) && samples(prometheus_lines(m, s), "bhx_l2cpu_console_bytes_total"@)[2 * i + 1] == (
                seq![("idx"@, dec(i as nat)), ("direction"@, "h2g"@)],
                dec(m.l2cpu_console_bytes_total.h2g_counts()[i] as nat),
            ),
{
    lemma_told(m, s, 6);
    assert(metric_names()[6] == "bhx_l2cpu_boot_total"@);
    lemma_split_values(samples(prometheus_lines(m, s), "bhx_l2cpu_boot_total"@), false, "kind"@, "cold"@, m.l2cpu_boot_cold_total@, "warm"@, m.l2cpu_boot_warm_total@);
    lemma_told(m, s, 7);
    assert(metric_names()[7] == "bhx_l2cpu_console_clients"@);
    m.l2cpu_console_clients.has_one_per_l2cpu();
    assert forall|i: int| 0 <= i < 4 implies #[trigger] samples(prometheus_lines(m, s), "bhx_l2cpu_console_clients"@)[i] == (lane_labels(i, false), signed_row(m.l2cpu_console_clients@)[i]) by {}
    lemma_told(m, s, 8);
    assert(metric_names()[8] == "bhx_l2cpu_console_bytes_total"@);
    lemma_split_values(samples(prometheus_lines(m, s), "bhx_l2cpu_console_bytes_total"@), false, "direction"@, "g2h"@, m.l2cpu_console_bytes_total.g2h_counts(), "h2g"@, m.l2cpu_console_bytes_total.h2g_counts());
}

/// Requests and bytes of reads are told as reads and those of writes as writes, errors by their
/// reason; each under the number of its L2CPU.
#[verifier::rlimit(40)]
pub proof fn reads_and_writes_are_told_apart(m: Metrics, s: ScrapeState)
    ensures
        samples(prometheus_lines(m, s), "bhx_blk_requests_total"@).len() == 8 && forall|i: int|
            0 <= i < 4 ==> samples(prometheus_lines(m, s), "bhx_blk_requests_total"@)[2 * i] == (
                seq![("idx"@, dec(i as nat)), ("disk_id"@, "0"@), ("op"@, "read"@)],
                dec(#[trigger] m.blk_requests_total.read_counts()[i] as nat),
            ) && samples(prometheus_lines(m, s), "bhx_blk_requests_total"@)[2 * i + 1] == (
                seq![("idx"@, dec(i as nat)), ("disk_id"@, "0"@), ("op"@, "write"@)],
                dec(m.blk_requests_total.write_counts()[i] as nat),
            ),
        samples(prometheus_lines(m, s), "bhx_blk_bytes_total"@).len() == 8 && forall|i: int|
            0 <= i < 4 ==> samples(prometheus_lines(m, s), "bhx_blk_bytes_total"@)[2 * i] == (
                seq![("idx"@, dec(i as nat)), ("disk_id"@, "0"@), ("op"@, "read"@)],
                dec(#[trigger] m.blk_bytes_total.read_counts()[i] as nat),
            ) && samples(prometheus_lines(m, s), "bhx_blk_bytes_total"@)[2 * i + 1] == (
                seq![("idx"@, dec(i as nat)), ("disk_id"@, "0"@), ("op"@, "write"@)],
                dec(m.blk_bytes_total.write_counts()[i] as nat),
            ),
        samples(prometheus_lines(m, s), "bhx_blk_errors_total"@).len() == 8 && forall|i: int|
            0 <= i < 4 ==> samples(prometheus_lines(m, s), "bhx_blk_errors_total"@)[2 * i] == (
                seq![("idx"@, dec(i as nat)), ("disk_id"@, "0"@), ("reason"@, "ioerr"@)],
                dec(#[trigger] m.blk_errors_total.ioerr_counts()[i] as nat),
            ) && samples(prometheus_lines(m, s), "bhx_blk_errors_total"@)[2 * i + 1] == (
                seq![("idx"@, dec(i as nat)), ("disk_id"@, "0"@), ("reason"@, "unsupp"@)],
                dec(m.blk_errors_total.unsupp_counts()[i] as nat),
            ),
{
    lemma_told(m, s, 9);
    assert(metric_names()[9] == "bhx_blk_requests_total"@);
    lemma_split_values(samples(prometheus_lines(m, s), "bhx_blk_requests_total"@), true, "op"@, "read"@, m.blk_requests_total.read_counts(), "write"@, m.blk_requests_total.write_counts());
    lemma_told(m, s, 10);
    assert(metric_names()[10] == "bhx_blk_bytes_total"@);
    lemma_split_values(samples(prometheus_lines(m, s), "bhx_blk_bytes_total"@), true, "op"@, "read"@, m.blk_bytes_total.read_counts(), "write"@, m.blk_bytes_total.write_counts());
    lemma_told(m, s, 11);
    assert(metric_names()[11] == "bhx_blk_errors_total"@);
    lemma_split_values(samples(prometheus_lines(m, s), "bhx_blk_errors_total"@), true, "reason"@, "ioerr"@, m.blk_errors_total.ioerr_counts(), "unsupp"@, m.blk_errors_total.unsupp_counts());
}

/// Packets and bytes that came in are told as `rx` and those that went out as `tx`, and the
/// interrupts of both kinds of device as what they are; each under the number of its L2CPU.
#[verifier::rlimit(40)]
pub proof fn what_came_in_and_what_went_out_are_told_apart(m: Metrics, s: ScrapeState)
    ensures
        samples(prometheus_lines(m, s), "bhx_net_packets_total"@).len() == 8 && forall|i: int|
            0 <= i < 4 ==> samples(prometheus_lines(m, s), "bhx_net_packets_total"@)[2 * i] == (
                seq![("idx"@, dec(i as nat)), ("direction"@, "rx"@)],
                dec(#[trigger] m.net_packets_total.rx_counts()[i] as nat),
            ) && samples(prometheus_lines(m, s), "bhx_net_packets_total"@)[2 * i + 1] == (
                seq![("idx"@, dec(i as nat)), ("direction"@, "tx"@)],
                dec(m.net_packets_total.tx_counts()[i] as nat),
            ),
        samples(prometheus_lines(m, s), "bhx_net_bytes_total"@).len() == 8 && forall|i: int|
            0 <= i < 4 ==> samples(prometheus_lines(m, s), "bhx_net_bytes_total"@)[2 * i] == (
                seq![("idx"@, dec(i as nat)), ("direction"@, "rx"@)],
                dec(#[trigger] m.net_bytes_total.rx_counts()[i] as nat),
            ) && samples(prometheus_lines(m, s), "bhx_net_bytes_total"@)[2 * i + 1] == (
                seq![("idx"@, dec(i as nat)), ("direction"@, "tx"@)],
                dec(m.net_bytes_total.tx_counts()[i] as nat),
            ),
        samples(prometheus_lines(m, s), "bhx_blk_interrupts_total"@).len() == 4 && forall|i: int|
            0 <= i < 4 ==> #[trigger] samples(prometheus_lines(m, s), "bhx_blk_interrupts_total"@)[i] == (
                seq![("idx"@, dec(i as nat)), ("disk_id"@, "0"@)],
                dec(m.blk_interrupts_total@[i] as nat),
            ),
        samples(prometheus_lines(m, s), "bhx_net_interrupts_total"@).len() == 4 && forall|i: int|
            0 <= i < 4 ==> #[trigger] samples(prometheus_lines(m, s), "bhx_net_interrupts_total"@)[i] == (
                seq![("idx"@, dec(i as nat))],
                dec(m.net_interrupts_total@[i] as nat),
            ),
{
    lemma_told(m, s, 12);
    assert(metric_names()[12] == "bhx_net_packets_total"@);
    lemma_split_values(samples(prometheus_lines(m, s), "bhx_net_packets_total"@), false, "direction"@, "rx"@, m.net_packets_total.rx_counts(), "tx"@, m.net_packets_total.tx_counts());
    lemma_told(m, s, 13);
    assert(metric_names()[13] == "bhx_net_bytes_total"@);
    lemma_split_values(samples(prometheus_lines(m, s), "bhx_net_bytes_total"@), false, "direction"@, "rx"@, m.net_bytes_total.rx_counts(), "tx"@, m.net_bytes_total.tx_counts());
    lemma_told(m, s, 14);
    assert(metric_names()[14] == "bhx_blk_interrupts_total"@);
    m.blk_interrupts_total.has_one_per_l2cpu();
    assert forall|i: int| 0 <= i < 4 implies #[trigger] samples(prometheus_lines(m, s), "bhx_blk_interrupts_total"@)[i] == (lane_labels(i, true), dec_row(m.blk_interrupts_total@)[i]) by {}
    lemma_told(m, s, 15);
    assert(metric_names()[15] == "bhx_net_interrupts_total"@);
    m.net_interrupts_total.has_one_per_l2cpu();
    assert forall|i: int| 0 <= i < 4 implies #[trigger] samples(prometheus_lines(m, s), "bhx_net_interrupts_total"@)[i] == (lane_labels(i, false), dec_row(m.net_interrupts_total@)[i]) by {}
}

proof fn lemma_split_values(
    v: Seq<(Seq<Label>, Seq<char>)>,
    disk: bool,
    key: Seq<char>,
    first: Seq<char>,
    a: Seq<u64>,
    second: Seq<char>,
    b: Seq<u64>,
)
    requires
        v == split_values(disk, key, first, a, second, b),
    ensures
        v.len() == 8,
        forall|i: int|
            0 <= i < 4 ==> v[2 * i] == (
                lane_labels(i, disk).push((key, first)),
                dec(#[trigger] a[i] as nat),
            ) && v[2 * i + 1] == (lane_labels(i, disk).push((key, second)), dec(b[i] as nat)),
        forall|i: int|
            lane_labels(i, false).push((key, first)) == seq![
                ("idx"@, #[trigger] dec(i as nat)),
                (key, first),
            ],
        forall|i: int|
            lane_labels(i, false).push((key, second)) == seq![
                ("idx"@, #[trigger] dec(i as nat)),
                (key, second),
            ],
        forall|i: int|
            lane_labels(i, true).push((key, first)) == seq![
                ("idx"@, #[trigger] dec(i as nat)),
                ("disk_id"@, "0"@),
                (key, first),
            ],
        forall|i: int|
            lane_labels(i, true).push((key, second)) == seq![
                ("idx"@, #[trigger] dec(i as nat)),
                ("disk_id"@, "0"@),
                (key, second),
            ],
{
    assert forall|i: int|
        lane_labels(i, false).push((key, first)) == seq![
            ("idx"@, #[trigger] dec(i as nat)),
            (key, first),
        ] by {
        assert(lane_labels(i, false).push((key, first)) =~= seq![
            ("idx"@, dec(i as nat)),
            (key, first),
        ]);
    }
    assert forall|i: int|
        lane_labels(i, false).push((key, second)) == seq![
            ("idx"@, #[trigger] dec(i as nat)),
            (key, second),
        ] by {
        assert(lane_labels(i, false).push((key, second)) =~= seq![
            ("idx"@, dec(i as nat)),
            (key, second),
        ]);
    }
    assert forall|i: int|
        lane_labels(i, true).push((key, first)) == seq![
            ("idx"@, #[trigger] dec(i as nat)),
            ("disk_id"@, "0"@),
            (key, first),
        ] by {
        assert(lane_labels(i, true).push((key, first)) =~= seq![
            ("idx"@, dec(i as nat)),
            ("disk_id"@, "0"@),
            (key, first),
        ]);
    }
    assert forall|i: int|
        lane_labels(i, true).push((key, second)) == seq![
            ("idx"@, #[trigger] dec(i as nat)),
            ("disk_id"@, "0"@),
            (key, second),
        ] by {
        assert(lane_labels(i, true).push((key, second)) =~= seq![
            ("idx"@, dec(i as nat)),
            ("disk_id"@, "0"@),
            (key, second),
        ]);
    }
}

proof fn lemma_worker_values(
    v: Seq<(Seq<Label>, Seq<char>)>,
    value: spec_fn(int, int, int) -> Seq<char>,
)
    requires
        v == worker_values(value),
    ensures
        v.len() == 60,
        forall|w: WorkerKind, i: int, t: Tier|
            #![trigger w.label(), dec(i as nat), t.label()]
            0 <= i < 4 ==> v.contains(
                (
                    seq![("worker"@, w.label()), ("idx"@, dec(i as nat)), ("tier"@, t.label())],
                    value(w.rank() as int, i, t.rank() as int),
                ),
            ),
{
    assert forall|w: WorkerKind, i: int, t: Tier|
        #![trigger w.label(), dec(i as nat), t.label()]
        0 <= i < 4 implies v.contains(
        (
            seq![("worker"@, w.label()), ("idx"@, dec(i as nat)), ("tier"@, t.label())],
            value(w.rank() as int, i, t.rank() as int),
        ),
    ) by {
        let k = 12 * w.rank() + 3 * i + t.rank();
        assert(WorkerKind::every()[w.rank() as int] == w);
        assert(Tier::every()[t.rank() as int] == t);
        assert(k / 12 == w.rank() && (k % 12) / 3 == i && k % 3 == t.rank());
        assert(v[k] == (
            seq![("worker"@, w.label()), ("idx"@, dec(i as nat)), ("tier"@, t.label())],
            value(w.rank() as int, i, t.rank() as int),
        ));
    }
}

proof fn lemma_iteration_values(v: Seq<(Seq<Label>, Seq<char>)>, counts: WorkerTierCounter)
    requires
        v == worker_values(iteration_texts(counts)),
    ensures
        v.len() == 60,
        forall|w: WorkerKind, i: int, t: Tier|
            #![trigger w.label(), dec(i as nat), t.label()]
            0 <= i < 4 ==> v.contains(
                (
                    seq![("worker"@, w.label()), ("idx"@, dec(i as nat)), ("tier"@, t.label())],
                    dec(counts.count(w, i, t) as nat),
                ),
            ),
{
    lemma_worker_values(v, iteration_texts(counts));
    assert forall|w: WorkerKind, i: int, t: Tier|
        #![trigger w.label(), dec(i as nat), t.label()]
        0 <= i < 4 implies v.contains(
        (
            seq![("worker"@, w.label()), ("idx"@, dec(i as nat)), ("tier"@, t.label())],
            dec(counts.count(w, i, t) as nat),
        ),
    ) by {
        assert(WorkerKind::every()[w.rank() as int] == w);
        assert(Tier::every()[t.rank() as int] == t);
        let f = iteration_texts(counts);
        assert(f(w.rank() as int, i, t.rank() as int) == dec(counts.count(w, i, t) as nat));
    }
}

proof fn lemma_second_value(
    v: Seq<(Seq<Label>, Seq<char>)>,
    value: spec_fn(int, int, int) -> Seq<char>,
    text: Seq<char>,
    w: WorkerKind,
    i: int,
    t: Tier,
)
    requires
        v == worker_values(value),
        0 <= i < 4,
        text == value(w.rank() as int, i, t.rank() as int),
    ensures
        v.contains(
            (seq![("worker"@, w.label()), ("idx"@, dec(i as nat)), ("tier"@, t.label())], text),
        ),
{
    lemma_worker_values(v, value);
    assert(w.label() == w.label() && dec(i as nat) == dec(i as nat) && t.label() == t.label());
}

proof fn lemma_second_values(v: Seq<(Seq<Label>, Seq<char>)>, seconds: TierSeconds)
    requires
        v == worker_values(seconds_texts(seconds)),
    ensures
        v.len() == 60,
        forall|w: WorkerKind, i: int, t: Tier|
            #![trigger w.label(), dec(i as nat), t.label()]
            0 <= i < 4 ==> v.contains(
                (
                    seq![("worker"@, w.label()), ("idx"@, dec(i as nat)), ("tier"@, t.label())],
                    seconds_text(seconds@[w.rank() as int]@[i]@[t.rank() as int]),
                ),
            ),
{
    let f = seconds_texts(seconds);
    assert forall|w: WorkerKind, i: int, t: Tier|
        #![trigger w.label(), dec(i as nat), t.label()]
        0 <= i < 4 implies v.contains(
        (
            seq![("worker"@, w.label()), ("idx"@, dec(i as nat)), ("tier"@, t.label())],
            seconds_text(seconds@[w.rank() as int]@[i]@[t.rank() as int]),
        ),
    ) by {
        lemma_second_value(
            v,
            f,
            seconds_text(seconds@[w.rank() as int]@[i]@[t.rank() as int]),
            w,
            i,
            t,
        );
    }
}

/// Iterations and seconds of the poll loops are told by worker, L2CPU and tier.
#[verifier::rlimit(40)]
pub proof fn the_poll_loops_are_told_apart(m: Metrics, s: ScrapeState)
    ensures
        samples(prometheus_lines(m, s), "bhx_worker_poll_iterations_total"@).len() == 60,
        forall|w: WorkerKind, i: int, t: Tier|
            #![trigger w.label(), dec(i as nat), t.label()]
            0 <= i < 4 ==> samples(prometheus_lines(m, s), "bhx_worker_poll_iterations_total"@).contains(
                (
                    seq![("worker"@, w.label()), ("idx"@, dec(i as nat)), ("tier"@, t.label())],
                    dec(m.worker_poll_iterations_total.count(w, i, t) as nat),
                ),
            ),
        samples(prometheus_lines(m, s), "bhx_worker_tier_seconds_total"@).len() == 60,
        forall|w: WorkerKind, i: int, t: Tier|
            #![trigger w.label(), dec(i as nat), t.label()]
            0 <= i < 4 ==> samples(prometheus_lines(m, s), "bhx_worker_tier_seconds_total"@).contains(
                (
                    seq![("worker"@, w.label()), ("idx"@, dec(i as nat)), ("tier"@, t.label())],
                    seconds_text(s.tier_seconds@[w.rank() as int]@[i]@[t.rank() as int]),
                ),
            ),
{
    lemma_told(m, s, 16);
    assert(metric_names()[16] == "bhx_worker_poll_iterations_total"@);
    lemma_iteration_values(samples(prometheus_lines(m, s), "bhx_worker_poll_iterations_total"@), m.worker_poll_iterations_total);
    lemma_told(m, s, 17);
    assert(metric_names()[17] == "bhx_worker_tier_seconds_total"@);
    lemma_second_values(samples(prometheus_lines(m, s), "bhx_worker_tier_seconds_total"@), s.tier_seconds);
}

/// Each ring and race metric tells the counter that it is named after.
#[verifier::rlimit(40)]
pub proof fn the_rings_are_told_apart(m: Metrics, s: ScrapeState)
    ensures
        samples(prometheus_lines(m, s), "bhx_kick_drops_total"@) == seq![(Seq::<Label>::empty(), dec(m.kick_drops_total@ as nat))],
        samples(prometheus_lines(m, s), "bhx_kick_ring_high_water"@) == seq![(Seq::<Label>::empty(), signed_dec(m.kick_ring_high_water@ as int))],
        samples(prometheus_lines(m, s), "bhx_kick_ring_current_gap"@) == seq![(Seq::<Label>::empty(), signed_dec(m.kick_ring_current_gap@ as int))],
        samples(prometheus_lines(m, s), "bhx_kick_rescued_total"@) == seq![(Seq::<Label>::empty(), dec(m.kick_rescued_total@ as nat))],
        samples(prometheus_lines(m, s), "bhx_kick_throttle_engaged"@) == seq![(Seq::<Label>::empty(), signed_dec(m.kick_throttle_engaged@ as int))],
        samples(prometheus_lines(m, s), "bhx_kick_throttle_transitions_total"@) == seq![(Seq::<Label>::empty(), dec(m.kick_throttle_transitions_total@ as nat))],
        samples(prometheus_lines(m, s), "bhx_sel_ready_races_total"@) == seq![(Seq::<Label>::empty(), dec(m.sel_ready_races_total@ as nat))],
        samples(prometheus_lines(m, s), "bhx_brisc_old_sel_rescue_total"@) == seq![(Seq::<Label>::empty(), dec(m.brisc_old_sel_rescue_total@ as nat))],
        samples(prometheus_lines(m, s), "bhx_uart_feed_drops_total"@).len() == 4 && forall|i: int|
            0 <= i < 4 ==> #[trigger] samples(prometheus_lines(m, s), "bhx_uart_feed_drops_total"@)[i] == (
                seq![("idx"@, dec(i as nat))],
                dec(m.uart_feed_drops_total@[i] as nat),
            ),
{
    lemma_told(m, s, 18);
    assert(metric_names()[18] == "bhx_kick_drops_total"@);
    lemma_told(m, s, 19);
    assert(metric_names()[19] == "bhx_kick_ring_high_water"@);
    lemma_told(m, s, 20);
    assert(metric_names()[20] == "bhx_kick_ring_current_gap"@);
    lemma_told(m, s, 21);
    assert(metric_names()[21] == "bhx_kick_rescued_total"@);
    lemma_told(m, s, 22);
    assert(metric_names()[22] == "bhx_kick_throttle_engaged"@);
    lemma_told(m, s, 23);
    assert(metric_names()[23] == "bhx_kick_throttle_transitions_total"@);
    lemma_told(m, s, 24);
    assert(metric_names()[24] == "bhx_sel_ready_races_total"@);
    lemma_told(m, s, 25);
    assert(metric_names()[25] == "bhx_brisc_old_sel_rescue_total"@);
    lemma_told(m, s, 26);
    assert(metric_names()[26] == "bhx_uart_feed_drops_total"@);
    m.uart_feed_drops_total.has_one_per_l2cpu();
    assert forall|i: int| 0 <= i < 4 implies #[trigger] samples(prometheus_lines(m, s), "bhx_uart_feed_drops_total"@)[i] == (lane_labels(i, false), dec_row(m.uart_feed_drops_total@)[i]) by {}
}

/// Each temperature is told under its own name with the card; there is none without telemetry.
#[verifier::rlimit(40)]
pub proof fn temperatures_are_told_apart(m: Metrics, s: ScrapeState)
    ensures
        s.telemetry matches Some(t) ==> samples(prometheus_lines(m, s), "bhx_chip_asic_temperature_millicelsius"@) == seq![
            (seq![("card"@, dec(s.card as nat))], signed_dec(t.asic_temperature_mc as int)),
        ],
        s.telemetry is None ==> samples(prometheus_lines(m, s), "bhx_chip_asic_temperature_millicelsius"@).len() == 0,
        s.telemetry matches Some(t) ==> samples(prometheus_lines(m, s), "bhx_chip_vreg_temperature_millicelsius"@) == seq![
            (seq![("card"@, dec(s.card as nat))], signed_dec(t.vreg_temperature_mc as int)),
        ],
        s.telemetry is None ==> samples(prometheus_lines(m, s), "bhx_chip_vreg_temperature_millicelsius"@).len() == 0,
        s.telemetry matches Some(t) ==> samples(prometheus_lines(m, s), "bhx_chip_board_temperature_millicelsius"@) == seq![
            (seq![("card"@, dec(s.card as nat))], signed_dec(t.board_temperature_mc as int)),
        ],
        s.telemetry is None ==> samples(prometheus_lines(m, s), "bhx_chip_board_temperature_millicelsius"@).len() == 0,
        s.telemetry matches Some(t) ==> samples(prometheus_lines(m, s), "bhx_chip_max_gddr_temperature_celsius"@) == seq![
            (seq![("card"@, dec(s.card as nat))], signed_dec(t.max_gddr_temperature_c as int)),
        ],
        s.telemetry is None ==> samples(prometheus_lines(m, s), "bhx_chip_max_gddr_temperature_celsius"@).len() == 0,
        s.telemetry matches Some(t) ==> samples(prometheus_lines(m, s), "bhx_chip_gddr_temperature_celsius"@) == seq![
            (seq![("card"@, dec(s.card as nat)), ("pair"@, "01"@)], signed_dec(t.gddr_temperature_c@[0] as int)),
            (seq![("card"@, dec(s.card as nat)), ("pair"@, "23"@)], signed_dec(t.gddr_temperature_c@[1] as int)),
            (seq![("card"@, dec(s.card as nat)), ("pair"@, "45"@)], signed_dec(t.gddr_temperature_c@[2] as int)),
            (seq![("card"@, dec(s.card as nat)), ("pair"@, "67"@)], signed_dec(t.gddr_temperature_c@[3] as int)),
        ],
        s.telemetry is None ==> samples(prometheus_lines(m, s), "bhx_chip_gddr_temperature_celsius"@).len() == 0,
{
    lemma_told(m, s, 32);
    assert(metric_names()[32] == "bhx_chip_asic_temperature_millicelsius"@);
    if let Some(t) = s.telemetry {
        lemma_chip_value(t, s.card, 32);
        assert(samples(prometheus_lines(m, s), "bhx_chip_asic_temperature_millicelsius"@) =~= thermal_values(s.card, t)[0]);
    }
    lemma_told(m, s, 33);
    assert(metric_names()[33] == "bhx_chip_vreg_temperature_millicelsius"@);
    if let Some(t) = s.telemetry {
        lemma_chip_value(t, s.card, 33);
        assert(samples(prometheus_lines(m, s), "bhx_chip_vreg_temperature_millicelsius"@) =~= thermal_values(s.card, t)[1]);
    }
    lemma_told(m, s, 34);
    assert(metric_names()[34] == "bhx_chip_board_temperature_millicelsius"@);
    if let Some(t) = s.telemetry {
        lemma_chip_value(t, s.card, 34);
        assert(samples(prometheus_lines(m, s), "bhx_chip_board_temperature_millicelsius"@) =~= thermal_values(s.card, t)[2]);
    }
    lemma_told(m, s, 35);
    assert(metric_names()[35] == "bhx_chip_max_gddr_temperature_celsius"@);
    if let Some(t) = s.telemetry {
        lemma_chip_value(t, s.card, 35);
        assert(samples(prometheus_lines(m, s), "bhx_chip_max_gddr_temperature_celsius"@) =~= thermal_values(s.card, t)[3]);
    }
    lemma_told(m, s, 36);
    assert(metric_names()[36] == "bhx_chip_gddr_temperature_celsius"@);
    if let Some(t) = s.telemetry {
        lemma_chip_value(t, s.card, 36);
        assert(samples(prometheus_lines(m, s), "bhx_chip_gddr_temperature_celsius"@) =~= thermal_values(s.card, t)[4]);
        assert(samples(prometheus_lines(m, s), "bhx_chip_gddr_temperature_celsius"@) =~= seq![
            (seq![("card"@, dec(s.card as nat)), ("pair"@, "01"@)], signed_dec(t.gddr_temperature_c@[0] as int)),
            (seq![("card"@, dec(s.card as nat)), ("pair"@, "23"@)], signed_dec(t.gddr_temperature_c@[1] as int)),
            (seq![("card"@, dec(s.card as nat)), ("pair"@, "45"@)], signed_dec(t.gddr_temperature_c@[2] as int)),
            (seq![("card"@, dec(s.card as nat)), ("pair"@, "67"@)], signed_dec(t.gddr_temperature_c@[3] as int)),
        ]);
    }
}

/// Corrected errors are told per pair of channels, the others in one number.
#[verifier::rlimit(40)]
pub proof fn memory_errors_are_told_apart(m: Metrics, s: ScrapeState)
    ensures
        s.telemetry matches Some(t) ==> samples(prometheus_lines(m, s), "bhx_chip_gddr_corr_errors_total"@) == seq![
            (seq![("card"@, dec(s.card as nat)), ("pair"@, "01"@)], dec(t.gddr_corr_errs@[0] as nat)),
            (seq![("card"@, dec(s.card as nat)), ("pair"@, "23"@)], dec(t.gddr_corr_errs@[1] as nat)),
            (seq![("card"@, dec(s.card as nat)), ("pair"@, "45"@)], dec(t.gddr_corr_errs@[2] as nat)),
            (seq![("card"@, dec(s.card as nat)), ("pair"@, "67"@)], dec(t.gddr_corr_errs@[3] as nat)),
        ],
        s.telemetry is None ==> samples(prometheus_lines(m, s), "bhx_chip_gddr_corr_errors_total"@).len() == 0,
        s.telemetry matches Some(t) ==> samples(prometheus_lines(m, s), "bhx_chip_gddr_uncorr_errors_total"@) == seq![
            (seq![("card"@, dec(s.card as nat))], dec(t.gddr_uncorr_errs as nat)),
        ],
        s.telemetry is None ==> samples(prometheus_lines(m, s), "bhx_chip_gddr_uncorr_errors_total"@).len() == 0,
{
    lemma_told(m, s, 37);
    assert(metric_names()[37] == "bhx_chip_gddr_corr_errors_total"@);
    if let Some(t) = s.telemetry {
        lemma_chip_value(t, s.card, 37);
        assert(samples(prometheus_lines(m, s), "bhx_chip_gddr_corr_errors_total"@) =~= ecc_values(s.card, t)[0]);
        assert(samples(prometheus_lines(m, s), "bhx_chip_gddr_corr_errors_total"@) =~= seq![
            (seq![("card"@, dec(s.card as nat)), ("pair"@, "01"@)], dec(t.gddr_corr_errs@[0] as nat)),
            (seq![("card"@, dec(s.card as nat)), ("pair"@, "23"@)], dec(t.gddr_corr_errs@[1] as nat)),
            (seq![("card"@, dec(s.card as nat)), ("pair"@, "45"@)], dec(t.gddr_corr_errs@[2] as nat)),
            (seq![("card"@, dec(s.card as nat)), ("pair"@, "67"@)], dec(t.gddr_corr_errs@[3] as nat)),
        ]);
    }
    lemma_told(m, s, 38);
    assert(metric_names()[38] == "bhx_chip_gddr_uncorr_errors_total"@);
    if let Some(t) = s.telemetry {
        lemma_chip_value(t, s.card, 38);
        assert(samples(prometheus_lines(m, s), "bhx_chip_gddr_uncorr_errors_total"@) =~= ecc_values(s.card, t)[1]);
    }
}

/// Each clock is told under its own name, those of the L2CPUs one by one.
#[verifier::rlimit(40)]
pub proof fn clocks_are_told_apart(m: Metrics, s: ScrapeState)
    ensures
        s.telemetry matches Some(t) ==> samples(prometheus_lines(m, s), "bhx_chip_aiclk_mhz"@) == seq![
            (seq![("card"@, dec(s.card as nat))], signed_dec(t.aiclk_mhz as int)),
        ],
        s.telemetry is None ==> samples(prometheus_lines(m, s), "bhx_chip_aiclk_mhz"@).len() == 0,
        s.telemetry matches Some(t) ==> samples(prometheus_lines(m, s), "bhx_chip_axiclk_mhz"@) == seq![
            (seq![("card"@, dec(s.card as nat))], signed_dec(t.axiclk_mhz as int)),
        ],
        s.telemetry is None ==> samples(prometheus_lines(m, s), "bhx_chip_axiclk_mhz"@).len() == 0,
        s.telemetry matches Some(t) ==> samples(prometheus_lines(m, s), "bhx_chip_arcclk_mhz"@) == seq![
            (seq![("card"@, dec(s.card as nat))], signed_dec(t.arcclk_mhz as int)),
        ],
        s.telemetry is None ==> samples(prometheus_lines(m, s), "bhx_chip_arcclk_mhz"@).len() == 0,
        s.telemetry matches Some(t) ==> samples(prometheus_lines(m, s), "bhx_chip_aiclk_limit_max_mhz"@) == seq![
            (seq![("card"@, dec(s.card as nat))], signed_dec(t.aiclk_limit_max_mhz as int)),
        ],
        s.telemetry is None ==> samples(prometheus_lines(m, s), "bhx_chip_aiclk_limit_max_mhz"@).len() == 0,
        s.telemetry matches Some(t) ==> samples(prometheus_lines(m, s), "bhx_chip_l2cpuclk_mhz"@) == seq![
            (seq![("card"@, dec(s.card as nat)), ("idx"@, dec(0))], dec(t.l2cpuclk_mhz@[0] as nat)),
            (seq![("card"@, dec(s.card as nat)), ("idx"@, dec(1))], dec(t.l2cpuclk_mhz@[1] as nat)),
            (seq![("card"@, dec(s.card as nat)), ("idx"@, dec(2))], dec(t.l2cpuclk_mhz@[2] as nat)),
            (seq![("card"@, dec(s.card as nat)), ("idx"@, dec(3))], dec(t.l2cpuclk_mhz@[3] as nat)),
        ],
        s.telemetry is None ==> samples(prometheus_lines(m, s), "bhx_chip_l2cpuclk_mhz"@).len() == 0,
{
    lemma_told(m, s, 39);
    assert(metric_names()[39] == "bhx_chip_aiclk_mhz"@);
    if let Some(t) = s.telemetry {
        lemma_chip_value(t, s.card, 39);
        assert(samples(prometheus_lines(m, s), "bhx_chip_aiclk_mhz"@) =~= clock_values(s.card, t)[0]);
    }
    lemma_told(m, s, 40);
    assert(metric_names()[40] == "bhx_chip_axiclk_mhz"@);
    if let Some(t) = s.telemetry {
        lemma_chip_value(t, s.card, 40);
        assert(samples(prometheus_lines(m, s), "bhx_chip_axiclk_mhz"@) =~= clock_values(s.card, t)[1]);
    }
    lemma_told(m, s, 41);
    assert(metric_names()[41] == "bhx_chip_arcclk_mhz"@);
    if let Some(t) = s.telemetry {
        lemma_chip_value(t, s.card, 41);
        assert(samples(prometheus_lines(m, s), "bhx_chip_arcclk_mhz"@) =~= clock_values(s.card, t)[2]);
    }
    lemma_told(m, s, 42);
    assert(metric_names()[42] == "bhx_chip_aiclk_limit_max_mhz"@);
    if let Some(t) = s.telemetry {
        lemma_chip_value(t, s.card, 42);
        assert(samples(prometheus_lines(m, s), "bhx_chip_aiclk_limit_max_mhz"@) =~= clock_values(s.card, t)[3]);
    }
    lemma_told(m, s, 43);
    assert(metric_names()[43] == "bhx_chip_l2cpuclk_mhz"@);
    if let Some(t) = s.telemetry {
        lemma_chip_value(t, s.card, 43);
        assert(samples(prometheus_lines(m, s), "bhx_chip_l2cpuclk_mhz"@) =~= clock_values(s.card, t)[4]);
        assert(samples(prometheus_lines(m, s), "bhx_chip_l2cpuclk_mhz"@) =~= seq![
            (seq![("card"@, dec(s.card as nat)), ("idx"@, dec(0))], dec(t.l2cpuclk_mhz@[0] as nat)),
            (seq![("card"@, dec(s.card as nat)), ("idx"@, dec(1))], dec(t.l2cpuclk_mhz@[1] as nat)),
            (seq![("card"@, dec(s.card as nat)), ("idx"@, dec(2))], dec(t.l2cpuclk_mhz@[2] as nat)),
            (seq![("card"@, dec(s.card as nat)), ("idx"@, dec(3))], dec(t.l2cpuclk_mhz@[3] as nat)),
        ]);
    }
}

/// Each power, current and voltage is told under its own name.
#[verifier::rlimit(40)]
pub proof fn power_and_voltages_are_told_apart(m: Metrics, s: ScrapeState)
    ensures
        s.telemetry matches Some(t) ==> samples(prometheus_lines(m, s), "bhx_chip_tdp_watts"@) == seq![
            (seq![("card"@, dec(s.card as nat))], signed_dec(t.tdp_w as int)),
        ],
        s.telemetry is None ==> samples(prometheus_lines(m, s), "bhx_chip_tdp_watts"@).len() == 0,
        s.telemetry matches Some(t) ==> samples(prometheus_lines(m, s), "bhx_chip_tdc_amps"@) == seq![
            (seq![("card"@, dec(s.card as nat))], signed_dec(t.tdc_a as int)),
        ],
        s.telemetry is None ==> samples(prometheus_lines(m, s), "bhx_chip_tdc_amps"@).len() == 0,
        s.telemetry matches Some(t) ==> samples(prometheus_lines(m, s), "bhx_chip_input_power_watts"@) == seq![
            (seq![("card"@, dec(s.card as nat))], signed_dec(t.input_power_w as int)),
        ],
        s.telemetry is None ==> samples(prometheus_lines(m, s), "bhx_chip_input_power_watts"@).len() == 0,
        s.telemetry matches Some(t) ==> samples(prometheus_lines(m, s), "bhx_chip_vcore_millivolts"@) == seq![
            (seq![("card"@, dec(s.card as nat))], signed_dec(t.vcore_mv as int)),
        ],
        s.telemetry is None ==> samples(prometheus_lines(m, s), "bhx_chip_vcore_millivolts"@).len() == 0,
        s.telemetry matches Some(t) ==> samples(prometheus_lines(m, s), "bhx_chip_vdd_min_millivolts"@) == seq![
            (seq![("card"@, dec(s.card as nat))], signed_dec(t.vdd_min_mv as int)),
        ],
        s.telemetry is None ==> samples(prometheus_lines(m, s), "bhx_chip_vdd_min_millivolts"@).len() == 0,
        s.telemetry matches Some(t) ==> samples(prometheus_lines(m, s), "bhx_chip_vdd_max_millivolts"@) == seq![
            (seq![("card"@, dec(s.card as nat))], signed_dec(t.vdd_max_mv as int)),
        ],
        s.telemetry is None ==> samples(prometheus_lines(m, s), "bhx_chip_vdd_max_millivolts"@).len() == 0,
{
    lemma_told(m, s, 44);
    assert(metric_names()[44] == "bhx_chip_tdp_watts"@);
    if let Some(t) = s.telemetry {
        lemma_chip_value(t, s.card, 44);
        assert(samples(prometheus_lines(m, s), "bhx_chip_tdp_watts"@) =~= power_values(s.card, t)[0]);
    }
    lemma_told(m, s, 45);
    assert(metric_names()[45] == "bhx_chip_tdc_amps"@);
    if let Some(t) = s.telemetry {
        lemma_chip_value(t, s.card, 45);
        assert(samples(prometheus_lines(m, s), "bhx_chip_tdc_amps"@) =~= power_values(s.card, t)[1]);
    }
    lemma_told(m, s, 46);
    assert(metric_names()[46] == "bhx_chip_input_power_watts"@);
    if let Some(t) = s.telemetry {
        lemma_chip_value(t, s.card, 46);
        assert(samples(prometheus_lines(m, s), "bhx_chip_input_power_watts"@) =~= power_values(s.card, t)[2]);
    }
    lemma_told(m, s, 47);
    assert(metric_names()[47] == "bhx_chip_vcore_millivolts"@);
    if let Some(t) = s.telemetry {
        lemma_chip_value(t, s.card, 47);
        assert(samples(prometheus_lines(m, s), "bhx_chip_vcore_millivolts"@) =~= power_values(s.card, t)[3]);
    }
    lemma_told(m, s, 48);
    assert(metric_names()[48] == "bhx_chip_vdd_min_millivolts"@);
    if let Some(t) = s.telemetry {
        lemma_chip_value(t, s.card, 48);
        assert(samples(prometheus_lines(m, s), "bhx_chip_vdd_min_millivolts"@) =~= power_values(s.card, t)[4]);
    }
    lemma_told(m, s, 49);
    assert(metric_names()[49] == "bhx_chip_vdd_max_millivolts"@);
    if let Some(t) = s.telemetry {
        lemma_chip_value(t, s.card, 49);
        assert(samples(prometheus_lines(m, s), "bhx_chip_vdd_max_millivolts"@) =~= power_values(s.card, t)[5]);
    }
}

/// Each limit is told under its own name.
#[verifier::rlimit(40)]
pub proof fn limits_are_told_apart(m: Metrics, s: ScrapeState)
    ensures
        s.telemetry matches Some(t) ==> samples(prometheus_lines(m, s), "bhx_chip_tdp_limit_max_watts"@) == seq![
            (seq![("card"@, dec(s.card as nat))], signed_dec(t.tdp_limit_max_w as int)),
        ],
        s.telemetry is None ==> samples(prometheus_lines(m, s), "bhx_chip_tdp_limit_max_watts"@).len() == 0,
        s.telemetry matches Some(t) ==> samples(prometheus_lines(m, s), "bhx_chip_tdc_limit_max_amps"@) == seq![
            (seq![("card"@, dec(s.card as nat))], signed_dec(t.tdc_limit_max_a as int)),
        ],
        s.telemetry is None ==> samples(prometheus_lines(m, s), "bhx_chip_tdc_limit_max_amps"@).len() == 0,
        s.telemetry matches Some(t) ==> samples(prometheus_lines(m, s), "bhx_chip_board_power_limit_watts"@) == seq![
            (seq![("card"@, dec(s.card as nat))], signed_dec(t.board_power_limit_w as int)),
        ],
        s.telemetry is None ==> samples(prometheus_lines(m, s), "bhx_chip_board_power_limit_watts"@).len() == 0,
        s.telemetry matches Some(t) ==> samples(prometheus_lines(m, s), "bhx_chip_thm_limit_throttle_celsius"@) == seq![
            (seq![("card"@, dec(s.card as nat))], signed_dec(t.thm_limit_throttle_c as int)),
        ],
        s.telemetry is None ==> samples(prometheus_lines(m, s), "bhx_chip_thm_limit_throttle_celsius"@).len() == 0,
{
    lemma_told(m, s, 50);
    assert(metric_names()[50] == "bhx_chip_tdp_limit_max_watts"@);
    if let Some(t) = s.telemetry {
        lemma_chip_value(t, s.card, 50);
        assert(samples(prometheus_lines(m, s), "bhx_chip_tdp_limit_max_watts"@) =~= limit_values(s.card, t)[0]);
    }
    lemma_told(m, s, 51);
    assert(metric_names()[51] == "bhx_chip_tdc_limit_max_amps"@);
    if let Some(t) = s.telemetry {
        lemma_chip_value(t, s.card, 51);
        assert(samples(prometheus_lines(m, s), "bhx_chip_tdc_limit_max_amps"@) =~= limit_values(s.card, t)[1]);
    }
    lemma_told(m, s, 52);
    assert(metric_names()[52] == "bhx_chip_board_power_limit_watts"@);
    if let Some(t) = s.telemetry {
        lemma_chip_value(t, s.card, 52);
        assert(samples(prometheus_lines(m, s), "bhx_chip_board_power_limit_watts"@) =~= limit_values(s.card, t)[2]);
    }
    lemma_told(m, s, 53);
    assert(metric_names()[53] == "bhx_chip_thm_limit_throttle_celsius"@);
    if let Some(t) = s.telemetry {
        lemma_chip_value(t, s.card, 53);
        assert(samples(prometheus_lines(m, s), "bhx_chip_thm_limit_throttle_celsius"@) =~= limit_values(s.card, t)[3]);
    }
}

/// Fans, memory, heartbeat, trips and links are each told under their own name.
#[verifier::rlimit(40)]
pub proof fn the_board_is_told_apart(m: Metrics, s: ScrapeState)
    ensures
        s.telemetry matches Some(t) ==> samples(prometheus_lines(m, s), "bhx_chip_fan_pct"@) == seq![
            (seq![("card"@, dec(s.card as nat))], signed_dec(t.fan_speed_pct as int)),
        ],
        s.telemetry is None ==> samples(prometheus_lines(m, s), "bhx_chip_fan_pct"@).len() == 0,
        s.telemetry matches Some(t) ==> samples(prometheus_lines(m, s), "bhx_chip_fan_rpm"@) == seq![
            (seq![("card"@, dec(s.card as nat))], signed_dec(t.fan_rpm as int)),
        ],
        s.telemetry is None ==> samples(prometheus_lines(m, s), "bhx_chip_fan_rpm"@).len() == 0,
        s.telemetry matches Some(t) ==> samples(prometheus_lines(m, s), "bhx_chip_ddr_status"@) == seq![
            (seq![("card"@, dec(s.card as nat))], signed_dec(t.ddr_status as int)),
        ],
        s.telemetry is None ==> samples(prometheus_lines(m, s), "bhx_chip_ddr_status"@).len() == 0,
        s.telemetry matches Some(t) ==> samples(prometheus_lines(m, s), "bhx_chip_ddr_speed_mts"@) == seq![
            (seq![("card"@, dec(s.card as nat))], signed_dec(t.ddr_speed_mts as int)),
        ],
        s.telemetry is None ==> samples(prometheus_lines(m, s), "bhx_chip_ddr_speed_mts"@).len() == 0,
        s.telemetry matches Some(t) ==> samples(prometheus_lines(m, s), "bhx_chip_arc_heartbeat_total"@) == seq![
            (seq![("card"@, dec(s.card as nat))], dec(t.timer_heartbeat as nat)),
        ],
        s.telemetry is None ==> samples(prometheus_lines(m, s), "bhx_chip_arc_heartbeat_total"@).len() == 0,
        s.telemetry matches Some(t) ==> samples(prometheus_lines(m, s), "bhx_chip_therm_trip_total"@) == seq![
            (seq![("card"@, dec(s.card as nat))], dec(t.therm_trip_count as nat)),
        ],
        s.telemetry is None ==> samples(prometheus_lines(m, s), "bhx_chip_therm_trip_total"@).len() == 0,
        s.telemetry matches Some(t) ==> samples(prometheus_lines(m, s), "bhx_chip_eth_live_status"@) == seq![
            (seq![("card"@, dec(s.card as nat))], signed_dec(t.eth_live_status as int)),
        ],
        s.telemetry is None ==> samples(prometheus_lines(m, s), "bhx_chip_eth_live_status"@).len() == 0,
{
    lemma_told(m, s, 54);
    assert(metric_names()[54] == "bhx_chip_fan_pct"@);
    if let Some(t) = s.telemetry {
        lemma_chip_value(t, s.card, 54);
        assert(samples(prometheus_lines(m, s), "bhx_chip_fan_pct"@) =~= board_values(s.card, t)[0]);
    }
    lemma_told(m, s, 55);
    assert(metric_names()[55] == "bhx_chip_fan_rpm"@);
    if let Some(t) = s.telemetry {
        lemma_chip_value(t, s.card, 55);
        assert(samples(prometheus_lines(m, s), "bhx_chip_fan_rpm"@) =~= board_values(s.card, t)[1]);
    }
    lemma_told(m, s, 56);
    assert(metric_names()[56] == "bhx_chip_ddr_status"@);
    if let Some(t) = s.telemetry {
        lemma_chip_value(t, s.card, 56);
        assert(samples(prometheus_lines(m, s), "bhx_chip_ddr_status"@) =~= board_values(s.card, t)[2]);
    }
    lemma_told(m, s, 57);
    assert(metric_names()[57] == "bhx_chip_ddr_speed_mts"@);
    if let Some(t) = s.telemetry {
        lemma_chip_value(t, s.card, 57);
        assert(samples(prometheus_lines(m, s), "bhx_chip_ddr_speed_mts"@) =~= board_values(s.card, t)[3]);
    }
    lemma_told(m, s, 58);
    assert(metric_names()[58] == "bhx_chip_arc_heartbeat_total"@);
    if let Some(t) = s.telemetry {
        lemma_chip_value(t, s.card, 58);
        assert(samples(prometheus_lines(m, s), "bhx_chip_arc_heartbeat_total"@) =~= board_values(s.card, t)[4]);
    }
    lemma_told(m, s, 59);
    assert(metric_names()[59] == "bhx_chip_therm_trip_total"@);
    if let Some(t) = s.telemetry {
        lemma_chip_value(t, s.card, 59);
        assert(samples(prometheus_lines(m, s), "bhx_chip_therm_trip_total"@) =~= board_values(s.card, t)[5]);
    }
    lemma_told(m, s, 60);
    assert(metric_names()[60] == "bhx_chip_eth_live_status"@);
    if let Some(t) = s.telemetry {
        lemma_chip_value(t, s.card, 60);
        assert(samples(prometheus_lines(m, s), "bhx_chip_eth_live_status"@) =~= board_values(s.card, t)[6]);
    }
}

/// The slots are told L2CPU by L2CPU: whether it runs, its disks and its net, and the uptime of those
/// that run alone.
pub proof fn slots_are_told_apart(m: Metrics, s: ScrapeState)
    ensures
        samples(prometheus_lines(m, s), "bhx_l2cpu_running"@).len() == 4,
        samples(prometheus_lines(m, s), "bhx_l2cpu_disks"@).len() == 4,
        samples(prometheus_lines(m, s), "bhx_l2cpu_net"@).len() == 4,
        forall|i: int|
            0 <= i < 4 ==> {
                let labels = seq![("idx"@, dec(i as nat))];
                let running = samples(prometheus_lines(m, s), "bhx_l2cpu_running"@)[i];
                let disks = samples(prometheus_lines(m, s), "bhx_l2cpu_disks"@)[i];
                let net = samples(prometheus_lines(m, s), "bhx_l2cpu_net"@)[i];
                &&& running.0 == labels && disks.0 == labels && net.0 == labels
                &&& match #[trigger] s.slots@[i] {
                    Some(g) => {
                        &&& running.1 == "1"@
                        &&& disks.1 == dec(g.disks as nat)
                        &&& g.net ==> net.1 == "1"@
                        &&& !g.net ==> net.1 == "0"@
                        &&& samples(prometheus_lines(m, s), "bhx_l2cpu_uptime_seconds"@).contains(
                            (labels, signed_dec(g.uptime_seconds as int)),
                        )
                    },
                    None => running.1 == "0"@ && disks.1 == "0"@ && net.1 == "0"@,
                }
            },
        forall|x: (Seq<Label>, Seq<char>)| #[trigger]
            samples(prometheus_lines(m, s), "bhx_l2cpu_uptime_seconds"@).contains(x) ==> exists|
                i: int,
            |
                0 <= i < 4 && (#[trigger] s.slots@[i]) is Some && x == (
                    seq![("idx"@, dec(i as nat))],
                    signed_dec(s.slots@[i]->0.uptime_seconds as int),
                ),
        samples(prometheus_lines(m, s), "bhx_l2cpu_uptime_seconds"@).len() == s.slots@.filter(
            |slot: Option<SlotGauges>| slot is Some,
        ).len(),
{
    lemma_told(m, s, 27);
    lemma_told(m, s, 28);
    lemma_told(m, s, 29);
    lemma_told(m, s, 30);
    assert(metric_names()[27] == "bhx_l2cpu_running"@);
    assert(metric_names()[28] == "bhx_l2cpu_uptime_seconds"@);
    assert(metric_names()[29] == "bhx_l2cpu_disks"@);
    assert(metric_names()[30] == "bhx_l2cpu_net"@);
    lemma_slots_at(s.slots@, 4, 27);
    lemma_slots_at(s.slots@, 4, 29);
    lemma_slots_at(s.slots@, 4, 30);
    lemma_uptimes(s.slots@, 4);
    assert(s.slots@.take(4) =~= s.slots@);
}

proof fn lemma_slots_at(slots: Seq<Option<SlotGauges>>, n: nat, x: int)
    requires
        x == 27 || x == 29 || x == 30,
    ensures
        slots_said(slots, n, x).len() == n,
        forall|i: int|
            0 <= i < n ==> slots_said(slots, n, x)[i] == slot_said(#[trigger] slots[i], i, x)[0],
    decreases n,
{
    if n > 0 {
        lemma_slots_at(slots, (n - 1) as nat, x);
    }
}

proof fn lemma_uptimes(slots: Seq<Option<SlotGauges>>, n: nat)
    requires
        n <= slots.len(),
    ensures
        slots_said(slots, n, 28).len() == slots.take(n as int).filter(
            |slot: Option<SlotGauges>| slot is Some,
        ).len(),
        forall|i: int|
            0 <= i < n && (#[trigger] slots[i]) is Some ==> slots_said(slots, n, 28).contains(
                (seq![("idx"@, dec(i as nat))], signed_dec(slots[i]->0.uptime_seconds as int)),
            ),
        forall|x: (Seq<Label>, Seq<char>)| #[trigger]
            slots_said(slots, n, 28).contains(x) ==> exists|i: int|
                0 <= i < n && (#[trigger] slots[i]) is Some && x == (
                    seq![("idx"@, dec(i as nat))],
                    signed_dec(slots[i]->0.uptime_seconds as int),
                ),
    decreases n,
{
    let p = |slot: Option<SlotGauges>| slot is Some;
    if n == 0 {
        reveal(Seq::filter);
        assert(slots.take(0).filter(p).len() == 0);
    } else {
        let m = (n - 1) as nat;
        lemma_uptimes(slots, m);
        let before = slots_said(slots, m, 28);
        let last = slot_said(slots[m as int], m as int, 28);
        let all = slots_said(slots, n, 28);
        reveal(Seq::filter);
        assert(slots.take(n as int).drop_last() =~= slots.take(m as int));
        assert(slots.take(n as int).last() == slots[m as int]);
        assert forall|i: int| 0 <= i < n && (#[trigger] slots[i]) is Some implies all.contains(
            (seq![("idx"@, dec(i as nat))], signed_dec(slots[i]->0.uptime_seconds as int)),
        ) by {
            let x = (seq![("idx"@, dec(i as nat))], signed_dec(slots[i]->0.uptime_seconds as int));
            if i < m {
                assert(before.contains(x));
                let j = choose|j: int| 0 <= j < before.len() && before[j] == x;
                assert(all[j] == x);
            } else {
                assert(last[0] == x);
                assert(all[before.len() as int] == x);
            }
        }
        assert forall|x: (Seq<Label>, Seq<char>)| #[trigger] all.contains(x) implies exists|i: int|
            0 <= i < n && (#[trigger] slots[i]) is Some && x == (
                seq![("idx"@, dec(i as nat))],
                signed_dec(slots[i]->0.uptime_seconds as int),
            ) by {
            let j = choose|j: int| 0 <= j < all.len() && all[j] == x;
            if j < before.len() {
                assert(before[j] == x);
                assert(before.contains(x));
            } else {
                assert(slots[m as int] is Some);
            }
        }
    }
}

/// A card is told once, with value 1 and with what identifies it in the labels; not at all without
/// telemetry.
pub proof fn a_card_is_told_once(m: Metrics, s: ScrapeState)
    ensures
        s.telemetry is None ==> samples(prometheus_lines(m, s), "bhx_card_info"@).len() == 0,
        s.telemetry matches Some(t) ==> samples(prometheus_lines(m, s), "bhx_card_info"@) == seq![
            (
                seq![
                    ("card"@, dec(s.card as nat)),
                    ("board_id"@, "0x"@ + zero_padded(hex(t.board_id as nat), 16)),
                    ("asic_id"@, dec(t.asic_id as nat)),
                    ("asic_location"@, dec(t.asic_location as nat)),
                    ("harvesting"@, "0x"@ + zero_padded(hex(t.harvesting_state as nat), 8)),
                    ("enabled_l2cpu"@, "0x"@ + hex(t.enabled_l2cpu as nat)),
                    ("enabled_gddr"@, "0x"@ + hex(t.enabled_gddr as nat)),
                    ("enabled_eth"@, "0x"@ + hex(t.enabled_eth as nat)),
                    ("pcie_usage"@, dec(t.pcie_usage as nat)),
                ],
                "1"@,
            ),
        ],
{
    lemma_told(m, s, 31);
    assert(metric_names()[31] == "bhx_card_info"@);
    if let Some(t) = s.telemetry {
        lemma_chip_value(t, s.card, 31);
    }
}

} // verus!
