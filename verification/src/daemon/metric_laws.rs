//! What holds of every exposition of the daemon's metrics.
use vstd::prelude::*;

use crate::daemon::counters::{RpcMethod, Tier, WorkerKind};
#[allow(unused_imports)]
use crate::daemon::exposition::{
    each, head, help_names, lemma_each_all, lemma_each_samples, lemma_help_names_concat,
    lemma_sound_concat, lemma_sound_family, lemma_sound_samples, line_name, needs_no_escape, plain,
    plain_char, samples_of, sound, typed_before, valid_label_name, valid_labels, valid_line,
    valid_metric_name, Line, MetricKind,
};
#[allow(unused_imports)]
use crate::daemon::metric_helps::{
    lemma_helps_0, lemma_helps_1, lemma_helps_10, lemma_helps_2, lemma_helps_3, lemma_helps_4,
    lemma_helps_5, lemma_helps_6, lemma_helps_7, lemma_helps_8, lemma_helps_9,
};
#[allow(unused_imports)]
use crate::daemon::metric_names::{
    BLK_BYTES_TOTAL, BLK_BYTES_TOTAL_HELP, BLK_ERRORS_TOTAL, BLK_ERRORS_TOTAL_HELP,
    BLK_INTERRUPTS_TOTAL, BLK_INTERRUPTS_TOTAL_HELP, BLK_REQUESTS_TOTAL, BLK_REQUESTS_TOTAL_HELP,
    BRISC_OLD_SEL_RESCUE_TOTAL, BRISC_OLD_SEL_RESCUE_TOTAL_HELP, CARD_INFO, CARD_INFO_HELP,
    CHIP_AICLK_LIMIT_MAX_MHZ, CHIP_AICLK_LIMIT_MAX_MHZ_HELP, CHIP_AICLK_MHZ, CHIP_AICLK_MHZ_HELP,
    CHIP_ARCCLK_MHZ, CHIP_ARCCLK_MHZ_HELP, CHIP_ARC_HEARTBEAT_TOTAL, CHIP_ARC_HEARTBEAT_TOTAL_HELP,
    CHIP_ASIC_TEMPERATURE_MILLICELSIUS, CHIP_ASIC_TEMPERATURE_MILLICELSIUS_HELP, CHIP_AXICLK_MHZ,
    CHIP_AXICLK_MHZ_HELP, CHIP_BOARD_POWER_LIMIT_WATTS, CHIP_BOARD_POWER_LIMIT_WATTS_HELP,
    CHIP_BOARD_TEMPERATURE_MILLICELSIUS, CHIP_BOARD_TEMPERATURE_MILLICELSIUS_HELP,
    CHIP_DDR_SPEED_MTS, CHIP_DDR_SPEED_MTS_HELP, CHIP_DDR_STATUS, CHIP_DDR_STATUS_HELP,
    CHIP_ETH_LIVE_STATUS, CHIP_ETH_LIVE_STATUS_HELP, CHIP_FAN_PCT, CHIP_FAN_PCT_HELP, CHIP_FAN_RPM,
    CHIP_FAN_RPM_HELP, CHIP_GDDR_CORR_ERRORS_TOTAL, CHIP_GDDR_CORR_ERRORS_TOTAL_HELP,
    CHIP_GDDR_TEMPERATURE_CELSIUS, CHIP_GDDR_TEMPERATURE_CELSIUS_HELP,
    CHIP_GDDR_UNCORR_ERRORS_TOTAL, CHIP_GDDR_UNCORR_ERRORS_TOTAL_HELP, CHIP_INPUT_POWER_WATTS,
    CHIP_INPUT_POWER_WATTS_HELP, CHIP_L2CPUCLK_MHZ, CHIP_L2CPUCLK_MHZ_HELP,
    CHIP_MAX_GDDR_TEMPERATURE_CELSIUS, CHIP_MAX_GDDR_TEMPERATURE_CELSIUS_HELP, CHIP_TDC_AMPS,
    CHIP_TDC_AMPS_HELP, CHIP_TDC_LIMIT_MAX_AMPS, CHIP_TDC_LIMIT_MAX_AMPS_HELP,
    CHIP_TDP_LIMIT_MAX_WATTS, CHIP_TDP_LIMIT_MAX_WATTS_HELP, CHIP_TDP_WATTS, CHIP_TDP_WATTS_HELP,
    CHIP_THERM_TRIP_TOTAL, CHIP_THERM_TRIP_TOTAL_HELP, CHIP_THM_LIMIT_THROTTLE_CELSIUS,
    CHIP_THM_LIMIT_THROTTLE_CELSIUS_HELP, CHIP_VCORE_MILLIVOLTS, CHIP_VCORE_MILLIVOLTS_HELP,
    CHIP_VDD_MAX_MILLIVOLTS, CHIP_VDD_MAX_MILLIVOLTS_HELP, CHIP_VDD_MIN_MILLIVOLTS,
    CHIP_VDD_MIN_MILLIVOLTS_HELP, CHIP_VREG_TEMPERATURE_MILLICELSIUS,
    CHIP_VREG_TEMPERATURE_MILLICELSIUS_HELP, DAEMON_CLIENTS_ACTIVE, DAEMON_CLIENTS_ACTIVE_HELP,
    DAEMON_CLIENTS_TOTAL, DAEMON_CLIENTS_TOTAL_HELP, DAEMON_RPC_ERRORS_TOTAL,
    DAEMON_RPC_ERRORS_TOTAL_HELP, DAEMON_RPC_TOTAL, DAEMON_RPC_TOTAL_HELP, DAEMON_SANDBOX_STATUS,
    DAEMON_SANDBOX_STATUS_HELP, DAEMON_UPTIME_SECONDS, DAEMON_UPTIME_SECONDS_HELP, KICK_DROPS_TOTAL,
    KICK_DROPS_TOTAL_HELP, KICK_RESCUED_TOTAL, KICK_RESCUED_TOTAL_HELP, KICK_RING_CURRENT_GAP,
    KICK_RING_CURRENT_GAP_HELP, KICK_RING_HIGH_WATER, KICK_RING_HIGH_WATER_HELP,
    KICK_THROTTLE_ENGAGED, KICK_THROTTLE_ENGAGED_HELP, KICK_THROTTLE_TRANSITIONS_TOTAL,
    KICK_THROTTLE_TRANSITIONS_TOTAL_HELP, L2CPU_BOOT_TOTAL, L2CPU_BOOT_TOTAL_HELP,
    L2CPU_CONSOLE_BYTES_TOTAL, L2CPU_CONSOLE_BYTES_TOTAL_HELP, L2CPU_CONSOLE_CLIENTS,
    L2CPU_CONSOLE_CLIENTS_HELP, L2CPU_DISKS, L2CPU_DISKS_HELP, L2CPU_NET, L2CPU_NET_HELP,
    L2CPU_RUNNING, L2CPU_RUNNING_HELP, L2CPU_UPTIME_SECONDS, L2CPU_UPTIME_SECONDS_HELP,
    NET_BYTES_TOTAL, NET_BYTES_TOTAL_HELP, NET_INTERRUPTS_TOTAL, NET_INTERRUPTS_TOTAL_HELP,
    NET_PACKETS_TOTAL, NET_PACKETS_TOTAL_HELP, SEL_READY_RACES_TOTAL, SEL_READY_RACES_TOTAL_HELP,
    UART_FEED_DROPS_TOTAL, UART_FEED_DROPS_TOTAL_HELP, WORKER_POLL_ITERATIONS_TOTAL,
    WORKER_POLL_ITERATIONS_TOTAL_HELP, WORKER_TIER_SECONDS_TOTAL, WORKER_TIER_SECONDS_TOTAL_HELP,
};
#[allow(unused_imports)]
use crate::daemon::metrics::{
    blk_lines, board_lines, card_info_lines, card_label, card_labels, card_lane_lines,
    chip_counter_lines, chip_gauge_lines, chip_lines, chip_scalar, clock_lines, counter_lines,
    daemon_lines, dec_row, ecc_lines, gauge_lines, idx_label, iteration_texts, l2cpu_lines,
    lane_block, lane_labels, lane_lines, limit_lines, method_block, method_lines, net_lines,
    pair_label, pair_lines, poll_lines, power_lines, prometheus_lines, ring_lines, scalar,
    seconds_text, seconds_texts, signed_row, slot_block, slot_lines, split_block, split_lines, telemetry_lines,
    thermal_lines, worker_lines, worker_sample, ChipTelemetry, Metrics, ScrapeState, SlotGauges,
    Seconds,
};
#[allow(unused_imports)]
use crate::text::{dec, digit_char, digits, hex, signed_dec, zero_padded};

verus! {

/// The metrics, in the order in which they are introduced. The chip's own metrics come last.
pub open spec fn metric_names() -> Seq<Seq<char>> {
    seq![
        DAEMON_UPTIME_SECONDS@,
        DAEMON_CLIENTS_TOTAL@,
        DAEMON_CLIENTS_ACTIVE@,
        DAEMON_SANDBOX_STATUS@,
        DAEMON_RPC_TOTAL@,
        DAEMON_RPC_ERRORS_TOTAL@,
        L2CPU_BOOT_TOTAL@,
        L2CPU_CONSOLE_CLIENTS@,
        L2CPU_CONSOLE_BYTES_TOTAL@,
        BLK_REQUESTS_TOTAL@,
        BLK_BYTES_TOTAL@,
        BLK_ERRORS_TOTAL@,
        NET_PACKETS_TOTAL@,
        NET_BYTES_TOTAL@,
        BLK_INTERRUPTS_TOTAL@,
        NET_INTERRUPTS_TOTAL@,
        WORKER_POLL_ITERATIONS_TOTAL@,
        WORKER_TIER_SECONDS_TOTAL@,
        KICK_DROPS_TOTAL@,
        KICK_RING_HIGH_WATER@,
        KICK_RING_CURRENT_GAP@,
        KICK_RESCUED_TOTAL@,
        KICK_THROTTLE_ENGAGED@,
        KICK_THROTTLE_TRANSITIONS_TOTAL@,
        SEL_READY_RACES_TOTAL@,
        BRISC_OLD_SEL_RESCUE_TOTAL@,
        UART_FEED_DROPS_TOTAL@,
        L2CPU_RUNNING@,
        L2CPU_UPTIME_SECONDS@,
        L2CPU_DISKS@,
        L2CPU_NET@,
        CARD_INFO@,
        CHIP_ASIC_TEMPERATURE_MILLICELSIUS@,
        CHIP_VREG_TEMPERATURE_MILLICELSIUS@,
        CHIP_BOARD_TEMPERATURE_MILLICELSIUS@,
        CHIP_MAX_GDDR_TEMPERATURE_CELSIUS@,
        CHIP_GDDR_TEMPERATURE_CELSIUS@,
        CHIP_GDDR_CORR_ERRORS_TOTAL@,
        CHIP_GDDR_UNCORR_ERRORS_TOTAL@,
        CHIP_AICLK_MHZ@,
        CHIP_AXICLK_MHZ@,
        CHIP_ARCCLK_MHZ@,
        CHIP_AICLK_LIMIT_MAX_MHZ@,
        CHIP_L2CPUCLK_MHZ@,
        CHIP_TDP_WATTS@,
        CHIP_TDC_AMPS@,
        CHIP_INPUT_POWER_WATTS@,
        CHIP_VCORE_MILLIVOLTS@,
        CHIP_VDD_MIN_MILLIVOLTS@,
        CHIP_VDD_MAX_MILLIVOLTS@,
        CHIP_TDP_LIMIT_MAX_WATTS@,
        CHIP_TDC_LIMIT_MAX_AMPS@,
        CHIP_BOARD_POWER_LIMIT_WATTS@,
        CHIP_THM_LIMIT_THROTTLE_CELSIUS@,
        CHIP_FAN_PCT@,
        CHIP_FAN_RPM@,
        CHIP_DDR_STATUS@,
        CHIP_DDR_SPEED_MTS@,
        CHIP_ARC_HEARTBEAT_TOTAL@,
        CHIP_THERM_TRIP_TOTAL@,
        CHIP_ETH_LIVE_STATUS@,
    ]
}

/// How many metrics there are without the chip's own.
pub const DAEMON_METRICS: usize = 31;

/// A number that no two metric names share.
spec fn name_key(s: Seq<char>) -> int {
    (((s.len() * 256 + s[4] as int) * 256 + s[10] as int) * 256 + s[s.len() - 1] as int) * 256
        + s[s.len() - 12] as int
}

/// The place in `metric_names` of the name with a given key.
#[verifier::opaque]
spec fn place(key: int) -> int {
    if key == 109058159476 {
        0
    } else if key == 104763190380 {
        1
    } else if key == 109058155881 {
        2
    } else if key == 109058159470 {
        3
    } else if key == 87583321199 {
        4
    } else if key == 117648092261 {
        5
    } else if key == 87717735541 {
        6
    } else if key == 109192639347 {
        7
    } else if key == 126372506719 {
        8
    } else if key == 96140881009 {
        9
    } else if key == 83256175711 {
        10
    } else if key == 87551011941 {
        11
    } else if key == 92046322785 {
        12
    } else if key == 83457502303 {
        13
    } else if key == 104731012210 {
        14
    } else if key == 104932338802 {
        15
    } else if key == 139441695841 {
        16
    } else if key == 126556793957 {
        17
    } else if key == 87702006879 {
        18
    } else if key == 104881287783 {
        19
    } else if key == 109176254559 {
        20
    } else if key == 96291089509 {
        21
    } else if key == 109176185972 {
        22
    } else if key == 152125860969 {
        23
    } else if key == 109309946975 {
        24
    } else if key == 130500488306 {
        25
    } else if key == 109343763551 {
        26
    } else if key == 74833880882 {
        27
    } else if key == 104898851700 {
        28
    } else if key == 66243031903 {
        29
    } else if key == 57653752936 {
        30
    } else if key == 57502756712 {
        31
    } else if key == 164877267821 {
        32
    } else if key == 164877202285 {
        33
    } else if key == 169171972973 {
        34
    } else if key == 160581120884 {
        35
    } else if key == 143401448308 {
        36
    } else if key == 134811511909 {
        37
    } else if key == 143401446501 {
        38
    } else if key == 78977268329 {
        39
    } else if key == 83273218672 {
        40
    } else if key == 83272825456 {
        41
    } else if key == 121926941289 {
        42
    } else if key == 91858565740 {
        43
    } else if key == 78976938857 {
        44
    } else if key == 74681971560 {
        45
    } else if key == 113337332575 {
        46
    } else if key == 109041644389 {
        47
    } else if key == 117631644526 {
        48
    } else if key == 117631644536 {
        49
    } else if key == 121926611817 {
        50
    } else if key == 117631644525 {
        51
    } else if key == 139107201887 {
        52
    } else if key == 151991645044 {
        53
    } else if key == 70386807907 {
        54
    } else if key == 70386806115 {
        55
    } else if key == 83271906160 {
        56
    } else if key == 96156808036 {
        57
    } else if key == 121927527538 {
        58
    } else if key == 109041970285 {
        59
    } else if key == 104747791199 {
        60
    } else {
        -1
    }
}

proof fn lemma_names_0()
    ensures
        valid_metric_name(DAEMON_UPTIME_SECONDS@),
        needs_no_escape(DAEMON_UPTIME_SECONDS_HELP@),
        place(name_key(DAEMON_UPTIME_SECONDS@)) == 0,
        valid_metric_name(DAEMON_CLIENTS_TOTAL@),
        needs_no_escape(DAEMON_CLIENTS_TOTAL_HELP@),
        place(name_key(DAEMON_CLIENTS_TOTAL@)) == 1,
        valid_metric_name(DAEMON_CLIENTS_ACTIVE@),
        needs_no_escape(DAEMON_CLIENTS_ACTIVE_HELP@),
        place(name_key(DAEMON_CLIENTS_ACTIVE@)) == 2,
        valid_metric_name(DAEMON_SANDBOX_STATUS@),
        needs_no_escape(DAEMON_SANDBOX_STATUS_HELP@),
        place(name_key(DAEMON_SANDBOX_STATUS@)) == 3,
        valid_metric_name(DAEMON_RPC_TOTAL@),
        needs_no_escape(DAEMON_RPC_TOTAL_HELP@),
        place(name_key(DAEMON_RPC_TOTAL@)) == 4,
        valid_metric_name(DAEMON_RPC_ERRORS_TOTAL@),
        needs_no_escape(DAEMON_RPC_ERRORS_TOTAL_HELP@),
        place(name_key(DAEMON_RPC_ERRORS_TOTAL@)) == 5,
{
    reveal(place);
    lemma_helps_0();
    assert(valid_metric_name(DAEMON_UPTIME_SECONDS@) && name_key(DAEMON_UPTIME_SECONDS@) == 109058159476) by {
        reveal_strlit("bhx_daemon_uptime_seconds");
    }
    assert(valid_metric_name(DAEMON_CLIENTS_TOTAL@) && name_key(DAEMON_CLIENTS_TOTAL@) == 104763190380) by {
        reveal_strlit("bhx_daemon_clients_total");
    }
    assert(valid_metric_name(DAEMON_CLIENTS_ACTIVE@) && name_key(DAEMON_CLIENTS_ACTIVE@) == 109058155881) by {
        reveal_strlit("bhx_daemon_clients_active");
    }
    assert(valid_metric_name(DAEMON_SANDBOX_STATUS@) && name_key(DAEMON_SANDBOX_STATUS@) == 109058159470) by {
        reveal_strlit("bhx_daemon_sandbox_status");
    }
    assert(valid_metric_name(DAEMON_RPC_TOTAL@) && name_key(DAEMON_RPC_TOTAL@) == 87583321199) by {
        reveal_strlit("bhx_daemon_rpc_total");
    }
    assert(valid_metric_name(DAEMON_RPC_ERRORS_TOTAL@) && name_key(DAEMON_RPC_ERRORS_TOTAL@) == 117648092261) by {
        reveal_strlit("bhx_daemon_rpc_errors_total");
    }
}

proof fn lemma_names_1()
    ensures
        valid_metric_name(L2CPU_BOOT_TOTAL@),
        needs_no_escape(L2CPU_BOOT_TOTAL_HELP@),
        place(name_key(L2CPU_BOOT_TOTAL@)) == 6,
        valid_metric_name(L2CPU_CONSOLE_CLIENTS@),
        needs_no_escape(L2CPU_CONSOLE_CLIENTS_HELP@),
        place(name_key(L2CPU_CONSOLE_CLIENTS@)) == 7,
        valid_metric_name(L2CPU_CONSOLE_BYTES_TOTAL@),
        needs_no_escape(L2CPU_CONSOLE_BYTES_TOTAL_HELP@),
        place(name_key(L2CPU_CONSOLE_BYTES_TOTAL@)) == 8,
        valid_metric_name(BLK_REQUESTS_TOTAL@),
        needs_no_escape(BLK_REQUESTS_TOTAL_HELP@),
        place(name_key(BLK_REQUESTS_TOTAL@)) == 9,
        valid_metric_name(BLK_BYTES_TOTAL@),
        needs_no_escape(BLK_BYTES_TOTAL_HELP@),
        place(name_key(BLK_BYTES_TOTAL@)) == 10,
        valid_metric_name(BLK_ERRORS_TOTAL@),
        needs_no_escape(BLK_ERRORS_TOTAL_HELP@),
        place(name_key(BLK_ERRORS_TOTAL@)) == 11,
{
    reveal(place);
    lemma_helps_1();
    assert(valid_metric_name(L2CPU_BOOT_TOTAL@) && name_key(L2CPU_BOOT_TOTAL@) == 87717735541) by {
        reveal_strlit("bhx_l2cpu_boot_total");
    }
    assert(valid_metric_name(L2CPU_CONSOLE_CLIENTS@) && name_key(L2CPU_CONSOLE_CLIENTS@) == 109192639347) by {
        reveal_strlit("bhx_l2cpu_console_clients");
    }
    assert(valid_metric_name(L2CPU_CONSOLE_BYTES_TOTAL@) && name_key(L2CPU_CONSOLE_BYTES_TOTAL@) == 126372506719) by {
        reveal_strlit("bhx_l2cpu_console_bytes_total");
    }
    assert(valid_metric_name(BLK_REQUESTS_TOTAL@) && name_key(BLK_REQUESTS_TOTAL@) == 96140881009) by {
        reveal_strlit("bhx_blk_requests_total");
    }
    assert(valid_metric_name(BLK_BYTES_TOTAL@) && name_key(BLK_BYTES_TOTAL@) == 83256175711) by {
        reveal_strlit("bhx_blk_bytes_total");
    }
    assert(valid_metric_name(BLK_ERRORS_TOTAL@) && name_key(BLK_ERRORS_TOTAL@) == 87551011941) by {
        reveal_strlit("bhx_blk_errors_total");
    }
}

proof fn lemma_names_2()
    ensures
        valid_metric_name(NET_PACKETS_TOTAL@),
        needs_no_escape(NET_PACKETS_TOTAL_HELP@),
        place(name_key(NET_PACKETS_TOTAL@)) == 12,
        valid_metric_name(NET_BYTES_TOTAL@),
        needs_no_escape(NET_BYTES_TOTAL_HELP@),
        place(name_key(NET_BYTES_TOTAL@)) == 13,
        valid_metric_name(BLK_INTERRUPTS_TOTAL@),
        needs_no_escape(BLK_INTERRUPTS_TOTAL_HELP@),
        place(name_key(BLK_INTERRUPTS_TOTAL@)) == 14,
        valid_metric_name(NET_INTERRUPTS_TOTAL@),
        needs_no_escape(NET_INTERRUPTS_TOTAL_HELP@),
        place(name_key(NET_INTERRUPTS_TOTAL@)) == 15,
        valid_metric_name(WORKER_POLL_ITERATIONS_TOTAL@),
        needs_no_escape(WORKER_POLL_ITERATIONS_TOTAL_HELP@),
        place(name_key(WORKER_POLL_ITERATIONS_TOTAL@)) == 16,
        valid_metric_name(WORKER_TIER_SECONDS_TOTAL@),
        needs_no_escape(WORKER_TIER_SECONDS_TOTAL_HELP@),
        place(name_key(WORKER_TIER_SECONDS_TOTAL@)) == 17,
{
    reveal(place);
    lemma_helps_2();
    assert(valid_metric_name(NET_PACKETS_TOTAL@) && name_key(NET_PACKETS_TOTAL@) == 92046322785) by {
        reveal_strlit("bhx_net_packets_total");
    }
    assert(valid_metric_name(NET_BYTES_TOTAL@) && name_key(NET_BYTES_TOTAL@) == 83457502303) by {
        reveal_strlit("bhx_net_bytes_total");
    }
    assert(valid_metric_name(BLK_INTERRUPTS_TOTAL@) && name_key(BLK_INTERRUPTS_TOTAL@) == 104731012210) by {
        reveal_strlit("bhx_blk_interrupts_total");
    }
    assert(valid_metric_name(NET_INTERRUPTS_TOTAL@) && name_key(NET_INTERRUPTS_TOTAL@) == 104932338802) by {
        reveal_strlit("bhx_net_interrupts_total");
    }
    assert(valid_metric_name(WORKER_POLL_ITERATIONS_TOTAL@) && name_key(WORKER_POLL_ITERATIONS_TOTAL@) == 139441695841) by {
        reveal_strlit("bhx_worker_poll_iterations_total");
    }
    assert(valid_metric_name(WORKER_TIER_SECONDS_TOTAL@) && name_key(WORKER_TIER_SECONDS_TOTAL@) == 126556793957) by {
        reveal_strlit("bhx_worker_tier_seconds_total");
    }
}

proof fn lemma_names_3()
    ensures
        valid_metric_name(KICK_DROPS_TOTAL@),
        needs_no_escape(KICK_DROPS_TOTAL_HELP@),
        place(name_key(KICK_DROPS_TOTAL@)) == 18,
        valid_metric_name(KICK_RING_HIGH_WATER@),
        needs_no_escape(KICK_RING_HIGH_WATER_HELP@),
        place(name_key(KICK_RING_HIGH_WATER@)) == 19,
        valid_metric_name(KICK_RING_CURRENT_GAP@),
        needs_no_escape(KICK_RING_CURRENT_GAP_HELP@),
        place(name_key(KICK_RING_CURRENT_GAP@)) == 20,
        valid_metric_name(KICK_RESCUED_TOTAL@),
        needs_no_escape(KICK_RESCUED_TOTAL_HELP@),
        place(name_key(KICK_RESCUED_TOTAL@)) == 21,
        valid_metric_name(KICK_THROTTLE_ENGAGED@),
        needs_no_escape(KICK_THROTTLE_ENGAGED_HELP@),
        place(name_key(KICK_THROTTLE_ENGAGED@)) == 22,
        valid_metric_name(KICK_THROTTLE_TRANSITIONS_TOTAL@),
        needs_no_escape(KICK_THROTTLE_TRANSITIONS_TOTAL_HELP@),
        place(name_key(KICK_THROTTLE_TRANSITIONS_TOTAL@)) == 23,
{
    reveal(place);
    lemma_helps_3();
    assert(valid_metric_name(KICK_DROPS_TOTAL@) && name_key(KICK_DROPS_TOTAL@) == 87702006879) by {
        reveal_strlit("bhx_kick_drops_total");
    }
    assert(valid_metric_name(KICK_RING_HIGH_WATER@) && name_key(KICK_RING_HIGH_WATER@) == 104881287783) by {
        reveal_strlit("bhx_kick_ring_high_water");
    }
    assert(valid_metric_name(KICK_RING_CURRENT_GAP@) && name_key(KICK_RING_CURRENT_GAP@) == 109176254559) by {
        reveal_strlit("bhx_kick_ring_current_gap");
    }
    assert(valid_metric_name(KICK_RESCUED_TOTAL@) && name_key(KICK_RESCUED_TOTAL@) == 96291089509) by {
        reveal_strlit("bhx_kick_rescued_total");
    }
    assert(valid_metric_name(KICK_THROTTLE_ENGAGED@) && name_key(KICK_THROTTLE_ENGAGED@) == 109176185972) by {
        reveal_strlit("bhx_kick_throttle_engaged");
    }
    assert(valid_metric_name(KICK_THROTTLE_TRANSITIONS_TOTAL@) && name_key(KICK_THROTTLE_TRANSITIONS_TOTAL@) == 152125860969) by {
        reveal_strlit("bhx_kick_throttle_transitions_total");
    }
}

proof fn lemma_names_4()
    ensures
        valid_metric_name(SEL_READY_RACES_TOTAL@),
        needs_no_escape(SEL_READY_RACES_TOTAL_HELP@),
        place(name_key(SEL_READY_RACES_TOTAL@)) == 24,
        valid_metric_name(BRISC_OLD_SEL_RESCUE_TOTAL@),
        needs_no_escape(BRISC_OLD_SEL_RESCUE_TOTAL_HELP@),
        place(name_key(BRISC_OLD_SEL_RESCUE_TOTAL@)) == 25,
        valid_metric_name(UART_FEED_DROPS_TOTAL@),
        needs_no_escape(UART_FEED_DROPS_TOTAL_HELP@),
        place(name_key(UART_FEED_DROPS_TOTAL@)) == 26,
        valid_metric_name(L2CPU_RUNNING@),
        needs_no_escape(L2CPU_RUNNING_HELP@),
        place(name_key(L2CPU_RUNNING@)) == 27,
        valid_metric_name(L2CPU_UPTIME_SECONDS@),
        needs_no_escape(L2CPU_UPTIME_SECONDS_HELP@),
        place(name_key(L2CPU_UPTIME_SECONDS@)) == 28,
        valid_metric_name(L2CPU_DISKS@),
        needs_no_escape(L2CPU_DISKS_HELP@),
        place(name_key(L2CPU_DISKS@)) == 29,
{
    reveal(place);
    lemma_helps_4();
    assert(valid_metric_name(SEL_READY_RACES_TOTAL@) && name_key(SEL_READY_RACES_TOTAL@) == 109309946975) by {
        reveal_strlit("bhx_sel_ready_races_total");
    }
    assert(valid_metric_name(BRISC_OLD_SEL_RESCUE_TOTAL@) && name_key(BRISC_OLD_SEL_RESCUE_TOTAL@) == 130500488306) by {
        reveal_strlit("bhx_brisc_old_sel_rescue_total");
    }
    assert(valid_metric_name(UART_FEED_DROPS_TOTAL@) && name_key(UART_FEED_DROPS_TOTAL@) == 109343763551) by {
        reveal_strlit("bhx_uart_feed_drops_total");
    }
    assert(valid_metric_name(L2CPU_RUNNING@) && name_key(L2CPU_RUNNING@) == 74833880882) by {
        reveal_strlit("bhx_l2cpu_running");
    }
    assert(valid_metric_name(L2CPU_UPTIME_SECONDS@) && name_key(L2CPU_UPTIME_SECONDS@) == 104898851700) by {
        reveal_strlit("bhx_l2cpu_uptime_seconds");
    }
    assert(valid_metric_name(L2CPU_DISKS@) && name_key(L2CPU_DISKS@) == 66243031903) by {
        reveal_strlit("bhx_l2cpu_disks");
    }
}

proof fn lemma_names_5()
    ensures
        valid_metric_name(L2CPU_NET@),
        needs_no_escape(L2CPU_NET_HELP@),
        place(name_key(L2CPU_NET@)) == 30,
        valid_metric_name(CARD_INFO@),
        needs_no_escape(CARD_INFO_HELP@),
        place(name_key(CARD_INFO@)) == 31,
        valid_metric_name(CHIP_ASIC_TEMPERATURE_MILLICELSIUS@),
        needs_no_escape(CHIP_ASIC_TEMPERATURE_MILLICELSIUS_HELP@),
        place(name_key(CHIP_ASIC_TEMPERATURE_MILLICELSIUS@)) == 32,
        valid_metric_name(CHIP_VREG_TEMPERATURE_MILLICELSIUS@),
        needs_no_escape(CHIP_VREG_TEMPERATURE_MILLICELSIUS_HELP@),
        place(name_key(CHIP_VREG_TEMPERATURE_MILLICELSIUS@)) == 33,
        valid_metric_name(CHIP_BOARD_TEMPERATURE_MILLICELSIUS@),
        needs_no_escape(CHIP_BOARD_TEMPERATURE_MILLICELSIUS_HELP@),
        place(name_key(CHIP_BOARD_TEMPERATURE_MILLICELSIUS@)) == 34,
        valid_metric_name(CHIP_MAX_GDDR_TEMPERATURE_CELSIUS@),
        needs_no_escape(CHIP_MAX_GDDR_TEMPERATURE_CELSIUS_HELP@),
        place(name_key(CHIP_MAX_GDDR_TEMPERATURE_CELSIUS@)) == 35,
{
    reveal(place);
    lemma_helps_5();
    assert(valid_metric_name(L2CPU_NET@) && name_key(L2CPU_NET@) == 57653752936) by {
        reveal_strlit("bhx_l2cpu_net");
    }
    assert(valid_metric_name(CARD_INFO@) && name_key(CARD_INFO@) == 57502756712) by {
        reveal_strlit("bhx_card_info");
    }
    assert(valid_metric_name(CHIP_ASIC_TEMPERATURE_MILLICELSIUS@) && name_key(CHIP_ASIC_TEMPERATURE_MILLICELSIUS@) == 164877267821) by {
        reveal_strlit("bhx_chip_asic_temperature_millicelsius");
    }
    assert(valid_metric_name(CHIP_VREG_TEMPERATURE_MILLICELSIUS@) && name_key(CHIP_VREG_TEMPERATURE_MILLICELSIUS@) == 164877202285) by {
        reveal_strlit("bhx_chip_vreg_temperature_millicelsius");
    }
    assert(valid_metric_name(CHIP_BOARD_TEMPERATURE_MILLICELSIUS@) && name_key(CHIP_BOARD_TEMPERATURE_MILLICELSIUS@) == 169171972973) by {
        reveal_strlit("bhx_chip_board_temperature_millicelsius");
    }
    assert(valid_metric_name(CHIP_MAX_GDDR_TEMPERATURE_CELSIUS@) && name_key(CHIP_MAX_GDDR_TEMPERATURE_CELSIUS@) == 160581120884) by {
        reveal_strlit("bhx_chip_max_gddr_temperature_celsius");
    }
}

proof fn lemma_names_6()
    ensures
        valid_metric_name(CHIP_GDDR_TEMPERATURE_CELSIUS@),
        needs_no_escape(CHIP_GDDR_TEMPERATURE_CELSIUS_HELP@),
        place(name_key(CHIP_GDDR_TEMPERATURE_CELSIUS@)) == 36,
        valid_metric_name(CHIP_GDDR_CORR_ERRORS_TOTAL@),
        needs_no_escape(CHIP_GDDR_CORR_ERRORS_TOTAL_HELP@),
        place(name_key(CHIP_GDDR_CORR_ERRORS_TOTAL@)) == 37,
        valid_metric_name(CHIP_GDDR_UNCORR_ERRORS_TOTAL@),
        needs_no_escape(CHIP_GDDR_UNCORR_ERRORS_TOTAL_HELP@),
        place(name_key(CHIP_GDDR_UNCORR_ERRORS_TOTAL@)) == 38,
        valid_metric_name(CHIP_AICLK_MHZ@),
        needs_no_escape(CHIP_AICLK_MHZ_HELP@),
        place(name_key(CHIP_AICLK_MHZ@)) == 39,
        valid_metric_name(CHIP_AXICLK_MHZ@),
        needs_no_escape(CHIP_AXICLK_MHZ_HELP@),
        place(name_key(CHIP_AXICLK_MHZ@)) == 40,
        valid_metric_name(CHIP_ARCCLK_MHZ@),
        needs_no_escape(CHIP_ARCCLK_MHZ_HELP@),
        place(name_key(CHIP_ARCCLK_MHZ@)) == 41,
{
    reveal(place);
    lemma_helps_6();
    assert(valid_metric_name(CHIP_GDDR_TEMPERATURE_CELSIUS@) && name_key(CHIP_GDDR_TEMPERATURE_CELSIUS@) == 143401448308) by {
        reveal_strlit("bhx_chip_gddr_temperature_celsius");
    }
    assert(valid_metric_name(CHIP_GDDR_CORR_ERRORS_TOTAL@) && name_key(CHIP_GDDR_CORR_ERRORS_TOTAL@) == 134811511909) by {
        reveal_strlit("bhx_chip_gddr_corr_errors_total");
    }
    assert(valid_metric_name(CHIP_GDDR_UNCORR_ERRORS_TOTAL@) && name_key(CHIP_GDDR_UNCORR_ERRORS_TOTAL@) == 143401446501) by {
        reveal_strlit("bhx_chip_gddr_uncorr_errors_total");
    }
    assert(valid_metric_name(CHIP_AICLK_MHZ@) && name_key(CHIP_AICLK_MHZ@) == 78977268329) by {
        reveal_strlit("bhx_chip_aiclk_mhz");
    }
    assert(valid_metric_name(CHIP_AXICLK_MHZ@) && name_key(CHIP_AXICLK_MHZ@) == 83273218672) by {
        reveal_strlit("bhx_chip_axiclk_mhz");
    }
    assert(valid_metric_name(CHIP_ARCCLK_MHZ@) && name_key(CHIP_ARCCLK_MHZ@) == 83272825456) by {
        reveal_strlit("bhx_chip_arcclk_mhz");
    }
}

proof fn lemma_names_7()
    ensures
        valid_metric_name(CHIP_AICLK_LIMIT_MAX_MHZ@),
        needs_no_escape(CHIP_AICLK_LIMIT_MAX_MHZ_HELP@),
        place(name_key(CHIP_AICLK_LIMIT_MAX_MHZ@)) == 42,
        valid_metric_name(CHIP_L2CPUCLK_MHZ@),
        needs_no_escape(CHIP_L2CPUCLK_MHZ_HELP@),
        place(name_key(CHIP_L2CPUCLK_MHZ@)) == 43,
        valid_metric_name(CHIP_TDP_WATTS@),
        needs_no_escape(CHIP_TDP_WATTS_HELP@),
        place(name_key(CHIP_TDP_WATTS@)) == 44,
        valid_metric_name(CHIP_TDC_AMPS@),
        needs_no_escape(CHIP_TDC_AMPS_HELP@),
        place(name_key(CHIP_TDC_AMPS@)) == 45,
        valid_metric_name(CHIP_INPUT_POWER_WATTS@),
        needs_no_escape(CHIP_INPUT_POWER_WATTS_HELP@),
        place(name_key(CHIP_INPUT_POWER_WATTS@)) == 46,
        valid_metric_name(CHIP_VCORE_MILLIVOLTS@),
        needs_no_escape(CHIP_VCORE_MILLIVOLTS_HELP@),
        place(name_key(CHIP_VCORE_MILLIVOLTS@)) == 47,
{
    reveal(place);
    lemma_helps_7();
    assert(valid_metric_name(CHIP_AICLK_LIMIT_MAX_MHZ@) && name_key(CHIP_AICLK_LIMIT_MAX_MHZ@) == 121926941289) by {
        reveal_strlit("bhx_chip_aiclk_limit_max_mhz");
    }
    assert(valid_metric_name(CHIP_L2CPUCLK_MHZ@) && name_key(CHIP_L2CPUCLK_MHZ@) == 91858565740) by {
        reveal_strlit("bhx_chip_l2cpuclk_mhz");
    }
    assert(valid_metric_name(CHIP_TDP_WATTS@) && name_key(CHIP_TDP_WATTS@) == 78976938857) by {
        reveal_strlit("bhx_chip_tdp_watts");
    }
    assert(valid_metric_name(CHIP_TDC_AMPS@) && name_key(CHIP_TDC_AMPS@) == 74681971560) by {
        reveal_strlit("bhx_chip_tdc_amps");
    }
    assert(valid_metric_name(CHIP_INPUT_POWER_WATTS@) && name_key(CHIP_INPUT_POWER_WATTS@) == 113337332575) by {
        reveal_strlit("bhx_chip_input_power_watts");
    }
    assert(valid_metric_name(CHIP_VCORE_MILLIVOLTS@) && name_key(CHIP_VCORE_MILLIVOLTS@) == 109041644389) by {
        reveal_strlit("bhx_chip_vcore_millivolts");
    }
}

proof fn lemma_names_8()
    ensures
        valid_metric_name(CHIP_VDD_MIN_MILLIVOLTS@),
        needs_no_escape(CHIP_VDD_MIN_MILLIVOLTS_HELP@),
        place(name_key(CHIP_VDD_MIN_MILLIVOLTS@)) == 48,
        valid_metric_name(CHIP_VDD_MAX_MILLIVOLTS@),
        needs_no_escape(CHIP_VDD_MAX_MILLIVOLTS_HELP@),
        place(name_key(CHIP_VDD_MAX_MILLIVOLTS@)) == 49,
        valid_metric_name(CHIP_TDP_LIMIT_MAX_WATTS@),
        needs_no_escape(CHIP_TDP_LIMIT_MAX_WATTS_HELP@),
        place(name_key(CHIP_TDP_LIMIT_MAX_WATTS@)) == 50,
        valid_metric_name(CHIP_TDC_LIMIT_MAX_AMPS@),
        needs_no_escape(CHIP_TDC_LIMIT_MAX_AMPS_HELP@),
        place(name_key(CHIP_TDC_LIMIT_MAX_AMPS@)) == 51,
        valid_metric_name(CHIP_BOARD_POWER_LIMIT_WATTS@),
        needs_no_escape(CHIP_BOARD_POWER_LIMIT_WATTS_HELP@),
        place(name_key(CHIP_BOARD_POWER_LIMIT_WATTS@)) == 52,
        valid_metric_name(CHIP_THM_LIMIT_THROTTLE_CELSIUS@),
        needs_no_escape(CHIP_THM_LIMIT_THROTTLE_CELSIUS_HELP@),
        place(name_key(CHIP_THM_LIMIT_THROTTLE_CELSIUS@)) == 53,
{
    reveal(place);
    lemma_helps_8();
    assert(valid_metric_name(CHIP_VDD_MIN_MILLIVOLTS@) && name_key(CHIP_VDD_MIN_MILLIVOLTS@) == 117631644526) by {
        reveal_strlit("bhx_chip_vdd_min_millivolts");
    }
    assert(valid_metric_name(CHIP_VDD_MAX_MILLIVOLTS@) && name_key(CHIP_VDD_MAX_MILLIVOLTS@) == 117631644536) by {
        reveal_strlit("bhx_chip_vdd_max_millivolts");
    }
    assert(valid_metric_name(CHIP_TDP_LIMIT_MAX_WATTS@) && name_key(CHIP_TDP_LIMIT_MAX_WATTS@) == 121926611817) by {
        reveal_strlit("bhx_chip_tdp_limit_max_watts");
    }
    assert(valid_metric_name(CHIP_TDC_LIMIT_MAX_AMPS@) && name_key(CHIP_TDC_LIMIT_MAX_AMPS@) == 117631644525) by {
        reveal_strlit("bhx_chip_tdc_limit_max_amps");
    }
    assert(valid_metric_name(CHIP_BOARD_POWER_LIMIT_WATTS@) && name_key(CHIP_BOARD_POWER_LIMIT_WATTS@) == 139107201887) by {
        reveal_strlit("bhx_chip_board_power_limit_watts");
    }
    assert(valid_metric_name(CHIP_THM_LIMIT_THROTTLE_CELSIUS@) && name_key(CHIP_THM_LIMIT_THROTTLE_CELSIUS@) == 151991645044) by {
        reveal_strlit("bhx_chip_thm_limit_throttle_celsius");
    }
}

proof fn lemma_names_9()
    ensures
        valid_metric_name(CHIP_FAN_PCT@),
        needs_no_escape(CHIP_FAN_PCT_HELP@),
        place(name_key(CHIP_FAN_PCT@)) == 54,
        valid_metric_name(CHIP_FAN_RPM@),
        needs_no_escape(CHIP_FAN_RPM_HELP@),
        place(name_key(CHIP_FAN_RPM@)) == 55,
        valid_metric_name(CHIP_DDR_STATUS@),
        needs_no_escape(CHIP_DDR_STATUS_HELP@),
        place(name_key(CHIP_DDR_STATUS@)) == 56,
        valid_metric_name(CHIP_DDR_SPEED_MTS@),
        needs_no_escape(CHIP_DDR_SPEED_MTS_HELP@),
        place(name_key(CHIP_DDR_SPEED_MTS@)) == 57,
        valid_metric_name(CHIP_ARC_HEARTBEAT_TOTAL@),
        needs_no_escape(CHIP_ARC_HEARTBEAT_TOTAL_HELP@),
        place(name_key(CHIP_ARC_HEARTBEAT_TOTAL@)) == 58,
        valid_metric_name(CHIP_THERM_TRIP_TOTAL@),
        needs_no_escape(CHIP_THERM_TRIP_TOTAL_HELP@),
        place(name_key(CHIP_THERM_TRIP_TOTAL@)) == 59,
{
    reveal(place);
    lemma_helps_9();
    assert(valid_metric_name(CHIP_FAN_PCT@) && name_key(CHIP_FAN_PCT@) == 70386807907) by {
        reveal_strlit("bhx_chip_fan_pct");
    }
    assert(valid_metric_name(CHIP_FAN_RPM@) && name_key(CHIP_FAN_RPM@) == 70386806115) by {
        reveal_strlit("bhx_chip_fan_rpm");
    }
    assert(valid_metric_name(CHIP_DDR_STATUS@) && name_key(CHIP_DDR_STATUS@) == 83271906160) by {
        reveal_strlit("bhx_chip_ddr_status");
    }
    assert(valid_metric_name(CHIP_DDR_SPEED_MTS@) && name_key(CHIP_DDR_SPEED_MTS@) == 96156808036) by {
        reveal_strlit("bhx_chip_ddr_speed_mts");
    }
    assert(valid_metric_name(CHIP_ARC_HEARTBEAT_TOTAL@) && name_key(CHIP_ARC_HEARTBEAT_TOTAL@) == 121927527538) by {
        reveal_strlit("bhx_chip_arc_heartbeat_total");
    }
    assert(valid_metric_name(CHIP_THERM_TRIP_TOTAL@) && name_key(CHIP_THERM_TRIP_TOTAL@) == 109041970285) by {
        reveal_strlit("bhx_chip_therm_trip_total");
    }
}

proof fn lemma_names_10()
    ensures
        valid_metric_name(CHIP_ETH_LIVE_STATUS@),
        needs_no_escape(CHIP_ETH_LIVE_STATUS_HELP@),
        place(name_key(CHIP_ETH_LIVE_STATUS@)) == 60,
{
    reveal(place);
    lemma_helps_10();
    assert(valid_metric_name(CHIP_ETH_LIVE_STATUS@) && name_key(CHIP_ETH_LIVE_STATUS@) == 104747791199) by {
        reveal_strlit("bhx_chip_eth_live_status");
    }
}

/// Every metric name is well formed, and no two of them are the same.
pub proof fn metric_names_are_distinct()
    ensures
        metric_names().no_duplicates(),
        forall|i: int|
            0 <= i < metric_names().len() ==> valid_metric_name(#[trigger] metric_names()[i]),
{
    let names = metric_names();
    lemma_names_0();
    lemma_names_1();
    lemma_names_2();
    lemma_names_3();
    lemma_names_4();
    lemma_names_5();
    lemma_names_6();
    lemma_names_7();
    lemma_names_8();
    lemma_names_9();
    lemma_names_10();
    assert forall|i: int| 0 <= i < names.len() implies place(name_key(#[trigger] names[i])) == i
        && valid_metric_name(names[i]) by {}
    assert forall|i: int, j: int|
        0 <= i < names.len() && 0 <= j < names.len() && i != j implies names[i] != names[j] by {
        assert(place(name_key(names[i])) == i);
        assert(place(name_key(names[j])) == j);
    }
}

proof fn lemma_digit_plain(d: int)
    requires
        0 <= d < 16,
    ensures
        plain_char(digit_char(d)),
{
}

proof fn lemma_digits_plain(n: nat, base: nat)
    requires
        2 <= base <= 16,
    ensures
        plain(digits(n, base)),
    decreases n,
{
    if n < base {
        lemma_digit_plain(n as int);
    } else {
        assert(n / base < n) by (nonlinear_arith)
            requires
                n >= base,
                base >= 2,
        ;
        assert(0 <= n % base < base) by (nonlinear_arith)
            requires
                base >= 2,
        ;
        lemma_digits_plain(n / base, base);
        lemma_digit_plain((n % base) as int);
    }
}

/// A number in decimal is one plain word.
proof fn lemma_dec_plain(n: nat)
    ensures
        plain(dec(n)),
{
    lemma_digits_plain(n, 10);
}

/// So are seconds.
proof fn lemma_seconds_plain(s: Seconds)
    ensures
        plain(seconds_text(s)),
{
    reveal_strlit(".");
    lemma_dec_plain(s.whole as nat);
    lemma_dec_plain(s.digits as nat);
}

proof fn lemma_signed_plain(n: int)
    ensures
        plain(signed_dec(n)),
{
    if n < 0 {
        lemma_digits_plain((-n) as nat, 10);
    } else {
        lemma_digits_plain(n as nat, 10);
    }
}

/// A hexadecimal number behind `0x` is one plain word.
proof fn lemma_prefixed_plain(n: nat, width: nat)
    ensures
        plain("0x"@ + hex(n)),
        plain("0x"@ + zero_padded(hex(n), width)),
{
    reveal_strlit("0x");
    lemma_digits_plain(n, 16);
}

/// The labels in use have valid names, and those with a fixed value a plain one.
proof fn lemma_label_words()
    ensures
        valid_label_name("idx"@),
        valid_label_name("card"@),
        valid_label_name("disk_id"@),
        valid_label_name("method"@),
        valid_label_name("worker"@),
        valid_label_name("tier"@),
        valid_label_name("pair"@),
        plain("0"@),
        plain("1"@),
        forall|i: int| plain((#[trigger] pair_label(i)).1),
{
    reveal_strlit("idx");
    reveal_strlit("card");
    reveal_strlit("disk_id");
    reveal_strlit("method");
    reveal_strlit("worker");
    reveal_strlit("tier");
    reveal_strlit("pair");
    reveal_strlit("0");
    reveal_strlit("1");
    reveal_strlit("01");
    reveal_strlit("23");
    reveal_strlit("45");
    reveal_strlit("67");
}

proof fn lemma_method_plain(m: RpcMethod)
    ensures
        plain(m.label()),
{
    reveal_strlit("status");
    reveal_strlit("boot");
    reveal_strlit("attach_console");
    reveal_strlit("add_disk");
    reveal_strlit("remove_disk");
    reveal_strlit("add_net");
    reveal_strlit("remove_net");
    reveal_strlit("add_console");
    reveal_strlit("remove_console");
    reveal_strlit("stop");
    reveal_strlit("shutdown");
}

proof fn lemma_worker_plain(w: WorkerKind, t: Tier)
    ensures
        plain(w.label()),
        plain(t.label()),
{
    reveal_strlit("virtio_blk");
    reveal_strlit("virtio_net");
    reveal_strlit("virtio_console");
    reveal_strlit("virtio_rng");
    reveal_strlit("chip_console");
    reveal_strlit("fast");
    reveal_strlit("slow");
    reveal_strlit("idle");
}

/// A run of lines is sound and introduces exactly `names`.
#[verifier::opaque]
pub open spec fn introduces(lines: Seq<Line>, names: Seq<Seq<char>>) -> bool {
    sound(lines) && help_names(lines) == names
}

proof fn lemma_join(a: Seq<Line>, x: Seq<Seq<char>>, b: Seq<Line>, y: Seq<Seq<char>>)
    requires
        introduces(a, x),
        introduces(b, y),
    ensures
        introduces(a + b, x + y),
{
    reveal(introduces);
    lemma_sound_concat(a, b);
    lemma_help_names_concat(a, b);
}

proof fn lemma_scalar(name: Seq<char>, help: Seq<char>, kind: MetricKind, value: Seq<char>)
    requires
        valid_metric_name(name),
        needs_no_escape(help),
        plain(value),
    ensures
        introduces(scalar(name, help, kind, value), seq![name]),
{
    reveal(introduces);
    let sample = seq![Line::Sample(name, Seq::empty(), value)];
    lemma_sound_family(name, help, kind, sample);
    assert(scalar(name, help, kind, value) =~= head(name, help, kind) + sample);
}

proof fn lemma_counter(name: Seq<char>, help: Seq<char>, value: u64)
    requires
        valid_metric_name(name),
        needs_no_escape(help),
    ensures
        introduces(counter_lines(name, help, value), seq![name]),
{
    lemma_dec_plain(value as nat);
    lemma_scalar(name, help, MetricKind::Counter, dec(value as nat));
}

proof fn lemma_gauge(name: Seq<char>, help: Seq<char>, value: i64)
    requires
        valid_metric_name(name),
        needs_no_escape(help),
    ensures
        introduces(gauge_lines(name, help, value), seq![name]),
{
    lemma_signed_plain(value as int);
    lemma_scalar(name, help, MetricKind::Gauge, signed_dec(value as int));
}

proof fn lemma_chip_scalar(
    name: Seq<char>,
    help: Seq<char>,
    kind: MetricKind,
    card: u32,
    value: Seq<char>,
)
    requires
        valid_metric_name(name),
        needs_no_escape(help),
        plain(value),
    ensures
        introduces(chip_scalar(name, help, kind, card, value), seq![name]),
{
    reveal(introduces);
    lemma_label_words();
    lemma_dec_plain(card as nat);
    let sample = seq![Line::Sample(name, seq![card_label(card)], value)];
    lemma_sound_family(name, help, kind, sample);
    assert(chip_scalar(name, help, kind, card, value) =~= head(name, help, kind) + sample);
}

proof fn lemma_chip_counter(name: Seq<char>, help: Seq<char>, card: u32, value: u64)
    requires
        valid_metric_name(name),
        needs_no_escape(help),
    ensures
        introduces(chip_counter_lines(name, help, card, value), seq![name]),
{
    lemma_dec_plain(value as nat);
    lemma_chip_scalar(name, help, MetricKind::Counter, card, dec(value as nat));
}

proof fn lemma_chip_gauge(name: Seq<char>, help: Seq<char>, card: u32, value: i64)
    requires
        valid_metric_name(name),
        needs_no_escape(help),
    ensures
        introduces(chip_gauge_lines(name, help, card, value), seq![name]),
{
    lemma_signed_plain(value as int);
    lemma_chip_scalar(name, help, MetricKind::Gauge, card, signed_dec(value as int));
}

proof fn lemma_methods(
    name: Seq<char>,
    help: Seq<char>,
    counts: crate::daemon::counters::RpcMethodCounter,
)
    requires
        valid_metric_name(name),
        needs_no_escape(help),
    ensures
        introduces(method_lines(name, help, counts), seq![name]),
{
    reveal(introduces);
    let f = |i: int| method_block(name, counts, i);
    assert forall|i: int| 0 <= i < 11 implies samples_of(#[trigger] f(i), name) by {
        lemma_label_words();
        lemma_method_plain(RpcMethod::every()[i]);
        lemma_dec_plain(counts.count(RpcMethod::every()[i]) as nat);
    }
    lemma_each_samples(11, f, name);
    lemma_sound_family(name, help, MetricKind::Counter, each(11, f));
}

proof fn lemma_lane_labels(i: int, disk: bool)
    ensures
        valid_labels(lane_labels(i, disk)),
{
    lemma_label_words();
    lemma_dec_plain(i as nat);
}

proof fn lemma_lanes(
    name: Seq<char>,
    help: Seq<char>,
    kind: MetricKind,
    disk: bool,
    values: Seq<Seq<char>>,
)
    requires
        valid_metric_name(name),
        needs_no_escape(help),
        forall|i: int| 0 <= i < 4 ==> plain(#[trigger] values[i]),
    ensures
        introduces(lane_lines(name, help, kind, disk, values), seq![name]),
{
    reveal(introduces);
    let f = |i: int| lane_block(name, disk, values, i);
    assert forall|i: int| 0 <= i < 4 implies samples_of(#[trigger] f(i), name) by {
        lemma_lane_labels(i, disk);
        assert(plain(values[i]));
    }
    lemma_each_samples(4, f, name);
    lemma_sound_family(name, help, kind, each(4, f));
}

proof fn lemma_dec_lanes(name: Seq<char>, help: Seq<char>, disk: bool, row: Seq<u64>)
    requires
        valid_metric_name(name),
        needs_no_escape(help),
        row.len() == 4,
    ensures
        introduces(lane_lines(name, help, MetricKind::Counter, disk, dec_row(row)), seq![name]),
{
    assert forall|i: int| 0 <= i < 4 implies plain(#[trigger] dec_row(row)[i]) by {
        lemma_dec_plain(row[i] as nat);
    }
    lemma_lanes(name, help, MetricKind::Counter, disk, dec_row(row));
}

proof fn lemma_split(
    name: Seq<char>,
    help: Seq<char>,
    disk: bool,
    key: Seq<char>,
    first: Seq<char>,
    a: Seq<u64>,
    second: Seq<char>,
    b: Seq<u64>,
)
    requires
        valid_metric_name(name),
        needs_no_escape(help),
        valid_label_name(key),
        plain(first),
        plain(second),
    ensures
        introduces(split_lines(name, help, disk, key, first, a, second, b), seq![name]),
{
    reveal(introduces);
    let f = |i: int| split_block(name, disk, key, first, a, second, b, i);
    assert forall|i: int| 0 <= i < 4 implies samples_of(#[trigger] f(i), name) by {
        lemma_lane_labels(i, disk);
        lemma_dec_plain(a[i] as nat);
        lemma_dec_plain(b[i] as nat);
    }
    lemma_each_samples(4, f, name);
    lemma_sound_family(name, help, MetricKind::Counter, each(4, f));
}

proof fn lemma_workers(
    name: Seq<char>,
    help: Seq<char>,
    value: spec_fn(int, int, int) -> Seq<char>,
)
    requires
        valid_metric_name(name),
        needs_no_escape(help),
        forall|w: int, i: int, t: int|
            0 <= w < 5 && 0 <= i < 4 && 0 <= t < 3 ==> plain(#[trigger] value(w, i, t)),
    ensures
        introduces(worker_lines(name, help, value), seq![name]),
{
    reveal(introduces);
    let f = |w: int| each(4, |i: int| each(3, |t: int| worker_sample(name, w, i, t, value(w, i, t))));
    assert forall|w: int| 0 <= w < 5 implies samples_of(#[trigger] f(w), name) by {
        let g = |i: int| each(3, |t: int| worker_sample(name, w, i, t, value(w, i, t)));
        assert forall|i: int| 0 <= i < 4 implies samples_of(#[trigger] g(i), name) by {
            let h = |t: int| worker_sample(name, w, i, t, value(w, i, t));
            assert forall|t: int| 0 <= t < 3 implies samples_of(#[trigger] h(t), name) by {
                lemma_label_words();
                lemma_dec_plain(i as nat);
                lemma_worker_plain(WorkerKind::every()[w], Tier::every()[t]);
                assert(plain(value(w, i, t)));
            }
            lemma_each_samples(3, h, name);
        }
        lemma_each_samples(4, g, name);
    }
    lemma_each_samples(5, f, name);
    lemma_sound_family(name, help, MetricKind::Counter, each(5, f));
}

proof fn lemma_pairs(
    name: Seq<char>,
    help: Seq<char>,
    kind: MetricKind,
    card: u32,
    values: Seq<Seq<char>>,
)
    requires
        valid_metric_name(name),
        needs_no_escape(help),
        forall|i: int| 0 <= i < 4 ==> plain(#[trigger] values[i]),
    ensures
        introduces(pair_lines(name, help, kind, card, values), seq![name]),
{
    reveal(introduces);
    let f = |i: int| seq![Line::Sample(name, seq![card_label(card), pair_label(i)], values[i])];
    assert forall|i: int| 0 <= i < 4 implies samples_of(#[trigger] f(i), name) by {
        lemma_label_words();
        lemma_dec_plain(card as nat);
        assert(plain(values[i]) && plain(pair_label(i).1));
    }
    lemma_each_samples(4, f, name);
    lemma_sound_family(name, help, kind, each(4, f));
}

proof fn lemma_card_lanes(name: Seq<char>, help: Seq<char>, card: u32, values: Seq<Seq<char>>)
    requires
        valid_metric_name(name),
        needs_no_escape(help),
        forall|i: int| 0 <= i < 4 ==> plain(#[trigger] values[i]),
    ensures
        introduces(card_lane_lines(name, help, card, values), seq![name]),
{
    reveal(introduces);
    let f = |i: int| seq![Line::Sample(name, seq![card_label(card), idx_label(i)], values[i])];
    assert forall|i: int| 0 <= i < 4 implies samples_of(#[trigger] f(i), name) by {
        lemma_label_words();
        lemma_dec_plain(card as nat);
        lemma_dec_plain(i as nat);
        assert(plain(values[i]));
    }
    lemma_each_samples(4, f, name);
    lemma_sound_family(name, help, MetricKind::Gauge, each(4, f));
}

/// The daemon group introduces its own metrics.
proof fn lemma_daemon_group(m: Metrics, s: ScrapeState)
    ensures
        introduces(
            daemon_lines(m, s),
            seq![DAEMON_UPTIME_SECONDS@, DAEMON_CLIENTS_TOTAL@, DAEMON_CLIENTS_ACTIVE@, DAEMON_SANDBOX_STATUS@, DAEMON_RPC_TOTAL@, DAEMON_RPC_ERRORS_TOTAL@],
        ),
{
    reveal(daemon_lines);
    lemma_names_0();
    lemma_gauge(DAEMON_UPTIME_SECONDS@, DAEMON_UPTIME_SECONDS_HELP@, s.uptime_seconds);
    let a = gauge_lines(DAEMON_UPTIME_SECONDS@, DAEMON_UPTIME_SECONDS_HELP@, s.uptime_seconds);
    let n = seq![DAEMON_UPTIME_SECONDS@];
    lemma_counter(DAEMON_CLIENTS_TOTAL@, DAEMON_CLIENTS_TOTAL_HELP@, m.daemon_clients_total@);
    let b = counter_lines(DAEMON_CLIENTS_TOTAL@, DAEMON_CLIENTS_TOTAL_HELP@, m.daemon_clients_total@);
    lemma_join(a, n, b, seq![DAEMON_CLIENTS_TOTAL@]);
    let a = a + b;
    let n = n + seq![DAEMON_CLIENTS_TOTAL@];
    lemma_gauge(DAEMON_CLIENTS_ACTIVE@, DAEMON_CLIENTS_ACTIVE_HELP@, m.daemon_clients_active@);
    let b = gauge_lines(DAEMON_CLIENTS_ACTIVE@, DAEMON_CLIENTS_ACTIVE_HELP@, m.daemon_clients_active@);
    lemma_join(a, n, b, seq![DAEMON_CLIENTS_ACTIVE@]);
    let a = a + b;
    let n = n + seq![DAEMON_CLIENTS_ACTIVE@];
    lemma_gauge(DAEMON_SANDBOX_STATUS@, DAEMON_SANDBOX_STATUS_HELP@, m.daemon_sandbox_status@);
    let b = gauge_lines(DAEMON_SANDBOX_STATUS@, DAEMON_SANDBOX_STATUS_HELP@, m.daemon_sandbox_status@);
    lemma_join(a, n, b, seq![DAEMON_SANDBOX_STATUS@]);
    let a = a + b;
    let n = n + seq![DAEMON_SANDBOX_STATUS@];
    lemma_methods(DAEMON_RPC_TOTAL@, DAEMON_RPC_TOTAL_HELP@, m.daemon_rpc_total);
    let b = method_lines(DAEMON_RPC_TOTAL@, DAEMON_RPC_TOTAL_HELP@, m.daemon_rpc_total);
    lemma_join(a, n, b, seq![DAEMON_RPC_TOTAL@]);
    let a = a + b;
    let n = n + seq![DAEMON_RPC_TOTAL@];
    lemma_methods(DAEMON_RPC_ERRORS_TOTAL@, DAEMON_RPC_ERRORS_TOTAL_HELP@, m.daemon_rpc_errors_total);
    let b = method_lines(DAEMON_RPC_ERRORS_TOTAL@, DAEMON_RPC_ERRORS_TOTAL_HELP@, m.daemon_rpc_errors_total);
    lemma_join(a, n, b, seq![DAEMON_RPC_ERRORS_TOTAL@]);
    let a = a + b;
    let n = n + seq![DAEMON_RPC_ERRORS_TOTAL@];
    assert(n =~= seq![DAEMON_UPTIME_SECONDS@, DAEMON_CLIENTS_TOTAL@, DAEMON_CLIENTS_ACTIVE@, DAEMON_SANDBOX_STATUS@, DAEMON_RPC_TOTAL@, DAEMON_RPC_ERRORS_TOTAL@]);
}

/// So does the group of boots and consoles.
proof fn lemma_l2cpu_group(m: Metrics)
    ensures
        introduces(
            l2cpu_lines(m),
            seq![L2CPU_BOOT_TOTAL@, L2CPU_CONSOLE_CLIENTS@, L2CPU_CONSOLE_BYTES_TOTAL@],
        ),
{
    reveal(l2cpu_lines);
    m.l2cpu_console_clients.has_one_per_l2cpu();
    lemma_names_1();
    reveal_strlit("kind");
    reveal_strlit("cold");
    reveal_strlit("warm");
    lemma_split(L2CPU_BOOT_TOTAL@, L2CPU_BOOT_TOTAL_HELP@, false, "kind"@, "cold"@, m.l2cpu_boot_cold_total@, "warm"@, m.l2cpu_boot_warm_total@);
    let a = split_lines(L2CPU_BOOT_TOTAL@, L2CPU_BOOT_TOTAL_HELP@, false, "kind"@, "cold"@, m.l2cpu_boot_cold_total@, "warm"@, m.l2cpu_boot_warm_total@);
    let n = seq![L2CPU_BOOT_TOTAL@];
    assert forall|i: int| 0 <= i < 4 implies plain(
        #[trigger] signed_row(m.l2cpu_console_clients@)[i],
    ) by {
        lemma_signed_plain(m.l2cpu_console_clients@[i] as int);
    }
    lemma_lanes(
        L2CPU_CONSOLE_CLIENTS@,
        L2CPU_CONSOLE_CLIENTS_HELP@,
        MetricKind::Gauge,
        false,
        signed_row(m.l2cpu_console_clients@),
    );
    let b = lane_lines(
        L2CPU_CONSOLE_CLIENTS@,
        L2CPU_CONSOLE_CLIENTS_HELP@,
        MetricKind::Gauge,
        false,
        signed_row(m.l2cpu_console_clients@),
    );
    lemma_join(a, n, b, seq![L2CPU_CONSOLE_CLIENTS@]);
    let a = a + b;
    let n = n + seq![L2CPU_CONSOLE_CLIENTS@];
    reveal_strlit("direction");
    reveal_strlit("g2h");
    reveal_strlit("h2g");
    lemma_split(L2CPU_CONSOLE_BYTES_TOTAL@, L2CPU_CONSOLE_BYTES_TOTAL_HELP@, false, "direction"@, "g2h"@, m.l2cpu_console_bytes_total.g2h_counts(), "h2g"@, m.l2cpu_console_bytes_total.h2g_counts());
    let b = split_lines(L2CPU_CONSOLE_BYTES_TOTAL@, L2CPU_CONSOLE_BYTES_TOTAL_HELP@, false, "direction"@, "g2h"@, m.l2cpu_console_bytes_total.g2h_counts(), "h2g"@, m.l2cpu_console_bytes_total.h2g_counts());
    lemma_join(a, n, b, seq![L2CPU_CONSOLE_BYTES_TOTAL@]);
    let a = a + b;
    let n = n + seq![L2CPU_CONSOLE_BYTES_TOTAL@];
    assert(n =~= seq![L2CPU_BOOT_TOTAL@, L2CPU_CONSOLE_CLIENTS@, L2CPU_CONSOLE_BYTES_TOTAL@]);
}

/// So does the group of block devices.
proof fn lemma_blk_group(m: Metrics)
    ensures
        introduces(
            blk_lines(m),
            seq![BLK_REQUESTS_TOTAL@, BLK_BYTES_TOTAL@, BLK_ERRORS_TOTAL@],
        ),
{
    reveal(blk_lines);
    lemma_names_1();
    reveal_strlit("op");
    reveal_strlit("read");
    reveal_strlit("write");
    lemma_split(BLK_REQUESTS_TOTAL@, BLK_REQUESTS_TOTAL_HELP@, true, "op"@, "read"@, m.blk_requests_total.read_counts(), "write"@, m.blk_requests_total.write_counts());
    let a = split_lines(BLK_REQUESTS_TOTAL@, BLK_REQUESTS_TOTAL_HELP@, true, "op"@, "read"@, m.blk_requests_total.read_counts(), "write"@, m.blk_requests_total.write_counts());
    let n = seq![BLK_REQUESTS_TOTAL@];
    reveal_strlit("op");
    reveal_strlit("read");
    reveal_strlit("write");
    lemma_split(BLK_BYTES_TOTAL@, BLK_BYTES_TOTAL_HELP@, true, "op"@, "read"@, m.blk_bytes_total.read_counts(), "write"@, m.blk_bytes_total.write_counts());
    let b = split_lines(BLK_BYTES_TOTAL@, BLK_BYTES_TOTAL_HELP@, true, "op"@, "read"@, m.blk_bytes_total.read_counts(), "write"@, m.blk_bytes_total.write_counts());
    lemma_join(a, n, b, seq![BLK_BYTES_TOTAL@]);
    let a = a + b;
    let n = n + seq![BLK_BYTES_TOTAL@];
    reveal_strlit("reason");
    reveal_strlit("ioerr");
    reveal_strlit("unsupp");
    lemma_split(BLK_ERRORS_TOTAL@, BLK_ERRORS_TOTAL_HELP@, true, "reason"@, "ioerr"@, m.blk_errors_total.ioerr_counts(), "unsupp"@, m.blk_errors_total.unsupp_counts());
    let b = split_lines(BLK_ERRORS_TOTAL@, BLK_ERRORS_TOTAL_HELP@, true, "reason"@, "ioerr"@, m.blk_errors_total.ioerr_counts(), "unsupp"@, m.blk_errors_total.unsupp_counts());
    lemma_join(a, n, b, seq![BLK_ERRORS_TOTAL@]);
    let a = a + b;
    let n = n + seq![BLK_ERRORS_TOTAL@];
    assert(n =~= seq![BLK_REQUESTS_TOTAL@, BLK_BYTES_TOTAL@, BLK_ERRORS_TOTAL@]);
}

/// So does the group of net devices.
proof fn lemma_net_group(m: Metrics)
    ensures
        introduces(
            net_lines(m),
            seq![NET_PACKETS_TOTAL@, NET_BYTES_TOTAL@, BLK_INTERRUPTS_TOTAL@, NET_INTERRUPTS_TOTAL@],
        ),
{
    reveal(net_lines);
    m.blk_interrupts_total.has_one_per_l2cpu();
    m.net_interrupts_total.has_one_per_l2cpu();
    lemma_names_2();
    reveal_strlit("direction");
    reveal_strlit("rx");
    reveal_strlit("tx");
    lemma_split(NET_PACKETS_TOTAL@, NET_PACKETS_TOTAL_HELP@, false, "direction"@, "rx"@, m.net_packets_total.rx_counts(), "tx"@, m.net_packets_total.tx_counts());
    let a = split_lines(NET_PACKETS_TOTAL@, NET_PACKETS_TOTAL_HELP@, false, "direction"@, "rx"@, m.net_packets_total.rx_counts(), "tx"@, m.net_packets_total.tx_counts());
    let n = seq![NET_PACKETS_TOTAL@];
    reveal_strlit("direction");
    reveal_strlit("rx");
    reveal_strlit("tx");
    lemma_split(NET_BYTES_TOTAL@, NET_BYTES_TOTAL_HELP@, false, "direction"@, "rx"@, m.net_bytes_total.rx_counts(), "tx"@, m.net_bytes_total.tx_counts());
    let b = split_lines(NET_BYTES_TOTAL@, NET_BYTES_TOTAL_HELP@, false, "direction"@, "rx"@, m.net_bytes_total.rx_counts(), "tx"@, m.net_bytes_total.tx_counts());
    lemma_join(a, n, b, seq![NET_BYTES_TOTAL@]);
    let a = a + b;
    let n = n + seq![NET_BYTES_TOTAL@];
    lemma_dec_lanes(BLK_INTERRUPTS_TOTAL@, BLK_INTERRUPTS_TOTAL_HELP@, true, m.blk_interrupts_total@);
    let b = lane_lines(BLK_INTERRUPTS_TOTAL@, BLK_INTERRUPTS_TOTAL_HELP@, MetricKind::Counter, true, dec_row(m.blk_interrupts_total@));
    lemma_join(a, n, b, seq![BLK_INTERRUPTS_TOTAL@]);
    let a = a + b;
    let n = n + seq![BLK_INTERRUPTS_TOTAL@];
    lemma_dec_lanes(NET_INTERRUPTS_TOTAL@, NET_INTERRUPTS_TOTAL_HELP@, false, m.net_interrupts_total@);
    let b = lane_lines(NET_INTERRUPTS_TOTAL@, NET_INTERRUPTS_TOTAL_HELP@, MetricKind::Counter, false, dec_row(m.net_interrupts_total@));
    lemma_join(a, n, b, seq![NET_INTERRUPTS_TOTAL@]);
    let a = a + b;
    let n = n + seq![NET_INTERRUPTS_TOTAL@];
    assert(n =~= seq![NET_PACKETS_TOTAL@, NET_BYTES_TOTAL@, BLK_INTERRUPTS_TOTAL@, NET_INTERRUPTS_TOTAL@]);
}

/// So does the group of poll loops.
proof fn lemma_poll_group(m: Metrics, s: ScrapeState)
    ensures
        introduces(
            poll_lines(m, s),
            seq![WORKER_POLL_ITERATIONS_TOTAL@, WORKER_TIER_SECONDS_TOTAL@],
        ),
{
    reveal(poll_lines);
    lemma_names_2();
    let counts = iteration_texts(m.worker_poll_iterations_total);
    assert forall|w: int, i: int, t: int|
        0 <= w < 5 && 0 <= i < 4 && 0 <= t < 3 implies plain(#[trigger] counts(w, i, t)) by {
        lemma_dec_plain(
            m.worker_poll_iterations_total.count(
                WorkerKind::every()[w],
                i,
                Tier::every()[t],
            ) as nat,
        );
    }
    lemma_workers(WORKER_POLL_ITERATIONS_TOTAL@, WORKER_POLL_ITERATIONS_TOTAL_HELP@, counts);
    let a = worker_lines(WORKER_POLL_ITERATIONS_TOTAL@, WORKER_POLL_ITERATIONS_TOTAL_HELP@, counts);
    let n = seq![WORKER_POLL_ITERATIONS_TOTAL@];
    let seconds = seconds_texts(s.tier_seconds);
    assert forall|w: int, i: int, t: int|
        0 <= w < 5 && 0 <= i < 4 && 0 <= t < 3 implies plain(#[trigger] seconds(w, i, t)) by {
        lemma_seconds_plain(s.tier_seconds@[w]@[i]@[t]);
    }
    lemma_workers(WORKER_TIER_SECONDS_TOTAL@, WORKER_TIER_SECONDS_TOTAL_HELP@, seconds);
    let b = worker_lines(WORKER_TIER_SECONDS_TOTAL@, WORKER_TIER_SECONDS_TOTAL_HELP@, seconds);
    lemma_join(a, n, b, seq![WORKER_TIER_SECONDS_TOTAL@]);
    let a = a + b;
    let n = n + seq![WORKER_TIER_SECONDS_TOTAL@];
    assert(n =~= seq![WORKER_POLL_ITERATIONS_TOTAL@, WORKER_TIER_SECONDS_TOTAL@]);
}

/// So does the group of rings.
proof fn lemma_ring_group(m: Metrics)
    ensures
        introduces(
            ring_lines(m),
            seq![KICK_DROPS_TOTAL@, KICK_RING_HIGH_WATER@, KICK_RING_CURRENT_GAP@, KICK_RESCUED_TOTAL@, KICK_THROTTLE_ENGAGED@, KICK_THROTTLE_TRANSITIONS_TOTAL@, SEL_READY_RACES_TOTAL@, BRISC_OLD_SEL_RESCUE_TOTAL@, UART_FEED_DROPS_TOTAL@],
        ),
{
    reveal(ring_lines);
    m.uart_feed_drops_total.has_one_per_l2cpu();
    lemma_names_3();
    lemma_names_4();
    lemma_counter(KICK_DROPS_TOTAL@, KICK_DROPS_TOTAL_HELP@, m.kick_drops_total@);
    let a = counter_lines(KICK_DROPS_TOTAL@, KICK_DROPS_TOTAL_HELP@, m.kick_drops_total@);
    let n = seq![KICK_DROPS_TOTAL@];
    lemma_gauge(KICK_RING_HIGH_WATER@, KICK_RING_HIGH_WATER_HELP@, m.kick_ring_high_water@);
    let b = gauge_lines(KICK_RING_HIGH_WATER@, KICK_RING_HIGH_WATER_HELP@, m.kick_ring_high_water@);
    lemma_join(a, n, b, seq![KICK_RING_HIGH_WATER@]);
    let a = a + b;
    let n = n + seq![KICK_RING_HIGH_WATER@];
    lemma_gauge(KICK_RING_CURRENT_GAP@, KICK_RING_CURRENT_GAP_HELP@, m.kick_ring_current_gap@);
    let b = gauge_lines(KICK_RING_CURRENT_GAP@, KICK_RING_CURRENT_GAP_HELP@, m.kick_ring_current_gap@);
    lemma_join(a, n, b, seq![KICK_RING_CURRENT_GAP@]);
    let a = a + b;
    let n = n + seq![KICK_RING_CURRENT_GAP@];
    lemma_counter(KICK_RESCUED_TOTAL@, KICK_RESCUED_TOTAL_HELP@, m.kick_rescued_total@);
    let b = counter_lines(KICK_RESCUED_TOTAL@, KICK_RESCUED_TOTAL_HELP@, m.kick_rescued_total@);
    lemma_join(a, n, b, seq![KICK_RESCUED_TOTAL@]);
    let a = a + b;
    let n = n + seq![KICK_RESCUED_TOTAL@];
    lemma_gauge(KICK_THROTTLE_ENGAGED@, KICK_THROTTLE_ENGAGED_HELP@, m.kick_throttle_engaged@);
    let b = gauge_lines(KICK_THROTTLE_ENGAGED@, KICK_THROTTLE_ENGAGED_HELP@, m.kick_throttle_engaged@);
    lemma_join(a, n, b, seq![KICK_THROTTLE_ENGAGED@]);
    let a = a + b;
    let n = n + seq![KICK_THROTTLE_ENGAGED@];
    lemma_counter(KICK_THROTTLE_TRANSITIONS_TOTAL@, KICK_THROTTLE_TRANSITIONS_TOTAL_HELP@, m.kick_throttle_transitions_total@);
    let b = counter_lines(KICK_THROTTLE_TRANSITIONS_TOTAL@, KICK_THROTTLE_TRANSITIONS_TOTAL_HELP@, m.kick_throttle_transitions_total@);
    lemma_join(a, n, b, seq![KICK_THROTTLE_TRANSITIONS_TOTAL@]);
    let a = a + b;
    let n = n + seq![KICK_THROTTLE_TRANSITIONS_TOTAL@];
    lemma_counter(SEL_READY_RACES_TOTAL@, SEL_READY_RACES_TOTAL_HELP@, m.sel_ready_races_total@);
    let b = counter_lines(SEL_READY_RACES_TOTAL@, SEL_READY_RACES_TOTAL_HELP@, m.sel_ready_races_total@);
    lemma_join(a, n, b, seq![SEL_READY_RACES_TOTAL@]);
    let a = a + b;
    let n = n + seq![SEL_READY_RACES_TOTAL@];
    lemma_counter(BRISC_OLD_SEL_RESCUE_TOTAL@, BRISC_OLD_SEL_RESCUE_TOTAL_HELP@, m.brisc_old_sel_rescue_total@);
    let b = counter_lines(BRISC_OLD_SEL_RESCUE_TOTAL@, BRISC_OLD_SEL_RESCUE_TOTAL_HELP@, m.brisc_old_sel_rescue_total@);
    lemma_join(a, n, b, seq![BRISC_OLD_SEL_RESCUE_TOTAL@]);
    let a = a + b;
    let n = n + seq![BRISC_OLD_SEL_RESCUE_TOTAL@];
    lemma_dec_lanes(UART_FEED_DROPS_TOTAL@, UART_FEED_DROPS_TOTAL_HELP@, false, m.uart_feed_drops_total@);
    let b = lane_lines(UART_FEED_DROPS_TOTAL@, UART_FEED_DROPS_TOTAL_HELP@, MetricKind::Counter, false, dec_row(m.uart_feed_drops_total@));
    lemma_join(a, n, b, seq![UART_FEED_DROPS_TOTAL@]);
    let a = a + b;
    let n = n + seq![UART_FEED_DROPS_TOTAL@];
    assert(n =~= seq![KICK_DROPS_TOTAL@, KICK_RING_HIGH_WATER@, KICK_RING_CURRENT_GAP@, KICK_RESCUED_TOTAL@, KICK_THROTTLE_ENGAGED@, KICK_THROTTLE_TRANSITIONS_TOTAL@, SEL_READY_RACES_TOTAL@, BRISC_OLD_SEL_RESCUE_TOTAL@, UART_FEED_DROPS_TOTAL@]);
}

/// The four metrics of the slots.
spec fn slot_names() -> Seq<Seq<char>> {
    seq![L2CPU_RUNNING@, L2CPU_UPTIME_SECONDS@, L2CPU_DISKS@, L2CPU_NET@]
}

/// The lines that introduce them.
spec fn slot_heads() -> Seq<Line> {
    head(L2CPU_RUNNING@, L2CPU_RUNNING_HELP@, MetricKind::Gauge)
        + head(L2CPU_UPTIME_SECONDS@, L2CPU_UPTIME_SECONDS_HELP@, MetricKind::Gauge)
        + head(L2CPU_DISKS@, L2CPU_DISKS_HELP@, MetricKind::Gauge)
        + head(L2CPU_NET@, L2CPU_NET_HELP@, MetricKind::Gauge)
}

/// A well-formed sample of a slot.
spec fn slot_sample(line: Line) -> bool {
    line is Sample && valid_line(line) && slot_names().contains(line_name(line))
}

proof fn lemma_head(name: Seq<char>, help: Seq<char>)
    requires
        valid_metric_name(name),
        needs_no_escape(help),
    ensures
        introduces(head(name, help, MetricKind::Gauge), seq![name]),
{
    reveal(introduces);
    let none = Seq::<Line>::empty();
    lemma_sound_family(name, help, MetricKind::Gauge, none);
    assert(head(name, help, MetricKind::Gauge) + none =~= head(name, help, MetricKind::Gauge));
}

proof fn lemma_slot_heads()
    ensures
        introduces(slot_heads(), slot_names()),
{
    lemma_names_4();
    lemma_names_5();
    let h0 = head(L2CPU_RUNNING@, L2CPU_RUNNING_HELP@, MetricKind::Gauge);
    let h1 = head(L2CPU_UPTIME_SECONDS@, L2CPU_UPTIME_SECONDS_HELP@, MetricKind::Gauge);
    let h2 = head(L2CPU_DISKS@, L2CPU_DISKS_HELP@, MetricKind::Gauge);
    let h3 = head(L2CPU_NET@, L2CPU_NET_HELP@, MetricKind::Gauge);
    lemma_head(L2CPU_RUNNING@, L2CPU_RUNNING_HELP@);
    lemma_head(L2CPU_UPTIME_SECONDS@, L2CPU_UPTIME_SECONDS_HELP@);
    lemma_head(L2CPU_DISKS@, L2CPU_DISKS_HELP@);
    lemma_head(L2CPU_NET@, L2CPU_NET_HELP@);
    let n = seq![L2CPU_RUNNING@];
    lemma_join(h0, n, h1, seq![L2CPU_UPTIME_SECONDS@]);
    let n = n + seq![L2CPU_UPTIME_SECONDS@];
    lemma_join(h0 + h1, n, h2, seq![L2CPU_DISKS@]);
    let n = n + seq![L2CPU_DISKS@];
    lemma_join(h0 + h1 + h2, n, h3, seq![L2CPU_NET@]);
    assert(n + seq![L2CPU_NET@] =~= slot_names());
}

proof fn lemma_slot_names_typed(name: Seq<char>)
    requires
        slot_names().contains(name),
    ensures
        typed_before(slot_heads(), name, slot_heads().len() as int),
{
    let h = slot_heads();
    assert(h.len() == 8);
    assert(h[1] == Line::Kind(L2CPU_RUNNING@, MetricKind::Gauge));
    assert(h[3] == Line::Kind(L2CPU_UPTIME_SECONDS@, MetricKind::Gauge));
    assert(h[5] == Line::Kind(L2CPU_DISKS@, MetricKind::Gauge));
    assert(h[7] == Line::Kind(L2CPU_NET@, MetricKind::Gauge));
}

proof fn lemma_slot_sample(name: Seq<char>, i: int, value: Seq<char>)
    requires
        valid_metric_name(name),
        slot_names().contains(name),
        plain(value),
    ensures
        slot_sample(Line::Sample(name, seq![idx_label(i)], value)),
{
    lemma_label_words();
    lemma_dec_plain(i as nat);
}

proof fn lemma_slot_block(slot: Option<SlotGauges>, i: int)
    ensures
        forall|k: int|
            0 <= k < slot_block(slot, i).len() ==> slot_sample(#[trigger] slot_block(slot, i)[k]),
{
    lemma_names_4();
    lemma_names_5();
    let names = slot_names();
    assert(names[0] == L2CPU_RUNNING@ && names[1] == L2CPU_UPTIME_SECONDS@ && names[2]
        == L2CPU_DISKS@ && names[3] == L2CPU_NET@);
    assert(plain("0"@) && plain("1"@)) by {
        lemma_label_words();
    }
    match slot {
        Some(g) => {
            lemma_signed_plain(g.uptime_seconds as int);
            lemma_dec_plain(g.disks as nat);
            lemma_slot_sample(L2CPU_RUNNING@, i, "1"@);
            lemma_slot_sample(L2CPU_UPTIME_SECONDS@, i, signed_dec(g.uptime_seconds as int));
            lemma_slot_sample(L2CPU_DISKS@, i, dec(g.disks as nat));
            lemma_slot_sample(L2CPU_NET@, i, if g.net {
                "1"@
            } else {
                "0"@
            });
        },
        None => {
            lemma_slot_sample(L2CPU_RUNNING@, i, "0"@);
            lemma_slot_sample(L2CPU_DISKS@, i, "0"@);
            lemma_slot_sample(L2CPU_NET@, i, "0"@);
        },
    }
}

/// So does the group of slots, whose four metrics are introduced together.
proof fn lemma_slot_group(s: ScrapeState)
    ensures
        introduces(slot_lines(s), slot_names()),
{
    reveal(slot_lines);
    let f = |i: int| slot_block(s.slots@[i], i);
    let ok = |line: Line| slot_sample(line);
    assert forall|i: int, k: int| 0 <= i < 4 && 0 <= k < f(i).len() implies ok(
        #[trigger] f(i)[k],
    ) by {
        lemma_slot_block(s.slots@[i], i);
    }
    lemma_each_all(4, f, ok);
    let rest = each(4, f);
    assert forall|i: int| 0 <= i < rest.len() implies (#[trigger] rest[i]) is Sample
        && valid_line(rest[i]) && typed_before(
        slot_heads(),
        line_name(rest[i]),
        slot_heads().len() as int,
    ) by {
        assert(ok(rest[i]));
        lemma_slot_names_typed(line_name(rest[i]));
    }
    lemma_slot_heads();
    assert(introduces(slot_heads() + rest, slot_names())) by {
        reveal(introduces);
        lemma_sound_samples(slot_heads(), rest);
    }
}

proof fn lemma_card_info(card: u32, t: ChipTelemetry)
    ensures
        introduces(card_info_lines(card, t), seq![CARD_INFO@]),
{
    reveal(introduces);
    lemma_names_5();
    lemma_label_words();
    reveal_strlit("board_id");
    reveal_strlit("asic_id");
    reveal_strlit("asic_location");
    reveal_strlit("harvesting");
    reveal_strlit("enabled_l2cpu");
    reveal_strlit("enabled_gddr");
    reveal_strlit("enabled_eth");
    reveal_strlit("pcie_usage");
    lemma_dec_plain(card as nat);
    lemma_prefixed_plain(t.board_id as nat, 16);
    lemma_dec_plain(t.asic_id as nat);
    lemma_dec_plain(t.asic_location as nat);
    lemma_prefixed_plain(t.harvesting_state as nat, 8);
    lemma_prefixed_plain(t.enabled_l2cpu as nat, 0);
    lemma_prefixed_plain(t.enabled_gddr as nat, 0);
    lemma_prefixed_plain(t.enabled_eth as nat, 0);
    lemma_dec_plain(t.pcie_usage as nat);
    assert(valid_labels(card_labels(card, t)));
    let sample = seq![Line::Sample(CARD_INFO@, card_labels(card, t), "1"@)];
    lemma_sound_family(CARD_INFO@, CARD_INFO_HELP@, MetricKind::Gauge, sample);
    assert(card_info_lines(card, t) =~= head(CARD_INFO@, CARD_INFO_HELP@, MetricKind::Gauge)
        + sample);
}

/// The group `thermal_lines` introduces its own metrics.
proof fn lemma_thermal_group(card: u32, t: ChipTelemetry)
    ensures
        introduces(
            thermal_lines(card, t),
            seq![CHIP_ASIC_TEMPERATURE_MILLICELSIUS@, CHIP_VREG_TEMPERATURE_MILLICELSIUS@, CHIP_BOARD_TEMPERATURE_MILLICELSIUS@, CHIP_MAX_GDDR_TEMPERATURE_CELSIUS@, CHIP_GDDR_TEMPERATURE_CELSIUS@],
        ),
{
    lemma_names_5();
    lemma_names_6();
    lemma_chip_gauge(CHIP_ASIC_TEMPERATURE_MILLICELSIUS@, CHIP_ASIC_TEMPERATURE_MILLICELSIUS_HELP@, card, t.asic_temperature_mc as i64);
    let a = chip_gauge_lines(CHIP_ASIC_TEMPERATURE_MILLICELSIUS@, CHIP_ASIC_TEMPERATURE_MILLICELSIUS_HELP@, card, t.asic_temperature_mc as i64);
    let n = seq![CHIP_ASIC_TEMPERATURE_MILLICELSIUS@];
    lemma_chip_gauge(CHIP_VREG_TEMPERATURE_MILLICELSIUS@, CHIP_VREG_TEMPERATURE_MILLICELSIUS_HELP@, card, t.vreg_temperature_mc as i64);
    let b = chip_gauge_lines(CHIP_VREG_TEMPERATURE_MILLICELSIUS@, CHIP_VREG_TEMPERATURE_MILLICELSIUS_HELP@, card, t.vreg_temperature_mc as i64);
    lemma_join(a, n, b, seq![CHIP_VREG_TEMPERATURE_MILLICELSIUS@]);
    let a = a + b;
    let n = n + seq![CHIP_VREG_TEMPERATURE_MILLICELSIUS@];
    lemma_chip_gauge(CHIP_BOARD_TEMPERATURE_MILLICELSIUS@, CHIP_BOARD_TEMPERATURE_MILLICELSIUS_HELP@, card, t.board_temperature_mc as i64);
    let b = chip_gauge_lines(CHIP_BOARD_TEMPERATURE_MILLICELSIUS@, CHIP_BOARD_TEMPERATURE_MILLICELSIUS_HELP@, card, t.board_temperature_mc as i64);
    lemma_join(a, n, b, seq![CHIP_BOARD_TEMPERATURE_MILLICELSIUS@]);
    let a = a + b;
    let n = n + seq![CHIP_BOARD_TEMPERATURE_MILLICELSIUS@];
    lemma_chip_gauge(CHIP_MAX_GDDR_TEMPERATURE_CELSIUS@, CHIP_MAX_GDDR_TEMPERATURE_CELSIUS_HELP@, card, t.max_gddr_temperature_c as i64);
    let b = chip_gauge_lines(CHIP_MAX_GDDR_TEMPERATURE_CELSIUS@, CHIP_MAX_GDDR_TEMPERATURE_CELSIUS_HELP@, card, t.max_gddr_temperature_c as i64);
    lemma_join(a, n, b, seq![CHIP_MAX_GDDR_TEMPERATURE_CELSIUS@]);
    let a = a + b;
    let n = n + seq![CHIP_MAX_GDDR_TEMPERATURE_CELSIUS@];
    let row = t.gddr_temperature_c@.map(|i: int, n: i32| signed_dec(n as int));
    assert forall|i: int| 0 <= i < 4 implies plain(#[trigger] row[i]) by {
        lemma_signed_plain(t.gddr_temperature_c@[i] as int);
    }
    lemma_pairs(CHIP_GDDR_TEMPERATURE_CELSIUS@, CHIP_GDDR_TEMPERATURE_CELSIUS_HELP@, MetricKind::Gauge, card, row);
    let b = pair_lines(CHIP_GDDR_TEMPERATURE_CELSIUS@, CHIP_GDDR_TEMPERATURE_CELSIUS_HELP@, MetricKind::Gauge, card, row);
    lemma_join(a, n, b, seq![CHIP_GDDR_TEMPERATURE_CELSIUS@]);
    let a = a + b;
    let n = n + seq![CHIP_GDDR_TEMPERATURE_CELSIUS@];
    assert(n =~= seq![CHIP_ASIC_TEMPERATURE_MILLICELSIUS@, CHIP_VREG_TEMPERATURE_MILLICELSIUS@, CHIP_BOARD_TEMPERATURE_MILLICELSIUS@, CHIP_MAX_GDDR_TEMPERATURE_CELSIUS@, CHIP_GDDR_TEMPERATURE_CELSIUS@]);
}

/// The group `ecc_lines` introduces its own metrics.
proof fn lemma_ecc_group(card: u32, t: ChipTelemetry)
    ensures
        introduces(
            ecc_lines(card, t),
            seq![CHIP_GDDR_CORR_ERRORS_TOTAL@, CHIP_GDDR_UNCORR_ERRORS_TOTAL@],
        ),
{
    lemma_names_6();
    let row = t.gddr_corr_errs@.map(|i: int, n: u32| dec(n as nat));
    assert forall|i: int| 0 <= i < 4 implies plain(#[trigger] row[i]) by {
        lemma_dec_plain(t.gddr_corr_errs@[i] as nat);
    }
    lemma_pairs(CHIP_GDDR_CORR_ERRORS_TOTAL@, CHIP_GDDR_CORR_ERRORS_TOTAL_HELP@, MetricKind::Counter, card, row);
    let a = pair_lines(CHIP_GDDR_CORR_ERRORS_TOTAL@, CHIP_GDDR_CORR_ERRORS_TOTAL_HELP@, MetricKind::Counter, card, row);
    let n = seq![CHIP_GDDR_CORR_ERRORS_TOTAL@];
    lemma_chip_counter(CHIP_GDDR_UNCORR_ERRORS_TOTAL@, CHIP_GDDR_UNCORR_ERRORS_TOTAL_HELP@, card, t.gddr_uncorr_errs as u64);
    let b = chip_counter_lines(CHIP_GDDR_UNCORR_ERRORS_TOTAL@, CHIP_GDDR_UNCORR_ERRORS_TOTAL_HELP@, card, t.gddr_uncorr_errs as u64);
    lemma_join(a, n, b, seq![CHIP_GDDR_UNCORR_ERRORS_TOTAL@]);
    let a = a + b;
    let n = n + seq![CHIP_GDDR_UNCORR_ERRORS_TOTAL@];
    assert(n =~= seq![CHIP_GDDR_CORR_ERRORS_TOTAL@, CHIP_GDDR_UNCORR_ERRORS_TOTAL@]);
}

/// The group `clock_lines` introduces its own metrics.
proof fn lemma_clock_group(card: u32, t: ChipTelemetry)
    ensures
        introduces(
            clock_lines(card, t),
            seq![CHIP_AICLK_MHZ@, CHIP_AXICLK_MHZ@, CHIP_ARCCLK_MHZ@, CHIP_AICLK_LIMIT_MAX_MHZ@, CHIP_L2CPUCLK_MHZ@],
        ),
{
    lemma_names_6();
    lemma_names_7();
    lemma_chip_gauge(CHIP_AICLK_MHZ@, CHIP_AICLK_MHZ_HELP@, card, t.aiclk_mhz as i64);
    let a = chip_gauge_lines(CHIP_AICLK_MHZ@, CHIP_AICLK_MHZ_HELP@, card, t.aiclk_mhz as i64);
    let n = seq![CHIP_AICLK_MHZ@];
    lemma_chip_gauge(CHIP_AXICLK_MHZ@, CHIP_AXICLK_MHZ_HELP@, card, t.axiclk_mhz as i64);
    let b = chip_gauge_lines(CHIP_AXICLK_MHZ@, CHIP_AXICLK_MHZ_HELP@, card, t.axiclk_mhz as i64);
    lemma_join(a, n, b, seq![CHIP_AXICLK_MHZ@]);
    let a = a + b;
    let n = n + seq![CHIP_AXICLK_MHZ@];
    lemma_chip_gauge(CHIP_ARCCLK_MHZ@, CHIP_ARCCLK_MHZ_HELP@, card, t.arcclk_mhz as i64);
    let b = chip_gauge_lines(CHIP_ARCCLK_MHZ@, CHIP_ARCCLK_MHZ_HELP@, card, t.arcclk_mhz as i64);
    lemma_join(a, n, b, seq![CHIP_ARCCLK_MHZ@]);
    let a = a + b;
    let n = n + seq![CHIP_ARCCLK_MHZ@];
    lemma_chip_gauge(CHIP_AICLK_LIMIT_MAX_MHZ@, CHIP_AICLK_LIMIT_MAX_MHZ_HELP@, card, t.aiclk_limit_max_mhz as i64);
    let b = chip_gauge_lines(CHIP_AICLK_LIMIT_MAX_MHZ@, CHIP_AICLK_LIMIT_MAX_MHZ_HELP@, card, t.aiclk_limit_max_mhz as i64);
    lemma_join(a, n, b, seq![CHIP_AICLK_LIMIT_MAX_MHZ@]);
    let a = a + b;
    let n = n + seq![CHIP_AICLK_LIMIT_MAX_MHZ@];
    let row = t.l2cpuclk_mhz@.map(|i: int, n: u32| dec(n as nat));
    assert forall|i: int| 0 <= i < 4 implies plain(#[trigger] row[i]) by {
        lemma_dec_plain(t.l2cpuclk_mhz@[i] as nat);
    }
    lemma_card_lanes(CHIP_L2CPUCLK_MHZ@, CHIP_L2CPUCLK_MHZ_HELP@, card, row);
    let b = card_lane_lines(CHIP_L2CPUCLK_MHZ@, CHIP_L2CPUCLK_MHZ_HELP@, card, row);
    lemma_join(a, n, b, seq![CHIP_L2CPUCLK_MHZ@]);
    let a = a + b;
    let n = n + seq![CHIP_L2CPUCLK_MHZ@];
    assert(n =~= seq![CHIP_AICLK_MHZ@, CHIP_AXICLK_MHZ@, CHIP_ARCCLK_MHZ@, CHIP_AICLK_LIMIT_MAX_MHZ@, CHIP_L2CPUCLK_MHZ@]);
}

/// The group `power_lines` introduces its own metrics.
proof fn lemma_power_group(card: u32, t: ChipTelemetry)
    ensures
        introduces(
            power_lines(card, t),
            seq![CHIP_TDP_WATTS@, CHIP_TDC_AMPS@, CHIP_INPUT_POWER_WATTS@, CHIP_VCORE_MILLIVOLTS@, CHIP_VDD_MIN_MILLIVOLTS@, CHIP_VDD_MAX_MILLIVOLTS@],
        ),
{
    lemma_names_7();
    lemma_names_8();
    lemma_chip_gauge(CHIP_TDP_WATTS@, CHIP_TDP_WATTS_HELP@, card, t.tdp_w as i64);
    let a = chip_gauge_lines(CHIP_TDP_WATTS@, CHIP_TDP_WATTS_HELP@, card, t.tdp_w as i64);
    let n = seq![CHIP_TDP_WATTS@];
    lemma_chip_gauge(CHIP_TDC_AMPS@, CHIP_TDC_AMPS_HELP@, card, t.tdc_a as i64);
    let b = chip_gauge_lines(CHIP_TDC_AMPS@, CHIP_TDC_AMPS_HELP@, card, t.tdc_a as i64);
    lemma_join(a, n, b, seq![CHIP_TDC_AMPS@]);
    let a = a + b;
    let n = n + seq![CHIP_TDC_AMPS@];
    lemma_chip_gauge(CHIP_INPUT_POWER_WATTS@, CHIP_INPUT_POWER_WATTS_HELP@, card, t.input_power_w as i64);
    let b = chip_gauge_lines(CHIP_INPUT_POWER_WATTS@, CHIP_INPUT_POWER_WATTS_HELP@, card, t.input_power_w as i64);
    lemma_join(a, n, b, seq![CHIP_INPUT_POWER_WATTS@]);
    let a = a + b;
    let n = n + seq![CHIP_INPUT_POWER_WATTS@];
    lemma_chip_gauge(CHIP_VCORE_MILLIVOLTS@, CHIP_VCORE_MILLIVOLTS_HELP@, card, t.vcore_mv as i64);
    let b = chip_gauge_lines(CHIP_VCORE_MILLIVOLTS@, CHIP_VCORE_MILLIVOLTS_HELP@, card, t.vcore_mv as i64);
    lemma_join(a, n, b, seq![CHIP_VCORE_MILLIVOLTS@]);
    let a = a + b;
    let n = n + seq![CHIP_VCORE_MILLIVOLTS@];
    lemma_chip_gauge(CHIP_VDD_MIN_MILLIVOLTS@, CHIP_VDD_MIN_MILLIVOLTS_HELP@, card, t.vdd_min_mv as i64);
    let b = chip_gauge_lines(CHIP_VDD_MIN_MILLIVOLTS@, CHIP_VDD_MIN_MILLIVOLTS_HELP@, card, t.vdd_min_mv as i64);
    lemma_join(a, n, b, seq![CHIP_VDD_MIN_MILLIVOLTS@]);
    let a = a + b;
    let n = n + seq![CHIP_VDD_MIN_MILLIVOLTS@];
    lemma_chip_gauge(CHIP_VDD_MAX_MILLIVOLTS@, CHIP_VDD_MAX_MILLIVOLTS_HELP@, card, t.vdd_max_mv as i64);
    let b = chip_gauge_lines(CHIP_VDD_MAX_MILLIVOLTS@, CHIP_VDD_MAX_MILLIVOLTS_HELP@, card, t.vdd_max_mv as i64);
    lemma_join(a, n, b, seq![CHIP_VDD_MAX_MILLIVOLTS@]);
    let a = a + b;
    let n = n + seq![CHIP_VDD_MAX_MILLIVOLTS@];
    assert(n =~= seq![CHIP_TDP_WATTS@, CHIP_TDC_AMPS@, CHIP_INPUT_POWER_WATTS@, CHIP_VCORE_MILLIVOLTS@, CHIP_VDD_MIN_MILLIVOLTS@, CHIP_VDD_MAX_MILLIVOLTS@]);
}

/// The group `limit_lines` introduces its own metrics.
proof fn lemma_limit_group(card: u32, t: ChipTelemetry)
    ensures
        introduces(
            limit_lines(card, t),
            seq![CHIP_TDP_LIMIT_MAX_WATTS@, CHIP_TDC_LIMIT_MAX_AMPS@, CHIP_BOARD_POWER_LIMIT_WATTS@, CHIP_THM_LIMIT_THROTTLE_CELSIUS@],
        ),
{
    lemma_names_8();
    lemma_chip_gauge(CHIP_TDP_LIMIT_MAX_WATTS@, CHIP_TDP_LIMIT_MAX_WATTS_HELP@, card, t.tdp_limit_max_w as i64);
    let a = chip_gauge_lines(CHIP_TDP_LIMIT_MAX_WATTS@, CHIP_TDP_LIMIT_MAX_WATTS_HELP@, card, t.tdp_limit_max_w as i64);
    let n = seq![CHIP_TDP_LIMIT_MAX_WATTS@];
    lemma_chip_gauge(CHIP_TDC_LIMIT_MAX_AMPS@, CHIP_TDC_LIMIT_MAX_AMPS_HELP@, card, t.tdc_limit_max_a as i64);
    let b = chip_gauge_lines(CHIP_TDC_LIMIT_MAX_AMPS@, CHIP_TDC_LIMIT_MAX_AMPS_HELP@, card, t.tdc_limit_max_a as i64);
    lemma_join(a, n, b, seq![CHIP_TDC_LIMIT_MAX_AMPS@]);
    let a = a + b;
    let n = n + seq![CHIP_TDC_LIMIT_MAX_AMPS@];
    lemma_chip_gauge(CHIP_BOARD_POWER_LIMIT_WATTS@, CHIP_BOARD_POWER_LIMIT_WATTS_HELP@, card, t.board_power_limit_w as i64);
    let b = chip_gauge_lines(CHIP_BOARD_POWER_LIMIT_WATTS@, CHIP_BOARD_POWER_LIMIT_WATTS_HELP@, card, t.board_power_limit_w as i64);
    lemma_join(a, n, b, seq![CHIP_BOARD_POWER_LIMIT_WATTS@]);
    let a = a + b;
    let n = n + seq![CHIP_BOARD_POWER_LIMIT_WATTS@];
    lemma_chip_gauge(CHIP_THM_LIMIT_THROTTLE_CELSIUS@, CHIP_THM_LIMIT_THROTTLE_CELSIUS_HELP@, card, t.thm_limit_throttle_c as i64);
    let b = chip_gauge_lines(CHIP_THM_LIMIT_THROTTLE_CELSIUS@, CHIP_THM_LIMIT_THROTTLE_CELSIUS_HELP@, card, t.thm_limit_throttle_c as i64);
    lemma_join(a, n, b, seq![CHIP_THM_LIMIT_THROTTLE_CELSIUS@]);
    let a = a + b;
    let n = n + seq![CHIP_THM_LIMIT_THROTTLE_CELSIUS@];
    assert(n =~= seq![CHIP_TDP_LIMIT_MAX_WATTS@, CHIP_TDC_LIMIT_MAX_AMPS@, CHIP_BOARD_POWER_LIMIT_WATTS@, CHIP_THM_LIMIT_THROTTLE_CELSIUS@]);
}

/// The group `board_lines` introduces its own metrics.
proof fn lemma_board_group(card: u32, t: ChipTelemetry)
    ensures
        introduces(
            board_lines(card, t),
            seq![CHIP_FAN_PCT@, CHIP_FAN_RPM@, CHIP_DDR_STATUS@, CHIP_DDR_SPEED_MTS@, CHIP_ARC_HEARTBEAT_TOTAL@, CHIP_THERM_TRIP_TOTAL@, CHIP_ETH_LIVE_STATUS@],
        ),
{
    lemma_names_9();
    lemma_names_10();
    lemma_chip_gauge(CHIP_FAN_PCT@, CHIP_FAN_PCT_HELP@, card, t.fan_speed_pct as i64);
    let a = chip_gauge_lines(CHIP_FAN_PCT@, CHIP_FAN_PCT_HELP@, card, t.fan_speed_pct as i64);
    let n = seq![CHIP_FAN_PCT@];
    lemma_chip_gauge(CHIP_FAN_RPM@, CHIP_FAN_RPM_HELP@, card, t.fan_rpm as i64);
    let b = chip_gauge_lines(CHIP_FAN_RPM@, CHIP_FAN_RPM_HELP@, card, t.fan_rpm as i64);
    lemma_join(a, n, b, seq![CHIP_FAN_RPM@]);
    let a = a + b;
    let n = n + seq![CHIP_FAN_RPM@];
    lemma_chip_gauge(CHIP_DDR_STATUS@, CHIP_DDR_STATUS_HELP@, card, t.ddr_status as i64);
    let b = chip_gauge_lines(CHIP_DDR_STATUS@, CHIP_DDR_STATUS_HELP@, card, t.ddr_status as i64);
    lemma_join(a, n, b, seq![CHIP_DDR_STATUS@]);
    let a = a + b;
    let n = n + seq![CHIP_DDR_STATUS@];
    lemma_chip_gauge(CHIP_DDR_SPEED_MTS@, CHIP_DDR_SPEED_MTS_HELP@, card, t.ddr_speed_mts as i64);
    let b = chip_gauge_lines(CHIP_DDR_SPEED_MTS@, CHIP_DDR_SPEED_MTS_HELP@, card, t.ddr_speed_mts as i64);
    lemma_join(a, n, b, seq![CHIP_DDR_SPEED_MTS@]);
    let a = a + b;
    let n = n + seq![CHIP_DDR_SPEED_MTS@];
    lemma_chip_counter(CHIP_ARC_HEARTBEAT_TOTAL@, CHIP_ARC_HEARTBEAT_TOTAL_HELP@, card, t.timer_heartbeat as u64);
    let b = chip_counter_lines(CHIP_ARC_HEARTBEAT_TOTAL@, CHIP_ARC_HEARTBEAT_TOTAL_HELP@, card, t.timer_heartbeat as u64);
    lemma_join(a, n, b, seq![CHIP_ARC_HEARTBEAT_TOTAL@]);
    let a = a + b;
    let n = n + seq![CHIP_ARC_HEARTBEAT_TOTAL@];
    lemma_chip_counter(CHIP_THERM_TRIP_TOTAL@, CHIP_THERM_TRIP_TOTAL_HELP@, card, t.therm_trip_count as u64);
    let b = chip_counter_lines(CHIP_THERM_TRIP_TOTAL@, CHIP_THERM_TRIP_TOTAL_HELP@, card, t.therm_trip_count as u64);
    lemma_join(a, n, b, seq![CHIP_THERM_TRIP_TOTAL@]);
    let a = a + b;
    let n = n + seq![CHIP_THERM_TRIP_TOTAL@];
    lemma_chip_gauge(CHIP_ETH_LIVE_STATUS@, CHIP_ETH_LIVE_STATUS_HELP@, card, t.eth_live_status as i64);
    let b = chip_gauge_lines(CHIP_ETH_LIVE_STATUS@, CHIP_ETH_LIVE_STATUS_HELP@, card, t.eth_live_status as i64);
    lemma_join(a, n, b, seq![CHIP_ETH_LIVE_STATUS@]);
    let a = a + b;
    let n = n + seq![CHIP_ETH_LIVE_STATUS@];
    assert(n =~= seq![CHIP_FAN_PCT@, CHIP_FAN_RPM@, CHIP_DDR_STATUS@, CHIP_DDR_SPEED_MTS@, CHIP_ARC_HEARTBEAT_TOTAL@, CHIP_THERM_TRIP_TOTAL@, CHIP_ETH_LIVE_STATUS@]);
}

/// The telemetry introduces the chip's own metrics.
proof fn lemma_telemetry(card: u32, t: ChipTelemetry)
    ensures
        introduces(
            telemetry_lines(card, t),
            metric_names().skip(DAEMON_METRICS as int),
        ),
{
    lemma_card_info(card, t);
    let a = card_info_lines(card, t);
    let n = seq![CARD_INFO@];
    lemma_thermal_group(card, t);
    lemma_join(a, n, thermal_lines(card, t), seq![CHIP_ASIC_TEMPERATURE_MILLICELSIUS@, CHIP_VREG_TEMPERATURE_MILLICELSIUS@, CHIP_BOARD_TEMPERATURE_MILLICELSIUS@, CHIP_MAX_GDDR_TEMPERATURE_CELSIUS@, CHIP_GDDR_TEMPERATURE_CELSIUS@]);
    let a = a + thermal_lines(card, t);
    let n = n + seq![CHIP_ASIC_TEMPERATURE_MILLICELSIUS@, CHIP_VREG_TEMPERATURE_MILLICELSIUS@, CHIP_BOARD_TEMPERATURE_MILLICELSIUS@, CHIP_MAX_GDDR_TEMPERATURE_CELSIUS@, CHIP_GDDR_TEMPERATURE_CELSIUS@];
    lemma_ecc_group(card, t);
    lemma_join(a, n, ecc_lines(card, t), seq![CHIP_GDDR_CORR_ERRORS_TOTAL@, CHIP_GDDR_UNCORR_ERRORS_TOTAL@]);
    let a = a + ecc_lines(card, t);
    let n = n + seq![CHIP_GDDR_CORR_ERRORS_TOTAL@, CHIP_GDDR_UNCORR_ERRORS_TOTAL@];
    lemma_clock_group(card, t);
    lemma_join(a, n, clock_lines(card, t), seq![CHIP_AICLK_MHZ@, CHIP_AXICLK_MHZ@, CHIP_ARCCLK_MHZ@, CHIP_AICLK_LIMIT_MAX_MHZ@, CHIP_L2CPUCLK_MHZ@]);
    let a = a + clock_lines(card, t);
    let n = n + seq![CHIP_AICLK_MHZ@, CHIP_AXICLK_MHZ@, CHIP_ARCCLK_MHZ@, CHIP_AICLK_LIMIT_MAX_MHZ@, CHIP_L2CPUCLK_MHZ@];
    lemma_power_group(card, t);
    lemma_join(a, n, power_lines(card, t), seq![CHIP_TDP_WATTS@, CHIP_TDC_AMPS@, CHIP_INPUT_POWER_WATTS@, CHIP_VCORE_MILLIVOLTS@, CHIP_VDD_MIN_MILLIVOLTS@, CHIP_VDD_MAX_MILLIVOLTS@]);
    let a = a + power_lines(card, t);
    let n = n + seq![CHIP_TDP_WATTS@, CHIP_TDC_AMPS@, CHIP_INPUT_POWER_WATTS@, CHIP_VCORE_MILLIVOLTS@, CHIP_VDD_MIN_MILLIVOLTS@, CHIP_VDD_MAX_MILLIVOLTS@];
    lemma_limit_group(card, t);
    lemma_join(a, n, limit_lines(card, t), seq![CHIP_TDP_LIMIT_MAX_WATTS@, CHIP_TDC_LIMIT_MAX_AMPS@, CHIP_BOARD_POWER_LIMIT_WATTS@, CHIP_THM_LIMIT_THROTTLE_CELSIUS@]);
    let a = a + limit_lines(card, t);
    let n = n + seq![CHIP_TDP_LIMIT_MAX_WATTS@, CHIP_TDC_LIMIT_MAX_AMPS@, CHIP_BOARD_POWER_LIMIT_WATTS@, CHIP_THM_LIMIT_THROTTLE_CELSIUS@];
    lemma_board_group(card, t);
    lemma_join(a, n, board_lines(card, t), seq![CHIP_FAN_PCT@, CHIP_FAN_RPM@, CHIP_DDR_STATUS@, CHIP_DDR_SPEED_MTS@, CHIP_ARC_HEARTBEAT_TOTAL@, CHIP_THERM_TRIP_TOTAL@, CHIP_ETH_LIVE_STATUS@]);
    let a = a + board_lines(card, t);
    let n = n + seq![CHIP_FAN_PCT@, CHIP_FAN_RPM@, CHIP_DDR_STATUS@, CHIP_DDR_SPEED_MTS@, CHIP_ARC_HEARTBEAT_TOTAL@, CHIP_THERM_TRIP_TOTAL@, CHIP_ETH_LIVE_STATUS@];
    assert(n =~= metric_names().skip(DAEMON_METRICS as int));
}

proof fn lemma_daemon_part(m: Metrics, s: ScrapeState)
    ensures
        introduces(
            daemon_lines(m, s) + l2cpu_lines(m) + blk_lines(m) + net_lines(m) + poll_lines(m, s)
                + ring_lines(m) + slot_lines(s),
            metric_names().take(DAEMON_METRICS as int),
        ),
{
    lemma_daemon_group(m, s);
    let a = daemon_lines(m, s);
    let n = seq![DAEMON_UPTIME_SECONDS@, DAEMON_CLIENTS_TOTAL@, DAEMON_CLIENTS_ACTIVE@, DAEMON_SANDBOX_STATUS@, DAEMON_RPC_TOTAL@, DAEMON_RPC_ERRORS_TOTAL@];
    lemma_l2cpu_group(m);
    lemma_join(a, n, l2cpu_lines(m), seq![L2CPU_BOOT_TOTAL@, L2CPU_CONSOLE_CLIENTS@, L2CPU_CONSOLE_BYTES_TOTAL@]);
    let a = a + l2cpu_lines(m);
    let n = n + seq![L2CPU_BOOT_TOTAL@, L2CPU_CONSOLE_CLIENTS@, L2CPU_CONSOLE_BYTES_TOTAL@];
    lemma_blk_group(m);
    lemma_join(a, n, blk_lines(m), seq![BLK_REQUESTS_TOTAL@, BLK_BYTES_TOTAL@, BLK_ERRORS_TOTAL@]);
    let a = a + blk_lines(m);
    let n = n + seq![BLK_REQUESTS_TOTAL@, BLK_BYTES_TOTAL@, BLK_ERRORS_TOTAL@];
    lemma_net_group(m);
    lemma_join(a, n, net_lines(m), seq![NET_PACKETS_TOTAL@, NET_BYTES_TOTAL@, BLK_INTERRUPTS_TOTAL@, NET_INTERRUPTS_TOTAL@]);
    let a = a + net_lines(m);
    let n = n + seq![NET_PACKETS_TOTAL@, NET_BYTES_TOTAL@, BLK_INTERRUPTS_TOTAL@, NET_INTERRUPTS_TOTAL@];
    lemma_poll_group(m, s);
    lemma_join(a, n, poll_lines(m, s), seq![WORKER_POLL_ITERATIONS_TOTAL@, WORKER_TIER_SECONDS_TOTAL@]);
    let a = a + poll_lines(m, s);
    let n = n + seq![WORKER_POLL_ITERATIONS_TOTAL@, WORKER_TIER_SECONDS_TOTAL@];
    lemma_ring_group(m);
    lemma_join(a, n, ring_lines(m), seq![KICK_DROPS_TOTAL@, KICK_RING_HIGH_WATER@, KICK_RING_CURRENT_GAP@, KICK_RESCUED_TOTAL@, KICK_THROTTLE_ENGAGED@, KICK_THROTTLE_TRANSITIONS_TOTAL@, SEL_READY_RACES_TOTAL@, BRISC_OLD_SEL_RESCUE_TOTAL@, UART_FEED_DROPS_TOTAL@]);
    let a = a + ring_lines(m);
    let n = n + seq![KICK_DROPS_TOTAL@, KICK_RING_HIGH_WATER@, KICK_RING_CURRENT_GAP@, KICK_RESCUED_TOTAL@, KICK_THROTTLE_ENGAGED@, KICK_THROTTLE_TRANSITIONS_TOTAL@, SEL_READY_RACES_TOTAL@, BRISC_OLD_SEL_RESCUE_TOTAL@, UART_FEED_DROPS_TOTAL@];
    lemma_slot_group(s);
    lemma_join(a, n, slot_lines(s), slot_names());
    let a = a + slot_lines(s);
    let n = n + slot_names();
    assert(n =~= metric_names().take(DAEMON_METRICS as int));
}

/// The metrics that an exposition introduces: all of them, without the chip's own where there is no
/// telemetry.
pub open spec fn exposed_names(s: ScrapeState) -> Seq<Seq<char>> {
    if s.telemetry is Some {
        metric_names()
    } else {
        metric_names().take(DAEMON_METRICS as int)
    }
}

proof fn lemma_whole(m: Metrics, s: ScrapeState)
    ensures
        introduces(prometheus_lines(m, s), exposed_names(s)),
{
    reveal(chip_lines);
    lemma_daemon_part(m, s);
    let body = daemon_lines(m, s) + l2cpu_lines(m) + blk_lines(m) + net_lines(m) + poll_lines(m, s)
        + ring_lines(m) + slot_lines(s);
    let names = metric_names().take(DAEMON_METRICS as int);
    match s.telemetry {
        Some(t) => {
            let rest = metric_names().skip(DAEMON_METRICS as int);
            lemma_telemetry(s.card, t);
            lemma_join(body, names, telemetry_lines(s.card, t), rest);
            assert(names + rest =~= metric_names());
        },
        None => {
            assert(body + Seq::<Line>::empty() =~= body);
        },
    }
}

proof fn lemma_take_no_duplicates(names: Seq<Seq<char>>, n: int)
    requires
        names.no_duplicates(),
        0 <= n <= names.len(),
    ensures
        names.take(n).no_duplicates(),
{
}

proof fn lemma_exposed_names_distinct(s: ScrapeState)
    ensures
        exposed_names(s).no_duplicates(),
{
    metric_names_are_distinct();
    lemma_take_no_duplicates(metric_names(), DAEMON_METRICS as int);
}

proof fn lemma_introduces(lines: Seq<Line>, names: Seq<Seq<char>>)
    requires
        introduces(lines, names),
    ensures
        sound(lines),
        help_names(lines) == names,
{
    reveal(introduces);
}

/// Every exposition is sound: each line is well formed, and each metric is introduced by one
/// `# HELP` line, followed by its `# TYPE` line, before its first sample.
pub proof fn exposition_is_sound(m: Metrics, s: ScrapeState)
    ensures
        sound(prometheus_lines(m, s)),
        help_names(prometheus_lines(m, s)) == exposed_names(s),
        exposed_names(s).no_duplicates(),
{
    lemma_whole(m, s);
    lemma_introduces(prometheus_lines(m, s), exposed_names(s));
    lemma_exposed_names_distinct(s);
}

} // verus!
