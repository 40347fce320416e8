//! The help texts of the metrics need no escapes.
use vstd::prelude::*;

#[allow(unused_imports)]
use crate::daemon::exposition::needs_no_escape;
#[allow(unused_imports)]
use crate::daemon::metric_names::{
    BLK_BYTES_TOTAL_HELP, BLK_ERRORS_TOTAL_HELP, BLK_INTERRUPTS_TOTAL_HELP,
    BLK_REQUESTS_TOTAL_HELP, BRISC_OLD_SEL_RESCUE_TOTAL_HELP, CARD_INFO_HELP,
    CHIP_AICLK_LIMIT_MAX_MHZ_HELP, CHIP_AICLK_MHZ_HELP, CHIP_ARCCLK_MHZ_HELP,
    CHIP_ARC_HEARTBEAT_TOTAL_HELP, CHIP_ASIC_TEMPERATURE_MILLICELSIUS_HELP, CHIP_AXICLK_MHZ_HELP,
    CHIP_BOARD_POWER_LIMIT_WATTS_HELP, CHIP_BOARD_TEMPERATURE_MILLICELSIUS_HELP,
    CHIP_DDR_SPEED_MTS_HELP, CHIP_DDR_STATUS_HELP, CHIP_ETH_LIVE_STATUS_HELP, CHIP_FAN_PCT_HELP,
    CHIP_FAN_RPM_HELP, CHIP_GDDR_CORR_ERRORS_TOTAL_HELP, CHIP_GDDR_TEMPERATURE_CELSIUS_HELP,
    CHIP_GDDR_UNCORR_ERRORS_TOTAL_HELP, CHIP_INPUT_POWER_WATTS_HELP, CHIP_L2CPUCLK_MHZ_HELP,
    CHIP_MAX_GDDR_TEMPERATURE_CELSIUS_HELP, CHIP_TDC_AMPS_HELP, CHIP_TDC_LIMIT_MAX_AMPS_HELP,
    CHIP_TDP_LIMIT_MAX_WATTS_HELP, CHIP_TDP_WATTS_HELP, CHIP_THERM_TRIP_TOTAL_HELP,
    CHIP_THM_LIMIT_THROTTLE_CELSIUS_HELP, CHIP_VCORE_MILLIVOLTS_HELP, CHIP_VDD_MAX_MILLIVOLTS_HELP,
    CHIP_VDD_MIN_MILLIVOLTS_HELP, CHIP_VREG_TEMPERATURE_MILLICELSIUS_HELP,
    DAEMON_CLIENTS_ACTIVE_HELP, DAEMON_CLIENTS_TOTAL_HELP, DAEMON_RPC_ERRORS_TOTAL_HELP,
    DAEMON_RPC_TOTAL_HELP, DAEMON_SANDBOX_STATUS_HELP, DAEMON_UPTIME_SECONDS_HELP,
    KICK_DROPS_TOTAL_HELP, KICK_RESCUED_TOTAL_HELP, KICK_RING_CURRENT_GAP_HELP,
    KICK_RING_HIGH_WATER_HELP, KICK_THROTTLE_ENGAGED_HELP, KICK_THROTTLE_TRANSITIONS_TOTAL_HELP,
    L2CPU_BOOT_TOTAL_HELP, L2CPU_CONSOLE_BYTES_TOTAL_HELP, L2CPU_CONSOLE_CLIENTS_HELP,
    L2CPU_DISKS_HELP, L2CPU_NET_HELP, L2CPU_RUNNING_HELP, L2CPU_UPTIME_SECONDS_HELP,
    NET_BYTES_TOTAL_HELP, NET_INTERRUPTS_TOTAL_HELP, NET_PACKETS_TOTAL_HELP,
    SEL_READY_RACES_TOTAL_HELP, UART_FEED_DROPS_TOTAL_HELP, WORKER_POLL_ITERATIONS_TOTAL_HELP,
    WORKER_TIER_SECONDS_TOTAL_HELP,
};

verus! {

pub(crate) proof fn lemma_helps_0()
    ensures
        needs_no_escape(DAEMON_UPTIME_SECONDS_HELP@),
        needs_no_escape(DAEMON_CLIENTS_TOTAL_HELP@),
        needs_no_escape(DAEMON_CLIENTS_ACTIVE_HELP@),
        needs_no_escape(DAEMON_SANDBOX_STATUS_HELP@),
        needs_no_escape(DAEMON_RPC_TOTAL_HELP@),
        needs_no_escape(DAEMON_RPC_ERRORS_TOTAL_HELP@),
{
    reveal(needs_no_escape);
    assert(needs_no_escape(DAEMON_UPTIME_SECONDS_HELP@)) by {
        reveal_strlit(
            "Daemon uptime in seconds.",
        );
    }
    assert(needs_no_escape(DAEMON_CLIENTS_TOTAL_HELP@)) by {
        reveal_strlit(
            "Cumulative count of accepted RPC client connections.",
        );
    }
    assert(needs_no_escape(DAEMON_CLIENTS_ACTIVE_HELP@)) by {
        reveal_strlit(
            "Currently-connected RPC clients.",
        );
    }
    assert(needs_no_escape(DAEMON_SANDBOX_STATUS_HELP@)) by {
        reveal_strlit(
            "Sandbox enforcement: 0=disabled, 1=partial, 2=fully-enforced.",
        );
    }
    assert(needs_no_escape(DAEMON_RPC_TOTAL_HELP@)) by {
        reveal_strlit(
            "Cumulative RPC count per method.",
        );
    }
    assert(needs_no_escape(DAEMON_RPC_ERRORS_TOTAL_HELP@)) by {
        reveal_strlit(
            "RPC failures per method.",
        );
    }
}

pub(crate) proof fn lemma_helps_1()
    ensures
        needs_no_escape(L2CPU_BOOT_TOTAL_HELP@),
        needs_no_escape(L2CPU_CONSOLE_CLIENTS_HELP@),
        needs_no_escape(L2CPU_CONSOLE_BYTES_TOTAL_HELP@),
        needs_no_escape(BLK_REQUESTS_TOTAL_HELP@),
        needs_no_escape(BLK_BYTES_TOTAL_HELP@),
        needs_no_escape(BLK_ERRORS_TOTAL_HELP@),
{
    reveal(needs_no_escape);
    assert(needs_no_escape(L2CPU_BOOT_TOTAL_HELP@)) by {
        reveal_strlit(
            "Boot count per L2CPU, by kind (cold|warm).",
        );
    }
    assert(needs_no_escape(L2CPU_CONSOLE_CLIENTS_HELP@)) by {
        reveal_strlit(
            "Currently-attached console clients per L2CPU.",
        );
    }
    assert(needs_no_escape(L2CPU_CONSOLE_BYTES_TOTAL_HELP@)) by {
        reveal_strlit(
            "Chip-console byte transfers per L2CPU per direction (g2h = guest-to-host, h2g = host-to-guest).",
        );
    }
    assert(needs_no_escape(BLK_REQUESTS_TOTAL_HELP@)) by {
        reveal_strlit(
            "Block requests completed per L2CPU per op.",
        );
    }
    assert(needs_no_escape(BLK_BYTES_TOTAL_HELP@)) by {
        reveal_strlit(
            "Block bytes transferred per L2CPU per op.",
        );
    }
    assert(needs_no_escape(BLK_ERRORS_TOTAL_HELP@)) by {
        reveal_strlit(
            "Block-request errors per L2CPU per reason (ioerr=overflowed image size, unsupp=unknown request type).",
        );
    }
}

pub(crate) proof fn lemma_helps_2()
    ensures
        needs_no_escape(NET_PACKETS_TOTAL_HELP@),
        needs_no_escape(NET_BYTES_TOTAL_HELP@),
        needs_no_escape(BLK_INTERRUPTS_TOTAL_HELP@),
        needs_no_escape(NET_INTERRUPTS_TOTAL_HELP@),
        needs_no_escape(WORKER_POLL_ITERATIONS_TOTAL_HELP@),
        needs_no_escape(WORKER_TIER_SECONDS_TOTAL_HELP@),
{
    reveal(needs_no_escape);
    assert(needs_no_escape(NET_PACKETS_TOTAL_HELP@)) by {
        reveal_strlit(
            "Net packets per L2CPU per direction (rx=slirp-to-guest, tx=guest-to-slirp).",
        );
    }
    assert(needs_no_escape(NET_BYTES_TOTAL_HELP@)) by {
        reveal_strlit(
            "Net bytes per L2CPU per direction.",
        );
    }
    assert(needs_no_escape(BLK_INTERRUPTS_TOTAL_HELP@)) by {
        reveal_strlit(
            "Block-device PLIC interrupts per L2CPU.",
        );
    }
    assert(needs_no_escape(NET_INTERRUPTS_TOTAL_HELP@)) by {
        reveal_strlit(
            "Net-device PLIC interrupts per L2CPU.",
        );
    }
    assert(needs_no_escape(WORKER_POLL_ITERATIONS_TOTAL_HELP@)) by {
        reveal_strlit(
            "Adaptive-sleep loop iterations per worker per L2CPU per tier (fast=µs, slow=ms, idle=10ms — see #27).",
        );
    }
    assert(needs_no_escape(WORKER_TIER_SECONDS_TOTAL_HELP@)) by {
        reveal_strlit(
            "Cumulative seconds spent sleeping in each tier per worker per L2CPU.",
        );
    }
}

pub(crate) proof fn lemma_helps_3()
    ensures
        needs_no_escape(KICK_DROPS_TOTAL_HELP@),
        needs_no_escape(KICK_RING_HIGH_WATER_HELP@),
        needs_no_escape(KICK_RING_CURRENT_GAP_HELP@),
        needs_no_escape(KICK_RESCUED_TOTAL_HELP@),
        needs_no_escape(KICK_THROTTLE_ENGAGED_HELP@),
        needs_no_escape(KICK_THROTTLE_TRANSITIONS_TOTAL_HELP@),
{
    reveal(needs_no_escape);
    assert(needs_no_escape(KICK_DROPS_TOTAL_HELP@)) by {
        reveal_strlit(
            "Cumulative count of kick_ring_push calls dropped because the ring was full (BRISC backpressure).",
        );
    }
    assert(needs_no_escape(KICK_RING_HIGH_WATER_HELP@)) by {
        reveal_strlit(
            "All-time max observed (producer - consumer) gap on the kick ring in this daemon session. Surfaces 'how close are we skirting overflow' even when bhx_kick_drops_total stays at 0 — useful for tuning kick ring size / FAST_SLEEP under heavy I/O loads.",
        );
    }
    assert(needs_no_escape(KICK_RING_CURRENT_GAP_HELP@)) by {
        reveal_strlit(
            "Most recent observed (producer - consumer) gap on the kick ring. Pairs with bhx_kick_ring_high_water to distinguish a brief peak from a sustained backlog.",
        );
    }
    assert(needs_no_escape(KICK_RESCUED_TOTAL_HELP@)) by {
        reveal_strlit(
            "Cumulative count of avail-ring entries the daemon recovered via the post-kick-drop rescan path. A high count paired with bhx_kick_drops_total advancing means the rescue path is doing its job — drops happened but the workload didn't stall on kernel virtio-blk 30s timeouts.",
        );
    }
    assert(needs_no_escape(KICK_THROTTLE_ENGAGED_HELP@)) by {
        reveal_strlit(
            "Whether kick-ring backpressure is currently engaged: 0 = normal, 1 = guest is throttled via VRING_USED_F_NO_NOTIFY set in every active queue's used.flags. Engages at 75% kick-ring fill, releases at 25% (hysteresis).",
        );
    }
    assert(needs_no_escape(KICK_THROTTLE_TRANSITIONS_TOTAL_HELP@)) by {
        reveal_strlit(
            "Cumulative count of kick-ring backpressure ENGAGE transitions. A steady stream of transitions means the workload is regularly hitting the high-water threshold; a single transition followed by a long quiet period means it spiked once.",
        );
    }
}

pub(crate) proof fn lemma_helps_4()
    ensures
        needs_no_escape(SEL_READY_RACES_TOTAL_HELP@),
        needs_no_escape(BRISC_OLD_SEL_RESCUE_TOTAL_HELP@),
        needs_no_escape(UART_FEED_DROPS_TOTAL_HELP@),
        needs_no_escape(L2CPU_RUNNING_HELP@),
        needs_no_escape(L2CPU_UPTIME_SECONDS_HELP@),
        needs_no_escape(L2CPU_DISKS_HELP@),
{
    reveal(needs_no_escape);
    assert(needs_no_escape(SEL_READY_RACES_TOTAL_HELP@)) by {
        reveal_strlit(
            "Cumulative count of QUEUE_SEL changes BRISC processed while the previous SEL's QUEUE_READY was still 1 — the race window M7.2 (#71) was designed to close. Non-zero means BRISC's sweep is borderline; a stock guest kernel can read stale QUEUE_READY=1 and bail virtio probe with -ENOENT.",
        );
    }
    assert(needs_no_escape(BRISC_OLD_SEL_RESCUE_TOTAL_HELP@)) by {
        reveal_strlit(
            "Cumulative count of BRISC's OLD-sel rescue captures — the third-and-last layer of the SEL→READY race close. BRISC snapshots the still-visible kernel writes for the previous SEL into shadow when neither the SEL-watch nor handle_queue_ready_change caught the READY=1 in time.",
        );
    }
    assert(needs_no_escape(UART_FEED_DROPS_TOTAL_HELP@)) by {
        reveal_strlit(
            "UART feed-ring drops per L2CPU (TRISC0 producer outpaced the daemon consumer).",
        );
    }
    assert(needs_no_escape(L2CPU_RUNNING_HELP@)) by {
        reveal_strlit(
            "1 if a slot is installed for this L2CPU, else 0.",
        );
    }
    assert(needs_no_escape(L2CPU_UPTIME_SECONDS_HELP@)) by {
        reveal_strlit(
            "Seconds since slot installation. Absent for L2CPUs without an installed slot.",
        );
    }
    assert(needs_no_escape(L2CPU_DISKS_HELP@)) by {
        reveal_strlit(
            "Attached disk-worker count per L2CPU.",
        );
    }
}

pub(crate) proof fn lemma_helps_5()
    ensures
        needs_no_escape(L2CPU_NET_HELP@),
        needs_no_escape(CARD_INFO_HELP@),
        needs_no_escape(CHIP_ASIC_TEMPERATURE_MILLICELSIUS_HELP@),
        needs_no_escape(CHIP_VREG_TEMPERATURE_MILLICELSIUS_HELP@),
        needs_no_escape(CHIP_BOARD_TEMPERATURE_MILLICELSIUS_HELP@),
        needs_no_escape(CHIP_MAX_GDDR_TEMPERATURE_CELSIUS_HELP@),
{
    reveal(needs_no_escape);
    assert(needs_no_escape(L2CPU_NET_HELP@)) by {
        reveal_strlit(
            "Net-worker presence per L2CPU (0 or 1).",
        );
    }
    assert(needs_no_escape(CARD_INFO_HELP@)) by {
        reveal_strlit(
            "Card / chip identification. Always 1; payload is in the labels.",
        );
    }
    assert(needs_no_escape(CHIP_ASIC_TEMPERATURE_MILLICELSIUS_HELP@)) by {
        reveal_strlit(
            "ASIC die temperature, millicelsius (decoded from ARC's 16.16 fixed-point).",
        );
    }
    assert(needs_no_escape(CHIP_VREG_TEMPERATURE_MILLICELSIUS_HELP@)) by {
        reveal_strlit(
            "Voltage-regulator temperature, millicelsius.",
        );
    }
    assert(needs_no_escape(CHIP_BOARD_TEMPERATURE_MILLICELSIUS_HELP@)) by {
        reveal_strlit(
            "Board ambient temperature, millicelsius.",
        );
    }
    assert(needs_no_escape(CHIP_MAX_GDDR_TEMPERATURE_CELSIUS_HELP@)) by {
        reveal_strlit(
            "Highest observed GDDR channel-pair temperature, °C.",
        );
    }
}

pub(crate) proof fn lemma_helps_6()
    ensures
        needs_no_escape(CHIP_GDDR_TEMPERATURE_CELSIUS_HELP@),
        needs_no_escape(CHIP_GDDR_CORR_ERRORS_TOTAL_HELP@),
        needs_no_escape(CHIP_GDDR_UNCORR_ERRORS_TOTAL_HELP@),
        needs_no_escape(CHIP_AICLK_MHZ_HELP@),
        needs_no_escape(CHIP_AXICLK_MHZ_HELP@),
        needs_no_escape(CHIP_ARCCLK_MHZ_HELP@),
{
    reveal(needs_no_escape);
    assert(needs_no_escape(CHIP_GDDR_TEMPERATURE_CELSIUS_HELP@)) by {
        reveal_strlit(
            "Per-channel-pair GDDR temperature, °C.",
        );
    }
    assert(needs_no_escape(CHIP_GDDR_CORR_ERRORS_TOTAL_HELP@)) by {
        reveal_strlit(
            "Per-channel-pair correctable ECC errors (cumulative).",
        );
    }
    assert(needs_no_escape(CHIP_GDDR_UNCORR_ERRORS_TOTAL_HELP@)) by {
        reveal_strlit(
            "Total uncorrectable ECC errors across all GDDR channels.",
        );
    }
    assert(needs_no_escape(CHIP_AICLK_MHZ_HELP@)) by {
        reveal_strlit(
            "AI compute clock, MHz.",
        );
    }
    assert(needs_no_escape(CHIP_AXICLK_MHZ_HELP@)) by {
        reveal_strlit(
            "AXI fabric clock, MHz.",
        );
    }
    assert(needs_no_escape(CHIP_ARCCLK_MHZ_HELP@)) by {
        reveal_strlit(
            "ARC management clock, MHz.",
        );
    }
}

pub(crate) proof fn lemma_helps_7()
    ensures
        needs_no_escape(CHIP_AICLK_LIMIT_MAX_MHZ_HELP@),
        needs_no_escape(CHIP_L2CPUCLK_MHZ_HELP@),
        needs_no_escape(CHIP_TDP_WATTS_HELP@),
        needs_no_escape(CHIP_TDC_AMPS_HELP@),
        needs_no_escape(CHIP_INPUT_POWER_WATTS_HELP@),
        needs_no_escape(CHIP_VCORE_MILLIVOLTS_HELP@),
{
    reveal(needs_no_escape);
    assert(needs_no_escape(CHIP_AICLK_LIMIT_MAX_MHZ_HELP@)) by {
        reveal_strlit(
            "AI clock max-frequency limit, MHz.",
        );
    }
    assert(needs_no_escape(CHIP_L2CPUCLK_MHZ_HELP@)) by {
        reveal_strlit(
            "Per-L2CPU clock as published by ARC FW, MHz.",
        );
    }
    assert(needs_no_escape(CHIP_TDP_WATTS_HELP@)) by {
        reveal_strlit(
            "Instantaneous power draw, W.",
        );
    }
    assert(needs_no_escape(CHIP_TDC_AMPS_HELP@)) by {
        reveal_strlit(
            "Instantaneous current draw, A.",
        );
    }
    assert(needs_no_escape(CHIP_INPUT_POWER_WATTS_HELP@)) by {
        reveal_strlit(
            "Board input power, W.",
        );
    }
    assert(needs_no_escape(CHIP_VCORE_MILLIVOLTS_HELP@)) by {
        reveal_strlit(
            "Core voltage, mV.",
        );
    }
}

pub(crate) proof fn lemma_helps_8()
    ensures
        needs_no_escape(CHIP_VDD_MIN_MILLIVOLTS_HELP@),
        needs_no_escape(CHIP_VDD_MAX_MILLIVOLTS_HELP@),
        needs_no_escape(CHIP_TDP_LIMIT_MAX_WATTS_HELP@),
        needs_no_escape(CHIP_TDC_LIMIT_MAX_AMPS_HELP@),
        needs_no_escape(CHIP_BOARD_POWER_LIMIT_WATTS_HELP@),
        needs_no_escape(CHIP_THM_LIMIT_THROTTLE_CELSIUS_HELP@),
{
    reveal(needs_no_escape);
    assert(needs_no_escape(CHIP_VDD_MIN_MILLIVOLTS_HELP@)) by {
        reveal_strlit(
            "VDD operating range minimum, mV.",
        );
    }
    assert(needs_no_escape(CHIP_VDD_MAX_MILLIVOLTS_HELP@)) by {
        reveal_strlit(
            "VDD operating range maximum, mV.",
        );
    }
    assert(needs_no_escape(CHIP_TDP_LIMIT_MAX_WATTS_HELP@)) by {
        reveal_strlit(
            "TDP soft-cap, W.",
        );
    }
    assert(needs_no_escape(CHIP_TDC_LIMIT_MAX_AMPS_HELP@)) by {
        reveal_strlit(
            "TDC soft-cap, A.",
        );
    }
    assert(needs_no_escape(CHIP_BOARD_POWER_LIMIT_WATTS_HELP@)) by {
        reveal_strlit(
            "Board-level power limit, W.",
        );
    }
    assert(needs_no_escape(CHIP_THM_LIMIT_THROTTLE_CELSIUS_HELP@)) by {
        reveal_strlit(
            "Thermal throttle threshold, °C.",
        );
    }
}

pub(crate) proof fn lemma_helps_9()
    ensures
        needs_no_escape(CHIP_FAN_PCT_HELP@),
        needs_no_escape(CHIP_FAN_RPM_HELP@),
        needs_no_escape(CHIP_DDR_STATUS_HELP@),
        needs_no_escape(CHIP_DDR_SPEED_MTS_HELP@),
        needs_no_escape(CHIP_ARC_HEARTBEAT_TOTAL_HELP@),
        needs_no_escape(CHIP_THERM_TRIP_TOTAL_HELP@),
{
    reveal(needs_no_escape);
    assert(needs_no_escape(CHIP_FAN_PCT_HELP@)) by {
        reveal_strlit(
            "Fan duty cycle, %.",
        );
    }
    assert(needs_no_escape(CHIP_FAN_RPM_HELP@)) by {
        reveal_strlit(
            "Fan rotational speed, RPM.",
        );
    }
    assert(needs_no_escape(CHIP_DDR_STATUS_HELP@)) by {
        reveal_strlit(
            "DRAM training status bitfield.",
        );
    }
    assert(needs_no_escape(CHIP_DDR_SPEED_MTS_HELP@)) by {
        reveal_strlit(
            "DRAM trained speed grade, MT/s.",
        );
    }
    assert(needs_no_escape(CHIP_ARC_HEARTBEAT_TOTAL_HELP@)) by {
        reveal_strlit(
            "ARC firmware heartbeat. Should advance on every poll. If it stalls, ARC FW has hung.",
        );
    }
    assert(needs_no_escape(CHIP_THERM_TRIP_TOTAL_HELP@)) by {
        reveal_strlit(
            "Thermal-trip events on this chip. Hardware shut clocks down to recover.",
        );
    }
}

pub(crate) proof fn lemma_helps_10()
    ensures
        needs_no_escape(CHIP_ETH_LIVE_STATUS_HELP@),
{
    reveal(needs_no_escape);
    assert(needs_no_escape(CHIP_ETH_LIVE_STATUS_HELP@)) by {
        reveal_strlit(
            "Ethernet tile liveness bitfield (per-tile).",
        );
    }
}

} // verus!
