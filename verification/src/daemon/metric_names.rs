//! Names and help texts of the metrics. Dashboards are built on the names.
use vstd::prelude::*;

verus! {

pub const DAEMON_UPTIME_SECONDS: &'static str = "bhx_daemon_uptime_seconds";

pub const DAEMON_UPTIME_SECONDS_HELP: &'static str = "Daemon uptime in seconds.";

pub const DAEMON_CLIENTS_TOTAL: &'static str = "bhx_daemon_clients_total";

pub const DAEMON_CLIENTS_TOTAL_HELP: &'static str = "Cumulative count of accepted RPC client connections.";

pub const DAEMON_CLIENTS_ACTIVE: &'static str = "bhx_daemon_clients_active";

pub const DAEMON_CLIENTS_ACTIVE_HELP: &'static str = "Currently-connected RPC clients.";

pub const DAEMON_SANDBOX_STATUS: &'static str = "bhx_daemon_sandbox_status";

pub const DAEMON_SANDBOX_STATUS_HELP: &'static str = "Sandbox enforcement: 0=disabled, 1=partial, 2=fully-enforced.";

pub const DAEMON_RPC_TOTAL: &'static str = "bhx_daemon_rpc_total";

pub const DAEMON_RPC_TOTAL_HELP: &'static str = "Cumulative RPC count per method.";

pub const DAEMON_RPC_ERRORS_TOTAL: &'static str = "bhx_daemon_rpc_errors_total";

pub const DAEMON_RPC_ERRORS_TOTAL_HELP: &'static str = "RPC failures per method.";

pub const L2CPU_BOOT_TOTAL: &'static str = "bhx_l2cpu_boot_total";

pub const L2CPU_BOOT_TOTAL_HELP: &'static str = "Boot count per L2CPU, by kind (cold|warm).";

pub const L2CPU_CONSOLE_CLIENTS: &'static str = "bhx_l2cpu_console_clients";

pub const L2CPU_CONSOLE_CLIENTS_HELP: &'static str = "Currently-attached console clients per L2CPU.";

pub const L2CPU_CONSOLE_BYTES_TOTAL: &'static str = "bhx_l2cpu_console_bytes_total";

pub const L2CPU_CONSOLE_BYTES_TOTAL_HELP: &'static str = "Chip-console byte transfers per L2CPU per direction (g2h = guest-to-host, h2g = host-to-guest).";

pub const BLK_REQUESTS_TOTAL: &'static str = "bhx_blk_requests_total";

pub const BLK_REQUESTS_TOTAL_HELP: &'static str = "Block requests completed per L2CPU per op.";

pub const BLK_BYTES_TOTAL: &'static str = "bhx_blk_bytes_total";

pub const BLK_BYTES_TOTAL_HELP: &'static str = "Block bytes transferred per L2CPU per op.";

pub const BLK_ERRORS_TOTAL: &'static str = "bhx_blk_errors_total";

pub const BLK_ERRORS_TOTAL_HELP: &'static str = "Block-request errors per L2CPU per reason (ioerr=overflowed image size, unsupp=unknown request type).";

pub const NET_PACKETS_TOTAL: &'static str = "bhx_net_packets_total";

pub const NET_PACKETS_TOTAL_HELP: &'static str = "Net packets per L2CPU per direction (rx=slirp-to-guest, tx=guest-to-slirp).";

pub const NET_BYTES_TOTAL: &'static str = "bhx_net_bytes_total";

pub const NET_BYTES_TOTAL_HELP: &'static str = "Net bytes per L2CPU per direction.";

pub const BLK_INTERRUPTS_TOTAL: &'static str = "bhx_blk_interrupts_total";

pub const BLK_INTERRUPTS_TOTAL_HELP: &'static str = "Block-device PLIC interrupts per L2CPU.";

pub const NET_INTERRUPTS_TOTAL: &'static str = "bhx_net_interrupts_total";

pub const NET_INTERRUPTS_TOTAL_HELP: &'static str = "Net-device PLIC interrupts per L2CPU.";

pub const WORKER_POLL_ITERATIONS_TOTAL: &'static str = "bhx_worker_poll_iterations_total";

pub const WORKER_POLL_ITERATIONS_TOTAL_HELP: &'static str = "Adaptive-sleep loop iterations per worker per L2CPU per tier (fast=µs, slow=ms, idle=10ms — see #27).";

pub const WORKER_TIER_SECONDS_TOTAL: &'static str = "bhx_worker_tier_seconds_total";

pub const WORKER_TIER_SECONDS_TOTAL_HELP: &'static str = "Cumulative seconds spent sleeping in each tier per worker per L2CPU.";

pub const KICK_DROPS_TOTAL: &'static str = "bhx_kick_drops_total";

pub const KICK_DROPS_TOTAL_HELP: &'static str = "Cumulative count of kick_ring_push calls dropped because the ring was full (BRISC backpressure).";

pub const KICK_RING_HIGH_WATER: &'static str = "bhx_kick_ring_high_water";

pub const KICK_RING_HIGH_WATER_HELP: &'static str = "All-time max observed (producer - consumer) gap on the kick ring in this daemon session. Surfaces 'how close are we skirting overflow' even when bhx_kick_drops_total stays at 0 — useful for tuning kick ring size / FAST_SLEEP under heavy I/O loads.";

pub const KICK_RING_CURRENT_GAP: &'static str = "bhx_kick_ring_current_gap";

pub const KICK_RING_CURRENT_GAP_HELP: &'static str = "Most recent observed (producer - consumer) gap on the kick ring. Pairs with bhx_kick_ring_high_water to distinguish a brief peak from a sustained backlog.";

pub const KICK_RESCUED_TOTAL: &'static str = "bhx_kick_rescued_total";

pub const KICK_RESCUED_TOTAL_HELP: &'static str = "Cumulative count of avail-ring entries the daemon recovered via the post-kick-drop rescan path. A high count paired with bhx_kick_drops_total advancing means the rescue path is doing its job — drops happened but the workload didn't stall on kernel virtio-blk 30s timeouts.";

pub const KICK_THROTTLE_ENGAGED: &'static str = "bhx_kick_throttle_engaged";

pub const KICK_THROTTLE_ENGAGED_HELP: &'static str = "Whether kick-ring backpressure is currently engaged: 0 = normal, 1 = guest is throttled via VRING_USED_F_NO_NOTIFY set in every active queue's used.flags. Engages at 75% kick-ring fill, releases at 25% (hysteresis).";

pub const KICK_THROTTLE_TRANSITIONS_TOTAL: &'static str = "bhx_kick_throttle_transitions_total";

pub const KICK_THROTTLE_TRANSITIONS_TOTAL_HELP: &'static str = "Cumulative count of kick-ring backpressure ENGAGE transitions. A steady stream of transitions means the workload is regularly hitting the high-water threshold; a single transition followed by a long quiet period means it spiked once.";

pub const SEL_READY_RACES_TOTAL: &'static str = "bhx_sel_ready_races_total";

pub const SEL_READY_RACES_TOTAL_HELP: &'static str = "Cumulative count of QUEUE_SEL changes BRISC processed while the previous SEL's QUEUE_READY was still 1 — the race window M7.2 (#71) was designed to close. Non-zero means BRISC's sweep is borderline; a stock guest kernel can read stale QUEUE_READY=1 and bail virtio probe with -ENOENT.";

pub const BRISC_OLD_SEL_RESCUE_TOTAL: &'static str = "bhx_brisc_old_sel_rescue_total";

pub const BRISC_OLD_SEL_RESCUE_TOTAL_HELP: &'static str = "Cumulative count of BRISC's OLD-sel rescue captures — the third-and-last layer of the SEL→READY race close. BRISC snapshots the still-visible kernel writes for the previous SEL into shadow when neither the SEL-watch nor handle_queue_ready_change caught the READY=1 in time.";

pub const UART_FEED_DROPS_TOTAL: &'static str = "bhx_uart_feed_drops_total";

pub const UART_FEED_DROPS_TOTAL_HELP: &'static str = "UART feed-ring drops per L2CPU (TRISC0 producer outpaced the daemon consumer).";

pub const L2CPU_RUNNING: &'static str = "bhx_l2cpu_running";

pub const L2CPU_RUNNING_HELP: &'static str = "1 if a slot is installed for this L2CPU, else 0.";

pub const L2CPU_UPTIME_SECONDS: &'static str = "bhx_l2cpu_uptime_seconds";

pub const L2CPU_UPTIME_SECONDS_HELP: &'static str = "Seconds since slot installation. Absent for L2CPUs without an installed slot.";

pub const L2CPU_DISKS: &'static str = "bhx_l2cpu_disks";

pub const L2CPU_DISKS_HELP: &'static str = "Attached disk-worker count per L2CPU.";

pub const L2CPU_NET: &'static str = "bhx_l2cpu_net";

pub const L2CPU_NET_HELP: &'static str = "Net-worker presence per L2CPU (0 or 1).";

pub const CARD_INFO: &'static str = "bhx_card_info";

pub const CARD_INFO_HELP: &'static str = "Card / chip identification. Always 1; payload is in the labels.";

pub const CHIP_ASIC_TEMPERATURE_MILLICELSIUS: &'static str = "bhx_chip_asic_temperature_millicelsius";

pub const CHIP_ASIC_TEMPERATURE_MILLICELSIUS_HELP: &'static str = "ASIC die temperature, millicelsius (decoded from ARC's 16.16 fixed-point).";

pub const CHIP_VREG_TEMPERATURE_MILLICELSIUS: &'static str = "bhx_chip_vreg_temperature_millicelsius";

pub const CHIP_VREG_TEMPERATURE_MILLICELSIUS_HELP: &'static str = "Voltage-regulator temperature, millicelsius.";

pub const CHIP_BOARD_TEMPERATURE_MILLICELSIUS: &'static str = "bhx_chip_board_temperature_millicelsius";

pub const CHIP_BOARD_TEMPERATURE_MILLICELSIUS_HELP: &'static str = "Board ambient temperature, millicelsius.";

pub const CHIP_MAX_GDDR_TEMPERATURE_CELSIUS: &'static str = "bhx_chip_max_gddr_temperature_celsius";

pub const CHIP_MAX_GDDR_TEMPERATURE_CELSIUS_HELP: &'static str = "Highest observed GDDR channel-pair temperature, °C.";

pub const CHIP_GDDR_TEMPERATURE_CELSIUS: &'static str = "bhx_chip_gddr_temperature_celsius";

pub const CHIP_GDDR_TEMPERATURE_CELSIUS_HELP: &'static str = "Per-channel-pair GDDR temperature, °C.";

pub const CHIP_GDDR_CORR_ERRORS_TOTAL: &'static str = "bhx_chip_gddr_corr_errors_total";

pub const CHIP_GDDR_CORR_ERRORS_TOTAL_HELP: &'static str = "Per-channel-pair correctable ECC errors (cumulative).";

pub const CHIP_GDDR_UNCORR_ERRORS_TOTAL: &'static str = "bhx_chip_gddr_uncorr_errors_total";

pub const CHIP_GDDR_UNCORR_ERRORS_TOTAL_HELP: &'static str = "Total uncorrectable ECC errors across all GDDR channels.";

pub const CHIP_AICLK_MHZ: &'static str = "bhx_chip_aiclk_mhz";

pub const CHIP_AICLK_MHZ_HELP: &'static str = "AI compute clock, MHz.";

pub const CHIP_AXICLK_MHZ: &'static str = "bhx_chip_axiclk_mhz";

pub const CHIP_AXICLK_MHZ_HELP: &'static str = "AXI fabric clock, MHz.";

pub const CHIP_ARCCLK_MHZ: &'static str = "bhx_chip_arcclk_mhz";

pub const CHIP_ARCCLK_MHZ_HELP: &'static str = "ARC management clock, MHz.";

pub const CHIP_AICLK_LIMIT_MAX_MHZ: &'static str = "bhx_chip_aiclk_limit_max_mhz";

pub const CHIP_AICLK_LIMIT_MAX_MHZ_HELP: &'static str = "AI clock max-frequency limit, MHz.";

pub const CHIP_L2CPUCLK_MHZ: &'static str = "bhx_chip_l2cpuclk_mhz";

pub const CHIP_L2CPUCLK_MHZ_HELP: &'static str = "Per-L2CPU clock as published by ARC FW, MHz.";

pub const CHIP_TDP_WATTS: &'static str = "bhx_chip_tdp_watts";

pub const CHIP_TDP_WATTS_HELP: &'static str = "Instantaneous power draw, W.";

pub const CHIP_TDC_AMPS: &'static str = "bhx_chip_tdc_amps";

pub const CHIP_TDC_AMPS_HELP: &'static str = "Instantaneous current draw, A.";

pub const CHIP_INPUT_POWER_WATTS: &'static str = "bhx_chip_input_power_watts";

pub const CHIP_INPUT_POWER_WATTS_HELP: &'static str = "Board input power, W.";

pub const CHIP_VCORE_MILLIVOLTS: &'static str = "bhx_chip_vcore_millivolts";

pub const CHIP_VCORE_MILLIVOLTS_HELP: &'static str = "Core voltage, mV.";

pub const CHIP_VDD_MIN_MILLIVOLTS: &'static str = "bhx_chip_vdd_min_millivolts";

pub const CHIP_VDD_MIN_MILLIVOLTS_HELP: &'static str = "VDD operating range minimum, mV.";

pub const CHIP_VDD_MAX_MILLIVOLTS: &'static str = "bhx_chip_vdd_max_millivolts";

pub const CHIP_VDD_MAX_MILLIVOLTS_HELP: &'static str = "VDD operating range maximum, mV.";

pub const CHIP_TDP_LIMIT_MAX_WATTS: &'static str = "bhx_chip_tdp_limit_max_watts";

pub const CHIP_TDP_LIMIT_MAX_WATTS_HELP: &'static str = "TDP soft-cap, W.";

pub const CHIP_TDC_LIMIT_MAX_AMPS: &'static str = "bhx_chip_tdc_limit_max_amps";

pub const CHIP_TDC_LIMIT_MAX_AMPS_HELP: &'static str = "TDC soft-cap, A.";

pub const CHIP_BOARD_POWER_LIMIT_WATTS: &'static str = "bhx_chip_board_power_limit_watts";

pub const CHIP_BOARD_POWER_LIMIT_WATTS_HELP: &'static str = "Board-level power limit, W.";

pub const CHIP_THM_LIMIT_THROTTLE_CELSIUS: &'static str = "bhx_chip_thm_limit_throttle_celsius";

pub const CHIP_THM_LIMIT_THROTTLE_CELSIUS_HELP: &'static str = "Thermal throttle threshold, °C.";

pub const CHIP_FAN_PCT: &'static str = "bhx_chip_fan_pct";

pub const CHIP_FAN_PCT_HELP: &'static str = "Fan duty cycle, %.";

pub const CHIP_FAN_RPM: &'static str = "bhx_chip_fan_rpm";

pub const CHIP_FAN_RPM_HELP: &'static str = "Fan rotational speed, RPM.";

pub const CHIP_DDR_STATUS: &'static str = "bhx_chip_ddr_status";

pub const CHIP_DDR_STATUS_HELP: &'static str = "DRAM training status bitfield.";

pub const CHIP_DDR_SPEED_MTS: &'static str = "bhx_chip_ddr_speed_mts";

pub const CHIP_DDR_SPEED_MTS_HELP: &'static str = "DRAM trained speed grade, MT/s.";

pub const CHIP_ARC_HEARTBEAT_TOTAL: &'static str = "bhx_chip_arc_heartbeat_total";

pub const CHIP_ARC_HEARTBEAT_TOTAL_HELP: &'static str = "ARC firmware heartbeat. Should advance on every poll. If it stalls, ARC FW has hung.";

pub const CHIP_THERM_TRIP_TOTAL: &'static str = "bhx_chip_therm_trip_total";

pub const CHIP_THERM_TRIP_TOTAL_HELP: &'static str = "Thermal-trip events on this chip. Hardware shut clocks down to recover.";

pub const CHIP_ETH_LIVE_STATUS: &'static str = "bhx_chip_eth_live_status";

pub const CHIP_ETH_LIVE_STATUS_HELP: &'static str = "Ethernet tile liveness bitfield (per-tile).";

} // verus!
