pub mod boot_flow;
pub mod boot_flow_laws;
pub mod chip_console;
pub mod client;
pub mod console_hub;
pub mod counters;
pub mod debug;
pub mod debug_laws;
pub mod exposition;
pub mod http;
pub mod lifetime;
pub mod lock;
pub mod log;
mod metric_helps;
pub mod metric_kinds;
pub mod metric_laws;
pub mod metric_names;
pub mod metric_values;
pub mod metrics;
pub mod process_laws;
pub mod protocol;
pub mod purgatory;
pub mod runner;
pub mod sandbox;
pub mod server;
pub mod server_laws;
pub mod sigbus;
pub mod state;
pub mod status;
pub mod terminal;
pub mod upkeep;
pub mod upkeep_laws;
