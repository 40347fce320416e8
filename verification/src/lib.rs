//! Linux on the L2CPUs of a Blackhole card: device trees, booting, consoles, disk images, and the
//! daemon that serves a card.
//!
//! Nothing here touches the chip, a file or a socket. Where work alternates with decisions, a
//! function takes a state and what came of the last step, and gives the next one.
pub mod boot;
pub mod boot_laws;
pub mod boot_settings_laws;
pub mod bytes;
pub mod chip;
pub mod chip_laws;
pub mod clock;
pub mod cloud_init;
pub mod cloud_init_laws;
pub mod console;
pub mod console_laws;
pub mod daemon;
pub mod decimal;
pub mod error;
pub mod fdt;
pub mod fdt_codec;
pub mod fdt_edit;
pub mod fdt_format_laws;
pub mod fdt_laws;
pub mod fdt_tree;
pub mod fetch;
pub mod fetch_laws;
pub mod host_buf;
pub mod image;
pub mod image_build;
pub mod image_build_laws;
pub mod image_laws;
pub mod kmd;
pub mod loader;
pub mod path;
pub mod path_laws;
pub mod regs;
pub mod text;
pub mod text_laws;
