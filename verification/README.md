# blackhole_linux

Linux on the L2CPUs (RISC-V application cores) of a Blackhole card: a library, verified with
[Verus](https://github.com/verus-lang/verus), and a program around it.

The library decides and computes; it touches neither the chip nor the file system. Where work
alternates between decisions and the outside (booting a core, pumping a console, downloading an
image), the library holds the decisions as a function from a state and an event to the next state,
and the program carries the steps out.

## Layout

- `src/` is the library. Its functions state in `ensures` what they return and change, and Verus
  proves it; where the system or another crate decides, they state what holds of every answer.
  - `fdt_tree`, `fdt_codec`, `fdt_edit`, `fdt`, `fdt_laws`: flattened device trees, as a tree, as
    bytes, and how they are edited.
  - `boot`, `boot_laws`, `loader`: the device tree of a guest, and the writes that start a core.
  - `clock`, `chip`, `kmd`, `host_buf`, `regs`: the clock, the reset of a board, and the driver.
  - `console`, `cloud_init`, `fetch`, `image`, `image_build`, `path`: the console of a core, seeds
    for the first boot, downloads, and disk images.
  - `bytes`, `decimal`, `text`, `error`: what the rest is written with.
  - `daemon/`: the requests to the daemon and its answers, its slots, consoles, metrics and their
    HTTP page, its log, how it starts and ends, and what it confines itself to.
- `app/` is the program: files, sockets, threads, `ioctl`s and signals.
- `tests/` runs the library on concrete values.

## Trust

A few functions of other crates are called from `src/`; what is believed of them stands in their
contracts, under `#[verifier::external_body]` and `assume_specification`. Public proof functions
state what holds of the library as a whole.

## Running

The register map of a board is data: `--board FILE` names a JSON file with it. Where the file says
where the telemetry of the card is, the metrics show it. Virtio devices are served by firmware on the
card that is not part of this program, so a guest is booted with its images and its console only.
