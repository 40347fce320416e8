//! What a client and the daemon say to each other over the control socket.
use vstd::prelude::*;

verus! {

/// How a client wants to take part in a console.
#[derive(Clone, Copy, Debug, PartialEq, Eq, Structural)]
pub enum ConsoleMode {
    /// Read only.
    Ro,
    /// Write as well, unless another client does.
    Rw,
    /// Write as well, in place of whoever does.
    Takeover,
}

/// What the firmware hands control to.
#[derive(Debug, PartialEq, Eq)]
pub enum BootPayload {
    Kernel { path: String },
    Uboot { path: String },
}

impl BootPayload {
    pub open spec fn file(&self) -> Seq<char> {
        match *self {
            BootPayload::Kernel { path } => path@,
            BootPayload::Uboot { path } => path@,
        }
    }

    /// The file that holds the payload.
    pub fn path(&self) -> (p: &str)
        ensures
            p@ == self.file(),
    {
        match self {
            BootPayload::Kernel { path } => path.as_str(),
            BootPayload::Uboot { path } => path.as_str(),
        }
    }

    pub fn is_uboot(&self) -> (r: bool)
        ensures
            r == (self is Uboot),
    {
        match self {
            BootPayload::Kernel { .. } => false,
            BootPayload::Uboot { .. } => true,
        }
    }
}

/// A request to boot an L2CPU.
#[derive(Debug)]
pub struct BootRequest {
    pub l2cpu: u8,
    pub opensbi: String,
    pub payload: BootPayload,
    pub dtb: String,
    pub initramfs: Option<String>,
    pub root_device: String,
    pub disk: Option<String>,
    pub network: bool,
    pub extra_fwd: Vec<(u16, u16)>,
    pub console: bool,
    pub rng: bool,
    pub force: bool,
    pub memory_override: Option<u64>,
    pub hostname_override: Option<String>,
    pub cloud_init: Option<String>,
}

/// What a client asks of the daemon.
#[derive(Debug)]
pub enum Request {
    Status,
    Boot(BootRequest),
    AttachConsole { l2cpu: u8, mode: ConsoleMode },
    AddDisk { l2cpu: u8, path: String, name: Option<String> },
    RemoveDisk { l2cpu: u8, name: Option<String> },
    AddNet { l2cpu: u8, ssh_port: Option<u16>, extra_fwd: Vec<(u16, u16)> },
    RemoveNet { l2cpu: u8 },
    AddConsole { l2cpu: u8 },
    RemoveConsole { l2cpu: u8 },
    Stop { l2cpu: u8 },
    Shutdown,
}

/// What an L2CPU is doing, as far as the daemon knows.
#[derive(Clone, Copy, Debug, PartialEq, Eq, Structural)]
pub enum L2CpuState {
    Stopped,
    Running,
    /// The guest is gone and the firmware waits to be released.
    Parked,
    /// Out of reset, but without firmware that answers.
    Wedged,
}

/// An attached disk.
#[derive(Debug, PartialEq, Eq)]
pub struct DiskAttach {
    pub path: String,
    pub name: Option<String>,
}

/// The addresses that firmware published for releasing or parking a core.
#[derive(Clone, Copy, Debug, PartialEq, Eq)]
pub struct PurgatoryReleaseMeta {
    pub next_addr_pa: u64,
    pub next_mode_pa: u64,
    pub next_arg1_pa: u64,
    pub hsm_state_pa: u64,
    pub msip_pa: u64,
    pub force_park_request_pa: Option<u64>,
    pub force_park_request_value: Option<u64>,
}

/// The state of one L2CPU.
#[derive(Debug, PartialEq, Eq)]
pub struct L2CpuStatus {
    pub idx: u8,
    pub state: L2CpuState,
    /// The path of the first disk.
    pub disk: Option<String>,
    pub disks: Vec<DiskAttach>,
    pub net: bool,
    pub virtio_console: bool,
    pub clients: u32,
    pub purgatory_status: Option<u64>,
    pub purgatory_peers: Option<u64>,
    pub purgatory_release_meta: Option<PurgatoryReleaseMeta>,
}

/// The state of the daemon.
#[derive(Debug, PartialEq, Eq)]
pub struct StatusPayload {
    pub pid: u32,
    pub uptime_secs: u64,
    pub l2cpus: Vec<L2CpuStatus>,
    pub engine_tile: Option<(u32, u32)>,
    pub pll_fbdiv: Option<u16>,
    pub pll_postdiv0: Option<u8>,
}

/// What the daemon answers.
#[derive(Debug, PartialEq, Eq)]
pub enum Response {
    Done,
    Error { error: String },
    Status(StatusPayload),
    Attached { scrollback_bytes: u32, live: bool },
}

} // verus!
