//! What the daemon knows of the L2CPUs of its card.
use std::collections::VecDeque;
use vstd::prelude::*;

use crate::daemon::console_hub::{ConsoleHub, SHUTDOWN_TAIL_BYTES};
use crate::daemon::protocol::BootPayload;

verus! {

/// A disk that is attached to a slot.
#[derive(Debug)]
pub struct DiskWorker {
    pub path: String,
    /// The slot of the engine that the disk occupies.
    pub slot_idx: u32,
    /// The name that the operator gave the disk.
    pub name: Option<String>,
}

/// The most keystrokes that wait for a virtio console.
pub const RX_BUFFER_CAP: usize = 0x4000;

/// The virtio console of a slot.
#[derive(Debug)]
pub struct VirtioConsoleSlot {
    /// Keystrokes on their way to the guest.
    pub input_buf: VecDeque<u8>,
}

/// A booted L2CPU.
pub struct L2CpuSlot {
    pub idx: u8,
    pub console_hub: ConsoleHub,
    pub disks: Vec<DiskWorker>,
    pub net: bool,
    pub virtio_console: Option<VirtioConsoleSlot>,
    pub virtio_rng: bool,
    /// What was booted; unknown where the slot was adopted from an earlier daemon.
    pub boot_payload: Option<BootPayload>,
    pub net_extra_fwd: Vec<(u16, u16)>,
}

impl L2CpuSlot {
    /// No more keystrokes wait for the guest than there is room for.
    pub open spec fn input_fits(&self) -> bool {
        match self.virtio_console {
            Some(vc) => vc.input_buf@.len() <= RX_BUFFER_CAP,
            None => true,
        }
    }

    /// The slot stands at its own index, as does its console, and what waits for the guest fits.
    pub open spec fn wf_at(&self, i: int) -> bool {
        &&& self.idx == i
        &&& self.console_hub.index() == i
        &&& self.console_hub.wf()
        &&& self.input_fits()
    }

    /// `after` is this slot with these attachments. Nothing waits at a virtio console that is new;
    /// at one that stays, what waited.
    pub open spec fn is_with(
        &self,
        after: L2CpuSlot,
        disks: Seq<DiskWorker>,
        net: bool,
        virtio_console: bool,
        virtio_rng: bool,
    ) -> bool {
        &&& after.idx == self.idx
        &&& after.console_hub == self.console_hub
        &&& after.disks@ == disks
        &&& after.net == net
        &&& match after.virtio_console {
            Some(vc) => virtio_console && match self.virtio_console {
                Some(before) => vc == before,
                None => vc.input_buf@.len() == 0,
            },
            None => !virtio_console,
        }
        &&& after.virtio_rng == virtio_rng
        &&& after.boot_payload == self.boot_payload
        &&& after.net_extra_fwd == self.net_extra_fwd
    }

    /// A slot with a fresh console and nothing attached.
    pub fn new(idx: u8) -> (slot: Self)
        requires
            idx < 4,
        ensures
            slot.wf_at(idx as int),
            slot.console_hub.printed() == Seq::<u8>::empty(),
            slot.console_hub.attached().len() == 0,
            slot.console_hub.fresh_id() == 1,
            slot.disks@.len() == 0,
            !slot.net,
            slot.virtio_console is None,
            !slot.virtio_rng,
            slot.boot_payload is None,
            slot.net_extra_fwd@.len() == 0,
    {
        L2CpuSlot {
            idx,
            console_hub: ConsoleHub::new(idx),
            disks: Vec::new(),
            net: false,
            virtio_console: None,
            virtio_rng: false,
            boot_payload: None,
            net_extra_fwd: Vec::new(),
        }
    }
}

/// The daemon's view of its card.
pub struct DaemonState {
    pub card: u32,
    /// The booted L2CPUs.
    pub l2cpus: [Option<L2CpuSlot>; 4],
    /// Which L2CPUs were found out of reset without firmware that answers.
    pub wedged: [bool; 4],
    /// What the console of an L2CPU printed last before it was stopped.
    pub shutdown_tails: [Vec<u8>; 4],
    /// The tile of the virtio engine, once it is up.
    pub engine_tile: Option<(u32, u32)>,
    /// Whether the poller that serves the engine is up.
    pub kick_poller: bool,
    /// Set once the daemon is to stop.
    pub shutdown: bool,
}

impl DaemonState {
    /// Every slot stands at its own index, and the tails are bounded.
    pub open spec fn wf(&self) -> bool {
        &&& forall|i: int|
            0 <= i < 4 ==> (#[trigger] self.l2cpus@[i] matches Some(slot) ==> slot.wf_at(i))
        &&& forall|i: int|
            0 <= i < 4 ==> (#[trigger] self.shutdown_tails@[i])@.len() <= SHUTDOWN_TAIL_BYTES
    }

    /// `after` differs from this state at most in the slot `i`.
    pub open spec fn same_but_slot(&self, after: DaemonState, i: int) -> bool {
        &&& after.card == self.card
        &&& after.wedged == self.wedged
        &&& after.shutdown_tails == self.shutdown_tails
        &&& after.engine_tile == self.engine_tile
        &&& after.kick_poller == self.kick_poller
        &&& after.shutdown == self.shutdown
        &&& forall|j: int|
            0 <= j < 4 && j != i ==> #[trigger] after.l2cpus@[j] == self.l2cpus@[j]
    }

    /// The state of a daemon that has just started.
    pub fn new(card: u32) -> (state: Self)
        ensures
            state.wf(),
            state.card == card,
            forall|i: int| 0 <= i < 4 ==> #[trigger] state.l2cpus@[i] is None,
            forall|i: int| 0 <= i < 4 ==> !#[trigger] state.wedged@[i],
            forall|i: int| 0 <= i < 4 ==> (#[trigger] state.shutdown_tails@[i])@.len() == 0,
            state.engine_tile is None,
            !state.kick_poller,
            !state.shutdown,
    {
        DaemonState {
            card,
            l2cpus: [None, None, None, None],
            wedged: [false, false, false, false],
            shutdown_tails: [Vec::new(), Vec::new(), Vec::new(), Vec::new()],
            engine_tile: None,
            kick_poller: false,
            shutdown: false,
        }
    }

    /// Whether the clock of the L2CPUs may be lowered: no slot is booted, and every core was read
    /// and is held in reset. `running` is what the chip says of each core, where it could be read.
    pub fn maybe_idle_pll(&self, running: &[Option<bool>; 4]) -> (idle: bool)
        ensures
            idle == forall|i: int|
                0 <= i < 4 ==> #[trigger] self.l2cpus@[i] is None && running@[i] == Some(false),
    {
        let mut i: usize = 0;
        while i < 4
            invariant
                i <= 4,
                forall|j: int|
                    0 <= j < i ==> #[trigger] self.l2cpus@[j] is None && running@[j] == Some(
                        false,
                    ),
            decreases 4 - i,
        {
            let booted: bool = self.l2cpus[i].is_some();
            let held: bool = match running[i] {
                Some(r) => !r,
                None => false,
            };
            if booted || !held {
                assert(!(self.l2cpus@[i as int] is None && running@[i as int] == Some(false)));
                return false;
            }
            i = i + 1;
        }
        true
    }
}

} // verus!
