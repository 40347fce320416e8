//! The console of one L2CPU: what it printed last, and the clients that watch it.
//!
//! Sending to a client is left to the caller, which says afterwards whose socket would not take
//! the bytes; such a client is dropped.
use std::collections::VecDeque;
use vstd::prelude::*;
use vstd::string::*;
#[allow(unused_imports)]
use vstd::utf8::encode_utf8;

use crate::daemon::counters::PerL2cpuGauge;
use crate::daemon::protocol::ConsoleMode;

verus! {

/// The bytes of the scrollback that are kept when a slot is torn down.
pub const SHUTDOWN_TAIL_BYTES: usize = 0x4000;

/// The most bytes that a scrollback holds.
pub const SCROLLBACK_BYTES: usize = 0x10_0000;

/// The last `n` elements of `s`, or all of them where it is shorter.
pub open spec fn last_bytes(s: Seq<u8>, n: nat) -> Seq<u8> {
    if s.len() <= n {
        s
    } else {
        s.skip(s.len() - n)
    }
}

/// Appends `bytes` to `buf`, dropping the oldest so that no more than `cap` are left.
pub fn push_bounded(buf: &mut VecDeque<u8>, bytes: &[u8], cap: usize)
    requires
        0 < cap,
        old(buf)@.len() <= cap,
    ensures
        final(buf)@ == last_bytes(old(buf)@ + bytes@, cap as nat),
{
    let ghost start = buf@;
    let mut i: usize = 0;
    assert(start + bytes@.take(0) =~= start);
    while i < bytes.len()
        invariant
            i <= bytes@.len(),
            0 < cap,
            buf@.len() <= cap,
            buf@ == last_bytes(start + bytes@.take(i as int), cap as nat),
        decreases bytes@.len() - i,
    {
        let ghost whole = start + bytes@.take(i as int);
        let ghost next = start + bytes@.take(i + 1);
        assert(next =~= whole.push(bytes@[i as int]));
        if buf.len() >= cap {
            let _oldest: Option<u8> = buf.pop_front();
        }
        buf.push_back(bytes[i]);
        i = i + 1;
        assert(buf@ =~= last_bytes(next, cap as nat));
    }
    assert(bytes@.take(i as int) =~= bytes@);
}

/// A client that watches a console.
#[derive(Clone, Copy, Debug, PartialEq, Eq, Structural)]
pub struct Client {
    pub id: u64,
    /// Whether its keystrokes go to the core.
    pub is_writer: bool,
}

/// The writer among these clients.
pub open spec fn writer_of(clients: Seq<Client>) -> Option<u64>
    decreases clients.len(),
{
    if clients.len() == 0 {
        None
    } else if clients[0].is_writer {
        Some(clients[0].id)
    } else {
        writer_of(clients.skip(1))
    }
}

/// No two of these clients are the same, and at most one writes.
pub open spec fn orderly(clients: Seq<Client>) -> bool {
    forall|i: int, j: int|
        0 <= i < j < clients.len() ==> (#[trigger] clients[i]).id != (#[trigger] clients[j]).id && !(
        clients[i].is_writer && clients[j].is_writer)
}

/// These clients, none of them a writer.
pub open spec fn all_readers(clients: Seq<Client>) -> Seq<Client> {
    clients.map_values(|c: Client| Client { id: c.id, is_writer: false })
}

/// These clients without those that have one of the ids in `gone`.
pub open spec fn without(clients: Seq<Client>, gone: Seq<u64>) -> Seq<Client> {
    clients.filter(|c: Client| !gone.contains(c.id))
}

/// The ids of the clients that are in `gone`, in the order of the clients.
pub open spec fn dropped_ids(clients: Seq<Client>, gone: Seq<u64>) -> Seq<u64> {
    clients.filter(|c: Client| gone.contains(c.id)).map_values(|c: Client| c.id)
}

/// Whether a client that attaches in this way becomes the writer.
pub open spec fn becomes_writer(clients: Seq<Client>, mode: ConsoleMode) -> bool {
    match mode {
        ConsoleMode::Ro => false,
        ConsoleMode::Rw => writer_of(clients) is None,
        ConsoleMode::Takeover => true,
    }
}

/// The clients that are there once a client attached.
pub open spec fn clients_with(clients: Seq<Client>, id: u64, mode: ConsoleMode) -> Seq<Client> {
    (if mode == ConsoleMode::Takeover {
        all_readers(clients)
    } else {
        clients
    }).push(Client { id, is_writer: becomes_writer(clients, mode) })
}

/// The line that clients see last.
pub open spec fn goodbye(reason: Seq<char>) -> Seq<char> {
    "\r\n[bhx: "@ + reason + "]\r\n"@
}

/// What came of an attach.
#[derive(Debug)]
pub struct AttachResult {
    pub id: u64,
    /// Whether this client became the writer.
    pub is_writer: bool,
    pub scrollback_bytes: u32,
    /// The clients that stopped being the writer by it.
    pub demoted: Vec<u64>,
}

pub struct ConsoleHub {
    idx: u8,
    scrollback: VecDeque<u8>,
    clients: Vec<Client>,
    next_id: u64,
}

fn contains_id(ids: &[u64], id: u64) -> (r: bool)
    ensures
        r == ids@.contains(id),
{
    let mut i: usize = 0;
    while i < ids.len()
        invariant
            i <= ids@.len(),
            forall|k: int| 0 <= k < i ==> ids@[k] != id,
        decreases ids@.len() - i,
    {
        if ids[i] == id {
            assert(ids@[i as int] == id);
            return true;
        }
        i = i + 1;
    }
    false
}

proof fn lemma_no_writer(clients: Seq<Client>)
    requires
        forall|i: int| 0 <= i < clients.len() ==> !(#[trigger] clients[i]).is_writer,
    ensures
        writer_of(clients) is None,
    decreases clients.len(),
{
    if clients.len() > 0 {
        assert(!clients[0].is_writer);
        assert forall|i: int| 0 <= i < clients.skip(1).len() implies !(#[trigger] clients.skip(
            1,
        )[i]).is_writer by {
            assert(clients.skip(1)[i] == clients[i + 1]);
        }
        lemma_no_writer(clients.skip(1));
    }
}

proof fn lemma_writer_at(clients: Seq<Client>, n: int)
    requires
        0 <= n < clients.len(),
        clients[n].is_writer,
        forall|i: int| 0 <= i < n ==> !(#[trigger] clients[i]).is_writer,
    ensures
        writer_of(clients) == Some(clients[n].id),
    decreases clients.len(),
{
    if n > 0 {
        assert(!clients[0].is_writer);
        assert forall|i: int| 0 <= i < n - 1 implies !(#[trigger] clients.skip(1)[i]).is_writer by {
            assert(clients.skip(1)[i] == clients[i + 1]);
        }
        lemma_writer_at(clients.skip(1), n - 1);
    }
}

/// A client is the writer exactly where its flag says so.
pub proof fn writer_is_the_flagged_client(clients: Seq<Client>, n: int)
    requires
        orderly(clients),
        0 <= n < clients.len(),
    ensures
        clients[n].is_writer <==> writer_of(clients) == Some(clients[n].id),
{
    if clients[n].is_writer {
        assert forall|i: int| 0 <= i < n implies !(#[trigger] clients[i]).is_writer by {
            assert(clients[n].is_writer);
        }
        lemma_writer_at(clients, n);
    } else if writer_of(clients) is Some {
        let m = lemma_writer_index(clients);
        if clients[m].id == clients[n].id {
            if m < n {
                assert(clients[m].id != clients[n].id);
            } else if n < m {
                assert(clients[n].id != clients[m].id);
            }
        }
    }
}

proof fn lemma_writer_index(clients: Seq<Client>) -> (n: int)
    requires
        writer_of(clients) is Some,
    ensures
        0 <= n < clients.len(),
        clients[n].is_writer,
        writer_of(clients) == Some(clients[n].id),
    decreases clients.len(),
{
    if clients[0].is_writer {
        0
    } else {
        let m = lemma_writer_index(clients.skip(1));
        m + 1
    }
}

impl ConsoleHub {
    /// The L2CPU whose console this is.
    pub closed spec fn index(&self) -> int {
        self.idx as int
    }

    /// What the console printed last.
    pub closed spec fn printed(&self) -> Seq<u8> {
        self.scrollback@
    }

    /// The attached clients, in the order in which they came.
    pub closed spec fn attached(&self) -> Seq<Client> {
        self.clients@
    }

    /// The id of the next client.
    pub closed spec fn fresh_id(&self) -> u64 {
        self.next_id
    }

    /// The hub belongs to one of the four L2CPUs, its scrollback is bounded, its clients have ids
    /// of their own, older than the next one, and at most one of them writes.
    pub open spec fn wf(&self) -> bool {
        &&& 0 <= self.index() < 4
        &&& self.printed().len() <= SCROLLBACK_BYTES
        &&& orderly(self.attached())
        &&& forall|i: int|
            0 <= i < self.attached().len() ==> (#[trigger] self.attached()[i]).id
                < self.fresh_id()
    }

    pub fn new(idx: u8) -> (hub: Self)
        requires
            idx < 4,
        ensures
            hub.wf(),
            hub.index() == idx,
            hub.printed() == Seq::<u8>::empty(),
            hub.attached() == Seq::<Client>::empty(),
            hub.fresh_id() == 1,
    {
        ConsoleHub { idx, scrollback: VecDeque::new(), clients: Vec::new(), next_id: 1 }
    }

    /// Whether there is an id left for another client.
    pub fn can_attach(&self) -> (b: bool)
        ensures
            b == (self.fresh_id() < u64::MAX),
    {
        self.next_id < u64::MAX
    }

    /// Adds a client, and gives back the scrollback for it to replay. The first client that may
    /// write does; a takeover makes the newcomer the writer in any case.
    pub fn attach(&mut self, mode: ConsoleMode, gauge: &mut PerL2cpuGauge) -> (r: (
        AttachResult,
        Vec<u8>,
    ))
        requires
            old(self).wf(),
            old(self).fresh_id() < u64::MAX,
        ensures
            final(self).wf(),
            final(self).index() == old(self).index(),
            final(self).printed() == old(self).printed(),
            final(self).attached() == clients_with(
                old(self).attached(),
                old(self).fresh_id(),
                mode,
            ),
            final(self).fresh_id() == old(self).fresh_id() + 1,
            final(gauge)@ == old(gauge)@.update(
                old(self).index(),
                (old(self).attached().len() + 1) as i64,
            ),
            r.0.id == old(self).fresh_id(),
            r.0.is_writer == becomes_writer(old(self).attached(), mode),
            r.0.scrollback_bytes == old(self).printed().len(),
            r.0.demoted@ == match (mode, writer_of(old(self).attached())) {
                (ConsoleMode::Takeover, Some(prev)) => seq![prev],
                _ => Seq::<u64>::empty(),
            },
            r.1@ == old(self).printed(),
    {
        let id: u64 = self.next_id;
        let writer: Option<u64> = self.current_writer_id();
        let mut demoted: Vec<u64> = Vec::new();
        let ghost before = self.clients@;
        let is_writer: bool = match mode {
            ConsoleMode::Ro => false,
            ConsoleMode::Rw => writer.is_none(),
            ConsoleMode::Takeover => {
                match writer {
                    Some(prev) => {
                        demoted.push(prev);
                    },
                    None => {},
                }
                let mut readers: Vec<Client> = Vec::new();
                let mut i: usize = 0;
                while i < self.clients.len()
                    invariant
                        self.clients@ == before,
                        i <= before.len(),
                        readers@ == all_readers(before).take(i as int),
                    decreases before.len() - i,
                {
                    readers.push(Client { id: self.clients[i].id, is_writer: false });
                    i = i + 1;
                    assert(readers@ =~= all_readers(before).take(i as int));
                }
                assert(readers@ =~= all_readers(before));
                self.clients = readers;
                true
            },
        };
        assert(mode == ConsoleMode::Takeover && writer_of(before) is Some ==> demoted@ =~= seq![
            writer_of(before)->0,
        ]);
        let scrollback: Vec<u8> = self.tail(SCROLLBACK_BYTES);
        assert(scrollback@ == self.scrollback@);
        proof {
            let held = self.clients@;
            assert forall|i: int|
                0 <= i < held.len() implies (#[trigger] held[i]).id == before[i].id && (
            is_writer ==> !held[i].is_writer) && (held[i].is_writer ==> before[i].is_writer) by {
                if mode == ConsoleMode::Rw && is_writer && held[i].is_writer {
                    writer_is_the_flagged_client(before, i);
                }
            }
            assert forall|i: int, j: int| 0 <= i < j < held.len() implies (#[trigger] held[i]).id
                != (#[trigger] held[j]).id && !(held[i].is_writer && held[j].is_writer) by {
                assert(before[i].id != before[j].id);
            }
        }
        let ghost held = self.clients@;
        self.clients.push(Client { id, is_writer });
        self.next_id = id + 1;
        proof {
            let now = self.clients@;
            assert forall|i: int, j: int| 0 <= i < j < now.len() implies (#[trigger] now[i]).id != (
            #[trigger] now[j]).id && !(now[i].is_writer && now[j].is_writer) by {
                if j < held.len() {
                    assert(held[i].id != held[j].id);
                } else {
                    assert(before[i].id < id);
                    assert(held[i].id == before[i].id);
                }
            }
            assert forall|i: int| 0 <= i < now.len() implies (#[trigger] now[i]).id < id + 1 by {
                if i < held.len() {
                    assert(before[i].id < id);
                    assert(held[i].id == before[i].id);
                }
            }
        }
        self.report(gauge);
        let bytes: u32 = scrollback.len() as u32;
        (AttachResult { id, is_writer, scrollback_bytes: bytes, demoted }, scrollback)
    }

    /// Writes the number of clients to the gauge.
    fn report(&self, gauge: &mut PerL2cpuGauge)
        requires
            self.wf(),
        ensures
            final(gauge)@ == old(gauge)@.update(self.index(), self.attached().len() as i64),
    {
        let n: i64 = self.clients.len() as i64;
        gauge.at(self.idx).set(n);
    }

    /// Keeps the clients that are not in `gone`, and gives back the ids of those that are.
    fn drop_clients(&mut self, gone: &[u64]) -> (dropped: Vec<u64>)
        requires
            old(self).wf(),
        ensures
            final(self).wf(),
            final(self).index() == old(self).index(),
            final(self).printed() == old(self).printed(),
            final(self).fresh_id() == old(self).fresh_id(),
            final(self).attached() == without(old(self).attached(), gone@),
            dropped@ == dropped_ids(old(self).attached(), gone@),
    {
        let ghost all = self.clients@;
        let ghost stays = |c: Client| !gone@.contains(c.id);
        let ghost goes = |c: Client| gone@.contains(c.id);
        let mut kept: Vec<Client> = Vec::new();
        let mut dropped: Vec<u64> = Vec::new();
        let mut i: usize = 0;
        proof {
            reveal(Seq::filter);
        }
        assert(all.take(0) =~= Seq::<Client>::empty());
        while i < self.clients.len()
            invariant
                *self == *old(self),
                self.wf(),
                all == self.clients@,
                stays == (|c: Client| !gone@.contains(c.id)),
                goes == (|c: Client| gone@.contains(c.id)),
                i <= all.len(),
                kept@ == all.take(i as int).filter(stays),
                dropped@ == all.take(i as int).filter(goes).map_values(|c: Client| c.id),
                orderly(kept@),
                forall|k: int|
                    0 <= k < kept@.len() ==> exists|m: int|
                        0 <= m < i && #[trigger] kept@[k] == #[trigger] all[m],
            decreases all.len() - i,
        {
            let c: Client = self.clients[i];
            let ghost was = kept@;
            proof {
                reveal(Seq::filter);
                assert(all.take(i + 1).drop_last() =~= all.take(i as int));
                assert(all.take(i + 1).last() == c);
            }
            if contains_id(gone, c.id) {
                dropped.push(c.id);
                assert(dropped@ =~= all.take(i + 1).filter(goes).map_values(|c: Client| c.id));
            } else {
                kept.push(c);
                proof {
                    assert forall|a: int, b: int| 0 <= a < b < kept@.len() implies (
                    #[trigger] kept@[a]).id != (#[trigger] kept@[b]).id && !(kept@[a].is_writer
                        && kept@[b].is_writer) by {
                        if b < was.len() {
                            assert(was[a].id != was[b].id);
                        } else {
                            assert(was[a] == kept@[a]);
                            let m = choose|m: int| 0 <= m < i && was[a] == #[trigger] all[m];
                            assert(all[m].id != all[i as int].id);
                        }
                    }
                }
            }
            proof {
                assert forall|k: int| 0 <= k < kept@.len() implies exists|m: int|
                    0 <= m < i + 1 && #[trigger] kept@[k] == #[trigger] all[m] by {
                    if k < was.len() {
                        assert(was[k] == kept@[k]);
                        let m = choose|m: int| 0 <= m < i && was[k] == #[trigger] all[m];
                        assert(kept@[k] == all[m]);
                    } else {
                        assert(kept@[k] == all[i as int]);
                    }
                }
            }
            i = i + 1;
        }
        assert(all.take(i as int) =~= all);
        self.clients = kept;
        assert forall|k: int| 0 <= k < self.clients@.len() implies (#[trigger] self.clients@[k]).id
            < self.next_id by {
            let m = choose|m: int| 0 <= m < all.len() && kept@[k] == #[trigger] all[m];
            assert(old(self).attached()[m].id < old(self).fresh_id());
        }
        dropped
    }

    /// Removes a client. Where it is not attached nothing happens.
    pub fn detach(&mut self, id: u64, gauge: &mut PerL2cpuGauge)
        requires
            old(self).wf(),
        ensures
            final(self).wf(),
            final(self).index() == old(self).index(),
            final(self).printed() == old(self).printed(),
            final(self).fresh_id() == old(self).fresh_id(),
            final(self).attached() == without(old(self).attached(), seq![id]),
            final(gauge)@ == old(gauge)@.update(
                old(self).index(),
                final(self).attached().len() as i64,
            ),
    {
        let mut gone: Vec<u64> = Vec::new();
        gone.push(id);
        let _dropped: Vec<u64> = self.drop_clients(gone.as_slice());
        assert(gone@ =~= seq![id]);
        self.report(gauge);
    }

    /// The client whose keystrokes go to the core.
    pub fn current_writer_id(&self) -> (id: Option<u64>)
        ensures
            id == writer_of(self.attached()),
    {
        let ghost all = self.clients@;
        let mut i: usize = 0;
        while i < self.clients.len()
            invariant
                all == self.clients@,
                i <= all.len(),
                forall|k: int| 0 <= k < i ==> !(#[trigger] all[k]).is_writer,
            decreases all.len() - i,
        {
            if self.clients[i].is_writer {
                proof {
                    lemma_writer_at(all, i as int);
                }
                return Some(self.clients[i].id);
            }
            i = i + 1;
        }
        proof {
            lemma_no_writer(all);
        }
        None
    }

    /// Records what the core printed. `failed` are the clients that could not be sent the bytes:
    /// they are dropped, and their ids given back.
    pub fn push_chip_output(
        &mut self,
        bytes: &[u8],
        failed: &[u64],
        gauge: &mut PerL2cpuGauge,
    ) -> (dropped: Vec<u64>)
        requires
            old(self).wf(),
        ensures
            final(self).wf(),
            final(self).index() == old(self).index(),
            final(self).fresh_id() == old(self).fresh_id(),
            bytes@.len() == 0 ==> *final(self) == *old(self) && *final(gauge) == *old(gauge)
                && dropped@.len() == 0,
            bytes@.len() > 0 ==> {
                &&& final(self).printed() == last_bytes(
                    old(self).printed() + bytes@,
                    SCROLLBACK_BYTES as nat,
                )
                &&& final(self).attached() == without(old(self).attached(), failed@)
                &&& dropped@ == dropped_ids(old(self).attached(), failed@)
                &&& final(gauge)@ == if dropped@.len() > 0 {
                    old(gauge)@.update(
                        old(self).index(),
                        final(self).attached().len() as i64,
                    )
                } else {
                    old(gauge)@
                }
            },
    {
        if bytes.len() == 0 {
            return Vec::new();
        }
        push_bounded(&mut self.scrollback, bytes, SCROLLBACK_BYTES);
        let dropped: Vec<u64> = self.drop_clients(failed);
        if dropped.len() > 0 {
            self.report(gauge);
        }
        dropped
    }

    pub fn client_count(&self) -> (n: usize)
        ensures
            n == self.attached().len(),
    {
        self.clients.len()
    }

    /// The ids of the attached clients, in the order in which they came.
    pub fn client_ids(&self) -> (ids: Vec<u64>)
        ensures
            ids@ == self.attached().map_values(|c: Client| c.id),
    {
        let mut ids: Vec<u64> = Vec::new();
        let mut i: usize = 0;
        while i < self.clients.len()
            invariant
                i <= self.clients@.len(),
                ids@ == self.clients@.take(i as int).map_values(|c: Client| c.id),
            decreases self.clients@.len() - i,
        {
            ids.push(self.clients[i].id);
            i = i + 1;
            assert(ids@ =~= self.clients@.take(i as int).map_values(|c: Client| c.id));
        }
        assert(self.clients@.take(i as int) =~= self.clients@);
        ids
    }

    /// Ends the session of every client with a line that says why, which also goes to the
    /// scrollback. Gives back the line, for the caller to send before it closes the sockets.
    pub fn disconnect_all_with_reason(
        &mut self,
        reason: &str,
        gauge: &mut PerL2cpuGauge,
    ) -> (line: String)
        requires
            old(self).wf(),
        ensures
            final(self).wf(),
            final(self).index() == old(self).index(),
            final(self).fresh_id() == old(self).fresh_id(),
            final(self).attached() == Seq::<Client>::empty(),
            final(self).printed() == last_bytes(
                old(self).printed() + encode_utf8(goodbye(reason@)),
                SCROLLBACK_BYTES as nat,
            ),
            final(gauge)@ == old(gauge)@.update(old(self).index(), 0),
            line@ == goodbye(reason@),
    {
        let mut line: String = "\r\n[bhx: ".to_owned();
        line.append(reason);
        line.append("]\r\n");
        push_bounded(&mut self.scrollback, line.as_str().as_bytes(), SCROLLBACK_BYTES);
        self.clients = Vec::new();
        assert(self.clients@ =~= Seq::<Client>::empty());
        self.report(gauge);
        line
    }

    /// The last `n` bytes of the scrollback, or all of it where it is shorter.
    pub fn tail(&self, n: usize) -> (v: Vec<u8>)
        ensures
            v@ == last_bytes(self.printed(), n as nat),
    {
        let len: usize = self.scrollback.len();
        let start: usize = if n < len {
            len - n
        } else {
            0
        };
        let mut v: Vec<u8> = Vec::new();
        let mut i: usize = start;
        while i < len
            invariant
                start <= i <= len,
                len == self.scrollback@.len(),
                v@ == self.scrollback@.subrange(start as int, i as int),
            decreases len - i,
        {
            v.push(self.scrollback[i]);
            i = i + 1;
            assert(v@ =~= self.scrollback@.subrange(start as int, i as int));
        }
        assert(v@ =~= last_bytes(self.printed(), n as nat));
        v
    }

    /// Throws the scrollback away.
    pub fn clear_scrollback(&mut self)
        requires
            old(self).wf(),
        ensures
            final(self).wf(),
            final(self).index() == old(self).index(),
            final(self).fresh_id() == old(self).fresh_id(),
            final(self).attached() == old(self).attached(),
            final(self).printed() == Seq::<u8>::empty(),
    {
        self.scrollback = VecDeque::new();
    }
}

/// A client that attached without taking the console over, and left again, was never there.
pub proof fn detach_undoes_attach(clients: Seq<Client>, id: u64, mode: ConsoleMode)
    requires
        mode != ConsoleMode::Takeover,
        forall|i: int| 0 <= i < clients.len() ==> (#[trigger] clients[i]).id < id,
    ensures
        without(clients_with(clients, id, mode), seq![id]) == clients,
{
    let all = clients_with(clients, id, mode);
    let stays = |c: Client| !seq![id].contains(c.id);
    reveal(Seq::filter);
    assert(all.drop_last() =~= clients);
    assert(seq![id].contains(id)) by {
        assert(seq![id][0] == id);
    }
    assert(!stays(all.last()));
    assert forall|i: int| 0 <= i < clients.len() implies stays(#[trigger] clients[i]) by {
        if seq![id].contains(clients[i].id) {
            let k = choose|k: int| 0 <= k < 1 && seq![id][k] == clients[i].id;
            assert(k == 0);
        }
    }
    lemma_filter_keeps_all(clients, stays);
}

proof fn lemma_filter_keeps_all(s: Seq<Client>, p: spec_fn(Client) -> bool)
    requires
        forall|i: int| 0 <= i < s.len() ==> p(#[trigger] s[i]),
    ensures
        s.filter(p) == s,
    decreases s.len(),
{
    reveal(Seq::filter);
    if s.len() > 0 {
        let t = s.drop_last();
        assert forall|i: int| 0 <= i < t.len() implies p(#[trigger] t[i]) by {
            assert(p(s[i]));
        }
        lemma_filter_keeps_all(t, p);
        assert(p(s[s.len() - 1]));
        assert(t.push(s.last()) =~= s);
    } else {
        assert(s.filter(p) =~= s);
    }
}

/// Whoever takes the console over is its only writer.
pub proof fn takeover_makes_the_only_writer(clients: Seq<Client>, id: u64)
    ensures
        writer_of(clients_with(clients, id, ConsoleMode::Takeover)) == Some(id),
        forall|i: int|
            0 <= i < clients.len() ==> !(#[trigger] clients_with(
                clients,
                id,
                ConsoleMode::Takeover,
            )[i]).is_writer,
{
    let all = clients_with(clients, id, ConsoleMode::Takeover);
    assert(all[clients.len() as int].is_writer);
    lemma_writer_at(all, clients.len() as int);
}

/// While a client writes, another that attaches without taking over only watches.
pub proof fn first_writer_stays(clients: Seq<Client>, id: u64, mode: ConsoleMode)
    requires
        mode != ConsoleMode::Takeover,
        writer_of(clients) is Some,
    ensures
        writer_of(clients_with(clients, id, mode)) == writer_of(clients),
    decreases clients.len(),
{
    let all = clients_with(clients, id, mode);
    let n = lemma_first_writer(clients);
    assert forall|i: int| 0 <= i < n implies !(#[trigger] all[i]).is_writer by {
        assert(!clients[i].is_writer);
    }
    lemma_writer_at(all, n);
}

proof fn lemma_first_writer(clients: Seq<Client>) -> (n: int)
    requires
        writer_of(clients) is Some,
    ensures
        0 <= n < clients.len(),
        clients[n].is_writer,
        writer_of(clients) == Some(clients[n].id),
        forall|i: int| 0 <= i < n ==> !(#[trigger] clients[i]).is_writer,
    decreases clients.len(),
{
    if clients[0].is_writer {
        0
    } else {
        let m = lemma_first_writer(clients.skip(1));
        assert forall|i: int| 0 <= i < m + 1 implies !(#[trigger] clients[i]).is_writer by {
            if i > 0 {
                assert(!clients.skip(1)[i - 1].is_writer);
            }
        }
        m + 1
    }
}

/// However much was printed in whatever pieces, the scrollback is the end of all of it.
pub proof fn scrollback_is_the_end_of_the_output(before: Seq<u8>, more: Seq<u8>, later: Seq<u8>, n: nat)
    ensures
        last_bytes(last_bytes(before + more, n) + later, n) == last_bytes(before + more + later, n),
        last_bytes(before + more, n).len() <= n,
        more.len() <= n ==> last_bytes(before + more, n).skip(
            last_bytes(before + more, n).len() - more.len(),
        ) == more,
{
    let whole = before + more;
    assert(last_bytes(last_bytes(whole, n) + later, n) =~= last_bytes(whole + later, n));
    if more.len() <= n {
        assert(last_bytes(whole, n).skip(last_bytes(whole, n).len() - more.len()) =~= more);
    }
}

/// What a socket that does not block said of a send.
#[derive(Clone, Copy, Debug, PartialEq, Eq, Structural)]
pub enum SendEvent {
    /// It took this many bytes.
    Took(usize),
    /// A signal came in between.
    Interrupted,
    /// It has no room, or is gone.
    Refused,
}

/// What comes next when bytes are sent to a client.
#[derive(Clone, Copy, Debug, PartialEq, Eq, Structural)]
pub enum SendStep {
    /// The client has them all.
    Finished,
    /// They are sent again.
    Again,
    /// The client is dropped.
    Drop,
}

/// Decides how to go on after a send of `len` bytes came out in some way. Only a send that a signal
/// came between is made again; a client that does not take all of what it is sent at once is
/// dropped rather than waited for.
pub fn send_all_dontwait(len: usize, event: SendEvent) -> (step: SendStep)
    ensures
        step == match event {
            SendEvent::Took(n) => if n == len {
                SendStep::Finished
            } else {
                SendStep::Drop
            },
            SendEvent::Interrupted => SendStep::Again,
            SendEvent::Refused => SendStep::Drop,
        },
{
    match event {
        SendEvent::Took(n) => {
            if n == len {
                SendStep::Finished
            } else {
                SendStep::Drop
            }
        },
        SendEvent::Interrupted => SendStep::Again,
        SendEvent::Refused => SendStep::Drop,
    }
}

} // verus!
