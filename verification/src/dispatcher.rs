//! The dispatcher: the registry of the connected clients, one slot for each
//! public key, and the routing of packets into the mailboxes of their
//! destinations.

use vstd::prelude::*;
use crate::frame::{Frame, FrameView, KEY_LEN};
use crate::key::PublicKey;
use crate::mailbox::{Mailbox, MailboxView, SendError};
use crate::rate_limit::ClientConnRateLimit;
use crate::text::bytes_eq;

verus! {

/// The number of messages that may wait for the dispatcher.
pub const SERVER_CHANNEL_SIZE: usize = 1024;

/// How long a sender waits for room in the dispatcher's channel before its
/// connection is closed, in microseconds.
pub const SERVER_CHANNEL_SEND_TIMEOUT_MICROS: u64 = 5_000_000;

/// The deadline for writing one frame to a client, in microseconds.
pub const WRITE_TIMEOUT_MICROS: u64 = 2_000_000;

/// What the dispatcher is told of a client whose handshake succeeded.
#[derive(Clone, Copy, Debug)]
pub struct ClientConnConfig {
    pub node_id: PublicKey,
    pub write_timeout: u64,
    pub channel_capacity: usize,
    pub rate_limit: Option<ClientConnRateLimit>,
    pub peer_gone_on_close: bool,
}

/// The mathematical content of a [`ConnectionSlot`].
pub struct SlotView {
    pub node_id: Seq<u8>,
    pub epoch: u64,
    pub mailbox: MailboxView,
    pub last_seen: u64,
    pub created_at: u64,
    pub peer_gone_on_close: bool,
    pub cancelled: bool,
}

impl SlotView {
    pub open spec fn wf(self) -> bool {
        self.node_id.len() == KEY_LEN && self.mailbox.wf()
    }

    /// The slot of a connection that has just been admitted.
    pub open spec fn fresh(
        node_id: Seq<u8>,
        epoch: u64,
        capacity: nat,
        peer_gone_on_close: bool,
        now: u64,
    ) -> SlotView {
        SlotView {
            node_id,
            epoch,
            mailbox: MailboxView { capacity, queue: Seq::empty() },
            last_seen: now,
            created_at: now,
            peer_gone_on_close,
            cancelled: false,
        }
    }

    /// The slot as it leaves the registry because a newer connection with
    /// the same key took its place: it is told that its peer is gone, if its
    /// mailbox has room for that, and it is cancelled.
    pub open spec fn replaced(self) -> SlotView {
        SlotView {
            mailbox: self.mailbox.offer(FrameView::PeerGone { peer: self.node_id }),
            cancelled: true,
            ..self
        }
    }

    /// The slot as it leaves the registry for any other reason.
    pub open spec fn closed(self) -> SlotView {
        SlotView { cancelled: true, ..self }
    }
}

/// The registry entry of one connected client.
#[derive(Debug)]
pub struct ConnectionSlot {
    node_id: PublicKey,
    epoch: u64,
    mailbox: Mailbox,
    last_seen: u64,
    created_at: u64,
    peer_gone_on_close: bool,
    cancelled: bool,
}

impl View for ConnectionSlot {
    type V = SlotView;

    closed spec fn view(&self) -> SlotView {
        SlotView {
            node_id: self.node_id@,
            epoch: self.epoch,
            mailbox: self.mailbox@,
            last_seen: self.last_seen,
            created_at: self.created_at,
            peer_gone_on_close: self.peer_gone_on_close,
            cancelled: self.cancelled,
        }
    }
}

impl ConnectionSlot {
    pub open spec fn wf(&self) -> bool {
        self@.wf()
    }

    pub fn node_id(&self) -> (k: PublicKey)
        ensures
            k@ == self@.node_id,
    {
        self.node_id
    }

    pub fn epoch(&self) -> (e: u64)
        ensures
            e == self@.epoch,
    {
        self.epoch
    }

    pub fn last_seen(&self) -> (t: u64)
        ensures
            t == self@.last_seen,
    {
        self.last_seen
    }

    pub fn created_at(&self) -> (t: u64)
        ensures
            t == self@.created_at,
    {
        self.created_at
    }

    pub fn peer_gone_on_close(&self) -> (b: bool)
        ensures
            b == self@.peer_gone_on_close,
    {
        self.peer_gone_on_close
    }

    /// Tells whether the connection of this slot has been told to stop.
    pub fn is_cancelled(&self) -> (b: bool)
        ensures
            b == self@.cancelled,
    {
        self.cancelled
    }

    /// The number of frames that wait in the mailbox.
    pub fn queued(&self) -> (n: usize)
        ensures
            n == self@.mailbox.queue.len(),
    {
        self.mailbox.len()
    }

    /// Takes the oldest frame out of the mailbox of a slot that left the
    /// registry at `left_at`, if the time for flushing is not over at `now`:
    /// a connection that has lost its slot is closed within the write
    /// deadline, whatever still waits.
    pub fn drain_before_deadline(&mut self, left_at: u64, now: u64) -> (r: Option<Frame>)
        requires
            old(self).wf(),
        ensures
            final(self).wf(),
            if now - left_at < WRITE_TIMEOUT_MICROS {
                &&& final(self)@ == (SlotView {
                    mailbox: old(self)@.mailbox.take(),
                    ..old(self)@
                })
                &&& match r {
                    Some(f) => old(self)@.mailbox.queue.len() > 0 && f@ == old(
                        self,
                    )@.mailbox.queue[0],
                    None => old(self)@.mailbox.queue.len() == 0,
                }
            } else {
                r is None && final(self)@ == old(self)@
            },
    {
        if now >= left_at && now - left_at >= WRITE_TIMEOUT_MICROS {
            return None;
        }
        self.mailbox.recv()
    }

    /// Takes the oldest frame out of the mailbox of a slot that has left the
    /// registry, so that its write loop can flush what is left.
    pub fn drain_next(&mut self) -> (r: Option<Frame>)
        requires
            old(self).wf(),
        ensures
            final(self).wf(),
            final(self)@ == (SlotView { mailbox: old(self)@.mailbox.take(), ..old(self)@ }),
            match r {
                Some(f) => old(self)@.mailbox.queue.len() > 0 && f@ == old(self)@.mailbox.queue[0],
                None => old(self)@.mailbox.queue.len() == 0,
            },
    {
        self.mailbox.recv()
    }
}

/// What became of a packet.
#[derive(Clone, Copy, Debug, PartialEq, Eq, Structural)]
pub enum Delivery {
    /// It waits in the mailbox of its destination.
    Queued,
    /// The mailbox of its destination was full: the packet is lost, and counted.
    DroppedFull,
    /// No client with the destination key is connected: the packet is lost.
    NoSuchPeer,
    /// The packet is too large for a frame: it is lost.
    TooLarge,
}

/// A counter that stops at its largest value.
pub open spec fn counted(c: u64) -> u64 {
    if c < u64::MAX {
        (c + 1) as u64
    } else {
        c
    }
}

/// The mathematical content of a [`Dispatcher`].
pub struct DispatcherView {
    /// The slot of every connected client, by its key.
    pub slots: Map<Seq<u8>, SlotView>,
    /// The epoch that the next slot will get.
    pub next_epoch: u64,
    pub packets_forwarded: u64,
    pub packets_dropped_full_mailbox: u64,
}

impl DispatcherView {
    /// The registry of a hub that has just been started: no client, the
    /// first epoch still to give, and nothing counted.
    pub open spec fn initial() -> DispatcherView {
        DispatcherView {
            slots: Map::empty(),
            next_epoch: 1,
            packets_forwarded: 0,
            packets_dropped_full_mailbox: 0,
        }
    }

    pub open spec fn wf(self) -> bool {
        forall|k: Seq<u8>| #[trigger]
            self.slots.dom().contains(k) ==> {
                &&& self.slots[k].node_id == k
                &&& self.slots[k].wf()
                &&& !self.slots[k].cancelled
                &&& self.slots[k].epoch < self.next_epoch
            }
    }

    /// The frame that carries `payload` from `src` to its destination.
    pub open spec fn packet(src: Seq<u8>, payload: Seq<u8>) -> FrameView {
        FrameView::RecvPacket { src_key: src, content: payload }
    }

    /// The registry after a client with the key `key` was admitted: its slot
    /// is new, with the next epoch and an empty mailbox, and stands in the
    /// place of any slot that the key had.
    pub open spec fn create(
        self,
        key: Seq<u8>,
        capacity: nat,
        peer_gone_on_close: bool,
        now: u64,
    ) -> DispatcherView {
        DispatcherView {
            slots: self.slots.insert(
                key,
                SlotView::fresh(key, self.next_epoch, capacity, peer_gone_on_close, now),
            ),
            next_epoch: (self.next_epoch + 1) as u64,
            ..self
        }
    }

    /// The slot that an admission for `key` pushes out, as it leaves.
    pub open spec fn evicted(self, key: Seq<u8>) -> Option<SlotView> {
        if self.slots.dom().contains(key) {
            Some(self.slots[key].replaced())
        } else {
            None
        }
    }

    /// The epoch of the slot of every connected client, by its key: what a
    /// snapshot of the registry shows.
    pub open spec fn epochs(self) -> Map<Seq<u8>, u64> {
        Map::new(|k: Seq<u8>| self.slots.dom().contains(k), |k: Seq<u8>| self.slots[k].epoch)
    }

    /// Tells whether the connection `(key, epoch)` is the registered one.
    pub open spec fn is_current(self, key: Seq<u8>, epoch: u64) -> bool {
        self.slots.dom().contains(key) && self.slots[key].epoch == epoch
    }

    /// The registry after the connection `(key, epoch)` asked to be removed:
    /// the slot of `key` goes only if it is that connection's own.
    pub open spec fn remove(self, key: Seq<u8>, epoch: u64) -> DispatcherView {
        if self.is_current(key, epoch) {
            DispatcherView { slots: self.slots.remove(key), ..self }
        } else {
            self
        }
    }

    /// What becomes of a packet from `src` for `dst`.
    pub open spec fn delivery(self, src: Seq<u8>, dst: Seq<u8>, payload: Seq<u8>) -> Delivery {
        if !self.slots.dom().contains(dst) {
            Delivery::NoSuchPeer
        } else if !Self::packet(src, payload).wf() {
            Delivery::TooLarge
        } else if self.slots[dst].mailbox.is_full() {
            Delivery::DroppedFull
        } else {
            Delivery::Queued
        }
    }

    /// The registry after a packet from `src` for `dst` was routed.
    pub open spec fn send(self, src: Seq<u8>, dst: Seq<u8>, payload: Seq<u8>) -> DispatcherView {
        match self.delivery(src, dst, payload) {
            Delivery::Queued => DispatcherView {
                slots: self.slots.insert(
                    dst,
                    SlotView {
                        mailbox: self.slots[dst].mailbox.offer(Self::packet(src, payload)),
                        ..self.slots[dst]
                    },
                ),
                packets_forwarded: counted(self.packets_forwarded),
                ..self
            },
            Delivery::DroppedFull => DispatcherView {
                packets_dropped_full_mailbox: counted(self.packets_dropped_full_mailbox),
                ..self
            },
            _ => self,
        }
    }

    /// The registry after `frame` was offered to the mailbox of the
    /// connection `(key, epoch)`, which is the registered one.
    pub open spec fn offer(self, key: Seq<u8>, frame: FrameView) -> DispatcherView {
        DispatcherView {
            slots: self.slots.insert(
                key,
                SlotView { mailbox: self.slots[key].mailbox.offer(frame), ..self.slots[key] },
            ),
            ..self
        }
    }

    /// The registry after the write loop of the connection `(key, epoch)`,
    /// which is the registered one, took a frame.
    pub open spec fn take(self, key: Seq<u8>) -> DispatcherView {
        DispatcherView {
            slots: self.slots.insert(
                key,
                SlotView { mailbox: self.slots[key].mailbox.take(), ..self.slots[key] },
            ),
            ..self
        }
    }

    /// The registry after the connection `(key, epoch)`, which is the
    /// registered one, was heard from at `now`.
    pub open spec fn seen(self, key: Seq<u8>, now: u64) -> DispatcherView {
        DispatcherView {
            slots: self.slots.insert(key, SlotView { last_seen: now, ..self.slots[key] }),
            ..self
        }
    }
}

/// The slots of a list, by their keys. Where a key stands twice, one of its
/// slots is picked; the registry never lets that happen.
pub open spec fn map_of(v: Seq<SlotView>) -> Map<Seq<u8>, SlotView> {
    Map::new(
        |k: Seq<u8>| exists|i: int| 0 <= i < v.len() && (#[trigger] v[i]).node_id == k,
        |k: Seq<u8>| v[choose|i: int| 0 <= i < v.len() && (#[trigger] v[i]).node_id == k],
    )
}

/// No key stands twice in the list.
pub open spec fn unique_keys(v: Seq<SlotView>) -> bool {
    forall|i: int, j: int|
        0 <= i < v.len() && 0 <= j < v.len() && i != j ==> (#[trigger] v[i]).node_id != (
        #[trigger] v[j]).node_id
}

proof fn lemma_map_at(v: Seq<SlotView>, i: int)
    requires
        unique_keys(v),
        0 <= i < v.len(),
    ensures
        map_of(v).dom().contains(v[i].node_id),
        map_of(v)[v[i].node_id] == v[i],
{
    let k = v[i].node_id;
    let j = choose|j: int| 0 <= j < v.len() && (#[trigger] v[j]).node_id == k;
    assert(j == i);
}

proof fn lemma_map_absent(v: Seq<SlotView>, k: Seq<u8>)
    requires
        forall|i: int| 0 <= i < v.len() ==> (#[trigger] v[i]).node_id != k,
    ensures
        !map_of(v).dom().contains(k),
{
}

proof fn lemma_map_push(v: Seq<SlotView>, e: SlotView)
    requires
        unique_keys(v),
        !map_of(v).dom().contains(e.node_id),
    ensures
        unique_keys(v.push(e)),
        map_of(v.push(e)) == map_of(v).insert(e.node_id, e),
{
    let w = v.push(e);
    assert forall|i: int, j: int| 0 <= i < w.len() && 0 <= j < w.len() && i != j implies (
    #[trigger] w[i]).node_id != (#[trigger] w[j]).node_id by {
        if i < v.len() {
            assert(w[i] == v[i]);
        }
        if j < v.len() {
            assert(w[j] == v[j]);
        }
    }
    assert forall|k: Seq<u8>| map_of(w).dom().contains(k) <==> map_of(v).insert(
        e.node_id,
        e,
    ).dom().contains(k) by {
        if map_of(w).dom().contains(k) {
            let i = choose|i: int| 0 <= i < w.len() && (#[trigger] w[i]).node_id == k;
            if i < v.len() {
                assert(v[i].node_id == k);
            }
        }
        if map_of(v).dom().contains(k) {
            let i = choose|i: int| 0 <= i < v.len() && (#[trigger] v[i]).node_id == k;
            assert(w[i].node_id == k);
        }
        if k == e.node_id {
            assert(w[v.len() as int].node_id == k);
        }
    }
    assert forall|k: Seq<u8>| map_of(w).dom().contains(k) implies #[trigger] map_of(w)[k]
        == map_of(v).insert(e.node_id, e)[k] by {
        let i = choose|i: int| 0 <= i < w.len() && (#[trigger] w[i]).node_id == k;
        lemma_map_at(w, i);
        if i < v.len() {
            assert(w[i] == v[i]);
            lemma_map_at(v, i);
        }
    }
    assert(map_of(w) =~= map_of(v).insert(e.node_id, e));
}

proof fn lemma_map_update(v: Seq<SlotView>, i: int, e: SlotView)
    requires
        unique_keys(v),
        0 <= i < v.len(),
        e.node_id == v[i].node_id,
    ensures
        unique_keys(v.update(i, e)),
        map_of(v.update(i, e)) == map_of(v).insert(e.node_id, e),
{
    let w = v.update(i, e);
    assert forall|a: int, b: int| 0 <= a < w.len() && 0 <= b < w.len() && a != b implies (
    #[trigger] w[a]).node_id != (#[trigger] w[b]).node_id by {
        assert(w[a].node_id == v[a].node_id);
        assert(w[b].node_id == v[b].node_id);
    }
    assert forall|k: Seq<u8>| map_of(w).dom().contains(k) <==> map_of(v).insert(
        e.node_id,
        e,
    ).dom().contains(k) by {
        if map_of(w).dom().contains(k) {
            let a = choose|a: int| 0 <= a < w.len() && (#[trigger] w[a]).node_id == k;
            assert(v[a].node_id == k);
        }
        if map_of(v).dom().contains(k) {
            let a = choose|a: int| 0 <= a < v.len() && (#[trigger] v[a]).node_id == k;
            assert(w[a].node_id == k);
        }
        if k == e.node_id {
            assert(w[i].node_id == k);
        }
    }
    assert forall|k: Seq<u8>| map_of(w).dom().contains(k) implies #[trigger] map_of(w)[k]
        == map_of(v).insert(e.node_id, e)[k] by {
        let a = choose|a: int| 0 <= a < w.len() && (#[trigger] w[a]).node_id == k;
        lemma_map_at(w, a);
        if a != i {
            assert(w[a] == v[a]);
            lemma_map_at(v, a);
        }
    }
    assert(map_of(w) =~= map_of(v).insert(e.node_id, e));
}

proof fn lemma_map_remove(v: Seq<SlotView>, i: int)
    requires
        unique_keys(v),
        0 <= i < v.len(),
    ensures
        unique_keys(v.remove(i)),
        map_of(v.remove(i)) == map_of(v).remove(v[i].node_id),
{
    let w = v.remove(i);
    let gone = v[i].node_id;
    assert forall|a: int| 0 <= a < w.len() implies #[trigger] w[a] == v[if a < i {
        a
    } else {
        a + 1
    }] by {}
    assert forall|a: int, b: int| 0 <= a < w.len() && 0 <= b < w.len() && a != b implies (
    #[trigger] w[a]).node_id != (#[trigger] w[b]).node_id by {
        let a2 = if a < i { a } else { a + 1 };
        let b2 = if b < i { b } else { b + 1 };
        assert(w[a] == v[a2]);
        assert(w[b] == v[b2]);
    }
    assert forall|k: Seq<u8>| map_of(w).dom().contains(k) <==> map_of(v).remove(
        gone,
    ).dom().contains(k) by {
        if map_of(w).dom().contains(k) {
            let a = choose|a: int| 0 <= a < w.len() && (#[trigger] w[a]).node_id == k;
            let a2 = if a < i { a } else { a + 1 };
            assert(w[a] == v[a2]);
            assert(v[a2].node_id == k);
            assert(a2 != i);
        }
        if map_of(v).dom().contains(k) && k != gone {
            let a = choose|a: int| 0 <= a < v.len() && (#[trigger] v[a]).node_id == k;
            assert(a != i);
            let a2 = if a < i { a } else { a - 1 };
            assert(w[a2] == v[a]);
            assert(w[a2].node_id == k);
        }
    }
    assert forall|k: Seq<u8>| map_of(w).dom().contains(k) implies #[trigger] map_of(w)[k]
        == map_of(v).remove(gone)[k] by {
        let a = choose|a: int| 0 <= a < w.len() && (#[trigger] w[a]).node_id == k;
        lemma_map_at(w, a);
        let a2 = if a < i { a } else { a + 1 };
        assert(w[a] == v[a2]);
        lemma_map_at(v, a2);
    }
    assert(map_of(w) =~= map_of(v).remove(gone));
}

/// What an admission gave: the epoch of the new slot, and the slot that it
/// pushed out, if there was one.
#[derive(Debug)]
pub struct Created {
    pub epoch: u64,
    pub evicted: Option<ConnectionSlot>,
}

/// The registry of the connected clients. All changes to it go through the
/// one task that owns it.
#[derive(Debug)]
pub struct Dispatcher {
    slots: Vec<ConnectionSlot>,
    next_epoch: u64,
    packets_forwarded: u64,
    packets_dropped_full_mailbox: u64,
}

impl View for Dispatcher {
    type V = DispatcherView;

    closed spec fn view(&self) -> DispatcherView {
        DispatcherView {
            slots: map_of(self.slot_views()),
            next_epoch: self.next_epoch,
            packets_forwarded: self.packets_forwarded,
            packets_dropped_full_mailbox: self.packets_dropped_full_mailbox,
        }
    }
}

impl Dispatcher {
    closed spec fn slot_views(&self) -> Seq<SlotView> {
        self.slots@.map_values(|s: ConnectionSlot| s@)
    }

    /// No key has two slots.
    pub closed spec fn one_slot_per_key(&self) -> bool {
        unique_keys(self.slot_views())
    }

    /// The invariant of the registry: at most one slot for each key, every
    /// slot under its own key, live, with a sound mailbox and an epoch that
    /// was given out.
    pub open spec fn wf(&self) -> bool {
        self.one_slot_per_key() && self@.wf()
    }

    /// A registry without clients.
    pub fn new() -> (d: Dispatcher)
        ensures
            d.wf(),
            d@ == DispatcherView::initial(),
    {
        let d = Dispatcher {
            slots: Vec::new(),
            next_epoch: 1,
            packets_forwarded: 0,
            packets_dropped_full_mailbox: 0,
        };
        assert(d@.slots =~= Map::<Seq<u8>, SlotView>::empty());
        d
    }

    /// The number of connected clients.
    pub fn conns_active(&self) -> (n: usize)
        requires
            self.wf(),
        ensures
            n == self@.slots.dom().len(),
            self@.slots.dom().finite(),
    {
        proof {
            lemma_map_size(self.slot_views());
        }
        self.slots.len()
    }

    pub fn packets_forwarded(&self) -> (n: u64)
        ensures
            n == self@.packets_forwarded,
    {
        self.packets_forwarded
    }

    pub fn packets_dropped_full_mailbox(&self) -> (n: u64)
        ensures
            n == self@.packets_dropped_full_mailbox,
    {
        self.packets_dropped_full_mailbox
    }

    fn position(&self, key: &[u8; 32]) -> (r: Option<usize>)
        requires
            self.wf(),
        ensures
            match r {
                Some(i) => {
                    &&& i < self.slots@.len()
                    &&& self.slots@[i as int]@.node_id == key@
                    &&& self@.slots.dom().contains(key@)
                    &&& self@.slots[key@] == self.slots@[i as int]@
                },
                None => !self@.slots.dom().contains(key@),
            },
    {
        let mut i: usize = 0;
        while i < self.slots.len()
            invariant
                self.wf(),
                i <= self.slots.len(),
                forall|j: int| 0 <= j < i ==> (#[trigger] self.slot_views()[j]).node_id != key@,
            decreases self.slots.len() - i,
        {
            assert(self.slot_views()[i as int] == self.slots@[i as int]@);
            if self.slots[i].node_id.has_bytes(key) {
                proof {
                    lemma_map_at(self.slot_views(), i as int);
                }
                return Some(i);
            }
            i = i + 1;
        }
        proof {
            lemma_map_absent(self.slot_views(), key@);
        }
        None
    }

    /// Tells whether a client with this key is connected.
    pub fn contains(&self, key: &[u8; 32]) -> (r: bool)
        requires
            self.wf(),
        ensures
            r == self@.slots.dom().contains(key@),
    {
        self.position(key).is_some()
    }

    /// The epoch of the slot of this key, if a client with it is connected.
    pub fn epoch_of(&self, key: &[u8; 32]) -> (r: Option<u64>)
        requires
            self.wf(),
        ensures
            match r {
                Some(e) => self@.slots.dom().contains(key@) && self@.slots[key@].epoch == e,
                None => !self@.slots.dom().contains(key@),
            },
    {
        match self.position(key) {
            Some(i) => Some(self.slots[i].epoch),
            None => None,
        }
    }

    /// Admits a client whose handshake succeeded. If a client with the same
    /// key is connected, that one is pushed out: a `PeerGone` frame with the
    /// key goes into its mailbox if there is room, it is cancelled, and its
    /// slot comes back to the caller, who lets its write loop flush and
    /// close. The new slot gets the next epoch.
    ///
    /// `None` means that the epochs are used up; nothing has changed then.
    pub fn create_client(&mut self, config: ClientConnConfig, now: u64) -> (r: Option<Created>)
        requires
            old(self).wf(),
        ensures
            final(self).wf(),
            match r {
                Some(created) => {
                    &&& old(self)@.next_epoch < u64::MAX
                    &&& created.epoch == old(self)@.next_epoch
                    &&& final(self)@ == old(self)@.create(
                        config.node_id@,
                        config.channel_capacity as nat,
                        config.peer_gone_on_close,
                        now,
                    )
                    &&& match created.evicted {
                        Some(slot) => slot.wf() && old(self)@.evicted(config.node_id@) == Some(
                            slot@,
                        ),
                        None => old(self)@.evicted(config.node_id@) is None,
                    }
                },
                None => old(self)@.next_epoch == u64::MAX && final(self)@ == old(self)@,
            },
    {
        if self.next_epoch == u64::MAX {
            return None;
        }
        let key = config.node_id.as_bytes();
        proof {
            config.node_id.lemma_len();
        }
        let ghost before = self.slot_views();
        let ghost old_view = self@;
        let epoch = self.next_epoch;
        let evicted = match self.position(&key) {
            Some(i) => {
                let mut slot = self.slots.remove(i);
                assert(self.slot_views() =~= before.remove(i as int));
                assert(slot@ == before[i as int]);
                proof {
                    lemma_map_remove(before, i as int);
                }
                let _ = slot.mailbox.try_send(Frame::PeerGone { peer: key });
                slot.cancelled = true;
                assert(slot@ == old_view.slots[key@].replaced());
                Some(slot)
            },
            None => None,
        };
        let ghost mid = self.slot_views();
        assert(map_of(mid) =~= old_view.slots.remove(key@));
        let slot = ConnectionSlot {
            node_id: config.node_id,
            epoch,
            mailbox: Mailbox::new(config.channel_capacity),
            last_seen: now,
            created_at: now,
            peer_gone_on_close: config.peer_gone_on_close,
            cancelled: false,
        };
        let ghost sv = slot@;
        self.slots.push(slot);
        self.next_epoch = epoch + 1;
        assert(self.slot_views() =~= mid.push(sv));
        proof {
            lemma_map_push(mid, sv);
            assert(self@.slots =~= old_view.slots.insert(key@, sv));
        }
        Some(Created { epoch, evicted })
    }

    /// Removes the slot of the connection `(node_id, epoch)`, and hands it
    /// back cancelled. A slot with another epoch belongs to a newer
    /// connection and stays.
    pub fn remove_client(&mut self, node_id: &[u8; 32], epoch: u64) -> (r: Option<ConnectionSlot>)
        requires
            old(self).wf(),
        ensures
            final(self).wf(),
            final(self)@ == old(self)@.remove(node_id@, epoch),
            match r {
                Some(slot) => {
                    &&& slot.wf()
                    &&& old(self)@.is_current(node_id@, epoch)
                    &&& slot@ == old(self)@.slots[node_id@].closed()
                },
                None => !old(self)@.is_current(node_id@, epoch),
            },
    {
        let ghost before = self.slot_views();
        match self.position(node_id) {
            Some(i) => {
                if self.slots[i].epoch != epoch {
                    return None;
                }
                let mut slot = self.slots.remove(i);
                assert(self.slot_views() =~= before.remove(i as int));
                proof {
                    lemma_map_remove(before, i as int);
                }
                slot.cancelled = true;
                Some(slot)
            },
            None => None,
        }
    }

    /// Routes a packet from `src` to the client with the key `dst`: it joins
    /// the mailbox of that client as a `RecvPacket` frame. Nothing waits: if
    /// the mailbox is full the packet is dropped and counted, and if no such
    /// client is connected it is dropped in silence. No other slot changes.
    pub fn send_packet(&mut self, src: &PublicKey, dst: &[u8; 32], payload: Vec<u8>) -> (r:
        Delivery)
        requires
            old(self).wf(),
        ensures
            final(self).wf(),
            r == old(self)@.delivery(src@, dst@, payload@),
            final(self)@ == old(self)@.send(src@, dst@, payload@),
    {
        let ghost before = self.slot_views();
        let i = match self.position(dst) {
            Some(i) => i,
            None => {
                return Delivery::NoSuchPeer;
            },
        };
        let frame = Frame::RecvPacket { src_key: src.as_bytes(), content: payload };
        assert(frame@ == DispatcherView::packet(src@, payload@));
        let slot = &mut self.slots[i];
        let sent = slot.mailbox.try_send(frame);
        let ghost after = self.slots@[i as int]@;
        assert(self.slot_views() =~= before.update(i as int, after));
        proof {
            lemma_map_update(before, i as int, after);
        }
        match sent {
            Ok(()) => {
                if self.packets_forwarded < u64::MAX {
                    self.packets_forwarded = self.packets_forwarded + 1;
                }
                assert(self@.slots =~= old(self)@.send(src@, dst@, payload@).slots);
                Delivery::Queued
            },
            Err(SendError::Full) => {
                if self.packets_dropped_full_mailbox < u64::MAX {
                    self.packets_dropped_full_mailbox = self.packets_dropped_full_mailbox + 1;
                }
                assert(self@.slots =~= old(self)@.slots);
                Delivery::DroppedFull
            },
            Err(SendError::TooLarge) => {
                assert(self@.slots =~= old(self)@.slots);
                Delivery::TooLarge
            },
        }
    }

    /// Offers a frame to the mailbox of the connection `(node_id, epoch)`
    /// itself, as for the `Pong` that answers its `Ping`. `None` means that
    /// this connection is not the registered one; nothing has changed then.
    pub fn send_to(&mut self, node_id: &[u8; 32], epoch: u64, frame: Frame) -> (r: Option<
        Result<(), SendError>,
    >)
        requires
            old(self).wf(),
        ensures
            final(self).wf(),
            match r {
                Some(sent) => {
                    &&& old(self)@.is_current(node_id@, epoch)
                    &&& final(self)@ == old(self)@.offer(node_id@, frame@)
                    &&& match sent {
                        Ok(()) => frame@.wf() && !old(self)@.slots[node_id@].mailbox.is_full(),
                        Err(SendError::TooLarge) => !frame@.wf(),
                        Err(SendError::Full) => frame@.wf() && old(
                            self,
                        )@.slots[node_id@].mailbox.is_full(),
                    }
                },
                None => !old(self)@.is_current(node_id@, epoch) && final(self)@ == old(self)@,
            },
    {
        let ghost before = self.slot_views();
        let i = match self.position(node_id) {
            Some(i) => i,
            None => {
                return None;
            },
        };
        if self.slots[i].epoch != epoch {
            return None;
        }
        let slot = &mut self.slots[i];
        let sent = slot.mailbox.try_send(frame);
        let ghost after = self.slots@[i as int]@;
        assert(self.slot_views() =~= before.update(i as int, after));
        proof {
            lemma_map_update(before, i as int, after);
        }
        Some(sent)
    }

    /// Takes the oldest frame out of the mailbox of the connection
    /// `(node_id, epoch)`, for its write loop. `None` means that nothing
    /// waits, or that this connection is not the registered one.
    pub fn next_outbound(&mut self, node_id: &[u8; 32], epoch: u64) -> (r: Option<Frame>)
        requires
            old(self).wf(),
        ensures
            final(self).wf(),
            final(self)@ == if old(self)@.is_current(node_id@, epoch) {
                old(self)@.take(node_id@)
            } else {
                old(self)@
            },
            match r {
                Some(f) => {
                    &&& old(self)@.is_current(node_id@, epoch)
                    &&& old(self)@.slots[node_id@].mailbox.queue.len() > 0
                    &&& f@ == old(self)@.slots[node_id@].mailbox.queue[0]
                },
                None => !old(self)@.is_current(node_id@, epoch) || old(
                    self,
                )@.slots[node_id@].mailbox.queue.len() == 0,
            },
    {
        let ghost before = self.slot_views();
        let i = match self.position(node_id) {
            Some(i) => i,
            None => {
                return None;
            },
        };
        if self.slots[i].epoch != epoch {
            return None;
        }
        let slot = &mut self.slots[i];
        let r = slot.mailbox.recv();
        let ghost after = self.slots@[i as int]@;
        assert(self.slot_views() =~= before.update(i as int, after));
        proof {
            lemma_map_update(before, i as int, after);
        }
        r
    }

    /// Notes that the connection `(node_id, epoch)` was heard from at `now`.
    /// Returns whether this connection is the registered one; if it is not,
    /// nothing has changed.
    pub fn touch(&mut self, node_id: &[u8; 32], epoch: u64, now: u64) -> (r: bool)
        requires
            old(self).wf(),
        ensures
            final(self).wf(),
            r == old(self)@.is_current(node_id@, epoch),
            final(self)@ == if r {
                old(self)@.seen(node_id@, now)
            } else {
                old(self)@
            },
    {
        let ghost before = self.slot_views();
        let i = match self.position(node_id) {
            Some(i) => i,
            None => {
                return false;
            },
        };
        if self.slots[i].epoch != epoch {
            return false;
        }
        self.slots[i].last_seen = now;
        let ghost after = self.slots@[i as int]@;
        assert(self.slot_views() =~= before.update(i as int, after));
        proof {
            lemma_map_update(before, i as int, after);
        }
        true
    }

    /// Shuts the registry down: every slot is cancelled and handed back, so
    /// that its write loop can flush and close, and no client is left.
    pub fn close(&mut self) -> (r: Vec<ConnectionSlot>)
        requires
            old(self).wf(),
        ensures
            final(self).wf(),
            final(self)@ == (DispatcherView { slots: Map::empty(), ..old(self)@ }),
            r@.len() == old(self)@.slots.dom().len(),
            forall|i: int|
                0 <= i < r@.len() ==> {
                    &&& (#[trigger] r@[i]).wf()
                    &&& old(self)@.slots.dom().contains(r@[i]@.node_id)
                    &&& r@[i]@ == old(self)@.slots[r@[i]@.node_id].closed()
                },
            forall|i: int, j: int|
                0 <= i < r@.len() && 0 <= j < r@.len() && i != j ==> (#[trigger] r@[i])@.node_id
                    != (#[trigger] r@[j])@.node_id,
    {
        let ghost before = self.slot_views();
        proof {
            lemma_map_size(before);
        }
        let mut out: Vec<ConnectionSlot> = Vec::new();
        while self.slots.len() > 0
            invariant
                self.next_epoch == old(self).next_epoch,
                self.packets_forwarded == old(self).packets_forwarded,
                self.packets_dropped_full_mailbox == old(self).packets_dropped_full_mailbox,
                before == old(self).slot_views(),
                unique_keys(before),
                old(self)@.slots == map_of(before),
                old(self)@.wf(),
                out@.len() + self.slots@.len() == before.len(),
                forall|j: int|
                    0 <= j < self.slots@.len() ==> (#[trigger] self.slots@[j])@ == before[j],
                forall|j: int|
                    0 <= j < out@.len() ==> (#[trigger] out@[j])@ == before[before.len() - 1
                        - j].closed(),
            decreases self.slots.len(),
        {
            let ghost n = self.slots@.len() as int;
            let mut slot = self.slots.pop().unwrap();
            assert(slot@ == before[n - 1]);
            slot.cancelled = true;
            out.push(slot);
        }
        assert(self.slot_views() =~= Seq::<SlotView>::empty());
        assert(self@.slots =~= Map::<Seq<u8>, SlotView>::empty());
        assert forall|i: int| 0 <= i < out@.len() implies {
            &&& (#[trigger] out@[i]).wf()
            &&& old(self)@.slots.dom().contains(out@[i]@.node_id)
            &&& out@[i]@ == old(self)@.slots[out@[i]@.node_id].closed()
        } by {
            let j = before.len() - 1 - i;
            lemma_map_at(before, j);
            assert(out@[i]@ == before[j].closed());
        }
        assert forall|i: int, j: int|
            0 <= i < out@.len() && 0 <= j < out@.len() && i != j implies (#[trigger] out@[i])@.node_id
            != (#[trigger] out@[j])@.node_id by {
            let i2 = before.len() - 1 - i;
            let j2 = before.len() - 1 - j;
            assert(out@[i]@ == before[i2].closed());
            assert(out@[j]@ == before[j2].closed());
            assert(before[i2].node_id != before[j2].node_id);
        }
        out
    }
}

/// The key of an entry of a snapshot.
pub open spec fn entry_key(entries: Seq<([u8; 32], u64)>, i: int) -> Seq<u8> {
    entries[i].0@
}

/// A read-only picture of the registry at one moment: which keys are
/// connected, each with the epoch of its slot. Read loops look here first,
/// so that a packet for a key that is not connected costs the dispatcher
/// nothing. A snapshot grows old; what it says is a hint, and the
/// dispatcher decides.
#[derive(Clone, Debug)]
pub struct Snapshot {
    entries: Vec<([u8; 32], u64)>,
}

impl View for Snapshot {
    type V = Map<Seq<u8>, u64>;

    closed spec fn view(&self) -> Map<Seq<u8>, u64> {
        Map::new(
            |k: Seq<u8>|
                exists|i: int|
                    0 <= i < self.entries@.len() && #[trigger] entry_key(self.entries@, i) == k,
            |k: Seq<u8>|
                self.entries@[choose|i: int|
                    0 <= i < self.entries@.len() && #[trigger] entry_key(self.entries@, i) == k].1,
        )
    }
}

impl Snapshot {
    /// No key stands twice in the snapshot.
    pub closed spec fn wf(&self) -> bool {
        forall|i: int, j: int|
            0 <= i < self.entries@.len() && 0 <= j < self.entries@.len() && i != j ==> (
            #[trigger] entry_key(self.entries@, i)) != (#[trigger] entry_key(self.entries@, j))
    }

    /// The snapshot of a registry without clients.
    pub fn empty() -> (s: Snapshot)
        ensures
            s.wf(),
            s@ == Map::<Seq<u8>, u64>::empty(),
    {
        let s = Snapshot { entries: Vec::new() };
        assert(s@ =~= Map::<Seq<u8>, u64>::empty());
        s
    }

    /// The epoch of the slot that the key had when the snapshot was taken,
    /// if it had one.
    pub fn lookup(&self, key: &[u8; 32]) -> (r: Option<u64>)
        requires
            self.wf(),
        ensures
            r == if self@.dom().contains(key@) {
                Some(self@[key@])
            } else {
                None
            },
    {
        let mut i: usize = 0;
        while i < self.entries.len()
            invariant
                self.wf(),
                i <= self.entries.len(),
                forall|j: int| 0 <= j < i ==> entry_key(self.entries@, j) != key@,
            decreases self.entries.len() - i,
        {
            assert(entry_key(self.entries@, i as int) == self.entries@[i as int].0@);
            if bytes_eq(self.entries[i].0.as_slice(), key.as_slice()) {
                proof {
                    let j = choose|j: int|
                        0 <= j < self.entries@.len() && #[trigger] entry_key(self.entries@, j)
                            == key@;
                    assert(j == i);
                }
                return Some(self.entries[i].1);
            }
            i = i + 1;
        }
        None
    }

    /// Tells whether the connection `(key, epoch)` was the registered one
    /// when the snapshot was taken.
    pub fn shows(&self, key: &[u8; 32], epoch: u64) -> (r: bool)
        requires
            self.wf(),
        ensures
            r == (self@.dom().contains(key@) && self@[key@] == epoch),
    {
        match self.lookup(key) {
            Some(e) => e == epoch,
            None => false,
        }
    }
}

impl Dispatcher {
    /// Takes a snapshot of the registry as it is now.
    pub fn snapshot(&self) -> (s: Snapshot)
        requires
            self.wf(),
        ensures
            s.wf(),
            s@ == self@.epochs(),
    {
        let mut entries: Vec<([u8; 32], u64)> = Vec::new();
        let mut i: usize = 0;
        while i < self.slots.len()
            invariant
                i <= self.slots.len(),
                entries@.len() == i,
                forall|j: int|
                    0 <= j < i ==> entry_key(entries@, j) == (#[trigger] self.slot_views()[j]).node_id
                        && entries@[j].1 == self.slot_views()[j].epoch,
            decreases self.slots.len() - i,
        {
            assert(self.slot_views()[i as int] == self.slots@[i as int]@);
            entries.push((self.slots[i].node_id.as_bytes(), self.slots[i].epoch));
            i = i + 1;
        }
        let s = Snapshot { entries };
        proof {
            let views = self.slot_views();
            let model = self@.epochs();
            assert forall|a: int, b: int|
                0 <= a < s.entries@.len() && 0 <= b < s.entries@.len() && a != b implies (
            #[trigger] entry_key(s.entries@, a)) != (#[trigger] entry_key(s.entries@, b)) by {
                assert(entry_key(s.entries@, a) == views[a].node_id);
                assert(entry_key(s.entries@, b) == views[b].node_id);
            }
            assert forall|k: Seq<u8>| s@.dom().contains(k) <==> model.dom().contains(k) by {
                if s@.dom().contains(k) {
                    let j = choose|j: int|
                        0 <= j < s.entries@.len() && #[trigger] entry_key(s.entries@, j) == k;
                    assert(views[j].node_id == k);
                }
                if model.dom().contains(k) {
                    let j = choose|j: int|
                        0 <= j < views.len() && (#[trigger] views[j]).node_id == k;
                    assert(entry_key(s.entries@, j) == k);
                }
            }
            assert forall|k: Seq<u8>| s@.dom().contains(k) implies #[trigger] s@[k] == model[k] by {
                let j = choose|j: int|
                    0 <= j < s.entries@.len() && #[trigger] entry_key(s.entries@, j) == k;
                assert(views[j].node_id == k);
                lemma_map_at(views, j);
            }
            assert(s@ =~= model);
        }
        s
    }
}

/// A message to the dispatcher. Every change of the registry is one of these.
#[derive(Debug)]
pub enum Message {
    /// A client's handshake succeeded.
    CreateClient(ClientConnConfig),
    /// The connection `(node_id, epoch)` has ended.
    RemoveClient { node_id: [u8; 32], epoch: u64 },
    /// A packet is to be routed.
    SendPacket { src: PublicKey, dst: [u8; 32], payload: Vec<u8> },
    /// A frame is to be offered to the mailbox of the connection
    /// `(node_id, epoch)` itself.
    Offer { node_id: [u8; 32], epoch: u64, frame: Frame },
    /// The connection `(node_id, epoch)` was heard from.
    Seen { node_id: [u8; 32], epoch: u64 },
}

/// The mathematical content of a [`Message`].
pub enum MessageView {
    CreateClient(ClientConnConfig),
    RemoveClient { node_id: Seq<u8>, epoch: u64 },
    SendPacket { src: Seq<u8>, dst: Seq<u8>, payload: Seq<u8> },
    Offer { node_id: Seq<u8>, epoch: u64, frame: FrameView },
    Seen { node_id: Seq<u8>, epoch: u64 },
}

impl View for Message {
    type V = MessageView;

    open spec fn view(&self) -> MessageView {
        match *self {
            Message::CreateClient(config) => MessageView::CreateClient(config),
            Message::RemoveClient { node_id, epoch } => MessageView::RemoveClient {
                node_id: node_id@,
                epoch,
            },
            Message::SendPacket { src, dst, payload } => MessageView::SendPacket {
                src: src@,
                dst: dst@,
                payload: payload@,
            },
            Message::Offer { node_id, epoch, frame } => MessageView::Offer {
                node_id: node_id@,
                epoch,
                frame: frame@,
            },
            Message::Seen { node_id, epoch } => MessageView::Seen { node_id: node_id@, epoch },
        }
    }
}

impl DispatcherView {
    /// The registry after a message was handled at `now`. An admission
    /// changes nothing if the epochs are used up; a message that names a
    /// connection changes nothing unless that connection is the registered
    /// one.
    pub open spec fn apply(self, message: MessageView, now: u64) -> DispatcherView {
        match message {
            MessageView::CreateClient(config) => if self.next_epoch < u64::MAX {
                self.create(
                    config.node_id@,
                    config.channel_capacity as nat,
                    config.peer_gone_on_close,
                    now,
                )
            } else {
                self
            },
            MessageView::RemoveClient { node_id, epoch } => self.remove(node_id, epoch),
            MessageView::SendPacket { src, dst, payload } => self.send(src, dst, payload),
            MessageView::Offer { node_id, epoch, frame } => if self.is_current(node_id, epoch) {
                self.offer(node_id, frame)
            } else {
                self
            },
            MessageView::Seen { node_id, epoch } => if self.is_current(node_id, epoch) {
                self.seen(node_id, now)
            } else {
                self
            },
        }
    }
}

/// What a message did.
#[derive(Debug)]
pub enum Outcome {
    /// The answer to `CreateClient`; `None` if the epochs are used up.
    Created(Option<Created>),
    /// The answer to `RemoveClient`: the slot that went, if one did.
    Removed(Option<ConnectionSlot>),
    /// The answer to `SendPacket`.
    Sent(Delivery),
    /// The answer to `Offer`: `None` if the connection is not the
    /// registered one, else whether the frame entered the mailbox.
    Offered(Option<Result<(), SendError>>),
    /// The answer to `Seen`: whether the connection is the registered one.
    Noted(bool),
}

impl Dispatcher {
    /// Handles one message: the only way in which the task that owns the
    /// registry changes it.
    pub fn handle_message(&mut self, message: Message, now: u64) -> (r: Outcome)
        requires
            old(self).wf(),
        ensures
            final(self).wf(),
            final(self)@ == old(self)@.apply(message@, now),
            match message {
                Message::CreateClient(config) => {
                    &&& r matches Outcome::Created(created)
                    &&& created is Some <==> old(self)@.next_epoch < u64::MAX
                    &&& created matches Some(c) ==> {
                        &&& c.epoch == old(self)@.next_epoch
                        &&& match c.evicted {
                            Some(slot) => slot.wf() && old(self)@.evicted(config.node_id@) == Some(
                                slot@,
                            ),
                            None => old(self)@.evicted(config.node_id@) is None,
                        }
                    }
                },
                Message::RemoveClient { node_id, epoch } => {
                    &&& r matches Outcome::Removed(removed)
                    &&& removed is Some <==> old(self)@.is_current(node_id@, epoch)
                    &&& removed matches Some(slot) ==> slot.wf() && slot@ == old(
                        self,
                    )@.slots[node_id@].closed()
                },
                Message::SendPacket { src, dst, payload } => r == Outcome::Sent(
                    old(self)@.delivery(src@, dst@, payload@),
                ),
                Message::Offer { node_id, epoch, frame } => {
                    &&& r matches Outcome::Offered(sent)
                    &&& sent is Some <==> old(self)@.is_current(node_id@, epoch)
                    &&& sent matches Some(inner) ==> (inner is Ok <==> frame@.wf() && !old(
                        self,
                    )@.slots[node_id@].mailbox.is_full())
                },
                Message::Seen { node_id, epoch } => r == Outcome::Noted(
                    old(self)@.is_current(node_id@, epoch),
                ),
            },
    {
        match message {
            Message::CreateClient(config) => Outcome::Created(self.create_client(config, now)),
            Message::RemoveClient { node_id, epoch } => Outcome::Removed(
                self.remove_client(&node_id, epoch),
            ),
            Message::SendPacket { src, dst, payload } => Outcome::Sent(
                self.send_packet(&src, &dst, payload),
            ),
            Message::Offer { node_id, epoch, frame } => Outcome::Offered(
                self.send_to(&node_id, epoch, frame),
            ),
            Message::Seen { node_id, epoch } => Outcome::Noted(self.touch(&node_id, epoch, now)),
        }
    }
}

/// The invariant of the registry holds in every state that messages can
/// lead to: a registry that is sound stays sound whatever message it
/// handles, and when it handles it.
pub proof fn lemma_apply_keeps_invariant(d: DispatcherView, message: MessageView, now: u64)
    requires
        d.wf(),
    ensures
        d.apply(message, now).wf(),
{
    if let MessageView::CreateClient(config) = message {
        config.node_id.lemma_len();
    }
}

/// A packet reaches nobody but its destination: routing a packet for `dst`
/// leaves the slot of every other key as it was, and neither adds nor
/// removes a key.
pub proof fn lemma_no_cross_delivery(
    d: DispatcherView,
    src: Seq<u8>,
    dst: Seq<u8>,
    payload: Seq<u8>,
    other: Seq<u8>,
)
    requires
        other != dst,
    ensures
        d.send(src, dst, payload).slots.dom().contains(other) == d.slots.dom().contains(other),
        d.send(src, dst, payload).slots[other] == d.slots[other],
        d.send(src, dst, payload).slots.dom().contains(dst) == d.slots.dom().contains(dst),
{
}

/// What routing does to the destination: its mailbox gets the packet at its
/// end, once, or stays as it was, and nothing else of the slot changes.
pub proof fn lemma_delivery_to_destination(
    d: DispatcherView,
    src: Seq<u8>,
    dst: Seq<u8>,
    payload: Seq<u8>,
)
    requires
        d.slots.dom().contains(dst),
    ensures
        ({
            let before = d.slots[dst];
            let after = d.send(src, dst, payload).slots[dst];
            &&& after == (SlotView { mailbox: after.mailbox, ..before })
            &&& after.mailbox.capacity == before.mailbox.capacity
            &&& after.mailbox.queue == if d.delivery(src, dst, payload) == Delivery::Queued {
                before.mailbox.queue.push(DispatcherView::packet(src, payload))
            } else {
                before.mailbox.queue
            }
        }),
{
}

/// One connection for each key, and the newest wins: after two admissions
/// for the same key, a packet for that key waits in the mailbox of the
/// second connection, once, and the first connection has left the registry,
/// cancelled, without the packet.
pub proof fn lemma_key_uniqueness(
    d: DispatcherView,
    key: Seq<u8>,
    first_capacity: nat,
    second_capacity: nat,
    t1: u64,
    t2: u64,
    src: Seq<u8>,
    payload: Seq<u8>,
)
    requires
        d.wf(),
        d.next_epoch < u64::MAX - 1,
        second_capacity > 0,
        DispatcherView::packet(src, payload).wf(),
    ensures
        ({
            let d1 = d.create(key, first_capacity, false, t1);
            let d2 = d1.create(key, second_capacity, false, t2);
            let d3 = d2.send(src, key, payload);
            let older = d1.evicted(key);
            &&& d2.delivery(src, key, payload) == Delivery::Queued
            &&& d3.slots.dom().contains(key)
            &&& d3.slots[key].epoch == d1.next_epoch
            &&& d3.slots[key].epoch > d1.slots[key].epoch
            &&& d3.slots[key].mailbox.queue == seq![DispatcherView::packet(src, payload)]
            &&& older is Some
            &&& older->0.epoch == d.next_epoch
            &&& older->0.cancelled
            &&& !older->0.mailbox.queue.contains(DispatcherView::packet(src, payload))
        }),
{
    let d1 = d.create(key, first_capacity, false, t1);
    let d2 = d1.create(key, second_capacity, false, t2);
    let d3 = d2.send(src, key, payload);
    let p = DispatcherView::packet(src, payload);
    assert(d3.slots[key].mailbox.queue =~= seq![p]);
    let older = d1.evicted(key)->0;
    let gone = FrameView::PeerGone { peer: key };
    assert(older.mailbox.queue =~= Seq::<FrameView>::empty() || older.mailbox.queue =~= seq![gone]);
    assert(p != gone);
    if older.mailbox.queue.contains(p) {
        let i = choose|i: int| 0 <= i < older.mailbox.queue.len() && older.mailbox.queue[i] == p;
        assert(older.mailbox.queue[i] == gone);
    }
}

/// A connection that is replaced is told so: the slot that an admission
/// pushes out is cancelled, and the `PeerGone` frame with its key stands at
/// the end of its mailbox, unless the mailbox was full; then the frame is
/// lost and the mailbox is as it was.
pub proof fn lemma_replacement_notifies(d: DispatcherView, key: Seq<u8>)
    requires
        d.wf(),
        d.slots.dom().contains(key),
    ensures
        ({
            let before = d.slots[key];
            let gone = d.evicted(key);
            &&& gone is Some
            &&& gone->0.cancelled
            &&& gone->0.epoch == before.epoch
            &&& gone->0.node_id == key
            &&& gone->0.mailbox.queue == if before.mailbox.is_full() {
                before.mailbox.queue
            } else {
                before.mailbox.queue.push(FrameView::PeerGone { peer: key })
            }
        }),
{
    assert(d.slots[key].node_id == key);
    assert(d.slots[key].wf());
    assert((FrameView::PeerGone { peer: key }).wf());
}

/// Removal is by epoch: a connection that was replaced cannot remove the
/// slot of the connection that replaced it.
pub proof fn lemma_stale_removal_keeps_newer(d: DispatcherView, key: Seq<u8>, now: u64)
    requires
        d.wf(),
        d.slots.dom().contains(key),
        d.next_epoch < u64::MAX,
    ensures
        ({
            let stale = d.slots[key].epoch;
            let d1 = d.create(key, d.slots[key].mailbox.capacity, false, now);
            d1.remove(key, stale) == d1
        }),
{
}

/// A list without a key twice has as many slots as its map has keys.
proof fn lemma_map_size(v: Seq<SlotView>)
    requires
        unique_keys(v),
    ensures
        map_of(v).dom().finite(),
        map_of(v).dom().len() == v.len(),
    decreases v.len(),
{
    if v.len() == 0 {
        assert(map_of(v).dom() =~= Set::<Seq<u8>>::empty());
    } else {
        let i = v.len() - 1;
        let rest = v.remove(i);
        lemma_map_remove(v, i);
        lemma_map_size(rest);
        lemma_map_at(v, i);
        assert(map_of(v).dom() =~= map_of(rest).dom().insert(v[i].node_id));
    }
}

} // verus!
