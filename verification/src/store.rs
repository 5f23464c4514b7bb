//! The store of signed packets: for every public key the most recent packet
//! that was published under it.

use vstd::prelude::*;

verus! {

/// How long a packet stays in a store that forgets, in seconds.
pub const PACKET_TTL_SECS: u64 = 300;

/// A signed packet: the key it was published under, its signature, its
/// timestamp, and its encoded form. The store looks at the key, the
/// timestamp and the encoded form, and carries the signature along.
#[derive(Clone, Debug, PartialEq, Eq)]
pub struct SignedPacket {
    pub public_key: [u8; 32],
    pub signature: Vec<u8>,
    pub timestamp: u64,
    pub encoded_packet: Vec<u8>,
}

/// The mathematical content of a [`SignedPacket`].
pub struct SignedPacketView {
    pub public_key: Seq<u8>,
    pub signature: Seq<u8>,
    pub timestamp: u64,
    pub encoded_packet: Seq<u8>,
}

impl View for SignedPacket {
    type V = SignedPacketView;

    open spec fn view(&self) -> SignedPacketView {
        SignedPacketView {
            public_key: self.public_key@,
            signature: self.signature@,
            timestamp: self.timestamp,
            encoded_packet: self.encoded_packet@,
        }
    }
}

/// The order of byte strings in which the first byte that differs decides,
/// and a string comes before every string that it begins.
pub open spec fn bytes_greater(a: Seq<u8>, b: Seq<u8>) -> bool
    decreases a.len(),
{
    if a.len() == 0 {
        false
    } else if b.len() == 0 {
        true
    } else if a[0] != b[0] {
        a[0] > b[0]
    } else {
        bytes_greater(a.drop_first(), b.drop_first())
    }
}

/// A packet is more recent than another if its timestamp is later, or, with
/// the same timestamp, if its encoded form is the greater one.
pub open spec fn spec_more_recent_than(
    timestamp: u64,
    encoded: Seq<u8>,
    other_timestamp: u64,
    other_encoded: Seq<u8>,
) -> bool {
    if timestamp == other_timestamp {
        bytes_greater(encoded, other_encoded)
    } else {
        timestamp > other_timestamp
    }
}

fn is_greater(a: &[u8], b: &[u8]) -> (r: bool)
    ensures
        r == bytes_greater(a@, b@),
{
    let mut i: usize = 0;
    assert(a@.skip(0) =~= a@ && b@.skip(0) =~= b@);
    while i < a.len() && i < b.len()
        invariant
            i <= a.len(),
            i <= b.len(),
            bytes_greater(a@, b@) == bytes_greater(a@.skip(i as int), b@.skip(i as int)),
        decreases a.len() - i,
    {
        let ghost ra = a@.skip(i as int);
        let ghost rb = b@.skip(i as int);
        assert(ra[0] == a@[i as int] && rb[0] == b@[i as int]);
        assert(ra.drop_first() =~= a@.skip(i + 1) && rb.drop_first() =~= b@.skip(i + 1));
        if a[i] != b[i] {
            return a[i] > b[i];
        }
        i = i + 1;
    }
    assert(a@.skip(i as int).len() == a@.len() - i);
    assert(b@.skip(i as int).len() == b@.len() - i);
    i < a.len()
}

impl SignedPacket {
    /// Tells whether this packet is more recent than `other`.
    pub fn more_recent_than(&self, other: &SignedPacket) -> (r: bool)
        ensures
            r == spec_more_recent_than(
                self@.timestamp,
                self@.encoded_packet,
                other@.timestamp,
                other@.encoded_packet,
            ),
    {
        if self.timestamp == other.timestamp {
            is_greater(self.encoded_packet.as_slice(), other.encoded_packet.as_slice())
        } else {
            self.timestamp > other.timestamp
        }
    }
}

/// What an upsert did.
#[derive(Clone, Copy, Debug, PartialEq, Eq, Structural)]
pub enum Upsert {
    /// The key had no packet: the packet is stored.
    Inserted,
    /// The packet took the place of the packet that the key had.
    Updated,
    /// The key has a more recent packet: nothing is stored.
    Stale,
}

impl Upsert {
    /// Tells whether the packet is stored now.
    pub fn stored(&self) -> (r: bool)
        ensures
            r == (*self != Upsert::Stale),
    {
        match self {
            Upsert::Stale => false,
            _ => true,
        }
    }
}

/// What an upsert of a packet does, given the packet that its key has in the
/// store, as timestamp and encoded form.
pub open spec fn spec_decide_upsert(
    existing: Option<(u64, Seq<u8>)>,
    timestamp: u64,
    encoded: Seq<u8>,
) -> Upsert {
    match existing {
        None => Upsert::Inserted,
        Some((t, e)) => if spec_more_recent_than(t, e, timestamp, encoded) {
            Upsert::Stale
        } else {
            Upsert::Updated
        },
    }
}

/// Decides what an upsert of `incoming` does, given the packet that its key
/// has in the store.
pub fn decide_upsert(existing: Option<&SignedPacket>, incoming: &SignedPacket) -> (r: Upsert)
    ensures
        r == spec_decide_upsert(
            match existing {
                Some(p) => Some((p@.timestamp, p@.encoded_packet)),
                None => None,
            },
            incoming@.timestamp,
            incoming@.encoded_packet,
        ),
{
    match existing {
        None => Upsert::Inserted,
        Some(p) => if p.more_recent_than(incoming) {
            Upsert::Stale
        } else {
            Upsert::Updated
        },
    }
}

#[verifier::external_type_specification]
#[verifier::external_body]
#[verifier::reject_recursive_types(K)]
#[verifier::reject_recursive_types(V)]
#[verifier::reject_recursive_types(S)]
pub struct ExDashMap<K, V, S>(dashmap::DashMap<K, V, S>);

/// The concurrent map that the store keeps its packets in: from the key to
/// the timestamp, the encoded form and the signature of its packet.
pub type PacketMap = dashmap::DashMap<[u8; 32], (u64, Vec<u8>, Vec<u8>)>;

/// What a concurrent map holds: for every key in it, by the bytes of the
/// key, the timestamp, the encoded form and the signature of its packet.
pub uninterp spec fn map_contents(m: PacketMap) -> Map<Seq<u8>, (u64, Seq<u8>, Seq<u8>)>;

/// The content of a store without packets.
pub open spec fn no_packets() -> Map<Seq<u8>, (u64, Seq<u8>, Seq<u8>)> {
    Map::empty()
}

/// Calls `dashmap::DashMap::new`: the new map holds nothing.
#[verifier::external_body]
fn map_new() -> (m: PacketMap)
    ensures
        map_contents(m) == no_packets(),
{
    dashmap::DashMap::new()
}

/// Calls `dashmap::DashMap::get` and copies the value out: `Some` with the
/// value of the key if the map holds the key, `None` if it does not.
#[verifier::external_body]
fn map_get(m: &PacketMap, key: &[u8; 32]) -> (r: Option<
    (u64, Vec<u8>, Vec<u8>),
>)
    ensures
        match r {
            Some(v) => map_contents(*m).dom().contains(key@) && map_contents(*m)[key@] == (
                v.0,
                v.1@,
                v.2@,
            ),
            None => !map_contents(*m).dom().contains(key@),
        },
{
    m.get(key).map(|entry| entry.value().clone())
}

/// Calls `dashmap::DashMap::insert`: afterwards the key has this value,
/// whether it had one before or not, and every other key is as it was.
#[verifier::external_body]
fn map_insert(m: &mut PacketMap, key: [u8; 32], value: (u64, Vec<u8>, Vec<u8>))
    ensures
        map_contents(*final(m)) == map_contents(*old(m)).insert(
            key@,
            (value.0, value.1@, value.2@),
        ),
{
    m.insert(key, value);
}

/// Calls `dashmap::DashMap::remove`: afterwards the map does not hold the
/// key, and every other key is as it was; the result tells whether the map
/// held the key.
#[verifier::external_body]
fn map_remove(m: &mut PacketMap, key: &[u8; 32]) -> (r: bool)
    ensures
        map_contents(*final(m)) == map_contents(*old(m)).remove(key@),
        r == map_contents(*old(m)).dom().contains(key@),
{
    m.remove(key).is_some()
}

/// A store of signed packets in memory.
pub struct SignedPacketStore {
    store: PacketMap,
}

impl View for SignedPacketStore {
    type V = Map<Seq<u8>, (u64, Seq<u8>, Seq<u8>)>;

    closed spec fn view(&self) -> Map<Seq<u8>, (u64, Seq<u8>, Seq<u8>)> {
        map_contents(self.store)
    }
}

/// The packet that a store holds for a key, if it holds one.
pub open spec fn spec_get(store: Map<Seq<u8>, (u64, Seq<u8>, Seq<u8>)>, key: Seq<u8>) -> Option<
    SignedPacketView,
> {
    if store.dom().contains(key) {
        Some(
            SignedPacketView {
                public_key: key,
                signature: store[key].2,
                timestamp: store[key].0,
                encoded_packet: store[key].1,
            },
        )
    } else {
        None
    }
}

/// The packet of a key in a store, as timestamp and encoded form.
pub open spec fn spec_existing(store: Map<Seq<u8>, (u64, Seq<u8>, Seq<u8>)>, key: Seq<u8>) -> Option<
    (u64, Seq<u8>),
> {
    if store.dom().contains(key) {
        Some((store[key].0, store[key].1))
    } else {
        None
    }
}

/// What the store keeps of a packet.
pub open spec fn spec_record(packet: SignedPacketView) -> (u64, Seq<u8>, Seq<u8>) {
    (packet.timestamp, packet.encoded_packet, packet.signature)
}

impl SignedPacketStore {
    /// An empty store in memory.
    pub fn in_memory() -> (s: SignedPacketStore)
        ensures
            s@ == no_packets(),
    {
        Self::open()
    }

    /// An empty store.
    pub fn open() -> (s: SignedPacketStore)
        ensures
            s@ == no_packets(),
    {
        SignedPacketStore { store: map_new() }
    }

    /// Stores a packet under its key, unless the key has a more recent one.
    pub fn upsert(&mut self, packet: SignedPacket) -> (r: Upsert)
        ensures
            r == spec_decide_upsert(
                spec_existing(old(self)@, packet@.public_key),
                packet@.timestamp,
                packet@.encoded_packet,
            ),
            final(self)@ == if r == Upsert::Stale {
                old(self)@
            } else {
                old(self)@.insert(packet@.public_key, spec_record(packet@))
            },
    {
        let mut replaced = false;
        match map_get(&self.store, &packet.public_key) {
            Some(existing) => {
                let held = SignedPacket {
                    public_key: packet.public_key,
                    signature: existing.2,
                    timestamp: existing.0,
                    encoded_packet: existing.1,
                };
                if held.more_recent_than(&packet) {
                    return Upsert::Stale;
                }
                replaced = true;
            },
            None => {},
        }
        map_insert(
            &mut self.store,
            packet.public_key,
            (packet.timestamp, packet.encoded_packet, packet.signature),
        );
        if replaced {
            Upsert::Updated
        } else {
            Upsert::Inserted
        }
    }

    /// The packet that the store holds for a key.
    pub fn get(&self, key: &[u8; 32]) -> (r: Option<SignedPacket>)
        ensures
            match r {
                Some(p) => spec_get(self@, key@) == Some(p@),
                None => spec_get(self@, key@) is None,
            },
    {
        match map_get(&self.store, key) {
            Some(v) => Some(
                SignedPacket {
                    public_key: *key,
                    signature: v.2,
                    timestamp: v.0,
                    encoded_packet: v.1,
                },
            ),
            None => None,
        }
    }

    /// Removes the packet of a key, and tells whether there was one.
    pub fn remove(&mut self, key: &[u8; 32]) -> (r: bool)
        ensures
            r == old(self)@.dom().contains(key@),
            final(self)@ == old(self)@.remove(key@),
    {
        map_remove(&mut self.store, key)
    }
}

/// The store keeps the most recent packet: after an upsert, the packet that
/// the key has in the store is not older than the packet that was offered,
/// nor than the packet that the key had before.
pub proof fn lemma_upsert_keeps_most_recent(
    store: Map<Seq<u8>, (u64, Seq<u8>, Seq<u8>)>,
    packet: SignedPacketView,
)
    ensures
        ({
            let before = spec_existing(store, packet.public_key);
            let outcome = spec_decide_upsert(before, packet.timestamp, packet.encoded_packet);
            let after = if outcome == Upsert::Stale {
                store
            } else {
                store.insert(packet.public_key, spec_record(packet))
            };
            &&& after.dom().contains(packet.public_key)
            &&& after[packet.public_key].0 >= packet.timestamp
            &&& before matches Some(held) ==> after[packet.public_key].0 >= held.0
        }),
{
}

} // verus!
