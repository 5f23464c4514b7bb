//! The key cache: a bounded store of the keys that were found valid, so that
//! the costly check of a key is made once while the key stays in use.

use vstd::prelude::*;
use crate::key::PublicKey;
use crate::text::bytes_eq;

verus! {

/// The capacity of a cache that is made without saying one.
pub const DEFAULT_KEY_CACHE_CAPACITY: usize = 1024;

/// The one way in which asking the cache for a key fails.
#[derive(Clone, Copy, Debug, PartialEq, Eq, Structural)]
pub enum KeyError {
    /// The bytes are no valid key.
    InvalidKey,
}

/// The mathematical content of a [`KeyCache`].
pub struct KeyCacheView {
    /// The most keys that the cache holds at a time.
    pub capacity: nat,
    /// The keys in the cache, the least recently used first.
    pub entries: Seq<Seq<u8>>,
    /// Every key that was ever presented to the cache as valid.
    pub vouched: Set<Seq<u8>>,
}

impl KeyCacheView {
    /// A cache that holds nothing and has been shown nothing.
    pub open spec fn empty(capacity: nat) -> KeyCacheView {
        KeyCacheView { capacity, entries: Seq::empty(), vouched: Set::empty() }
    }

    pub open spec fn wf(self) -> bool {
        &&& self.entries.len() <= self.capacity
        &&& self.entries.no_duplicates()
        &&& forall|i: int| 0 <= i < self.entries.len() ==> self.vouched.contains(self.entries[i])
    }

    /// The cache after `key`, which it holds, was used: the key is now the
    /// most recently used one.
    pub open spec fn promote(self, key: Seq<u8>) -> KeyCacheView {
        KeyCacheView {
            entries: self.entries.remove(self.entries.index_of(key)).push(key),
            ..self
        }
    }

    /// The cache after `key`, which it did not hold, was found valid and taken in:
    /// if the cache was full, the least recently used key made room.
    pub open spec fn take_in(self, key: Seq<u8>) -> KeyCacheView {
        KeyCacheView {
            entries: if self.capacity == 0 {
                self.entries
            } else if self.entries.len() >= self.capacity {
                self.entries.drop_first().push(key)
            } else {
                self.entries.push(key)
            },
            vouched: self.vouched.insert(key),
            ..self
        }
    }
}

/// A cache of verified keys with a fixed capacity, which forgets the key
/// that was used least recently when it needs room.
pub struct KeyCache {
    capacity: usize,
    entries: Vec<[u8; 32]>,
    vouched: Ghost<Set<Seq<u8>>>,
}

impl View for KeyCache {
    type V = KeyCacheView;

    closed spec fn view(&self) -> KeyCacheView {
        KeyCacheView {
            capacity: self.capacity as nat,
            entries: self.entries@.map_values(|a: [u8; 32]| a@),
            vouched: self.vouched@,
        }
    }
}

impl KeyCache {
    /// The invariant of the cache: never more keys than its capacity, no key
    /// twice, and no key that was not vouched for.
    pub open spec fn wf(&self) -> bool {
        self@.wf()
    }

    /// An empty cache for at most `capacity` keys.
    pub fn new(capacity: usize) -> (c: KeyCache)
        ensures
            c.wf(),
            c@ == KeyCacheView::empty(capacity as nat),
    {
        let c = KeyCache { capacity, entries: Vec::new(), vouched: Ghost(Set::empty()) };
        assert(c@.entries =~= Seq::<Seq<u8>>::empty());
        c
    }

    /// The number of keys in the cache.
    pub fn len(&self) -> (n: usize)
        ensures
            n == self@.entries.len(),
    {
        self.entries.len()
    }

    /// The most keys that the cache holds at a time.
    pub fn capacity(&self) -> (n: usize)
        ensures
            n == self@.capacity,
    {
        self.capacity
    }

    /// The place of `bytes` among the entries, if it is there.
    fn position(&self, bytes: &[u8; 32]) -> (r: Option<usize>)
        ensures
            match r {
                Some(i) => i < self@.entries.len() && self@.entries[i as int] == bytes@,
                None => !self@.entries.contains(bytes@),
            },
    {
        let mut i: usize = 0;
        while i < self.entries.len()
            invariant
                i <= self.entries.len(),
                forall|j: int| 0 <= j < i ==> self@.entries[j] != bytes@,
            decreases self.entries.len() - i,
        {
            if bytes_eq(self.entries[i].as_slice(), bytes.as_slice()) {
                return Some(i);
            }
            i = i + 1;
        }
        None
    }

    /// Tells whether the cache holds the key with these bytes, without
    /// counting this as a use.
    pub fn contains(&self, bytes: &[u8; 32]) -> (r: bool)
        ensures
            r == self@.entries.contains(bytes@),
    {
        self.position(bytes).is_some()
    }

    /// Moves the entry at `i` to the most recently used end.
    fn touch(&mut self, i: usize, bytes: &[u8; 32])
        requires
            old(self).wf(),
            i < old(self)@.entries.len(),
            old(self)@.entries[i as int] == bytes@,
        ensures
            final(self).wf(),
            final(self)@ == old(self)@.promote(bytes@),
    {
        let ghost before = self@.entries;
        assert(before.index_of(bytes@) == i) by {
            let j = before.index_of(bytes@);
            assert(before.contains(bytes@));
            assert(0 <= j < before.len() && before[j] == bytes@);
        }
        let entry = self.entries.remove(i);
        self.entries.push(entry);
        assert(entry@ == bytes@);
        assert(self@.entries =~= before.remove(i as int).push(bytes@));
        assert(self@.entries.no_duplicates()) by {
            let after = self@.entries;
            assert forall|a: int, b: int| 0 <= a < after.len() && 0 <= b < after.len() && a != b
                implies after[a] != after[b] by {
                let last = after.len() - 1;
                let ia = if a == last { i as int } else if a < i { a } else { a + 1 };
                let ib = if b == last { i as int } else if b < i { b } else { b + 1 };
                assert(after[a] == before[ia]);
                assert(after[b] == before[ib]);
                assert(ia != ib);
            }
        }
        assert forall|j: int| 0 <= j < self@.entries.len() implies self@.vouched.contains(
            self@.entries[j],
        ) by {
            let last = self@.entries.len() - 1;
            let ij = if j == last { i as int } else if j < i { j } else { j + 1 };
            assert(self@.entries[j] == before[ij]);
        }
    }

    /// Returns the handle of a key that is in the cache, and counts this as a
    /// use of the key. A key that is not in the cache gives `None` and leaves
    /// the cache as it was.
    pub fn get(&mut self, bytes: &[u8; 32]) -> (r: Option<PublicKey>)
        requires
            old(self).wf(),
        ensures
            final(self).wf(),
            match r {
                Some(k) => {
                    &&& old(self)@.entries.contains(bytes@)
                    &&& k@ == bytes@
                    &&& final(self)@ == old(self)@.promote(bytes@)
                    &&& final(self)@.vouched.contains(k@)
                },
                None => !old(self)@.entries.contains(bytes@) && final(self)@ == old(self)@,
            },
    {
        match self.position(bytes) {
            Some(i) => {
                assert(self@.vouched.contains(self@.entries[i as int]));
                self.touch(i, bytes);
                Some(PublicKey::from_verified_bytes(bytes))
            },
            None => None,
        }
    }

    /// Returns the handle of the key with these bytes. A key that is in the
    /// cache is handed out again (and counts as used). One that is not is
    /// taken in if the caller found it valid, and refused with `InvalidKey`
    /// if not; the cache then stays as it was.
    ///
    /// `point_is_valid` is the outcome of the validity check of `bytes`; it is
    /// not looked at when the cache holds the key.
    pub fn get_or_insert(&mut self, bytes: &[u8; 32], point_is_valid: bool) -> (r: Result<
        PublicKey,
        KeyError,
    >)
        requires
            old(self).wf(),
        ensures
            final(self).wf(),
            match r {
                Ok(k) => {
                    &&& k@ == bytes@
                    &&& final(self)@.vouched.contains(k@)
                    &&& old(self)@.entries.contains(bytes@) || point_is_valid
                    &&& final(self)@ == if old(self)@.entries.contains(bytes@) {
                        old(self)@.promote(bytes@)
                    } else {
                        old(self)@.take_in(bytes@)
                    }
                },
                Err(e) => {
                    &&& e == KeyError::InvalidKey
                    &&& !old(self)@.entries.contains(bytes@)
                    &&& !point_is_valid
                    &&& final(self)@ == old(self)@
                },
            },
    {
        match self.position(bytes) {
            Some(i) => {
                assert(self@.vouched.contains(self@.entries[i as int]));
                self.touch(i, bytes);
                return Ok(PublicKey::from_verified_bytes(bytes));
            },
            None => {},
        }
        if !point_is_valid {
            return Err(KeyError::InvalidKey);
        }
        let ghost before = self@;
        self.vouched = Ghost(self.vouched@.insert(bytes@));
        if self.capacity > 0 {
            if self.entries.len() >= self.capacity {
                self.entries.remove(0);
                assert(self@.entries =~= before.entries.drop_first());
            }
            let ghost kept = self@.entries;
            self.entries.push(*bytes);
            assert(self@.entries =~= kept.push(bytes@));
            assert(forall|j: int|
                0 <= j < kept.len() ==> before.entries.contains(#[trigger] kept[j])) by {
                assert forall|j: int| 0 <= j < kept.len() implies before.entries.contains(
                    #[trigger] kept[j],
                ) by {
                    if kept.len() == before.entries.len() {
                        assert(kept[j] == before.entries[j]);
                    } else {
                        assert(kept[j] == before.entries[j + 1]);
                    }
                }
            }
            assert(self@.entries.no_duplicates()) by {
                let after = self@.entries;
                assert forall|a: int, b: int|
                    0 <= a < after.len() && 0 <= b < after.len() && a != b implies after[a]
                    != after[b] by {
                    let off = if kept.len() == before.entries.len() { 0int } else { 1int };
                    if a < kept.len() {
                        assert(after[a] == before.entries[a + off]);
                    }
                    if b < kept.len() {
                        assert(after[b] == before.entries[b + off]);
                    }
                }
            }
        } else {
            assert(self@.entries =~= before.entries);
        }
        assert(self@ == before.take_in(bytes@));
        Ok(PublicKey::from_verified_bytes(bytes))
    }
}

/// Only the key that was used least recently is forgotten: when a cache
/// with room for at least one key takes a new key in, the new key is the
/// most recently used one, every key but the oldest of a full cache stays,
/// and the oldest of a full cache goes.
pub proof fn lemma_least_recently_used_goes(c: KeyCacheView, key: Seq<u8>)
    requires
        c.wf(),
        c.capacity > 0,
        !c.entries.contains(key),
    ensures
        c.take_in(key).wf(),
        c.take_in(key).entries.last() == key,
        forall|k: Seq<u8>|
            c.entries.contains(k) && (c.entries.len() < c.capacity || k != c.entries[0])
                ==> c.take_in(key).entries.contains(k),
        c.entries.len() >= c.capacity ==> !c.take_in(key).entries.contains(c.entries[0]),
{
    let after = c.take_in(key).entries;
    let full = c.entries.len() >= c.capacity;
    let off = if full { 1int } else { 0int };
    assert forall|i: int| 0 <= i < after.len() - 1 implies #[trigger] after[i] == c.entries[i
        + off] by {}
    assert forall|a: int, b: int| 0 <= a < after.len() && 0 <= b < after.len() && a != b implies after[a]
        != after[b] by {
        if a < after.len() - 1 {
            assert(after[a] == c.entries[a + off]);
            assert(c.entries.contains(c.entries[a + off]));
        }
        if b < after.len() - 1 {
            assert(after[b] == c.entries[b + off]);
            assert(c.entries.contains(c.entries[b + off]));
        }
    }
    assert forall|i: int| 0 <= i < after.len() implies c.take_in(key).vouched.contains(
        after[i],
    ) by {
        if i < after.len() - 1 {
            assert(after[i] == c.entries[i + off]);
        }
    }
    assert forall|k: Seq<u8>|
        c.entries.contains(k) && (c.entries.len() < c.capacity || k != c.entries[0])
        implies c.take_in(key).entries.contains(k) by {
        let i = choose|i: int| 0 <= i < c.entries.len() && c.entries[i] == k;
        assert(after[i - off] == k);
    }
    if full {
        if after.contains(c.entries[0]) {
            let j = choose|j: int| 0 <= j < after.len() && after[j] == c.entries[0];
            if j < after.len() - 1 {
                assert(after[j] == c.entries[j + 1]);
            } else {
                assert(c.entries.contains(key));
            }
        }
    }
}

} // verus!
