//! Pluggable key-to-document caches consulted while a connection is
//! established.
//!
//! The device describes its variables in a table of contents (TOC) that is
//! expensive to download, so the connection handshake first asks a cache: the
//! key is an opaque byte fingerprint of the TOC, the value its serialized
//! text. Three variants exist, chosen by the caller at connect time:
//!
//! - [`NoTocCache`]: never stores, never hits; every connection downloads.
//! - [`InMemoryTocCache`]: a process-lifetime table that several connections
//!   may share.
//! - [`FileTocCache`]: an in-memory table layered over one document per key
//!   persisted under a directory; a disk hit is promoted into memory.
//!
//! Caching is an optimization and never a correctness requirement: a cache
//! miss only costs a fresh download, so the host swallows any storage fault
//! and simply reports a miss. The decision logic of the layered cache --
//! which layer answers, what gets promoted, how file names are derived from
//! keys -- is all here and verified; the host only binds the persistent
//! layer's entries to actual files.

use vstd::prelude::*;

verus! {

// ------------------------------------------------------------------
// The underlying association store: a list of key/document entries with
// pairwise distinct keys, standing for a mathematical map.
// ------------------------------------------------------------------

/// The key of entry `i`, as a sequence of bytes.
spec fn key_at(entries: Seq<(Vec<u8>, String)>, i: int) -> Seq<u8> {
    entries[i].0@
}

/// No two entries share a key.
spec fn keys_unique(entries: Seq<(Vec<u8>, String)>) -> bool {
    forall|i: int, j: int| 0 <= i < j < entries.len() ==> key_at(entries, i) != key_at(entries, j)
}

/// The map an entry list stands for (later entries would win; with
/// `keys_unique` there is nothing to win over).
spec fn map_of(entries: Seq<(Vec<u8>, String)>) -> Map<Seq<u8>, Seq<char>>
    decreases entries.len(),
{
    if entries.len() == 0 {
        Map::empty()
    } else {
        map_of(entries.drop_last()).insert(entries.last().0@, entries.last().1@)
    }
}

proof fn lemma_keys_unique_prefix(entries: Seq<(Vec<u8>, String)>)
    requires
        keys_unique(entries),
        entries.len() > 0,
    ensures
        keys_unique(entries.drop_last()),
{
    let prefix = entries.drop_last();
    assert forall|i: int, j: int|
        0 <= i < j < prefix.len() implies key_at(prefix, i) != key_at(prefix, j) by {
        assert(prefix[i] == entries[i]);
        assert(prefix[j] == entries[j]);
        assert(key_at(prefix, i) == key_at(entries, i));
        assert(key_at(prefix, j) == key_at(entries, j));
        assert(key_at(entries, i) != key_at(entries, j));
    }
}

/// Every entry is in the map under its own key, and the map holds nothing
/// but the entries' keys.
proof fn lemma_map_of_entries(entries: Seq<(Vec<u8>, String)>)
    requires
        keys_unique(entries),
    ensures
        forall|i: int|
            0 <= i < entries.len() ==> map_of(entries).contains_key(
                #[trigger] key_at(entries, i),
            ) && map_of(entries)[key_at(entries, i)] == entries[i].1@,
        forall|k: Seq<u8>|
            #[trigger] map_of(entries).contains_key(k) ==> exists|i: int|
                0 <= i < entries.len() && key_at(entries, i) == k,
    decreases entries.len(),
{
    if entries.len() > 0 {
        let prefix = entries.drop_last();
        lemma_keys_unique_prefix(entries);
        lemma_map_of_entries(prefix);
        let last = (entries.len() - 1) as int;
        assert forall|i: int|
            0 <= i < entries.len() implies map_of(entries).contains_key(
            #[trigger] key_at(entries, i),
        ) && map_of(entries)[key_at(entries, i)] == entries[i].1@ by {
            if i < last {
                assert(prefix[i] == entries[i]);
                assert(key_at(prefix, i) == key_at(entries, i));
                assert(key_at(entries, i) != key_at(entries, last));
            }
        }
        assert forall|k: Seq<u8>|
            #[trigger] map_of(entries).contains_key(k) implies exists|i: int|
            0 <= i < entries.len() && key_at(entries, i) == k by {
            if k == key_at(entries, last) {
                assert(key_at(entries, last) == k);
            } else {
                assert(map_of(prefix).contains_key(k));
                let i = choose|i: int| 0 <= i < prefix.len() && key_at(prefix, i) == k;
                assert(prefix[i] == entries[i]);
                assert(key_at(entries, i) == k);
            }
        }
    }
}

/// Replacing the document of entry `i` (keeping a key with the same bytes)
/// updates exactly that key's binding.
proof fn lemma_map_of_update(entries: Seq<(Vec<u8>, String)>, i: int, pair: (Vec<u8>, String))
    requires
        keys_unique(entries),
        0 <= i < entries.len(),
        pair.0@ == key_at(entries, i),
    ensures
        map_of(entries.update(i, pair)) == map_of(entries).insert(key_at(entries, i), pair.1@),
        keys_unique(entries.update(i, pair)),
    decreases entries.len(),
{
    let updated = entries.update(i, pair);
    assert forall|p: int, q: int|
        0 <= p < q < updated.len() implies key_at(updated, p) != key_at(updated, q) by {
        assert(key_at(updated, p) == key_at(entries, p));
        assert(key_at(updated, q) == key_at(entries, q));
    }
    let last = (entries.len() - 1) as int;
    if i == last {
        assert(updated.drop_last() =~= entries.drop_last());
        assert(updated.last() == pair);
        assert(map_of(entries.drop_last()).insert(entries.last().0@, entries.last().1@).insert(
            key_at(entries, i),
            pair.1@,
        ) =~= map_of(entries.drop_last()).insert(pair.0@, pair.1@));
    } else {
        let prefix = entries.drop_last();
        lemma_keys_unique_prefix(entries);
        assert(prefix[i] == entries[i]);
        lemma_map_of_update(prefix, i, pair);
        assert(updated.drop_last() =~= prefix.update(i, pair));
        assert(updated.last() == entries.last());
        assert(key_at(entries, i) != key_at(entries, last));
        assert(map_of(prefix).insert(key_at(prefix, i), pair.1@).insert(
            entries.last().0@,
            entries.last().1@,
        ) =~= map_of(prefix).insert(entries.last().0@, entries.last().1@).insert(
            key_at(entries, i),
            pair.1@,
        ));
    }
}

/// With pairwise distinct keys, the map holds exactly one binding per
/// entry.
proof fn lemma_map_of_cardinality(entries: Seq<(Vec<u8>, String)>)
    requires
        keys_unique(entries),
    ensures
        map_of(entries).dom().finite(),
        map_of(entries).dom().len() == entries.len(),
    decreases entries.len(),
{
    if entries.len() == 0 {
        assert(map_of(entries).dom() =~= Set::<Seq<u8>>::empty());
    } else {
        let prefix = entries.drop_last();
        let last = (entries.len() - 1) as int;
        lemma_keys_unique_prefix(entries);
        lemma_map_of_cardinality(prefix);
        lemma_map_of_entries(prefix);
        assert(!map_of(prefix).contains_key(key_at(entries, last))) by {
            if map_of(prefix).contains_key(key_at(entries, last)) {
                let i = choose|i: int|
                    0 <= i < prefix.len() && key_at(prefix, i) == key_at(entries, last);
                assert(prefix[i] == entries[i]);
                assert(key_at(entries, i) != key_at(entries, last));
            }
        }
        assert(map_of(entries).dom() =~= map_of(prefix).dom().insert(key_at(entries, last)));
    }
}

/// Byte-wise equality of two byte strings.
fn bytes_eq(a: &[u8], b: &[u8]) -> (r: bool)
    ensures
        r == (a@ == b@),
{
    if a.len() != b.len() {
        return false;
    }
    let mut i: usize = 0;
    while i < a.len()
        invariant
            0 <= i <= a@.len(),
            a@.len() == b@.len(),
            forall|j: int| 0 <= j < i ==> a@[j] == b@[j],
        decreases a@.len() - i,
    {
        if a[i] != b[i] {
            return false;
        }
        i = i + 1;
    }
    proof {
        assert(a@ =~= b@);
    }
    true
}

/// A copy of a byte string as an owned vector.
fn bytes_to_vec(b: &[u8]) -> (r: Vec<u8>)
    ensures
        r@ == b@,
{
    vstd::slice::slice_to_vec(b)
}

/// A key/document table with pairwise distinct keys.
struct Store {
    entries: Vec<(Vec<u8>, String)>,
}

impl Store {
    spec fn wf(self) -> bool {
        keys_unique(self.entries@)
    }

    spec fn map(self) -> Map<Seq<u8>, Seq<char>> {
        map_of(self.entries@)
    }

    spec fn count(self) -> nat {
        self.entries@.len()
    }

    fn new() -> (r: Self)
        ensures
            r.wf(),
            r.map() == Map::<Seq<u8>, Seq<char>>::empty(),
            r.count() == 0,
    {
        Store { entries: Vec::new() }
    }

    /// The position of `key`, if it is stored.
    fn find(&self, key: &[u8]) -> (r: Option<usize>)
        ensures
            match r {
                Some(i) => i < self.entries@.len() && key_at(self.entries@, i as int) == key@,
                None => forall|i: int|
                    0 <= i < self.entries@.len() ==> key_at(self.entries@, i) != key@,
            },
    {
        let mut i: usize = 0;
        while i < self.entries.len()
            invariant
                0 <= i <= self.entries@.len(),
                forall|j: int| 0 <= j < i ==> key_at(self.entries@, j) != key@,
            decreases self.entries@.len() - i,
        {
            if bytes_eq(self.entries[i].0.as_slice(), key) {
                return Some(i);
            }
            i = i + 1;
        }
        None
    }

    fn get(&self, key: &[u8]) -> (r: Option<String>)
        requires
            self.wf(),
        ensures
            r is Some <==> self.map().contains_key(key@),
            r matches Some(d) ==> d@ == self.map()[key@],
    {
        proof {
            lemma_map_of_entries(self.entries@);
        }
        match self.find(key) {
            Some(i) => Some(self.entries[i].1.clone()),
            None => None,
        }
    }

    fn insert(&mut self, key: &[u8], doc: &str)
        requires
            old(self).wf(),
        ensures
            final(self).wf(),
            final(self).map() == old(self).map().insert(key@, doc@),
            final(self).count() == if old(self).map().contains_key(key@) {
                old(self).count()
            } else {
                old(self).count() + 1
            },
    {
        proof {
            lemma_map_of_entries(self.entries@);
        }
        let ghost entries0 = self.entries@;
        match self.find(key) {
            Some(i) => {
                let owned_key = bytes_to_vec(key);
                let pair = (owned_key, doc.to_owned());
                self.entries.set(i, pair);
                proof {
                    lemma_map_of_update(entries0, i as int, (self.entries@[i as int]));
                }
            },
            None => {
                self.entries.push((bytes_to_vec(key), doc.to_owned()));
                proof {
                    assert(self.entries@.drop_last() =~= entries0);
                    assert forall|p: int, q: int|
                        0 <= p < q < self.entries@.len() implies key_at(self.entries@, p)
                        != key_at(self.entries@, q) by {
                        assert(self.entries@[p] == entries0[p]);
                        assert(key_at(self.entries@, p) == key_at(entries0, p));
                        if q < self.entries@.len() - 1 {
                            assert(self.entries@[q] == entries0[q]);
                            assert(key_at(self.entries@, q) == key_at(entries0, q));
                            assert(key_at(entries0, p) != key_at(entries0, q));
                        } else {
                            assert(key_at(self.entries@, q) == key@);
                            assert(key_at(entries0, p) != key@);
                        }
                    }
                }
            },
        }
    }

    fn clear(&mut self)
        ensures
            final(self).wf(),
            final(self).map() == Map::<Seq<u8>, Seq<char>>::empty(),
            final(self).count() == 0,
    {
        self.entries.clear();
    }

    fn len(&self) -> (n: usize)
        ensures
            n == self.count(),
    {
        self.entries.len()
    }
}

// ------------------------------------------------------------------
// The three cache variants.
// ------------------------------------------------------------------

/// The no-op cache: never hits, never stores. The default when the caller
/// wants a fresh TOC downloaded on every connection.
#[derive(Clone)]
pub struct NoTocCache;

impl NoTocCache {
    /// A new no-op cache.
    pub fn new() -> (r: Self) {
        NoTocCache
    }

    /// Always a miss, whatever was stored before.
    pub fn get_toc(&self, _key: &[u8]) -> (r: Option<String>)
        ensures
            r is None,
    {
        None
    }

    /// Accepted and dropped.
    pub fn store_toc(&self, _key: &[u8], _toc: &str) {
    }
}

/// A process-lifetime key-to-document table. Several connections may share
/// one instance to amortize downloads across reconnects.
pub struct InMemoryTocCache {
    store: Store,
}

impl InMemoryTocCache {
    /// The documents currently cached, by key.
    pub closed spec fn cached(self) -> Map<Seq<u8>, Seq<char>> {
        self.store.map()
    }

    /// How many documents are cached.
    pub closed spec fn count(self) -> nat {
        self.store.count()
    }

    /// The cache's internal consistency.
    pub closed spec fn wf(self) -> bool {
        self.store.wf()
    }

    /// A new, empty in-memory cache.
    pub fn new() -> (r: Self)
        ensures
            r.wf(),
            r.cached() == Map::<Seq<u8>, Seq<char>>::empty(),
            r.count() == 0,
    {
        InMemoryTocCache { store: Store::new() }
    }

    /// The document stored under `key`, if any.
    pub fn get_toc(&self, key: &[u8]) -> (r: Option<String>)
        requires
            self.wf(),
        ensures
            r is Some <==> self.cached().contains_key(key@),
            r matches Some(d) ==> d@ == self.cached()[key@],
    {
        self.store.get(key)
    }

    /// Store `toc` under `key`, replacing any earlier document.
    pub fn store_toc(&mut self, key: &[u8], toc: &str)
        requires
            old(self).wf(),
        ensures
            final(self).wf(),
            final(self).cached() == old(self).cached().insert(key@, toc@),
            final(self).count() == if old(self).cached().contains_key(key@) {
                old(self).count()
            } else {
                old(self).count() + 1
            },
    {
        self.store.insert(key, toc);
    }

    /// Drop every cached document.
    pub fn clear(&mut self)
        ensures
            final(self).wf(),
            final(self).cached() == Map::<Seq<u8>, Seq<char>>::empty(),
            final(self).count() == 0,
    {
        self.store.clear();
    }

    /// The number of cached documents.
    pub fn size(&self) -> (n: usize)
        ensures
            n == self.count(),
    {
        self.store.len()
    }
}

// ------------------------------------------------------------------
// The layered, disk-backed cache.
// ------------------------------------------------------------------

/// What a layered lookup answers: the memory layer first, then the
/// persistent layer, then a miss.
pub open spec fn layered_lookup(
    mem: Map<Seq<u8>, Seq<char>>,
    disk: Map<Seq<u8>, Seq<char>>,
    key: Seq<u8>,
) -> Option<Seq<char>> {
    if mem.contains_key(key) {
        Some(mem[key])
    } else if disk.contains_key(key) {
        Some(disk[key])
    } else {
        None
    }
}

/// An in-memory table layered over one persisted document per key.
///
/// The `persisted` layer is the record of the documents this cache asked the
/// host to keep on disk, under the file name [`file_name_for_key`] derives
/// from the key. The host binds that layer to real files best-effort: a
/// write that fails is swallowed and only costs a miss in a later process.
pub struct FileTocCache {
    cache_dir: String,
    memory: Store,
    disk: Store,
}

impl FileTocCache {
    /// The documents held in the memory layer, by key.
    pub closed spec fn memory_cached(self) -> Map<Seq<u8>, Seq<char>> {
        self.memory.map()
    }

    /// The documents handed to the persistent layer, by key.
    pub closed spec fn persisted(self) -> Map<Seq<u8>, Seq<char>> {
        self.disk.map()
    }

    /// How many documents the memory layer holds.
    pub closed spec fn count(self) -> nat {
        self.memory.count()
    }

    /// The directory the persistent layer lives under.
    pub closed spec fn dir(self) -> Seq<char> {
        self.cache_dir@
    }

    /// The cache's internal consistency.
    pub closed spec fn wf(self) -> bool {
        self.memory.wf() && self.disk.wf()
    }

    /// A new layered cache over `cache_dir`, with both layers empty. The
    /// host creates the directory if it is absent.
    pub fn new(cache_dir: String) -> (r: Self)
        ensures
            r.wf(),
            r.memory_cached() == Map::<Seq<u8>, Seq<char>>::empty(),
            r.persisted() == Map::<Seq<u8>, Seq<char>>::empty(),
            r.count() == 0,
            r.dir() == cache_dir@,
    {
        FileTocCache { cache_dir, memory: Store::new(), disk: Store::new() }
    }

    /// The document under `key`: memory first, then the persistent layer. A
    /// hit found only on the persistent layer is promoted into memory, so
    /// the next lookup answers from memory.
    pub fn get_toc(&mut self, key: &[u8]) -> (r: Option<String>)
        requires
            old(self).wf(),
        ensures
            final(self).wf(),
            r is Some <==> layered_lookup(
                old(self).memory_cached(),
                old(self).persisted(),
                key@,
            ) is Some,
            r matches Some(d) ==> layered_lookup(
                old(self).memory_cached(),
                old(self).persisted(),
                key@,
            ) == Some(d@),
            old(self).memory_cached().contains_key(key@) ==> final(self).memory_cached() == old(
                self,
            ).memory_cached(),
            !old(self).memory_cached().contains_key(key@) && old(self).persisted().contains_key(
                key@,
            ) ==> final(self).memory_cached() == old(self).memory_cached().insert(
                key@,
                old(self).persisted()[key@],
            ),
            !old(self).memory_cached().contains_key(key@) && !old(self).persisted().contains_key(
                key@,
            ) ==> final(self).memory_cached() == old(self).memory_cached(),
            old(self).memory_cached().contains_key(key@) || !old(self).persisted().contains_key(
                key@,
            ) ==> final(self).count() == old(self).count(),
            !old(self).memory_cached().contains_key(key@) && old(self).persisted().contains_key(
                key@,
            ) ==> final(self).count() == old(self).count() + 1,
            final(self).persisted() == old(self).persisted(),
            final(self).dir() == old(self).dir(),
    {
        match self.memory.get(key) {
            Some(doc) => Some(doc),
            None => {
                match self.disk.get(key) {
                    Some(doc) => {
                        self.memory.insert(key, doc.as_str());
                        Some(doc)
                    },
                    None => None,
                }
            },
        }
    }

    /// Store `toc` under `key` on both layers.
    pub fn store_toc(&mut self, key: &[u8], toc: &str)
        requires
            old(self).wf(),
        ensures
            final(self).wf(),
            final(self).memory_cached() == old(self).memory_cached().insert(key@, toc@),
            final(self).persisted() == old(self).persisted().insert(key@, toc@),
            final(self).count() == if old(self).memory_cached().contains_key(key@) {
                old(self).count()
            } else {
                old(self).count() + 1
            },
            final(self).dir() == old(self).dir(),
    {
        self.memory.insert(key, toc);
        self.disk.insert(key, toc);
    }

    /// Drop everything: the memory layer and the persisted documents.
    pub fn clear(&mut self)
        ensures
            final(self).wf(),
            final(self).memory_cached() == Map::<Seq<u8>, Seq<char>>::empty(),
            final(self).persisted() == Map::<Seq<u8>, Seq<char>>::empty(),
            final(self).count() == 0,
            final(self).dir() == old(self).dir(),
    {
        self.memory.clear();
        self.disk.clear();
    }

    /// Drop the memory layer only, keeping the persisted documents -- the
    /// state a fresh process starts from over the same directory.
    pub fn clear_memory(&mut self)
        requires
            old(self).wf(),
        ensures
            final(self).wf(),
            final(self).memory_cached() == Map::<Seq<u8>, Seq<char>>::empty(),
            final(self).persisted() == old(self).persisted(),
            final(self).count() == 0,
            final(self).dir() == old(self).dir(),
    {
        self.memory.clear();
    }

    /// The number of documents in the memory layer.
    pub fn size(&self) -> (n: usize)
        ensures
            n == self.count(),
    {
        self.memory.len()
    }

    /// The configured directory.
    pub fn get_cache_dir(&self) -> (r: String)
        ensures
            r@ == self.dir(),
    {
        self.cache_dir.clone()
    }
}

// ------------------------------------------------------------------
// File names of persisted documents.
// ------------------------------------------------------------------

/// The character standing for one hexadecimal digit value.
pub open spec fn hex_digit_char(d: int) -> char {
    if d == 0 {
        '0'
    } else if d == 1 {
        '1'
    } else if d == 2 {
        '2'
    } else if d == 3 {
        '3'
    } else if d == 4 {
        '4'
    } else if d == 5 {
        '5'
    } else if d == 6 {
        '6'
    } else if d == 7 {
        '7'
    } else if d == 8 {
        '8'
    } else if d == 9 {
        '9'
    } else if d == 10 {
        'a'
    } else if d == 11 {
        'b'
    } else if d == 12 {
        'c'
    } else if d == 13 {
        'd'
    } else if d == 14 {
        'e'
    } else {
        'f'
    }
}

/// The two lowercase hex digits of one byte.
pub open spec fn hex_pair(b: u8) -> Seq<char> {
    seq![hex_digit_char(b as int / 16), hex_digit_char(b as int % 16)]
}

/// The lowercase hex spelling of a byte string.
pub open spec fn hex_of(bytes: Seq<u8>) -> Seq<char>
    decreases bytes.len(),
{
    if bytes.len() == 0 {
        Seq::empty()
    } else {
        hex_of(bytes.drop_last()) + hex_pair(bytes.last())
    }
}

/// The one-character string of one hexadecimal digit value.
fn hex_char_str(d: u8) -> (r: &'static str)
    requires
        d < 16,
    ensures
        r@ == seq![hex_digit_char(d as int)],
{
    if d == 0 {
        proof {
            reveal_strlit("0");
        }
        let r = "0";
        proof {
            assert(r@ =~= seq![hex_digit_char(0)]);
        }
        r
    } else if d == 1 {
        proof {
            reveal_strlit("1");
        }
        let r = "1";
        proof {
            assert(r@ =~= seq![hex_digit_char(1)]);
        }
        r
    } else if d == 2 {
        proof {
            reveal_strlit("2");
        }
        let r = "2";
        proof {
            assert(r@ =~= seq![hex_digit_char(2)]);
        }
        r
    } else if d == 3 {
        proof {
            reveal_strlit("3");
        }
        let r = "3";
        proof {
            assert(r@ =~= seq![hex_digit_char(3)]);
        }
        r
    } else if d == 4 {
        proof {
            reveal_strlit("4");
        }
        let r = "4";
        proof {
            assert(r@ =~= seq![hex_digit_char(4)]);
        }
        r
    } else if d == 5 {
        proof {
            reveal_strlit("5");
        }
        let r = "5";
        proof {
            assert(r@ =~= seq![hex_digit_char(5)]);
        }
        r
    } else if d == 6 {
        proof {
            reveal_strlit("6");
        }
        let r = "6";
        proof {
            assert(r@ =~= seq![hex_digit_char(6)]);
        }
        r
    } else if d == 7 {
        proof {
            reveal_strlit("7");
        }
        let r = "7";
        proof {
            assert(r@ =~= seq![hex_digit_char(7)]);
        }
        r
    } else if d == 8 {
        proof {
            reveal_strlit("8");
        }
        let r = "8";
        proof {
            assert(r@ =~= seq![hex_digit_char(8)]);
        }
        r
    } else if d == 9 {
        proof {
            reveal_strlit("9");
        }
        let r = "9";
        proof {
            assert(r@ =~= seq![hex_digit_char(9)]);
        }
        r
    } else if d == 10 {
        proof {
            reveal_strlit("a");
        }
        let r = "a";
        proof {
            assert(r@ =~= seq![hex_digit_char(10)]);
        }
        r
    } else if d == 11 {
        proof {
            reveal_strlit("b");
        }
        let r = "b";
        proof {
            assert(r@ =~= seq![hex_digit_char(11)]);
        }
        r
    } else if d == 12 {
        proof {
            reveal_strlit("c");
        }
        let r = "c";
        proof {
            assert(r@ =~= seq![hex_digit_char(12)]);
        }
        r
    } else if d == 13 {
        proof {
            reveal_strlit("d");
        }
        let r = "d";
        proof {
            assert(r@ =~= seq![hex_digit_char(13)]);
        }
        r
    } else if d == 14 {
        proof {
            reveal_strlit("e");
        }
        let r = "e";
        proof {
            assert(r@ =~= seq![hex_digit_char(14)]);
        }
        r
    } else {
        proof {
            reveal_strlit("f");
        }
        let r = "f";
        proof {
            assert(r@ =~= seq![hex_digit_char(15)]);
        }
        r
    }
}

/// The file name a persisted document lives under: the key's bytes in
/// lowercase hex, then `.json`. Deterministic in the key alone, so every
/// process over the same directory finds the same file.
pub fn file_name_for_key(key: &[u8]) -> (r: String)
    ensures
        r@ == hex_of(key@) + ".json"@,
{
    let mut name = String::new();
    let mut i: usize = 0;
    while i < key.len()
        invariant
            0 <= i <= key@.len(),
            name@ == hex_of(key@.take(i as int)),
        decreases key@.len() - i,
    {
        let b: u8 = key[i];
        name.append(hex_char_str(b / 16));
        name.append(hex_char_str(b % 16));
        proof {
            assert(key@.take(i as int + 1).drop_last() =~= key@.take(i as int));
            assert(key@.take(i as int + 1).last() == key@[i as int]);
            assert(name@ =~= hex_of(key@.take(i as int + 1)));
        }
        i = i + 1;
    }
    proof {
        assert(key@.take(key@.len() as int) =~= key@);
    }
    name.append(".json");
    name
}

// ------------------------------------------------------------------
// Laws.
// ------------------------------------------------------------------

/// Law: in any cached state, a document just stored under a key is what a
/// lookup of that key answers, until the next clear or overwrite.
pub proof fn lemma_store_then_get(
    cached: Map<Seq<u8>, Seq<char>>,
    key: Seq<u8>,
    doc: Seq<char>,
)
    ensures
        cached.insert(key, doc).contains_key(key),
        cached.insert(key, doc)[key] == doc,
{
}

/// Law: the size an in-memory cache reports is the number of distinct keys
/// it holds a document for.
pub proof fn lemma_size_counts_cached_documents(cache: InMemoryTocCache)
    requires
        cache.wf(),
    ensures
        cache.cached().dom().finite(),
        cache.count() == cache.cached().dom().len(),
{
    lemma_map_of_cardinality(cache.store.entries@);
}

/// Law: a document handed to the persistent layer is still found after the
/// memory layer is gone -- the layered lookup over an empty memory layer
/// falls back to the persisted copy.
pub proof fn lemma_disk_fallback_after_memory_clear(
    disk: Map<Seq<u8>, Seq<char>>,
    key: Seq<u8>,
    doc: Seq<char>,
)
    ensures
        layered_lookup(Map::empty(), disk.insert(key, doc), key) == Some(doc),
{
}

} // verus!
