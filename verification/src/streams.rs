//! Streams and cached bytes, by name. Bytes that guests pass on by name never
//! enter their memory.
use vstd::prelude::*;

use crate::table::Table;

verus! {

/// Bytes by name.
pub struct ByteTable {
    table: Table<Vec<u8>>,
}

impl View for ByteTable {
    type V = Map<Seq<char>, Seq<u8>>;

    closed spec fn view(&self) -> Map<Seq<char>, Seq<u8>> {
        self.table@.map_values(|v: Vec<u8>| v@)
    }
}

impl ByteTable {
    /// Every name is listed once.
    pub closed spec fn wf(&self) -> bool {
        self.table.wf()
    }

    /// A table without bytes.
    pub fn new() -> (r: ByteTable)
        ensures
            r.wf(),
            r@ == Map::<Seq<char>, Seq<u8>>::empty(),
    {
        let r = ByteTable { table: Table::new() };
        assert(r@ =~= Map::<Seq<char>, Seq<u8>>::empty());
        r
    }

    /// The bytes under a name.
    pub fn get(&self, k: &str) -> (r: Option<&Vec<u8>>)
        requires
            self.wf(),
        ensures
            match r {
                Some(b) => self@.contains_key(k@) && b@ == self@[k@],
                None => !self@.contains_key(k@),
            },
    {
        self.table.get(k)
    }

    /// Puts bytes under a name, in place of those that were there.
    pub fn put(&mut self, k: &str, b: Vec<u8>)
        requires
            old(self).wf(),
        ensures
            final(self).wf(),
            final(self)@ == old(self)@.insert(k@, b@),
    {
        let ghost was = self@;
        self.table.insert(k.to_string(), b);
        assert(self@ =~= was.insert(k@, b@));
    }
}

/// The streams of one run of a module, and the bytes that outlast it.
pub struct StreamRegistry {
    /// Bytes by stream.
    pub streams: ByteTable,
    /// Bytes by cache key.
    pub cache: ByteTable,
}

impl StreamRegistry {
    /// Both tables are well formed.
    pub open spec fn wf(&self) -> bool {
        self.streams.wf() && self.cache.wf()
    }

    /// A registry without streams, with nothing cached.
    pub fn new() -> (r: StreamRegistry)
        ensures
            r.wf(),
            r.streams@ == Map::<Seq<char>, Seq<u8>>::empty(),
            r.cache@ == Map::<Seq<char>, Seq<u8>>::empty(),
    {
        StreamRegistry { streams: ByteTable::new(), cache: ByteTable::new() }
    }

    /// The bytes of a stream.
    pub fn get_stream(&self, id: &str) -> (r: Option<&Vec<u8>>)
        requires
            self.wf(),
        ensures
            match r {
                Some(b) => self.streams@.contains_key(id@) && b@ == self.streams@[id@],
                None => !self.streams@.contains_key(id@),
            },
    {
        self.streams.get(id)
    }

    /// Makes `b` the bytes of a stream.
    pub fn store_stream(&mut self, id: &str, b: Vec<u8>)
        requires
            old(self).wf(),
        ensures
            final(self).wf(),
            final(self).streams@ == old(self).streams@.insert(id@, b@),
            final(self).cache == old(self).cache,
    {
        self.streams.put(id, b);
    }

    /// Whether something is cached under a key.
    pub fn cache_contains(&self, key: &str) -> (r: bool)
        requires
            self.wf(),
        ensures
            r == self.cache@.contains_key(key@),
    {
        self.cache.get(key).is_some()
    }

    /// Caches `b` under a key.
    pub fn cache_put(&mut self, key: &str, b: Vec<u8>)
        requires
            old(self).wf(),
        ensures
            final(self).wf(),
            final(self).cache@ == old(self).cache@.insert(key@, b@),
            final(self).streams == old(self).streams,
    {
        self.cache.put(key, b);
    }

    /// Makes what is cached under a key the bytes of a stream; returns their
    /// number, or `None` where nothing is cached.
    pub fn cache_to_stream(&mut self, key: &str, id: &str) -> (r: Option<usize>)
        requires
            old(self).wf(),
        ensures
            final(self).wf(),
            final(self).cache == old(self).cache,
            match r {
                Some(n) => old(self).cache@.contains_key(key@) && n == old(self).cache@[key@].len()
                    && final(self).streams@ == old(self).streams@.insert(
                    id@,
                    old(self).cache@[key@],
                ),
                None => !old(self).cache@.contains_key(key@) && final(self).streams == old(self).streams,
            },
    {
        let b = match self.cache.get(key) {
            Some(b) => vstd::slice::slice_to_vec(b.as_slice()),
            None => {
                return None;
            },
        };
        let n: usize = b.len();
        self.streams.put(id, b);
        Some(n)
    }
}

/// What is cached from a stream comes back from the cache to a stream: the same
/// bytes.
pub proof fn lemma_cache_round_trip(
    streams: Map<Seq<char>, Seq<u8>>,
    cache: Map<Seq<char>, Seq<u8>>,
    from: Seq<char>,
    key: Seq<char>,
    to: Seq<char>,
)
    requires
        streams.contains_key(from),
    ensures
        ({
            let cached = cache.insert(key, streams[from]);
            cached.contains_key(key) && streams.insert(to, cached[key])[to] == streams[from]
        }),
{
}

} // verus!
