//! A plain in-memory store of image bytes by identifier.

use vstd::hash_map::StringHashMap;
use vstd::prelude::*;

verus! {

broadcast use vstd::string::group_string_axioms;

/// Image bytes by identifier.
pub struct ImageCache {
    cache: StringHashMap<Vec<u8>>,
}

impl View for ImageCache {
    type V = Map<Seq<char>, Seq<u8>>;

    closed spec fn view(&self) -> Map<Seq<char>, Seq<u8>> {
        self.cache@.map_values(|v: Vec<u8>| v@)
    }
}

/// A copy of a byte vector.
pub fn copy_bytes(data: &Vec<u8>) -> (r: Vec<u8>)
    ensures
        r@ == data@,
{
    let mut r: Vec<u8> = Vec::new();
    let mut i: usize = 0;
    while i < data.len()
        invariant
            i <= data.len(),
            r@ == data@.take(i as int),
        decreases data.len() - i,
    {
        r.push(data[i]);
        assert(data@.take(i + 1) =~= data@.take(i as int).push(data@[i as int]));
        i += 1;
    }
    assert(data@.take(data.len() as int) =~= data@);
    r
}

impl ImageCache {
    /// An empty store.
    pub fn new() -> (c: ImageCache)
        ensures
            c@ == Map::<Seq<char>, Seq<u8>>::empty(),
    {
        let c = ImageCache { cache: StringHashMap::new() };
        assert(c@ =~= Map::<Seq<char>, Seq<u8>>::empty());
        c
    }

    /// Stores `data` under `id`, in place of what was there.
    pub fn store(&mut self, id: &str, data: Vec<u8>)
        ensures
            final(self)@ == old(self)@.insert(id@, data@),
    {
        self.cache.insert(id.to_string(), data);
        assert(self@ =~= old(self)@.insert(id@, data@));
    }

    /// The bytes stored under `id`, if any.
    pub fn get(&self, id: &str) -> (r: Option<&Vec<u8>>)
        ensures
            match r {
                Some(v) => self@.contains_key(id@) && v@ == self@[id@],
                None => !self@.contains_key(id@),
            },
    {
        self.cache.get(id)
    }

    /// Removes what is stored under `id`; tells whether there was anything.
    pub fn _remove(&mut self, id: &str) -> (r: bool)
        ensures
            r == old(self)@.contains_key(id@),
            final(self)@ == old(self)@.remove(id@),
    {
        let had = self.cache.contains_key(id);
        self.cache.remove(id);
        assert(self@ =~= old(self)@.remove(id@));
        had
    }

    /// Empties the store.
    pub fn clear(&mut self)
        ensures
            final(self)@ == Map::<Seq<char>, Seq<u8>>::empty(),
    {
        self.cache.clear();
        assert(self@ =~= Map::<Seq<char>, Seq<u8>>::empty());
    }
}

/// Stores `data` under `id` in `cache`.
pub fn cache_image(cache: &mut ImageCache, id: &str, data: Vec<u8>)
    ensures
        final(cache)@ == old(cache)@.insert(id@, data@),
{
    cache.store(id, data);
}

/// A copy of the bytes stored under `id` in `cache`, if any.
pub fn get_cached_image(cache: &ImageCache, id: &str) -> (r: Option<Vec<u8>>)
    ensures
        match r {
            Some(v) => cache@.contains_key(id@) && v@ == cache@[id@],
            None => !cache@.contains_key(id@),
        },
{
    match cache.get(id) {
        Some(v) => Some(copy_bytes(v)),
        None => None,
    }
}

/// Empties `cache`.
pub fn clear_cache(cache: &mut ImageCache)
    ensures
        final(cache)@ == Map::<Seq<char>, Seq<u8>>::empty(),
{
    cache.clear();
}

} // verus!
