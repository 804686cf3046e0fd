use std::collections::HashMap;
use vstd::prelude::*;
use vstd::hash_map::StringHashMap;
use vstd::string::*;


verus! {

broadcast use vstd::std_specs::hash::group_hash_axioms;

/// Encoded icon images, keyed by avatar or monster id.
pub struct IconBuffers {
    buffers: HashMap<u32, Vec<u8>>,
}

impl View for IconBuffers {
    type V = Map<u32, Vec<u8>>;

    closed spec fn view(&self) -> Map<u32, Vec<u8>> {
        self.buffers@
    }
}

/// The buffers `ids` leave behind when each id's fetch result (`fetched`, position
/// by position) is stored when present, later ids overwriting earlier ones.
pub open spec fn filled_buffers(ids: Seq<u32>, fetched: Seq<Option<Vec<u8>>>) -> Map<u32, Vec<u8>>
    decreases ids.len(),
{
    if ids.len() == 0 {
        Map::empty()
    } else {
        let prev = filled_buffers(ids.drop_last(), fetched.subrange(0, fetched.len() - 1));
        match fetched.last() {
            Some(b) => prev.insert(ids.last(), b),
            None => prev,
        }
    }
}

impl IconBuffers {
    /// No buffer stored.
    pub fn new() -> (r: Self)
        ensures
            r@ == Map::<u32, Vec<u8>>::empty(),
    {
        IconBuffers { buffers: HashMap::new() }
    }

    /// Whether a buffer is stored for `id`.
    pub fn contains(&self, id: u32) -> (r: bool)
        ensures
            r == self@.contains_key(id),
    {
        self.buffers.contains_key(&id)
    }

    /// The buffer stored for `id`.
    pub fn get(&self, id: u32) -> (r: Option<&Vec<u8>>)
        ensures
            match r {
                Some(b) => self@.contains_key(id) && *b == self@[id],
                None => !self@.contains_key(id),
            },
    {
        self.buffers.get(&id)
    }

    /// Drops every stored buffer.
    pub fn clear(&mut self)
        ensures
            final(self)@ == Map::<u32, Vec<u8>>::empty(),
    {
        self.buffers.clear();
    }

    /// Stores `buffer` for `id`.
    pub fn insert(&mut self, id: u32, buffer: Vec<u8>)
        ensures
            final(self)@ == old(self)@.insert(id, buffer),
    {
        self.buffers.insert(id, buffer);
    }
}

/// Replaces the avatar icons with those of `avatar_ids`: the cache is cleared, then
/// each id is fetched once, in order, and kept when the fetch succeeds.
pub fn populate_avatar_buffers<F: Fn(u32) -> Option<Vec<u8>>>(cache: &mut IconBuffers, avatar_ids: &Vec<u32>, fetch: &F)
    requires
        forall|id: u32| #[trigger] fetch.requires((id,)),
    ensures
        exists|fetched: Seq<Option<Vec<u8>>>|
            {
                &&& fetched.len() == avatar_ids@.len()
                &&& forall|i: int| 0 <= i < fetched.len() ==> #[trigger] fetch.ensures((avatar_ids@[i],), fetched[i])
                &&& final(cache)@ == filled_buffers(avatar_ids@, fetched)
            },
{
    cache.clear();
    let ghost mut fetched: Seq<Option<Vec<u8>>> = seq![];
    let mut i: usize = 0;
    while i < avatar_ids.len()
        invariant
            i <= avatar_ids@.len(),
            fetched.len() == i,
            forall|k: int| 0 <= k < i ==> #[trigger] fetch.ensures((avatar_ids@[k],), fetched[k]),
            cache@ == filled_buffers(avatar_ids@.subrange(0, i as int), fetched),
            forall|id: u32| #[trigger] fetch.requires((id,)),
        decreases avatar_ids@.len() - i,
    {
        let id = avatar_ids[i];
        let got = fetch(id);
        let ghost before = fetched;
        proof {
            fetched = fetched.push(got);
        }
        match got {
            Some(buffer) => {
                cache.insert(id, buffer);
            },
            None => {},
        }
        proof {
            let ids = avatar_ids@.subrange(0, i + 1);
            assert(ids.drop_last() =~= avatar_ids@.subrange(0, i as int));
            assert(fetched.subrange(0, fetched.len() - 1) =~= before);
        }
        i = i + 1;
    }
    proof {
        assert(avatar_ids@.subrange(0, avatar_ids@.len() as int) =~= avatar_ids@);
    }
}

/// Drops every cached monster icon.
pub fn clear_monster_buffers(cache: &mut IconBuffers)
    ensures
        final(cache)@ == Map::<u32, Vec<u8>>::empty(),
{
    cache.clear();
}

/// Fetches and keeps the icon of `monster_id` unless one is already cached; a failed
/// fetch leaves the cache as it was.
pub fn cache_monster_buffer<F: Fn(u32) -> Option<Vec<u8>>>(cache: &mut IconBuffers, monster_id: u32, fetch: &F)
    requires
        fetch.requires((monster_id,)),
    ensures
        if old(cache)@.contains_key(monster_id) {
            final(cache)@ == old(cache)@
        } else {
            exists|got: Option<Vec<u8>>|
                {
                    &&& fetch.ensures((monster_id,), got)
                    &&& final(cache)@ == (match got {
                        Some(b) => old(cache)@.insert(monster_id, b),
                        None => old(cache)@,
                    })
                }
        },
{
    if cache.contains(monster_id) {
        return;
    }
    let got = fetch(monster_id);
    let ghost seen = got;
    match got {
        Some(buffer) => cache.insert(monster_id, buffer),
        None => {},
    }
    assert(fetch.ensures((monster_id,), seen));
}

/// Encoded icon images, keyed by property name.
pub struct NamedBuffers {
    buffers: StringHashMap<Vec<u8>>,
}

impl View for NamedBuffers {
    type V = Map<Seq<char>, Vec<u8>>;

    closed spec fn view(&self) -> Map<Seq<char>, Vec<u8>> {
        self.buffers@
    }
}

impl NamedBuffers {
    /// No buffer stored.
    pub fn new() -> (r: Self)
        ensures
            r@ == Map::<Seq<char>, Vec<u8>>::empty(),
    {
        NamedBuffers { buffers: StringHashMap::new() }
    }

    /// Whether a buffer is stored for `name`.
    pub fn contains(&self, name: &str) -> (r: bool)
        ensures
            r == self@.contains_key(name@),
    {
        self.buffers.contains_key(name)
    }

    /// Drops every stored buffer.
    pub fn clear(&mut self)
        ensures
            final(self)@ == Map::<Seq<char>, Vec<u8>>::empty(),
    {
        self.buffers.clear();
    }

    /// Stores `buffer` for `name`.
    pub fn insert(&mut self, name: &str, buffer: Vec<u8>)
        ensures
            final(self)@ == old(self)@.insert(name@, buffer),
    {
        self.buffers.insert(String::from_str(name), buffer);
    }
}

/// Fetches and keeps the icon of property `property_name` unless one is already
/// cached; a failed fetch leaves the cache as it was.
pub fn cache_property_buffer<F: Fn(&str) -> Option<Vec<u8>>>(cache: &mut NamedBuffers, property_name: &str, fetch: &F)
    requires
        fetch.requires((property_name,)),
    ensures
        if old(cache)@.contains_key(property_name@) {
            final(cache)@ == old(cache)@
        } else {
            exists|got: Option<Vec<u8>>|
                {
                    &&& fetch.ensures((property_name,), got)
                    &&& final(cache)@ == (match got {
                        Some(b) => old(cache)@.insert(property_name@, b),
                        None => old(cache)@,
                    })
                }
        },
{
    if cache.contains(property_name) {
        return;
    }
    let got = fetch(property_name);
    let ghost seen = got;
    match got {
        Some(buffer) => cache.insert(property_name, buffer),
        None => {},
    }
    assert(fetch.ensures((property_name,), seen));
}

} // verus!
