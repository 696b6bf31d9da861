//! Where the BTN client keeps texts under keys.

use vstd::prelude::*;
use crate::textmap::TextMap;

verus! {

/// A store of texts under keys.
pub trait BtnMetadataStore {
    /// What the store holds: nothing, where nothing else is said.
    open spec fn data(&self) -> Map<Seq<char>, Seq<char>> {
        Map::empty()
    }

    /// The text under a key.
    fn get(&self, key: &str) -> (r: Option<String>)
        ensures
            match r {
                Some(text) => self.data().contains_key(key@) && text@ == self.data()[key@],
                None => !self.data().contains_key(key@),
            },
    ;

    /// Keeps a text under a key, in place of any older one.
    fn set(&mut self, key: &str, value: &str)
        ensures
            final(self).data() == old(self).data().insert(key@, value@),
    ;
}

/// A store in memory.
#[derive(Debug)]
pub struct InMemoryMetadataStore {
    inner: TextMap<String>,
}

impl Default for InMemoryMetadataStore {
    fn default() -> (v: Self)
        ensures
            v.data() == Map::<Seq<char>, Seq<char>>::empty(),
    {
        InMemoryMetadataStore::new()
    }
}

impl InMemoryMetadataStore {
    /// An empty store.
    pub fn new() -> (s: Self)
        ensures
            s.data() == Map::<Seq<char>, Seq<char>>::empty(),
    {
        let s = InMemoryMetadataStore { inner: TextMap::new() };
        assert(s.data() =~= Map::empty());
        s
    }
}

impl BtnMetadataStore for InMemoryMetadataStore {
    closed spec fn data(&self) -> Map<Seq<char>, Seq<char>> {
        self.inner@.map_values(|s: String| s@)
    }

    fn get(&self, key: &str) -> (r: Option<String>) {
        match self.inner.get(key) {
            Some(text) => Some(text.clone()),
            None => None,
        }
    }

    fn set(&mut self, key: &str, value: &str) {
        let ghost before = self.inner@;
        let _ = self.inner.insert(key.to_string(), value.to_string());
        assert(self.data() =~= before.map_values(|s: String| s@).insert(key@, value@));
    }
}

} // verus!
