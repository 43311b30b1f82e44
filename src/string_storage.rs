//! The map that holds the string store's values.

use crate::table::KeyTable;
use crate::value::{bytes_clone, bytes_content};
use bytes::Bytes;
use vstd::prelude::*;

verus! {

#[derive(Debug)]
pub struct StringStorage {
    entries: KeyTable<Bytes>,
}

impl View for StringStorage {
    type V = Map<Seq<char>, Seq<u8>>;

    closed spec fn view(&self) -> Map<Seq<char>, Seq<u8>> {
        self.entries.view().map_values(|b: Bytes| bytes_content(b))
    }
}

impl StringStorage {
    pub closed spec fn wf(&self) -> bool {
        self.entries.wf()
    }

    pub fn new() -> (r: StringStorage)
        ensures
            r.wf(),
            r@ == Map::<Seq<char>, Seq<u8>>::empty(),
    {
        let r = StringStorage { entries: KeyTable::new() };
        assert(r@ =~= Map::<Seq<char>, Seq<u8>>::empty());
        r
    }

    /// The value under `key`, as a new handle on the same bytes.
    pub fn get(&self, key: &str) -> (r: Option<Bytes>)
        requires
            self.wf(),
        ensures
            match r {
                Some(b) => self@.contains_key(key@) && bytes_content(b) == self@[key@],
                None => !self@.contains_key(key@),
            },
    {
        match self.entries.get(key) {
            Some(b) => Some(bytes_clone(b)),
            None => None,
        }
    }

    pub fn set(&mut self, key: &str, value: &Bytes)
        requires
            old(self).wf(),
        ensures
            final(self).wf(),
            final(self)@ == old(self)@.insert(key@, bytes_content(*value)),
    {
        self.entries.insert(key.to_owned(), bytes_clone(value));
        assert(self@ =~= old(self)@.insert(key@, bytes_content(*value)));
    }

    /// Removes `key`; answers whether it was present.
    pub fn del(&mut self, key: &str) -> (r: bool)
        requires
            old(self).wf(),
        ensures
            final(self).wf(),
            final(self)@ == old(self)@.remove(key@),
            r == old(self)@.contains_key(key@),
    {
        let removed = self.entries.remove(key);
        assert(self@ =~= old(self)@.remove(key@));
        removed.is_some()
    }

    pub fn contains(&self, key: &str) -> (r: bool)
        requires
            self.wf(),
        ensures
            r == self@.contains_key(key@),
    {
        let r = self.entries.contains(key);
        assert(self.entries.view().contains_key(key@) == self@.contains_key(key@));
        r
    }
}

} // verus!
