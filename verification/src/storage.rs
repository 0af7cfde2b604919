//! The content tree: the stored bytes of every pushed file.
//!
//! Entries of the ledger point into this store through their
//! `storage_location`. The protocol only ever writes whole objects and
//! reads them back verbatim; an object can vanish only outside the
//! protocol, and a later pull surfaces that divergence as an integrity
//! fault instead of returning anything.

use vstd::hash_map::StringHashMap;
use vstd::prelude::*;

verus! {

/// Stored file bytes, keyed by storage location.
pub struct FileStore {
    m: StringHashMap<Vec<u8>>,
}

impl View for FileStore {
    type V = Map<Seq<char>, Seq<u8>>;

    closed spec fn view(&self) -> Map<Seq<char>, Seq<u8>> {
        self.m@.map_values(|bytes: Vec<u8>| bytes@)
    }
}

impl FileStore {
    /// An empty store.
    pub fn new() -> (store: FileStore)
        ensures
            store@ == Map::<Seq<char>, Seq<u8>>::empty(),
    {
        let store = FileStore { m: StringHashMap::new() };
        proof {
            assert(store@ =~= Map::<Seq<char>, Seq<u8>>::empty());
        }
        store
    }

    /// Writes one object whole, replacing whatever the location held.
    pub fn write(&mut self, location: String, bytes: Vec<u8>)
        ensures
            final(self)@ == old(self)@.insert(location@, bytes@),
    {
        let ghost contents = bytes@;
        self.m.insert(location, bytes);
        proof {
            assert(self@ =~= old(self)@.insert(location@, contents));
        }
    }

    /// Reads an object back verbatim, or reports that the location holds
    /// nothing.
    pub fn read(&self, location: &String) -> (result: Option<Vec<u8>>)
        ensures
            (match result {
                Some(bytes) => self@.contains_key(location@) && bytes@ == self@[location@],
                None => !self@.contains_key(location@),
            }),
    {
        match self.m.get(location.as_str()) {
            None => None,
            Some(stored) => {
                let bytes = stored.clone();
                proof {
                    assert(forall|i: int|
                        0 <= i < stored@.len() ==> stored@[i] == #[trigger] bytes@[i]);
                    assert(bytes@ =~= stored@);
                }
                Some(bytes)
            },
        }
    }

    /// Whether the location holds an object.
    pub fn contains(&self, location: &String) -> (present: bool)
        ensures
            present == self@.contains_key(location@),
    {
        self.m.contains_key(location.as_str())
    }

    /// Discards the object at a location, if any. The protocol never calls
    /// this: it models the loss of a backing file outside the protocol — a
    /// crash mid-write, or manual deletion — which a later pull must surface
    /// as an integrity fault.
    pub fn discard(&mut self, location: &String)
        ensures
            final(self)@ == old(self)@.remove(location@),
    {
        self.m.remove(location.as_str());
        proof {
            assert(self@ =~= old(self)@.remove(location@));
        }
    }
}

} // verus!
