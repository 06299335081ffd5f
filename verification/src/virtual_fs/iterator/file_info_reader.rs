use vstd::prelude::*;
use crate::virtual_fs::iterator::cached_data::{CachedFile, IndexAccessor, last_index_of};

verus! {

/// The files served by reading them from disk, found by their real path.
pub struct PayloadCollection {
    payloads: Vec<CachedFile>,
    accesor: IndexAccessor,
}

impl PayloadCollection {
    /// One key per file.
    #[verifier::type_invariant]
    spec fn inv(self) -> bool {
        self.accesor.keys().len() == self.payloads@.len()
    }

    pub closed spec fn payloads(&self) -> Seq<CachedFile> {
        self.payloads@
    }

    pub closed spec fn keys(&self) -> Seq<Seq<char>> {
        self.accesor.keys()
    }

    /// Keeps the files, each numbered by its position and found by its
    /// real path.
    pub fn from(data_files: Vec<CachedFile>) -> (r: Self)
        ensures
            r.payloads() == data_files@,
            r.keys() == data_files@.map_values(|f: CachedFile| f.parent().inner().inner()),
    {
        let mut accessor = IndexAccessor::default();
        let mut i: usize = 0;
        while i < data_files.len()
            invariant
                i <= data_files.len(),
                accessor.keys() =~= data_files@.map_values(|f: CachedFile| f.parent().inner().inner()).take(i as int),
            decreases data_files.len() - i,
        {
            let url = data_files[i].deref().get_string_lossy_url().to_string();
            accessor.append_index(url);
            assert(data_files@.map_values(|f: CachedFile| f.parent().inner().inner()).take(i + 1)
                =~= data_files@.map_values(|f: CachedFile| f.parent().inner().inner()).take(i as int).push(url@));
            i += 1;
        }
        assert(data_files@.map_values(|f: CachedFile| f.parent().inner().inner()).take(i as int)
            =~= data_files@.map_values(|f: CachedFile| f.parent().inner().inner()));
        PayloadCollection { payloads: data_files, accesor: accessor }
    }

    pub fn iter(&self) -> (r: PayloadIterator<'_>)
        ensures
            r.position() == 0,
            r.collection() == self,
    {
        PayloadIterator::new(self)
    }
}

/// Walks the files read on request one by one.
pub struct PayloadIterator<'a> {
    index: usize,
    payload_collection: &'a PayloadCollection,
}

impl<'a> PayloadIterator<'a> {
    pub closed spec fn position(&self) -> usize {
        self.index
    }

    pub closed spec fn collection(&self) -> &'a PayloadCollection {
        self.payload_collection
    }

    fn new(payload_collection: &'a PayloadCollection) -> (r: Self)
        ensures
            r.position() == 0,
            r.collection() == payload_collection,
    {
        PayloadIterator { index: 0, payload_collection }
    }

    fn is_valid(&self) -> (r: bool)
        ensures
            r == (self.position() < self.collection().payloads().len()),
            self.collection().payloads().len() <= usize::MAX,
    {
        self.index < self.payload_collection.payloads.len()
    }

    /// The next file, or `None` once every file was given.
    pub fn next(&mut self) -> (r: Option<&'a CachedFile>)
        ensures
            final(self).collection() == old(self).collection(),
            old(self).position() < old(self).collection().payloads().len() ==> (final(self).position()
                == old(self).position() + 1 && r == Some(&old(self).collection().payloads()[old(self).position() as int])),
            old(self).position() >= old(self).collection().payloads().len() ==> (r is None
                && final(self).position() == old(self).position()),
    {
        if self.is_valid() {
            let payload_request = &self.payload_collection.payloads[self.index];
            self.index += 1;
            return Some(payload_request);
        }
        None
    }

    /// The file last added under `url`.
    pub fn search(&self, url: &String) -> (r: Option<&'a CachedFile>)
        ensures
            match last_index_of(self.collection().keys(), url@) {
                Some(i) => r == Some(&self.collection().payloads()[i as int]),
                None => r is None,
            },
    {
        proof { use_type_invariant(self.payload_collection); }
        let count = self.payload_collection.payloads.len();
        proof { assert(self.collection().keys().len() == count); }
        match self.payload_collection.accesor.get_index(url) {
            Some(index) => Some(&self.payload_collection.payloads[index]),
            None => None,
        }
    }
}

} // verus!
