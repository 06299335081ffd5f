use vstd::prelude::*;
use crate::commun_utils::collection::iter_step;
use crate::fs_handler::payload_request::DataFile;

verus! {

/// A borrowed run of files to send.
pub struct PayloadCollection<'collection> {
    payloads: &'collection [DataFile],
}

impl<'collection> PayloadCollection<'collection> {
    pub closed spec fn items(&self) -> Seq<DataFile> {
        self.payloads@
    }

    pub fn from(buffer: &'collection mut Vec<DataFile>) -> (r: Self)
        ensures
            r.items() == old(buffer)@,
            final(buffer)@ == old(buffer)@,
    {
        let shared: &'collection Vec<DataFile> = buffer;
        PayloadCollection { payloads: shared.as_slice() }
    }

    pub fn iter(&'collection self) -> (r: PayloadIterator<'collection>)
        ensures
            r.index() == 0,
            r.capacity_allocate() == 0,
            r.items() == self.items(),
    {
        PayloadIterator::new(self)
    }
}

/// Walks a `PayloadCollection` and adds up the memory its files will take.
pub struct PayloadIterator<'collection> {
    index: usize,
    capacity_allocate: u64,
    payload_collection: &'collection PayloadCollection<'collection>,
}

impl<'collection> PayloadIterator<'collection> {
    pub closed spec fn index(&self) -> nat {
        self.index as nat
    }

    pub closed spec fn capacity_allocate(&self) -> u64 {
        self.capacity_allocate
    }

    pub closed spec fn items(&self) -> Seq<DataFile> {
        self.payload_collection.items()
    }

    fn new(payload_collection: &'collection PayloadCollection<'collection>) -> (r: Self)
        ensures
            r.index() == 0,
            r.capacity_allocate() == 0,
            r.items() == payload_collection.items(),
    {
        PayloadIterator { index: 0, capacity_allocate: 0, payload_collection }
    }

    /// Adds `capacity` bytes to the running total.
    pub fn add_capacity_to_allocate(&mut self, capacity: u64)
        requires
            old(self).capacity_allocate() + capacity <= u64::MAX,
        ensures
            final(self).capacity_allocate() == old(self).capacity_allocate() + capacity,
            final(self).index() == old(self).index(),
            final(self).items() == old(self).items(),
    {
        self.capacity_allocate = self.capacity_allocate + capacity;
    }

    fn is_valid(&self) -> (r: bool)
        ensures
            r == (self.index() < self.items().len()),
    {
        self.index < self.payload_collection.payloads.len()
    }

    /// The running total as a `usize`, when it fits.
    pub fn try_get_capacity_allocate(&mut self) -> (r: Result<usize, core::num::TryFromIntError>)
        ensures
            r is Ok <==> old(self).capacity_allocate() <= usize::MAX,
            r matches Ok(n) ==> n == old(self).capacity_allocate(),
            *final(self) == *old(self),
    {
        self.capacity_allocate.try_into()
    }

    /// Starts the walk again from the first file; the total is kept.
    pub fn reverse(&mut self)
        ensures
            final(self).index() == 0,
            final(self).capacity_allocate() == old(self).capacity_allocate(),
            final(self).items() == old(self).items(),
    {
        self.index = 0;
    }

    pub fn next(&mut self) -> (r: Option<&'collection DataFile>)
        ensures
            (final(self).index(), match r { Some(d) => Some(*d), None => None::<DataFile> })
                == iter_step(old(self).index(), old(self).items()),
            final(self).capacity_allocate() == old(self).capacity_allocate(),
            final(self).items() == old(self).items(),
    {
        if self.index < self.payload_collection.payloads.len() {
            let payload_request = Some(&self.payload_collection.payloads[self.index]);
            self.index += 1;
            return payload_request;
        }
        None
    }
}

} // verus!
