use vstd::prelude::*;
use crate::commun_utils::collection::iter_step;

verus! {

/// An owned collection of items.
pub struct DataCollection<T> {
    payloads: Vec<T>,
}

impl<T> DataCollection<T> {
    pub closed spec fn items(&self) -> Seq<T> {
        self.payloads@
    }

    pub fn from(data_files: Vec<T>) -> (r: Self)
        ensures
            r.items() == data_files@,
    {
        DataCollection { payloads: data_files }
    }
}

/// A collection that can be walked.
pub trait Collection<'collection, I> {
    type Iter;

    spec fn spec_items(&self) -> Seq<I>;

    fn iter(&'collection self) -> Box<Self::Iter>;
}

impl<'collection, T> Collection<'collection, &'collection T> for DataCollection<T> {
    type Iter = DataIterator<'collection, T>;

    open spec fn spec_items(&self) -> Seq<&'collection T> {
        self.items().map_values(|t: T| &t)
    }

    fn iter(&'collection self) -> (r: Box<Self::Iter>)
        ensures
            r.index() == 0,
            r.items() == self.items(),
    {
        Box::new(DataIterator::new(self))
    }
}

/// Walks a `DataCollection` from its first item.
pub struct DataIterator<'iter, T> {
    index: usize,
    payload_collection: &'iter DataCollection<T>,
}

impl<'iter, T> DataIterator<'iter, T> {
    pub closed spec fn index(&self) -> nat {
        self.index as nat
    }

    pub closed spec fn items(&self) -> Seq<T> {
        self.payload_collection.items()
    }

    pub fn new(payload_collection: &'iter DataCollection<T>) -> (r: Self)
        ensures
            r.index() == 0,
            r.items() == payload_collection.items(),
    {
        DataIterator { index: 0, payload_collection }
    }

    pub fn is_valid(&self) -> (r: bool)
        ensures
            r == (self.index() < self.items().len()),
    {
        self.index < self.payload_collection.payloads.len()
    }

    pub fn next(&mut self) -> (r: Option<&'iter T>)
        ensures
            (final(self).index(), match r { Some(d) => Some(*d), None => None::<T> })
                == iter_step(old(self).index(), old(self).items()),
            final(self).items() == old(self).items(),
    {
        if self.index < self.payload_collection.payloads.len() {
            let payload_request = Some(&self.payload_collection.payloads[self.index]);
            self.index += 1;
            return payload_request;
        }
        None
    }
}

} // verus!
