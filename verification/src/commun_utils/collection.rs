use vstd::prelude::*;

verus! {

/// What an index-based iterator does on one call of `next`: the item at the
/// cursor and the cursor moved on, or nothing once the items run out.
pub open spec fn iter_step<X>(index: nat, items: Seq<X>) -> (nat, Option<X>) {
    if index < items.len() {
        ((index + 1) as nat, Some(items[index as int]))
    } else {
        (index, None)
    }
}

/// What repeated calls of `next` yield from `index` until the first `None`.
pub open spec fn drain<X>(index: nat, items: Seq<X>) -> Seq<X>
    decreases items.len() - index,
{
    if index < items.len() {
        seq![items[index as int]] + drain((index + 1) as nat, items)
    } else {
        Seq::empty()
    }
}

/// Driving an iterator from its start until it returns `None` yields every
/// item of its collection, once, in order.
pub proof fn lemma_drain_yields_items<X>(items: Seq<X>)
    ensures
        drain(0, items) == items,
{
    lemma_drain_suffix(0, items);
    assert(items.subrange(0, items.len() as int) == items);
}

pub proof fn lemma_drain_suffix<X>(index: nat, items: Seq<X>)
    requires
        index <= items.len(),
    ensures
        drain(index, items) == items.subrange(index as int, items.len() as int),
    decreases items.len() - index,
{
    if index < items.len() {
        lemma_drain_suffix((index + 1) as nat, items);
        assert(seq![items[index as int]] + items.subrange(index as int + 1, items.len() as int)
            == items.subrange(index as int, items.len() as int));
    }
}

/// A collection of borrowed items.
pub struct GenericCollection<'a, T> {
    payloads: Vec<&'a T>,
}

impl<'a, T> GenericCollection<'a, T> {
    pub closed spec fn items(&self) -> Seq<&'a T> {
        self.payloads@
    }

    pub fn from(data_files: Vec<&'a T>) -> (r: Self)
        ensures
            r.items() == data_files@,
    {
        GenericCollection { payloads: data_files }
    }

    pub fn default() -> (r: Self)
        ensures
            r.items() == Seq::<&'a T>::empty(),
    {
        GenericCollection { payloads: Vec::new() }
    }

    pub fn len(&self) -> (r: usize)
        ensures
            r == self.items().len(),
    {
        self.payloads.len()
    }
}

/// A collection that can be walked, grown by one item, or grown by a slice.
pub trait Collection<'collection, I> {
    type Iter;

    spec fn spec_items(&self) -> Seq<I>;

    fn iter(&'collection self) -> Box<Self::Iter>;

    fn add(&mut self, item: I)
        ensures
            final(self).spec_items() == old(self).spec_items().push(item),
    ;

    fn extend(&mut self, items: &[I])
        ensures
            final(self).spec_items() == old(self).spec_items() + items@,
    ;
}

impl<'collection, T> Collection<'collection, &'collection T> for GenericCollection<'collection, T> {
    type Iter = DataIterator<'collection, T>;

    open spec fn spec_items(&self) -> Seq<&'collection T> {
        self.items()
    }

    fn iter(&'collection self) -> (r: Box<Self::Iter>)
        ensures
            r.index() == 0,
            r.items() == self.items(),
    {
        Box::new(DataIterator::new(self))
    }

    fn add(&mut self, item: &'collection T) {
        self.payloads.push(item);
    }

    fn extend(&mut self, items: &[&'collection T]) {
        let ghost start = self.payloads@;
        let mut i: usize = 0;
        while i < items.len()
            invariant
                i <= items@.len(),
                self.payloads@ == start + items@.subrange(0, i as int),
            decreases items@.len() - i,
        {
            self.payloads.push(items[i]);
            i += 1;
            assert(start + items@.subrange(0, i as int) == (start + items@.subrange(0, i - 1)).push(items@[i - 1]));
        }
        assert(items@.subrange(0, items@.len() as int) == items@);
    }
}

/// Walks a `GenericCollection` from its first item.
pub struct DataIterator<'iter, T> {
    index: usize,
    payload_collection: &'iter GenericCollection<'iter, T>,
}

impl<'iter, T> DataIterator<'iter, T> {
    pub closed spec fn index(&self) -> nat {
        self.index as nat
    }

    pub closed spec fn items(&self) -> Seq<&'iter T> {
        self.payload_collection.items()
    }

    pub fn new(payload_collection: &'iter GenericCollection<'iter, T>) -> (r: Self)
        ensures
            r.index() == 0,
            r.items() == payload_collection.items(),
    {
        DataIterator { index: 0, payload_collection }
    }

    pub fn is_valid(&self) -> (r: bool)
        ensures
            r == (self.index() < self.items().len()),
    {
        self.index < self.payload_collection.payloads.len()
    }

    pub fn next(&mut self) -> (r: Option<&'iter T>)
        ensures
            (final(self).index(), r) == iter_step(old(self).index(), old(self).items()),
            final(self).items() == old(self).items(),
    {
        if self.index < self.payload_collection.payloads.len() {
            let payload_request = Some(self.payload_collection.payloads[self.index]);
            self.index += 1;
            return payload_request;
        }
        None
    }
}

} // verus!
