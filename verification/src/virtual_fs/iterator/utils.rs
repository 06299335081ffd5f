use vstd::prelude::*;

verus! {

/// An item a client can ask for.
pub trait SearchableItem {
}

/// Consecutive slices `[start, end)` of a buffer list, starting at zero,
/// each beginning where the previous one ended.
pub open spec fn contiguous_from_zero(slices: Seq<(usize, usize)>, end: nat) -> bool {
    &&& forall|i: int| 0 <= i < slices.len() ==> (#[trigger] slices[i]).0 <= slices[i].1
    &&& slices.len() > 0 ==> slices[0].0 == 0
    &&& forall|i: int| 0 < i < slices.len() ==> (#[trigger] slices[i]).0 == slices[i - 1].1
    &&& end == (if slices.len() == 0 { 0 } else { slices.last().1 as nat })
}

/// Hands out consecutive slices of a buffer list.
#[derive(Debug)]
pub struct IndexSliceHelper {
    len_slice: usize,
}

impl IndexSliceHelper {
    pub closed spec fn len_slice(&self) -> usize {
        self.len_slice
    }

    pub fn default() -> (r: Self)
        ensures
            r.len_slice() == 0,
    {
        IndexSliceHelper { len_slice: 0 }
    }

    /// Appends the slice of the next `slice_gap` buffers.
    pub fn append_slice(&mut self, slice_gap: usize, slice: &mut Vec<(usize, usize)>)
        requires
            old(self).len_slice() + slice_gap <= usize::MAX,
        ensures
            final(slice)@ == old(slice)@.push((old(self).len_slice(), (old(self).len_slice() + slice_gap) as usize)),
            final(self).len_slice() == old(self).len_slice() + slice_gap,
    {
        let slice_end: usize = self.len_slice + slice_gap;
        slice.push((self.len_slice, slice_end));
        self.len_slice = slice_end;
    }
}

/// Slices handed out one after the other stay contiguous.
pub proof fn lemma_append_keeps_contiguous(slices: Seq<(usize, usize)>, end: usize, gap: usize)
    requires
        contiguous_from_zero(slices, end as nat),
        end + gap <= usize::MAX,
    ensures
        contiguous_from_zero(slices.push((end, (end + gap) as usize)), (end + gap) as nat),
{
    let s2 = slices.push((end, (end + gap) as usize));
    assert forall|i: int| 0 < i < s2.len() implies (#[trigger] s2[i]).0 == s2[i - 1].1 by {
        if i < slices.len() {
            assert(s2[i] == slices[i]);
            assert(s2[i - 1] == slices[i - 1]);
        }
    }
}

/// A collection whose length is known.
pub trait StaticCollection {
    spec fn spec_length(&self) -> nat;

    fn length(&self) -> (r: usize)
        ensures
            r == self.spec_length(),
    ;
}

} // verus!
