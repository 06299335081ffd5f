use vstd::prelude::*;
use crate::commun_utils::fs_strategies::buffers_view;
use crate::fs_handler::json_struct::JsonInfo;
use crate::virtual_fs::errors::GlobalError;
use crate::virtual_fs::iterator::cached_data::{IndexAccessor, last_index_of, lemma_distinct_key_found};
use crate::virtual_fs::iterator::utils::{contiguous_from_zero, lemma_append_keeps_contiguous};

verus! {

/// The pieces the first `n` headers announce, added up.
pub open spec fn total_chunks(infos: Seq<JsonInfo>, n: nat) -> nat
    decreases n,
{
    if n == 0 {
        0
    } else {
        total_chunks(infos, (n - 1) as nat) + infos[n - 1].chunks() as nat
    }
}

/// The slice of buffers each header owns: as many as it announces, from
/// where the previous one's stopped.
pub open spec fn announced_slices(infos: Seq<JsonInfo>, n: nat) -> Seq<(usize, usize)>
    decreases n,
{
    if n == 0 {
        Seq::empty()
    } else {
        announced_slices(infos, (n - 1) as nat).push(
            (total_chunks(infos, (n - 1) as nat) as usize, total_chunks(infos, n) as usize),
        )
    }
}

/// Slices built header by header are contiguous, and each spans the pieces
/// its header announces.
proof fn lemma_announced_slices(infos: Seq<JsonInfo>, n: nat)
    requires
        n <= infos.len(),
        total_chunks(infos, n) <= usize::MAX,
    ensures
        announced_slices(infos, n).len() == n,
        contiguous_from_zero(announced_slices(infos, n), total_chunks(infos, n)),
        forall|m: nat| m <= n ==> #[trigger] total_chunks(infos, m) <= total_chunks(infos, n),
        forall|i: int| 0 <= i < n ==> #[trigger] announced_slices(infos, n)[i] == (
            total_chunks(infos, i as nat) as usize,
            total_chunks(infos, (i + 1) as nat) as usize,
        ),
    decreases n,
{
    if n > 0 {
        lemma_announced_slices(infos, (n - 1) as nat);
        assert forall|i: int| 0 <= i < n implies #[trigger] announced_slices(infos, n)[i] == (
            total_chunks(infos, i as nat) as usize,
            total_chunks(infos, (i + 1) as nat) as usize,
        ) by {
            if i < n - 1 {
                assert(announced_slices(infos, n)[i] == announced_slices(infos, (n - 1) as nat)[i]);
            }
        }
        lemma_append_keeps_contiguous(
            announced_slices(infos, (n - 1) as nat),
            total_chunks(infos, (n - 1) as nat) as usize,
            infos[n - 1].chunks(),
        );
    }
}

proof fn lemma_total_monotonic(infos: Seq<JsonInfo>, m: nat, n: nat)
    requires
        m <= n,
    ensures
        total_chunks(infos, m) <= total_chunks(infos, n),
    decreases n,
{
    if m < n {
        lemma_total_monotonic(infos, m, (n - 1) as nat);
    }
}

proof fn lemma_announced_len(infos: Seq<JsonInfo>, n: nat)
    ensures
        announced_slices(infos, n).len() == n,
    decreases n,
{
    if n > 0 {
        lemma_announced_len(infos, (n - 1) as nat);
    }
}

/// The slice of the i-th header starts where the pieces of the earlier
/// ones end, and spans its own.
proof fn lemma_slice_at(infos: Seq<JsonInfo>, n: nat, i: int)
    requires
        0 <= i < n,
    ensures
        announced_slices(infos, n)[i] == (
            total_chunks(infos, i as nat) as usize,
            total_chunks(infos, (i + 1) as nat) as usize,
        ),
    decreases n,
{
    let prev = announced_slices(infos, (n - 1) as nat);
    lemma_announced_len(infos, (n - 1) as nat);
    assert(announced_slices(infos, n) == prev.push(
        (total_chunks(infos, (n - 1) as nat) as usize, total_chunks(infos, n) as usize),
    ));
    if i < n - 1 {
        lemma_slice_at(infos, (n - 1) as nat, i);
        assert(announced_slices(infos, n)[i] == prev[i]);
    } else {
        assert(i + 1 == n);
        assert(announced_slices(infos, n)[i] == (total_chunks(infos, (n - 1) as nat) as usize, total_chunks(infos, n) as usize));
        assert((i + 1) as nat == n);
        assert(i as nat == (n - 1) as nat);
    }
}

/// When the headers' paths are distinct, the i-th file the iterator gives
/// is the one `search` finds under that file's path: `search` answers for
/// the header numbered `i`, whose slice, text header and header `next`
/// gives in i-th place.
pub proof fn lemma_iteration_matches_search(c: TcpSharedContentCollection, i: int)
    requires
        c.keys() == c.infos().map_values(|j: JsonInfo| j.url()),
        c.keys().no_duplicates(),
        0 <= i < c.infos().len(),
    ensures
        last_index_of(c.keys(), c.infos()[i].url()) == Some(i as nat),
{
    assert(c.keys()[i] == c.infos()[i].url());
    lemma_distinct_key_found(c.keys(), i);
}

/// Files shared with the sandbox: their buffers, their headers as text and
/// as values, found by path.
pub struct TcpSharedContentCollection<'a> {
    data: &'a Vec<Vec<u8>>,
    payloads: &'a Vec<String>,
    json_payloads: &'a Vec<JsonInfo>,
    index: IndexAccessor,
    slice_data: Vec<(usize, usize)>,
}

impl<'a> TcpSharedContentCollection<'a> {
    /// One key and one slice per header, as the headers announce.
    #[verifier::type_invariant]
    spec fn inv(self) -> bool {
        &&& self.index.keys().len() == self.json_payloads@.len()
        &&& total_chunks(self.json_payloads@, self.json_payloads@.len()) <= usize::MAX
        &&& self.slice_data@ == announced_slices(self.json_payloads@, self.json_payloads@.len())
    }

    pub closed spec fn data(&self) -> Seq<Seq<u8>> {
        buffers_view(self.data@)
    }

    pub closed spec fn payloads(&self) -> Seq<Seq<char>> {
        self.payloads@.map_values(|s: String| s@)
    }

    pub closed spec fn infos(&self) -> Seq<JsonInfo> {
        self.json_payloads@
    }

    pub closed spec fn keys(&self) -> Seq<Seq<char>> {
        self.index.keys()
    }

    pub closed spec fn slices(&self) -> Seq<(usize, usize)> {
        self.slice_data@
    }

    /// Whether the file numbered `i` can be handed out: it has a header
    /// and a text header, and the buffers its header announces are there.
    pub open spec fn item_in_bounds(&self, i: int) -> bool {
        &&& 0 <= i < self.infos().len()
        &&& i < self.payloads().len()
        &&& self.slices()[i].1 <= self.data().len()
    }

    /// Indexes the shared files by the paths of their headers (a later
    /// header replacing an earlier one under the same path) and gives each
    /// the slice of buffers its header announces. `UninitializedVariable`
    /// when a part is missing.
    pub fn new(
        data: Option<&'a Vec<Vec<u8>>>,
        payloads: Option<&'a Vec<String>>,
        json_payloads: Option<&'a Vec<JsonInfo>>,
    ) -> (r: Result<Self, GlobalError>)
        requires
            json_payloads matches Some(j) ==> total_chunks(j@, j@.len()) <= usize::MAX,
        ensures
            match (data, payloads, json_payloads) {
                (Some(d), Some(p), Some(j)) => r matches Ok(c) && {
                    &&& c.data() == buffers_view(d@)
                    &&& c.payloads() == p@.map_values(|s: String| s@)
                    &&& c.infos() == j@
                    &&& c.keys() == j@.map_values(|i: JsonInfo| i.url())
                    &&& c.slices() == announced_slices(j@, j@.len())
                },
                _ => r matches Err(GlobalError::UninitializedVariable),
            },
    {
        match (data, payloads, json_payloads) {
            (Some(data), Some(payloads), Some(json_payloads)) => {
                let mut hash = IndexAccessor::default();
                let mut data_slice: Vec<(usize, usize)> = Vec::new();
                let mut index_data: usize = 0;
                let mut index: usize = 0;
                proof { lemma_announced_slices(json_payloads@, json_payloads@.len()); }
                while index < json_payloads.len()
                    invariant
                        index <= json_payloads@.len(),
                        total_chunks(json_payloads@, json_payloads@.len()) <= usize::MAX,
                        forall|m: nat| m <= json_payloads@.len() ==> #[trigger] total_chunks(json_payloads@, m)
                            <= total_chunks(json_payloads@, json_payloads@.len()),
                        index_data == total_chunks(json_payloads@, index as nat),
                        data_slice@ == announced_slices(json_payloads@, index as nat),
                        hash.keys() =~= json_payloads@.map_values(|i: JsonInfo| i.url()).take(index as int),
                    decreases json_payloads@.len() - index,
                {
                    let payload = &json_payloads[index];
                    let url = payload.get_url().to_string();
                    hash.append_index(url);
                    assert(json_payloads@.map_values(|i: JsonInfo| i.url()).take(index + 1)
                        =~= json_payloads@.map_values(|i: JsonInfo| i.url()).take(index as int).push(payload.url()));
                    assert(total_chunks(json_payloads@, (index + 1) as nat) <= usize::MAX);
                    let slice_end: usize = index_data + payload.get_chunks();
                    data_slice.push((index_data, slice_end));
                    index_data = slice_end;
                    index += 1;
                }
                assert(json_payloads@.map_values(|i: JsonInfo| i.url()).take(index as int)
                    =~= json_payloads@.map_values(|i: JsonInfo| i.url()));
                Ok(TcpSharedContentCollection { data, payloads, json_payloads, index: hash, slice_data: data_slice })
            },
            _ => Err(GlobalError::UninitializedVariable),
        }
    }

    /// The slice of the file numbered `i` starts where the earlier files'
    /// pieces end and spans its own.
    fn slice_facts(&self, i: usize)
        requires
            i < self.infos().len(),
        ensures
            self.keys().len() == self.infos().len(),
            self.slices().len() == self.infos().len(),
            self.slices()[i as int] == (
                total_chunks(self.infos(), i as nat) as usize,
                total_chunks(self.infos(), (i + 1) as nat) as usize,
            ),
            total_chunks(self.infos(), (i + 1) as nat) == total_chunks(self.infos(), i as nat) + self.infos()[i as int].chunks(),
            total_chunks(self.infos(), (i + 1) as nat) <= usize::MAX,
            self.slices()[i as int].0 <= self.slices()[i as int].1,
    {
        proof {
            use_type_invariant(self);
            lemma_announced_len(self.infos(), self.infos().len());
            lemma_slice_at(self.infos(), self.infos().len(), i as int);
            lemma_total_monotonic(self.infos(), (i + 1) as nat, self.infos().len());
        }
    }

    /// The buffers, text header and header of the file numbered `index`.
    fn item(&self, index: usize) -> (r: (&'a [Vec<u8>], &'a String, &'a JsonInfo))
        requires
            self.item_in_bounds(index as int),
        ensures
            buffers_view(r.0@) == self.data().subrange(self.slices()[index as int].0 as int, self.slices()[index as int].1 as int),
            r.1@ == self.payloads()[index as int],
            *r.2 == self.infos()[index as int],
    {
        self.slice_facts(index);
        let (start, end) = self.slice_data[index];
        let data: &'a Vec<Vec<u8>> = self.data;
        let slice = &data.as_slice()[start..end];
        proof { assert(buffers_view(slice@) =~= self.data().subrange(start as int, end as int)); }
        let payloads: &'a Vec<String> = self.payloads;
        let infos: &'a Vec<JsonInfo> = self.json_payloads;
        (slice, &payloads[index], &infos[index])
    }

    /// The file last indexed under `url`; `None` when no header has that
    /// path.
    pub fn search(&self, url: &String) -> (r: Option<(&'a [Vec<u8>], &'a String, &'a JsonInfo)>)
        requires
            last_index_of(self.keys(), url@) matches Some(i) ==> self.item_in_bounds(i as int),
        ensures
            match last_index_of(self.keys(), url@) {
                Some(i) => r matches Some((d, p, j)) && {
                    &&& buffers_view(d@) == self.data().subrange(self.slices()[i as int].0 as int, self.slices()[i as int].1 as int)
                    &&& p@ == self.payloads()[i as int]
                    &&& *j == self.infos()[i as int]
                },
                None => r is None,
            },
    {
        let count = self.json_payloads.len();
        proof {
            use_type_invariant(self);
            assert(self.keys().len() == count);
        }
        match self.index.get_index(url) {
            Some(i) => Some(self.item(i)),
            None => None,
        }
    }

    pub fn iter(&self) -> (r: TcpSharedContentIterator<'_, 'a>)
        ensures
            r.position() == 0,
            r.collection() == self,
    {
        TcpSharedContentIterator::new(self)
    }
}

/// Walks the shared files one by one.
pub struct TcpSharedContentIterator<'c, 'a> {
    index_slice_data: usize,
    index: usize,
    shared_content_collection: &'c TcpSharedContentCollection<'a>,
}

impl<'c, 'a> TcpSharedContentIterator<'c, 'a> {
    #[verifier::type_invariant]
    spec fn inv(self) -> bool {
        self.index <= self.shared_content_collection.infos().len() ==>
            self.index_slice_data == total_chunks(self.shared_content_collection.infos(), self.index as nat)
    }

    pub closed spec fn position(&self) -> usize {
        self.index
    }

    pub closed spec fn collection(&self) -> &'c TcpSharedContentCollection<'a> {
        self.shared_content_collection
    }

    fn new(payload_collection: &'c TcpSharedContentCollection<'a>) -> (r: Self)
        ensures
            r.position() == 0,
            r.collection() == payload_collection,
    {
        TcpSharedContentIterator { index: 0, index_slice_data: 0, shared_content_collection: payload_collection }
    }

    fn is_valid(&self) -> (r: bool)
        ensures
            r == (self.position() < self.collection().payloads().len()),
            self.collection().payloads().len() <= usize::MAX,
    {
        self.index < self.shared_content_collection.payloads.len()
    }

    /// The next file's buffers, text header and header, or `None` once
    /// every text header was given.
    pub fn next(&mut self) -> (r: Option<(&'a [Vec<u8>], &'a String, &'a JsonInfo)>)
        requires
            old(self).position() < old(self).collection().payloads().len()
                ==> old(self).collection().item_in_bounds(old(self).position() as int),
        ensures
            final(self).collection() == old(self).collection(),
            old(self).position() < old(self).collection().payloads().len() ==> {
                let i = old(self).position() as int;
                let c = old(self).collection();
                &&& final(self).position() == i + 1
                &&& r matches Some((d, p, j))
                &&& buffers_view(d@) == c.data().subrange(c.slices()[i].0 as int, c.slices()[i].1 as int)
                &&& p@ == c.payloads()[i]
                &&& *j == c.infos()[i]
            },
            old(self).position() >= old(self).collection().payloads().len() ==> (r is None
                && final(self).position() == old(self).position()),
    {
        proof { use_type_invariant(&*self); }
        if self.is_valid() {
            let collection = self.shared_content_collection;
            let i = self.index;
            collection.slice_facts(i);
            let start = self.index_slice_data;
            let chunks = collection.json_payloads[i].get_chunks();
            let chunk_to_add = start + chunks;
            let data: &'a Vec<Vec<u8>> = collection.data;
            let data_current = &data.as_slice()[start..chunk_to_add];
            proof { assert(buffers_view(data_current@) =~= collection.data().subrange(start as int, chunk_to_add as int)); }
            let payloads: &'a Vec<String> = collection.payloads;
            let infos: &'a Vec<JsonInfo> = collection.json_payloads;
            let payload = &payloads[i];
            let json = &infos[i];
            *self = TcpSharedContentIterator { index_slice_data: chunk_to_add, index: i + 1, shared_content_collection: collection };
            return Some((data_current, payload, json));
        }
        None
    }
}

} // verus!
