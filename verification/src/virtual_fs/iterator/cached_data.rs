use vstd::prelude::*;
use crate::commun_utils::errors::GlobalError;
use crate::commun_utils::fs_strategies::{
    CHUNK_MEDIUM_SLICE, CHUNK_SMALL_SLICE, FileReader, ReadStrategy, buffers_view,
    lemma_chunks_sizes, strategy_buffers, strategy_for_len,
};
use crate::virtual_fs::iterator::utils::{contiguous_from_zero, lemma_append_keeps_contiguous};
use crate::virtual_fs::payloads::json_struct::json_info_text;
use crate::virtual_fs::payloads::payload::{DataFile, chunk_count};
use crate::virtual_fs::runtime::FakeToSubPath;

verus! {

/// An item a client can ask for.
pub trait SearchableItem {
}

/// The position of the last key equal to `key`: where a map that is
/// written key by key, later writes winning, sends it.
pub open spec fn last_index_of(keys: Seq<Seq<char>>, key: Seq<char>) -> Option<nat>
    decreases keys.len(),
{
    if keys.len() == 0 {
        None
    } else if keys.last() == key {
        Some((keys.len() - 1) as nat)
    } else {
        last_index_of(keys.drop_last(), key)
    }
}

/// Numbers keys in the order they are added; a key added again is
/// renumbered.
pub struct IndexAccessor {
    index: Vec<String>,
}

impl IndexAccessor {
    pub closed spec fn keys(&self) -> Seq<Seq<char>> {
        self.index@.map_values(|s: String| s@)
    }

    pub fn default() -> (r: Self)
        ensures
            r.keys() == Seq::<Seq<char>>::empty(),
    {
        IndexAccessor { index: Vec::new() }
    }

    /// Gives `key` the next number: the number of keys added before it,
    /// repeated keys counted. Every other key keeps its number.
    pub fn append_index(&mut self, key: String)
        ensures
            final(self).keys() == old(self).keys().push(key@),
            last_index_of(final(self).keys(), key@) == Some(old(self).keys().len()),
            forall|other: Seq<char>| other != key@ ==> #[trigger] last_index_of(final(self).keys(), other)
                == last_index_of(old(self).keys(), other),
    {
        let ghost k = key@;
        self.index.push(key);
        proof {
            assert(self.keys() =~= old(self).keys().push(k));
            lemma_get_after_append(old(self).keys(), k);
            assert forall|other: Seq<char>| other != k implies #[trigger] last_index_of(self.keys(), other)
                == last_index_of(old(self).keys(), other) by {
                lemma_append_keeps_others(old(self).keys(), k, other);
            }
        }
    }

    /// The number `key` was last given.
    pub fn get_index(&self, key: &String) -> (r: Option<usize>)
        ensures
            match last_index_of(self.keys(), key@) {
                Some(i) => r == Some(i as usize) && i < self.keys().len(),
                None => r is None,
            },
    {
        let mut i: usize = self.index.len();
        assert(self.keys().subrange(0, i as int) == self.keys());
        while i > 0
            invariant
                i <= self.index@.len(),
                last_index_of(self.keys(), key@) == last_index_of(self.keys().subrange(0, i as int), key@),
            decreases i,
        {
            let ghost sub = self.keys().subrange(0, i as int);
            assert(sub.drop_last() == self.keys().subrange(0, i - 1));
            if self.index[i - 1] == *key {
                return Some(i - 1);
            }
            i -= 1;
        }
        None
    }
}

/// A key just added is found at its new number.
pub proof fn lemma_get_after_append(keys: Seq<Seq<char>>, key: Seq<char>)
    ensures
        last_index_of(keys.push(key), key) == Some(keys.len()),
{
    assert(keys.push(key).last() == key);
}

/// Among distinct keys, each is found at its own position.
pub proof fn lemma_distinct_key_found(keys: Seq<Seq<char>>, i: int)
    requires
        keys.no_duplicates(),
        0 <= i < keys.len(),
    ensures
        last_index_of(keys, keys[i]) == Some(i as nat),
    decreases keys.len(),
{
    if keys.last() != keys[i] {
        let rest = keys.drop_last();
        assert(rest[i] == keys[i]);
        assert(rest.no_duplicates()) by {
            assert forall|a: int, b: int| 0 <= a < rest.len() && 0 <= b < rest.len() && a != b
                implies rest[a] != rest[b] by {
                assert(rest[a] == keys[a] && rest[b] == keys[b]);
            }
        }
        lemma_distinct_key_found(rest, i);
    } else {
        assert(i == keys.len() - 1);
    }
}

/// Adding a key leaves every other key where it was.
pub proof fn lemma_append_keeps_others(keys: Seq<Seq<char>>, key: Seq<char>, other: Seq<char>)
    requires
        other != key,
    ensures
        last_index_of(keys.push(key), other) == last_index_of(keys, other),
{
    assert(keys.push(key).drop_last() == keys);
}

/// Numbers keys and gives each a slice of a buffer list.
pub struct IndexSliceAccessor {
    accessor: IndexAccessor,
    slice: Vec<(usize, usize)>,
    len_slice: usize,
}

impl IndexSliceAccessor {
    /// One slice per key, contiguous from zero.
    pub closed spec fn wf(&self) -> bool {
        &&& self.slice@.len() == self.accessor.keys().len()
        &&& contiguous_from_zero(self.slice@, self.len_slice as nat)
    }

    pub closed spec fn keys(&self) -> Seq<Seq<char>> {
        self.accessor.keys()
    }

    pub closed spec fn slices(&self) -> Seq<(usize, usize)> {
        self.slice@
    }

    pub closed spec fn len_slice(&self) -> usize {
        self.len_slice
    }

    pub fn default() -> (r: Self)
        ensures
            r.wf(),
            r.keys() == Seq::<Seq<char>>::empty(),
            r.slices() == Seq::<(usize, usize)>::empty(),
            r.len_slice() == 0,
    {
        IndexSliceAccessor { accessor: IndexAccessor::default(), slice: Vec::new(), len_slice: 0 }
    }

    /// The slices are contiguous from zero and there is one per key.
    pub proof fn lemma_wf(&self)
        requires
            self.wf(),
        ensures
            self.slices().len() == self.keys().len(),
            contiguous_from_zero(self.slices(), self.len_slice() as nat),
    {
    }

    pub fn deref(&self) -> (r: &IndexAccessor)
        ensures
            r.keys() == self.keys(),
    {
        &self.accessor
    }

    /// Numbers `key` and gives it the next `slice_gap` buffers.
    pub fn append_slice(&mut self, key: String, slice_gap: usize)
        requires
            old(self).wf(),
            old(self).len_slice() + slice_gap <= usize::MAX,
        ensures
            final(self).wf(),
            final(self).keys() == old(self).keys().push(key@),
            final(self).slices() == old(self).slices().push((old(self).len_slice(), (old(self).len_slice() + slice_gap) as usize)),
            final(self).len_slice() == old(self).len_slice() + slice_gap,
    {
        let ghost old_slices = self.slice@;
        let ghost old_len = self.len_slice;
        self.accessor.append_index(key);
        let slice_end: usize = self.len_slice + slice_gap;
        self.slice.push((self.len_slice, slice_end));
        self.len_slice = slice_end;
        proof { lemma_append_keeps_contiguous(old_slices, old_len, slice_gap); }
    }

    /// The slice of the key numbered `index`.
    pub fn get_slice(&self, index: usize) -> (r: (usize, usize))
        requires
            index < self.slices().len(),
        ensures
            r == self.slices()[index as int],
    {
        self.slice[index]
    }
}


/// A file served from memory.
pub type CachedFile = DataFile<FileReader<FakeToSubPath>>;

/// The buffers of the first `n` files, one file after the other, each cut
/// as its strategy cuts it.
pub open spec fn files_buffers(files: Seq<CachedFile>, contents: Seq<Seq<u8>>, n: nat) -> Seq<Seq<u8>>
    decreases n,
{
    if n == 0 {
        Seq::empty()
    } else {
        files_buffers(files, contents, (n - 1) as nat)
            + strategy_buffers(files[n - 1].parent().strategy(), contents[n - 1])
    }
}

/// The JSON header text of a served file.
pub open spec fn header_text(file: CachedFile) -> Seq<char> {
    json_info_text(file.payload().url(), file.payload().chunks(), file.payload().type_file())
}

/// A file of `content.len()` bytes is announced in no more pieces than its
/// strategy cuts it into.
pub proof fn lemma_announced_within(s: ReadStrategy, content: Seq<u8>)
    requires
        strategy_for_len(content.len() as u64) == Ok::<ReadStrategy, GlobalError>(s),
        content.len() <= u64::MAX,
    ensures
        chunk_count(s, content.len() as u64) <= strategy_buffers(s, content).len(),
{
    let len: int = content.len() as int;
    match s {
        ReadStrategy::Large => {
            let size = CHUNK_SMALL_SLICE as nat;
            lemma_chunks_sizes(content, size);
            assert((len as int) / (size as int) <= (len + size - 1) / (size as int)) by (nonlinear_arith)
                requires size > 0;
        },
        ReadStrategy::ExtraLarge => {
            let size = CHUNK_MEDIUM_SLICE as nat;
            lemma_chunks_sizes(content, size);
            assert((len as int) / (size as int) <= (len + size - 1) / (size as int)) by (nonlinear_arith)
                requires size > 0;
        },
        _ => {},
    }
}

/// The files kept in memory: all their buffers one after the other, the
/// header of each, and for each the slice of buffers it owns, found by its
/// path.
pub struct CacheCollection {
    data: Vec<Vec<u8>>,
    payloads_stringify: Vec<String>,
    accesor: IndexSliceAccessor,
}

impl CacheCollection {
    /// One header and one slice per file; every slice lies in the buffers.
    #[verifier::type_invariant]
    spec fn inv(self) -> bool {
        &&& self.accesor.wf()
        &&& self.accesor.keys().len() == self.payloads_stringify@.len()
        &&& self.accesor.len_slice() <= self.data@.len()
    }

    pub closed spec fn data(&self) -> Seq<Seq<u8>> {
        buffers_view(self.data@)
    }

    pub closed spec fn payloads(&self) -> Seq<Seq<char>> {
        self.payloads_stringify@.map_values(|s: String| s@)
    }

    pub closed spec fn keys(&self) -> Seq<Seq<char>> {
        self.accesor.keys()
    }

    pub closed spec fn slices(&self) -> Seq<(usize, usize)> {
        self.accesor.slices()
    }

    /// Every slice is ordered and lies in the buffers, and there is one
    /// slice and one header per key.
    fn slices_in_data(&self)
        ensures
            self.slices().len() == self.keys().len(),
            self.payloads().len() == self.keys().len(),
            forall|i: int| 0 <= i < self.slices().len() ==>
                (#[trigger] self.slices()[i]).0 <= self.slices()[i].1 <= self.data().len(),
    {
        proof {
            use_type_invariant(self);
            self.accesor.lemma_wf();
            lemma_slices_below_end(self.slices(), self.accesor.len_slice() as nat);
        }
    }

    /// Keeps the files in memory. `contents[i]` holds the bytes of the
    /// i-th file, as many as its reader was made with. The files'
    /// buffers follow one another, and each file owns as many of them as
    /// its header announces, from where the previous file's stopped.
    pub fn try_from(data_files: &Vec<CachedFile>, contents: &Vec<Vec<u8>>) -> (r: Result<Self, GlobalError>)
        requires
            contents.len() == data_files.len(),
            forall|i: int| 0 <= i < contents.len() ==>
                (#[trigger] contents@[i])@.len() == data_files@[i].parent().len(),
        ensures
            r matches Ok(c) && {
                &&& c.data() == files_buffers(data_files@, buffers_view(contents@), data_files.len() as nat)
                &&& c.payloads() == data_files@.map_values(|f: CachedFile| header_text(f))
                &&& c.keys() == data_files@.map_values(|f: CachedFile| f.parent().inner().inner())
                &&& c.slices().len() == data_files.len()
                &&& contiguous_from_zero(c.slices(), if data_files.len() == 0 { 0 } else { c.slices().last().1 as nat })
                &&& forall|i: int| 0 <= i < data_files.len() ==>
                    (#[trigger] c.slices()[i]).1 - c.slices()[i].0 == data_files@[i].payload().chunks()
            },
    {
        let mut payloads: Vec<String> = Vec::new();
        let mut datas: Vec<Vec<u8>> = Vec::new();
        let mut accessor = IndexSliceAccessor::default();
        let mut i: usize = 0;
        while i < data_files.len()
            invariant
                i <= data_files.len(),
                contents.len() == data_files.len(),
                forall|k: int| 0 <= k < contents.len() ==>
                    (#[trigger] contents@[k])@.len() == data_files@[k].parent().len(),
                accessor.wf(),
                accessor.keys().len() == i,
                payloads@.len() == i,
                accessor.len_slice() <= datas@.len(),
                buffers_view(datas@) == files_buffers(data_files@, buffers_view(contents@), i as nat),
                forall|k: int| 0 <= k < i ==> (#[trigger] payloads@[k])@ == header_text(data_files@[k]),
                forall|k: int| 0 <= k < i ==>
                    #[trigger] accessor.keys()[k] == data_files@[k].parent().inner().inner(),
                forall|k: int| 0 <= k < i ==>
                    (#[trigger] accessor.slices()[k]).1 - accessor.slices()[k].0 == data_files@[k].payload().chunks(),
            decreases data_files.len() - i,
        {
            let data_file = &data_files[i];
            let reader = data_file.deref();
            let _ = reader.get_strategy();
            let content = &contents[i];
            let chunks = data_file.get_payload().get_chunks();
            let ghost before = datas@;
            reader.flush_data(content, &mut datas);
            let total = datas.len();
            proof {
                lemma_announced_within(reader.strategy(), content@);
                assert(buffers_view(contents@)[i as int] == content@);
                assert(buffers_view(datas@) == files_buffers(data_files@, buffers_view(contents@), (i + 1) as nat));
                assert(buffers_view(datas@).len() == buffers_view(before).len()
                    + strategy_buffers(reader.strategy(), content@).len());
                assert(accessor.len_slice() + chunks <= total);
            }
            let url = reader.get_string_lossy_url().to_string();
            accessor.append_slice(url, chunks);
            let text = match data_file.get_payload().stringify_to_json() {
                Ok(t) => t,
                Err(e) => return Err(e),
            };
            payloads.push(text);
            i += 1;
        }
        proof {
            assert(payloads@.map_values(|s: String| s@) =~= data_files@.map_values(|f: CachedFile| header_text(f)));
            assert(accessor.keys() =~= data_files@.map_values(|f: CachedFile| f.parent().inner().inner()));
            accessor.lemma_wf();
        }
        Ok(CacheCollection { payloads_stringify: payloads, data: datas, accesor: accessor })
    }

    /// The buffers and the header of the file last added under `url`.
    pub fn search(&self, url: &String) -> (r: Option<(&[Vec<u8>], &String)>)
        ensures
            match last_index_of(self.keys(), url@) {
                Some(i) => r matches Some((d, p)) && {
                    &&& buffers_view(d@) == self.data().subrange(self.slices()[i as int].0 as int, self.slices()[i as int].1 as int)
                    &&& p@ == self.payloads()[i as int]
                },
                None => r is None,
            },
    {
        self.slices_in_data();
        let count = self.payloads_stringify.len();
        proof { assert(self.keys().len() == count); }
        match self.accesor.deref().get_index(url) {
            Some(index) => Some(self.item(index)),
            None => None,
        }
    }

    /// The number of files.
    pub fn length(&self) -> (r: usize)
        ensures
            r == self.keys().len(),
    {
        proof { use_type_invariant(self); }
        self.payloads_stringify.len()
    }

    /// The buffers and header of the file numbered `index`.
    fn item(&self, index: usize) -> (r: (&[Vec<u8>], &String))
        requires
            index < self.keys().len(),
        ensures
            buffers_view(r.0@) == self.data().subrange(self.slices()[index as int].0 as int, self.slices()[index as int].1 as int),
            r.1@ == self.payloads()[index as int],
    {
        self.slices_in_data();
        let (start, end) = self.accesor.get_slice(index);
        let slice = &self.data.as_slice()[start..end];
        proof { assert(buffers_view(slice@) =~= self.data().subrange(start as int, end as int)); }
        (slice, &self.payloads_stringify[index])
    }
}

/// Slices contiguous from zero all lie below their end.
pub proof fn lemma_slices_below_end(slices: Seq<(usize, usize)>, end: nat)
    requires
        contiguous_from_zero(slices, end),
    ensures
        forall|i: int| 0 <= i < slices.len() ==> (#[trigger] slices[i]).1 <= end,
    decreases slices.len(),
{
    if slices.len() > 0 {
        let prefix = slices.drop_last();
        let prefix_end: nat = if prefix.len() == 0 { 0 } else { prefix.last().1 as nat };
        assert(contiguous_from_zero(prefix, prefix_end)) by {
            assert forall|i: int| 0 < i < prefix.len() implies (#[trigger] prefix[i]).0 == prefix[i - 1].1 by {
                assert(prefix[i] == slices[i]);
                assert(prefix[i - 1] == slices[i - 1]);
            }
        }
        lemma_slices_below_end(prefix, prefix_end);
        assert forall|i: int| 0 <= i < slices.len() implies (#[trigger] slices[i]).1 <= end by {
            if i < slices.len() - 1 {
                assert(slices[i] == prefix[i]);
                let last = slices.len() - 1;
                assert(slices[last].0 == slices[last - 1].1);
            }
        }
    }
}

/// A collection that can be walked.
pub trait StaticCollection<'a> {
    type Iter;

    fn iter(&'a self) -> Self::Iter;
}

impl<'a> StaticCollection<'a> for CacheCollection {
    type Iter = CacheContentIterator<'a>;

    fn iter(&'a self) -> (r: CacheContentIterator<'a>)
        ensures
            r.position() == 0,
            r.collection() == self,
    {
        CacheContentIterator::new(self)
    }
}

/// Walks a cache collection file by file.
pub struct CacheContentIterator<'a> {
    index: usize,
    collection: &'a CacheCollection,
}

impl<'a> CacheContentIterator<'a> {
    pub closed spec fn position(&self) -> usize {
        self.index
    }

    pub closed spec fn collection(&self) -> &'a CacheCollection {
        self.collection
    }

    fn new(payload_collection: &'a CacheCollection) -> (r: Self)
        ensures
            r.position() == 0,
            r.collection() == payload_collection,
    {
        CacheContentIterator { index: 0, collection: payload_collection }
    }

    fn is_valid(&self) -> (r: bool)
        ensures
            r == (self.position() < self.collection().keys().len()),
            self.collection().keys().len() <= usize::MAX,
    {
        self.index < self.collection.length()
    }

    /// The next file's buffers and header, or `None` once every file was
    /// given.
    pub fn next(&mut self) -> (r: Option<(&'a [Vec<u8>], &'a String)>)
        ensures
            final(self).collection() == old(self).collection(),
            old(self).position() < old(self).collection().keys().len() ==> {
                let i = old(self).position() as int;
                let c = old(self).collection();
                &&& final(self).position() == i + 1
                &&& r matches Some((d, p))
                &&& buffers_view(d@) == c.data().subrange(c.slices()[i].0 as int, c.slices()[i].1 as int)
                &&& p@ == c.payloads()[i]
            },
            old(self).position() >= old(self).collection().keys().len() ==> r is None
                && final(self).position() == old(self).position(),
    {
        if self.is_valid() {
            let item = self.collection.item(self.index);
            self.index += 1;
            return Some(item);
        }
        None
    }
}

} // verus!
