use vstd::prelude::*;
use crate::commun_utils::errors::GlobalError;
use crate::commun_utils::fs_strategies::{AsPath, buffers_view, strategy_buffers};
use crate::virtual_fs::async_strategies::FileAsyncReader;
use crate::virtual_fs::general::Asset;
use crate::virtual_fs::iterator::cached_data::{
    CachedFile, files_buffers, header_text, lemma_announced_within, lemma_slices_below_end,
};
use crate::virtual_fs::iterator::utils::{
    IndexSliceHelper, StaticCollection, contiguous_from_zero, lemma_append_keeps_contiguous,
};
use crate::virtual_fs::payloads::payload::DataFile;
use crate::virtual_fs::runtime::FakeToSubPath;

verus! {

/// A file read from disk each time it is asked for.
pub type PayloadFile = DataFile<FileAsyncReader<FakeToSubPath>>;

/// The end of the last of a list of slices, zero when there is none.
pub open spec fn slices_end(slices: Seq<(usize, usize)>) -> nat {
    if slices.len() == 0 { 0 } else { slices.last().1 as nat }
}

//---------------------------------------------------------------------------
// files read on request
//---------------------------------------------------------------------------

/// The files served by reading them from disk.
pub struct PayloadCollection {
    pub payloads: Vec<PayloadFile>,
}

impl PayloadCollection {
    /// Makes the single collection of files read on request; refused with
    /// `SingleInstanceBreach` when one already exists.
    pub fn try_from(data_files: Vec<PayloadFile>, already_set: bool) -> (r: Result<Self, GlobalError>)
        ensures
            already_set ==> r matches Err(GlobalError::SingleInstanceBreach),
            !already_set ==> (r matches Ok(c) && c.payloads@ == data_files@),
    {
        if already_set {
            return Err(GlobalError::SingleInstanceBreach);
        }
        Ok(PayloadCollection { payloads: data_files })
    }
}

impl StaticCollection for PayloadCollection {
    open spec fn spec_length(&self) -> nat {
        self.payloads@.len()
    }

    fn length(&self) -> (r: usize) {
        self.payloads.len()
    }
}

//---------------------------------------------------------------------------
// files kept in memory
//---------------------------------------------------------------------------

/// The files kept in memory: all their buffers one after the other, and
/// for each its header, the path it is published under and the slice of
/// buffers it owns.
#[derive(Debug)]
pub struct CacheCollection {
    data: Vec<Vec<u8>>,
    payloads_stringify: Vec<String>,
    urls: Vec<String>,
    slice_index: Vec<(usize, usize)>,
}

impl CacheCollection {
    /// One header, one path and one slice per file; every slice lies in
    /// the buffers.
    #[verifier::type_invariant]
    spec fn inv(self) -> bool {
        &&& self.slice_index@.len() == self.payloads_stringify@.len()
        &&& self.urls@.len() == self.payloads_stringify@.len()
        &&& contiguous_from_zero(self.slice_index@, slices_end(self.slice_index@))
        &&& slices_end(self.slice_index@) <= self.data@.len()
    }

    pub closed spec fn data(&self) -> Seq<Seq<u8>> {
        buffers_view(self.data@)
    }

    pub closed spec fn payloads(&self) -> Seq<Seq<char>> {
        self.payloads_stringify@.map_values(|s: String| s@)
    }

    pub closed spec fn urls(&self) -> Seq<Seq<char>> {
        self.urls@.map_values(|s: String| s@)
    }

    pub closed spec fn slices(&self) -> Seq<(usize, usize)> {
        self.slice_index@
    }

    fn slices_in_data(&self)
        ensures
            self.slices().len() == self.payloads().len(),
            self.urls().len() == self.payloads().len(),
            forall|i: int| 0 <= i < self.slices().len() ==>
                (#[trigger] self.slices()[i]).0 <= self.slices()[i].1 <= self.data().len(),
    {
        proof {
            use_type_invariant(self);
            lemma_slices_below_end(self.slices(), slices_end(self.slices()));
        }
    }

    /// Keeps the files in memory; refused with `SingleInstanceBreach` when
    /// such a collection already exists. `contents[i]` holds the bytes of
    /// the i-th file, as many as its reader was made with. The files'
    /// buffers follow one another, and each file owns as many of them as
    /// its header announces, from where the previous file's stopped.
    pub fn try_from(data_files: &Vec<CachedFile>, contents: &Vec<Vec<u8>>, already_set: bool) -> (r: Result<Self, GlobalError>)
        requires
            contents.len() == data_files.len(),
            forall|i: int| 0 <= i < contents.len() ==>
                (#[trigger] contents@[i])@.len() == data_files@[i].parent().len(),
        ensures
            already_set ==> r matches Err(GlobalError::SingleInstanceBreach),
            !already_set ==> (r matches Ok(c) && {
                &&& c.data() == files_buffers(data_files@, buffers_view(contents@), data_files.len() as nat)
                &&& c.payloads() == data_files@.map_values(|f: CachedFile| header_text(f))
                &&& c.urls() == data_files@.map_values(|f: CachedFile| f.payload().url())
                &&& c.slices().len() == data_files.len()
                &&& contiguous_from_zero(c.slices(), slices_end(c.slices()))
                &&& forall|i: int| 0 <= i < data_files.len() ==>
                    (#[trigger] c.slices()[i]).1 - c.slices()[i].0 == data_files@[i].payload().chunks()
            }),
    {
        if already_set {
            return Err(GlobalError::SingleInstanceBreach);
        }
        let mut json_infos_stringity: Vec<String> = Vec::new();
        let mut urls: Vec<String> = Vec::new();
        let mut datas: Vec<Vec<u8>> = Vec::new();
        let mut slice: Vec<(usize, usize)> = Vec::new();
        let mut helper = IndexSliceHelper::default();
        let mut i: usize = 0;
        while i < data_files.len()
            invariant
                i <= data_files.len(),
                contents.len() == data_files.len(),
                forall|k: int| 0 <= k < contents.len() ==>
                    (#[trigger] contents@[k])@.len() == data_files@[k].parent().len(),
                slice@.len() == i,
                json_infos_stringity@.len() == i,
                urls@.len() == i,
                contiguous_from_zero(slice@, helper.len_slice() as nat),
                helper.len_slice() <= datas@.len(),
                buffers_view(datas@) == files_buffers(data_files@, buffers_view(contents@), i as nat),
                forall|k: int| 0 <= k < i ==> (#[trigger] json_infos_stringity@[k])@ == header_text(data_files@[k]),
                forall|k: int| 0 <= k < i ==> (#[trigger] urls@[k])@ == data_files@[k].payload().url(),
                forall|k: int| 0 <= k < i ==>
                    (#[trigger] slice@[k]).1 - slice@[k].0 == data_files@[k].payload().chunks(),
            decreases data_files.len() - i,
        {
            let data_file = &data_files[i];
            let reader = data_file.deref();
            let _ = reader.get_strategy();
            let content = &contents[i];
            let chunks = data_file.get_payload().get_chunks();
            let ghost before = datas@;
            let ghost old_slice = slice@;
            reader.flush_data(content, &mut datas);
            let total = datas.len();
            proof {
                lemma_announced_within(reader.strategy(), content@);
                assert(buffers_view(contents@)[i as int] == content@);
                assert(buffers_view(datas@) == files_buffers(data_files@, buffers_view(contents@), (i + 1) as nat));
                assert(buffers_view(datas@).len() == buffers_view(before).len()
                    + strategy_buffers(reader.strategy(), content@).len());
                assert(helper.len_slice() + chunks <= total);
                lemma_append_keeps_contiguous(old_slice, helper.len_slice(), chunks);
            }
            helper.append_slice(chunks, &mut slice);
            let text = match data_file.get_payload().stringify_to_json() {
                Ok(t) => t,
                Err(e) => return Err(e),
            };
            json_infos_stringity.push(text);
            urls.push(data_file.get_payload().url_text());
            i += 1;
        }
        proof {
            assert(json_infos_stringity@.map_values(|s: String| s@) =~= data_files@.map_values(|f: CachedFile| header_text(f)));
            assert(urls@.map_values(|s: String| s@) =~= data_files@.map_values(|f: CachedFile| f.payload().url()));
        }
        Ok(CacheCollection { payloads_stringify: json_infos_stringity, urls, data: datas, slice_index: slice })
    }

    /// The path the file numbered `index` is published under.
    pub fn url(&self, index: usize) -> (r: &String)
        requires
            index < self.urls().len(),
        ensures
            r@ == self.urls()[index as int],
    {
        &self.urls[index]
    }

    /// The buffers and header of the file numbered `index`.
    fn item(&self, index: usize) -> (r: (&[Vec<u8>], &String))
        requires
            index < self.payloads().len(),
        ensures
            buffers_view(r.0@) == self.data().subrange(self.slices()[index as int].0 as int, self.slices()[index as int].1 as int),
            r.1@ == self.payloads()[index as int],
    {
        self.slices_in_data();
        let (start, end) = self.slice_index[index];
        let slice = &self.data.as_slice()[start..end];
        proof { assert(buffers_view(slice@) =~= self.data().subrange(start as int, end as int)); }
        (slice, &self.payloads_stringify[index])
    }
}

impl StaticCollection for CacheCollection {
    closed spec fn spec_length(&self) -> nat {
        self.payloads_stringify@.len()
    }

    fn length(&self) -> (r: usize) {
        self.payloads_stringify.len()
    }
}

//---------------------------------------------------------------------------
// walking a collection
//---------------------------------------------------------------------------

/// A collection whose items can be taken by number.
pub trait AssetItems<'a>: StaticCollection {
    type Item;

    /// `item` is the item numbered `i`.
    spec fn is_item(&self, i: int, item: Self::Item) -> bool;

    fn item_at(&'a self, i: usize) -> (r: Self::Item)
        requires
            i < self.spec_length(),
        ensures
            self.is_item(i as int, r),
    ;
}

impl<'a> AssetItems<'a> for PayloadCollection {
    type Item = &'a PayloadFile;

    open spec fn is_item(&self, i: int, item: &'a PayloadFile) -> bool {
        *item == self.payloads@[i]
    }

    fn item_at(&'a self, i: usize) -> (r: &'a PayloadFile) {
        &self.payloads[i]
    }
}

impl<'a> AssetItems<'a> for CacheCollection {
    type Item = (&'a [Vec<u8>], &'a String);

    open spec fn is_item(&self, i: int, item: (&'a [Vec<u8>], &'a String)) -> bool {
        &&& buffers_view(item.0@) == self.data().subrange(self.slices()[i].0 as int, self.slices()[i].1 as int)
        &&& item.1@ == self.payloads()[i]
    }

    fn item_at(&'a self, i: usize) -> (r: (&'a [Vec<u8>], &'a String)) {
        self.item(i)
    }
}

/// Walks a collection item by item.
pub struct StaticAssetIterator<'a, T> {
    index: usize,
    payload_collection: &'a T,
}

impl<'a, T: AssetItems<'a>> StaticAssetIterator<'a, T> {
    pub closed spec fn position(&self) -> usize {
        self.index
    }

    pub closed spec fn collection(&self) -> &'a T {
        self.payload_collection
    }

    pub fn new(payload_collection: &'a T) -> (r: Self)
        ensures
            r.position() == 0,
            r.collection() == payload_collection,
    {
        StaticAssetIterator { index: 0, payload_collection }
    }

    /// Whether items are left.
    pub fn is_valid(&self) -> (r: bool)
        ensures
            r == (self.position() < self.collection().spec_length()),
    {
        self.index < self.payload_collection.length()
    }

    /// Whether the collection has an item numbered `index`.
    pub fn index_exist(&self, index: usize) -> (r: bool)
        ensures
            r == (index < self.collection().spec_length()),
    {
        index < self.payload_collection.length()
    }

    /// The item numbered `index`, if there is one.
    pub fn get_item(&self, index: usize) -> (r: Option<T::Item>)
        ensures
            index < self.collection().spec_length() ==> (r matches Some(x)
                && self.collection().is_item(index as int, x)),
            index >= self.collection().spec_length() ==> r is None,
    {
        if self.index_exist(index) {
            return Some(self.payload_collection.item_at(index));
        }
        None
    }

    /// The next item, or `None` once every item was given.
    pub fn next(&mut self) -> (r: Option<T::Item>)
        ensures
            final(self).collection() == old(self).collection(),
            old(self).position() < old(self).collection().spec_length() ==>
                (final(self).position() == old(self).position() + 1
                && (r matches Some(x) && old(self).collection().is_item(old(self).position() as int, x))),
            old(self).position() >= old(self).collection().spec_length() ==> r is None
                && final(self).position() == old(self).position(),
    {
        if self.is_valid() {
            let len = self.payload_collection.length();
            proof { assert(self.index < len); }
            let item = self.payload_collection.item_at(self.index);
            self.index += 1;
            return Some(item);
        }
        None
    }
}

//---------------------------------------------------------------------------
// finding an asset by its path
//---------------------------------------------------------------------------

/// The map that inserting `entries` in order into an empty map gives:
/// a path inserted again takes its last asset.
pub open spec fn entries_map(entries: Seq<(Seq<char>, Asset)>) -> Map<Seq<char>, Asset>
    decreases entries.len(),
{
    if entries.len() == 0 {
        Map::empty()
    } else {
        entries_map(entries.drop_last()).insert(entries.last().0, entries.last().1)
    }
}

/// Entries inserted later win: under a path the later entries hold, the
/// map of all entries gives what the later entries give; under any other
/// path, what the earlier ones give.
pub proof fn lemma_later_entries_win(a: Seq<(Seq<char>, Asset)>, b: Seq<(Seq<char>, Asset)>, k: Seq<char>)
    ensures
        entries_map(b).dom().contains(k) ==> entries_map(a + b).dom().contains(k)
            && entries_map(a + b)[k] == entries_map(b)[k],
        !entries_map(b).dom().contains(k) ==> (entries_map(a + b).dom().contains(k)
            == entries_map(a).dom().contains(k)
            && entries_map(a + b)[k] == entries_map(a)[k]),
    decreases b.len(),
{
    if b.len() == 0 {
        assert(a + b =~= a);
    } else {
        lemma_later_entries_win(a, b.drop_last(), k);
        assert((a + b).drop_last() =~= a + b.drop_last());
        assert((a + b).last() == b.last());
    }
}

/// The entries of the cached files: each published path with its number.
pub open spec fn cache_entries(urls: Seq<Seq<char>>) -> Seq<(Seq<char>, Asset)> {
    Seq::new(urls.len(), |i: int| (urls[i], Asset::Cache(i as usize)))
}

/// The entries of the files read on request: each real path with its
/// number.
pub open spec fn payload_entries(files: Seq<PayloadFile>) -> Seq<(Seq<char>, Asset)> {
    Seq::new(files.len(), |i: int| (files[i].parent().inner().spec_path(), Asset::Payload(i as usize)))
}

/// The paths and assets of a list of entries.
pub open spec fn entries_view(v: Seq<(String, Asset)>) -> Seq<(Seq<char>, Asset)> {
    Seq::new(v.len(), |i: int| (v[i].0@, v[i].1))
}

/// Every served file, found by its path.
pub struct StaticAssetsCollection {
    accesor: Vec<(String, Asset)>,
}

impl StaticAssetsCollection {
    pub closed spec fn entries(&self) -> Seq<(Seq<char>, Asset)> {
        entries_view(self.accesor@)
    }

    /// The path to asset map.
    pub open spec fn view_map(&self) -> Map<Seq<char>, Asset> {
        entries_map(self.entries())
    }

    /// Makes the single index of every served file: first the cached
    /// files under their published paths, then the files read on request
    /// under their real paths, a later one replacing an earlier one under
    /// the same path. Refused with `SingleInstanceBreach` when one already
    /// exists.
    pub fn new(already_set: bool, caches: Option<&CacheCollection>, payloads: Option<&PayloadCollection>) -> (r: Result<Self, GlobalError>)
        ensures
            already_set ==> r matches Err(GlobalError::SingleInstanceBreach),
            !already_set ==> (r matches Ok(c) && c.entries() == (match caches {
                Some(cc) => cache_entries(cc.urls()),
                None => Seq::empty(),
            }) + (match payloads {
                Some(pc) => payload_entries(pc.payloads@),
                None => Seq::empty(),
            })),
    {
        if already_set {
            return Err(GlobalError::SingleInstanceBreach);
        }
        let mut hash_asset: Vec<(String, Asset)> = Vec::new();
        let ghost cache_part: Seq<(Seq<char>, Asset)> = match caches {
            Some(cc) => cache_entries(cc.urls()),
            None => Seq::empty(),
        };
        if let Some(collection) = caches {
            collection.slices_in_data();
            let n = collection.length();
            let mut index: usize = 0;
            while index < n
                invariant
                    index <= n,
                    n == collection.urls().len(),
                    entries_view(hash_asset@) =~= cache_entries(collection.urls()).take(index as int),
                decreases n - index,
            {
                let url = collection.url(index).clone();
                let ghost prev = hash_asset@;
                hash_asset.push((url, Asset::Cache(index)));
                assert(entries_view(hash_asset@) =~= entries_view(prev).push((url@, Asset::Cache(index))));
                assert(cache_entries(collection.urls()).take(index + 1)
                    =~= cache_entries(collection.urls()).take(index as int).push((url@, Asset::Cache(index))));
                index += 1;
            }
            assert(cache_entries(collection.urls()).take(n as int) =~= cache_entries(collection.urls()));
        }
        assert(entries_view(hash_asset@) =~= cache_part);
        if let Some(collection) = payloads {
            let n = collection.payloads.len();
            let mut index: usize = 0;
            while index < n
                invariant
                    index <= n,
                    n == collection.payloads@.len(),
                    entries_view(hash_asset@) =~= cache_part
                        + payload_entries(collection.payloads@).take(index as int),
                decreases n - index,
            {
                let url = collection.payloads[index].deref().get_string_lossy_url().to_string();
                let ghost prev = hash_asset@;
                hash_asset.push((url, Asset::Payload(index)));
                assert(entries_view(hash_asset@) =~= entries_view(prev).push((url@, Asset::Payload(index))));
                assert(payload_entries(collection.payloads@).take(index + 1)
                    =~= payload_entries(collection.payloads@).take(index as int).push((url@, Asset::Payload(index))));
                index += 1;
            }
            assert(payload_entries(collection.payloads@).take(n as int) =~= payload_entries(collection.payloads@));
        }
        Ok(StaticAssetsCollection { accesor: hash_asset })
    }

    /// The asset held under `query`, if any.
    pub fn search(&self, query: &String) -> (r: Option<Asset>)
        ensures
            r == (if self.view_map().dom().contains(query@) {
                Some(self.view_map()[query@])
            } else {
                None
            }),
    {
        let ghost entries = self.entries();
        let mut i: usize = self.accesor.len();
        assert(entries.subrange(0, i as int) == entries);
        while i > 0
            invariant
                i <= entries.len(),
                entries == self.entries(),
                entries.len() == self.accesor@.len(),
                entries_map(entries).dom().contains(query@)
                    == entries_map(entries.subrange(0, i as int)).dom().contains(query@),
                entries_map(entries).dom().contains(query@) ==>
                    entries_map(entries)[query@] == entries_map(entries.subrange(0, i as int))[query@],
            decreases i,
        {
            let ghost sub = entries.subrange(0, i as int);
            assert(sub.drop_last() == entries.subrange(0, i - 1));
            let entry = &self.accesor[i - 1];
            if entry.0 == *query {
                assert(sub.last() == entries[i - 1]);
                return Some(entry.1);
            }
            i -= 1;
        }
        None
    }
}

} // verus!
