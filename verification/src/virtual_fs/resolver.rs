use vstd::prelude::*;
use crate::commun_utils::errors::GlobalError;
use crate::commun_utils::fs_strategies::{FileReader, FsNode, GIGA_FILE, ReadStrategy, strategy_for_len};
use crate::third_party::path_after_pop;
use crate::virtual_fs::async_strategies::FileAsyncReader;
use crate::virtual_fs::iterator::cached_data::CachedFile;
use crate::virtual_fs::iterator::collections::PayloadFile;
use crate::virtual_fs::payloads::json_struct::JsonInfo;
use crate::virtual_fs::payloads::payload::DataFile;
use crate::virtual_fs::runtime::FakeToSubPath;
use crate::virtual_fs::states::{PredicatorCache, predicate_run, predicate_step};

verus! {

/// A cached file made from the file at `path` of `len` bytes: published
/// under its own path.
pub open spec fn is_cache_file(d: CachedFile, path: Seq<char>, len: u64) -> bool {
    &&& d.parent().inner().inner() == path
    &&& d.parent().inner().fake() is None
    &&& d.parent().len() == len
    &&& strategy_for_len(len) == Ok::<ReadStrategy, GlobalError>(d.parent().strategy())
    &&& JsonInfo::describes(d.payload(), d.parent())
}

/// A file read on request made from the file at `path` of `len` bytes:
/// published under the directory that holds it.
pub open spec fn is_payload_file(d: PayloadFile, path: Seq<char>, len: u64) -> bool {
    &&& d.parent().inner().inner() == path
    &&& d.parent().inner().fake() == Some(path_after_pop(path))
    &&& d.parent().len() == len
    &&& strategy_for_len(len) == Ok::<ReadStrategy, GlobalError>(d.parent().strategy())
    &&& JsonInfo::describes(d.payload(), d.parent())
}

/// The paths and lengths of a list of files.
pub open spec fn entries_view(v: Seq<(String, u64)>) -> Seq<(Seq<char>, u64)> {
    Seq::new(v.len(), |i: int| (v[i].0@, v[i].1))
}

/// The lengths of a list of files.
pub open spec fn sizes_of(entries: Seq<(Seq<char>, u64)>) -> Seq<u64> {
    Seq::new(entries.len(), |i: int| entries[i].1)
}

/// Whether the i-th size is cached, when the cache held `c0` bytes before
/// the first.
pub open spec fn cached_at(c0: u64, sizes: Seq<u64>, i: int) -> bool {
    predicate_step(predicate_run(c0, sizes.take(i)), sizes[i]).0
}

/// The positions, below `n`, of the sizes that are cached.
pub open spec fn cached_indices(c0: u64, sizes: Seq<u64>, n: nat) -> Seq<int>
    decreases n,
{
    if n == 0 {
        Seq::empty()
    } else if cached_at(c0, sizes, n - 1) {
        cached_indices(c0, sizes, (n - 1) as nat).push(n - 1)
    } else {
        cached_indices(c0, sizes, (n - 1) as nat)
    }
}

/// The positions, below `n`, of the sizes that are read on request.
pub open spec fn payload_indices(c0: u64, sizes: Seq<u64>, n: nat) -> Seq<int>
    decreases n,
{
    if n == 0 {
        Seq::empty()
    } else if !cached_at(c0, sizes, n - 1) {
        payload_indices(c0, sizes, (n - 1) as nat).push(n - 1)
    } else {
        payload_indices(c0, sizes, (n - 1) as nat)
    }
}

/// Every file is dispatched to exactly one side: the positions sent to the
/// cache are those the predicator takes, the others go to the files read
/// on request, each side in increasing order, and together they number
/// the files.
pub proof fn lemma_dispatch_partition(c0: u64, sizes: Seq<u64>, n: nat)
    ensures
        cached_indices(c0, sizes, n).len() + payload_indices(c0, sizes, n).len() == n,
        forall|k: int| 0 <= k < cached_indices(c0, sizes, n).len() ==> {
            let i = #[trigger] cached_indices(c0, sizes, n)[k];
            0 <= i < n && cached_at(c0, sizes, i)
        },
        forall|k: int| 0 <= k < payload_indices(c0, sizes, n).len() ==> {
            let i = #[trigger] payload_indices(c0, sizes, n)[k];
            0 <= i < n && !cached_at(c0, sizes, i)
        },
        forall|k1: int, k2: int| 0 <= k1 < k2 < cached_indices(c0, sizes, n).len() ==>
            cached_indices(c0, sizes, n)[k1] < cached_indices(c0, sizes, n)[k2],
        forall|k1: int, k2: int| 0 <= k1 < k2 < payload_indices(c0, sizes, n).len() ==>
            payload_indices(c0, sizes, n)[k1] < payload_indices(c0, sizes, n)[k2],
    decreases n,
{
    if n > 0 {
        lemma_dispatch_partition(c0, sizes, (n - 1) as nat);
    }
}

/// Whether none of the first `n` files is over a gigabyte.
pub open spec fn all_fit(entries: Seq<(Seq<char>, u64)>, n: int) -> bool {
    forall|i: int| 0 <= i < n ==> (#[trigger] entries[i]).1 <= GIGA_FILE
}

/// `after` is `before` followed by the cached files made from the
/// entries at `idx`.
pub open spec fn extends_cache(before: Seq<CachedFile>, after: Seq<CachedFile>, entries: Seq<(Seq<char>, u64)>, idx: Seq<int>) -> bool {
    &&& after.len() == before.len() + idx.len()
    &&& after.take(before.len() as int) == before
    &&& forall|k: int| 0 <= k < idx.len() ==>
        is_cache_file(#[trigger] after[before.len() + k], entries[idx[k]].0, entries[idx[k]].1)
}

/// `after` is `before` followed by the files read on request made from
/// the entries at `idx`.
pub open spec fn extends_payload(before: Seq<PayloadFile>, after: Seq<PayloadFile>, entries: Seq<(Seq<char>, u64)>, idx: Seq<int>) -> bool {
    &&& after.len() == before.len() + idx.len()
    &&& after.take(before.len() as int) == before
    &&& forall|k: int| 0 <= k < idx.len() ==>
        is_payload_file(#[trigger] after[before.len() + k], entries[idx[k]].0, entries[idx[k]].1)
}

/// Sends the file at `path` of `len` bytes to the cache when the
/// predicator takes it, else to the files read on request; a file over a
/// gigabyte that is not cached is refused with `FileToBig`.
pub fn dispatch_file(
    path: &String,
    len: u64,
    predicator: &mut PredicatorCache,
    to_payload: &mut Vec<PayloadFile>,
    to_cache: &mut Vec<CachedFile>,
) -> (r: Result<(), GlobalError>)
    ensures
        final(predicator).cache_use() == predicate_step(old(predicator).cache_use(), len).1,
        predicate_step(old(predicator).cache_use(), len).0 ==> {
            &&& r is Ok
            &&& final(to_payload)@ == old(to_payload)@
            &&& final(to_cache)@.len() == old(to_cache)@.len() + 1
            &&& final(to_cache)@.drop_last() == old(to_cache)@
            &&& is_cache_file(final(to_cache)@.last(), path@, len)
        },
        !predicate_step(old(predicator).cache_use(), len).0 ==> {
            &&& final(to_cache)@ == old(to_cache)@
            &&& len > GIGA_FILE ==> (r matches Err(GlobalError::FileToBig) && final(to_payload)@ == old(to_payload)@)
            &&& len <= GIGA_FILE ==> (r is Ok && final(to_payload)@.len() == old(to_payload)@.len() + 1
                && final(to_payload)@.drop_last() == old(to_payload)@
                && is_payload_file(final(to_payload)@.last(), path@, len))
        },
{
    if predicator.predicate_cache_use(len) {
        let reader = match FileReader::try_from(FakeToSubPath::from_path(path.as_str()), len) {
            Ok(reader) => reader,
            Err(e) => return Err(e),
        };
        let data_file = match DataFile::new(reader) {
            Ok(d) => d,
            Err(e) => return Err(e),
        };
        to_cache.push(data_file);
        proof { assert(to_cache@.drop_last() == old(to_cache)@); }
    } else {
        let reader = match FileAsyncReader::try_from(FakeToSubPath::from_path_buf(path.clone()), len) {
            Ok(reader) => reader,
            Err(e) => return Err(e),
        };
        let data_file = match DataFile::new(reader) {
            Ok(d) => d,
            Err(e) => return Err(e),
        };
        to_payload.push(data_file);
        proof { assert(to_payload@.drop_last() == old(to_payload)@); }
    }
    Ok(())
}


/// The state after the first `n` entries were dispatched, starting from a
/// cache that held `c0` bytes and from the lists `cache0` and `payload0`.
pub open spec fn dispatched_upto(
    c0: u64,
    es: Seq<(Seq<char>, u64)>,
    n: int,
    cache_use: u64,
    cache0: Seq<CachedFile>,
    cache: Seq<CachedFile>,
    payload0: Seq<PayloadFile>,
    payload: Seq<PayloadFile>,
) -> bool {
    &&& cache_use == predicate_run(c0, sizes_of(es).take(n))
    &&& extends_cache(cache0, cache, es, cached_indices(c0, sizes_of(es), n as nat))
    &&& extends_payload(payload0, payload, es, payload_indices(c0, sizes_of(es), n as nat))
}

/// Dispatches each file in turn, as `dispatch_file` does, and stops at the
/// first file refused. On success every file was dispatched; on refusal
/// (`FileToBig`) the files before the first one over a gigabyte were.
pub fn dispatch_entries(
    entries: &Vec<(String, u64)>,
    predicator: &mut PredicatorCache,
    to_payload: &mut Vec<PayloadFile>,
    to_cache: &mut Vec<CachedFile>,
) -> (r: Result<(), GlobalError>)
    ensures
        r is Ok <==> all_fit(entries_view(entries@), entries@.len() as int),
        r is Ok ==> dispatched_upto(old(predicator).cache_use(), entries_view(entries@), entries@.len() as int,
            final(predicator).cache_use(), old(to_cache)@, final(to_cache)@, old(to_payload)@, final(to_payload)@),
        r is Err ==> r matches Err(GlobalError::FileToBig),
        r is Err ==> exists|j: int| 0 <= j < entries@.len() && (#[trigger] entries_view(entries@)[j]).1 > GIGA_FILE
            && all_fit(entries_view(entries@), j)
            && dispatched_upto(old(predicator).cache_use(), entries_view(entries@), j,
                final(predicator).cache_use(), old(to_cache)@, final(to_cache)@, old(to_payload)@, final(to_payload)@),
{
    let ghost es = entries_view(entries@);
    let ghost sizes = sizes_of(es);
    let ghost c0 = predicator.cache_use();
    let ghost cache0 = to_cache@;
    let ghost payload0 = to_payload@;
    assert(sizes.take(0) =~= Seq::<u64>::empty());
    assert(to_cache@.take(cache0.len() as int) =~= cache0);
    assert(to_payload@.take(payload0.len() as int) =~= payload0);
    let mut i: usize = 0;
    while i < entries.len()
        invariant
            i <= entries@.len(),
            es == entries_view(entries@),
            sizes == sizes_of(es),
            c0 == old(predicator).cache_use(),
            cache0 == old(to_cache)@,
            payload0 == old(to_payload)@,
            predicator.cache_use() == predicate_run(c0, sizes.take(i as int)),
            all_fit(es, i as int),
            extends_cache(cache0, to_cache@, es, cached_indices(c0, sizes, i as nat)),
            extends_payload(payload0, to_payload@, es, payload_indices(c0, sizes, i as nat)),
        decreases entries@.len() - i,
    {
        let ghost cache_before = to_cache@;
        let ghost payload_before = to_payload@;
        let ghost use_before = predicator.cache_use();
        let entry = &entries[i];
        assert(es[i as int] == (entry.0@, entry.1));
        assert(sizes.take(i + 1).drop_last() =~= sizes.take(i as int));
        assert(sizes.take(i + 1).last() == sizes[i as int]);
        let res = dispatch_file(&entry.0, entry.1, predicator, to_payload, to_cache);
        match res {
            Ok(()) => {},
            Err(e) => {
                proof {
                    assert(es[i as int].1 > GIGA_FILE);
                    assert(!all_fit(es, es.len() as int));
                    assert(predicator.cache_use() == predicate_run(c0, sizes.take(i as int)));
                    assert(e == GlobalError::FileToBig);
                    assert(to_cache@ == cache_before);
                    assert(to_payload@ == payload_before);
                    assert(extends_cache(cache0, to_cache@, es, cached_indices(c0, sizes, i as nat)));
                    assert(extends_payload(payload0, to_payload@, es, payload_indices(c0, sizes, i as nat)));
                    assert(dispatched_upto(c0, es, i as int, predicator.cache_use(), cache0, to_cache@, payload0, to_payload@));
                    assert(entries_view(entries@)[i as int].1 > GIGA_FILE);
                }
                return Err(e);
            },
        }
        proof {
            let ci = cached_indices(c0, sizes, i as nat);
            let pi = payload_indices(c0, sizes, i as nat);
            if cached_at(c0, sizes, i as int) {
                assert(cached_indices(c0, sizes, (i + 1) as nat) == ci.push(i as int));
                assert(payload_indices(c0, sizes, (i + 1) as nat) == pi);
                assert(to_cache@.take(cache0.len() as int) =~= cache_before.take(cache0.len() as int));
                assert forall|k: int| 0 <= k < ci.len() + 1 implies
                    is_cache_file(#[trigger] to_cache@[cache0.len() + k], es[ci.push(i as int)[k]].0, es[ci.push(i as int)[k]].1) by {
                    if k < ci.len() {
                        assert(to_cache@[cache0.len() + k] == cache_before[cache0.len() + k]);
                    }
                }
            } else {
                assert(cached_indices(c0, sizes, (i + 1) as nat) == ci);
                assert(payload_indices(c0, sizes, (i + 1) as nat) == pi.push(i as int));
                assert(to_payload@.take(payload0.len() as int) =~= payload_before.take(payload0.len() as int));
                assert forall|k: int| 0 <= k < pi.len() + 1 implies
                    is_payload_file(#[trigger] to_payload@[payload0.len() + k], es[pi.push(i as int)[k]].0, es[pi.push(i as int)[k]].1) by {
                    if k < pi.len() {
                        assert(to_payload@[payload0.len() + k] == payload_before[payload0.len() + k]);
                    }
                }
            }
        }
        i += 1;
    }
    proof {
        assert(sizes.take(entries@.len() as int) =~= sizes);
    }
    Ok(())
}


/// The files below a listing with their lengths, depth first, in listing
/// order.
pub open spec fn file_entries_of_list(ns: Seq<FsNode>) -> Seq<(Seq<char>, u64)>
    decreases ns,
{
    if ns.len() == 0 {
        Seq::empty()
    } else {
        let last = ns[ns.len() - 1];
        file_entries_of_list(ns.subrange(0, ns.len() - 1)) + match last {
            FsNode::File { path, len, .. } => seq![(path@, len)],
            FsNode::Dir { children, .. } => {
                proof {
                    assert(decreases_to!(ns => ns[ns.len() - 1]));
                }
                file_entries_of_list(children@)
            },
        }
    }
}

fn collect_file_entries(nodes: &Vec<FsNode>, out: &mut Vec<(String, u64)>)
    ensures
        entries_view(final(out)@) == entries_view(old(out)@) + file_entries_of_list(nodes@),
    decreases nodes@,
{
    let ghost start = entries_view(out@);
    let mut i: usize = 0;
    while i < nodes.len()
        invariant
            i <= nodes@.len(),
            entries_view(out@) == start + file_entries_of_list(nodes@.subrange(0, i as int)),
        decreases nodes@.len() - i,
    {
        let ghost before = entries_view(out@);
        assert(nodes@.subrange(0, i + 1).subrange(0, i as int) == nodes@.subrange(0, i as int));
        match &nodes[i] {
            FsNode::File { path, len, .. } => {
                let ghost prev = out@;
                out.push((path.clone(), *len));
                assert(entries_view(out@) =~= before.push((path@, *len)));
            },
            FsNode::Dir { children, .. } => {
                proof {
                    assert(decreases_to!(nodes@ => nodes@[i as int]));
                }
                collect_file_entries(children, out);
            },
        }
        i += 1;
    }
    assert(nodes@.subrange(0, nodes@.len() as int) == nodes@);
}

/// Walks the listing depth first and dispatches each file met, as
/// `dispatch_entries` does with the files in the order met.
pub fn recusive_dispacher(
    listing: &Vec<FsNode>,
    predicator: &mut PredicatorCache,
    to_payload: &mut Vec<PayloadFile>,
    to_cache: &mut Vec<CachedFile>,
) -> (r: Result<(), GlobalError>)
    ensures
        ({
            let es = file_entries_of_list(listing@);
            &&& r is Ok <==> all_fit(es, es.len() as int)
            &&& r is Ok ==> dispatched_upto(old(predicator).cache_use(), es, es.len() as int,
                final(predicator).cache_use(), old(to_cache)@, final(to_cache)@, old(to_payload)@, final(to_payload)@)
            &&& r is Err ==> (r matches Err(GlobalError::FileToBig))
            &&& r is Err ==> exists|j: int| 0 <= j < es.len() && (#[trigger] es[j]).1 > GIGA_FILE
                && all_fit(es, j)
                && dispatched_upto(old(predicator).cache_use(), es, j,
                    final(predicator).cache_use(), old(to_cache)@, final(to_cache)@, old(to_payload)@, final(to_payload)@)
        }),
{
    let mut entries: Vec<(String, u64)> = Vec::new();
    collect_file_entries(listing, &mut entries);
    assert(entries_view(entries@) =~= file_entries_of_list(listing@));
    dispatch_entries(&entries, predicator, to_payload, to_cache)
}

/// Splits the files of the shared directory `dir`, given with their
/// lengths, between the cache and the files read on request, starting
/// from an empty cache. Any file refused makes the whole directory
/// refused with `NotExistingDir(dir)`.
pub fn split_payloads(dir: &str, files: &Vec<(String, u64)>) -> (r: Result<(Vec<PayloadFile>, Vec<CachedFile>), GlobalError>)
    ensures
        ({
            let es = entries_view(files@);
            &&& r is Ok <==> all_fit(es, es.len() as int)
            &&& r matches Ok((p, c)) ==> {
                &&& extends_cache(Seq::empty(), c@, es, cached_indices(0, sizes_of(es), es.len()))
                &&& extends_payload(Seq::empty(), p@, es, payload_indices(0, sizes_of(es), es.len()))
            }
            &&& r matches Err(e) ==> (e matches GlobalError::NotExistingDir(d) && d@ == dir@)
        }),
{
    let mut data_to_payload: Vec<PayloadFile> = Vec::new();
    let mut data_to_cache: Vec<CachedFile> = Vec::new();
    let mut predicator = PredicatorCache::default();
    match dispatch_entries(files, &mut predicator, &mut data_to_payload, &mut data_to_cache) {
        Ok(()) => Ok((data_to_payload, data_to_cache)),
        Err(_) => Err(GlobalError::NotExistingDir(dir.to_string())),
    }
}

} // verus!
