use virtual_file::commun_utils::errors::GlobalError;
use virtual_file::fs_handler::json_struct::JsonInfo;
use virtual_file::virtual_fs::messages::{end_messages, payload_messages, OutMessage};
use virtual_file::virtual_fs::errors::GlobalError as StateError;
use virtual_file::virtual_fs::iterator::tcp_shared::TcpSharedContentCollection;
use virtual_file::commun_utils::fs_strategies::{FileReader, FsNode, CHUNK_SMALL_SLICE, GIGA_FILE, LARGE_FILE, MEDIUM_FILE};
use virtual_file::snapshot::snapshot_digest;
use virtual_file::text::{bytes_to_hex, parse_usize, u64_to_decimal};
use virtual_file::virtual_fs::general::Asset;
use virtual_file::virtual_fs::iterator::cached_data::{
    CacheCollection as IndexedCache, CachedFile, IndexAccessor, IndexSliceAccessor, StaticCollection as _,
};
use virtual_file::virtual_fs::iterator::collections::{
    CacheCollection, PayloadCollection, PayloadFile, StaticAssetIterator, StaticAssetsCollection,
};
use virtual_file::virtual_fs::iterator::file_info_reader::PayloadCollection as IndexedPayloads;
use virtual_file::virtual_fs::iterator::utils::{IndexSliceHelper, StaticCollection};
use virtual_file::virtual_fs::payloads::payload::DataFile;
use virtual_file::virtual_fs::resolver::{dispatch_file, recusive_dispacher, split_payloads};
use virtual_file::virtual_fs::runtime::FakeToSubPath;
use virtual_file::virtual_fs::states::PredicatorCache;
use virtual_file::virtual_fs::async_strategies::FileAsyncReader;

fn cached(path: &str, len: u64) -> CachedFile {
    DataFile::new(FileReader::try_from(FakeToSubPath::from_path(path), len).unwrap()).unwrap()
}

fn payload(path: &str, len: u64) -> PayloadFile {
    DataFile::new(FileAsyncReader::try_from(FakeToSubPath::from_path_buf(path.to_string()), len).unwrap()).unwrap()
}

#[test]
fn index_accessor_last_write_wins() {
    let mut acc = IndexAccessor::default();
    acc.append_index("a".to_string());
    acc.append_index("b".to_string());
    assert_eq!(acc.get_index(&"a".to_string()), Some(0));
    assert_eq!(acc.get_index(&"b".to_string()), Some(1));
    acc.append_index("a".to_string());
    assert_eq!(acc.get_index(&"a".to_string()), Some(2));
    assert_eq!(acc.get_index(&"b".to_string()), Some(1));
    assert_eq!(acc.get_index(&"c".to_string()), None);
}

#[test]
fn slices_follow_one_another() {
    let mut acc = IndexSliceAccessor::default();
    acc.append_slice("x".to_string(), 3);
    acc.append_slice("y".to_string(), 0);
    acc.append_slice("z".to_string(), 2);
    assert_eq!(acc.get_slice(0), (0, 3));
    assert_eq!(acc.get_slice(1), (3, 3));
    assert_eq!(acc.get_slice(2), (3, 5));
    assert_eq!(acc.deref().get_index(&"z".to_string()), Some(2));
    let mut helper = IndexSliceHelper::default();
    let mut slices = Vec::new();
    helper.append_slice(4, &mut slices);
    helper.append_slice(1, &mut slices);
    assert_eq!(slices, vec![(0, 4), (4, 5)]);
}

#[test]
fn indexed_cache_search_and_walk() {
    let files = vec![cached("/v/a.txt", 3), cached("/v/b.bin", 2)];
    let contents = vec![b"abc".to_vec(), b"xy".to_vec()];
    let col = IndexedCache::try_from(&files, &contents).unwrap();
    assert_eq!(col.length(), 2);
    let (bufs, header) = col.search(&"/v/b.bin".to_string()).unwrap();
    assert_eq!(bufs, &[b"xy".to_vec()][..]);
    assert_eq!(header, r#"{"url":"/v/b.bin","chunks":1,"type_file":"bin"}"#);
    assert!(col.search(&"/v/none".to_string()).is_none());
    let mut it = col.iter();
    let (b0, h0) = it.next().unwrap();
    assert_eq!(b0, &[b"abc".to_vec()][..]);
    assert_eq!(h0, r#"{"url":"/v/a.txt","chunks":1,"type_file":"txt"}"#);
    assert!(it.next().is_some());
    assert!(it.next().is_none());
}

#[test]
fn collections_refuse_second_instance() {
    assert!(matches!(PayloadCollection::try_from(Vec::new(), true), Err(GlobalError::SingleInstanceBreach)));
    assert!(matches!(CacheCollection::try_from(&Vec::new(), &Vec::new(), true), Err(GlobalError::SingleInstanceBreach)));
    assert!(matches!(StaticAssetsCollection::new(true, None, None), Err(GlobalError::SingleInstanceBreach)));
}

#[test]
fn cache_collection_slices_by_announced_chunks() {
    let big_len = LARGE_FILE + 5;
    let big: Vec<u8> = (0..big_len as usize).map(|i| (i % 7) as u8).collect();
    let files = vec![cached("/v/small", 2), cached("/v/big", big_len), cached("/v/last", 1)];
    let contents = vec![b"hi".to_vec(), big.clone(), b"z".to_vec()];
    let col = CacheCollection::try_from(&files, &contents, false).unwrap();
    assert_eq!(col.length(), 3);
    assert_eq!(col.url(1), "/v/big");
    let announced = (big_len as usize) / CHUNK_SMALL_SLICE;
    let it = StaticAssetIterator::new(&col);
    let (b0, _) = it.get_item(0).unwrap();
    assert_eq!(b0, &[b"hi".to_vec()][..]);
    let (b1, h1) = it.get_item(1).unwrap();
    assert_eq!(b1.len(), announced);
    assert_eq!(b1[0], big[..CHUNK_SMALL_SLICE].to_vec());
    assert_eq!(h1, &format!(r#"{{"url":"/v/big","chunks":{},"type_file":""}}"#, announced));
    let (b2, _) = it.get_item(2).unwrap();
    assert_eq!(b2.len(), 1);
    assert_eq!(b2[0], big[announced * CHUNK_SMALL_SLICE..].to_vec());
    assert!(it.get_item(3).is_none());
    assert!(it.index_exist(2));
    assert!(!it.index_exist(3));
}

#[test]
fn static_asset_iterator_walks_payloads() {
    let col = PayloadCollection::try_from(vec![payload("/v/p/index.qcow", 10), payload("/v/q", 20)], false).unwrap();
    assert_eq!(col.length(), 2);
    let mut it = StaticAssetIterator::new(&col);
    assert!(it.is_valid());
    assert_eq!(it.next().unwrap().get_payload().url_text(), "/v/p");
    assert_eq!(it.next().unwrap().get_payload().url_text(), "/v");
    assert!(!it.is_valid());
    assert!(it.next().is_none());
}

#[test]
fn assets_found_by_path_payloads_win() {
    let files = vec![cached("/v/a", 1), cached("/v/b", 1)];
    let contents = vec![b"1".to_vec(), b"2".to_vec()];
    let caches = CacheCollection::try_from(&files, &contents, false).unwrap();
    let payloads = PayloadCollection::try_from(vec![payload("/v/b", 5), payload("/v/c", 6)], false).unwrap();
    let assets = StaticAssetsCollection::new(false, Some(&caches), Some(&payloads)).unwrap();
    assert_eq!(assets.search(&"/v/a".to_string()), Some(Asset::Cache(0)));
    assert_eq!(assets.search(&"/v/b".to_string()), Some(Asset::Payload(0)));
    assert_eq!(assets.search(&"/v/c".to_string()), Some(Asset::Payload(1)));
    assert_eq!(assets.search(&"/v/d".to_string()), None);
    let empty = StaticAssetsCollection::new(false, None, None).unwrap();
    assert_eq!(empty.search(&"/v/a".to_string()), None);
}

#[test]
fn indexed_payloads_search() {
    let col = IndexedPayloads::from(vec![cached("/v/a", 1), cached("/v/b", 2), cached("/v/a", 3)]);
    let mut it = col.iter();
    let found = it.search(&"/v/a".to_string()).unwrap();
    assert_eq!(found.deref().get_len(), 3);
    assert!(it.search(&"/v/z".to_string()).is_none());
    assert_eq!(it.next().unwrap().deref().get_len(), 1);
    assert_eq!(it.next().unwrap().deref().get_len(), 2);
    assert_eq!(it.next().unwrap().deref().get_len(), 3);
    assert!(it.next().is_none());
}

#[test]
fn dispatch_small_to_cache_large_to_payload() {
    let mut pred = PredicatorCache::default();
    let mut to_payload = Vec::new();
    let mut to_cache = Vec::new();
    assert!(dispatch_file(&"/v/s".to_string(), 10, &mut pred, &mut to_payload, &mut to_cache).is_ok());
    assert!(dispatch_file(&"/v/dir/index.qcow".to_string(), MEDIUM_FILE + 1, &mut pred, &mut to_payload, &mut to_cache).is_ok());
    assert_eq!(to_cache.len(), 1);
    assert_eq!(to_payload.len(), 1);
    assert_eq!(pred.get_cache_use(), 10);
    assert_eq!(to_payload[0].get_payload().url_text(), "/v/dir");
    assert_eq!(to_cache[0].get_payload().url_text(), "/v/s");
    let r = dispatch_file(&"/v/huge".to_string(), GIGA_FILE + 1, &mut pred, &mut to_payload, &mut to_cache);
    assert!(matches!(r, Err(GlobalError::FileToBig)));
    assert_eq!(to_payload.len(), 1);
}

#[test]
fn split_refuses_directory_with_giga_file() {
    let files = vec![("/v/a".to_string(), 1u64), ("/v/big".to_string(), GIGA_FILE + 1)];
    match split_payloads("/v", &files) {
        Err(GlobalError::NotExistingDir(d)) => assert_eq!(d, "/v"),
        _ => panic!("expected the directory to be refused"),
    }
    let ok = vec![("/v/a".to_string(), 1u64), ("/v/b".to_string(), LARGE_FILE)];
    let (payloads, caches) = split_payloads("/v", &ok).unwrap();
    assert_eq!(caches.len(), 1);
    assert_eq!(payloads.len(), 1);
}

#[test]
fn recursive_dispatch_walks_tree() {
    let listing = vec![
        FsNode::File { path: "/v/a".to_string(), name: "a".to_string(), len: 5, utf8_path: true },
        FsNode::Dir {
            path: "/v/d".to_string(),
            name: "d".to_string(),
            children: vec![FsNode::File { path: "/v/d/b".to_string(), name: "b".to_string(), len: LARGE_FILE, utf8_path: true }],
        },
    ];
    let mut pred = PredicatorCache::default();
    let mut to_payload = Vec::new();
    let mut to_cache = Vec::new();
    assert!(recusive_dispacher(&listing, &mut pred, &mut to_payload, &mut to_cache).is_ok());
    assert_eq!(to_cache.len(), 1);
    assert_eq!(to_payload.len(), 1);
    assert_eq!(to_payload[0].deref().get_len(), LARGE_FILE);
}

#[test]
fn snapshot_hashes_paths_and_contents() {
    let files = vec![
        FileReader::try_from("t/a.txt".to_string(), 3).unwrap(),
        FileReader::try_from("t/b.txt".to_string(), 0).unwrap(),
    ];
    let contents = vec![b"abc".to_vec(), Vec::new()];
    let mut hasher = blake3::Hasher::new();
    hasher.update(b"t/a.txt");
    hasher.update(b"abc");
    hasher.update(b"t/b.txt");
    let expected = hasher.finalize().to_hex().to_string();
    assert_eq!(snapshot_digest(&files, &contents), expected);
    assert_eq!(snapshot_digest(&Vec::new(), &Vec::new()), blake3::hash(b"").to_hex().to_string());
}

#[test]
fn text_helpers() {
    assert_eq!(bytes_to_hex(&[0x00, 0xab, 0x10, 0xff]), "00ab10ff");
    assert_eq!(u64_to_decimal(0), "0");
    assert_eq!(u64_to_decimal(1234567890), "1234567890");
    assert_eq!(parse_usize("+17"), Some(17));
    assert_eq!(parse_usize("007"), Some(7));
    assert_eq!(parse_usize(""), None);
    assert_eq!(parse_usize("1 2"), None);
    assert_eq!(parse_usize("99999999999999999999999"), None);
}

#[test]
fn shared_content_needs_all_parts() {
    let data: Vec<Vec<u8>> = Vec::new();
    assert!(matches!(TcpSharedContentCollection::new(Some(&data), None, None), Err(StateError::UninitializedVariable)));
}

#[test]
fn shared_content_slices_and_search() {
    let big = LARGE_FILE + 2 * 128 * 1024;
    let infos = vec![JsonInfo::new("a", 1), JsonInfo::new("b", big), JsonInfo::new("a", 2)];
    let n_big = (big / (128 * 1024)) as usize;
    let data: Vec<Vec<u8>> = (0..(2 + n_big)).map(|i| vec![i as u8]).collect();
    let payloads = vec!["ha".to_string(), "hb".to_string(), "ha2".to_string()];
    let col = TcpSharedContentCollection::new(Some(&data), Some(&payloads), Some(&infos)).unwrap();
    let (d, p, j) = col.search(&"a".to_string()).unwrap();
    assert_eq!(p, "ha2");
    assert_eq!(j.get_url(), "a");
    assert_eq!(d, &[vec![(1 + n_big) as u8]][..]);
    let (d, p, _) = col.search(&"b".to_string()).unwrap();
    assert_eq!(p, "hb");
    assert_eq!(d.len(), n_big);
    assert_eq!(d[0], vec![1u8]);
    assert!(col.search(&"c".to_string()).is_none());
    let mut it = col.iter();
    let (d0, p0, _) = it.next().unwrap();
    assert_eq!((d0, p0.as_str()), (&[vec![0u8]][..], "ha"));
    assert!(it.next().is_some());
    assert!(it.next().is_some());
    assert!(it.next().is_none());
}

#[test]
fn shared_iteration_matches_search() {
    let infos = vec![JsonInfo::new("u1", 1), JsonInfo::new("u2", 2), JsonInfo::new("u3", 3)];
    let data: Vec<Vec<u8>> = vec![vec![1], vec![2], vec![3]];
    let payloads = vec!["p1".to_string(), "p2".to_string(), "p3".to_string()];
    let col = TcpSharedContentCollection::new(Some(&data), Some(&payloads), Some(&infos)).unwrap();
    let mut it = col.iter();
    for info in &infos {
        let item = it.next().unwrap();
        let found = col.search(&info.get_url().to_string()).unwrap();
        assert_eq!(item.0, found.0);
        assert_eq!(item.1, found.1);
        assert_eq!(item.2.get_url(), found.2.get_url());
    }
    assert!(it.next().is_none());
}

#[test]
fn index_numbers_count_every_call() {
    let mut acc = IndexAccessor::default();
    for k in ["x", "y", "x", "x", "z"] {
        acc.append_index(k.to_string());
    }
    assert_eq!(acc.get_index(&"x".to_string()), Some(3));
    assert_eq!(acc.get_index(&"y".to_string()), Some(1));
    assert_eq!(acc.get_index(&"z".to_string()), Some(4));
}

#[test]
fn file_messages_in_order() {
    let msgs = payload_messages("head", &[vec![1u8, 2], vec![3u8]]);
    assert_eq!(msgs.len(), 3);
    assert!(matches!(&msgs[0], OutMessage::Text(t) if t == "head"));
    assert!(matches!(&msgs[1], OutMessage::Binary(b) if b == &vec![1u8, 2]));
    assert!(matches!(&msgs[2], OutMessage::Binary(b) if b == &vec![3u8]));
    let end = end_messages();
    assert!(matches!(&end[0], OutMessage::Text(t) if t == "end"));
    assert!(matches!(&end[1], OutMessage::Close));
}

#[test]
fn shared_search_misses_without_size_checks() {
    let infos = vec![JsonInfo::new("a", 1), JsonInfo::new("b", 1)];
    let data: Vec<Vec<u8>> = vec![vec![7]];
    let payloads = vec!["pa".to_string()];
    let col = TcpSharedContentCollection::new(Some(&data), Some(&payloads), Some(&infos)).unwrap();
    assert!(col.search(&"zz".to_string()).is_none());
    let (d, p, _) = col.search(&"a".to_string()).unwrap();
    assert_eq!((d, p.as_str()), (&[vec![7u8]][..], "pa"));
    let mut it = col.iter();
    assert!(it.next().is_some());
    assert!(it.next().is_none());
}
