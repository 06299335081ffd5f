use virtual_file::commun_utils::fs_strategies::FsNode;
use virtual_file::fs_handler::collection::PayloadCollection;
use virtual_file::fs_handler::component::{ta0043_targets, ScanTargetError};
use virtual_file::fs_handler::errors::GlobalHandlerError;
use virtual_file::fs_handler::fs_read::{DirReader, FileReader as TreeReader, ResolveError};
use virtual_file::fs_handler::fs_resolve::Resolve;
use virtual_file::fs_handler::item::FileReader;
use virtual_file::fs_handler::json_struct::JsonInfo;
use virtual_file::fs_handler::payload_request::DataFile;
use virtual_file::fs_handler::strategy::{ReadStrategy, GIGA_FILE, HUGE_FILE, LARGE_FILE, MEDIUM_FILE};

#[test]
fn handler_strategy_boundaries() {
    assert_eq!(ReadStrategy::from_len(MEDIUM_FILE), ReadStrategy::Smale);
    assert_eq!(ReadStrategy::from_len(MEDIUM_FILE + 1), ReadStrategy::Medium);
    assert_eq!(ReadStrategy::from_len(LARGE_FILE + 1), ReadStrategy::Large);
    assert_eq!(ReadStrategy::from_len(HUGE_FILE + 1), ReadStrategy::ExtraLarge);
    assert_eq!(ReadStrategy::from_len(GIGA_FILE + 1), ReadStrategy::GigaLarge);
}

#[test]
fn small_strategy_pushes_the_content() {
    let content = b"abc".to_vec();
    let mut buffers = Vec::new();
    let r = ReadStrategy::Smale.excute_reader_strategy(&mut buffers, "f", 3, &content);
    assert!(r.is_ok());
    assert_eq!(buffers, vec![content]);
}

#[test]
fn chunked_strategy_pushes_one_empty_buffer() {
    let content = vec![1u8; 10];
    let mut buffers = vec![vec![5u8]];
    let r = ReadStrategy::Large.excute_reader_strategy(&mut buffers, "f", 10, &content);
    assert!(r.is_ok());
    assert_eq!(buffers, vec![vec![5u8], Vec::new()]);
}

#[test]
fn handler_reader_flushes_small_file() {
    let reader = FileReader::new("dir/a.txt", 4);
    assert_eq!(reader.get_string_lossy_url(), "dir/a.txt");
    assert_eq!(*reader.get_strategy(), ReadStrategy::Smale);
    let mut buffers = Vec::new();
    assert!(reader.flush_data(&b"data".to_vec(), &mut buffers).is_ok());
    assert_eq!(buffers, vec![b"data".to_vec()]);
}

#[test]
fn header_json_text() {
    let info = JsonInfo::new("site/app.js", 10);
    assert_eq!(info.get_url(), "site/app.js");
    assert_eq!(info.get_chunks(), 1);
    let text = info.stringify().unwrap();
    assert_eq!(text, r#"{"url":"site/app.js","size":10,"chunks":1,"type_file":"js"}"#);
    assert_eq!(info.predict_header_capacity().unwrap(), text.len());
}

#[test]
fn header_of_large_file_announces_slices() {
    let len = LARGE_FILE + 3 * 128 * 1024;
    let info = JsonInfo::new("big", len);
    assert_eq!(info.get_chunks(), (len / (128 * 1024)) as usize);
    let text = info.stringify().unwrap();
    assert_eq!(text, format!(r#"{{"url":"big","size":{},"chunks":{},"type_file":""}}"#, len, len / (128 * 1024)));
}

#[test]
fn header_escapes_quotes() {
    let info = JsonInfo::new("a\"b.txt", 0);
    assert_eq!(info.stringify().unwrap(), r#"{"url":"a\"b.txt","size":0,"chunks":1,"type_file":"txt"}"#);
}

#[test]
fn predicted_capacity_formula() {
    assert_eq!(DataFile::new("s", 100).predict_capacity(), 132);
    let len = LARGE_FILE + 1;
    let expected = len + (len / (128 * 1024)) * 32;
    assert_eq!(DataFile::new("l", len).predict_capacity(), expected);
    let len = HUGE_FILE + 1;
    assert_eq!(DataFile::new("x", len).predict_capacity(), len + (len / (256 * 1024)) * 32);
    assert_eq!(DataFile::new("g", GIGA_FILE + 1).predict_capacity(), 0);
}

#[test]
fn payload_iterator_walks_and_counts() {
    let mut files = vec![DataFile::new("a", 1), DataFile::new("b", 2)];
    let col = PayloadCollection::from(&mut files);
    let mut it = col.iter();
    it.add_capacity_to_allocate(40);
    it.add_capacity_to_allocate(2);
    assert_eq!(it.try_get_capacity_allocate().unwrap(), 42);
    assert!(it.next().is_some());
    assert!(it.next().is_some());
    assert!(it.next().is_none());
    it.reverse();
    assert!(it.next().is_some());
    assert_eq!(it.try_get_capacity_allocate().unwrap(), 42);
}

fn node_file(path: &str, utf8: bool) -> FsNode {
    FsNode::File { path: path.to_string(), name: path.to_string(), len: 1, utf8_path: utf8 }
}

#[test]
fn resolve_collects_all_readable_paths() {
    let listing = vec![
        node_file("a", true),
        FsNode::Dir { path: "d".to_string(), name: "d".to_string(), children: vec![node_file("d/b", true)] },
    ];
    let mut entries = vec!["x".to_string()];
    assert!(<Resolve as TreeReader>::recursive(&listing, &mut entries).is_ok());
    assert_eq!(entries, vec!["x", "a", "d/b"]);
    assert_eq!(<Resolve as DirReader>::recursive(&listing).unwrap(), vec!["a", "d/b"]);
}

#[test]
fn resolve_stops_at_unreadable_name() {
    let listing = vec![node_file("a", true), node_file("bad", false), node_file("c", true)];
    let mut entries = Vec::new();
    assert_eq!(<Resolve as TreeReader>::recursive(&listing, &mut entries), Err(ResolveError::InvalidFilename));
    assert_eq!(entries, vec!["a"]);
    assert_eq!(<Resolve as DirReader>::recursive(&listing), Err(ResolveError::InvalidFilename));
}

#[test]
fn handler_error_text() {
    assert_eq!(GlobalHandlerError::TryFromIntError.description(), "value can't be transform");
    let e: GlobalHandlerError = u8::try_from(300u32).unwrap_err().into();
    assert!(matches!(e, GlobalHandlerError::TryFromIntError));
}

#[test]
fn scan_targets_by_extension() {
    let files = vec![
        ("fs/app.js".to_string(), 10u64),
        ("fs/pic.PNG".to_string(), 20),
        ("fs/readme.md".to_string(), 30),
        ("fs/mod.wasm".to_string(), 40),
        ("fs/lib.mjs".to_string(), 50),
        ("fs/photo.jpeg".to_string(), 60),
    ];
    let (images, apps) = ta0043_targets(&files).unwrap();
    let image_paths: Vec<&str> = images.iter().map(|r| r.get_string_lossy_url()).collect();
    let app_paths: Vec<&str> = apps.iter().map(|r| r.get_string_lossy_url()).collect();
    assert_eq!(image_paths, vec!["fs/pic.PNG", "fs/photo.jpeg"]);
    assert_eq!(app_paths, vec!["fs/app.js", "fs/mod.wasm", "fs/lib.mjs"]);
    assert_eq!(images[0].get_len(), 20);
}

#[test]
fn scan_targets_refuse_giant_picked_file() {
    let files = vec![
        ("fs/notes.txt".to_string(), GIGA_FILE + 1),
        ("fs/a.js".to_string(), 1u64),
        ("fs/huge.png".to_string(), GIGA_FILE + 1),
        ("fs/huge2.js".to_string(), GIGA_FILE + 2),
    ];
    match ta0043_targets(&files) {
        Err(ScanTargetError::FileToBig(p)) => assert_eq!(p, "fs/huge.png"),
        other => panic!("unexpected {:?}", other.map(|_| ())),
    }
    let fine = vec![("fs/notes.txt".to_string(), GIGA_FILE + 1), ("fs/a.js".to_string(), 1u64)];
    let (images, apps) = ta0043_targets(&fine).unwrap();
    assert!(images.is_empty());
    assert_eq!(apps.len(), 1);
}

#[test]
fn header_escapes_control_characters() {
    let info = JsonInfo::new("a\tb\u{1}\\c", 0);
    assert_eq!(info.stringify().unwrap(), r#"{"url":"a\tb\u0001\\c","size":0,"chunks":1,"type_file":""}"#);
}
