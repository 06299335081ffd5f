use virtual_file::commun_utils::collection::{Collection, GenericCollection};
use virtual_file::commun_utils::errors::GlobalError;
use virtual_file::commun_utils::fs_strategies::{
    FileReader, FsNode, ReadStrategy, CHUNK_MEDIUM_SLICE, CHUNK_SMALL_SLICE, GIGA_FILE,
    HUGE_FILE, LARGE_FILE, MEDIUM_FILE, recursive_file_read,
};
use virtual_file::commun_utils::iterable::IterableStringifyEnum;
use virtual_file::commun_utils::scan::{join_with, FileScanner, ScanBytesSubject, ScanVerdict};
use virtual_file::fs_handler::lexer::{MalwareWarnRaiseApp, MalwareWarnRaiseImg};
use virtual_file::virtual_fs::general::{CommandProtocols, Flag, Protocols};

fn rank(s: &ReadStrategy) -> u8 {
    match s {
        ReadStrategy::Smale => 0,
        ReadStrategy::Medium => 1,
        ReadStrategy::Large => 2,
        ReadStrategy::ExtraLarge => 3,
    }
}

#[test]
fn strategy_boundaries() {
    assert!(matches!(ReadStrategy::try_from(0), Ok(ReadStrategy::Smale)));
    assert!(matches!(ReadStrategy::try_from(MEDIUM_FILE), Ok(ReadStrategy::Smale)));
    assert!(matches!(ReadStrategy::try_from(MEDIUM_FILE + 1), Ok(ReadStrategy::Medium)));
    assert!(matches!(ReadStrategy::try_from(LARGE_FILE), Ok(ReadStrategy::Medium)));
    assert!(matches!(ReadStrategy::try_from(LARGE_FILE + 1), Ok(ReadStrategy::Large)));
    assert!(matches!(ReadStrategy::try_from(HUGE_FILE), Ok(ReadStrategy::Large)));
    assert!(matches!(ReadStrategy::try_from(HUGE_FILE + 1), Ok(ReadStrategy::ExtraLarge)));
    assert!(matches!(ReadStrategy::try_from(GIGA_FILE), Ok(ReadStrategy::ExtraLarge)));
    assert!(matches!(ReadStrategy::try_from(GIGA_FILE + 1), Err(GlobalError::FileToBig)));
}

#[test]
fn strategy_is_monotonic_on_samples() {
    let lens = [0u64, 10, MEDIUM_FILE, MEDIUM_FILE + 1, 5_000_000, LARGE_FILE + 1, HUGE_FILE + 7, GIGA_FILE];
    for w in lens.windows(2) {
        let a = ReadStrategy::try_from(w[0]).unwrap();
        let b = ReadStrategy::try_from(w[1]).unwrap();
        assert!(rank(&a) <= rank(&b));
    }
}

#[test]
fn chunk_sizes() {
    assert_eq!(CHUNK_SMALL_SLICE, 131072);
    assert_eq!(CHUNK_MEDIUM_SLICE, 262144);
    assert_eq!(GIGA_FILE, 1073741824);
}

#[test]
fn file_reader_refuses_giga_files() {
    let r = FileReader::try_from(String::from("big.bin"), GIGA_FILE + 1);
    assert!(matches!(r, Err(GlobalError::FileToBig)));
}

#[test]
fn small_file_is_one_buffer() {
    let content: Vec<u8> = b"hello world".to_vec();
    let reader = FileReader::try_from(String::from("a/b.txt"), content.len() as u64).unwrap();
    assert!(matches!(reader.get_strategy(), ReadStrategy::Smale));
    assert_eq!(reader.get_string_lossy_url(), "a/b.txt");
    let mut buffers: Vec<Vec<u8>> = vec![vec![9u8]];
    reader.flush_data(&content, &mut buffers);
    assert_eq!(buffers, vec![vec![9u8], content.clone()]);
}

#[test]
fn large_file_is_cut_in_small_slices() {
    let len = (LARGE_FILE + 1) as usize;
    let content: Vec<u8> = (0..len).map(|i| (i % 251) as u8).collect();
    let reader = FileReader::try_from(String::from("l.bin"), len as u64).unwrap();
    assert!(matches!(reader.get_strategy(), ReadStrategy::Large));
    let buffers = reader.use_accross_data(&content);
    assert_eq!(buffers.len(), (len + CHUNK_SMALL_SLICE - 1) / CHUNK_SMALL_SLICE);
    for b in &buffers[..buffers.len() - 1] {
        assert_eq!(b.len(), CHUNK_SMALL_SLICE);
    }
    assert_eq!(buffers.last().unwrap().len(), len % CHUNK_SMALL_SLICE);
    let joined: Vec<u8> = buffers.concat();
    assert_eq!(joined, content);
}

#[test]
fn medium_file_is_one_buffer() {
    let len = (MEDIUM_FILE + 5) as usize;
    let content: Vec<u8> = vec![7u8; len];
    let reader = FileReader::try_from(String::from("m.bin"), len as u64).unwrap();
    assert_eq!(reader.get_len(), len as u64);
    let mut buffers = Vec::new();
    reader.flush_data(&content, &mut buffers);
    assert_eq!(buffers.len(), 1);
    assert_eq!(buffers[0], content);
}

fn file(path: &str, name: &str, len: u64) -> FsNode {
    FsNode::File { path: path.to_string(), name: name.to_string(), len, utf8_path: true }
}

#[test]
fn walk_is_depth_first_in_listing_order() {
    let listing = vec![
        file("r/a", "a", 1),
        FsNode::Dir {
            path: "r/d".to_string(),
            name: "d".to_string(),
            children: vec![file("r/d/x", "x", 2), FsNode::Dir { path: "r/d/e".to_string(), name: "e".to_string(), children: vec![file("r/d/e/y", "y", 3)] }],
        },
        file("r/z", "z", 4),
    ];
    assert_eq!(recursive_file_read(&listing), vec!["r/a", "r/d/x", "r/d/e/y", "r/z"]);
    assert_eq!(recursive_file_read(&Vec::new()), Vec::<String>::new());
}

#[test]
fn global_error_texts() {
    assert_eq!(GlobalError::FileToBig.description(), "File to big to read.");
    assert_eq!(GlobalError::NotExistingDir("/srv".to_string()).description(), "the dir:'/srv.");
    assert_eq!(GlobalError::SingleInstanceBreach.description(), "instance cannot be duplicated.");
    assert_eq!(GlobalError::StringEnumInit("X".to_string()).description(), "variante enum: Xdoesn't exist.");
    assert_eq!(GlobalError::ParseError("oops".to_string()).description(), "oops");
    assert_eq!(GlobalError::JsonSerialize.description(), "can't serialize value.");
    assert_eq!(GlobalError::TryFromIntError.description(), "value can't be transform.");
    assert_eq!(GlobalError::UninitializedVariable.description(), "'tries to be waited for before being initialized.");
    assert_eq!(GlobalError::ResetOnceLock.description(), "Can't reset a oncelock static.");
    assert_eq!(GlobalError::WasiError.description(), "Something went wrong during the runing of a wasi component.");
}

#[test]
fn generic_collection_walks_in_order() {
    let (a, b, c) = (1u32, 2u32, 3u32);
    let mut col = GenericCollection::from(vec![&a]);
    col.add(&b);
    col.extend(&[&c]);
    assert_eq!(col.len(), 3);
    let mut it = col.iter();
    let mut seen = Vec::new();
    while let Some(x) = it.next() {
        seen.push(*x);
    }
    assert_eq!(seen, vec![1, 2, 3]);
    assert!(it.next().is_none());
    assert_eq!(GenericCollection::<u32>::default().len(), 0);
}

#[test]
fn labels_round_trip() {
    for p in Protocols::iter_enum() {
        let label = p.to_label();
        assert_eq!(Protocols::from_label(&label).unwrap(), p);
    }
    assert_eq!(Protocols::iter_enum().iter().map(|p| p.to_label()).collect::<Vec<_>>(), vec!["Read", "Write", "ExecJS"]);
    assert_eq!(CommandProtocols::iter_enum().len(), 2);
    assert_eq!(Flag::iter_enum().len(), Flag::iter_enum().len());
    assert_eq!(CommandProtocols::from_label("AddFile").unwrap(), CommandProtocols::AddFile);
}

#[test]
fn unknown_label_is_refused() {
    assert!(Protocols::from_label("read").is_err());
    assert!(CommandProtocols::from_label("").is_err());
}

#[test]
fn join_with_separator() {
    let ws = vec!["a".to_string(), "b".to_string(), "c".to_string()];
    assert_eq!(join_with(&ws, ","), "a,b,c");
    assert_eq!(join_with(&vec!["x".to_string()], ","), "x");
    assert_eq!(join_with(&Vec::new(), ","), "");
}

#[test]
fn scanner_patterns_compile() {
    assert!(MalwareWarnRaiseApp::scanner().is_ok());
    assert!(MalwareWarnRaiseImg::scanner().is_ok());
}

#[test]
fn clean_script_scans_clean() {
    let scanner = MalwareWarnRaiseApp::scanner().unwrap();
    let content = b"let a = 1;".to_vec();
    let reader = FileReader::try_from(String::from("ok.js"), content.len() as u64).unwrap();
    assert!(matches!(scanner.scan_data(&reader, &content), ScanVerdict::Clean));
    assert!(matches!(scanner.scan_file(&reader, &content), Ok(ScanVerdict::Clean)));
    assert!(scanner.scan_check(&reader, &content).0.is_empty());
}

#[test]
fn network_script_warns_once_per_pattern() {
    let scanner = MalwareWarnRaiseApp::scanner().unwrap();
    let content = b"fetch(x); fetch(y); new WebSocket(z)".to_vec();
    let reader = FileReader::try_from(String::from("net.js"), content.len() as u64).unwrap();
    match scanner.scan_file(&reader, &content).unwrap() {
        ScanVerdict::Warning { indices, warns, joined } => {
            assert!(indices.contains(&0));
            assert_eq!(indices.len(), warns.len());
            let mut sorted = indices.clone();
            sorted.dedup();
            assert_eq!(sorted.len(), indices.len());
            assert!(warns.contains(&"NetworkAccess".to_string()));
            assert!(joined.contains("NetworkAccess"));
        }
        other => panic!("unexpected verdict {:?}", other),
    }
}

#[test]
fn very_suspicious_script_is_blocked() {
    let scanner = MalwareWarnRaiseApp::scanner().unwrap();
    let text = "fetch https:// navigator.userAgent canvas.toDataURL document.cookie WebAssembly.compile \
                wasm_bindgen eval( 0x crypto.subtle process.env localhost shell";
    let content = text.as_bytes().to_vec();
    let reader = FileReader::try_from(String::from("bad.js"), content.len() as u64).unwrap();
    match scanner.scan_file(&reader, &content) {
        Err(message) => {
            assert!(message.starts_with("A suspicious file bad.js prevents the program from functioning(\""));
            assert!(message.ends_with("\")"));
        }
        Ok(other) => panic!("unexpected verdict {:?}", other),
    }
    let (indices, message) = scanner.scan_check(&reader, &content);
    assert!(indices.len() > 10);
    assert!(message.contains("NetworkAccess"));
    let (found, score) = scanner.find_matches(&reader, &content);
    assert_eq!(found, indices);
    assert_eq!(score, indices.len());
}

#[test]
fn scanner_with_bad_pattern_fails() {
    let r = ScanBytesSubject::new(&vec!["W".to_string()], &vec!["(".to_string()]);
    assert!(r.is_err());
}
