use virtual_file::commun_utils::errors::GlobalError as CommonError;
use virtual_file::commun_utils::fs_strategies::{FileReader, FsNode, ReadStrategy, CHUNK_SMALL_SLICE, GIGA_FILE, LARGE_FILE, MEDIUM_FILE};
use virtual_file::virtual_fs::async_strategies::{AsyncReadPlan, FileAsyncReader};
use virtual_file::virtual_fs::builder::{Director, WasiUtilsBuild};
use virtual_file::virtual_fs::errors::GlobalError;
use virtual_file::virtual_fs::general::{
    client_resolve_directories, plan_add_file, resolve_add_file, sanitize_file_name, AddFileError, Asset,
    ClientAction, CommandProtocols, DaemonAction, NavigatorProtocols, Protocols,
};
use virtual_file::virtual_fs::payloads::payload::{DataFile, ReaderStrategist};
use virtual_file::virtual_fs::read_strategies::ReadStrategy as VfReadStrategy;
use virtual_file::virtual_fs::runtime::FakeToSubPath;
use virtual_file::virtual_fs::states::{PredicatorCache, CACHE_CAP};
use virtual_file::virtual_fs::storage::{StoragePlan, StorageStrategy, StorageType};

#[test]
fn fake_path_links() {
    let own = FakeToSubPath::from_path("/srv/a.txt");
    assert_eq!(own.as_ref(), "/srv/a.txt");
    assert_eq!(own.get_link(), "/srv/a.txt");
    let sub = FakeToSubPath::from_path_buf("/srv/site/index.qcow".to_string());
    assert_eq!(sub.as_ref(), "/srv/site/index.qcow");
    assert_eq!(sub.get_link(), "/srv/site");
}

#[test]
fn predicator_accepts_small_files_under_cap() {
    let mut p = PredicatorCache::default();
    assert!(p.predicate_cache_use(100));
    assert!(p.predicate_cache_use(MEDIUM_FILE));
    assert_eq!(p.get_cache_use(), 100 + MEDIUM_FILE);
    assert!(!p.predicate_cache_use(MEDIUM_FILE + 1));
    assert_eq!(p.get_cache_use(), 100 + MEDIUM_FILE);
    assert!(p.get_cache_use() < CACHE_CAP);
}

#[test]
fn predicator_never_reaches_cap() {
    let mut p = PredicatorCache::default();
    let mut accepted: u64 = 0;
    for _ in 0..20000 {
        if p.predicate_cache_use(MEDIUM_FILE) {
            accepted += MEDIUM_FILE;
        }
    }
    assert_eq!(p.get_cache_use(), accepted);
    assert!(p.get_cache_use() < CACHE_CAP);
    assert_eq!(accepted, CACHE_CAP - MEDIUM_FILE);
}

#[test]
fn storage_by_size() {
    assert_eq!(StorageType::from(LARGE_FILE as usize), StorageType::Normal);
    assert_eq!(StorageType::from(LARGE_FILE as usize + 1), StorageType::Hashed);
    let s = StorageStrategy::from(StorageType::Hashed);
    assert_eq!(s.get_type_storage(), StorageType::Hashed);
    match s.get_dyn_storage_strategy("/vfs/big") {
        StoragePlan::HashContainerFile { dir, index_file } => {
            assert_eq!(dir, "/vfs/big");
            assert_eq!(index_file, "/vfs/big/index.qcow");
        }
        other => panic!("unexpected plan {:?}", other),
    }
    match StorageStrategy::from(StorageType::Normal).get_dyn_storage_strategy("/vfs/small") {
        StoragePlan::NormalFile(p) => assert_eq!(p, "/vfs/small"),
        other => panic!("unexpected plan {:?}", other),
    }
}

#[test]
fn file_names_are_cleaned() {
    assert_eq!(sanitize_file_name("../docs/my file.txt").unwrap(), "docs-myfile.txt");
    assert_eq!(sanitize_file_name("plain.txt").unwrap(), "plain.txt");
    assert_eq!(sanitize_file_name("a/b/c").unwrap(), "a-b-c");
}

#[test]
fn add_file_parses_size() {
    let (name, size) = resolve_add_file("x y.bin", "+42").unwrap();
    assert_eq!(name, "xy.bin");
    assert_eq!(size, 42);
    assert!(matches!(resolve_add_file("x", "4a2"), Err(AddFileError::Size)));
    assert!(matches!(resolve_add_file("x", ""), Err(AddFileError::Size)));
}

#[test]
fn add_file_plans_storage() {
    match plan_add_file("/vfs", "in/put.bin", "10") {
        Ok(StoragePlan::NormalFile(p)) => assert_eq!(p, "/vfs/in-put.bin"),
        _ => panic!("expected a normal file"),
    }
    match plan_add_file("/vfs", "huge.iso", &(LARGE_FILE + 1).to_string()) {
        Ok(StoragePlan::HashContainerFile { dir, index_file }) => {
            assert_eq!(dir, "/vfs/huge.iso");
            assert_eq!(index_file, "/vfs/huge.iso/index.qcow");
        }
        _ => panic!("expected a hashed container"),
    }
    assert!(matches!(plan_add_file("/vfs", "a", "-1"), Err(AddFileError::Size)));
}

#[test]
fn handshake_records_protocol_once() {
    let mut nav: NavigatorProtocols<Protocols> = NavigatorProtocols::new();
    assert_eq!(nav.resolve_protocol(), None);
    assert_eq!(nav.hands_shake_callback(None), Ok(None));
    assert!(nav.get_protocol().is_none());
    assert_eq!(nav.hands_shake_callback(Some("Read")), Ok(Some("Read".to_string())));
    assert_eq!(nav.get_protocol(), Some(&Protocols::Read));
    assert_eq!(nav.resolve_protocol(), Some(ClientAction::SearchQuery));
    assert_eq!(nav.hands_shake_callback(Some("Write")), Err("can't reset data".to_string()));
    assert_eq!(nav.get_protocol(), Some(&Protocols::Read));
}

#[test]
fn handshake_refuses_unknown_protocol() {
    let mut nav: NavigatorProtocols<Protocols> = NavigatorProtocols::new();
    assert_eq!(nav.hands_shake_callback(Some("Bogus")), Err("protocole :Bogusnot accept".to_string()));
    assert!(nav.get_protocol().is_none());
}

#[test]
fn protocol_actions() {
    let mut w: NavigatorProtocols<Protocols> = NavigatorProtocols::new();
    w.hands_shake_callback(Some("Write")).unwrap();
    assert_eq!(w.resolve_protocol(), Some(ClientAction::WriteAll));
    let mut e: NavigatorProtocols<Protocols> = NavigatorProtocols::new();
    e.hands_shake_callback(Some("ExecJS")).unwrap();
    assert_eq!(e.resolve_protocol(), Some(ClientAction::ExecQuery));
    let mut d: NavigatorProtocols<CommandProtocols> = NavigatorProtocols::new();
    assert_eq!(d.resolve_command(), None);
    d.hands_shake_callback(Some("AddFile")).unwrap();
    assert_eq!(d.resolve_command(), Some(DaemonAction::ReceiveFile));
    let mut x: NavigatorProtocols<CommandProtocols> = NavigatorProtocols::new();
    x.hands_shake_callback(Some("AddExecutable")).unwrap();
    assert_eq!(x.resolve_command(), Some(DaemonAction::AnnounceExecutable));
}

fn file(path: &str, name: &str, len: u64) -> FsNode {
    FsNode::File { path: path.to_string(), name: name.to_string(), len, utf8_path: true }
}

#[test]
fn client_serves_top_files_and_index_qcow() {
    let listing = vec![
        file("v/a.txt", "a.txt", 1),
        FsNode::Dir { path: "v/site".to_string(), name: "site".to_string(), children: vec![file("v/site/x", "x", 1), file("v/site/index.qcow", "index.qcow", 9)] },
        FsNode::Dir { path: "v/empty".to_string(), name: "empty".to_string(), children: vec![file("v/empty/y", "y", 1)] },
    ];
    assert_eq!(client_resolve_directories(&listing), vec!["v/a.txt", "v/site/index.qcow"]);
}

#[test]
fn vf_errors_text() {
    assert_eq!(GlobalError::UninitializedVariable.description(), "'tries to be waited for before being initialized.");
    assert_eq!(GlobalError::ResetOnceLock.description(), "Can't reset a oncelock static ");
    assert_eq!(GlobalError::ParseError("p".to_string()).description(), "p");
}

#[test]
fn vf_strategy_refuses_big_files() {
    assert!(matches!(VfReadStrategy::try_from(GIGA_FILE + 1), Err(CommonError::FileToBig)));
    assert!(matches!(VfReadStrategy::try_from(1), Ok(VfReadStrategy::Smale)));
}

#[test]
fn async_reader_plans() {
    let small = FileAsyncReader::try_from(String::from("s"), 10).unwrap();
    assert_eq!(small.get_dyn_arc_reader(), AsyncReadPlan::Whole);
    let medium = FileAsyncReader::try_from(String::from("m"), MEDIUM_FILE + 1).unwrap();
    assert_eq!(medium.get_dyn_arc_reader(), AsyncReadPlan::WithCapacity(MEDIUM_FILE as usize + 1));
    let large = FileAsyncReader::try_from(String::from("l"), LARGE_FILE + 1).unwrap();
    assert_eq!(large.get_dyn_arc_reader(), AsyncReadPlan::Chunks(CHUNK_SMALL_SLICE));
    assert_eq!(large.chunck_number(), (LARGE_FILE + 1) as usize / CHUNK_SMALL_SLICE);
    assert!(matches!(FileAsyncReader::try_from(String::from("g"), GIGA_FILE + 1), Err(CommonError::FileToBig)));
    assert_eq!(large.get_string_lossy_url(), "l");
}

#[test]
fn data_file_header_json() {
    let reader = FileReader::try_from(FakeToSubPath::from_path("/srv/docs/a.txt"), 5).unwrap();
    let data = DataFile::new(reader).unwrap();
    assert_eq!(data.get_payload().get_chunks(), 1);
    assert_eq!(data.get_payload().stringify_to_json().unwrap(), r#"{"url":"/srv/docs/a.txt","chunks":1,"type_file":"txt"}"#);
    assert_eq!(*data.deref().get_strategy(), ReadStrategy::Smale);
}

#[test]
fn data_file_published_under_directory() {
    let reader = FileAsyncReader::try_from(FakeToSubPath::from_path_buf("/srv/site/index.qcow".to_string()), LARGE_FILE + 1).unwrap();
    let data = DataFile::new(reader).unwrap();
    let expected_chunks = (LARGE_FILE + 1) as usize / CHUNK_SMALL_SLICE;
    assert_eq!(data.get_payload().stringify_to_json().unwrap(), format!(r#"{{"url":"/srv/site","chunks":{},"type_file":"qcow"}}"#, expected_chunks));
    assert_eq!(data.get_payload().url_text(), "/srv/site");
}

struct Recorder {
    steps: Vec<&'static str>,
    fail_at: Option<&'static str>,
}

impl Recorder {
    fn step(&mut self, name: &'static str) -> Result<(), String> {
        self.steps.push(name);
        if self.fail_at == Some(name) { Err(name.to_string()) } else { Ok(()) }
    }
}

impl WasiUtilsBuild for Recorder {
    type Error = String;
    fn set_engine(&mut self) {
        self.steps.push("engine");
    }
    fn set_linker(&mut self) -> Result<(), String> {
        self.step("linker")
    }
    fn set_store(&mut self) -> Result<(), String> {
        self.step("store")
    }
    fn set_component(&mut self) -> Result<(), String> {
        self.step("component")
    }
    fn set_instance(&mut self) -> Result<(), String> {
        self.step("instance")
    }
}

#[test]
fn director_runs_steps_in_order() {
    let mut ok = Recorder { steps: Vec::new(), fail_at: None };
    assert!(Director::construct_wasi(&mut ok).is_ok());
    assert_eq!(ok.steps, vec!["engine", "linker", "store", "component", "instance"]);
    let mut bad = Recorder { steps: Vec::new(), fail_at: Some("store") };
    assert_eq!(Director::construct_wasi(&mut bad), Err("store".to_string()));
    assert_eq!(bad.steps, vec!["engine", "linker", "store"]);
}

#[test]
fn asset_variants() {
    assert_ne!(Asset::Cache(1), Asset::Payload(1));
}

#[test]
fn add_file_with_empty_cleaned_name_targets_the_directory() {
    match plan_add_file("/vfs", " ", "5") {
        Ok(StoragePlan::NormalFile(p)) => assert_eq!(p, "/vfs"),
        _ => panic!("expected a normal file"),
    }
}
