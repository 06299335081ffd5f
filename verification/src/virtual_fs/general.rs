use vstd::prelude::*;
use vstd::string::*;
use crate::commun_utils::iterable::IterableStringifyEnum;
use crate::commun_utils::fs_strategies::{FsNode, strings_view};
use crate::text::{parse_usize, parse_usize_spec};
use crate::commun_utils::fs_strategies::LARGE_FILE;
use crate::virtual_fs::storage::{StoragePlan, StorageStrategy, StorageType};
use crate::third_party::{
    join_path, path_joined,
    compile_regex, compile_regex_set, regex_replace_all, regex_set_matches, str_regex_compiles,
    str_regex_is_match, str_regex_replace_all, str_regex_set_compiles,
};

verus! {

/// What a client asks of the server.
#[derive(Debug, Clone, Copy, PartialEq, Eq, Structural)]
pub enum Protocols {
    Read,
    Write,
    ExecJS,
}

impl IterableStringifyEnum for Protocols {
    open spec fn spec_variants() -> Seq<Self> {
        seq![Protocols::Read, Protocols::Write, Protocols::ExecJS]
    }

    open spec fn spec_label(v: Self) -> Seq<char> {
        match v {
            Protocols::Read => "Read"@,
            Protocols::Write => "Write"@,
            Protocols::ExecJS => "ExecJS"@,
        }
    }

    open spec fn spec_parse(text: Seq<char>) -> Option<Self> {
        if text == "Read"@ {
            Some(Protocols::Read)
        } else if text == "Write"@ {
            Some(Protocols::Write)
        } else if text == "ExecJS"@ {
            Some(Protocols::ExecJS)
        } else {
            None
        }
    }

    fn iter_enum() -> (r: Vec<Self>) {
        let mut r: Vec<Self> = Vec::new();
        r.push(Protocols::Read);
        r.push(Protocols::Write);
        r.push(Protocols::ExecJS);
        assert(r@ =~= Self::spec_variants());
        r
    }

    fn to_label(&self) -> (r: String) {
        match self {
            Protocols::Read => String::from_str("Read"),
            Protocols::Write => String::from_str("Write"),
            Protocols::ExecJS => String::from_str("ExecJS"),
        }
    }

    fn from_label(value: &str) -> (r: Result<Self, String>) {
        let v = value.to_owned();
        if v == String::from_str("Read") {
            Ok(Protocols::Read)
        } else if v == String::from_str("Write") {
            Ok(Protocols::Write)
        } else if v == String::from_str("ExecJS") {
            Ok(Protocols::ExecJS)
        } else {
            Err(v)
        }
    }

    proof fn lemma_label_round_trip(v: Self) {
        reveal_strlit("Read");
        reveal_strlit("Write");
        reveal_strlit("ExecJS");
        assert("Read"@[0] != "Write"@[0]);
        assert("Read"@[0] != "ExecJS"@[0]);
        assert("Write"@[0] != "ExecJS"@[0]);
        assert(Self::spec_variants().contains(v)) by {
            let k = choose|k: int| 0 <= k < Self::spec_variants().len() && Self::spec_variants()[k] == v;
            assert(exists|k: int| 0 <= k < Self::spec_variants().len() && Self::spec_variants()[k] == v) by {
                match v {
                    Protocols::Read => assert(Self::spec_variants()[0] == v),
                    Protocols::Write => assert(Self::spec_variants()[1] == v),
                    Protocols::ExecJS => assert(Self::spec_variants()[2] == v),
                }
            }
        }
    }

    proof fn lemma_parse_only_labels(text: Seq<char>) {
    }
}

/// What the daemon is asked to store.
#[derive(Debug, Clone, Copy, PartialEq, Eq, Structural)]
pub enum CommandProtocols {
    AddFile,
    AddExecutable,
}

impl IterableStringifyEnum for CommandProtocols {
    open spec fn spec_variants() -> Seq<Self> {
        seq![CommandProtocols::AddFile, CommandProtocols::AddExecutable]
    }

    open spec fn spec_label(v: Self) -> Seq<char> {
        match v {
            CommandProtocols::AddFile => "AddFile"@,
            CommandProtocols::AddExecutable => "AddExecutable"@,
        }
    }

    open spec fn spec_parse(text: Seq<char>) -> Option<Self> {
        if text == "AddFile"@ {
            Some(CommandProtocols::AddFile)
        } else if text == "AddExecutable"@ {
            Some(CommandProtocols::AddExecutable)
        } else {
            None
        }
    }

    fn iter_enum() -> (r: Vec<Self>) {
        let mut r: Vec<Self> = Vec::new();
        r.push(CommandProtocols::AddFile);
        r.push(CommandProtocols::AddExecutable);
        assert(r@ =~= Self::spec_variants());
        r
    }

    fn to_label(&self) -> (r: String) {
        match self {
            CommandProtocols::AddFile => String::from_str("AddFile"),
            CommandProtocols::AddExecutable => String::from_str("AddExecutable"),
        }
    }

    fn from_label(value: &str) -> (r: Result<Self, String>) {
        let v = value.to_owned();
        if v == String::from_str("AddFile") {
            Ok(CommandProtocols::AddFile)
        } else if v == String::from_str("AddExecutable") {
            Ok(CommandProtocols::AddExecutable)
        } else {
            Err(v)
        }
    }

    proof fn lemma_label_round_trip(v: Self) {
        reveal_strlit("AddFile");
        reveal_strlit("AddExecutable");
        assert("AddFile"@[3] != "AddExecutable"@[3]);
        assert(Self::spec_variants().contains(v)) by {
            let k = choose|k: int| 0 <= k < Self::spec_variants().len() && Self::spec_variants()[k] == v;
            assert(exists|k: int| 0 <= k < Self::spec_variants().len() && Self::spec_variants()[k] == v) by {
                match v {
                    CommandProtocols::AddFile => assert(Self::spec_variants()[0] == v),
                    CommandProtocols::AddExecutable => assert(Self::spec_variants()[1] == v),
                }
            }
        }
    }

    proof fn lemma_parse_only_labels(text: Seq<char>) {
    }
}

/// What a stored entry is.
#[derive(Debug, Clone, Copy, PartialEq, Eq, Structural)]
pub enum Flag {
    File,
    Directory,
}

impl IterableStringifyEnum for Flag {
    open spec fn spec_variants() -> Seq<Self> {
        seq![Flag::File, Flag::Directory]
    }

    open spec fn spec_label(v: Self) -> Seq<char> {
        match v {
            Flag::File => "File"@,
            Flag::Directory => "Directory"@,
        }
    }

    open spec fn spec_parse(text: Seq<char>) -> Option<Self> {
        if text == "File"@ {
            Some(Flag::File)
        } else if text == "Directory"@ {
            Some(Flag::Directory)
        } else {
            None
        }
    }

    fn iter_enum() -> (r: Vec<Self>) {
        let mut r: Vec<Self> = Vec::new();
        r.push(Flag::File);
        r.push(Flag::Directory);
        assert(r@ =~= Self::spec_variants());
        r
    }

    fn to_label(&self) -> (r: String) {
        match self {
            Flag::File => String::from_str("File"),
            Flag::Directory => String::from_str("Directory"),
        }
    }

    fn from_label(value: &str) -> (r: Result<Self, String>) {
        let v = value.to_owned();
        if v == String::from_str("File") {
            Ok(Flag::File)
        } else if v == String::from_str("Directory") {
            Ok(Flag::Directory)
        } else {
            Err(v)
        }
    }

    proof fn lemma_label_round_trip(v: Self) {
        reveal_strlit("File");
        reveal_strlit("Directory");
        assert("File"@[0] != "Directory"@[0]);
        assert(Self::spec_variants().contains(v)) by {
            let k = choose|k: int| 0 <= k < Self::spec_variants().len() && Self::spec_variants()[k] == v;
            assert(exists|k: int| 0 <= k < Self::spec_variants().len() && Self::spec_variants()[k] == v) by {
                match v {
                    Flag::File => assert(Self::spec_variants()[0] == v),
                    Flag::Directory => assert(Self::spec_variants()[1] == v),
                }
            }
        }
    }

    proof fn lemma_parse_only_labels(text: Seq<char>) {
    }
}

/// Where an asset is held: the index of a cached file or of a file read on
/// request.
#[derive(Debug, Clone, Copy, PartialEq, Eq, Structural)]
pub enum Asset {
    Cache(usize),
    Payload(usize),
}

/// The protocol a websocket connection agreed on, set once during the
/// handshake.
pub struct NavigatorProtocols<P: IterableStringifyEnum> {
    protocols: Option<P>,
}

/// The error a handshake is refused with when the requested protocol is not
/// one of `P`'s labels.
pub open spec fn not_accepted_message(inner: Seq<char>) -> Seq<char> {
    "protocole :"@ + inner + "not accept"@
}

impl<P: IterableStringifyEnum> NavigatorProtocols<P> {
    pub closed spec fn protocol(&self) -> Option<P> {
        self.protocols
    }

    pub fn new() -> (r: Self)
        ensures
            r.protocol() is None,
    {
        NavigatorProtocols { protocols: None }
    }

    pub fn get_protocol(&self) -> (r: Option<&P>)
        ensures
            match self.protocol() {
                Some(p) => r matches Some(q) && *q == p,
                None => r is None,
            },
    {
        match &self.protocols {
            Some(p) => Some(p),
            None => None,
        }
    }

    /// What the handshake does with the `sec-websocket-protocol` header:
    /// without it the response goes out unchanged (`Ok(None)`); with a
    /// label of `P` the protocol is recorded and the header value echoed
    /// back (`Ok(Some(..))`), unless a protocol was already recorded; any
    /// other value refuses the connection.
    pub fn hands_shake_callback(&mut self, header: Option<&str>) -> (r: Result<Option<String>, String>)
        ensures
            match header {
                None => r == Ok::<Option<String>, String>(None) && final(self).protocol() == old(self).protocol(),
                Some(inner) => match P::spec_parse(inner@) {
                    None => (r matches Err(m) && m@ == not_accepted_message(inner@))
                        && final(self).protocol() == old(self).protocol(),
                    Some(p) => if old(self).protocol() is None {
                        (r matches Ok(Some(echo)) && echo@ == inner@) && final(self).protocol() == Some(p)
                    } else {
                        (r matches Err(m) && m@ == "can't reset data"@)
                            && final(self).protocol() == old(self).protocol()
                    },
                },
            },
    {
        match header {
            None => Ok(None),
            Some(inner) => match P::from_label(inner) {
                Ok(protocols) => {
                    if self.protocols.is_some() {
                        Err(String::from_str("can't reset data"))
                    } else {
                        self.protocols = Some(protocols);
                        Ok(Some(inner.to_owned()))
                    }
                },
                Err(_) => {
                    let mut m = String::from_str("protocole :");
                    m.append(inner);
                    m.append("not accept");
                    Err(m)
                },
            },
        }
    }
}

/// What the server does for a client once its protocol is known: look up
/// the path the next message asks for, send every file, or run the next
/// message as a command.
#[derive(Debug, Clone, Copy, PartialEq, Eq, Structural)]
pub enum ClientAction {
    SearchQuery,
    WriteAll,
    ExecQuery,
}

/// What the daemon does once a connection's protocol is known: receive a
/// file (its name, its size, then its data), or announce an executable.
#[derive(Debug, Clone, Copy, PartialEq, Eq, Structural)]
pub enum DaemonAction {
    ReceiveFile,
    AnnounceExecutable,
}

impl NavigatorProtocols<Protocols> {
    /// The client's next action; nothing when no protocol was agreed on.
    pub fn resolve_protocol(&self) -> (r: Option<ClientAction>)
        ensures
            r == match self.protocol() {
                Some(Protocols::Read) => Some(ClientAction::SearchQuery),
                Some(Protocols::Write) => Some(ClientAction::WriteAll),
                Some(Protocols::ExecJS) => Some(ClientAction::ExecQuery),
                None => None::<ClientAction>,
            },
    {
        match &self.protocols {
            Some(Protocols::Read) => Some(ClientAction::SearchQuery),
            Some(Protocols::Write) => Some(ClientAction::WriteAll),
            Some(Protocols::ExecJS) => Some(ClientAction::ExecQuery),
            None => None,
        }
    }
}

impl NavigatorProtocols<CommandProtocols> {
    /// The daemon's next action; nothing when no protocol was agreed on.
    pub fn resolve_command(&self) -> (r: Option<DaemonAction>)
        ensures
            r == match self.protocol() {
                Some(CommandProtocols::AddFile) => Some(DaemonAction::ReceiveFile),
                Some(CommandProtocols::AddExecutable) => Some(DaemonAction::AnnounceExecutable),
                None => None::<DaemonAction>,
            },
    {
        match &self.protocols {
            Some(CommandProtocols::AddFile) => Some(DaemonAction::ReceiveFile),
            Some(CommandProtocols::AddExecutable) => Some(DaemonAction::AnnounceExecutable),
            None => None,
        }
    }
}

//---------------------------------------------------------------------------
// daemon: storing a file sent by a client
//---------------------------------------------------------------------------

/// The patterns a stored file name is cleaned with, and what each match is
/// replaced by: runs of dots before a slash go, slashes become dashes,
/// spaces go.
pub open spec fn name_patterns() -> Seq<Seq<char>> {
    seq!["\\.+\\/"@, "\\/"@, " "@]
}

/// Cleaning a name removes every run of one or more dots directly before a
/// slash (the pattern: an escaped dot, `+`, an escaped slash), then turns
/// every slash into a dash and removes every space, in that order.
pub proof fn lemma_name_patterns()
    ensures
        name_patterns().len() == 3,
        name_patterns()[0] == seq!['\\', '.', '+', '\\', '/'],
        name_patterns()[1] == seq!['\\', '/'],
        name_patterns()[2] == seq![' '],
        name_replacement(0) == Seq::<char>::empty(),
        name_replacement(1) == seq!['-'],
        name_replacement(2) == Seq::<char>::empty(),
{
    reveal_strlit("\\.+\\/");
    reveal_strlit("\\/");
    reveal_strlit(" ");
    reveal_strlit("-");
    reveal_strlit("");
    assert(name_patterns()[0] =~= seq!['\\', '.', '+', '\\', '/']);
    assert(name_patterns()[1] =~= seq!['\\', '/']);
    assert(name_patterns()[2] =~= seq![' ']);
    assert(name_replacement(1) =~= seq!['-']);
    assert(name_replacement(0) =~= Seq::<char>::empty());
}

pub open spec fn name_replacement(index: int) -> Seq<char> {
    if index == 1 { "-"@ } else { ""@ }
}

/// Applies the replacement of pattern `k` when it matched the name as given.
pub open spec fn clean_step(k: int, matched: bool, s: Seq<char>) -> Seq<char> {
    if matched { str_regex_replace_all(name_patterns()[k], s, name_replacement(k)) } else { s }
}

/// The cleaned name: each pattern that matches the name as given, in order,
/// has all its matches replaced.
pub open spec fn cleaned_name(name: Seq<char>) -> Seq<char> {
    let m0 = str_regex_is_match(name_patterns()[0], name);
    let m1 = str_regex_is_match(name_patterns()[1], name);
    let m2 = str_regex_is_match(name_patterns()[2], name);
    clean_step(2, m2, clean_step(1, m1, clean_step(0, m0, name)))
}

/// Whether the patterns needed to clean `name` compile.
pub open spec fn cleaning_compiles(name: Seq<char>) -> bool {
    &&& str_regex_set_compiles(name_patterns())
    &&& forall|k: int| 0 <= k < 3 && str_regex_is_match(name_patterns()[k], name)
        ==> #[trigger] str_regex_compiles(name_patterns()[k])
}

/// Why a file sent to the daemon cannot be stored.
#[derive(Debug)]
pub enum AddFileError {
    /// A cleaning pattern did not compile.
    Pattern(regex::Error),
    /// The announced size is not a decimal `usize`.
    Size,
}

/// Cleans the name a client gave to a file it sends.
pub fn sanitize_file_name(path_name: &str) -> (r: Result<String, regex::Error>)
    ensures
        r is Ok <==> cleaning_compiles(path_name@),
        r matches Ok(s) ==> s@ == cleaned_name(path_name@),
{
    let regexes = vec![
        String::from_str("\\.+\\/"),
        String::from_str("\\/"),
        String::from_str(" "),
    ];
    assert(strings_view(regexes@) =~= name_patterns());
    let regex_set = compile_regex_set(&regexes)?;
    let matches = regex_set_matches(&regex_set, path_name);
    let ghost name = path_name@;
    let ghost pats = name_patterns();
    let mut sub_new_file = path_name.to_owned();
    let mut j: usize = 0;
    assert(partial_clean(name, 0) == name);
    while j < matches.len()
        invariant
            j <= matches@.len(),
            pats == name_patterns(),
            name == path_name@,
            regexes@.len() == 3,
            strings_view(regexes@) == pats,
            regex_set.patterns() == pats,
            crate::third_party::increasing_below(matches@, 3),
            forall|k: int| 0 <= k < 3 ==> (matches@.contains(k as usize) <==> #[trigger] str_regex_is_match(pats[k], name)),
            forall|q: int| 0 <= q < j ==> #[trigger] str_regex_compiles(pats[matches@[q] as int]),
            sub_new_file@ == partial_clean(name, if j == 0 { 0 } else { matches@[j - 1] + 1 }),
        decreases matches@.len() - j,
    {
        let index = matches[j];
        let ghost prev_end: int = if j == 0 { 0 } else { matches@[j - 1] + 1 };
        assert(index < 3);
        assert(prev_end <= index) by {
            if j > 0 {
                assert(matches@[j - 1] < matches@[j as int]);
            }
        }
        assert(matches@.contains(index));
        assert(str_regex_is_match(pats[index as int], name));
        let replacement = if index == 1 { "-" } else { "" };
        let compiled = compile_regex(regexes[index].as_str());
        let regex = match compiled {
            Ok(regex) => regex,
            Err(e) => {
                assert(!str_regex_compiles(pats[index as int]));
                assert(!cleaning_compiles(name));
                return Err(e);
            },
        };
        proof {
            assert forall|k: int| prev_end <= k < index implies !#[trigger] str_regex_is_match(name_patterns()[k], name) by {
                if str_regex_is_match(name_patterns()[k], name) {
                    assert(matches@.contains(k as usize));
                    let q = choose|q: int| 0 <= q < matches@.len() && matches@[q] == k as usize;
                    if q < j {
                        if q < j - 1 {
                            assert(matches@[q] < matches@[j - 1]);
                        }
                    } else if q > j {
                        assert(matches@[j as int] < matches@[q]);
                    }
                }
            }
            lemma_partial_clean_skip(name, prev_end, index as int);
            reveal_strlit("-");
            reveal_strlit("");
            assert(partial_clean(name, index + 1) == clean_step(index as int, true, partial_clean(name, index as int)));
        }
        sub_new_file = regex_replace_all(&regex, sub_new_file.as_str(), replacement);
        j += 1;
    }
    proof {
        let end: int = if j == 0 { 0 } else { matches@[j - 1] + 1 };
        assert(end <= 3);
        assert forall|k: int| end <= k < 3 implies !#[trigger] str_regex_is_match(name_patterns()[k], name) by {
            if str_regex_is_match(name_patterns()[k], name) {
                assert(matches@.contains(k as usize));
                let q = choose|q: int| 0 <= q < matches@.len() && matches@[q] == k as usize;
                if q < j - 1 {
                    assert(matches@[q] < matches@[j - 1]);
                }
            }
        }
        lemma_partial_clean_skip(name, end, 3);
        lemma_partial_clean_full(name);
        assert forall|k: int| 0 <= k < 3 && str_regex_is_match(pats[k], name)
            implies #[trigger] str_regex_compiles(pats[k]) by {
            assert(matches@.contains(k as usize));
            let q = choose|q: int| 0 <= q < matches@.len() && matches@[q] == k as usize;
            assert(str_regex_compiles(pats[matches@[q] as int]));
        }
    }
    Ok(sub_new_file)
}

/// The name after the steps of patterns `0..upto`.
pub open spec fn partial_clean(name: Seq<char>, upto: int) -> Seq<char>
    decreases upto,
{
    if upto <= 0 {
        name
    } else {
        clean_step(upto - 1, str_regex_is_match(name_patterns()[upto - 1], name), partial_clean(name, upto - 1))
    }
}

/// Patterns that did not match change nothing.
pub proof fn lemma_partial_clean_skip(name: Seq<char>, from: int, to: int)
    requires
        0 <= from <= to <= 3,
        forall|k: int| from <= k < to ==> !#[trigger] str_regex_is_match(name_patterns()[k], name),
    ensures
        partial_clean(name, to) == partial_clean(name, from),
    decreases to - from,
{
    if from < to {
        lemma_partial_clean_skip(name, from, to - 1);
    }
}

/// All three steps make the cleaned name.
pub proof fn lemma_partial_clean_full(name: Seq<char>)
    ensures
        partial_clean(name, 3) == cleaned_name(name),
{
    reveal_with_fuel(partial_clean, 4);
}

/// Decides where a file sent to the daemon goes: its cleaned name and the
/// size it announced.
pub fn resolve_add_file(path_name: &str, size: &str) -> (r: Result<(String, usize), AddFileError>)
    ensures
        !cleaning_compiles(path_name@) ==> r matches Err(AddFileError::Pattern(_)),
        cleaning_compiles(path_name@) ==> match parse_usize_spec(size@) {
            Some(n) => (r matches Ok((name, s)) && name@ == cleaned_name(path_name@) && s == n),
            None => r matches Err(AddFileError::Size),
        },
{
    let sub_new_file = match sanitize_file_name(path_name) {
        Ok(s) => s,
        Err(e) => return Err(AddFileError::Pattern(e)),
    };
    match parse_usize(size) {
        Some(predicate_size) => Ok((sub_new_file, predicate_size)),
        None => Err(AddFileError::Size),
    }
}

/// The path of a cleaned name under the shared directory: the name joined
/// to the directory, or the directory itself when the name is empty (an
/// empty name adds no component).
pub open spec fn add_file_target(vfs_dir: Seq<char>, name: Seq<char>) -> Seq<char> {
    if name.len() == 0 { vfs_dir } else { path_joined(vfs_dir, name) }
}

/// Where a file sent to the daemon is written under the shared directory
/// `vfs_dir`: its cleaned name under the directory, stored as its
/// announced size calls for.
pub fn plan_add_file(vfs_dir: &str, path_name: &str, size: &str) -> (r: Result<StoragePlan, AddFileError>)
    ensures
        !cleaning_compiles(path_name@) ==> r matches Err(AddFileError::Pattern(_)),
        cleaning_compiles(path_name@) ==> match parse_usize_spec(size@) {
            Some(n) => {
                let target = add_file_target(vfs_dir@, cleaned_name(path_name@));
                if n <= LARGE_FILE {
                    r matches Ok(StoragePlan::NormalFile(p)) && p@ == target
                } else {
                    r matches Ok(StoragePlan::HashContainerFile { dir, index_file }) && dir@ == target
                        && index_file@ == path_joined(target, "index.qcow"@)
                }
            },
            None => r matches Err(AddFileError::Size),
        },
{
    let (sub_new_file, predicate_size) = resolve_add_file(path_name, size)?;
    let path_file = if sub_new_file.as_str().is_empty() {
        vfs_dir.to_string()
    } else {
        join_path(vfs_dir, sub_new_file.as_str())
    };
    let strategy = StorageStrategy::from(StorageType::from(predicate_size));
    Ok(strategy.get_dyn_storage_strategy(path_file.as_str()))
}

//---------------------------------------------------------------------------
// client: the files served
//---------------------------------------------------------------------------

/// The first entry of a directory named `index.qcow`.
pub open spec fn find_index_qcow(ns: Seq<FsNode>) -> Option<FsNode>
    decreases ns.len(),
{
    if ns.len() == 0 {
        None
    } else if ns[0].spec_name() == "index.qcow"@ {
        Some(ns[0])
    } else {
        find_index_qcow(ns.skip(1))
    }
}

/// The files a client is served from a listing: each file at the top, and
/// for each directory the `index.qcow` it holds, if any.
pub open spec fn client_files(ns: Seq<FsNode>) -> Seq<Seq<char>>
    decreases ns.len(),
{
    if ns.len() == 0 {
        Seq::empty()
    } else {
        let rest = client_files(ns.drop_last());
        match ns.last() {
            FsNode::File { path, .. } => rest.push(path@),
            FsNode::Dir { children, .. } => match find_index_qcow(children@) {
                Some(index) => rest.push(index.spec_path()),
                None => rest,
            },
        }
    }
}

fn find_index(children: &Vec<FsNode>) -> (r: Option<usize>)
    ensures
        match find_index_qcow(children@) {
            Some(n) => r matches Some(i) && i < children@.len() && children@[i as int] == n,
            None => r is None,
        },
{
    let target = String::from_str("index.qcow");
    let mut i: usize = 0;
    assert(children@.skip(0) == children@);
    while i < children.len()
        invariant
            i <= children@.len(),
            target@ == "index.qcow"@,
            find_index_qcow(children@) == find_index_qcow(children@.skip(i as int)),
        decreases children@.len() - i,
    {
        let name = match &children[i] {
            FsNode::File { name, .. } => name,
            FsNode::Dir { name, .. } => name,
        };
        assert(children@.skip(i as int)[0] == children@[i as int]);
        if *name == target {
            return Some(i);
        }
        assert(children@.skip(i as int).skip(1) == children@.skip(i + 1));
        i += 1;
    }
    None
}

/// The files a client is served from a listing of the shared directory.
pub fn client_resolve_directories(listing: &Vec<FsNode>) -> (r: Vec<String>)
    ensures
        strings_view(r@) == client_files(listing@),
{
    let mut r: Vec<String> = Vec::new();
    let mut i: usize = 0;
    while i < listing.len()
        invariant
            i <= listing@.len(),
            strings_view(r@) == client_files(listing@.subrange(0, i as int)),
        decreases listing@.len() - i,
    {
        let ghost before = strings_view(r@);
        let ghost next = listing@.subrange(0, i + 1);
        assert(next.drop_last() == listing@.subrange(0, i as int));
        assert(next.last() == listing@[i as int]);
        match &listing[i] {
            FsNode::File { path, .. } => {
                r.push(path.clone());
                assert(strings_view(r@) == before.push(path@));
            },
            FsNode::Dir { children, .. } => {
                match find_index(children) {
                    Some(k) => {
                        let p = match &children[k] {
                            FsNode::File { path, .. } => path.clone(),
                            FsNode::Dir { path, .. } => path.clone(),
                        };
                        r.push(p);
                        assert(strings_view(r@) == before.push(p@));
                    },
                    None => {},
                }
            },
        }
        i += 1;
    }
    assert(listing@.subrange(0, listing@.len() as int) == listing@);
    r
}

} // verus!
