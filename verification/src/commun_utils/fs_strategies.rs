use vstd::prelude::*;
use std::sync::Arc;
use crate::commun_utils::errors::GlobalError;

verus! {

pub const MEDIUM_FILE: u64 = 64 * 1024;
pub const LARGE_FILE: u64 = 10 * 1024 * 1024;
pub const HUGE_FILE: u64 = 100 * 1024 * 1024;
pub const GIGA_FILE: u64 = 1 * 1024 * 1024 * 1024;

pub const CHUNK_SMALL_SLICE: usize = 128 * 1024;
pub const CHUNK_MEDIUM_SLICE: usize = CHUNK_SMALL_SLICE * 2;

//-------------------------------------------------------------------------
// byte buffers
//-------------------------------------------------------------------------

/// The contents of a list of byte buffers.
pub open spec fn buffers_view(v: Seq<Vec<u8>>) -> Seq<Seq<u8>> {
    v.map_values(|b: Vec<u8>| b@)
}

/// All the bytes of a list of buffers, in order.
pub open spec fn concat_buffers(v: Seq<Seq<u8>>) -> Seq<u8>
    decreases v.len(),
{
    if v.len() == 0 {
        Seq::empty()
    } else {
        concat_buffers(v.drop_last()) + v.last()
    }
}

/// `content` cut into consecutive pieces of `size` bytes; the last piece
/// holds what is left. Empty content gives no piece.
pub open spec fn chunks_of(content: Seq<u8>, size: nat) -> Seq<Seq<u8>>
    decreases content.len(),
{
    if content.len() == 0 || size == 0 {
        Seq::empty()
    } else if content.len() <= size {
        seq![content]
    } else {
        seq![content.take(size as int)] + chunks_of(content.skip(size as int), size)
    }
}

pub proof fn lemma_concat_buffers_push(v: Seq<Seq<u8>>, b: Seq<u8>)
    ensures
        concat_buffers(v.push(b)) == concat_buffers(v) + b,
{
    assert(v.push(b).drop_last() == v);
}

pub proof fn lemma_concat_buffers_append(v: Seq<Seq<u8>>, w: Seq<Seq<u8>>)
    ensures
        concat_buffers(v + w) == concat_buffers(v) + concat_buffers(w),
    decreases w.len(),
{
    if w.len() == 0 {
        assert(v + w == v);
        assert(concat_buffers(v) + Seq::<u8>::empty() == concat_buffers(v));
    } else {
        lemma_concat_buffers_append(v, w.drop_last());
        assert((v + w).drop_last() == v + w.drop_last());
        assert(concat_buffers(v) + (concat_buffers(w.drop_last()) + w.last())
            == (concat_buffers(v) + concat_buffers(w.drop_last())) + w.last());
    }
}

/// Reading a file in chunks loses nothing: the chunks put back together are
/// the file.
pub proof fn lemma_chunks_concat(content: Seq<u8>, size: nat)
    requires
        size > 0,
    ensures
        concat_buffers(chunks_of(content, size)) == content,
    decreases content.len(),
{
    if content.len() == 0 {
        assert(content == Seq::<u8>::empty());
    } else if content.len() <= size {
        lemma_concat_buffers_push(Seq::empty(), content);
        assert(seq![content] == Seq::<Seq<u8>>::empty().push(content));
        assert(Seq::<u8>::empty() + content == content);
    } else {
        lemma_chunks_concat(content.skip(size as int), size);
        lemma_concat_buffers_append(seq![content.take(size as int)], chunks_of(content.skip(size as int), size));
        lemma_concat_buffers_push(Seq::empty(), content.take(size as int));
        assert(seq![content.take(size as int)] == Seq::<Seq<u8>>::empty().push(content.take(size as int)));
        assert(Seq::<u8>::empty() + content.take(size as int) == content.take(size as int));
        assert(content.take(size as int) + content.skip(size as int) == content);
    }
}

/// Every chunk but the last is full, and none is larger than `size`.
pub proof fn lemma_chunks_sizes(content: Seq<u8>, size: nat)
    requires
        size > 0,
    ensures
        forall|i: int| 0 <= i < chunks_of(content, size).len() ==>
            0 < (#[trigger] chunks_of(content, size)[i]).len() <= size,
        forall|i: int| 0 <= i < chunks_of(content, size).len() - 1 ==>
            (#[trigger] chunks_of(content, size)[i]).len() == size,
        chunks_of(content, size).len() == (content.len() + size - 1) / (size as int),
    decreases content.len(),
{
    if content.len() == 0 {
        assert((0 + size - 1) / (size as int) == 0) by (nonlinear_arith)
            requires size > 0;
    } else if content.len() <= size {
        assert((content.len() + size - 1) / (size as int) == 1) by (nonlinear_arith)
            requires size > 0, 0 < content.len() <= size;
    } else {
        lemma_chunks_sizes(content.skip(size as int), size);
        let rest = content.skip(size as int);
        assert(rest.len() == content.len() - size);
        assert((content.len() + size - 1) / (size as int) == (rest.len() + size - 1) / (size as int) + 1) by (nonlinear_arith)
            requires size > 0, rest.len() == content.len() - size;
    }
}

/// Copies `v[start..end]` into a new buffer.
pub fn copy_range(v: &Vec<u8>, start: usize, end: usize) -> (r: Vec<u8>)
    requires
        start <= end <= v.len(),
    ensures
        r@ == v@.subrange(start as int, end as int),
{
    let mut r: Vec<u8> = Vec::with_capacity(end - start);
    let mut i: usize = start;
    while i < end
        invariant
            start <= i <= end <= v.len(),
            r@ == v@.subrange(start as int, i as int),
        decreases end - i,
    {
        r.push(v[i]);
        i += 1;
        assert(r@ == v@.subrange(start as int, i as int));
    }
    r
}

/// Appends to `buffers` the chunks of `size` bytes that `content` cuts into.
pub fn push_chunks(content: &Vec<u8>, size: usize, buffers: &mut Vec<Vec<u8>>)
    requires
        size > 0,
    ensures
        buffers_view(final(buffers)@) == buffers_view(old(buffers)@) + chunks_of(content@, size as nat),
{
    let ghost start_view = buffers_view(buffers@);
    let len = content.len();
    let mut start: usize = 0;
    assert(content@.skip(0) == content@);
    while start < len
        invariant
            len == content@.len(),
            size > 0,
            start <= len,
            start_view + chunks_of(content@, size as nat)
                == buffers_view(buffers@) + chunks_of(content@.skip(start as int), size as nat),
        decreases len - start,
    {
        let ghost rest = content@.skip(start as int);
        let ghost before = buffers_view(buffers@);
        if len - start <= size {
            let piece = copy_range(content, start, len);
            assert(piece@ == rest);
            buffers.push(piece);
            assert(buffers_view(buffers@) == before.push(rest));
            start = len;
            assert(content@.skip(start as int).len() == 0);
            assert(chunks_of(content@.skip(start as int), size as nat) == Seq::<Seq<u8>>::empty());
            assert(chunks_of(rest, size as nat) == seq![rest]);
            assert(before + seq![rest] == before.push(rest));
            assert(buffers_view(buffers@) + Seq::<Seq<u8>>::empty() == buffers_view(buffers@));
        } else {
            let piece = copy_range(content, start, start + size);
            assert(piece@ == rest.take(size as int));
            buffers.push(piece);
            assert(buffers_view(buffers@) == before.push(rest.take(size as int)));
            assert(rest.skip(size as int) == content@.skip(start + size));
            start = start + size;
            assert(chunks_of(rest, size as nat) == seq![rest.take(size as int)] + chunks_of(content@.skip(start as int), size as nat));
            assert(before + (seq![rest.take(size as int)] + chunks_of(content@.skip(start as int), size as nat))
                == before.push(rest.take(size as int)) + chunks_of(content@.skip(start as int), size as nat));
        }
    }
    assert(content@.skip(start as int).len() == 0);
    assert(chunks_of(content@.skip(start as int), size as nat) == Seq::<Seq<u8>>::empty());
    assert(buffers_view(buffers@) + Seq::<Seq<u8>>::empty() == buffers_view(buffers@));
}


//-------------------------------------------------------------------------
// read strategies
//-------------------------------------------------------------------------

/// Marker for the readers that serve a path over the network.
pub trait TcpReaderStrategy {
}

/// How a file is read, chosen from its length.
#[derive(Debug, Clone, Copy, PartialEq, Eq, Structural)]
pub enum ReadStrategy {
    Smale,
    Medium,
    Large,
    ExtraLarge,
}

/// The strategy for a file of `len` bytes; files over a gigabyte are refused.
pub open spec fn strategy_for_len(len: u64) -> Result<ReadStrategy, GlobalError> {
    if len <= MEDIUM_FILE {
        Ok(ReadStrategy::Smale)
    } else if len <= LARGE_FILE {
        Ok(ReadStrategy::Medium)
    } else if len <= HUGE_FILE {
        Ok(ReadStrategy::Large)
    } else if len <= GIGA_FILE {
        Ok(ReadStrategy::ExtraLarge)
    } else {
        Err(GlobalError::FileToBig)
    }
}

/// The rank of a strategy, from the smallest files to the largest.
pub open spec fn strategy_rank(s: ReadStrategy) -> int {
    match s {
        ReadStrategy::Smale => 0,
        ReadStrategy::Medium => 1,
        ReadStrategy::Large => 2,
        ReadStrategy::ExtraLarge => 3,
    }
}

/// The size of the pieces a strategy reads, or `None` when the file is read
/// in one piece.
pub open spec fn strategy_chunk_size(s: ReadStrategy) -> Option<nat> {
    match s {
        ReadStrategy::Smale => None,
        ReadStrategy::Medium => None,
        ReadStrategy::Large => Some(CHUNK_SMALL_SLICE as nat),
        ReadStrategy::ExtraLarge => Some(CHUNK_MEDIUM_SLICE as nat),
    }
}

/// The buffers a strategy produces for a file with these contents.
pub open spec fn strategy_buffers(s: ReadStrategy, content: Seq<u8>) -> Seq<Seq<u8>> {
    match strategy_chunk_size(s) {
        None => seq![content],
        Some(size) => chunks_of(content, size),
    }
}

impl ReadStrategy {
    /// Chooses the strategy for a file of `len` bytes.
    pub fn try_from(len: u64) -> (r: Result<ReadStrategy, GlobalError>)
        ensures
            r == strategy_for_len(len),
    {
        if len <= MEDIUM_FILE {
            Ok(ReadStrategy::Smale)
        } else if len <= LARGE_FILE {
            Ok(ReadStrategy::Medium)
        } else if len <= HUGE_FILE {
            Ok(ReadStrategy::Large)
        } else if len <= GIGA_FILE {
            Ok(ReadStrategy::ExtraLarge)
        } else {
            Err(GlobalError::FileToBig)
        }
    }
}

/// A larger file never gets a strategy meant for smaller files.
pub proof fn lemma_strategy_monotonic(len1: u64, len2: u64)
    requires
        len1 <= len2,
        strategy_for_len(len2) is Ok,
    ensures
        strategy_for_len(len1) is Ok,
        strategy_rank(strategy_for_len(len1)->Ok_0) <= strategy_rank(strategy_for_len(len2)->Ok_0),
{
}

/// A file is refused exactly when it is larger than a gigabyte.
pub proof fn lemma_strategy_refusal(len: u64)
    ensures
        strategy_for_len(len) is Err <==> len > GIGA_FILE,
{
}

/// A reader that turns a file's contents into buffers.
pub trait ReadSyncStrategies {
    /// The buffers the reader produces for these contents.
    spec fn spec_buffers(&self, content: Seq<u8>) -> Seq<Seq<u8>>;

    /// Hands each buffer of the file to the caller, in order.
    fn use_across_file(&self, content: &Vec<u8>) -> (r: Vec<Vec<u8>>)
        ensures
            buffers_view(r@) == self.spec_buffers(content@),
    ;

    /// Appends every buffer of the file to `buffers`.
    fn flush(&self, content: &Vec<u8>, buffers: &mut Vec<Vec<u8>>)
        ensures
            buffers_view(final(buffers)@) == buffers_view(old(buffers)@) + self.spec_buffers(content@),
    {
        let mut produced = self.use_across_file(content);
        let ghost before = buffers_view(buffers@);
        let ghost added = buffers_view(produced@);
        buffers.append(&mut produced);
        assert(buffers_view(buffers@) == before + added);
    }
}

/// Reads a small file in one piece.
pub struct SmaleSyncRead {
    inner: String,
}

impl SmaleSyncRead {
    pub fn new(entry: &str) -> (r: Self)
        ensures
            r.path()@ == entry@,
    {
        SmaleSyncRead { inner: entry.to_owned() }
    }

    pub closed spec fn path(&self) -> String {
        self.inner
    }

    pub fn as_ref(&self) -> (r: &str)
        ensures
            r@ == self.path()@,
    {
        self.inner.as_str()
    }
}

impl ReadSyncStrategies for SmaleSyncRead {
    open spec fn spec_buffers(&self, content: Seq<u8>) -> Seq<Seq<u8>> {
        seq![content]
    }

    fn use_across_file(&self, content: &Vec<u8>) -> (r: Vec<Vec<u8>>) {
        let mut r: Vec<Vec<u8>> = Vec::new();
        r.push(copy_range(content, 0, content.len()));
        assert(content@.subrange(0, content@.len() as int) == content@);
        assert(buffers_view(r@) == seq![content@]);
        r
    }
}

/// Reads a medium file in one piece into a buffer sized from its length.
pub struct MediumSyncRead {
    inner: String,
    capacity: usize,
}

impl MediumSyncRead {
    /// Fails when the file's length does not fit in memory.
    pub fn new(entry: &str, len: u64) -> (r: Result<Self, GlobalError>)
        ensures
            len <= usize::MAX ==> (r matches Ok(m) && m.path()@ == entry@ && m.capacity() == len),
            len > usize::MAX ==> r == Err::<Self, GlobalError>(GlobalError::TryFromIntError),
    {
        let converted: Result<usize, core::num::TryFromIntError> = len.try_into();
        match converted {
            Ok(capacity) => Ok(MediumSyncRead { inner: entry.to_owned(), capacity }),
            Err(_) => Err(GlobalError::TryFromIntError),
        }
    }

    pub closed spec fn path(&self) -> String {
        self.inner
    }

    pub closed spec fn capacity(&self) -> usize {
        self.capacity
    }

    pub fn as_ref(&self) -> (r: &str)
        ensures
            r@ == self.path()@,
    {
        self.inner.as_str()
    }
}

impl ReadSyncStrategies for MediumSyncRead {
    open spec fn spec_buffers(&self, content: Seq<u8>) -> Seq<Seq<u8>> {
        seq![content]
    }

    fn use_across_file(&self, content: &Vec<u8>) -> (r: Vec<Vec<u8>>) {
        let mut sub_buf: Vec<u8> = Vec::with_capacity(self.capacity);
        let mut i: usize = 0;
        while i < content.len()
            invariant
                i <= content@.len(),
                sub_buf@ == content@.subrange(0, i as int),
            decreases content@.len() - i,
        {
            sub_buf.push(content[i]);
            i += 1;
            assert(sub_buf@ == content@.subrange(0, i as int));
        }
        assert(content@.subrange(0, content@.len() as int) == content@);
        let mut r: Vec<Vec<u8>> = Vec::new();
        r.push(sub_buf);
        assert(buffers_view(r@) == seq![content@]);
        r
    }
}

/// Reads a large file piece by piece.
pub struct ChunckSyncRead {
    inner: String,
    chunck_size: usize,
}

impl ChunckSyncRead {
    #[verifier::type_invariant]
    spec fn wf(self) -> bool {
        self.chunck_size > 0
    }

    pub fn new(entry: &str, chunk_size: usize) -> (r: Self)
        requires
            chunk_size > 0,
        ensures
            r.path()@ == entry@,
            r.chunk_size() == chunk_size,
    {
        ChunckSyncRead { inner: entry.to_owned(), chunck_size: chunk_size }
    }

    pub closed spec fn path(&self) -> String {
        self.inner
    }

    pub closed spec fn chunk_size(&self) -> usize {
        self.chunck_size
    }

    pub fn as_ref(&self) -> (r: &str)
        ensures
            r@ == self.path()@,
    {
        self.inner.as_str()
    }
}

impl ReadSyncStrategies for ChunckSyncRead {
    open spec fn spec_buffers(&self, content: Seq<u8>) -> Seq<Seq<u8>> {
        chunks_of(content, self.chunk_size() as nat)
    }

    fn use_across_file(&self, content: &Vec<u8>) -> (r: Vec<Vec<u8>>) {
        let mut r: Vec<Vec<u8>> = Vec::new();
        proof { use_type_invariant(self); }
        push_chunks(content, self.chunck_size, &mut r);
        assert(buffers_view(Seq::<Vec<u8>>::empty()) == Seq::<Seq<u8>>::empty());
        assert(Seq::<Seq<u8>>::empty() + chunks_of(content@, self.chunck_size as nat) == chunks_of(content@, self.chunck_size as nat));
        r
    }
}


/// The reader a strategy picks for a file.
pub enum SyncReader {
    Smale(SmaleSyncRead),
    Medium(MediumSyncRead),
    Chunck(ChunckSyncRead),
}

impl SyncReader {
    /// The path the reader reads.
    pub open spec fn path(&self) -> String {
        match self {
            SyncReader::Smale(r) => r.path(),
            SyncReader::Medium(r) => r.path(),
            SyncReader::Chunck(r) => r.path(),
        }
    }
}

impl ReadSyncStrategies for SyncReader {
    open spec fn spec_buffers(&self, content: Seq<u8>) -> Seq<Seq<u8>> {
        match self {
            SyncReader::Smale(r) => r.spec_buffers(content),
            SyncReader::Medium(r) => r.spec_buffers(content),
            SyncReader::Chunck(r) => r.spec_buffers(content),
        }
    }

    fn use_across_file(&self, content: &Vec<u8>) -> (r: Vec<Vec<u8>>) {
        match self {
            SyncReader::Smale(r) => r.use_across_file(content),
            SyncReader::Medium(r) => r.use_across_file(content),
            SyncReader::Chunck(r) => r.use_across_file(content),
        }
    }
}

/// Something that names a file on disk.
pub trait AsPath {
    spec fn spec_path(&self) -> Seq<char>;

    fn as_path(&self) -> (r: &str)
        ensures
            r@ == self.spec_path(),
    ;
}

impl AsPath for String {
    open spec fn spec_path(&self) -> Seq<char> {
        self@
    }

    fn as_path(&self) -> (r: &str) {
        self.as_str()
    }
}

/// A file together with the strategy its length calls for. `len` is the
/// length the file had when the reader was made.
#[derive(Debug)]
pub struct FileReader<P> {
    inner: Arc<P>,
    strategy: ReadStrategy,
    len: u64,
}

impl<P> FileReader<P> {
    #[verifier::type_invariant]
    spec fn wf(self) -> bool {
        strategy_for_len(self.len) == Ok::<ReadStrategy, GlobalError>(self.strategy)
    }

    pub closed spec fn inner(&self) -> P {
        *self.inner
    }

    pub closed spec fn strategy(&self) -> ReadStrategy {
        self.strategy
    }

    pub closed spec fn len(&self) -> u64 {
        self.len
    }

    /// Makes the reader of a file of `len` bytes; fails on files over a
    /// gigabyte.
    pub fn try_from(path: P, len: u64) -> (r: Result<Self, GlobalError>)
        ensures
            strategy_for_len(len) matches Ok(s) ==> (r matches Ok(f) && f.inner() == path
                && f.strategy() == s && f.len() == len),
            strategy_for_len(len) is Err ==> r == Err::<Self, GlobalError>(GlobalError::FileToBig),
    {
        match ReadStrategy::try_from(len) {
            Ok(strategy) => Ok(FileReader { inner: Arc::new(path), strategy, len }),
            Err(e) => Err(e),
        }
    }

    pub fn get_inner_path(&self) -> (r: &P)
        ensures
            *r == self.inner(),
    {
        &self.inner
    }

    pub fn get_strategy(&self) -> (r: &ReadStrategy)
        ensures
            *r == self.strategy(),
            strategy_for_len(self.len()) == Ok::<ReadStrategy, GlobalError>(self.strategy()),
    {
        proof { use_type_invariant(self); }
        &self.strategy
    }

    pub fn get_len(&self) -> (r: u64)
        ensures
            r == self.len(),
    {
        self.len
    }
}

impl<P: AsPath> FileReader<P> {
    /// The reader the strategy picks for the file at `path`.
    fn get_boxed_dyn_reader(&self, path: &str) -> (r: SyncReader)
        ensures
            r.path()@ == path@,
            forall|content: Seq<u8>| #[trigger] r.spec_buffers(content)
                == strategy_buffers(self.strategy(), content),
    {
        proof { use_type_invariant(self); }
        match self.strategy {
            ReadStrategy::Smale => SyncReader::Smale(SmaleSyncRead::new(path)),
            ReadStrategy::Medium => {
                let medium = MediumSyncRead::new(path, self.len);
                match medium {
                    Ok(m) => SyncReader::Medium(m),
                    Err(_) => {
                        assert(false);
                        SyncReader::Smale(SmaleSyncRead::new(path))
                    },
                }
            },
            ReadStrategy::Large => SyncReader::Chunck(ChunckSyncRead::new(path, CHUNK_SMALL_SLICE)),
            ReadStrategy::ExtraLarge => SyncReader::Chunck(ChunckSyncRead::new(path, CHUNK_MEDIUM_SLICE)),
        }
    }

    /// The file's path as text.
    pub fn get_string_lossy_url(&self) -> (r: &str)
        ensures
            r@ == self.inner().spec_path(),
    {
        self.inner.as_path()
    }

    /// Appends to `buffers` the buffers the strategy cuts `content`, the
    /// bytes of the file, into.
    pub fn flush_data(&self, content: &Vec<u8>, buffers: &mut Vec<Vec<u8>>)
        ensures
            buffers_view(final(buffers)@) == buffers_view(old(buffers)@) + strategy_buffers(
                self.strategy(),
                content@,
            ),
    {
        let reader = self.get_boxed_dyn_reader(self.inner.as_path());
        reader.flush(content, buffers);
    }

    /// The buffers the strategy cuts `content` into, in the order a
    /// callback would receive them.
    pub fn use_accross_data(&self, content: &Vec<u8>) -> (r: Vec<Vec<u8>>)
        ensures
            buffers_view(r@) == strategy_buffers(self.strategy(), content@),
    {
        let reader = self.get_boxed_dyn_reader(self.inner.as_path());
        reader.use_across_file(content)
    }
}

/// Whatever the strategy, the buffers put back together are the file.
pub proof fn lemma_flush_preserves_content(s: ReadStrategy, content: Seq<u8>)
    ensures
        concat_buffers(strategy_buffers(s, content)) == content,
{
    match strategy_chunk_size(s) {
        None => {
            lemma_concat_buffers_push(Seq::empty(), content);
            assert(seq![content] == Seq::<Seq<u8>>::empty().push(content));
            assert(Seq::<u8>::empty() + content == content);
        },
        Some(size) => {
            lemma_chunks_concat(content, size);
        },
    }
}

//-------------------------------------------------------------------------
// directory walks
//-------------------------------------------------------------------------

/// One entry of a directory listing, read ahead of the walk: a file with
/// its length, or a directory with its own entries.
pub enum FsNode {
    File { path: String, name: String, len: u64, utf8_path: bool },
    Dir { path: String, name: String, children: Vec<FsNode> },
}

impl FsNode {
    pub open spec fn spec_path(&self) -> Seq<char> {
        match self {
            FsNode::File { path, .. } => path@,
            FsNode::Dir { path, .. } => path@,
        }
    }

    pub open spec fn spec_name(&self) -> Seq<char> {
        match self {
            FsNode::File { name, .. } => name@,
            FsNode::Dir { name, .. } => name@,
        }
    }
}

/// The files below a listing, depth first, in listing order.
pub open spec fn files_of_list(ns: Seq<FsNode>) -> Seq<Seq<char>>
    decreases ns,
{
    if ns.len() == 0 {
        Seq::empty()
    } else {
        let last = ns[ns.len() - 1];
        files_of_list(ns.subrange(0, ns.len() - 1)) + match last {
            FsNode::File { path, .. } => seq![path@],
            FsNode::Dir { children, .. } => {
                proof {
                    assert(decreases_to!(ns => ns[ns.len() - 1]));
                }
                files_of_list(children@)
            },
        }
    }
}

pub open spec fn strings_view(v: Seq<String>) -> Seq<Seq<char>> {
    v.map_values(|s: String| s@)
}

fn collect_files(nodes: &Vec<FsNode>, out: &mut Vec<String>)
    ensures
        strings_view(final(out)@) == strings_view(old(out)@) + files_of_list(nodes@),
    decreases nodes@,
{
    let ghost start = strings_view(out@);
    let mut i: usize = 0;
    while i < nodes.len()
        invariant
            i <= nodes@.len(),
            strings_view(out@) == start + files_of_list(nodes@.subrange(0, i as int)),
        decreases nodes@.len() - i,
    {
        let ghost before = strings_view(out@);
        assert(nodes@.subrange(0, i + 1).subrange(0, i as int) == nodes@.subrange(0, i as int));
        match &nodes[i] {
            FsNode::File { path, .. } => {
                out.push(path.clone());
                assert(strings_view(out@) == before.push(path@));
            },
            FsNode::Dir { children, .. } => {
                proof {
                    assert(decreases_to!(nodes@ => nodes@[i as int]));
                }
                collect_files(children, out);
            },
        }
        i += 1;
    }
    assert(nodes@.subrange(0, nodes@.len() as int) == nodes@);
}

/// The files a depth-first walk of the listing visits, in order; the
/// caller hands each to its handler.
pub fn recursive_file_read(listing: &Vec<FsNode>) -> (r: Vec<String>)
    ensures
        strings_view(r@) == files_of_list(listing@),
{
    let mut r: Vec<String> = Vec::new();
    collect_files(listing, &mut r);
    assert(strings_view(Seq::<String>::empty()) == Seq::<Seq<char>>::empty());
    assert(Seq::<Seq<char>>::empty() + files_of_list(listing@) == files_of_list(listing@));
    r
}

} // verus!
