use vstd::prelude::*;
use crate::commun_utils::fs_strategies::buffers_view;
use crate::fs_handler::errors::GlobalHandlerError;

verus! {

pub const MEDIUM_FILE: u64 = 64 * 1024;
pub const LARGE_FILE: u64 = 10 * 1024 * 1024;
pub const HUGE_FILE: u64 = 100 * 1024 * 1024;
pub const GIGA_FILE: u64 = 1 * 1024 * 1024 * 1024;
pub const CHUNK_SMALL_SLICE: u64 = 128 * 1024;
pub const CHUNK_SMALL_MEDIUM: u64 = CHUNK_SMALL_SLICE * 2;

/// A reader that fills buffers from a file's contents.
pub trait ReadStrategies {
    /// The buffers the reader pushes for these contents.
    spec fn spec_flush(&self, content: Seq<u8>) -> Seq<Seq<u8>>;

    fn flush(&self, content: &Vec<u8>, buffers: &mut Vec<Vec<u8>>)
        ensures
            buffers_view(final(buffers)@) == buffers_view(old(buffers)@) + self.spec_flush(content@),
    ;
}

fn copy_all(content: &Vec<u8>) -> (r: Vec<u8>)
    ensures
        r@ == content@,
{
    let mut r: Vec<u8> = Vec::with_capacity(content.len());
    let mut i: usize = 0;
    while i < content.len()
        invariant
            i <= content@.len(),
            r@ == content@.subrange(0, i as int),
        decreases content@.len() - i,
    {
        r.push(content[i]);
        i += 1;
        assert(r@ == content@.subrange(0, i as int));
    }
    assert(content@.subrange(0, content@.len() as int) == content@);
    r
}

/// Reads a small file in one piece.
pub struct SmaleRead {
    inner: String,
}

impl SmaleRead {
    pub fn new(entry: &str) -> (r: Self)
        ensures
            r.path() == entry@,
    {
        SmaleRead { inner: entry.to_owned() }
    }

    pub closed spec fn path(&self) -> Seq<char> {
        self.inner@
    }
}

impl ReadStrategies for SmaleRead {
    open spec fn spec_flush(&self, content: Seq<u8>) -> Seq<Seq<u8>> {
        seq![content]
    }

    fn flush(&self, content: &Vec<u8>, buffers: &mut Vec<Vec<u8>>) {
        let ghost before = buffers_view(buffers@);
        let data = copy_all(content);
        buffers.push(data);
        assert(buffers_view(buffers@) == before.push(content@));
        assert(before + seq![content@] == before.push(content@));
    }
}

/// Reads a medium file in one piece into a buffer sized from its length.
pub struct MediumRead {
    inner: String,
    capacity: usize,
}

impl MediumRead {
    /// Fails when the length does not fit in memory.
    pub fn new(entry: &str, len: u64) -> (r: Result<Self, GlobalHandlerError>)
        ensures
            len <= usize::MAX ==> (r matches Ok(m) && m.path() == entry@ && m.capacity() == len),
            len > usize::MAX ==> r is Err,
    {
        let converted: Result<usize, core::num::TryFromIntError> = len.try_into();
        match converted {
            Ok(capacity) => Ok(MediumRead { inner: entry.to_owned(), capacity }),
            Err(e) => Err(GlobalHandlerError::from(e)),
        }
    }

    pub closed spec fn path(&self) -> Seq<char> {
        self.inner@
    }

    pub closed spec fn capacity(&self) -> usize {
        self.capacity
    }
}

impl ReadStrategies for MediumRead {
    open spec fn spec_flush(&self, content: Seq<u8>) -> Seq<Seq<u8>> {
        seq![content]
    }

    fn flush(&self, content: &Vec<u8>, buffers: &mut Vec<Vec<u8>>) {
        let ghost before = buffers_view(buffers@);
        let mut sub_buf: Vec<u8> = Vec::with_capacity(self.capacity);
        let mut i: usize = 0;
        while i < content.len()
            invariant
                i <= content@.len(),
                sub_buf@ == content@.subrange(0, i as int),
            decreases content@.len() - i,
        {
            sub_buf.push(content[i]);
            i += 1;
            assert(sub_buf@ == content@.subrange(0, i as int));
        }
        assert(content@.subrange(0, content@.len() as int) == content@);
        buffers.push(sub_buf);
        assert(buffers_view(buffers@) == before.push(content@));
        assert(before + seq![content@] == before.push(content@));
    }
}

/// The large-file reader. Its read buffer is allocated by capacity only,
/// so it has length zero: the first read fills nothing and returns zero,
/// and the reader pushes a single empty buffer whatever the file holds.
pub struct ChunckRead {
    inner: String,
    chunck_size: usize,
}

impl ChunckRead {
    pub fn new(entry: &str, chunk_size: usize) -> (r: Self)
        ensures
            r.path() == entry@,
            r.chunk_size() == chunk_size,
    {
        ChunckRead { inner: entry.to_owned(), chunck_size: chunk_size }
    }

    pub closed spec fn path(&self) -> Seq<char> {
        self.inner@
    }

    pub closed spec fn chunk_size(&self) -> usize {
        self.chunck_size
    }
}

impl ReadStrategies for ChunckRead {
    open spec fn spec_flush(&self, content: Seq<u8>) -> Seq<Seq<u8>> {
        seq![Seq::<u8>::empty()]
    }

    fn flush(&self, content: &Vec<u8>, buffers: &mut Vec<Vec<u8>>) {
        let ghost before = buffers_view(buffers@);
        let mut sub_capacity_buffer: Vec<u8> = Vec::with_capacity(self.chunck_size);
        // The read fills `sub_capacity_buffer[..0]`: zero bytes, end of loop.
        let byte_read: usize = 0;
        sub_capacity_buffer.truncate(byte_read);
        assert(sub_capacity_buffer@ =~= Seq::<u8>::empty());
        buffers.push(sub_capacity_buffer);
        assert(buffers_view(buffers@) == before.push(Seq::<u8>::empty()));
        assert(before + seq![Seq::<u8>::empty()] == before.push(Seq::<u8>::empty()));
    }
}

/// Holds a reader and runs it once.
pub struct ReadNavigator<T: ReadStrategies> {
    strategies: T,
}

impl<T: ReadStrategies> ReadNavigator<T> {
    pub closed spec fn strategies(&self) -> T {
        self.strategies
    }

    pub fn new(strategy: T) -> (r: Self)
        ensures
            r.strategies() == strategy,
    {
        ReadNavigator { strategies: strategy }
    }

    pub fn read(self, content: &Vec<u8>, buffer: &mut Vec<Vec<u8>>)
        ensures
            buffers_view(final(buffer)@) == buffers_view(old(buffer)@) + self.strategies().spec_flush(content@),
    {
        self.strategies.flush(content, buffer);
    }
}

/// How a file is read, chosen from its length; past a gigabyte a file is
/// not read into memory.
#[derive(Debug, Clone, Copy, PartialEq, Eq, Structural)]
pub enum ReadStrategy {
    Smale,
    Medium,
    Large,
    ExtraLarge,
    GigaLarge,
}

pub open spec fn strategy_for_len(len: u64) -> ReadStrategy {
    if len <= MEDIUM_FILE {
        ReadStrategy::Smale
    } else if len <= LARGE_FILE {
        ReadStrategy::Medium
    } else if len <= HUGE_FILE {
        ReadStrategy::Large
    } else if len <= GIGA_FILE {
        ReadStrategy::ExtraLarge
    } else {
        ReadStrategy::GigaLarge
    }
}

/// The buffers each strategy pushes for a file's contents.
pub open spec fn strategy_flush(s: ReadStrategy, content: Seq<u8>) -> Seq<Seq<u8>> {
    match s {
        ReadStrategy::Smale | ReadStrategy::Medium => seq![content],
        _ => seq![Seq::<u8>::empty()],
    }
}

/// A path with the strategy its length calls for.
pub struct ReadEntry {
    path: String,
    strategy: ReadStrategy,
}

impl ReadEntry {
    pub closed spec fn path(&self) -> Seq<char> {
        self.path@
    }

    pub closed spec fn strategy(&self) -> ReadStrategy {
        self.strategy
    }

    pub fn new(path: &str, len: u64) -> (r: Self)
        ensures
            r.path() == path@,
            r.strategy() == strategy_for_len(len),
    {
        let read = ReadStrategy::from_len(len);
        ReadEntry { path: path.to_owned(), strategy: read }
    }
}

impl ReadStrategy {
    /// The strategy for a file of `len` bytes.
    pub fn from_len(len: u64) -> (r: ReadStrategy)
        ensures
            r == strategy_for_len(len),
    {
        if len <= MEDIUM_FILE {
            ReadStrategy::Smale
        } else if len <= LARGE_FILE {
            ReadStrategy::Medium
        } else if len <= HUGE_FILE {
            ReadStrategy::Large
        } else if len <= GIGA_FILE {
            ReadStrategy::ExtraLarge
        } else {
            ReadStrategy::GigaLarge
        }
    }

    /// Runs the strategy's reader on the contents of the file at `path`
    /// (`len` bytes long). Files past a gigabyte have no reader.
    pub fn excute_reader_strategy(&self, buffer: &mut Vec<Vec<u8>>, path: &str, len: u64, content: &Vec<u8>) -> (r: Result<(), GlobalHandlerError>)
        requires
            !(*self is GigaLarge),
        ensures
            (*self is Medium && len > usize::MAX) ==> (r is Err && final(buffer)@ == old(buffer)@),
            !(*self is Medium && len > usize::MAX) ==> (r is Ok && buffers_view(final(buffer)@)
                == buffers_view(old(buffer)@) + strategy_flush(*self, content@)),
    {
        match self {
            ReadStrategy::Smale => {
                let reader = SmaleRead::new(path);
                reader.flush(content, buffer);
            },
            ReadStrategy::Medium => {
                let reader = MediumRead::new(path, len)?;
                reader.flush(content, buffer);
            },
            ReadStrategy::Large => {
                let reader = ChunckRead::new(path, 128 * 1024);
                reader.flush(content, buffer);
            },
            ReadStrategy::ExtraLarge => {
                let reader = ChunckRead::new(path, 256 * 1024);
                reader.flush(content, buffer);
            },
            ReadStrategy::GigaLarge => {},
        }
        Ok(())
    }
}

/// A larger file never gets a strategy meant for smaller files.
pub proof fn lemma_strategy_monotonic(len1: u64, len2: u64)
    requires
        len1 <= len2,
    ensures
        strategy_rank(strategy_for_len(len1)) <= strategy_rank(strategy_for_len(len2)),
{
}

pub open spec fn strategy_rank(s: ReadStrategy) -> int {
    match s {
        ReadStrategy::Smale => 0,
        ReadStrategy::Medium => 1,
        ReadStrategy::Large => 2,
        ReadStrategy::ExtraLarge => 3,
        ReadStrategy::GigaLarge => 4,
    }
}

} // verus!
