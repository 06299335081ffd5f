use vstd::prelude::*;
use crate::commun_utils::errors::GlobalError;
use crate::commun_utils::fs_strategies::buffers_view;

verus! {

pub const MEDIUM_FILE: u64 = 64 * 1024;
pub const LARGE_FILE: u64 = 10 * 1024 * 1024;
pub const HUGE_FILE: u64 = 100 * 1024 * 1024;
pub const GIGA_FILE: u64 = 1 * 1024 * 1024 * 1024;
pub const CHUNK_SMALL_SLICE: u64 = 128 * 1024;
pub const CHUNK_SMALL_MEDIUM: u64 = CHUNK_SMALL_SLICE * 2;

/// A reader that fills buffers from a file's contents.
pub trait ReadStrategies {
    spec fn spec_flush(&self, content: Seq<u8>) -> Seq<Seq<u8>>;

    fn flush(&self, content: &Vec<u8>, buffers: &mut Vec<Vec<u8>>)
        ensures
            buffers_view(final(buffers)@) == buffers_view(old(buffers)@) + self.spec_flush(content@),
    ;
}

fn push_copy(content: &Vec<u8>, buffers: &mut Vec<Vec<u8>>, capacity: usize)
    ensures
        buffers_view(final(buffers)@) == buffers_view(old(buffers)@) + seq![content@],
{
    let ghost before = buffers_view(buffers@);
    let mut data: Vec<u8> = Vec::with_capacity(capacity);
    let mut i: usize = 0;
    while i < content.len()
        invariant
            i <= content@.len(),
            data@ == content@.subrange(0, i as int),
        decreases content@.len() - i,
    {
        data.push(content[i]);
        i += 1;
        assert(data@ == content@.subrange(0, i as int));
    }
    assert(content@.subrange(0, content@.len() as int) == content@);
    buffers.push(data);
    assert(buffers_view(buffers@) == before.push(content@));
    assert(before + seq![content@] == before.push(content@));
}

/// Reads a small file in one piece.
pub struct SmaleRead {
    inner: String,
}

impl SmaleRead {
    pub fn new(entry: &str) -> (r: Self)
        ensures
            r.path() == entry@,
    {
        SmaleRead { inner: entry.to_owned() }
    }

    pub closed spec fn path(&self) -> Seq<char> {
        self.inner@
    }
}

impl ReadStrategies for SmaleRead {
    open spec fn spec_flush(&self, content: Seq<u8>) -> Seq<Seq<u8>> {
        seq![content]
    }

    fn flush(&self, content: &Vec<u8>, buffers: &mut Vec<Vec<u8>>) {
        push_copy(content, buffers, content.len());
    }
}

/// Reads a medium file in one piece into a buffer sized from its length.
pub struct MediumRead {
    inner: String,
    capacity: usize,
}

impl MediumRead {
    pub fn new(entry: &str, len: u64) -> (r: Result<Self, GlobalError>)
        ensures
            len <= usize::MAX ==> (r matches Ok(m) && m.path() == entry@),
            len > usize::MAX ==> r matches Err(GlobalError::TryFromIntError),
    {
        let converted: Result<usize, core::num::TryFromIntError> = len.try_into();
        match converted {
            Ok(capacity) => Ok(MediumRead { inner: entry.to_owned(), capacity }),
            Err(_) => Err(GlobalError::TryFromIntError),
        }
    }

    pub closed spec fn path(&self) -> Seq<char> {
        self.inner@
    }
}

impl ReadStrategies for MediumRead {
    open spec fn spec_flush(&self, content: Seq<u8>) -> Seq<Seq<u8>> {
        seq![content]
    }

    fn flush(&self, content: &Vec<u8>, buffers: &mut Vec<Vec<u8>>) {
        push_copy(content, buffers, self.capacity);
    }
}

/// The large-file reader. Its read buffer is allocated by capacity only,
/// so it has length zero: the first read fills nothing and returns zero,
/// and the reader pushes a single empty buffer whatever the file holds.
pub struct ChunckRead {
    inner: String,
    chunck_size: usize,
}

impl ChunckRead {
    pub fn new(entry: &str, chunk_size: usize) -> (r: Self)
        ensures
            r.path() == entry@,
    {
        ChunckRead { inner: entry.to_owned(), chunck_size: chunk_size }
    }

    pub closed spec fn path(&self) -> Seq<char> {
        self.inner@
    }
}

impl ReadStrategies for ChunckRead {
    open spec fn spec_flush(&self, content: Seq<u8>) -> Seq<Seq<u8>> {
        seq![Seq::<u8>::empty()]
    }

    fn flush(&self, content: &Vec<u8>, buffers: &mut Vec<Vec<u8>>) {
        let ghost before = buffers_view(buffers@);
        let mut sub_capacity_buffer: Vec<u8> = Vec::with_capacity(self.chunck_size);
        let byte_read: usize = 0;
        sub_capacity_buffer.truncate(byte_read);
        assert(sub_capacity_buffer@ =~= Seq::<u8>::empty());
        buffers.push(sub_capacity_buffer);
        assert(buffers_view(buffers@) == before.push(Seq::<u8>::empty()));
        assert(before + seq![Seq::<u8>::empty()] == before.push(Seq::<u8>::empty()));
    }
}

/// How a file is read, chosen from its length; files over a gigabyte are
/// refused.
#[derive(Debug, Clone, Copy, PartialEq, Eq, Structural)]
pub enum ReadStrategy {
    Smale,
    Medium,
    Large,
    ExtraLarge,
}

pub open spec fn strategy_for_len(len: u64) -> Option<ReadStrategy> {
    if len <= MEDIUM_FILE {
        Some(ReadStrategy::Smale)
    } else if len <= LARGE_FILE {
        Some(ReadStrategy::Medium)
    } else if len <= HUGE_FILE {
        Some(ReadStrategy::Large)
    } else if len <= GIGA_FILE {
        Some(ReadStrategy::ExtraLarge)
    } else {
        None
    }
}

/// The buffers each strategy pushes for a file's contents.
pub open spec fn strategy_flush(s: ReadStrategy, content: Seq<u8>) -> Seq<Seq<u8>> {
    match s {
        ReadStrategy::Smale | ReadStrategy::Medium => seq![content],
        _ => seq![Seq::<u8>::empty()],
    }
}

impl ReadStrategy {
    /// The strategy for a file of `len` bytes; `FileToBig` past a gigabyte.
    pub fn try_from(len: u64) -> (r: Result<ReadStrategy, GlobalError>)
        ensures
            match strategy_for_len(len) {
                Some(s) => r == Ok::<ReadStrategy, GlobalError>(s),
                None => r matches Err(GlobalError::FileToBig),
            },
    {
        if len <= MEDIUM_FILE {
            Ok(ReadStrategy::Smale)
        } else if len <= LARGE_FILE {
            Ok(ReadStrategy::Medium)
        } else if len <= HUGE_FILE {
            Ok(ReadStrategy::Large)
        } else if len <= GIGA_FILE {
            Ok(ReadStrategy::ExtraLarge)
        } else {
            Err(GlobalError::FileToBig)
        }
    }

    /// Runs the strategy's reader on `content`, the bytes of the file at
    /// `path`, `len` bytes long.
    pub fn excute_reader_strategy(&self, buffer: &mut Vec<Vec<u8>>, path: &str, len: u64, content: &Vec<u8>) -> (r: Result<(), GlobalError>)
        ensures
            (*self is Medium && len > usize::MAX) ==> (r is Err && final(buffer)@ == old(buffer)@),
            !(*self is Medium && len > usize::MAX) ==> (r is Ok && buffers_view(final(buffer)@)
                == buffers_view(old(buffer)@) + strategy_flush(*self, content@)),
    {
        match self {
            ReadStrategy::Smale => {
                let reader = SmaleRead::new(path);
                reader.flush(content, buffer);
            },
            ReadStrategy::Medium => {
                let reader = MediumRead::new(path, len)?;
                reader.flush(content, buffer);
            },
            ReadStrategy::Large => {
                let reader = ChunckRead::new(path, 128 * 1024);
                reader.flush(content, buffer);
            },
            ReadStrategy::ExtraLarge => {
                let reader = ChunckRead::new(path, 256 * 1024);
                reader.flush(content, buffer);
            },
        }
        Ok(())
    }
}

} // verus!
