use vstd::prelude::*;
use crate::commun_utils::errors::GlobalError;
use crate::commun_utils::fs_strategies::{
    AsPath, CHUNK_MEDIUM_SLICE, CHUNK_SMALL_SLICE, FileReader, ReadStrategy, strategy_buffers,
    strategy_chunk_size,
};
use crate::virtual_fs::payloads::json_struct::JsonInfo;
use crate::virtual_fs::runtime::FakeToSubPath;

verus! {

/// The number of pieces a file is announced in: one for small and medium
/// files, else its length over the slice size, rounded down.
pub open spec fn chunk_count(s: ReadStrategy, len: u64) -> nat {
    match s {
        ReadStrategy::Smale | ReadStrategy::Medium => 1,
        ReadStrategy::Large => (len / (CHUNK_SMALL_SLICE as u64)) as nat,
        ReadStrategy::ExtraLarge => (len / (CHUNK_MEDIUM_SLICE as u64)) as nat,
    }
}

/// A file read in pieces is announced in as many full pieces of its
/// strategy's piece size as it holds; a file read whole is announced in
/// one piece, the one buffer its strategy makes of it.
pub proof fn lemma_chunk_count_full_pieces(s: ReadStrategy, content: Seq<u8>)
    requires
        content.len() <= u64::MAX,
    ensures
        match strategy_chunk_size(s) {
            Some(size) => chunk_count(s, content.len() as u64) == content.len() / size
                && chunk_count(s, content.len() as u64) * size <= content.len()
                && content.len() < (chunk_count(s, content.len() as u64) + 1) * size,
            None => chunk_count(s, content.len() as u64) == strategy_buffers(s, content).len(),
        },
{
    let len = content.len();
    match strategy_chunk_size(s) {
        Some(size) => {
            assert(size > 0);
            let q = len / size;
            assert(q * size <= len && len < (q + 1) * size) by (nonlinear_arith)
                requires size > 0, q == len / size;
        },
        None => {},
    }
}

/// A reader that knows its file, the file's length and its strategy.
pub trait ReaderStrategist {
    type RefPath;

    spec fn spec_inner(&self) -> Self::RefPath;

    spec fn spec_strategy(&self) -> ReadStrategy;

    spec fn spec_len(&self) -> u64;

    fn get_inner_path(&self) -> (r: &Self::RefPath)
        ensures
            *r == self.spec_inner(),
    ;

    fn read_strategy(&self) -> (r: &ReadStrategy)
        ensures
            *r == self.spec_strategy(),
    ;

    /// The number of pieces the file is announced in.
    fn chunck_number(&self) -> (r: usize)
        ensures
            r == chunk_count(self.spec_strategy(), self.spec_len()),
    ;
}

/// Built from a reader.
pub trait TryFromReader<R: ReaderStrategist>: Sized {
    type Error;

    fn try_from_reader(value: &R) -> Result<Self, Self::Error>;
}

impl<P: AsPath> ReaderStrategist for FileReader<P> {
    type RefPath = P;

    open spec fn spec_inner(&self) -> P {
        self.inner()
    }

    open spec fn spec_strategy(&self) -> ReadStrategy {
        self.strategy()
    }

    open spec fn spec_len(&self) -> u64 {
        self.len()
    }

    fn get_inner_path(&self) -> (r: &P) {
        FileReader::get_inner_path(self)
    }

    fn read_strategy(&self) -> (r: &ReadStrategy) {
        self.get_strategy()
    }

    fn chunck_number(&self) -> (r: usize) {
        let strategy = self.get_strategy();
        let len = self.get_len();
        match strategy {
            ReadStrategy::Smale | ReadStrategy::Medium => 1,
            ReadStrategy::Large => (len / (CHUNK_SMALL_SLICE as u64)) as usize,
            ReadStrategy::ExtraLarge => (len / (CHUNK_MEDIUM_SLICE as u64)) as usize,
        }
    }
}

/// A served file with its announcing header.
#[derive(Debug)]
pub struct DataFile<R: ReaderStrategist> {
    parent: R,
    payload: JsonInfo,
}

impl<R: ReaderStrategist> DataFile<R> {
    /// The header announces as many pieces as the reader's strategy calls
    /// for.
    #[verifier::type_invariant]
    spec fn announced(self) -> bool {
        self.payload.chunks() == chunk_count(self.parent.spec_strategy(), self.parent.spec_len())
    }

    pub closed spec fn parent(&self) -> R {
        self.parent
    }

    pub closed spec fn payload(&self) -> JsonInfo {
        self.payload
    }

    pub fn get_payload(&self) -> (r: &JsonInfo)
        ensures
            *r == self.payload(),
            r.chunks() == chunk_count(self.parent().spec_strategy(), self.parent().spec_len()),
    {
        proof { use_type_invariant(self); }
        &self.payload
    }

    /// The reader the file was made from.
    pub fn deref(&self) -> (r: &R)
        ensures
            *r == self.parent(),
    {
        &self.parent
    }
}

impl<R: ReaderStrategist<RefPath = FakeToSubPath>> DataFile<R> {
    /// The file with the header made from its reader.
    pub fn new(reader_strategy: R) -> (r: Result<Self, GlobalError>)
        ensures
            r matches Ok(d) && d.parent() == reader_strategy
                && JsonInfo::describes(d.payload(), reader_strategy),
    {
        let json = JsonInfo::try_from_reader(&reader_strategy)?;
        Ok(DataFile { parent: reader_strategy, payload: json })
    }
}

} // verus!
