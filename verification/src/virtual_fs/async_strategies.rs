use vstd::prelude::*;
use crate::commun_utils::errors::GlobalError;
use crate::commun_utils::fs_strategies::{
    AsPath, CHUNK_MEDIUM_SLICE, CHUNK_SMALL_SLICE, LARGE_FILE, ReadStrategy, strategy_for_len,
};
use crate::virtual_fs::payloads::payload::ReaderStrategist;

verus! {

/// How a file is read asynchronously: whole, whole into a buffer of known
/// capacity, or piece by piece.
#[derive(Debug, Clone, Copy, PartialEq, Eq, Structural)]
pub enum AsyncReadPlan {
    Whole,
    WithCapacity(usize),
    Chunks(usize),
}

/// The plan a strategy calls for, for a file of `len` bytes.
pub open spec fn plan_for(s: ReadStrategy, len: u64) -> AsyncReadPlan {
    match s {
        ReadStrategy::Smale => AsyncReadPlan::Whole,
        ReadStrategy::Medium => AsyncReadPlan::WithCapacity(len as usize),
        ReadStrategy::Large => AsyncReadPlan::Chunks(CHUNK_SMALL_SLICE),
        ReadStrategy::ExtraLarge => AsyncReadPlan::Chunks(CHUNK_MEDIUM_SLICE),
    }
}

/// A file read without blocking, with the strategy its length calls for.
/// `len` is the length the file had when the reader was made.
#[derive(Debug)]
pub struct FileAsyncReader<P> {
    inner: P,
    strategy: ReadStrategy,
    len: u64,
}

impl<P> FileAsyncReader<P> {
    #[verifier::type_invariant]
    spec fn wf(self) -> bool {
        strategy_for_len(self.len) == Ok::<ReadStrategy, GlobalError>(self.strategy)
    }

    pub closed spec fn inner(&self) -> P {
        self.inner
    }

    pub closed spec fn strategy(&self) -> ReadStrategy {
        self.strategy
    }

    pub closed spec fn len(&self) -> u64 {
        self.len
    }

    /// Makes the reader of a file of `len` bytes; fails on files over a
    /// gigabyte.
    pub fn try_from(path: P, len: u64) -> (r: Result<Self, GlobalError>)
        ensures
            strategy_for_len(len) matches Ok(s) ==> (r matches Ok(f) && f.inner() == path
                && f.strategy() == s && f.len() == len),
            strategy_for_len(len) is Err ==> r == Err::<Self, GlobalError>(GlobalError::FileToBig),
    {
        match ReadStrategy::try_from(len) {
            Ok(strategy) => Ok(FileAsyncReader { inner: path, strategy, len }),
            Err(e) => Err(e),
        }
    }

    pub fn get_inner_path(&self) -> (r: &P)
        ensures
            *r == self.inner(),
    {
        &self.inner
    }

    pub fn get_strategy(&self) -> (r: &ReadStrategy)
        ensures
            *r == self.strategy(),
            strategy_for_len(self.len()) == Ok::<ReadStrategy, GlobalError>(self.strategy()),
    {
        proof { use_type_invariant(self); }
        &self.strategy
    }

    pub fn get_len(&self) -> (r: u64)
        ensures
            r == self.len(),
    {
        self.len
    }

    /// The way the file is to be read: whole when small, into a buffer
    /// the size of the file when medium, else in pieces of the strategy's
    /// size.
    pub fn get_dyn_arc_reader(&self) -> (r: AsyncReadPlan)
        ensures
            r == plan_for(self.strategy(), self.len()),
            r matches AsyncReadPlan::WithCapacity(c) ==> c == self.len(),
    {
        proof { use_type_invariant(self); }
        match self.strategy {
            ReadStrategy::Smale => AsyncReadPlan::Whole,
            ReadStrategy::Medium => {
                assert(self.len <= LARGE_FILE);
                AsyncReadPlan::WithCapacity(self.len as usize)
            },
            ReadStrategy::Large => AsyncReadPlan::Chunks(CHUNK_SMALL_SLICE),
            ReadStrategy::ExtraLarge => AsyncReadPlan::Chunks(CHUNK_MEDIUM_SLICE),
        }
    }
}

impl<P: AsPath> FileAsyncReader<P> {
    /// The file's path as text.
    pub fn get_string_lossy_url(&self) -> (r: &str)
        ensures
            r@ == self.inner().spec_path(),
    {
        self.inner.as_path()
    }
}

impl<P: AsPath> ReaderStrategist for FileAsyncReader<P> {
    type RefPath = P;

    open spec fn spec_inner(&self) -> P {
        self.inner()
    }

    open spec fn spec_strategy(&self) -> ReadStrategy {
        self.strategy()
    }

    open spec fn spec_len(&self) -> u64 {
        self.len()
    }

    fn get_inner_path(&self) -> (r: &P) {
        FileAsyncReader::get_inner_path(self)
    }

    fn read_strategy(&self) -> (r: &ReadStrategy) {
        self.get_strategy()
    }

    fn chunck_number(&self) -> (r: usize) {
        let strategy = self.get_strategy();
        let len = self.get_len();
        match strategy {
            ReadStrategy::Smale | ReadStrategy::Medium => 1,
            ReadStrategy::Large => (len / (CHUNK_SMALL_SLICE as u64)) as usize,
            ReadStrategy::ExtraLarge => (len / (CHUNK_MEDIUM_SLICE as u64)) as usize,
        }
    }
}

} // verus!
