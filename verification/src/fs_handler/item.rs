use vstd::prelude::*;
use crate::commun_utils::fs_strategies::buffers_view;
use crate::fs_handler::errors::GlobalHandlerError;
use crate::fs_handler::strategy::{ReadStrategy, strategy_flush, strategy_for_len};

verus! {

/// A file of the sandbox with the strategy its length calls for; `len` is
/// the length the file had when the reader was made.
#[derive(Debug)]
pub struct FileReader {
    inner: String,
    strategy: ReadStrategy,
    len: u64,
}

impl FileReader {
    #[verifier::type_invariant]
    spec fn wf(self) -> bool {
        self.strategy == strategy_for_len(self.len)
    }

    pub closed spec fn path(&self) -> Seq<char> {
        self.inner@
    }

    pub closed spec fn strategy(&self) -> ReadStrategy {
        self.strategy
    }

    pub closed spec fn len(&self) -> u64 {
        self.len
    }

    /// The reader of the file at `path`, `len` bytes long.
    pub fn new(path: &str, len: u64) -> (r: Self)
        ensures
            r.path() == path@,
            r.len() == len,
            r.strategy() == strategy_for_len(len),
    {
        FileReader { inner: path.to_owned(), strategy: ReadStrategy::from_len(len) , len }
    }

    pub fn get_string_lossy_url(&self) -> (r: &str)
        ensures
            r@ == self.path(),
    {
        self.inner.as_str()
    }

    pub fn get_strategy(&self) -> (r: &ReadStrategy)
        ensures
            *r == self.strategy(),
            self.strategy() == strategy_for_len(self.len()),
    {
        proof { use_type_invariant(self); }
        &self.strategy
    }

    /// Reads `content`, the bytes of the file, into `buffers` as the
    /// strategy does. Files past a gigabyte have no reader.
    pub fn flush_data(&self, content: &Vec<u8>, buffers: &mut Vec<Vec<u8>>) -> (r: Result<(), GlobalHandlerError>)
        requires
            !(self.strategy() is GigaLarge),
        ensures
            r is Ok,
            buffers_view(final(buffers)@) == buffers_view(old(buffers)@) + strategy_flush(self.strategy(), content@),
    {
        proof { use_type_invariant(self); }
        self.strategy.excute_reader_strategy(buffers, self.inner.as_str(), self.len, content)
    }
}

} // verus!
