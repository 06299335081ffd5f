use vstd::prelude::*;
use crate::commun_utils::fs_strategies::buffers_view;
use crate::fs_handler::errors::GlobalHandlerError;
use crate::fs_handler::strategy::{
    CHUNK_SMALL_MEDIUM, CHUNK_SMALL_SLICE, ReadStrategy, strategy_flush, strategy_for_len,
};

verus! {

/// The memory reading a file takes: its bytes plus, per buffer, 8 bytes for
/// the pointer to the buffer and 24 for the buffer's header. Small and
/// medium files are one buffer; large files one per slice; files past a
/// gigabyte are not read into memory at all.
pub open spec fn predicted_capacity(s: ReadStrategy, size: u64) -> int {
    match s {
        ReadStrategy::Smale | ReadStrategy::Medium => size + 8 + 24,
        ReadStrategy::Large => size + (size / CHUNK_SMALL_SLICE) * 8 + (size / CHUNK_SMALL_SLICE) * 24,
        ReadStrategy::ExtraLarge => size + (size / CHUNK_SMALL_MEDIUM) * 8 + (size / CHUNK_SMALL_MEDIUM) * 24,
        ReadStrategy::GigaLarge => 0,
    }
}

/// A file to send, with the strategy its length calls for; `len` is the
/// length the file had when it was listed.
#[derive(Debug)]
pub struct DataFile {
    inner: String,
    strategy: ReadStrategy,
    len: u64,
}

impl DataFile {
    #[verifier::type_invariant]
    spec fn wf(self) -> bool {
        self.strategy == strategy_for_len(self.len)
    }

    pub closed spec fn path(&self) -> Seq<char> {
        self.inner@
    }

    pub closed spec fn strategy(&self) -> ReadStrategy {
        self.strategy
    }

    pub closed spec fn len(&self) -> u64 {
        self.len
    }

    pub fn new(path: &str, len: u64) -> (r: Self)
        ensures
            r.path() == path@,
            r.len() == len,
            r.strategy() == strategy_for_len(len),
    {
        let read_strategy = ReadStrategy::from_len(len);
        DataFile { inner: path.to_owned(), strategy: read_strategy, len }
    }

    /// The memory that reading the file will take.
    pub fn predict_capacity(&self) -> (r: u64)
        ensures
            r == predicted_capacity(self.strategy(), self.len()),
            r >= self.len() || self.strategy() is GigaLarge,
    {
        proof { use_type_invariant(self); }
        let file_size = self.len;
        let chunk_number: u64 = match self.strategy {
            ReadStrategy::Smale | ReadStrategy::Medium => {
                return file_size + 8 + 24;
            },
            ReadStrategy::Large => file_size / CHUNK_SMALL_SLICE,
            ReadStrategy::ExtraLarge => file_size / CHUNK_SMALL_MEDIUM,
            ReadStrategy::GigaLarge => {
                return 0;
            },
        };
        assert(chunk_number <= 8192);
        let sub_octet_for_pointer_sub_vec: u64 = chunk_number * 8;
        let sub_octet_for_pointer_vec_container: u64 = chunk_number * 24;
        file_size + sub_octet_for_pointer_sub_vec + sub_octet_for_pointer_vec_container
    }

    /// Reads `content`, the bytes of the file, into `buffers` as the
    /// strategy does. Files past a gigabyte have no reader.
    pub fn flush_data(&self, content: &Vec<u8>, buffers: &mut Vec<Vec<u8>>) -> (r: Result<(), GlobalHandlerError>)
        requires
            !(self.strategy() is GigaLarge),
        ensures
            r is Ok,
            buffers_view(final(buffers)@) == buffers_view(old(buffers)@) + strategy_flush(self.strategy(), content@),
    {
        proof { use_type_invariant(self); }
        self.strategy.excute_reader_strategy(buffers, self.inner.as_str(), self.len, content)
    }
}

} // verus!
