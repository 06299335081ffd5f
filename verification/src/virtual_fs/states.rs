use vstd::prelude::*;
use crate::commun_utils::fs_strategies::MEDIUM_FILE;

verus! {

/// The memory the cached files may take together.
pub const CACHE_CAP: u64 = 1 * 1024 * 1024 * 1024;

/// Whether a file of `size` bytes is cached when `cache_use` bytes already
/// are, and the bytes cached afterwards: only small files, and only while
/// the total stays under the cap.
pub open spec fn predicate_step(cache_use: u64, size: u64) -> (bool, u64) {
    if size <= MEDIUM_FILE && CACHE_CAP > size + cache_use {
        (true, (cache_use + size) as u64)
    } else {
        (false, cache_use)
    }
}

/// What the cache holds after deciding on each size in turn.
pub open spec fn predicate_run(cache_use: u64, sizes: Seq<u64>) -> u64
    decreases sizes.len(),
{
    if sizes.len() == 0 {
        cache_use
    } else {
        predicate_step(predicate_run(cache_use, sizes.drop_last()), sizes.last()).1
    }
}

/// The sizes that were accepted, added up.
pub open spec fn accepted_total(cache_use: u64, sizes: Seq<u64>) -> int
    decreases sizes.len(),
{
    if sizes.len() == 0 {
        0
    } else {
        let before = predicate_run(cache_use, sizes.drop_last());
        accepted_total(cache_use, sizes.drop_last()) + if predicate_step(before, sizes.last()).0 {
            sizes.last() as int
        } else {
            0
        }
    }
}

/// Decides which files are kept in memory.
pub struct PredicatorCache {
    cache_use: u64,
}

impl PredicatorCache {
    #[verifier::type_invariant]
    spec fn wf(self) -> bool {
        self.cache_use < CACHE_CAP
    }

    pub closed spec fn cache_use(&self) -> u64 {
        self.cache_use
    }

    pub fn default() -> (r: Self)
        ensures
            r.cache_use() == 0,
    {
        PredicatorCache { cache_use: 0 }
    }

    /// The bytes cached so far; always under the cap.
    pub fn get_cache_use(&self) -> (r: u64)
        ensures
            r == self.cache_use(),
            r < CACHE_CAP,
    {
        proof { use_type_invariant(self); }
        self.cache_use
    }

    /// Whether a file of `size` bytes is cached; when it is, its size is
    /// counted.
    pub fn predicate_cache_use(&mut self, size: u64) -> (r: bool)
        ensures
            (r, final(self).cache_use()) == predicate_step(old(self).cache_use(), size),
    {
        proof { use_type_invariant(&*self); }
        if size <= MEDIUM_FILE {
            let condition = CACHE_CAP > (size + self.cache_use);
            if condition {
                self.cache_use = self.cache_use + size;
            }
            return condition;
        }
        false
    }
}

/// Whatever sizes are offered, the cache never reaches its cap, and it holds
/// exactly the sizes it accepted.
pub proof fn lemma_cache_bounded(sizes: Seq<u64>)
    ensures
        predicate_run(0, sizes) < CACHE_CAP,
        predicate_run(0, sizes) == accepted_total(0, sizes),
    decreases sizes.len(),
{
    if sizes.len() > 0 {
        lemma_cache_bounded(sizes.drop_last());
    }
}

} // verus!
