//! The code cache: translation records by the address of their block, in a
//! cache of bounded size with adaptive replacement.

use vstd::prelude::*;
use caches::{AdaptiveCache, Cache};
use caches::lru::CacheError;
use crate::memory::MEMORY_SIZE;
use crate::translation::TranslationContext;

verus! {

/// `caches::AdaptiveCache`, a cache of bounded size with adaptive
/// replacement. Nothing of its inside is known here.
#[verifier::external_type_specification]
#[verifier::external_body]
#[verifier::reject_recursive_types(K)]
#[verifier::reject_recursive_types(V)]
#[verifier::reject_recursive_types(RH)]
#[verifier::reject_recursive_types(REH)]
#[verifier::reject_recursive_types(FH)]
#[verifier::reject_recursive_types(FEH)]
pub struct ExAdaptiveCache<K, V, RH, REH, FH, FEH>(AdaptiveCache<K, V, RH, REH, FH, FEH>);

/// `caches::lru::CacheError`, with which the crate refuses a size.
#[verifier::external_type_specification]
#[verifier::external_body]
pub struct ExCacheError(CacheError);

/// The code cache: an adaptive replacement cache from the address of a
/// block to its record.
pub type CodeCache = AdaptiveCache<u32, TranslationContext>;

/// The records that a cache holds, by address: the entries that a lookup
/// finds. What the cache remembers of entries it has evicted is no part of
/// it.
pub uninterp spec fn cache_entries(cache: CodeCache) -> Map<u32, TranslationContext>;

/// The addresses of entries that the cache has evicted and still remembers.
/// The cache keeps them to steer its replacement; a lookup does not find
/// them.
pub uninterp spec fn cache_ghosts(cache: CodeCache) -> Set<u32>;

/// The content of an empty cache.
pub open spec fn no_entries() -> Map<u32, TranslationContext> {
    Map::empty()
}

/// `caches::AdaptiveCache::new`: an empty cache for up to `size` entries,
/// which remembers no evicted entry either. The crate refuses the size 0 and
/// no other. It reserves room for `size` entries at once, so the sizes
/// taken here are those that a cache of blocks can need: there are no more
/// blocks than addresses.
#[verifier::external_body]
pub(crate) fn cache_new(size: usize) -> (r: Result<CodeCache, CacheError>)
    requires
        size <= MEMORY_SIZE,
    ensures
        size > 0 <==> r is Ok,
        r matches Ok(cache) ==> cache_entries(cache) == no_entries(),
        r matches Ok(cache) ==> cache_ghosts(cache) == Set::<u32>::empty(),
{
    AdaptiveCache::new(size)
}

/// `caches::Cache::get_mut` on an `AdaptiveCache`: the record at `pc`, to be
/// changed in place, or `None` where the cache holds none. A lookup that
/// finds the record may move it inside the cache; the contract allows that
/// other entries leave on that account, and says that none is added or
/// changed.
#[verifier::external_body]
pub(crate) fn cache_get_mut<'a>(cache: &'a mut CodeCache, pc: &u32) -> (r: Option<
    &'a mut TranslationContext,
>)
    ensures
        match r {
            Some(record) => {
                &&& cache_entries(*old(cache)).contains_key(*pc)
                &&& *record == cache_entries(*old(cache))[*pc]
                &&& cache_entries(*final(cache)).contains_key(*pc)
                &&& cache_entries(*final(cache))[*pc] == *final(record)
                &&& forall|k: u32|
                    k != *pc && #[trigger] cache_entries(*final(cache)).contains_key(k)
                        ==> cache_entries(*old(cache)).contains_key(k) && cache_entries(
                        *final(cache),
                    )[k] == cache_entries(*old(cache))[k]
            },
            None => {
                &&& !cache_entries(*old(cache)).contains_key(*pc)
                &&& cache_entries(*final(cache)) == cache_entries(*old(cache))
            },
        },
{
    cache.get_mut(pc)
}

/// `caches::Cache::remove` on an `AdaptiveCache`: afterwards the cache
/// neither holds an entry at `pc` nor remembers one. Nothing else changes
/// in what it holds, and it remembers no address that it did not remember
/// before.
#[verifier::external_body]
pub(crate) fn cache_remove(cache: &mut CodeCache, pc: &u32)
    ensures
        cache_entries(*final(cache)) == cache_entries(*old(cache)).remove(*pc),
        !cache_ghosts(*final(cache)).contains(*pc),
        cache_ghosts(*final(cache)).subset_of(cache_ghosts(*old(cache))),
{
    cache.remove(pc);
}

/// `caches::Cache::put` on an `AdaptiveCache`: afterwards the cache holds
/// `record` at `pc`. Entries at other addresses may have been evicted to
/// make room; those that stay are unchanged, and none is added.
///
/// The address must not be one that the cache remembers having evicted: on
/// such an address the crate can fail, where making room has just dropped
/// the address from what it remembers.
#[verifier::external_body]
pub(crate) fn cache_put(cache: &mut CodeCache, pc: u32, record: TranslationContext)
    requires
        !cache_ghosts(*old(cache)).contains(pc),
    ensures
        cache_entries(*final(cache)).contains_key(pc),
        cache_entries(*final(cache))[pc] == record,
        forall|k: u32|
            k != pc && #[trigger] cache_entries(*final(cache)).contains_key(k) ==> cache_entries(
                *old(cache),
            ).contains_key(k) && cache_entries(*final(cache))[k] == cache_entries(*old(cache))[k],
{
    cache.put(pc, record);
}

} // verus!
