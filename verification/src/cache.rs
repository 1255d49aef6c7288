//! The per-node layout cache.
//!
//! Box-layout algorithms probe each node with only a few distinct input
//! combinations per pass, so the cache is a small fixed table of slots
//! with exact-match semantics: a lookup hits only when a stored entry's
//! key equals the queried key in every part. The slot an entry occupies
//! is determined by its key, so storing simply overwrites whatever that
//! slot held, and no eviction policy is needed.

use vstd::prelude::*;

use crate::geometry::{AvailableSizes, AvailableSpace, KnownDimensions, LayoutOutput, RunMode};

verus! {

/// The number of slots in one node's cache: one for full-layout results
/// and seven for size measurements, keyed by which inputs are resolved.
pub const CACHE_SLOTS: usize = 8;

/// The inputs one cached result was computed for.
#[derive(Debug, Clone, Copy, PartialEq, Eq)]
pub struct CacheKey {
    /// Dimensions an ancestor had already resolved.
    pub known_dimensions: KnownDimensions,
    /// The space the computation was allowed to fill.
    pub available_space: AvailableSizes,
    /// What the computation was asked to produce.
    pub run_mode: RunMode,
}

/// One stored result together with the key it was computed for.
#[derive(Debug, Clone, Copy, PartialEq, Eq)]
pub struct CacheEntry {
    /// The inputs of the computation.
    pub key: CacheKey,
    /// What the computation returned.
    pub output: LayoutOutput,
}

/// Which slot a key is stored in.
///
/// Full-layout results share one dedicated slot. Size measurements are
/// spread over the remaining slots by which dimensions were already
/// known and, where none was, by the kind of available space, so that
/// the handful of combinations a pass probes do not evict one another.
pub open spec fn spec_slot(key: CacheKey) -> int {
    if key.run_mode is PerformLayout {
        0
    } else if key.known_dimensions.width is Some && key.known_dimensions.height is Some {
        1
    } else if key.known_dimensions.width is Some {
        if key.available_space.height is MinContent {
            2
        } else {
            3
        }
    } else if key.known_dimensions.height is Some {
        if key.available_space.width is MinContent {
            4
        } else {
            5
        }
    } else {
        if key.available_space.width is MinContent {
            6
        } else {
            7
        }
    }
}

/// A cache with no stored results.
pub open spec fn spec_cache_empty(slots: Seq<Option<CacheEntry>>) -> bool {
    &&& slots.len() == CACHE_SLOTS
    &&& forall|i: int| 0 <= i < slots.len() ==> slots[i] is None
}

/// What a lookup returns: the stored output, exactly when the slot the
/// key maps to holds an entry with that very key. A hidden-pass lookup
/// never hits, since hidden results are never stored.
pub open spec fn spec_cache_get(slots: Seq<Option<CacheEntry>>, key: CacheKey) -> Option<
    LayoutOutput,
> {
    if key.run_mode is PerformHiddenLayout {
        None
    } else {
        match slots[spec_slot(key)] {
            Some(entry) => if entry.key == key {
                Some(entry.output)
            } else {
                None
            },
            None => None,
        }
    }
}

/// What storing leaves behind: the key's slot overwritten with the new
/// entry, every other slot untouched. A hidden-pass result is not stored.
pub open spec fn spec_cache_store(
    slots: Seq<Option<CacheEntry>>,
    key: CacheKey,
    output: LayoutOutput,
) -> Seq<Option<CacheEntry>> {
    if key.run_mode is PerformHiddenLayout {
        slots
    } else {
        slots.update(spec_slot(key), Some(CacheEntry { key, output }))
    }
}

/// A node's memo table of layout results, keyed by the exact inputs
/// each result was computed for.
#[derive(Debug)]
pub struct Cache {
    /// The fixed slot table; `spec_slot` says which slot a key uses.
    slots: Vec<Option<CacheEntry>>,
}

impl View for Cache {
    type V = Seq<Option<CacheEntry>>;

    closed spec fn view(&self) -> Seq<Option<CacheEntry>> {
        self.slots@
    }
}

impl Cache {
    /// Every value of this type keeps its full complement of slots.
    #[verifier::type_invariant]
    spec fn wf(self) -> bool {
        self.slots@.len() == CACHE_SLOTS
    }

    /// A fresh, empty cache.
    pub fn new() -> (c: Self)
        ensures
            spec_cache_empty(c@),
    {
        Cache { slots: vec![None, None, None, None, None, None, None, None] }
    }

    /// Exact-match lookup for the given key.
    pub fn get(&self, key: &CacheKey) -> (r: Option<LayoutOutput>)
        ensures
            r == spec_cache_get(self@, *key),
    {
        proof {
            use_type_invariant(self);
        }
        if matches!(key.run_mode, RunMode::PerformHiddenLayout) {
            return None;
        }
        let idx = slot_of(key);
        match &self.slots[idx] {
            Some(entry) => {
                if keys_match(&entry.key, key) {
                    Some(entry.output)
                } else {
                    None
                }
            },
            None => None,
        }
    }

    /// Insert or overwrite the entry for the given key.
    pub fn store(&mut self, key: CacheKey, output: LayoutOutput)
        ensures
            final(self)@ == spec_cache_store(old(self)@, key, output),
    {
        proof {
            use_type_invariant(&*self);
        }
        if matches!(key.run_mode, RunMode::PerformHiddenLayout) {
            return ;
        }
        let idx = slot_of(&key);
        self.slots[idx] = Some(CacheEntry { key, output });
        proof {
            assert(self@ =~= spec_cache_store(old(self)@, key, output));
        }
    }

    /// Drop every stored result.
    pub fn clear(&mut self)
        ensures
            spec_cache_empty(final(self)@),
    {
        self.slots = vec![None, None, None, None, None, None, None, None];
    }
}

/// The slot the given key is stored in.
fn slot_of(key: &CacheKey) -> (i: usize)
    ensures
        i as int == spec_slot(*key),
        i < CACHE_SLOTS,
{
    if matches!(key.run_mode, RunMode::PerformLayout) {
        0
    } else if key.known_dimensions.width.is_some() && key.known_dimensions.height.is_some() {
        1
    } else if key.known_dimensions.width.is_some() {
        if matches!(key.available_space.height, AvailableSpace::MinContent) {
            2
        } else {
            3
        }
    } else if key.known_dimensions.height.is_some() {
        if matches!(key.available_space.width, AvailableSpace::MinContent) {
            4
        } else {
            5
        }
    } else {
        if matches!(key.available_space.width, AvailableSpace::MinContent) {
            6
        } else {
            7
        }
    }
}

/// Field-by-field equality of two cache keys.
fn keys_match(a: &CacheKey, b: &CacheKey) -> (r: bool)
    ensures
        r == (*a == *b),
{
    a.known_dimensions.width == b.known_dimensions.width
        && a.known_dimensions.height == b.known_dimensions.height && a.available_space
        == b.available_space && a.run_mode == b.run_mode
}

} // verus!
