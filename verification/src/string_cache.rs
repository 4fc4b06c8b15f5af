//! A bounded cache that lets repeated string values written to Parquet share
//! one `triomphe::Arc<str>` allocation.

use crate::string_storage::retained_bytes_of;
use crate::text::{byte_len, byte_length};
use crate::textset::{
    lemma_distinct_no_duplicates, lemma_distinct_push, lemma_holds_contains, lemma_texts_push,
    texts_of, TextKey, TextSet,
};
use triomphe::Arc;
use vstd::prelude::*;

verus! {

/// Default cap on distinct strings retained for reuse.
pub const DEFAULT_STRING_CACHE_CAPACITY: usize = 100;

/// Hard ceiling on a cache's capacity.
pub const STRING_CACHE_CAPACITY_MAX: usize = 65536;

/// Per-value byte ceiling for retained entries.
pub const STRING_CACHE_VALUE_BYTES_MAX: usize = 4096;

/// Ceiling on the total bytes of retained entries.
pub const STRING_CACHE_RETAINED_BYTES_MAX: usize = 16 * 1024 * 1024;

#[verifier::external_type_specification]
#[verifier::external_body]
#[verifier::reject_recursive_types(T)]
pub struct ExArc<T: ?Sized>(triomphe::Arc<T>);

/// The text that a shared `Arc<str>` allocation holds.
pub uninterp spec fn arc_str_text(a: Arc<str>) -> Seq<char>;

/// `<Arc<str> as From<String>>::from`: a new shared allocation holding the
/// text of `s`.
#[verifier::external_body]
pub(crate) fn arc_from_string(s: String) -> (r: Arc<str>)
    ensures
        arc_str_text(r) == s@,
{
    Arc::from(s)
}

/// `<Arc<str> as Clone>::clone`: another handle to the same allocation,
/// which holds the same text.
#[verifier::external_body]
pub(crate) fn arc_clone(a: &Arc<str>) -> (r: Arc<str>)
    ensures
        r == *a,
        arc_str_text(r) == arc_str_text(*a),
{
    Arc::clone(a)
}

/// `<Arc<str> as Deref>::deref`: the text the allocation holds.
#[verifier::external_body]
pub(crate) fn arc_as_str(a: &Arc<str>) -> (r: &str)
    ensures
        r@ == arc_str_text(*a),
{
    a
}

impl TextKey for Arc<str> {
    open spec fn text(&self) -> Seq<char> {
        arc_str_text(*self)
    }

    fn as_text(&self) -> (r: &str) {
        arc_as_str(self)
    }
}

/// What a string cache holds and counts.
pub struct CacheModel {
    pub capacity: nat,
    pub entries: Seq<Seq<char>>,
    pub retained_bytes: nat,
    pub hits: nat,
    pub misses: nat,
}

/// Whether a missed value is retained for later reuse.
pub open spec fn cache_retains(m: CacheModel, s: Seq<char>) -> bool {
    &&& m.entries.len() < m.capacity
    &&& byte_len(s) <= STRING_CACHE_VALUE_BYTES_MAX
    &&& m.retained_bytes + byte_len(s) <= STRING_CACHE_RETAINED_BYTES_MAX
}

/// The cache after interning `s`: a hit when `s` is retained, else a miss
/// that retains `s` while every bound leaves room.
pub open spec fn cache_step(m: CacheModel, s: Seq<char>) -> CacheModel {
    if m.entries.contains(s) {
        CacheModel { hits: m.hits + 1, ..m }
    } else if cache_retains(m, s) {
        CacheModel {
            entries: m.entries.push(s),
            retained_bytes: m.retained_bytes + byte_len(s),
            misses: m.misses + 1,
            ..m
        }
    } else {
        CacheModel { misses: m.misses + 1, ..m }
    }
}

/// The cache's invariant: bounded, exact about retained bytes, and holding
/// each text once.
pub open spec fn cache_wf(m: CacheModel) -> bool {
    &&& 0 < m.capacity <= STRING_CACHE_CAPACITY_MAX
    &&& m.entries.no_duplicates()
    &&& m.entries.len() <= m.capacity
    &&& forall|i: int| 0 <= i < m.entries.len() ==> byte_len(#[trigger] m.entries[i]) <= STRING_CACHE_VALUE_BYTES_MAX
    &&& m.retained_bytes == retained_bytes_of(m.entries)
    &&& m.retained_bytes <= STRING_CACHE_RETAINED_BYTES_MAX
}

/// Counts a cache reports.
pub struct CacheStats {
    pub size: usize,
    pub hits: usize,
    pub misses: usize,
}

/// A cache for reusing string storage when many strings repeat.
pub struct StringCache {
    capacity: usize,
    entries: TextSet<Arc<str>>,
    retained_bytes: usize,
    hits: usize,
    misses: usize,
}

impl View for StringCache {
    type V = CacheModel;

    closed spec fn view(&self) -> CacheModel {
        CacheModel {
            capacity: self.capacity as nat,
            entries: texts_of(self.entries.keys()),
            retained_bytes: self.retained_bytes as nat,
            hits: self.hits as nat,
            misses: self.misses as nat,
        }
    }
}




impl StringCache {
    /// The handles of the retained allocations, position for position with
    /// the retained texts.
    pub closed spec fn handles(&self) -> Seq<Arc<str>> {
        self.entries.keys()
    }

    /// A cache that retains at most `capacity` distinct strings, capped at
    /// `STRING_CACHE_CAPACITY_MAX`; the capacity is positive.
    pub fn new(capacity: usize) -> (r: Self)
        requires
            capacity > 0,
        ensures
            r@.capacity == (if capacity < STRING_CACHE_CAPACITY_MAX {
                capacity
            } else {
                STRING_CACHE_CAPACITY_MAX
            }),
            r@.entries == Seq::<Seq<char>>::empty(),
            r.handles() == Seq::<Arc<str>>::empty(),
            r@.retained_bytes == 0,
            r@.hits == 0,
            r@.misses == 0,
            cache_wf(r@),
    {
        let capacity = if capacity < STRING_CACHE_CAPACITY_MAX {
            capacity
        } else {
            STRING_CACHE_CAPACITY_MAX
        };
        let r = StringCache { capacity, entries: TextSet::new(), retained_bytes: 0, hits: 0, misses: 0 };
        proof {
            assert(r@.entries =~= Seq::<Seq<char>>::empty());
        }
        r
    }

    /// Intern `s`: a handle to the retained allocation holding `s` if there
    /// is one (a hit), else a new allocation (a miss), retained for reuse
    /// while the cache's bounds leave room.
    pub fn intern(&mut self, s: String) -> (r: Arc<str>)
        requires
            cache_wf(old(self)@),
            old(self)@.hits < usize::MAX,
            old(self)@.misses < usize::MAX,
        ensures
            final(self)@ == cache_step(old(self)@, s@),
            arc_str_text(r) == s@,
            cache_wf(final(self)@),
            old(self).handles().len() == old(self)@.entries.len(),
            final(self).handles().len() == final(self)@.entries.len(),
            forall|i: int|
                0 <= i < old(self).handles().len() && old(self)@.entries[i] == s@ ==> r == old(
                    self,
                ).handles()[i],
            !old(self)@.entries.contains(s@) && cache_retains(old(self)@, s@) ==> final(self).handles()
                == old(self).handles().push(r),
            old(self)@.entries.contains(s@) || !cache_retains(old(self)@, s@) ==> final(self).handles()
                == old(self).handles(),
    {
        let ghost old_m = self@;
        proof {
            lemma_holds_contains(self.entries.keys(), s@);
        }
        match self.entries.find(s.as_str()) {
            Some(i) => {
                self.hits = self.hits + 1;
                proof {
                    assert forall|j: int|
                        0 <= j < old_m.entries.len() && old_m.entries[j] == s@ implies j == i by {
                        assert(old_m.entries[i as int] == s@);
                    }
                }
                return arc_clone(self.entries.get(i));
            },
            None => {},
        }
        let interned = arc_from_string(s);
        self.misses = self.misses + 1;
        let len = byte_length(arc_as_str(&interned));
        if self.entries.len() < self.capacity && len <= STRING_CACHE_VALUE_BYTES_MAX && len
            <= STRING_CACHE_RETAINED_BYTES_MAX - self.retained_bytes {
            let kept = arc_clone(&interned);
            proof {
                lemma_texts_push(self.entries.keys(), kept);
                lemma_distinct_no_duplicates(self.entries.keys());
                lemma_distinct_push(self.entries.keys(), kept);
                lemma_distinct_no_duplicates(self.entries.keys().push(kept));
                assert(old_m.entries.push(s@).drop_last() =~= old_m.entries);
            }
            self.retained_bytes = self.retained_bytes + len;
            self.entries.push(kept);
            proof {
                assert(self@.entries =~= old_m.entries.push(s@));
                assert forall|i: int| 0 <= i < self@.entries.len() implies byte_len(#[trigger] self@.entries[i]) <= STRING_CACHE_VALUE_BYTES_MAX by {
                    if i < old_m.entries.len() {
                        assert(self@.entries[i] == old_m.entries[i]);
                    }
                }
            }
        }
        interned
    }

    /// The cache's counts.
    pub fn stats(&self) -> (r: CacheStats)
        ensures
            r.size == self@.entries.len(),
            r.hits == self@.hits,
            r.misses == self@.misses,
    {
        CacheStats { size: self.entries.len(), hits: self.hits, misses: self.misses }
    }

    /// Forget every retained value and reset the counts.
    pub fn clear(&mut self)
        requires
            cache_wf(old(self)@),
        ensures
            final(self)@ == (CacheModel {
                entries: Seq::<Seq<char>>::empty(),
                retained_bytes: 0,
                hits: 0,
                misses: 0,
                ..old(self)@
            }),
            final(self).handles() == Seq::<Arc<str>>::empty(),
            cache_wf(final(self)@),
    {
        self.entries.clear();
        self.retained_bytes = 0;
        self.hits = 0;
        self.misses = 0;
        proof {
            assert(self@.entries =~= Seq::<Seq<char>>::empty());
        }
    }

    /// The capacity the cache was made with (after the ceiling).
    pub fn capacity(&self) -> (r: usize)
        ensures
            r == self@.capacity,
    {
        self.capacity
    }

    /// The bytes of the retained values.
    pub fn retained_bytes(&self) -> (r: usize)
        ensures
            r == self@.retained_bytes,
    {
        self.retained_bytes
    }
}

/// Once a value is retained, interning it again is a hit that changes
/// nothing but the hit count.
pub proof fn law_retained_value_hits(m: CacheModel, s: Seq<char>)
    requires
        cache_wf(m),
    ensures
        ({
            let m2 = cache_step(m, s);
            m2.entries.contains(s) ==> cache_step(m2, s) == CacheModel { hits: m2.hits + 1, ..m2 }
        }),
{
}

/// Every intern counts exactly one hit or one miss, and a cache never holds
/// more values than its capacity nor more bytes than its ceiling.
pub proof fn law_counts_and_bounds(m: CacheModel, s: Seq<char>)
    requires
        cache_wf(m),
    ensures
        ({
            let m2 = cache_step(m, s);
            &&& m2.hits + m2.misses == m.hits + m.misses + 1
            &&& m2.entries.len() <= m2.capacity
            &&& m2.capacity == m.capacity
            &&& m2.retained_bytes <= STRING_CACHE_RETAINED_BYTES_MAX
        }),
{
}

/// A value that the cache does not retain is a miss every time: its handles
/// are never shared.
pub proof fn law_unretained_value_misses(m: CacheModel, s: Seq<char>)
    requires
        cache_wf(m),
        !cache_step(m, s).entries.contains(s),
    ensures
        ({
            let m2 = cache_step(m, s);
            m2.misses == m.misses + 1 && m2.entries == m.entries
        }),
{
    if m.entries.contains(s) {
        assert(cache_step(m, s).entries.contains(s));
    }
    if !m.entries.contains(s) && cache_retains(m, s) {
        assert(m.entries.push(s)[m.entries.len() as int] == s);
    }
}

} // verus!
