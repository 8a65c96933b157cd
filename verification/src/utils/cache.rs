//! A bounded cache of holiday sets by year that forgets the year that
//! went longest without being used.

use crate::date::Date;
use crate::holidays::HolidaySet;
use vstd::prelude::*;

verus! {

/// `LruCache` of lru, of which nothing is known but what the functions
/// below state.
#[verifier::external_type_specification]
#[verifier::external_body]
#[verifier::reject_recursive_types(K)]
#[verifier::reject_recursive_types(V)]
#[verifier::reject_recursive_types(S)]
pub struct ExLruCache<K, V, S>(lru::LruCache<K, V, S>);

/// `DefaultHasher` of lru, the hasher of an `LruCache` made by
/// `LruCache::new`.
#[verifier::external_type_specification]
#[verifier::external_body]
pub struct ExDefaultHasher(lru::DefaultHasher);

/// What an `LruCache` holds: its years with their holiday dates, the most
/// recently used first.
pub uninterp spec fn lru_entries(cache: lru::LruCache<i32, HolidaySet>) -> Seq<(i32, Set<Date>)>;

/// The number of entries that an `LruCache` was made to hold at most.
pub uninterp spec fn lru_capacity(cache: lru::LruCache<i32, HolidaySet>) -> nat;

/// Whether some entry is for `year`.
pub open spec fn has_year(entries: Seq<(i32, Set<Date>)>, year: i32) -> bool {
    exists|i: int| 0 <= i < entries.len() && (#[trigger] entries[i]).0 == year
}

/// The place of the entry for `year`, where there is one.
pub open spec fn year_index(entries: Seq<(i32, Set<Date>)>, year: i32) -> int {
    choose|i: int| 0 <= i < entries.len() && (#[trigger] entries[i]).0 == year
}

/// The entries after the one for `year` was used: it has moved to the
/// front, the others keep their order.
pub open spec fn touched(entries: Seq<(i32, Set<Date>)>, year: i32) -> Seq<(i32, Set<Date>)> {
    let i = year_index(entries, year);
    seq![entries[i]] + entries.remove(i)
}

/// The entries after `dates` were stored for `year` in a cache of the given
/// capacity. The new entry stands at the front. It replaces an entry for
/// the same year; otherwise, in a full cache, the last entry makes room.
pub open spec fn stored(
    entries: Seq<(i32, Set<Date>)>,
    year: i32,
    dates: Set<Date>,
    capacity: nat,
) -> Seq<(i32, Set<Date>)> {
    if has_year(entries, year) {
        seq![(year, dates)] + entries.remove(year_index(entries, year))
    } else if entries.len() < capacity {
        seq![(year, dates)] + entries
    } else {
        seq![(year, dates)] + entries.drop_last()
    }
}

/// The entries after the dates for `year` were looked up in a cache of
/// the given capacity: an entry for the year was used; where there was
/// none, `dates` were stored for it.
pub open spec fn looked_up(
    entries: Seq<(i32, Set<Date>)>,
    year: i32,
    dates: Set<Date>,
    capacity: nat,
) -> Seq<(i32, Set<Date>)> {
    if has_year(entries, year) {
        touched(entries, year)
    } else {
        stored(entries, year, dates, capacity)
    }
}

/// Whether no two entries are for the same year.
pub open spec fn distinct_years(entries: Seq<(i32, Set<Date>)>) -> bool {
    forall|i: int, j: int|
        0 <= i < j < entries.len() ==> (#[trigger] entries[i]).0 != (#[trigger] entries[j]).0
}

/// Using an entry leaves every year with one entry.
pub proof fn lemma_touched_distinct(entries: Seq<(i32, Set<Date>)>, year: i32)
    requires
        distinct_years(entries),
        has_year(entries, year),
    ensures
        distinct_years(touched(entries, year)),
        touched(entries, year).len() == entries.len(),
{
    let j = year_index(entries, year);
    let after = touched(entries, year);
    assert forall|a: int, b: int| 0 <= a < b < after.len() implies (#[trigger] after[a]).0 != (
    #[trigger] after[b]).0 by {
        let kb = if b - 1 < j {
            b - 1
        } else {
            b
        };
        assert(after[b] == entries[kb]);
        if a == 0 {
            assert(after[a] == entries[j]);
        } else {
            let ka = if a - 1 < j {
                a - 1
            } else {
                a
            };
            assert(after[a] == entries[ka]);
        }
    }
}

/// Storing dates for a year leaves every year with one entry, and the
/// cache within its capacity.
pub proof fn lemma_stored_distinct(
    entries: Seq<(i32, Set<Date>)>,
    year: i32,
    dates: Set<Date>,
    capacity: nat,
)
    requires
        distinct_years(entries),
        capacity > 0,
        entries.len() <= capacity,
    ensures
        distinct_years(stored(entries, year, dates, capacity)),
        stored(entries, year, dates, capacity).len() <= capacity,
        has_year(stored(entries, year, dates, capacity), year),
{
    let after = stored(entries, year, dates, capacity);
    assert(after[0].0 == year);
    assert forall|a: int, b: int| 0 <= a < b < after.len() implies (#[trigger] after[a]).0 != (
    #[trigger] after[b]).0 by {
        if has_year(entries, year) {
            let j = year_index(entries, year);
            let kb = if b - 1 < j {
                b - 1
            } else {
                b
            };
            assert(after[b] == entries[kb]);
            if a > 0 {
                let ka = if a - 1 < j {
                    a - 1
                } else {
                    a
                };
                assert(after[a] == entries[ka]);
            }
        } else {
            assert(after[b] == entries[b - 1]);
            if a > 0 {
                assert(after[a] == entries[a - 1]);
            }
        }
    }
}

/// Whether every entry holds for its year what `rule` gives for that year.
pub open spec fn entries_follow(
    entries: Seq<(i32, Set<Date>)>,
    rule: spec_fn(i32) -> Set<Date>,
) -> bool {
    forall|i: int| 0 <= i < entries.len() ==> (#[trigger] entries[i]).1 == rule(entries[i].0)
}

/// Using an entry changes no entry.
pub proof fn lemma_touched_follows(
    entries: Seq<(i32, Set<Date>)>,
    year: i32,
    rule: spec_fn(i32) -> Set<Date>,
)
    requires
        entries_follow(entries, rule),
        has_year(entries, year),
    ensures
        entries_follow(touched(entries, year), rule),
        entries[year_index(entries, year)].1 == rule(year),
{
    let j = year_index(entries, year);
    let after = touched(entries, year);
    assert forall|i: int| 0 <= i < after.len() implies (#[trigger] after[i]).1 == rule(
        after[i].0,
    ) by {
        if i > 0 {
            let k = if i - 1 < j {
                i - 1
            } else {
                i
            };
            assert(after[i] == entries[k]);
        } else {
            assert(after[i] == entries[j]);
        }
    }
}

/// Storing for a year what the rule gives for it keeps every entry in
/// line with the rule.
pub proof fn lemma_stored_follows(
    entries: Seq<(i32, Set<Date>)>,
    year: i32,
    capacity: nat,
    rule: spec_fn(i32) -> Set<Date>,
)
    requires
        entries_follow(entries, rule),
        capacity > 0,
    ensures
        entries_follow(stored(entries, year, rule(year), capacity), rule),
{
    let after = stored(entries, year, rule(year), capacity);
    assert forall|i: int| 0 <= i < after.len() implies (#[trigger] after[i]).1 == rule(
        after[i].0,
    ) by {
        if i > 0 {
            if has_year(entries, year) {
                let j = year_index(entries, year);
                let k = if i - 1 < j {
                    i - 1
                } else {
                    i
                };
                assert(after[i] == entries[k]);
            } else {
                assert(after[i] == entries[i - 1]);
            }
        }
    }
}

/// `LruCache::new` of lru, with the capacity made by `NonZeroUsize::new`:
/// an empty cache of that capacity. lru reserves the room for that many
/// entries at once, so the capacity is kept small.
#[verifier::external_body]
fn lru_new(capacity: usize) -> (cache: lru::LruCache<i32, HolidaySet>)
    requires
        0 < capacity <= 65536,
    ensures
        lru_entries(cache) == Seq::<(i32, Set<Date>)>::empty(),
        lru_capacity(cache) == capacity,
{
    lru::LruCache::new(std::num::NonZeroUsize::new(capacity).unwrap())
}

/// `LruCache::get` of lru: the value stored for the key, if there is one,
/// and that entry moves to the front of the recency order.
#[verifier::external_body]
fn lru_get<'a>(cache: &'a mut lru::LruCache<i32, HolidaySet>, year: i32) -> (r: Option<
    &'a HolidaySet,
>)
    ensures
        lru_capacity(*final(cache)) == lru_capacity(*old(cache)),
        r is Some == has_year(lru_entries(*old(cache)), year),
        r is Some ==> r->Some_0@ == lru_entries(*old(cache))[year_index(
            lru_entries(*old(cache)),
            year,
        )].1,
        r is Some ==> lru_entries(*final(cache)) == touched(lru_entries(*old(cache)), year),
        r is None ==> lru_entries(*final(cache)) == lru_entries(*old(cache)),
{
    cache.get(&year)
}

/// `LruCache::put` of lru: stores the value at the front of the recency
/// order. An entry with the same key is replaced; otherwise a full cache
/// drops its least recently used entry.
#[verifier::external_body]
fn lru_put(cache: &mut lru::LruCache<i32, HolidaySet>, year: i32, dates: HolidaySet)
    ensures
        lru_capacity(*final(cache)) == lru_capacity(*old(cache)),
        lru_entries(*final(cache)) == stored(
            lru_entries(*old(cache)),
            year,
            dates@,
            lru_capacity(*old(cache)),
        ),
{
    cache.put(year, dates);
}

/// `LruCache::len` of lru: the number of entries.
#[verifier::external_body]
fn lru_len(cache: &lru::LruCache<i32, HolidaySet>) -> (r: usize)
    ensures
        r == lru_entries(*cache).len(),
{
    cache.len()
}

/// `LruCache::cap` of lru: the capacity the cache was made with.
#[verifier::external_body]
fn lru_cap(cache: &lru::LruCache<i32, HolidaySet>) -> (r: usize)
    ensures
        r == lru_capacity(*cache),
{
    cache.cap().get()
}

/// `LruCache::clear` of lru: removes every entry and keeps the capacity.
#[verifier::external_body]
fn lru_clear(cache: &mut lru::LruCache<i32, HolidaySet>)
    ensures
        lru_capacity(*final(cache)) == lru_capacity(*old(cache)),
        lru_entries(*final(cache)) == Seq::<(i32, Set<Date>)>::empty(),
{
    cache.clear();
}

/// The largest capacity a cache can be made with. The room for all its
/// entries is reserved when it is made.
pub const MAX_CACHE_ENTRIES: usize = 65536;

/// How full a cache is.
#[derive(Debug, Clone, Copy)]
pub struct CacheStats {
    /// Current number of cached entries.
    pub len: usize,
    /// Maximum number of entries.
    pub capacity: usize,
}

/// A cache of holiday sets by year. It holds a bounded number of years; a
/// new year beyond that replaces the least recently used one.
pub struct HolidayCache {
    data: lru::LruCache<i32, HolidaySet>,
}

impl HolidayCache {
    /// The cached years with their holiday dates, the most recently used
    /// first.
    pub closed spec fn entries(&self) -> Seq<(i32, Set<Date>)> {
        lru_entries(self.data)
    }

    /// The number of years the cache holds at most.
    pub closed spec fn capacity(&self) -> nat {
        lru_capacity(self.data)
    }

    /// The cache has room for at least one year, holds no more years
    /// than it has room for, and holds no year twice.
    pub open spec fn wf(&self) -> bool {
        &&& 0 < self.capacity()
        &&& self.entries().len() <= self.capacity()
        &&& distinct_years(self.entries())
    }

    /// An empty cache for 20 years.
    pub fn new() -> (r: HolidayCache)
        ensures
            r.wf(),
            r.entries() == Seq::<(i32, Set<Date>)>::empty(),
            r.capacity() == 20,
    {
        HolidayCache::with_capacity(20)
    }

    /// An empty cache for `max_entries` years.
    pub fn with_capacity(max_entries: usize) -> (r: HolidayCache)
        requires
            0 < max_entries <= MAX_CACHE_ENTRIES,
        ensures
            r.wf(),
            r.entries() == Seq::<(i32, Set<Date>)>::empty(),
            r.capacity() == max_entries,
    {
        HolidayCache { data: lru_new(max_entries) }
    }

    /// The holidays cached for `year`; where there are none, those that
    /// `compute` returns, which are then cached. Either way `year` becomes
    /// the most recently used.
    pub fn get_or_compute<F: FnOnce() -> HolidaySet>(&mut self, year: i32, compute: F) -> (r:
        HolidaySet)
        requires
            old(self).wf(),
            !has_year(old(self).entries(), year) ==> compute.requires(()),
        ensures
            final(self).wf(),
            final(self).capacity() == old(self).capacity(),
            has_year(old(self).entries(), year) ==> r@ == old(self).entries()[year_index(
                old(self).entries(),
                year,
            )].1 && final(self).entries() == touched(old(self).entries(), year),
            !has_year(old(self).entries(), year) ==> compute.ensures((), r)
                && final(self).entries() == stored(
                old(self).entries(),
                year,
                r@,
                old(self).capacity(),
            ),
    {
        proof {
            if has_year(self.entries(), year) {
                lemma_touched_distinct(self.entries(), year);
            }
        }
        match lru_get(&mut self.data, year) {
            Some(holidays) => {
                return holidays.clone();
            },
            None => {},
        }
        let holidays = compute();
        proof {
            lemma_stored_distinct(self.entries(), year, holidays@, self.capacity());
        }
        lru_put(&mut self.data, year, holidays.clone());
        holidays
    }

    /// The holidays cached for `year`, if there are any; `year` then
    /// becomes the most recently used.
    pub fn get(&mut self, year: i32) -> (r: Option<HolidaySet>)
        requires
            old(self).wf(),
        ensures
            final(self).wf(),
            final(self).capacity() == old(self).capacity(),
            r is Some == has_year(old(self).entries(), year),
            r is Some ==> r->Some_0@ == old(self).entries()[year_index(
                old(self).entries(),
                year,
            )].1 && final(self).entries() == touched(old(self).entries(), year),
            r is None ==> final(self).entries() == old(self).entries(),
    {
        proof {
            if has_year(self.entries(), year) {
                lemma_touched_distinct(self.entries(), year);
            }
        }
        match lru_get(&mut self.data, year) {
            Some(holidays) => Some(holidays.clone()),
            None => None,
        }
    }

    /// Caches `holidays` for `year` as the most recently used entry.
    pub fn insert(&mut self, year: i32, holidays: HolidaySet)
        requires
            old(self).wf(),
        ensures
            final(self).wf(),
            final(self).capacity() == old(self).capacity(),
            final(self).entries() == stored(
                old(self).entries(),
                year,
                holidays@,
                old(self).capacity(),
            ),
    {
        proof {
            lemma_stored_distinct(self.entries(), year, holidays@, self.capacity());
        }
        lru_put(&mut self.data, year, holidays);
    }

    /// The number of cached years.
    pub fn len(&self) -> (r: usize)
        ensures
            r == self.entries().len(),
    {
        lru_len(&self.data)
    }

    /// Whether no year is cached.
    pub fn is_empty(&self) -> (r: bool)
        ensures
            r == (self.entries().len() == 0),
    {
        lru_len(&self.data) == 0
    }

    /// The number of cached years and the capacity.
    pub fn stats(&self) -> (r: CacheStats)
        ensures
            r.len == self.entries().len(),
            r.capacity == self.capacity(),
    {
        CacheStats { len: lru_len(&self.data), capacity: lru_cap(&self.data) }
    }

    /// Forgets every cached year.
    pub fn clear(&mut self)
        ensures
            final(self).capacity() == old(self).capacity(),
            final(self).entries() == Seq::<(i32, Set<Date>)>::empty(),
            old(self).wf() ==> final(self).wf(),
    {
        lru_clear(&mut self.data);
    }
}

impl Default for HolidayCache {
    fn default() -> (r: HolidayCache)
        ensures
            r.wf(),
            r.entries() == Seq::<(i32, Set<Date>)>::empty(),
            r.capacity() == 20,
    {
        HolidayCache::new()
    }
}

} // verus!
