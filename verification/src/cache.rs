//! A cache of what was read from the databases, which forgets what is old or was not used for long.
use crate::analysis::AnalysisResult;
use crate::batch::{Batch, BatchMetatdata};
use crate::correlation::{Correlation, Distance};
use crate::ids::{uuid_text, AspectId};
use crate::measurement::{batched_views, clone_measurements, Measurement};
use crate::pattern::{occurrence_views, Occurrence};
use crate::store::correlations::distance_view;
use crate::store::readings::measurement_views;
use crate::table::{has_key, lemma_entry_found, map_of, place_of, Entry, Table};
use crate::text::{i64_text, int_text, join, nat_text, u64_text};
use crate::time::Timestamp;
use vstd::prelude::*;

verus! {

/// What can be kept in the cache.
#[derive(Debug)]
pub enum CachedValue {
    Measurements(Vec<Measurement>),
    Analysis(AnalysisResult),
    Batches(Vec<Batch>),
    Correlation(Correlation),
}

/// A type whose values can be kept in the cache and are told from those of other types.
pub trait Cacheable: Sized {
    /// Whether a kept value is this one.
    spec fn is_in(self, kept: CachedValue) -> bool;

    /// The value, as it is kept.
    fn into_kept(self) -> (r: CachedValue)
        ensures
            self.is_in(r),
    ;

    /// A copy of the value that is kept; none of a value of another type.
    fn of_kept(kept: &CachedValue) -> (r: Option<Self>)
        ensures
            match r {
                Some(v) => v.is_in(*kept),
                None => forall|v: Self| !(#[trigger] v.is_in(*kept)),
            },
    ;
}

impl Cacheable for Vec<Measurement> {
    open spec fn is_in(self, kept: CachedValue) -> bool {
        kept matches CachedValue::Measurements(s) && measurement_views(s@) == measurement_views(
            self@,
        )
    }

    fn into_kept(self) -> (r: CachedValue) {
        CachedValue::Measurements(self)
    }

    fn of_kept(kept: &CachedValue) -> (r: Option<Self>) {
        match kept {
            CachedValue::Measurements(s) => {
                let mut r: Vec<Measurement> = Vec::new();
                let mut i: usize = 0;
                while i < s.len()
                    invariant
                        i <= s.len(),
                        r.len() == i,
                        forall|k: int| 0 <= k < i ==> (#[trigger] r@[k])@ == s@[k]@,
                    decreases s.len() - i,
                {
                    r.push(s[i].clone());
                    i += 1;
                }
                assert(measurement_views(r@) =~= measurement_views(s@));
                Some(r)
            },
            _ => None,
        }
    }
}

/// Whether two results of an analysis are the same.
pub open spec fn same_result(a: AnalysisResult, b: AnalysisResult) -> bool {
    &&& a.timestamp == b.timestamp
    &&& a.value@ == b.value@
    &&& a.method@ == b.method@
    &&& a.resolution@ == b.resolution@
}

impl Cacheable for AnalysisResult {
    open spec fn is_in(self, kept: CachedValue) -> bool {
        kept matches CachedValue::Analysis(a) && same_result(a, self)
    }

    fn into_kept(self) -> (r: CachedValue) {
        CachedValue::Analysis(self)
    }

    fn of_kept(kept: &CachedValue) -> (r: Option<Self>) {
        match kept {
            CachedValue::Analysis(a) => Some(
                AnalysisResult {
                    timestamp: a.timestamp,
                    value: a.value.clone(),
                    method: a.method.clone(),
                    resolution: a.resolution.clone(),
                },
            ),
            _ => None,
        }
    }
}

/// Whether two batches are the same.
pub open spec fn same_batch(a: Batch, b: Batch) -> bool {
    &&& a.metadata.aspect == b.metadata.aspect
    &&& a.metadata.resolution == b.metadata.resolution
    &&& a.metadata.size == b.metadata.size
    &&& a.metadata.database_info@ == b.metadata.database_info@
    &&& batched_views(a.measurements@) == batched_views(b.measurements@)
    &&& a.batch_id == b.batch_id
    &&& match (a.batch_hash, b.batch_hash) {
        (Some(x), Some(y)) => x@ == y@,
        (None, None) => true,
        _ => false,
    }
}

/// Whether two sequences hold the same batches.
pub open spec fn same_batches(a: Seq<Batch>, b: Seq<Batch>) -> bool {
    &&& a.len() == b.len()
    &&& forall|i: int| 0 <= i < a.len() ==> same_batch(#[trigger] a[i], b[i])
}

/// A copy of a batch.
pub fn clone_batch(batch: &Batch) -> (r: Batch)
    ensures
        same_batch(*batch, r),
        same_batch(r, *batch),
{
    Batch {
        metadata: BatchMetatdata {
            aspect: batch.metadata.aspect,
            resolution: batch.metadata.resolution,
            size: batch.metadata.size,
            database_info: batch.metadata.database_info.clone(),
        },
        measurements: clone_measurements(&batch.measurements),
        batch_id: batch.batch_id,
        batch_hash: match &batch.batch_hash {
            Some(h) => Some(h.clone()),
            None => None,
        },
    }
}

impl Cacheable for Vec<Batch> {
    open spec fn is_in(self, kept: CachedValue) -> bool {
        kept matches CachedValue::Batches(s) && same_batches(s@, self@)
    }

    fn into_kept(self) -> (r: CachedValue) {
        CachedValue::Batches(self)
    }

    fn of_kept(kept: &CachedValue) -> (r: Option<Self>) {
        match kept {
            CachedValue::Batches(s) => {
                let mut r: Vec<Batch> = Vec::new();
                let mut i: usize = 0;
                while i < s.len()
                    invariant
                        i <= s.len(),
                        r.len() == i,
                        forall|k: int| 0 <= k < i ==> same_batch(#[trigger] s@[k], r@[k]),
                    decreases s.len() - i,
                {
                    r.push(clone_batch(&s[i]));
                    i += 1;
                }
                Some(r)
            },
            _ => None,
        }
    }
}

/// Whether two correlations are the same.
pub open spec fn same_correlation(a: Correlation, b: Correlation) -> bool {
    &&& a.id == b.id
    &&& a.dictionary_id == b.dictionary_id
    &&& a.subject_id == b.subject_id
    &&& a.aspect_id == b.aspect_id
    &&& a.pattern_id == b.pattern_id
    &&& a.event_id == b.event_id
    &&& same_rates(a.error_rate.entries@, b.error_rate.entries@)
    &&& occurrence_views(a.occurrences@) == occurrence_views(b.occurrences@)
    &&& distance_view(a.average_distance) == distance_view(b.average_distance)
}

/// Whether two sequences hold the same rates under the same names.
pub open spec fn same_rates(
    a: Seq<Entry<String, Distance>>,
    b: Seq<Entry<String, Distance>>,
) -> bool {
    &&& a.len() == b.len()
    &&& forall|i: int|
        0 <= i < a.len() ==> (#[trigger] a[i]).key@ == b[i].key@ && a[i].value@ == b[i].value@
}

/// A copy of a correlation.
pub fn clone_correlation(correlation: &Correlation) -> (r: Correlation)
    ensures
        same_correlation(*correlation, r),
        same_correlation(r, *correlation),
{
    let rates = &correlation.error_rate.entries;
    let mut entries: Vec<Entry<String, Distance>> = Vec::new();
    let mut i: usize = 0;
    while i < rates.len()
        invariant
            i <= rates.len(),
            entries.len() == i,
            forall|k: int|
                0 <= k < i ==> (#[trigger] entries@[k]).key@ == rates@[k].key@
                    && entries@[k].value@ == rates@[k].value@,
        decreases rates.len() - i,
    {
        entries.push(Entry { key: rates[i].key.clone(), value: rates[i].value.clone() });
        i += 1;
    }
    let mut occurrences: Vec<Occurrence> = Vec::new();
    let mut j: usize = 0;
    while j < correlation.occurrences.len()
        invariant
            j <= correlation.occurrences.len(),
            occurrences.len() == j,
            forall|k: int|
                0 <= k < j ==> (#[trigger] occurrences@[k])@ == correlation.occurrences@[k]@,
        decreases correlation.occurrences.len() - j,
    {
        occurrences.push(correlation.occurrences[j].clone());
        j += 1;
    }
    assert(occurrence_views(occurrences@) =~= occurrence_views(correlation.occurrences@));
    Correlation {
        id: correlation.id,
        dictionary_id: correlation.dictionary_id,
        subject_id: correlation.subject_id,
        aspect_id: correlation.aspect_id,
        pattern_id: correlation.pattern_id,
        event_id: correlation.event_id,
        error_rate: Table { entries },
        occurrences,
        average_distance: match &correlation.average_distance {
            Some(d) => Some(d.clone()),
            None => None,
        },
    }
}

impl Cacheable for Correlation {
    open spec fn is_in(self, kept: CachedValue) -> bool {
        kept matches CachedValue::Correlation(c) && same_correlation(c, self)
    }

    fn into_kept(self) -> (r: CachedValue) {
        CachedValue::Correlation(self)
    }

    fn of_kept(kept: &CachedValue) -> (r: Option<Self>) {
        match kept {
            CachedValue::Correlation(c) => Some(clone_correlation(c)),
            _ => None,
        }
    }
}

/// A kept value, and when it was kept and last used. Instants are told in nanoseconds of a clock
/// that never goes back.
#[derive(Debug)]
pub struct CacheableEntry {
    pub data: CachedValue,
    pub created_at: u64,
    pub access_count: u64,
    pub last_accessed: u64,
}

impl CacheableEntry {
    pub fn new(data: CachedValue, now: u64) -> (r: CacheableEntry)
        ensures
            r == (CacheableEntry { data, created_at: now, access_count: 1, last_accessed: now }),
    {
        CacheableEntry { data, created_at: now, access_count: 1, last_accessed: now }
    }

    /// The entry after it was used.
    pub open spec fn accessed(self, now: u64) -> CacheableEntry {
        CacheableEntry {
            access_count: (self.access_count + 1) as u64,
            last_accessed: now,
            ..self
        }
    }

    /// Notes a use of the entry.
    pub fn access(&mut self, now: u64)
        requires
            old(self).access_count < u64::MAX,
        ensures
            *final(self) == old(self).accessed(now),
    {
        self.access_count = self.access_count + 1;
        self.last_accessed = now;
    }

    pub open spec fn spec_expired(self, now: u64, max_age: u64) -> bool {
        now - self.created_at > max_age
    }

    /// Whether the entry is older than that.
    pub fn is_expired(&self, now: u64, max_age: u64) -> (r: bool)
        ensures
            r == self.spec_expired(now, max_age),
    {
        now > self.created_at && now - self.created_at > max_age
    }
}

/// How long an entry is kept, in nanoseconds.
pub const TIME_TO_LIVE: u64 = 600_000_000_000;

/// The cache.
#[derive(Debug)]
pub struct DatabaseCache {
    pub entries: Table<String, CacheableEntry>,
    pub max_entries: usize,
    pub ttl: u64,
}

/// The number of entries for which there is room in so many bytes of memory.
pub open spec fn room_for(available: u64) -> int {
    let gigabytes = available as int / 0x4000_0000;
    if gigabytes < 1 {
        100
    } else {
        gigabytes * 100
    }
}

/// Whether every entry that is gone was used no later than every entry that is left.
pub open spec fn least_used_gone(
    before: Map<Seq<char>, CacheableEntry>,
    after: Map<Seq<char>, CacheableEntry>,
) -> bool {
    forall|gone: Seq<char>, left: Seq<char>|
        #![trigger before[gone], after[left]]
        before.dom().contains(gone) && !after.dom().contains(gone) && after.dom().contains(left)
            ==> before[gone].last_accessed <= after[left].last_accessed
}

impl DatabaseCache {
    pub open spec fn is_valid(&self) -> bool {
        self.entries.is_valid()
    }

    /// An empty cache for so many bytes of memory.
    pub fn new(available_memory: u64) -> (r: DatabaseCache)
        requires
            room_for(available_memory) <= usize::MAX,
        ensures
            r.is_valid(),
            r.entries@ == Map::<Seq<char>, CacheableEntry>::empty(),
            r.entries.entries@.len() == 0,
            r.max_entries == room_for(available_memory),
            r.ttl == TIME_TO_LIVE,
    {
        let gigabytes: u64 = available_memory / 0x4000_0000;
        let gigabytes: u64 = if gigabytes < 1 {
            1
        } else {
            gigabytes
        };
        DatabaseCache {
            entries: Table::new(),
            max_entries: (gigabytes * 100) as usize,
            ttl: TIME_TO_LIVE,
        }
    }

    /// The value that is kept under a key, if it is not too old and of the right type. A value that
    /// is too old is forgotten; a use of any other is noted.
    pub fn get<T: Cacheable>(&mut self, cache_key: &str, now: u64) -> (r: Option<T>)
        requires
            old(self).is_valid(),
            old(self).entries@.dom().contains(cache_key@) ==> old(
                self,
            ).entries@[cache_key@].access_count < u64::MAX,
        ensures
            final(self).is_valid(),
            final(self).max_entries == old(self).max_entries,
            final(self).ttl == old(self).ttl,
            !old(self).entries@.dom().contains(cache_key@) ==> r is None && final(self).entries@
                == old(self).entries@,
            old(self).entries@.dom().contains(cache_key@) ==> {
                let entry = old(self).entries@[cache_key@];
                if entry.spec_expired(now, old(self).ttl) {
                    r is None && final(self).entries@ == old(self).entries@.remove(cache_key@)
                } else {
                    &&& final(self).entries@ == old(self).entries@.insert(
                        cache_key@,
                        entry.accessed(now),
                    )
                    &&& match r {
                        Some(v) => v.is_in(entry.data),
                        None => forall|v: T| !(#[trigger] v.is_in(entry.data)),
                    }
                }
            },
    {
        let key = cache_key.to_owned();
        match self.entries.find(&key) {
            None => None,
            Some(at) => {
                let expired = self.entries.entries[at].value.is_expired(now, self.ttl);
                if expired {
                    let _ = self.entries.remove_at(at);
                    return None;
                }
                let entry = self.entries.remove_at(at);
                let mut value = entry.value;
                value.access(now);
                let found = T::of_kept(&value.data);
                self.entries.insert(entry.key, value);
                proof {
                    assert(self.entries@ =~= old(self).entries@.insert(cache_key@, value));
                }
                found
            },
        }
    }

    /// Keeps a value under a key, in place of the one kept before. Where there are too many entries,
    /// a tenth of them is forgotten first, those least recently used.
    pub fn store<T: Cacheable>(&mut self, cache_key: &str, value: T, now: u64)
        requires
            old(self).is_valid(),
        ensures
            final(self).is_valid(),
            final(self).max_entries == old(self).max_entries,
            final(self).ttl == old(self).ttl,
            final(self).entries@.dom().contains(cache_key@),
            ({
                let entry = final(self).entries@[cache_key@];
                &&& value.is_in(entry.data)
                &&& entry.created_at == now
                &&& entry.last_accessed == now
                &&& entry.access_count == 1
            }),
            exists|left: Map<Seq<char>, CacheableEntry>|
                final(self).entries@ == #[trigger] left.insert(
                    cache_key@,
                    final(self).entries@[cache_key@],
                ) && left.submap_of(old(self).entries@) && least_used_gone(
                    old(self).entries@,
                    left,
                ) && if old(self).entries.entries@.len() < old(self).max_entries {
                    left == old(self).entries@
                } else {
                    left.dom().finite() && left.dom().len() == old(self).entries.entries@.len()
                        - old(self).entries.entries@.len() / 10
                },
    {
        if self.entries.len() >= self.max_entries {
            self.evict_lru();
        }
        let ghost left = self.entries@;
        proof {
            lemma_map_size(self.entries.entries@);
        }
        let entry = CacheableEntry::new(value.into_kept(), now);
        self.entries.insert(cache_key.to_owned(), entry);
        proof {
            assert(self.entries@ == left.insert(cache_key@, entry));
        }
    }

    /// Forgets what is kept under a key.
    pub fn invalidate(&mut self, cache_key: &str)
        requires
            old(self).is_valid(),
        ensures
            final(self).is_valid(),
            final(self).max_entries == old(self).max_entries,
            final(self).ttl == old(self).ttl,
            final(self).entries@ == old(self).entries@.remove(cache_key@),
    {
        let _ = self.entries.remove(&cache_key.to_owned());
    }

    /// Forgets a tenth of the entries, those least recently used.
    pub fn evict_lru(&mut self)
        requires
            old(self).is_valid(),
        ensures
            final(self).is_valid(),
            final(self).max_entries == old(self).max_entries,
            final(self).ttl == old(self).ttl,
            final(self).entries.entries@.len() == old(self).entries.entries@.len() - old(
                self,
            ).entries.entries@.len() / 10,
            final(self).entries@.submap_of(old(self).entries@),
            least_used_gone(old(self).entries@, final(self).entries@),
    {
        let ghost before = self.entries@;
        let n: usize = self.entries.len();
        let count: usize = n / 10;
        let mut i: usize = 0;
        while i < count
            invariant
                i <= count,
                count == n / 10,
                self.entries.is_valid(),
                self.max_entries == old(self).max_entries,
                self.ttl == old(self).ttl,
                self.entries.entries@.len() == n - i,
                self.entries@.submap_of(before),
                least_used_gone(before, self.entries@),
            decreases count - i,
        {
            let at = self.least_used();
            let ghost held = self.entries@;
            let ghost entries = self.entries.entries@;
            proof {
                lemma_entry_found(entries, at as int);
            }
            let removed = self.entries.remove_at(at);
            proof {
                let after = self.entries@;
                assert forall|gone: Seq<char>, left: Seq<char>|
                    #![trigger before[gone], after[left]]
                    before.dom().contains(gone) && !after.dom().contains(gone)
                        && after.dom().contains(left) implies before[gone].last_accessed
                    <= after[left].last_accessed by {
                    assert(held.dom().contains(left) && held[left] == after[left]);
                    if held.dom().contains(gone) {
                        assert(gone == removed.key@);
                        assert(before[gone] == held[gone]);
                        let p = place_of(entries, left);
                        assert(has_key(entries, left));
                        lemma_entry_found(entries, p);
                        assert(entries[at as int].value.last_accessed
                            <= entries[p].value.last_accessed);
                    } else {
                        assert(before[gone].last_accessed <= held[left].last_accessed);
                    }
                }
            }
            i += 1;
        }
    }

    /// The place of an entry that was used no later than any other.
    fn least_used(&self) -> (r: usize)
        requires
            self.entries.entries@.len() > 0,
        ensures
            r < self.entries.entries@.len(),
            forall|k: int|
                0 <= k < self.entries.entries@.len()
                    ==> self.entries.entries@[r as int].value.last_accessed <= (
                #[trigger] self.entries.entries@[k]).value.last_accessed,
    {
        let mut best: usize = 0;
        let mut i: usize = 1;
        while i < self.entries.entries.len()
            invariant
                1 <= i <= self.entries.entries@.len(),
                best < self.entries.entries@.len(),
                forall|k: int|
                    0 <= k < i ==> self.entries.entries@[best as int].value.last_accessed <= (
                    #[trigger] self.entries.entries@[k]).value.last_accessed,
            decreases self.entries.entries.len() - i,
        {
            if self.entries.entries[i].value.last_accessed
                < self.entries.entries[best].value.last_accessed {
                best = i;
            }
            i += 1;
        }
        best
    }

    /// Forgets everything that is too old.
    pub fn cleanup_expired(&mut self, now: u64)
        requires
            old(self).is_valid(),
        ensures
            final(self).is_valid(),
            final(self).max_entries == old(self).max_entries,
            final(self).ttl == old(self).ttl,
            final(self).entries@ == fresh_entries(old(self).entries@, now, old(self).ttl),
    {
        let ghost before = self.entries@;
        let mut i: usize = 0;
        while i < self.entries.len()
            invariant
                i <= self.entries.entries@.len(),
                self.entries.is_valid(),
                self.max_entries == old(self).max_entries,
                self.ttl == old(self).ttl,
                self.entries@.submap_of(before),
                forall|k: int|
                    0 <= k < i ==> !(#[trigger] self.entries.entries@[k]).value.spec_expired(
                        now,
                        self.ttl,
                    ),
                forall|key: Seq<char>| #[trigger]
                    before.dom().contains(key) && !before[key].spec_expired(now, self.ttl)
                        ==> self.entries@.dom().contains(key),
            decreases self.entries.entries@.len() - i,
        {
            if self.entries.entries[i].value.is_expired(now, self.ttl) {
                let ghost held = self.entries@;
                let ghost entries = self.entries.entries@;
                proof {
                    lemma_entry_found(entries, i as int);
                }
                let gone = self.entries.remove_at(i);
                proof {
                    assert forall|key: Seq<char>| #[trigger]
                        before.dom().contains(key) && !before[key].spec_expired(
                            now,
                            self.ttl,
                        ) implies self.entries@.dom().contains(key) by {
                        assert(held.dom().contains(key));
                        assert(held[key] == before[key]);
                    }
                    assert forall|k: int| 0 <= k < i implies !(
                    #[trigger] self.entries.entries@[k]).value.spec_expired(now, self.ttl) by {
                        assert(self.entries.entries@[k] == entries[k]);
                    }
                }
            } else {
                i += 1;
            }
        }
        proof {
            let after = self.entries@;
            assert forall|key: Seq<char>| #[trigger] after.dom().contains(key) implies
                before.dom().contains(key) && !before[key].spec_expired(now, self.ttl) by {
                let entries = self.entries.entries@;
                assert(has_key(entries, key));
                let p = place_of(entries, key);
                lemma_entry_found(entries, p);
                assert(after[key] == entries[p].value);
                assert(!entries[p].value.spec_expired(now, self.ttl));
                assert(after.submap_of(before));
                assert(before.dom().contains(key));
                assert(before[key] == after[key]);
            }
            assert(after =~= fresh_entries(before, now, self.ttl));
        }
    }
}

/// The entries that are not too old.
pub open spec fn fresh_entries(m: Map<Seq<char>, CacheableEntry>, now: u64, ttl: u64) -> Map<
    Seq<char>,
    CacheableEntry,
> {
    Map::new(
        |key: Seq<char>| m.dom().contains(key) && !m[key].spec_expired(now, ttl),
        |key: Seq<char>| m[key],
    )
}

proof fn lemma_map_size(entries: Seq<Entry<String, CacheableEntry>>)
    requires
        crate::table::distinct_keys(entries),
    ensures
        map_of(entries).dom().finite(),
        map_of(entries).dom().len() == entries.len(),
    decreases entries.len(),
{
    let dom = map_of(entries).dom();
    if entries.len() == 0 {
        assert(dom =~= Set::<Seq<char>>::empty());
    } else {
        let rest = entries.drop_last();
        lemma_map_size(rest);
        let key = entries.last().key@;
        assert(entries[entries.len() - 1].key@ == key);
        assert(!has_key(rest, key)) by {
            if has_key(rest, key) {
                let p = place_of(rest, key);
                assert(rest[p].key@ == key);
                assert(entries[p].key@ != entries[entries.len() - 1].key@);
            }
        }
        assert(dom =~= map_of(rest).dom().insert(key)) by {
            assert forall|k: Seq<char>| dom.contains(k) <==> map_of(rest).dom().insert(
                key,
            ).contains(k) by {
                if has_key(entries, k) && k != key {
                    let p = place_of(entries, k);
                    assert(rest[p].key@ == k);
                }
                if has_key(rest, k) {
                    let p = place_of(rest, k);
                    assert(entries[p].key@ == k);
                }
            }
        }
    }
}

/// An entry is found as long as it is not older than it may be, and no longer: using it does not
/// keep it.
pub proof fn law_use_does_not_prolong_life(entry: CacheableEntry, used: u64, now: u64, ttl: u64)
    requires
        entry.access_count < u64::MAX,
        entry.created_at <= now,
    ensures
        entry.accessed(used).spec_expired(now, ttl) == entry.spec_expired(now, ttl),
        entry.spec_expired(now, ttl) <==> entry.created_at + ttl < now,
{
}

/// The key of what belongs to one identifier.
pub fn key_of(prefix: &str, id: u128) -> (r: String)
    ensures
        r@ == prefix@ + "_"@ + uuid_text(id),
{
    let mut r = join(prefix, "_");
    r.append(crate::ids::text_of(id).as_str());
    r
}

/// The key of what belongs to two identifiers.
pub fn key_of_pair(prefix: &str, first: u128, second: u128) -> (r: String)
    ensures
        r@ == prefix@ + "_"@ + uuid_text(first) + "_"@ + uuid_text(second),
{
    let mut r = key_of(prefix, first);
    r.append("_");
    r.append(crate::ids::text_of(second).as_str());
    r
}

/// The key of the measurements of an aspect, in pages of a size.
pub fn measurements_key(aspect_id: &AspectId, max_per_page: usize) -> (r: String)
    ensures
        r@ == "aspect_measurements"@ + "_"@ + uuid_text(aspect_id.value) + "_"@ + nat_text(
            max_per_page as nat,
        ),
{
    let mut r = key_of("aspect_measurements", aspect_id.value);
    r.append("_");
    r.append(u64_text(max_per_page as u64).as_str());
    r
}

/// The key of the analysis of an instant; the method is given by its text.
pub fn point_key(
    aspect_id: &AspectId,
    time: &Timestamp,
    resolution: crate::resolution::Resolution,
    method: &str,
) -> (r: String)
    ensures
        r@ == "point"@ + "_"@ + uuid_text(aspect_id.value) + "_"@ + int_text(time.seconds as int)
            + "_"@ + nat_text(time.nanos as nat) + "_"@ + resolution.spec_name() + "_"@ + method@,
{
    let mut r = key_of("point", aspect_id.value);
    r.append("_");
    r.append(i64_text(time.seconds).as_str());
    r.append("_");
    r.append(u64_text(time.nanos as u64).as_str());
    r.append("_");
    r.append(resolution.name().as_str());
    r.append("_");
    r.append(method);
    r
}

}
