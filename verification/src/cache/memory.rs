//! In-memory cache with expiry on read.

use crate::parser::bbcode::starts_with_str;
use crate::text::{chars_of, has_prefix_at, str_eq};
use core::time::Duration;
use std::time::Instant;
use vstd::prelude::*;

verus! {

/// A point in time on the monotonic clock (`std::time::Instant`), carried
/// as it is.
#[verifier::external_type_specification]
#[verifier::external_body]
pub struct ExInstant(Instant);

/// The span of time in whole milliseconds, as
/// `core::time::Duration::as_millis` gives it.
pub uninterp spec fn millis_of(d: Duration) -> u128;

/// `Duration::as_millis` gives the span in whole milliseconds.
pub assume_specification[ Duration::as_millis ](d: &Duration) -> (r: u128)
    ensures
        r == millis_of(*d),
;

/// `Instant::now` reads the clock. Nothing is promised of the value.
pub assume_specification[ Instant::now ]() -> (r: Instant)
;

/// Reads the clock (`Instant::elapsed`): the time that has passed since
/// `since`. Nothing is promised of the value.
#[verifier::external_body]
pub(crate) fn elapsed(since: &Instant) -> Duration {
    since.elapsed()
}

/// One cached value with the time at which it expires, in milliseconds on
/// the cache's clock. An entry without such a time never expires.
#[derive(Debug, Clone)]
pub struct CacheEntry {
    pub data: Vec<u8>,
    pub expires_at: Option<u128>,
}

/// The latest time that the clock can show.
pub open spec fn end_of_time() -> int {
    u128::MAX as int
}

/// When a value stored at `now` with the time to live `ttl` expires.
pub open spec fn expiry(ttl: Option<u128>, now: u128) -> Option<u128> {
    match ttl {
        Some(t) => Some(
            if now + t > end_of_time() {
                u128::MAX
            } else {
                (now + t) as u128
            },
        ),
        None => None,
    }
}

impl CacheEntry {
    /// Whether the entry has expired at the time `now`: it has once the
    /// clock is past its expiry.
    pub open spec fn expired_at(&self, now: u128) -> bool {
        match self.expires_at {
            Some(e) => now > e,
            None => false,
        }
    }

    /// Creates the entry for a value stored at `now`.
    pub fn new(data: Vec<u8>, ttl: Option<u128>, now: u128) -> (r: Self)
        ensures
            r.data == data,
            r.expires_at == expiry(ttl, now),
    {
        let expires_at = match ttl {
            Some(t) => Some(
                if t > u128::MAX - now {
                    u128::MAX
                } else {
                    now + t
                },
            ),
            None => None,
        };
        CacheEntry { data, expires_at }
    }

    /// Tests whether the entry has expired at the time `now`.
    pub fn is_expired(&self, now: u128) -> (r: bool)
        ensures
            r == self.expired_at(now),
    {
        match self.expires_at {
            Some(e) => now > e,
            None => false,
        }
    }
}

/// A time to live in whole milliseconds.
pub open spec fn ttl_millis(ttl: Option<Duration>) -> Option<u128> {
    match ttl {
        Some(d) => Some(millis_of(d)),
        None => None,
    }
}

/// Mathematical model of a cached value.
pub struct EntryModel {
    pub data: Seq<u8>,
    pub expires_at: Option<u128>,
}

/// The value that a read of `key` at the time `now` gives: that of the
/// entry, unless there is none or it has expired.
pub open spec fn live_value(m: Map<Seq<char>, EntryModel>, key: Seq<char>, now: u128) -> Option<
    Seq<u8>,
> {
    if m.dom().contains(key) {
        match m[key].expires_at {
            Some(e) => if now > e {
                None
            } else {
                Some(m[key].data)
            },
            None => Some(m[key].data),
        }
    } else {
        None
    }
}

/// Whether `after` is `before` without the entries that have expired at
/// the time `now`.
pub open spec fn is_swept(
    before: Map<Seq<char>, EntryModel>,
    after: Map<Seq<char>, EntryModel>,
    now: u128,
) -> bool {
    &&& forall|k: Seq<char>|
        after.dom().contains(k) <==> before.dom().contains(k) && live_value(before, k, now)
            is Some
    &&& forall|k: Seq<char>| after.dom().contains(k) ==> after[k] == before[k]
}

/// The entries of a cache as a map from keys.
pub open spec fn entries_map(v: Seq<(String, CacheEntry)>) -> Map<Seq<char>, EntryModel>
    decreases v.len(),
{
    if v.len() == 0 {
        Map::empty()
    } else {
        entries_map(v.drop_last()).insert(
            v.last().0@,
            EntryModel { data: v.last().1.data@, expires_at: v.last().1.expires_at },
        )
    }
}

/// Whether no key occurs twice.
pub open spec fn keys_distinct(v: Seq<(String, CacheEntry)>) -> bool {
    forall|i: int, j: int| 0 <= i < j < v.len() ==> (#[trigger] v[i]).0@ != (#[trigger] v[j]).0@
}

/// In-memory cache with optional TTL support.
pub struct MemoryCache {
    entries: Vec<(String, CacheEntry)>,
    started: Instant,
}

impl MemoryCache {
    /// The cache as a map from keys to entries.
    pub closed spec fn view(&self) -> Map<Seq<char>, EntryModel> {
        entries_map(self.entries@)
    }

    /// The invariant of the cache: no key is stored twice.
    pub closed spec fn wf(&self) -> bool {
        keys_distinct(self.entries@)
    }

    /// The value that a read of `key` at the time `now` gives: that of the
    /// entry, unless there is none or it has expired.
    pub open spec fn value_at(&self, key: Seq<char>, now: u128) -> Option<Seq<u8>> {
        live_value(self@, key, now)
    }

    /// Create a new empty cache.
    pub fn new() -> (r: Self)
        ensures
            r.wf(),
            r@ == Map::<Seq<char>, EntryModel>::empty(),
    {
        MemoryCache { entries: Vec::new(), started: Instant::now() }
    }

    /// The time on the cache's clock: the milliseconds since the cache was
    /// made.
    pub fn now(&self) -> u128 {
        elapsed(&self.started).as_millis()
    }

    /// Where the entry of `key` is.
    fn position(&self, key: &str) -> (r: Option<usize>)
        requires
            self.wf(),
        ensures
            match r {
                Some(i) => i < self.entries@.len() && self.entries@[i as int].0@ == key@
                    && self@.dom().contains(key@) && self@[key@] == (EntryModel {
                    data: self.entries@[i as int].1.data@,
                    expires_at: self.entries@[i as int].1.expires_at,
                }),
                None => !self@.dom().contains(key@) && forall|j: int|
                    0 <= j < self.entries@.len() ==> (#[trigger] self.entries@[j]).0@ != key@,
            },
    {
        let mut i: usize = 0;
        while i < self.entries.len()
            invariant
                i <= self.entries.len(),
                self.wf(),
                forall|j: int| 0 <= j < i ==> (#[trigger] self.entries@[j]).0@ != key@,
            decreases self.entries.len() - i,
        {
            if str_eq(self.entries[i].0.as_str(), key) {
                proof {
                    lemma_entry_at(self.entries@, i as int);
                }
                return Some(i);
            }
            i = i + 1;
        }
        proof {
            lemma_key_absent(self.entries@, key@);
        }
        None
    }

    /// Reads the value of `key` at the time `now`. An expired entry reads
    /// as absent.
    pub fn get_at(&self, key: &str, now: u128) -> (r: Option<Vec<u8>>)
        requires
            self.wf(),
        ensures
            match r {
                Some(v) => self.value_at(key@, now) == Some(v@),
                None => self.value_at(key@, now) is None,
            },
    {
        match self.position(key) {
            Some(i) => {
                if self.entries[i].1.is_expired(now) {
                    None
                } else {
                    Some(self.entries[i].1.data.clone())
                }
            },
            None => None,
        }
    }

    /// Stores `value` under `key` at the time `now`, in place of any
    /// earlier value, to expire after `ttl` milliseconds if that is given.
    pub fn set_at(&mut self, key: &str, value: &[u8], ttl: Option<u128>, now: u128)
        requires
            old(self).wf(),
        ensures
            final(self).wf(),
            final(self)@ == old(self)@.insert(
                key@,
                EntryModel { data: value@, expires_at: expiry(ttl, now) },
            ),
    {
        let entry = CacheEntry::new(vstd::slice::slice_to_vec(value), ttl, now);
        match self.position(key) {
            Some(i) => {
                let ghost before = self.entries@;
                self.entries.set(i, (key.to_owned(), entry));
                proof {
                    lemma_entry_replaced(before, self.entries@, i as int);
                }
            },
            None => {
                self.entries.push((key.to_owned(), entry));
                assert(self.entries@.drop_last() =~= old(self).entries@);
            },
        }
    }

    /// Removes the entry of `key`, if there is one.
    pub fn remove(&mut self, key: &str)
        requires
            old(self).wf(),
        ensures
            final(self).wf(),
            final(self)@ == old(self)@.remove(key@),
    {
        match self.position(key) {
            Some(i) => {
                let ghost before = self.entries@;
                self.entries.remove(i);
                proof {
                    lemma_entry_removed(before, i as int);
                    assert(self.entries@ =~= before.remove(i as int));
                }
            },
            None => {
                assert(self@ =~= old(self)@.remove(key@));
            },
        }
    }

    /// Removes every entry.
    pub fn clear(&mut self)
        ensures
            final(self).wf(),
            final(self)@ == Map::<Seq<char>, EntryModel>::empty(),
    {
        self.entries.clear();
    }

    /// The keys that start with `prefix`, expired entries included.
    pub fn scan_prefix(&self, prefix: &str) -> (r: Vec<String>)
        requires
            self.wf(),
        ensures
            forall|k: Seq<char>|
                crate::text::strs_of(r@).contains(k) <==> self@.dom().contains(k)
                    && has_prefix_at(k, 0, prefix@),
            crate::text::strs_of(r@).no_duplicates(),
    {
        let mut out: Vec<String> = Vec::new();
        let mut i: usize = 0;
        while i < self.entries.len()
            invariant
                i <= self.entries.len(),
                self.wf(),
                crate::text::strs_of(out@).no_duplicates(),
                forall|k: Seq<char>|
                    crate::text::strs_of(out@).contains(k) <==> (exists|j: int|
                        0 <= j < i && (#[trigger] self.entries@[j]).0@ == k) && has_prefix_at(
                        k,
                        0,
                        prefix@,
                    ),
            decreases self.entries.len() - i,
        {
            let ghost before = crate::text::strs_of(out@);
            let key = &self.entries[i].0;
            let matches = starts_with_str(&chars_of(key.as_str()), 0, prefix);
            if matches {
                proof {
                    if before.contains(key@) {
                        let j = choose|j: int| 0 <= j < i && (#[trigger] self.entries@[j]).0@ == key@;
                        assert(self.entries@[j].0@ != self.entries@[i as int].0@);
                    }
                }
                out.push(key.clone());
                assert(crate::text::strs_of(out@) =~= before.push(key@));
                assert(crate::text::strs_of(out@).no_duplicates()) by {
                    assert forall|a: int, b: int|
                        0 <= a < before.len() + 1 && 0 <= b < before.len() + 1 && a != b implies before.push(
                        key@,
                    )[a] != before.push(key@)[b] by {
                        if a < before.len() && b < before.len() {
                            assert(before[a] != before[b]);
                        } else if a < before.len() {
                            assert(before.contains(before[a]));
                        } else {
                            assert(before.contains(before[b]));
                        }
                    }
                }
                assert forall|k: Seq<char>|
                    crate::text::strs_of(out@).contains(k) <==> (exists|j: int|
                        0 <= j < i + 1 && (#[trigger] self.entries@[j]).0@ == k) && has_prefix_at(
                        k,
                        0,
                        prefix@,
                    ) by {
                    if crate::text::strs_of(out@).contains(k) {
                        let idx = choose|idx: int|
                            0 <= idx < before.push(key@).len() && before.push(key@)[idx] == k;
                        if idx < before.len() {
                            assert(before.contains(k));
                        } else {
                            assert(self.entries@[i as int].0@ == k);
                        }
                    }
                    if (exists|j: int| 0 <= j < i + 1 && (#[trigger] self.entries@[j]).0@ == k)
                        && has_prefix_at(k, 0, prefix@) {
                        let j = choose|j: int|
                            0 <= j < i + 1 && (#[trigger] self.entries@[j]).0@ == k;
                        if j < i {
                            assert(before.contains(k));
                            let idx = choose|idx: int| 0 <= idx < before.len() && before[idx] == k;
                            assert(before.push(key@)[idx] == k);
                        } else {
                            assert(before.push(key@)[before.len() as int] == k);
                        }
                    }
                }
            } else {
                assert forall|k: Seq<char>|
                    crate::text::strs_of(out@).contains(k) <==> (exists|j: int|
                        0 <= j < i + 1 && (#[trigger] self.entries@[j]).0@ == k) && has_prefix_at(
                        k,
                        0,
                        prefix@,
                    ) by {
                    if (exists|j: int| 0 <= j < i + 1 && (#[trigger] self.entries@[j]).0@ == k)
                        && has_prefix_at(k, 0, prefix@) {
                        let j = choose|j: int|
                            0 <= j < i + 1 && (#[trigger] self.entries@[j]).0@ == k;
                        assert(j < i);
                    }
                }
            }
            i = i + 1;
        }
        proof {
            assert forall|k: Seq<char>|
                crate::text::strs_of(out@).contains(k) <==> self@.dom().contains(k)
                    && has_prefix_at(k, 0, prefix@) by {
                lemma_map_keys(self.entries@, k);
            }
        }
        out
    }

    /// Removes the entries that have expired at the time `now`.
    pub fn cleanup_at(&mut self, now: u128)
        requires
            old(self).wf(),
        ensures
            final(self).wf(),
            is_swept(old(self)@, final(self)@, now),
    {
        let mut i: usize = 0;
        proof {
            assert forall|k: Seq<char>|
                self@.dom().contains(k) implies exists|j: int|
                0 <= j < self.entries@.len() && (#[trigger] self.entries@[j]).0@ == k by {
                lemma_map_keys(self.entries@, k);
            }
        }
        while i < self.entries.len()
            invariant
                i <= self.entries.len(),
                self.wf(),
                forall|j: int| 0 <= j < i ==> !(#[trigger] self.entries@[j]).1.expired_at(now),
                forall|k: Seq<char>|
                    self@.dom().contains(k) <==> old(self)@.dom().contains(k) && (old(
                        self,
                    ).value_at(k, now) is Some || exists|j: int|
                        i <= j < self.entries@.len() && (#[trigger] self.entries@[j]).0@ == k),
                forall|k: Seq<char>| self@.dom().contains(k) ==> self@[k] == old(self)@[k],
            decreases self.entries.len() - i,
        {
            let ghost before = self.entries@;
            let ghost before_map = self@;
            let ghost key = self.entries@[i as int].0@;
            proof {
                lemma_entry_at(before, i as int);
            }
            if self.entries[i].1.is_expired(now) {
                self.entries.remove(i);
                proof {
                    lemma_entry_removed(before, i as int);
                    assert(self.entries@ =~= before.remove(i as int));
                    assert forall|k: Seq<char>|
                        self@.dom().contains(k) <==> old(self)@.dom().contains(k) && (old(
                            self,
                        ).value_at(k, now) is Some || exists|j: int|
                            i <= j < self.entries@.len() && (#[trigger] self.entries@[j]).0@
                                == k) by {
                        if k != key && before_map.dom().contains(k) && exists|j: int|
                            i <= j < before.len() && (#[trigger] before[j]).0@ == k {
                            let j = choose|j: int|
                                i <= j < before.len() && (#[trigger] before[j]).0@ == k;
                            assert(j > i);
                            assert(self.entries@[j - 1].0@ == k);
                        }
                        if exists|j: int|
                            i <= j < self.entries@.len() && (#[trigger] self.entries@[j]).0@ == k {
                            let j = choose|j: int|
                                i <= j < self.entries@.len() && (#[trigger] self.entries@[j]).0@
                                    == k;
                            assert(before[j + 1].0@ == k);
                        }
                    }
                }
            } else {
                proof {
                    assert forall|k: Seq<char>|
                        self@.dom().contains(k) <==> old(self)@.dom().contains(k) && (old(
                            self,
                        ).value_at(k, now) is Some || exists|j: int|
                            i + 1 <= j < self.entries@.len() && (#[trigger] self.entries@[j]).0@
                                == k) by {
                        if exists|j: int|
                            i <= j < self.entries@.len() && (#[trigger] self.entries@[j]).0@ == k {
                            let j = choose|j: int|
                                i <= j < self.entries@.len() && (#[trigger] self.entries@[j]).0@
                                    == k;
                            if j == i {
                                assert(old(self).value_at(k, now) is Some);
                            }
                        }
                    }
                }
                i = i + 1;
            }
        }
    }

    /// Reads the value of `key` by the cache's own clock: the result is
    /// what a read at some time gives.
    pub fn get(&self, key: &str) -> (r: Option<Vec<u8>>)
        requires
            self.wf(),
        ensures
            exists|now: u128|
                match r {
                    Some(v) => #[trigger] self.value_at(key@, now) == Some(v@),
                    None => self.value_at(key@, now) is None,
                },
    {
        let now = self.now();
        self.get_at(key, now)
    }

    /// Stores `value` under `key`, to expire after `ttl` if that is given,
    /// by the cache's own clock.
    pub fn set(&mut self, key: &str, value: &[u8], ttl: Option<Duration>)
        requires
            old(self).wf(),
        ensures
            final(self).wf(),
            exists|now: u128|
                final(self)@ == old(self)@.insert(
                    key@,
                    EntryModel {
                        data: value@,
                        expires_at: #[trigger] expiry(ttl_millis(ttl), now),
                    },
                ),
    {
        let now = self.now();
        let millis = match ttl {
            Some(d) => Some(d.as_millis()),
            None => None,
        };
        self.set_at(key, value, millis, now);
    }

    /// Remove expired entries, by the cache's own clock: what stays is what
    /// a read at some time would still give.
    pub fn cleanup(&mut self)
        requires
            old(self).wf(),
        ensures
            final(self).wf(),
            exists|now: u128| #[trigger] is_swept(old(self)@, final(self)@, now),
    {
        let now = self.now();
        self.cleanup_at(now);
    }
}

/// The entry at an index is the one that the map gives to its key.
pub proof fn lemma_entry_at(v: Seq<(String, CacheEntry)>, i: int)
    requires
        keys_distinct(v),
        0 <= i < v.len(),
    ensures
        entries_map(v).dom().contains(v[i].0@),
        entries_map(v)[v[i].0@] == (EntryModel {
            data: v[i].1.data@,
            expires_at: v[i].1.expires_at,
        }),
    decreases v.len(),
{
    if i < v.len() - 1 {
        lemma_entry_at(v.drop_last(), i);
    }
}

/// A key that no entry has is not in the map.
pub proof fn lemma_key_absent(v: Seq<(String, CacheEntry)>, key: Seq<char>)
    requires
        forall|j: int| 0 <= j < v.len() ==> (#[trigger] v[j]).0@ != key,
    ensures
        !entries_map(v).dom().contains(key),
    decreases v.len(),
{
    if v.len() > 0 {
        lemma_key_absent(v.drop_last(), key);
    }
}

/// The keys of the map are the keys of the entries.
pub proof fn lemma_map_keys(v: Seq<(String, CacheEntry)>, key: Seq<char>)
    ensures
        entries_map(v).dom().contains(key) <==> exists|j: int|
            0 <= j < v.len() && (#[trigger] v[j]).0@ == key,
    decreases v.len(),
{
    if v.len() > 0 {
        lemma_map_keys(v.drop_last(), key);
        if exists|j: int| 0 <= j < v.len() - 1 && (#[trigger] v.drop_last()[j]).0@ == key {
            let j = choose|j: int| 0 <= j < v.len() - 1 && (#[trigger] v.drop_last()[j]).0@ == key;
            assert(v[j].0@ == key);
        }
        if exists|j: int| 0 <= j < v.len() && (#[trigger] v[j]).0@ == key {
            let j = choose|j: int| 0 <= j < v.len() && (#[trigger] v[j]).0@ == key;
            if j < v.len() - 1 {
                assert(v.drop_last()[j].0@ == key);
            }
        }
    }
}

/// Replacing the entry at `i` by one of the same key updates the map at
/// that key.
pub proof fn lemma_entry_replaced(
    before: Seq<(String, CacheEntry)>,
    after: Seq<(String, CacheEntry)>,
    i: int,
)
    requires
        keys_distinct(before),
        0 <= i < before.len(),
        after.len() == before.len(),
        after[i].0@ == before[i].0@,
        forall|j: int| 0 <= j < before.len() && j != i ==> after[j] == before[j],
    ensures
        keys_distinct(after),
        entries_map(after) == entries_map(before).insert(
            after[i].0@,
            EntryModel { data: after[i].1.data@, expires_at: after[i].1.expires_at },
        ),
    decreases before.len(),
{
    assert(keys_distinct(after)) by {
        assert forall|a: int, b: int| 0 <= a < b < after.len() implies (#[trigger] after[a]).0@ != (
        #[trigger] after[b]).0@ by {
            assert(before[a].0@ != before[b].0@);
        }
    }
    let e = EntryModel { data: after[i].1.data@, expires_at: after[i].1.expires_at };
    if i == before.len() - 1 {
        assert(after.drop_last() =~= before.drop_last());
        assert(entries_map(after) =~= entries_map(before).insert(after[i].0@, e));
    } else {
        lemma_entry_replaced(before.drop_last(), after.drop_last(), i);
        assert(before[i].0@ != before[before.len() - 1].0@);
        assert(entries_map(after) =~= entries_map(before).insert(after[i].0@, e));
    }
}

/// Removing the entry at `i` removes its key from the map.
pub proof fn lemma_entry_removed(before: Seq<(String, CacheEntry)>, i: int)
    requires
        keys_distinct(before),
        0 <= i < before.len(),
    ensures
        keys_distinct(before.remove(i)),
        entries_map(before.remove(i)) == entries_map(before).remove(before[i].0@),
    decreases before.len(),
{
    let after = before.remove(i);
    assert(keys_distinct(after)) by {
        assert forall|a: int, b: int| 0 <= a < b < after.len() implies (#[trigger] after[a]).0@ != (
        #[trigger] after[b]).0@ by {
            let a0 = if a < i {
                a
            } else {
                a + 1
            };
            let b0 = if b < i {
                b
            } else {
                b + 1
            };
            assert(before[a0].0@ != before[b0].0@);
        }
    }
    if i == before.len() - 1 {
        assert(after =~= before.drop_last());
        assert forall|j: int| 0 <= j < before.drop_last().len() implies (
        #[trigger] before.drop_last()[j]).0@ != before[i].0@ by {
            assert(before[j].0@ != before[i].0@);
        }
        lemma_key_absent(before.drop_last(), before[i].0@);
        assert(entries_map(after) =~= entries_map(before).remove(before[i].0@));
    } else {
        lemma_entry_removed(before.drop_last(), i);
        assert(after.drop_last() =~= before.drop_last().remove(i));
        assert(after.last() == before.last());
        assert(before[i].0@ != before[before.len() - 1].0@);
        assert(entries_map(after) =~= entries_map(before).remove(before[i].0@));
    }
}

} // verus!
