//! A persistent key-value cache of serialised attributes, with a bounded
//! in-memory cache of recently used values in front of its database.
//!
//! The database is an [`AttributeStore`]; the memory cache is an
//! `lru::LruCache`. What the cache does with them -- when an entry counts as
//! expired, what is answered from memory, what a removal forgets -- is
//! decided and verified here. Values are bytes; serialising them is the
//! caller's.

use vstd::prelude::*;
use crate::text::{concat2, is_prefix, owned, starts_with, str_eq, views};

verus! {

// ---------------------------------------------------------------------------
// The memory cache (lru)
// ---------------------------------------------------------------------------

#[verifier::external_type_specification]
#[verifier::external_body]
#[verifier::reject_recursive_types(K)]
#[verifier::reject_recursive_types(V)]
#[verifier::reject_recursive_types(S)]
pub struct ExLruCache<K, V, S>(lru::LruCache<K, V, S>);

#[verifier::external_type_specification]
#[verifier::external_body]
pub struct ExLruHasher(lru::DefaultHasher);

/// The entries an LRU cache holds, by key.
pub uninterp spec fn lru_entries(cache: lru::LruCache<String, Vec<u8>>) -> Map<Seq<char>, Seq<u8>>;

/// The number of entries an LRU cache was made to hold.
pub uninterp spec fn lru_capacity(cache: lru::LruCache<String, Vec<u8>>) -> nat;

/// An empty LRU cache holding at most `cap` entries (`LruCache::new`).
#[verifier::external_body]
fn lru_new(cap: usize) -> (r: lru::LruCache<String, Vec<u8>>)
    requires
        cap > 0,
    ensures
        lru_entries(r) == no_values(),
        lru_capacity(r) == cap,
{
    lru::LruCache::new(std::num::NonZeroUsize::new(cap).unwrap())
}

/// Put an entry (`LruCache::put`): the key now holds the value; when the
/// key was absent and the cache full, the least recently used entry is
/// evicted, and otherwise nothing else changes.
#[verifier::external_body]
fn lru_put(cache: &mut lru::LruCache<String, Vec<u8>>, key: String, value: Vec<u8>)
    ensures
        lru_capacity(*final(cache)) == lru_capacity(*old(cache)),
        lru_entries(*final(cache)).contains_key(key@),
        lru_entries(*final(cache))[key@] == value@,
        forall|k: Seq<char>| #[trigger] lru_entries(*final(cache)).contains_key(k) && k != key@ ==>
            lru_entries(*old(cache)).contains_key(k) && lru_entries(*final(cache))[k] == lru_entries(*old(cache))[k],
        (lru_entries(*old(cache)).contains_key(key@) || lru_entries(*old(cache)).len() < lru_capacity(*old(cache)))
            ==> lru_entries(*final(cache)) == lru_entries(*old(cache)).insert(key@, value@),
{
    cache.put(key, value);
}

/// A copy of the value held for a key (`LruCache::get`, which also marks
/// the entry as most recently used).
#[verifier::external_body]
fn lru_get(cache: &mut lru::LruCache<String, Vec<u8>>, key: &str) -> (r: Option<Vec<u8>>)
    ensures
        lru_entries(*final(cache)) == lru_entries(*old(cache)),
        lru_capacity(*final(cache)) == lru_capacity(*old(cache)),
        r is Some <==> lru_entries(*old(cache)).contains_key(key@),
        r matches Some(v) ==> lru_entries(*old(cache))[key@] == v@,
{
    cache.get(key).cloned()
}

/// Forget a key (`LruCache::pop`).
#[verifier::external_body]
fn lru_pop(cache: &mut lru::LruCache<String, Vec<u8>>, key: &str)
    ensures
        lru_entries(*final(cache)) == lru_entries(*old(cache)).remove(key@),
        lru_capacity(*final(cache)) == lru_capacity(*old(cache)),
{
    cache.pop(key);
}

/// Forget everything (`LruCache::clear`).
#[verifier::external_body]
fn lru_clear(cache: &mut lru::LruCache<String, Vec<u8>>)
    ensures
        lru_entries(*final(cache)) == no_values(),
        lru_capacity(*final(cache)) == lru_capacity(*old(cache)),
{
    cache.clear();
}

// ---------------------------------------------------------------------------
// The database
// ---------------------------------------------------------------------------

/// Information about a cache entry.
#[derive(Debug, Clone)]
pub struct CacheEntry {
    pub key: String,
    pub size_bytes: usize,
    pub created_at: i64,
    pub updated_at: i64,
    pub expires_at: Option<i64>,
}

/// A key prefix as plain text.
pub open spec fn prefix_view(prefix: Option<&str>) -> Option<Seq<char>> {
    match prefix {
        Some(p) => Some(p@),
        None => None,
    }
}

/// Whether a key falls under an optional prefix.
pub open spec fn under(prefix: Option<Seq<char>>, key: Seq<char>) -> bool {
    match prefix {
        Some(p) => is_prefix(p, key),
        None => true,
    }
}

/// The keys that fall under the prefix, in order.
pub open spec fn keys_under(keys: Seq<Seq<char>>, prefix: Option<Seq<char>>) -> Seq<Seq<char>>
    decreases keys.len(),
{
    if keys.len() == 0 {
        Seq::empty()
    } else if under(prefix, keys.last()) {
        keys_under(keys.drop_last(), prefix).push(keys.last())
    } else {
        keys_under(keys.drop_last(), prefix)
    }
}

/// The entries whose keys fall under the prefix, in order.
pub open spec fn entries_under(es: Seq<CacheEntry>, prefix: Option<Seq<char>>) -> Seq<CacheEntry>
    decreases es.len(),
{
    if es.len() == 0 {
        Seq::empty()
    } else if under(prefix, es.last().key@) {
        entries_under(es.drop_last(), prefix).push(es.last())
    } else {
        entries_under(es.drop_last(), prefix)
    }
}

fn is_under(prefix: Option<&str>, key: &str) -> (r: bool)
    ensures
        r == under(prefix_view(prefix), key@),
{
    match prefix {
        Some(p) => starts_with(key, p),
        None => true,
    }
}

/// The keys that fall under the prefix, in order.
fn filter_keys(keys: Vec<String>, prefix: Option<&str>) -> (r: Vec<String>)
    ensures
        views(r@) == keys_under(views(keys@), prefix_view(prefix)),
{
    let ghost all = keys@;
    let mut rest = keys;
    let mut out: Vec<String> = Vec::new();
    let ghost mut i: int = 0;
    while rest.len() > 0
        invariant
            0 <= i <= all.len(),
            rest@ == all.subrange(i, all.len() as int),
            views(out@) == keys_under(views(all.take(i)), prefix_view(prefix)),
        decreases rest.len(),
    {
        let k = rest.remove(0);
        proof {
            assert(views(all.take(i + 1)).drop_last() =~= views(all.take(i)));
            assert(views(all.take(i + 1)).last() == k@);
        }
        if is_under(prefix, k.as_str()) {
            let ghost before = views(out@);
            out.push(k);
            assert(views(out@) =~= before.push(all[i]@));
        }
        proof {
            i = i + 1;
        }
    }
    assert(all.take(all.len() as int) =~= all);
    out
}

/// The entries whose keys fall under the prefix, in order.
fn filter_entries(entries: Vec<CacheEntry>, prefix: Option<&str>) -> (r: Vec<CacheEntry>)
    ensures
        r@ == entries_under(entries@, prefix_view(prefix)),
{
    let ghost all = entries@;
    let mut rest = entries;
    let mut out: Vec<CacheEntry> = Vec::new();
    let ghost mut i: int = 0;
    while rest.len() > 0
        invariant
            0 <= i <= all.len(),
            rest@ == all.subrange(i, all.len() as int),
            out@ == entries_under(all.take(i), prefix_view(prefix)),
        decreases rest.len(),
    {
        let e = rest.remove(0);
        proof {
            assert(all.take(i + 1).drop_last() =~= all.take(i));
            assert(all.take(i + 1).last() == e);
        }
        if is_under(prefix, e.key.as_str()) {
            out.push(e);
        }
        proof {
            i = i + 1;
        }
    }
    assert(all.take(all.len() as int) =~= all);
    out
}

/// The attribute database.
///
/// Its answers come from disk, so the cache's contracts speak of them
/// through the relations below: `expiry_answer(key, r)` holds when the
/// store, as it stands, may answer `r` to a read of `key`'s expiry, and
/// the others likewise for the call each is named after. A store that
/// refines none may give any answer.
pub trait AttributeStore {
    open spec fn expiry_answer(&self, key: Seq<char>, r: Result<Option<Option<i64>>, String>) -> bool {
        true
    }

    open spec fn value_answer(&self, key: Seq<char>, r: Result<Option<Vec<u8>>, String>) -> bool {
        true
    }

    open spec fn delete_answer(&self, key: Seq<char>, r: Result<usize, String>) -> bool {
        true
    }

    open spec fn timestamps_answer(&self, key: Seq<char>, r: Result<Option<(i64, i64)>, String>) -> bool {
        true
    }

    open spec fn clear_answer(&self, r: Result<usize, String>) -> bool {
        true
    }

    open spec fn cutoff_answer(&self, cutoff: i64, r: Result<usize, String>) -> bool {
        true
    }

    open spec fn keys_answer(&self, prefix: Option<Seq<char>>, r: Result<Vec<String>, String>) -> bool {
        true
    }

    open spec fn entries_answer(&self, prefix: Option<Seq<char>>, r: Result<Vec<CacheEntry>, String>) -> bool {
        true
    }

    open spec fn prefix_delete_answer(&self, prefix: Seq<char>, r: Result<usize, String>) -> bool {
        true
    }

    open spec fn prefix_values_answer(&self, prefix: Seq<char>, r: Result<Vec<(String, Vec<u8>)>, String>) -> bool {
        true
    }

    /// Insert or replace a value; a new entry is created now, a replaced one
    /// keeps its creation time.
    fn upsert(&mut self, key: &str, value: &[u8], expires_at: Option<i64>) -> Result<(), String>;

    /// The expiry of an entry: `None` when there is no such entry,
    /// `Some(None)` when it never expires.
    fn expiry_of(&mut self, key: &str) -> (r: Result<Option<Option<i64>>, String>)
        ensures
            old(self).expiry_answer(key@, r),
    ;

    /// The value of an entry.
    fn value_of(&mut self, key: &str) -> (r: Result<Option<Vec<u8>>, String>)
        ensures
            old(self).value_answer(key@, r),
    ;

    /// Delete an entry; how many were deleted.
    fn delete(&mut self, key: &str) -> (r: Result<usize, String>)
        ensures
            old(self).delete_answer(key@, r),
    ;

    /// Delete every entry.
    fn delete_all(&mut self) -> (r: Result<usize, String>)
        ensures
            old(self).clear_answer(r),
    ;

    /// Delete the entries created before `cutoff`; how many were deleted.
    fn delete_created_before(&mut self, cutoff: i64) -> (r: Result<usize, String>)
        ensures
            old(self).cutoff_answer(cutoff, r),
    ;

    /// `(created_at, updated_at)` of an entry.
    fn timestamps(&mut self, key: &str) -> (r: Result<Option<(i64, i64)>, String>)
        ensures
            old(self).timestamps_answer(key@, r),
    ;

    /// The keys starting with `prefix` (all keys without one), in key order.
    fn keys(&self, prefix: Option<&str>) -> (r: Result<Vec<String>, String>)
        ensures
            self.keys_answer(prefix_view(prefix), r),
    ;

    /// The entries whose keys start with `prefix` (all without one), in key order.
    fn entries(&self, prefix: Option<&str>) -> (r: Result<Vec<CacheEntry>, String>)
        ensures
            self.entries_answer(prefix_view(prefix), r),
    ;

    /// Delete the entries whose keys start with `prefix`; how many were deleted.
    fn delete_with_prefix(&mut self, prefix: &str) -> (r: Result<usize, String>)
        ensures
            old(self).prefix_delete_answer(prefix@, r),
    ;

    /// The keys and values of the entries whose keys start with `prefix`.
    fn values_with_prefix(&mut self, prefix: &str) -> (r: Result<Vec<(String, Vec<u8>)>, String>)
        ensures
            old(self).prefix_values_answer(prefix@, r),
    ;
}

// ---------------------------------------------------------------------------
// The schema
// ---------------------------------------------------------------------------

/// The columns a complete `cache` table has.
pub open spec fn required_columns() -> Seq<Seq<char>> {
    seq!["key"@, "value"@, "created_at"@, "updated_at"@, "expires_at"@]
}

/// What opening the database does to its `cache` table.
#[derive(Debug, Clone, Copy, PartialEq, Eq, Structural)]
pub enum SchemaAction {
    /// The table is complete: use it.
    Keep,
    /// There is no table: create it.
    Create,
    /// The table lacks a column: drop it and create it afresh.
    Recreate,
}

/// Whether a listing of column names holds every required column.
pub open spec fn schema_complete(columns: Seq<Seq<char>>) -> bool {
    forall|i: int| 0 <= i < required_columns().len() ==> columns.contains(#[trigger] required_columns()[i])
}

fn has_column(columns: &Vec<String>, name: &str) -> (r: bool)
    ensures
        r == crate::text::views(columns@).contains(name@),
{
    let mut i: usize = 0;
    while i < columns.len()
        invariant
            i <= columns.len(),
            forall|k: int| 0 <= k < i ==> columns@[k]@ != name@,
        decreases columns.len() - i,
    {
        if str_eq(columns[i].as_str(), name) {
            assert(crate::text::views(columns@)[i as int] == name@);
            return true;
        }
        i = i + 1;
    }
    assert forall|k: int| 0 <= k < crate::text::views(columns@).len() implies crate::text::views(columns@)[k] != name@ by {
        assert(crate::text::views(columns@)[k] == columns@[k]@);
    }
    false
}

/// What to do with the `cache` table, given whether it exists and the
/// names of its columns: keep a complete table, create a missing one, and
/// recreate one that lacks a column (simpler than migrating it).
pub fn schema_action(table_exists: bool, columns: &Vec<String>) -> (r: SchemaAction)
    ensures
        !table_exists ==> r == SchemaAction::Create,
        table_exists && schema_complete(crate::text::views(columns@)) ==> r == SchemaAction::Keep,
        table_exists && !schema_complete(crate::text::views(columns@)) ==> r == SchemaAction::Recreate,
{
    if !table_exists {
        return SchemaAction::Create;
    }
    proof {
        reveal_strlit("key");
        reveal_strlit("value");
        reveal_strlit("created_at");
        reveal_strlit("updated_at");
        reveal_strlit("expires_at");
    }
    let complete = has_column(columns, "key") && has_column(columns, "value") && has_column(columns, "created_at")
        && has_column(columns, "updated_at") && has_column(columns, "expires_at");
    if complete {
        SchemaAction::Keep
    } else {
        SchemaAction::Recreate
    }
}

// ---------------------------------------------------------------------------
// Time
// ---------------------------------------------------------------------------

/// Seconds in a day.
pub const SECONDS_PER_DAY: i64 = 86400;

/// An entry with this expiry has expired at `now`.
pub open spec fn spec_is_expired(expires_at: Option<i64>, now: i64) -> bool {
    expires_at matches Some(t) && t <= now
}

/// Whether an entry with this expiry has expired at `now`.
pub fn is_expired(expires_at: Option<i64>, now: i64) -> (r: bool)
    ensures
        r == spec_is_expired(expires_at, now),
{
    match expires_at {
        Some(t) => t <= now,
        None => false,
    }
}

/// The expiry `ttl_seconds` after `now`.
pub fn expiry_after(now: i64, ttl_seconds: u64) -> (r: i64)
    requires
        ttl_seconds <= i64::MAX,
        now + ttl_seconds <= i64::MAX,
    ensures
        r == now + ttl_seconds,
{
    now + ttl_seconds as i64
}

/// The creation time before which entries are too old: `max_age_days`
/// before `now`.
pub fn cleanup_cutoff(now: i64, max_age_days: u64) -> (r: i64)
    requires
        max_age_days * SECONDS_PER_DAY <= i64::MAX,
        now - max_age_days * SECONDS_PER_DAY >= i64::MIN,
    ensures
        r == now - max_age_days * SECONDS_PER_DAY,
{
    now - (max_age_days as i64) * SECONDS_PER_DAY
}

/// How long ago a timestamp was, at `now`.
pub fn age_at(now: i64, then: i64) -> (r: i64)
    requires
        i64::MIN <= now - then <= i64::MAX,
    ensures
        r == now - then,
{
    now - then
}

/// The age at `now` of a time an entry recorded, when it recorded one; an
/// error when the difference does not fit an `i64`.
pub fn age_since(now: i64, then: Option<i64>) -> (r: Result<Option<i64>, String>)
    ensures
        then is None ==> (r matches Ok(a) && a is None),
        then matches Some(t) ==> if i64::MIN <= now - t <= i64::MAX {
            r matches Ok(a) && a == Some((now - t) as i64)
        } else {
            err_is(r, "Timestamp out of range"@)
        },
{
    match then {
        Some(t) => {
            if (now as i128) - (t as i128) > i64::MAX as i128 || (now as i128) - (t as i128) < i64::MIN as i128 {
                return Err(owned("Timestamp out of range"));
            }
            Ok(Some(age_at(now, t)))
        },
        None => Ok(None),
    }
}

// ---------------------------------------------------------------------------
// The cache
// ---------------------------------------------------------------------------

/// The default number of values kept in memory.
pub const DEFAULT_MEMORY_ENTRIES: usize = 20000;

/// The default maximum age of an entry, in days.
pub const DEFAULT_MAX_AGE_DAYS: u64 = 30;

/// A persistent attribute cache over a database `D`.
pub struct AttributeCache<D: AttributeStore> {
    db_path: String,
    db: Option<D>,
    enabled: bool,
    max_age_days: u64,
    memory_cache: lru::LruCache<String, Vec<u8>>,
}

impl<D: AttributeStore> AttributeCache<D> {
    /// The values held in memory.
    pub closed spec fn memory(&self) -> Map<Seq<char>, Seq<u8>> {
        lru_entries(self.memory_cache)
    }

    /// How many values memory holds at most.
    pub closed spec fn memory_capacity(&self) -> nat {
        lru_capacity(self.memory_cache)
    }

    /// The database behind the cache, where it has one.
    pub closed spec fn store(&self) -> D {
        self.db->0
    }

    pub closed spec fn spec_enabled(&self) -> bool {
        self.enabled
    }

    pub closed spec fn has_db(&self) -> bool {
        self.db is Some
    }

    pub closed spec fn spec_max_age_days(&self) -> u64 {
        self.max_age_days
    }

    pub closed spec fn spec_db_path(&self) -> Seq<char> {
        self.db_path@
    }

    /// A cache over the database opened at `db_path` (`None` when it could
    /// not be opened), keeping up to `memory_entries` values in memory (the
    /// default when zero is asked for). Enabled, with entries kept 30 days.
    pub fn with_database(db_path: String, db: Option<D>, memory_entries: usize) -> (r: Self)
        ensures
            r.spec_db_path() == db_path@,
            r.has_db() == db is Some,
            r.spec_enabled(),
            r.spec_max_age_days() == DEFAULT_MAX_AGE_DAYS,
            r.memory() == no_values(),
            r.memory_capacity() == if memory_entries > 0 {
                memory_entries
            } else {
                DEFAULT_MEMORY_ENTRIES
            },
    {
        let cap = if memory_entries > 0 {
            memory_entries
        } else {
            DEFAULT_MEMORY_ENTRIES
        };
        AttributeCache {
            db_path,
            db,
            enabled: true,
            max_age_days: DEFAULT_MAX_AGE_DAYS,
            memory_cache: lru_new(cap),
        }
    }

    /// Keep entries for `days` days.
    pub fn set_max_age(&mut self, days: u64)
        ensures
            final(self).spec_max_age_days() == days,
            final(self).spec_enabled() == old(self).spec_enabled(),
            final(self).has_db() == old(self).has_db(),
            final(self).memory() == old(self).memory(),
    {
        self.max_age_days = days;
    }

    /// Enable or disable the cache.
    pub fn enable(&mut self, enabled: bool)
        ensures
            final(self).spec_enabled() == enabled,
            final(self).spec_max_age_days() == old(self).spec_max_age_days(),
            final(self).has_db() == old(self).has_db(),
            final(self).memory() == old(self).memory(),
    {
        self.enabled = enabled;
    }

    /// How many days entries are kept.
    pub fn max_age_days(&self) -> (r: u64)
        ensures
            r == self.spec_max_age_days(),
    {
        self.max_age_days
    }

    /// Whether the cache is enabled and has a database.
    pub fn is_enabled(&self) -> (r: bool)
        ensures
            r == (self.spec_enabled() && self.has_db()),
    {
        self.enabled && self.db.is_some()
    }

    /// Store a value, with an optional expiry (seconds since the Unix epoch).
    /// The value is held in memory before the database is written.
    pub fn set_bytes(&mut self, key: &str, value: Vec<u8>, expires_at: Option<i64>) -> (r: Result<(), String>)
        ensures
            !(old(self).spec_enabled() && old(self).has_db()) ==> err_is(r, "Cache is disabled"@)
                && final(self).memory() == old(self).memory(),
            old(self).spec_enabled() && old(self).has_db() ==> final(self).memory().contains_key(key@)
                && final(self).memory()[key@] == value@,
            final(self).spec_enabled() == old(self).spec_enabled(),
            final(self).has_db() == old(self).has_db(),
            final(self).spec_max_age_days() == old(self).spec_max_age_days(),
    {
        if !self.is_enabled() {
            return Err(owned("Cache is disabled"));
        }
        let stored = match &mut self.db {
            Some(db) => db.upsert(key, value.as_slice(), expires_at),
            None => Err(owned("Database not available")),
        };
        lru_put(&mut self.memory_cache, owned(key), value);
        match stored {
            Ok(()) => Ok(()),
            Err(e) => Err(concat2("Failed to store in database: ", e.as_str())),
        }
    }

    /// The value stored for a key, unless it has expired at `now`. An
    /// expired entry is removed on the way. A value in memory is answered
    /// from memory; one read from the database is kept in memory. A value is
    /// only ever answered when the database gave the entry an expiry that has
    /// not passed at `now`.
    pub fn get_bytes(&mut self, key: &str, now: i64) -> (r: Result<Option<Vec<u8>>, String>)
        ensures
            !(old(self).spec_enabled() && old(self).has_db()) ==> err_is(r, "Cache is disabled"@)
                && final(self).memory() == old(self).memory(),
            err_is(r, "Cache is disabled"@) ==> !(old(self).spec_enabled() && old(self).has_db()),
            r matches Ok(Some(_)) ==> exists|x: Option<i64>|
                #[trigger] old(self).store().expiry_answer(key@, Ok(Some(x))) && !spec_is_expired(x, now),
            r matches Ok(Some(v)) ==> final(self).memory().contains_key(key@) && final(self).memory()[key@] == v@,
            old(self).memory().contains_key(key@) ==> (r matches Ok(Some(v)) ==> v@ == old(self).memory()[key@]),
            final(self).spec_enabled() == old(self).spec_enabled(),
            final(self).has_db() == old(self).has_db(),
            final(self).spec_max_age_days() == old(self).spec_max_age_days(),
    {
        if !self.is_enabled() {
            return Err(owned("Cache is disabled"));
        }
        let read = match &mut self.db {
            Some(db) => db.expiry_of(key),
            None => return Err(owned("Database not available")),
        };
        let ghost first_read = read;
        assert(old(self).store().expiry_answer(key@, first_read));
        let r = self.answer_read_expiry(key, now, read);
        proof {
            match first_read {
                Ok(Some(x)) => {
                    assert(old(self).store().expiry_answer(key@, Ok(Some(x))));
                },
                _ => {},
            }
            if r is Err {
                lemma_database_error_is_not_disabled(r->Err_0@);
            }
        }
        r
    }

    /// The rest of a lookup once the database has read `key`'s expiry as
    /// `read`: a failed read is its error; no entry is `Ok(None)`; an entry
    /// expired at `now` is removed and is `Ok(None)`; otherwise a value in
    /// memory is answered, and failing that the one the database reads.
    pub fn answer_read_expiry(&mut self, key: &str, now: i64, read: Result<Option<Option<i64>>, String>)
        -> (r: Result<Option<Vec<u8>>, String>)
        requires
            old(self).spec_enabled(),
            old(self).has_db(),
        ensures
            read matches Err(e) ==> err_is(r, "Database error checking expiry: "@ + e@)
                && final(self).memory() == old(self).memory(),
            read matches Ok(None) ==> r matches Ok(None) && final(self).memory() == old(self).memory(),
            read matches Ok(Some(x)) && spec_is_expired(x, now) ==> (r matches Ok(None)
                && final(self).memory() == old(self).memory().remove(key@)),
            read matches Ok(Some(x)) && !spec_is_expired(x, now) && old(self).memory().contains_key(key@) ==> (r matches Ok(Some(v))
                && v@ == old(self).memory()[key@] && final(self).memory() == old(self).memory()),
            read matches Ok(Some(x)) && !spec_is_expired(x, now) && !old(self).memory().contains_key(key@) ==> exists|value: Result<Option<Vec<u8>>, String>|
                #[trigger] old(self).store().value_answer(key@, value) && value_outcome(value, r)
                && (value matches Ok(Some(v)) ==> final(self).memory().contains_key(key@) && final(self).memory()[key@] == v@)
                && (!(value matches Ok(Some(_))) ==> final(self).memory() == old(self).memory()),
            r matches Err(m) ==> "Database error"@.is_prefix_of(m@),
            final(self).spec_enabled() == old(self).spec_enabled(),
            final(self).has_db() == old(self).has_db(),
            final(self).spec_max_age_days() == old(self).spec_max_age_days(),
    {
        let expires_at = match read {
            Ok(Some(x)) => x,
            Ok(None) => return Ok(None),
            Err(e) => {
                proof { lemma_database_error_prefixes(e@); }
                return Err(concat2("Database error checking expiry: ", e.as_str()));
            },
        };
        if is_expired(expires_at, now) {
            let _ = self.remove(key);
            return Ok(None);
        }
        if let Some(v) = lru_get(&mut self.memory_cache, key) {
            return Ok(Some(v));
        }
        let value = match &mut self.db {
            Some(db) => db.value_of(key),
            None => return Ok(None),
        };
        assert(old(self).store().value_answer(key@, value));
        self.answer_read_value(key, value)
    }

    /// The answer once the database has read `key`'s value as `read`: a
    /// value found is kept in memory and answered, none is `Ok(None)`, and a
    /// failed read is its error.
    pub fn answer_read_value(&mut self, key: &str, read: Result<Option<Vec<u8>>, String>) -> (r: Result<Option<Vec<u8>>, String>)
        ensures
            value_outcome(read, r),
            read matches Ok(Some(v)) ==> final(self).memory().contains_key(key@) && final(self).memory()[key@] == v@,
            !(read matches Ok(Some(_))) ==> final(self).memory() == old(self).memory(),
            r matches Err(m) ==> "Database error"@.is_prefix_of(m@),
            final(self).spec_enabled() == old(self).spec_enabled(),
            final(self).has_db() == old(self).has_db(),
            final(self).spec_max_age_days() == old(self).spec_max_age_days(),
    {
        match read {
            Ok(Some(v)) => {
                lru_put(&mut self.memory_cache, owned(key), v.clone());
                Ok(Some(v))
            },
            Ok(None) => Ok(None),
            Err(e) => {
                proof { lemma_database_error_prefixes(e@); }
                Err(concat2("Database error: ", e.as_str()))
            },
        }
    }

    /// Remove an entry: forgotten in memory, deleted from the database;
    /// whether the database held it.
    pub fn remove(&mut self, key: &str) -> (r: Result<bool, String>)
        ensures
            !(old(self).spec_enabled() && old(self).has_db()) ==> err_is(r, "Cache is disabled"@)
                && final(self).memory() == old(self).memory(),
            old(self).spec_enabled() && old(self).has_db() ==> final(self).memory() == old(self).memory().remove(key@),
            r matches Ok(found) ==> exists|n: usize| #[trigger] old(self).store().delete_answer(key@, Ok(n)) && found == (n > 0),
            old(self).spec_enabled() && old(self).has_db() && r is Err ==> exists|e: String|
                #[trigger] old(self).store().delete_answer(key@, Err(e)) && err_is(r, "Failed to remove from database: "@ + e@),
            final(self).spec_enabled() == old(self).spec_enabled(),
            final(self).has_db() == old(self).has_db(),
            final(self).spec_max_age_days() == old(self).spec_max_age_days(),
    {
        if !self.is_enabled() {
            return Err(owned("Cache is disabled"));
        }
        lru_pop(&mut self.memory_cache, key);
        let deleted = match &mut self.db {
            Some(db) => db.delete(key),
            None => return Err(owned("Database not available")),
        };
        assert(old(self).store().delete_answer(key@, deleted));
        match deleted {
            Ok(n) => Ok(n > 0),
            Err(e) => Err(concat2("Failed to remove from database: ", e.as_str())),
        }
    }

    /// Remove every entry, in memory and in the database.
    pub fn clear(&mut self) -> (r: Result<(), String>)
        ensures
            !(old(self).spec_enabled() && old(self).has_db()) ==> err_is(r, "Cache is disabled"@)
                && final(self).memory() == old(self).memory(),
            old(self).spec_enabled() && old(self).has_db() ==> final(self).memory() == no_values(),
            r is Ok ==> exists|n: usize| #[trigger] old(self).store().clear_answer(Ok(n)),
            old(self).spec_enabled() && old(self).has_db() && r is Err ==> exists|e: String|
                #[trigger] old(self).store().clear_answer(Err(e)) && err_is(r, "Failed to clear database: "@ + e@),
            final(self).spec_enabled() == old(self).spec_enabled(),
            final(self).has_db() == old(self).has_db(),
    {
        if !self.is_enabled() {
            return Err(owned("Cache is disabled"));
        }
        lru_clear(&mut self.memory_cache);
        let cleared = match &mut self.db {
            Some(db) => db.delete_all(),
            None => return Err(owned("Database not available")),
        };
        assert(old(self).store().clear_answer(cleared));
        match cleared {
            Ok(n) => {
                assert(old(self).store().clear_answer(Ok(n)));
                Ok(())
            },
            Err(e) => {
                assert(old(self).store().clear_answer(Err(e)));
                Err(concat2("Failed to clear database: ", e.as_str()))
            },
        }
    }

    /// Delete the entries older than the maximum age at `now`; when any went,
    /// memory is cleared as well.
    pub fn cleanup(&mut self, now: i64) -> (r: Result<usize, String>)
        requires
            old(self).spec_max_age_days() * SECONDS_PER_DAY <= i64::MAX,
            now - old(self).spec_max_age_days() * SECONDS_PER_DAY >= i64::MIN,
        ensures
            !(old(self).spec_enabled() && old(self).has_db()) ==> err_is(r, "Cache is disabled"@)
                && final(self).memory() == old(self).memory(),
            r matches Ok(n) && n > 0 ==> final(self).memory() == no_values(),
            r matches Ok(n) && n == 0 ==> final(self).memory() == old(self).memory(),
            r matches Ok(n) ==> old(self).store().cutoff_answer(
                (now - old(self).spec_max_age_days() * SECONDS_PER_DAY) as i64, Ok(n)),
            old(self).spec_enabled() && old(self).has_db() && r is Err ==> exists|e: String|
                #[trigger] old(self).store().cutoff_answer((now - old(self).spec_max_age_days() * SECONDS_PER_DAY) as i64, Err(e))
                && err_is(r, "Failed to cleanup database: "@ + e@),
            final(self).spec_enabled() == old(self).spec_enabled(),
            final(self).has_db() == old(self).has_db(),
    {
        if !self.is_enabled() {
            return Err(owned("Cache is disabled"));
        }
        let cutoff = cleanup_cutoff(now, self.max_age_days);
        let deleted = match &mut self.db {
            Some(db) => db.delete_created_before(cutoff),
            None => return Err(owned("Database not available")),
        };
        assert(old(self).store().cutoff_answer(cutoff, deleted));
        match deleted {
            Ok(n) => {
                if n > 0 {
                    lru_clear(&mut self.memory_cache);
                }
                Ok(n)
            },
            Err(e) => {
                assert(cutoff == (now - old(self).spec_max_age_days() * SECONDS_PER_DAY) as i64);
                assert(old(self).store().cutoff_answer(cutoff, Err(e)));
                Err(concat2("Failed to cleanup database: ", e.as_str()))
            },
        }
    }

    /// `(created_at, updated_at)` of an entry.
    pub fn get_timestamps(&mut self, key: &str) -> (r: Result<Option<(i64, i64)>, String>)
        ensures
            !(old(self).spec_enabled() && old(self).has_db()) ==> err_is(r, "Cache is disabled"@),
            r matches Ok(t) ==> old(self).store().timestamps_answer(key@, Ok(t)),
            old(self).spec_enabled() && old(self).has_db() && r is Err ==> exists|e: String|
                #[trigger] old(self).store().timestamps_answer(key@, Err(e)) && err_is(r, "Failed to query timestamps: "@ + e@),
            final(self).memory() == old(self).memory(),
            final(self).spec_enabled() == old(self).spec_enabled(),
            final(self).has_db() == old(self).has_db(),
    {
        if !self.is_enabled() {
            return Err(owned("Cache is disabled"));
        }
        let found = match &mut self.db {
            Some(db) => db.timestamps(key),
            None => return Err(owned("Database not available")),
        };
        assert(old(self).store().timestamps_answer(key@, found));
        match found {
            Ok(t) => Ok(t),
            Err(e) => Err(concat2("Failed to query timestamps: ", e.as_str())),
        }
    }

    /// An entry's age at `now`: the time since it was created.
    pub fn get_age(&mut self, key: &str, now: i64) -> (r: Result<Option<i64>, String>)
        ensures
            !(old(self).spec_enabled() && old(self).has_db()) ==> err_is(r, "Cache is disabled"@),
            r matches Ok(None) ==> old(self).store().timestamps_answer(key@, Ok(None)),
            r matches Ok(Some(age)) ==> exists|c: i64, u: i64|
                #[trigger] old(self).store().timestamps_answer(key@, Ok(Some((c, u)))) && age == now - c,
            final(self).memory() == old(self).memory(),
    {
        match self.get_timestamps(key) {
            Ok(found) => {
                proof {
                    if let Some((c, u)) = found {
                        assert(old(self).store().timestamps_answer(key@, Ok(Some((c, u)))));
                    }
                }
                age_since(now, match found {
                    Some((created_at, _)) => Some(created_at),
                    None => None,
                })
            },
            Err(e) => Err(e),
        }
    }

    /// The time since an entry was last updated, at `now`.
    pub fn get_last_updated_age(&mut self, key: &str, now: i64) -> (r: Result<Option<i64>, String>)
        ensures
            !(old(self).spec_enabled() && old(self).has_db()) ==> err_is(r, "Cache is disabled"@),
            r matches Ok(None) ==> old(self).store().timestamps_answer(key@, Ok(None)),
            r matches Ok(Some(age)) ==> exists|c: i64, u: i64|
                #[trigger] old(self).store().timestamps_answer(key@, Ok(Some((c, u)))) && age == now - u,
            final(self).memory() == old(self).memory(),
    {
        match self.get_timestamps(key) {
            Ok(found) => {
                proof {
                    if let Some((c, u)) = found {
                        assert(old(self).store().timestamps_answer(key@, Ok(Some((c, u)))));
                    }
                }
                age_since(now, match found {
                    Some((_, updated_at)) => Some(updated_at),
                    None => None,
                })
            },
            Err(e) => Err(e),
        }
    }

    /// The keys starting with `prefix` (all without one): of the keys the
    /// database lists, exactly those that start with it, in its order.
    pub fn list_keys(&self, prefix: Option<&str>) -> (r: Result<Vec<String>, String>)
        ensures
            !self.has_db() ==> err_is(r, "Database connection is not available"@),
            self.has_db() ==> exists|listed: Result<Vec<String>, String>| {
                &&& #[trigger] self.store().keys_answer(prefix_view(prefix), listed)
                &&& (listed matches Err(e) ==> err_is(r, e@))
                &&& (listed matches Ok(ks) ==> (r matches Ok(v) && views(v@) == keys_under(views(ks@), prefix_view(prefix))))
            },
    {
        match &self.db {
            Some(db) => {
                let listed = db.keys(prefix);
                assert(self.store().keys_answer(prefix_view(prefix), listed));
                match listed {
                    Ok(ks) => Ok(filter_keys(ks, prefix)),
                    Err(e) => Err(e),
                }
            },
            None => Err(owned("Database connection is not available")),
        }
    }

    /// The entries whose keys start with `prefix` (all without one); none
    /// for a disabled cache.
    pub fn list_entries(&self, prefix: Option<&str>) -> (r: Result<Vec<CacheEntry>, String>)
        ensures
            !self.spec_enabled() ==> (r matches Ok(v) && v@.len() == 0),
            self.spec_enabled() && !self.has_db() ==> err_is(r, "Database connection is not available"@),
            self.spec_enabled() && self.has_db() ==> exists|listed: Result<Vec<CacheEntry>, String>| {
                &&& #[trigger] self.store().entries_answer(prefix_view(prefix), listed)
                &&& (listed matches Err(e) ==> err_is(r, e@))
                &&& (listed matches Ok(es) ==> (r matches Ok(v) && v@ == entries_under(es@, prefix_view(prefix))))
            },
    {
        if !self.enabled {
            return Ok(Vec::new());
        }
        match &self.db {
            Some(db) => {
                let listed = db.entries(prefix);
                assert(self.store().entries_answer(prefix_view(prefix), listed));
                match listed {
                    Ok(es) => Ok(filter_entries(es, prefix)),
                    Err(e) => Err(e),
                }
            },
            None => Err(owned("Database connection is not available")),
        }
    }

    /// Remove the entries whose keys start with `prefix`, forgetting each of
    /// them in memory; how many the database deleted. None for a disabled
    /// cache.
    pub fn remove_by_prefix(&mut self, prefix: &str) -> (r: Result<usize, String>)
        ensures
            !old(self).spec_enabled() ==> (r matches Ok(n) && n == 0) && final(self).memory() == old(self).memory(),
            old(self).spec_enabled() && !old(self).has_db() ==> err_is(r, "Database connection is not available"@),
            forall|k: Seq<char>| #[trigger] final(self).memory().contains_key(k) ==> old(self).memory().contains_key(k)
                && final(self).memory()[k] == old(self).memory()[k],
            old(self).spec_enabled() ==> (r matches Ok(n) ==> old(self).store().prefix_delete_answer(prefix@, Ok(n))),
            old(self).spec_enabled() && r is Ok ==> exists|listed: Vec<String>| {
                &&& #[trigger] old(self).store().keys_answer(Some(prefix@), Ok(listed))
                &&& forall|i: int| 0 <= i < listed@.len() ==> !final(self).memory().contains_key(#[trigger] listed@[i]@)
            },
    {
        if !self.enabled {
            return Ok(0);
        }
        let keys = match &self.db {
            Some(db) => db.keys(Some(prefix)),
            None => return Err(owned("Database connection is not available")),
        };
        assert(old(self).store().keys_answer(Some(prefix@), keys));
        let ghost listed_answer = keys;
        let keys = match keys {
            Ok(k) => k,
            Err(e) => return Err(e),
        };
        let ghost m0 = self.memory();
        let ghost db0 = self.db;
        let mut i: usize = 0;
        while i < keys.len()
            invariant
                i <= keys.len(),
                self.db == db0,
                forall|k: Seq<char>| #[trigger] lru_entries(self.memory_cache).contains_key(k) ==> m0.contains_key(k)
                    && lru_entries(self.memory_cache)[k] == m0[k],
                forall|j: int| 0 <= j < i ==> !lru_entries(self.memory_cache).contains_key(#[trigger] keys@[j]@),
            decreases keys.len() - i,
        {
            lru_pop(&mut self.memory_cache, keys[i].as_str());
            i = i + 1;
        }
        let deleted = match &mut self.db {
            Some(db) => db.delete_with_prefix(prefix),
            None => return Err(owned("Database connection is not available")),
        };
        assert(old(self).store().prefix_delete_answer(prefix@, deleted));
        assert(listed_answer == Ok::<Vec<String>, String>(keys));
        match deleted {
            Ok(n) => Ok(n),
            Err(e) => Err(concat2("Failed to delete from database: ", e.as_str())),
        }
    }

    /// Load every entry whose key starts with `prefix` into memory; how many
    /// were loaded. None for a disabled cache.
    pub fn preload_prefix(&mut self, prefix: &str) -> (r: Result<usize, String>)
        ensures
            !old(self).spec_enabled() ==> (r matches Ok(n) && n == 0) && final(self).memory() == old(self).memory(),
            old(self).spec_enabled() && !old(self).has_db() ==> err_is(r, "Database connection is not available"@),
            old(self).spec_enabled() && old(self).has_db() ==> exists|rows: Result<Vec<(String, Vec<u8>)>, String>| {
                &&& #[trigger] old(self).store().prefix_values_answer(prefix@, rows)
                &&& (rows matches Ok(v) ==> (r matches Ok(n) && n == v@.len()))
                &&& (rows matches Err(e) ==> r == Err::<usize, String>(e))
            },
    {
        if !self.enabled {
            return Ok(0);
        }
        let rows = match &mut self.db {
            Some(db) => db.values_with_prefix(prefix),
            None => return Err(owned("Database connection is not available")),
        };
        assert(old(self).store().prefix_values_answer(prefix@, rows));
        let ghost answer = rows;
        let rows = match rows {
            Ok(r) => r,
            Err(e) => return Err(e),
        };
        let n = rows.len();
        let mut rows = rows;
        while rows.len() > 0
            decreases rows.len(),
        {
            let (k, v) = rows.pop().unwrap();
            lru_put(&mut self.memory_cache, k, v);
        }
        Ok(n)
    }
}

/// No values at all.
pub open spec fn no_values() -> Map<Seq<char>, Seq<u8>> {
    Map::empty()
}

/// What a lookup answers once the database has read the value as `read`.
pub open spec fn value_outcome(read: Result<Option<Vec<u8>>, String>, r: Result<Option<Vec<u8>>, String>) -> bool {
    match read {
        Ok(Some(v)) => r matches Ok(Some(w)) && w@ == v@,
        Ok(None) => r matches Ok(None),
        Err(e) => err_is(r, "Database error: "@ + e@),
    }
}

/// The two database error texts both start with "Database error".
proof fn lemma_database_error_prefixes(e: Seq<char>)
    ensures
        "Database error"@.is_prefix_of("Database error checking expiry: "@ + e),
        "Database error"@.is_prefix_of("Database error: "@ + e),
{
    reveal_strlit("Database error");
    reveal_strlit("Database error checking expiry: ");
    reveal_strlit("Database error: ");
    assert(("Database error checking expiry: "@ + e).subrange(0, 14) =~= "Database error"@);
    assert(("Database error: "@ + e).subrange(0, 14) =~= "Database error"@);
}

/// A database error is never the disabled cache's answer.
proof fn lemma_database_error_is_not_disabled(m: Seq<char>)
    requires
        "Database error"@.is_prefix_of(m),
    ensures
        m != "Cache is disabled"@,
{
    reveal_strlit("Database error");
    reveal_strlit("Cache is disabled");
    assert(m[0] == "Database error"@.subrange(0, 14)[0]);
    assert("Cache is disabled"@[0] == 'C');
}

/// The answer is this error.
pub open spec fn err_is<T>(r: Result<T, String>, message: Seq<char>) -> bool {
    r matches Err(m) && m@ == message
}

} // verus!
