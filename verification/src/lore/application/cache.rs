//! Cache entries of the lore service and when they are stale.
use vstd::prelude::*;

use crate::lore::application::dto::PatchTagSummary;
use crate::lore::domain::patch::Patch;
use crate::lore::domain::patchset::PatchFeedIndex;
use crate::mailing_list::MailingList;

verus! {

#[verifier::external_type_specification]
#[verifier::external_body]
pub struct ExSystemTime(std::time::SystemTime);

/// `SystemTime::now`.
#[verifier::external_body]
fn system_now() -> std::time::SystemTime {
    std::time::SystemTime::now()
}

/// `SystemTime::elapsed`, in nanoseconds (`Duration::as_nanos`); `None`
/// when the clock went back past the time. A `Duration` holds at most
/// `u64::MAX` seconds and 999 999 999 nanoseconds, which bounds the
/// answer; nothing else is stated of it, since it is the clock's.
#[verifier::external_body]
fn elapsed_nanos(t: &std::time::SystemTime) -> (r: Option<u128>)
    ensures
        r matches Some(n) ==> n <= DURATION_MAX_NANOS,
{
    match t.elapsed() {
        Ok(d) => Some(d.as_nanos()),
        Err(_) => None,
    }
}

/// Caller intent for a cache-backed operation: use the cache if fresh,
/// refresh it from the network, or bypass it.
#[derive(Debug, Clone, Copy, PartialEq, Eq, Structural)]
pub enum CacheMode {
    UseCache,
    Refresh,
    Bypass,
}

/// Time to live per kind of data, in nanoseconds.
#[derive(Debug, Clone, Copy, PartialEq, Eq)]
pub struct CacheTtl {
    pub mailing_lists: u128,
    pub feed: u128,
    pub patchset: u128,
}

/// One second, in nanoseconds.
pub const NANOS_PER_SEC: u128 = 1_000_000_000;

/// The longest duration `std::time::Duration` holds, in nanoseconds.
pub const DURATION_MAX_NANOS: u128 = 18_446_744_073_709_551_615_999_999_999;

impl Default for CacheTtl {
    /// Mailing lists change rarely (a day), feed pages are refreshed by the
    /// user (an hour), and patchsets never change.
    fn default() -> (r: Self)
        ensures
            r.mailing_lists == 86_400 * NANOS_PER_SEC,
            r.feed == 3_600 * NANOS_PER_SEC,
            r.patchset == DURATION_MAX_NANOS,
    {
        CacheTtl {
            mailing_lists: 86_400 * NANOS_PER_SEC,
            feed: 3_600 * NANOS_PER_SEC,
            patchset: DURATION_MAX_NANOS,
        }
    }
}

/// A uniform cache interface.
pub trait CachePolicy<K, V> {
    fn get(&self, key: &K) -> Option<&V>;

    fn put(&mut self, key: K, value: V);

    fn invalidate(&mut self, key: &K);

    fn clear(&mut self);
}

/// An entry is stale when more than its time to live has passed since it
/// was fetched, or when that cannot be told.
pub open spec fn stale(elapsed: Option<u128>, ttl: u128) -> bool {
    match elapsed {
        Some(e) => e > ttl,
        None => true,
    }
}

/// An elapsed time a `Duration` can hold, or none when the clock went back.
pub open spec fn clock_reading(elapsed: Option<u128>) -> bool {
    elapsed matches Some(n) ==> n <= DURATION_MAX_NANOS
}

/// With the default time to live, a patchset entry never expires: it is
/// stale only when the clock went back past its fetch.
pub proof fn lemma_patchsets_never_expire(elapsed: Option<u128>, ttl: CacheTtl)
    requires
        clock_reading(elapsed),
        ttl.patchset == DURATION_MAX_NANOS,
    ensures
        stale(elapsed, ttl.patchset) <==> elapsed is None,
{
}

pub fn stale_verdict(elapsed: Option<u128>, ttl: u128) -> (r: bool)
    ensures
        r == stale(elapsed, ttl),
{
    match elapsed {
        Some(e) => e > ttl,
        None => true,
    }
}

pub struct MailingListsCacheEntry {
    pub lists: Vec<MailingList>,
    pub fetched_at: std::time::SystemTime,
}

impl MailingListsCacheEntry {
    /// The lists, fetched now.
    pub fn new(lists: Vec<MailingList>) -> (r: Self)
        ensures
            r.lists@ == lists@,
    {
        MailingListsCacheEntry { lists, fetched_at: system_now() }
    }

    /// Whether more than `ttl` nanoseconds passed since the fetch (or the
    /// clock went back past it); the elapsed time is the clock's.
    pub fn is_stale(&self, ttl: u128) -> (r: bool)
        ensures
            exists|elapsed: Option<u128>| #[trigger] clock_reading(elapsed) && r == stale(elapsed, ttl),
    {
        let e = elapsed_nanos(&self.fetched_at);
        let r = stale_verdict(e, ttl);
        assert(clock_reading(e));
        r
    }
}

/// A list's feed index with the time it was fetched.
pub struct FeedCacheEntry {
    pub index: PatchFeedIndex,
    pub fetched_at: std::time::SystemTime,
}

impl FeedCacheEntry {
    /// The index, fetched now.
    pub fn new(index: PatchFeedIndex) -> (r: Self)
        ensures
            r.index == index,
    {
        FeedCacheEntry { index, fetched_at: system_now() }
    }

    /// Whether more than `ttl` nanoseconds passed since the fetch (or the
    /// clock went back past it); the elapsed time is the clock's.
    pub fn is_stale(&self, ttl: u128) -> (r: bool)
        ensures
            exists|elapsed: Option<u128>| #[trigger] clock_reading(elapsed) && r == stale(elapsed, ttl),
    {
        let e = elapsed_nanos(&self.fetched_at);
        let r = stale_verdict(e, ttl);
        assert(clock_reading(e));
        r
    }
}

/// The key a downloaded patchset is cached under.
#[derive(Debug, Clone, PartialEq, Eq, Hash)]
pub struct PatchsetCacheKey {
    pub message_id: String,
    pub version: usize,
}

impl PatchsetCacheKey {
    pub fn from_patch(patch: &Patch) -> (r: Self)
        ensures
            r.message_id@ == patch.spec_message_id().href@,
            r.version == patch.spec_version(),
    {
        PatchsetCacheKey {
            message_id: patch.message_id().href.clone(),
            version: patch.version(),
        }
    }
}

pub struct PatchsetCacheEntry {
    pub patchset_path: String,
    pub raw_patches: Vec<String>,
    pub tag_summary: Vec<PatchTagSummary>,
    pub fetched_at: std::time::SystemTime,
}

impl PatchsetCacheEntry {
    /// The patchset, fetched now.
    pub fn new(
        patchset_path: String,
        raw_patches: Vec<String>,
        tag_summary: Vec<PatchTagSummary>,
    ) -> (r: Self)
        ensures
            r.patchset_path == patchset_path,
            r.raw_patches@ == raw_patches@,
            r.tag_summary@ == tag_summary@,
    {
        PatchsetCacheEntry { patchset_path, raw_patches, tag_summary, fetched_at: system_now() }
    }

    /// Whether more than `ttl` nanoseconds passed since the fetch (or the
    /// clock went back past it); the elapsed time is the clock's.
    pub fn is_stale(&self, ttl: u128) -> (r: bool)
        ensures
            exists|elapsed: Option<u128>| #[trigger] clock_reading(elapsed) && r == stale(elapsed, ttl),
    {
        let e = elapsed_nanos(&self.fetched_at);
        let r = stale_verdict(e, ttl);
        assert(clock_reading(e));
        r
    }
}

/// Everything the lore service caches: the mailing lists, a feed index
/// per list and the downloaded patchsets, each list and key at most once.
pub struct LoreCache {
    pub lists: Option<MailingListsCacheEntry>,
    pub feeds: Vec<(String, FeedCacheEntry)>,
    pub patchsets: Vec<(PatchsetCacheKey, PatchsetCacheEntry)>,
}

impl LoreCache {
    /// An empty cache.
    pub fn new() -> (r: Self)
        ensures
            r.lists is None,
            r.feeds@.len() == 0,
            r.patchsets@.len() == 0,
    {
        LoreCache { lists: None, feeds: Vec::new(), patchsets: Vec::new() }
    }
}

impl Default for LoreCache {
    fn default() -> (r: Self)
        ensures
            r.lists is None,
            r.feeds@.len() == 0,
            r.patchsets@.len() == 0,
    {
        LoreCache::new()
    }
}

/// Data the application starts from.
pub struct BootstrapLoreData {
    pub mailing_lists: Vec<MailingList>,
    pub bookmarks: Vec<Patch>,
    /// For each reviewed patchset's link, the indexes of reviewed patches.
    pub reviewed: Vec<(String, Vec<usize>)>,
}

} // verus!
