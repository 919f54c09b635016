//! Single-use challenge nonces held in a bounded, expiring cache.
use vstd::prelude::*;
use vstd::string::StringExecFns;
use crate::address::hex_of;

verus! {

/// Lifetime of a challenge, both absolute and idle, in seconds.
pub const CHALLENGE_LIFETIME_SECS: u64 = 300;

/// Most challenges that are kept live at once.
pub const CHALLENGE_CAPACITY: u64 = 10000;

/// Longest lifetime the cache accepts (a thousand years of 365 days).
pub const MAX_LIFETIME_SECS: u64 = 31536000000;

/// Number of random bytes behind each nonce.
pub const NONCE_BYTES: usize = 32;

#[verifier::external_type_specification]
#[verifier::external_body]
#[verifier::reject_recursive_types(K)]
#[verifier::reject_recursive_types(V)]
#[verifier::reject_recursive_types(S)]
pub struct ExCache<K, V, S>(moka::sync::Cache<K, V, S>);

/// The cache type behind the store: request id to nonce.
pub type NonceCache = moka::sync::Cache<String, String>;

/// What the cache still holds, keyed by request id.  Entries can vanish from
/// it at any time (expiry, eviction), never appear on their own.
pub uninterp spec fn cache_entries(c: NonceCache) -> Map<Seq<char>, Seq<char>>;

/// Relies on moka's `CacheBuilder` with `max_capacity`, `time_to_live` and
/// `time_to_idle`: a new cache is empty.  The builder panics on lifetimes over
/// a thousand years, hence the bound.
#[verifier::external_body]
fn new_cache(capacity: u64, lifetime_secs: u64) -> (r: NonceCache)
    requires
        lifetime_secs <= MAX_LIFETIME_SECS,
    ensures
        cache_entries(r).dom().is_empty(),
{
    let d = std::time::Duration::from_secs(lifetime_secs);
    moka::sync::Cache::builder().time_to_live(d).time_to_idle(d).max_capacity(capacity).build()
}

/// Relies on moka's `Cache::insert`: the key maps to the value, unless the
/// admission policy or expiry drops it; nothing else is added.
#[verifier::external_body]
fn cache_insert(c: &mut NonceCache, k: String, v: String)
    ensures
        cache_entries(*final(c)).submap_of(cache_entries(*old(c)).insert(k@, v@)),
{
    c.insert(k, v)
}

/// Relies on moka's `Cache::get`: a value is returned only for a live entry.
#[verifier::external_body]
fn cache_get(c: &mut NonceCache, k: &String) -> (r: Option<String>)
    ensures
        cache_entries(*final(c)).submap_of(cache_entries(*old(c))),
        r is Some ==> cache_entries(*old(c)).contains_key(k@) && r->Some_0@ == cache_entries(*old(c))[k@],
{
    c.get(k)
}

/// Relies on moka's `Cache::remove`: the key is gone afterwards, and a value
/// is returned only if the key held it.
#[verifier::external_body]
fn cache_remove(c: &mut NonceCache, k: &String) -> (r: Option<String>)
    ensures
        cache_entries(*final(c)).submap_of(cache_entries(*old(c)).remove(k@)),
        r is Some ==> cache_entries(*old(c)).contains_key(k@) && r->Some_0@ == cache_entries(*old(c))[k@],
{
    c.remove(k)
}

/// Relies on rand's thread-local CSPRNG (`RngCore::fill_bytes`); nothing is
/// known of the bytes.
#[verifier::external_body]
fn random_nonce_bytes() -> (r: [u8; 32]) {
    let mut bytes = [0u8; 32];
    rand::RngCore::fill_bytes(&mut rand::thread_rng(), &mut bytes);
    bytes
}

/// A lower-case hex digit.
pub open spec fn is_lower_hex_char(c: char) -> bool {
    ('0' <= c && c <= '9') || ('a' <= c && c <= 'f')
}

/// The hyphenated lower-case text of a version-4 UUID: groups of 8, 4, 4, 4
/// and 12 hex digits, version digit `4`, variant digit one of `8`, `9`, `a`, `b`.
pub open spec fn is_uuid_v4_text(s: Seq<char>) -> bool {
    &&& s.len() == 36
    &&& forall|i: int| 0 <= i < 36 ==> if i == 8 || i == 13 || i == 18 || i == 23 {
        #[trigger] s[i] == '-'
    } else {
        is_lower_hex_char(s[i])
    }
    &&& s[14] == '4'
    &&& (s[19] == '8' || s[19] == '9' || s[19] == 'a' || s[19] == 'b')
}

/// Relies on uuid's `Uuid::new_v4` (random bits with the version and variant
/// set) rendered by `to_string`, whose `Display` is the hyphenated lower-case
/// form.
#[verifier::external_body]
pub(crate) fn fresh_id() -> (r: String)
    ensures
        r@.len() == 36,
        is_uuid_v4_text(r@),
{
    uuid::Uuid::new_v4().to_string()
}

/// The text handed to a wallet to sign: a fixed tag and the hex random bytes.
pub open spec fn nonce_text_of(b: Seq<u8>) -> Seq<char> {
    seq!['p', 'h', 'a', 'r', 'o', 's', '-', 'a', 'u', 't', 'h', '-'] + hex_of(b)
}

/// A nonce text from random bytes.
pub fn nonce_from_bytes(b: &[u8; 32]) -> (r: String)
    ensures
        r@ == nonce_text_of(b@),
{
    let tag = String::from_str("pharos-auth-");
    proof {
        reveal_strlit("pharos-auth-");
    }
    let digits = crate::address::hex_encode(b.as_slice());
    tag.concat(digits.as_str())
}

/// A fresh nonce: the tag followed by 64 hex digits of 32 random bytes.
pub fn generate_nonce() -> (r: String)
    ensures
        exists|b: Seq<u8>| b.len() == NONCE_BYTES && r@ == nonce_text_of(b),
{
    let b = random_nonce_bytes();
    nonce_from_bytes(&b)
}

/// Challenges that are waiting to be answered, each usable at most once.
pub struct NonceStore {
    cache: NonceCache,
}

/// What `take` returns and leaves behind: the entry is gone afterwards, and a
/// nonce comes back only if the store held it under that id.
pub open spec fn take_post(pre: NonceStore, id: Seq<char>, post: NonceStore, r: Option<Seq<char>>) -> bool {
    &&& post.entries().submap_of(pre.entries())
    &&& !post.entries().contains_key(id)
    &&& r is Some ==> pre.entries().contains_key(id) && r->Some_0 == pre.entries()[id]
}

impl NonceStore {
    /// The live challenges, by request id.
    pub closed spec fn entries(self) -> Map<Seq<char>, Seq<char>> {
        cache_entries(self.cache)
    }

    /// An empty store with the given capacity and lifetime (absolute and idle).
    pub fn with_policy(capacity: u64, lifetime_secs: u64) -> (r: NonceStore)
        requires
            lifetime_secs <= MAX_LIFETIME_SECS,
        ensures
            r.entries().dom().is_empty(),
    {
        NonceStore { cache: new_cache(capacity, lifetime_secs) }
    }

    /// An empty store: five minutes of life, at most ten thousand challenges.
    pub fn new() -> (r: NonceStore)
        ensures
            r.entries().dom().is_empty(),
    {
        NonceStore::with_policy(CHALLENGE_CAPACITY, CHALLENGE_LIFETIME_SECS)
    }

    /// Stores `nonce` under `request_id`.  The entry may be dropped later by
    /// expiry or capacity pressure; no other entry is added.
    pub fn put(&mut self, request_id: String, nonce: String)
        ensures
            final(self).entries().submap_of(old(self).entries().insert(request_id@, nonce@)),
    {
        cache_insert(&mut self.cache, request_id, nonce);
    }

    /// Issues a challenge: a fresh request id and a fresh nonce, stored together.
    pub fn issue(&mut self) -> (r: (String, String))
        ensures
            r.0@.len() == 36,
            is_uuid_v4_text(r.0@),
            exists|b: Seq<u8>| b.len() == NONCE_BYTES && r.1@ == nonce_text_of(b),
            final(self).entries().submap_of(old(self).entries().insert(r.0@, r.1@)),
    {
        let nonce = generate_nonce();
        let request_id = fresh_id();
        self.put(request_id.clone(), nonce.clone());
        (request_id, nonce)
    }

    /// Reads and removes the nonce of `request_id`.  It comes back only if it
    /// is still live and this call is the one that removed it; in every case
    /// the id is unusable afterwards.
    pub fn take(&mut self, request_id: &String) -> (r: Option<String>)
        ensures
            take_post(*old(self), request_id@, *final(self), match r { Some(v) => Some(v@), None => None }),
    {
        let ghost pre = self.entries();
        let seen = cache_get(&mut self.cache, request_id);
        let ghost mid = self.entries();
        let removed = cache_remove(&mut self.cache, request_id);
        proof {
            let post = self.entries();
            assert forall|k: Seq<char>| #[trigger] post.contains_key(k) implies pre.contains_key(k)
                && post[k] == pre[k] by {
                assert(post.submap_of(mid.remove(request_id@)));
                assert(mid.remove(request_id@).dom().contains(k));
                assert(mid.dom().contains(k));
                assert(mid.submap_of(pre));
                assert(pre.dom().contains(k));
            }
            assert(post.submap_of(pre));
            if post.dom().contains(request_id@) {
                assert(mid.remove(request_id@).dom().contains(request_id@));
            }
        }
        match (seen, removed) {
            (Some(_), Some(v)) => Some(v),
            _ => None,
        }
    }
}

/// A challenge can be answered once: after a `take` of an id, a second `take`
/// of the same id finds nothing.
pub proof fn lemma_single_use(
    s0: NonceStore,
    s1: NonceStore,
    s2: NonceStore,
    id: Seq<char>,
    r1: Option<Seq<char>>,
    r2: Option<Seq<char>>,
)
    requires
        take_post(s0, id, s1, r1),
        take_post(s1, id, s2, r2),
    ensures
        r2 is None,
        !s2.entries().contains_key(id),
{
}

/// Once taken, an id stays unusable whatever other challenges are stored after.
pub proof fn lemma_taken_stays_gone(
    s0: NonceStore,
    s1: NonceStore,
    s2: NonceStore,
    id: Seq<char>,
    r1: Option<Seq<char>>,
    other: Seq<char>,
    nonce: Seq<char>,
)
    requires
        take_post(s0, id, s1, r1),
        s2.entries().submap_of(s1.entries().insert(other, nonce)),
        other != id,
    ensures
        !s2.entries().contains_key(id),
{
    if s2.entries().contains_key(id) {
        assert(s1.entries().insert(other, nonce).contains_key(id));
    }
}

} // verus!
