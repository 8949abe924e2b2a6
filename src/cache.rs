//! The local content cache of binary parts. An object is named by the part's
//! id and holds the part's raw bytes; it is served only after its SHA-256
//! digest has been checked against the one the catalog declares, and a copy
//! that fails the check is removed. Reading, writing and removing files is
//! left to the caller: this module decides what to do and what to believe.

use vstd::prelude::*;
use vstd::arithmetic::power::pow;
use crate::catalog::BinaryPart;

verus! {

/// The SHA-256 digest of a byte sequence.
pub uninterp spec fn sha256_of(data: Seq<u8>) -> Seq<u8>;

/// Relies on sha2::Sha256::digest: the 32-byte SHA-256 digest of the data,
/// which depends on the data alone.
#[verifier::external_body]
fn sha256(data: &[u8]) -> (r: Vec<u8>)
    ensures
        r@ == sha256_of(data@),
        r@.len() == 32,
{
    <sha2::Sha256 as sha2::Digest>::digest(data).to_vec()
}

/// The lowercase hexadecimal digit of `n`, for `0 <= n < 16`.
pub open spec fn hex_digit(n: int) -> char {
    seq!['0', '1', '2', '3', '4', '5', '6', '7', '8', '9', 'a', 'b', 'c', 'd', 'e', 'f'][n]
}

/// The `k`-th of the 32 hexadecimal digits of `id`, the most significant first.
pub open spec fn nibble(id: u128, k: int) -> int {
    (id as int / pow(16, (31 - k) as nat)) % 16
}

/// How many hyphens come before position `i` of a hyphenated UUID.
pub open spec fn hyphens_before(i: int) -> int {
    (if i > 8 { 1int } else { 0int }) + (if i > 13 { 1int } else { 0int })
        + (if i > 18 { 1int } else { 0int }) + (if i > 23 { 1int } else { 0int })
}

/// The hyphenated form of a UUID: 8-4-4-4-12 lowercase hexadecimal digits.
pub open spec fn hyphenated(id: u128) -> Seq<char> {
    Seq::new(36, |i: int|
        if i == 8 || i == 13 || i == 18 || i == 23 { '-' } else { hex_digit(nibble(id, i - hyphens_before(i))) })
}

/// Relies on uuid::Uuid::from_u128 and uuid's Display: the value's 32 hex
/// digits, most significant first, in lowercase hyphenated form.
#[verifier::external_body]
pub(crate) fn uuid_text(id: u128) -> (r: String)
    ensures
        r@ == hyphenated(id),
{
    uuid::Uuid::from_u128(id).to_string()
}

/// What a stored object is worth: its bytes where their digest is the
/// expected one, else nothing.
pub open spec fn verified_bytes(expected: Seq<u8>, stored: Option<Seq<u8>>) -> Option<Seq<u8>> {
    match stored {
        Some(b) => if sha256_of(b) == expected { Some(b) } else { None },
        None => None,
    }
}

pub open spec fn bytes_view(o: Option<Vec<u8>>) -> Option<Seq<u8>> {
    match o {
        Some(v) => Some(v@),
        None => None,
    }
}

fn bytes_equal(a: &[u8], b: &[u8]) -> (r: bool)
    ensures
        r == (a@ == b@),
{
    if a.len() != b.len() {
        return false;
    }
    let mut i: usize = 0;
    while i < a.len()
        invariant
            a@.len() == b@.len(),
            i <= a@.len(),
            forall|k: int| 0 <= k < i ==> a@[k] == b@[k],
        decreases a@.len() - i,
    {
        if a[i] != b[i] {
            return false;
        }
        i += 1;
    }
    assert(a@ =~= b@);
    true
}

/// Whether `data` has the digest that `part` declares.
pub fn digest_matches(part: &BinaryPart, data: &[u8]) -> (r: bool)
    ensures
        r == (sha256_of(data@) == part.content_hash@),
{
    let digest = sha256(data);
    bytes_equal(digest.as_slice(), part.content_hash.as_slice())
}

/// The outcome of looking a part up in the cache.
#[derive(Debug)]
pub enum CacheLookup {
    /// The stored bytes passed the digest check.
    Hit(Vec<u8>),
    /// Nothing to serve: the cache is disabled or holds no object.
    Miss,
    /// The stored object fails the digest check: remove it, and fetch.
    Stale,
}

/// The cache as configured: a root directory, or none, which disables it.
pub struct ContentCache {
    pub root: Option<String>,
}

impl ContentCache {
    pub fn new(root: Option<String>) -> (r: ContentCache)
        ensures
            r.root == root,
    {
        ContentCache { root }
    }

    pub fn is_enabled(&self) -> (r: bool)
        ensures
            r == self.root.is_some(),
    {
        self.root.is_some()
    }

    /// The name of the object that holds `part`, within the root; `None`
    /// while the cache is disabled, so that nothing is read or written.
    pub fn object_name(&self, part: &BinaryPart) -> (r: Option<String>)
        ensures
            r.is_some() == self.root.is_some(),
            r matches Some(n) ==> n@ == hyphenated(part.id),
    {
        if self.root.is_some() {
            Some(uuid_text(part.id))
        } else {
            None
        }
    }

    /// Judges what was read from the object of `part` (`None` where there was
    /// no such object). A disabled cache never serves anything.
    pub fn lookup(&self, part: &BinaryPart, stored: Option<Vec<u8>>) -> (r: CacheLookup)
        ensures
            match r {
                CacheLookup::Hit(b) => {
                    &&& self.root.is_some()
                    &&& verified_bytes(part.content_hash@, bytes_view(stored)) == Some(b@)
                },
                CacheLookup::Stale => {
                    &&& self.root.is_some()
                    &&& stored.is_some()
                    &&& verified_bytes(part.content_hash@, bytes_view(stored)).is_none()
                },
                CacheLookup::Miss => self.root.is_none() || stored.is_none(),
            },
    {
        if self.root.is_none() {
            return CacheLookup::Miss;
        }
        match stored {
            None => CacheLookup::Miss,
            Some(bytes) => {
                if digest_matches(part, bytes.as_slice()) {
                    CacheLookup::Hit(bytes)
                } else {
                    CacheLookup::Stale
                }
            },
        }
    }
}

/// Whether bytes fetched for `part` may be used. The cache already forced one
/// fetch when its copy was stale; fetched bytes that then fail the digest
/// again are persistent corruption and are refused rather than fetched anew.
pub fn accept_fetched(part: &BinaryPart, bytes: &Vec<u8>, cache_was_stale: bool) -> (r: bool)
    ensures
        r == (!cache_was_stale || sha256_of(bytes@) == part.content_hash@),
{
    if cache_was_stale {
        digest_matches(part, bytes.as_slice())
    } else {
        true
    }
}

/// What reading the object called `name` from a store of objects gives.
pub open spec fn read_object(store: Map<Seq<char>, Seq<u8>>, name: Seq<char>) -> Option<Seq<u8>> {
    if store.contains_key(name) {
        Some(store[name])
    } else {
        None
    }
}

/// The store after `bytes` have been written for `part`: the object that
/// `object_name` names, if the cache is enabled.
pub open spec fn store_after_put(
    cache: ContentCache,
    store: Map<Seq<char>, Seq<u8>>,
    part: BinaryPart,
    bytes: Seq<u8>,
) -> Map<Seq<char>, Seq<u8>> {
    if cache.root.is_some() {
        store.insert(hyphenated(part.id), bytes)
    } else {
        store
    }
}

/// The store after a series of writes, the first one first.
pub open spec fn store_after_puts(
    cache: ContentCache,
    store: Map<Seq<char>, Seq<u8>>,
    puts: Seq<(BinaryPart, Seq<u8>)>,
) -> Map<Seq<char>, Seq<u8>>
    decreases puts.len(),
{
    if puts.len() == 0 {
        store
    } else {
        let prior = store_after_puts(cache, store, puts.drop_last());
        store_after_put(cache, prior, puts.last().0, puts.last().1)
    }
}

/// What getting `part` from a store yields: the object that `object_name`
/// names is read, and `lookup` serves it only on a `Hit`.
pub open spec fn get_from(cache: ContentCache, store: Map<Seq<char>, Seq<u8>>, part: BinaryPart) -> Option<Seq<u8>> {
    if cache.root.is_some() {
        verified_bytes(part.content_hash@, read_object(store, hyphenated(part.id)))
    } else {
        None
    }
}

/// The store after getting `part`: an object that `lookup` finds `Stale` is removed.
pub open spec fn store_after_get(
    cache: ContentCache,
    store: Map<Seq<char>, Seq<u8>>,
    part: BinaryPart,
) -> Map<Seq<char>, Seq<u8>> {
    let name = hyphenated(part.id);
    if cache.root.is_some() && read_object(store, name).is_some()
        && verified_bytes(part.content_hash@, read_object(store, name)).is_none() {
        store.remove(name)
    } else {
        store
    }
}

/// Writing bytes that have the part's digest and then getting the part
/// serves exactly those bytes.
pub proof fn lemma_put_then_get(cache: ContentCache, store: Map<Seq<char>, Seq<u8>>, part: BinaryPart, bytes: Seq<u8>)
    requires
        cache.root.is_some(),
        sha256_of(bytes) == part.content_hash@,
    ensures
        get_from(cache, store_after_put(cache, store, part, bytes), part) == Some(bytes),
{
    let written = store_after_put(cache, store, part, bytes);
    assert(written.contains_key(hyphenated(part.id)));
    assert(read_object(written, hyphenated(part.id)) == Some(bytes));
}

/// Where the stored bytes are replaced behind the cache's back by bytes that
/// fail the digest, getting the part serves nothing and removes the object,
/// so that the next get serves nothing either.
pub proof fn lemma_corrupted_object_is_dropped(
    cache: ContentCache,
    store: Map<Seq<char>, Seq<u8>>,
    part: BinaryPart,
    bytes: Seq<u8>,
    corrupted: Seq<u8>,
)
    requires
        cache.root.is_some(),
        sha256_of(corrupted) != part.content_hash@,
    ensures
        ({
            let tampered = store_after_put(cache, store, part, bytes).insert(hyphenated(part.id), corrupted);
            &&& get_from(cache, tampered, part).is_none()
            &&& get_from(cache, store_after_get(cache, tampered, part), part).is_none()
            &&& !store_after_get(cache, tampered, part).contains_key(hyphenated(part.id))
        }),
{
    let tampered = store_after_put(cache, store, part, bytes).insert(hyphenated(part.id), corrupted);
    assert(read_object(tampered, hyphenated(part.id)) == Some(corrupted));
}

/// A cache without a root serves nothing, whatever was written before, and
/// writing leaves the store as it was.
pub proof fn lemma_disabled_cache_serves_nothing(
    cache: ContentCache,
    store: Map<Seq<char>, Seq<u8>>,
    puts: Seq<(BinaryPart, Seq<u8>)>,
    part: BinaryPart,
)
    requires
        cache.root.is_none(),
    ensures
        store_after_puts(cache, store, puts) == store,
        get_from(cache, store_after_puts(cache, store, puts), part).is_none(),
    decreases puts.len(),
{
    if puts.len() > 0 {
        lemma_disabled_cache_serves_nothing(cache, store, puts.drop_last(), part);
    }
}

} // verus!
