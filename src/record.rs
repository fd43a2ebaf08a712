use vstd::prelude::*;

verus! {

/// Length of a generated short identifier.
pub const HASH_LEN: usize = 21;

/// Characters a generated short identifier is drawn from: URL-safe ASCII.
pub open spec fn is_url_safe(c: char) -> bool {
    c == '_' || c == '-' || ('0' <= c && c <= '9') || ('a' <= c && c <= 'z') || ('A' <= c
        && c <= 'Z')
}

/// Relies on nanoid::format with nanoid's default random source and its
/// URL-safe alphabet: it returns `size` characters, each from that alphabet.
/// It loops forever on a size of zero.
#[verifier::external_body]
fn random_identifier(size: usize) -> (r: String)
    requires
        0 < size <= 4096,
    ensures
        r@.len() == size,
        forall|i: int| 0 <= i < r@.len() ==> is_url_safe(#[trigger] r@[i]),
{
    nanoid::format(nanoid::rngs::default, &nanoid::alphabet::SAFE, size)
}

/// Relies on chrono::Utc::now and DateTime::timestamp: the current time in
/// whole seconds since the Unix epoch. Nothing is known of its value.
#[verifier::external_body]
fn current_timestamp() -> (r: i64) {
    chrono::Utc::now().timestamp()
}

/// The mathematical value of a record.
pub struct RecordModel {
    pub source: Seq<char>,
    pub hash: Seq<char>,
    pub ttl: Option<u64>,
    pub created_at: int,
}

/// Whether a record has expired at time `now` (seconds): only a record with a
/// TTL expires, once `now` is past its creation time plus the TTL.
pub open spec fn expired_at(r: RecordModel, now: int) -> bool {
    match r.ttl {
        Some(t) => now > r.created_at + t,
        None => false,
    }
}

/// A short-URL record. `created_at` is in seconds since the Unix epoch.
#[derive(Debug, Clone)]
pub struct ShortUrlData {
    pub source: String,
    pub hash: String,
    pub ttl: Option<u64>,
    pub created_at: i64,
}

impl View for ShortUrlData {
    type V = RecordModel;

    open spec fn view(&self) -> RecordModel {
        RecordModel {
            source: self.source@,
            hash: self.hash@,
            ttl: self.ttl,
            created_at: self.created_at as int,
        }
    }
}

/// The view of a record that may be absent.
pub open spec fn opt_view(e: Option<ShortUrlData>) -> Option<RecordModel> {
    match e {
        Some(d) => Some(d@),
        None => None,
    }
}

impl ShortUrlData {
    pub fn new(source: String, hash: String, ttl: Option<u64>, created_at: i64) -> (r: Self)
        ensures
            r@ == (RecordModel { source: source@, hash: hash@, ttl, created_at: created_at as int }),
    {
        ShortUrlData { source, hash, ttl, created_at }
    }

    /// A copy of this record with the same value.
    pub fn duplicate(&self) -> (r: Self)
        ensures
            r@ == self@,
    {
        ShortUrlData {
            source: self.source.clone(),
            hash: self.hash.clone(),
            ttl: self.ttl,
            created_at: self.created_at,
        }
    }

    /// Whether the record has expired at time `now`; evaluated at each read.
    pub fn is_expired(&self, now: i64) -> (r: bool)
        ensures
            r == expired_at(self@, now as int),
    {
        match self.ttl {
            Some(t) => (now as i128) > (self.created_at as i128) + (t as i128),
            None => false,
        }
    }

    /// Whether the record has expired by the current time of the clock.
    pub fn is_expired_now(&self) -> (r: bool)
        ensures
            self.ttl.is_none() ==> !r,
    {
        let now = current_timestamp();
        self.is_expired(now)
    }
}

/// An inbound request to shorten `url`, optionally expiring after `ttl` seconds.
#[derive(Debug, Clone)]
pub struct ShortUrlRequest {
    pub url: String,
    pub ttl: Option<u64>,
}

impl ShortUrlRequest {
    /// The record for this request under the given identifier and creation time.
    pub fn into_record(self, hash: String, created_at: i64) -> (r: ShortUrlData)
        ensures
            r@ == (RecordModel {
                source: self.url@,
                hash: hash@,
                ttl: self.ttl,
                created_at: created_at as int,
            }),
    {
        ShortUrlData::new(self.url, hash, self.ttl, created_at)
    }

    /// The record for this request, under a freshly generated identifier and
    /// stamped with the current time.
    pub fn into(self) -> (r: ShortUrlData)
        ensures
            r.source@ == self.url@,
            r.ttl == self.ttl,
            r.hash@.len() == HASH_LEN,
            forall|i: int| 0 <= i < r.hash@.len() ==> is_url_safe(#[trigger] r.hash@[i]),
    {
        let hash = random_identifier(HASH_LEN);
        let now = current_timestamp();
        self.into_record(hash, now)
    }
}

} // verus!
