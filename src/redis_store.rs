use vstd::prelude::*;

use crate::error::{ShortUrlStorageError, StorageError, E};
use crate::record::ShortUrlData;

verus! {

/// A connection handle of the key-value store, held and passed on unread.
#[verifier::external_type_specification]
#[verifier::external_body]
pub struct ExClient(redis::Client);

/// The key-value backend: one key per record, under the record's hash, with
/// the store's own expiry standing for the TTL.
pub struct RedisShortUrl {
    pub client: redis::Client,
}

/// The write a save issues to the store for a record.
#[derive(Debug, Clone, PartialEq, Eq)]
pub enum KvWrite {
    /// Set the key, to be removed by the store after `seconds`.
    SetWithExpiry { key: String, seconds: u64 },
    /// Set the key with no expiry.
    Plain { key: String },
}

/// What a get by hash brought back from the store.
#[derive(Debug, Clone)]
pub enum KvReply {
    /// The get itself failed (connection or protocol error).
    Failed,
    /// No value is stored under the key.
    Missing,
    /// A value is stored but is not a record.
    Undecodable,
    /// A value is stored and is this record.
    Decoded(ShortUrlData),
}

impl RedisShortUrl {
    pub fn new(client: redis::Client) -> (r: Self)
        ensures
            r.client == client,
    {
        Self { client }
    }

    /// The write that saves `record`: with expiry after its TTL when it has
    /// one, without expiry otherwise; always under its hash.
    pub fn write_for(record: &ShortUrlData) -> (r: KvWrite)
        ensures
            match record.ttl {
                Some(t) => match r {
                    KvWrite::SetWithExpiry { key, seconds } => key@ == record.hash@ && seconds == t,
                    KvWrite::Plain { .. } => false,
                },
                None => match r {
                    KvWrite::Plain { key } => key@ == record.hash@,
                    KvWrite::SetWithExpiry { .. } => false,
                },
            },
    {
        match record.ttl {
            Some(t) => KvWrite::SetWithExpiry { key: record.hash.clone(), seconds: t },
            None => KvWrite::Plain { key: record.hash.clone() },
        }
    }

    /// Outcome of a lookup from the store's reply: `None` only when the key is
    /// absent; a failed get or a value that is not a record is an
    /// `UndefinedError`.
    pub fn lookup_outcome(reply: KvReply) -> (r: E<Option<ShortUrlData>>)
        ensures
            match reply {
                KvReply::Failed => r is Err && r->Err_0.error == StorageError::UndefinedError,
                KvReply::Undecodable => r is Err && r->Err_0.error == StorageError::UndefinedError,
                KvReply::Missing => r is Ok && r->Ok_0 is None,
                KvReply::Decoded(d) => r is Ok && r->Ok_0 is Some && r->Ok_0->Some_0@ == d@,
            },
    {
        match reply {
            KvReply::Failed => Err(ShortUrlStorageError::undefined_error()),
            KvReply::Undecodable => Err(ShortUrlStorageError::undefined_error()),
            KvReply::Missing => Ok(None),
            KvReply::Decoded(d) => Ok(Some(d)),
        }
    }
}

} // verus!
