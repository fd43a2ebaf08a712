use vstd::prelude::*;

use crate::error::{ShortUrlStorageError, StorageError, E};
use crate::record::ShortUrlData;

verus! {

/// The capability every backend offers: look a record up by its hash, and
/// persist a record, returning its hash.
pub trait Storage<I> {
    fn find_short_url(&mut self, hash: String) -> E<Option<I>>;

    fn save_short_url(&mut self, short_url: I) -> E<String>;
}

/// Outcome of a save once the backend has reported whether the write went
/// through: the record's hash, or an `ErrorOnSave` failure.
pub fn save_outcome(written: bool, hash: String) -> (r: E<String>)
    ensures
        written <==> r is Ok,
        r is Ok ==> r->Ok_0@ == hash@,
        r is Err ==> r->Err_0.error == StorageError::ErrorOnSave,
{
    if written {
        Ok(hash)
    } else {
        Err(ShortUrlStorageError::error_on_save())
    }
}

/// Outcome of the single non-blocking attempt to take the shared backend
/// handle: a busy handle fails fast with `TemporarilyUnavailable`.
pub fn on_lock_attempt(acquired: bool) -> (r: E<()>)
    ensures
        acquired <==> r is Ok,
        r is Err ==> r->Err_0.error == StorageError::TemporarilyUnavailable,
{
    if acquired {
        Ok(())
    } else {
        Err(ShortUrlStorageError::storage_temporarily_unavailable())
    }
}

/// Where a lookup sends the client: the record's source URL; a lookup that
/// found nothing becomes `NotFound`, and a failed lookup keeps its failure.
pub fn redirect_target(found: E<Option<ShortUrlData>>) -> (r: E<String>)
    ensures
        match found {
            Ok(Some(d)) => r is Ok && r->Ok_0@ == d.source@,
            Ok(None) => r is Err && r->Err_0.error == StorageError::NotFound,
            Err(e) => r == Err::<String, ShortUrlStorageError>(e),
        },
{
    match found {
        Ok(Some(d)) => Ok(d.source),
        Ok(None) => Err(ShortUrlStorageError::not_found()),
        Err(e) => Err(e),
    }
}

} // verus!
