use vstd::prelude::*;

verus! {

/// The four outcomes a storage failure can carry.
#[derive(Debug, Clone, Copy, PartialEq, Eq, Structural)]
pub enum StorageError {
    UndefinedError,
    TemporarilyUnavailable,
    ErrorOnSave,
    NotFound,
}

/// A failure returned by a storage operation; it carries exactly one kind.
#[derive(Debug, Clone, Copy, PartialEq, Eq, Structural)]
pub struct ShortUrlStorageError {
    pub error: StorageError,
}

/// Result of a storage operation.
pub type E<T> = Result<T, ShortUrlStorageError>;

/// HTTP status of each kind: 404 for a miss, 423 for a busy backend, 500 otherwise.
pub open spec fn status_of(kind: StorageError) -> u16 {
    match kind {
        StorageError::NotFound => 404,
        StorageError::ErrorOnSave => 500,
        StorageError::UndefinedError => 500,
        StorageError::TemporarilyUnavailable => 423,
    }
}

/// Text shown to the client for each kind.
pub open spec fn message_of(kind: StorageError) -> Seq<char> {
    match kind {
        StorageError::UndefinedError => "Undefined error"@,
        StorageError::TemporarilyUnavailable => "Temporarily Unavailable"@,
        StorageError::ErrorOnSave => "Error on save"@,
        StorageError::NotFound => "Not found"@,
    }
}

impl ShortUrlStorageError {
    pub fn undefined_error() -> (r: Self)
        ensures
            r.error == StorageError::UndefinedError,
    {
        Self { error: StorageError::UndefinedError }
    }

    pub fn storage_temporarily_unavailable() -> (r: Self)
        ensures
            r.error == StorageError::TemporarilyUnavailable,
    {
        Self { error: StorageError::TemporarilyUnavailable }
    }

    pub fn error_on_save() -> (r: Self)
        ensures
            r.error == StorageError::ErrorOnSave,
    {
        Self { error: StorageError::ErrorOnSave }
    }

    pub fn not_found() -> (r: Self)
        ensures
            r.error == StorageError::NotFound,
    {
        Self { error: StorageError::NotFound }
    }

    /// The HTTP status class that this failure maps to.
    pub fn status_code(&self) -> (r: u16)
        ensures
            r == status_of(self.error),
    {
        match self.error {
            StorageError::NotFound => 404,
            StorageError::ErrorOnSave | StorageError::UndefinedError => 500,
            StorageError::TemporarilyUnavailable => 423,
        }
    }

    /// Whether a client may retry the same request later.
    pub fn is_retriable(&self) -> (r: bool)
        ensures
            r == (self.error == StorageError::TemporarilyUnavailable),
    {
        self.error == StorageError::TemporarilyUnavailable
    }

    /// The plain-text body of the error response.
    pub fn message(&self) -> (r: String)
        ensures
            r@ == message_of(self.error),
    {
        match self.error {
            StorageError::UndefinedError => {
                proof { reveal_strlit("Undefined error"); }
                String::from_str("Undefined error")
            },
            StorageError::TemporarilyUnavailable => {
                proof { reveal_strlit("Temporarily Unavailable"); }
                String::from_str("Temporarily Unavailable")
            },
            StorageError::ErrorOnSave => {
                proof { reveal_strlit("Error on save"); }
                String::from_str("Error on save")
            },
            StorageError::NotFound => {
                proof { reveal_strlit("Not found"); }
                String::from_str("Not found")
            },
        }
    }
}

} // verus!
