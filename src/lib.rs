//! Storage layer of a URL-shortening service: the short-URL record and its
//! expiry rule, the error taxonomy shared by all backends, the append-only
//! file log and the key-value backend.

pub mod error;
pub mod file_log;
pub mod record;
pub mod redis_store;
pub mod storage;
