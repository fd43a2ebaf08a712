use url_shortener::error::{ShortUrlStorageError, StorageError};
use url_shortener::file_log::{find_in_log, frame_record, split_lines};
use url_shortener::record::{ShortUrlData, ShortUrlRequest, HASH_LEN};
use url_shortener::redis_store::{KvReply, KvWrite, RedisShortUrl};
use url_shortener::storage::{on_lock_attempt, redirect_target, save_outcome};

fn record(source: &str, hash: &str, ttl: Option<u64>, created_at: i64) -> ShortUrlData {
    ShortUrlData::new(source.to_string(), hash.to_string(), ttl, created_at)
}

fn same(a: &ShortUrlData, b: &ShortUrlData) -> bool {
    a.source == b.source && a.hash == b.hash && a.ttl == b.ttl && a.created_at == b.created_at
}

fn found(r: Result<Option<ShortUrlData>, ShortUrlStorageError>) -> Option<ShortUrlData> {
    match r {
        Ok(v) => v,
        Err(e) => panic!("lookup failed with {:?}", e),
    }
}

#[test]
fn error_constructors_carry_their_kind() {
    assert_eq!(ShortUrlStorageError::undefined_error().error, StorageError::UndefinedError);
    assert_eq!(
        ShortUrlStorageError::storage_temporarily_unavailable().error,
        StorageError::TemporarilyUnavailable
    );
    assert_eq!(ShortUrlStorageError::error_on_save().error, StorageError::ErrorOnSave);
    assert_eq!(ShortUrlStorageError::not_found().error, StorageError::NotFound);
}

#[test]
fn error_status_codes() {
    assert_eq!(ShortUrlStorageError::not_found().status_code(), 404);
    assert_eq!(ShortUrlStorageError::error_on_save().status_code(), 500);
    assert_eq!(ShortUrlStorageError::undefined_error().status_code(), 500);
    assert_eq!(ShortUrlStorageError::storage_temporarily_unavailable().status_code(), 423);
}

#[test]
fn error_messages() {
    assert_eq!(ShortUrlStorageError::undefined_error().message(), "Undefined error");
    assert_eq!(
        ShortUrlStorageError::storage_temporarily_unavailable().message(),
        "Temporarily Unavailable"
    );
    assert_eq!(ShortUrlStorageError::error_on_save().message(), "Error on save");
    assert_eq!(ShortUrlStorageError::not_found().message(), "Not found");
}

#[test]
fn only_unavailability_is_retriable() {
    assert!(ShortUrlStorageError::storage_temporarily_unavailable().is_retriable());
    assert!(!ShortUrlStorageError::not_found().is_retriable());
    assert!(!ShortUrlStorageError::error_on_save().is_retriable());
    assert!(!ShortUrlStorageError::undefined_error().is_retriable());
}

#[test]
fn expiry_predicate() {
    let r = record("https://example.com", "abc123", Some(2), 1000);
    assert!(!r.is_expired(1000));
    assert!(!r.is_expired(1002));
    assert!(r.is_expired(1003));
    let forever = record("https://example.com", "abc123", None, 1000);
    assert!(!forever.is_expired(i64::MAX));
    let late = record("u", "h", Some(u64::MAX), i64::MAX);
    assert!(!late.is_expired(i64::MAX));
}

#[test]
fn expiry_against_the_clock() {
    let old = record("https://example.com", "abc123", Some(0), 0);
    assert!(old.is_expired_now());
    let forever = record("https://example.com", "abc123", None, 0);
    assert!(!forever.is_expired_now());
}

#[test]
fn request_into_record() {
    let req = ShortUrlRequest { url: "https://example.com".to_string(), ttl: Some(5) };
    let r = req.into_record("abc123".to_string(), 77);
    assert!(same(&r, &record("https://example.com", "abc123", Some(5), 77)));
}

#[test]
fn request_gets_a_fresh_hash() {
    let req = ShortUrlRequest { url: "https://example.com".to_string(), ttl: None };
    let a = req.clone().into();
    let b = req.into();
    assert_eq!(a.source, "https://example.com");
    assert_eq!(a.ttl, None);
    assert_eq!(a.hash.chars().count(), HASH_LEN);
    assert!(a.hash.chars().all(|c| c == '_' || c == '-' || c.is_ascii_alphanumeric()));
    assert_ne!(a.hash, b.hash);
    assert!(a.created_at > 0);
}

#[test]
fn split_lines_cases() {
    assert_eq!(split_lines(&Vec::new()), Vec::<Vec<u8>>::new());
    assert_eq!(split_lines(&b"a\nb\n".to_vec()), vec![b"a".to_vec(), b"b".to_vec()]);
    assert_eq!(split_lines(&b"a\r\nbc".to_vec()), vec![b"a".to_vec(), b"bc".to_vec()]);
    assert_eq!(split_lines(&b"\n\nx".to_vec()), vec![Vec::new(), Vec::new(), b"x".to_vec()]);
}

#[test]
fn frame_record_cases() {
    assert_eq!(frame_record(&b"{}".to_vec()).unwrap(), b"{}\n".to_vec());
    assert_eq!(frame_record(&Vec::new()).unwrap_err().error, StorageError::ErrorOnSave);
    assert_eq!(frame_record(&b"{\n}".to_vec()).unwrap_err().error, StorageError::ErrorOnSave);
    assert_eq!(frame_record(&b"{}\r".to_vec()).unwrap_err().error, StorageError::ErrorOnSave);
}

#[test]
fn appended_frame_is_the_last_line() {
    let mut content = b"first\n".to_vec();
    let raw = br#"{"source":"https://example.com","hash":"abc123"}"#.to_vec();
    content.extend(frame_record(&raw).unwrap());
    assert_eq!(split_lines(&content), vec![b"first".to_vec(), raw]);
}

#[test]
fn save_then_find_without_ttl() {
    let r = record("https://example.com", "abc123", None, 1000);
    let log = vec![Some(record("https://other.org", "zzz", None, 900)), Some(r.clone())];
    let got = found(find_in_log(&log, &"abc123".to_string(), 1000)).unwrap();
    assert!(same(&got, &r));
}

#[test]
fn ttl_window() {
    let r = record("https://example.com", "h1", Some(10), 500);
    let log = vec![Some(r.clone())];
    let got = found(find_in_log(&log, &"h1".to_string(), 509)).unwrap();
    assert!(same(&got, &r));
    assert!(found(find_in_log(&log, &"h1".to_string(), 511)).is_none());
}

#[test]
fn never_saved_is_none() {
    let log = vec![Some(record("https://example.com", "abc123", None, 1)), None];
    assert!(found(find_in_log(&log, &"nope".to_string(), 1)).is_none());
    assert!(found(find_in_log(&Vec::new(), &"nope".to_string(), 1)).is_none());
}

#[test]
fn corrupt_lines_are_skipped() {
    let r = record("https://example.com", "abc123", None, 1);
    let log = vec![None, Some(record("https://a.org", "x", None, 1)), None, Some(r.clone()), None];
    let got = found(find_in_log(&log, &"abc123".to_string(), 5)).unwrap();
    assert!(same(&got, &r));
}

#[test]
fn first_live_match_wins() {
    let expired = record("https://old.org", "abc123", Some(1), 0);
    let live = record("https://new.org", "abc123", None, 5);
    let later = record("https://later.org", "abc123", None, 6);
    let log = vec![Some(expired), Some(live.clone()), Some(later)];
    let got = found(find_in_log(&log, &"abc123".to_string(), 10)).unwrap();
    assert!(same(&got, &live));
}

#[test]
fn distinct_saves_all_found() {
    let recs: Vec<ShortUrlData> = (0..5)
        .map(|i| record(&format!("https://site{}.org", i), &format!("h{}", i), None, i))
        .collect();
    let log: Vec<Option<ShortUrlData>> = recs.iter().rev().cloned().map(Some).collect();
    for r in &recs {
        let got = found(find_in_log(&log, &r.hash, 100)).unwrap();
        assert!(same(&got, r));
    }
}

#[test]
fn scenario_ttl_two_seconds() {
    let created = 1_700_000_000;
    let r = record("https://example.com", "abc123", Some(2), created);
    let log = vec![Some(r)];
    let now = found(find_in_log(&log, &"abc123".to_string(), created)).unwrap();
    assert_eq!(now.source, "https://example.com");
    assert!(found(find_in_log(&log, &"abc123".to_string(), created + 3)).is_none());
}

#[test]
fn scenario_no_ttl_stays() {
    let created = 1_700_000_000;
    let r = record("https://example.com", "abc123", None, created);
    let log = vec![Some(r)];
    assert!(found(find_in_log(&log, &"abc123".to_string(), created)).is_some());
    let later = found(find_in_log(&log, &"abc123".to_string(), created + 10)).unwrap();
    assert_eq!(later.source, "https://example.com");
}

#[test]
fn busy_backend_fails_fast() {
    assert!(on_lock_attempt(true).is_ok());
    assert_eq!(on_lock_attempt(false).unwrap_err().error, StorageError::TemporarilyUnavailable);
}

#[test]
fn save_outcomes() {
    assert_eq!(save_outcome(true, "abc123".to_string()).unwrap(), "abc123");
    assert_eq!(save_outcome(false, "abc123".to_string()).unwrap_err().error, StorageError::ErrorOnSave);
}

#[test]
fn redirect_targets() {
    let r = record("https://example.com", "abc123", None, 1);
    assert_eq!(redirect_target(Ok(Some(r))).unwrap(), "https://example.com");
    assert_eq!(redirect_target(Ok(None)).unwrap_err().error, StorageError::NotFound);
    let e = redirect_target(Err(ShortUrlStorageError::undefined_error())).unwrap_err();
    assert_eq!(e.error, StorageError::UndefinedError);
}

#[test]
fn kv_write_commands() {
    let with_ttl = record("https://example.com", "abc123", Some(2), 1);
    assert_eq!(
        RedisShortUrl::write_for(&with_ttl),
        KvWrite::SetWithExpiry { key: "abc123".to_string(), seconds: 2 }
    );
    let without = record("https://example.com", "abc123", None, 1);
    assert_eq!(RedisShortUrl::write_for(&without), KvWrite::Plain { key: "abc123".to_string() });
}

#[test]
fn kv_lookup_outcomes() {
    let r = record("https://example.com", "abc123", None, 1);
    let got = RedisShortUrl::lookup_outcome(KvReply::Decoded(r.clone())).unwrap().unwrap();
    assert!(same(&got, &r));
    assert!(RedisShortUrl::lookup_outcome(KvReply::Missing).unwrap().is_none());
    assert_eq!(
        RedisShortUrl::lookup_outcome(KvReply::Failed).unwrap_err().error,
        StorageError::UndefinedError
    );
    assert_eq!(
        RedisShortUrl::lookup_outcome(KvReply::Undecodable).unwrap_err().error,
        StorageError::UndefinedError
    );
}

#[test]
fn kv_backend_holds_its_client() {
    let client = redis::Client::open("redis://127.0.0.1:6379").unwrap();
    let store = RedisShortUrl::new(client);
    assert_eq!(store.client.get_connection_info().addr().to_string(), "127.0.0.1:6379");
}
