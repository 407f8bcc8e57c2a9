use hyper_tarot::codec::{decode_data, encode_data};
use hyper_tarot::errors::StoreError;
use hyper_tarot::oauth::LoginAttempt;
use hyper_tarot::session::{convert_time, SessionData, SessionRecord, UserRecord};
use hyper_tarot::store::{DurableRow, SessionBackend, LRU_CAPACITY};

fn attempt() -> LoginAttempt {
    LoginAttempt { pkce: "verifier-123".to_string(), csrf: "state-xyz".to_string() }
}

fn user() -> UserRecord {
    UserRecord {
        id: 7,
        subject: "abc".to_string(),
        email: "a@b.com".to_string(),
        display_name: "A".to_string(),
        created_at: -5,
        updated_at: 17,
    }
}

fn record(id: &str) -> SessionRecord {
    SessionRecord {
        id: id.to_string(),
        data: SessionData { attempt: Some(attempt()), user: Some(user()) },
        expiry_nanos: 1_700_000_000_000_000_000,
    }
}

fn assert_same_record(a: &SessionRecord, b: &SessionRecord) {
    assert_eq!(a.id, b.id);
    assert_eq!(a.expiry_nanos, b.expiry_nanos);
    match (&a.data.attempt, &b.data.attempt) {
        (Some(x), Some(y)) => {
            assert_eq!(x.pkce, y.pkce);
            assert_eq!(x.csrf, y.csrf);
        },
        (None, None) => {},
        _ => panic!("attempt presence differs"),
    }
    match (&a.data.user, &b.data.user) {
        (Some(x), Some(y)) => {
            assert_eq!(x.id, y.id);
            assert_eq!(x.subject, y.subject);
            assert_eq!(x.email, y.email);
            assert_eq!(x.display_name, y.display_name);
            assert_eq!(x.created_at, y.created_at);
            assert_eq!(x.updated_at, y.updated_at);
        },
        (None, None) => {},
        _ => panic!("user presence differs"),
    }
}

#[test]
fn codec_round_trips_a_full_payload() {
    let data = SessionData { attempt: Some(attempt()), user: Some(user()) };
    let blob = encode_data(&data);
    let back = decode_data(&blob).expect("a written payload must read back");
    assert_eq!(back.attempt.as_ref().unwrap().pkce, "verifier-123");
    assert_eq!(back.attempt.as_ref().unwrap().csrf, "state-xyz");
    assert_eq!(back.user.as_ref().unwrap().subject, "abc");
    assert_eq!(back.user.as_ref().unwrap().created_at, -5);
}

#[test]
fn codec_round_trips_separators_and_unicode() {
    let data = SessionData {
        attempt: Some(LoginAttempt {
            pkce: "%&%a%p&&".to_string(),
            csrf: "héllo & wörld=%".to_string(),
        }),
        user: None,
    };
    let blob = encode_data(&data);
    let back = decode_data(&blob).expect("escaping must round trip");
    let a = back.attempt.unwrap();
    assert_eq!(a.pkce, "%&%a%p&&");
    assert_eq!(a.csrf, "héllo & wörld=%");
    assert!(back.user.is_none());
}

#[test]
fn codec_round_trips_the_empty_payload() {
    let data = SessionData { attempt: None, user: None };
    let back = decode_data(&encode_data(&data)).unwrap();
    assert!(back.attempt.is_none());
    assert!(back.user.is_none());
}

#[test]
fn codec_rejects_malformed_blobs() {
    assert!(decode_data("").is_none());
    assert!(decode_data("junk").is_none());
    assert!(decode_data("1&%z&x&0&AAAAAAAAAAAAAAAA&&&&AAAAAAAAAAAAAAAA&AAAAAAAAAAAAAAAA&").is_none());
    assert!(decode_data("2&a&b&0&AAAAAAAAAAAAAAAA&&&&AAAAAAAAAAAAAAAA&AAAAAAAAAAAAAAAA&").is_none());
}

#[test]
fn convert_time_rejects_out_of_range() {
    assert_eq!(convert_time(0), Ok(0));
    assert_eq!(convert_time(i64::MAX as i128), Ok(i64::MAX));
    assert_eq!(convert_time(i64::MIN as i128), Ok(i64::MIN));
    assert_eq!(convert_time(i64::MAX as i128 + 1), Err(StoreError::Encode));
    assert_eq!(convert_time(i128::MIN), Err(StoreError::Encode));
}

#[test]
fn create_then_load_returns_the_record() {
    let mut store = SessionBackend::new();
    let rec = record("s1");
    store.create(&rec, 100).unwrap();
    let loaded = store.load(&"s1".to_string()).unwrap().unwrap();
    assert_same_record(&loaded, &rec);
}

#[test]
fn create_refuses_an_existing_id() {
    let mut store = SessionBackend::new();
    let first = record("s1");
    store.create(&first, 100).unwrap();
    let mut second = record("s1");
    second.expiry_nanos = 9;
    second.data.attempt = None;
    assert_eq!(store.create(&second, 101), Err(StoreError::Backend));
    // The refused record was not cached: even with durable storage gone,
    // the load still answers with the record durable storage accepted.
    store.durable.set_online(false);
    let loaded = store.load(&"s1".to_string()).unwrap().unwrap();
    assert_same_record(&loaded, &first);
}

#[test]
fn create_against_unreachable_storage_caches_nothing() {
    let mut store = SessionBackend::new();
    store.durable.set_online(false);
    assert_eq!(store.create(&record("s1"), 100), Err(StoreError::Backend));
    assert_eq!(store.cached_len(), 0);
    store.durable.set_online(true);
    assert!(store.load(&"s1".to_string()).unwrap().is_none());
}

#[test]
fn create_rejects_unrepresentable_expiry() {
    let mut store = SessionBackend::new();
    let mut rec = record("s1");
    rec.expiry_nanos = i128::MAX;
    assert_eq!(store.create(&rec, 100), Err(StoreError::Encode));
    assert!(store.load(&"s1".to_string()).unwrap().is_none());
}

#[test]
fn save_requires_an_existing_record() {
    let mut store = SessionBackend::new();
    assert_eq!(store.save(&record("s1"), 100), Err(StoreError::Backend));
}

#[test]
fn save_then_load_returns_what_was_saved() {
    let mut store = SessionBackend::new();
    store.create(&record("s1"), 100).unwrap();
    let mut changed = record("s1");
    changed.data.attempt = None;
    changed.expiry_nanos = 42;
    store.save(&changed, 200).unwrap();
    let loaded = store.load(&"s1".to_string()).unwrap().unwrap();
    assert_same_record(&loaded, &changed);
}

#[test]
fn load_of_absent_id_is_none_not_an_error() {
    let mut store = SessionBackend::new();
    assert_eq!(store.load(&"ghost".to_string()).unwrap().is_none(), true);
}

#[test]
fn cache_answers_after_save_even_when_durable_fails() {
    let mut store = SessionBackend::new();
    let rec = record("s1");
    store.create(&rec, 100).unwrap();
    store.durable.set_online(false);
    // The cached copy is authoritative on a hit: no durable round trip.
    let loaded = store.load(&"s1".to_string()).unwrap().unwrap();
    assert_same_record(&loaded, &rec);
    // A miss must reach the durable store and fail.
    assert!(matches!(store.load(&"other".to_string()), Err(StoreError::Backend)));
}

#[test]
fn eviction_is_least_recently_used_first() {
    let mut store = SessionBackend::with_capacity(2);
    store.create(&record("s1"), 100).unwrap();
    store.create(&record("s2"), 100).unwrap();
    store.create(&record("s3"), 100).unwrap();
    assert_eq!(store.cached_len(), 2);
    store.durable.set_online(false);
    // s1 was least recently used and is no longer cached.
    assert!(matches!(store.load(&"s1".to_string()), Err(StoreError::Backend)));
    // s3 is still cached.
    assert!(store.load(&"s3".to_string()).unwrap().is_some());
    // After durable storage is back, the evicted record loads with identical
    // data.
    store.durable.set_online(true);
    let loaded = store.load(&"s1".to_string()).unwrap().unwrap();
    assert_same_record(&loaded, &record("s1"));
}

#[test]
fn touching_an_entry_protects_it_from_eviction() {
    let mut store = SessionBackend::with_capacity(2);
    store.create(&record("s1"), 100).unwrap();
    store.create(&record("s2"), 100).unwrap();
    // Touch s1: now s2 is the least recently used entry.
    store.load(&"s1".to_string()).unwrap().unwrap();
    store.create(&record("s3"), 100).unwrap();
    store.durable.set_online(false);
    assert!(store.load(&"s1".to_string()).unwrap().is_some());
    assert!(matches!(store.load(&"s2".to_string()), Err(StoreError::Backend)));
}

#[test]
fn delete_is_idempotent_and_evicts() {
    let mut store = SessionBackend::new();
    store.create(&record("s1"), 100).unwrap();
    store.delete(&"s1".to_string()).unwrap();
    assert!(store.load(&"s1".to_string()).unwrap().is_none());
    // Deleting what is absent succeeds.
    store.delete(&"s1".to_string()).unwrap();
    store.delete(&"never".to_string()).unwrap();
}

#[test]
fn delete_fails_when_durable_storage_is_unreachable() {
    let mut store = SessionBackend::new();
    store.create(&record("s1"), 100).unwrap();
    store.durable.set_online(false);
    assert_eq!(store.delete(&"s1".to_string()), Err(StoreError::Backend));
    // The cached copy stayed.
    assert!(store.load(&"s1".to_string()).unwrap().is_some());
}

#[test]
fn corrupt_durable_payload_is_a_decode_error() {
    let mut store = SessionBackend::new();
    store.durable.put_row(DurableRow {
        id: "bad".to_string(),
        data: "%z".to_string(),
        expires_at: 10,
        refreshed_at: 0,
        created_at: 0,
    });
    assert!(matches!(store.load(&"bad".to_string()), Err(StoreError::Decode)));
}

#[test]
fn default_capacity_is_fixed() {
    let store = SessionBackend::new();
    assert_eq!(store.cached_len(), 0);
    assert_eq!(LRU_CAPACITY, 1000);
}
