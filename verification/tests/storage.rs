use eh2telegraph::storage::cloudflare_kv::{CFConfig, CFStorage, RemoteOutcome};
use eh2telegraph::storage::lru::LruStorage;
use eh2telegraph::storage::{KVStorage, RemoteFailure, SimpleMemStorage, StorageError};

#[test]
fn mem_get_on_never_set_key_is_none() {
    let mut s = SimpleMemStorage::with_capacity(16);
    assert_eq!(s.get(&"missing".to_string()), Ok(None));
}

#[test]
fn mem_set_get_delete_roundtrip() {
    let mut s = SimpleMemStorage::with_capacity(4);
    s.set("k1".to_string(), "v1".to_string(), None).unwrap();
    s.set("k2".to_string(), "v2".to_string(), Some(60)).unwrap();
    assert_eq!(s.get(&"k1".to_string()), Ok(Some("v1".to_string())));
    assert_eq!(s.get(&"k2".to_string()), Ok(Some("v2".to_string())));
    s.set("k1".to_string(), "v1b".to_string(), None).unwrap();
    assert_eq!(s.get(&"k1".to_string()), Ok(Some("v1b".to_string())));
    s.delete(&"k1".to_string()).unwrap();
    assert_eq!(s.get(&"k1".to_string()), Ok(None));
    // deleting an absent key is a no-op success
    assert_eq!(s.delete(&"k1".to_string()), Ok(()));
}

#[test]
fn lru_get_on_never_set_key_is_none() {
    let mut s = LruStorage::new(2);
    assert_eq!(s.get(&"missing".to_string()), Ok(None));
}

#[test]
fn lru_overflow_evicts_least_recently_accessed() {
    let mut s = LruStorage::new(2);
    s.set("a".to_string(), "1".to_string(), None).unwrap();
    s.set("b".to_string(), "2".to_string(), None).unwrap();
    // capacity + 1 distinct keys: exactly the least recent goes
    s.set("c".to_string(), "3".to_string(), None).unwrap();
    assert_eq!(s.get(&"a".to_string()), Ok(None));
    assert_eq!(s.get(&"b".to_string()), Ok(Some("2".to_string())));
    assert_eq!(s.get(&"c".to_string()), Ok(Some("3".to_string())));
}

#[test]
fn lru_get_refreshes_recency() {
    let mut s = LruStorage::new(2);
    s.set("a".to_string(), "1".to_string(), None).unwrap();
    s.set("b".to_string(), "2".to_string(), None).unwrap();
    // touching `a` makes `b` the least recent
    assert_eq!(s.get(&"a".to_string()), Ok(Some("1".to_string())));
    s.set("c".to_string(), "3".to_string(), None).unwrap();
    assert_eq!(s.get(&"a".to_string()), Ok(Some("1".to_string())));
    assert_eq!(s.get(&"b".to_string()), Ok(None));
}

#[test]
fn lru_set_overwrites_and_refreshes() {
    let mut s = LruStorage::new(2);
    s.set("a".to_string(), "1".to_string(), None).unwrap();
    s.set("b".to_string(), "2".to_string(), None).unwrap();
    s.set("a".to_string(), "1b".to_string(), None).unwrap();
    s.set("c".to_string(), "3".to_string(), None).unwrap();
    assert_eq!(s.get(&"a".to_string()), Ok(Some("1b".to_string())));
    assert_eq!(s.get(&"b".to_string()), Ok(None));
}

#[test]
fn lru_delete_removes() {
    let mut s = LruStorage::new(2);
    s.set("a".to_string(), "1".to_string(), None).unwrap();
    assert_eq!(s.delete(&"a".to_string()), Ok(()));
    assert_eq!(s.get(&"a".to_string()), Ok(None));
    assert_eq!(s.delete(&"a".to_string()), Ok(()));
}

#[test]
fn remote_not_found_maps_to_none() {
    assert_eq!(CFStorage::resolve_remote_get(RemoteOutcome::<String>::NotFound), Ok(None));
}

#[test]
fn remote_value_and_failure_map_through() {
    assert_eq!(
        CFStorage::resolve_remote_get(RemoteOutcome::Found("v".to_string())),
        Ok(Some("v".to_string()))
    );
    assert_eq!(
        CFStorage::resolve_remote_get(RemoteOutcome::<String>::Failed(RemoteFailure::Unauthorized)),
        Err(StorageError::Remote(RemoteFailure::Unauthorized))
    );
    assert_eq!(
        CFStorage::resolve_remote_get(RemoteOutcome::<String>::Failed(RemoteFailure::Api(500))),
        Err(StorageError::Remote(RemoteFailure::Api(500)))
    );
    assert_eq!(CFStorage::resolve_remote_write(Ok(())), Ok(()));
    assert_eq!(
        CFStorage::resolve_remote_write(Err(RemoteFailure::Transport)),
        Err(StorageError::Remote(RemoteFailure::Transport))
    );
    // a write round-trip passes a not-found report through, unlike a get
    assert_eq!(
        CFStorage::resolve_remote_write(Err(RemoteFailure::NotFound)),
        Err(StorageError::Remote(RemoteFailure::NotFound))
    );
}

#[test]
fn remote_adapter_builds_from_plain_config() {
    let s = CFStorage::new(
        "http://127.0.0.1:1/".to_string(),
        "token-abc".to_string(),
        64,
        600,
    );
    assert!(s.is_ok());
    let bad = CFStorage::new(
        "http://127.0.0.1:1/".to_string(),
        "bad\ntoken".to_string(),
        64,
        600,
    );
    assert_eq!(bad.err(), Some(StorageError::Configuration));
    let cfg = CFConfig {
        endpoint: "http://127.0.0.1:1/".to_string(),
        token: "token-abc".to_string(),
        cache_size: 8,
        expire_sec: 60,
    };
    assert!(CFStorage::from_config(cfg).is_ok());
}
