use ulgate::auth::ApiKeyStore;
use ulgate::hashing::sha256;

#[test]
fn verify_correct_key() {
    let store = ApiKeyStore::single("my-secret-key-123");
    assert!(store.verify("my-secret-key-123"));
}

#[test]
fn reject_wrong_key() {
    let store = ApiKeyStore::single("my-secret-key-123");
    assert!(!store.verify("wrong-key"));
}

#[test]
fn multiple_keys() {
    let store = ApiKeyStore::new(&["key-a", "key-b", "key-c"]);
    assert!(store.verify("key-a"));
    assert!(store.verify("key-b"));
    assert!(store.verify("key-c"));
    assert!(!store.verify("key-d"));
}

#[test]
fn open_store_allows_all() {
    let store = ApiKeyStore::open();
    assert!(!store.is_enabled());
    assert!(store.verify("anything"));
}

#[test]
fn extract_bearer() {
    assert_eq!(ApiKeyStore::extract_bearer("Bearer my-token"), Some("my-token"));
    assert_eq!(ApiKeyStore::extract_bearer("Bearer  spaced "), Some("spaced"));
    assert_eq!(ApiKeyStore::extract_bearer("Basic abc"), None);
    assert_eq!(ApiKeyStore::extract_bearer(""), None);
}

#[test]
fn constant_time() {
    let store = ApiKeyStore::single("test-key");
    for _ in 0..1000 {
        assert!(store.verify("test-key"));
        assert!(!store.verify("wrong-key"));
    }
}

#[test]
fn bearer_without_token_is_no_token() {
    assert_eq!(ApiKeyStore::extract_bearer("Bearer "), None);
    assert_eq!(ApiKeyStore::extract_bearer("bearer abc"), None);
    assert_eq!(ApiKeyStore::extract_bearer(" \u{a0}Bearer x\u{2003}"), Some("x"));
}

#[test]
fn key_count_counts_every_key() {
    assert_eq!(ApiKeyStore::new(&["a", "a", "b"]).key_count(), 3);
    assert_eq!(ApiKeyStore::open().key_count(), 0);
    assert!(ApiKeyStore::single("").is_enabled());
    assert!(ApiKeyStore::single("").verify(""));
}

#[test]
fn stored_digest_is_sha256() {
    let store = ApiKeyStore::single("abc");
    assert_eq!(store.key_hashes[0], sha256(b"abc"));
    assert_eq!(store.key_hashes[0][..4], [0xba, 0x78, 0x16, 0xbf]);
    assert_eq!(store.key_hashes[0][28..], [0xf2, 0x00, 0x15, 0xad]);
}
