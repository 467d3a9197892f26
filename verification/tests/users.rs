use argon2::password_hash::rand_core::OsRng;
use argon2::password_hash::SaltString;
use argon2::PasswordHasher;
use vpn::auth::{AuthError, UserStore as ConfiguredUsers};
use vpn::user_store::memory::InMemoryUserStore;
use vpn::user_store::sqlite::{checked_url, connect_options, JournalMode};
use vpn::user_store::{checked_hash, poisoned, validate_upsert, StoreError, UserStore};

const PHC: &str = "$argon2id$v=19$m=19456,t=2,p=1$j3xYVqWV0EE+AG6htXRGTA$g446kNT7dmrxnDjw/DZYHbCWrO83sNJtAdIqmWjcknE";

fn hash_password(pw: &str) -> String {
    let salt = SaltString::generate(&mut OsRng);
    argon2::Argon2::default()
        .hash_password(pw.as_bytes(), &salt)
        .unwrap()
        .to_string()
}

#[test]
fn test_memory_lookup_on_empty_store_returns_none() {
    let store = InMemoryUserStore::new();
    assert_eq!(store.password_hash("alice").unwrap(), None);
}

#[test]
fn test_memory_upsert_then_lookup_round_trips() {
    let mut store = InMemoryUserStore::new();
    let phc = hash_password("s3cret");
    store.upsert("alice", &phc).unwrap();
    assert_eq!(store.password_hash("alice").unwrap(), Some(phc));
}

#[test]
fn test_memory_upsert_empty_username_rejected_without_write() {
    let mut store = InMemoryUserStore::new();
    let err = store.upsert("", &hash_password("s3cret")).unwrap_err();
    assert!(matches!(err, StoreError::InvalidInput(_)));
    assert_eq!(err.message(), "invalid input: empty username");
    assert!(store.list().unwrap().is_empty());
}

#[test]
fn test_memory_upsert_malformed_phc_rejected_without_write() {
    let mut store = InMemoryUserStore::new();
    let err = store.upsert("alice", "not-a-valid-hash").unwrap_err();
    assert!(matches!(err, StoreError::InvalidInput(_)));
    assert_eq!(
        err.message(),
        "invalid input: invalid phc: password hash string missing field"
    );
    assert_eq!(store.password_hash("alice").unwrap(), None);
}

#[test]
fn test_memory_upsert_same_user_updates_in_place() {
    let mut store = InMemoryUserStore::new();
    let first = hash_password("one");
    let second = hash_password("two");
    store.upsert("alice", &first).unwrap();
    store.upsert("alice", &second).unwrap();
    assert_eq!(store.list().unwrap(), vec!["alice".to_string()]);
    assert_eq!(store.password_hash("alice").unwrap(), Some(second));
}

#[test]
fn test_memory_delete_existing_user_returns_true_and_clears() {
    let mut store = InMemoryUserStore::new();
    store.upsert("alice", &hash_password("s3cret")).unwrap();
    assert!(store.delete("alice").unwrap());
    assert_eq!(store.password_hash("alice").unwrap(), None);
    assert!(store.list().unwrap().is_empty());
}

#[test]
fn test_memory_delete_missing_user_returns_false() {
    let mut store = InMemoryUserStore::new();
    assert!(!store.delete("alice").unwrap());
}

#[test]
fn test_memory_list_is_sorted_and_stable() {
    let mut store = InMemoryUserStore::default();
    for name in ["carol", "alice", "bob"] {
        store.upsert(name, &hash_password("s3cret")).unwrap();
    }
    let expected = vec!["alice", "bob", "carol"];
    for _ in 0..2 {
        let got: Vec<String> = store.list().unwrap();
        let got: Vec<&str> = got.iter().map(String::as_str).collect();
        assert_eq!(got, expected);
    }
}

#[test]
fn memory_list_is_in_the_order_of_strings() {
    let names = ["b", "a", "ab", "", "é", "z", "Z", "中", "a\u{10000}", "a\u{ffff}", "ba"];
    let mut store = InMemoryUserStore::new();
    let mut want = vec![];
    for name in names {
        if store.upsert(name, PHC).is_ok() {
            want.push(name.to_string());
        }
    }
    want.sort();
    assert_eq!(store.list().unwrap(), want);
    assert_eq!(want.len(), names.len() - 1);
}

#[test]
fn test_from_pairs_populates_store_and_lookup() {
    let store = InMemoryUserStore::from_pairs(vec![("alice".to_string(), PHC.to_string())])
        .expect("valid pairs");
    assert_eq!(store.password_hash("alice").unwrap(), Some(PHC.to_string()));
    assert_eq!(store.list().unwrap(), vec!["alice".to_string()]);
}

#[test]
fn test_from_pairs_malformed_phc_returns_invalid_input() {
    let err = InMemoryUserStore::from_pairs(vec![("alice".to_string(), "bad".to_string())])
        .unwrap_err();
    assert!(matches!(err, StoreError::InvalidInput(_)));
}

#[test]
fn from_pairs_takes_the_last_of_a_name_and_the_first_error() {
    let other = hash_password("two");
    let pair = |n: &str, h: &str| (n.to_string(), h.to_string());
    let store = InMemoryUserStore::from_pairs(vec![pair("bob", PHC), pair("bob", &other)]).unwrap();
    assert_eq!(store.password_hash("bob").unwrap(), Some(other));
    let err = InMemoryUserStore::from_pairs(vec![pair("bob", PHC), pair("", PHC), pair("x", "")])
        .unwrap_err();
    assert_eq!(err, StoreError::InvalidInput("empty username".to_string()));
}

#[test]
fn validation_takes_the_name_first() {
    assert_eq!(validate_upsert("alice", PHC), Ok(()));
    assert_eq!(
        validate_upsert("", "bad"),
        Err(StoreError::InvalidInput("empty username".to_string()))
    );
    assert_eq!(checked_hash(None), Ok(()));
    assert_eq!(
        checked_hash(Some("why".to_string())),
        Err(StoreError::InvalidInput("invalid phc: why".to_string()))
    );
}

#[test]
fn poisoned_lock_is_an_io_error() {
    assert_eq!(poisoned().message(), "store io error: lock poisoned");
}

#[test]
fn test_connect_invalid_url_returns_invalid_input() {
    let err = connect_options("not-a-url").unwrap_err();
    assert!(matches!(err, StoreError::InvalidInput(_)));
    assert_eq!(err.message(), "invalid input: invalid sqlite url: not-a-url");
}

#[test]
fn connect_settings_of_a_database() {
    let s = connect_options("sqlite:///tmp/users.db").unwrap();
    assert_eq!(s.url, "sqlite:///tmp/users.db");
    assert!(s.create_if_missing);
    assert_eq!(s.journal_mode, JournalMode::Wal);
}

#[test]
fn connect_refuses_parameters_that_are_unknown() {
    let err = connect_options("sqlite:users.db?colour=red").unwrap_err();
    assert!(matches!(&err, StoreError::InvalidInput(w) if w.starts_with("invalid sqlite url: ")
        && w.contains("colour")));
    assert_eq!(
        checked_url("sqlite:x", Some("why".to_string())),
        Err(StoreError::InvalidInput("invalid sqlite url: why".to_string()))
    );
}

fn pairs(list: &[(&str, &str)]) -> Vec<(String, String)> {
    list.iter().map(|(n, h)| (n.to_string(), h.to_string())).collect()
}

#[test]
fn configured_users_are_looked_at_in_order() {
    assert!(ConfiguredUsers::from_users(pairs(&[("alice", PHC), ("bob", PHC)])).is_ok());
    assert!(ConfiguredUsers::from_users(vec![]).is_ok());
    let err = ConfiguredUsers::from_users(pairs(&[("alice", PHC), ("", PHC)])).unwrap_err();
    assert_eq!(err, AuthError::EmptyUsername);
    let err = ConfiguredUsers::from_users(pairs(&[("alice", PHC), ("alice", PHC)])).unwrap_err();
    assert_eq!(err, AuthError::DuplicateUser("alice".to_string()));
    let err = ConfiguredUsers::from_users(pairs(&[("alice", "bad"), ("", PHC)])).unwrap_err();
    assert_eq!(err, AuthError::InvalidHash);
}
