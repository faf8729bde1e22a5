use page::entries::{load_entries, save_entries, Entry, Storage};
use page::error::StoreError;
use page::utilities::encrypt;

fn entry(password: &str, username: Option<&str>, url: Option<&str>) -> Entry {
    Entry {
        password: password.to_string(),
        username: username.map(|u| u.to_string()),
        url: url.map(|u| u.to_string()),
    }
}

fn sample() -> Storage {
    let mut store = Storage::new();
    store.insert("site".to_string(), entry("p1", None, None));
    store.insert("bank".to_string(), entry("p2", Some("alice"), Some("https://bank.example")));
    store.insert("my mail".to_string(), entry("p\u{e4}ss", Some("bob"), None));
    store
}

#[test]
fn without_a_container_the_store_is_not_initialized() {
    assert_eq!(load_entries("master", None).unwrap_err(), StoreError::NotInitialized);
    assert_eq!(load_entries("", None).unwrap_err(), StoreError::NotInitialized);
}

#[test]
fn the_container_of_no_bytes_is_the_empty_store() {
    assert!(load_entries("master", Some(&[])).unwrap().is_empty());
    assert!(load_entries("any other", Some(&[])).unwrap().is_empty());
}

#[test]
fn the_empty_store_is_saved_as_no_bytes() {
    assert_eq!(save_entries("master", &Storage::new()), Ok(Vec::new()));
}

#[test]
fn a_saved_store_comes_back_under_its_passphrase() {
    let store = sample();
    let container = save_entries("master", &store).unwrap();
    assert!(!container.is_empty());
    let loaded = load_entries("master", Some(&container)).unwrap();
    assert_eq!(loaded.len(), 3);
    assert_eq!(loaded.get("site"), Some(&entry("p1", None, None)));
    assert_eq!(
        loaded.get("bank"),
        Some(&entry("p2", Some("alice"), Some("https://bank.example")))
    );
    assert_eq!(loaded.get("my mail"), Some(&entry("p\u{e4}ss", Some("bob"), None)));
}

#[test]
fn a_saved_store_does_not_come_back_under_another_passphrase() {
    let container = save_entries("master", &sample()).unwrap();
    assert_eq!(
        load_entries("master ", Some(&container)).unwrap_err(),
        StoreError::Decrypt
    );
}

#[test]
fn a_saved_store_does_not_show_its_secrets() {
    let container = save_entries("master", &sample()).unwrap();
    let needle = b"alice";
    assert!(!container.windows(needle.len()).any(|w| w == needle));
}

#[test]
fn a_container_that_holds_no_store_is_told_apart_from_one_that_does_not_open() {
    let container = encrypt(b"this is not toml", "master").unwrap();
    assert_eq!(
        load_entries("master", Some(&container)).unwrap_err(),
        StoreError::Deserialize
    );
    let container = encrypt(&[0xff, 0xfe], "master").unwrap();
    assert_eq!(
        load_entries("master", Some(&container)).unwrap_err(),
        StoreError::Deserialize
    );
    assert_eq!(
        load_entries("master", Some(b"garbage")).unwrap_err(),
        StoreError::Decrypt
    );
}
