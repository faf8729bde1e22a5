use page::cli::EntryAttribute;
use page::entries::{Entry, Storage};

fn entry(password: &str, username: Option<&str>, url: Option<&str>) -> Entry {
    Entry {
        password: password.to_string(),
        username: username.map(|u| u.to_string()),
        url: url.map(|u| u.to_string()),
    }
}

#[test]
fn a_new_store_is_empty() {
    let store = Storage::new();
    assert!(store.is_empty());
    assert_eq!(store.len(), 0);
    assert!(store.keys().is_empty());
    assert!(store.get("anything").is_none());
    assert!(!store.contains_key(""));
}

#[test]
fn insert_adds_and_get_finds() {
    let mut store = Storage::new();
    assert!(store.insert("site".to_string(), entry("p1", Some("bob"), None)).is_none());
    assert!(!store.is_empty());
    assert_eq!(store.len(), 1);
    assert!(store.contains_key("site"));
    assert_eq!(store.get("site"), Some(&entry("p1", Some("bob"), None)));
}

#[test]
fn insert_on_a_taken_name_replaces_and_hands_back_the_old_entry() {
    let mut store = Storage::new();
    store.insert("site".to_string(), entry("p1", None, None));
    let before = store.insert("site".to_string(), entry("p2", None, Some("u")));
    assert_eq!(before, Some(entry("p1", None, None)));
    assert_eq!(store.len(), 1);
    assert_eq!(store.get("site"), Some(&entry("p2", None, Some("u"))));
}

#[test]
fn names_are_case_sensitive() {
    let mut store = Storage::new();
    store.insert("Site".to_string(), entry("upper", None, None));
    store.insert("site".to_string(), entry("lower", None, None));
    assert_eq!(store.len(), 2);
    assert_eq!(store.get("Site").unwrap().password, "upper");
    assert_eq!(store.get("site").unwrap().password, "lower");
    assert!(store.get("SITE").is_none());
}

#[test]
fn remove_takes_the_entry_out_and_leaves_the_others() {
    let mut store = Storage::new();
    store.insert("a".to_string(), entry("1", None, None));
    store.insert("b".to_string(), entry("2", None, None));
    store.insert("c".to_string(), entry("3", None, None));
    assert_eq!(store.remove("b"), Some(entry("2", None, None)));
    assert_eq!(store.len(), 2);
    assert!(!store.contains_key("b"));
    assert_eq!(store.get("a").unwrap().password, "1");
    assert_eq!(store.get("c").unwrap().password, "3");
    assert_eq!(store.remove("b"), None);
    assert_eq!(store.len(), 2);
}

#[test]
fn keys_lists_each_name_once() {
    let mut store = Storage::new();
    store.insert("a".to_string(), entry("1", None, None));
    store.insert("b".to_string(), entry("2", None, None));
    store.insert("a".to_string(), entry("3", None, None));
    let mut keys = store.keys();
    keys.sort();
    assert_eq!(keys, vec!["a".to_string(), "b".to_string()]);
}

#[test]
fn the_empty_name_is_a_name_like_any_other() {
    let mut store = Storage::new();
    store.insert(String::new(), entry("x", None, None));
    assert!(store.contains_key(""));
    assert_eq!(store.len(), 1);
}

#[test]
fn a_clone_of_an_entry_is_equal_to_it() {
    let first = entry("p", Some("u"), Some("l"));
    assert_eq!(first.clone(), first);
}

#[test]
fn an_attribute_selects_its_field() {
    let full = entry("p", Some("u"), Some("l"));
    assert_eq!(EntryAttribute::Password.select(&full), Some("p".to_string()));
    assert_eq!(EntryAttribute::Username.select(&full), Some("u".to_string()));
    assert_eq!(EntryAttribute::Url.select(&full), Some("l".to_string()));
    let bare = entry("p", None, None);
    assert_eq!(EntryAttribute::Password.select(&bare), Some("p".to_string()));
    assert_eq!(EntryAttribute::Username.select(&bare), None);
    assert_eq!(EntryAttribute::Url.select(&bare), None);
}
