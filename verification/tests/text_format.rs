use page::entries::{deserialize, entry_of, from_payload, record_of, serialize, Entry, Storage};
use page::error::StoreError;
use page::text::{Field, Section};

fn entry(password: &str, username: Option<&str>, url: Option<&str>) -> Entry {
    Entry {
        password: password.to_string(),
        username: username.map(|u| u.to_string()),
        url: url.map(|u| u.to_string()),
    }
}

fn text(s: &str) -> Field {
    Field::Text(s.to_string())
}

fn pair(a: &str, b: &str) -> (String, String) {
    (a.to_string(), b.to_string())
}

#[test]
fn a_record_holds_the_password_and_what_else_is_set() {
    assert_eq!(
        record_of(&entry("p", Some("u"), Some("l"))),
        vec![pair("password", "p"), pair("username", "u"), pair("url", "l")]
    );
    assert_eq!(record_of(&entry("p", None, None)), vec![pair("password", "p")]);
    assert_eq!(
        record_of(&entry("p", None, Some("l"))),
        vec![pair("password", "p"), pair("url", "l")]
    );
    assert_eq!(
        record_of(&entry("", Some(""), None)),
        vec![pair("password", ""), pair("username", "")]
    );
}

#[test]
fn a_table_is_read_in_any_order_of_its_keys() {
    let one = vec![
        ("password".to_string(), text("p")),
        ("username".to_string(), text("u")),
        ("url".to_string(), text("l")),
    ];
    let other = vec![
        ("url".to_string(), text("l")),
        ("password".to_string(), text("p")),
        ("username".to_string(), text("u")),
    ];
    assert_eq!(entry_of(&one), Some(entry("p", Some("u"), Some("l"))));
    assert_eq!(entry_of(&other), Some(entry("p", Some("u"), Some("l"))));
}

#[test]
fn a_table_without_a_password_string_is_no_entry() {
    assert_eq!(entry_of(&vec![]), None);
    assert_eq!(entry_of(&vec![("username".to_string(), text("u"))]), None);
    assert_eq!(entry_of(&vec![("password".to_string(), Field::Other)]), None);
}

#[test]
fn an_optional_key_that_is_no_string_spoils_the_entry() {
    assert_eq!(
        entry_of(&vec![
            ("password".to_string(), text("p")),
            ("username".to_string(), Field::Other),
        ]),
        None
    );
    assert_eq!(
        entry_of(&vec![
            ("password".to_string(), text("p")),
            ("url".to_string(), Field::Other),
        ]),
        None
    );
}

#[test]
fn keys_that_the_store_does_not_know_are_passed_over() {
    assert_eq!(
        entry_of(&vec![
            ("note".to_string(), Field::Other),
            ("password".to_string(), text("p")),
            ("Password".to_string(), text("not this one")),
        ]),
        Some(entry("p", None, None))
    );
}

#[test]
fn a_later_key_replaces_an_earlier_one() {
    assert_eq!(
        entry_of(&vec![
            ("password".to_string(), text("first")),
            ("password".to_string(), text("second")),
        ]),
        Some(entry("second", None, None))
    );
}

#[test]
fn a_document_of_records_is_a_store() {
    let document = vec![
        (
            "a".to_string(),
            Section::Record(vec![("password".to_string(), text("1"))]),
        ),
        (
            "b".to_string(),
            Section::Record(vec![
                ("password".to_string(), text("2")),
                ("url".to_string(), text("l")),
            ]),
        ),
    ];
    let store = Storage::from_document(&document).unwrap();
    assert_eq!(store.len(), 2);
    assert_eq!(store.get("a"), Some(&entry("1", None, None)));
    assert_eq!(store.get("b"), Some(&entry("2", None, Some("l"))));
}

#[test]
fn a_document_with_anything_but_records_is_no_store() {
    let document = vec![
        (
            "a".to_string(),
            Section::Record(vec![("password".to_string(), text("1"))]),
        ),
        ("b".to_string(), Section::Other),
    ];
    assert_eq!(Storage::from_document(&document).unwrap_err(), StoreError::Deserialize);
    let document = vec![("a".to_string(), Section::Record(vec![]))];
    assert_eq!(Storage::from_document(&document).unwrap_err(), StoreError::Deserialize);
}

#[test]
fn the_empty_document_is_the_empty_store() {
    assert!(Storage::from_document(&vec![]).unwrap().is_empty());
}

#[test]
fn the_empty_store_is_the_empty_text() {
    assert_eq!(serialize(&Storage::new()), Ok(String::new()));
    assert!(deserialize("").unwrap().is_empty());
}

#[test]
fn a_store_is_written_as_one_table_for_each_entry() {
    let mut store = Storage::new();
    store.insert("site".to_string(), entry("p1", Some("bob"), None));
    assert_eq!(
        serialize(&store).unwrap(),
        "[site]\npassword = \"p1\"\nusername = \"bob\"\n"
    );
}

#[test]
fn a_written_text_is_read_by_hand() {
    let written = "[site]\nurl = 'https://example.org'\npassword = \"p1\"\n\n[\"my bank\"]\npassword = \"p2\"\nusername = \"alice\"\n";
    let store = deserialize(written).unwrap();
    assert_eq!(store.len(), 2);
    assert_eq!(store.get("site"), Some(&entry("p1", None, Some("https://example.org"))));
    assert_eq!(store.get("my bank"), Some(&entry("p2", Some("alice"), None)));
}

#[test]
fn tables_may_be_written_inline() {
    let store = deserialize("site = { password = \"p1\", username = \"bob\" }\n").unwrap();
    assert_eq!(store.get("site"), Some(&entry("p1", Some("bob"), None)));
}

#[test]
fn only_comments_is_the_empty_store() {
    assert!(deserialize("# nothing here\n").unwrap().is_empty());
}

#[test]
fn what_is_no_toml_is_no_store() {
    assert_eq!(deserialize("[site\npassword").unwrap_err(), StoreError::Deserialize);
    assert_eq!(deserialize("this is not toml").unwrap_err(), StoreError::Deserialize);
    assert_eq!(
        deserialize("[a]\npassword = \"1\"\n[a]\npassword = \"2\"\n").unwrap_err(),
        StoreError::Deserialize
    );
}

#[test]
fn toml_of_another_shape_is_no_store() {
    assert_eq!(deserialize("site = \"p1\"\n").unwrap_err(), StoreError::Deserialize);
    assert_eq!(deserialize("[site]\nusername = \"bob\"\n").unwrap_err(), StoreError::Deserialize);
    assert_eq!(deserialize("[site]\npassword = 12\n").unwrap_err(), StoreError::Deserialize);
    assert_eq!(
        deserialize("[site]\npassword = \"p\"\nurl = true\n").unwrap_err(),
        StoreError::Deserialize
    );
    assert_eq!(deserialize("[[site]]\npassword = \"p\"\n").unwrap_err(), StoreError::Deserialize);
}

fn round_trip(store: &Storage) {
    let written = serialize(store).unwrap();
    let read = deserialize(&written).unwrap();
    assert_eq!(read.len(), store.len(), "in {:?}", written);
    for name in store.keys() {
        assert_eq!(read.get(&name), store.get(&name), "for {:?} in {:?}", name, written);
    }
}

#[test]
fn a_store_comes_back_from_its_text() {
    let mut store = Storage::new();
    store.insert("site".to_string(), entry("p1", None, None));
    store.insert("bank".to_string(), entry("p2", Some("alice"), Some("https://bank.example")));
    store.insert("mail".to_string(), entry("p3", None, Some("imap://mail.example")));
    round_trip(&store);
}

#[test]
fn names_and_secrets_of_any_kind_come_back_from_the_text() {
    let mut store = Storage::new();
    store.insert("with space".to_string(), entry("pass word", None, None));
    store.insert("dotted.name".to_string(), entry("a.b", None, None));
    store.insert("Group/title_A".to_string(), entry("sl/ash", None, None));
    store.insert("quote\"d".to_string(), entry("\"quoted\"", Some("it's"), None));
    store.insert("back\\slash".to_string(), entry("\\n is no newline", None, None));
    store.insert("uml\u{e4}ut".to_string(), entry("\u{1f511}\u{2713}", None, None));
    store.insert("multi".to_string(), entry("line one\nline two\n", None, Some("tab\there")));
    store.insert("blank".to_string(), entry("", Some(""), Some("")));
    store.insert("[brackets]".to_string(), entry("# no comment", None, None));
    store.insert("quotes".to_string(), entry("'''", Some("\"\"\""), Some("''")));
    store.insert("control".to_string(), entry("\u{1}\u{7f}\r", None, None));
    round_trip(&store);
}

#[test]
fn a_payload_has_to_be_utf8() {
    assert_eq!(from_payload(vec![0xff, 0xfe, 0x00]).unwrap_err(), StoreError::Deserialize);
    assert_eq!(from_payload(vec![0xc3]).unwrap_err(), StoreError::Deserialize);
    let store = from_payload("[s]\npassword = \"\u{e9}\"\n".as_bytes().to_vec()).unwrap();
    assert_eq!(store.get("s").unwrap().password, "\u{e9}");
    assert!(from_payload(Vec::new()).unwrap().is_empty());
}

#[test]
fn odd_names_and_odd_secrets_come_back_from_the_text() {
    let odd = [
        "", "\0", "\u{85}", "\u{2028}", "a\r\nb", "'''\n", "\n", "\r", "''''", "\"\"\"\"\n\"",
        "\\", "\\\n", " ", "\t", "\u{7f}", "\u{1b}[0m", "a'b\nc", "'\n'", "\n'''", "''\n'",
        "x\u{0}y\n", "\u{feff}", "\u{10ffff}",
    ];
    for s in odd {
        let mut named = Storage::new();
        named.insert(s.to_string(), entry("x", None, None));
        round_trip(&named);

        let mut holding = Storage::new();
        holding.insert("n".to_string(), entry(s, Some(s), Some(s)));
        round_trip(&holding);
    }
}
