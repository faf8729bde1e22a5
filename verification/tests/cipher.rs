use page::error::StoreError;
use page::utilities::{decrypt, encrypt};

#[test]
fn the_empty_payload_is_sealed_as_no_bytes() {
    assert_eq!(encrypt(b"", "master"), Ok(Vec::new()));
    assert_eq!(encrypt(b"", ""), Ok(Vec::new()));
}

#[test]
fn no_bytes_open_to_the_empty_payload_for_every_passphrase() {
    assert_eq!(decrypt(b"", "master"), Ok(Vec::new()));
    assert_eq!(decrypt(b"", "another"), Ok(Vec::new()));
    assert_eq!(decrypt(b"", ""), Ok(Vec::new()));
}

#[test]
fn a_payload_comes_back_under_its_passphrase() {
    let payload = b"[site]\npassword = \"p1\"\n";
    let container = encrypt(payload, "master").unwrap();
    assert!(!container.is_empty());
    assert_ne!(container.as_slice(), payload.as_slice());
    assert!(container.starts_with(b"age-encryption.org/v1\n"));
    assert_eq!(decrypt(&container, "master"), Ok(payload.to_vec()));
}

#[test]
fn another_passphrase_does_not_open_the_container() {
    let container = encrypt(b"secret payload", "master").unwrap();
    assert_eq!(decrypt(&container, "Master"), Err(StoreError::Decrypt));
}

#[test]
fn the_empty_passphrase_seals_and_opens() {
    let container = encrypt(b"x", "").unwrap();
    assert_eq!(decrypt(&container, ""), Ok(b"x".to_vec()));
}

#[test]
fn what_is_no_age_file_does_not_open() {
    assert_eq!(decrypt(b"not an age file", "master"), Err(StoreError::Decrypt));
    assert_eq!(decrypt(b"\0", "master"), Err(StoreError::Decrypt));
    assert_eq!(
        decrypt(b"age-encryption.org/v1\n", "master"),
        Err(StoreError::Decrypt)
    );
}

#[test]
fn a_damaged_container_does_not_open() {
    let mut container = encrypt(b"secret payload", "master").unwrap();
    let last = container.len() - 1;
    container[last] ^= 0x01;
    assert_eq!(decrypt(&container, "master"), Err(StoreError::Decrypt));
}

#[test]
fn a_cut_container_does_not_open() {
    let mut container = encrypt(b"secret payload", "master").unwrap();
    container.truncate(container.len() - 4);
    assert_eq!(decrypt(&container, "master"), Err(StoreError::Decrypt));
}

#[test]
fn a_payload_of_more_than_one_chunk_comes_back() {
    let payload: Vec<u8> = (0..70_000u32).map(|i| (i % 251) as u8).collect();
    let container = encrypt(&payload, "long").unwrap();
    assert!(container.len() > payload.len());
    assert_eq!(decrypt(&container, "long"), Ok(payload));
}
