use page::error::StoreError;
use page::utilities::{get_passphrase, get_passphrase_keyring, Query, Reply, Resolver, VaultRead};

fn resolved(query: Query) -> (String, Option<StoreError>) {
    match query {
        Query::Done(Ok(resolved)) => (resolved.passphrase, resolved.warning),
        _ => panic!("not resolved"),
    }
}

fn failed(query: Query) -> StoreError {
    match query {
        Query::Done(Err(e)) => e,
        _ => panic!("not failed"),
    }
}

#[test]
fn without_the_vault_the_user_is_asked_and_the_vault_is_never_touched() {
    let (r, query) = get_passphrase(true);
    assert!(matches!(&query, Query::Prompt(message) if message == "Enter passphrase: "));
    let (r, query) = r.answer(Reply::Entered(Some("master".to_string())));
    assert_eq!(resolved(query), ("master".to_string(), None));
    assert!(matches!(r, Resolver::Done));
}

#[test]
fn a_passphrase_in_the_vault_is_taken_without_a_prompt() {
    let (r, query) = get_passphrase(false);
    assert!(matches!(query, Query::ReadVault));
    let (r, query) = r.answer(Reply::Vault(VaultRead::Found("kept".to_string())));
    assert_eq!(resolved(query), ("kept".to_string(), None));
    assert!(matches!(r, Resolver::Done));
}

#[test]
fn a_miss_in_the_vault_asks_the_user_and_stores_the_answer() {
    let (r, _) = get_passphrase(false);
    let (r, query) = r.answer(Reply::Vault(VaultRead::Missing));
    assert!(matches!(&query, Query::Prompt(message) if message == "Enter passphrase: "));
    let (r, query) = r.answer(Reply::Entered(Some("typed".to_string())));
    assert!(matches!(&query, Query::StoreInVault(passphrase) if passphrase == "typed"));
    let (r, query) = r.answer(Reply::Stored(true));
    assert_eq!(resolved(query), ("typed".to_string(), None));
    assert!(matches!(r, Resolver::Done));
}

#[test]
fn a_vault_that_refuses_to_store_is_reported_and_the_passphrase_stands() {
    let (r, _) = get_passphrase(false);
    let (r, _) = r.answer(Reply::Vault(VaultRead::Missing));
    let (r, _) = r.answer(Reply::Entered(Some("typed".to_string())));
    let (_, query) = r.answer(Reply::Stored(false));
    assert_eq!(resolved(query), ("typed".to_string(), Some(StoreError::VaultWrite)));
}

#[test]
fn a_vault_that_cannot_be_reached_ends_the_resolution() {
    let (r, _) = get_passphrase(false);
    let (r, query) = r.answer(Reply::Vault(VaultRead::Unreachable));
    assert_eq!(failed(query), StoreError::Vault);
    assert!(matches!(r, Resolver::Done));
}

#[test]
fn input_that_cannot_be_read_ends_the_resolution() {
    let (r, _) = get_passphrase(true);
    let (_, query) = r.answer(Reply::Entered(None));
    assert_eq!(failed(query), StoreError::Prompt);

    let (r, _) = get_passphrase(false);
    let (r, _) = r.answer(Reply::Vault(VaultRead::Missing));
    let (_, query) = r.answer(Reply::Entered(None));
    assert_eq!(failed(query), StoreError::Prompt);
}

#[test]
fn the_prompt_after_a_miss_shows_the_message_that_was_given() {
    let (r, query) = get_passphrase_keyring("Passphrase, please: ");
    assert!(matches!(query, Query::ReadVault));
    let (_, query) = r.answer(Reply::Vault(VaultRead::Missing));
    assert!(matches!(&query, Query::Prompt(message) if message == "Passphrase, please: "));
}

#[test]
fn a_reply_out_of_turn_ends_the_resolution() {
    let (r, _) = get_passphrase(true);
    let (r, query) = r.answer(Reply::Stored(true));
    assert_eq!(failed(query), StoreError::OutOfTurn);
    let (_, query) = r.answer(Reply::Entered(Some("late".to_string())));
    assert_eq!(failed(query), StoreError::OutOfTurn);

    let (r, _) = get_passphrase(false);
    let (_, query) = r.answer(Reply::Entered(Some("early".to_string())));
    assert_eq!(failed(query), StoreError::OutOfTurn);
}

#[test]
fn the_empty_passphrase_is_a_passphrase() {
    let (r, _) = get_passphrase(true);
    let (_, query) = r.answer(Reply::Entered(Some(String::new())));
    assert_eq!(resolved(query), (String::new(), None));
}
