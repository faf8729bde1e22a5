//! The errors of the store.

use crate::hooks::Hook;
use vstd::prelude::*;
use vstd::string::*;

verus! {

/// Everything that can end a command early.
///
/// No variant carries a passphrase or a stored secret, so a message never
/// shows one.
#[derive(Debug, PartialEq, Eq)]
pub enum StoreError {
    /// The storage directory holds no container file.
    NotInitialized,
    /// The store has no entry of this name.
    NotFound(String),
    /// The container did not open: wrong passphrase or damaged file.
    Decrypt,
    /// The container opened, but what it held is no entry collection.
    Deserialize,
    /// The entry collection could not be written as text.
    Serialize,
    /// The container could not be sealed.
    Encrypt,
    /// The vault could not be reached.
    Vault,
    /// The vault refused to keep the passphrase.
    VaultWrite,
    /// The vault refused to forget the passphrase.
    VaultDelete,
    /// Interactive input could not be read.
    Prompt,
    /// The hook ran and left with a status other than zero.
    HookFailed(Hook),
    /// The hook printed something that is not UTF-8.
    HookOutput(Hook),
    /// The filesystem, a subprocess or the clipboard failed; the text names
    /// the operation.
    Io(String),
    /// Neither the environment nor the platform names a storage directory.
    NoStorageDir,
    /// An answer arrived that the pending request did not ask for.
    OutOfTurn,
}

/// The mathematical value of a [`StoreError`].
pub enum StoreErrorView {
    NotInitialized,
    NotFound(Seq<char>),
    Decrypt,
    Deserialize,
    Serialize,
    Encrypt,
    Vault,
    VaultWrite,
    VaultDelete,
    Prompt,
    HookFailed(Hook),
    HookOutput(Hook),
    Io(Seq<char>),
    NoStorageDir,
    OutOfTurn,
}

impl StoreErrorView {
    /// The one line shown to the user for this error.
    pub open spec fn message(self) -> Seq<char> {
        match self {
            StoreErrorView::NotInitialized => "storage not initialized, run `page init`"@,
            StoreErrorView::NotFound(name) => "entry '"@ + name + "' not found"@,
            StoreErrorView::Decrypt => "failed to decrypt the entries file"@,
            StoreErrorView::Deserialize => "the entries file holds no entry collection"@,
            StoreErrorView::Serialize => "the entries could not be written as text"@,
            StoreErrorView::Encrypt => "failed to encrypt the entries file"@,
            StoreErrorView::Vault => "Failed to access password in keyring"@,
            StoreErrorView::VaultWrite => "Failed to store password in keyring"@,
            StoreErrorView::VaultDelete => "Failed to delete password from keyring"@,
            StoreErrorView::Prompt => "failed to read the input"@,
            StoreErrorView::HookFailed(hook) => hook.spec_name() + " hook failed"@,
            StoreErrorView::HookOutput(hook) => hook.spec_name() + " hook printed invalid UTF-8"@,
            StoreErrorView::Io(what) => what,
            StoreErrorView::NoStorageDir => "couldn't determine project storage folder"@,
            StoreErrorView::OutOfTurn => "an answer arrived out of turn"@,
        }
    }
}

impl View for StoreError {
    type V = StoreErrorView;

    open spec fn view(&self) -> StoreErrorView {
        match *self {
            StoreError::NotInitialized => StoreErrorView::NotInitialized,
            StoreError::NotFound(name) => StoreErrorView::NotFound(name@),
            StoreError::Decrypt => StoreErrorView::Decrypt,
            StoreError::Deserialize => StoreErrorView::Deserialize,
            StoreError::Serialize => StoreErrorView::Serialize,
            StoreError::Encrypt => StoreErrorView::Encrypt,
            StoreError::Vault => StoreErrorView::Vault,
            StoreError::VaultWrite => StoreErrorView::VaultWrite,
            StoreError::VaultDelete => StoreErrorView::VaultDelete,
            StoreError::Prompt => StoreErrorView::Prompt,
            StoreError::HookFailed(hook) => StoreErrorView::HookFailed(hook),
            StoreError::HookOutput(hook) => StoreErrorView::HookOutput(hook),
            StoreError::Io(what) => StoreErrorView::Io(what@),
            StoreError::NoStorageDir => StoreErrorView::NoStorageDir,
            StoreError::OutOfTurn => StoreErrorView::OutOfTurn,
        }
    }
}

/// The value of an outcome that carries nothing on success.
pub open spec fn outcome_view(outcome: Result<(), StoreError>) -> Result<(), StoreErrorView> {
    match outcome {
        Ok(()) => Ok(()),
        Err(e) => Err(e@),
    }
}

impl Clone for StoreError {
    fn clone(&self) -> (r: Self)
        ensures
            r == *self,
    {
        match self {
            StoreError::NotInitialized => StoreError::NotInitialized,
            StoreError::NotFound(name) => StoreError::NotFound(name.clone()),
            StoreError::Decrypt => StoreError::Decrypt,
            StoreError::Deserialize => StoreError::Deserialize,
            StoreError::Serialize => StoreError::Serialize,
            StoreError::Encrypt => StoreError::Encrypt,
            StoreError::Vault => StoreError::Vault,
            StoreError::VaultWrite => StoreError::VaultWrite,
            StoreError::VaultDelete => StoreError::VaultDelete,
            StoreError::Prompt => StoreError::Prompt,
            StoreError::HookFailed(hook) => StoreError::HookFailed(*hook),
            StoreError::HookOutput(hook) => StoreError::HookOutput(*hook),
            StoreError::Io(what) => StoreError::Io(what.clone()),
            StoreError::NoStorageDir => StoreError::NoStorageDir,
            StoreError::OutOfTurn => StoreError::OutOfTurn,
        }
    }
}

impl StoreError {
    /// The one line shown to the user for this error.
    pub fn message(&self) -> (r: String)
        ensures
            r@ == self@.message(),
    {
        match self {
            StoreError::NotInitialized => String::from_str("storage not initialized, run `page init`"),
            StoreError::NotFound(name) => {
                let mut text = String::from_str("entry '");
                text.append(name.as_str());
                text.append("' not found");
                text
            },
            StoreError::Decrypt => String::from_str("failed to decrypt the entries file"),
            StoreError::Deserialize => String::from_str("the entries file holds no entry collection"),
            StoreError::Serialize => String::from_str("the entries could not be written as text"),
            StoreError::Encrypt => String::from_str("failed to encrypt the entries file"),
            StoreError::Vault => String::from_str("Failed to access password in keyring"),
            StoreError::VaultWrite => String::from_str("Failed to store password in keyring"),
            StoreError::VaultDelete => String::from_str("Failed to delete password from keyring"),
            StoreError::Prompt => String::from_str("failed to read the input"),
            StoreError::HookFailed(hook) => {
                let mut text = hook.name();
                text.append(" hook failed");
                text
            },
            StoreError::HookOutput(hook) => {
                let mut text = hook.name();
                text.append(" hook printed invalid UTF-8");
                text
            },
            StoreError::Io(what) => what.clone(),
            StoreError::NoStorageDir => String::from_str("couldn't determine project storage folder"),
            StoreError::OutOfTurn => String::from_str("an answer arrived out of turn"),
        }
    }
}

} // verus!
