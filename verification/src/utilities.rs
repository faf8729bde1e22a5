//! The cipher of the container and the resolution of the passphrase.

use crate::error::{StoreError, StoreErrorView};
use vstd::prelude::*;
use vstd::slice::*;
use vstd::string::*;

verus! {

#[verifier::external_type_specification]
#[verifier::external_body]
pub struct ExDecryptError(age::DecryptError);

#[verifier::external_type_specification]
#[verifier::external_body]
pub struct ExWriteError(std::io::Error);

/// The payload that the age file `container` carries for `passphrase`: what
/// decryption with that passphrase gives wherever it succeeds. `None` where
/// the bytes are no age file or the passphrase does not open it.
pub uninterp spec fn age_payload(container: Seq<u8>, passphrase: Seq<char>) -> Option<Seq<u8>>;

/// `age::Encryptor::with_user_passphrase`, `wrap_output` on a fresh
/// vector, `write_all` and `finish`. Salt and nonce are drawn anew for each
/// call, so the bytes differ from call to call. Of every outcome the
/// contract claims what the crate's format and documentation show: the file
/// begins with the format's header, so it is not empty, and it carries the
/// plaintext for the passphrase it was made with.
#[verifier::external_body]
fn age_encrypt(plaintext: &[u8], passphrase: &str) -> (r: Result<Vec<u8>, std::io::Error>)
    ensures
        r matches Ok(container) ==> container@.len() > 0 && age_payload(container@, passphrase@)
            == Some(plaintext@),
{
    let secret = age::secrecy::SecretString::from(passphrase.to_owned());
    let encryptor = age::Encryptor::with_user_passphrase(secret);
    let mut container = Vec::new();
    let mut writer = encryptor.wrap_output(&mut container)?;
    std::io::Write::write_all(&mut writer, plaintext)?;
    writer.finish()?;
    Ok(container)
}

/// `age::Decryptor::new_buffered`, `decrypt` with an
/// `age::scrypt::Identity` of the passphrase, and `read_to_end`. The crate
/// refuses work factors beyond a limit that it measures on the machine, so
/// the contract does not say when the call succeeds; where it does, the
/// result is the payload that the file carries for the passphrase.
#[verifier::external_body]
fn age_decrypt(container: &[u8], passphrase: &str) -> (r: Result<Vec<u8>, age::DecryptError>)
    ensures
        r matches Ok(payload) ==> age_payload(container@, passphrase@) == Some(payload@),
{
    let secret = age::secrecy::SecretString::from(passphrase.to_owned());
    let identity = age::scrypt::Identity::new(secret);
    let decryptor = age::Decryptor::new_buffered(container)?;
    let key: &dyn age::Identity = &identity;
    let mut reader = decryptor.decrypt(std::iter::once(key))?;
    let mut payload = Vec::new();
    std::io::Read::read_to_end(&mut reader, &mut payload)?;
    Ok(payload)
}

/// The payload that a container holds for a passphrase. The container of
/// no bytes holds the empty payload for every passphrase; every other
/// container is an age file.
pub open spec fn spec_payload(container: Seq<u8>, passphrase: Seq<char>) -> Option<Seq<u8>> {
    if container.len() == 0 {
        Some(Seq::empty())
    } else {
        age_payload(container, passphrase)
    }
}

/// A container that seals the payload under the passphrase: no bytes for
/// the empty payload, and for every other an age file that carries it.
pub open spec fn spec_sealed(container: Seq<u8>, passphrase: Seq<char>, payload: Seq<u8>) -> bool {
    if payload.len() == 0 {
        container.len() == 0
    } else {
        container.len() > 0 && age_payload(container, passphrase) == Some(payload)
    }
}

/// Seals a payload under a passphrase. The empty payload is sealed without
/// the cipher and cannot fail.
pub fn encrypt(plaintext: &[u8], passphrase: &str) -> (r: Result<Vec<u8>, StoreError>)
    ensures
        match r {
            Ok(container) => spec_sealed(container@, passphrase@, plaintext@),
            Err(e) => e@ == StoreErrorView::Encrypt && plaintext@.len() > 0,
        },
{
    if plaintext.len() == 0 {
        return Ok(Vec::new());
    }
    match age_encrypt(plaintext, passphrase) {
        Ok(container) => Ok(container),
        Err(_) => Err(StoreError::Encrypt),
    }
}

/// Opens a container with a passphrase. The container of no bytes opens
/// without the cipher, to the empty payload.
pub fn decrypt(encrypted: &[u8], passphrase: &str) -> (r: Result<Vec<u8>, StoreError>)
    ensures
        match r {
            Ok(payload) => spec_payload(encrypted@, passphrase@) == Some(payload@),
            Err(e) => e@ == StoreErrorView::Decrypt && encrypted@.len() > 0,
        },
{
    if encrypted.len() == 0 {
        return Ok(Vec::new());
    }
    match age_decrypt(encrypted, passphrase) {
        Ok(payload) => Ok(payload),
        Err(_) => Err(StoreError::Decrypt),
    }
}

/// White space, as Unicode defines it by the property `White_Space`.
pub open spec fn is_white_space(c: char) -> bool {
    let n = c as u32;
    ||| 0x09 <= n <= 0x0d
    ||| n == 0x20
    ||| n == 0x85
    ||| n == 0xa0
    ||| n == 0x1680
    ||| 0x2000 <= n <= 0x200a
    ||| n == 0x2028
    ||| n == 0x2029
    ||| n == 0x202f
    ||| n == 0x205f
    ||| n == 0x3000
}

pub fn white_space(c: char) -> (r: bool)
    ensures
        r == is_white_space(c),
{
    let n: u32 = c as u32;
    (0x09 <= n && n <= 0x0d) || n == 0x20 || n == 0x85 || n == 0xa0 || n == 0x1680 || (0x2000 <= n
        && n <= 0x200a) || n == 0x2028 || n == 0x2029 || n == 0x202f || n == 0x205f || n == 0x3000
}

/// A text without the white space at its beginning.
pub open spec fn spec_trim_start(text: Seq<char>) -> Seq<char>
    decreases text.len(),
{
    if text.len() > 0 && is_white_space(text[0]) {
        spec_trim_start(text.skip(1))
    } else {
        text
    }
}

/// A text without the white space at its end.
pub open spec fn spec_trim_end(text: Seq<char>) -> Seq<char>
    decreases text.len(),
{
    if text.len() > 0 && is_white_space(text.last()) {
        spec_trim_end(text.drop_last())
    } else {
        text
    }
}

/// A text without the white space around it.
pub open spec fn spec_trim(text: Seq<char>) -> Seq<char> {
    spec_trim_end(spec_trim_start(text))
}

proof fn lemma_trim_start(text: Seq<char>, n: int)
    requires
        0 <= n <= text.len(),
        forall|k: int| 0 <= k < n ==> is_white_space(text[k]),
        n < text.len() ==> !is_white_space(text[n]),
    ensures
        spec_trim_start(text) == text.skip(n),
    decreases n,
{
    if n > 0 {
        let rest = text.skip(1);
        assert forall|k: int| 0 <= k < n - 1 implies is_white_space(rest[k]) by {
            assert(rest[k] == text[k + 1]);
        }
        lemma_trim_start(rest, n - 1);
        assert(rest.skip(n - 1) =~= text.skip(n));
    } else {
        assert(text.skip(0) =~= text);
    }
}

proof fn lemma_trim_end(text: Seq<char>, n: int)
    requires
        0 <= n <= text.len(),
        forall|k: int| n <= k < text.len() ==> is_white_space(text[k]),
        n > 0 ==> !is_white_space(text[n - 1]),
    ensures
        spec_trim_end(text) == text.take(n),
    decreases text.len() - n,
{
    if n < text.len() {
        let rest = text.drop_last();
        lemma_trim_end(rest, n);
        assert(rest.take(n) =~= text.take(n));
    } else {
        assert(text.take(n) =~= text);
    }
}

/// What a line that was read from the terminal says: the line without the
/// white space around it, the line ending included.
pub fn read_stdin(line: &str) -> (r: String)
    ensures
        r@ == spec_trim(line@),
{
    let len = line.unicode_len();
    let mut first: usize = 0;
    let mut seen = false;
    let mut end: usize = 0;
    let mut at: usize = 0;
    for c in it: line.chars()
        invariant
            it.seq() == line@,
            len == line@.len(),
            at == it.index(),
            at <= len,
            !seen ==> forall|k: int| 0 <= k < at ==> is_white_space(line@[k]),
            seen ==> {
                &&& first < end <= at
                &&& !is_white_space(line@[first as int])
                &&& !is_white_space(line@[end - 1])
                &&& forall|k: int| 0 <= k < first ==> is_white_space(line@[k])
                &&& forall|k: int| end <= k < at ==> is_white_space(line@[k])
            },
    {
        if !white_space(c) {
            if !seen {
                first = at;
                seen = true;
            }
            end = at + 1;
        }
        at += 1;
    }
    if seen {
        let kept = line.substring_char(first, end).to_owned();
        proof {
            lemma_trim_start(line@, first as int);
            let tail = line@.skip(first as int);
            assert forall|k: int| end - first <= k < tail.len() implies is_white_space(
                tail[k],
            ) by {
                assert(tail[k] == line@[k + first]);
            }
            assert(tail[end - first - 1] == line@[end - 1]);
            lemma_trim_end(tail, end - first);
            assert(tail.take(end - first) =~= line@.subrange(first as int, end as int));
        }
        kept
    } else {
        proof {
            lemma_trim_start(line@, len as int);
            assert(line@.skip(len as int) =~= Seq::<char>::empty());
        }
        String::new()
    }
}

/// The name of the service under which the vault keeps the passphrase of
/// each user.
pub const KEYRING_APP_NAME: &'static str = "page";

/// What the vault says when it is asked for the passphrase.
pub enum VaultRead {
    /// The vault holds a passphrase.
    Found(String),
    /// The vault answered, and holds none.
    Missing,
    /// The vault could not be asked.
    Unreachable,
}

/// The mathematical value of a [`VaultRead`].
pub enum VaultReadView {
    Found(Seq<char>),
    Missing,
    Unreachable,
}

impl View for VaultRead {
    type V = VaultReadView;

    open spec fn view(&self) -> VaultReadView {
        match *self {
            VaultRead::Found(passphrase) => VaultReadView::Found(passphrase@),
            VaultRead::Missing => VaultReadView::Missing,
            VaultRead::Unreachable => VaultReadView::Unreachable,
        }
    }
}

/// A passphrase that was resolved, and what there is to report about it.
///
/// Neither this type nor the others that carry the passphrase can be
/// printed.
pub struct Resolved {
    pub passphrase: String,
    /// Set where the vault refused to keep the passphrase. The passphrase
    /// is good for the command all the same.
    pub warning: Option<StoreError>,
}

/// The mathematical value of a [`Resolved`].
pub struct ResolvedView {
    pub passphrase: Seq<char>,
    pub warning: Option<StoreErrorView>,
}

/// What the caller has to do next to resolve the passphrase.
pub enum Query {
    /// Ask the vault for the passphrase kept for the current user.
    ReadVault,
    /// Show the message and read a passphrase without echo.
    Prompt(String),
    /// Hand the passphrase to the vault for the current user.
    StoreInVault(String),
    /// The resolution is over.
    Done(Result<Resolved, StoreError>),
}

/// The mathematical value of a [`Query`].
pub enum QueryView {
    ReadVault,
    Prompt(Seq<char>),
    StoreInVault(Seq<char>),
    Done(Result<ResolvedView, StoreErrorView>),
}

impl View for Query {
    type V = QueryView;

    open spec fn view(&self) -> QueryView {
        match *self {
            Query::ReadVault => QueryView::ReadVault,
            Query::Prompt(message) => QueryView::Prompt(message@),
            Query::StoreInVault(passphrase) => QueryView::StoreInVault(passphrase@),
            Query::Done(outcome) => QueryView::Done(
                match outcome {
                    Ok(resolved) => Ok(
                        ResolvedView {
                            passphrase: resolved.passphrase@,
                            warning: match resolved.warning {
                                Some(e) => Some(e@),
                                None => None,
                            },
                        },
                    ),
                    Err(e) => Err(e@),
                },
            ),
        }
    }
}

/// The caller's answer to a [`Query`].
pub enum Reply {
    /// What the vault said.
    Vault(VaultRead),
    /// What the user typed, or `None` where input could not be read.
    Entered(Option<String>),
    /// Whether the vault kept the passphrase.
    Stored(bool),
}

/// The mathematical value of a [`Reply`].
pub enum ReplyView {
    Vault(VaultReadView),
    Entered(Option<Seq<char>>),
    Stored(bool),
}

impl View for Reply {
    type V = ReplyView;

    open spec fn view(&self) -> ReplyView {
        match *self {
            Reply::Vault(read) => ReplyView::Vault(read@),
            Reply::Entered(typed) => ReplyView::Entered(typed.deep_view()),
            Reply::Stored(kept) => ReplyView::Stored(kept),
        }
    }
}

/// How far the resolution of the passphrase has come.
pub enum Resolver {
    /// Waits for the vault's answer; holds the message for the prompt that
    /// follows a miss.
    Vault { prompt: String },
    /// Waits for the user; `store` says whether the vault is to keep what
    /// the user types.
    Prompt { store: bool },
    /// Waits to hear whether the vault kept the passphrase.
    Store { passphrase: String },
    /// Nothing is pending.
    Done,
}

/// The mathematical value of a [`Resolver`].
pub enum ResolverView {
    Vault { prompt: Seq<char> },
    Prompt { store: bool },
    Store { passphrase: Seq<char> },
    Done,
}

impl View for Resolver {
    type V = ResolverView;

    open spec fn view(&self) -> ResolverView {
        match *self {
            Resolver::Vault { prompt } => ResolverView::Vault { prompt: prompt@ },
            Resolver::Prompt { store } => ResolverView::Prompt { store },
            Resolver::Store { passphrase } => ResolverView::Store { passphrase: passphrase@ },
            Resolver::Done => ResolverView::Done,
        }
    }
}

/// The result of a resolution without anything to report.
pub open spec fn spec_resolved(passphrase: Seq<char>) -> QueryView {
    QueryView::Done(Ok(ResolvedView { passphrase, warning: None }))
}

impl ResolverView {
    /// The state that follows and what to do when `reply` answers the
    /// pending query.
    ///
    /// A passphrase that the vault holds is taken without a prompt. A miss
    /// leads to the prompt, and what the user types is handed to the vault;
    /// where the vault refuses it, the passphrase still stands and the
    /// refusal is reported with it. A vault that cannot be asked ends the
    /// resolution: it never falls back to another passphrase in silence.
    pub open spec fn answer(self, reply: ReplyView) -> (ResolverView, QueryView) {
        match (self, reply) {
            (ResolverView::Vault { prompt }, ReplyView::Vault(read)) => match read {
                VaultReadView::Found(passphrase) => (ResolverView::Done, spec_resolved(passphrase)),
                VaultReadView::Missing => (
                    ResolverView::Prompt { store: true },
                    QueryView::Prompt(prompt),
                ),
                VaultReadView::Unreachable => (
                    ResolverView::Done,
                    QueryView::Done(Err(StoreErrorView::Vault)),
                ),
            },
            (ResolverView::Prompt { store }, ReplyView::Entered(typed)) => match typed {
                None => (ResolverView::Done, QueryView::Done(Err(StoreErrorView::Prompt))),
                Some(passphrase) => if store {
                    (ResolverView::Store { passphrase }, QueryView::StoreInVault(passphrase))
                } else {
                    (ResolverView::Done, spec_resolved(passphrase))
                },
            },
            (ResolverView::Store { passphrase }, ReplyView::Stored(kept)) => (
                ResolverView::Done,
                QueryView::Done(
                    Ok(
                        ResolvedView {
                            passphrase,
                            warning: if kept {
                                None
                            } else {
                                Some(StoreErrorView::VaultWrite)
                            },
                        },
                    ),
                ),
            ),
            _ => (ResolverView::Done, QueryView::Done(Err(StoreErrorView::OutOfTurn))),
        }
    }
}

impl Resolver {
    /// Takes the answer to the pending query and says what to do next.
    pub fn answer(self, reply: Reply) -> (r: (Resolver, Query))
        ensures
            (r.0@, r.1@) == self@.answer(reply@),
    {
        match (self, reply) {
            (Resolver::Vault { prompt }, Reply::Vault(read)) => match read {
                VaultRead::Found(passphrase) => (
                    Resolver::Done,
                    Query::Done(Ok(Resolved { passphrase, warning: None })),
                ),
                VaultRead::Missing => (Resolver::Prompt { store: true }, Query::Prompt(prompt)),
                VaultRead::Unreachable => (Resolver::Done, Query::Done(Err(StoreError::Vault))),
            },
            (Resolver::Prompt { store }, Reply::Entered(typed)) => match typed {
                None => (Resolver::Done, Query::Done(Err(StoreError::Prompt))),
                Some(passphrase) => if store {
                    let kept = passphrase.clone();
                    (Resolver::Store { passphrase }, Query::StoreInVault(kept))
                } else {
                    (Resolver::Done, Query::Done(Ok(Resolved { passphrase, warning: None })))
                },
            },
            (Resolver::Store { passphrase }, Reply::Stored(kept)) => (
                Resolver::Done,
                Query::Done(
                    Ok(
                        Resolved {
                            passphrase,
                            warning: if kept {
                                None
                            } else {
                                Some(StoreError::VaultWrite)
                            },
                        },
                    ),
                ),
            ),
            _ => (Resolver::Done, Query::Done(Err(StoreError::OutOfTurn))),
        }
    }
}

/// Starts the resolution through the vault: the vault is asked first, and
/// `prompt` is the message for the prompt that follows a miss.
pub fn get_passphrase_keyring(prompt: &str) -> (r: (Resolver, Query))
    ensures
        r.0@ == (ResolverView::Vault { prompt: prompt@ }),
        r.1@ == QueryView::ReadVault,
{
    (Resolver::Vault { prompt: prompt.to_owned() }, Query::ReadVault)
}

/// Starts the resolution of the passphrase. With `no_keyring` the user is
/// asked and the vault is never touched; without it the resolution goes
/// through the vault.
pub fn get_passphrase(no_keyring: bool) -> (r: (Resolver, Query))
    ensures
        r.0@ == if no_keyring {
            ResolverView::Prompt { store: false }
        } else {
            ResolverView::Vault { prompt: "Enter passphrase: "@ }
        },
        r.1@ == if no_keyring {
            QueryView::Prompt("Enter passphrase: "@)
        } else {
            QueryView::ReadVault
        },
{
    if no_keyring {
        (Resolver::Prompt { store: false }, Query::Prompt(String::from_str("Enter passphrase: ")))
    } else {
        get_passphrase_keyring("Enter passphrase: ")
    }
}

} // verus!
