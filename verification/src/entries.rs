//! Entries, the store that holds them, and the store's way into the
//! container and out of it.

use crate::assoc::{
    distinct_names, lemma_map_of_at, lemma_map_of_dom, lemma_map_of_last, lemma_map_of_push,
    lemma_map_of_remove, map_of,
};
use crate::error::{StoreError, StoreErrorView};
use crate::text::{
    parse_document, render_records, text_of, toml_document, toml_text, Field, FieldView, Section,
    SectionView,
};
use crate::utilities::{decrypt, encrypt, spec_payload, spec_sealed};
use vstd::prelude::*;
use vstd::string::*;
use vstd::utf8::{decode_utf8, encode_utf8, valid_utf8};

verus! {

/// One stored credential.
#[derive(Debug, PartialEq, Eq)]
pub struct Entry {
    pub password: String,
    pub username: Option<String>,
    pub url: Option<String>,
}

/// The mathematical value of an [`Entry`].
pub struct EntryView {
    pub password: Seq<char>,
    pub username: Option<Seq<char>>,
    pub url: Option<Seq<char>>,
}

impl View for Entry {
    type V = EntryView;

    open spec fn view(&self) -> EntryView {
        EntryView {
            password: self.password@,
            username: self.username.deep_view(),
            url: self.url.deep_view(),
        }
    }
}

impl DeepView for Entry {
    type V = EntryView;

    open spec fn deep_view(&self) -> EntryView {
        self.view()
    }
}

impl Clone for Entry {
    fn clone(&self) -> (r: Self)
        ensures
            r == *self,
    {
        Entry {
            password: self.password.clone(),
            username: self.username.clone(),
            url: self.url.clone(),
        }
    }
}

/// The strings that are written for an entry: its password, and each of
/// the other two where it is set.
pub open spec fn spec_record(entry: EntryView) -> Seq<(Seq<char>, Seq<char>)> {
    seq![("password"@, entry.password)] + match entry.username {
        Some(username) => seq![("username"@, username)],
        None => Seq::empty(),
    } + match entry.url {
        Some(url) => seq![("url"@, url)],
        None => Seq::empty(),
    }
}

/// The records that are written for a sequence of named entries.
pub open spec fn spec_records(pairs: Seq<(Seq<char>, EntryView)>) -> Seq<
    (Seq<char>, Seq<(Seq<char>, Seq<char>)>),
> {
    pairs.map_values(|pair: (Seq<char>, EntryView)| (pair.0, spec_record(pair.1)))
}

/// What a table holds under a key, if the key is there.
pub open spec fn spec_lookup(fields: Seq<(Seq<char>, FieldView)>, key: Seq<char>) -> Option<
    FieldView,
> {
    if map_of(fields).dom().contains(key) {
        Some(map_of(fields)[key])
    } else {
        None
    }
}

/// The reading of an optional string: a key that is missing reads as
/// unset, a string as set, and anything else does not read at all.
pub open spec fn spec_optional(found: Option<FieldView>) -> Option<Option<Seq<char>>> {
    match found {
        None => Some(None),
        Some(FieldView::Text(text)) => Some(Some(text)),
        Some(FieldView::Other) => None,
    }
}

/// The entry that a table stands for, whatever the order of its keys: the
/// password has to be a string, the user name and the URL may be missing,
/// and keys that the store does not know are passed over.
pub open spec fn spec_entry(fields: Seq<(Seq<char>, FieldView)>) -> Option<EntryView> {
    match (
        spec_lookup(fields, "password"@),
        spec_optional(spec_lookup(fields, "username"@)),
        spec_optional(spec_lookup(fields, "url"@)),
    ) {
        (Some(FieldView::Text(password)), Some(username), Some(url)) => Some(
            EntryView { password, username, url },
        ),
        _ => None,
    }
}

/// The store that a document stands for: every top-level value has to be a
/// table that stands for an entry, under the entry's name.
pub open spec fn spec_decode(document: Seq<(Seq<char>, SectionView)>) -> Option<
    Map<Seq<char>, EntryView>,
>
    decreases document.len(),
{
    if document.len() == 0 {
        Some(Map::empty())
    } else {
        match (spec_decode(document.drop_last()), document.last().1) {
            (Some(entries), SectionView::Record(fields)) => match spec_entry(fields) {
                Some(entry) => Some(entries.insert(document.last().0, entry)),
                None => None,
            },
            _ => None,
        }
    }
}

/// The text of a store: the empty text for the empty store, and for every
/// other what the `toml` crate writes for its records.
pub open spec fn spec_serialize(pairs: Seq<(Seq<char>, EntryView)>) -> Option<Seq<char>> {
    if pairs.len() == 0 {
        Some(Seq::empty())
    } else {
        toml_text(spec_records(pairs))
    }
}

/// The store of a text: the empty store for the empty text, and for every
/// other what its TOML document stands for.
pub open spec fn spec_deserialize(text: Seq<char>) -> Option<Map<Seq<char>, EntryView>> {
    if text.len() == 0 {
        Some(Map::empty())
    } else {
        match toml_document(text) {
            Some(document) => spec_decode(document),
            None => None,
        }
    }
}

/// What a table holds under a key, if the key is there.
fn lookup<'a>(fields: &'a Vec<(String, Field)>, key: &str) -> (r: Option<&'a Field>)
    ensures
        r.deep_view() == spec_lookup(fields.deep_view(), key@),
{
    let wanted = key.to_owned();
    let ghost pairs = fields.deep_view();
    let mut i: usize = fields.len();
    while i > 0
        invariant
            i <= fields@.len(),
            wanted@ == key@,
            pairs == fields.deep_view(),
            forall|j: int| i <= j < pairs.len() ==> pairs[j].0 != key@,
        decreases i,
    {
        i -= 1;
        assert(pairs[i as int].0 == fields@[i as int].0@);
        if fields[i].0 == wanted {
            proof {
                lemma_map_of_last(pairs, i as int);
            }
            return Some(&fields[i].1);
        }
    }
    proof {
        lemma_map_of_dom(pairs, key@);
    }
    None
}

/// The reading of an optional string.
fn optional(found: Option<&Field>) -> (r: Option<Option<String>>)
    ensures
        r.deep_view() == spec_optional(found.deep_view()),
{
    match found {
        None => Some(None),
        Some(Field::Text(text)) => Some(Some(text.clone())),
        Some(Field::Other) => None,
    }
}

/// The entry that a table stands for.
pub fn entry_of(fields: &Vec<(String, Field)>) -> (r: Option<Entry>)
    ensures
        r.deep_view() == spec_entry(fields.deep_view()),
{
    let password = match lookup(fields, "password") {
        Some(Field::Text(password)) => password.clone(),
        _ => {
            return None;
        },
    };
    let username = match optional(lookup(fields, "username")) {
        Some(username) => username,
        None => {
            return None;
        },
    };
    let url = match optional(lookup(fields, "url")) {
        Some(url) => url,
        None => {
            return None;
        },
    };
    Some(Entry { password, username, url })
}

/// The strings that are written for an entry.
pub fn record_of(entry: &Entry) -> (r: Vec<(String, String)>)
    ensures
        r.deep_view() == spec_record(entry@),
{
    let mut fields: Vec<(String, String)> = Vec::new();
    fields.push((String::from_str("password"), entry.password.clone()));
    match &entry.username {
        Some(username) => {
            fields.push((String::from_str("username"), username.clone()));
        },
        None => {},
    }
    match &entry.url {
        Some(url) => {
            fields.push((String::from_str("url"), url.clone()));
        },
        None => {},
    }
    assert(fields.deep_view() =~= spec_record(entry@));
    fields
}

/// The collection of entries, each under its own name.
///
/// Names are case-sensitive and none occurs twice. The order in which the
/// entries are kept has no meaning.
#[derive(Debug)]
pub struct Storage {
    entries: Vec<(String, Entry)>,
}

impl View for Storage {
    type V = Map<Seq<char>, EntryView>;

    closed spec fn view(&self) -> Map<Seq<char>, EntryView> {
        map_of(self.pairs())
    }
}

impl Clone for Storage {
    fn clone(&self) -> (r: Self)
        ensures
            r@ == self@,
            r.pairs() == self.pairs(),
    {
        proof {
            use_type_invariant(self);
        }
        let mut entries: Vec<(String, Entry)> = Vec::new();
        let mut i: usize = 0;
        while i < self.entries.len()
            invariant
                i <= self.entries@.len(),
                entries@.len() == i,
                forall|j: int| 0 <= j < i ==> entries@[j] == self.entries@[j],
            decreases self.entries@.len() - i,
        {
            entries.push((self.entries[i].0.clone(), self.entries[i].1.clone()));
            i += 1;
        }
        assert(entries.deep_view() =~= self.entries.deep_view());
        Storage { entries }
    }
}

impl Storage {
    #[verifier::type_invariant]
    spec fn no_name_twice(self) -> bool {
        distinct_names(self.entries.deep_view())
    }

    /// The entries in the order in which they are kept.
    pub closed spec fn pairs(self) -> Seq<(Seq<char>, EntryView)> {
        self.entries.deep_view()
    }

    /// The names in the order in which `keys` hands them out.
    pub open spec fn names(self) -> Seq<Seq<char>> {
        self.pairs().map_values(|pair: (Seq<char>, EntryView)| pair.0)
    }

    /// The kept entries are the store.
    pub proof fn lemma_pairs(self)
        ensures
            map_of(self.pairs()) == self@,
    {
    }

    /// A store that keeps no entry is the empty store; one that keeps some
    /// is not.
    pub proof fn lemma_empty(self)
        ensures
            self.pairs().len() == 0 <==> self@ == Map::<Seq<char>, EntryView>::empty(),
    {
        if self.pairs().len() > 0 {
            assert(self@.dom().contains(self.pairs().last().0));
        }
    }

    /// An empty store.
    pub fn new() -> (r: Storage)
        ensures
            r@ == Map::<Seq<char>, EntryView>::empty(),
            r.names() == Seq::<Seq<char>>::empty(),
    {
        let r = Storage { entries: Vec::new() };
        assert(r.entries.deep_view() =~= Seq::empty());
        assert(r.names() =~= Seq::empty());
        r
    }

    /// The names are those of the map, each once.
    proof fn lemma_names(self)
        requires
            self.no_name_twice(),
        ensures
            self.names().no_duplicates(),
            self.names().to_set() == self@.dom(),
            self@.dom().finite(),
            self@.dom().len() == self.names().len(),
    {
        let pairs = self.entries.deep_view();
        assert forall|i: int, j: int|
            0 <= i < self.names().len() && 0 <= j < self.names().len() && i != j implies self.names()[i]
            != self.names()[j] by {
            if i < j {
                assert(pairs[i].0 != pairs[j].0);
            } else {
                assert(pairs[j].0 != pairs[i].0);
            }
        }
        assert(self.names().to_set() =~= self@.dom()) by {
            assert forall|k: Seq<char>| self.names().to_set().contains(k) <==> self@.dom().contains(
                k,
            ) by {
                lemma_map_of_dom(pairs, k);
                if self.names().to_set().contains(k) {
                    let i = choose|i: int| 0 <= i < self.names().len() && self.names()[i] == k;
                    assert(pairs[i].0 == k);
                }
                if self@.dom().contains(k) {
                    let i = choose|i: int| 0 <= i < pairs.len() && #[trigger] pairs[i].0 == k;
                    assert(self.names()[i] == k);
                }
            }
        }
        self.names().unique_seq_to_set();
    }

    /// Where the name stands, if it does.
    fn find(&self, name: &str) -> (r: Option<usize>)
        ensures
            match r {
                Some(i) => i < self.entries@.len() && self.entries@[i as int].0@ == name@,
                None => forall|j: int| 0 <= j < self.entries@.len() ==> self.entries@[j].0@ != name@,
            },
    {
        let key = name.to_owned();
        let mut i: usize = 0;
        while i < self.entries.len()
            invariant
                i <= self.entries@.len(),
                key@ == name@,
                forall|j: int| 0 <= j < i ==> self.entries@[j].0@ != name@,
            decreases self.entries@.len() - i,
        {
            if self.entries[i].0 == key {
                return Some(i);
            }
            i += 1;
        }
        None
    }

    /// How many entries the store holds.
    pub fn len(&self) -> (r: usize)
        ensures
            r == self@.dom().len(),
            r == self.names().len(),
    {
        proof {
            use_type_invariant(self);
            self.lemma_names();
        }
        self.entries.len()
    }

    /// Whether the store holds nothing.
    pub fn is_empty(&self) -> (r: bool)
        ensures
            r == (self@ == Map::<Seq<char>, EntryView>::empty()),
    {
        proof {
            use_type_invariant(self);
            self.lemma_names();
            if self@.dom().len() == 0 {
                assert(self@ =~= Map::<Seq<char>, EntryView>::empty());
            }
        }
        self.entries.len() == 0
    }

    /// Whether an entry of this name is stored.
    pub fn contains_key(&self, name: &str) -> (r: bool)
        ensures
            r == self@.dom().contains(name@),
    {
        proof {
            lemma_map_of_dom(self.entries.deep_view(), name@);
        }
        match self.find(name) {
            Some(i) => {
                assert(self.entries.deep_view()[i as int].0 == name@);
                true
            },
            None => {
                assert forall|j: int| 0 <= j < self.entries.deep_view().len() implies (
                #[trigger] self.entries.deep_view()[j]).0 != name@ by {
                    assert(self.entries@[j].0@ != name@);
                }
                false
            },
        }
    }

    /// The entry stored under this name.
    pub fn get(&self, name: &str) -> (r: Option<&Entry>)
        ensures
            match r {
                Some(entry) => self@.dom().contains(name@) && entry@ == self@[name@],
                None => !self@.dom().contains(name@),
            },
    {
        proof {
            use_type_invariant(self);
            lemma_map_of_dom(self.entries.deep_view(), name@);
        }
        match self.find(name) {
            Some(i) => {
                proof {
                    assert(self.entries.deep_view()[i as int].0 == name@);
                    lemma_map_of_at(self.entries.deep_view(), i as int);
                }
                Some(&self.entries[i].1)
            },
            None => {
                assert forall|j: int| 0 <= j < self.entries.deep_view().len() implies (
                #[trigger] self.entries.deep_view()[j]).0 != name@ by {
                    assert(self.entries@[j].0@ != name@);
                }
                None
            },
        }
    }

    /// Takes the entry of this name out of the store and hands it back.
    pub fn remove(&mut self, name: &str) -> (r: Option<Entry>)
        ensures
            final(self)@ == old(self)@.remove(name@),
            match r {
                Some(entry) => old(self)@.dom().contains(name@) && entry@ == old(self)@[name@],
                None => !old(self)@.dom().contains(name@),
            },
    {
        proof {
            use_type_invariant(&*self);
            lemma_map_of_dom(self.entries.deep_view(), name@);
        }
        match self.find(name) {
            Some(i) => {
                let ghost before = self.entries.deep_view();
                let mut entries = Vec::new();
                std::mem::swap(&mut entries, &mut self.entries);
                let pair = entries.remove(i);
                proof {
                    assert(before[i as int].0 == name@);
                    assert(entries.deep_view() =~= before.remove(i as int));
                    lemma_map_of_at(before, i as int);
                    lemma_map_of_remove(before, i as int);
                }
                self.entries = entries;
                Some(pair.1)
            },
            None => {
                assert forall|j: int| 0 <= j < self.entries.deep_view().len() implies (
                #[trigger] self.entries.deep_view()[j]).0 != name@ by {
                    assert(self.entries@[j].0@ != name@);
                }
                assert(self@ =~= self@.remove(name@));
                None
            },
        }
    }

    /// Stores the entry under the name and hands back what the name held
    /// before.
    pub fn insert(&mut self, name: String, entry: Entry) -> (r: Option<Entry>)
        ensures
            final(self)@ == old(self)@.insert(name@, entry@),
            match r {
                Some(before) => old(self)@.dom().contains(name@) && before@ == old(self)@[name@],
                None => !old(self)@.dom().contains(name@),
            },
    {
        let before = self.remove(name.as_str());
        proof {
            use_type_invariant(&*self);
            lemma_map_of_dom(self.entries.deep_view(), name@);
        }
        let ghost kept = self.entries.deep_view();
        let ghost pair = (name@, entry@);
        let mut entries = Vec::new();
        std::mem::swap(&mut entries, &mut self.entries);
        entries.push((name, entry));
        proof {
            assert(entries.deep_view() =~= kept.push(pair));
            lemma_map_of_push(kept, pair);
            assert forall|i: int, j: int| 0 <= i < j < entries.deep_view().len() implies entries.deep_view()[i].0
                != entries.deep_view()[j].0 by {
                if j < kept.len() {
                    assert(kept[i].0 != kept[j].0);
                } else {
                    assert(kept[i].0 != pair.0);
                }
            }
            assert(old(self)@.remove(pair.0).insert(pair.0, pair.1) =~= old(self)@.insert(
                pair.0,
                pair.1,
            ));
        }
        self.entries = entries;
        before
    }

    /// The names of all entries, each once.
    pub fn keys(&self) -> (r: Vec<String>)
        ensures
            r.deep_view() == self.names(),
            r.deep_view().no_duplicates(),
            r.deep_view().to_set() == self@.dom(),
    {
        proof {
            use_type_invariant(self);
            self.lemma_names();
        }
        let mut names: Vec<String> = Vec::new();
        let mut i: usize = 0;
        while i < self.entries.len()
            invariant
                i <= self.entries@.len(),
                names@.len() == i,
                forall|j: int| 0 <= j < i ==> names@[j]@ == self.entries@[j].0@,
            decreases self.entries@.len() - i,
        {
            names.push(self.entries[i].0.clone());
            i += 1;
        }
        assert(names.deep_view() =~= self.names());
        names
    }

    /// The records that are written for the store.
    pub fn to_records(&self) -> (r: Vec<(String, Vec<(String, String)>)>)
        ensures
            r.deep_view() == spec_records(self.pairs()),
    {
        let mut records: Vec<(String, Vec<(String, String)>)> = Vec::new();
        let mut i: usize = 0;
        while i < self.entries.len()
            invariant
                i <= self.entries@.len(),
                records@.len() == i,
                forall|j: int|
                    0 <= j < i ==> (#[trigger] records@[j]).deep_view() == (
                        self.entries@[j].0@,
                        spec_record(self.entries@[j].1@),
                    ),
            decreases self.entries@.len() - i,
        {
            records.push((self.entries[i].0.clone(), record_of(&self.entries[i].1)));
            i += 1;
        }
        assert(records.deep_view() =~= spec_records(self.pairs()));
        records
    }

    /// The store that a document stands for.
    pub fn from_document(document: &Vec<(String, Section)>) -> (r: Result<Storage, StoreError>)
        ensures
            match r {
                Ok(storage) => spec_decode(document.deep_view()) == Some(storage@),
                Err(e) => e@ == StoreErrorView::Deserialize && spec_decode(document.deep_view())
                    is None,
            },
    {
        let ghost sections = document.deep_view();
        let mut storage = Storage::new();
        let mut i: usize = 0;
        assert(sections.take(0) =~= Seq::empty());
        while i < document.len()
            invariant
                i <= document@.len(),
                sections == document.deep_view(),
                spec_decode(sections.take(i as int)) == Some(storage@),
            decreases document@.len() - i,
        {
            proof {
                assert(sections.take(i + 1).drop_last() =~= sections.take(i as int));
                assert(sections.take(i + 1).last() == sections[i as int]);
                if spec_decode(sections.take(i + 1)) is None {
                    lemma_decode_stops(sections, i + 1);
                }
            }
            let entry = match &document[i].1 {
                Section::Record(fields) => match entry_of(fields) {
                    Some(entry) => entry,
                    None => {
                        return Err(StoreError::Deserialize);
                    },
                },
                Section::Other => {
                    return Err(StoreError::Deserialize);
                },
            };
            storage.insert(document[i].0.clone(), entry);
            i += 1;
        }
        assert(sections.take(document@.len() as int) =~= sections);
        Ok(storage)
    }
}

/// A document whose beginning stands for no store stands for none.
proof fn lemma_decode_stops(document: Seq<(Seq<char>, SectionView)>, n: int)
    requires
        0 <= n <= document.len(),
        spec_decode(document.take(n)) is None,
    ensures
        spec_decode(document) is None,
    decreases document.len(),
{
    if n < document.len() {
        assert(document.drop_last().take(n) =~= document.take(n));
        lemma_decode_stops(document.drop_last(), n);
    } else {
        assert(document.take(n) =~= document);
    }
}

/// The text of a store.
pub fn serialize(storage: &Storage) -> (r: Result<String, StoreError>)
    ensures
        match r {
            Ok(text) => spec_serialize(storage.pairs()) == Some(text@),
            Err(e) => e@ == StoreErrorView::Serialize && spec_serialize(storage.pairs()) is None,
        },
{
    let records = storage.to_records();
    assert(records.deep_view().len() == records@.len());
    assert(spec_records(storage.pairs()).len() == storage.pairs().len());
    if records.len() == 0 {
        return Ok(String::new());
    }
    match render_records(&records) {
        Ok(text) => Ok(text),
        Err(_) => Err(StoreError::Serialize),
    }
}

/// The store of a text.
pub fn deserialize(text: &str) -> (r: Result<Storage, StoreError>)
    ensures
        match r {
            Ok(storage) => spec_deserialize(text@) == Some(storage@),
            Err(e) => e@ == StoreErrorView::Deserialize && spec_deserialize(text@) is None,
        },
{
    if text.is_empty() {
        return Ok(Storage::new());
    }
    match parse_document(text) {
        Ok(document) => Storage::from_document(&document),
        Err(_) => Err(StoreError::Deserialize),
    }
}

/// The store of a payload: the payload has to be UTF-8, and its text has
/// to stand for a store.
pub open spec fn spec_from_payload(payload: Seq<u8>) -> Result<
    Map<Seq<char>, EntryView>,
    StoreErrorView,
> {
    if !valid_utf8(payload) {
        Err(StoreErrorView::Deserialize)
    } else {
        match spec_deserialize(decode_utf8(payload)) {
            Some(entries) => Ok(entries),
            None => Err(StoreErrorView::Deserialize),
        }
    }
}

/// The value of a store that was opened or not.
pub open spec fn loaded_view(loaded: Result<Storage, StoreError>) -> Result<
    Map<Seq<char>, EntryView>,
    StoreErrorView,
> {
    match loaded {
        Ok(storage) => Ok(storage@),
        Err(e) => Err(e@),
    }
}

/// The store of a payload.
pub fn from_payload(payload: Vec<u8>) -> (r: Result<Storage, StoreError>)
    ensures
        loaded_view(r) == spec_from_payload(payload@),
{
    match text_of(payload) {
        Some(text) => deserialize(text.as_str()),
        None => Err(StoreError::Deserialize),
    }
}

/// The store that a container holds for a passphrase. `None` stands for
/// the container file that is not there.
pub open spec fn spec_load(container: Option<Seq<u8>>, passphrase: Seq<char>) -> Result<
    Map<Seq<char>, EntryView>,
    StoreErrorView,
> {
    match container {
        None => Err(StoreErrorView::NotInitialized),
        Some(bytes) => match spec_payload(bytes, passphrase) {
            Some(payload) => spec_from_payload(payload),
            None => Err(StoreErrorView::Decrypt),
        },
    }
}

/// The value of the bytes of a file that is there or not.
pub open spec fn container_view(container: Option<&[u8]>) -> Option<Seq<u8>> {
    match container {
        Some(bytes) => Some(bytes@),
        None => None,
    }
}

/// Opens the store. `container` holds the bytes of the container file, or
/// `None` where there is no such file.
///
/// Without a file the store was never initialized. A file of no bytes is
/// the empty store, whatever the passphrase. Every other file is an age
/// file: it has to open with the passphrase, and what it holds has to stand
/// for a store. The cipher may refuse any age file, so the one thing that
/// is not promised is that such a file opens.
pub fn load_entries(passphrase: &str, container: Option<&[u8]>) -> (r: Result<Storage, StoreError>)
    ensures
        loaded_view(r) == spec_load(container_view(container), passphrase@) || (container matches Some(
            bytes,
        ) && bytes@.len() > 0 && loaded_view(r) == Err::<Map<Seq<char>, EntryView>, _>(
            StoreErrorView::Decrypt,
        )),
{
    match container {
        None => Err(StoreError::NotInitialized),
        Some(bytes) => match decrypt(bytes, passphrase) {
            Ok(payload) => from_payload(payload),
            Err(e) => Err(e),
        },
    }
}

/// Seals the store under the passphrase and gives the bytes to write in
/// place of the container. The empty store becomes the container of no
/// bytes, and that cannot fail.
pub fn save_entries(passphrase: &str, storage: &Storage) -> (r: Result<Vec<u8>, StoreError>)
    ensures
        match r {
            Ok(container) => spec_serialize(storage.pairs()) matches Some(text) && spec_sealed(
                container@,
                passphrase@,
                encode_utf8(text),
            ),
            Err(e) => match spec_serialize(storage.pairs()) {
                Some(text) => e@ == StoreErrorView::Encrypt && text.len() > 0,
                None => e@ == StoreErrorView::Serialize,
            },
        },
        storage@ == Map::<Seq<char>, EntryView>::empty() ==> (r matches Ok(container)
            && container@.len() == 0),
{
    proof {
        storage.lemma_empty();
    }
    let text = match serialize(storage) {
        Ok(text) => text,
        Err(e) => {
            return Err(e);
        },
    };
    let payload = text.as_str().as_bytes_vec();
    proof {
        if text@.len() == 0 {
            assert(encode_utf8(text@).len() == 0);
        } else {
            assert(encode_utf8(text@).len() > 0);
        }
    }
    encrypt(payload.as_slice(), passphrase)
}

} // verus!
