//! The text inside the container: TOML, parsed and written by the `toml`
//! crate, and UTF-8, checked by the standard library.

use vstd::prelude::*;
use vstd::string::*;
use vstd::utf8::{decode_utf8, valid_utf8};

verus! {

/// A value inside a table of a parsed document, as far as the store reads
/// it: a string, or anything else.
#[derive(Debug)]
pub enum Field {
    Text(String),
    Other,
}

/// The mathematical value of a [`Field`].
pub enum FieldView {
    Text(Seq<char>),
    Other,
}

impl DeepView for Field {
    type V = FieldView;

    open spec fn deep_view(&self) -> FieldView {
        match *self {
            Field::Text(text) => FieldView::Text(text@),
            Field::Other => FieldView::Other,
        }
    }
}

/// A value at the top of a parsed document: a table with its keys in the
/// order of the parser, or anything else.
#[derive(Debug)]
pub enum Section {
    Record(Vec<(String, Field)>),
    Other,
}

/// The mathematical value of a [`Section`].
pub enum SectionView {
    Record(Seq<(Seq<char>, FieldView)>),
    Other,
}

impl DeepView for Section {
    type V = SectionView;

    open spec fn deep_view(&self) -> SectionView {
        match *self {
            Section::Record(fields) => SectionView::Record(fields.deep_view()),
            Section::Other => SectionView::Other,
        }
    }
}

#[verifier::external_type_specification]
#[verifier::external_body]
pub struct ExParseError(toml::de::Error);

#[verifier::external_type_specification]
#[verifier::external_body]
pub struct ExRenderError(toml::ser::Error);

/// The top-level keys of the TOML document `text` with their values, in the
/// order in which the `toml` crate hands them out; `None` where `text` is
/// no TOML document.
pub uninterp spec fn toml_document(text: Seq<char>) -> Option<Seq<(Seq<char>, SectionView)>>;

/// The TOML text that the `toml` crate writes for a document of one table
/// of strings for each name; `None` where it refuses to write one.
pub uninterp spec fn toml_text(records: Seq<(Seq<char>, Seq<(Seq<char>, Seq<char>)>)>) -> Option<
    Seq<char>,
>;

/// `toml::from_str` into a `toml::value::Table`, each value turned into
/// what the store reads of it. The result is the crate's parse of the
/// text and depends on nothing else; the contract gives it a name and
/// claims no more.
#[verifier::external_body]
pub(crate) fn parse_document(text: &str) -> (r: Result<Vec<(String, Section)>, toml::de::Error>)
    ensures
        match r {
            Ok(document) => toml_document(text@) == Some(document.deep_view()),
            Err(_) => toml_document(text@) is None,
        },
{
    let table: toml::value::Table = toml::from_str(text)?;
    let field = |value| match value {
        toml::Value::String(text) => Field::Text(text),
        _ => Field::Other,
    };
    let section = |value| match value {
        toml::Value::Table(record) => Section::Record(
            record.into_iter().map(|(key, value)| (key, field(value))).collect(),
        ),
        _ => Section::Other,
    };
    Ok(table.into_iter().map(|(key, value)| (key, section(value))).collect())
}

/// `toml::to_string` of the `toml::value::Table` that holds one table of
/// strings under each name. The result is the crate's text for these
/// records and depends on nothing else; the contract gives it a name and
/// claims no more.
#[verifier::external_body]
pub(crate) fn render_records(records: &Vec<(String, Vec<(String, String)>)>) -> (r: Result<
    String,
    toml::ser::Error,
>)
    ensures
        match r {
            Ok(text) => toml_text(records.deep_view()) == Some(text@),
            Err(_) => toml_text(records.deep_view()) is None,
        },
{
    let record = |fields: &Vec<(String, String)>| -> toml::value::Table {
        fields.iter().map(|(key, text)| (key.clone(), toml::Value::String(text.clone()))).collect()
    };
    let table: toml::value::Table = records.iter().map(
        |(name, fields)| (name.clone(), toml::Value::Table(record(fields))),
    ).collect();
    toml::to_string(&table)
}

/// `String::from_utf8` of the standard library: bytes that are valid UTF-8
/// become the text that they encode, and no others become a text.
#[verifier::external_body]
pub(crate) fn text_of(bytes: Vec<u8>) -> (r: Option<String>)
    ensures
        match r {
            Some(text) => valid_utf8(bytes@) && text@ == decode_utf8(bytes@),
            None => !valid_utf8(bytes@),
        },
{
    String::from_utf8(bytes).ok()
}

} // verus!
