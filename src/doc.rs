//! A parsed configuration document: tables, arrays, strings and other scalars.

use vstd::prelude::*;

verus! {

/// TOML's value type, carried through the parser only.
#[verifier::external_type_specification]
#[verifier::external_body]
pub struct ExTomlValue(toml::Value);

/// A value of a parsed configuration document.
///
/// A table keeps its entries in the order in which they were read; a key is
/// looked up by its first entry.
#[derive(Debug)]
pub enum Doc {
    Table(Vec<(String, Doc)>),
    Array(Vec<Doc>),
    Str(String),
    /// Any other scalar (integer, float, boolean, date-time).
    Other,
}

/// The first value stored under `key` among `entries`.
pub open spec fn entry_lookup(entries: Seq<(String, Doc)>, key: Seq<char>) -> Option<Doc>
    decreases entries.len(),
{
    if entries.len() == 0 {
        None
    } else if entries[0].0@ == key {
        Some(entries[0].1)
    } else {
        entry_lookup(entries.drop_first(), key)
    }
}

/// The value stored under `key` in a table; `None` for a document that is not a table.
pub open spec fn lookup(doc: Doc, key: Seq<char>) -> Option<Doc> {
    match doc {
        Doc::Table(entries) => entry_lookup(entries@, key),
        _ => None,
    }
}

/// The text of a string value; empty for every other value.
pub open spec fn str_text(doc: Doc) -> Seq<char> {
    match doc {
        Doc::Str(s) => s@,
        _ => Seq::empty(),
    }
}

/// The text of a field that may be absent; empty where it is absent or not a string.
pub open spec fn field_text(field: Option<Doc>) -> Seq<char> {
    match field {
        Some(d) => str_text(d),
        None => Seq::empty(),
    }
}

/// Looks up `key` among the entries of a table.
pub fn entries_get<'a>(entries: &'a Vec<(String, Doc)>, key: &String) -> (r: Option<&'a Doc>)
    ensures
        match r {
            Some(d) => entry_lookup(entries@, key@) == Some(*d),
            None => entry_lookup(entries@, key@) is None,
        },
{
    let n = entries.len();
    let mut i: usize = 0;
    assert(entries@.subrange(0, n as int) =~= entries@);
    while i < n
        invariant
            n == entries@.len(),
            i <= n,
            entry_lookup(entries@, key@) == entry_lookup(entries@.subrange(i as int, n as int), key@),
        decreases n - i,
    {
        let entry = &entries[i];
        assert(entries@.subrange(i as int, n as int).drop_first() =~= entries@.subrange(
            i + 1,
            n as int,
        ));
        if entry.0.eq(key) {
            return Some(&entry.1);
        }
        i = i + 1;
    }
    assert(entries@.subrange(n as int, n as int).len() == 0);
    None
}

impl Doc {
    /// The value stored under `key`, where this document is a table that has it.
    pub fn get(&self, key: &String) -> (r: Option<&Doc>)
        ensures
            match r {
                Some(d) => lookup(*self, key@) == Some(*d),
                None => lookup(*self, key@) is None,
            },
    {
        match self {
            Doc::Table(entries) => entries_get(entries, key),
            _ => None,
        }
    }
}

/// Text that is not a well-formed TOML document.
#[derive(Clone, Copy, Debug, PartialEq, Eq)]
pub struct ParseError;

/// The document that TOML text parses to; `None` where the text is not TOML.
pub uninterp spec fn toml_document(text: Seq<char>) -> Option<Doc>;

/// Relies on `toml::Value`'s `FromStr` (`toml::from_str`): the parse of the
/// text, which depends on the text alone.
#[verifier::external_body]
fn parse_toml(text: &str) -> (r: Option<Doc>)
    ensures
        r == toml_document(text@),
{
    text.parse::<toml::Value>().ok().map(doc_of_toml)
}

/// Relies on the variants of `toml::Value`: strings, arrays and tables carried
/// over one for one, every other scalar as `Other`.
#[verifier::external_body]
fn doc_of_toml(value: toml::Value) -> Doc {
    match value {
        toml::Value::String(s) => Doc::Str(s),
        toml::Value::Array(a) => Doc::Array(a.into_iter().map(doc_of_toml).collect()),
        toml::Value::Table(t) => Doc::Table(t.into_iter().map(|(k, v)| (k, doc_of_toml(v))).collect()),
        _ => Doc::Other,
    }
}

/// Parses TOML text into a document.
pub fn parse_document(text: &str) -> (r: Result<Doc, ParseError>)
    ensures
        match r {
            Ok(d) => toml_document(text@) == Some(d),
            Err(_) => toml_document(text@) is None,
        },
{
    match parse_toml(text) {
        Some(d) => Ok(d),
        None => Err(ParseError),
    }
}

} // verus!
