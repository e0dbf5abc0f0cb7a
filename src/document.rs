//! The plaintext of the store: a TOML document with one table per entry.
use std::collections::BTreeMap;
use vstd::prelude::*;
use vstd::utf8::{decode_utf8, valid_utf8};
use crate::error::PassageError;
use crate::nesting::{nesting_bounded, toml_nesting_bounded};
use crate::store::{map_of_tables, Storage, TableView};

verus! {

#[verifier::external_type_specification]
#[verifier::external_body]
pub struct ExTomlSerError(toml::ser::Error);

#[verifier::external_type_specification]
#[verifier::external_body]
pub struct ExTomlDeError(toml::de::Error);

/// The TOML document that toml writes for a map of tables of strings.
pub uninterp spec fn toml_document_of(tables: Seq<TableView>) -> Seq<u8>;

/// The tables of strings that toml reads from a document, or `None` where
/// it rejects the document.
pub uninterp spec fn toml_tables_of(text: Seq<char>) -> Option<Seq<TableView>>;

/// Relies on toml::to_vec: writes the tables, each with its string fields,
/// as a TOML document. It fails only on a map with keys that are no strings
/// or on a type that TOML cannot hold; a map of maps of strings has neither.
#[verifier::external_body]
fn toml_encode(tables: &Vec<(String, Vec<(String, String)>)>) -> (r: Result<Vec<u8>, toml::ser::Error>)
    ensures
        r is Ok,
        r is Ok ==> r->Ok_0@ == toml_document_of(tables.deep_view()),
{
    let doc: BTreeMap<&String, BTreeMap<&String, &String>> = tables
        .iter()
        .map(|(name, fields)| (name, fields.iter().map(|(k, v)| (k, v)).collect()))
        .collect();
    toml::to_vec(&doc)
}

/// Relies on toml::from_str: reads a TOML document whose every top-level
/// value is a table of strings. Its parser recurses once per open array,
/// per open inline table and per segment of a dotted key, with no limit of
/// its own, so a deeply nested text overflows the stack; a text whose
/// nesting measure is bounded stays far from that. The measure follows the
/// tokenizer's strings and comments, and is exact up to the first token
/// that the tokenizer rejects, where parsing stops.
#[verifier::external_body]
fn toml_decode(text: &str) -> (r: Result<Vec<(String, Vec<(String, String)>)>, toml::de::Error>)
    requires
        nesting_bounded(text@),
    ensures
        match toml_tables_of(text@) {
            Some(t) => r is Ok && r->Ok_0.deep_view() == t,
            None => r is Err,
        },
{
    let doc: BTreeMap<String, BTreeMap<String, String>> = toml::from_str(text)?;
    Ok(doc.into_iter().map(|(name, fields)| (name, fields.into_iter().collect())).collect())
}

/// Relies on String::from_utf8: it accepts exactly the valid UTF-8 byte
/// sequences and returns the characters they encode.
#[verifier::external_body]
pub(crate) fn utf8_text(bytes: Vec<u8>) -> (r: Option<String>)
    ensures
        r is Some <==> valid_utf8(bytes@),
        r is Some ==> r->Some_0@ == decode_utf8(bytes@),
{
    String::from_utf8(bytes).ok()
}

/// The entries that a TOML text describes, if it describes any; a text too
/// deeply nested for the parser describes none.
pub open spec fn toml_entries(text: Seq<char>) -> Option<Map<Seq<char>, Seq<char>>> {
    if !nesting_bounded(text) {
        None
    } else {
        match toml_tables_of(text) {
            None => None,
            Some(t) => map_of_tables(t),
        }
    }
}

/// The entries that a decrypted payload describes, if it describes any.
pub open spec fn plaintext_entries(p: Seq<u8>) -> Option<Map<Seq<char>, Seq<char>>> {
    if valid_utf8(p) {
        toml_entries(decode_utf8(p))
    } else {
        None
    }
}

/// The store written as a TOML document.
pub fn storage_to_toml(storage: &Storage) -> (r: Result<Vec<u8>, PassageError>)
    ensures
        r is Ok && r->Ok_0@ == toml_document_of(storage.tables()),
{
    let tables = storage.to_tables();
    match toml_encode(&tables) {
        Ok(b) => Ok(b),
        Err(_) => Err(PassageError::EncodingFailed),
    }
}

/// The store that a TOML text describes.
pub fn storage_from_toml(text: &str) -> (r: Result<Storage, PassageError>)
    ensures
        match toml_entries(text@) {
            Some(m) => r is Ok && r->Ok_0.wf() && r->Ok_0@ == m,
            None => r is Err && r->Err_0 is CorruptStorage,
        },
{
    if !toml_nesting_bounded(text) {
        return Err(PassageError::CorruptStorage);
    }
    match toml_decode(text) {
        Ok(t) => match Storage::from_tables(t) {
            Some(s) => Ok(s),
            None => Err(PassageError::CorruptStorage),
        },
        Err(_) => Err(PassageError::CorruptStorage),
    }
}

/// The store that a decrypted payload describes.
pub fn storage_from_plaintext(plaintext: Vec<u8>) -> (r: Result<Storage, PassageError>)
    ensures
        match plaintext_entries(plaintext@) {
            Some(m) => r is Ok && r->Ok_0.wf() && r->Ok_0@ == m,
            None => r is Err && r->Err_0 is CorruptStorage,
        },
{
    match utf8_text(plaintext) {
        Some(text) => storage_from_toml(text.as_str()),
        None => Err(PassageError::CorruptStorage),
    }
}

} // verus!
