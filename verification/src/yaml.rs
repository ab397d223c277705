//! The YAML document that holds the mapping on disk.
//!
//! Encoding and decoding are the work of `serde_yaml`. Nothing here is proved
//! of them: each item below says what is taken on trust.

use std::collections::BTreeMap;
use vstd::prelude::*;
use crate::mapping::PortMapping;
use crate::model::identifier_chars;

verus! {

/// The most applications of a mapping that is handed to the encoder.
pub const MAX_APPLICATIONS: usize = 65535;

/// The most characters that the identifiers of a mapping that is handed to
/// the encoder hold in all: two to the power of 27.
pub const MAX_IDENTIFIER_CHARS: usize = 0x800_0000;

/// The mapping is one that the encoder is asked to write: it holds at most
/// `MAX_APPLICATIONS` identifiers, of at most `MAX_IDENTIFIER_CHARS`
/// characters in all.
///
/// The encoder takes the byte length of an identifier as a signed 32-bit
/// number and counts the lines and the columns of its output in such
/// numbers. A character has at most four bytes, is written in at most ten
/// columns and ends at most two lines, and an application takes at most
/// three lines besides. Within these limits each of those numbers stays
/// below two to the power of 31.
pub open spec fn writable(entries: Map<Seq<char>, u16>) -> bool {
    &&& entries.dom().finite()
    &&& entries.dom().len() <= MAX_APPLICATIONS
    &&& identifier_chars(entries) <= MAX_IDENTIFIER_CHARS
}

/// What `serde_yaml::to_string` answers for a map from identifiers to
/// ports: the document, or the text of its error.
pub uninterp spec fn yaml_document(entries: Map<Seq<char>, u16>) -> Result<Seq<char>, Seq<char>>;

/// What `serde_yaml::from_str` answers when it reads a document as a
/// `BTreeMap` from strings to `u16`: the identifier/port pairs, in the order
/// in which that map holds them, or the text of its error.
pub uninterp spec fn yaml_entries(document: Seq<char>) -> Result<
    Seq<(Seq<char>, u16)>,
    Seq<char>,
>;

/// Calls `serde_yaml::to_string` on the mapping's entries, held in a
/// `BTreeMap` as they are when they are decoded. An error is handed out as
/// its text.
///
/// Trusted: on a writable mapping the call returns, and its answer depends
/// on the entries alone, so it is `yaml_document` of them.
#[verifier::external_body]
pub(crate) fn encode(mapping: &PortMapping) -> (written: Result<String, String>)
    requires
        writable(mapping@),
    ensures
        match written {
            Ok(document) => yaml_document(mapping@) == Ok::<Seq<char>, Seq<char>>(document@),
            Err(complaint) => yaml_document(mapping@) == Err::<Seq<char>, Seq<char>>(complaint@),
        },
{
    let entries: BTreeMap<String, u16> = mapping.entries.iter().cloned().collect();
    serde_yaml::to_string(&entries).map_err(|error| format!("{}", error))
}

/// Calls `serde_yaml::from_str` to read a document as a `BTreeMap` from
/// strings to `u16`, and hands its pairs out in the map's order. An error is
/// handed out as its text.
///
/// Trusted: the answer depends on the document alone, so it is
/// `yaml_entries` of it.
#[verifier::external_body]
pub(crate) fn decode(document: &str) -> (read: Result<Vec<(String, u16)>, String>)
    ensures
        match read {
            Ok(pairs) => yaml_entries(document@) == Ok::<Seq<(Seq<char>, u16)>, Seq<char>>(
                pairs.deep_view(),
            ),
            Err(complaint) => yaml_entries(document@) == Err::<
                Seq<(Seq<char>, u16)>,
                Seq<char>,
            >(complaint@),
        },
{
    let read: Result<BTreeMap<String, u16>, serde_yaml::Error> = serde_yaml::from_str(document);
    match read {
        Ok(entries) => Ok(entries.into_iter().collect()),
        Err(error) => Err(format!("{}", error)),
    }
}

} // verus!
