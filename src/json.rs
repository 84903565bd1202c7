//! Reading and writing the store document as JSON text.
use vstd::prelude::*;
use std::collections::BTreeMap;
use crate::document::{Environment, StoreDocument, DocumentModel, envs_map, envs_wf};
use crate::entries::pairs_map;
use crate::KVPair;

verus! {

/// The environments that `text` holds when it reads as a JSON object whose
/// members are objects of strings.
pub uninterp spec fn json_partitioned(text: Seq<char>) -> Option<
    Map<Seq<char>, Map<Seq<char>, Seq<char>>>,
>;

/// The pairs that `text` holds when it reads as a JSON object of strings.
pub uninterp spec fn json_flat(text: Seq<char>) -> Option<Map<Seq<char>, Seq<char>>>;

/// The indented JSON text of a mapping from environments to pairs.
pub uninterp spec fn json_pretty(m: Map<Seq<char>, Map<Seq<char>, Seq<char>>>) -> Seq<char>;

/// Relies on serde_json::from_str into a map of maps of strings: it succeeds
/// exactly on such JSON objects, and then yields their members.
#[verifier::external_body]
fn parse_partitioned(text: &str) -> (r: Option<Vec<Environment>>)
    ensures
        r is Some <==> json_partitioned(text@) is Some,
        r is Some ==> envs_map(r->0@) == json_partitioned(text@)->0,
{
    match serde_json::from_str::<BTreeMap<String, BTreeMap<String, String>>>(text) {
        Ok(m) => Some(
            m.into_iter().map(|(name, inner)| Environment { name, entries: inner.into_iter().collect() }).collect(),
        ),
        Err(_) => None,
    }
}

/// Relies on serde_json::from_str into a map of strings: it succeeds exactly
/// on such JSON objects, and then yields their members.
#[verifier::external_body]
fn parse_flat(text: &str) -> (r: Option<Vec<KVPair>>)
    ensures
        r is Some <==> json_flat(text@) is Some,
        r is Some ==> pairs_map(r->0@) == json_flat(text@)->0,
{
    match serde_json::from_str::<BTreeMap<String, String>>(text) {
        Ok(m) => Some(m.into_iter().collect()),
        Err(_) => None,
    }
}

/// Relies on serde_json::to_string_pretty on a map of maps of strings, which
/// cannot fail since every key is a string. Names and keys are unique, so the
/// maps built for it hold exactly the pairs of `envs`.
#[verifier::external_body]
pub(crate) fn render_pretty(envs: &Vec<Environment>) -> (r: String)
    requires
        envs_wf(envs@),
    ensures
        r@ == json_pretty(envs_map(envs@)),
{
    let m: BTreeMap<&str, BTreeMap<&str, &str>> = envs.iter().map(
        |e| (e.name.as_str(), e.entries.iter().map(|p| (p.0.as_str(), p.1.as_str())).collect()),
    ).collect();
    match serde_json::to_string_pretty(&m) {
        Ok(s) => s,
        Err(_) => String::new(),
    }
}

/// What a document text holds: the partitioned shape when every member is an
/// object of strings, else the legacy flat shape when every member is a
/// string, else nothing. An empty object reads as partitioned.
pub open spec fn parsed_document(text: Seq<char>) -> Option<DocumentModel> {
    if json_partitioned(text) is Some {
        Some(DocumentModel::Partitioned(json_partitioned(text)->0))
    } else if json_flat(text) is Some {
        Some(DocumentModel::Flat(json_flat(text)->0))
    } else {
        None
    }
}

/// Reads a store document in either of its shapes.
pub fn parse_document(text: &str) -> (r: Option<StoreDocument>)
    ensures
        match r {
            Some(d) => parsed_document(text@) == Some(d@),
            None => parsed_document(text@) is None,
        },
{
    match parse_partitioned(text) {
        Some(envs) => Some(StoreDocument::Partitioned(envs)),
        None => match parse_flat(text) {
            Some(pairs) => Some(StoreDocument::Flat(pairs)),
            None => None,
        },
    }
}

} // verus!
