//! The remote manifest: reading the list of expected files out of a reply.

use crate::endpoint::{is_success, is_success_status};
use crate::json::{from_slice, json_of, json_parsed, member, Json};
use crate::text::{lemma_texts_push, texts};
use vstd::prelude::*;

verus! {

/// The field of the manifest that holds the list of file names.
pub const LIST_FIELD: &'static str = "mods";

/// Why no manifest was obtained.
#[derive(Clone, Copy, Debug, PartialEq, Eq, Structural)]
pub enum FetchError {
    /// The request failed, or the service answered with a status other than success.
    Network,
    /// The body is not JSON, or it is not an object with a list under `mods`.
    Decode,
}

/// What came back from the one request for the manifest.
#[derive(Debug)]
pub enum Reply {
    /// The request failed before a complete answer arrived.
    Unreachable,
    /// The service answered.
    Answer {
        /// The status of the response.
        status: u16,
        /// The body of the response.
        body: Vec<u8>,
    },
}

/// The text of a list element that is a string.
pub open spec fn text_of(item: Json) -> Option<Seq<char>> {
    match item {
        Json::Text(text) => Some(text),
        _ => None,
    }
}

/// The strings among the elements of a list, in order; the other elements are left out.
pub open spec fn listed_names(items: Seq<Json>) -> Seq<Seq<char>> {
    items.filter_map(|item: Json| text_of(item))
}

/// The manifest that a JSON document holds: the strings of the list under
/// `mods`. A document that is not an object, has no such field, or holds
/// something other than a list there, is no manifest.
pub open spec fn manifest_of(document: Json) -> Result<Seq<Seq<char>>, FetchError> {
    match document {
        Json::Object(fields) => if fields.contains_key(LIST_FIELD@) {
            match fields[LIST_FIELD@] {
                Json::List(items) => Ok(listed_names(items)),
                _ => Err(FetchError::Decode),
            }
        } else {
            Err(FetchError::Decode)
        },
        _ => Err(FetchError::Decode),
    }
}

/// The manifest that a response body holds.
pub open spec fn manifest_in(body: Seq<u8>) -> Result<Seq<Seq<char>>, FetchError> {
    match json_parsed(body) {
        Some(document) => manifest_of(document),
        None => Err(FetchError::Decode),
    }
}

/// The manifest that a reply yields.
pub open spec fn manifest_from(reply: Reply) -> Result<Seq<Seq<char>>, FetchError> {
    match reply {
        Reply::Unreachable => Err(FetchError::Network),
        Reply::Answer { status, body } => if is_success_status(status) {
            manifest_in(body@)
        } else {
            Err(FetchError::Network)
        },
    }
}

/// Whether `found` is what `expected` says: the same names, or the same error.
pub open spec fn agrees(
    found: Result<Vec<String>, FetchError>,
    expected: Result<Seq<Seq<char>>, FetchError>,
) -> bool {
    match found {
        Ok(names) => expected == Ok::<Seq<Seq<char>>, FetchError>(texts(names@)),
        Err(error) => expected == Err::<Seq<Seq<char>>, FetchError>(error),
    }
}

/// Reads the manifest out of a JSON document.
pub fn manifest_entries(document: &serde_json::Value) -> (manifest: Result<Vec<String>, FetchError>)
    ensures
        agrees(manifest, manifest_of(json_of(*document))),
{
    let list = match member(document, LIST_FIELD) {
        Some(list) => list,
        None => {
            return Err(FetchError::Decode);
        },
    };
    let items = match list.as_array() {
        Some(items) => items,
        None => {
            return Err(FetchError::Decode);
        },
    };
    let ghost held = items@.map_values(|item: serde_json::Value| json_of(item));
    let mut names: Vec<String> = Vec::new();
    let mut i: usize = 0;
    assert(texts(names@) =~= listed_names(held.take(0)));
    while i < items.len()
        invariant
            held == items@.map_values(|item: serde_json::Value| json_of(item)),
            i <= items@.len(),
            texts(names@) == listed_names(held.take(i as int)),
        decreases items@.len() - i,
    {
        proof {
            held.lemma_filter_map_take_succ(|item: Json| text_of(item), i as int);
        }
        match items[i].as_str() {
            Some(text) => {
                let name = text.to_owned();
                proof {
                    lemma_texts_push(names@, name);
                }
                names.push(name);
            },
            None => {},
        }
        i += 1;
    }
    assert(held.take(i as int) =~= held);
    Ok(names)
}

/// Reads the manifest out of a response body.
pub fn decode_manifest(body: &[u8]) -> (manifest: Result<Vec<String>, FetchError>)
    ensures
        agrees(manifest, manifest_in(body@)),
{
    match from_slice(body) {
        Ok(document) => manifest_entries(&document),
        Err(_) => Err(FetchError::Decode),
    }
}

/// Reads the manifest out of the reply to the one request for it.
///
/// A request that failed, or an answer with a status other than success, is a
/// network error. A successful answer is decoded; a body that holds no
/// manifest is a decode error.
pub fn read_manifest(reply: &Reply) -> (manifest: Result<Vec<String>, FetchError>)
    ensures
        agrees(manifest, manifest_from(*reply)),
{
    match reply {
        Reply::Unreachable => Err(FetchError::Network),
        Reply::Answer { status, body } => {
            if is_success(*status) {
                decode_manifest(body.as_slice())
            } else {
                Err(FetchError::Network)
            }
        },
    }
}

} // verus!
