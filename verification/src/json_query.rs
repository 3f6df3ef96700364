use vstd::prelude::*;

use serde_json::Value;
use serde_json_path::{JsonPath, ParseError};

verus! {

#[verifier::external_type_specification]
#[verifier::external_body]
pub struct ExJsonValue(Value);

#[verifier::external_type_specification]
#[verifier::external_body]
pub struct ExJsonPathParseError(ParseError);

/// What a JSON document holds, written out: the compact JSON text that
/// `serde_json`'s `Display` gives for the value. (Object keys are kept sorted,
/// as `serde_json::Map` is a `BTreeMap` here, so equal documents give equal texts.)
pub uninterp spec fn json_document_text(document: Value) -> Seq<char>;

/// Whether `serde_json_path` accepts `path` as a JSONPath query (RFC 9535).
pub uninterp spec fn json_path_parses(path: Seq<char>) -> bool;

/// The nodes that the JSONPath query `path` selects in the JSON document written
/// as `document`, in the order `serde_json_path` yields them, each written out
/// as compact JSON.
pub uninterp spec fn json_query(path: Seq<char>, document: Seq<char>) -> Seq<Seq<char>>;

/// `serde_json_path::JsonPath::parse` of `path`, then `JsonPath::query` on
/// `document`, each node found written out by `serde_json`'s `Display`. Parsing
/// fails exactly on the texts that the crate's RFC 9535 grammar refuses
/// (`json_path_parses`); the nodes are a function of the query and the document
/// (`json_query`).
#[verifier::external_body]
pub(crate) fn query_json_path(path: &str, document: &Value) -> (res: Result<Vec<String>, ParseError>)
    ensures
        res is Ok <==> json_path_parses(path@),
        res matches Ok(nodes) ==> nodes@.map_values(|s: String| s@) == json_query(
            path@,
            json_document_text(*document),
        ),
{
    match JsonPath::parse(path) {
        Ok(query) => Ok(query.query(document).all().into_iter().map(|node| node.to_string()).collect()),
        Err(e) => Err(e),
    }
}

} // verus!
