//! The read-only document request path: identifier parsing and the text of
//! each response. Lookup failures become descriptive text, never errors.

use vstd::prelude::*;
use vstd::string::StringExecFns;

verus! {

#[verifier::external_type_specification]
#[verifier::external_body]
pub struct ExDocumentId(samod::DocumentId);

/// Whether a text is a valid document identifier (base58 with checksum, or a
/// UUID), as samod decides it.
pub uninterp spec fn is_document_id(s: Seq<char>) -> bool;

/// Relies on `<samod::DocumentId as FromStr>::from_str`: whether the text
/// parses depends on the text alone. The error comes back as its debug text.
#[verifier::external_body]
fn parse_document_id(text: &str) -> (r: Result<samod::DocumentId, String>)
    ensures
        r is Ok <==> is_document_id(text@),
{
    match <samod::DocumentId as std::str::FromStr>::from_str(text) {
        Ok(id) => Ok(id),
        Err(e) => Err(format!("{:?}", e)),
    }
}

pub open spec fn usage_message() -> Seq<char> {
    "fetch documents with /doc/{id}"@
}

pub open spec fn not_found_message() -> Seq<char> {
    "Error retrieving document: Not found!"@
}

pub open spec fn stopped_message() -> Seq<char> {
    "Error retrieving document: Repo stopped!"@
}

pub open spec fn parse_failure_prefix() -> Seq<char> {
    "Error parsing document ID: "@
}

/// What the synchronization backend answered for a document.
pub enum Lookup {
    /// The document, already rendered as text.
    Found(String),
    NotFound,
    /// The backend has stopped.
    Stopped,
}

/// The usage text served at the root.
pub fn usage_text() -> (r: String)
    ensures
        r@ == usage_message(),
{
    String::from_str("fetch documents with /doc/{id}")
}

/// The response to a lookup: the rendering when found, a message otherwise.
pub fn lookup_response(outcome: Lookup) -> (r: String)
    ensures
        match outcome {
            Lookup::Found(text) => r@ == text@,
            Lookup::NotFound => r@ == not_found_message(),
            Lookup::Stopped => r@ == stopped_message(),
        },
{
    match outcome {
        Lookup::Found(text) => text,
        Lookup::NotFound => String::from_str("Error retrieving document: Not found!"),
        Lookup::Stopped => String::from_str("Error retrieving document: Repo stopped!"),
    }
}

/// The response to an identifier that does not parse, given the parser's
/// description of the problem.
pub fn parse_failure_response(detail: &str) -> (r: String)
    ensures
        r@ == parse_failure_prefix() + detail@,
{
    let r = String::from_str("Error parsing document ID: ");
    r.concat(detail)
}

/// Parses a document identifier; on failure, the response text to send back.
pub fn resolve_identifier(text: &str) -> (r: Result<samod::DocumentId, String>)
    ensures
        r is Ok <==> is_document_id(text@),
        r matches Err(msg) ==> msg@.len() >= parse_failure_prefix().len() && msg@.subrange(
            0,
            parse_failure_prefix().len() as int,
        ) == parse_failure_prefix(),
{
    match parse_document_id(text) {
        Ok(id) => Ok(id),
        Err(detail) => {
            let msg = parse_failure_response(detail.as_str());
            proof {
                assert(msg@.subrange(0, parse_failure_prefix().len() as int)
                    =~= parse_failure_prefix());
            }
            Err(msg)
        },
    }
}

} // verus!
