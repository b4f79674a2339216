//! Request correlation: the id every request carries and every response
//! echoes.

use vstd::prelude::*;
use crate::text::{all_space, trim_spec, trim_str};

verus! {

/// Relies on uuid's `Uuid::new_v4` and its hyphenated `Display` form: 36
/// characters. The value is random, so nothing more is promised.
#[verifier::external_body]
pub(crate) fn new_uuid_string() -> (r: String)
    ensures
        r@.len() == 36,
{
    uuid::Uuid::new_v4().to_string()
}

/// The result of parsing a UUID string: the canonical hyphenated form, or
/// nothing. A function of the characters alone.
pub uninterp spec fn uuid_parse(s: Seq<char>) -> Option<Seq<char>>;

/// Relies on uuid's `Uuid::parse_str` and its hyphenated `Display` form:
/// what parses depends on the characters alone; a parsed id renders back as
/// the 36-character canonical form.
#[verifier::external_body]
pub fn parse_uuid(s: &str) -> (r: Option<String>)
    ensures
        (r is Some) == (uuid_parse(s@) is Some),
        r matches Some(u) ==> uuid_parse(s@) == Some(u@) && u@.len() == 36,
{
    match uuid::Uuid::parse_str(s) {
        Ok(u) => Some(u.to_string()),
        Err(_) => None,
    }
}

/// Request identifier carried through the request lifecycle.
#[derive(Debug)]
pub struct RequestId(pub String);

impl RequestId {
    /// A freshly minted id: a random UUID, string-encoded.
    pub fn new() -> (r: RequestId)
        ensures
            r.0@.len() > 0,
    {
        RequestId(new_uuid_string())
    }

    /// The inbound `x-request-id` header value, trimmed; `None` when the
    /// header is blank.
    pub fn from_header(raw: &str) -> (r: Option<RequestId>)
        ensures
            all_space(raw@) ==> r is None,
            !all_space(raw@) ==> (r matches Some(id) && id.0@ == trim_spec(raw@)),
    {
        let t = trim_str(raw);
        proof {
            crate::text::lemma_trim_len(raw@);
        }
        if t.as_str().is_empty() {
            None
        } else {
            Some(RequestId(t))
        }
    }
}

impl Default for RequestId {
    /// A freshly minted id.
    fn default() -> (r: RequestId)
        ensures
            r.0@.len() > 0,
    {
        RequestId::new()
    }
}

/// Resolves the id a request runs under: the inbound `x-request-id` value
/// when one is present and not blank, echoed trimmed; else a fresh one,
/// never empty.
pub fn resolve_request_id(inbound: Option<&String>) -> (r: RequestId)
    ensures
        r.0@.len() > 0,
        inbound matches Some(h) ==> (all_space(h@) || r.0@ == trim_spec(h@)),
{
    match inbound {
        Some(h) => {
            proof {
                crate::text::lemma_trim_len(h@);
            }
            match RequestId::from_header(h.as_str()) {
                Some(id) => id,
                None => RequestId::new(),
            }
        },
        None => RequestId::new(),
    }
}

} // verus!
