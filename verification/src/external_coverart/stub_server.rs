//! Canned HTTP answers for exercising the endpoint protocol.

use vstd::prelude::*;
use crate::text::owned;

verus! {

/// One canned answer: a status, a content type and a body.
#[derive(Debug, Clone)]
pub struct Canned {
    pub status: u16,
    pub content_type: String,
    pub body: Vec<u8>,
}

impl Canned {
    /// A JSON answer.
    pub fn json(status: u16, body: &str) -> (r: Canned)
        ensures
            r.status == status,
            r.content_type@ == "application/json"@,
            r.body@ == vstd::utf8::encode_utf8(body@),
    {
        Canned { status, content_type: owned("application/json"), body: body.as_bytes_vec() }
    }

    /// An answer that is not JSON -- image bytes, most of the time.
    pub fn bytes(status: u16, content_type: &str, body: Vec<u8>) -> (r: Canned)
        ensures
            r.status == status,
            r.content_type@ == content_type@,
            r.body == body,
    {
        Canned { status, content_type: owned(content_type), body }
    }
}

} // verus!
