//! Request-scoped trace identifiers.
use vstd::prelude::*;

verus! {

/// The trace identifier of one request.
#[derive(Clone, Debug)]
pub struct RequestId(pub String);

/// Whether `c` is a lowercase hexadecimal digit.
pub open spec fn is_lower_hex(c: char) -> bool {
    ('0' <= c && c <= '9') || ('a' <= c && c <= 'f')
}

/// Whether `s` is the hyphenated lowercase text of a version 7, RFC 4122
/// variant UUID: 36 characters, hyphens at 8, 13, 18 and 23, hexadecimal
/// digits elsewhere, version digit `7` and a variant digit of 8, 9, a or b.
pub open spec fn is_uuid_v7_text(s: Seq<char>) -> bool {
    &&& s.len() == 36
    &&& forall|i: int|
        0 <= i < 36 ==> if i == 8 || i == 13 || i == 18 || i == 23 {
            s[i] == '-'
        } else {
            is_lower_hex(#[trigger] s[i])
        }
    &&& s[14] == '7'
    &&& (s[19] == '8' || s[19] == '9' || s[19] == 'a' || s[19] == 'b')
}

/// `uuid::Uuid::now_v7()` rendered with `to_string`: a fresh time-ordered
/// UUID as hyphenated lowercase text. Which UUID comes back depends on the
/// clock and on random bits; only its shape is stated.
#[verifier::external_body]
pub(crate) fn fresh_uuid_v7_text() -> (s: String)
    ensures
        is_uuid_v7_text(s@),
{
    uuid::Uuid::now_v7().to_string()
}

/// Picks the trace identifier of a request: the inbound `x-request-id` value
/// when there is one that reads as text, otherwise a fresh UUID v7.
pub fn resolve_request_id(inbound: Option<String>) -> (id: RequestId)
    ensures
        match inbound {
            Some(v) => id.0@ == v@,
            None => is_uuid_v7_text(id.0@),
        },
{
    match inbound {
        Some(v) => RequestId(v),
        None => RequestId(fresh_uuid_v7_text()),
    }
}

} // verus!
