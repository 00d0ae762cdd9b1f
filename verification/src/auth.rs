//! Shared-token authentication, compared in constant time.
use vstd::prelude::*;

verus! {

/// What a request carries in its `x-auth-token` header.
#[derive(Debug, Clone)]
pub enum TokenHeader {
    /// No such header.
    Absent,
    /// The header is present but its value is not visible ASCII text.
    Unreadable,
    /// The header's value as text.
    Text(String),
}

/// Why a request is refused.
#[derive(Debug, Clone, Copy, PartialEq, Eq, Structural)]
pub enum AuthRejection {
    /// No token was presented.
    MissingToken,
    /// The token is not readable text.
    InvalidEncoding,
    /// The token differs from the expected one.
    InvalidToken,
}

impl AuthRejection {
    pub open spec fn message_spec(self) -> Seq<char> {
        match self {
            AuthRejection::MissingToken => "missing auth token"@,
            AuthRejection::InvalidEncoding => "invalid token encoding"@,
            AuthRejection::InvalidToken => "invalid auth token"@,
        }
    }

    /// The message sent back with the refusal.
    pub fn message(&self) -> (s: String)
        ensures
            s@ == self.message_spec(),
    {
        match self {
            AuthRejection::MissingToken => String::from_str("missing auth token"),
            AuthRejection::InvalidEncoding => String::from_str("invalid token encoding"),
            AuthRejection::InvalidToken => String::from_str("invalid auth token"),
        }
    }
}

/// `subtle::ConstantTimeEq::ct_eq` on byte slices, read as a `bool`: whether
/// the two slices are equal (lengths differing gives `false` at once).
#[verifier::external_body]
fn ct_eq_bytes(a: &[u8], b: &[u8]) -> (r: bool)
    ensures
        r == (a@ == b@),
{
    bool::from(subtle::ConstantTimeEq::ct_eq(a, b))
}

/// Whether `presented` equals `expected`, compared byte by byte in constant time.
pub fn tokens_match(presented: &str, expected: &str) -> (r: bool)
    ensures
        r == (presented@ == expected@),
{
    let a = presented.as_bytes();
    let b = expected.as_bytes();
    proof {
        vstd::utf8::encode_utf8_decode_utf8(presented@);
        vstd::utf8::encode_utf8_decode_utf8(expected@);
    }
    ct_eq_bytes(a, b)
}

/// The decision on a gRPC request: `Ok` when the token equals `expected`.
pub open spec fn grpc_decision(header: TokenHeader, expected: Seq<char>) -> Result<(), AuthRejection> {
    match header {
        TokenHeader::Absent => Err(AuthRejection::MissingToken),
        TokenHeader::Unreadable => Err(AuthRejection::InvalidEncoding),
        TokenHeader::Text(t) => if t@ == expected {
            Ok(())
        } else {
            Err(AuthRejection::InvalidToken)
        },
    }
}

/// The decision on a REST request: a header that cannot be read as text
/// counts as no token at all.
pub open spec fn rest_decision(header: TokenHeader, expected: Seq<char>) -> Result<(), AuthRejection> {
    match header {
        TokenHeader::Absent => Err(AuthRejection::MissingToken),
        TokenHeader::Unreadable => Err(AuthRejection::MissingToken),
        TokenHeader::Text(t) => if t@ == expected {
            Ok(())
        } else {
            Err(AuthRejection::InvalidToken)
        },
    }
}

/// Checks the `x-auth-token` metadata of a gRPC request against the expected
/// token.
pub fn check_grpc_token(header: &TokenHeader, expected: &str) -> (r: Result<(), AuthRejection>)
    ensures
        r == grpc_decision(*header, expected@),
{
    match header {
        TokenHeader::Absent => Err(AuthRejection::MissingToken),
        TokenHeader::Unreadable => Err(AuthRejection::InvalidEncoding),
        TokenHeader::Text(t) => if tokens_match(t.as_str(), expected) {
            Ok(())
        } else {
            Err(AuthRejection::InvalidToken)
        },
    }
}

/// Checks the `x-auth-token` header of a REST request against the expected
/// token.
pub fn check_rest_token(header: &TokenHeader, expected: &str) -> (r: Result<(), AuthRejection>)
    ensures
        r == rest_decision(*header, expected@),
{
    match header {
        TokenHeader::Text(t) => if tokens_match(t.as_str(), expected) {
            Ok(())
        } else {
            Err(AuthRejection::InvalidToken)
        },
        _ => Err(AuthRejection::MissingToken),
    }
}

/// A request is let through exactly when it presents the expected token, on
/// either transport; the transports differ only in why they refuse.
pub proof fn law_accepts_only_expected_token(header: TokenHeader, expected: Seq<char>)
    ensures
        grpc_decision(header, expected) is Ok <==> (header matches TokenHeader::Text(t) && t@ == expected),
        rest_decision(header, expected) is Ok <==> (header matches TokenHeader::Text(t) && t@ == expected),
        grpc_decision(header, expected) is Ok <==> rest_decision(header, expected) is Ok,
{
}

} // verus!
