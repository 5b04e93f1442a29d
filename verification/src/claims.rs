//! Extracting the subject claim from an unverified token.
//!
//! The token is decoded as a three-segment structure and its claims are read
//! without checking any signature: the trust decision belongs to the remote
//! authority, not to the token. Decoding is delegated to the `jwt` crate;
//! what it yields for a given token text is named by [`jwt_subject_of`], and
//! everything after the call is verified against that name.

use vstd::prelude::*;
use crate::identity::FromJwtSubject;
use crate::status::STATUS_BAD_REQUEST;

verus! {

/// What decoding a token yields: `None` when the bytes are not a well-formed
/// three-segment token, `Some(None)` when they are but carry no subject
/// claim, and `Some(Some(sub))` when a subject is present. A function of the
/// token bytes alone.
pub uninterp spec fn jwt_subject_of(token: Seq<u8>) -> Option<Option<Seq<char>>>;

pub open spec fn subject_view(r: Option<Option<String>>) -> Option<Option<Seq<char>>> {
    match r {
        None => None,
        Some(None) => Some(None),
        Some(Some(s)) => Some(Some(s@)),
    }
}

/// Relies on `jwt::Token::parse_unverified`: decoding a token's header and
/// claims, and so the subject claim found, is a function of the token text
/// alone; no key, clock, or environment takes part.
#[verifier::external_body]
fn parse_subject(token: &Vec<u8>) -> (r: Option<Option<String>>)
    ensures
        subject_view(r) == jwt_subject_of(token@),
{
    let text = match std::str::from_utf8(token) {
        Ok(t) => t,
        Err(_) => return None,
    };
    match jwt::Token::<jwt::Header, jwt::RegisteredClaims, _>::parse_unverified(text) {
        Ok(t) => Some(t.claims().subject.clone()),
        Err(_) => None,
    }
}

/// The status-or-identity result seen at the level of meanings.
pub open spec fn result_view<U: View>(r: Result<U, u16>) -> Result<U::V, u16> {
    match r {
        Ok(u) => Ok(u@),
        Err(e) => Err(e),
    }
}

/// The derivation stage on a decode result: a malformed token and a missing
/// subject both reject with `400`; a present subject goes to the identity
/// mapping, whose own verdict stands.
pub open spec fn spec_derive<U: FromJwtSubject>(parsed: Option<Option<Seq<char>>>) -> Result<
    U::V,
    u16,
> {
    match parsed {
        None => Err(STATUS_BAD_REQUEST),
        Some(None) => Err(STATUS_BAD_REQUEST),
        Some(Some(sub)) => if U::sub_accepted(sub) {
            Ok(U::identity_view_of(sub))
        } else {
            Err(U::sub_error(sub))
        },
    }
}

/// Turns a decode result into an identity or a rejection status.
pub fn identity_from_parse<U: FromJwtSubject>(parsed: Option<Option<String>>) -> (r: Result<
    U,
    u16,
>)
    ensures
        result_view(r) == spec_derive::<U>(subject_view(parsed)),
{
    match parsed {
        None => Err(STATUS_BAD_REQUEST),
        Some(None) => Err(STATUS_BAD_REQUEST),
        Some(Some(sub)) => U::from_jwt_sub(sub),
    }
}

/// Decodes the token and derives the identity, without verifying signatures.
pub fn derive_identity<U: FromJwtSubject>(token: &Vec<u8>) -> (r: Result<U, u16>)
    ensures
        result_view(r) == spec_derive::<U>(jwt_subject_of(token@)),
{
    let parsed = parse_subject(token);
    identity_from_parse(parsed)
}

} // verus!
