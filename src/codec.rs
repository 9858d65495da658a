//! Signing claim sets into tokens and reading them back.
use vstd::prelude::*;

use jsonwebtoken::errors::ErrorKind;
use jsonwebtoken::{Algorithm, DecodingKey, EncodingKey, Header, Validation};
use serde_json::value::RawValue;

use crate::claims::{check_window, result_view, Claims, ClaimsView};
use crate::error::DecodeError;
use crate::json::{claims_json, claims_text, parse_claims, parse_claims_json};

verus! {

/// The token that jsonwebtoken's `encode` makes of a payload text under a secret.
pub uninterp spec fn signed_token(payload: Seq<char>, secret: Seq<u8>) -> Seq<char>;

/// The payload text that jsonwebtoken's `decode` reads out of a token under a
/// secret; `None` where it rejects the token.
pub uninterp spec fn verified_payload(token: Seq<char>, secret: Seq<u8>) -> Option<Seq<char>>;

/// Relies on jsonwebtoken::encode, with the default HS256 header and an HMAC key
/// made from `secret`; the payload goes in verbatim as a raw JSON value. It fails
/// only where the payload is not JSON, which no claims text is. The token joins
/// three parts with '.', and `decode` under the same secret hands a claims text
/// back verbatim.
#[verifier::external_body]
fn jwt_encode(payload: &str, secret: &[u8]) -> (r: Option<String>)
    ensures
        r matches Some(t) ==> t@ == signed_token(payload@, secret@),
        r matches Some(t) ==> t@.len() > 0,
        forall|c: ClaimsView| payload@ == #[trigger] claims_text(c) ==> r is Some && verified_payload(r->0@, secret@) == Some(payload@),
{
    let raw = RawValue::from_string(payload.to_string()).ok()?;
    jsonwebtoken::encode(&Header::default(), &raw, &EncodingKey::from_secret(secret)).ok()
}

/// Relies on jsonwebtoken::decode, with HS256 as the only algorithm and its own
/// time checks switched off: the payload text verbatim when the signature checks
/// out under `secret`. A token that `jwt_encode` made of a claims text under the
/// same secret gives that text back.
#[verifier::external_body]
fn jwt_decode(token: &str, secret: &[u8]) -> (r: Result<String, DecodeError>)
    ensures
        r matches Ok(p) ==> verified_payload(token@, secret@) == Some(p@),
        r is Err ==> verified_payload(token@, secret@) is None,
        r matches Err(e) ==> e == DecodeError::InvalidSignature || e == DecodeError::Malformed,
        r is Ok ==> token@.len() > 0,
        forall|c: ClaimsView| #[trigger] signed_token(claims_text(c), secret@) == token@ ==> r is Ok && r->Ok_0@ == claims_text(c),
{
    let mut v = Validation::new(Algorithm::HS256);
    v.validate_exp = false;
    v.required_spec_claims.clear();
    let key = DecodingKey::from_secret(secret);
    match jsonwebtoken::decode::<Box<RawValue>>(token, &key, &v) {
        Ok(data) => Ok(data.claims.get().to_string()),
        Err(e) if *e.kind() == ErrorKind::InvalidSignature => Err(DecodeError::InvalidSignature),
        Err(_) => Err(DecodeError::Malformed),
    }
}

/// What a verified payload text comes to at `now`.
pub open spec fn payload_outcome(p: Seq<char>, now: u64) -> Result<ClaimsView, DecodeError> {
    match parse_claims(p) {
        None => Err(DecodeError::Malformed),
        Some(c) => c.checked_at(now),
    }
}

/// What decoding `token` under `secret` gives at `now`, once the signature has
/// been checked.
pub open spec fn decode_outcome(token: Seq<char>, secret: Seq<u8>, now: u64) -> Result<ClaimsView, DecodeError> {
    match verified_payload(token, secret) {
        Some(p) => payload_outcome(p, now),
        None => Err(DecodeError::Malformed),
    }
}

/// The payload of a claim set reads back as that claim set at any time within
/// its window.
pub proof fn lemma_payload_round_trip(c: ClaimsView, now: u64)
    requires
        c.wf(),
        c.in_force_at(now),
    ensures
        payload_outcome(claims_text(c), now) == Ok::<ClaimsView, DecodeError>(c),
{
    crate::json::lemma_parse_claims_text(c);
}

/// Turns a verified payload text into claims in force at `now`.
pub fn claims_from_payload(payload: &str, now: u64) -> (r: Result<Claims, DecodeError>)
    ensures
        result_view(r) == payload_outcome(payload@, now),
{
    match parse_claims_json(payload) {
        None => Err(DecodeError::Malformed),
        Some(c) => check_window(c, now),
    }
}

/// Signs `claims` with `secret` into a self-contained, non-empty token, which
/// decodes back to `claims` under the same secret at any time in their window.
pub fn encode(claims: &Claims, secret: &[u8]) -> (r: String)
    ensures
        r@ == signed_token(claims_text(claims@), secret@),
        r@.len() > 0,
        verified_payload(r@, secret@) == Some(claims_text(claims@)),
        forall|now: u64| #[trigger] decode_outcome(r@, secret@, now) == claims@.checked_at(now),
{
    let payload = claims_json(claims);
    proof {
        crate::json::lemma_parse_claims_text(claims@);
    }
    match jwt_encode(payload.as_str(), secret) {
        Some(t) => t,
        None => {
            assert(false);
            String::new()
        },
    }
}

/// Reads the claims out of `token`, checking its signature under `secret` and
/// its validity window at `now`.
pub fn decode(token: &str, secret: &[u8], now: u64) -> (r: Result<Claims, DecodeError>)
    ensures
        verified_payload(token@, secret@) is Some ==> result_view(r) == decode_outcome(token@, secret@, now),
        verified_payload(token@, secret@) is None ==> (r == Err::<Claims, DecodeError>(DecodeError::InvalidSignature)
            || r == Err::<Claims, DecodeError>(DecodeError::Malformed)),
        forall|c: ClaimsView| #[trigger] signed_token(claims_text(c), secret@) == token@
            ==> result_view(r) == c.checked_at(now),
        r is Ok ==> token@.len() > 0 && verified_payload(token@, secret@) is Some,
{
    match jwt_decode(token, secret) {
        Err(e) => Err(e),
        Ok(p) => {
            let r = claims_from_payload(p.as_str(), now);
            proof {
                assert forall|c: ClaimsView| #[trigger] signed_token(claims_text(c), secret@) == token@
                    implies result_view(r) == c.checked_at(now) by {
                    crate::json::lemma_parse_claims_text(c);
                }
            }
            r
        },
    }
}

} // verus!
