//! The per-request check of a bearer token.
use vstd::prelude::*;

use crate::claims::{Claims, ClaimsView};
use crate::codec::{decode, decode_outcome, verified_payload};
use crate::error::{AuthError, Reason};
use crate::json::{claims_text, lemma_parse_claims_text};

verus! {

/// The token of an Authorization header: what follows the exact prefix
/// "Bearer ", when that is not empty.
pub open spec fn bearer_of(header: Option<Seq<char>>) -> Option<Seq<char>> {
    match header {
        Some(h) => if h.len() > 7 && h.subrange(0, 7) == "Bearer "@ {
            Some(h.subrange(7, h.len() as int))
        } else {
            None
        },
        None => None,
    }
}

pub open spec fn header_view(header: Option<&str>) -> Option<Seq<char>> {
    match header {
        Some(h) => Some(h@),
        None => None,
    }
}

/// Takes the token out of an Authorization header value.
pub fn bearer_token(header: Option<&str>) -> (r: Option<&str>)
    ensures
        match r {
            Some(t) => bearer_of(header_view(header)) == Some(t@),
            None => bearer_of(header_view(header)) is None,
        },
{
    let h = match header {
        Some(h) => h,
        None => {
            return None;
        },
    };
    let prefix = "Bearer ";
    proof {
        reveal_strlit("Bearer ");
    }
    let n = h.unicode_len();
    if n <= 7 {
        return None;
    }
    let mut k: usize = 0;
    while k < 7
        invariant
            n == h@.len(),
            header_view(header) == Some(h@),
            n > 7,
            k <= 7,
            prefix@ == "Bearer "@,
            prefix@.len() == 7,
            forall|m: int| 0 <= m < k ==> h@[m] == prefix@[m],
        decreases 7 - k,
    {
        if h.get_char(k) != prefix.get_char(k) {
            assert(h@.subrange(0, 7)[k as int] != prefix@[k as int]);
            assert(h@.subrange(0, 7) != "Bearer "@);
            return None;
        }
        k += 1;
    }
    assert(h@.subrange(0, 7) =~= "Bearer "@);
    Some(h.substring_char(7, n))
}

/// What a protected request's Authorization header comes to under the access
/// secret at `now`.
pub open spec fn auth_outcome(header: Option<Seq<char>>, secret: Seq<u8>, now: u64) -> Result<ClaimsView, AuthError> {
    match bearer_of(header) {
        None => Err(AuthError::Unauthorized(Reason::MissingOrInvalidToken)),
        Some(t) => match verified_payload(t, secret) {
            None => Err(AuthError::Unauthorized(Reason::InvalidToken)),
            Some(_) => match decode_outcome(t, secret, now) {
                Ok(c) => Ok(c),
                Err(_) => Err(AuthError::Unauthorized(Reason::InvalidToken)),
            },
        },
    }
}

pub open spec fn auth_view(r: Result<Claims, AuthError>) -> Result<ClaimsView, AuthError> {
    match r {
        Ok(c) => Ok(c@),
        Err(e) => Err(e),
    }
}

/// Authenticates a protected request from its Authorization header alone:
/// the bearer token must decode under the access secret at `now`.
pub fn authenticate(header: Option<&str>, access_secret: &[u8], now: u64) -> (r: Result<Claims, AuthError>)
    ensures
        auth_view(r) == auth_outcome(header_view(header), access_secret@, now),
        bearer_of(header_view(header)) is None ==> r == Err::<Claims, AuthError>(
            AuthError::Unauthorized(Reason::MissingOrInvalidToken),
        ),
{
    let token = match bearer_token(header) {
        Some(t) => t,
        None => {
            return Err(AuthError::Unauthorized(Reason::MissingOrInvalidToken));
        },
    };
    match decode(token, access_secret, now) {
        Ok(c) => Ok(c),
        Err(_) => Err(AuthError::Unauthorized(Reason::InvalidToken)),
    }
}

/// A header that carries a non-empty token whose verified payload is the text
/// of claims `c` authenticates exactly while `c` is in force, and yields `c`:
/// it is refused from `exp` on and before `nbf`.
pub proof fn lemma_guard_round_trip(t: Seq<char>, c: ClaimsView, secret: Seq<u8>, now: u64)
    requires
        t.len() > 0,
        verified_payload(t, secret) == Some(claims_text(c)),
    ensures
        auth_outcome(Some("Bearer "@ + t), secret, now) == (if c.in_force_at(now) {
            Ok::<ClaimsView, AuthError>(c)
        } else {
            Err::<ClaimsView, AuthError>(AuthError::Unauthorized(Reason::InvalidToken))
        }),
{
    reveal_strlit("Bearer ");
    lemma_parse_claims_text(c);
    let h = "Bearer "@ + t;
    assert(h.subrange(0, 7) =~= "Bearer "@);
    assert(h.subrange(7, h.len() as int) =~= t);
}

} // verus!
