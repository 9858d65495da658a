//! The grant state machine of the token endpoint.
//!
//! A token request is evaluated in two steps around one credential-store
//! lookup: `begin_grant` decides what to look up, or rejects the request;
//! `complete_grant` judges what the store returned.
use vstd::prelude::*;

use constant_time_eq::constant_time_eq;

use crate::codec::{decode, decode_outcome, verified_payload};
use crate::error::{AuthError, Reason};
use crate::issuer::Identity;
use crate::claims::ClaimsView;
use crate::json::{claims_text, lemma_parse_claims_text};

verus! {

/// The text that `str::to_lowercase` makes of a text.
pub uninterp spec fn lower_of(s: Seq<char>) -> Seq<char>;

/// Relies on str::to_lowercase: the lowercase mapping of each character, which
/// depends on the text alone.
#[verifier::external_body]
fn lowercase(s: &str) -> (r: String)
    ensures
        r@ == lower_of(s@),
{
    s.to_lowercase()
}

/// Relies on constant_time_eq::constant_time_eq: true exactly when the two byte
/// strings are equal, in a time that does not depend on where they differ. Two
/// texts are equal exactly when their UTF-8 bytes are.
#[verifier::external_body]
fn same_secret(a: &str, b: &str) -> (r: bool)
    ensures
        r == (a@ == b@),
{
    constant_time_eq(a.as_bytes(), b.as_bytes())
}

/// The lookup form of an email address: lowercase.
pub fn normalize_email(email: &str) -> (r: String)
    ensures
        r@ == lower_of(email@),
{
    lowercase(email)
}

/// A form-encoded request to the token endpoint.
#[derive(Clone, Debug)]
pub struct TokenRequest {
    pub grant_type: String,
    pub username: Option<String>,
    /// The client-side master-password hash.
    pub password: Option<String>,
    pub refresh_token: Option<String>,
}

/// The one credential-store lookup that a grant needs.
#[derive(Clone, Debug)]
pub enum Lookup {
    /// Find the account by lowercase email; `password` is the hash to hold it to.
    ByEmail { email: String, password: String },
    /// Find the account that a refresh token names.
    ById { id: String },
}

pub enum LookupView {
    ByEmail { email: Seq<char>, password: Seq<char> },
    ById { id: Seq<char> },
}

impl View for Lookup {
    type V = LookupView;

    open spec fn view(&self) -> LookupView {
        match self {
            Lookup::ByEmail { email, password } => LookupView::ByEmail { email: email@, password: password@ },
            Lookup::ById { id } => LookupView::ById { id: id@ },
        }
    }
}

pub open spec fn text_of(o: Option<String>) -> Option<Seq<char>> {
    match o {
        Some(s) => Some(s@),
        None => None,
    }
}

/// A form field that is there and not empty.
pub open spec fn present(o: Option<Seq<char>>) -> bool {
    o is Some && o->0.len() > 0
}

/// The first step of a grant: what to look up, or why the request is refused.
pub open spec fn begin_outcome(
    grant_type: Seq<char>,
    username: Option<Seq<char>>,
    password: Option<Seq<char>>,
    refresh_token: Option<Seq<char>>,
    refresh_secret: Seq<u8>,
    now: u64,
) -> Result<LookupView, AuthError> {
    if grant_type == "password"@ {
        if !present(username) {
            Err(AuthError::BadRequest(Reason::MissingUsername))
        } else if !present(password) {
            Err(AuthError::BadRequest(Reason::MissingPassword))
        } else {
            Ok(LookupView::ByEmail { email: lower_of(username->0), password: password->0 })
        }
    } else if grant_type == "refresh_token"@ {
        if !present(refresh_token) {
            Err(AuthError::BadRequest(Reason::MissingRefreshToken))
        } else {
            match verified_payload(refresh_token->0, refresh_secret) {
                None => Err(AuthError::Unauthorized(Reason::InvalidRefreshToken)),
                Some(_) => match decode_outcome(refresh_token->0, refresh_secret, now) {
                    Ok(c) => Ok(LookupView::ById { id: c.sub }),
                    Err(_) => Err(AuthError::Unauthorized(Reason::InvalidRefreshToken)),
                },
            }
        }
    } else {
        Err(AuthError::BadRequest(Reason::UnsupportedGrantType))
    }
}

pub open spec fn request_outcome(req: TokenRequest, refresh_secret: Seq<u8>, now: u64) -> Result<LookupView, AuthError> {
    begin_outcome(
        req.grant_type@,
        text_of(req.username),
        text_of(req.password),
        text_of(req.refresh_token),
        refresh_secret,
        now,
    )
}

pub open spec fn lookup_result_view(r: Result<Lookup, AuthError>) -> Result<LookupView, AuthError> {
    match r {
        Ok(l) => Ok(l@),
        Err(e) => Err(e),
    }
}

fn filled(o: &Option<String>) -> (r: Option<&String>)
    ensures
        match r {
            Some(s) => present(text_of(*o)) && text_of(*o) == Some(s@),
            None => !present(text_of(*o)),
        },
{
    match o {
        Some(s) => if s.as_str().is_empty() {
            None
        } else {
            Some(s)
        },
        None => None,
    }
}

/// Dispatches a token request on its grant type. A password grant asks for the
/// account with the lowercased username; a refresh grant decodes the refresh
/// token under `refresh_secret` at `now` and asks for the account it names.
pub fn begin_grant(req: &TokenRequest, refresh_secret: &[u8], now: u64) -> (r: Result<Lookup, AuthError>)
    ensures
        lookup_result_view(r) == request_outcome(*req, refresh_secret@, now),
        req.grant_type@ != "password"@ && req.grant_type@ != "refresh_token"@ ==> r == Err::<Lookup, AuthError>(
            AuthError::BadRequest(Reason::UnsupportedGrantType),
        ),
{
    if req.grant_type == String::from_str("password") {
        let username = match filled(&req.username) {
            Some(u) => u,
            None => {
                return Err(AuthError::BadRequest(Reason::MissingUsername));
            },
        };
        let password = match filled(&req.password) {
            Some(p) => p,
            None => {
                return Err(AuthError::BadRequest(Reason::MissingPassword));
            },
        };
        Ok(Lookup::ByEmail { email: normalize_email(username.as_str()), password: password.clone() })
    } else if req.grant_type == String::from_str("refresh_token") {
        let token = match filled(&req.refresh_token) {
            Some(t) => t,
            None => {
                return Err(AuthError::BadRequest(Reason::MissingRefreshToken));
            },
        };
        match decode(token.as_str(), refresh_secret, now) {
            Ok(c) => Ok(Lookup::ById { id: c.sub }),
            Err(_) => Err(AuthError::Unauthorized(Reason::InvalidRefreshToken)),
        }
    } else {
        Err(AuthError::BadRequest(Reason::UnsupportedGrantType))
    }
}

/// The second step of a grant: the verdict on what the store returned.
pub open spec fn complete_outcome(lookup: LookupView, found: Option<Identity>) -> Result<Identity, AuthError> {
    match lookup {
        LookupView::ByEmail { email, password } => match found {
            None => Err(AuthError::Unauthorized(Reason::InvalidCredentials)),
            Some(u) => if u.master_password_hash@ == password {
                Ok(u)
            } else {
                Err(AuthError::Unauthorized(Reason::InvalidCredentials))
            },
        },
        LookupView::ById { id } => match found {
            None => Err(AuthError::Unauthorized(Reason::InvalidUser)),
            Some(u) => Ok(u),
        },
    }
}

/// Judges the account that the store returned for `lookup`: a password grant
/// succeeds only on an exact match of the stored hash, compared in constant
/// time; an unknown account and a wrong password are refused alike.
pub fn complete_grant(lookup: &Lookup, found: Option<Identity>) -> (r: Result<Identity, AuthError>)
    ensures
        r == complete_outcome(lookup@, found),
{
    match lookup {
        Lookup::ByEmail { email: _, password } => match found {
            None => Err(AuthError::Unauthorized(Reason::InvalidCredentials)),
            Some(u) => {
                if same_secret(u.master_password_hash.as_str(), password.as_str()) {
                    Ok(u)
                } else {
                    Err(AuthError::Unauthorized(Reason::InvalidCredentials))
                }
            },
        },
        Lookup::ById { id: _ } => match found {
            None => Err(AuthError::Unauthorized(Reason::InvalidUser)),
            Some(u) => Ok(u),
        },
    }
}

/// An unknown email and a known email with a wrong password get the same
/// refusal, so a client cannot tell whether an account exists.
pub proof fn lemma_no_enumeration(email: Seq<char>, password: Seq<char>, u: Identity)
    requires
        u.master_password_hash@ != password,
    ensures
        complete_outcome(LookupView::ByEmail { email, password }, None) == complete_outcome(
            LookupView::ByEmail { email, password },
            Some(u),
        ),
        complete_outcome(LookupView::ByEmail { email, password }, None) == Err::<Identity, AuthError>(
            AuthError::Unauthorized(Reason::InvalidCredentials),
        ),
{
}

/// A non-empty refresh token whose verified payload is the text of claims `c`
/// in force at `now` leads to a lookup of the account `c` names; out of force,
/// it is refused as an invalid refresh token.
pub proof fn lemma_refresh_grant(
    t: Seq<char>,
    c: ClaimsView,
    username: Option<Seq<char>>,
    password: Option<Seq<char>>,
    refresh_secret: Seq<u8>,
    now: u64,
)
    requires
        t.len() > 0,
        verified_payload(t, refresh_secret) == Some(claims_text(c)),
    ensures
        begin_outcome("refresh_token"@, username, password, Some(t), refresh_secret, now) == (if c.in_force_at(now) {
            Ok::<LookupView, AuthError>(LookupView::ById { id: c.sub })
        } else {
            Err::<LookupView, AuthError>(AuthError::Unauthorized(Reason::InvalidRefreshToken))
        }),
{
    reveal_strlit("password");
    reveal_strlit("refresh_token");
    assert("refresh_token"@ != "password"@) by {
        assert("refresh_token"@.len() != "password"@.len());
    }
    lemma_parse_claims_text(c);
}

/// A grant type other than "password" and "refresh_token" is refused as
/// unsupported, whatever the other fields hold.
pub proof fn lemma_unsupported_grant(
    grant_type: Seq<char>,
    username: Option<Seq<char>>,
    password: Option<Seq<char>>,
    refresh_token: Option<Seq<char>>,
    refresh_secret: Seq<u8>,
    now: u64,
)
    requires
        grant_type != "password"@,
        grant_type != "refresh_token"@,
    ensures
        begin_outcome(grant_type, username, password, refresh_token, refresh_secret, now) == Err::<
            LookupView,
            AuthError,
        >(AuthError::BadRequest(Reason::UnsupportedGrantType)),
{
}

} // verus!
