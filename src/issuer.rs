//! Building the access and refresh tokens handed out on a successful grant.
use vstd::prelude::*;

use crate::claims::{Claims, ClaimsView};
use crate::codec::{decode_outcome, encode, signed_token, verified_payload};
use crate::json::claims_text;

verus! {

/// Lifetime of an access token, in seconds: one hour.
pub const ACCESS_LIFETIME: u64 = 3600;

/// Lifetime of a refresh token, in seconds: thirty days.
pub const REFRESH_LIFETIME: u64 = 2592000;

/// A stored account, as the credential store returns it.
#[derive(Clone, Debug)]
pub struct Identity {
    /// Subject id: opaque and unique.
    pub id: String,
    pub name: Option<String>,
    /// Lowercase-normalized email, the lookup key.
    pub email: String,
    pub email_verified: bool,
    /// The master-password verification hash.
    pub master_password_hash: String,
    /// Symmetric vault key blob.
    pub key: String,
    pub private_key: String,
    pub public_key: String,
    pub kdf_type: i32,
    pub kdf_iterations: i32,
}

/// Tells clients how to unlock the vault.
#[derive(Clone, Debug)]
pub struct UserDecryptionOptions {
    pub has_master_password: bool,
    pub object: String,
}

/// The answer to a successful token request.
#[derive(Clone, Debug)]
pub struct TokenResponse {
    pub access_token: String,
    pub expires_in: i64,
    pub token_type: String,
    pub refresh_token: String,
    pub key: String,
    pub private_key: String,
    pub kdf: i32,
    pub reset_master_password: bool,
    pub force_password_reset: bool,
    pub user_decryption_options: UserDecryptionOptions,
}

/// The display name put into tokens: the account's name, or "User" without one.
pub open spec fn display_name(u: Identity) -> Seq<char> {
    match u.name {
        Some(n) => n@,
        None => "User"@,
    }
}

/// The claims of a session for `u` that starts at `now` and lasts `lifetime`
/// seconds.
pub open spec fn session_view(u: Identity, now: u64, lifetime: u64) -> ClaimsView {
    ClaimsView {
        sub: u.id@,
        exp: (now + lifetime) as u64,
        nbf: now,
        premium: true,
        name: display_name(u),
        email: u.email@,
        email_verified: true,
        amr: seq!["Application"@],
    }
}

/// Builds the claims of a session for `u` that starts at `now`.
pub fn session_claims(u: &Identity, now: u64, lifetime: u64) -> (r: Claims)
    requires
        now + lifetime <= u64::MAX,
    ensures
        r@ == session_view(*u, now, lifetime),
        r@.wf() <==> lifetime > 0,
{
    let name = match &u.name {
        Some(n) => n.clone(),
        None => String::from_str("User"),
    };
    let mut amr: Vec<String> = Vec::new();
    amr.push(String::from_str("Application"));
    let r = Claims {
        sub: u.id.clone(),
        exp: now + lifetime,
        nbf: now,
        premium: true,
        name,
        email: u.email.clone(),
        email_verified: true,
        amr,
    };
    assert(r@.amr =~= seq!["Application"@]);
    assert(r@ == session_view(*u, now, lifetime));
    r
}

/// Issues the access and refresh tokens for `u` at `now`: the access token
/// lasts an hour and is signed with `access_secret`, the refresh token lasts
/// thirty days and is signed with `refresh_secret`.
pub fn issue_tokens(u: &Identity, now: u64, access_secret: &[u8], refresh_secret: &[u8]) -> (r: TokenResponse)
    requires
        now + REFRESH_LIFETIME <= u64::MAX,
    ensures
        r.access_token@ == signed_token(claims_text(session_view(*u, now, ACCESS_LIFETIME)), access_secret@),
        r.refresh_token@ == signed_token(claims_text(session_view(*u, now, REFRESH_LIFETIME)), refresh_secret@),
        r.access_token@.len() > 0,
        r.refresh_token@.len() > 0,
        verified_payload(r.access_token@, access_secret@) == Some(claims_text(session_view(*u, now, ACCESS_LIFETIME))),
        verified_payload(r.refresh_token@, refresh_secret@) == Some(claims_text(session_view(*u, now, REFRESH_LIFETIME))),
        forall|t: u64| #[trigger] decode_outcome(r.access_token@, access_secret@, t) == session_view(*u, now, ACCESS_LIFETIME).checked_at(t),
        forall|t: u64| #[trigger] decode_outcome(r.refresh_token@, refresh_secret@, t) == session_view(*u, now, REFRESH_LIFETIME).checked_at(t),
        r.expires_in == ACCESS_LIFETIME,
        r.token_type@ == "Bearer"@,
        r.key@ == u.key@,
        r.private_key@ == u.private_key@,
        r.kdf == u.kdf_type,
        !r.reset_master_password,
        !r.force_password_reset,
        r.user_decryption_options.has_master_password,
        r.user_decryption_options.object@ == "userDecryptionOptions"@,
{
    let access = session_claims(u, now, ACCESS_LIFETIME);
    let refresh = session_claims(u, now, REFRESH_LIFETIME);
    TokenResponse {
        access_token: encode(&access, access_secret),
        expires_in: ACCESS_LIFETIME as i64,
        token_type: String::from_str("Bearer"),
        refresh_token: encode(&refresh, refresh_secret),
        key: u.key.clone(),
        private_key: u.private_key.clone(),
        kdf: u.kdf_type,
        reset_master_password: false,
        force_password_reset: false,
        user_decryption_options: UserDecryptionOptions {
            has_master_password: true,
            object: String::from_str("userDecryptionOptions"),
        },
    }
}

} // verus!
