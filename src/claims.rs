use vstd::prelude::*;

use crate::error::DecodeError;

verus! {

/// The signed payload that identifies a session.
#[derive(Clone, Debug)]
pub struct Claims {
    /// Subject: the account's id.
    pub sub: String,
    /// Expiry, seconds since the epoch.
    pub exp: u64,
    /// Not-before instant, seconds since the epoch.
    pub nbf: u64,
    pub premium: bool,
    pub name: String,
    pub email: String,
    pub email_verified: bool,
    /// Authentication-method references.
    pub amr: Vec<String>,
}

/// The mathematical value of a [`Claims`].
pub struct ClaimsView {
    pub sub: Seq<char>,
    pub exp: u64,
    pub nbf: u64,
    pub premium: bool,
    pub name: Seq<char>,
    pub email: Seq<char>,
    pub email_verified: bool,
    pub amr: Seq<Seq<char>>,
}

pub open spec fn strings_view(v: Seq<String>) -> Seq<Seq<char>> {
    v.map_values(|s: String| s@)
}

impl View for Claims {
    type V = ClaimsView;

    open spec fn view(&self) -> ClaimsView {
        ClaimsView {
            sub: self.sub@,
            exp: self.exp,
            nbf: self.nbf,
            premium: self.premium,
            name: self.name@,
            email: self.email@,
            email_verified: self.email_verified,
            amr: strings_view(self.amr@),
        }
    }
}

impl ClaimsView {
    /// A session's window is never empty.
    pub open spec fn wf(self) -> bool {
        self.nbf < self.exp
    }

    /// The claims are in force at `now`: within `[nbf, exp)`.
    pub open spec fn in_force_at(self, now: u64) -> bool {
        self.nbf <= now && now < self.exp
    }

    /// What a verifier whose clock reads `now` makes of these claims.
    pub open spec fn checked_at(self, now: u64) -> Result<ClaimsView, DecodeError> {
        if now >= self.exp {
            Err(DecodeError::Expired)
        } else if now < self.nbf {
            Err(DecodeError::NotYetValid)
        } else {
            Ok(self)
        }
    }
}

pub open spec fn result_view(r: Result<Claims, DecodeError>) -> Result<ClaimsView, DecodeError> {
    match r {
        Ok(c) => Ok(c@),
        Err(e) => Err(e),
    }
}

/// Holds decoded claims to their validity window at `now`: expired at or
/// after `exp`, not yet valid before `nbf`.
pub fn check_window(c: Claims, now: u64) -> (r: Result<Claims, DecodeError>)
    ensures
        result_view(r) == c@.checked_at(now),
        r is Ok <==> c@.in_force_at(now),
        now >= c.exp ==> r == Err::<Claims, DecodeError>(DecodeError::Expired),
        now < c.exp && now < c.nbf ==> r == Err::<Claims, DecodeError>(DecodeError::NotYetValid),
{
    if now >= c.exp {
        Err(DecodeError::Expired)
    } else if now < c.nbf {
        Err(DecodeError::NotYetValid)
    } else {
        Ok(c)
    }
}

/// A session's last valid second is `exp - 1`; from `exp` on it is expired.
/// It is valid from `nbf` on and not yet valid before.
pub proof fn lemma_window_boundaries(c: ClaimsView, t: u64)
    requires
        c.wf(),
    ensures
        c.checked_at(c.exp) == Err::<ClaimsView, DecodeError>(DecodeError::Expired),
        c.checked_at((c.exp - 1) as u64) == Ok::<ClaimsView, DecodeError>(c),
        c.checked_at(c.nbf) == Ok::<ClaimsView, DecodeError>(c),
        t < c.nbf ==> c.checked_at(t) == Err::<ClaimsView, DecodeError>(DecodeError::NotYetValid),
{
}

} // verus!
