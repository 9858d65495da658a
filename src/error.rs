use vstd::prelude::*;

verus! {

/// Why a request was turned away; each reason has one fixed message.
#[derive(Clone, Copy, Debug, PartialEq, Eq, Structural)]
pub enum Reason {
    MissingUsername,
    MissingPassword,
    MissingRefreshToken,
    UnsupportedGrantType,
    InvalidCredentials,
    InvalidRefreshToken,
    InvalidUser,
    MissingOrInvalidToken,
    InvalidToken,
}

impl Reason {
    pub open spec fn text(self) -> Seq<char> {
        match self {
            Reason::MissingUsername => "missing username"@,
            Reason::MissingPassword => "missing password"@,
            Reason::MissingRefreshToken => "missing refresh_token"@,
            Reason::UnsupportedGrantType => "unsupported grant_type"@,
            Reason::InvalidCredentials => "invalid credentials"@,
            Reason::InvalidRefreshToken => "invalid refresh token"@,
            Reason::InvalidUser => "invalid user"@,
            Reason::MissingOrInvalidToken => "missing or invalid token"@,
            Reason::InvalidToken => "invalid token"@,
        }
    }

    /// The message shown to the client.
    pub fn message(&self) -> (r: &'static str)
        ensures
            r@ == self.text(),
    {
        match self {
            Reason::MissingUsername => "missing username",
            Reason::MissingPassword => "missing password",
            Reason::MissingRefreshToken => "missing refresh_token",
            Reason::UnsupportedGrantType => "unsupported grant_type",
            Reason::InvalidCredentials => "invalid credentials",
            Reason::InvalidRefreshToken => "invalid refresh token",
            Reason::InvalidUser => "invalid user",
            Reason::MissingOrInvalidToken => "missing or invalid token",
            Reason::InvalidToken => "invalid token",
        }
    }
}

/// The failures of the authentication core.
#[derive(Clone, Copy, Debug, PartialEq, Eq, Structural)]
pub enum AuthError {
    /// Malformed or incomplete client input.
    BadRequest(Reason),
    /// Authentication failure.
    Unauthorized(Reason),
    /// Trusted data could not be encoded or decoded.
    Internal,
    /// The credential store failed.
    Storage,
}

/// Why a token could not be turned back into claims.
#[derive(Clone, Copy, Debug, PartialEq, Eq, Structural)]
pub enum DecodeError {
    InvalidSignature,
    Malformed,
    Expired,
    NotYetValid,
}

} // verus!
