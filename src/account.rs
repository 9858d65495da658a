//! Small rules of the account endpoints.
use vstd::prelude::*;

use base64::engine::general_purpose::URL_SAFE_NO_PAD;
use base64::Engine;
use vstd::utf8::{decode_utf8, valid_utf8};

verus! {

/// The key-derivation function that new accounts use: PBKDF2.
pub const KDF_PBKDF2: i32 = 0;

/// Iterations announced for an address that has no stored setting.
pub const DEFAULT_KDF_ITERATIONS: i32 = 600000;

/// The iteration count announced before login: the stored one, or the default.
pub fn kdf_iterations_or_default(stored: Option<i32>) -> (r: i32)
    ensures
        r == match stored {
            Some(n) => n,
            None => DEFAULT_KDF_ITERATIONS,
        },
{
    match stored {
        Some(n) => n,
        None => DEFAULT_KDF_ITERATIONS,
    }
}

/// The bytes that base64's URL-safe, unpadded decoder makes of a text, if it
/// accepts it.
pub uninterp spec fn b64url_decoded(s: Seq<char>) -> Option<Seq<u8>>;

/// Relies on base64's `URL_SAFE_NO_PAD.decode`: the decoded bytes, or `None`
/// where the text is not URL-safe base64 without padding.
#[verifier::external_body]
fn decode_b64url(s: &str) -> (r: Option<Vec<u8>>)
    ensures
        match r {
            Some(b) => b64url_decoded(s@) == Some(b@),
            None => b64url_decoded(s@) is None,
        },
{
    URL_SAFE_NO_PAD.decode(s).ok()
}

/// Relies on std's `String::from_utf8`: the text that the bytes encode, when
/// they are valid UTF-8.
#[verifier::external_body]
fn utf8_text(b: Vec<u8>) -> (r: Option<String>)
    ensures
        r is Some <==> valid_utf8(b@),
        r matches Some(s) ==> s@ == decode_utf8(b@),
{
    String::from_utf8(b).ok()
}

/// The address that a device-check header carries, given what the base64
/// decoder made of it: the decoded text where it is UTF-8, else the header as
/// it stands.
pub open spec fn header_email(decoded: Option<Seq<u8>>, raw: Seq<char>) -> Seq<char> {
    match decoded {
        Some(b) => if valid_utf8(b) {
            decode_utf8(b)
        } else {
            raw
        },
        None => raw,
    }
}

pub open spec fn bytes_view(o: Option<Vec<u8>>) -> Option<Seq<u8>> {
    match o {
        Some(b) => Some(b@),
        None => None,
    }
}

/// Settles the address of a device-check header from its decoded bytes.
pub fn email_from_decoded(decoded: Option<Vec<u8>>, raw: &str) -> (r: String)
    ensures
        r@ == header_email(bytes_view(decoded), raw@),
{
    match decoded {
        Some(b) => match utf8_text(b) {
            Some(s) => s,
            None => String::from_str(raw),
        },
        None => String::from_str(raw),
    }
}

/// The address of a device-check header, which clients send base64-encoded
/// (URL-safe, without padding); a header that does not decode is taken as it
/// stands.
pub fn request_email(header: &str) -> (r: String)
    ensures
        r@ == header_email(b64url_decoded(header@), header@),
{
    let decoded = decode_b64url(header);
    email_from_decoded(decoded, header)
}

} // verus!
