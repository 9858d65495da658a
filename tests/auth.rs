use warden::claims::{check_window, Claims};
use warden::codec::{claims_from_payload, decode, encode};
use warden::error::{AuthError, DecodeError, Reason};
use warden::grant::{begin_grant, complete_grant, Lookup, TokenRequest};
use warden::guard::{authenticate, bearer_token};
use warden::issuer::{issue_tokens, session_claims, Identity, ACCESS_LIFETIME, REFRESH_LIFETIME};
use warden::json::{claims_json, parse_claims_json};
use warden::models::DeviceType;

const ACCESS: &[u8] = b"access-secret";
const REFRESH: &[u8] = b"refresh-secret";
const T: u64 = 1_700_000_000;
const DAY: u64 = 86_400;

fn sample_claims() -> Claims {
    Claims {
        sub: "u1".to_string(),
        exp: 2000,
        nbf: 1000,
        premium: true,
        name: "Ann".to_string(),
        email: "a@b.com".to_string(),
        email_verified: false,
        amr: vec!["Application".to_string()],
    }
}

fn same_claims(a: &Claims, b: &Claims) -> bool {
    a.sub == b.sub
        && a.exp == b.exp
        && a.nbf == b.nbf
        && a.premium == b.premium
        && a.name == b.name
        && a.email == b.email
        && a.email_verified == b.email_verified
        && a.amr == b.amr
}

fn identity() -> Identity {
    Identity {
        id: "u1".to_string(),
        name: None,
        email: "a@b.com".to_string(),
        email_verified: false,
        master_password_hash: "H".to_string(),
        key: "vault-key".to_string(),
        private_key: "private-key".to_string(),
        public_key: "public-key".to_string(),
        kdf_type: 0,
        kdf_iterations: 600_000,
    }
}

fn request(grant_type: &str, username: Option<&str>, password: Option<&str>, refresh: Option<&str>) -> TokenRequest {
    TokenRequest {
        grant_type: grant_type.to_string(),
        username: username.map(|s| s.to_string()),
        password: password.map(|s| s.to_string()),
        refresh_token: refresh.map(|s| s.to_string()),
    }
}

#[test]
fn claims_json_has_canonical_text() {
    let text = claims_json(&sample_claims());
    assert_eq!(
        text,
        "{\"sub\":\"u1\",\"exp\":2000,\"nbf\":1000,\"premium\":true,\"name\":\"Ann\",\"email\":\"a@b.com\",\"email_verified\":false,\"amr\":[\"Application\"]}"
    );
}

#[test]
fn claims_json_escapes_and_reads_back() {
    let mut c = sample_claims();
    c.name = "q\"b\\s\nt\u{1}é".to_string();
    c.amr = vec![];
    c.exp = u64::MAX;
    c.nbf = 0;
    let text = claims_json(&c);
    assert!(text.contains("\"name\":\"q\\\"b\\\\s\\u000at\\u0001é\""));
    assert!(text.contains("\"amr\":[]"));
    let back = parse_claims_json(&text).expect("reads back");
    assert!(same_claims(&back, &c));
}

#[test]
fn claims_json_with_several_methods_reads_back() {
    let mut c = sample_claims();
    c.amr = vec!["Application".to_string(), "".to_string(), "x,y".to_string()];
    let back = parse_claims_json(&claims_json(&c)).expect("reads back");
    assert!(same_claims(&back, &c));
}

#[test]
fn parse_rejects_other_shapes() {
    assert!(parse_claims_json("").is_none());
    assert!(parse_claims_json("{}").is_none());
    let text = claims_json(&sample_claims());
    assert!(parse_claims_json(&format!("{} ", text)).is_none());
    assert!(parse_claims_json(&text.replace("2000", "99999999999999999999")).is_none());
}

#[test]
fn payload_errors_and_window() {
    let text = claims_json(&sample_claims());
    assert_eq!(claims_from_payload("not json", 1500).err(), Some(DecodeError::Malformed));
    assert!(claims_from_payload(&text, 1500).is_ok());
    assert_eq!(claims_from_payload(&text, 2000).err(), Some(DecodeError::Expired));
    assert_eq!(claims_from_payload(&text, 999).err(), Some(DecodeError::NotYetValid));
}

#[test]
fn round_trip_within_window() {
    let c = sample_claims();
    let token = encode(&c, b"s");
    assert_eq!(token.split('.').count(), 3);
    for now in [1000u64, 1500, 1999] {
        let back = decode(&token, b"s", now).expect("decodes");
        assert!(same_claims(&back, &c));
    }
}

#[test]
fn secret_isolation() {
    let token = encode(&sample_claims(), b"secretA");
    assert_eq!(decode(&token, b"secretB", 1500).err(), Some(DecodeError::InvalidSignature));
}

#[test]
fn expiry_boundary() {
    let token = encode(&sample_claims(), b"s");
    assert_eq!(decode(&token, b"s", 2000).err(), Some(DecodeError::Expired));
    assert!(decode(&token, b"s", 1999).is_ok());
    assert_eq!(check_window(sample_claims(), 2000).err(), Some(DecodeError::Expired));
}

#[test]
fn not_before_boundary() {
    let token = encode(&sample_claims(), b"s");
    assert_eq!(decode(&token, b"s", 999).err(), Some(DecodeError::NotYetValid));
    assert!(decode(&token, b"s", 1000).is_ok());
    assert_eq!(check_window(sample_claims(), 0).err(), Some(DecodeError::NotYetValid));
}

#[test]
fn garbage_token_is_malformed() {
    assert_eq!(decode("abc", b"s", 1500).err(), Some(DecodeError::Malformed));
    assert_eq!(decode("", b"s", 1500).err(), Some(DecodeError::Malformed));
}

#[test]
fn enumeration_resistance() {
    let lookup = Lookup::ByEmail { email: "a@b.com".to_string(), password: "WRONG".to_string() };
    let unknown = complete_grant(&lookup, None).err();
    let wrong = complete_grant(&lookup, Some(identity())).err();
    assert_eq!(unknown, Some(AuthError::Unauthorized(Reason::InvalidCredentials)));
    assert_eq!(unknown, wrong);
    assert_eq!(Reason::InvalidCredentials.message(), "invalid credentials");
}

#[test]
fn grant_dispatch_unsupported() {
    let expected = Some(AuthError::BadRequest(Reason::UnsupportedGrantType));
    let cases = [
        request("anything-else", None, None, None),
        request("anything-else", Some("a@b.com"), Some("H"), Some("t")),
        request("Password", Some("a@b.com"), Some("H"), None),
        request("", None, None, None),
    ];
    for req in cases.iter() {
        assert_eq!(begin_grant(req, REFRESH, T).err(), expected);
    }
    assert_eq!(Reason::UnsupportedGrantType.message(), "unsupported grant_type");
}

#[test]
fn missing_fields_are_bad_requests() {
    assert_eq!(
        begin_grant(&request("password", None, Some("H"), None), REFRESH, T).err(),
        Some(AuthError::BadRequest(Reason::MissingUsername))
    );
    assert_eq!(
        begin_grant(&request("password", Some("a@b.com"), Some(""), None), REFRESH, T).err(),
        Some(AuthError::BadRequest(Reason::MissingPassword))
    );
    assert_eq!(
        begin_grant(&request("refresh_token", None, None, None), REFRESH, T).err(),
        Some(AuthError::BadRequest(Reason::MissingRefreshToken))
    );
}

#[test]
fn password_grant_issues_tokens() {
    let req = request("password", Some("A@B.com"), Some("H"), None);
    let lookup = begin_grant(&req, REFRESH, T).expect("lookup");
    match &lookup {
        Lookup::ByEmail { email, password } => {
            assert_eq!(email, "a@b.com");
            assert_eq!(password, "H");
        }
        Lookup::ById { .. } => panic!("expected a lookup by email"),
    }
    let user = complete_grant(&lookup, Some(identity())).expect("issued");
    let resp = issue_tokens(&user, T, ACCESS, REFRESH);
    assert_eq!(resp.expires_in, 3600);
    assert_eq!(resp.token_type, "Bearer");
    assert_eq!(resp.key, "vault-key");
    assert_eq!(resp.private_key, "private-key");
    assert_eq!(resp.kdf, 0);
    assert!(!resp.reset_master_password);
    assert!(!resp.force_password_reset);
    assert!(resp.user_decryption_options.has_master_password);
    assert_eq!(resp.user_decryption_options.object, "userDecryptionOptions");
    let access = decode(&resp.access_token, ACCESS, T).expect("access token");
    assert_eq!(access.sub, "u1");
    assert_eq!(access.nbf, T);
    assert_eq!(access.exp, T + 3600);
    assert_eq!(access.name, "User");
    assert!(access.premium);
    assert!(access.email_verified);
    assert_eq!(access.amr, vec!["Application".to_string()]);
    let refresh = decode(&resp.refresh_token, REFRESH, T).expect("refresh token");
    assert_eq!(refresh.exp, T + 30 * DAY);
}

#[test]
fn password_grant_wrong_password() {
    let req = request("password", Some("a@b.com"), Some("WRONG"), None);
    let lookup = begin_grant(&req, REFRESH, T).expect("lookup");
    assert_eq!(
        complete_grant(&lookup, Some(identity())).err(),
        Some(AuthError::Unauthorized(Reason::InvalidCredentials))
    );
}

#[test]
fn refresh_grant_issues_new_access() {
    let first = issue_tokens(&identity(), T, ACCESS, REFRESH);
    let later = T + DAY;
    let req = request("refresh_token", None, None, Some(&first.refresh_token));
    let lookup = begin_grant(&req, REFRESH, later).expect("lookup");
    match &lookup {
        Lookup::ById { id } => assert_eq!(id, "u1"),
        Lookup::ByEmail { .. } => panic!("expected a lookup by id"),
    }
    let user = complete_grant(&lookup, Some(identity())).expect("issued");
    let resp = issue_tokens(&user, later, ACCESS, REFRESH);
    let access = decode(&resp.access_token, ACCESS, later).expect("access token");
    assert_eq!(access.sub, "u1");
    assert_eq!(access.nbf, later);
    assert_eq!(access.exp, later + 3600);
}

#[test]
fn refresh_for_vanished_account() {
    let lookup = Lookup::ById { id: "u1".to_string() };
    assert_eq!(complete_grant(&lookup, None).err(), Some(AuthError::Unauthorized(Reason::InvalidUser)));
}

#[test]
fn access_token_refused_as_refresh_token() {
    let resp = issue_tokens(&identity(), T, ACCESS, REFRESH);
    let req = request("refresh_token", None, None, Some(&resp.access_token));
    assert_eq!(
        begin_grant(&req, REFRESH, T + 1).err(),
        Some(AuthError::Unauthorized(Reason::InvalidRefreshToken))
    );
}

#[test]
fn expired_refresh_token_is_refused() {
    let resp = issue_tokens(&identity(), T, ACCESS, REFRESH);
    let req = request("refresh_token", None, None, Some(&resp.refresh_token));
    assert_eq!(
        begin_grant(&req, REFRESH, T + 30 * DAY).err(),
        Some(AuthError::Unauthorized(Reason::InvalidRefreshToken))
    );
}

#[test]
fn missing_authorization_header() {
    assert_eq!(
        authenticate(None, ACCESS, T).err(),
        Some(AuthError::Unauthorized(Reason::MissingOrInvalidToken))
    );
    assert_eq!(Reason::MissingOrInvalidToken.message(), "missing or invalid token");
}

#[test]
fn malformed_headers() {
    assert_eq!(bearer_token(Some("Bearer ")), None);
    assert_eq!(bearer_token(Some("bearer abc")), None);
    assert_eq!(bearer_token(Some("Bearerabc")), None);
    assert_eq!(bearer_token(Some("Bearer abc")), Some("abc"));
    assert_eq!(
        authenticate(Some("Token abc"), ACCESS, T).err(),
        Some(AuthError::Unauthorized(Reason::MissingOrInvalidToken))
    );
    assert_eq!(
        authenticate(Some("Bearer abc"), ACCESS, T).err(),
        Some(AuthError::Unauthorized(Reason::InvalidToken))
    );
}

#[test]
fn access_token_authenticates() {
    let resp = issue_tokens(&identity(), T, ACCESS, REFRESH);
    let header = format!("Bearer {}", resp.access_token);
    let claims = authenticate(Some(&header), ACCESS, T + 10).expect("authenticated");
    assert_eq!(claims.sub, "u1");
    assert_eq!(
        authenticate(Some(&header), REFRESH, T + 10).err(),
        Some(AuthError::Unauthorized(Reason::InvalidToken))
    );
    assert_eq!(
        authenticate(Some(&header), ACCESS, T + ACCESS_LIFETIME).err(),
        Some(AuthError::Unauthorized(Reason::InvalidToken))
    );
}

#[test]
fn session_claims_shape() {
    let mut u = identity();
    u.name = Some("Ann".to_string());
    let c = session_claims(&u, 10, REFRESH_LIFETIME);
    assert_eq!(c.name, "Ann");
    assert_eq!(c.exp, 10 + 2_592_000);
    assert_eq!(c.nbf, 10);
}

#[test]
fn device_type_codes() {
    assert_eq!(DeviceType::Android.code(), 0);
    assert_eq!(DeviceType::TorExtension.code(), 16);
    assert_eq!(DeviceType::from_code(9), Some(DeviceType::Web));
    assert_eq!(DeviceType::from_code(17), None);
    assert_eq!(DeviceType::from_code(-1), None);
}

#[test]
fn guard_window_boundaries() {
    let c = sample_claims();
    let header = format!("Bearer {}", encode(&c, ACCESS));
    let invalid = Some(AuthError::Unauthorized(Reason::InvalidToken));
    assert_eq!(authenticate(Some(&header), ACCESS, 2000).err(), invalid);
    assert!(same_claims(&authenticate(Some(&header), ACCESS, 1999).expect("in force"), &c));
    assert_eq!(authenticate(Some(&header), ACCESS, 999).err(), invalid);
    assert!(same_claims(&authenticate(Some(&header), ACCESS, 1000).expect("in force"), &c));
}
