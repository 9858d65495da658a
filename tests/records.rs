use warden::account::{email_from_decoded, kdf_iterations_or_default, request_email, DEFAULT_KDF_ITERATIONS};
use warden::grant::normalize_email;
use warden::import::{all_encrypted_for, folder_assignments};

#[test]
fn kdf_default_applies_without_stored_value() {
    assert_eq!(kdf_iterations_or_default(None), 600_000);
    assert_eq!(DEFAULT_KDF_ITERATIONS, 600_000);
    assert_eq!(kdf_iterations_or_default(Some(100_000)), 100_000);
}

#[test]
fn request_email_decodes_base64url() {
    assert_eq!(request_email("YUBiLmNvbQ"), "a@b.com");
}

#[test]
fn request_email_keeps_undecodable_header() {
    assert_eq!(request_email("a@b.com"), "a@b.com");
}

#[test]
fn email_from_invalid_utf8_keeps_header() {
    assert_eq!(email_from_decoded(Some(vec![0xff, 0xfe]), "raw"), "raw");
    assert_eq!(email_from_decoded(Some(b"x@y.z".to_vec()), "raw"), "x@y.z");
    assert_eq!(email_from_decoded(None, "raw"), "raw");
}

#[test]
fn emails_are_lowercased() {
    assert_eq!(normalize_email("A@B.com"), "a@b.com");
    assert_eq!(normalize_email(""), "");
}

#[test]
fn folder_assignment_last_valid_wins() {
    let rels = vec![(0, 1), (0, 0), (2, 5), (7, 0), (1, 1)];
    let r = folder_assignments(3, 2, &rels);
    assert_eq!(r, vec![Some(0), Some(1), None]);
    assert_eq!(folder_assignments(0, 0, &vec![]), Vec::<Option<usize>>::new());
}

#[test]
fn ownership_of_imported_ciphers() {
    let owners = vec!["u1".to_string(), "u1".to_string()];
    assert!(all_encrypted_for(&owners, "u1"));
    assert!(!all_encrypted_for(&owners, "u2"));
    assert!(all_encrypted_for(&vec![], "u2"));
}
