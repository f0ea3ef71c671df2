use ssh_key_manager::keys::{
    determine_status, parse_public_key, update_comment_line, KeyStatus, KeyType,
};
use ssh_key_manager::SkmError;

#[test]
fn test_key_type_from_filename() {
    assert_eq!(KeyType::from_filename("id_rsa"), KeyType::Rsa);
    assert_eq!(KeyType::from_filename("id_ed25519"), KeyType::Ed25519);
    assert_eq!(KeyType::from_filename("id_ecdsa"), KeyType::Ecdsa);
    assert_eq!(KeyType::from_filename("id_dsa"), KeyType::Dsa);
    assert_eq!(KeyType::from_filename("unknown"), KeyType::Unknown);
}

#[test]
fn test_key_type_display() {
    assert_eq!(KeyType::Rsa.label(), "RSA");
    assert_eq!(KeyType::Ed25519.label(), "ED25519");
}

#[test]
fn test_key_type_default_filename() {
    assert_eq!(KeyType::Rsa.default_filename(), "id_rsa");
    assert_eq!(KeyType::Ed25519.default_filename(), "id_ed25519");
    assert_eq!(KeyType::Ecdsa.default_filename(), "id_ecdsa");
    assert_eq!(KeyType::Dsa.default_filename(), "id_dsa");
    assert_eq!(KeyType::Unknown.default_filename(), "id_unknown");
}

#[test]
fn test_parse_public_key() {
    let result = parse_public_key("ssh-rsa AAAAB3NzaC1 user@example.com");
    assert!(result.0.is_some());
    assert_eq!(result.1, Some("user@example.com".to_string()));
}

#[test]
fn test_parse_public_key_fingerprint_is_shortened() {
    let result = parse_public_key("ssh-rsa AAAAB3NzaC1 user@example.com");
    assert_eq!(result.0, Some("AAAAB3NzaC1...".to_string()));
    let long = parse_public_key("ssh-ed25519 AAAAC3NzaC1lZDI1NTE5AAAAIJk comment");
    assert_eq!(long.0, Some("AAAAC3NzaC1lZDI1...".to_string()));
}

#[test]
fn test_parse_public_key_joins_comment_words() {
    let result = parse_public_key("ssh-rsa AAAA  work laptop  key ");
    assert_eq!(result.1, Some("work laptop key".to_string()));
}

#[test]
fn test_parse_public_key_too_short() {
    let result = parse_public_key("ssh-rsa");
    assert_eq!(result.0, None);
    assert_eq!(result.1, None);
}

#[test]
fn test_determine_status() {
    assert_eq!(determine_status(true, true), KeyStatus::Valid);
    assert_eq!(determine_status(true, false), KeyStatus::MissingPublic);
    assert_eq!(determine_status(false, true), KeyStatus::MissingPrivate);
    assert_eq!(determine_status(false, false), KeyStatus::Corrupted);
}

#[test]
fn test_update_comment_line() {
    let updated = update_comment_line("ssh-rsa AAAA old@host", "new@host").unwrap();
    assert_eq!(updated, "ssh-rsa AAAA new@host");
}

#[test]
fn test_update_comment_line_rejects_short_line() {
    let result = update_comment_line("justonefield", "new@host");
    assert!(matches!(result, Err(SkmError::InvalidKeyFormat(_))));
}
