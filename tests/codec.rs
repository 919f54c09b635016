use wallet_auth::address::{address_text, is_valid_address_format, normalize_address};
use wallet_auth::nonce::{generate_nonce, nonce_from_bytes};
use wallet_auth::session::{issue_token_at, role_name, Role, SESSION_VALIDITY_SECS};

#[test]
fn address_format_checks_prefix_and_length() {
    assert!(is_valid_address_format(&format!("0x{}", "a".repeat(40))));
    assert!(is_valid_address_format(&format!("0x{}", "Z".repeat(40))));
    assert!(!is_valid_address_format(&format!("0X{}", "a".repeat(40))));
    assert!(!is_valid_address_format(&format!("0x{}", "a".repeat(41))));
    assert!(!is_valid_address_format(""));
}

#[test]
fn normalization_lowercases_ascii_and_is_idempotent() {
    let once = normalize_address("0xAbCDef12");
    assert_eq!(once, "0xabcdef12");
    assert_eq!(normalize_address(&once), once);
}

#[test]
fn address_text_is_prefixed_lowercase_hex() {
    let mut b = [0u8; 20];
    b[0] = 0x12;
    b[1] = 0xAB;
    b[19] = 0xFF;
    let t = address_text(&b);
    assert_eq!(t, format!("0x12ab{}ff", "00".repeat(17)));
    assert_eq!(t.len(), 42);
}

#[test]
fn nonce_text_is_tag_and_hex() {
    assert_eq!(nonce_from_bytes(&[0u8; 32]), format!("pharos-auth-{}", "00".repeat(32)));
    assert_eq!(nonce_from_bytes(&[0xABu8; 32]), format!("pharos-auth-{}", "ab".repeat(32)));
}

#[test]
fn generated_nonces_differ() {
    let a = generate_nonce();
    let b = generate_nonce();
    assert_ne!(a, b);
    assert!(a[12..].chars().all(|c| c.is_ascii_hexdigit() && !c.is_ascii_uppercase()));
}

#[test]
fn role_names() {
    assert_eq!(role_name(Role::Investor), "investor");
    assert_eq!(role_name(Role::EnterpriseAdmin), "creditor");
    assert_eq!(role_name(Role::PlatformAdmin), "admin");
}

#[test]
fn token_carries_claims_and_one_day_expiry() {
    let secret = b"k";
    let now: i64 = 1_700_000_000;
    let t = issue_token_at(&"0xab".to_string(), &"u1".to_string(), Role::PlatformAdmin, now, secret);
    assert_eq!(t, issue_token_at(&"0xab".to_string(), &"u1".to_string(), Role::PlatformAdmin, now, secret));
    let key = jsonwebtoken::DecodingKey::from_secret(secret);
    let mut v = jsonwebtoken::Validation::new(jsonwebtoken::Algorithm::HS256);
    v.validate_exp = false;
    let claims = jsonwebtoken::decode::<serde_json::Value>(&t, &key, &v).unwrap().claims;
    assert_eq!(claims["sub"], serde_json::Value::from("0xab"));
    assert_eq!(claims["user_id"], serde_json::Value::from("u1"));
    assert_eq!(claims["role"], serde_json::Value::from("admin"));
    assert_eq!(claims["exp"], serde_json::Value::from(now + SESSION_VALIDITY_SECS));
    assert_eq!(SESSION_VALIDITY_SECS, 86400);
}

#[test]
fn token_depends_on_secret() {
    let a = issue_token_at(&"0xab".to_string(), &"u1".to_string(), Role::Investor, 0, b"k1");
    let b = issue_token_at(&"0xab".to_string(), &"u1".to_string(), Role::Investor, 0, b"k2");
    assert_ne!(a, b);
}
