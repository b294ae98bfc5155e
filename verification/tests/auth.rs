use funnel::auth::token::{generate_api_key, hash_token, ApiKeyPrefix, VISIBLE_PREFIX_LEN};

#[test]
fn generate_key_has_prefix() {
    let key = generate_api_key().expect("random bytes");
    assert!(key.starts_with("sk_"));
}

#[test]
fn generate_key_has_sufficient_length() {
    let key = generate_api_key().expect("random bytes");
    assert!(key.len() >= 40);
    assert_eq!(key.len(), 46);
}

#[test]
fn generated_keys_are_unique() {
    let a = generate_api_key().expect("random bytes");
    let b = generate_api_key().expect("random bytes");
    assert_ne!(a, b);
}

#[test]
fn hash_is_deterministic() {
    let key = "sk_test_token_123";
    assert_eq!(hash_token(key), hash_token(key));
}

#[test]
fn hash_differs_for_different_inputs() {
    assert_ne!(hash_token("sk_aaa"), hash_token("sk_bbb"));
}

#[test]
fn hash_is_hex_encoded_sha256() {
    let hash = hash_token("test");
    assert_eq!(hash.len(), 64);
    assert!(hash.chars().all(|c| c.is_ascii_hexdigit()));
    assert_eq!(hash, "9f86d081884c7d659a2feaa0c55ad015a3bf4f1b2b0b822cd15d6c15b0f00a08");
}

#[test]
fn prefix_from_key() {
    let key = generate_api_key().expect("random bytes");
    let prefix = ApiKeyPrefix::from_key(&key);
    assert_eq!(prefix.as_ref().len(), VISIBLE_PREFIX_LEN);
    assert!(key.starts_with(prefix.as_ref()));
}

#[test]
fn prefix_display() {
    let prefix = ApiKeyPrefix::from_key("sk_abcdefghij_rest");
    assert_eq!(prefix.to_string(), "sk_abcdefg...");
}

#[test]
fn prefix_from_short_key() {
    let prefix = ApiKeyPrefix::from_key("sk_ab");
    assert_eq!(prefix.as_ref(), "sk_ab");
}

#[test]
fn api_key_from_bytes_encodes_url_safe_base64() {
    let key = funnel::auth::token::api_key_from_bytes(&vec![0xffu8; 32]);
    assert_eq!(key, format!("sk_{}8", "_".repeat(42)));
    assert_eq!(key.len(), 46);
    let zeros = funnel::auth::token::api_key_from_bytes(&vec![0u8; 32]);
    assert_eq!(zeros, format!("sk_{}", "A".repeat(43)));
}
