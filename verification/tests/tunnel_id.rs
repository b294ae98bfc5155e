use funnel::tunnel::id::{TunnelId, TunnelIdError, MAX_LENGTH, DEFAULT_LENGTH};

#[test]
fn valid_ids() {
    assert!(TunnelId::new("abc".to_string()).is_ok());
    assert!(TunnelId::new("my-tunnel".to_string()).is_ok());
    assert!(TunnelId::new("test-123".to_string()).is_ok());
    assert!(TunnelId::new("a1b".to_string()).is_ok());
    assert!(TunnelId::new("a".repeat(MAX_LENGTH)).is_ok());
}

#[test]
fn empty_id() {
    assert!(matches!(TunnelId::new("".to_string()), Err(TunnelIdError::Empty)));
}

#[test]
fn too_short() {
    assert!(matches!(TunnelId::new("ab".to_string()), Err(TunnelIdError::TooShort(2))));
    assert!(matches!(TunnelId::new("a".to_string()), Err(TunnelIdError::TooShort(1))));
}

#[test]
fn too_long() {
    let long = "a".repeat(MAX_LENGTH + 1);
    assert!(matches!(TunnelId::new(long), Err(TunnelIdError::TooLong(64))));
}

#[test]
fn uppercase_rejected() {
    assert!(matches!(TunnelId::new("MyTunnel".to_string()), Err(TunnelIdError::NotLowercase)));
}

#[test]
fn invalid_format() {
    assert!(matches!(TunnelId::new("-abc".to_string()), Err(TunnelIdError::InvalidFormat)));
    assert!(matches!(TunnelId::new("abc-".to_string()), Err(TunnelIdError::InvalidFormat)));
    assert!(matches!(TunnelId::new("ab_c".to_string()), Err(TunnelIdError::InvalidFormat)));
    assert!(matches!(TunnelId::new("ab c".to_string()), Err(TunnelIdError::InvalidFormat)));
}

#[test]
fn generate_produces_valid_id() {
    for _ in 0..100 {
        let id = TunnelId::generate().expect("random bytes");
        assert_eq!(id.as_ref().len(), DEFAULT_LENGTH);
        assert!(TunnelId::new(id.as_ref().to_string()).is_ok());
    }
}

#[test]
fn display_and_into_string() {
    let id = TunnelId::new("my-tunnel".to_string()).unwrap();
    assert_eq!(id.to_string(), "my-tunnel");
    let s: String = id.into_string();
    assert_eq!(s, "my-tunnel");
}

#[test]
fn non_ascii_length_counts_bytes() {
    // "é" takes two bytes, so "é" alone is too short by its byte count
    assert!(matches!(TunnelId::new("é".to_string()), Err(TunnelIdError::TooShort(2))));
    assert!(matches!(TunnelId::new("ééé".to_string()), Err(TunnelIdError::InvalidFormat)));
    assert!(matches!(TunnelId::new("ÉÉÉ".to_string()), Err(TunnelIdError::NotLowercase)));
}

#[test]
fn error_messages() {
    assert_eq!(TunnelIdError::TooShort(2).to_string(), "tunnel ID must be at least 3 characters, got 2");
    assert_eq!(TunnelIdError::TooLong(64).to_string(), "tunnel ID must be at most 63 characters, got 64");
    assert_eq!(TunnelIdError::Empty.to_string(), "tunnel ID cannot be empty");
}

#[test]
fn validate_accepts_boundary_lengths() {
    assert!(TunnelId::validate("a-b").is_ok());
    assert!(matches!(TunnelId::validate("a--"), Err(TunnelIdError::InvalidFormat)));
    assert!(TunnelId::validate("a--b").is_ok());
}

#[test]
fn ids_from_random_bytes_pick_from_the_alphabet() {
    let zeros = vec![0u8; 64];
    assert_eq!(TunnelId::from_random_bytes(&zeros).as_ref(), "00000000");
    let mut bytes = Vec::new();
    for last in [35u8, 36, 10, 255] {
        bytes.extend_from_slice(&[0, 0, 0, 0, 0, 0, 0, last]);
    }
    bytes.extend_from_slice(&[0, 0, 0, 0, 0, 0, 1, 0]);
    bytes.extend_from_slice(&[255; 8]);
    bytes.extend_from_slice(&[0; 16]);
    // 256 % 36 == 4; (2^64 - 1) % 36 == 15.
    assert_eq!(TunnelId::from_random_bytes(&bytes).as_ref(), "z0a34f00");
}
