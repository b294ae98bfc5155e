use funnel::protocol::error_codes::{AppCode, ConnectionCode, StreamCode};

#[test]
fn connection_codes_have_expected_values() {
    assert_eq!(ConnectionCode::NoError.as_u32(), 0x00);
    assert_eq!(ConnectionCode::ProtocolError.as_u32(), 0x01);
    assert_eq!(ConnectionCode::AuthFailed.as_u32(), 0x02);
    assert_eq!(ConnectionCode::VersionMismatch.as_u32(), 0x03);
    assert_eq!(ConnectionCode::InternalError.as_u32(), 0x04);
    assert_eq!(ConnectionCode::ShuttingDown.as_u32(), 0x05);
}

#[test]
fn stream_codes_have_expected_values() {
    assert_eq!(StreamCode::NoError.as_u32(), 0x00);
    assert_eq!(StreamCode::TunnelGone.as_u32(), 0x01);
    assert_eq!(StreamCode::RateLimited.as_u32(), 0x02);
    assert_eq!(StreamCode::AccessDenied.as_u32(), 0x03);
    assert_eq!(StreamCode::Timeout.as_u32(), 0x04);
    assert_eq!(StreamCode::LocalUnreachable.as_u32(), 0x05);
    assert_eq!(StreamCode::BodyTooLarge.as_u32(), 0x06);
}

#[test]
fn connection_and_stream_codes_dont_overlap_except_no_error() {
    assert_eq!(ConnectionCode::NoError.as_u32(), StreamCode::NoError.as_u32());
}

const ALL_CODES: [AppCode; 15] = [
    AppCode::TunnelIdConflict,
    AppCode::TunnelIdInvalid,
    AppCode::UnsupportedTunnelType,
    AppCode::PortUnavailable,
    AppCode::AuthRequired,
    AppCode::AuthInvalid,
    AppCode::ScopeInsufficient,
    AppCode::UserDeactivated,
    AppCode::TeamNotFound,
    AppCode::TeamMembershipRequired,
    AppCode::TunnelLimitExceeded,
    AppCode::RateLimitExceeded,
    AppCode::BadRequest,
    AppCode::NotFound,
    AppCode::InternalError,
];

#[test]
fn app_code_as_str_is_snake_case() {
    for code in ALL_CODES {
        let s = code.as_str();
        assert!(!s.is_empty(), "{code:?} has empty as_str()");
        assert!(
            s.chars().all(|c| c.is_ascii_lowercase() || c == '_'),
            "{code:?} as_str() is not snake_case: {s}"
        );
    }
}

#[test]
fn app_code_display_matches_as_str() {
    let codes = [
        AppCode::TunnelIdConflict,
        AppCode::AuthRequired,
        AppCode::NotFound,
        AppCode::InternalError,
        AppCode::BadRequest,
    ];
    for code in codes {
        assert_eq!(code.to_string(), code.as_str());
    }
}

#[test]
fn app_code_names_are_distinct() {
    for (i, a) in ALL_CODES.iter().enumerate() {
        for (j, b) in ALL_CODES.iter().enumerate() {
            if i != j {
                assert_ne!(a.as_str(), b.as_str());
            }
        }
    }
    assert_eq!(AppCode::TunnelIdConflict.as_str(), "tunnel_id_conflict");
    assert_eq!(AppCode::TeamMembershipRequired.as_str(), "team_membership_required");
}
