use funnel::kind_name::to_snake_case;

#[test]
fn snake_case_simple() {
    assert_eq!(to_snake_case("User"), "user");
}

#[test]
fn snake_case_multi_word() {
    assert_eq!(to_snake_case("TunnelInfo"), "tunnel_info");
}

#[test]
fn snake_case_consecutive_caps() {
    assert_eq!(to_snake_case("APIKey"), "a_p_i_key");
}

#[test]
fn snake_case_already_lower() {
    assert_eq!(to_snake_case("tunnel"), "tunnel");
}

#[test]
fn snake_case_single_char() {
    assert_eq!(to_snake_case("A"), "a");
}

#[test]
fn snake_case_of_library_kinds() {
    assert_eq!(to_snake_case("TunnelStatsSnapshot"), "tunnel_stats_snapshot");
    assert_eq!(to_snake_case("ServerInfo"), "server_info");
    assert_eq!(to_snake_case(""), "");
}
