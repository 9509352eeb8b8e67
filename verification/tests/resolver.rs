use opencode_desktop::resolver::Config;
use opencode_desktop::resolver::ResolverState;
use opencode_desktop::resolver::ServerConfig;
use opencode_desktop::resolver::ServerConnection;
use opencode_desktop::resolver::custom_step;
use opencode_desktop::resolver::format_server_url;
use opencode_desktop::resolver::get_server_url_from_config;
use opencode_desktop::resolver::local_step;
use opencode_desktop::resolver::normalize_hostname_for_url;
use opencode_desktop::resolver::resolver_start;
use opencode_desktop::resolver::saved_url_preference;

#[test]
fn wildcard_bind_addresses_become_loopback() {
    assert_eq!(normalize_hostname_for_url("0.0.0.0"), "127.0.0.1");
    assert_eq!(normalize_hostname_for_url("::"), "[::1]");
}

#[test]
fn bare_ipv6_hostnames_gain_brackets() {
    assert_eq!(normalize_hostname_for_url("fe80::1"), "[fe80::1]");
    assert_eq!(normalize_hostname_for_url("[fe80::1]"), "[fe80::1]");
    assert_eq!(normalize_hostname_for_url("example.com"), "example.com");
    assert_eq!(normalize_hostname_for_url("127.0.0.1"), "127.0.0.1");
}

#[test]
fn server_url_formatting() {
    assert_eq!(format_server_url("127.0.0.1", 4096), "http://127.0.0.1:4096");
    assert_eq!(format_server_url("[::1]", 80), "http://[::1]:80");
}

#[test]
fn config_without_port_yields_no_url() {
    assert!(get_server_url_from_config(&Config { server: None }).is_none());
    let config = Config {
        server: Some(ServerConfig {
            hostname: Some("example.com".to_string()),
            port: None,
        }),
    };
    assert!(get_server_url_from_config(&config).is_none());
}

#[test]
fn config_url_defaults_hostname_and_normalizes() {
    let config = Config {
        server: Some(ServerConfig {
            hostname: None,
            port: Some(1234),
        }),
    };
    assert_eq!(
        get_server_url_from_config(&config).as_deref(),
        Some("http://127.0.0.1:1234")
    );

    let config = Config {
        server: Some(ServerConfig {
            hostname: Some("0.0.0.0".to_string()),
            port: Some(8080),
        }),
    };
    assert_eq!(
        get_server_url_from_config(&config).as_deref(),
        Some("http://127.0.0.1:8080")
    );
}

#[test]
fn desktop_setting_wins_over_config_url() {
    let config = Config {
        server: Some(ServerConfig {
            hostname: None,
            port: Some(1234),
        }),
    };
    assert_eq!(
        saved_url_preference(Some("http://saved:1".to_string()), Some(&config)).as_deref(),
        Some("http://saved:1")
    );
    assert_eq!(
        saved_url_preference(None, Some(&config)).as_deref(),
        Some("http://127.0.0.1:1234")
    );
    assert!(saved_url_preference(None, None).is_none());
}

#[test]
fn custom_server_is_probed_first_with_retries() {
    let state = resolver_start(Some("http://custom:9".to_string()), 4096);
    let url = match state {
        ResolverState::CheckingCustom { url } => url,
        other => panic!("expected the custom probe, got {:?}", other),
    };

    // Failed probe, user asks to retry: same URL again.
    let state = custom_step(url, false, true, 4096);
    let url = match state {
        ResolverState::CheckingCustom { url } => url,
        other => panic!("expected a retry of the custom probe, got {:?}", other),
    };

    // Healthy probe settles on the existing server.
    match custom_step(url.clone(), true, false, 4096) {
        ResolverState::Resolved(ServerConnection::Existing { url: u }) => assert_eq!(u, url),
        other => panic!("expected the existing server, got {:?}", other),
    }
}

#[test]
fn declined_retry_falls_through_to_local_port() {
    match custom_step("http://custom:9".to_string(), false, false, 4096) {
        ResolverState::CheckingLocal { url } => assert_eq!(url, "http://127.0.0.1:4096"),
        other => panic!("expected the local probe, got {:?}", other),
    }
}

#[test]
fn healthy_local_port_is_reused() {
    let state = resolver_start(None, 5555);
    let url = match state {
        ResolverState::CheckingLocal { url } => url,
        other => panic!("expected the local probe, got {:?}", other),
    };
    assert_eq!(url, "http://127.0.0.1:5555");
    match local_step(url.clone(), true) {
        ServerConnection::Existing { url: u } => assert_eq!(u, url),
        other => panic!("expected the existing server, got {:?}", other),
    }
}

#[test]
fn dead_local_port_spawns_with_fresh_credential() {
    match local_step("http://127.0.0.1:5555".to_string(), false) {
        ServerConnection::Spawned { url, password } => {
            assert_eq!(url, "http://127.0.0.1:5555");
            let password = password.expect("a spawned server carries a password");
            assert_eq!(password.chars().count(), 36);
            for (i, c) in password.chars().enumerate() {
                if i == 8 || i == 13 || i == 18 || i == 23 {
                    assert_eq!(c, '-');
                } else {
                    assert!(c.is_ascii_hexdigit() && !c.is_ascii_uppercase());
                }
            }
        }
        other => panic!("expected a spawned server, got {:?}", other),
    }
}

#[test]
fn spawned_credentials_are_fresh_per_launch() {
    let a = match local_step("u".to_string(), false) {
        ServerConnection::Spawned { password, .. } => password.unwrap(),
        other => panic!("expected a spawned server, got {:?}", other),
    };
    let b = match local_step("u".to_string(), false) {
        ServerConnection::Spawned { password, .. } => password.unwrap(),
        other => panic!("expected a spawned server, got {:?}", other),
    };
    assert_ne!(a, b);
}
