use std::time::Duration;

use datafusion_table_providers_quack::conn::QueryFailure;
use datafusion_table_providers_quack::pool::{
    parse_bool, pool_debug_string, Error, JoinPushDown, QuackConnectionPool, QuackPoolConfig,
};
use datafusion_table_providers_quack::secrets::SecretMap;
use quack_protocol::{QuackClientOptions, DEFAULT_MAX_CONNECTIONS};

fn params(pairs: &[(&str, &str)]) -> SecretMap {
    let mut params = SecretMap::new();
    for (key, value) in pairs {
        params.insert((*key).to_string(), (*value).to_string());
    }
    params
}

fn config(pairs: &[(&str, &str)]) -> QuackPoolConfig {
    QuackPoolConfig::from_params(&params(pairs)).expect("valid params")
}

fn error(pairs: &[(&str, &str)]) -> Error {
    QuackPoolConfig::from_params(&params(pairs))
        .err()
        .expect("invalid params")
}

fn invalid(param: &str, reason: &str) -> Error {
    Error::InvalidParameter {
        param: param.to_string(),
        reason: reason.to_string(),
    }
}

#[test]
fn uri_is_required() {
    let err = error(&[]);
    assert!(matches!(err, Error::MissingParameter { ref param } if param == "uri"));

    let err = error(&[("uri", "  ")]);
    assert!(matches!(err, Error::MissingParameter { .. }));
}

#[test]
fn defaults_apply_when_only_uri_is_given() {
    let config = config(&[("uri", "quack:localhost:9494")]);
    assert_eq!(config.uri, "quack:localhost:9494");
    assert_eq!(config.client_options.auth_token, None);
    assert_eq!(config.client_options.ssl, None);
    assert_eq!(config.pool_options.max_connections, DEFAULT_MAX_CONNECTIONS);
    // The client's own defaults (heartbeat, request timeout) are kept.
    assert!(config.client_options.timeout.is_some());
}

#[test]
fn all_parameters_are_parsed() {
    let config = config(&[
        ("uri", "https://quack.example.com:443"),
        ("auth_token", "super_secret"),
        ("max_connections", "8"),
        ("ssl", "true"),
        ("timeout", "30"),
    ]);
    assert_eq!(
        config.client_options.auth_token.as_deref(),
        Some("super_secret")
    );
    assert_eq!(config.client_options.ssl, Some(true));
    assert_eq!(config.client_options.timeout, Some(Duration::from_secs(30)));
    assert_eq!(config.pool_options.max_connections, 8);
}

#[test]
fn empty_auth_token_means_none() {
    let config = config(&[("uri", "localhost:9494"), ("auth_token", "")]);
    assert_eq!(config.client_options.auth_token, None);
}

#[test]
fn invalid_max_connections_is_rejected() {
    for bad in ["0", "-1", "many"] {
        let err = error(&[("uri", "localhost:9494"), ("max_connections", bad)]);
        assert!(
            matches!(err, Error::InvalidParameter { ref param, .. } if param == "max_connections"),
            "{bad}: {}",
            err.message()
        );
    }
}

#[test]
fn invalid_ssl_and_timeout_are_rejected() {
    let err = error(&[("uri", "localhost:9494"), ("ssl", "maybe")]);
    assert!(matches!(err, Error::InvalidParameter { ref param, .. } if param == "ssl"));

    let err = error(&[("uri", "localhost:9494"), ("timeout", "soon")]);
    assert!(matches!(err, Error::InvalidParameter { ref param, .. } if param == "timeout"));
}

#[test]
fn ssl_accepts_common_spellings() {
    assert!(parse_bool("ssl", "TRUE").unwrap());
    assert!(!parse_bool("ssl", "off").unwrap());
    assert!(parse_bool("ssl", "").is_err());
}

#[test]
fn every_spelling_of_a_truth_value_is_read_in_any_case() {
    for yes in ["true", "1", "yes", "on", "True", "YES", "oN"] {
        assert_eq!(parse_bool("ssl", yes), Ok(true), "{yes}");
    }
    for no in ["false", "0", "no", "off", "False", "NO", "oFF"] {
        assert_eq!(parse_bool("ssl", no), Ok(false), "{no}");
    }
    assert_eq!(
        parse_bool("tls", "MAYBE"),
        Err(invalid("tls", "expected true or false, got 'maybe'"))
    );
    assert_eq!(
        parse_bool("tls", "\u{212a}ES"),
        Err(invalid("tls", "expected true or false, got '\u{212a}es'"))
    );
}

#[test]
fn defaults_are_those_of_the_client() {
    let config = config(&[("uri", "localhost")]);
    let client = QuackClientOptions::default();
    assert_eq!(config.client_options.auth_token, client.auth_token);
    assert_eq!(
        config.client_options.client_duckdb_version,
        client.client_duckdb_version
    );
    assert_eq!(config.client_options.client_platform, client.client_platform);
    assert_eq!(
        config.client_options.min_supported_quack_version,
        client.min_supported_quack_version
    );
    assert_eq!(
        config.client_options.max_supported_quack_version,
        client.max_supported_quack_version
    );
    assert_eq!(config.client_options.client_id, client.client_id);
    assert_eq!(
        config.client_options.heartbeat_timeout,
        client.heartbeat_timeout
    );
    assert_eq!(
        config.client_options.heartbeat_timeout,
        Some(Duration::from_secs(60))
    );
    assert_eq!(config.client_options.ssl, client.ssl);
    assert_eq!(config.client_options.ssl_fingerprint, client.ssl_fingerprint);
    assert_eq!(config.client_options.timeout, client.timeout);
    assert_eq!(
        config.client_options.timeout,
        Some(Duration::from_secs(300))
    );
    assert_eq!(config.client_options.headers, client.headers);
    assert_eq!(config.pool_options.max_connections, 4);
}

#[test]
fn space_around_values_is_ignored() {
    let config = config(&[
        ("uri", "\t localhost:9494\n"),
        ("auth_token", " a token \u{3000}"),
        ("max_connections", " 2 "),
        ("ssl", "\u{a0}No\r\n"),
        ("timeout", " 7 "),
    ]);
    assert_eq!(config.uri, "localhost:9494");
    assert_eq!(config.client_options.auth_token.as_deref(), Some("a token"));
    assert_eq!(config.client_options.ssl, Some(false));
    assert_eq!(config.client_options.timeout, Some(Duration::from_secs(7)));
    assert_eq!(config.pool_options.max_connections, 2);
}

#[test]
fn other_keys_are_ignored() {
    let config = config(&[("uri", "localhost"), ("URI", ""), ("colour", "green")]);
    assert_eq!(config.uri, "localhost");
    assert_eq!(config.pool_options.max_connections, 4);
    assert_eq!(
        error(&[("URI", "localhost")]),
        Error::MissingParameter {
            param: "uri".to_string()
        }
    );
}

#[test]
fn a_blank_token_is_no_token() {
    let config = config(&[("uri", "localhost"), ("auth_token", " \t ")]);
    assert_eq!(config.client_options.auth_token, None);
}

#[test]
fn the_first_error_is_the_one_reported() {
    let bad = [
        ("uri", ""),
        ("ssl", "Perhaps"),
        ("timeout", "1.5"),
        ("max_connections", ""),
    ];
    assert_eq!(
        error(&bad).message(),
        "Missing required parameter: uri"
    );
    let mut pairs = bad;
    pairs[0].1 = "localhost";
    assert_eq!(
        error(&pairs),
        invalid("ssl", "expected true or false, got 'perhaps'")
    );
    pairs[1].1 = "on";
    assert_eq!(
        error(&pairs),
        invalid("timeout", "expected a number of seconds, got '1.5'")
    );
    pairs[2].1 = "1";
    assert_eq!(
        error(&pairs),
        invalid("max_connections", "expected an integer >= 1, got ''")
    );
    pairs[3].1 = "1";
    assert_eq!(config(&pairs).pool_options.max_connections, 1);
}

#[test]
fn numbers_are_taken_up_to_their_limits() {
    let config = config(&[
        ("uri", "localhost"),
        ("timeout", "18446744073709551615"),
        ("max_connections", "+007"),
    ]);
    assert_eq!(
        config.client_options.timeout,
        Some(Duration::from_secs(u64::MAX))
    );
    assert_eq!(config.pool_options.max_connections, 7);
    assert_eq!(
        error(&[("uri", "localhost"), ("timeout", "18446744073709551616")]),
        invalid(
            "timeout",
            "expected a number of seconds, got '18446744073709551616'"
        )
    );
    assert_eq!(
        error(&[("uri", "localhost"), ("max_connections", " 0 ")]),
        invalid("max_connections", "expected an integer >= 1, got '0'")
    );
}

#[test]
fn every_pool_error_has_its_words() {
    assert_eq!(
        invalid("timeout", "too long").message(),
        "Invalid value for parameter 'timeout': too long"
    );
    assert_eq!(
        Error::MissingParameter {
            param: "uri".to_string()
        }
        .message(),
        "Missing required parameter: uri"
    );
    assert_eq!(
        Error::ConnectionError {
            uri: "localhost:1".to_string(),
            source: QueryFailure::Server("no".to_string()),
        }
        .message(),
        "Unable to connect to Quack server 'localhost:1': quack server error: no"
    );
}

#[test]
fn the_log_text_of_a_configuration_hides_the_token() {
    let plain = config(&[("uri", "local\"host")]);
    assert_eq!(
        plain.debug_string(),
        "QuackPoolConfig { uri: \"local\\\"host\", auth_token: None, ssl: None, timeout: Some(300s), max_connections: 4 }"
    );
    let with = |token: &str| {
        config(&[
            ("uri", "localhost"),
            ("auth_token", token),
            ("ssl", "no"),
            ("timeout", "30"),
        ])
        .debug_string()
    };
    assert_eq!(
        with("super_secret"),
        "QuackPoolConfig { uri: \"localhost\", auth_token: Some(\"<redacted>\"), ssl: Some(false), timeout: Some(30s), max_connections: 4 }"
    );
    assert_eq!(with("super_secret"), with("another"));
}

#[test]
fn the_log_text_writes_its_fields_as_std_does() {
    let mut config = config(&[("uri", "tab\there"), ("ssl", "yes")]);
    config.client_options.timeout = None;
    config.pool_options.max_connections = usize::MAX;
    let text = config.debug_string();
    assert!(text.contains(&format!("uri: {:?}", "tab\there")));
    assert!(text.contains(&format!("ssl: {:?}", Some(true))));
    assert!(text.contains(&format!("timeout: {:?},", None::<Duration>)));
    assert!(text.ends_with(&format!("max_connections: {} }}", usize::MAX)));
    for timeout in [
        Duration::from_secs(0),
        Duration::from_secs(3600),
        Duration::from_secs(u64::MAX),
        Duration::from_millis(1500),
    ] {
        config.client_options.timeout = Some(timeout);
        assert!(config
            .debug_string()
            .contains(&format!("timeout: {:?},", Some(timeout))));
    }
}

#[test]
fn a_configuration_made_by_hand_keeps_every_option() {
    let mut config = config(&[("uri", "localhost"), ("auth_token", "t")]);
    config.client_options.headers = vec![("X-Tenant".to_string(), "a".to_string())];
    config.client_options.ssl_fingerprint = Some("sha256:00".to_string());
    config.client_options.heartbeat_timeout = None;
    config.client_options.timeout = Some(Duration::from_millis(1500));
    assert_eq!(
        config.debug_string(),
        "QuackPoolConfig { uri: \"localhost\", auth_token: Some(\"<redacted>\"), ssl: None, timeout: Some(1.5s), max_connections: 4 }"
    );
}

#[test]
fn printable_text_is_written_as_it_is() {
    for n in 0x20..0x7f_u32 {
        let c = char::from_u32(n).expect("a character");
        let uri = format!("h{c}h");
        let text = config(&[("uri", &uri)]).debug_string();
        let plain = c != '"' && c != '\\';
        assert_eq!(text.contains(&format!("uri: \"{uri}\",")), plain, "{c}");
        assert!(text.contains(&format!("uri: {uri:?},")), "{c}");
    }
}

#[test]
fn the_join_context_is_the_address() {
    assert_eq!(
        JoinPushDown::for_uri("quack:localhost:9494"),
        JoinPushDown::AllowedFor("uri=quack:localhost:9494".to_string())
    );
    assert_ne!(JoinPushDown::for_uri("a"), JoinPushDown::for_uri("b"));
    assert_eq!(JoinPushDown::for_uri("a"), JoinPushDown::for_uri("a"));
}

#[test]
fn the_log_text_of_a_pool_shows_its_limit_and_context() {
    let context = JoinPushDown::for_uri("local'host\n");
    assert_eq!(
        pool_debug_string(16, &context),
        format!("QuackConnectionPool {{ max_connections: 16, join_push_down: {context:?} }}")
    );
    assert_eq!(
        pool_debug_string(1, &JoinPushDown::Disallow),
        "QuackConnectionPool { max_connections: 1, join_push_down: Disallow }"
    );
}

#[test]
fn a_failed_attempt_to_connect_names_the_server() {
    let failure = QueryFailure::Http("refused".to_string());
    let err = QuackConnectionPool::from_connect("quack:127.0.0.1:1", Err(failure))
        .err()
        .expect("no pool");
    assert_eq!(
        err.message(),
        "Unable to connect to Quack server 'quack:127.0.0.1:1': http error: refused"
    );
}
