use std::time::Duration;

use authzen_pdp::config::{
    env_or, parse_env, parse_seconds, require_env, resolve_health_target, Config, ConfigError,
    Environment, IpAddress, SocketAddress,
};

fn v4(octets: [u8; 4], port: u16) -> SocketAddress {
    SocketAddress {
        ip: IpAddress::V4 { octets },
        port,
    }
}

fn v6(segments: [u16; 8], port: u16) -> SocketAddress {
    SocketAddress {
        ip: IpAddress::V6 {
            segments,
            flowinfo: 0,
            scope_id: 0,
        },
        port,
    }
}

fn default_bind() -> SocketAddress {
    v4([127, 0, 0, 1], 9000)
}

#[test]
fn health_target_keeps_a_concrete_address() {
    assert_eq!(
        resolve_health_target(Some(v4([10, 0, 0, 5], 8080))),
        v4([10, 0, 0, 5], 8080)
    );
}

#[test]
fn health_target_rewrites_unspecified_addresses_to_loopback() {
    assert_eq!(
        resolve_health_target(Some(v4([0, 0, 0, 0], 8080))),
        v4([127, 0, 0, 1], 8080)
    );
    assert_eq!(
        resolve_health_target(Some(v6([0; 8], 8080))),
        v4([127, 0, 0, 1], 8080)
    );
}

#[test]
fn health_target_keeps_the_configured_port() {
    assert_eq!(
        resolve_health_target(Some(v4([0, 0, 0, 0], 1234))).port,
        1234
    );
}

#[test]
fn health_target_falls_back_when_unparsable() {
    assert_eq!(resolve_health_target(None), default_bind());
    assert_eq!(
        Config::health_target(&Err("invalid socket address syntax".to_string())),
        default_bind()
    );
}

#[test]
fn health_target_is_never_unspecified() {
    for address in [
        Some(v4([0, 0, 0, 0], 1)),
        Some(v4([0, 0, 0, 1], 1)),
        Some(v6([0; 8], 1)),
        Some(v6([0, 0, 0, 0, 0, 0, 0, 1], 1)),
        None,
    ] {
        assert!(!resolve_health_target(address).ip.is_unspecified());
    }
    let scoped = SocketAddress {
        ip: IpAddress::V6 {
            segments: [0xfe80, 0, 0, 0, 0, 0, 0, 1],
            flowinfo: 3,
            scope_id: 7,
        },
        port: 80,
    };
    assert_eq!(Config::health_target(&Ok(scoped)), scoped);
}

fn environment() -> Environment {
    Environment {
        bind: Ok(default_bind()),
        policy_path: Some("policies.cedar".to_string()),
        schema_path: Some("schema.json".to_string()),
        refresh_secs: None,
    }
}

#[test]
fn configuration_takes_what_is_set() {
    let config = Config::from_env(&Environment {
        bind: Ok(v4([10, 0, 0, 5], 80)),
        refresh_secs: Some("45".to_string()),
        ..environment()
    })
    .expect("a configuration");
    assert_eq!(config.bind, v4([10, 0, 0, 5], 80));
    assert_eq!(config.policy_path, "policies.cedar");
    assert_eq!(config.schema_path, "schema.json");
    assert_eq!(config.refresh, Duration::from_secs(45));

    let copy = config.clone();
    assert_eq!(copy.bind, config.bind);
    assert_eq!(copy.policy_path, config.policy_path);
    assert_eq!(copy.schema_path, config.schema_path);
    assert_eq!(copy.refresh, config.refresh);
}

#[test]
fn policies_are_looked_at_twice_a_minute_by_default() {
    let config = Config::from_env(&environment()).expect("a configuration");
    assert_eq!(config.refresh, Duration::from_secs(30));
}

#[test]
fn first_fault_of_the_environment_is_reported() {
    let mut all_wrong = Environment {
        bind: Err("no address".to_string()),
        policy_path: None,
        schema_path: None,
        refresh_secs: Some("soon".to_string()),
    };
    let error = Config::from_env(&all_wrong).expect_err("no address");
    assert!(matches!(error, ConfigError::Invalid("AUTHZ_BIND", _)));
    assert_eq!(
        error.message(),
        "invalid value for AUTHZ_BIND: no address"
    );

    all_wrong.bind = Ok(default_bind());
    let error = Config::from_env(&all_wrong).expect_err("no policies");
    assert!(matches!(error, ConfigError::Missing("AUTHZ_POLICY_PATH")));
    assert_eq!(
        error.message(),
        "missing required environment variable: AUTHZ_POLICY_PATH"
    );

    all_wrong.policy_path = Some("p".to_string());
    let error = Config::from_env(&all_wrong).expect_err("no schema");
    assert!(matches!(error, ConfigError::Missing("AUTHZ_SCHEMA_PATH")));

    all_wrong.schema_path = Some("s".to_string());
    let error = Config::from_env(&all_wrong).expect_err("no time");
    assert_eq!(
        error.message(),
        "invalid value for AUTHZ_POLICY_REFRESH_SECS: invalid digit found in string"
    );

    all_wrong.refresh_secs = Some("1".to_string());
    assert!(Config::from_env(&all_wrong).is_ok());
}

#[test]
fn seconds_are_decimal_numbers() {
    assert_eq!(parse_seconds("0"), Ok(0));
    assert_eq!(parse_seconds("+15"), Ok(15));
    assert_eq!(parse_seconds("18446744073709551615"), Ok(u64::MAX));
    for invalid in ["", "-1", "1.5", " 1", "18446744073709551616"] {
        assert!(parse_seconds(invalid).is_err(), "{invalid:?}");
    }
    assert_eq!(
        parse_seconds("18446744073709551616"),
        Err("number too large to fit in target type".to_string())
    );
    assert_eq!(
        parse_seconds(""),
        Err("cannot parse integer from empty string".to_string())
    );
}

#[test]
fn variables_are_read_with_their_defaults() {
    assert_eq!(env_or(&Some("x".to_string()), "y"), "x");
    assert_eq!(env_or(&None, "y"), "y");
    assert_eq!(
        require_env("KEY", &Some("x".to_string())).expect("set"),
        "x"
    );
    assert!(matches!(
        require_env("KEY", &None),
        Err(ConfigError::Missing("KEY"))
    ));
    assert_eq!(parse_env("KEY", Ok(3)).expect("parsed"), 3);
    let error = parse_env::<u64>("KEY", Err("why".to_string())).expect_err("not parsed");
    assert_eq!(error.message(), "invalid value for KEY: why");
}
