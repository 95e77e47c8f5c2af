use findit::config::{
    default_database_url, default_docker_cache_retry_seconds, default_docker_cache_ttl_seconds,
    default_gamma_admin_groups, default_host, default_icons_dir, default_oidc_issuer_url,
    default_oidc_redirect_url, default_port, default_session_ttl_hours, env_or_dotenv,
    parse_group_list, Config, ConfigError, ConfigSource,
};
use findit::str_map::StrMap;

fn map(entries: &[(&str, &str)]) -> StrMap<String> {
    let mut m = StrMap::new();
    for (k, v) in entries {
        m.insert((*k).to_string(), (*v).to_string());
    }
    m
}

/// Loads a source that must be accepted, as the server does: check, then read.
fn load(source: &ConfigSource) -> Config {
    assert_eq!(Config::problem(source), None);
    Config::from_source(source)
}

fn required() -> Vec<(&'static str, &'static str)> {
    vec![
        ("OIDC_ISSUER_URL", "https://auth.example.org"),
        ("OIDC_CLIENT_ID", "client"),
        ("OIDC_CLIENT_SECRET", "secret"),
        ("OIDC_REDIRECT_URL", "https://findit.example.org/auth/callback"),
        ("SESSION_COOKIE_SECRET", "cookie"),
        ("GAMMA_ADMIN_GROUPS", "digit, styrit"),
        ("GAMMA_API_CLIENT_ID", "api"),
        ("GAMMA_API_KEY", "key"),
    ]
}

#[test]
fn defaults() {
    assert_eq!(default_host(), "0.0.0.0");
    assert_eq!(default_port(), 8080);
    assert_eq!(default_database_url(), "sqlite://./data/data.db?mode=rwc");
    assert_eq!(default_icons_dir(), "./data/icons");
    assert_eq!(default_docker_cache_ttl_seconds(), 5);
    assert_eq!(default_docker_cache_retry_seconds(), 2);
    assert_eq!(default_oidc_issuer_url(), "https://auth.chalmers.it");
    assert_eq!(default_oidc_redirect_url(), "http://localhost:8080/auth/callback");
    assert_eq!(default_session_ttl_hours(), 12);
    assert!(default_gamma_admin_groups().is_empty());
}

#[test]
fn dotenv_wins_unless_blank() {
    let source = ConfigSource {
        dotenv: map(&[("PORT", "9000"), ("HOST", "  ")]),
        env: map(&[("PORT", "7000"), ("HOST", "127.0.0.1")]),
    };
    assert_eq!(env_or_dotenv("PORT", &source).as_deref(), Some("9000"));
    assert_eq!(env_or_dotenv("HOST", &source).as_deref(), Some("127.0.0.1"));
    assert_eq!(env_or_dotenv("ICONS_DIR", &source), None);
}

#[test]
fn full_configuration_with_defaults() {
    let source = ConfigSource { dotenv: map(&required()), env: StrMap::new() };
    let config = load(&source);
    assert_eq!(config.host, "0.0.0.0");
    assert_eq!(config.port, 8080);
    assert_eq!(config.database_url, "sqlite://./data/data.db?mode=rwc");
    assert_eq!(config.icons_dir, "./data/icons");
    assert_eq!(config.docker_cache_ttl_seconds, 5);
    assert_eq!(config.docker_cache_retry_seconds, 2);
    assert_eq!(config.oidc_issuer_url, "https://auth.example.org");
    assert_eq!(config.oidc_client_id, "client");
    assert_eq!(config.oidc_client_secret, "secret");
    assert_eq!(config.oidc_redirect_url, "https://findit.example.org/auth/callback");
    assert_eq!(config.session_cookie_secret, "cookie");
    assert_eq!(config.session_ttl_hours, 12);
    assert_eq!(config.gamma_admin_groups, vec!["digit".to_string(), "styrit".to_string()]);
    assert_eq!(config.gamma_api_key, "key");
}

#[test]
fn numbers_parse_or_fall_back() {
    let mut entries = required();
    entries.push(("PORT", "+8081"));
    entries.push(("SESSION_TTL_HOURS", "24"));
    entries.push(("DOCKER_CACHE_TTL_SECONDS", "not a number"));
    entries.push(("DOCKER_CACHE_RETRY_SECONDS", " 3"));
    let source = ConfigSource { dotenv: map(&entries), env: StrMap::new() };
    let config = load(&source);
    assert_eq!(config.port, 8081);
    assert_eq!(config.session_ttl_hours, 24);
    assert_eq!(config.docker_cache_ttl_seconds, 5);
    assert_eq!(config.docker_cache_retry_seconds, 2);

    let mut entries = required();
    entries.push(("PORT", "70000"));
    let config =
        load(&ConfigSource { dotenv: map(&entries), env: StrMap::new() });
    assert_eq!(config.port, 8080);
}

#[test]
fn missing_settings_are_reported_in_order() {
    let source = ConfigSource { dotenv: StrMap::new(), env: StrMap::new() };
    let err = Config::problem(&source).unwrap();
    assert_eq!(err, ConfigError::MissingOidcIssuerUrl);
    assert_eq!(err.message(), "Missing OIDC_ISSUER_URL configuration");

    let mut entries = required();
    entries.retain(|(k, _)| *k != "OIDC_CLIENT_ID" && *k != "OIDC_REDIRECT_URL");
    let err = Config::problem(&ConfigSource { dotenv: map(&entries), env: StrMap::new() }).unwrap();
    assert_eq!(err, ConfigError::MissingOidcClientId);
    assert_eq!(err.message(), "Missing OIDC_CLIENT_ID configuration");

    let mut entries = required();
    entries.retain(|(k, _)| *k != "GAMMA_ADMIN_GROUPS");
    entries.push(("GAMMA_ADMIN_GROUPS", " , ,"));
    let err = Config::problem(&ConfigSource { dotenv: map(&entries), env: StrMap::new() }).unwrap();
    assert_eq!(err, ConfigError::MissingGammaAdminGroups);
    assert_eq!(err.message(), "Missing GAMMA_ADMIN_GROUPS configuration");

    let mut entries = required();
    entries.push(("SESSION_TTL_HOURS", "-1"));
    let err = Config::problem(&ConfigSource { dotenv: map(&entries), env: StrMap::new() }).unwrap();
    assert_eq!(err, ConfigError::SessionTtlNotPositive);
    assert_eq!(err.message(), "SESSION_TTL_HOURS must be greater than zero");

    let mut entries = required();
    entries.push(("DOCKER_CACHE_RETRY_SECONDS", "0"));
    let err = Config::problem(&ConfigSource { dotenv: map(&entries), env: StrMap::new() }).unwrap();
    assert_eq!(err, ConfigError::DockerCacheRetryNotPositive);
    assert_eq!(
        err.message(),
        "DOCKER_CACHE_RETRY_SECONDS must be greater than zero"
    );
}

#[test]
fn group_list_is_split_trimmed_and_filtered() {
    assert_eq!(parse_group_list("a, b ,,c,"), vec!["a", "b", "c"]);
    assert!(parse_group_list("").is_empty());
    assert_eq!(parse_group_list("  solo  "), vec!["solo"]);
}

fn without(key: &str) -> ConfigSource {
    let mut entries = required();
    entries.retain(|(k, _)| *k != key);
    ConfigSource { dotenv: map(&entries), env: StrMap::new() }
}

#[test]
fn each_missing_setting_has_its_error() {
    let cases = [
        ("OIDC_ISSUER_URL", ConfigError::MissingOidcIssuerUrl, "Missing OIDC_ISSUER_URL configuration"),
        ("OIDC_CLIENT_ID", ConfigError::MissingOidcClientId, "Missing OIDC_CLIENT_ID configuration"),
        ("OIDC_REDIRECT_URL", ConfigError::MissingOidcRedirectUrl, "Missing OIDC_REDIRECT_URL configuration"),
        ("OIDC_CLIENT_SECRET", ConfigError::MissingOidcClientSecret, "Missing OIDC_CLIENT_SECRET configuration"),
        ("SESSION_COOKIE_SECRET", ConfigError::MissingSessionCookieSecret, "Missing SESSION_COOKIE_SECRET configuration"),
        ("GAMMA_API_CLIENT_ID", ConfigError::MissingGammaApiClientId, "Missing GAMMA_API_CLIENT_ID configuration"),
        ("GAMMA_API_KEY", ConfigError::MissingGammaApiKey, "Missing GAMMA_API_KEY configuration"),
    ];
    for (key, expected, message) in cases {
        let err = Config::problem(&without(key)).unwrap();
        assert_eq!(err, expected);
        assert_eq!(err.message(), message);
    }

    let mut entries = required();
    entries.push(("DOCKER_CACHE_TTL_SECONDS", "0"));
    let err = Config::problem(&ConfigSource { dotenv: map(&entries), env: StrMap::new() }).unwrap();
    assert_eq!(err, ConfigError::DockerCacheTtlNotPositive);
    assert_eq!(err.message(), "DOCKER_CACHE_TTL_SECONDS must be greater than zero");
}

#[test]
fn environment_fills_in_what_dotenv_lacks() {
    let source = ConfigSource {
        dotenv: map(&required()),
        env: map(&[("HOST", "127.0.0.1"), ("OIDC_CLIENT_ID", "from env"), ("ICONS_DIR", "/srv/icons")]),
    };
    let config = load(&source);
    assert_eq!(config.host, "127.0.0.1");
    assert_eq!(config.oidc_client_id, "client");
    assert_eq!(config.icons_dir, "/srv/icons");
}

#[test]
fn blank_issuer_or_redirect_is_missing() {
    let mut entries = required();
    entries.retain(|(k, _)| *k != "OIDC_ISSUER_URL");
    entries.push(("OIDC_ISSUER_URL", "   "));
    let source = ConfigSource { dotenv: map(&entries), env: StrMap::new() };
    assert_eq!(Config::problem(&source).unwrap(), ConfigError::MissingOidcIssuerUrl);

    let mut entries = required();
    entries.retain(|(k, _)| *k != "OIDC_REDIRECT_URL");
    let source = ConfigSource {
        dotenv: map(&entries),
        env: map(&[("OIDC_REDIRECT_URL", "\t")]),
    };
    assert_eq!(Config::problem(&source).unwrap(), ConfigError::MissingOidcRedirectUrl);

    let mut entries = required();
    entries.retain(|(k, _)| *k != "OIDC_REDIRECT_URL");
    let source = ConfigSource {
        dotenv: map(&entries),
        env: map(&[("OIDC_REDIRECT_URL", "http://localhost:8080/auth/callback")]),
    };
    let config = load(&source);
    assert_eq!(config.oidc_redirect_url, "http://localhost:8080/auth/callback");
}
