use gavin::catalog::MetadataSettings;
use gavin::config::{AuthMode, Config, ConfigError, EnvVars};
use gavin::db::sqlite_database_path;

fn env(pairs: &[(&str, &str)]) -> EnvVars {
    EnvVars {
        vars: pairs
            .iter()
            .map(|(k, v)| (k.to_string(), v.to_string()))
            .collect(),
    }
}

#[test]
fn test_auth_mode_from_str() {
    assert_eq!(AuthMode::from_str("oidc").unwrap(), AuthMode::Oidc);
    assert_eq!(AuthMode::from_str("OIDC").unwrap(), AuthMode::Oidc);
    assert_eq!(AuthMode::from_str("dev").unwrap(), AuthMode::Dev);
    assert_eq!(AuthMode::from_str("DEV").unwrap(), AuthMode::Dev);
    assert!(AuthMode::from_str("invalid").is_err());
}

#[test]
fn test_auth_mode_default() {
    assert_eq!(AuthMode::default(), AuthMode::Oidc);
}

#[test]
fn test_dev_mode_no_oidc_required() {
    let result = Config::from_env(&env(&[("AUTH_MODE", "dev")]));
    assert!(result.is_ok(), "Dev mode should not require OIDC vars");

    let config = result.unwrap();
    assert_eq!(config.auth_mode, AuthMode::Dev);
    assert!(config.oidc_issuer_url.is_none());
}

#[test]
fn test_oidc_mode_requires_vars() {
    let result = Config::from_env(&env(&[("AUTH_MODE", "oidc")]));
    assert!(result.is_err(), "OIDC mode should require OIDC vars");
}

#[test]
fn invalid_auth_mode_message() {
    assert_eq!(
        AuthMode::from_str("staging").unwrap_err(),
        "Invalid AUTH_MODE: staging. Must be 'oidc' or 'dev'"
    );
    match Config::from_env(&env(&[("AUTH_MODE", "staging")])) {
        Err(ConfigError::InvalidAuthMode(m)) => {
            assert_eq!(m, "Invalid AUTH_MODE: staging. Must be 'oidc' or 'dev'")
        }
        other => panic!("unexpected: {:?}", other),
    }
}

#[test]
fn oidc_mode_names_the_first_missing_variable() {
    match Config::from_env(&env(&[("AUTH_MODE", "oidc")])) {
        Err(ConfigError::MissingVar(m)) => assert_eq!(m, "OIDC_ISSUER_URL"),
        other => panic!("unexpected: {:?}", other),
    }
    match Config::from_env(&env(&[
        ("OIDC_ISSUER_URL", "https://issuer.example"),
        ("OIDC_CLIENT_ID", "client"),
        ("OIDC_CLIENT_SECRET", "secret"),
    ])) {
        Err(ConfigError::MissingVar(m)) => assert_eq!(m, "SESSION_SECRET"),
        other => panic!("unexpected: {:?}", other),
    }
}

#[test]
fn oidc_mode_defaults_redirect_from_public_domain() {
    let config = Config::from_env(&env(&[
        ("OIDC_ISSUER_URL", "https://issuer.example"),
        ("OIDC_CLIENT_ID", "client"),
        ("OIDC_CLIENT_SECRET", "secret"),
        ("SESSION_SECRET", "s"),
        ("PUBLIC_DOMAIN", "vinyl.example"),
    ]))
    .unwrap();
    assert_eq!(config.auth_mode, AuthMode::Oidc);
    assert_eq!(
        config.oidc_redirect_url.as_deref(),
        Some("https://vinyl.example/api/auth/callback")
    );
}

#[test]
fn invalid_port_is_refused() {
    match Config::from_env(&env(&[("AUTH_MODE", "dev"), ("PORT", "70000")])) {
        Err(ConfigError::InvalidPort(p)) => assert_eq!(p, "70000"),
        other => panic!("unexpected: {:?}", other),
    }
}

#[test]
fn defaults_apply_in_dev_mode() {
    let config = Config::from_env(&env(&[("AUTH_MODE", "dev")])).unwrap();
    assert_eq!(config.database_url, "sqlite://data/gavin.db");
    assert_eq!(config.upload_dir, "data/uploads");
    assert_eq!(config.port, 3000);
    assert_eq!(config.public_domain, "gavin.restanrm.fr");
    assert!(config.cookie_secure);
    assert!(config.album_metadata_enabled);
    assert_eq!(config.album_cover_recognition_provider, "openai");
    assert_eq!(config.gemini_model, "gemini-2.0-flash");
}

#[test]
fn gemini_key_selects_gemini_provider() {
    let config = Config::from_env(&env(&[("AUTH_MODE", "dev"), ("GEMINI_API_KEY", "k")])).unwrap();
    assert_eq!(config.album_cover_recognition_provider, "gemini");
}

#[test]
fn metadata_settings_from_config() {
    let config = Config::from_env(&env(&[
        ("AUTH_MODE", "dev"),
        ("MUSICBRAINZ_BASE_URL", "https://mb.example//"),
        ("UPLOAD_DIR", "data/uploads"),
        ("PUBLIC_DOMAIN", "vinyl.example"),
    ]))
    .unwrap();
    let settings = MetadataSettings::from_config(&config, "0.2.1");
    assert_eq!(settings.musicbrainz_base_url, "https://mb.example");
    assert_eq!(settings.cover_cache_dir, "data/uploads/album-covers");
    assert_eq!(settings.user_agent, "gavin/0.2.1 (https://vinyl.example)");
}

#[test]
fn sqlite_paths() {
    assert_eq!(sqlite_database_path("sqlite://data/gavin.db").as_deref(), Some("data/gavin.db"));
    assert_eq!(sqlite_database_path("sqlite:gavin.db").as_deref(), Some("gavin.db"));
    assert_eq!(sqlite_database_path("sqlite::memory:"), None);
    assert_eq!(sqlite_database_path("sqlite://"), None);
    assert_eq!(sqlite_database_path("postgres://db"), None);
}
