//! Application configuration, read from a snapshot of the process environment.
use vstd::prelude::*;

use crate::text::{
    concat3, copy_string, owned, parse_u16, parse_u16_spec, spec_str_lowercase, str_eq,
    str_to_lowercase, trim_str, trim_ws,
};

verus! {

/// Authentication mode.
#[derive(Clone, Copy, Debug, PartialEq, Eq, Structural)]
pub enum AuthMode {
    /// OIDC authentication (production).
    Oidc,
    /// Development mode: OIDC is disabled and login enables a local dev-admin session.
    Dev,
}

/// The message given for an `AUTH_MODE` value that is neither `oidc` nor `dev`.
pub open spec fn invalid_auth_mode_message(s: Seq<char>) -> Seq<char> {
    "Invalid AUTH_MODE: "@ + s + ". Must be 'oidc' or 'dev'"@
}

/// How an `AUTH_MODE` value is read: case-insensitively `oidc` or `dev`.
pub open spec fn auth_mode_of(s: Seq<char>) -> Result<AuthMode, Seq<char>> {
    if spec_str_lowercase(s) == "oidc"@ {
        Ok(AuthMode::Oidc)
    } else if spec_str_lowercase(s) == "dev"@ {
        Ok(AuthMode::Dev)
    } else {
        Err(invalid_auth_mode_message(s))
    }
}

impl AuthMode {
    /// Parses a mode name, ignoring case.
    pub fn from_str(s: &str) -> (r: Result<AuthMode, String>)
        ensures
            match (r, auth_mode_of(s@)) {
                (Ok(m), Ok(n)) => m == n,
                (Err(e), Err(msg)) => e@ == msg,
                _ => false,
            },
    {
        let lower = str_to_lowercase(s);
        if str_eq(lower.as_str(), "oidc") {
            Ok(AuthMode::Oidc)
        } else if str_eq(lower.as_str(), "dev") {
            Ok(AuthMode::Dev)
        } else {
            Err(concat3("Invalid AUTH_MODE: ", s, ". Must be 'oidc' or 'dev'"))
        }
    }
}

impl Default for AuthMode {
    /// OIDC, the production mode.
    fn default() -> (r: AuthMode)
        ensures
            r == AuthMode::Oidc,
    {
        AuthMode::Oidc
    }
}

/// A snapshot of the process environment: variable names with their values.
#[derive(Clone, Debug)]
pub struct EnvVars {
    pub vars: Vec<(String, String)>,
}

/// The value of the first variable named `key`.
pub open spec fn lookup(vars: Seq<(String, String)>, key: Seq<char>) -> Option<Seq<char>>
    decreases vars.len(),
{
    if vars.len() == 0 {
        None
    } else if vars[0].0@ == key {
        Some(vars[0].1@)
    } else {
        lookup(vars.drop_first(), key)
    }
}

/// The value of `key`, or `default` when it is not set.
pub open spec fn var_or(vars: Seq<(String, String)>, key: Seq<char>, default: Seq<char>) -> Seq<
    char,
> {
    match lookup(vars, key) {
        Some(v) => v,
        None => default,
    }
}

/// The value of `key` when it is set to something other than blanks.
pub open spec fn optional_var(vars: Seq<(String, String)>, key: Seq<char>) -> Option<Seq<char>> {
    match lookup(vars, key) {
        Some(v) => if trim_ws(v).len() > 0 {
            Some(v)
        } else {
            None
        },
        None => None,
    }
}

/// The view of an optional string.
pub open spec fn opt_view(o: Option<String>) -> Option<Seq<char>> {
    match o {
        Some(s) => Some(s@),
        None => None,
    }
}

/// The album-cover recognition provider: the configured one when set, else `gemini` when a
/// Gemini key is set, else `openai`; lower-cased.
pub open spec fn recognition_provider_of(vars: Seq<(String, String)>) -> Seq<char> {
    spec_str_lowercase(
        match optional_var(vars, "ALBUM_COVER_RECOGNITION_PROVIDER"@) {
            Some(v) => v,
            None => if optional_var(vars, "GEMINI_API_KEY"@) is Some {
                "gemini"@
            } else {
                "openai"@
            },
        },
    )
}

/// A boolean setting: anything but the exact text `false` counts as true
/// (`bool::from_str` with `true` as the fallback).
pub open spec fn flag_of(vars: Seq<(String, String)>, key: Seq<char>) -> bool {
    var_or(vars, key, "true"@) != "false"@
}

/// Why a configuration could not be loaded.
#[derive(Debug)]
pub enum ConfigError {
    /// `AUTH_MODE` is neither `oidc` nor `dev`; the message says so.
    InvalidAuthMode(String),
    /// A variable that the selected mode requires is not set.
    MissingVar(String),
    /// `PORT` is not a 16-bit port number.
    InvalidPort(String),
}

/// The mode that the environment selects, or the message for an invalid one.
pub open spec fn env_auth_mode(vars: Seq<(String, String)>) -> Result<AuthMode, Seq<char>> {
    match lookup(vars, "AUTH_MODE"@) {
        Some(s) => auth_mode_of(s),
        None => Ok(AuthMode::Oidc),
    }
}

/// The first variable that OIDC mode requires and that is not set.
pub open spec fn first_missing_oidc_var(vars: Seq<(String, String)>) -> Option<Seq<char>> {
    if lookup(vars, "OIDC_ISSUER_URL"@) is None {
        Some("OIDC_ISSUER_URL"@)
    } else if lookup(vars, "OIDC_CLIENT_ID"@) is None {
        Some("OIDC_CLIENT_ID"@)
    } else if lookup(vars, "OIDC_CLIENT_SECRET"@) is None {
        Some("OIDC_CLIENT_SECRET"@)
    } else if lookup(vars, "SESSION_SECRET"@) is None {
        Some("SESSION_SECRET"@)
    } else {
        None
    }
}

/// The public domain setting.
pub open spec fn public_domain_of(vars: Seq<(String, String)>) -> Seq<char> {
    var_or(vars, "PUBLIC_DOMAIN"@, "gavin.restanrm.fr"@)
}

/// The port setting's text.
pub open spec fn port_text_of(vars: Seq<(String, String)>) -> Seq<char> {
    var_or(vars, "PORT"@, "3000"@)
}

/// Application configuration.
#[derive(Clone, Debug)]
pub struct Config {
    pub database_url: String,
    pub upload_dir: String,
    pub frontend_dir: String,
    pub host: String,
    pub port: u16,
    pub public_domain: String,
    pub auth_mode: AuthMode,
    pub oidc_issuer_url: Option<String>,
    pub oidc_client_id: Option<String>,
    pub oidc_client_secret: Option<String>,
    pub oidc_redirect_url: Option<String>,
    pub session_secret: Option<String>,
    pub cookie_secure: bool,
    pub album_metadata_enabled: bool,
    pub album_metadata_user_agent: Option<String>,
    pub album_cover_recognition_provider: String,
    pub openai_api_key: Option<String>,
    pub openai_base_url: String,
    pub openai_model: String,
    pub gemini_api_key: Option<String>,
    pub gemini_base_url: String,
    pub gemini_model: String,
    pub musicbrainz_base_url: String,
    pub cover_art_archive_base_url: String,
}

/// What went wrong loading a configuration, with the message's characters.
pub enum ConfigFailure {
    InvalidAuthMode(Seq<char>),
    MissingVar(Seq<char>),
    InvalidPort(Seq<char>),
}

/// The failure an error reports.
pub open spec fn failure_of(e: ConfigError) -> ConfigFailure {
    match e {
        ConfigError::InvalidAuthMode(m) => ConfigFailure::InvalidAuthMode(m@),
        ConfigError::MissingVar(m) => ConfigFailure::MissingVar(m@),
        ConfigError::InvalidPort(m) => ConfigFailure::InvalidPort(m@),
    }
}

/// The failure that loading the configuration from `vars` gives, if any.
pub open spec fn config_failure(vars: Seq<(String, String)>) -> Option<ConfigFailure> {
    match env_auth_mode(vars) {
        Err(msg) => Some(ConfigFailure::InvalidAuthMode(msg)),
        Ok(mode) => if mode == AuthMode::Oidc && first_missing_oidc_var(vars) is Some {
            Some(ConfigFailure::MissingVar(first_missing_oidc_var(vars)->0))
        } else if parse_u16_spec(port_text_of(vars)) is None {
            Some(ConfigFailure::InvalidPort(port_text_of(vars)))
        } else {
            None
        },
    }
}

/// The loaded configuration agrees with `vars` in every field.
pub open spec fn config_matches(c: Config, vars: Seq<(String, String)>) -> bool {
    let mode = env_auth_mode(vars)->Ok_0;
    &&& c.auth_mode == mode
    &&& c.database_url@ == var_or(vars, "DATABASE_URL"@, "sqlite://data/gavin.db"@)
    &&& c.upload_dir@ == var_or(vars, "UPLOAD_DIR"@, "data/uploads"@)
    &&& c.frontend_dir@ == var_or(vars, "FRONTEND_DIR"@, "dist"@)
    &&& c.host@ == var_or(vars, "HOST"@, "0.0.0.0"@)
    &&& parse_u16_spec(port_text_of(vars)) == Some(c.port)
    &&& c.public_domain@ == public_domain_of(vars)
    &&& opt_view(c.oidc_issuer_url) == lookup(vars, "OIDC_ISSUER_URL"@)
    &&& opt_view(c.oidc_client_id) == lookup(vars, "OIDC_CLIENT_ID"@)
    &&& opt_view(c.oidc_client_secret) == lookup(vars, "OIDC_CLIENT_SECRET"@)
    &&& opt_view(c.session_secret) == lookup(vars, "SESSION_SECRET"@)
    &&& opt_view(c.oidc_redirect_url) == (if mode == AuthMode::Oidc {
        Some(
            var_or(
                vars,
                "OIDC_REDIRECT_URL"@,
                "https://"@ + public_domain_of(vars) + "/api/auth/callback"@,
            ),
        )
    } else {
        lookup(vars, "OIDC_REDIRECT_URL"@)
    })
    &&& c.cookie_secure == flag_of(vars, "COOKIE_SECURE"@)
    &&& c.album_metadata_enabled == flag_of(vars, "ALBUM_METADATA_ENABLED"@)
    &&& opt_view(c.album_metadata_user_agent) == lookup(vars, "ALBUM_METADATA_USER_AGENT"@)
    &&& c.album_cover_recognition_provider@ == recognition_provider_of(vars)
    &&& opt_view(c.openai_api_key) == optional_var(vars, "OPENAI_API_KEY"@)
    &&& c.openai_base_url@ == var_or(vars, "OPENAI_BASE_URL"@, "https://api.openai.com"@)
    &&& c.openai_model@ == var_or(vars, "OPENAI_ALBUM_COVER_MODEL"@, "gpt-4o-mini"@)
    &&& opt_view(c.gemini_api_key) == optional_var(vars, "GEMINI_API_KEY"@)
    &&& c.gemini_base_url@ == var_or(
        vars,
        "GEMINI_BASE_URL"@,
        "https://generativelanguage.googleapis.com"@,
    )
    &&& c.gemini_model@ == var_or(vars, "GEMINI_ALBUM_COVER_MODEL"@, "gemini-2.0-flash"@)
    &&& c.musicbrainz_base_url@ == var_or(vars, "MUSICBRAINZ_BASE_URL"@, "https://musicbrainz.org"@)
    &&& c.cover_art_archive_base_url@ == var_or(
        vars,
        "COVER_ART_ARCHIVE_BASE_URL"@,
        "https://coverartarchive.org"@,
    )
}

impl EnvVars {
    /// The value of the first variable named `key` (`std::env::var` on the snapshot).
    pub fn var(&self, key: &str) -> (r: Option<String>)
        ensures
            opt_view(r) == lookup(self.vars@, key@),
    {
        let mut i: usize = 0;
        assert(self.vars@.skip(0) =~= self.vars@);
        while i < self.vars.len()
            invariant
                i <= self.vars.len(),
                lookup(self.vars@, key@) == lookup(self.vars@.skip(i as int), key@),
            decreases self.vars.len() - i,
        {
            assert(self.vars@.skip(i as int)[0] == self.vars@[i as int]);
            assert(self.vars@.skip(i as int).drop_first() =~= self.vars@.skip(i + 1));
            if str_eq(self.vars[i].0.as_str(), key) {
                return Some(copy_string(&self.vars[i].1));
            }
            i += 1;
        }
        None
    }

    /// The value of `key`, or `default` when it is not set.
    pub fn var_or(&self, key: &str, default: &str) -> (r: String)
        ensures
            r@ == var_or(self.vars@, key@, default@),
    {
        match self.var(key) {
            Some(v) => v,
            None => owned(default),
        }
    }

    /// The value of `key` when it is set to something other than blanks.
    pub fn optional_env(&self, key: &str) -> (r: Option<String>)
        ensures
            opt_view(r) == optional_var(self.vars@, key@),
    {
        match self.var(key) {
            Some(v) => {
                let t = trim_str(v.as_str());
                if t.len() > 0 {
                    Some(v)
                } else {
                    None
                }
            },
            None => None,
        }
    }

    /// A boolean setting, true unless set to exactly `false`.
    pub fn flag(&self, key: &str) -> (r: bool)
        ensures
            r == flag_of(self.vars@, key@),
    {
        let v = self.var_or(key, "true");
        !str_eq(v.as_str(), "false")
    }

    /// The album-cover recognition provider to use.
    pub fn album_cover_recognition_provider(&self) -> (r: String)
        ensures
            r@ == recognition_provider_of(self.vars@),
    {
        let chosen = match self.optional_env("ALBUM_COVER_RECOGNITION_PROVIDER") {
            Some(v) => v,
            None => if self.optional_env("GEMINI_API_KEY").is_some() {
                owned("gemini")
            } else {
                owned("openai")
            },
        };
        str_to_lowercase(chosen.as_str())
    }
}

impl Config {
    /// Loads the configuration from an environment snapshot. OIDC mode requires the OIDC
    /// issuer, client id, client secret and session secret; dev mode requires none of them.
    pub fn from_env(env: &EnvVars) -> (r: Result<Config, ConfigError>)
        ensures
            r is Ok <==> config_failure(env.vars@) is None,
            r matches Ok(c) ==> config_matches(c, env.vars@),
            r matches Err(e) ==> Some(failure_of(e)) == config_failure(env.vars@),
    {
        let auth_mode = match env.var("AUTH_MODE") {
            Some(s) => match AuthMode::from_str(s.as_str()) {
                Ok(m) => m,
                Err(msg) => {
                    return Err(ConfigError::InvalidAuthMode(msg));
                },
            },
            None => AuthMode::Oidc,
        };
        let public_domain = env.var_or("PUBLIC_DOMAIN", "gavin.restanrm.fr");
        let (oidc_issuer_url, oidc_client_id, oidc_client_secret, oidc_redirect_url, session_secret) =
            if auth_mode == AuthMode::Oidc {
            let issuer = match env.var("OIDC_ISSUER_URL") {
                Some(v) => v,
                None => {
                    return Err(ConfigError::MissingVar(owned("OIDC_ISSUER_URL")));
                },
            };
            let client_id = match env.var("OIDC_CLIENT_ID") {
                Some(v) => v,
                None => {
                    return Err(ConfigError::MissingVar(owned("OIDC_CLIENT_ID")));
                },
            };
            let client_secret = match env.var("OIDC_CLIENT_SECRET") {
                Some(v) => v,
                None => {
                    return Err(ConfigError::MissingVar(owned("OIDC_CLIENT_SECRET")));
                },
            };
            let redirect = match env.var("OIDC_REDIRECT_URL") {
                Some(v) => v,
                None => concat3("https://", public_domain.as_str(), "/api/auth/callback"),
            };
            let secret = match env.var("SESSION_SECRET") {
                Some(v) => v,
                None => {
                    return Err(ConfigError::MissingVar(owned("SESSION_SECRET")));
                },
            };
            (Some(issuer), Some(client_id), Some(client_secret), Some(redirect), Some(secret))
        } else {
            (
                env.var("OIDC_ISSUER_URL"),
                env.var("OIDC_CLIENT_ID"),
                env.var("OIDC_CLIENT_SECRET"),
                env.var("OIDC_REDIRECT_URL"),
                env.var("SESSION_SECRET"),
            )
        };
        let database_url = env.var_or("DATABASE_URL", "sqlite://data/gavin.db");
        let upload_dir = env.var_or("UPLOAD_DIR", "data/uploads");
        let frontend_dir = env.var_or("FRONTEND_DIR", "dist");
        let host = env.var_or("HOST", "0.0.0.0");
        let port_text = env.var_or("PORT", "3000");
        let port = match parse_u16(port_text.as_str()) {
            Some(p) => p,
            None => {
                return Err(ConfigError::InvalidPort(port_text));
            },
        };
        let cookie_secure = env.flag("COOKIE_SECURE");
        let album_metadata_enabled = env.flag("ALBUM_METADATA_ENABLED");
        let album_metadata_user_agent = env.var("ALBUM_METADATA_USER_AGENT");
        let album_cover_recognition_provider = env.album_cover_recognition_provider();
        let openai_api_key = env.optional_env("OPENAI_API_KEY");
        let openai_base_url = env.var_or("OPENAI_BASE_URL", "https://api.openai.com");
        let openai_model = env.var_or("OPENAI_ALBUM_COVER_MODEL", "gpt-4o-mini");
        let gemini_api_key = env.optional_env("GEMINI_API_KEY");
        let gemini_base_url = env.var_or(
            "GEMINI_BASE_URL",
            "https://generativelanguage.googleapis.com",
        );
        let gemini_model = env.var_or("GEMINI_ALBUM_COVER_MODEL", "gemini-2.0-flash");
        let musicbrainz_base_url = env.var_or("MUSICBRAINZ_BASE_URL", "https://musicbrainz.org");
        let cover_art_archive_base_url = env.var_or(
            "COVER_ART_ARCHIVE_BASE_URL",
            "https://coverartarchive.org",
        );
        Ok(Config {
            database_url,
            upload_dir,
            frontend_dir,
            host,
            port,
            public_domain,
            auth_mode,
            oidc_issuer_url,
            oidc_client_id,
            oidc_client_secret,
            oidc_redirect_url,
            session_secret,
            cookie_secure,
            album_metadata_enabled,
            album_metadata_user_agent,
            album_cover_recognition_provider,
            openai_api_key,
            openai_base_url,
            openai_model,
            gemini_api_key,
            gemini_base_url,
            gemini_model,
            musicbrainz_base_url,
            cover_art_archive_base_url,
        })
    }
}

/// Dev mode never requires OIDC settings: whenever `AUTH_MODE` selects dev mode and the port
/// is valid, the configuration loads, whichever OIDC variables are set or missing.
pub proof fn dev_mode_requires_no_oidc_vars(vars: Seq<(String, String)>)
    requires
        env_auth_mode(vars) == Ok::<AuthMode, Seq<char>>(AuthMode::Dev),
        parse_u16_spec(port_text_of(vars)) is Some,
    ensures
        config_failure(vars) is None,
{
}

/// OIDC mode (selected explicitly or by default) refuses to load without an issuer URL.
pub proof fn oidc_mode_requires_issuer(vars: Seq<(String, String)>)
    requires
        env_auth_mode(vars) == Ok::<AuthMode, Seq<char>>(AuthMode::Oidc),
        lookup(vars, "OIDC_ISSUER_URL"@) is None,
    ensures
        config_failure(vars) == Some(ConfigFailure::MissingVar("OIDC_ISSUER_URL"@)),
{
}

/// Reading the mode ignores case: two spellings with the same lower-case form select the
/// same mode.
pub proof fn auth_mode_ignores_case(a: Seq<char>, b: Seq<char>)
    requires
        spec_str_lowercase(a) == spec_str_lowercase(b),
    ensures
        auth_mode_of(a) is Ok <==> auth_mode_of(b) is Ok,
        auth_mode_of(a) is Ok ==> auth_mode_of(a) == auth_mode_of(b),
{
}

} // verus!
