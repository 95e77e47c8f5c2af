use vstd::prelude::*;

use crate::number::{parse_i64, parse_signed, parse_u16, parse_u64, parse_unsigned};
use crate::str_map::StrMap;
use crate::text::{blank, chars_of, is_blank, string_of, trim, trim_chars};

verus! {

// ── Defaults ─────────────────────────────────────────────────────────────────

/// Address the server binds to when `HOST` is unset or is not an IP address.
pub fn default_host() -> (r: String)
    ensures
        r@ == "0.0.0.0"@,
{
    "0.0.0.0".to_owned()
}

/// Port the server listens on when `PORT` is unset or unparsable.
pub fn default_port() -> (r: u16)
    ensures
        r == 8080,
{
    8080
}

/// Database URL used when `DATABASE_URL` is unset.
pub fn default_database_url() -> (r: String)
    ensures
        r@ == "sqlite://./data/data.db?mode=rwc"@,
{
    "sqlite://./data/data.db?mode=rwc".to_owned()
}

/// Directory of uploaded icons when `ICONS_DIR` is unset.
pub fn default_icons_dir() -> (r: String)
    ensures
        r@ == "./data/icons"@,
{
    "./data/icons".to_owned()
}

/// Seconds that Docker-discovered services stay cached.
pub fn default_docker_cache_ttl_seconds() -> (r: u64)
    ensures
        r == 5,
{
    5
}

/// Seconds to wait after a failed Docker refresh.
pub fn default_docker_cache_retry_seconds() -> (r: u64)
    ensures
        r == 2,
{
    2
}

/// The OpenID provider the project is meant for (Gamma); a deployment
/// names its own in the required `OIDC_ISSUER_URL`.
pub fn default_oidc_issuer_url() -> (r: String)
    ensures
        r@ == "https://auth.chalmers.it"@,
{
    "https://auth.chalmers.it".to_owned()
}

/// The login callback of a local development server; a deployment names
/// its own in the required `OIDC_REDIRECT_URL`.
pub fn default_oidc_redirect_url() -> (r: String)
    ensures
        r@ == "http://localhost:8080/auth/callback"@,
{
    "http://localhost:8080/auth/callback".to_owned()
}

/// Hours a session lasts when `SESSION_TTL_HOURS` is unset or unparsable.
pub fn default_session_ttl_hours() -> (r: i64)
    ensures
        r == 12,
{
    12
}

/// The admin groups when `GAMMA_ADMIN_GROUPS` is unset: none.
pub fn default_gamma_admin_groups() -> (r: Vec<String>)
    ensures
        r@.len() == 0,
{
    Vec::new()
}

// ── Where settings come from ─────────────────────────────────────────────────

/// The settings of the `.env` file and of the process environment.
pub struct ConfigSource {
    pub dotenv: StrMap<String>,
    pub env: StrMap<String>,
}

/// The setting `key`: the `.env` file's value unless it is blank, else the
/// environment's value unless it is blank.
pub open spec fn setting(source: ConfigSource, key: Seq<char>) -> Option<Seq<char>> {
    if source.dotenv@.contains_key(key) && !is_blank(source.dotenv@[key]@) {
        Some(source.dotenv@[key]@)
    } else if source.env@.contains_key(key) && !is_blank(source.env@[key]@) {
        Some(source.env@[key]@)
    } else {
        None
    }
}

/// The value of the setting `key` (see `setting`).
pub fn env_or_dotenv(key: &str, source: &ConfigSource) -> (r: Option<String>)
    ensures
        match (r, setting(*source, key@)) {
            (Some(a), Some(b)) => a@ == b,
            (None, None) => true,
            _ => false,
        },
{
    if let Some(v) = source.dotenv.get(key) {
        if !blank(v.as_str()) {
            return Some(v.clone());
        }
    }
    if let Some(v) = source.env.get(key) {
        if !blank(v.as_str()) {
            return Some(v.clone());
        }
    }
    None
}

/// A text setting, or `default` when it is unset.
pub open spec fn text_setting(source: ConfigSource, key: Seq<char>, default: Seq<char>) -> Seq<
    char,
> {
    match setting(source, key) {
        Some(v) => v,
        None => default,
    }
}

/// An unsigned setting no greater than `max`, or `default` when it is unset
/// or does not parse.
pub open spec fn unsigned_setting(
    source: ConfigSource,
    key: Seq<char>,
    max: nat,
    default: nat,
) -> nat {
    match setting(source, key) {
        Some(v) => match parse_unsigned(v, max) {
            Some(n) => n,
            None => default,
        },
        None => default,
    }
}

/// A signed setting, or `default` when it is unset or does not parse.
pub open spec fn signed_setting(source: ConfigSource, key: Seq<char>, default: int) -> int {
    match setting(source, key) {
        Some(v) => match parse_signed(v) {
            Some(n) => n,
            None => default,
        },
        None => default,
    }
}

// ── The admin groups list ────────────────────────────────────────────────────

/// The pieces of `s` between commas (`str::split(',')`): one more piece than
/// there are commas.
pub open spec fn split_commas(s: Seq<char>) -> Seq<Seq<char>>
    decreases s.len(),
{
    if s.len() == 0 {
        seq![Seq::empty()]
    } else {
        let r = split_commas(s.drop_last());
        if s.last() == ',' {
            r.push(Seq::empty())
        } else {
            r.update(r.len() - 1, r.last().push(s.last()))
        }
    }
}

/// The trimmed pieces that are not empty, in order.
pub open spec fn nonblank_trimmed(pieces: Seq<Seq<char>>) -> Seq<Seq<char>>
    decreases pieces.len(),
{
    if pieces.len() == 0 {
        Seq::empty()
    } else {
        let r = nonblank_trimmed(pieces.drop_last());
        if trim(pieces.last()).len() > 0 {
            r.push(trim(pieces.last()))
        } else {
            r
        }
    }
}

/// The groups that a comma-separated list names: each piece trimmed, empty
/// pieces left out.
pub open spec fn group_list(s: Seq<char>) -> Seq<Seq<char>> {
    nonblank_trimmed(split_commas(s))
}

proof fn lemma_split_commas_nonempty(s: Seq<char>)
    ensures
        split_commas(s).len() >= 1,
    decreases s.len(),
{
    if s.len() > 0 {
        lemma_split_commas_nonempty(s.drop_last());
    }
}

/// The groups of a comma-separated list (see `group_list`).
pub fn parse_group_list(s: &str) -> (r: Vec<String>)
    ensures
        r@.map_values(|g: String| g@) == group_list(s@),
{
    let cs = chars_of(s);
    let n = cs.len();
    let mut done: Vec<String> = Vec::new();
    let mut cur: Vec<char> = Vec::new();
    for i in 0..n
        invariant
            n == cs@.len(),
            cs@ == s@,
            split_commas(cs@.take(i as int)).len() >= 1,
            done@.map_values(|g: String| g@) == nonblank_trimmed(
                split_commas(cs@.take(i as int)).drop_last(),
            ),
            cur@ == split_commas(cs@.take(i as int)).last(),
    {
        let ghost prev = cs@.take(i as int);
        let ghost next = cs@.take(i + 1);
        proof {
            assert(next.drop_last() == prev);
            assert(next.last() == cs@[i as int]);
            lemma_split_commas_nonempty(prev);
        }
        if cs[i] == ',' {
            let piece = trim_chars(cur.as_slice());
            proof {
                let sp = split_commas(prev);
                assert(split_commas(next) == sp.push(Seq::empty()));
                assert(split_commas(next).drop_last() == sp);
                assert(sp.drop_last().push(sp.last()) == sp);
                assert(nonblank_trimmed(sp).len() >= 0);
            }
            if piece.len() > 0 {
                done.push(string_of(piece.as_slice()));
            }
            cur = Vec::new();
            proof {
                let sp = split_commas(prev);
                assert(sp.drop_last().push(sp.last()) == sp);
                assert(done@.map_values(|g: String| g@) == nonblank_trimmed(sp));
            }
        } else {
            cur.push(cs[i]);
            proof {
                let sp = split_commas(prev);
                assert(split_commas(next).drop_last() == sp.drop_last());
            }
        }
    }
    let piece = trim_chars(cur.as_slice());
    proof {
        assert(cs@.take(n as int) == cs@);
        let sp = split_commas(cs@);
        assert(sp.drop_last().push(sp.last()) == sp);
    }
    if piece.len() > 0 {
        done.push(string_of(piece.as_slice()));
    }
    done
}


// ── The configuration ────────────────────────────────────────────────────────

/// The server's settings.
#[derive(Clone, Debug)]
pub struct Config {
    /// The address to bind, as text; it is used when it parses as an IP
    /// address, else `default_host` is.
    pub host: String,
    pub port: u16,
    pub database_url: String,
    pub icons_dir: String,
    pub docker_cache_ttl_seconds: u64,
    pub docker_cache_retry_seconds: u64,
    pub oidc_issuer_url: String,
    pub oidc_client_id: String,
    pub oidc_client_secret: String,
    pub oidc_redirect_url: String,
    pub session_cookie_secret: String,
    pub session_ttl_hours: i64,
    pub gamma_admin_groups: Vec<String>,
    pub gamma_api_client_id: String,
    pub gamma_api_key: String,
}

/// A setting that is required or out of range.
#[derive(Clone, Copy, Debug, PartialEq, Eq)]
pub enum ConfigError {
    MissingOidcIssuerUrl,
    MissingOidcClientId,
    MissingOidcClientSecret,
    MissingOidcRedirectUrl,
    MissingSessionCookieSecret,
    SessionTtlNotPositive,
    MissingGammaAdminGroups,
    MissingGammaApiClientId,
    MissingGammaApiKey,
    DockerCacheTtlNotPositive,
    DockerCacheRetryNotPositive,
}

/// The message of a configuration error.
pub open spec fn config_error_message(e: ConfigError) -> Seq<char> {
    match e {
        ConfigError::MissingOidcIssuerUrl => "Missing OIDC_ISSUER_URL configuration"@,
        ConfigError::MissingOidcClientId => "Missing OIDC_CLIENT_ID configuration"@,
        ConfigError::MissingOidcClientSecret => "Missing OIDC_CLIENT_SECRET configuration"@,
        ConfigError::MissingOidcRedirectUrl => "Missing OIDC_REDIRECT_URL configuration"@,
        ConfigError::MissingSessionCookieSecret => "Missing SESSION_COOKIE_SECRET configuration"@,
        ConfigError::SessionTtlNotPositive => "SESSION_TTL_HOURS must be greater than zero"@,
        ConfigError::MissingGammaAdminGroups => "Missing GAMMA_ADMIN_GROUPS configuration"@,
        ConfigError::MissingGammaApiClientId => "Missing GAMMA_API_CLIENT_ID configuration"@,
        ConfigError::MissingGammaApiKey => "Missing GAMMA_API_KEY configuration"@,
        ConfigError::DockerCacheTtlNotPositive => "DOCKER_CACHE_TTL_SECONDS must be greater than zero"@,
        ConfigError::DockerCacheRetryNotPositive => "DOCKER_CACHE_RETRY_SECONDS must be greater than zero"@,
    }
}

impl ConfigError {
    /// The message of this error.
    pub fn message(&self) -> (r: &'static str)
        ensures
            r@ == config_error_message(*self),
    {
        match self {
            ConfigError::MissingOidcIssuerUrl => "Missing OIDC_ISSUER_URL configuration",
            ConfigError::MissingOidcClientId => "Missing OIDC_CLIENT_ID configuration",
            ConfigError::MissingOidcClientSecret => "Missing OIDC_CLIENT_SECRET configuration",
            ConfigError::MissingOidcRedirectUrl => "Missing OIDC_REDIRECT_URL configuration",
            ConfigError::MissingSessionCookieSecret => "Missing SESSION_COOKIE_SECRET configuration",
            ConfigError::SessionTtlNotPositive => "SESSION_TTL_HOURS must be greater than zero",
            ConfigError::MissingGammaAdminGroups => "Missing GAMMA_ADMIN_GROUPS configuration",
            ConfigError::MissingGammaApiClientId => "Missing GAMMA_API_CLIENT_ID configuration",
            ConfigError::MissingGammaApiKey => "Missing GAMMA_API_KEY configuration",
            ConfigError::DockerCacheTtlNotPositive => "DOCKER_CACHE_TTL_SECONDS must be greater than zero",
            ConfigError::DockerCacheRetryNotPositive => "DOCKER_CACHE_RETRY_SECONDS must be greater than zero",
        }
    }
}

/// The admin groups that the source names.
pub open spec fn admin_groups(source: ConfigSource) -> Seq<Seq<char>> {
    match setting(source, "GAMMA_ADMIN_GROUPS"@) {
        Some(v) => group_list(v),
        None => Seq::empty(),
    }
}

/// The first required setting that is missing or out of range, in the order
/// they are checked, or `None` when all are in order.
pub open spec fn config_problem(source: ConfigSource) -> Option<ConfigError> {
    if is_blank(text_setting(source, "OIDC_ISSUER_URL"@, Seq::empty())) {
        Some(ConfigError::MissingOidcIssuerUrl)
    } else if is_blank(text_setting(source, "OIDC_CLIENT_ID"@, Seq::empty())) {
        Some(ConfigError::MissingOidcClientId)
    } else if is_blank(text_setting(source, "OIDC_CLIENT_SECRET"@, Seq::empty())) {
        Some(ConfigError::MissingOidcClientSecret)
    } else if is_blank(text_setting(source, "OIDC_REDIRECT_URL"@, Seq::empty())) {
        Some(ConfigError::MissingOidcRedirectUrl)
    } else if is_blank(text_setting(source, "SESSION_COOKIE_SECRET"@, Seq::empty())) {
        Some(ConfigError::MissingSessionCookieSecret)
    } else if signed_setting(source, "SESSION_TTL_HOURS"@, 12) <= 0 {
        Some(ConfigError::SessionTtlNotPositive)
    } else if admin_groups(source).len() == 0 {
        Some(ConfigError::MissingGammaAdminGroups)
    } else if is_blank(text_setting(source, "GAMMA_API_CLIENT_ID"@, Seq::empty())) {
        Some(ConfigError::MissingGammaApiClientId)
    } else if is_blank(text_setting(source, "GAMMA_API_KEY"@, Seq::empty())) {
        Some(ConfigError::MissingGammaApiKey)
    } else if unsigned_setting(source, "DOCKER_CACHE_TTL_SECONDS"@, u64::MAX as nat, 5) == 0 {
        Some(ConfigError::DockerCacheTtlNotPositive)
    } else if unsigned_setting(source, "DOCKER_CACHE_RETRY_SECONDS"@, u64::MAX as nat, 2) == 0 {
        Some(ConfigError::DockerCacheRetryNotPositive)
    } else {
        None
    }
}

/// The configuration's settings are those that the source gives, with the
/// defaults where it gives none (or an unparsable number).
pub open spec fn config_matches(c: Config, source: ConfigSource) -> bool {
    &&& c.host@ == text_setting(source, "HOST"@, "0.0.0.0"@)
    &&& c.port == unsigned_setting(source, "PORT"@, u16::MAX as nat, 8080)
    &&& c.database_url@ == text_setting(
        source,
        "DATABASE_URL"@,
        "sqlite://./data/data.db?mode=rwc"@,
    )
    &&& c.icons_dir@ == text_setting(source, "ICONS_DIR"@, "./data/icons"@)
    &&& c.docker_cache_ttl_seconds == unsigned_setting(
        source,
        "DOCKER_CACHE_TTL_SECONDS"@,
        u64::MAX as nat,
        5,
    )
    &&& c.docker_cache_retry_seconds == unsigned_setting(
        source,
        "DOCKER_CACHE_RETRY_SECONDS"@,
        u64::MAX as nat,
        2,
    )
    &&& c.oidc_issuer_url@ == text_setting(source, "OIDC_ISSUER_URL"@, Seq::empty())
    &&& c.oidc_client_id@ == text_setting(source, "OIDC_CLIENT_ID"@, Seq::empty())
    &&& c.oidc_client_secret@ == text_setting(source, "OIDC_CLIENT_SECRET"@, Seq::empty())
    &&& c.oidc_redirect_url@ == text_setting(source, "OIDC_REDIRECT_URL"@, Seq::empty())
    &&& c.session_cookie_secret@ == text_setting(source, "SESSION_COOKIE_SECRET"@, Seq::empty())
    &&& c.session_ttl_hours == signed_setting(source, "SESSION_TTL_HOURS"@, 12)
    &&& c.gamma_admin_groups@.map_values(|g: String| g@) == admin_groups(source)
    &&& c.gamma_api_client_id@ == text_setting(source, "GAMMA_API_CLIENT_ID"@, Seq::empty())
    &&& c.gamma_api_key@ == text_setting(source, "GAMMA_API_KEY"@, Seq::empty())
}

/// The text that a source gives for `key`: the `.env` file's value when it
/// has one that is not blank, else the environment's when it has one that is
/// not blank, else `default`.
pub open spec fn given_or(
    dotenv: Map<Seq<char>, String>,
    env: Map<Seq<char>, String>,
    key: Seq<char>,
    default: Seq<char>,
    value: Seq<char>,
) -> bool {
    &&& dotenv.contains_key(key) && !is_blank(dotenv[key]@) ==> value == dotenv[key]@
    &&& !(dotenv.contains_key(key) && !is_blank(dotenv[key]@)) && env.contains_key(key)
        && !is_blank(env[key]@) ==> value == env[key]@
    &&& !(dotenv.contains_key(key) && !is_blank(dotenv[key]@)) && !(env.contains_key(key)
        && !is_blank(env[key]@)) ==> value == default
}

/// Every text setting of a configuration read from a source is what the
/// source gives for its key, the `.env` file before the environment and
/// neither when blank, and its default only when the source gives none.
pub proof fn lemma_text_settings_come_from_source(c: Config, source: ConfigSource)
    requires
        config_matches(c, source),
    ensures
        given_or(source.dotenv@, source.env@, "HOST"@, "0.0.0.0"@, c.host@),
        given_or(
            source.dotenv@,
            source.env@,
            "DATABASE_URL"@,
            "sqlite://./data/data.db?mode=rwc"@,
            c.database_url@,
        ),
        given_or(source.dotenv@, source.env@, "ICONS_DIR"@, "./data/icons"@, c.icons_dir@),
        given_or(source.dotenv@, source.env@, "OIDC_ISSUER_URL"@, Seq::empty(), c.oidc_issuer_url@),
        given_or(source.dotenv@, source.env@, "OIDC_CLIENT_ID"@, Seq::empty(), c.oidc_client_id@),
        given_or(
            source.dotenv@,
            source.env@,
            "OIDC_CLIENT_SECRET"@,
            Seq::empty(),
            c.oidc_client_secret@,
        ),
        given_or(
            source.dotenv@,
            source.env@,
            "OIDC_REDIRECT_URL"@,
            Seq::empty(),
            c.oidc_redirect_url@,
        ),
        given_or(
            source.dotenv@,
            source.env@,
            "SESSION_COOKIE_SECRET"@,
            Seq::empty(),
            c.session_cookie_secret@,
        ),
        given_or(
            source.dotenv@,
            source.env@,
            "GAMMA_API_CLIENT_ID"@,
            Seq::empty(),
            c.gamma_api_client_id@,
        ),
        given_or(source.dotenv@, source.env@, "GAMMA_API_KEY"@, Seq::empty(), c.gamma_api_key@),
{
}

/// The numbers of a configuration read from a source: the port, the cache
/// windows and the session lifetime are the numbers the source's settings
/// spell (within the type's range), and their defaults when a setting is
/// missing or does not spell one.
pub proof fn lemma_number_settings_come_from_source(c: Config, source: ConfigSource)
    requires
        config_matches(c, source),
    ensures
        match setting(source, "PORT"@) {
            Some(v) => match parse_unsigned(v, 65535) {
                Some(n) => c.port == n,
                None => c.port == 8080,
            },
            None => c.port == 8080,
        },
        match setting(source, "DOCKER_CACHE_TTL_SECONDS"@) {
            Some(v) => match parse_unsigned(v, 18446744073709551615) {
                Some(n) => c.docker_cache_ttl_seconds == n,
                None => c.docker_cache_ttl_seconds == 5,
            },
            None => c.docker_cache_ttl_seconds == 5,
        },
        match setting(source, "DOCKER_CACHE_RETRY_SECONDS"@) {
            Some(v) => match parse_unsigned(v, 18446744073709551615) {
                Some(n) => c.docker_cache_retry_seconds == n,
                None => c.docker_cache_retry_seconds == 2,
            },
            None => c.docker_cache_retry_seconds == 2,
        },
        match setting(source, "SESSION_TTL_HOURS"@) {
            Some(v) => match parse_signed(v) {
                Some(n) => c.session_ttl_hours == n,
                None => c.session_ttl_hours == 12,
            },
            None => c.session_ttl_hours == 12,
        },
{
}

fn text_or(key: &str, source: &ConfigSource, default: String) -> (r: String)
    ensures
        r@ == text_setting(*source, key@, default@),
{
    match env_or_dotenv(key, source) {
        Some(v) => v,
        None => default,
    }
}

fn u64_or(key: &str, source: &ConfigSource, default: u64) -> (r: u64)
    ensures
        r == unsigned_setting(*source, key@, u64::MAX as nat, default as nat),
{
    match env_or_dotenv(key, source) {
        Some(v) => match parse_u64(chars_of(v.as_str()).as_slice()) {
            Some(n) => n,
            None => default,
        },
        None => default,
    }
}

impl Config {
    /// The configuration that the `.env` file and the environment give.  A
    /// source with a required setting missing or out of range is refused (the
    /// server does not start); `problem` tells which.
    pub fn from_source(source: &ConfigSource) -> (c: Config)
        requires
            config_problem(*source) is None,
        ensures
            config_matches(c, *source),
    {
        read_settings(source)
    }

    /// The first required setting of the source that is missing or out of
    /// range, in the order they are checked, or `None` when
    /// `from_source` accepts the source.
    pub fn problem(source: &ConfigSource) -> (r: Option<ConfigError>)
        ensures
            r == config_problem(*source),
    {
        let c = read_settings(source);
        proof {
            assert(c.gamma_admin_groups@.map_values(|g: String| g@).len() == c.gamma_admin_groups@.len());
        }
        if blank(c.oidc_issuer_url.as_str()) {
            return Some(ConfigError::MissingOidcIssuerUrl);
        }
        if blank(c.oidc_client_id.as_str()) {
            return Some(ConfigError::MissingOidcClientId);
        }
        if blank(c.oidc_client_secret.as_str()) {
            return Some(ConfigError::MissingOidcClientSecret);
        }
        if blank(c.oidc_redirect_url.as_str()) {
            return Some(ConfigError::MissingOidcRedirectUrl);
        }
        if blank(c.session_cookie_secret.as_str()) {
            return Some(ConfigError::MissingSessionCookieSecret);
        }
        if c.session_ttl_hours <= 0 {
            return Some(ConfigError::SessionTtlNotPositive);
        }
        if c.gamma_admin_groups.len() == 0 {
            return Some(ConfigError::MissingGammaAdminGroups);
        }
        if blank(c.gamma_api_client_id.as_str()) {
            return Some(ConfigError::MissingGammaApiClientId);
        }
        if blank(c.gamma_api_key.as_str()) {
            return Some(ConfigError::MissingGammaApiKey);
        }
        if c.docker_cache_ttl_seconds == 0 {
            return Some(ConfigError::DockerCacheTtlNotPositive);
        }
        if c.docker_cache_retry_seconds == 0 {
            return Some(ConfigError::DockerCacheRetryNotPositive);
        }
        None
    }
}

/// The settings that the source gives, with the defaults where it gives none.
fn read_settings(source: &ConfigSource) -> (c: Config)
    ensures
        config_matches(c, *source),
{
    let host = text_or("HOST", source, default_host());
    let port = match env_or_dotenv("PORT", source) {
        Some(v) => match parse_u16(chars_of(v.as_str()).as_slice()) {
            Some(n) => n,
            None => default_port(),
        },
        None => default_port(),
    };
    let database_url = text_or("DATABASE_URL", source, default_database_url());
    let icons_dir = text_or("ICONS_DIR", source, default_icons_dir());
    let docker_cache_ttl_seconds = u64_or(
        "DOCKER_CACHE_TTL_SECONDS",
        source,
        default_docker_cache_ttl_seconds(),
    );
    let docker_cache_retry_seconds = u64_or(
        "DOCKER_CACHE_RETRY_SECONDS",
        source,
        default_docker_cache_retry_seconds(),
    );
    let oidc_issuer_url = text_or("OIDC_ISSUER_URL", source, String::new());
    let oidc_client_id = text_or("OIDC_CLIENT_ID", source, String::new());
    let oidc_client_secret = text_or("OIDC_CLIENT_SECRET", source, String::new());
    let oidc_redirect_url = text_or("OIDC_REDIRECT_URL", source, String::new());
    let session_cookie_secret = text_or("SESSION_COOKIE_SECRET", source, String::new());
    let session_ttl_hours = match env_or_dotenv("SESSION_TTL_HOURS", source) {
        Some(v) => match parse_i64(chars_of(v.as_str()).as_slice()) {
            Some(n) => n,
            None => default_session_ttl_hours(),
        },
        None => default_session_ttl_hours(),
    };
    let gamma_admin_groups = match env_or_dotenv("GAMMA_ADMIN_GROUPS", source) {
        Some(v) => parse_group_list(v.as_str()),
        None => default_gamma_admin_groups(),
    };
    proof {
        if setting(*source, "GAMMA_ADMIN_GROUPS"@) is None {
            assert(gamma_admin_groups@.map_values(|g: String| g@) =~= Seq::<Seq<char>>::empty());
        }
    }
    let gamma_api_client_id = text_or("GAMMA_API_CLIENT_ID", source, String::new());
    let gamma_api_key = text_or("GAMMA_API_KEY", source, String::new());
    Config {
        host,
        port,
        database_url,
        icons_dir,
        docker_cache_ttl_seconds,
        docker_cache_retry_seconds,
        oidc_issuer_url,
        oidc_client_id,
        oidc_client_secret,
        oidc_redirect_url,
        session_cookie_secret,
        session_ttl_hours,
        gamma_admin_groups,
        gamma_api_client_id,
        gamma_api_key,
    }
}

} // verus!
