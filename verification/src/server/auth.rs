use rand::Rng;
use sha2::{Digest, Sha512};
use vstd::prelude::*;

use crate::models::AuthStatus;
use crate::server::admin::AdminError;
use crate::text::chars_of;

verus! {

/// Where a login returns to when it names no valid destination.
pub const DEFAULT_POST_LOGIN_PATH: &'static str = "/admin";

/// The scopes requested from the OpenID provider.
pub const GAMMA_SCOPES: &'static str = "openid profile";

/// The name of the session cookie.
pub const SESSION_COOKIE_NAME: &'static str = "findit_session";

/// A signed-in session.
#[derive(Clone, Debug)]
pub struct AuthSession {
    pub display_name: Option<String>,
}

/// The session, if any, of the request being served.
#[derive(Clone, Debug)]
pub struct RequestAuth(pub Option<AuthSession>);

/// The query of `/auth/login`.
#[derive(Clone, Debug)]
pub struct LoginQuery {
    pub next: Option<String>,
}

/// The query with which the OpenID provider calls back.
#[derive(Clone, Debug)]
pub struct CallbackQuery {
    pub code: String,
    pub state: String,
}

/// The form sent to the provider's token endpoint.
#[derive(Clone, Debug)]
pub struct GammaTokenRequest {
    pub client_id: String,
    pub client_secret: String,
    pub code: String,
    pub redirect_uri: String,
    pub grant_type: String,
}

/// The part of the token endpoint's answer that is used.
#[derive(Clone, Debug)]
pub struct GammaTokenResponse {
    pub access_token: String,
}

/// What the provider's userinfo endpoint tells of the user.
#[derive(Clone, Debug)]
pub struct GammaUserInfo {
    pub sub: String,
    pub email: Option<String>,
    pub nickname: Option<String>,
    pub preferred_username: Option<String>,
    pub name: Option<String>,
}

// ── Where to go after login ──────────────────────────────────────────────────

/// A path on this site: it starts with `/` but not with `//`, which would
/// name another host.
pub open spec fn is_local_path(p: Seq<char>) -> bool {
    p.len() > 0 && p[0] == '/' && !(p.len() > 1 && p[1] == '/')
}

/// Where a login returns to: `next` when it is a local path, otherwise the
/// admin page.
pub open spec fn next_destination(next: Option<Seq<char>>) -> Seq<char> {
    let n = match next {
        Some(n) => n,
        None => DEFAULT_POST_LOGIN_PATH@,
    };
    if is_local_path(n) {
        n
    } else {
        DEFAULT_POST_LOGIN_PATH@
    }
}

/// The destination after a login (see `next_destination`).
pub fn sanitize_next(next: Option<&str>) -> (r: String)
    ensures
        r@ == next_destination(
            match next {
                Some(n) => Some(n@),
                None => None,
            },
        ),
{
    let n = match next {
        Some(n) => n,
        None => DEFAULT_POST_LOGIN_PATH,
    };
    let cs = chars_of(n);
    if cs.len() > 0 && cs[0] == '/' && !(cs.len() > 1 && cs[1] == '/') {
        n.to_owned()
    } else {
        DEFAULT_POST_LOGIN_PATH.to_owned()
    }
}

/// Whatever a login is asked to return to, it returns to a path on this site.
pub proof fn lemma_login_stays_on_site(next: Option<Seq<char>>)
    ensures
        is_local_path(next_destination(next)),
{
    reveal_strlit("/admin");
}

// ── Random tokens ────────────────────────────────────────────────────────────

/// An ASCII letter or digit.
pub open spec fn is_ascii_alphanumeric(c: char) -> bool {
    let u = c as u32;
    (48 <= u <= 57) || (65 <= u <= 90) || (97 <= u <= 122)
}

/// One byte drawn from `rand::distributions::Alphanumeric` with the thread's
/// generator.  The crate documents, and its source shows, that it is an
/// ASCII letter or digit; which one is left to chance, and the contract says
/// no more.
#[verifier::external_body]
fn sample_alphanumeric() -> (b: u8)
    ensures
        is_ascii_alphanumeric(b as char),
{
    rand::thread_rng().sample(rand::distributions::Alphanumeric)
}

/// The token that drawn bytes spell: each byte read as the character with
/// that code.
pub fn token_from_bytes(bytes: &[u8]) -> (r: String)
    ensures
        r@ == bytes@.map_values(|b: u8| b as char),
{
    let mut cs: Vec<char> = Vec::new();
    for i in 0..bytes.len()
        invariant
            cs@ == bytes@.take(i as int).map_values(|b: u8| b as char),
    {
        cs.push(bytes[i] as char);
        assert(bytes@.take(i + 1) == bytes@.take(i as int).push(bytes@[i as int]));
    }
    assert(bytes@.take(bytes@.len() as int) == bytes@);
    crate::text::string_of(cs.as_slice())
}

/// A random token of 64 ASCII letters and digits, for login states and
/// session cookies.
pub fn random_token() -> (r: String)
    ensures
        r@.len() == 64,
        forall|i: int| 0 <= i < 64 ==> is_ascii_alphanumeric(#[trigger] r@[i]),
{
    let mut drawn: Vec<u8> = Vec::new();
    while drawn.len() < 64
        invariant
            drawn@.len() <= 64,
            forall|i: int| 0 <= i < drawn@.len() ==> is_ascii_alphanumeric(
                (#[trigger] drawn@[i]) as char,
            ),
        decreases 64 - drawn@.len(),
    {
        let b = sample_alphanumeric();
        drawn.push(b);
    }
    token_from_bytes(drawn.as_slice())
}

// ── The session cookie's key ─────────────────────────────────────────────────

/// The SHA-512 digest of `data`, as the `sha2` crate computes it.
pub uninterp spec fn sha512(data: Seq<u8>) -> Seq<u8>;

/// Computes the SHA-512 digest with `sha2::Sha512`.  The contract names the
/// digest `sha512(data@)` and states its length, 64 bytes; it states
/// nothing of the hash function itself.
#[verifier::external_body]
fn sha512_digest(data: &[u8]) -> (r: Vec<u8>)
    ensures
        r@ == sha512(data@),
        r@.len() == 64,
{
    Sha512::digest(data).to_vec()
}

/// The 64-byte key that encrypts session cookies: the SHA-512 digest of the
/// configured secret.
pub fn derived_cookie_key(secret: &[u8]) -> (key: [u8; 64])
    ensures
        key@ == sha512(secret@),
{
    let digest = sha512_digest(secret);
    let mut key = [0u8; 64];
    for i in 0..64
        invariant
            digest@.len() == 64,
            key@.len() == 64,
            forall|k: int| 0 <= k < i ==> key@[k] == digest@[k],
    {
        key.set(i, digest[i]);
    }
    assert(key@ =~= digest@);
    key
}

// ── The cookie's `Secure` flag ───────────────────────────────────────────────

/// The scheme of `s` when `http::Uri` parses it and finds one.
pub uninterp spec fn uri_scheme(s: Seq<char>) -> Option<Seq<char>>;

/// Parses `s` as an `http::Uri` (as `axum::http` re-exports it) and returns
/// its scheme.  The contract names the result `uri_scheme(s@)`; it states
/// nothing of the URI grammar.
#[verifier::external_body]
fn parse_uri_scheme(s: &str) -> (r: Option<String>)
    ensures
        r is Some <==> uri_scheme(s@) is Some,
        r matches Some(x) ==> x@ == uri_scheme(s@)->0,
{
    match s.parse::<axum::http::Uri>() {
        Ok(uri) => match uri.scheme_str() {
            Some(scheme) => Some(scheme.to_string()),
            None => None,
        },
        Err(_) => None,
    }
}

/// Whether session cookies are marked `Secure`: when the redirect URL the
/// provider calls back is an `https` URI.
pub fn is_secure_cookie(redirect_url: &str) -> (r: bool)
    ensures
        r == (uri_scheme(redirect_url@) == Some("https"@)),
{
    match parse_uri_scheme(redirect_url) {
        Some(scheme) => {
            let https = "https".to_owned();
            scheme == https
        },
        None => false,
    }
}

// ── The provider's endpoints ─────────────────────────────────────────────────

/// The text of the URL `base` with the query pairs `pairs` appended in
/// order (form-encoded, as `url::Url::query_pairs_mut` writes them), or the
/// text of the error when `base` does not parse.
pub uninterp spec fn url_with_query(base: Seq<char>, pairs: Seq<(Seq<char>, Seq<char>)>) -> Result<
    Seq<char>,
    Seq<char>,
>;

/// Parses `base` with `url::Url::parse`, appends the pairs with
/// `query_pairs_mut().append_pair` and writes the URL out.  The contract
/// names the outcome `url_with_query`; it states nothing of URL syntax or
/// encoding.
#[verifier::external_body]
fn append_query(base: &str, pairs: &Vec<(String, String)>) -> (r: Result<String, String>)
    ensures
        match (r, url_with_query(base@, pairs@.map_values(|p: (String, String)| (p.0@, p.1@)))) {
            (Ok(a), Ok(b)) => a@ == b,
            (Err(a), Err(b)) => a@ == b,
            _ => false,
        },
{
    match url::Url::parse(base) {
        Ok(mut url) => {
            for (key, value) in pairs {
                url.query_pairs_mut().append_pair(key, value);
            }
            Ok(url.to_string())
        },
        Err(err) => Err(err.to_string()),
    }
}

/// The query of the authorization request, in order.
pub open spec fn authorization_pairs(
    client_id: Seq<char>,
    redirect_url: Seq<char>,
    state: Seq<char>,
) -> Seq<(Seq<char>, Seq<char>)> {
    seq![
        ("response_type"@, "code"@),
        ("client_id"@, client_id),
        ("scope"@, GAMMA_SCOPES@),
        ("redirect_uri"@, redirect_url),
        ("state"@, state),
    ]
}

/// The provider's authorization URL for a login whose state is `state`.
pub fn build_authorization_url(
    authorization_endpoint: &str,
    client_id: &str,
    redirect_url: &str,
    state: &str,
) -> (r: Result<String, String>)
    ensures
        match (r, url_with_query(
            authorization_endpoint@,
            authorization_pairs(client_id@, redirect_url@, state@),
        )) {
            (Ok(a), Ok(b)) => a@ == b,
            (Err(a), Err(b)) => a@ == b,
            _ => false,
        },
{
    let mut pairs: Vec<(String, String)> = Vec::new();
    pairs.push(("response_type".to_owned(), "code".to_owned()));
    pairs.push(("client_id".to_owned(), client_id.to_owned()));
    pairs.push(("scope".to_owned(), GAMMA_SCOPES.to_owned()));
    pairs.push(("redirect_uri".to_owned(), redirect_url.to_owned()));
    pairs.push(("state".to_owned(), state.to_owned()));
    assert(pairs@.map_values(|p: (String, String)| (p.0@, p.1@)) =~= authorization_pairs(
        client_id@,
        redirect_url@,
        state@,
    ));
    append_query(authorization_endpoint, &pairs)
}

/// The form that exchanges an authorization code for a token.
pub fn token_request(client_id: &str, client_secret: &str, redirect_url: &str, code: String) -> (r:
    GammaTokenRequest)
    ensures
        r.client_id@ == client_id@,
        r.client_secret@ == client_secret@,
        r.code == code,
        r.redirect_uri@ == redirect_url@,
        r.grant_type@ == "authorization_code"@,
{
    GammaTokenRequest {
        client_id: client_id.to_owned(),
        client_secret: client_secret.to_owned(),
        code,
        redirect_uri: redirect_url.to_owned(),
        grant_type: "authorization_code".to_owned(),
    }
}

impl GammaUserInfo {
    /// The name shown for the user: the full name, else the preferred user
    /// name, else the nickname, else the e-mail address.
    pub fn display_name(self) -> (r: Option<String>)
        ensures
            r == if self.name is Some {
                self.name
            } else if self.preferred_username is Some {
                self.preferred_username
            } else if self.nickname is Some {
                self.nickname
            } else {
                self.email
            },
    {
        if self.name.is_some() {
            self.name
        } else if self.preferred_username.is_some() {
            self.preferred_username
        } else if self.nickname.is_some() {
            self.nickname
        } else {
            self.email
        }
    }
}

// ── The session cookie ───────────────────────────────────────────────────────

/// The `SameSite` policy of a cookie.
#[derive(Clone, Copy, Debug, PartialEq, Eq)]
pub enum SameSitePolicy {
    Strict,
    Lax,
    NoRestriction,
}

/// The attributes of the cookie that carries a session token.
#[derive(Clone, Debug)]
pub struct SessionCookie {
    pub name: String,
    pub value: String,
    pub path: String,
    pub http_only: bool,
    pub same_site: SameSitePolicy,
    pub secure: bool,
    pub max_age_hours: i64,
}

/// The cookie that carries a new session's token: named
/// `SESSION_COOKIE_NAME`, valid on the whole site, hidden from scripts,
/// sent on top-level navigation (`SameSite=Lax`), `Secure` when the redirect
/// URL is `https`, and kept for the session's lifetime.
pub fn session_cookie(token: String, redirect_url: &str, ttl_hours: i64) -> (c: SessionCookie)
    ensures
        c.name@ == SESSION_COOKIE_NAME@,
        c.value == token,
        c.path@ == "/"@,
        c.http_only,
        c.same_site == SameSitePolicy::Lax,
        c.secure == (uri_scheme(redirect_url@) == Some("https"@)),
        c.max_age_hours == ttl_hours,
{
    SessionCookie {
        name: SESSION_COOKIE_NAME.to_owned(),
        value: token,
        path: "/".to_owned(),
        http_only: true,
        same_site: SameSitePolicy::Lax,
        secure: is_secure_cookie(redirect_url),
        max_age_hours: ttl_hours,
    }
}

// ── The request's session ────────────────────────────────────────────────────

/// The session of a request that must be signed in.
pub fn require_authenticated(session: Option<AuthSession>) -> (r: Result<AuthSession, AdminError>)
    ensures
        match session {
            Some(s) => r == Ok::<AuthSession, AdminError>(s),
            None => r == Err::<AuthSession, AdminError>(AdminError::AuthenticationRequired),
        },
{
    match session {
        Some(s) => Ok(s),
        None => Err(AdminError::AuthenticationRequired),
    }
}

/// What the client is told of its sign-in.
pub fn auth_status(session: Option<AuthSession>) -> (r: AuthStatus)
    ensures
        r.authenticated == session is Some,
        r.display_name == match session {
            Some(s) => s.display_name,
            None => None,
        },
{
    match session {
        Some(s) => AuthStatus { authenticated: true, display_name: s.display_name },
        None => AuthStatus { authenticated: false, display_name: None },
    }
}

/// Where a request's session comes from.
#[derive(Clone, Debug)]
pub enum SessionSource {
    /// What the authentication middleware found: the session, or none.
    Found(Option<AuthSession>),
    /// The middleware did not run for this request: the session is to be
    /// loaded from the request's session cookie.
    LoadFromHeaders,
}

impl RequestAuth {
    /// Where the session of a request comes from: what the middleware left
    /// in the request's extensions, or, when it left nothing, the request's
    /// own session cookie.
    pub fn from_extension(found: Option<RequestAuth>) -> (r: SessionSource)
        ensures
            r == match found {
                Some(a) => SessionSource::Found(a.0),
                None => SessionSource::LoadFromHeaders,
            },
    {
        match found {
            Some(a) => SessionSource::Found(a.0),
            None => SessionSource::LoadFromHeaders,
        }
    }
}

} // verus!
