use findit::models::AuthStatus;
use findit::server::admin::AdminError;
use findit::server::auth::{
    auth_status, build_authorization_url, derived_cookie_key, is_secure_cookie,
    random_token, require_authenticated, session_cookie, token_from_bytes, sanitize_next, token_request, AuthSession,
    GammaUserInfo, RequestAuth, SameSitePolicy, SessionSource, DEFAULT_POST_LOGIN_PATH,
};

#[test]
fn next_path_must_stay_on_site() {
    assert_eq!(sanitize_next(None), "/admin");
    assert_eq!(sanitize_next(Some("/admin/icons")), "/admin/icons");
    assert_eq!(sanitize_next(Some("//evil.example")), DEFAULT_POST_LOGIN_PATH);
    assert_eq!(sanitize_next(Some("https://evil.example")), "/admin");
    assert_eq!(sanitize_next(Some("")), "/admin");
    assert_eq!(sanitize_next(Some("/")), "/");
}

#[test]
fn random_tokens_are_64_alphanumerics() {
    let a = random_token();
    let b = random_token();
    assert_eq!(a.len(), 64);
    assert!(a.chars().all(|c| c.is_ascii_alphanumeric()));
    assert_ne!(a, b);
}

#[test]
fn cookie_key_is_sha512_of_secret() {
    let key = derived_cookie_key(b"abc");
    assert_eq!(key.len(), 64);
    assert_eq!(
        key[..8],
        [0xdd, 0xaf, 0x35, 0xa1, 0x93, 0x61, 0x7a, 0xba]
    );
    assert_ne!(derived_cookie_key(b"abd"), key);
}

#[test]
fn secure_cookie_only_for_https_redirects() {
    assert!(is_secure_cookie("https://findit.example/auth/callback"));
    assert!(!is_secure_cookie("http://localhost:8080/auth/callback"));
    assert!(!is_secure_cookie("not a uri at all"));
    assert!(!is_secure_cookie("/relative"));
}

#[test]
fn authorization_url_carries_the_login_state() {
    let url = build_authorization_url(
        "https://auth.example/oauth2/authorize",
        "client id",
        "http://localhost:8080/auth/callback",
        "abc123",
    )
    .unwrap();
    assert_eq!(
        url,
        "https://auth.example/oauth2/authorize?response_type=code&client_id=client+id&scope=openid+profile&redirect_uri=http%3A%2F%2Flocalhost%3A8080%2Fauth%2Fcallback&state=abc123"
    );
    assert!(build_authorization_url("no scheme", "c", "r", "s").is_err());
}

#[test]
fn token_request_uses_authorization_code_grant() {
    let form = token_request("id", "secret", "http://cb", "code".to_string());
    assert_eq!(form.client_id, "id");
    assert_eq!(form.client_secret, "secret");
    assert_eq!(form.code, "code");
    assert_eq!(form.redirect_uri, "http://cb");
    assert_eq!(form.grant_type, "authorization_code");
}

#[test]
fn display_name_prefers_full_name() {
    let info = GammaUserInfo {
        sub: "1".to_string(),
        email: Some("a@b.c".to_string()),
        nickname: Some("nick".to_string()),
        preferred_username: None,
        name: None,
    };
    assert_eq!(info.clone().display_name().as_deref(), Some("nick"));
    let mut named = info.clone();
    named.name = Some("Full Name".to_string());
    assert_eq!(named.display_name().as_deref(), Some("Full Name"));
    let bare = GammaUserInfo { nickname: None, ..info };
    assert_eq!(bare.display_name().as_deref(), Some("a@b.c"));
}

#[test]
fn admin_requests_need_a_session() {
    let session = AuthSession { display_name: Some("Ada".to_string()) };
    assert!(require_authenticated(Some(session.clone())).is_ok());
    assert_eq!(
        require_authenticated(None).unwrap_err(),
        AdminError::AuthenticationRequired
    );
    assert_eq!(
        auth_status(Some(session)),
        AuthStatus { authenticated: true, display_name: Some("Ada".to_string()) }
    );
    assert_eq!(auth_status(None), AuthStatus { authenticated: false, display_name: None });
    assert!(matches!(RequestAuth::from_extension(None), SessionSource::LoadFromHeaders));
    assert!(matches!(
        RequestAuth::from_extension(Some(RequestAuth(None))),
        SessionSource::Found(None)
    ));
    match RequestAuth::from_extension(Some(RequestAuth(Some(AuthSession {
        display_name: Some("Ada".to_string()),
    })))) {
        SessionSource::Found(Some(s)) => assert_eq!(s.display_name.as_deref(), Some("Ada")),
        other => panic!("unexpected {other:?}"),
    }
}

#[test]
fn drawn_bytes_spell_the_token() {
    assert_eq!(token_from_bytes(b"aZ09xy"), "aZ09xy");
    assert_eq!(token_from_bytes(&[]), "");
    let token = token_from_bytes(&[b'A'; 64]);
    assert_eq!(token.len(), 64);
    assert!(token.chars().all(|c| c == 'A'));
}

#[test]
fn session_cookie_attributes() {
    let c = session_cookie("tok".to_string(), "https://findit.example.org/auth/callback", 12);
    assert_eq!(c.name, "findit_session");
    assert_eq!(c.value, "tok");
    assert_eq!(c.path, "/");
    assert!(c.http_only);
    assert_eq!(c.same_site, SameSitePolicy::Lax);
    assert!(c.secure);
    assert_eq!(c.max_age_hours, 12);
    let local = session_cookie("t".to_string(), "http://localhost:8080/auth/callback", 3);
    assert!(!local.secure);
    assert_eq!(local.max_age_hours, 3);
}
