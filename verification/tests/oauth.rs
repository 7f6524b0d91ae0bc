use homepage::encoding::{code_challenge, urlencod};
use homepage::exchange::{Answer, Fetched};
use homepage::json::Json;
use homepage::oauth::common::{quote, token_answered, CallbackQuery, LoginResult, LoginStep, PendingLogin, ProviderConfig, UserShape};
use homepage::oauth::{
    build_state, fixed, grant_revoked, login_debug, pkce_pair, register_dynamic_client, token_revoked, verifier_from,
    LogoutStep, OAuthEnv, OAuthState, Provider, StartStep,
};

fn some(text: &str) -> Option<String> {
    Some(text.to_string())
}

fn full_env() -> OAuthEnv {
    OAuthEnv {
        google_client_id: some("g id"),
        google_client_secret: some("g-secret"),
        github_client_id: some("h-id"),
        github_client_secret: some("h-secret"),
        topsecret_oauth2_url: some("https://ts.example//"),
    }
}

fn empty_env() -> OAuthEnv {
    OAuthEnv {
        google_client_id: None,
        google_client_secret: None,
        github_client_id: None,
        github_client_secret: None,
        topsecret_oauth2_url: None,
    }
}

fn answered(status: u16, body: &str) -> Fetched {
    Fetched::Answer(Answer { status, status_text: format!("{status} Status"), body: Ok(body.as_bytes().to_vec()) })
}

fn back(code: Option<&str>, state: Option<&str>, error: Option<&str>) -> CallbackQuery {
    CallbackQuery { code: code.and_then(some), state: state.and_then(some), error: error.and_then(some) }
}

fn redirected(step: StartStep) -> String {
    match step {
        StartStep::Redirect(url) => url,
        other => panic!("no redirect: {other:?}"),
    }
}

fn parameter(url: &str, name: &str) -> String {
    let parsed = url::Url::parse(url).unwrap();
    let found = parsed.query_pairs().find(|(n, _)| n == name).map(|(_, v)| v.into_owned());
    found.unwrap_or_else(|| panic!("no {name} in {url}"))
}

fn failure<P: std::fmt::Debug>(step: LoginStep<P>) -> (String, String) {
    match step {
        LoginStep::Page(page) if !page.success => (page.error_message, page.provider_name),
        other => panic!("no failure: {other:?}"),
    }
}

fn fields(params: &[(String, String)]) -> Vec<(&str, &str)> {
    params.iter().map(|(n, v)| (n.as_str(), v.as_str())).collect()
}

#[test]
fn providers_have_names() {
    for (provider, slug) in
        [(Provider::Google, "google"), (Provider::GitHub, "github"), (Provider::TopSecret, "topsecret")]
    {
        assert_eq!(provider.slug(), slug);
        assert_eq!(provider.display_name(), slug);
        assert_eq!(Provider::from_slug(slug), Some(provider));
    }
    assert_eq!(Provider::from_slug("Google"), None);
    assert_eq!(Provider::from_slug("xmemory"), None);
    assert_eq!(Provider::GitHub.scopes(), "read:user user:email");
    assert_eq!(Provider::Google.auth_url(), "https://accounts.google.com/o/oauth2/v2/auth");
    assert_eq!(Provider::GitHub.token_url(), "https://github.com/login/oauth/access_token");
    assert_eq!(Provider::TopSecret.userinfo_url(), "");

    assert_eq!(fixed::Provider::from_slug("xmemory"), Some(fixed::Provider::TopSecret));
    assert_eq!(fixed::Provider::from_slug("topsecret"), None);
    assert_eq!(fixed::Provider::TopSecret.slug(), "xmemory");
    assert_eq!(fixed::Provider::TopSecret.display_name(), "topsecret");
    assert_eq!(fixed::Provider::TopSecret.scopes(), "openid read write");
    assert_eq!(fixed::Provider::TopSecret.auth_url(), "https://dk-oauth2.xmemory.ai/authorize");
}

#[test]
fn the_login_page_lists_what_is_configured() {
    let slugs = |state: &OAuthState| state.login_page().into_iter().map(|p| p.slug).collect::<Vec<_>>();
    assert_eq!(slugs(&build_state("https://site", full_env())), ["google", "github", "topsecret"]);
    assert!(slugs(&build_state("https://site", empty_env())).is_empty());
    let mut half = full_env();
    half.google_client_secret = None;
    half.github_client_id = None;
    assert_eq!(slugs(&build_state("https://site", half)), ["topsecret"]);
    assert_eq!(build_state("https://site", full_env()).topsecret_issuer_base.as_deref(), Some("https://ts.example"));

    assert_eq!(
        login_debug(&full_env()),
        "GOOGLE_CLIENT_ID: 4 chars\nGOOGLE_CLIENT_SECRET: 8 chars\nGITHUB_CLIENT_ID: 4 chars\n\
         GITHUB_CLIENT_SECRET: 8 chars\nTOPSECRET_OAUTH2_URL: 20 chars"
    );
    let mut umlaut = empty_env();
    umlaut.google_client_id = some("ä");
    assert!(login_debug(&umlaut).starts_with("GOOGLE_CLIENT_ID: 2 chars\nGOOGLE_CLIENT_SECRET: 0 chars\n"));
}

#[test]
fn a_login_with_google_goes_all_the_way() {
    let mut state = build_state("https://site/", full_env());
    let url = redirected(state.start_oauth("google"));
    let csrf = parameter(&url, "state");
    assert_eq!(csrf.len(), 36);
    assert_eq!(
        url,
        format!(
            "https://accounts.google.com/o/oauth2/v2/auth?client_id=g%20id\
             &redirect_uri=https%3A%2F%2Fsite%2Flogin%2Fgoogle%2Fcallback\
             &scope=openid%20email%20profile&state={csrf}&response_type=code&prompt=consent"
        )
    );

    let step = state.oauth_callback("google", back(Some("c0de"), Some(&csrf), None));
    let LoginStep::Token { url, params, login } = step else {
        panic!("no token request");
    };
    assert_eq!(url, "https://oauth2.googleapis.com/token");
    // The base URL is taken as it is here, with its slash.
    assert_eq!(
        fields(&params),
        [
            ("code", "c0de"),
            ("client_id", "g id"),
            ("client_secret", "g-secret"),
            ("redirect_uri", "https://site//login/google/callback"),
            ("grant_type", "authorization_code"),
        ]
    );

    let step = token_answered(login, answered(200, r#"{"access_token": "t\"k\\"}"#));
    let LoginStep::UserInfo { url, token, login } = step else {
        panic!("no request for the user");
    };
    assert_eq!(url, "https://www.googleapis.com/oauth2/v3/userinfo");
    assert_eq!(token, "t\"k\\");

    let page = state.logged_in(login, token, answered(200, r#"{"name":"N","email":"e@x","picture":"p","login":"l"}"#));
    assert!(page.success);
    assert_eq!(page.provider_name, "google");
    assert_eq!(
        (page.user_name.as_str(), page.user_email.as_str(), page.avatar_url.as_str()),
        ("N", "e@x", "p")
    );
    assert!(page.raw_json.starts_with("{\n  \""));
    assert_eq!(
        page.curl_userinfo,
        "curl -H \"Authorization: Bearer t\\\"k\\\\\" \"https://www.googleapis.com/oauth2/v3/userinfo\""
    );
    assert_eq!(page.curl_introspect, "");
    assert_eq!(page.session_id.len(), 36);

    // A state value is good for one try.
    let again = state.oauth_callback("google", back(Some("c0de"), Some(&csrf), None));
    assert_eq!(failure(again), ("Invalid or expired state (CSRF check failed)".to_string(), "google".to_string()));

    // The session ends once.
    let LogoutStep::RevokeToken { url } = state.logout(&page.session_id) else {
        panic!("no revocation");
    };
    assert_eq!(url, "https://oauth2.googleapis.com/revoke?token=t%22k%5C");
    let LogoutStep::Page(gone) = state.logout(&page.session_id) else {
        panic!("no page");
    };
    assert_eq!(gone.provider_name, "unknown");
    assert_eq!(gone.revoke_detail, "Session not found (expired or already logged out).");
    assert!(!gone.revoke_ok);
}

#[test]
fn a_login_with_topsecret_registers_a_client() {
    let mut state = build_state("https://site", full_env());
    let StartStep::Register { url, body } = state.start_oauth("topsecret") else {
        panic!("no registration");
    };
    assert_eq!(url, "https://ts.example/register");
    let uris = body.get_items("redirect_uris").unwrap();
    assert_eq!(uris, &[Json::Text("https://site/login/topsecret/callback".to_string())]);
    assert_eq!(body.get_str("scope").as_deref(), Some("openid profile email read write"));

    let url = redirected(state.client_registered(answered(201, r#"{"client_id":"c1","client_secret":"s1"}"#)));
    assert!(url.starts_with("https://ts.example/authorize?client_id=c1&redirect_uri="));
    assert!(url.ends_with("&code_challenge_method=S256&resource=https%3A%2F%2Fmcp.dima.ai"));
    let csrf = parameter(&url, "state");
    let challenge = parameter(&url, "code_challenge");

    let step = state.oauth_callback("topsecret", back(Some("c"), Some(&csrf), None));
    let LoginStep::Token { url, params, login } = step else {
        panic!("no token request");
    };
    assert_eq!(url, "https://ts.example/token");
    assert_eq!(fields(&params)[1..3], [("client_id", "c1"), ("client_secret", "s1")]);
    // Both requests name one callback, and the verifier is that of the challenge.
    assert_eq!(params[3].1, "https://site/login/topsecret/callback");
    assert_eq!(params[5].0, "code_verifier");
    assert_eq!(code_challenge(&params[5].1), challenge);

    let page = state.logged_in(login, "t".to_string(), answered(200, "{}"));
    assert!(page.success);
    assert_eq!(
        page.curl_introspect,
        "curl -X POST \"https://ts.example/introspect\" -H \"Content-Type: application/x-www-form-urlencoded\" \
         -d \"token=t\" -d \"token_type_hint=access_token\""
    );
    let LogoutStep::Page(out) = state.logout(&page.session_id) else {
        panic!("no page");
    };
    assert!(out.revoke_ok);
    assert_eq!((out.provider_name.as_str(), out.revoke_detail.as_str()), ("topsecret", "Session cleared."));

    let StartStep::Reply { status, text } = state.client_registered(answered(500, r#"{"client_id":"c"}"#)) else {
        panic!("no reply");
    };
    assert_eq!((status, text.as_str()), (503, "OAuth: client registration failed. Try again."));
}

#[test]
fn clients_may_have_no_secret() {
    let client = register_dynamic_client(&answered(200, r#"{"client_id":"c"}"#)).unwrap();
    assert_eq!((client.client_id.as_str(), client.client_secret.as_str()), ("c", ""));
    assert!(register_dynamic_client(&answered(200, "{}")).is_none());
    assert!(register_dynamic_client(&answered(200, "no")).is_none());
    assert!(register_dynamic_client(&Fetched::Failed("x".to_string())).is_none());
}

#[test]
fn logins_that_cannot_begin() {
    let reply = |step: StartStep| match step {
        StartStep::Reply { status, text } => (status, text),
        other => panic!("no reply: {other:?}"),
    };
    let mut state = build_state("https://site", empty_env());
    assert_eq!(reply(state.start_oauth("nobody")), (404, "unknown provider".to_string()));
    for slug in ["google", "github", "topsecret"] {
        assert_eq!(reply(state.start_oauth(slug)), (404, "provider not configured".to_string()));
    }
}

#[test]
fn callbacks_that_are_refused() {
    let mut state = build_state("https://site", full_env());
    let said = |step: LoginStep<Provider>| failure(step).0;
    assert_eq!(failure(state.oauth_callback("nobody", back(None, None, None))), ("Unknown provider".to_string(), String::new()));
    assert_eq!(said(state.oauth_callback("github", back(Some("c"), Some("s"), Some("denied")))), "Provider error: denied");
    assert_eq!(said(state.oauth_callback("github", back(None, Some("s"), None))), "Missing authorization code");
    assert_eq!(said(state.oauth_callback("github", back(Some("c"), None, None))), "Missing state parameter");
    // A login with one provider is not one with another, and the try uses it up.
    let csrf = parameter(&redirected(state.start_oauth("github")), "state");
    let refused = "Invalid or expired state (CSRF check failed)";
    assert_eq!(said(state.oauth_callback("google", back(Some("c"), Some(&csrf), None))), refused);
    assert_eq!(said(state.oauth_callback("github", back(Some("c"), Some(&csrf), None))), refused);
    // The provider may have gone meanwhile.
    let csrf = parameter(&redirected(state.start_oauth("github")), "state");
    state.github = None;
    assert_eq!(
        said(state.oauth_callback("github", back(Some("c"), Some(&csrf), None))),
        "Provider not configured"
    );
}

fn pending() -> PendingLogin<Provider> {
    PendingLogin {
        provider: Provider::GitHub,
        name: "github".to_string(),
        shape: UserShape::Avatar,
        userinfo_url: "https://api.github.com/user".to_string(),
        introspect_url: None,
    }
}

#[test]
fn tokens_that_are_not_granted() {
    let said = |fetched: Fetched| failure(token_answered(pending(), fetched)).0;
    assert_eq!(said(Fetched::Failed("down".to_string())), "Token request failed: down");
    assert_eq!(said(answered(200, "<")), "Token response parse error: error decoding response body");
    assert_eq!(said(answered(400, r#"{"error":"e"}"#)), "Token error: e");
    assert_eq!(said(answered(400, r#"{"error":"e","error_description":"d"}"#)), "Token error: d");
    assert_eq!(
        said(answered(400, r#"{"error":"e","error_description":1}"#)),
        "Token error: no access_token in response"
    );
    assert_eq!(said(answered(200, "{}")), "Token error: no access_token in response");
    // The status does not matter where there is a token.
    assert!(matches!(
        token_answered(pending(), answered(500, r#"{"access_token":"t"}"#)),
        LoginStep::UserInfo { .. }
    ));
}

#[test]
fn users_of_github_and_their_logout() {
    let mut state = build_state("https://site", full_env());
    let failed: LoginResult = state.logged_in(pending(), "t".to_string(), Fetched::Failed("down".to_string()));
    assert_eq!(failed.error_message, "Userinfo request failed: down");
    let failed = state.logged_in(pending(), "t".to_string(), answered(200, ""));
    assert_eq!(failed.error_message, "Userinfo parse error: error decoding response body");
    assert_eq!(state.sessions.len(), 0);

    let page = state.logged_in(pending(), "t".to_string(), answered(200, r#"{"login":"l","avatar_url":"a","picture":"p"}"#));
    assert_eq!((page.user_name.as_str(), page.avatar_url.as_str(), page.user_email.as_str()), ("l", "a", ""));
    let LogoutStep::RevokeGrant { url, client_id, client_secret, body } = state.logout(&page.session_id) else {
        panic!("no revocation");
    };
    assert_eq!(url, "https://api.github.com/applications/h-id/grant");
    assert_eq!((client_id.as_str(), client_secret.as_str()), ("h-id", "h-secret"));
    assert_eq!(body.get_str("access_token").as_deref(), Some("t"));
    assert_eq!(state.sessions.len(), 0);

    let page = state.logged_in(pending(), "t".to_string(), answered(200, "{}"));
    state.github = None;
    let LogoutStep::Page(out) = state.logout(&page.session_id) else {
        panic!("no page");
    };
    assert_eq!((out.revoke_ok, out.revoke_detail.as_str()), (false, "Provider not configured."));

    let out = grant_revoked(answered(204, ""));
    assert_eq!((out.revoke_ok, out.revoke_detail.as_str()), (true, "Grant revoke: 204 Status"));
    let out = grant_revoked(answered(422, "why\n"));
    assert_eq!((out.revoke_ok, out.revoke_detail.as_str()), (false, "Grant revoke: 422 Status why"));
    let out = grant_revoked(Fetched::Failed("x".to_string()));
    assert_eq!((out.revoke_ok, out.revoke_detail.as_str()), (false, "Grant revoke failed: x"));
    let out = token_revoked(answered(200, "ignored"));
    assert_eq!((out.revoke_ok, out.revoke_detail.as_str()), (true, "Token revoke: 200 Status"));
    let out = token_revoked(Fetched::Failed("x".to_string()));
    assert_eq!((out.revoke_ok, out.revoke_detail.as_str()), (false, "Token revoke: error (x)"));
}

#[test]
fn verifiers_are_made_of_numbers() {
    assert_eq!(verifier_from(&vec![0, 25, 26, 51, 52, 61, 62, 63, 64, 65, 66, 132 + 7]), "AZaz09-._~AH");
    assert_eq!(verifier_from(&Vec::new()), "");
    let (verifier, challenge) = pkce_pair();
    assert_eq!(verifier.len(), 64);
    // Every character of a verifier stands for itself in a query.
    assert_eq!(urlencod(&verifier), verifier);
    assert_eq!(urlencod(&challenge), challenge);
    assert_eq!(code_challenge(&verifier), challenge);
    assert_ne!(pkce_pair().0, verifier);
}

#[test]
fn quoted_tokens_stand_for_themselves() {
    assert_eq!(quote("plain"), "plain");
    assert_eq!(quote("a\"b"), "a\\\"b");
    assert_eq!(quote("a\\\"b"), "a\\\\\\\"b");
    for token in ["", "\\", "\"", "\\\\\"x", "ä\\"] {
        let mut read = String::new();
        let quoted = quote(token);
        let mut chars = quoted.chars();
        while let Some(c) = chars.next() {
            read.push(if c == '\\' { chars.next().unwrap() } else { c });
        }
        assert_eq!(read, token);
    }
}

#[test]
fn logins_with_a_fixed_client() {
    let env = fixed::OAuthEnv {
        google_client_id: some("g"),
        google_client_secret: some("s"),
        github_client_id: some("h"),
        github_client_secret: None,
    };
    assert_eq!(
        fixed::login_debug(&env),
        "GOOGLE_CLIENT_ID: 1 chars\nGOOGLE_CLIENT_SECRET: 1 chars\nGITHUB_CLIENT_ID: 1 chars\n\
         GITHUB_CLIENT_SECRET: 0 chars"
    );
    let mut state = fixed::build_state("https://site", env);
    let names: Vec<(String, String)> = state.login_page().into_iter().map(|p| (p.slug, p.name)).collect();
    assert_eq!(fields(&names), [("google", "google"), ("xmemory", "topsecret")]);

    let fixed::StartStep::Redirect(url) = state.start_oauth("xmemory") else {
        panic!("no redirect");
    };
    assert!(url.starts_with(
        "https://dk-oauth2.xmemory.ai/authorize?client_id=default-client\
         &redirect_uri=https%3A%2F%2Fsite%2Flogin%2Fxmemory%2Fcallback&scope=openid%20read%20write&state="
    ));
    assert!(url.ends_with("&response_type=code"));
    let csrf = parameter(&url, "state");
    let LoginStep::Token { url, params, login } = state.oauth_callback("xmemory", back(Some("c"), Some(&csrf), None))
    else {
        panic!("no token request");
    };
    assert_eq!(url, "https://dk-oauth2.xmemory.ai/token");
    assert_eq!(
        fields(&params),
        [
            ("code", "c"),
            ("client_id", "default-client"),
            ("client_secret", "default-client-secret"),
            ("redirect_uri", "https://site/login/xmemory/callback"),
            ("grant_type", "authorization_code"),
        ]
    );
    let page = fixed::logged_in(login, answered(200, r#"{"name":"N"}"#));
    assert!(page.success && page.session_id.is_empty() && page.curl_userinfo.is_empty());
    assert_eq!((page.provider_name.as_str(), page.user_name.as_str()), ("topsecret", "N"));

    let again = state.oauth_callback("xmemory", back(Some("c"), Some(&csrf), None));
    assert_eq!(failure(again).0, "Invalid or expired state (CSRF check failed)");
    assert!(matches!(state.start_oauth("github"), fixed::StartStep::Reply { status: 404, .. }));
    let config = ProviderConfig { client_id: "x".to_string(), client_secret: "y".to_string() };
    let step = state.send_browser(fixed::Provider::Google, config, "st".to_string());
    let fixed::StartStep::Redirect(url) = step else {
        panic!("no redirect");
    };
    assert!(url.contains("?client_id=x&") && url.contains("&state=st&"));
    assert_eq!(failure(state.oauth_callback("github", back(Some("c"), Some("st"), None))).1, "github");
}
