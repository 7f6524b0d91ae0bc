use homepage::encoding::code_challenge;
use homepage::exchange::{Answer, Fetched};
use homepage::json::Json;
use homepage::mcpclient::api::{api_call, api_prompts, api_resources, api_tools};
use homepage::mcpclient::callback::{CallbackNext, OAuthCallbackParams, AUTHORIZED_PAGE};
use homepage::mcpclient::challenge::{
    get_www_auth_param, is_auth_required, local_origin, normalize_mcp_url, oauth_redirect, parse_www_authenticate,
    pkce_from, pkce_pair, random_state,
};
use homepage::mcpclient::connect::{
    build_transport, probe_401, probe_body, ConnectBody, ConnectNext, ConnectResponse,
};
use homepage::mcpclient::flow::{FlowAction, FlowNext, FlowPhase};
use homepage::mcpclient::{new_state, McpClientState};
use homepage::session::ServerSummary;
use homepage::transport::ResponseHead;

type State = McpClientState<u8>;

fn some(text: &str) -> Option<String> {
    Some(text.to_string())
}

fn json(text: &str) -> Json {
    Json::parse(text.as_bytes()).unwrap()
}

fn answered(status: u16, body: &str) -> Fetched {
    Fetched::Answer(Answer { status, status_text: format!("{status} Status"), body: Ok(body.as_bytes().to_vec()) })
}

fn state_at(url: &str) -> State {
    let mut state: State = new_state("https://site/");
    state.mcp_url = url.to_string();
    state
}

fn parameter(url: &str, name: &str) -> Option<String> {
    let parsed = url::Url::parse(url).unwrap();
    let found = parsed.query_pairs().find(|(n, _)| n == name).map(|(_, v)| v.into_owned());
    found
}

fn fields(params: &[(String, String)]) -> Vec<(&str, &str)> {
    params.iter().map(|(n, v)| (n.as_str(), v.as_str())).collect()
}

fn asked(next: FlowNext) -> (FlowPhase, String) {
    match next {
        FlowNext::Ask(phase, FlowAction::Get(url)) => (phase, url),
        other => panic!("nothing asked: {other:?}"),
    }
}

fn failed(next: FlowNext) -> String {
    match next {
        FlowNext::Done(Err(reason)) => reason,
        other => panic!("no failure: {other:?}"),
    }
}

#[test]
fn challenges_are_read() {
    let read = |header: &str| parse_www_authenticate(header);
    assert_eq!(
        fields(&read(r#"Bearer realm="a b", resource_metadata="https://x/y?z=1", scope=read,error=e"#)),
        [("realm", "a b"), ("resource_metadata", "https://x/y?z=1"), ("scope", "read"), ("error", "e")]
    );
    assert!(read("Bearer").is_empty());
    assert!(read("").is_empty());
    // An open quote ends the reading, and a bare value needs a name.
    assert_eq!(fields(&read(r#"a=1 b="open"#)), [("a", "1")]);
    assert_eq!(fields(&read("=x, c=")), [("c", "")]);
    assert_eq!(fields(&read(r#"="x" ä_1=y"#)), [("", "x"), ("ä_1", "y")]);
    assert_eq!(fields(&read("a=b=c")), [("a", "b=c")]);

    let pairs = read("k=1, k=2, j=3");
    assert_eq!(get_www_auth_param(&pairs, "k").as_deref(), Some("1"));
    assert_eq!(get_www_auth_param(&pairs, "j").as_deref(), Some("3"));
    assert_eq!(get_www_auth_param(&pairs, "x"), None);

    // A pointer at metadata reads back.
    let url = "https://x.example/.well-known/oauth-protected-resource";
    let header = format!("Bearer resource_metadata=\"{url}\"");
    assert_eq!(fields(&read(&header)), [("resource_metadata", url)]);
}

#[test]
fn urls_are_normalized() {
    assert_eq!(normalize_mcp_url("  example.com/mcp\n"), "https://example.com/mcp");
    assert_eq!(normalize_mcp_url("http://example.com"), "http://example.com");
    assert_eq!(normalize_mcp_url("httpbin.org"), "httpbin.org");
    assert_eq!(normalize_mcp_url(""), "https://");
    assert_eq!(local_origin("https://site//"), "https://site/mcpclient");
    assert_eq!(oauth_redirect("https://site"), "https://site/mcpclient/oauth/callback");
}

#[test]
fn failures_may_ask_for_authorization() {
    for error in ["HTTP 401", "UNAUTHORIZED", "x Unauthorized y", "Authentication Required", "cannot connect: OAuth"] {
        assert!(is_auth_required(error), "{error}");
    }
    for error in ["", "HTTP 500", "timeout", "oauth", "connect"] {
        assert!(!is_auth_required(error), "{error}");
    }
}

#[test]
fn proof_keys() {
    let (verifier, challenge) = pkce_from(&(0..32).collect());
    assert_eq!(verifier, "AAECAwQFBgcICQoLDA0ODxAREhMUFRYXGBkaGxwdHh8");
    assert_eq!(challenge, code_challenge(&verifier));
    assert_eq!(pkce_from(&vec![255; 32]).0, format!("{}8", "_".repeat(42)));
    let (verifier, challenge) = pkce_pair();
    assert_eq!(challenge, code_challenge(&verifier));
    assert_eq!(verifier.len(), 43);
    assert_ne!(pkce_pair().0, verifier);
    assert_ne!(random_state(), random_state());
}

#[test]
fn the_flow_goes_all_the_way() {
    let mut state = state_at("https://mcp.example/v1/mcp");
    let challenge = r#"Bearer resource_metadata="https://meta.example/prm""#;
    let (phase, url) = asked(state.start_oauth_flow(challenge));
    assert_eq!(url, "https://meta.example/prm");
    let (phase, url) = asked(state.flow_step(phase, answered(404, "{}")));
    assert_eq!(url, "https://mcp.example/.well-known/oauth-protected-resource/v1/mcp");
    let (phase, url) = asked(state.flow_step(phase, Fetched::Failed("down".to_string())));
    assert_eq!(url, "https://mcp.example/.well-known/oauth-protected-resource");

    let metadata = r#"{"authorization_servers": ["https://as.example/tenant/"], "scopes_supported": ["a", 1, "b"]}"#;
    let (phase, url) = asked(state.flow_step(phase, answered(200, metadata)));
    assert_eq!(url, "https://as.example/tenant/.well-known/openid-configuration");
    let (phase, url) = asked(state.flow_step(phase, answered(200, "no document")));
    assert_eq!(url, "https://as.example/.well-known/openid-configuration/tenant/");
    let (phase, url) = asked(state.flow_step(phase, answered(500, "{}")));
    assert_eq!(url, "https://as.example/.well-known/oauth-authorization-server/tenant/");

    let server = r#"{"registration_endpoint": "https://as.example/reg",
        "authorization_endpoint": "https://as.example/auth", "token_endpoint": "https://as.example/token"}"#;
    let next = state.flow_step(phase, answered(200, server));
    let FlowNext::Ask(phase, FlowAction::Register { url, body }) = next else {
        panic!("no registration: {next:?}");
    };
    assert_eq!(url, "https://as.example/reg");
    assert_eq!(body.get_str("client_name").as_deref(), Some("MCP Web Client"));
    assert_eq!(body.get_str("client_uri").as_deref(), Some("https://site/mcpclient"));
    assert_eq!(body.get_str("token_endpoint_auth_method").as_deref(), Some("none"));
    assert_eq!(
        body.get_items("redirect_uris").unwrap(),
        &[Json::Text("https://site/mcpclient/oauth/callback".to_string())]
    );
    assert_eq!(body.get_items("grant_types").unwrap(), &[Json::Text("authorization_code".to_string())]);
    assert_eq!(body.get_items("response_types").unwrap(), &[Json::Text("code".to_string())]);

    let next = state.flow_step(phase, answered(201, r#"{"client_id": "c 1", "client_secret": "s"}"#));
    let FlowNext::Done(Ok(url)) = next else {
        panic!("no URL: {next:?}");
    };
    assert!(url.starts_with(
        "https://as.example/auth?response_type=code&client_id=c+1\
         &redirect_uri=https%3A%2F%2Fsite%2Fmcpclient%2Foauth%2Fcallback&state="
    ));
    assert_eq!(parameter(&url, "resource").as_deref(), Some("https://mcp.example/v1/mcp"));
    assert_eq!(parameter(&url, "scope").as_deref(), Some("a b"));
    assert_eq!(parameter(&url, "code_challenge_method").as_deref(), Some("S256"));
    let sent_state = parameter(&url, "state").unwrap();
    let sent_challenge = parameter(&url, "code_challenge").unwrap();

    // The user comes back: the token request answers the authorization request.
    let back = |state: &str| OAuthCallbackParams { code: some("c0de"), state: some(state), error: None };
    let CallbackNext::Exchange { url, params } = state.oauth_callback(back(&sent_state)) else {
        panic!("no exchange");
    };
    assert_eq!(url, "https://as.example/token");
    assert_eq!(
        fields(&params)[..5],
        [
            ("grant_type", "authorization_code"),
            ("code", "c0de"),
            ("redirect_uri", "https://site/mcpclient/oauth/callback"),
            ("client_id", "c 1"),
            ("resource", "https://mcp.example/v1/mcp"),
        ]
    );
    assert_eq!(params[5].0, "code_verifier");
    assert_eq!(code_challenge(&params[5].1), sent_challenge);
    assert_eq!(params[6], ("client_secret".to_string(), "s".to_string()));

    // A foreign callback does not get there.
    let CallbackNext::Page(page) = state.oauth_callback(back("other")) else {
        panic!("no page");
    };
    assert_eq!(page, "<html><body><h2>Error</h2><p>State mismatch.</p></body></html>");

    let page = state.token_reply(answered(200, r#"{"access_token": "t", "refresh_token": "r"}"#));
    assert_eq!(page, AUTHORIZED_PAGE);
    assert!(page.starts_with("<html><body>\n<h2>Authorized!</h2>\n<p>Connecting to MCP server…</p>\n<script>"));
    assert_eq!((state.access_token.as_deref(), state.refresh_token.as_deref()), (Some("t"), Some("r")));
}

#[test]
fn flows_that_come_to_nothing() {
    let mut state = state_at("https://mcp.example");
    let (phase, url) = asked(state.start_oauth_flow(""));
    assert_eq!(url, "https://mcp.example/.well-known/oauth-protected-resource");
    assert_eq!(
        failed(state.flow_step(phase, answered(404, ""))),
        "Could not discover Protected Resource Metadata"
    );
    let (phase, _) = asked(state.start_oauth_flow(""));
    assert_eq!(
        failed(state.flow_step(phase, answered(200, r#"{"authorization_servers": []}"#))),
        "No authorization_servers in resource metadata"
    );
    let (phase, _) = asked(state.start_oauth_flow(""));
    assert_eq!(
        failed(state.flow_step(phase, answered(200, r#"{"authorization_servers": ["x"]}"#))),
        "relative URL without a base"
    );
    let found = r#"{"authorization_servers": ["https://as.example"]}"#;
    let (phase, _) = asked(state.start_oauth_flow(""));
    let (phase, url) = asked(state.flow_step(phase, answered(200, found)));
    assert_eq!(url, "https://as.example/.well-known/openid-configuration");
    let (phase, url) = asked(state.flow_step(phase, answered(404, "")));
    assert_eq!(url, "https://as.example/.well-known/oauth-authorization-server");
    assert_eq!(
        failed(state.flow_step(phase, answered(404, ""))),
        "Could not discover Authorization Server Metadata"
    );
    let (phase, _) = asked(state.start_oauth_flow(""));
    let (phase, _) = asked(state.flow_step(phase, answered(200, found)));
    assert_eq!(
        failed(state.flow_step(phase, answered(200, "{}"))),
        "No authorization_endpoint in server metadata"
    );
    // The default client stands in where nobody registered.
    assert_eq!(state.client_id.as_deref(), Some("default-client"));
    assert_eq!(state.client_secret.as_deref(), Some("default-client-secret"));
    assert_eq!(failed(state_at("x").start_oauth_flow("")), "relative URL without a base");
}

#[test]
fn authorization_requests_have_exact_urls() {
    let mut state = state_at("https://mcp.example/mcp/");
    state.auth_server_metadata = Some(json(r#"{"authorization_endpoint": "https://as.example/a"}"#));
    state.client_id = some("id");
    let params = vec![("scope".to_string(), "x y".to_string())];
    let next = state.send_user_with(&params, "v".to_string(), code_challenge("v"), "st".to_string());
    let FlowNext::Done(Ok(url)) = next else {
        panic!("no URL: {next:?}");
    };
    assert_eq!(
        url,
        format!(
            "https://as.example/a?response_type=code&client_id=id\
             &redirect_uri=https%3A%2F%2Fsite%2Fmcpclient%2Foauth%2Fcallback&state=st&code_challenge={}\
             &code_challenge_method=S256&resource=https%3A%2F%2Fmcp.example%2Fmcp&scope=x+y",
            code_challenge("v")
        )
    );
    assert_eq!(state.pkce_verifier.as_deref(), Some("v"));
    assert_eq!(state.oauth_state.as_deref(), Some("st"));
    assert_eq!(state.scopes.as_deref(), Some("x y"));
}

#[test]
fn every_authorization_draws_its_own_values() {
    let mut state = state_at("https://mcp.example/mcp");
    state.auth_server_metadata = Some(json(r#"{"authorization_endpoint": "https://as.example/a"}"#));
    let mut drawn = Vec::new();
    for _ in 0..2 {
        let FlowNext::Done(Ok(url)) = state.send_user(&Vec::new()) else {
            panic!("no URL");
        };
        let verifier = state.pkce_verifier.clone().unwrap();
        let value = state.oauth_state.clone().unwrap();
        assert_eq!((verifier.len(), value.len()), (43, 22));
        assert!(url.contains(&format!("&state={value}&code_challenge={}&", code_challenge(&verifier))));
        drawn.push((verifier, value));
    }
    assert_ne!(drawn[0].0, drawn[1].0);
    assert_ne!(drawn[0].1, drawn[1].1);
}

#[test]
fn callbacks_show_what_is_wrong() {
    let mut state = state_at("https://mcp.example");
    let page = |state: &State, code: Option<&str>, given: Option<&str>, error: Option<&str>| {
        let params =
            OAuthCallbackParams { code: code.and_then(some), state: given.and_then(some), error: error.and_then(some) };
        match state.oauth_callback(params) {
            CallbackNext::Page(html) => html,
            other => panic!("no page: {other:?}"),
        }
    };
    let notice = |title: &str, message: &str| format!("<html><body><h2>{title}</h2><p>{message}</p></body></html>");
    assert_eq!(page(&state, Some("c"), None, Some("denied")), notice("Authorization Error", "denied"));
    assert_eq!(page(&state, None, None, None), notice("Error", "No authorization code received."));
    assert_eq!(page(&state, Some("c"), None, None), notice("Error", "No auth server metadata."));
    state.oauth_state = some("s");
    assert_eq!(page(&state, Some("c"), None, None), notice("Error", "State mismatch."));
    state.auth_server_metadata = Some(Json::Null);
    assert_eq!(page(&state, Some("c"), Some("s"), None), notice("Error", "No token_endpoint."));

    state.access_token = some("old");
    assert_eq!(state.token_reply(Fetched::Failed("down".to_string())), notice("Token Error", "down"));
    assert_eq!(state.token_reply(answered(200, "<")), notice("Error", "Failed to parse token response."));
    assert_eq!(
        state.token_reply(answered(400, "bad")),
        "<html><body><h2>Token Error</h2><p>HTTP 400 Status</p><pre>bad</pre></body></html>"
    );
    assert_eq!(state.access_token.as_deref(), Some("old"));
    state.token_reply(answered(200, "{}"));
    assert_eq!(state.access_token, None);
}

fn body(url: Option<&str>, force: Option<bool>) -> ConnectBody {
    ConnectBody { url: url.and_then(some), force_reauth: force }
}

fn replied(next: ConnectNext) -> ConnectResponse {
    match next {
        ConnectNext::Reply(reply) => reply,
        other => panic!("no reply: {other:?}"),
    }
}

fn refused(next: ConnectNext) -> String {
    let reply = replied(next);
    assert!(!reply.ok && !reply.needs_auth && reply.auth_url.is_none() && reply.server_info.is_none());
    reply.error.unwrap()
}

fn summary() -> ServerSummary {
    ServerSummary { protocol_version: some("2025-11-25"), server_capabilities: Some(json("{\"tools\":{}}")) }
}

fn head(status: u16, headers: &[(&str, &str)]) -> Option<ResponseHead> {
    Some(ResponseHead {
        status,
        status_text: String::new(),
        headers: headers.iter().map(|(n, v)| (n.to_string(), v.as_bytes().to_vec())).collect(),
    })
}

#[test]
fn connecting_begins_with_a_url() {
    let mut state: State = new_state("https://site");
    assert_eq!(refused(state.api_connect(body(None, None))), "Provide MCP server URL");
    let ConnectNext::Connect { url, token } = state.api_connect(body(Some(" mcp.example "), None)) else {
        panic!("no connection");
    };
    assert_eq!((url.as_str(), token), ("https://mcp.example", None));

    // Without a token, only HTTP will do.
    state.mcp_url = "ftp://x".to_string();
    assert_eq!(
        refused(state.api_connect(body(None, None))),
        "HttpTransport: Transport error: Connection failed: Invalid scheme for HTTP transport: ftp"
    );
    state.mcp_url = "x".to_string();
    assert_eq!(
        refused(state.api_connect(body(None, None))),
        "HttpTransport: Transport error: Connection failed: Invalid URL: relative URL without a base"
    );
    // A token has to fit into a header.
    state.access_token = some("a\nb");
    assert_eq!(
        refused(state.api_connect(body(None, None))),
        "Invalid token header: failed to parse header value"
    );
    assert!(build_transport("ftp://x", Some("token ä\t")).is_ok());
    assert!(build_transport("https://x", Some("a\u{7f}")).is_err());

    state.mcp_url = "https://mcp.example".to_string();
    state.access_token = some("t");
    let ConnectNext::Connect { token, .. } = state.api_connect(body(None, Some(false))) else {
        panic!("no connection");
    };
    assert_eq!(token.as_deref(), Some("t"));

    let reply = state.connected(7, &summary());
    assert!(reply.ok && !reply.needs_auth && reply.error.is_none());
    assert_eq!(reply.server_info.unwrap().get_str("protocolVersion").as_deref(), Some("2025-11-25"));
    assert!(reply.capabilities.unwrap().has("tools"));
    assert!(matches!(state.api_connect(body(None, None)), ConnectNext::Describe));
    let status = state.api_status(&Some(summary()));
    assert!(status.connected && status.authenticated && status.server_info.is_some());
    assert_eq!(status.mcp_url, "https://mcp.example");

    // A fresh start forgets everything but the URL.
    assert!(matches!(state.api_connect(body(None, Some(true))), ConnectNext::Connect { token: None, .. }));
    let status = state.api_status(&Some(summary()));
    assert!(!status.connected && !status.authenticated && status.server_info.is_none());
}

#[test]
fn refused_connections_lead_to_an_authorization() {
    let mut state = state_at("https://mcp.example/mcp");
    assert_eq!(refused(state.connect_failed("HTTP 500".to_string())), "HTTP 500");
    let ConnectNext::Probe { url, error } = state.connect_failed("HTTP 401".to_string()) else {
        panic!("no probe");
    };
    assert_eq!((url.as_str(), error.as_str()), ("https://mcp.example/mcp", "HTTP 401"));

    let challenged = head(401, &[("www-authenticate", "Bearer resource_metadata=\"https://m.example/\"")]);
    let ConnectNext::Authorize(phase, FlowAction::Get(url)) = state.probed(error, &challenged) else {
        panic!("no authorization");
    };
    assert_eq!(url, "https://m.example/");
    let ConnectNext::Authorize(_, FlowAction::Get(url)) = state.authorizing(phase, answered(404, "")) else {
        panic!("no authorization");
    };
    assert_eq!(url, "https://mcp.example/.well-known/oauth-protected-resource/mcp");

    // Without a challenge, the origin is searched.
    let ConnectNext::Search { url, error } = state.probed("e".to_string(), &head(200, &[])) else {
        panic!("no search");
    };
    assert_eq!(url, "https://mcp.example/.well-known/oauth-protected-resource");
    assert_eq!(refused(state.searched(&url, error, answered(200, "{}"))), "e");
    assert_eq!(refused(state.searched(&url, "e".to_string(), answered(404, r#"{"authorization_servers":1}"#))), "e");
    let next = state.searched(&url, "e".to_string(), answered(200, r#"{"authorization_servers":1}"#));
    let ConnectNext::Authorize(phase, FlowAction::Get(first)) = next else {
        panic!("no authorization");
    };
    assert_eq!(first, url);
    let FlowPhase::Resource { params, .. } = &phase else {
        panic!("no search for the resource");
    };
    assert_eq!(fields(params), [("resource_metadata", url.as_str())]);
    let reply = replied(state.authorizing(phase, answered(200, "{}")));
    assert!(reply.needs_auth && !reply.ok && reply.auth_url.is_none());
    assert_eq!(reply.error.as_deref(), Some("No authorization_servers in resource metadata"));

    assert_eq!(refused(state_at("x").probed("e".to_string(), &None)), "e");
    assert_eq!(probe_401(&head(401, &[])).as_deref(), Some(""));
    assert_eq!(probe_401(&head(403, &[("www-authenticate", "x")])), None);
    assert_eq!(probe_401(&None), None);
}

#[test]
fn tokens_are_refreshed_before_they_are_given_up() {
    let mut state = state_at("https://mcp.example/mcp/");
    state.access_token = some("old");
    state.refresh_token = some("r");
    state.client_id = some("id");
    state.client_secret = some("sec");
    state.scopes = some("a b");
    state.auth_server_metadata = Some(json(r#"{"token_endpoint": "https://as.example/token"}"#));
    let ConnectNext::Refresh { url, params, error } = state.connect_failed("unauthorized".to_string()) else {
        panic!("no refresh");
    };
    assert_eq!((url.as_str(), error.as_str()), ("https://as.example/token", "unauthorized"));
    assert_eq!(
        fields(&params),
        [
            ("grant_type", "refresh_token"),
            ("refresh_token", "r"),
            ("client_id", "id"),
            ("resource", "https://mcp.example/mcp"),
            ("scope", "a b"),
            ("client_secret", "sec"),
        ]
    );

    let next = state.refreshed(error, answered(200, r#"{"access_token": "new"}"#));
    let ConnectNext::Reconnect { url, fresh_token, error } = next else {
        panic!("no second try: {next:?}");
    };
    assert_eq!((url.as_str(), fresh_token.as_str()), ("https://mcp.example/mcp/", "new"));
    assert_eq!((state.access_token.as_deref(), state.refresh_token.as_deref()), (Some("new"), Some("r")));
    assert!(matches!(state.reconnect_failed(error), ConnectNext::Probe { .. }));
    assert_eq!((&state.access_token, &state.refresh_token), (&None, &None));
    assert_eq!(state.client_id.as_deref(), Some("id"));

    state.access_token = some("old");
    assert!(matches!(state.connect_failed("401".to_string()), ConnectNext::Probe { .. }));
    assert_eq!(state.access_token, None);
    state.access_token = some("old");
    assert!(matches!(
        state.refreshed("e".to_string(), answered(400, r#"{"access_token": "x"}"#)),
        ConnectNext::Probe { .. }
    ));
    assert_eq!(state.access_token, None);
    let next = state.refreshed("e".to_string(), answered(200, r#"{"access_token": "a\nb", "refresh_token": "r2"}"#));
    assert_eq!(refused(next), "Invalid token header: failed to parse header value");
    assert_eq!(state.refresh_token.as_deref(), Some("r2"));
}

#[test]
fn the_probe_is_a_bare_initialization() {
    let expected = json(
        r#"{"jsonrpc": "2.0", "id": 1, "method": "initialize", "params": {"protocolVersion": "2025-11-25",
            "capabilities": {}, "clientInfo": {"name": "mcp-web-client", "version": "0.1.0"}}}"#,
    );
    assert_eq!(probe_body(), expected);
}

#[test]
fn what_the_server_gives_is_handed_on() {
    let refusal = json(r#"{"ok": false, "error": "Not connected"}"#);
    for told in [api_tools(None), api_resources(None), api_prompts(None), api_call(None)] {
        assert_eq!(told, refusal);
    }
    let broken = || Some(Err("broken".to_string()));
    let refusal = json(r#"{"ok": false, "error": "broken"}"#);
    for told in [api_tools(broken()), api_resources(broken()), api_prompts(broken()), api_call(broken())] {
        assert_eq!(told, refusal);
    }
    let found = || Some(Ok(json("[1]")));
    assert_eq!(api_tools(found()), json(r#"{"ok": true, "tools": [1]}"#));
    assert_eq!(api_resources(found()), json(r#"{"ok": true, "resources": [1]}"#));
    assert_eq!(api_prompts(found()), json(r#"{"ok": true, "prompts": [1]}"#));
    assert_eq!(api_call(found()), json(r#"{"ok": true, "result": {"content": [1]}}"#));
}
