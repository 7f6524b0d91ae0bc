//! Connecting to a server, step by step. Each step takes what came of the request before it and says
//! what to do next: connect, refresh the token, look for a challenge, start an authorization, or
//! reply.
use vstd::prelude::*;
use vstd::string::*;
use vstd::utf8::*;

use crate::encoding::{holds_none, holds_only, lemma_holds_only, pair, pair_texts};
use crate::exchange::{documents_of_success_are_usable, Answer, Fetched};
use crate::json::{
    has_member, lemma_object_view, member, member_string, member_views, opt_view, parsed, text_json, text_member,
    the_first_member_counts, Json, JsonView,
};
use crate::mcpclient::callback::or_empty;
use crate::mcpclient::challenge::{
    challenge_params, is_auth_required, metadata_challenge, metadata_challenge_reads_back, normalize_mcp_url,
    normalized_url, normalized_urls_have_a_scheme, param_value, refusals_ask_for_authorization, wants_authorization,
};
use crate::mcpclient::flow::{the_challenge_says_where_to_look, FlowAction, FlowNext, FlowPhase};
use crate::mcpclient::McpClientState;
use crate::session::ServerSummary;
use crate::text::{joined, opt_text, trimmed};
use crate::transport::http::HttpTransport;
use crate::transport::{find_header, header_of, header_views, ResponseHead};
use crate::urls::{at_origin, canonical_resource, origin_with, parse_url, parsed_url, resource_identifier, UrlView};

verus! {

/// What the page asks for.
#[derive(Debug)]
pub struct ConnectBody {
    pub url: Option<String>,
    pub force_reauth: Option<bool>,
}

/// What the page is told.
#[derive(Debug)]
pub struct ConnectResponse {
    pub ok: bool,
    pub needs_auth: bool,
    pub auth_url: Option<String>,
    pub error: Option<String>,
    pub server_info: Option<Json>,
    pub capabilities: Option<Json>,
}

/// What the page is told about the state.
#[derive(Debug)]
pub struct StatusResponse {
    pub connected: bool,
    pub authenticated: bool,
    pub server_info: Option<Json>,
    pub capabilities: Option<Json>,
    pub mcp_url: String,
}

impl ConnectResponse {
    /// The server is connected, and is like this.
    pub open spec fn welcomes(self, summary: ServerSummary) -> bool {
        &&& self.ok
        &&& !self.needs_auth
        &&& self.auth_url is None
        &&& self.error is None
        &&& opt_view(self.server_info) == Some(summary.info_json())
        &&& opt_view(self.capabilities) == Some(summary.capabilities_json())
    }

    /// The server is not connected, for that reason.
    pub open spec fn refuses(self, reason: Seq<char>) -> bool {
        &&& !self.ok
        &&& !self.needs_auth
        &&& self.auth_url is None
        &&& opt_text(self.error) == Some(reason)
        &&& self.server_info is None
        &&& self.capabilities is None
    }

    /// The user has to authorize first: at that URL, or nowhere for that reason.
    pub open spec fn wants_user(self, outcome: Result<Seq<char>, Seq<char>>) -> bool {
        &&& !self.ok
        &&& self.needs_auth
        &&& match outcome {
            Ok(url) => opt_text(self.auth_url) == Some(url) && self.error is None,
            Err(reason) => self.auth_url is None && opt_text(self.error) == Some(reason),
        }
        &&& self.server_info is None
        &&& self.capabilities is None
    }

    /// The server is connected.
    pub fn welcome(summary: &ServerSummary) -> (r: Self)
        ensures
            r.welcomes(*summary),
    {
        ConnectResponse {
            ok: true,
            needs_auth: false,
            auth_url: None,
            error: None,
            server_info: Some(summary.info()),
            capabilities: Some(summary.capabilities()),
        }
    }

    /// The server is not connected.
    pub fn refusal(reason: String) -> (r: Self)
        ensures
            r.refuses(reason@),
    {
        ConnectResponse {
            ok: false,
            needs_auth: false,
            auth_url: None,
            error: Some(reason),
            server_info: None,
            capabilities: None,
        }
    }

    /// The user has to authorize first.
    pub fn authorization(outcome: Result<String, String>) -> (r: Self)
        ensures
            r.wants_user(
                match outcome {
                    Ok(url) => Ok(url@),
                    Err(reason) => Err(reason@),
                },
            ),
    {
        match outcome {
            Ok(url) => ConnectResponse {
                ok: false,
                needs_auth: true,
                auth_url: Some(url),
                error: None,
                server_info: None,
                capabilities: None,
            },
            Err(reason) => ConnectResponse {
                ok: false,
                needs_auth: true,
                auth_url: None,
                error: Some(reason),
                server_info: None,
                capabilities: None,
            },
        }
    }
}

/// What to do next. `error` is the error of the first connection, which is the reply if everything
/// else comes to nothing.
#[derive(Debug)]
pub enum ConnectNext {
    /// Ask the connected client about its server.
    Describe,
    /// Connect a client to the URL, with the token.
    Connect { url: String, token: Option<String> },
    /// Send the form to the token endpoint.
    Refresh { url: String, params: Vec<(String, String)>, error: String },
    /// Connect again, with the fresh token.
    Reconnect { url: String, fresh_token: String, error: String },
    /// See whether the server answers a bare request with a challenge.
    Probe { url: String, error: String },
    /// See whether the server's origin has resource metadata.
    Search { url: String, error: String },
    /// Go on with the authorization.
    Authorize(FlowPhase, FlowAction),
    /// Tell the page.
    Reply(ConnectResponse),
}

impl ConnectNext {
    /// The page is told that there is no connection, for that reason.
    pub open spec fn refuses(self, reason: Seq<char>) -> bool {
        self matches ConnectNext::Reply(r) && r.refuses(reason)
    }

    /// The server is probed.
    pub open spec fn probes(self, at: Seq<char>, first_error: Seq<char>) -> bool {
        self matches ConnectNext::Probe { url, error } && url@ == at && error@ == first_error
    }

    /// The authorization goes on, or ends with a reply.
    pub open spec fn authorizes(self, flow: FlowNext) -> bool {
        match flow {
            FlowNext::Ask(phase, action) => self == ConnectNext::Authorize(phase, action),
            FlowNext::Done(Ok(url)) => self matches ConnectNext::Reply(r) && r.wants_user(Ok(url@)),
            FlowNext::Done(Err(reason)) => self matches ConnectNext::Reply(r) && r.wants_user(Err(reason@)),
        }
    }

    /// How far the step is from the reply.
    pub open spec fn distance(self) -> nat {
        match self {
            ConnectNext::Connect { .. } => 6,
            ConnectNext::Refresh { .. } => 5,
            ConnectNext::Reconnect { .. } => 4,
            ConnectNext::Probe { .. } => 3,
            ConnectNext::Search { .. } => 2,
            ConnectNext::Authorize(_, _) => 1,
            ConnectNext::Describe => 1,
            ConnectNext::Reply(_) => 0,
        }
    }

    fn from_flow(flow: FlowNext) -> (next: ConnectNext)
        ensures
            next.authorizes(flow),
    {
        match flow {
            FlowNext::Ask(phase, action) => ConnectNext::Authorize(phase, action),
            FlowNext::Done(outcome) => ConnectNext::Reply(ConnectResponse::authorization(outcome)),
        }
    }
}

// -- Transports.

/// Whether a byte may stand in a header value.
pub open spec fn is_header_byte(b: u8) -> bool {
    b == 9 || (b >= 32 && b != 127)
}

/// Whether a text may be a header value.
pub open spec fn fits_header(text: Seq<char>) -> bool {
    forall|i: int| 0 <= i < encode_utf8(text).len() ==> is_header_byte(#[trigger] encode_utf8(text)[i])
}

/// `reqwest::header::HeaderValue::from_str` takes a text whose bytes are all allowed in a header
/// value: a tab, or anything from the space on except the delete character. Otherwise it fails, and
/// its error reads as stated.
#[verifier::external_body]
fn check_header_value(text: &str) -> (r: Result<(), String>)
    ensures
        r is Ok <==> fits_header(text@),
        r matches Err(e) ==> e@ == "failed to parse header value"@,
{
    reqwest::header::HeaderValue::from_str(text).map(|_| ()).map_err(|e| e.to_string())
}

/// The wording of a transport's failed connection.
pub open spec fn transport_wording(message: Seq<char>) -> Seq<char> {
    "HttpTransport: "@ + ("Transport error: "@ + ("Connection failed: "@ + message))
}

/// Why no transport can be built for a URL and a token, if so: the token does not fit into a header,
/// or the URL is none. Without a token, the URL also has to be one of HTTP.
pub open spec fn transport_fault(url: Seq<char>, token: Option<Seq<char>>) -> Option<Seq<char>> {
    match token {
        Some(t) => if !fits_header("Bearer "@ + t) {
            Some("Invalid token header: "@ + "failed to parse header value"@)
        } else {
            match parsed_url(url) {
                Ok(_) => None,
                Err(e) => Some(transport_wording("Invalid URL: "@ + e)),
            }
        },
        None => match parsed_url(url) {
            Ok(parts) => if parts.scheme == "http"@ || parts.scheme == "https"@ {
                None
            } else {
                Some(transport_wording("Invalid scheme for HTTP transport: "@ + parts.scheme))
            },
            Err(e) => Some(transport_wording("Invalid URL: "@ + e)),
        },
    }
}

/// Builds the transport for a URL and a token; the token goes into the headers of its HTTP client.
pub fn build_transport(mcp_url: &str, access_token: Option<&str>) -> (r: Result<HttpTransport, String>)
    ensures
        ({
            let token = match access_token {
                Some(t) => Some(t@),
                None => None,
            };
            match transport_fault(mcp_url@, token) {
                Some(fault) => r matches Err(e) && e@ == fault,
                None => r matches Ok(t) && t.is_fresh(parsed_url(mcp_url@)->Ok_0),
            }
        }),
{
    let built = match access_token {
        Some(t) => {
            match check_header_value(joined("Bearer ", t).as_str()) {
                Ok(_) => {},
                Err(e) => {
                    return Err(joined("Invalid token header: ", e.as_str()));
                },
            }
            HttpTransport::with_client(mcp_url)
        },
        None => HttpTransport::new(mcp_url),
    };
    match built {
        Ok(t) => Ok(t),
        Err(e) => Err(joined("HttpTransport: ", e.to_text().as_str())),
    }
}

// -- The probe.

/// The document with which a server is probed.
pub open spec fn probe_document() -> JsonView {
    JsonView::Object(
        seq![
            ("id"@, JsonView::Number("1"@)),
            ("jsonrpc"@, JsonView::Text("2.0"@)),
            ("method"@, JsonView::Text("initialize"@)),
            (
                "params"@,
                JsonView::Object(
                    seq![
                        ("capabilities"@, JsonView::Object(Seq::empty())),
                        (
                            "clientInfo"@,
                            JsonView::Object(
                                seq![
                                    ("name"@, JsonView::Text("mcp-web-client"@)),
                                    ("version"@, JsonView::Text("0.1.0"@)),
                                ],
                            ),
                        ),
                        ("protocolVersion"@, JsonView::Text("2025-11-25"@)),
                    ],
                ),
            ),
        ],
    )
}

/// An object of these members.
fn object_of(members: Vec<(String, Json)>) -> (j: Json)
    ensures
        j@ == JsonView::Object(member_views(members@)),
{
    let j = Json::Object(members);
    proof {
        lemma_object_view(j);
    }
    j
}

/// The body with which a server is probed.
pub fn probe_body() -> (j: Json)
    ensures
        j@ == probe_document(),
{
    let mut who: Vec<(String, Json)> = Vec::new();
    who.push(("name".to_owned(), text_json("mcp-web-client")));
    who.push(("version".to_owned(), text_json("0.1.0")));
    assert(member_views(who@) =~= seq![
        ("name"@, JsonView::Text("mcp-web-client"@)),
        ("version"@, JsonView::Text("0.1.0"@)),
    ]);
    let none: Vec<(String, Json)> = Vec::new();
    assert(member_views(none@) =~= Seq::empty());
    let mut params: Vec<(String, Json)> = Vec::new();
    params.push(("capabilities".to_owned(), object_of(none)));
    params.push(("clientInfo".to_owned(), object_of(who)));
    params.push(("protocolVersion".to_owned(), text_json("2025-11-25")));
    assert(member_views(params@) =~= probe_document()->Object_0[3].1->Object_0);
    let mut members: Vec<(String, Json)> = Vec::new();
    members.push(("id".to_owned(), Json::Number("1".to_owned())));
    members.push(("jsonrpc".to_owned(), text_json("2.0")));
    members.push(("method".to_owned(), text_json("initialize")));
    members.push(("params".to_owned(), object_of(params)));
    assert(member_views(members@) =~= probe_document()->Object_0);
    object_of(members)
}

/// The challenge in the answer to a probe: an answer that asks for authorization has one, though it
/// may be empty.
pub open spec fn challenge_in(head: Option<ResponseHead>) -> Option<Seq<char>> {
    match head {
        Some(h) => if h.status == 401 {
            match header_of(header_views(h.headers@), "www-authenticate"@) {
                Some(text) => Some(text),
                None => Some(Seq::empty()),
            }
        } else {
            None
        },
        None => None,
    }
}

/// Reads the answer to a probe.
pub fn probe_401(head: &Option<ResponseHead>) -> (r: Option<String>)
    ensures
        opt_text(r) == challenge_in(*head),
{
    match head {
        Some(h) => if h.status == 401 {
            match find_header(&h.headers, "www-authenticate") {
                Some(text) => Some(text),
                None => {
                    let none = String::new();
                    assert(none@ =~= Seq::empty());
                    Some(none)
                },
            }
        } else {
            None
        },
        None => None,
    }
}

// -- The token refresh.

/// The fields of a token refresh.
pub open spec fn refresh_params(
    refresh_token: Seq<char>,
    client_id: Seq<char>,
    resource: Seq<char>,
    scope: Option<Seq<char>>,
    secret: Option<Seq<char>>,
) -> Seq<(Seq<char>, Seq<char>)> {
    seq![
        ("grant_type"@, "refresh_token"@),
        ("refresh_token"@, refresh_token),
        ("client_id"@, client_id),
        ("resource"@, resource),
    ] + (match scope {
        Some(s) => seq![("scope"@, s)],
        None => Seq::empty(),
    }) + (match secret {
        Some(s) => seq![("client_secret"@, s)],
        None => Seq::empty(),
    })
}

impl<C> McpClientState<C> {
    /// The state without the tokens that were not accepted.
    pub open spec fn without_tokens(self) -> McpClientState<C> {
        McpClientState { client: None, access_token: None, refresh_token: None, ..self }
    }

    /// What the page asked for is taken up: the URL, and a fresh start if it wants one.
    pub open spec fn takes_up(self, body: ConnectBody, after: McpClientState<C>) -> bool {
        &&& after.base_url == self.base_url
        &&& after.mcp_url@ == (match body.url {
            Some(url) => normalized_url(url@),
            None => self.mcp_url@,
        })
        &&& if body.force_reauth == Some(true) {
            after.is_blank()
        } else {
            after == (McpClientState { mcp_url: after.mcp_url, ..self })
        }
    }

    /// Whether the token can be refreshed: where, and with which fields.
    pub open spec fn refresh(self) -> Option<(Seq<char>, Seq<(Seq<char>, Seq<char>)>)> {
        match (self.access_token, self.refresh_token, self.endpoint("token_endpoint"@)) {
            (Some(_), Some(token), Some(url)) => Some(
                (
                    url,
                    refresh_params(
                        token@,
                        or_empty(self.client_id),
                        resource_identifier(self.mcp_url@),
                        opt_text(self.scopes),
                        opt_text(self.client_secret),
                    ),
                ),
            ),
            _ => None,
        }
    }

    /// How connecting begins, once it is known what to connect to.
    pub open spec fn sets_out(self, next: ConnectNext) -> bool {
        match next {
            ConnectNext::Describe => self.client is Some && self.mcp_url@.len() > 0,
            ConnectNext::Connect { url, token } => self.client is None && self.mcp_url@.len() > 0 && url@
                == self.mcp_url@ && opt_text(token) == opt_text(self.access_token) && transport_fault(
                self.mcp_url@,
                opt_text(self.access_token),
            ) is None,
            ConnectNext::Reply(r) => !r.ok && !r.needs_auth && (self.mcp_url@.len() == 0 || (self.client is None
                && transport_fault(self.mcp_url@, opt_text(self.access_token)) is Some)),
            _ => false,
        }
    }

    /// What follows a search at the server's origin.
    pub open spec fn looks_around(self, url: Seq<char>, error: Seq<char>, fetched: Fetched, next: ConnectNext) -> bool {
        let named = fetched.usable() is Some && has_member(fetched.usable()->0, "authorization_servers"@);
        match next {
            ConnectNext::Authorize(phase, action) => named && self.begins_flow(
                metadata_challenge(url),
                FlowNext::Ask(phase, action),
            ),
            ConnectNext::Reply(r) => if named {
                parsed_url(self.mcp_url@) is Err
            } else {
                r.refuses(error)
            },
            _ => false,
        }
    }

    /// What follows a first connection that failed: the reply, a refresh or a probe, of which the last two
    /// keep the error for later.
    pub open spec fn gives_way(self, after: McpClientState<C>, error: Seq<char>, next: ConnectNext) -> bool {
        match next {
            ConnectNext::Reply(r) => !wants_authorization(error) && r.refuses(error) && after == self,
            ConnectNext::Refresh { url, params, error: e } => wants_authorization(error) && e@ == error && after == self
                && self.refresh() == Some((url@, pair_texts(params@))),
            ConnectNext::Probe { url, error: e } => wants_authorization(error) && e@ == error && url@ == self.mcp_url@
                && self.refresh() is None && (if self.access_token is Some {
                after == self.without_tokens()
            } else {
                after == self
            }),
            _ => false,
        }
    }

    /// What follows an answer of the token endpoint: another connection with the token that it gave, a probe
    /// without any, or the reply where no transport takes that token.
    pub open spec fn tries_anew(
        self,
        after: McpClientState<C>,
        error: Seq<char>,
        fetched: Fetched,
        next: ConnectNext,
    ) -> bool {
        let given = match fetched.usable() {
            Some(json) => member_string(json, "access_token"@),
            None => None,
        };
        match next {
            ConnectNext::Reconnect { url, fresh_token, error: e } => given == Some(fresh_token@) && url@ == self.mcp_url@
                && e@ == error && opt_text(after.access_token) == given && after.client_id == self.client_id
                && after.client_secret == self.client_secret && opt_text(after.refresh_token) == (match member_string(
                fetched.usable()->0,
                "refresh_token"@,
            ) {
                Some(t) => Some(t),
                None => opt_text(self.refresh_token),
            }),
            ConnectNext::Probe { url, error: e } => given is None && url@ == self.mcp_url@ && e@ == error && after
                == self.without_tokens(),
            ConnectNext::Reply(_) => given is Some && transport_fault(self.mcp_url@, given) is Some,
            _ => false,
        }
    }

    /// What follows a probe: the authorization where there is a challenge, and otherwise a search, or the
    /// first error where there is nowhere to search.
    pub open spec fn looks_further(self, error: Seq<char>, head: Option<ResponseHead>, next: ConnectNext) -> bool {
        match next {
            ConnectNext::Search { url, error: e } => challenge_in(head) is None && e@ == error && parsed_url(
                self.mcp_url@,
            ) is Ok && url@ == at_origin(
                parsed_url(self.mcp_url@)->Ok_0,
                "/.well-known/oauth-protected-resource"@,
            ),
            ConnectNext::Authorize(phase, action) => challenge_in(head) matches Some(challenge) && self.begins_flow(
                challenge,
                FlowNext::Ask(phase, action),
            ),
            ConnectNext::Reply(r) => parsed_url(self.mcp_url@) is Err && (challenge_in(head) is None ==> r.refuses(
                error,
            )),
            _ => false,
        }
    }

    /// Tells the page about the state; `summary` is what the connected client says about its server.
    pub fn api_status(&self, summary: &Option<ServerSummary>) -> (r: StatusResponse)
        ensures
            r.connected == (self.client is Some),
            r.authenticated == (self.access_token is Some),
            r.mcp_url@ == self.mcp_url@,
            match *summary {
                Some(s) if self.client is Some => opt_view(r.server_info) == Some(s.info_json()) && opt_view(
                    r.capabilities,
                ) == Some(s.capabilities_json()),
                _ => r.server_info is None && r.capabilities is None,
            },
    {
        let connected = self.client.is_some();
        let authenticated = self.access_token.is_some();
        match summary {
            Some(s) if connected => StatusResponse {
                connected,
                authenticated,
                server_info: Some(s.info()),
                capabilities: Some(s.capabilities()),
                mcp_url: self.mcp_url.clone(),
            },
            _ => StatusResponse {
                connected,
                authenticated,
                server_info: None,
                capabilities: None,
                mcp_url: self.mcp_url.clone(),
            },
        }
    }

    /// Begins to connect.
    pub fn api_connect(&mut self, body: ConnectBody) -> (next: ConnectNext)
        ensures
            old(self).takes_up(body, *final(self)),
            if final(self).mcp_url@.len() == 0 {
                next.refuses("Provide MCP server URL"@)
            } else if final(self).client is Some {
                next is Describe
            } else {
                match transport_fault(final(self).mcp_url@, opt_text(final(self).access_token)) {
                    Some(fault) => next.refuses(fault),
                    None => next matches ConnectNext::Connect { url, token } && url@ == final(self).mcp_url@
                        && opt_text(token) == opt_text(final(self).access_token),
                }
            },
            final(self).sets_out(next),
    {
        match &body.url {
            Some(url) => {
                self.mcp_url = normalize_mcp_url(url.as_str());
            },
            None => {},
        }
        let fresh = match body.force_reauth {
            Some(f) => f,
            None => false,
        };
        if fresh {
            self.client = None;
            self.access_token = None;
            self.refresh_token = None;
            self.pkce_verifier = None;
            self.oauth_state = None;
            self.scopes = None;
            self.resource_metadata = None;
            self.auth_server_metadata = None;
            self.client_id = None;
            self.client_secret = None;
        }
        let blank = self.mcp_url.as_str().unicode_len() == 0;
        if blank {
            return ConnectNext::Reply(ConnectResponse::refusal("Provide MCP server URL".to_owned()));
        }
        if self.client.is_some() {
            return ConnectNext::Describe;
        }
        let token = match &self.access_token {
            Some(t) => Some(t.as_str()),
            None => None,
        };
        match build_transport(self.mcp_url.as_str(), token) {
            Ok(_) => ConnectNext::Connect { url: self.mcp_url.clone(), token: self.access_token.clone() },
            Err(e) => ConnectNext::Reply(ConnectResponse::refusal(e)),
        }
    }

    /// The client is connected: it is kept, and the page is told.
    pub fn connected(&mut self, client: C, summary: &ServerSummary) -> (r: ConnectResponse)
        ensures
            *final(self) == (McpClientState { client: Some(client), ..*old(self) }),
            r.welcomes(*summary),
    {
        self.client = Some(client);
        ConnectResponse::welcome(summary)
    }

    /// The first connection failed. An error that does not ask for authorization is the reply; a
    /// token that was not accepted is refreshed, if it can be, or given up.
    pub fn connect_failed(&mut self, error: String) -> (next: ConnectNext)
        ensures
            next.distance() < 6,
            if !wants_authorization(error@) {
                *final(self) == *old(self) && next.refuses(error@)
            } else {
                match old(self).refresh() {
                    Some((at, fields)) => *final(self) == *old(self) && (next matches ConnectNext::Refresh {
                        url,
                        params,
                        error: e,
                    } && url@ == at && pair_texts(params@) == fields && e@ == error@),
                    None => {
                        &&& *final(self) == (if old(self).access_token is Some {
                            old(self).without_tokens()
                        } else {
                            *old(self)
                        })
                        &&& next.probes(old(self).mcp_url@, error@)
                    },
                }
            },
            old(self).gives_way(*final(self), error@, next),
    {
        if !is_auth_required(error.as_str()) {
            return ConnectNext::Reply(ConnectResponse::refusal(error));
        }
        if self.access_token.is_some() {
            match self.refresh_request() {
                Some((url, params)) => {
                    return ConnectNext::Refresh { url, params, error };
                },
                None => {
                    self.lose_tokens();
                },
            }
        }
        ConnectNext::Probe { url: self.mcp_url.clone(), error }
    }

    /// The token endpoint answered. A fresh token is kept and tried; without one the old tokens are
    /// given up.
    pub fn refreshed(&mut self, error: String, fetched: Fetched) -> (next: ConnectNext)
        ensures
            next.distance() < 5,
            match fetched.usable() {
                Some(json) if member_string(json, "access_token"@) is Some => {
                    let token = member_string(json, "access_token"@)->0;
                    &&& *final(self) == (McpClientState {
                        access_token: final(self).access_token,
                        refresh_token: final(self).refresh_token,
                        ..*old(self)
                    })
                    &&& opt_text(final(self).access_token) == Some(token)
                    &&& opt_text(final(self).refresh_token) == (match member_string(json, "refresh_token"@) {
                        Some(t) => Some(t),
                        None => opt_text(old(self).refresh_token),
                    })
                    &&& match transport_fault(old(self).mcp_url@, Some(token)) {
                        Some(fault) => next.refuses(fault),
                        None => next matches ConnectNext::Reconnect { url, fresh_token, error: e } && url@ == old(
                            self,
                        ).mcp_url@ && fresh_token@ == token && e@ == error@,
                    }
                },
                _ => *final(self) == old(self).without_tokens() && next.probes(old(self).mcp_url@, error@),
            },
            old(self).tries_anew(*final(self), error@, fetched, next),
    {
        let json = match fetched.usable_json() {
            Some(json) => json,
            None => {
                return self.reconnect_failed(error);
            },
        };
        let token = match json.get_str("access_token") {
            Some(token) => token,
            None => {
                return self.reconnect_failed(error);
            },
        };
        self.access_token = Some(token.clone());
        match json.get_str("refresh_token") {
            Some(t) => {
                self.refresh_token = Some(t);
            },
            None => {},
        }
        match build_transport(self.mcp_url.as_str(), Some(token.as_str())) {
            Ok(_) => ConnectNext::Reconnect { url: self.mcp_url.clone(), fresh_token: token, error },
            Err(e) => ConnectNext::Reply(ConnectResponse::refusal(e)),
        }
    }

    /// The connection with the fresh token failed too: the tokens are given up.
    pub fn reconnect_failed(&mut self, error: String) -> (next: ConnectNext)
        ensures
            next.distance() < 4,
            *final(self) == old(self).without_tokens(),
            next.probes(old(self).mcp_url@, error@),
    {
        self.lose_tokens();
        ConnectNext::Probe { url: self.mcp_url.clone(), error }
    }

    /// The probe was answered. A challenge starts the authorization; without one, the resource
    /// metadata is looked for at the server's origin.
    pub fn probed(&self, error: String, head: &Option<ResponseHead>) -> (next: ConnectNext)
        ensures
            next.distance() < 3,
            match challenge_in(*head) {
                Some(challenge) => exists|flow: FlowNext| #[trigger]
                    self.begins_flow(challenge, flow) && next.authorizes(flow),
                None => match parsed_url(self.mcp_url@) {
                    Ok(parts) => next matches ConnectNext::Search { url, error: e } && url@ == at_origin(
                        parts,
                        "/.well-known/oauth-protected-resource"@,
                    ) && e@ == error@,
                    Err(_) => next.refuses(error@),
                },
            },
            self.looks_further(error@, *head, next),
    {
        match probe_401(head) {
            Some(challenge) => {
                let flow = self.start_oauth_flow(challenge.as_str());
                assert(self.begins_flow(challenge_in(*head)->0, flow));
                return ConnectNext::from_flow(flow);
            },
            None => {},
        }
        match parse_url(self.mcp_url.as_str()) {
            Ok(parts) => ConnectNext::Search {
                url: origin_with(&parts, "/.well-known/oauth-protected-resource"),
                error,
            },
            Err(_) => ConnectNext::Reply(ConnectResponse::refusal(error)),
        }
    }

    /// The server's origin answered. Metadata that names authorization servers starts the
    /// authorization, as if a challenge had named the metadata's URL.
    pub fn searched(&self, url: &str, error: String, fetched: Fetched) -> (next: ConnectNext)
        ensures
            next.distance() < 2,
            match fetched.usable() {
                Some(json) if has_member(json, "authorization_servers"@) => exists|flow: FlowNext| #[trigger]
                    self.begins_flow(metadata_challenge(url@), flow) && next.authorizes(flow),
                _ => next.refuses(error@),
            },
            self.looks_around(url@, error@, fetched, next),
    {
        match fetched.usable_json() {
            Some(json) => if json.has("authorization_servers") {
                let mut challenge = joined("Bearer resource_metadata=\"", url);
                challenge.append("\"");
                let flow = self.start_oauth_flow(challenge.as_str());
                assert(self.begins_flow(metadata_challenge(url@), flow));
                ConnectNext::from_flow(flow)
            } else {
                ConnectNext::Reply(ConnectResponse::refusal(error))
            },
            None => ConnectNext::Reply(ConnectResponse::refusal(error)),
        }
    }

    /// The authorization goes on with what came back.
    pub fn authorizing(&mut self, phase: FlowPhase, fetched: Fetched) -> (next: ConnectNext)
        requires
            phase.wf(),
        ensures
            exists|flow: FlowNext| #[trigger]
                old(self).goes_on(*final(self), phase, fetched, flow) && next.authorizes(flow),
    {
        let flow = self.flow_step(phase, fetched);
        assert(old(self).goes_on(*self, phase, fetched, flow));
        ConnectNext::from_flow(flow)
    }

    fn lose_tokens(&mut self)
        ensures
            *final(self) == old(self).without_tokens(),
    {
        self.client = None;
        self.access_token = None;
        self.refresh_token = None;
    }

    fn refresh_request(&self) -> (r: Option<(String, Vec<(String, String)>)>)
        requires
            self.access_token is Some,
        ensures
            match r {
                Some((url, params)) => self.refresh() == Some((url@, pair_texts(params@))),
                None => self.refresh() is None,
            },
    {
        let token = match &self.refresh_token {
            Some(t) => t,
            None => {
                return None;
            },
        };
        let url = match &self.auth_server_metadata {
            Some(m) => match m.get_str("token_endpoint") {
                Some(u) => u,
                None => {
                    return None;
                },
            },
            None => {
                return None;
            },
        };
        let client_id = match &self.client_id {
            Some(id) => id.clone(),
            None => String::new(),
        };
        assert(client_id@ =~= or_empty(self.client_id));
        let mut params: Vec<(String, String)> = Vec::new();
        params.push(pair("grant_type", "refresh_token"));
        params.push(pair("refresh_token", token.as_str()));
        params.push(pair("client_id", client_id.as_str()));
        params.push(pair("resource", canonical_resource(self.mcp_url.as_str()).as_str()));
        match &self.scopes {
            Some(s) => {
                params.push(pair("scope", s.as_str()));
            },
            None => {},
        }
        match &self.client_secret {
            Some(s) => {
                params.push(pair("client_secret", s.as_str()));
            },
            None => {},
        }
        assert(pair_texts(params@) =~= (self.refresh()->0).1);
        Some((url, params))
    }
}

// -- What holds of connecting.

/// A token is refreshed exactly where there is one to refresh and a place to do so; the form carries the
/// refresh token, the client and the resource, and the scopes and the secret exactly where they are kept.
pub proof fn a_refresh_carries_what_is_kept<C>(state: McpClientState<C>)
    ensures
        state.refresh() is Some <==> {
            &&& state.access_token is Some
            &&& state.refresh_token is Some
            &&& state.auth_server_metadata matches Some(m) && member_string(m@, "token_endpoint"@) is Some
        },
        state.refresh() matches Some((url, fields)) ==> {
            &&& member_string(state.auth_server_metadata->0@, "token_endpoint"@) == Some(url)
            &&& holds_only(fields, "grant_type"@, "refresh_token"@)
            &&& holds_only(fields, "refresh_token"@, state.refresh_token->0@)
            &&& holds_only(
                fields,
                "client_id"@,
                match state.client_id {
                    Some(id) => id@,
                    None => Seq::empty(),
                },
            )
            &&& holds_only(fields, "resource"@, resource_identifier(state.mcp_url@))
            &&& match state.scopes {
                Some(s) => holds_only(fields, "scope"@, s@),
                None => holds_none(fields, "scope"@),
            }
            &&& match state.client_secret {
                Some(s) => holds_only(fields, "client_secret"@, s@),
                None => holds_none(fields, "client_secret"@),
            }
        },
{
    reveal_strlit("grant_type");
    reveal_strlit("refresh_token");
    reveal_strlit("client_id");
    reveal_strlit("resource");
    reveal_strlit("scope");
    reveal_strlit("client_secret");
    if state.refresh() is Some {
        let fields = (state.refresh()->0).1;
        assert("refresh_token"@[0] != "client_secret"@[0]);
        assert("grant_type"@.len() == 10 && "refresh_token"@.len() == 13 && "client_id"@.len() == 9
            && "resource"@.len() == 8 && "scope"@.len() == 5 && "client_secret"@.len() == 13);
        assert(fields[0].0 == "grant_type"@ && fields[1].0 == "refresh_token"@ && fields[2].0 == "client_id"@
            && fields[3].0 == "resource"@);
        let at: int = if state.scopes is Some {
            5
        } else {
            4
        };
        assert(state.scopes is Some ==> fields[4] == ("scope"@, state.scopes->0@));
        assert(state.client_secret is Some ==> fields[at] == ("client_secret"@, state.client_secret->0@));
        lemma_holds_only(fields, 0);
        lemma_holds_only(fields, 1);
        lemma_holds_only(fields, 2);
        lemma_holds_only(fields, 3);
        if state.scopes is Some {
            lemma_holds_only(fields, 4);
        }
        if state.client_secret is Some {
            lemma_holds_only(fields, at);
        }
    }
}

/// Every URL of HTTP can be connected to without a token; with one, any URL can, where the token fits into
/// a header.
pub proof fn http_urls_can_be_connected_to(url: Seq<char>, token: Seq<char>)
    ensures
        transport_fault(url, None) is None <==> parsed_url(url) is Ok && (parsed_url(url)->Ok_0.scheme == "http"@
            || parsed_url(url)->Ok_0.scheme == "https"@),
        transport_fault(url, Some(token)) is None <==> parsed_url(url) is Ok && forall|i: int|
            0 <= i < encode_utf8("Bearer "@ + token).len() ==> (#[trigger] encode_utf8("Bearer "@ + token)[i] == 9
                || (encode_utf8("Bearer "@ + token)[i] >= 32 && encode_utf8("Bearer "@ + token)[i] != 127)),
{
    let bytes = encode_utf8("Bearer "@ + token);
    if forall|i: int| 0 <= i < bytes.len() ==> (#[trigger] bytes[i] == 9 || (bytes[i] >= 32 && bytes[i] != 127)) {
        assert(forall|i: int| 0 <= i < bytes.len() ==> is_header_byte(#[trigger] bytes[i]));
    } else {
        let i = choose|i: int| 0 <= i < bytes.len() && !(#[trigger] bytes[i] == 9 || (bytes[i] >= 32 && bytes[i] != 127));
        assert(!is_header_byte(bytes[i]));
    }
}

/// A probe finds a challenge exactly where it is answered that authorization is wanted: the one in the
/// first header of that name, or the empty one.
pub proof fn only_a_401_is_a_challenge(head: ResponseHead)
    ensures
        challenge_in(Some(head)) is Some <==> head.status == 401,
        challenge_in(None) is None,
        head.status == 401 ==> challenge_in(Some(head)) == Some(
            match header_of(header_views(head.headers@), "www-authenticate"@) {
                Some(text) => text,
                None => Seq::empty(),
            },
        ),
{
}

/// A server is probed with a JSON-RPC request that initializes a session of the current protocol.
pub proof fn the_probe_initializes()
    ensures
        has_member(probe_document(), "id"@),
        member(probe_document(), "jsonrpc"@) == Some(JsonView::Text("2.0"@)),
        member(probe_document(), "method"@) == Some(JsonView::Text("initialize"@)),
        member(probe_document(), "params"@) matches Some(params) && member(params, "protocolVersion"@) == Some(
            JsonView::Text("2025-11-25"@),
        ) && has_member(params, "clientInfo"@) && has_member(params, "capabilities"@),
{
    reveal_strlit("id");
    reveal_strlit("jsonrpc");
    reveal_strlit("method");
    reveal_strlit("params");
    reveal_strlit("capabilities");
    reveal_strlit("clientInfo");
    reveal_strlit("protocolVersion");
    let members = probe_document()->Object_0;
    assert("id"@.len() == 2 && "jsonrpc"@.len() == 7 && "method"@.len() == 6 && "params"@.len() == 6);
    assert("method"@[0] != "params"@[0]);
    assert(members[0].0 == "id"@ && members[1].0 == "jsonrpc"@ && members[2].0 == "method"@ && members[3].0
        == "params"@);
    the_first_member_counts(members.take(0), "id"@, members[0].1, members.skip(1));
    assert(members =~= members.take(0) + seq![members[0]] + members.skip(1));
    the_first_member_counts(members.take(1), "jsonrpc"@, members[1].1, members.skip(2));
    assert(members =~= members.take(1) + seq![members[1]] + members.skip(2));
    the_first_member_counts(members.take(2), "method"@, members[2].1, members.skip(3));
    assert(members =~= members.take(2) + seq![members[2]] + members.skip(3));
    the_first_member_counts(members.take(3), "params"@, members[3].1, members.skip(4));
    assert(members =~= members.take(3) + seq![members[3]] + members.skip(4));
    let inner = members[3].1->Object_0;
    assert("capabilities"@.len() == 12 && "clientInfo"@.len() == 10 && "protocolVersion"@.len() == 15);
    assert(inner[0].0 == "capabilities"@ && inner[1].0 == "clientInfo"@ && inner[2].0 == "protocolVersion"@);
    the_first_member_counts(inner.take(0), "capabilities"@, inner[0].1, inner.skip(1));
    assert(inner =~= inner.take(0) + seq![inner[0]] + inner.skip(1));
    the_first_member_counts(inner.take(1), "clientInfo"@, inner[1].1, inner.skip(2));
    assert(inner =~= inner.take(1) + seq![inner[1]] + inner.skip(2));
    the_first_member_counts(inner.take(2), "protocolVersion"@, inner[2].1, inner.skip(3));
    assert(inner =~= inner.take(2) + seq![inner[2]] + inner.skip(3));
}

/// A fresh start forgets everything about the server but its URL: the client, the tokens, what was
/// discovered and what was registered. Without one, everything but the URL stays.
pub proof fn a_fresh_start_forgets_everything<C>(before: McpClientState<C>, body: ConnectBody, after: McpClientState<C>)
    requires
        before.takes_up(body, after),
    ensures
        after.base_url@ == before.base_url@,
        body.url is None ==> after.mcp_url@ == before.mcp_url@,
        body.url matches Some(url) ==> "http"@.is_prefix_of(after.mcp_url@) && trimmed(url@).is_suffix_of(
            after.mcp_url@,
        ),
        body.force_reauth == Some(true) ==> {
            &&& after.client is None && after.access_token is None && after.refresh_token is None
            &&& after.pkce_verifier is None && after.oauth_state is None && after.scopes is None
            &&& after.resource_metadata is None && after.auth_server_metadata is None
            &&& after.client_id is None && after.client_secret is None
        },
        body.force_reauth != Some(true) ==> {
            &&& after.client == before.client
            &&& after.access_token == before.access_token && after.refresh_token == before.refresh_token
            &&& after.pkce_verifier == before.pkce_verifier && after.oauth_state == before.oauth_state
            &&& after.scopes == before.scopes && after.resource_metadata == before.resource_metadata
            &&& after.auth_server_metadata == before.auth_server_metadata
            &&& after.client_id == before.client_id && after.client_secret == before.client_secret
        },
{
    if body.url is Some {
        normalized_urls_have_a_scheme(body.url->0@);
    }
}

/// Tokens that were not accepted are given up together with the connection; what was discovered and
/// registered stays.
pub proof fn giving_up_tokens_keeps_the_registration<C>(state: McpClientState<C>)
    ensures
        ({
            let after = state.without_tokens();
            &&& after.client is None && after.access_token is None && after.refresh_token is None
            &&& after.base_url == state.base_url && after.mcp_url == state.mcp_url
            &&& after.pkce_verifier == state.pkce_verifier && after.oauth_state == state.oauth_state
            &&& after.scopes == state.scopes && after.resource_metadata == state.resource_metadata
            &&& after.auth_server_metadata == state.auth_server_metadata
            &&& after.client_id == state.client_id && after.client_secret == state.client_secret
        }),
{
}

/// The end of an authorization is told to the page: the URL to send the user to, or the reason why there is
/// none; either way the page knows that the user has to authorize. Until then the flow goes on.
pub proof fn the_page_is_told_where_to_authorize(next: ConnectNext, flow: FlowNext)
    requires
        next.authorizes(flow),
    ensures
        flow matches FlowNext::Done(Ok(url)) ==> next is Reply && !next->Reply_0.ok && next->Reply_0.needs_auth
            && opt_text(next->Reply_0.auth_url) == Some(url@) && next->Reply_0.error is None,
        flow matches FlowNext::Done(Err(reason)) ==> next is Reply && !next->Reply_0.ok && next->Reply_0.needs_auth
            && next->Reply_0.auth_url is None && opt_text(next->Reply_0.error) == Some(reason@),
        flow matches FlowNext::Ask(phase, action) ==> next is Authorize && next->Authorize_0 == phase
            && next->Authorize_1 == action,
{
}

/// A connection, a refusal and a wish for authorization are told apart.
pub proof fn replies_are_told_apart(r: ConnectResponse, summary: ServerSummary, reason: Seq<char>)
    ensures
        r.welcomes(summary) ==> r.ok && !r.needs_auth && r.error is None && r.auth_url is None && opt_view(r.server_info)
            == Some(summary.info_json()) && opt_view(r.capabilities) == Some(summary.capabilities_json()),
        r.refuses(reason) ==> !r.ok && !r.needs_auth && opt_text(r.error) == Some(reason) && r.auth_url is None
            && r.server_info is None && r.capabilities is None,
{
}

/// A transport that cannot be built is refused with the reason at the end of the wording.
pub proof fn faults_name_their_reasons(url: Seq<char>, token: Option<Seq<char>>, e: Seq<char>)
    ensures
        transport_fault(url, token) matches Some(fault) ==> {
            &&& parsed_url(url) == Err::<UrlView, Seq<char>>(e) && (token matches Some(t) ==> fits_header(
                "Bearer "@ + t,
            )) ==> e.is_suffix_of(fault)
            &&& token is None ==> (parsed_url(url) matches Ok(parts) ==> parts.scheme.is_suffix_of(fault))
        },
{
    if parsed_url(url) is Err {
        let reason = parsed_url(url)->Err_0;
        let fault = transport_wording("Invalid URL: "@ + reason);
        assert(fault.subrange(fault.len() - reason.len(), fault.len() as int) =~= reason);
    } else {
        let scheme = parsed_url(url)->Ok_0.scheme;
        let fault = transport_wording("Invalid scheme for HTTP transport: "@ + scheme);
        assert(fault.subrange(fault.len() - scheme.len(), fault.len() as int) =~= scheme);
    }
}

/// A failure whose text holds the number of the refusal never ends the connecting: it leads to a refresh of
/// the token, with the refresh token that is kept, or to a probe of the server. The error is kept for later.
pub proof fn a_refusal_is_followed_up<C>(
    before: McpClientState<C>,
    after: McpClientState<C>,
    said: Seq<char>,
    more: Seq<char>,
    next: ConnectNext,
)
    requires
        before.gives_way(after, said + "401"@ + more, next),
    ensures
        next is Refresh || next is Probe,
        next matches ConnectNext::Refresh { url, params, error } ==> {
            &&& error@ == said + "401"@ + more
            &&& before.refresh_token is Some
            &&& holds_only(pair_texts(params@), "refresh_token"@, before.refresh_token->0@)
            &&& holds_only(pair_texts(params@), "grant_type"@, "refresh_token"@)
            &&& after == before
        },
        next matches ConnectNext::Probe { url, error } ==> {
            &&& error@ == said + "401"@ + more
            &&& url@ == before.mcp_url@
            &&& after.access_token is None && after.refresh_token is None || after == before
        },
{
    refusals_ask_for_authorization(said, more);
    a_refresh_carries_what_is_kept(before);
}

/// A token that the token endpoint gives is kept and tried, together with the refresh token that came with
/// it, or else with the old one; an answer without one costs the tokens, and the server is probed.
pub proof fn a_fresh_token_is_tried<C>(
    before: McpClientState<C>,
    after: McpClientState<C>,
    error: Seq<char>,
    answer: Answer,
    next: ConnectNext,
)
    requires
        before.tries_anew(after, error, Fetched::Answer(answer), next),
        answer.body matches Ok(bytes) && parsed(bytes@) is Ok,
    ensures
        ({
            let json = parsed(answer.body->Ok_0@)->Ok_0;
            let given = 200 <= answer.status < 300 && member(json, "access_token"@) is Some && member(
                json,
                "access_token"@,
            )->0 is Text;
            &&& !given ==> next is Probe && after.access_token is None && after.refresh_token is None
            &&& given && transport_fault(before.mcp_url@, Some(text_member(json, "access_token"@))) is None ==> {
                &&& next is Reconnect
                &&& next->fresh_token@ == text_member(json, "access_token"@)
                &&& opt_text(after.access_token) == Some(text_member(json, "access_token"@))
                &&& member(json, "refresh_token"@) is Some && member(json, "refresh_token"@)->0 is Text ==> opt_text(
                    after.refresh_token,
                ) == Some(text_member(json, "refresh_token"@))
                &&& member(json, "refresh_token"@) is None ==> opt_text(after.refresh_token) == opt_text(
                    before.refresh_token,
                )
            }
        }),
{
    documents_of_success_are_usable(answer);
}

/// A probe that is answered with a challenge starts the authorization where the challenge says; one that is
/// not is followed by a search at the server's origin.
pub proof fn a_challenge_starts_the_authorization<C>(
    state: McpClientState<C>,
    error: Seq<char>,
    head: ResponseHead,
    url: UrlView,
    next: ConnectNext,
)
    requires
        state.looks_further(error, Some(head), next),
        parsed_url(state.mcp_url@) == Ok::<UrlView, Seq<char>>(url),
    ensures
        head.status == 401 ==> next is Authorize,
        head.status == 401 ==> (header_of(header_views(head.headers@), "www-authenticate"@) matches Some(header) ==> (
        param_value(challenge_params(header), "resource_metadata"@) matches Some(place) ==> (next->Authorize_1 is Get
            && next->Authorize_1->Get_0@ == place))),
        head.status != 401 ==> next is Search && next->Search_error@ == error && next->Search_url@ == url.scheme
            + "://"@ + url.authority + "/.well-known/oauth-protected-resource"@,
{
    if head.status == 401 {
        match next {
            ConnectNext::Authorize(phase, action) => {
                the_challenge_says_where_to_look(
                    state,
                    challenge_in(Some(head))->0,
                    url,
                    FlowNext::Ask(phase, action),
                );
            },
            _ => {},
        }
    }
}

/// A server of HTTP is connected to with the token that is kept; one that is connected already is asked about
/// itself; and without a URL there is nothing to connect to.
pub proof fn connecting_begins<C>(state: McpClientState<C>, next: ConnectNext)
    requires
        state.sets_out(next),
    ensures
        state.mcp_url@.len() == 0 ==> next is Reply && !next->Reply_0.ok,
        state.mcp_url@.len() > 0 && state.client is Some ==> next is Describe,
        state.mcp_url@.len() > 0 && state.client is None && state.access_token is None && parsed_url(state.mcp_url@) is Ok
            && (parsed_url(state.mcp_url@)->Ok_0.scheme == "http"@ || parsed_url(state.mcp_url@)->Ok_0.scheme
            == "https"@) ==> next is Connect && next->Connect_url@ == state.mcp_url@ && next->token is None,
        next matches ConnectNext::Connect { url, token } ==> opt_text(token) == opt_text(state.access_token),
{
    http_urls_can_be_connected_to(state.mcp_url@, Seq::empty());
}

/// Metadata at the server's origin that names authorization servers starts the authorization with that very
/// metadata; anything else ends in the error that the first connection gave.
pub proof fn metadata_at_the_origin_starts_the_authorization<C>(
    state: McpClientState<C>,
    place: Seq<char>,
    error: Seq<char>,
    answer: Answer,
    json: JsonView,
    url: UrlView,
    next: ConnectNext,
)
    requires
        state.looks_around(place, error, Fetched::Answer(answer), next),
        answer.body matches Ok(bytes) && parsed(bytes@) == Ok::<JsonView, Seq<char>>(json),
        parsed_url(state.mcp_url@) == Ok::<UrlView, Seq<char>>(url),
        !place.contains('"'),
    ensures
        200 <= answer.status < 300 && has_member(json, "authorization_servers"@) ==> next is Authorize
            && next->Authorize_1 is Get && next->Authorize_1->Get_0@ == place,
        !(200 <= answer.status < 300) || !has_member(json, "authorization_servers"@) ==> next is Reply
            && !next->Reply_0.needs_auth && opt_text(next->Reply_0.error) == Some(error),
{
    documents_of_success_are_usable(answer);
    metadata_challenge_reads_back(place);
    match next {
        ConnectNext::Authorize(phase, action) => {
            the_challenge_says_where_to_look(state, metadata_challenge(place), url, FlowNext::Ask(phase, action));
        },
        _ => {},
    }
}

} // verus!
